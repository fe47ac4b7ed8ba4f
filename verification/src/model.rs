//! Mathematical model of a backend store: the label set, the stored todos
//! with their association ids, and the two id counters. Every repository
//! operation is specified as a transition on this model.

use vstd::prelude::*;

use crate::entities::{CreateTodoModel, ErrorModel, LabelModel, TodoModel, UpdateTodoModel};

verus! {

/// A stored todo: the association is kept as the sequence of label ids given
/// at creation; the label sequence callers see is resolved at read time.
pub ghost struct TodoRecModel {
    pub id: int,
    pub text: Seq<char>,
    pub completed: bool,
    pub label_ids: Seq<int>,
}

/// The whole store: labels and todos, each with its own monotonic id counter.
pub ghost struct StoreModel {
    pub labels: Seq<LabelModel>,
    pub todos: Seq<TodoRecModel>,
    pub next_label_id: int,
    pub next_todo_id: int,
}

/// First label with the given id, in store order.
pub open spec fn find_label(labels: Seq<LabelModel>, id: int) -> Option<LabelModel>
    decreases labels.len(),
{
    if labels.len() == 0 {
        None
    } else if labels[0].id == id {
        Some(labels[0])
    } else {
        find_label(labels.drop_first(), id)
    }
}

/// First label with the given name, in store order.
pub open spec fn find_label_by_name(labels: Seq<LabelModel>, name: Seq<char>) -> Option<LabelModel>
    decreases labels.len(),
{
    if labels.len() == 0 {
        None
    } else if labels[0].name == name {
        Some(labels[0])
    } else {
        find_label_by_name(labels.drop_first(), name)
    }
}

/// Index of the first label with the given id; meaningful only when present.
pub open spec fn label_index(labels: Seq<LabelModel>, id: int) -> int
    decreases labels.len(),
{
    if labels.len() == 0 {
        0
    } else if labels[0].id == id {
        0
    } else {
        1 + label_index(labels.drop_first(), id)
    }
}

/// First stored todo with the given id, in store order.
pub open spec fn find_todo_rec(todos: Seq<TodoRecModel>, id: int) -> Option<TodoRecModel>
    decreases todos.len(),
{
    if todos.len() == 0 {
        None
    } else if todos[0].id == id {
        Some(todos[0])
    } else {
        find_todo_rec(todos.drop_first(), id)
    }
}

/// Index of the first stored todo with the given id; meaningful only when present.
pub open spec fn todo_index(todos: Seq<TodoRecModel>, id: int) -> int
    decreases todos.len(),
{
    if todos.len() == 0 {
        0
    } else if todos[0].id == id {
        0
    } else {
        1 + todo_index(todos.drop_first(), id)
    }
}

/// The first referenced label id that names no existing label, if any.
pub open spec fn first_missing(labels: Seq<LabelModel>, ids: Seq<int>) -> Option<int>
    decreases ids.len(),
{
    if ids.len() == 0 {
        None
    } else if find_label(labels, ids[0]) is None {
        Some(ids[0])
    } else {
        first_missing(labels, ids.drop_first())
    }
}

/// Materialization of an association: each referenced id is resolved to its
/// label; ids that no longer name a label resolve to nothing.
pub open spec fn resolve(labels: Seq<LabelModel>, ids: Seq<int>) -> Seq<LabelModel>
    decreases ids.len(),
{
    if ids.len() == 0 {
        Seq::empty()
    } else {
        match find_label(labels, ids[0]) {
            Some(l) => seq![l] + resolve(labels, ids.drop_first()),
            None => resolve(labels, ids.drop_first()),
        }
    }
}

/// A stored todo as callers see it, with the association materialized.
pub open spec fn materialize(labels: Seq<LabelModel>, rec: TodoRecModel) -> TodoModel {
    TodoModel {
        id: rec.id,
        text: rec.text,
        completed: rec.completed,
        labels: resolve(labels, rec.label_ids),
    }
}

/// Predicate kept by scrubbing the given label id from an association.
pub open spec fn keeps(id: int) -> spec_fn(int) -> bool {
    |x: int| x != id
}

/// A stored todo with one label id scrubbed from its association.
pub open spec fn scrub(rec: TodoRecModel, id: int) -> TodoRecModel {
    TodoRecModel { label_ids: rec.label_ids.filter(keeps(id)), ..rec }
}

pub open spec fn labels_ascending(labels: Seq<LabelModel>) -> bool {
    forall|i: int, j: int| 0 <= i < j < labels.len() ==> labels[i].id < labels[j].id
}

pub open spec fn label_names_unique(labels: Seq<LabelModel>) -> bool {
    forall|i: int, j: int|
        0 <= i < labels.len() && 0 <= j < labels.len() && i != j ==> labels[i].name
            != labels[j].name
}

pub open spec fn todos_ascending(todos: Seq<TodoRecModel>) -> bool {
    forall|i: int, j: int| 0 <= i < j < todos.len() ==> todos[i].id < todos[j].id
}

pub open spec fn has_label(labels: Seq<LabelModel>, id: int) -> bool {
    exists|i: int| 0 <= i < labels.len() && labels[i].id == id
}

pub open spec fn has_todo(todos: Seq<TodoRecModel>, id: int) -> bool {
    exists|i: int| 0 <= i < todos.len() && todos[i].id == id
}

/// Every label id referenced by a stored todo names an existing label.
pub open spec fn assoc_valid(m: StoreModel) -> bool {
    forall|i: int, k: int|
        0 <= i < m.todos.len() && 0 <= k < m.todos[i].label_ids.len() ==> has_label(
            m.labels,
            #[trigger] m.todos[i].label_ids[k],
        )
}

/// Well-formedness of a store: ids ascending (hence unique), below their
/// counter and at least 1, label names unique, every association resolvable,
/// and the counters within the id type's range.
pub open spec fn wf(m: StoreModel) -> bool {
    &&& labels_ascending(m.labels)
    &&& label_names_unique(m.labels)
    &&& todos_ascending(m.todos)
    &&& (forall|i: int|
        0 <= i < m.labels.len() ==> 1 <= (#[trigger] m.labels[i]).id < m.next_label_id)
    &&& (forall|i: int| 0 <= i < m.todos.len() ==> 1 <= (#[trigger] m.todos[i]).id < m.next_todo_id)
    &&& assoc_valid(m)
    &&& 1 <= m.next_label_id <= i32::MAX as int
    &&& 1 <= m.next_todo_id <= i32::MAX as int
}

/// Creating a label: a name collision reports the existing label's id; an
/// exhausted id counter is an unexpected failure; otherwise the label is
/// appended under a fresh id.
pub open spec fn create_label_t(m: StoreModel, name: Seq<char>) -> (StoreModel, Result<
    LabelModel,
    ErrorModel,
>) {
    match find_label_by_name(m.labels, name) {
        Some(l) => (m, Err(ErrorModel::Duplicate(l.id))),
        None => {
            if m.next_label_id == i32::MAX as int {
                (m, Err(ErrorModel::Unexpected))
            } else {
                let l = LabelModel { id: m.next_label_id, name };
                (
                    StoreModel {
                        labels: m.labels.push(l),
                        next_label_id: m.next_label_id + 1,
                        ..m
                    },
                    Ok(l),
                )
            }
        },
    }
}

/// All labels, in ascending id order.
pub open spec fn all_labels_q(m: StoreModel) -> Seq<LabelModel> {
    m.labels
}

/// Deleting a label: a missing id is reported; otherwise the label leaves the
/// store and its id is scrubbed from every todo's association, while the
/// todos themselves stay.
pub open spec fn delete_label_t(m: StoreModel, id: int) -> (StoreModel, Result<(), ErrorModel>) {
    if !has_label(m.labels, id) {
        (m, Err(ErrorModel::NotFound(id)))
    } else {
        (
            StoreModel {
                labels: m.labels.remove(label_index(m.labels, id)),
                todos: m.todos.map_values(|rec: TodoRecModel| scrub(rec, id)),
                ..m
            },
            Ok(()),
        )
    }
}

/// Creating a todo: the first missing label id is reported and nothing is
/// stored; an exhausted id counter is an unexpected failure; otherwise the
/// todo is appended under a fresh id, not completed, and the caller receives
/// it with the association materialized.
pub open spec fn create_todo_t(m: StoreModel, input: CreateTodoModel) -> (StoreModel, Result<
    TodoModel,
    ErrorModel,
>) {
    match first_missing(m.labels, input.labels) {
        Some(bad) => (m, Err(ErrorModel::NotFound(bad))),
        None => {
            if m.next_todo_id == i32::MAX as int {
                (m, Err(ErrorModel::Unexpected))
            } else {
                let rec = TodoRecModel {
                    id: m.next_todo_id,
                    text: input.text,
                    completed: false,
                    label_ids: input.labels,
                };
                (
                    StoreModel { todos: m.todos.push(rec), next_todo_id: m.next_todo_id + 1, ..m },
                    Ok(materialize(m.labels, rec)),
                )
            }
        },
    }
}

/// Finding a todo: materialized on success, `NotFound` with the id otherwise.
pub open spec fn find_todo_t(m: StoreModel, id: int) -> Result<TodoModel, ErrorModel> {
    match find_todo_rec(m.todos, id) {
        Some(rec) => Ok(materialize(m.labels, rec)),
        None => Err(ErrorModel::NotFound(id)),
    }
}

/// All todos, in ascending id order, each materialized.
pub open spec fn all_todos_q(m: StoreModel) -> Seq<TodoModel> {
    m.todos.map_values(|rec: TodoRecModel| materialize(m.labels, rec))
}

/// A stored todo with a partial update applied: present fields replace the
/// stored values, absent fields keep them.
pub open spec fn patch(rec: TodoRecModel, up: UpdateTodoModel) -> TodoRecModel {
    TodoRecModel {
        text: match up.text {
            Some(t) => t,
            None => rec.text,
        },
        completed: match up.completed {
            Some(c) => c,
            None => rec.completed,
        },
        ..rec
    }
}

/// Updating a todo: a missing id is reported; otherwise the stored todo is
/// replaced by its patched value and returned materialized.
pub open spec fn update_todo_t(m: StoreModel, id: int, up: UpdateTodoModel) -> (StoreModel, Result<
    TodoModel,
    ErrorModel,
>) {
    if !has_todo(m.todos, id) {
        (m, Err(ErrorModel::NotFound(id)))
    } else {
        let i = todo_index(m.todos, id);
        let rec = patch(m.todos[i], up);
        (
            StoreModel { todos: m.todos.update(i, rec), ..m },
            Ok(materialize(m.labels, rec)),
        )
    }
}

/// Deleting a todo: a missing id is reported; otherwise the stored todo
/// leaves the store and its association with it.
pub open spec fn delete_todo_t(m: StoreModel, id: int) -> (StoreModel, Result<(), ErrorModel>) {
    if !has_todo(m.todos, id) {
        (m, Err(ErrorModel::NotFound(id)))
    } else {
        (StoreModel { todos: m.todos.remove(todo_index(m.todos, id)), ..m }, Ok(()))
    }
}

} // verus!
