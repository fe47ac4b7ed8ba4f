//! The laws the store obeys, stated over the model transitions and proved
//! once for every well-formed store. The in-memory backend's methods are
//! specified by exactly these transitions, so each law carries over to every
//! sequence of calls on it — including calls interleaved by the lock that
//! serializes concurrent requests.

use vstd::prelude::*;

use crate::entities::{CreateTodoModel, ErrorModel, LabelModel, TodoModel, UpdateTodoModel};
use crate::model::{
    all_labels_q, all_todos_q, create_label_t, create_todo_t, delete_label_t, delete_todo_t,
    find_label_by_name, find_todo_rec, find_todo_t, first_missing, has_label, has_todo,
    materialize, update_todo_t, wf, StoreModel, TodoRecModel,
};
use crate::model_props::{
    lemma_create_label_wf, lemma_create_todo_wf, lemma_delete_label_wf, lemma_find_todo_props,
    lemma_resolve_no_id,
};

verus! {

/// Appending a record under an id nobody carries makes the first-match
/// search find exactly that record.
proof fn lemma_find_pushed_todo(todos: Seq<TodoRecModel>, rec: TodoRecModel)
    requires
        forall|k: int| 0 <= k < todos.len() ==> (#[trigger] todos[k]).id != rec.id,
    ensures
        find_todo_rec(todos.push(rec), rec.id) == Some(rec),
    decreases todos.len(),
{
    let pushed = todos.push(rec);
    if todos.len() == 0 {
        assert(pushed[0] == rec);
    } else {
        assert(pushed[0] == todos[0]);
        assert(pushed.drop_first() =~= todos.drop_first().push(rec));
        assert forall|k: int| 0 <= k < todos.drop_first().len() implies (#[trigger] todos.drop_first()[k]).id
            != rec.id by {
            assert(todos.drop_first()[k] == todos[k + 1]);
        }
        lemma_find_pushed_todo(todos.drop_first(), rec);
    }
}

/// Appending a label under a name nobody carries makes the by-name search
/// find exactly that label.
proof fn lemma_find_pushed_label_name(labels: Seq<LabelModel>, l: LabelModel)
    requires
        forall|k: int| 0 <= k < labels.len() ==> (#[trigger] labels[k]).name != l.name,
    ensures
        find_label_by_name(labels.push(l), l.name) == Some(l),
    decreases labels.len(),
{
    let pushed = labels.push(l);
    if labels.len() == 0 {
        assert(pushed[0] == l);
    } else {
        assert(pushed[0] == labels[0]);
        assert(pushed.drop_first() =~= labels.drop_first().push(l));
        assert forall|k: int| 0 <= k < labels.drop_first().len() implies (#[trigger] labels.drop_first()[k]).name
            != l.name by {
            assert(labels.drop_first()[k] == labels[k + 1]);
        }
        lemma_find_pushed_label_name(labels.drop_first(), l);
    }
}

/// Law: for every valid create input whose label ids all exist, creating a
/// todo succeeds and finding the returned id afterwards yields the very todo
/// that the creation returned.
pub proof fn lemma_create_then_find(m: StoreModel, input: CreateTodoModel)
    requires
        wf(m),
        first_missing(m.labels, input.labels) is None,
        m.next_todo_id < i32::MAX as int,
    ensures
        create_todo_t(m, input).1 is Ok,
        find_todo_t(create_todo_t(m, input).0, create_todo_t(m, input).1->Ok_0.id) == Ok::<
            TodoModel,
            ErrorModel,
        >(create_todo_t(m, input).1->Ok_0),
{
    let rec = TodoRecModel {
        id: m.next_todo_id,
        text: input.text,
        completed: false,
        label_ids: input.labels,
    };
    let m1 = create_todo_t(m, input).0;
    assert forall|k: int| 0 <= k < m.todos.len() implies (#[trigger] m.todos[k]).id != rec.id by {
        assert(m.todos[k].id < m.next_todo_id);
    }
    lemma_find_pushed_todo(m.todos, rec);
    assert(find_todo_rec(m1.todos, rec.id) == Some(rec));
    assert(materialize(m1.labels, rec) == materialize(m.labels, rec));
}

/// Law: finding, updating and deleting an id that no stored todo carries all
/// fail with `NotFound` of that very id and leave the store unchanged.
pub proof fn lemma_missing_todo_rejected(m: StoreModel, id: int, up: UpdateTodoModel)
    requires
        !has_todo(m.todos, id),
    ensures
        find_todo_t(m, id) == Err::<TodoModel, ErrorModel>(ErrorModel::NotFound(id)),
        update_todo_t(m, id, up) == (m, Err::<TodoModel, ErrorModel>(ErrorModel::NotFound(id))),
        delete_todo_t(m, id) == (m, Err::<(), ErrorModel>(ErrorModel::NotFound(id))),
{
    lemma_find_todo_props(m.todos, id);
}

/// Law: creating the same label name twice yields the fresh label, then
/// `Duplicate` carrying that label's id and an unchanged store; afterwards
/// exactly one stored label carries the name.
pub proof fn lemma_duplicate_label_create(m: StoreModel, name: Seq<char>)
    requires
        wf(m),
        find_label_by_name(m.labels, name) is None,
        m.next_label_id < i32::MAX as int,
    ensures
        ({
            let (m1, r1) = create_label_t(m, name);
            let (m2, r2) = create_label_t(m1, name);
            &&& r1 == Ok::<LabelModel, ErrorModel>(LabelModel { id: m.next_label_id, name })
            &&& r2 == Err::<LabelModel, ErrorModel>(ErrorModel::Duplicate(m.next_label_id))
            &&& m2 == m1
            &&& exists|k: int|
                0 <= k < all_labels_q(m1).len() && (#[trigger] all_labels_q(m1)[k]).name == name
            &&& forall|i: int, j: int|
                0 <= i < all_labels_q(m1).len() && 0 <= j < all_labels_q(m1).len()
                    && (#[trigger] all_labels_q(m1)[i]).name == name && (#[trigger] all_labels_q(
                    m1,
                )[j]).name == name ==> i == j
        }),
{
    lemma_create_label_wf(m, name);
    crate::model_props::lemma_find_label_by_name_props(m.labels, name);
    let l = LabelModel { id: m.next_label_id, name };
    let m1 = create_label_t(m, name).0;
    lemma_find_pushed_label_name(m.labels, l);
    assert(m1.labels == m.labels.push(l));
    assert(all_labels_q(m1)[m.labels.len() as int] == l);
}

/// Law: deleting a label removes it from the materialized label sequence of
/// every todo previously associated with it, while every todo itself stays,
/// with its id, text and completion flag untouched.
pub proof fn lemma_delete_label_scrubs_todos(m: StoreModel, id: int)
    requires
        wf(m),
        has_label(m.labels, id),
    ensures
        delete_label_t(m, id).1 is Ok,
        ({
            let m1 = delete_label_t(m, id).0;
            &&& m1.todos.len() == m.todos.len()
            &&& (forall|k: int|
                0 <= k < m.todos.len() ==> {
                    &&& (#[trigger] m1.todos[k]).id == m.todos[k].id
                    &&& m1.todos[k].text == m.todos[k].text
                    &&& m1.todos[k].completed == m.todos[k].completed
                })
            &&& (forall|k: int, j: int|
                0 <= k < m1.todos.len() && 0 <= j < all_todos_q(m1)[k].labels.len()
                    ==> (#[trigger] all_todos_q(m1)[k].labels[j]).id != id)
        }),
{
    lemma_delete_label_wf(m, id);
    let m1 = delete_label_t(m, id).0;
    assert forall|k: int, j: int|
        0 <= k < m1.todos.len() && 0 <= j < all_todos_q(m1)[k].labels.len() implies (
    #[trigger] all_todos_q(m1)[k].labels[j]).id != id by {
        lemma_resolve_no_id(m1.labels, m1.todos[k].label_ids, id);
        assert(all_todos_q(m1)[k].labels == materialize(m1.labels, m1.todos[k]).labels);
    }
}

/// One `create` per input, in order, collecting the assigned ids.
pub open spec fn run_creates(m: StoreModel, inputs: Seq<CreateTodoModel>) -> (StoreModel, Seq<
    int,
>)
    decreases inputs.len(),
{
    if inputs.len() == 0 {
        (m, Seq::empty())
    } else {
        let first = create_todo_t(m, inputs[0]);
        let rest = run_creates(first.0, inputs.drop_first());
        (
            rest.0,
            match first.1 {
                Ok(t) => seq![t.id] + rest.1,
                Err(_) => rest.1,
            },
        )
    }
}

/// Law: any number of valid creates, in whatever order the store's lock
/// serializes them, all succeed and assign distinct, never-reused ids — each
/// one step past the counter — and the store grows by exactly that number.
pub proof fn lemma_creates_assign_distinct_ids(m: StoreModel, inputs: Seq<CreateTodoModel>)
    requires
        wf(m),
        forall|k: int|
            0 <= k < inputs.len() ==> first_missing(
                m.labels,
                (#[trigger] inputs[k]).labels,
            ) is None,
        m.next_todo_id + inputs.len() <= i32::MAX as int,
    ensures
        ({
            let (mn, ids) = run_creates(m, inputs);
            &&& ids.len() == inputs.len()
            &&& (forall|k: int| 0 <= k < ids.len() ==> #[trigger] ids[k] == m.next_todo_id + k)
            &&& (forall|i: int, j: int| 0 <= i < j < ids.len() ==> ids[i] != ids[j])
            &&& mn.todos.len() == m.todos.len() + inputs.len()
            &&& mn.next_todo_id == m.next_todo_id + inputs.len()
            &&& mn.labels == m.labels
            &&& wf(mn)
        }),
    decreases inputs.len(),
{
    if inputs.len() == 0 {
    } else {
        lemma_create_todo_wf(m, inputs[0]);
        let first = create_todo_t(m, inputs[0]);
        let m1 = first.0;
        assert(first_missing(m.labels, inputs[0].labels) is None);
        assert(first.1 is Ok);
        assert(m1.next_todo_id == m.next_todo_id + 1);
        let rest_inputs = inputs.drop_first();
        assert forall|k: int|
            0 <= k < rest_inputs.len() implies first_missing(
            m1.labels,
            (#[trigger] rest_inputs[k]).labels,
        ) is None by {
            assert(rest_inputs[k] == inputs[k + 1]);
        }
        lemma_creates_assign_distinct_ids(m1, rest_inputs);
        let rest = run_creates(m1, rest_inputs);
        let ids = run_creates(m, inputs).1;
        assert(ids == seq![first.1->Ok_0.id] + rest.1);
        assert forall|k: int| 0 <= k < ids.len() implies #[trigger] ids[k] == m.next_todo_id
            + k by {
            if k == 0 {
                assert(ids[0] == first.1->Ok_0.id);
            } else {
                assert(ids[k] == rest.1[k - 1]);
            }
        }
    }
}

} // verus!
