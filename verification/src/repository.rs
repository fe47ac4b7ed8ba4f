//! The repository contracts: the behavioral interfaces a backend must
//! satisfy to be usable by the handlers, and their realization by the
//! in-memory backend. A database-backed realization lives with the
//! application around this crate; the contracts here are what both must obey,
//! so that any test written against one backend passes unchanged against the
//! other.

use vstd::prelude::*;

use crate::entities::{
    label_result_view, todo_result_view, unit_result_view, CreateTodo, ErrorModel, Label,
    LabelModel, RepositoryError, TodoEntity, TodoModel, UpdateTodo,
};
use crate::memory::{entity_seq_view, label_seq_view, MemoryBackend};
use crate::model::{
    all_todos_q, create_todo_t, has_label, label_index, label_names_unique, labels_ascending,
    materialize, todo_index,
};
use crate::model_props::{
    lemma_find_label_by_name_props, lemma_find_label_props, lemma_find_todo_props,
    lemma_first_missing_none_iff, lemma_resolve_all_present,
};

verus! {

/// What creating a label guarantees, over the label store's model: a fresh
/// id and the name appended on success; the existing label's id on a name
/// collision; an unchanged store on any error.
pub open spec fn label_create_post(
    pre: Seq<LabelModel>,
    post: Seq<LabelModel>,
    name: Seq<char>,
    r: Result<LabelModel, ErrorModel>,
) -> bool {
    match r {
        Ok(l) => {
            &&& l.name == name
            &&& !has_label(pre, l.id)
            &&& (forall|k: int| 0 <= k < pre.len() ==> (#[trigger] pre[k]).name != name)
            &&& post == pre.push(l)
        },
        Err(ErrorModel::Duplicate(i)) => {
            &&& exists|k: int|
                0 <= k < pre.len() && (#[trigger] pre[k]).name == name && pre[k].id == i
            &&& post == pre
        },
        Err(ErrorModel::NotFound(_)) => false,
        Err(ErrorModel::Unexpected) => post == pre,
    }
}

/// What deleting a label guarantees: exactly the first label with that id
/// leaves the store; a missing id is reported and nothing changes.
pub open spec fn label_delete_post(
    pre: Seq<LabelModel>,
    post: Seq<LabelModel>,
    id: int,
    r: Result<(), ErrorModel>,
) -> bool {
    match r {
        Ok(u) => {
            &&& has_label(pre, id)
            &&& post == pre.remove(label_index(pre, id))
        },
        Err(ErrorModel::NotFound(i)) => {
            &&& i == id
            &&& !has_label(pre, id)
            &&& post == pre
        },
        Err(ErrorModel::Duplicate(_)) => false,
        Err(ErrorModel::Unexpected) => post == pre,
    }
}

/// What creating a todo guarantees, over the todo store's materialized
/// model: appended under a fresh id, not completed, one label per referenced
/// id in order; a missing label id is reported and nothing is stored.
pub open spec fn todo_create_post(
    pre: Seq<TodoModel>,
    post: Seq<TodoModel>,
    payload: crate::entities::CreateTodoModel,
    r: Result<TodoModel, ErrorModel>,
) -> bool {
    match r {
        Ok(t) => {
            &&& t.text == payload.text
            &&& t.completed == false
            &&& !(exists|k: int| 0 <= k < pre.len() && (#[trigger] pre[k]).id == t.id)
            &&& t.labels.len() == payload.labels.len()
            &&& (forall|k: int|
                0 <= k < payload.labels.len() ==> (#[trigger] t.labels[k]).id == payload.labels[k])
            &&& post == pre.push(t)
        },
        Err(ErrorModel::NotFound(i)) => {
            &&& payload.labels.contains(i)
            &&& post == pre
        },
        Err(ErrorModel::Duplicate(_)) => false,
        Err(ErrorModel::Unexpected) => post == pre,
    }
}

/// What finding a todo guarantees: a held todo with that id on success, and
/// `NotFound` exactly when no todo carries the id.
pub open spec fn todo_find_post(model: Seq<TodoModel>, id: int, r: Result<
    TodoModel,
    ErrorModel,
>) -> bool {
    match r {
        Ok(t) => model.contains(t) && t.id == id,
        Err(ErrorModel::NotFound(i)) => {
            &&& i == id
            &&& forall|k: int| 0 <= k < model.len() ==> (#[trigger] model[k]).id != id
        },
        Err(ErrorModel::Duplicate(_)) => false,
        Err(ErrorModel::Unexpected) => true,
    }
}

/// What a partial update guarantees: present fields replace the stored
/// values, absent fields and the association stay; a missing id is reported
/// and nothing changes.
pub open spec fn todo_update_post(
    pre: Seq<TodoModel>,
    post: Seq<TodoModel>,
    id: int,
    up: crate::entities::UpdateTodoModel,
    r: Result<TodoModel, ErrorModel>,
) -> bool {
    match r {
        Ok(t) => exists|k: int|
            {
                &&& 0 <= k < pre.len()
                &&& (#[trigger] pre[k]).id == id
                &&& t.id == id
                &&& t.text == (match up.text {
                    Some(s) => s,
                    None => pre[k].text,
                })
                &&& t.completed == (match up.completed {
                    Some(c) => c,
                    None => pre[k].completed,
                })
                &&& t.labels == pre[k].labels
                &&& post == pre.update(k, t)
            },
        Err(ErrorModel::NotFound(i)) => {
            &&& i == id
            &&& (forall|k: int| 0 <= k < pre.len() ==> (#[trigger] pre[k]).id != id)
            &&& post == pre
        },
        Err(ErrorModel::Duplicate(_)) => false,
        Err(ErrorModel::Unexpected) => post == pre,
    }
}

/// What deleting a todo guarantees: exactly the todo with that id leaves the
/// store; a missing id is reported and nothing changes.
pub open spec fn todo_delete_post(
    pre: Seq<TodoModel>,
    post: Seq<TodoModel>,
    id: int,
    r: Result<(), ErrorModel>,
) -> bool {
    match r {
        Ok(u) => exists|k: int|
            {
                &&& 0 <= k < pre.len()
                &&& (#[trigger] pre[k]).id == id
                &&& post == pre.remove(k)
            },
        Err(ErrorModel::NotFound(i)) => {
            &&& i == id
            &&& (forall|k: int| 0 <= k < pre.len() ==> (#[trigger] pre[k]).id != id)
            &&& post == pre
        },
        Err(ErrorModel::Duplicate(_)) => false,
        Err(ErrorModel::Unexpected) => post == pre,
    }
}

/// The label store capability set: create by name, list all, delete by id.
pub trait LabelRepository: Sized {
    /// The labels held, in store order.
    spec fn labels_model(&self) -> Seq<LabelModel>;

    /// Consistency of the backend's own state.
    spec fn repo_inv(&self) -> bool;

    /// A consistent store keeps its ids strictly ascending and its names
    /// pairwise distinct.
    proof fn inv_properties(&self)
        requires
            self.repo_inv(),
        ensures
            labels_ascending(self.labels_model()),
            label_names_unique(self.labels_model()),
    ;

    /// Creating a label appends it under a fresh id; a taken name is
    /// rejected with the existing label's id; on any error the store is
    /// unchanged.
    fn create(&mut self, name: String) -> (r: Result<Label, RepositoryError>)
        requires
            old(self).repo_inv(),
        ensures
            final(self).repo_inv(),
            label_create_post(
                old(self).labels_model(),
                final(self).labels_model(),
                name@,
                label_result_view(r),
            ),
    ;

    /// Lists all labels, in ascending id order; only an unexpected backend
    /// failure can be reported.
    fn all(&self) -> (r: Result<Vec<Label>, RepositoryError>)
        requires
            self.repo_inv(),
        ensures
            match r {
                Ok(v) => label_seq_view(v@) == self.labels_model(),
                Err(e) => e@ is Unexpected,
            },
    ;

    /// Deleting a label removes exactly it; a missing id is reported as
    /// `NotFound`, idempotently; on any error the store is unchanged.
    fn delete(&mut self, id: i32) -> (r: Result<(), RepositoryError>)
        requires
            old(self).repo_inv(),
        ensures
            final(self).repo_inv(),
            label_delete_post(
                old(self).labels_model(),
                final(self).labels_model(),
                id as int,
                unit_result_view(r),
            ),
    ;
}

/// The todo store capability set: create with associations, find, list,
/// partially update, delete.
pub trait TodoRepository: Sized {
    /// The todos held, in store order, each with its labels materialized.
    spec fn todos_model(&self) -> Seq<TodoModel>;

    /// Consistency of the backend's own state.
    spec fn todo_inv(&self) -> bool;

    /// A consistent store keeps its todo ids strictly ascending.
    proof fn inv_properties(&self)
        requires
            self.todo_inv(),
        ensures
            forall|i: int, j: int|
                0 <= i < j < self.todos_model().len() ==> self.todos_model()[i].id
                    < self.todos_model()[j].id,
    ;

    /// Creating a todo appends it under a fresh id, not completed, with one
    /// label per referenced id, in order; a missing label id is reported and
    /// nothing is stored.
    fn create(&mut self, payload: CreateTodo) -> (r: Result<TodoEntity, RepositoryError>)
        requires
            old(self).todo_inv(),
        ensures
            final(self).todo_inv(),
            todo_create_post(
                old(self).todos_model(),
                final(self).todos_model(),
                payload@,
                todo_result_view(r),
            ),
    ;

    /// Finds a todo by id; a missing id is reported as `NotFound`.
    fn find(&self, id: i32) -> (r: Result<TodoEntity, RepositoryError>)
        requires
            self.todo_inv(),
        ensures
            todo_find_post(self.todos_model(), id as int, todo_result_view(r)),
    ;

    /// Lists all todos, in ascending id order; only an unexpected backend
    /// failure can be reported.
    fn all(&self) -> (r: Result<Vec<TodoEntity>, RepositoryError>)
        requires
            self.todo_inv(),
        ensures
            match r {
                Ok(v) => entity_seq_view(v@) == self.todos_model(),
                Err(e) => e@ is Unexpected,
            },
    ;

    /// Partially updates a todo: present fields replace the stored values,
    /// absent fields keep them, the association is untouched; a missing id
    /// is reported and nothing changes.
    fn update(&mut self, id: i32, payload: UpdateTodo) -> (r: Result<TodoEntity, RepositoryError>)
        requires
            old(self).todo_inv(),
        ensures
            final(self).todo_inv(),
            todo_update_post(
                old(self).todos_model(),
                final(self).todos_model(),
                id as int,
                payload@,
                todo_result_view(r),
            ),
    ;

    /// Deletes a todo by id; a missing id is reported as `NotFound`,
    /// idempotently; on any error the store is unchanged.
    fn delete(&mut self, id: i32) -> (r: Result<(), RepositoryError>)
        requires
            old(self).todo_inv(),
        ensures
            final(self).todo_inv(),
            todo_delete_post(
                old(self).todos_model(),
                final(self).todos_model(),
                id as int,
                unit_result_view(r),
            ),
    ;
}

impl LabelRepository for MemoryBackend {
    open spec fn labels_model(&self) -> Seq<LabelModel> {
        self@.labels
    }

    open spec fn repo_inv(&self) -> bool {
        self.inv()
    }

    proof fn inv_properties(&self) {
    }

    fn create(&mut self, name: String) -> (r: Result<Label, RepositoryError>) {
        let ghost m = self@;
        let r = self.create_label(name);
        proof {
            lemma_find_label_by_name_props(m.labels, name@);
            match label_result_view(r) {
                Ok(l) => {
                    if has_label(m.labels, l.id) {
                        let w = choose|k: int|
                            0 <= k < m.labels.len() && m.labels[k].id == l.id;
                        assert(m.labels[w].id < m.next_label_id);
                    }
                },
                Err(_) => {
                },
            }
        }
        r
    }

    fn all(&self) -> (r: Result<Vec<Label>, RepositoryError>) {
        Ok(self.all_labels())
    }

    fn delete(&mut self, id: i32) -> (r: Result<(), RepositoryError>) {
        let ghost m = self@;
        let r = self.delete_label(id);
        proof {
            lemma_find_label_props(m.labels, id as int);
        }
        r
    }
}

impl TodoRepository for MemoryBackend {
    open spec fn todos_model(&self) -> Seq<TodoModel> {
        all_todos_q(self@)
    }

    open spec fn todo_inv(&self) -> bool {
        self.inv()
    }

    proof fn inv_properties(&self) {
        assert(forall|k: int|
            0 <= k < self@.todos.len() ==> (#[trigger] all_todos_q(self@)[k]).id
                == self@.todos[k].id);
    }

    fn create(&mut self, payload: CreateTodo) -> (r: Result<TodoEntity, RepositoryError>) {
        let ghost m = self@;
        let ghost pm = payload@;
        let r = self.create_todo(payload);
        proof {
            let t = create_todo_t(m, pm);
            match todo_result_view(r) {
                Ok(tv) => {
                    lemma_first_missing_none_iff(m.labels, pm.labels);
                    lemma_resolve_all_present(m.labels, pm.labels);
                    if exists|k: int|
                        0 <= k < all_todos_q(m).len() && (#[trigger] all_todos_q(m)[k]).id
                            == tv.id {
                        let w = choose|k: int|
                            0 <= k < all_todos_q(m).len() && (#[trigger] all_todos_q(m)[k]).id
                                == tv.id;
                        assert(all_todos_q(m)[w].id == m.todos[w].id);
                        assert(m.todos[w].id < m.next_todo_id);
                        assert(false);
                    }
                    assert(all_todos_q(self@) =~= all_todos_q(m).push(tv));
                },
                Err(ErrorModel::NotFound(i)) => {
                    crate::model_props::lemma_first_missing_member(m.labels, pm.labels);
                },
                Err(_) => {
                },
            }
        }
        r
    }

    fn find(&self, id: i32) -> (r: Result<TodoEntity, RepositoryError>) {
        let r = self.find_todo(id);
        proof {
            lemma_find_todo_props(self@.todos, id as int);
            match todo_result_view(r) {
                Ok(t) => {
                    let ti = todo_index(self@.todos, id as int);
                    assert(all_todos_q(self@)[ti] == t);
                    assert(all_todos_q(self@).contains(t));
                },
                Err(_) => {
                    assert(forall|k: int|
                        0 <= k < all_todos_q(self@).len() ==> (#[trigger] all_todos_q(
                            self@,
                        )[k]).id == self@.todos[k].id);
                },
            }
        }
        r
    }

    fn all(&self) -> (r: Result<Vec<TodoEntity>, RepositoryError>) {
        Ok(self.all_todos())
    }

    fn update(&mut self, id: i32, payload: UpdateTodo) -> (r: Result<TodoEntity, RepositoryError>) {
        let ghost m = self@;
        let ghost pm = payload@;
        let r = self.update_todo(id, payload);
        proof {
            lemma_find_todo_props(m.todos, id as int);
            match todo_result_view(r) {
                Ok(t) => {
                    let ti = todo_index(m.todos, id as int);
                    let patched = crate::model::patch(m.todos[ti], pm);
                    assert(all_todos_q(m)[ti] == materialize(m.labels, m.todos[ti]));
                    assert(t == materialize(m.labels, patched));
                    assert(all_todos_q(self@) =~= all_todos_q(m).update(ti, t));
                    assert(old(self).todos_model()[ti].id == id as int);
                    assert(final(self).todos_model() == old(self).todos_model().update(ti, t));
                },
                Err(_) => {
                    assert(forall|k: int|
                        0 <= k < all_todos_q(m).len() ==> (#[trigger] all_todos_q(m)[k]).id
                            == m.todos[k].id);
                },
            }
        }
        r
    }

    fn delete(&mut self, id: i32) -> (r: Result<(), RepositoryError>) {
        let ghost m = self@;
        let r = self.delete_todo(id);
        proof {
            lemma_find_todo_props(m.todos, id as int);
            match unit_result_view(r) {
                Ok(u) => {
                    let ti = todo_index(m.todos, id as int);
                    assert(all_todos_q(m)[ti].id == id as int);
                    assert(all_todos_q(self@) =~= all_todos_q(m).remove(ti));
                    assert(old(self).todos_model()[ti].id == id as int);
                    assert(final(self).todos_model() == old(self).todos_model().remove(ti));
                },
                Err(_) => {
                    assert(forall|k: int|
                        0 <= k < all_todos_q(m).len() ==> (#[trigger] all_todos_q(m)[k]).id
                            == m.todos[k].id);
                },
            }
        }
        r
    }
}

} // verus!
