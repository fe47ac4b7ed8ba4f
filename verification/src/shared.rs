//! A shareable handle to one in-memory backend: a reader/writer lock whose
//! invariant is the store's well-formedness. Reads may run concurrently with
//! one another and are mutually exclusive with writes; every mutation holds
//! the write lock for the operation's whole duration, so label validation and
//! todo insertion can never be split by a concurrent label deletion. Under
//! arbitrary interleavings each call is therefore one transition of a
//! well-formed store, which is what every contract here states.

use vstd::prelude::*;
use vstd::rwlock::{RwLock, RwLockPredicate};

use crate::entities::{
    label_result_view, todo_result_view, unit_result_view, CreateTodo, Label, RepositoryError,
    TodoEntity, UpdateTodo,
};
use crate::memory::{entity_seq_view, label_seq_view, MemoryBackend};
use crate::model::{
    all_labels_q, all_todos_q, create_label_t, create_todo_t, delete_label_t, delete_todo_t,
    find_todo_t, update_todo_t, wf, StoreModel,
};

verus! {

/// The lock invariant: whatever store the lock holds is well-formed.
pub struct BackendInv;

impl RwLockPredicate<MemoryBackend> for BackendInv {
    open spec fn inv(self, v: MemoryBackend) -> bool {
        v.inv()
    }
}

/// One in-memory backend behind a reader/writer lock, held by shared
/// reference across concurrent requests.
pub struct SharedBackend {
    lock: RwLock<MemoryBackend, BackendInv>,
}

impl SharedBackend {
    /// The lock guards exactly the store's well-formedness.
    pub closed spec fn wf(&self) -> bool {
        self.lock.pred() == BackendInv
    }

    /// A fresh shared backend over an empty store.
    pub fn new() -> (r: SharedBackend)
        ensures
            r.wf(),
    {
        SharedBackend { lock: RwLock::new(MemoryBackend::new(), Ghost(BackendInv)) }
    }

    /// Creates a label: one label-create transition of the well-formed store
    /// held at the instant of the call.
    pub fn create_label(&self, name: String) -> (r: Result<Label, RepositoryError>)
        requires
            self.wf(),
        ensures
            exists|m: StoreModel|
                wf(m) && label_result_view(r) == #[trigger] create_label_t(m, name@).1,
            r matches Ok(l) ==> l@.name == name@,
    {
        let (mut backend, handle) = self.lock.acquire_write();
        let r = backend.create_label(name);
        handle.release_write(backend);
        r
    }

    /// Lists all labels of some well-formed store, in ascending id order.
    pub fn all_labels(&self) -> (r: Vec<Label>)
        requires
            self.wf(),
        ensures
            exists|m: StoreModel| wf(m) && label_seq_view(r@) == #[trigger] all_labels_q(m),
            forall|i: int, j: int| 0 <= i < j < r@.len() ==> r@[i]@.id < r@[j]@.id,
    {
        let read_handle = self.lock.acquire_read();
        let backend = read_handle.borrow();
        let ghost m0 = backend@;
        let r = backend.all_labels();
        proof {
            assert forall|i: int, j: int| 0 <= i < j < r@.len() implies r@[i]@.id < r@[j]@.id by {
                assert(label_seq_view(r@)[i] == r@[i]@);
                assert(label_seq_view(r@)[j] == r@[j]@);
                assert(crate::model::labels_ascending(m0.labels));
            }
        }
        read_handle.release_read();
        r
    }

    /// Deletes a label: one label-delete transition of the well-formed store
    /// held at the instant of the call.
    pub fn delete_label(&self, id: i32) -> (r: Result<(), RepositoryError>)
        requires
            self.wf(),
        ensures
            exists|m: StoreModel|
                wf(m) && unit_result_view(r) == #[trigger] delete_label_t(m, id as int).1,
    {
        let (mut backend, handle) = self.lock.acquire_write();
        let r = backend.delete_label(id);
        handle.release_write(backend);
        r
    }

    /// Creates a todo: one todo-create transition of the well-formed store
    /// held at the instant of the call, label validation and insertion under
    /// one write lock.
    pub fn create_todo(&self, payload: CreateTodo) -> (r: Result<TodoEntity, RepositoryError>)
        requires
            self.wf(),
        ensures
            exists|m: StoreModel|
                wf(m) && todo_result_view(r) == #[trigger] create_todo_t(m, payload@).1,
            r matches Ok(t) ==> t@.text == payload@.text && t@.completed == false,
    {
        let ghost pm = payload@;
        let (mut backend, handle) = self.lock.acquire_write();
        let r = backend.create_todo(payload);
        handle.release_write(backend);
        r
    }

    /// Finds a todo in some well-formed store.
    pub fn find_todo(&self, id: i32) -> (r: Result<TodoEntity, RepositoryError>)
        requires
            self.wf(),
        ensures
            exists|m: StoreModel|
                wf(m) && todo_result_view(r) == #[trigger] find_todo_t(m, id as int),
    {
        let read_handle = self.lock.acquire_read();
        let r = read_handle.borrow().find_todo(id);
        read_handle.release_read();
        r
    }

    /// Lists all todos of some well-formed store, in ascending id order.
    pub fn all_todos(&self) -> (r: Vec<TodoEntity>)
        requires
            self.wf(),
        ensures
            exists|m: StoreModel| wf(m) && entity_seq_view(r@) == #[trigger] all_todos_q(m),
            forall|i: int, j: int| 0 <= i < j < r@.len() ==> r@[i]@.id < r@[j]@.id,
    {
        let read_handle = self.lock.acquire_read();
        let backend = read_handle.borrow();
        let ghost m0 = backend@;
        let r = backend.all_todos();
        proof {
            assert(entity_seq_view(r@) == all_todos_q(m0));
            assert(entity_seq_view(r@).len() == r@.len());
            assert(all_todos_q(m0).len() == m0.todos.len());
            assert(r@.len() == m0.todos.len());
            assert forall|i: int, j: int| 0 <= i < j < r@.len() implies r@[i]@.id < r@[j]@.id by {
                assert(entity_seq_view(r@)[i] == r@[i]@);
                assert(entity_seq_view(r@)[j] == r@[j]@);
                assert(all_todos_q(m0)[i].id == m0.todos[i].id);
                assert(all_todos_q(m0)[j].id == m0.todos[j].id);
                assert(crate::model::todos_ascending(m0.todos));
            }
        }
        read_handle.release_read();
        r
    }

    /// Updates a todo: one todo-update transition of the well-formed store
    /// held at the instant of the call.
    pub fn update_todo(&self, id: i32, payload: UpdateTodo) -> (r: Result<
        TodoEntity,
        RepositoryError,
    >)
        requires
            self.wf(),
        ensures
            exists|m: StoreModel|
                wf(m) && todo_result_view(r) == #[trigger] update_todo_t(m, id as int, payload@).1,
    {
        let (mut backend, handle) = self.lock.acquire_write();
        let r = backend.update_todo(id, payload);
        handle.release_write(backend);
        r
    }

    /// Deletes a todo: one todo-delete transition of the well-formed store
    /// held at the instant of the call.
    pub fn delete_todo(&self, id: i32) -> (r: Result<(), RepositoryError>)
        requires
            self.wf(),
        ensures
            exists|m: StoreModel|
                wf(m) && unit_result_view(r) == #[trigger] delete_todo_t(m, id as int).1,
    {
        let (mut backend, handle) = self.lock.acquire_write();
        let r = backend.delete_todo(id);
        handle.release_write(backend);
        r
    }
}

} // verus!
