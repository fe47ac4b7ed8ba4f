//! The request-handling layer: one stateless translation function per
//! (path, method) pair, generic over any backend satisfying the repository
//! contracts. Each handler performs the repository call and maps its outcome
//! to the HTTP status code the surface promises; it never touches storage
//! directly. The application around this crate decodes request bodies into
//! the input shapes, hands them here, and serializes the returned payload.

use vstd::prelude::*;

use crate::entities::{
    label_result_view, todo_result_view, unit_result_view, CreateTodo, ErrorModel, Label,
    RepositoryError, TodoEntity, UpdateTodo,
};
use crate::memory::{entity_seq_view, label_seq_view};
use crate::repository::{
    label_create_post, label_delete_post, todo_create_post, todo_delete_post, todo_find_post,
    todo_update_post, LabelRepository, TodoRepository,
};

verus! {

pub const STATUS_OK: u16 = 200;

pub const STATUS_CREATED: u16 = 201;

pub const STATUS_NO_CONTENT: u16 = 204;

pub const STATUS_BAD_REQUEST: u16 = 400;

pub const STATUS_NOT_FOUND: u16 = 404;

pub const STATUS_CONFLICT: u16 = 409;

pub const STATUS_INTERNAL_ERROR: u16 = 500;

/// The status code each repository error maps to: a missing entity is
/// `404 Not Found`, a name collision `409 Conflict`, anything else
/// `500 Internal Server Error`.
pub open spec fn error_status(e: ErrorModel) -> u16 {
    match e {
        ErrorModel::NotFound(_) => 404u16,
        ErrorModel::Duplicate(_) => 409u16,
        ErrorModel::Unexpected => 500u16,
    }
}

/// Creating a todo is the one place where a missing entity is the caller's
/// fault: a missing label id is a validation failure, `400 Bad Request`.
pub open spec fn create_todo_error_status(e: ErrorModel) -> u16 {
    match e {
        ErrorModel::NotFound(_) => 400u16,
        ErrorModel::Duplicate(_) => 409u16,
        ErrorModel::Unexpected => 500u16,
    }
}

/// `GET /`: the greeting served at the root path.
pub fn root() -> (r: &'static str)
    ensures
        r@ == "Hello, world!"@,
{
    "Hello, world!"
}

/// The exec mirror of `error_status`.
pub fn status_of_error(e: &RepositoryError) -> (s: u16)
    ensures
        s == error_status(e@),
{
    match e {
        RepositoryError::NotFound(_) => 404,
        RepositoryError::Duplicate(_) => 409,
        RepositoryError::Unexpected(_) => 500,
    }
}

/// The exec mirror of `create_todo_error_status`.
pub fn create_status_of_error(e: &RepositoryError) -> (s: u16)
    ensures
        s == create_todo_error_status(e@),
{
    match e {
        RepositoryError::NotFound(_) => 400,
        RepositoryError::Duplicate(_) => 409,
        RepositoryError::Unexpected(_) => 500,
    }
}

/// `POST /todos`: create a todo; `201 Created` with the todo, or `400 Bad
/// Request` when a referenced label id does not exist.
pub fn create_todo<T: TodoRepository>(repository: &mut T, payload: CreateTodo) -> (r: (
    u16,
    Result<TodoEntity, RepositoryError>,
))
    requires
        old(repository).todo_inv(),
    ensures
        final(repository).todo_inv(),
        todo_create_post(
            old(repository).todos_model(),
            final(repository).todos_model(),
            payload@,
            todo_result_view(r.1),
        ),
        r.0 == (match todo_result_view(r.1) {
            Ok(t) => 201u16,
            Err(e) => create_todo_error_status(e),
        }),
{
    let res = repository.create(payload);
    let status: u16 = match &res {
        Ok(_) => 201,
        Err(RepositoryError::NotFound(_)) => 400,
        Err(e) => status_of_error(e),
    };
    (status, res)
}

/// `GET /todos`: list all todos, ascending by id; `200 OK`.
pub fn all_todo<T: TodoRepository>(repository: &T) -> (r: (
    u16,
    Result<Vec<TodoEntity>, RepositoryError>,
))
    requires
        repository.todo_inv(),
    ensures
        match r.1 {
            Ok(v) => r.0 == 200u16 && entity_seq_view(v@) == repository.todos_model(),
            Err(e) => r.0 == 500u16 && e@ is Unexpected,
        },
{
    let res = repository.all();
    let status: u16 = match &res {
        Ok(_) => 200,
        Err(e) => status_of_error(e),
    };
    (status, res)
}

/// `GET /todos/:id`: find one todo; `200 OK` or `404 Not Found`.
pub fn find_todo<T: TodoRepository>(repository: &T, id: i32) -> (r: (
    u16,
    Result<TodoEntity, RepositoryError>,
))
    requires
        repository.todo_inv(),
    ensures
        todo_find_post(repository.todos_model(), id as int, todo_result_view(r.1)),
        r.0 == (match todo_result_view(r.1) {
            Ok(t) => 200u16,
            Err(e) => error_status(e),
        }),
{
    let res = repository.find(id);
    let status: u16 = match &res {
        Ok(_) => 200,
        Err(e) => status_of_error(e),
    };
    (status, res)
}

/// `PATCH /todos/:id`: partial update; `200 OK` with the updated todo, or
/// `404 Not Found`.
pub fn update_todo<T: TodoRepository>(repository: &mut T, id: i32, payload: UpdateTodo) -> (r: (
    u16,
    Result<TodoEntity, RepositoryError>,
))
    requires
        old(repository).todo_inv(),
    ensures
        final(repository).todo_inv(),
        todo_update_post(
            old(repository).todos_model(),
            final(repository).todos_model(),
            id as int,
            payload@,
            todo_result_view(r.1),
        ),
        r.0 == (match todo_result_view(r.1) {
            Ok(t) => 200u16,
            Err(e) => error_status(e),
        }),
{
    let res = repository.update(id, payload);
    let status: u16 = match &res {
        Ok(_) => 200,
        Err(e) => status_of_error(e),
    };
    (status, res)
}

/// `DELETE /todos/:id`: delete one todo; `204 No Content` or `404 Not Found`.
pub fn delete_todo<T: TodoRepository>(repository: &mut T, id: i32) -> (r: (
    u16,
    Result<(), RepositoryError>,
))
    requires
        old(repository).todo_inv(),
    ensures
        final(repository).todo_inv(),
        todo_delete_post(
            old(repository).todos_model(),
            final(repository).todos_model(),
            id as int,
            unit_result_view(r.1),
        ),
        r.0 == (match unit_result_view(r.1) {
            Ok(u) => 204u16,
            Err(e) => error_status(e),
        }),
{
    let res = repository.delete(id);
    let status: u16 = match &res {
        Ok(_) => 204,
        Err(e) => status_of_error(e),
    };
    (status, res)
}

/// `POST /labels`: create a label; `201 Created` with the label, or
/// `409 Conflict` when the name is already taken.
pub fn create_label<T: LabelRepository>(repository: &mut T, name: String) -> (r: (
    u16,
    Result<Label, RepositoryError>,
))
    requires
        old(repository).repo_inv(),
    ensures
        final(repository).repo_inv(),
        label_create_post(
            old(repository).labels_model(),
            final(repository).labels_model(),
            name@,
            label_result_view(r.1),
        ),
        r.0 == (match label_result_view(r.1) {
            Ok(l) => 201u16,
            Err(e) => error_status(e),
        }),
{
    let res = repository.create(name);
    let status: u16 = match &res {
        Ok(_) => 201,
        Err(e) => status_of_error(e),
    };
    (status, res)
}

/// `GET /labels`: list all labels, ascending by id; `200 OK`.
pub fn all_label<T: LabelRepository>(repository: &T) -> (r: (
    u16,
    Result<Vec<Label>, RepositoryError>,
))
    requires
        repository.repo_inv(),
    ensures
        match r.1 {
            Ok(v) => r.0 == 200u16 && label_seq_view(v@) == repository.labels_model(),
            Err(e) => r.0 == 500u16 && e@ is Unexpected,
        },
{
    let res = repository.all();
    let status: u16 = match &res {
        Ok(_) => 200,
        Err(e) => status_of_error(e),
    };
    (status, res)
}

/// `DELETE /labels/:id`: delete one label; `204 No Content` or
/// `404 Not Found`.
pub fn delete_label<T: LabelRepository>(repository: &mut T, id: i32) -> (r: (
    u16,
    Result<(), RepositoryError>,
))
    requires
        old(repository).repo_inv(),
    ensures
        final(repository).repo_inv(),
        label_delete_post(
            old(repository).labels_model(),
            final(repository).labels_model(),
            id as int,
            unit_result_view(r.1),
        ),
        r.0 == (match unit_result_view(r.1) {
            Ok(u) => 204u16,
            Err(e) => error_status(e),
        }),
{
    let res = repository.delete(id);
    let status: u16 = match &res {
        Ok(_) => 204,
        Err(e) => status_of_error(e),
    };
    (status, res)
}

} // verus!
