//! Tests of the handler layer against the in-memory backend: the ports of
//! the HTTP-level scenarios, and the status-code mapping of each endpoint.

use todo_repo::entities::{CreateTodo, Label, RepositoryError, TodoEntity, UpdateTodo};
use todo_repo::handlers::{
    all_label, all_todo, create_label, create_todo, delete_label, delete_todo, find_todo, root,
    update_todo, STATUS_BAD_REQUEST, STATUS_CONFLICT, STATUS_CREATED, STATUS_NOT_FOUND,
    STATUS_NO_CONTENT, STATUS_OK,
};
use todo_repo::memory::MemoryBackend;

fn label_fixture() -> (Vec<Label>, Vec<i32>) {
    let id = 999;
    (
        vec![Label::new(id, String::from("test label"))],
        vec![id],
    )
}

#[test]
fn should_return_hello_world() {
    let body = root();
    assert_eq!(body, "Hello, world!");
}

#[test]
fn should_create_todo() {
    let (labels, _label_ids) = label_fixture();
    let expected = TodoEntity::new(
        1,
        String::from("should_return_created_todo"),
        labels.clone(),
    );

    let mut backend = MemoryBackend::with_labels(labels).unwrap();
    let payload = CreateTodo::new(String::from("should_return_created_todo"), vec![999]);
    let (status, res) = create_todo(&mut backend, payload);
    assert_eq!(STATUS_CREATED, status);
    let todo = res.unwrap();
    assert_eq!(expected, todo);
}

#[test]
fn should_find_todo() {
    let (labels, label_ids) = label_fixture();
    let expected = TodoEntity::new(1, String::from("should_find_todo"), labels.clone());

    let mut backend = MemoryBackend::with_labels(labels).unwrap();
    create_todo(
        &mut backend,
        CreateTodo::new(String::from("should_find_todo"), label_ids),
    )
    .1
    .expect("failed find todo");
    let (status, res) = find_todo(&backend, 1);
    assert_eq!(STATUS_OK, status);
    assert_eq!(expected, res.unwrap());
}

#[test]
fn should_get_all_todos() {
    let (labels, label_ids) = label_fixture();
    let expected = TodoEntity::new(1, String::from("should_get_all_todos"), labels.clone());

    let mut backend = MemoryBackend::with_labels(labels).unwrap();
    create_todo(
        &mut backend,
        CreateTodo::new(String::from("should_get_all_todos"), label_ids),
    )
    .1
    .expect("failed get all todos");
    let (status, res) = all_todo(&backend);
    assert_eq!(STATUS_OK, status);
    assert_eq!(vec![expected], res.unwrap());
}

#[test]
fn should_update_todo() {
    let (labels, label_ids) = label_fixture();
    let expected = TodoEntity::new(1, String::from("should_update_todo"), labels.clone());

    let mut backend = MemoryBackend::with_labels(labels).unwrap();
    create_todo(
        &mut backend,
        CreateTodo::new(String::from("before_update_todo"), label_ids),
    )
    .1
    .expect("failed update todo");
    let payload = UpdateTodo::new(1, Some(String::from("should_update_todo")), Some(false));
    let (status, res) = update_todo(&mut backend, 1, payload);
    assert_eq!(STATUS_OK, status);
    assert_eq!(expected, res.unwrap());
}

#[test]
fn should_delete_todo() {
    let (labels, label_ids) = label_fixture();
    let mut backend = MemoryBackend::with_labels(labels).unwrap();
    create_todo(
        &mut backend,
        CreateTodo::new(String::from("should_delete_todo"), label_ids),
    )
    .1
    .expect("failed delete todo");
    let (status, _res) = delete_todo(&mut backend, 1);
    assert_eq!(STATUS_NO_CONTENT, status);
}

#[test]
fn should_create_label() {
    let expected = Label::new(1, String::from("should_return_created_label"));

    let mut backend = MemoryBackend::new();
    let (status, res) = create_label(&mut backend, String::from("should_return_created_label"));
    assert_eq!(STATUS_CREATED, status);
    assert_eq!(expected, res.unwrap());
}

#[test]
fn should_get_all_labels() {
    let expected = Label::new(1, String::from("should_get_all_labels"));

    let mut backend = MemoryBackend::new();
    create_label(&mut backend, String::from("should_get_all_labels"))
        .1
        .expect("failed get all labels");
    let (status, res) = all_label(&backend);
    assert_eq!(STATUS_OK, status);
    assert_eq!(vec![expected], res.unwrap());
}

#[test]
fn should_delete_label() {
    let mut backend = MemoryBackend::new();
    create_label(&mut backend, String::from("should_delete_label"))
        .1
        .expect("failed delete label");
    let (status, _res) = delete_label(&mut backend, 1);
    assert_eq!(STATUS_NO_CONTENT, status);
}

#[test]
fn full_crud_scenario_over_the_handlers() {
    let mut backend = MemoryBackend::new();

    let (status, res) = create_label(&mut backend, String::from("test label"));
    assert_eq!(STATUS_CREATED, status);
    let label = res.unwrap();
    assert_eq!(Label::new(1, String::from("test label")), label);

    let (status, res) = create_todo(
        &mut backend,
        CreateTodo::new(String::from("buy milk"), vec![1]),
    );
    assert_eq!(STATUS_CREATED, status);
    let todo = res.unwrap();
    assert_eq!(
        TodoEntity::new(
            1,
            String::from("buy milk"),
            vec![Label::new(1, String::from("test label"))],
        ),
        todo
    );

    let (status, res) = update_todo(
        &mut backend,
        1,
        UpdateTodo::new(1, None, Some(true)),
    );
    assert_eq!(STATUS_OK, status);
    let patched = res.unwrap();
    assert_eq!(1, patched.id);
    assert_eq!("buy milk", patched.text);
    assert!(patched.completed);
    assert_eq!(todo.labels, patched.labels);

    let (status, _res) = delete_todo(&mut backend, 1);
    assert_eq!(STATUS_NO_CONTENT, status);

    let (status, res) = find_todo(&backend, 1);
    assert_eq!(STATUS_NOT_FOUND, status);
    assert_eq!(Err(RepositoryError::NotFound(1)), res);
}

#[test]
fn missing_label_in_create_todo_is_a_bad_request() {
    let mut backend = MemoryBackend::new();
    let (status, res) = create_todo(
        &mut backend,
        CreateTodo::new(String::from("x"), vec![999]),
    );
    assert_eq!(STATUS_BAD_REQUEST, status);
    assert_eq!(Err(RepositoryError::NotFound(999)), res);
}

#[test]
fn duplicate_label_create_is_a_conflict() {
    let mut backend = MemoryBackend::new();
    create_label(&mut backend, String::from("once")).1.unwrap();
    let (status, res) = create_label(&mut backend, String::from("once"));
    assert_eq!(STATUS_CONFLICT, status);
    assert_eq!(Err(RepositoryError::Duplicate(1)), res);
}

#[test]
fn missing_ids_map_to_not_found() {
    let mut backend = MemoryBackend::new();
    assert_eq!(STATUS_NOT_FOUND, find_todo(&backend, 3).0);
    assert_eq!(
        STATUS_NOT_FOUND,
        update_todo(&mut backend, 3, UpdateTodo::new(3, None, None)).0
    );
    assert_eq!(STATUS_NOT_FOUND, delete_todo(&mut backend, 3).0);
    assert_eq!(STATUS_NOT_FOUND, delete_label(&mut backend, 3).0);
}

#[test]
fn empty_store_lists_are_ok_and_empty() {
    let backend = MemoryBackend::new();
    let (status, res) = all_todo(&backend);
    assert_eq!(STATUS_OK, status);
    assert_eq!(Vec::<TodoEntity>::new(), res.unwrap());
    let (status, res) = all_label(&backend);
    assert_eq!(STATUS_OK, status);
    assert_eq!(Vec::<Label>::new(), res.unwrap());
}
