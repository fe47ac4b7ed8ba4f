//! Tests of the in-memory backend: the repository semantics, the store laws
//! on concrete values, and the database decision functions.

use todo_repo::db::{
    association_failure_decision, db_delete_decision, label_create_decision, DbFailure,
};
use todo_repo::entities::{CreateTodo, Label, RepositoryError, TodoEntity, UpdateLabel, UpdateTodo};
use todo_repo::memory::MemoryBackend;
use todo_repo::repository::{LabelRepository, TodoRepository};
use todo_repo::shared::SharedBackend;

fn label_fixture() -> (Vec<Label>, Vec<i32>) {
    let id = 999;
    (
        vec![Label::new(id, String::from("test label"))],
        vec![id],
    )
}

#[test]
fn label_crud_scenario() {
    let text = String::from("label text");
    let id = 1;
    let expected = Label::new(id, text.clone());

    let mut repository = MemoryBackend::new();
    let label = repository.create_label(text.clone()).expect("failed create Label");
    assert_eq!(expected, label);

    let labels = repository.all_labels();
    assert_eq!(vec![expected], labels);

    let res = repository.delete_label(id);
    assert!(res.is_ok())
}

#[test]
fn crud_scenario() {
    let mut repository = MemoryBackend::new();
    let label_text = "test_label";

    let label = LabelRepository::create(&mut repository, String::from(label_text))
        .expect("[create] returned Err");
    assert_eq!(label.name, label_text);

    let labels = LabelRepository::all(&repository).expect("[all] returned Err");
    let label = labels.last().unwrap();
    assert_eq!(label.name, label_text);

    LabelRepository::delete(&mut repository, label.id).expect("[delete] returned Err");
}

#[test]
fn todo_crud_scenario() {
    let (labels, label_ids) = label_fixture();
    let mut repository = MemoryBackend::with_labels(labels.clone()).unwrap();

    let created = TodoRepository::create(
        &mut repository,
        CreateTodo::new(String::from("todo text"), label_ids),
    )
    .expect("failed create todo");
    assert_eq!(
        TodoEntity::new(1, String::from("todo text"), labels.clone()),
        created
    );

    let found = TodoRepository::find(&repository, 1).expect("failed find todo");
    assert_eq!(created, found);

    let listed = TodoRepository::all(&repository).expect("failed all todos");
    assert_eq!(vec![found], listed);

    let updated = TodoRepository::update(
        &mut repository,
        1,
        UpdateTodo::new(1, Some(String::from("updated text")), Some(true)),
    )
    .expect("failed update todo");
    assert_eq!(1, updated.id);
    assert_eq!("updated text", updated.text);
    assert!(updated.completed);
    assert_eq!(labels, updated.labels);

    TodoRepository::delete(&mut repository, 1).expect("failed delete todo");
    assert_eq!(Ok(vec![]), TodoRepository::all(&repository));
}

#[test]
fn missing_todo_is_rejected_by_find_update_and_delete() {
    let mut repository = MemoryBackend::new();
    assert_eq!(Err(RepositoryError::NotFound(7)), repository.find_todo(7));
    assert_eq!(
        Err(RepositoryError::NotFound(7)),
        repository.update_todo(7, UpdateTodo::new(7, None, Some(true)))
    );
    assert_eq!(Err(RepositoryError::NotFound(7)), repository.delete_todo(7));
}

#[test]
fn duplicate_label_name_is_rejected_with_existing_id() {
    let mut repository = MemoryBackend::new();
    let first = repository
        .create_label(String::from("test label"))
        .expect("first create must succeed");
    assert_eq!(1, first.id);

    let second = repository.create_label(String::from("test label"));
    assert_eq!(Err(RepositoryError::Duplicate(1)), second);

    let all = repository.all_labels();
    let with_name: Vec<&Label> = all.iter().filter(|l| l.name == "test label").collect();
    assert_eq!(1, with_name.len());
}

#[test]
fn deleting_a_label_scrubs_it_from_todos_without_deleting_them() {
    let mut repository = MemoryBackend::new();
    let groceries = repository.create_label(String::from("groceries")).unwrap();
    let urgent = repository.create_label(String::from("urgent")).unwrap();

    let todo = repository
        .create_todo(CreateTodo::new(
            String::from("buy milk"),
            vec![groceries.id, urgent.id],
        ))
        .unwrap();
    assert_eq!(vec![groceries.clone(), urgent.clone()], todo.labels);

    repository.delete_label(groceries.id).expect("failed delete label");

    let after = repository.find_todo(todo.id).expect("todo must survive");
    assert_eq!(todo.id, after.id);
    assert_eq!(todo.text, after.text);
    assert_eq!(vec![urgent], after.labels);
}

#[test]
fn creates_assign_distinct_never_reused_ids() {
    let mut repository = MemoryBackend::new();
    let mut ids = Vec::new();
    for k in 0..5 {
        let todo = repository
            .create_todo(CreateTodo::new(format!("todo {}", k), vec![]))
            .unwrap();
        ids.push(todo.id);
    }
    assert_eq!(vec![1, 2, 3, 4, 5], ids);
    assert_eq!(5, repository.all_todos().len());

    repository.delete_todo(2).unwrap();
    repository.delete_todo(5).unwrap();
    let fresh = repository
        .create_todo(CreateTodo::new(String::from("after deletions"), vec![]))
        .unwrap();
    assert_eq!(6, fresh.id);
    assert_eq!(4, repository.all_todos().len());
}

#[test]
fn create_todo_rejects_a_missing_label_id() {
    let mut repository = MemoryBackend::new();
    repository.create_label(String::from("present")).unwrap();
    let res = repository.create_todo(CreateTodo::new(String::from("x"), vec![1, 42]));
    assert_eq!(Err(RepositoryError::NotFound(42)), res);
    assert!(repository.all_todos().is_empty());
}

#[test]
fn duplicate_ids_in_a_create_materialize_twice() {
    let mut repository = MemoryBackend::new();
    let label = repository.create_label(String::from("twice")).unwrap();
    let todo = repository
        .create_todo(CreateTodo::new(String::from("x"), vec![1, 1]))
        .unwrap();
    assert_eq!(vec![label.clone(), label], todo.labels);
}

#[test]
fn update_preserves_omitted_fields() {
    let mut repository = MemoryBackend::new();
    repository
        .create_todo(CreateTodo::new(String::from("original"), vec![]))
        .unwrap();

    let only_completed = repository
        .update_todo(1, UpdateTodo::new(1, None, Some(true)))
        .unwrap();
    assert_eq!("original", only_completed.text);
    assert!(only_completed.completed);

    let only_text = repository
        .update_todo(1, UpdateTodo::new(1, Some(String::from("renamed")), None))
        .unwrap();
    assert_eq!("renamed", only_text.text);
    assert!(only_text.completed);
}

#[test]
fn with_labels_rejects_a_seed_breaking_the_invariant() {
    assert!(MemoryBackend::with_labels(vec![
        Label::new(2, String::from("b")),
        Label::new(1, String::from("a")),
    ])
    .is_none());
    assert!(MemoryBackend::with_labels(vec![
        Label::new(1, String::from("same")),
        Label::new(2, String::from("same")),
    ])
    .is_none());
    assert!(MemoryBackend::with_labels(vec![Label::new(0, String::from("zero"))]).is_none());
    assert!(MemoryBackend::with_labels(vec![
        Label::new(1, String::from("a")),
        Label::new(999, String::from("test label")),
    ])
    .is_some());
}

#[test]
fn label_create_decision_follows_the_lookup() {
    let existing = Label::new(3, String::from("taken"));
    assert_eq!(
        Err(RepositoryError::Duplicate(3)),
        label_create_decision(Some(existing))
    );
    assert_eq!(Ok(()), label_create_decision(None));
}

#[test]
fn db_delete_decision_classifies_every_outcome() {
    assert_eq!(Err(RepositoryError::NotFound(5)), db_delete_decision(5, Ok(0)));
    assert_eq!(Ok(()), db_delete_decision(5, Ok(1)));
    assert_eq!(
        Err(RepositoryError::NotFound(5)),
        db_delete_decision(5, Err(DbFailure::RowNotFound))
    );
    assert_eq!(
        Err(RepositoryError::Unexpected(String::from("connection lost"))),
        db_delete_decision(5, Err(DbFailure::Other(String::from("connection lost"))))
    );
    assert!(matches!(
        db_delete_decision(5, Err(DbFailure::ForeignKeyViolation)),
        Err(RepositoryError::Unexpected(_))
    ));
}

#[test]
fn association_failure_reports_the_label_id() {
    assert_eq!(
        RepositoryError::NotFound(9),
        association_failure_decision(9, DbFailure::RowNotFound)
    );
    assert_eq!(
        RepositoryError::NotFound(9),
        association_failure_decision(9, DbFailure::ForeignKeyViolation)
    );
    assert_eq!(
        RepositoryError::Unexpected(String::from("io error")),
        association_failure_decision(9, DbFailure::Other(String::from("io error")))
    );
}

#[test]
fn error_messages_carry_the_unexpected_detail() {
    assert_eq!(
        "boom",
        RepositoryError::Unexpected(String::from("boom")).message()
    );
    assert_eq!("entity not found", RepositoryError::NotFound(1).message());
    assert_eq!("duplicate entity name", RepositoryError::Duplicate(1).message());
}

#[test]
fn update_label_shape_round_trips() {
    let up = UpdateLabel::new(4, String::from("renamed"));
    assert_eq!(4, up.id());
    assert_eq!("renamed", up.name().as_str());
}

#[test]
fn shared_backend_serves_every_operation_through_its_lock() {
    let shared = SharedBackend::new();
    let label = shared.create_label(String::from("shared")).unwrap();
    assert_eq!(1, label.id);

    let todo = shared
        .create_todo(CreateTodo::new(String::from("shared todo"), vec![1]))
        .unwrap();
    assert_eq!(1, todo.id);
    assert_eq!(vec![label.clone()], todo.labels);
    assert_eq!(vec![label], shared.all_labels());
    assert_eq!(Ok(todo.clone()), shared.find_todo(1));

    let patched = shared
        .update_todo(1, UpdateTodo::new(1, None, Some(true)))
        .unwrap();
    assert!(patched.completed);

    shared.delete_label(1).unwrap();
    let after = shared.find_todo(1).unwrap();
    assert!(after.labels.is_empty());

    shared.delete_todo(1).unwrap();
    assert!(shared.all_todos().is_empty());
    assert_eq!(Err(RepositoryError::NotFound(1)), shared.find_todo(1));
}
