//! The entity model: labels, todos, the input shapes used by `create` and
//! `update`, and the error taxonomy shared by every backend.

use vstd::prelude::*;

verus! {

/// Mathematical model of a label: its id and its name.
pub ghost struct LabelModel {
    pub id: int,
    pub name: Seq<char>,
}

/// A label that can be attached to todos. Ids are unique and assigned by the
/// backend; no two labels share a name.
#[derive(Debug, PartialEq, Eq)]
pub struct Label {
    pub id: i32,
    pub name: String,
}

impl View for Label {
    type V = LabelModel;

    open spec fn view(&self) -> LabelModel {
        LabelModel { id: self.id as int, name: self.name@ }
    }
}

impl Label {
    pub fn new(id: i32, name: String) -> (r: Label)
        ensures
            r@ == (LabelModel { id: id as int, name: name@ }),
    {
        Label { id, name }
    }
}

impl Clone for Label {
    fn clone(&self) -> (r: Self)
        ensures
            r@ == self@,
    {
        Label { id: self.id, name: self.name.clone() }
    }
}

/// Mathematical model of a todo as callers see it: the `labels` field is the
/// materialized sequence of associated labels, resolved at read time.
pub ghost struct TodoModel {
    pub id: int,
    pub text: Seq<char>,
    pub completed: bool,
    pub labels: Seq<LabelModel>,
}

/// A todo as returned by the repositories: its `labels` field is a
/// materialized view of the association, never a stored copy.
#[derive(Debug, PartialEq, Eq)]
pub struct TodoEntity {
    pub id: i32,
    pub text: String,
    pub completed: bool,
    pub labels: Vec<Label>,
}

impl View for TodoEntity {
    type V = TodoModel;

    open spec fn view(&self) -> TodoModel {
        TodoModel {
            id: self.id as int,
            text: self.text@,
            completed: self.completed,
            labels: self.labels@.map_values(|l: Label| l@),
        }
    }
}

impl TodoEntity {
    /// A freshly created todo: not yet completed.
    pub fn new(id: i32, text: String, labels: Vec<Label>) -> (r: TodoEntity)
        ensures
            r@ == (TodoModel {
                id: id as int,
                text: text@,
                completed: false,
                labels: labels@.map_values(|l: Label| l@),
            }),
    {
        TodoEntity { id, text, completed: false, labels }
    }
}

impl Clone for TodoEntity {
    fn clone(&self) -> (r: Self)
        ensures
            r@ == self@,
    {
        let mut labels: Vec<Label> = Vec::new();
        let mut i: usize = 0;
        while i < self.labels.len()
            invariant
                i <= self.labels.len(),
                labels@.len() == i as int,
                forall|j: int| 0 <= j < i as int ==> labels@[j]@ == self.labels@[j]@,
            decreases self.labels.len() - i,
        {
            labels.push(self.labels[i].clone());
            i += 1;
        }
        proof {
            assert(labels@.map_values(|l: Label| l@) =~= self.labels@.map_values(|l: Label| l@));
        }
        TodoEntity { id: self.id, text: self.text.clone(), completed: self.completed, labels }
    }
}

/// Model of a `create` request for a todo.
pub ghost struct CreateTodoModel {
    pub text: Seq<char>,
    pub labels: Seq<int>,
}

/// Input shape for creating a todo: its text and the ids of the labels to
/// associate. Every referenced id must name an existing label.
#[derive(Debug, PartialEq, Eq)]
pub struct CreateTodo {
    pub text: String,
    pub labels: Vec<i32>,
}

impl View for CreateTodo {
    type V = CreateTodoModel;

    open spec fn view(&self) -> CreateTodoModel {
        CreateTodoModel { text: self.text@, labels: self.labels@.map_values(|x: i32| x as int) }
    }
}

impl CreateTodo {
    pub fn new(text: String, labels: Vec<i32>) -> (r: CreateTodo)
        ensures
            r@ == (CreateTodoModel {
                text: text@,
                labels: labels@.map_values(|x: i32| x as int),
            }),
    {
        CreateTodo { text, labels }
    }
}

/// Model of a partial update for a todo.
pub ghost struct UpdateTodoModel {
    pub text: Option<Seq<char>>,
    pub completed: Option<bool>,
}

/// Input shape for a partial update of a todo: fields left as `None` keep
/// their current value.
#[derive(Debug, PartialEq, Eq)]
pub struct UpdateTodo {
    pub id: i32,
    pub text: Option<String>,
    pub completed: Option<bool>,
}

impl View for UpdateTodo {
    type V = UpdateTodoModel;

    open spec fn view(&self) -> UpdateTodoModel {
        UpdateTodoModel {
            text: match self.text {
                Some(t) => Some(t@),
                None => None,
            },
            completed: self.completed,
        }
    }
}

impl UpdateTodo {
    pub fn new(id: i32, text: Option<String>, completed: Option<bool>) -> (r: UpdateTodo)
        ensures
            r.id == id,
            r@ == (UpdateTodoModel {
                text: match text {
                    Some(t) => Some(t@),
                    None => None::<Seq<char>>,
                },
                completed: completed,
            }),
    {
        UpdateTodo { id, text, completed }
    }
}

/// Input shape for renaming a label. Labels are immutable after creation, so
/// no repository method consumes this yet; it mirrors the update shapes above.
#[derive(Debug, PartialEq, Eq)]
pub struct UpdateLabel {
    id: i32,
    name: String,
}

impl View for UpdateLabel {
    type V = LabelModel;

    closed spec fn view(&self) -> LabelModel {
        LabelModel { id: self.id as int, name: self.name@ }
    }
}

impl UpdateLabel {
    pub fn new(id: i32, name: String) -> (r: UpdateLabel)
        ensures
            r@ == (LabelModel { id: id as int, name: name@ }),
    {
        UpdateLabel { id, name }
    }

    pub fn id(&self) -> (r: i32)
        ensures
            r as int == self@.id,
    {
        self.id
    }

    pub fn name(&self) -> (r: &String)
        ensures
            r@ == self@.name,
    {
        &self.name
    }
}

/// Model of a repository error, without the free-text detail of the
/// `Unexpected` case.
pub ghost enum ErrorModel {
    NotFound(int),
    Duplicate(int),
    Unexpected,
}

/// The error taxonomy shared by every backend: a missing entity (or a missing
/// label referenced during association), a label-name collision carrying the
/// existing label's id, or any unclassified backend failure.
#[derive(Debug, PartialEq, Eq)]
pub enum RepositoryError {
    NotFound(i32),
    Duplicate(i32),
    Unexpected(String),
}

impl View for RepositoryError {
    type V = ErrorModel;

    open spec fn view(&self) -> ErrorModel {
        match self {
            RepositoryError::NotFound(id) => ErrorModel::NotFound(*id as int),
            RepositoryError::Duplicate(id) => ErrorModel::Duplicate(*id as int),
            RepositoryError::Unexpected(_) => ErrorModel::Unexpected,
        }
    }
}

impl RepositoryError {
    /// Human-readable description, in place of a `Display` impl.
    pub fn message(&self) -> (r: String)
        ensures
            self is NotFound ==> r@ == "entity not found"@,
            self is Duplicate ==> r@ == "duplicate entity name"@,
            self is Unexpected ==> r@ == self.detail_spec(),
    {
        match self {
            RepositoryError::NotFound(_) => String::from_str("entity not found"),
            RepositoryError::Duplicate(_) => String::from_str("duplicate entity name"),
            RepositoryError::Unexpected(detail) => detail.clone(),
        }
    }

    /// The free-text detail carried by the `Unexpected` case.
    pub open spec fn detail_spec(&self) -> Seq<char> {
        match self {
            RepositoryError::Unexpected(detail) => detail@,
            _ => Seq::empty(),
        }
    }
}

/// View of a label result as returned by `LabelRepository` methods.
pub open spec fn label_result_view(r: Result<Label, RepositoryError>) -> Result<
    LabelModel,
    ErrorModel,
> {
    match r {
        Ok(l) => Ok(l@),
        Err(e) => Err(e@),
    }
}

/// View of a todo result as returned by `TodoRepository` methods.
pub open spec fn todo_result_view(r: Result<TodoEntity, RepositoryError>) -> Result<
    TodoModel,
    ErrorModel,
> {
    match r {
        Ok(t) => Ok(t@),
        Err(e) => Err(e@),
    }
}

/// View of a unit result as returned by `delete`.
pub open spec fn unit_result_view(r: Result<(), RepositoryError>) -> Result<(), ErrorModel> {
    match r {
        Ok(u) => Ok(u),
        Err(e) => Err(e@),
    }
}

} // verus!
