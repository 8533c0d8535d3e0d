//! The record model: a persisted todo, the two input payloads, the error
//! taxonomy of the service, and the merge that a partial update performs.

use vstd::prelude::*;

verus! {

/// A persisted todo record.
///
/// The identifier is the 128-bit value of a UUID; the timestamps count
/// microseconds since the Unix epoch. A row always satisfies
/// `created_at <= updated_at`.
#[derive(Debug, PartialEq)]
pub struct Todo {
    pub id: u128,
    pub title: String,
    pub description: Option<String>,
    pub completed: bool,
    pub created_at: u64,
    pub updated_at: u64,
}

/// The payload that creates a todo: a required title and an optional
/// description. The completion flag of a fresh record is always false.
#[derive(Debug, PartialEq)]
pub struct CreateTodo {
    pub title: String,
    pub description: Option<String>,
}

/// The payload of a partial update. A field left `None` keeps its stored
/// value. An explicit null in a decoded body is not distinguishable from an
/// absent field here, so a description can never be cleared back to `None`
/// by an update: a known limitation of the merge below.
#[derive(Debug, PartialEq)]
pub struct UpdateTodo {
    pub title: Option<String>,
    pub description: Option<String>,
    pub completed: Option<bool>,
}

/// The mathematical value of a [`Todo`].
#[verifier::ext_equal]
pub ghost struct TodoView {
    pub id: u128,
    pub title: Seq<char>,
    pub description: Option<Seq<char>>,
    pub completed: bool,
    pub created_at: u64,
    pub updated_at: u64,
}

/// The mathematical value of a [`CreateTodo`].
#[verifier::ext_equal]
pub ghost struct CreateView {
    pub title: Seq<char>,
    pub description: Option<Seq<char>>,
}

/// The mathematical value of an [`UpdateTodo`].
#[verifier::ext_equal]
pub ghost struct UpdateView {
    pub title: Option<Seq<char>>,
    pub description: Option<Seq<char>>,
    pub completed: Option<bool>,
}

impl View for Todo {
    type V = TodoView;

    open spec fn view(&self) -> TodoView {
        TodoView {
            id: self.id,
            title: self.title@,
            description: match self.description {
                Some(d) => Some(d@),
                None => None,
            },
            completed: self.completed,
            created_at: self.created_at,
            updated_at: self.updated_at,
        }
    }
}

impl View for CreateTodo {
    type V = CreateView;

    open spec fn view(&self) -> CreateView {
        CreateView {
            title: self.title@,
            description: match self.description {
                Some(d) => Some(d@),
                None => None,
            },
        }
    }
}

impl View for UpdateTodo {
    type V = UpdateView;

    open spec fn view(&self) -> UpdateView {
        UpdateView {
            title: match self.title {
                Some(t) => Some(t@),
                None => None,
            },
            description: match self.description {
                Some(d) => Some(d@),
                None => None,
            },
            completed: self.completed,
        }
    }
}

impl Todo {
    /// An owned copy of the record, equal to it in every field.
    pub fn duplicate(&self) -> (r: Todo)
        ensures
            r@ == self@,
    {
        Todo {
            id: self.id,
            title: self.title.clone(),
            description: match &self.description {
                Some(d) => Some(d.clone()),
                None => None,
            },
            completed: self.completed,
            created_at: self.created_at,
            updated_at: self.updated_at,
        }
    }
}

/// What a service operation can fail with: a malformed input, a missing
/// record, or a failure of the store itself.
#[derive(Clone, Copy, Debug, PartialEq, Eq, Structural)]
pub enum TodoError {
    Validation,
    NotFound,
    Store,
}

/// The HTTP status that the transport layer answers with for each error:
/// malformed input is the client's fault, a missing record is not found,
/// and a store failure is a server error whose detail stays on the server.
pub open spec fn spec_error_status(e: TodoError) -> u16 {
    match e {
        TodoError::Validation => 400,
        TodoError::NotFound => 404,
        TodoError::Store => 500,
    }
}

/// Maps a service error to the status code of the HTTP answer.
pub fn error_status(e: TodoError) -> (r: u16)
    ensures
        r == spec_error_status(e),
{
    match e {
        TodoError::Validation => 400,
        TodoError::NotFound => 404,
        TodoError::Store => 500,
    }
}

/// The merge a partial update performs: each field that the payload sets
/// replaces the stored one, each field it leaves out keeps the stored value,
/// the identifier and the creation time never change, and the update time
/// becomes `now`.
pub open spec fn merge_view(t: TodoView, u: UpdateView, now: u64) -> TodoView {
    TodoView {
        id: t.id,
        title: match u.title {
            Some(s) => s,
            None => t.title,
        },
        description: match u.description {
            Some(d) => Some(d),
            None => t.description,
        },
        completed: match u.completed {
            Some(c) => c,
            None => t.completed,
        },
        created_at: t.created_at,
        updated_at: now,
    }
}

/// Applies a partial update to a record, exactly as [`merge_view`] says.
pub fn merge_todo(t: &Todo, u: &UpdateTodo, now: u64) -> (r: Todo)
    ensures
        r@ == merge_view(t@, u@, now),
{
    Todo {
        id: t.id,
        title: match &u.title {
            Some(s) => s.clone(),
            None => t.title.clone(),
        },
        description: match &u.description {
            Some(d) => Some(d.clone()),
            None => match &t.description {
                Some(d) => Some(d.clone()),
                None => None,
            },
        },
        completed: match u.completed {
            Some(c) => c,
            None => t.completed,
        },
        created_at: t.created_at,
        updated_at: now,
    }
}

} // verus!
