use vstd::prelude::*;

use crate::errors::RepositoryError;

verus! {

/// The longest text a validated todo may carry, in characters.
pub const TEXT_MAX_LEN: usize = 100;

/// The mathematical value of a stored todo: its identifier as an
/// unbounded integer, its text as a sequence of characters, and its
/// completion flag.
#[verifier::ext_equal]
pub struct TodoView {
    pub id: int,
    pub text: Seq<char>,
    pub completed: bool,
}

/// A stored todo record.
#[derive(Debug, PartialEq, Eq)]
pub struct Todo {
    pub id: i32,
    pub text: String,
    pub completed: bool,
}

impl View for Todo {
    type V = TodoView;

    open spec fn view(&self) -> TodoView {
        TodoView { id: self.id as int, text: self.text@, completed: self.completed }
    }
}

impl Todo {
    /// A fresh record starts out not completed.
    pub fn new(id: i32, text: String) -> (todo: Todo)
        ensures
            todo@ == (TodoView { id: id as int, text: text@, completed: false }),
    {
        Todo { id, text, completed: false }
    }
}

impl Clone for Todo {
    fn clone(&self) -> (res: Todo)
        ensures
            res == *self,
    {
        Todo { id: self.id, text: self.text.clone(), completed: self.completed }
    }
}

/// The payload of a creation request: the text alone; the identifier is
/// assigned by the store and the completion flag starts out false.
#[derive(Debug, Clone, PartialEq, Eq)]
pub struct CreateTodo {
    pub text: String,
}

impl CreateTodo {
    pub fn new(text: String) -> (payload: CreateTodo)
        ensures
            payload.text@ == text@,
    {
        CreateTodo { text }
    }
}

/// The mathematical value of a partial-update payload.
#[verifier::ext_equal]
pub struct UpdateTodoView {
    pub text: Option<Seq<char>>,
    pub completed: Option<bool>,
}

/// The payload of a partial update: each absent field leaves the
/// corresponding stored field unchanged.
#[derive(Debug, Clone, PartialEq, Eq)]
pub struct UpdateTodo {
    pub text: Option<String>,
    pub completed: Option<bool>,
}

impl View for UpdateTodo {
    type V = UpdateTodoView;

    open spec fn view(&self) -> UpdateTodoView {
        UpdateTodoView {
            text: match self.text {
                Option::Some(s) => Option::Some(s@),
                Option::None => Option::None,
            },
            completed: self.completed,
        }
    }
}

/// Merge-on-none update semantics: a present field replaces the stored
/// one, an absent field keeps it; the identifier never changes.
pub open spec fn merged(prev: TodoView, upd: UpdateTodoView) -> TodoView {
    TodoView {
        id: prev.id,
        text: match upd.text {
            Option::Some(t) => t,
            Option::None => prev.text,
        },
        completed: match upd.completed {
            Option::Some(c) => c,
            Option::None => prev.completed,
        },
    }
}

/// Whether a text passes validation: non-empty and at most
/// `TEXT_MAX_LEN` characters.
pub open spec fn text_valid(text: Seq<char>) -> bool {
    1 <= text.len() <= TEXT_MAX_LEN
}

/// Counts the characters of `s`, stopping once `cap` have been seen, so
/// the count cannot overflow however long the text is.
fn char_len_capped(s: &str, cap: usize) -> (n: usize)
    ensures
        n <= cap,
        n < cap ==> n == s@.len(),
        n == cap ==> s@.len() >= cap,
{
    let mut n: usize = 0;
    for _c in it: s.chars()
        invariant
            it.seq() == s@,
            n <= cap,
            n as int == if it.index() <= cap as int {
                it.index() as int
            } else {
                cap as int
            },
    {
        if n < cap {
            n = n + 1;
        }
    }
    n
}

impl CreateTodo {
    /// Accepts the payload exactly when its text is non-empty and at most
    /// `TEXT_MAX_LEN` characters; otherwise reports which bound failed.
    pub fn validate(&self) -> (r: Result<(), RepositoryError>)
        ensures
            r is Ok <==> text_valid(self.text@),
            r matches Err(e) ==> e matches RepositoryError::ValidationFailed(m) && ((
            self.text@.len() == 0 ==> m@ == "Can not be empty"@) && (self.text@.len()
                > TEXT_MAX_LEN ==> m@ == "Over text length"@)),
    {
        validate_text(&self.text)
    }
}

impl UpdateTodo {
    /// An absent text is accepted as it is; a present one is held to the
    /// same bounds as on creation.
    pub fn validate(&self) -> (r: Result<(), RepositoryError>)
        ensures
            r is Ok <==> (self@.text matches Option::Some(t) ==> text_valid(t)),
            r matches Err(e) ==> self@.text matches Option::Some(t) && (e matches
                RepositoryError::ValidationFailed(m) && ((t.len() == 0 ==> m@
                == "Can not be empty"@) && (t.len() > TEXT_MAX_LEN ==> m@
                == "Over text length"@))),
    {
        match &self.text {
            Option::Some(text) => validate_text(text),
            Option::None => Ok(()),
        }
    }
}

/// The shared bounds check behind both payload validations.
fn validate_text(text: &String) -> (r: Result<(), RepositoryError>)
    ensures
        r is Ok <==> text_valid(text@),
        r matches Err(e) ==> e matches RepositoryError::ValidationFailed(m) && ((text@.len()
            == 0 ==> m@ == "Can not be empty"@) && (text@.len() > TEXT_MAX_LEN ==> m@
            == "Over text length"@)),
{
    let n = char_len_capped(text.as_str(), TEXT_MAX_LEN + 1);
    if n == 0 {
        Err(RepositoryError::ValidationFailed("Can not be empty".to_owned()))
    } else if n > TEXT_MAX_LEN {
        Err(RepositoryError::ValidationFailed("Over text length".to_owned()))
    } else {
        Ok(())
    }
}

} // verus!
