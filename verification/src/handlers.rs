use vstd::prelude::*;

use crate::errors::RepositoryError;

verus! {

/// The payload of a user-creation request: the username alone.
#[derive(Debug, PartialEq, Eq)]
pub struct CreateUser {
    pub username: String,
}

/// A user record. The creation stub is stateless and fabricates the
/// same fixed identifier for every user.
#[derive(Debug, PartialEq, Eq)]
pub struct User {
    pub id: u64,
    pub username: String,
}

/// The identifier the user-creation stub hands out.
pub const USER_STUB_ID: u64 = 1337;

/// The user-creation stub: keeps the username and assigns the fixed
/// identifier. It never fails.
pub fn create_user(payload: CreateUser) -> (user: User)
    ensures
        user.id == USER_STUB_ID,
        user.username@ == payload.username@,
{
    User { id: USER_STUB_ID, username: payload.username }
}

/// The greeting the root endpoint answers with.
pub fn hello_message() -> (message: String)
    ensures
        message@ == "Hello actix!!"@,
{
    "Hello actix!!".to_owned()
}

/// The HTTP status each repository error maps to: a missing identifier
/// is the caller's lookup failure, a rejected payload is the caller's
/// input failure, and an underlying storage failure is the server's.
pub fn status_for_error(e: &RepositoryError) -> (status: u16)
    ensures
        e matches RepositoryError::NotFound(_) ==> status == 404,
        e matches RepositoryError::ValidationFailed(_) ==> status == 400,
        e matches RepositoryError::Unexpected(_) ==> status == 500,
{
    match e {
        RepositoryError::NotFound(_) => 404,
        RepositoryError::ValidationFailed(_) => 400,
        RepositoryError::Unexpected(_) => 500,
    }
}

} // verus!
