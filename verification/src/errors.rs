use vstd::prelude::*;

verus! {

/// The ways a repository operation or an input check can fail.
///
/// `NotFound` carries the identifier that no stored todo has;
/// `ValidationFailed` carries the reason an input payload was rejected;
/// `Unexpected` carries the description of an underlying storage failure
/// (the in-memory store never produces it; a backing store may).
#[derive(Debug, Clone, PartialEq, Eq)]
pub enum RepositoryError {
    Unexpected(String),
    NotFound(i32),
    ValidationFailed(String),
}

} // verus!
