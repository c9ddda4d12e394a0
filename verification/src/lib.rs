//! A todo repository with verified CRUD semantics: an in-memory keyed store
//! offering create / find / all / update / delete, merge-on-none partial
//! updates, input validation, and a user-creation stub.

pub mod errors;
pub mod handlers;
pub mod model;
pub mod repositories;
pub mod todos;
