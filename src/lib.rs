//! The data layer of a multi-user todo-list service: a store of users, a
//! store of login sessions and a store of per-user todo lists.
pub mod error;
pub mod ident;
pub mod user;
pub mod session;
pub mod todo;
pub mod api;
pub mod laws;
