//! What the requests of the API decide.

pub mod articles;
pub mod creation;
pub mod cursor;
pub mod auth;
pub mod billing;
pub mod common;
pub mod feeds;
pub mod folders;
pub mod health;
pub mod paging;
pub mod rules;
pub mod tags;
