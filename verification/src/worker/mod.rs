//! What is done in the background.

pub mod handlers;
pub mod queue;
