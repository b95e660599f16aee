//! What the background jobs decide.

pub mod dunning;
pub mod history;
