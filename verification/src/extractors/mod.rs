//! How the parts of a request are read.

pub mod json;
