//! Curated exports: single articles that a rule has picked, with the reasons.

pub mod export;
pub mod model;
pub mod sync;
