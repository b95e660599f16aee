//! What goes with every request.

pub mod usage_tracking;
