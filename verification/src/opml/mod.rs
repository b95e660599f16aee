//! OPML: the documents, how they are written, and how feeds move in and out of them.

pub mod document;
pub mod exporter;
pub mod tree;
pub mod census;
pub mod import;
pub mod reading;
pub mod roundtrip;
pub mod run;
pub mod store;
