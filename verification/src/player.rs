//! The player: a walk over the steps of a document, one tick at a time.

pub mod engine;
pub mod laws;
pub mod model;
