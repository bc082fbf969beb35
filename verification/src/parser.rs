//! The parser: from the text of a script to a document.

pub mod config;
pub mod functions;
pub mod grammar;
pub mod laws;
pub mod syntax;
pub mod types;
pub mod value;
