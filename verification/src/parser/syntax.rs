//! The marks of the language, by what they serve.

pub mod comments;
pub mod delimiters;
pub mod navigation;
pub mod prefixes;
