//! The marks of comments and of log lines.

use vstd::prelude::*;

verus! {

/// A comment: `// text`.
pub const BASIC: &'static str = "//";

/// A log line of information: `/// text`.
pub const INFO: &'static str = "///";

/// A log line of warning: `//? text`.
pub const WARNING: &'static str = "//?";

/// A log line of error: `//! text`.
pub const ERROR: &'static str = "//!";

} // verus!
