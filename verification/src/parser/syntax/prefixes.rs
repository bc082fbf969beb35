//! The marks that open an element of a script.

use vstd::prelude::*;

verus! {

/// Opens a section: `#name`.
pub const SECTION: &'static str = "#";

/// Opens the definition of an actor, `@name`, and refers to an actor in a
/// spoken line, `@name: text`.
pub const ACTOR: &'static str = "@";

/// Opens the declaration of a function: `!name`.
pub const FUNCTION: &'static str = "!";

/// Opens the definition of a variable, `$name: value`, and an assignment to
/// one, `$name = value`.
pub const VARIABLE: &'static str = "$";

/// Opens a response within a page: `- text`.
pub const RESPONSE: &'static str = "-";

} // verus!
