//! The Java exception surface the game's loaders discriminate on.
use vstd::prelude::*;

verus! {

/// A Java exception, as the game's `try/catch` blocks see it.
#[derive(Debug, Clone, PartialEq, Eq)]
pub enum JavaError {
    /// `NullPointerException`.
    NullPointer,
    /// An `IOException` (`EOFException`, `UTFDataFormatException`, …), by name.
    Io(String),
    /// An `IllegalArgumentException` (`NumberFormatException`, …), by message.
    IllegalArgument(&'static str),
}

/// The name of the exception a read past the end raises.
pub const EOF_EXCEPTION: &'static str = "EOFException";

/// The name of the exception malformed modified UTF-8 raises.
pub const UTF_DATA_FORMAT: &'static str = "UTFDataFormatException";

/// The message for a decoded string a Rust `String` cannot hold.
pub const UNPAIRED_SURROGATE: &'static str = "readUTF: unpaired surrogate (unrepresentable)";

/// Whether `e` is the `IOException` named `name`.
pub open spec fn is_io(e: JavaError, name: &'static str) -> bool {
    e matches JavaError::Io(s) && s@ == name@
}

/// `new IOException(name)`.
pub fn io_error(name: &'static str) -> (e: JavaError)
    ensures
        is_io(e, name),
{
    proof {
        broadcast use vstd::string::group_string_axioms;
    }
    JavaError::Io(name.to_string())
}

} // verus!
