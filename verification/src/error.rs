//! The narrow error taxonomy of the document core. Cursor and editing
//! boundary conditions are silent no-ops, never errors; only the
//! persistence boundary can fail.

use vstd::prelude::*;

verus! {

#[derive(Debug, Clone)]
pub enum ScreenplayError {
    /// A file could not be read or written.
    Io(String),
    /// A serialized document could not be parsed.
    JsonParse(String),
    /// A parsed document did not have the expected shape.
    InvalidFormat(String),
    /// A named file does not exist.
    FileNotFound(String),
}

} // verus!
