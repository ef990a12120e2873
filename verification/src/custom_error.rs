//! The error kinds shared by every operation of the library.

use vstd::prelude::*;

verus! {

/// Outcome kinds other than success.
///
/// `MenuReset` is not a fault: it is the control signal raised when the user
/// asks to abandon the current command (the reserved `menu` keyword, or a
/// declined confirmation) and must unwind to the top-level menu with no
/// change committed.
#[derive(Debug)]
pub enum CSVError {
    /// The user requested a return to the main menu; no change was made.
    MenuReset,
    /// Raw input could not be used (not a number, or the input ended).
    InputError(String),
    /// A numeric input fell outside the axis bounds, or a window's end
    /// preceded its start, or an index missed the stored grid.
    ValidationError(String),
    /// Any read or write failure other than a missing source.
    Other(String),
    /// The source to load from does not exist.
    FileNotFound(String),
}

impl CSVError {
    /// A human-readable description of the error, one line.
    pub fn message(&self) -> (m: String)
        ensures
            self is MenuReset ==> m@ == "Menu selected"@,
            self matches CSVError::InputError(s) ==> m@ == "Input error: "@ + s@,
            self matches CSVError::ValidationError(s) ==> m@ == "Validation error: "@ + s@,
            self matches CSVError::Other(s) ==> m@ == "Error: "@ + s@,
            self matches CSVError::FileNotFound(s) ==> m@ == "File not found, current directory : "@ + s@,
    {
        match self {
            CSVError::MenuReset => String::from_str("Menu selected"),
            CSVError::InputError(s) => String::from_str("Input error: ").concat(s.as_str()),
            CSVError::ValidationError(s) => String::from_str("Validation error: ").concat(s.as_str()),
            CSVError::Other(s) => String::from_str("Error: ").concat(s.as_str()),
            CSVError::FileNotFound(s) => String::from_str("File not found, current directory : ").concat(s.as_str()),
        }
    }
}

} // verus!
