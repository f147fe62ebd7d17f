//! The arguments of the command that renames a column of a CSV file.

use vstd::prelude::*;

verus! {

/// What the command is called with.
#[derive(Debug)]
pub struct Opt {
    /// Input file
    pub input: String,
    /// Column Name
    pub column_name: String,
    /// Replacement Column Name
    pub replacement: String,
    /// Output file, stdout if not present
    pub output: Option<String>,
}

} // verus!
