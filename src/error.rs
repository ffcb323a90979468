use vstd::prelude::*;

verus! {

/// Why an instance could not be read from its text form.
#[derive(Debug, PartialEq, Eq)]
pub enum FormatError {
    /// There was no line at all.
    EmptyInput,
    /// The first line is not an unsigned integer; it holds the line.
    BadItemCount(String),
    /// An item line is not three whitespace-separated unsigned integers;
    /// it holds the line.
    BadItem(String),
    /// The input ended before all the declared item lines were read.
    MissingItems { expected: u64, found: u64 },
    /// The input ended right after the item lines.
    MissingCapacity,
    /// The capacity line is not an unsigned integer; it holds the line.
    BadCapacity(String),
}

} // verus!
