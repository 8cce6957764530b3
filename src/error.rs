//! The errors of the readers and writers.
use vstd::prelude::*;

verus! {

/// The kind of record that an error is about.
#[derive(Clone, Copy, Debug, PartialEq, Eq, Structural)]
pub enum Record {
    ProgramHeader,
    Nlist,
    SymbolTable,
}

#[derive(Clone, Copy, Debug, PartialEq, Eq, Structural)]
pub enum Error {
    /// Fewer bytes remain from `offset` on than the record needs.
    Truncated { record: Record, offset: usize },
    /// An entry index at or past the number of entries.
    IndexOutOfBounds { index: usize, count: usize },
    /// The name of string index `strx` starts past the end of the buffer, has no
    /// terminator before the end, or is not UTF-8.
    BadString { strx: usize },
}

pub type Result<T> = core::result::Result<T, Error>;

} // verus!
