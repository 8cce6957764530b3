//! The parsing context: the word width and the byte order of a binary.
use vstd::prelude::*;

verus! {

/// The word width of a binary: `Little` for 32-bit records, `Big` for 64-bit ones.
#[derive(Clone, Copy, Debug, PartialEq, Eq, Structural)]
pub enum Container {
    Little,
    Big,
}

/// The byte order of every multi-byte field.
#[derive(Clone, Copy, Debug, PartialEq, Eq, Structural)]
pub enum Endian {
    Little,
    Big,
}

/// Selects which wire layout is read or written, and in which byte order.
#[derive(Clone, Copy, Debug, PartialEq, Eq, Structural)]
pub struct Ctx {
    pub container: Container,
    pub le: Endian,
}

impl Ctx {
    pub fn new(container: Container, le: Endian) -> (r: Ctx)
        ensures
            r.container == container,
            r.le == le,
    {
        Ctx { container, le }
    }

    /// Whether records are in their 64-bit layout.
    pub fn is_big(&self) -> (r: bool)
        ensures
            r == (self.container == Container::Big),
    {
        match self.container {
            Container::Big => true,
            Container::Little => false,
        }
    }

    /// Whether multi-byte fields are little endian.
    pub fn is_little_endian(&self) -> (r: bool)
        ensures
            r == (self.le == Endian::Little),
    {
        match self.le {
            Endian::Little => true,
            Endian::Big => false,
        }
    }
}

/// 64-bit records in little-endian order. A binary of another kind read with this
/// context gives wrong values: callers that know the binary pass its context.
impl Default for Ctx {
    fn default() -> (r: Ctx)
        ensures
            r.container == Container::Big,
            r.le == Endian::Little,
    {
        Ctx { container: Container::Big, le: Endian::Little }
    }
}

} // verus!
