//! The Mach-O load command that locates the symbol table.
use vstd::prelude::*;

verus! {

/// Where the symbol table and its string table lie in the file.
#[derive(Clone, Copy, Debug, PartialEq, Eq, Structural, Default)]
pub struct SymtabCommand {
    /// LC_SYMTAB
    pub cmd: u32,
    /// sizeof(struct symtab_command)
    pub cmdsize: u32,
    /// symbol table offset
    pub symoff: u32,
    /// number of symbol table entries
    pub nsyms: u32,
    /// string table offset
    pub stroff: u32,
    /// string table size in bytes
    pub strsize: u32,
}

} // verus!
