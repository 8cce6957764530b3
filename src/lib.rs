//! Readers and writers for the fixed-size records of object files: ELF program
//! headers and Mach-O `nlist` symbol table entries, in 32- and 64-bit layouts and
//! in either byte order.

pub mod codec;
pub mod container;
pub mod elf;
pub mod error;
pub mod mach;
pub mod strings;
