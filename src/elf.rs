//! ELF structures.

pub mod program_header;
