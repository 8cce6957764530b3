//! Mach-O structures.

pub mod load_command;
pub mod symbols;
