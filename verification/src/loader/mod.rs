//! ELF/SELF loading and NID symbol resolution.
pub mod elf;
pub mod symbols;
