//! The object-file side: byte encodings and the ELF structures built on them.

pub mod elf;
pub mod serialization;
