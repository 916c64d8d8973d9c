//! Files on their way to the linker.

pub mod elf;
