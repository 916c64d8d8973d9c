//! A minimal compiler backend: lowers an in-memory intermediate
//! representation of pre-encoded x86-64 instructions and constant data to a
//! relocatable ELF object file, ready for a linker.
//!
//! - `ir` is the program being compiled.
//! - `codegen` lays out code and constant data, records symbols and
//!   relocations, and assembles the object file. Its contracts are stated over
//!   a model of what is emitted (`codegen::emission`) and a plan of the file
//!   (`codegen::object`); `codegen::records` and `codegen::image` prove what
//!   the symbols, the relocations and the bytes of the file then say.
//! - `outputs` holds the structures of the file format and their byte
//!   encodings.
//! - `linking` holds a file layout with the section names kept apart.

pub mod codegen;
pub mod ir;
pub mod linking;
pub mod outputs;
