//! An ELF file that keeps the names of its sections apart from its data:
//! the table of section names is written between the section header table
//! and the data.

pub use crate::outputs::elf::{ElfHeader, ElfProgramHeader, ElfSectionHeader};
use crate::outputs::serialization::{
    add_raw, concat_serialized, lemma_concat_length_ignores_byte_order,
};
pub use crate::outputs::serialization::{Serializable, ToBytes};
use vstd::prelude::*;

verus! {

/// A whole file: the header, the two header tables, the names of the
/// sections, and everything after them.
#[derive(Clone, Debug, PartialEq, Eq)]
pub struct ElfFile {
    pub elf_header: ElfHeader,
    pub elf_program_headers: Vec<ElfProgramHeader>,
    pub elf_section_headers: Vec<ElfSectionHeader>,
    pub elf_section_names: Vec<String>,
    pub data: Vec<u8>,
}

impl Serializable for ElfFile {
    open spec fn spec_serialize(&self, big_endian: bool) -> Seq<u8> {
        Seq::empty()
            + self.elf_header.spec_serialize(big_endian)
            + concat_serialized(self.elf_program_headers@, big_endian)
            + concat_serialized(self.elf_section_headers@, big_endian)
            + concat_serialized(self.elf_section_names@, big_endian)
            + self.data@
    }

    proof fn lemma_length_ignores_byte_order(&self) {
        self.elf_header.lemma_length_ignores_byte_order();
        lemma_concat_length_ignores_byte_order(self.elf_program_headers@);
        lemma_concat_length_ignores_byte_order(self.elf_section_headers@);
        lemma_concat_length_ignores_byte_order(self.elf_section_names@);
    }

    fn serialize(&self, be: bool) -> (bytes: Vec<u8>) {
        let mut vec = Vec::new();

        let mut header = self.elf_header.serialize(be);
        vec.append(&mut header);
        let mut program_headers = self.elf_program_headers.serialize(be);
        vec.append(&mut program_headers);
        let mut section_headers = self.elf_section_headers.serialize(be);
        vec.append(&mut section_headers);
        let mut section_names = self.elf_section_names.serialize(be);
        vec.append(&mut section_names);
        add_raw(&mut vec, self.data.as_slice());

        vec
    }
}

} // verus!
