//! The structures of a 64-bit ELF file, each with its fixed binary layout.
//!
//! Every structure encodes as its fields in declaration order; the order is
//! part of the format.

use crate::outputs::serialization::{
    add_bytes, add_raw, concat_serialized, int_bytes, lemma_concat_length_ignores_byte_order,
    lemma_concat_of_equal_sizes, lemma_int_bytes_len, range, Serializable, ToBytes,
};
use vstd::prelude::*;

verus! {

/// The file header.
#[derive(Clone, Copy, Debug, PartialEq, Eq)]
pub struct ElfHeader {
    pub e_ident_magic: [u8; 4],
    pub e_ident_class: u8,
    pub e_ident_data: u8,
    pub e_ident_version: u8,
    pub e_ident_abi: u8,
    pub e_ident_abi_version: u8,
    pub e_ident_pad: [u8; 7],
    pub e_type: u16,
    pub e_machine: u16,
    pub e_version: u32,
    pub e_entry: u64,
    pub e_phoff: u64,
    pub e_shoff: u64,
    pub e_flags: u32,
    pub e_ehsize: u16,
    pub e_phentsize: u16,
    pub e_phnum: u16,
    pub e_shentsize: u16,
    pub e_shnum: u16,
    pub e_shstrndx: u16,
}

/// One entry of the program header table.
#[derive(Clone, Copy, Debug, PartialEq, Eq)]
pub struct ElfProgramHeader {
    pub p_type: u32,
    pub p_flags: u32,
    pub p_offset: u64,
    pub p_vaddr: u64,
    pub p_paddr: u64,
    pub p_filesz: u64,
    pub p_memsz: u64,
    pub p_align: u64,
}

/// One entry of the section header table.
#[derive(Clone, Copy, Debug, PartialEq, Eq)]
pub struct ElfSectionHeader {
    pub sh_name: u32,
    pub sh_type: u32,
    pub sh_flags: u64,
    pub sh_addr: u64,
    pub sh_offset: u64,
    pub sh_size: u64,
    pub sh_link: u32,
    pub sh_info: u32,
    pub sh_addralign: u64,
    pub sh_entsize: u64,
}

/// A whole file: the header, the two header tables, and everything after them.
#[derive(Clone, Debug, PartialEq, Eq)]
pub struct ElfFile {
    pub elf_header: ElfHeader,
    pub elf_program_headers: Vec<ElfProgramHeader>,
    pub elf_section_headers: Vec<ElfSectionHeader>,
    pub data: Vec<u8>,
}

/// One entry of a symbol table.
#[derive(Clone, Copy, Debug, PartialEq, Eq)]
pub struct ElfSymbol {
    pub st_name: u32,
    pub st_info: u8,
    pub st_other: u8,
    pub st_shndx: u16,
    pub st_value: u64,
    pub st_size: u64,
}

/// One entry of a relocation table without addends.
#[derive(Clone, Copy, Debug, PartialEq, Eq)]
pub struct ElfRelocation {
    pub r_offset: u64,
    pub r_info: u64,
}

/// The encoded size of a file header.
pub const ELF_HEADER_SIZE: usize = 0x40;

/// The encoded size of a program header.
pub const PROGRAM_HEADER_SIZE: usize = 0x38;

/// The encoded size of a section header.
pub const SECTION_HEADER_SIZE: usize = 0x40;

/// Where the offset of a section stands in its encoded header.
pub const SECTION_OFFSET_AT: usize = 0x18;

/// Where the size of a section stands in its encoded header.
pub const SECTION_SIZE_AT: usize = 0x20;

/// The encoded size of a symbol table entry.
pub const SYMBOL_SIZE: usize = 0x18;

/// The encoded size of a relocation table entry.
pub const RELOCATION_SIZE: usize = 0x10;

impl ElfHeader {
    /// A file header always encodes to the same number of bytes.
    pub proof fn lemma_serialized_size(&self, big_endian: bool)
        ensures
            self.spec_serialize(big_endian).len() == ELF_HEADER_SIZE,
    {
        lemma_int_bytes_len(self.e_ident_class as nat, 1, big_endian);
        lemma_int_bytes_len(self.e_ident_data as nat, 1, big_endian);
        lemma_int_bytes_len(self.e_ident_version as nat, 1, big_endian);
        lemma_int_bytes_len(self.e_ident_abi as nat, 1, big_endian);
        lemma_int_bytes_len(self.e_ident_abi_version as nat, 1, big_endian);
        lemma_int_bytes_len(self.e_type as nat, 2, big_endian);
        lemma_int_bytes_len(self.e_machine as nat, 2, big_endian);
        lemma_int_bytes_len(self.e_version as nat, 4, big_endian);
        lemma_int_bytes_len(self.e_entry as nat, 8, big_endian);
        lemma_int_bytes_len(self.e_phoff as nat, 8, big_endian);
        lemma_int_bytes_len(self.e_shoff as nat, 8, big_endian);
        lemma_int_bytes_len(self.e_flags as nat, 4, big_endian);
        lemma_int_bytes_len(self.e_ehsize as nat, 2, big_endian);
        lemma_int_bytes_len(self.e_phentsize as nat, 2, big_endian);
        lemma_int_bytes_len(self.e_phnum as nat, 2, big_endian);
        lemma_int_bytes_len(self.e_shentsize as nat, 2, big_endian);
        lemma_int_bytes_len(self.e_shnum as nat, 2, big_endian);
        lemma_int_bytes_len(self.e_shstrndx as nat, 2, big_endian);
    }
}

impl Serializable for ElfHeader {
    open spec fn spec_serialize(&self, big_endian: bool) -> Seq<u8> {
        Seq::empty()
            + self.e_ident_magic@
            + self.e_ident_class.spec_to_bytes(big_endian)
            + self.e_ident_data.spec_to_bytes(big_endian)
            + self.e_ident_version.spec_to_bytes(big_endian)
            + self.e_ident_abi.spec_to_bytes(big_endian)
            + self.e_ident_abi_version.spec_to_bytes(big_endian)
            + self.e_ident_pad@
            + self.e_type.spec_to_bytes(big_endian)
            + self.e_machine.spec_to_bytes(big_endian)
            + self.e_version.spec_to_bytes(big_endian)
            + self.e_entry.spec_to_bytes(big_endian)
            + self.e_phoff.spec_to_bytes(big_endian)
            + self.e_shoff.spec_to_bytes(big_endian)
            + self.e_flags.spec_to_bytes(big_endian)
            + self.e_ehsize.spec_to_bytes(big_endian)
            + self.e_phentsize.spec_to_bytes(big_endian)
            + self.e_phnum.spec_to_bytes(big_endian)
            + self.e_shentsize.spec_to_bytes(big_endian)
            + self.e_shnum.spec_to_bytes(big_endian)
            + self.e_shstrndx.spec_to_bytes(big_endian)
    }

    proof fn lemma_length_ignores_byte_order(&self) {
        self.lemma_serialized_size(true);
        self.lemma_serialized_size(false);
    }

    fn serialize(&self, be: bool) -> (bytes: Vec<u8>) {
        let mut vec = Vec::new();

        add_raw(&mut vec, self.e_ident_magic.as_slice());
        add_bytes(&mut vec, self.e_ident_class, be);
        add_bytes(&mut vec, self.e_ident_data, be);
        add_bytes(&mut vec, self.e_ident_version, be);
        add_bytes(&mut vec, self.e_ident_abi, be);
        add_bytes(&mut vec, self.e_ident_abi_version, be);
        add_raw(&mut vec, self.e_ident_pad.as_slice());
        add_bytes(&mut vec, self.e_type, be);
        add_bytes(&mut vec, self.e_machine, be);
        add_bytes(&mut vec, self.e_version, be);
        add_bytes(&mut vec, self.e_entry, be);
        add_bytes(&mut vec, self.e_phoff, be);
        add_bytes(&mut vec, self.e_shoff, be);
        add_bytes(&mut vec, self.e_flags, be);
        add_bytes(&mut vec, self.e_ehsize, be);
        add_bytes(&mut vec, self.e_phentsize, be);
        add_bytes(&mut vec, self.e_phnum, be);
        add_bytes(&mut vec, self.e_shentsize, be);
        add_bytes(&mut vec, self.e_shnum, be);
        add_bytes(&mut vec, self.e_shstrndx, be);
        vec
    }

    fn serialized_length(&self) -> (len: usize) {
        proof {
            self.lemma_serialized_size(true);
            self.lemma_serialized_size(false);
        }
        ELF_HEADER_SIZE
    }
}

impl ElfProgramHeader {
    /// A program header always encodes to the same number of bytes.
    pub proof fn lemma_serialized_size(&self, big_endian: bool)
        ensures
            self.spec_serialize(big_endian).len() == PROGRAM_HEADER_SIZE,
    {
        lemma_int_bytes_len(self.p_type as nat, 4, big_endian);
        lemma_int_bytes_len(self.p_flags as nat, 4, big_endian);
        lemma_int_bytes_len(self.p_offset as nat, 8, big_endian);
        lemma_int_bytes_len(self.p_vaddr as nat, 8, big_endian);
        lemma_int_bytes_len(self.p_paddr as nat, 8, big_endian);
        lemma_int_bytes_len(self.p_filesz as nat, 8, big_endian);
        lemma_int_bytes_len(self.p_memsz as nat, 8, big_endian);
        lemma_int_bytes_len(self.p_align as nat, 8, big_endian);
    }
}

impl Serializable for ElfProgramHeader {
    open spec fn spec_serialize(&self, big_endian: bool) -> Seq<u8> {
        Seq::empty()
            + self.p_type.spec_to_bytes(big_endian)
            + self.p_flags.spec_to_bytes(big_endian)
            + self.p_offset.spec_to_bytes(big_endian)
            + self.p_vaddr.spec_to_bytes(big_endian)
            + self.p_paddr.spec_to_bytes(big_endian)
            + self.p_filesz.spec_to_bytes(big_endian)
            + self.p_memsz.spec_to_bytes(big_endian)
            + self.p_align.spec_to_bytes(big_endian)
    }

    proof fn lemma_length_ignores_byte_order(&self) {
        self.lemma_serialized_size(true);
        self.lemma_serialized_size(false);
    }

    fn serialize(&self, be: bool) -> (bytes: Vec<u8>) {
        let mut vec = Vec::new();

        add_bytes(&mut vec, self.p_type, be);
        add_bytes(&mut vec, self.p_flags, be);
        add_bytes(&mut vec, self.p_offset, be);
        add_bytes(&mut vec, self.p_vaddr, be);
        add_bytes(&mut vec, self.p_paddr, be);
        add_bytes(&mut vec, self.p_filesz, be);
        add_bytes(&mut vec, self.p_memsz, be);
        add_bytes(&mut vec, self.p_align, be);

        vec
    }

    fn serialized_length(&self) -> (len: usize) {
        proof {
            self.lemma_serialized_size(true);
            self.lemma_serialized_size(false);
        }
        PROGRAM_HEADER_SIZE
    }
}

impl ElfSymbol {
    /// A symbol table entry always encodes to the same number of bytes.
    pub proof fn lemma_serialized_size(&self, big_endian: bool)
        ensures
            self.spec_serialize(big_endian).len() == SYMBOL_SIZE,
    {
        lemma_int_bytes_len(self.st_name as nat, 4, big_endian);
        lemma_int_bytes_len(self.st_info as nat, 1, big_endian);
        lemma_int_bytes_len(self.st_other as nat, 1, big_endian);
        lemma_int_bytes_len(self.st_shndx as nat, 2, big_endian);
        lemma_int_bytes_len(self.st_value as nat, 8, big_endian);
        lemma_int_bytes_len(self.st_size as nat, 8, big_endian);
    }
}

impl Serializable for ElfSymbol {
    open spec fn spec_serialize(&self, big_endian: bool) -> Seq<u8> {
        Seq::empty()
            + self.st_name.spec_to_bytes(big_endian)
            + self.st_info.spec_to_bytes(big_endian)
            + self.st_other.spec_to_bytes(big_endian)
            + self.st_shndx.spec_to_bytes(big_endian)
            + self.st_value.spec_to_bytes(big_endian)
            + self.st_size.spec_to_bytes(big_endian)
    }

    proof fn lemma_length_ignores_byte_order(&self) {
        self.lemma_serialized_size(true);
        self.lemma_serialized_size(false);
    }

    fn serialize(&self, be: bool) -> (bytes: Vec<u8>) {
        let mut vec = Vec::new();

        add_bytes(&mut vec, self.st_name, be);
        add_bytes(&mut vec, self.st_info, be);
        add_bytes(&mut vec, self.st_other, be);
        add_bytes(&mut vec, self.st_shndx, be);
        add_bytes(&mut vec, self.st_value, be);
        add_bytes(&mut vec, self.st_size, be);

        vec
    }

    fn serialized_length(&self) -> (len: usize) {
        proof {
            self.lemma_serialized_size(true);
            self.lemma_serialized_size(false);
        }
        SYMBOL_SIZE
    }
}

impl ElfSectionHeader {
    /// A section header always encodes to the same number of bytes.
    pub proof fn lemma_serialized_size(&self, big_endian: bool)
        ensures
            self.spec_serialize(big_endian).len() == SECTION_HEADER_SIZE,
    {
        lemma_int_bytes_len(self.sh_name as nat, 4, big_endian);
        lemma_int_bytes_len(self.sh_type as nat, 4, big_endian);
        lemma_int_bytes_len(self.sh_flags as nat, 8, big_endian);
        lemma_int_bytes_len(self.sh_addr as nat, 8, big_endian);
        lemma_int_bytes_len(self.sh_offset as nat, 8, big_endian);
        lemma_int_bytes_len(self.sh_size as nat, 8, big_endian);
        lemma_int_bytes_len(self.sh_link as nat, 4, big_endian);
        lemma_int_bytes_len(self.sh_info as nat, 4, big_endian);
        lemma_int_bytes_len(self.sh_addralign as nat, 8, big_endian);
        lemma_int_bytes_len(self.sh_entsize as nat, 8, big_endian);
    }

    /// In an encoded section header, the offset and the size of the section
    /// stand at their fixed places, eight bytes each.
    pub proof fn lemma_offset_and_size_fields(&self, big_endian: bool)
        ensures
            range(self.spec_serialize(big_endian), SECTION_OFFSET_AT as nat, 8) == int_bytes(
                self.sh_offset as nat,
                8,
                big_endian,
            ),
            range(self.spec_serialize(big_endian), SECTION_SIZE_AT as nat, 8) == int_bytes(
                self.sh_size as nat,
                8,
                big_endian,
            ),
    {
        lemma_int_bytes_len(self.sh_name as nat, 4, big_endian);
        lemma_int_bytes_len(self.sh_type as nat, 4, big_endian);
        lemma_int_bytes_len(self.sh_flags as nat, 8, big_endian);
        lemma_int_bytes_len(self.sh_addr as nat, 8, big_endian);
        lemma_int_bytes_len(self.sh_offset as nat, 8, big_endian);
        lemma_int_bytes_len(self.sh_size as nat, 8, big_endian);
        lemma_int_bytes_len(self.sh_link as nat, 4, big_endian);
        lemma_int_bytes_len(self.sh_info as nat, 4, big_endian);
        lemma_int_bytes_len(self.sh_addralign as nat, 8, big_endian);
        lemma_int_bytes_len(self.sh_entsize as nat, 8, big_endian);
    }
}

impl Serializable for ElfSectionHeader {
    open spec fn spec_serialize(&self, big_endian: bool) -> Seq<u8> {
        Seq::empty()
            + self.sh_name.spec_to_bytes(big_endian)
            + self.sh_type.spec_to_bytes(big_endian)
            + self.sh_flags.spec_to_bytes(big_endian)
            + self.sh_addr.spec_to_bytes(big_endian)
            + self.sh_offset.spec_to_bytes(big_endian)
            + self.sh_size.spec_to_bytes(big_endian)
            + self.sh_link.spec_to_bytes(big_endian)
            + self.sh_info.spec_to_bytes(big_endian)
            + self.sh_addralign.spec_to_bytes(big_endian)
            + self.sh_entsize.spec_to_bytes(big_endian)
    }

    proof fn lemma_length_ignores_byte_order(&self) {
        self.lemma_serialized_size(true);
        self.lemma_serialized_size(false);
    }

    fn serialize(&self, be: bool) -> (bytes: Vec<u8>) {
        let mut vec = Vec::new();

        add_bytes(&mut vec, self.sh_name, be);
        add_bytes(&mut vec, self.sh_type, be);
        add_bytes(&mut vec, self.sh_flags, be);
        add_bytes(&mut vec, self.sh_addr, be);
        add_bytes(&mut vec, self.sh_offset, be);
        add_bytes(&mut vec, self.sh_size, be);
        add_bytes(&mut vec, self.sh_link, be);
        add_bytes(&mut vec, self.sh_info, be);
        add_bytes(&mut vec, self.sh_addralign, be);
        add_bytes(&mut vec, self.sh_entsize, be);

        vec
    }

    fn serialized_length(&self) -> (len: usize) {
        proof {
            self.lemma_serialized_size(true);
            self.lemma_serialized_size(false);
        }
        SECTION_HEADER_SIZE
    }
}

impl ElfRelocation {
    /// A relocation table entry always encodes to the same number of bytes.
    pub proof fn lemma_serialized_size(&self, big_endian: bool)
        ensures
            self.spec_serialize(big_endian).len() == RELOCATION_SIZE,
    {
        lemma_int_bytes_len(self.r_offset as nat, 8, big_endian);
        lemma_int_bytes_len(self.r_info as nat, 8, big_endian);
    }
}

impl Serializable for ElfRelocation {
    open spec fn spec_serialize(&self, big_endian: bool) -> Seq<u8> {
        Seq::empty()
            + self.r_offset.spec_to_bytes(big_endian)
            + self.r_info.spec_to_bytes(big_endian)
    }

    proof fn lemma_length_ignores_byte_order(&self) {
        self.lemma_serialized_size(true);
        self.lemma_serialized_size(false);
    }

    fn serialize(&self, be: bool) -> (bytes: Vec<u8>) {
        let mut vec = Vec::new();

        add_bytes(&mut vec, self.r_offset, be);
        add_bytes(&mut vec, self.r_info, be);

        vec
    }

    fn serialized_length(&self) -> (len: usize) {
        proof {
            self.lemma_serialized_size(true);
            self.lemma_serialized_size(false);
        }
        RELOCATION_SIZE
    }
}

impl ElfFile {
    /// A file encodes to its header, its two header tables and its data,
    /// each table entry at its fixed size.
    pub proof fn lemma_serialized_size(&self, big_endian: bool)
        ensures
            self.spec_serialize(big_endian).len() == ELF_HEADER_SIZE + PROGRAM_HEADER_SIZE
                * self.elf_program_headers@.len() + SECTION_HEADER_SIZE
                * self.elf_section_headers@.len() + self.data@.len(),
    {
        self.elf_header.lemma_serialized_size(big_endian);
        assert forall|i: int| 0 <= i < self.elf_program_headers@.len() implies (
        #[trigger] self.elf_program_headers@[i]).spec_serialize(big_endian).len()
            == PROGRAM_HEADER_SIZE by {
            self.elf_program_headers@[i].lemma_serialized_size(big_endian);
        }
        lemma_concat_of_equal_sizes(
            self.elf_program_headers@,
            PROGRAM_HEADER_SIZE as nat,
            big_endian,
        );
        assert forall|i: int| 0 <= i < self.elf_section_headers@.len() implies (
        #[trigger] self.elf_section_headers@[i]).spec_serialize(big_endian).len()
            == SECTION_HEADER_SIZE by {
            self.elf_section_headers@[i].lemma_serialized_size(big_endian);
        }
        lemma_concat_of_equal_sizes(
            self.elf_section_headers@,
            SECTION_HEADER_SIZE as nat,
            big_endian,
        );
    }

    /// Appends the content of section `index` to the file. A section's place is
    /// known only once everything before it has been written, so its header,
    /// written earlier, is completed now: its offset becomes the length of the
    /// file so far, its size the length of the content.
    pub fn append_section(&mut self, index: usize, content: &[u8])
        requires
            index < old(self).elf_section_headers@.len(),
        ensures
            final(self).elf_header == old(self).elf_header,
            final(self).elf_program_headers == old(self).elf_program_headers,
            final(self).elf_section_headers@ == old(self).elf_section_headers@.update(
                index as int,
                (ElfSectionHeader {
                    sh_offset: old(self).spec_serialize(false).len() as u64,
                    sh_size: content@.len() as u64,
                    ..old(self).elf_section_headers@[index as int]
                }),
            ),
            final(self).data@ == old(self).data@ + content@,
    {
        let cursor = self.serialized_length();
        self.elf_section_headers[index].sh_offset = cursor as u64;
        self.elf_section_headers[index].sh_size = content.len() as u64;
        add_raw(&mut self.data, content);
    }
}

impl Serializable for ElfFile {
    open spec fn spec_serialize(&self, big_endian: bool) -> Seq<u8> {
        Seq::empty()
            + self.elf_header.spec_serialize(big_endian)
            + concat_serialized(self.elf_program_headers@, big_endian)
            + concat_serialized(self.elf_section_headers@, big_endian)
            + self.data@
    }

    proof fn lemma_length_ignores_byte_order(&self) {
        self.elf_header.lemma_length_ignores_byte_order();
        lemma_concat_length_ignores_byte_order(self.elf_program_headers@);
        lemma_concat_length_ignores_byte_order(self.elf_section_headers@);
    }

    fn serialize(&self, be: bool) -> (bytes: Vec<u8>) {
        let mut vec = Vec::new();

        let mut header = self.elf_header.serialize(be);
        vec.append(&mut header);
        let mut program_headers = self.elf_program_headers.serialize(be);
        vec.append(&mut program_headers);
        let mut section_headers = self.elf_section_headers.serialize(be);
        vec.append(&mut section_headers);
        add_raw(&mut vec, self.data.as_slice());

        vec
    }
}

} // verus!
