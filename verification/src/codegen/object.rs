//! The plan of the object file: which sections it has, in which order, what
//! each holds, and what the section header table says of them.
//!
//! The file is the ELF header, the section header table, and then the
//! contents of the sections in the order of the table, each starting where
//! the one before it ends.

use crate::codegen::emission::{Emitted, RelocationView, SymbolView};
use crate::codegen::x64_elf::Section;
use crate::outputs::elf::{
    ElfFile, ElfHeader, ElfProgramHeader, ElfRelocation, ElfSectionHeader, ElfSymbol,
    ELF_HEADER_SIZE, PROGRAM_HEADER_SIZE, RELOCATION_SIZE, SECTION_HEADER_SIZE, SYMBOL_SIZE,
};
use crate::outputs::serialization::{c_string_bytes, concat_serialized, Serializable};
use vstd::prelude::*;

verus! {

/// The number of sections, the null section included.
pub const SECTION_COUNT: usize = 7;

/// The index of the code section.
pub const TEXT_INDEX: u16 = 1;

/// The index of the table of section names.
pub const SHSTRTAB_INDEX: u16 = 2;

/// The index of the symbol table.
pub const SYMTAB_INDEX: u16 = 3;

/// The index of the table of symbol names.
pub const STRTAB_INDEX: u16 = 4;

/// The index of the constant data section.
pub const RODATA_INDEX: u16 = 5;

/// The index of the relocation table of the code section.
pub const REL_TEXT_INDEX: u16 = 6;

/// The section type of code and data.
pub const TYPE_PROGBITS: u32 = 1;

/// The section type of a symbol table.
pub const TYPE_SYMTAB: u32 = 2;

/// The section type of a string table.
pub const TYPE_STRTAB: u32 = 3;

/// The section type of a relocation table without addends.
pub const TYPE_REL: u32 = 9;

/// The section flag of a section that is loaded with the program.
pub const FLAG_ALLOC: u64 = 2;

/// The section flag of a section that holds machine code.
pub const FLAG_EXEC: u64 = 4;

/// The section flag of a section that holds null-terminated strings.
pub const FLAG_STRINGS: u64 = 0x20;

/// The symbol binding of a symbol that other object files can see.
pub const BINDING_GLOBAL: u8 = 1;

/// The relocation type that asks for an absolute 64-bit address.
pub const RELOCATION_ABSOLUTE_64: u64 = 1;

/// The names of the sections, by section index.
pub open spec fn section_names() -> Seq<Seq<char>> {
    seq![""@, ".text"@, ".shstrtab"@, ".symtab"@, ".strtab"@, ".rodata"@, ".rel.text"@]
}

/// A string table: the null-terminated `names`, one after the other.
pub open spec fn name_table(names: Seq<Seq<char>>) -> Seq<u8>
    decreases names.len(),
{
    if names.len() == 0 {
        Seq::empty()
    } else {
        name_table(names.drop_last()) + c_string_bytes(names.last())
    }
}

/// Where the name of section `index` starts in the table of section names.
pub open spec fn section_name_offset(index: int) -> nat {
    name_table(section_names().take(index)).len()
}

/// The names in the table of symbol names: the empty name, then the name of
/// each named symbol, in the order of the symbols.
pub open spec fn symbol_names(symbols: Seq<SymbolView>) -> Seq<Seq<char>>
    decreases symbols.len(),
{
    if symbols.len() == 0 {
        seq![Seq::empty()]
    } else {
        let before = symbol_names(symbols.drop_last());
        match symbols.last().name {
            Some(name) => before.push(name),
            None => before,
        }
    }
}

/// The info byte of a symbol: the binding in the high four bits, the low four
/// bits of the type below them.
pub open spec fn symbol_info(binding: u8, elf_type: u8) -> u8 {
    (binding * 16 + elf_type % 16) as u8
}

/// The section index under which the symbols of `section` are entered.
pub open spec fn section_index(section: Section) -> u16 {
    match section {
        Section::Text => TEXT_INDEX,
        Section::Rodata => RODATA_INDEX,
    }
}

/// The entry that the symbol table reserves at index 0.
pub open spec fn null_symbol() -> ElfSymbol {
    ElfSymbol { st_name: 0, st_info: 0, st_other: 0, st_shndx: 0, st_value: 0, st_size: 0 }
}

/// The entry of a symbol whose name, if it has one, starts at `name_offset`
/// in the table of symbol names. The name field keeps the low 32 bits of the
/// offset.
pub open spec fn symbol_entry(symbol: SymbolView, name_offset: nat) -> ElfSymbol {
    ElfSymbol {
        st_name: match symbol.name {
            Some(_) => (name_offset % 0x1_0000_0000) as u32,
            None => 0,
        },
        st_info: symbol_info(BINDING_GLOBAL, symbol.elf_type),
        st_other: 0,
        st_shndx: section_index(symbol.section),
        st_value: symbol.offset as u64,
        st_size: symbol.size as u64,
    }
}

/// The symbol table: the null entry, then one entry for each symbol, in
/// order; a name starts where the table of names ended before it was added.
pub open spec fn symbol_entries(symbols: Seq<SymbolView>) -> Seq<ElfSymbol>
    decreases symbols.len(),
{
    if symbols.len() == 0 {
        seq![null_symbol()]
    } else {
        symbol_entries(symbols.drop_last()).push(
            symbol_entry(symbols.last(), name_table(symbol_names(symbols.drop_last())).len()),
        )
    }
}

/// The entry of a relocation: the place in the code, and an info word with
/// the low 32 bits of the symbol's index in its upper half and the
/// relocation type in its lower half.
pub open spec fn relocation_entry(relocation: RelocationView) -> ElfRelocation {
    ElfRelocation {
        r_offset: relocation.dst_offset as u64,
        r_info: ((relocation.src_symbol % 0x1_0000_0000) * 0x1_0000_0000
            + RELOCATION_ABSOLUTE_64) as u64,
    }
}

/// The relocation table: one entry for each relocation, in order.
pub open spec fn relocation_entries(relocations: Seq<RelocationView>) -> Seq<ElfRelocation> {
    relocations.map_values(|relocation: RelocationView| relocation_entry(relocation))
}

/// What section `index` holds.
pub open spec fn section_content(emitted: Emitted, index: int) -> Seq<u8> {
    if index == TEXT_INDEX {
        emitted.text
    } else if index == SHSTRTAB_INDEX {
        name_table(section_names())
    } else if index == SYMTAB_INDEX {
        concat_serialized(symbol_entries(emitted.symbols), false)
    } else if index == STRTAB_INDEX {
        name_table(symbol_names(emitted.symbols))
    } else if index == RODATA_INDEX {
        emitted.rodata
    } else if index == REL_TEXT_INDEX {
        concat_serialized(relocation_entries(emitted.relocations), false)
    } else {
        Seq::empty()
    }
}

/// Where the headers end and the contents of the sections begin.
pub open spec fn headers_size() -> nat {
    (ELF_HEADER_SIZE + SECTION_COUNT * SECTION_HEADER_SIZE) as nat
}

/// The contents of the sections before section `index`, in order.
pub open spec fn sections_before(emitted: Emitted, index: int) -> Seq<u8>
    decreases index,
{
    if index <= 1 {
        Seq::empty()
    } else {
        sections_before(emitted, index - 1) + section_content(emitted, index - 1)
    }
}

/// Where section `index` starts in the file: the null section at 0, every
/// other one after the headers and the sections before it.
pub open spec fn section_offset(emitted: Emitted, index: int) -> nat {
    if index <= 0 {
        0
    } else {
        headers_size() + sections_before(emitted, index).len()
    }
}

/// Everything that follows the headers: the contents of all sections in order.
pub open spec fn object_data(emitted: Emitted) -> Seq<u8> {
    sections_before(emitted, SECTION_COUNT as int)
}

/// The section type of section `index`.
pub open spec fn section_type(index: int) -> u32 {
    if index == TEXT_INDEX || index == RODATA_INDEX {
        TYPE_PROGBITS
    } else if index == SHSTRTAB_INDEX || index == STRTAB_INDEX {
        TYPE_STRTAB
    } else if index == SYMTAB_INDEX {
        TYPE_SYMTAB
    } else if index == REL_TEXT_INDEX {
        TYPE_REL
    } else {
        0
    }
}

/// The flags of section `index`: the code is allocated and executable, the
/// constant data allocated, the string tables hold strings.
pub open spec fn section_flags(index: int) -> u64 {
    if index == TEXT_INDEX {
        FLAG_ALLOC | FLAG_EXEC
    } else if index == RODATA_INDEX {
        FLAG_ALLOC
    } else if index == SHSTRTAB_INDEX || index == STRTAB_INDEX {
        FLAG_STRINGS
    } else {
        0
    }
}

/// The section that section `index` refers to: the symbol table to the table
/// of its names, the relocation table to the symbol table.
pub open spec fn section_link(index: int) -> u32 {
    if index == SYMTAB_INDEX {
        STRTAB_INDEX as u32
    } else if index == REL_TEXT_INDEX {
        SYMTAB_INDEX as u32
    } else {
        0
    }
}

/// The extra information of section `index`: for the symbol table the index
/// of its first global symbol, for the relocation table the section that it
/// patches.
pub open spec fn section_info(index: int) -> u32 {
    if index == SYMTAB_INDEX {
        1
    } else if index == REL_TEXT_INDEX {
        TEXT_INDEX as u32
    } else {
        0
    }
}

/// The size of the entries of section `index`, where it is a table.
pub open spec fn section_entry_size(index: int) -> u64 {
    if index == SYMTAB_INDEX {
        SYMBOL_SIZE as u64
    } else if index == REL_TEXT_INDEX {
        RELOCATION_SIZE as u64
    } else {
        0
    }
}

/// The header of section `index`.
pub open spec fn section_header(emitted: Emitted, index: int) -> ElfSectionHeader {
    ElfSectionHeader {
        sh_name: section_name_offset(index) as u32,
        sh_type: section_type(index),
        sh_flags: section_flags(index),
        sh_addr: 0,
        sh_offset: section_offset(emitted, index) as u64,
        sh_size: section_content(emitted, index).len() as u64,
        sh_link: section_link(index),
        sh_info: section_info(index),
        sh_addralign: 0,
        sh_entsize: section_entry_size(index),
    }
}

/// The section header table.
pub open spec fn section_headers(emitted: Emitted) -> Seq<ElfSectionHeader> {
    Seq::new(SECTION_COUNT as nat, |index: int| section_header(emitted, index))
}

/// `file` is the object file for what has been emitted.
pub open spec fn is_object_file(file: ElfFile, emitted: Emitted) -> bool {
    &&& is_object_header(file.elf_header)
    &&& file.elf_program_headers@ == Seq::<ElfProgramHeader>::empty()
    &&& file.elf_section_headers@ == section_headers(emitted)
    &&& file.data@ == object_data(emitted)
}

/// The header of a relocatable object file for x86-64 with this section plan.
pub open spec fn is_object_header(header: ElfHeader) -> bool {
    &&& header.e_ident_magic@ == seq![0x7Fu8, 0x45u8, 0x4Cu8, 0x46u8]
    &&& header.e_ident_class == 2
    &&& header.e_ident_data == 1
    &&& header.e_ident_version == 1
    &&& header.e_ident_abi == 3
    &&& header.e_ident_abi_version == 67
    &&& header.e_ident_pad@ == Seq::new(7, |i: int| 0u8)
    &&& header.e_type == 1
    &&& header.e_machine == 0x3E
    &&& header.e_version == 1
    &&& header.e_entry == 0
    &&& header.e_phoff == 0
    &&& header.e_shoff == ELF_HEADER_SIZE
    &&& header.e_flags == 0
    &&& header.e_ehsize == ELF_HEADER_SIZE
    &&& header.e_phentsize == PROGRAM_HEADER_SIZE
    &&& header.e_phnum == 0
    &&& header.e_shentsize == SECTION_HEADER_SIZE
    &&& header.e_shnum == SECTION_COUNT
    &&& header.e_shstrndx == SHSTRTAB_INDEX
}

/// The header of section `index` before the section has its place in the file.
pub open spec fn unplaced_section_header(index: int) -> ElfSectionHeader {
    ElfSectionHeader {
        sh_name: section_name_offset(index) as u32,
        sh_type: section_type(index),
        sh_flags: section_flags(index),
        sh_addr: 0,
        sh_offset: 0,
        sh_size: 0,
        sh_link: section_link(index),
        sh_info: section_info(index),
        sh_addralign: 0,
        sh_entsize: section_entry_size(index),
    }
}

/// `file` is the object file for what has been emitted as far as the sections
/// before section `next` go: they are written and their headers complete,
/// while the headers from `next` on still wait for their sections.
pub open spec fn is_object_file_before(file: ElfFile, emitted: Emitted, next: int) -> bool {
    &&& is_object_header(file.elf_header)
    &&& file.elf_program_headers@ == Seq::<ElfProgramHeader>::empty()
    &&& file.elf_section_headers@.len() == SECTION_COUNT
    &&& forall|index: int|
        0 <= index < next && index < SECTION_COUNT ==> #[trigger] file.elf_section_headers@[index]
            == section_header(emitted, index)
    &&& forall|index: int|
        next <= index < SECTION_COUNT ==> #[trigger] file.elf_section_headers@[index]
            == unplaced_section_header(index)
    &&& file.data@ == sections_before(emitted, next)
}

/// Appending the next section, with its header completed from the length of
/// the file so far, gives the object file as far as the section after it.
pub proof fn lemma_append_section(before: ElfFile, after: ElfFile, emitted: Emitted, next: int)
    requires
        1 <= next < SECTION_COUNT,
        is_object_file_before(before, emitted, next),
        after.elf_header == before.elf_header,
        after.elf_program_headers == before.elf_program_headers,
        after.elf_section_headers@ == before.elf_section_headers@.update(
            next,
            (ElfSectionHeader {
                sh_offset: before.spec_serialize(false).len() as u64,
                sh_size: section_content(emitted, next).len() as u64,
                ..before.elf_section_headers@[next]
            }),
        ),
        after.data@ == before.data@ + section_content(emitted, next),
    ensures
        is_object_file_before(after, emitted, next + 1),
{
    before.lemma_serialized_size(false);
    assert(before.spec_serialize(false).len() == section_offset(emitted, next));
    assert(after.data@ == sections_before(emitted, next + 1));
    assert forall|index: int|
        0 <= index < next + 1 && index < SECTION_COUNT implies after.elf_section_headers@[index]
        == section_header(emitted, index) by {}
    assert forall|index: int|
        next + 1 <= index < SECTION_COUNT implies after.elf_section_headers@[index]
        == unplaced_section_header(index) by {}
}

/// Once every section is written, the file is the object file.
pub proof fn lemma_all_sections_appended(file: ElfFile, emitted: Emitted)
    requires
        is_object_file_before(file, emitted, SECTION_COUNT as int),
    ensures
        is_object_file(file, emitted),
{
    assert(file.elf_section_headers@ =~= section_headers(emitted));
}

/// A table of names grows by the null-terminated name that is added.
pub proof fn lemma_name_table_push(names: Seq<Seq<char>>, name: Seq<char>)
    ensures
        name_table(names.push(name)) == name_table(names) + c_string_bytes(name),
{
    assert(names.push(name).drop_last() =~= names);
}

/// A text of ASCII characters takes one byte for each character and one for
/// the terminator.
pub proof fn lemma_ascii_c_string_len(text: Seq<char>)
    requires
        vstd::utf8::is_ascii_chars(text),
    ensures
        c_string_bytes(text).len() == text.len() + 1,
{
    vstd::utf8::is_ascii_chars_encode_utf8(text);
}

/// Where the section names start in their table, and how long the table is.
pub proof fn lemma_section_name_offsets()
    ensures
        section_name_offset(0) == 0,
        section_name_offset(1) == 1,
        section_name_offset(2) == 7,
        section_name_offset(3) == 17,
        section_name_offset(4) == 25,
        section_name_offset(5) == 33,
        section_name_offset(6) == 41,
        section_name_offset(7) == 51,
        name_table(section_names()).len() == 51,
{
    reveal_strlit("");
    reveal_strlit(".text");
    reveal_strlit(".shstrtab");
    reveal_strlit(".symtab");
    reveal_strlit(".strtab");
    reveal_strlit(".rodata");
    reveal_strlit(".rel.text");
    let names = section_names();
    lemma_ascii_c_string_len(names[0]);
    lemma_ascii_c_string_len(names[1]);
    lemma_ascii_c_string_len(names[2]);
    lemma_ascii_c_string_len(names[3]);
    lemma_ascii_c_string_len(names[4]);
    lemma_ascii_c_string_len(names[5]);
    lemma_ascii_c_string_len(names[6]);
    assert(section_name_offset(0) == 0);
    assert(names.take(1) =~= names.take(0).push(names[0]));
    lemma_name_table_push(names.take(0), names[0]);
    assert(names.take(2) =~= names.take(1).push(names[1]));
    lemma_name_table_push(names.take(1), names[1]);
    assert(names.take(3) =~= names.take(2).push(names[2]));
    lemma_name_table_push(names.take(2), names[2]);
    assert(names.take(4) =~= names.take(3).push(names[3]));
    lemma_name_table_push(names.take(3), names[3]);
    assert(names.take(5) =~= names.take(4).push(names[4]));
    lemma_name_table_push(names.take(4), names[4]);
    assert(names.take(6) =~= names.take(5).push(names[5]));
    lemma_name_table_push(names.take(5), names[5]);
    lemma_name_table_push(names.take(6), names[6]);
    assert(names.take(7) =~= names);
}

} // verus!
