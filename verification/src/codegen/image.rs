//! Reading the object file back: what the bytes of the file say of its
//! sections, and that they say what the plan says.

use crate::codegen::emission::{functions_refs, Emitted, RelocationView, SymbolView};
use crate::codegen::object::{
    headers_size, is_object_file, lemma_section_name_offsets, name_table, null_symbol,
    object_data, relocation_entries, relocation_entry, section_content, section_header,
    section_names, section_offset, sections_before, symbol_entries, symbol_entry, symbol_names,
    RELOCATION_ABSOLUTE_64, REL_TEXT_INDEX, SECTION_COUNT, SHSTRTAB_INDEX, SYMTAB_INDEX,
};
use crate::ir::Function;
use crate::outputs::elf::{
    ElfFile, ELF_HEADER_SIZE, RELOCATION_SIZE, SECTION_HEADER_SIZE, SECTION_OFFSET_AT,
    SECTION_SIZE_AT, SYMBOL_SIZE,
};
use crate::outputs::serialization::{
    c_string_bytes, capacity, int_value, lemma_concat_item_at, lemma_concat_of_equal_sizes,
    lemma_int_value_of_bytes, range, Serializable,
};
use vstd::prelude::*;

verus! {

/// Where the header of section `index` starts in a file.
pub open spec fn section_header_at(index: int) -> nat {
    (ELF_HEADER_SIZE + index * SECTION_HEADER_SIZE) as nat
}

/// The offset of section `index` as the bytes of the file `image` give it.
pub open spec fn parsed_section_offset(image: Seq<u8>, index: int, big_endian: bool) -> nat {
    int_value(range(image, section_header_at(index) + SECTION_OFFSET_AT as nat, 8), big_endian)
}

/// The size of section `index` as the bytes of the file `image` give it.
pub open spec fn parsed_section_size(image: Seq<u8>, index: int, big_endian: bool) -> nat {
    int_value(range(image, section_header_at(index) + SECTION_SIZE_AT as nat, 8), big_endian)
}

/// The sections before an earlier section are the first of the sections
/// before a later one.
pub proof fn lemma_sections_before_prefix(emitted: Emitted, earlier: int, later: int)
    requires
        earlier <= later,
    ensures
        sections_before(emitted, earlier).is_prefix_of(sections_before(emitted, later)),
    decreases later - earlier,
{
    if earlier < later {
        lemma_sections_before_prefix(emitted, earlier, later - 1);
    }
}

/// Eight bytes tell all 64-bit numbers apart.
proof fn lemma_capacity_of_eight_bytes()
    ensures
        capacity(8) == 0x1_0000_0000_0000_0000,
{
    reveal_with_fuel(capacity, 9);
}

/// In the bytes of a file without program headers, the section header table
/// gives each section the offset and the size that its header holds.
pub proof fn lemma_parsed_section_bounds(file: ElfFile, index: int, big_endian: bool)
    requires
        file.elf_program_headers@.len() == 0,
        0 <= index < file.elf_section_headers@.len(),
    ensures
        parsed_section_offset(file.spec_serialize(big_endian), index, big_endian)
            == file.elf_section_headers@[index].sh_offset,
        parsed_section_size(file.spec_serialize(big_endian), index, big_endian)
            == file.elf_section_headers@[index].sh_size,
{
    let image = file.spec_serialize(big_endian);
    let headers = file.elf_section_headers@;
    let header = headers[index];
    let encoded = header.spec_serialize(big_endian);
    file.elf_header.lemma_serialized_size(big_endian);
    assert forall|i: int| 0 <= i < headers.len() implies (#[trigger] headers[i]).spec_serialize(
        big_endian,
    ).len() == SECTION_HEADER_SIZE by {
        headers[i].lemma_serialized_size(big_endian);
    }
    lemma_concat_item_at(headers, SECTION_HEADER_SIZE as nat, index, big_endian);
    header.lemma_offset_and_size_fields(big_endian);
    assert(range(image, section_header_at(index) + SECTION_OFFSET_AT as nat, 8) =~= range(
        encoded,
        SECTION_OFFSET_AT as nat,
        8,
    ));
    assert(range(image, section_header_at(index) + SECTION_SIZE_AT as nat, 8) =~= range(
        encoded,
        SECTION_SIZE_AT as nat,
        8,
    ));
    lemma_int_value_of_bytes(header.sh_offset as nat, 8, big_endian);
    lemma_int_value_of_bytes(header.sh_size as nat, 8, big_endian);
    lemma_capacity_of_eight_bytes();
}

/// In the bytes of a file without program headers, the data follows the
/// section header table.
pub proof fn lemma_data_follows_headers(file: ElfFile, big_endian: bool)
    requires
        file.elf_program_headers@.len() == 0,
    ensures
        ({
            let image = file.spec_serialize(big_endian);
            let start = section_header_at(file.elf_section_headers@.len() as int);
            &&& image.len() == start + file.data@.len()
            &&& range(image, start, file.data@.len()) == file.data@
        }),
{
    file.lemma_serialized_size(big_endian);
}

/// The content of a section stands in the data of the object file after
/// the sections before it.
pub proof fn lemma_content_in_data(emitted: Emitted, index: int)
    requires
        1 <= index < SECTION_COUNT,
    ensures
        section_offset(emitted, index) - headers_size() + section_content(emitted, index).len()
            <= object_data(emitted).len(),
        range(
            object_data(emitted),
            (section_offset(emitted, index) - headers_size()) as nat,
            section_content(emitted, index).len(),
        ) == section_content(emitted, index),
{
    let content = section_content(emitted, index);
    let before = sections_before(emitted, index);
    lemma_sections_before_prefix(emitted, index + 1, SECTION_COUNT as int);
    let whole = object_data(emitted);
    let upto = sections_before(emitted, index + 1);
    assert forall|k: int| 0 <= k < content.len() implies range(
        whole,
        before.len(),
        content.len(),
    )[k] == content[k] by {
        assert(upto[before.len() + k] == content[k]);
    }
}

/// A range of the data of a file is the same range of the file, moved by the
/// length of the headers.
proof fn lemma_range_of_data(file: ElfFile, big_endian: bool, offset: nat, length: nat)
    requires
        file.elf_program_headers@.len() == 0,
        offset + length <= file.data@.len(),
    ensures
        ({
            let start = section_header_at(file.elf_section_headers@.len() as int);
            range(file.spec_serialize(big_endian), start + offset, length) == range(
                file.data@,
                offset,
                length,
            )
        }),
{
    lemma_data_follows_headers(file, big_endian);
}

/// Reading back what was written: in the bytes of an object file, the
/// section header table gives every section the offset and the size that the
/// plan gives it, and the bytes in that range are the section's content.
pub proof fn lemma_section_lies_where_its_header_says(
    file: ElfFile,
    emitted: Emitted,
    index: int,
    big_endian: bool,
)
    requires
        is_object_file(file, emitted),
        file.spec_serialize(big_endian).len() <= u64::MAX,
        0 <= index < SECTION_COUNT,
    ensures
        ({
            let image = file.spec_serialize(big_endian);
            let offset = parsed_section_offset(image, index, big_endian);
            let size = parsed_section_size(image, index, big_endian);
            &&& offset == section_offset(emitted, index)
            &&& size == section_content(emitted, index).len()
            &&& offset + size <= image.len()
            &&& range(image, offset, size) == section_content(emitted, index)
        }),
{
    let content = section_content(emitted, index);
    lemma_parsed_section_bounds(file, index, big_endian);
    lemma_data_follows_headers(file, big_endian);
    if index >= 1 {
        lemma_content_in_data(emitted, index);
        lemma_range_of_data(
            file,
            big_endian,
            (section_offset(emitted, index) - headers_size()) as nat,
            content.len(),
        );
    }
}

/// No section overlaps another: in the bytes of an object file, every
/// section but the null section ends where the next one starts, and the last
/// one where the file ends.
pub proof fn lemma_sections_follow_one_another(
    file: ElfFile,
    emitted: Emitted,
    index: int,
    big_endian: bool,
)
    requires
        is_object_file(file, emitted),
        file.spec_serialize(big_endian).len() <= u64::MAX,
        1 <= index < SECTION_COUNT,
    ensures
        ({
            let image = file.spec_serialize(big_endian);
            let end = parsed_section_offset(image, index, big_endian) + parsed_section_size(
                image,
                index,
                big_endian,
            );
            if index + 1 < SECTION_COUNT {
                end == parsed_section_offset(image, index + 1, big_endian)
            } else {
                end == image.len()
            }
        }),
{
    lemma_section_lies_where_its_header_says(file, emitted, index, big_endian);
    if index + 1 < SECTION_COUNT {
        lemma_section_lies_where_its_header_says(file, emitted, index + 1, big_endian);
    } else {
        file.lemma_serialized_size(big_endian);
    }
}

/// The symbol table has the null entry and one entry for each symbol.
pub proof fn lemma_symbol_table_len(symbols: Seq<SymbolView>)
    ensures
        symbol_entries(symbols).len() == symbols.len() + 1,
        symbol_entries(symbols)[0] == null_symbol(),
    decreases symbols.len(),
{
    if symbols.len() > 0 {
        lemma_symbol_table_len(symbols.drop_last());
    }
}

/// The two tables take the fixed size of an entry for each of their entries.
pub proof fn lemma_table_sizes(emitted: Emitted)
    ensures
        section_content(emitted, SYMTAB_INDEX as int).len() == SYMBOL_SIZE * (
        emitted.symbols.len() + 1),
        section_content(emitted, REL_TEXT_INDEX as int).len() == RELOCATION_SIZE
            * emitted.relocations.len(),
{
    let symbols = symbol_entries(emitted.symbols);
    lemma_symbol_table_len(emitted.symbols);
    assert forall|i: int| 0 <= i < symbols.len() implies (#[trigger] symbols[i]).spec_serialize(
        false,
    ).len() == SYMBOL_SIZE by {
        symbols[i].lemma_serialized_size(false);
    }
    lemma_concat_of_equal_sizes(symbols, SYMBOL_SIZE as nat, false);
    let relocations = relocation_entries(emitted.relocations);
    assert forall|i: int| 0 <= i < relocations.len() implies (
    #[trigger] relocations[i]).spec_serialize(false).len() == RELOCATION_SIZE by {
        relocations[i].lemma_serialized_size(false);
    }
    lemma_concat_of_equal_sizes(relocations, RELOCATION_SIZE as nat, false);
}

/// The symbol table of a unit compiled by a fresh generator has one entry
/// for each function and for each constant that the functions refer to by
/// address, after the null entry.
pub proof fn lemma_symbol_table_of_unit(functions: Seq<Function>)
    ensures
        ({
            let symbols = Emitted::empty().emit_functions(functions).symbols;
            &&& symbol_entries(symbols).len() == 1 + functions.len() + functions_refs(
                functions,
            ).len()
            &&& symbol_entries(symbols)[0] == null_symbol()
        }),
{
    Emitted::empty().lemma_emit_functions_grows(functions);
    lemma_symbol_table_len(Emitted::empty().emit_functions(functions).symbols);
}

/// A table of names starts with the table of the first of the names.
pub proof fn lemma_name_table_prefix(names: Seq<Seq<char>>, count: int)
    requires
        0 <= count <= names.len(),
    ensures
        name_table(names.take(count)).is_prefix_of(name_table(names)),
    decreases names.len() - count,
{
    if count < names.len() {
        lemma_name_table_prefix(names, count + 1);
        assert(names.take(count + 1).drop_last() =~= names.take(count));
    } else {
        assert(names.take(count) =~= names);
    }
}

/// Every name stands in its table, null-terminated, where the names before
/// it end.
pub proof fn lemma_name_in_table(names: Seq<Seq<char>>, index: int)
    requires
        0 <= index < names.len(),
    ensures
        range(
            name_table(names),
            name_table(names.take(index)).len(),
            c_string_bytes(names[index]).len(),
        ) == c_string_bytes(names[index]),
{
    let table = name_table(names);
    let before = name_table(names.take(index));
    let upto = name_table(names.take(index + 1));
    let name = c_string_bytes(names[index]);
    lemma_name_table_prefix(names, index + 1);
    assert(names.take(index + 1).drop_last() =~= names.take(index));
    assert forall|k: int| 0 <= k < name.len() implies range(table, before.len(), name.len())[k]
        == name[k] by {
        assert(upto[before.len() + k] == name[k]);
    }
}

/// The name field of every section header points at the section's name in
/// the table of section names.
pub proof fn lemma_section_name_in_table(emitted: Emitted, index: int)
    requires
        0 <= index < SECTION_COUNT,
    ensures
        range(
            section_content(emitted, SHSTRTAB_INDEX as int),
            section_header(emitted, index).sh_name as nat,
            c_string_bytes(section_names()[index]).len(),
        ) == c_string_bytes(section_names()[index]),
{
    lemma_section_name_offsets();
    lemma_name_in_table(section_names(), index);
}

/// The names of the first symbols are the first of the names of all symbols.
proof fn lemma_symbol_names_prefix(symbols: Seq<SymbolView>, count: int)
    requires
        0 <= count <= symbols.len(),
    ensures
        symbol_names(symbols.take(count)).is_prefix_of(symbol_names(symbols)),
        symbol_names(symbols.take(count)).len() >= 1,
    decreases symbols.len() - count,
{
    if count < symbols.len() {
        lemma_symbol_names_prefix(symbols, count + 1);
        assert(symbols.take(count + 1).drop_last() =~= symbols.take(count));
    } else {
        assert(symbols.take(count) =~= symbols);
    }
    lemma_symbol_names_nonempty(symbols.take(count));
}

/// The table of symbol names always holds the empty name.
proof fn lemma_symbol_names_nonempty(symbols: Seq<SymbolView>)
    ensures
        symbol_names(symbols).len() >= 1,
    decreases symbols.len(),
{
    if symbols.len() > 0 {
        lemma_symbol_names_nonempty(symbols.drop_last());
    }
}

/// The entry of symbol `index` stands in the symbol table at `index + 1`,
/// with the name offset at which the names of the symbols before it end.
pub proof fn lemma_symbol_entry_at(symbols: Seq<SymbolView>, index: int)
    requires
        0 <= index < symbols.len(),
    ensures
        symbol_entries(symbols).len() == symbols.len() + 1,
        symbol_entries(symbols)[index + 1] == symbol_entry(
            symbols[index],
            name_table(symbol_names(symbols.take(index))).len(),
        ),
    decreases symbols.len(),
{
    lemma_symbol_table_len(symbols);
    lemma_symbol_table_len(symbols.drop_last());
    if index < symbols.len() - 1 {
        lemma_symbol_entry_at(symbols.drop_last(), index);
        assert(symbols.drop_last().take(index) =~= symbols.take(index));
    }
}

/// The name field of the entry of a named symbol points at the symbol's name
/// in the table of symbol names, as long as the names before it take less
/// than 4 GiB.
pub proof fn lemma_symbol_name_in_table(symbols: Seq<SymbolView>, index: int)
    requires
        0 <= index < symbols.len(),
        symbols[index].name is Some,
        name_table(symbol_names(symbols.take(index))).len() < 0x1_0000_0000,
    ensures
        range(
            name_table(symbol_names(symbols)),
            symbol_entries(symbols)[index + 1].st_name as nat,
            c_string_bytes(symbols[index].name->0).len(),
        ) == c_string_bytes(symbols[index].name->0),
{
    let names = symbol_names(symbols);
    let before = symbol_names(symbols.take(index));
    let upto = symbol_names(symbols.take(index + 1));
    lemma_symbol_entry_at(symbols, index);
    lemma_symbol_names_prefix(symbols, index + 1);
    assert(symbols.take(index + 1).drop_last() =~= symbols.take(index));
    assert(names.take(before.len() as int) =~= before);
    assert(names[before.len() as int] == upto[before.len() as int]);
    lemma_name_in_table(names, before.len() as int);
}

/// The info word of a relocation entry holds the index of the symbol in its
/// upper half, as long as the index fits in 32 bits, and the relocation type
/// in its lower half.
pub proof fn lemma_relocation_info(relocation: RelocationView)
    requires
        relocation.src_symbol < 0x1_0000_0000,
    ensures
        relocation_entry(relocation).r_info / 0x1_0000_0000 == relocation.src_symbol,
        relocation_entry(relocation).r_info % 0x1_0000_0000 == RELOCATION_ABSOLUTE_64,
{
}

} // verus!
