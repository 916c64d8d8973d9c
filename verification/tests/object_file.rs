use elfgen::codegen::x64_elf::{CompilerX64Elf, Relocation, Section, Symbol};
use elfgen::codegen::Codegen;
use elfgen::ir::sample::get_example_translation_unit;
use elfgen::ir::{Block, ConstValue, Function, Instruction, Terminator, TranslationUnit, Value};
use elfgen::outputs::elf::{ElfFile, ElfRelocation, ElfSymbol};
use elfgen::outputs::serialization::Serializable;

const SECTION_NAMES: [&str; 7] = [
    "", ".text", ".shstrtab", ".symtab", ".strtab", ".rodata", ".rel.text",
];

fn read_u32(bytes: &[u8], at: usize, big_endian: bool) -> u32 {
    let field = [bytes[at], bytes[at + 1], bytes[at + 2], bytes[at + 3]];
    if big_endian {
        u32::from_be_bytes(field)
    } else {
        u32::from_le_bytes(field)
    }
}

fn read_u64(bytes: &[u8], at: usize, big_endian: bool) -> u64 {
    let mut field = [0u8; 8];
    field.copy_from_slice(&bytes[at..at + 8]);
    if big_endian {
        u64::from_be_bytes(field)
    } else {
        u64::from_le_bytes(field)
    }
}

/// The offset and the size of a section, read from the bytes of the file.
fn section_bounds(image: &[u8], index: usize, big_endian: bool) -> (usize, usize) {
    let header = 0x40 + 0x40 * index;
    (
        read_u64(image, header + 0x18, big_endian) as usize,
        read_u64(image, header + 0x20, big_endian) as usize,
    )
}

fn section<'a>(image: &'a [u8], index: usize) -> &'a [u8] {
    let (offset, size) = section_bounds(image, index, false);
    &image[offset..offset + size]
}

fn c_string(table: &[u8], at: usize) -> &[u8] {
    let length = table[at..].iter().position(|byte| *byte == 0).unwrap();
    &table[at..at + length]
}

fn two_function_unit() -> TranslationUnit {
    let mut unit = TranslationUnit::new("two");
    unit.add_function(Function::new(
        "main",
        Block::from(
            vec![
                Instruction::Asm(vec![0x48, 0xBE]),
                Instruction::AsmValue(Value::const_str("one".to_owned())),
                Instruction::Asm(vec![0x48, 0xBF]),
                Instruction::AsmValue(Value::ConstRef(ConstValue::Int64(-1))),
            ],
            Terminator::Return,
        ),
    ));
    unit.add_function(Function::new(
        "helper",
        Block::from(
            vec![
                Instruction::AsmValue(Value::const_i64(7)),
                Instruction::AsmValue(Value::const_str("two".to_owned())),
            ],
            Terminator::Return,
        ),
    ));
    unit
}

fn entry(st_name: u32, st_info: u8, st_shndx: u16, st_value: u64, st_size: u64) -> ElfSymbol {
    ElfSymbol { st_name, st_info, st_other: 0, st_shndx, st_value, st_size }
}

fn compile(unit: TranslationUnit) -> (CompilerX64Elf, ElfFile) {
    let mut compiler = CompilerX64Elf::new();
    let elf = compiler.compile_translation_unit(unit);
    (compiler, elf)
}

#[test]
fn file_header_of_an_object_file() {
    let (_, elf) = compile(get_example_translation_unit());
    let header = elf.elf_header;
    assert_eq!(header.e_ident_magic, [0x7F, b'E', b'L', b'F']);
    assert_eq!(header.e_ident_class, 2);
    assert_eq!(header.e_ident_data, 1);
    assert_eq!(header.e_ident_version, 1);
    assert_eq!(header.e_ident_abi, 3);
    assert_eq!(header.e_ident_abi_version, 67);
    assert_eq!(header.e_ident_pad, [0; 7]);
    assert_eq!(header.e_type, 1);
    assert_eq!(header.e_machine, 0x3E);
    assert_eq!(header.e_version, 1);
    assert_eq!(header.e_entry, 0);
    assert_eq!(header.e_phoff, 0);
    assert_eq!(header.e_shoff, 0x40);
    assert_eq!(header.e_flags, 0);
    assert_eq!(header.e_ehsize, 0x40);
    assert_eq!(header.e_phentsize, 0x38);
    assert_eq!(header.e_phnum, 0);
    assert_eq!(header.e_shentsize, 0x40);
    assert_eq!(header.e_shnum, 7);
    assert_eq!(header.e_shstrndx, 2);
    assert!(elf.elf_program_headers.is_empty());

    let image = elf.serialize(false);
    assert_eq!(
        image[..0x18],
        [
            0x7F, 0x45, 0x4C, 0x46, 2, 1, 1, 3, 67, 0, 0, 0, 0, 0, 0, 0, 1, 0, 0x3E, 0, 1, 0, 0,
            0
        ]
    );
}

#[test]
fn section_plan() {
    let (compiler, elf) = compile(two_function_unit());
    let headers = &elf.elf_section_headers;
    assert_eq!(headers.len(), 7);

    let names: Vec<u32> = headers.iter().map(|header| header.sh_name).collect();
    assert_eq!(names, vec![0, 1, 7, 17, 25, 33, 41]);
    let types: Vec<u32> = headers.iter().map(|header| header.sh_type).collect();
    assert_eq!(types, vec![0, 1, 3, 2, 3, 1, 9]);
    let flags: Vec<u64> = headers.iter().map(|header| header.sh_flags).collect();
    assert_eq!(flags, vec![0, 6, 0x20, 0, 0x20, 2, 0]);
    let links: Vec<u32> = headers.iter().map(|header| header.sh_link).collect();
    assert_eq!(links, vec![0, 0, 0, 4, 0, 0, 3]);
    let infos: Vec<u32> = headers.iter().map(|header| header.sh_info).collect();
    assert_eq!(infos, vec![0, 0, 0, 1, 0, 0, 1]);
    let entry_sizes: Vec<u64> = headers.iter().map(|header| header.sh_entsize).collect();
    assert_eq!(entry_sizes, vec![0, 0, 0, 0x18, 0, 0, 16]);
    for header in headers {
        assert_eq!(header.sh_addr, 0);
        assert_eq!(header.sh_addralign, 0);
    }

    let text = compiler.text.len() as u64;
    let rodata = compiler.rodata.len() as u64;
    assert_eq!(text, 2 + 8 + 2 + 8 + 1 + 8 + 8 + 1);
    assert_eq!(rodata, 4 + 8 + 4);
    let strtab = 1 + 5 + 7;
    let sizes: Vec<u64> = headers.iter().map(|header| header.sh_size).collect();
    assert_eq!(sizes, vec![0, text, 51, 6 * 0x18, strtab, rodata, 3 * 16]);
    let offsets: Vec<u64> = headers.iter().map(|header| header.sh_offset).collect();
    assert_eq!(
        offsets,
        vec![
            0,
            0x200,
            0x200 + text,
            0x200 + text + 51,
            0x200 + text + 51 + 6 * 0x18,
            0x200 + text + 51 + 6 * 0x18 + strtab,
            0x200 + text + 51 + 6 * 0x18 + strtab + rodata,
        ]
    );
}

#[test]
fn sections_lie_where_the_headers_say() {
    for big_endian in [false, true] {
        let (compiler, elf) = compile(two_function_unit());
        let image = elf.serialize(big_endian);
        assert_eq!(image.len(), elf.serialized_length());

        assert_eq!(section_bounds(&image, 0, big_endian), (0, 0));
        let mut end = 0x200;
        for index in 1..7 {
            let (offset, size) = section_bounds(&image, index, big_endian);
            assert_eq!(offset, end, "section {index} starts where the one before it ends");
            assert_eq!(offset as u64, elf.elf_section_headers[index].sh_offset);
            assert_eq!(size as u64, elf.elf_section_headers[index].sh_size);
            end = offset + size;
        }
        assert_eq!(end, image.len());

        let content = |index: usize| {
            let (offset, size) = section_bounds(&image, index, big_endian);
            image[offset..offset + size].to_vec()
        };
        assert_eq!(content(1), compiler.text);
        assert_eq!(
            content(2),
            b"\0.text\0.shstrtab\0.symtab\0.strtab\0.rodata\0.rel.text\0".to_vec()
        );
        assert_eq!(content(3), compiler.symbol_table().0.serialize(false));
        assert_eq!(content(4), b"\0main\0helper\0".to_vec());
        assert_eq!(content(5), compiler.rodata);
        assert_eq!(content(6), compiler.relocation_table().serialize(false));
    }
}

#[test]
fn section_names_stand_where_the_headers_say() {
    let (_, elf) = compile(get_example_translation_unit());
    let image = elf.serialize(false);
    let names = section(&image, elf.elf_header.e_shstrndx as usize);
    for index in 0..7 {
        let at = read_u32(&image, 0x40 + 0x40 * index, false) as usize;
        assert_eq!(c_string(names, at), SECTION_NAMES[index].as_bytes());
    }
}

#[test]
fn symbol_table_of_two_functions() {
    let (compiler, elf) = compile(two_function_unit());
    let main_size = 2 + 8 + 2 + 8 + 1;
    let expected = vec![
        entry(0, 0, 0, 0, 0),
        entry(0, 0x11, 5, 0, 8),
        entry(0, 0x11, 5, 4, 8),
        entry(1, 0x12, 1, 0, main_size),
        entry(0, 0x11, 5, 12, 8),
        entry(6, 0x12, 1, main_size, 8 + 8 + 1),
    ];
    let (symbols, names) = compiler.symbol_table();
    assert_eq!(symbols, expected);
    assert_eq!(names, b"\0main\0helper\0".to_vec());

    // One entry for each function and each referenced constant, after the null entry.
    assert_eq!(symbols.len(), 1 + 2 + 3);

    let image = elf.serialize(false);
    let table = section(&image, 3);
    assert_eq!(table.len(), expected.len() * 0x18);
    assert_eq!(table[..0x18], [0u8; 0x18]);
    let strtab = section(&image, elf.elf_section_headers[3].sh_link as usize);
    let named: Vec<&[u8]> = (0..expected.len())
        .map(|index| c_string(strtab, read_u32(table, index * 0x18, false) as usize))
        .collect();
    assert_eq!(named, vec![&b""[..], b"", b"", b"main", b"", b"helper"]);
}

#[test]
fn function_symbols_span_their_code() {
    let unit = two_function_unit();
    let (compiler, _) = compile(unit);
    let main = &compiler.symbols[2];
    let helper = &compiler.symbols[4];
    assert_eq!(
        compiler.text[main.offset..main.offset + main.size],
        [0x48, 0xBE, 0, 0, 0, 0, 0, 0, 0, 0, 0x48, 0xBF, 0, 0, 0, 0, 0, 0, 0, 0, 0xC3]
    );
    assert_eq!(
        compiler.text[helper.offset..helper.offset + helper.size],
        [7, 0, 0, 0, 0, 0, 0, 0, 0, 0, 0, 0, 0, 0, 0, 0, 0xC3]
    );
    assert_eq!(helper.offset + helper.size, compiler.text.len());
}

#[test]
fn relocations_bind_placeholders_to_constants() {
    let (compiler, elf) = compile(two_function_unit());
    let constants: [&[u8]; 3] = [b"one\0", &[0xFF; 8], b"two\0"];
    assert_eq!(compiler.relocations.len(), constants.len());
    for (relocation, constant) in compiler.relocations.iter().zip(constants) {
        assert_eq!(relocation.dst_section, Section::Text);
        let at = relocation.dst_offset;
        assert_eq!(compiler.text[at..at + 8], [0u8; 8]);
        let symbol = &compiler.symbols[relocation.src_symbol - 1];
        assert_eq!(symbol.section, Section::Rodata);
        assert_eq!(symbol.name, None);
        assert_eq!(symbol.elf_type, 1);
        assert_eq!(symbol.size, 8);
        assert_eq!(&compiler.rodata[symbol.offset..symbol.offset + constant.len()], constant);
    }

    let expected = vec![
        ElfRelocation { r_offset: 2, r_info: (1 << 32) + 1 },
        ElfRelocation { r_offset: 12, r_info: (2 << 32) + 1 },
        ElfRelocation { r_offset: 29, r_info: (4 << 32) + 1 },
    ];
    assert_eq!(compiler.relocation_table(), expected);

    // The info word names the entry of the constant's symbol in the file's symbol table.
    let image = elf.serialize(false);
    let symbols = section(&image, 3);
    let relocations = section(&image, 6);
    let data = section(&image, 5);
    for (index, constant) in constants.iter().enumerate() {
        let info = read_u64(relocations, index * 16 + 8, false);
        assert_eq!(info & 0xFFFF_FFFF, 1);
        let entry = (info >> 32) as usize * 0x18;
        assert_eq!(symbols[entry + 4], 0x11);
        let value = read_u64(symbols, entry + 8, false) as usize;
        assert_eq!(&data[value..value + constant.len()], *constant);
    }
}

#[test]
fn object_file_of_an_empty_unit() {
    let (compiler, elf) = compile(TranslationUnit::new("empty"));
    assert_eq!(elf.elf_section_headers.len(), 7);
    assert_eq!(
        compiler.symbol_table().0,
        vec![entry(0, 0, 0, 0, 0)]
    );
    assert!(compiler.relocation_table().is_empty());

    let image = elf.serialize(false);
    assert_eq!(image.len(), 0x200 + 51 + 0x18 + 1);
    assert_eq!(section_bounds(&image, 1, false), (0x200, 0));
    assert_eq!(section_bounds(&image, 2, false), (0x200, 51));
    assert_eq!(section_bounds(&image, 3, false), (0x200 + 51, 0x18));
    assert_eq!(section_bounds(&image, 4, false), (0x200 + 51 + 0x18, 1));
    assert_eq!(section_bounds(&image, 5, false), (0x200 + 51 + 0x18 + 1, 0));
    assert_eq!(section_bounds(&image, 6, false), (0x200 + 51 + 0x18 + 1, 0));
    assert_eq!(section(&image, 3), [0u8; 0x18]);
    assert_eq!(section(&image, 4), [0u8]);
}

#[test]
fn whole_file_of_a_small_unit() {
    let mut unit = TranslationUnit::new("small");
    unit.add_function(Function::new(
        "f",
        Block::from(
            vec![Instruction::AsmValue(Value::ConstRef(ConstValue::UInt8(0x2A)))],
            Terminator::Return,
        ),
    ));
    let (_, elf) = compile(unit);

    let mut data: Vec<u8> = vec![];
    // .text
    data.extend([0, 0, 0, 0, 0, 0, 0, 0, 0xC3]);
    // .shstrtab
    data.extend(b"\0.text\0.shstrtab\0.symtab\0.strtab\0.rodata\0.rel.text\0");
    // .symtab
    data.extend([0u8; 0x18]);
    data.extend([0, 0, 0, 0, 0x11, 0, 5, 0]);
    data.extend([0u8; 8]);
    data.extend([8, 0, 0, 0, 0, 0, 0, 0]);
    data.extend([1, 0, 0, 0, 0x12, 0, 1, 0]);
    data.extend([0u8; 8]);
    data.extend([9, 0, 0, 0, 0, 0, 0, 0]);
    // .strtab
    data.extend(b"\0f\0");
    // .rodata
    data.push(0x2A);
    // .rel.text
    data.extend([0u8; 8]);
    data.extend([1, 0, 0, 0, 1, 0, 0, 0]);
    assert_eq!(elf.data, data);

    let image = elf.serialize(false);
    assert_eq!(image.len(), 0x200 + data.len());
    assert_eq!(image[0x200..], data[..]);
    // The header of .text: name 1, type 1, flags 6, address 0, offset 0x200, size 9.
    assert_eq!(
        image[0x80..0xA8],
        [
            1, 0, 0, 0, 1, 0, 0, 0, 6, 0, 0, 0, 0, 0, 0, 0, 0, 0, 0, 0, 0, 0, 0, 0, 0, 2, 0, 0,
            0, 0, 0, 0, 9, 0, 0, 0, 0, 0, 0, 0
        ]
    );
}

#[test]
fn tables_are_little_endian_in_a_big_endian_image() {
    let (compiler, elf) = compile(two_function_unit());
    let little = elf.serialize(false);
    let big = elf.serialize(true);
    assert_eq!(little.len(), big.len());
    assert_eq!(little[0x200..], big[0x200..]);
    assert_eq!(big[0x200..], elf.data[..]);
    assert_eq!(read_u64(&big, 0x80 + 0x18, true), 0x200);
    assert_eq!(read_u64(&big, 0x80 + 0x20, true), compiler.text.len() as u64);
    assert_eq!(big[0x10..0x14], [0, 1, 0, 0x3E]);
}

#[test]
fn symbol_entries_of_a_hand_made_list() {
    let compiler = CompilerX64Elf {
        text: vec![],
        rodata: vec![],
        relocations: vec![],
        symbols: vec![
            Symbol {
                section: Section::Rodata,
                offset: 0x0102030405,
                size: 3,
                name: Some("caf\u{e9}".to_owned()),
                elf_type: 0x31,
            },
            Symbol { section: Section::Text, offset: 1, size: 2, name: None, elf_type: 0xFF },
            Symbol {
                section: Section::Text,
                offset: 0,
                size: 0,
                name: Some(String::new()),
                elf_type: 0,
            },
            Symbol {
                section: Section::Text,
                offset: 7,
                size: 9,
                name: Some("g".to_owned()),
                elf_type: 2,
            },
        ],
    };
    let (symbols, names) = compiler.symbol_table();
    assert_eq!(names, vec![0, b'c', b'a', b'f', 0xC3, 0xA9, 0, 0, b'g', 0]);
    assert_eq!(
        symbols[1..],
        [
            entry(1, 0x11, 5, 0x0102030405, 3),
            entry(0, 0x1F, 1, 1, 2),
            entry(7, 0x10, 1, 0, 0),
            entry(8, 0x12, 1, 7, 9),
        ]
    );
}

#[test]
fn relocation_info_keeps_the_low_half_of_the_symbol_index() {
    let compiler = CompilerX64Elf {
        text: vec![],
        rodata: vec![],
        relocations: vec![
            Relocation { src_symbol: 0, dst_section: Section::Text, dst_offset: 0 },
            Relocation { src_symbol: 0xFFFF_FFFF, dst_section: Section::Text, dst_offset: 0x10 },
            Relocation {
                src_symbol: 0x0000_0007_0000_0003,
                dst_section: Section::Rodata,
                dst_offset: 0x0000_0001_0000_0000,
            },
        ],
        symbols: vec![],
    };
    assert_eq!(
        compiler.relocation_table(),
        vec![
            ElfRelocation { r_offset: 0, r_info: 1 },
            ElfRelocation { r_offset: 0x10, r_info: 0xFFFF_FFFF_0000_0001 },
            ElfRelocation { r_offset: 0x1_0000_0000, r_info: 0x0000_0003_0000_0001 },
        ]
    );
}

#[test]
fn a_generator_keeps_what_it_emitted() {
    let mut compiler = CompilerX64Elf::new();
    let mut first = TranslationUnit::new("first");
    first.add_function(Function::new(
        "a",
        Block::from(vec![Instruction::Asm(vec![1, 2])], Terminator::Return),
    ));
    compiler.compile_translation_unit(first);
    let text = compiler.text.clone();

    let mut second = TranslationUnit::new("second");
    second.add_function(Function::new(
        "b",
        Block::from(
            vec![Instruction::AsmValue(Value::const_str("s".to_owned()))],
            Terminator::Return,
        ),
    ));
    let elf = compiler.compile_translation_unit(second);

    assert_eq!(compiler.text[..text.len()], text[..]);
    assert_eq!(compiler.text.len(), 3 + 9);
    assert_eq!(compiler.symbols.len(), 3);
    assert_eq!(compiler.symbols[0].name.as_deref(), Some("a"));
    assert_eq!(compiler.symbols[2].name.as_deref(), Some("b"));
    assert_eq!(compiler.symbols[2].offset, 3);
    assert_eq!(compiler.relocations[0].src_symbol, 2);
    assert_eq!(elf.elf_section_headers[1].sh_size, 12);
}
