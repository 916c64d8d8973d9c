use elfgen::outputs::elf::{
    ElfFile, ElfHeader, ElfProgramHeader, ElfRelocation, ElfSectionHeader, ElfSymbol,
};
use elfgen::outputs::serialization::Serializable;

fn header() -> ElfHeader {
    ElfHeader {
        e_ident_magic: [0x7F, 0x45, 0x4c, 0x46],
        e_ident_class: 2,
        e_ident_data: 1,
        e_ident_version: 1,
        e_ident_abi: 3,
        e_ident_abi_version: 67,
        e_ident_pad: [0; 7],
        e_type: 1,
        e_machine: 0x3E,
        e_version: 1,
        e_entry: 0x1122334455667788,
        e_phoff: 0,
        e_shoff: 0x40,
        e_flags: 0xA0B0C0D0,
        e_ehsize: 0x40,
        e_phentsize: 0x38,
        e_phnum: 0,
        e_shentsize: 0x40,
        e_shnum: 7,
        e_shstrndx: 2,
    }
}

fn section(offset: u64, size: u64) -> ElfSectionHeader {
    ElfSectionHeader {
        sh_name: 0x01020304,
        sh_type: 9,
        sh_flags: 0x20,
        sh_addr: 0,
        sh_offset: offset,
        sh_size: size,
        sh_link: 3,
        sh_info: 1,
        sh_addralign: 0,
        sh_entsize: 16,
    }
}

#[test]
fn file_header_layout() {
    let expected: Vec<u8> = vec![
        0x7F, 0x45, 0x4C, 0x46, 2, 1, 1, 3, 67, 0, 0, 0, 0, 0, 0, 0,
        1, 0, 0x3E, 0, 1, 0, 0, 0,
        0x88, 0x77, 0x66, 0x55, 0x44, 0x33, 0x22, 0x11,
        0, 0, 0, 0, 0, 0, 0, 0,
        0x40, 0, 0, 0, 0, 0, 0, 0,
        0xD0, 0xC0, 0xB0, 0xA0,
        0x40, 0, 0x38, 0, 0, 0, 0x40, 0, 7, 0, 2, 0,
    ];
    assert_eq!(header().serialize(false), expected);
    assert_eq!(expected.len(), 0x40);
}

#[test]
fn file_header_layout_big_endian() {
    let bytes = header().serialize(true);
    assert_eq!(bytes.len(), 0x40);
    assert_eq!(bytes[0..4], [0x7F, 0x45, 0x4C, 0x46]);
    assert_eq!(bytes[16..20], [0, 1, 0, 0x3E]);
    assert_eq!(bytes[24..32], [0x11, 0x22, 0x33, 0x44, 0x55, 0x66, 0x77, 0x88]);
    assert_eq!(bytes[48..52], [0xA0, 0xB0, 0xC0, 0xD0]);
    assert_eq!(bytes[60..64], [0, 7, 0, 2]);
}

#[test]
fn section_header_layout() {
    let expected: Vec<u8> = vec![
        4, 3, 2, 1, 9, 0, 0, 0,
        0x20, 0, 0, 0, 0, 0, 0, 0,
        0, 0, 0, 0, 0, 0, 0, 0,
        0xEF, 0xCD, 0xAB, 0, 0, 0, 0, 0,
        0x10, 0x20, 0, 0, 0, 0, 0, 0,
        3, 0, 0, 0, 1, 0, 0, 0,
        0, 0, 0, 0, 0, 0, 0, 0,
        16, 0, 0, 0, 0, 0, 0, 0,
    ];
    assert_eq!(section(0xABCDEF, 0x2010).serialize(false), expected);
}

#[test]
fn program_header_layout() {
    let program = ElfProgramHeader {
        p_type: 1,
        p_flags: 7,
        p_offset: 0x1000,
        p_vaddr: 0x40001000,
        p_paddr: 2,
        p_filesz: 25,
        p_memsz: 26,
        p_align: 0x1000,
    };
    let expected: Vec<u8> = vec![
        1, 0, 0, 0, 7, 0, 0, 0,
        0, 0x10, 0, 0, 0, 0, 0, 0,
        0, 0x10, 0, 0x40, 0, 0, 0, 0,
        2, 0, 0, 0, 0, 0, 0, 0,
        25, 0, 0, 0, 0, 0, 0, 0,
        26, 0, 0, 0, 0, 0, 0, 0,
        0, 0x10, 0, 0, 0, 0, 0, 0,
    ];
    assert_eq!(program.serialize(false), expected);
    assert_eq!(expected.len(), 0x38);
}

#[test]
fn symbol_layout() {
    let symbol = ElfSymbol {
        st_name: 0x0A0B0C0D,
        st_info: 0x12,
        st_other: 3,
        st_shndx: 0x0102,
        st_value: 0x20,
        st_size: 0x1122,
    };
    let expected: Vec<u8> = vec![
        0x0D, 0x0C, 0x0B, 0x0A, 0x12, 3, 2, 1,
        0x20, 0, 0, 0, 0, 0, 0, 0,
        0x22, 0x11, 0, 0, 0, 0, 0, 0,
    ];
    assert_eq!(symbol.serialize(false), expected);
    let expected_big: Vec<u8> = vec![
        0x0A, 0x0B, 0x0C, 0x0D, 0x12, 3, 1, 2,
        0, 0, 0, 0, 0, 0, 0, 0x20,
        0, 0, 0, 0, 0, 0, 0x11, 0x22,
    ];
    assert_eq!(symbol.serialize(true), expected_big);
}

#[test]
fn relocation_layout() {
    let relocation = ElfRelocation { r_offset: 8, r_info: (2 << 32) + 1 };
    assert_eq!(
        relocation.serialize(false),
        vec![8, 0, 0, 0, 0, 0, 0, 0, 1, 0, 0, 0, 2, 0, 0, 0]
    );
    assert_eq!(
        relocation.serialize(true),
        vec![0, 0, 0, 0, 0, 0, 0, 8, 0, 0, 0, 2, 0, 0, 0, 1]
    );
}

#[test]
fn file_is_header_tables_and_data() {
    let program = ElfProgramHeader {
        p_type: 1,
        p_flags: 4,
        p_offset: 0,
        p_vaddr: 0,
        p_paddr: 0,
        p_filesz: 0,
        p_memsz: 0,
        p_align: 0,
    };
    let file = ElfFile {
        elf_header: header(),
        elf_program_headers: vec![program],
        elf_section_headers: vec![section(0, 0), section(1, 2)],
        data: vec![9, 8, 7],
    };
    let mut expected = header().serialize(false);
    expected.extend(program.serialize(false));
    expected.extend(section(0, 0).serialize(false));
    expected.extend(section(1, 2).serialize(false));
    expected.extend([9, 8, 7]);
    assert_eq!(file.serialize(false), expected);
    assert_eq!(file.serialized_length(), 0x40 + 0x38 + 2 * 0x40 + 3);
}

#[test]
fn append_section_completes_the_header() {
    let mut file = ElfFile {
        elf_header: header(),
        elf_program_headers: vec![],
        elf_section_headers: vec![section(0, 0), section(0, 0), section(0, 0)],
        data: vec![],
    };
    file.append_section(1, &[1, 2, 3, 4, 5]);
    file.append_section(2, &[6, 7]);

    assert_eq!(file.data, vec![1, 2, 3, 4, 5, 6, 7]);
    assert_eq!(file.elf_section_headers[0], section(0, 0));
    assert_eq!(file.elf_section_headers[1], section(0x40 + 3 * 0x40, 5));
    assert_eq!(file.elf_section_headers[2], section(0x40 + 3 * 0x40 + 5, 2));
    assert_eq!(file.elf_header, header());
    assert!(file.elf_program_headers.is_empty());
}

#[test]
fn append_section_of_nothing() {
    let mut file = ElfFile {
        elf_header: header(),
        elf_program_headers: vec![],
        elf_section_headers: vec![section(7, 7)],
        data: vec![1],
    };
    file.append_section(0, &[]);
    assert_eq!(file.data, vec![1]);
    assert_eq!(file.elf_section_headers[0], section(0x40 + 0x40 + 1, 0));
}

#[test]
fn file_with_section_names_apart() {
    let file = elfgen::linking::elf::ElfFile {
        elf_header: header(),
        elf_program_headers: vec![],
        elf_section_headers: vec![section(0, 0)],
        elf_section_names: vec!["".to_owned(), ".text".to_owned()],
        data: vec![0xC3],
    };
    let mut expected = header().serialize(false);
    expected.extend(section(0, 0).serialize(false));
    expected.extend(b"\0.text\0");
    expected.push(0xC3);
    assert_eq!(file.serialize(false), expected);
    assert_eq!(file.serialized_length(), 0x40 + 0x40 + 7 + 1);
    assert_eq!(file.serialize(true).len(), expected.len());
}
