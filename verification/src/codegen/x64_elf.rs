//! The x86-64 code generator with ELF output.
//!
//! Compilation lays machine code and constant data out in two growing
//! buffers and records, for the object file, a symbol for every function and
//! every referenced constant, and a relocation for every place in the code
//! that awaits a constant's address.

use crate::codegen::emission::{
    block_code, functions_refs, instructions_refs, placeholder, Emitted, RelocationView,
    SymbolView,
};
use crate::codegen::object::{
    is_object_file, lemma_all_sections_appended, lemma_append_section, lemma_name_table_push,
    lemma_section_name_offsets, name_table, relocation_entries, relocation_entry,
    section_name_offset, section_names, symbol_entries, symbol_names, BINDING_GLOBAL, FLAG_ALLOC,
    FLAG_EXEC, FLAG_STRINGS, RELOCATION_ABSOLUTE_64, REL_TEXT_INDEX, RODATA_INDEX, SECTION_COUNT,
    SHSTRTAB_INDEX, STRTAB_INDEX, SYMTAB_INDEX, TEXT_INDEX, TYPE_PROGBITS, TYPE_REL, TYPE_STRTAB,
    TYPE_SYMTAB,
};
use crate::codegen::records::function_symbol_index;
use crate::codegen::Codegen;
use crate::ir::{Block, Function, Instruction, Terminator, TranslationUnit, Value};
use crate::outputs::elf::{
    ElfFile, ElfHeader, ElfRelocation, ElfSectionHeader, ElfSymbol, ELF_HEADER_SIZE,
    PROGRAM_HEADER_SIZE, RELOCATION_SIZE, SECTION_HEADER_SIZE, SYMBOL_SIZE,
};
use crate::outputs::serialization::{add_raw, Serializable};
use vstd::prelude::*;

verus! {

/// The sections that the generator fills.
#[derive(Clone, Copy, Debug, PartialEq, Eq)]
pub enum Section {
    Text,
    Rodata,
}

/// A place in a section that the linker patches with a symbol's address.
#[derive(Clone, Copy, Debug, PartialEq, Eq)]
pub struct Relocation {
    /// The symbol, by its position in the generator's symbol list counted from 1.
    pub src_symbol: usize,
    pub dst_section: Section,
    pub dst_offset: usize,
}

/// A named or anonymous range of a section.
#[derive(Clone, Debug, PartialEq, Eq)]
pub struct Symbol {
    pub section: Section,
    pub offset: usize,
    pub size: usize,
    pub name: Option<String>,
    pub elf_type: u8,
}

/// The opcode of a near return.
pub const RETURN_OPCODE: u8 = 0xC3;

/// The number of bytes that an address takes in the code.
pub const ADDRESS_SIZE: usize = 8;

/// The ELF symbol type of a data object.
pub const SYMBOL_TYPE_OBJECT: u8 = 1;

/// The ELF symbol type of a function.
pub const SYMBOL_TYPE_FUNCTION: u8 = 2;

impl View for Symbol {
    type V = SymbolView;

    open spec fn view(&self) -> SymbolView {
        SymbolView {
            section: self.section,
            offset: self.offset as nat,
            size: self.size as nat,
            name: match self.name {
                Some(name) => Some(name@),
                None => None,
            },
            elf_type: self.elf_type,
        }
    }
}

impl View for Relocation {
    type V = RelocationView;

    open spec fn view(&self) -> RelocationView {
        RelocationView {
            src_symbol: self.src_symbol as nat,
            dst_section: self.dst_section,
            dst_offset: self.dst_offset as nat,
        }
    }
}

/// The generator: the two section buffers and the records for the object file.
#[derive(Debug)]
pub struct CompilerX64Elf {
    pub text: Vec<u8>,
    pub rodata: Vec<u8>,
    pub relocations: Vec<Relocation>,
    pub symbols: Vec<Symbol>,
}

impl View for CompilerX64Elf {
    type V = Emitted;

    open spec fn view(&self) -> Emitted {
        Emitted {
            text: self.text@,
            rodata: self.rodata@,
            symbols: self.symbols@.map_values(|symbol: Symbol| symbol@),
            relocations: self.relocations@.map_values(|relocation: Relocation| relocation@),
        }
    }
}

impl CompilerX64Elf {
    /// A generator that has emitted nothing.
    pub fn new() -> (compiler: CompilerX64Elf)
        ensures
            compiler@ == Emitted::empty(),
    {
        let compiler = CompilerX64Elf {
            text: vec![],
            rodata: vec![],
            relocations: vec![],
            symbols: vec![],
        };
        assert(compiler@.symbols =~= Seq::empty());
        assert(compiler@.relocations =~= Seq::empty());
        compiler
    }

    /// Compiles a block: its instructions in order, then its terminator,
    /// which the block must have. Nothing that was emitted before changes:
    /// the code grows by the code of the block, the constant data by the
    /// constants that the block refers to by address.
    pub fn compile_block(&mut self, block: &Block)
        requires
            block.terminator is Some,
        ensures
            final(self)@ == old(self)@.emit_block(*block),
            final(self)@.grows_by(
                old(self)@,
                block_code(*block),
                instructions_refs(block.instructions@),
            ),
    {
        proof {
            self@.lemma_emit_block_grows(*block);
        }
        let mut i: usize = 0;
        while i < block.instructions.len()
            invariant
                i <= block.instructions@.len(),
                self@ == old(self)@.emit_instructions(block.instructions@.take(i as int)),
            decreases block.instructions@.len() - i,
        {
            self.compile_instruction(&block.instructions[i]);
            assert(block.instructions@.take(i + 1).drop_last() =~= block.instructions@.take(
                i as int,
            ));
            i = i + 1;
        }
        assert(block.instructions@.take(i as int) =~= block.instructions@);
        match &block.terminator {
            Some(terminator) => self.compile_terminator(terminator),
            None => {},
        }
    }

    /// Compiles a terminator. A jump is accepted and emits nothing: branches
    /// between blocks are not encoded yet.
    pub fn compile_terminator(&mut self, terminator: &Terminator)
        ensures
            final(self)@ == old(self)@.emit_terminator(*terminator),
    {
        match terminator {
            Terminator::Return => {
                self.text.push(RETURN_OPCODE);
            },
            Terminator::Jump(_) => {},
        }
    }

    /// Compiles an instruction: machine code is emitted as it is, a value as
    /// `compile_value` does.
    pub fn compile_instruction(&mut self, instruction: &Instruction)
        ensures
            final(self)@ == old(self)@.emit_instruction(*instruction),
    {
        match instruction {
            Instruction::Asm(x) => {
                add_raw(&mut self.text, x.as_slice());
            },
            Instruction::AsmValue(val) => self.compile_value(val),
        }
    }

    /// Compiles the block at which a function is entered. The symbol of the
    /// function is left to the caller.
    pub fn compile_function(&mut self, function: &Function)
        requires
            function.start_block.terminator is Some,
        ensures
            final(self)@ == old(self)@.emit_block(*function.start_block),
            final(self)@.grows_by(
                old(self)@,
                block_code(*function.start_block),
                instructions_refs(function.start_block.instructions@),
            ),
    {
        self.compile_block(&*function.start_block)
    }

    /// Compiles a value. An inline constant is written into the code. A
    /// referenced constant is written into the constant data under a new
    /// symbol, and the code gets a placeholder with a new relocation that
    /// binds the placeholder to the constant.
    pub fn compile_value(&mut self, value: &Value)
        ensures
            final(self)@ == old(self)@.emit_value(*value),
            *value matches Value::ConstRef(constant) ==> final(self)@.binds(
                old(self)@.relocations.len() as int,
                constant,
            ),
    {
        proof {
            if *value is ConstRef {
                self@.lemma_emit_reference_binds(value.constant());
            }
        }
        match value {
            Value::Const(val) => {
                let mut code = val.serialize(false);
                self.text.append(&mut code);
            },
            Value::ConstRef(val) => {
                self.symbols.push(
                    Symbol {
                        section: Section::Rodata,
                        size: ADDRESS_SIZE,
                        offset: self.rodata.len(),
                        name: None,
                        elf_type: SYMBOL_TYPE_OBJECT,
                    },
                );

                self.relocations.push(
                    Relocation {
                        src_symbol: self.symbols.len(),
                        dst_section: Section::Text,
                        dst_offset: self.text.len(),
                    },
                );

                let mut data = val.serialize(false);
                self.rodata.append(&mut data);
                let mut zeros: Vec<u8> = vec![0, 0, 0, 0, 0, 0, 0, 0];
                assert(zeros@ =~= placeholder());
                self.text.append(&mut zeros);
                assert(self@.symbols =~= old(self)@.emit_value(*value).symbols);
                assert(self@.relocations =~= old(self)@.emit_value(*value).relocations);
            },
        }
    }
}

/// Builds the table of section names, and finds where each name starts in it.
fn section_name_table() -> (result: (Vec<u8>, Vec<u32>))
    ensures
        result.0@ == name_table(section_names()),
        result.1@.len() == SECTION_COUNT,
        forall|index: int|
            0 <= index < SECTION_COUNT ==> result.1@[index] == section_name_offset(index),
{
    let names: Vec<String> = vec![
        "".to_owned(),
        ".text".to_owned(),
        ".shstrtab".to_owned(),
        ".symtab".to_owned(),
        ".strtab".to_owned(),
        ".rodata".to_owned(),
        ".rel.text".to_owned(),
    ];
    let mut table: Vec<u8> = Vec::new();
    let mut offsets: Vec<u32> = Vec::new();
    let mut i: usize = 0;
    while i < names.len()
        invariant
            i <= names@.len(),
            names@.len() == SECTION_COUNT,
            forall|j: int| 0 <= j < SECTION_COUNT ==> (#[trigger] names@[j])@ == section_names()[j],
            table@ == name_table(section_names().take(i as int)),
            offsets@.len() == i,
            forall|j: int| 0 <= j < i ==> offsets@[j] == section_name_offset(j),
        decreases names@.len() - i,
    {
        proof {
            lemma_section_name_offsets();
            assert(section_names().take(i + 1) =~= section_names().take(i as int).push(
                section_names()[i as int],
            ));
            lemma_name_table_push(section_names().take(i as int), section_names()[i as int]);
        }
        offsets.push(table.len() as u32);
        let mut name = names[i].serialize(false);
        table.append(&mut name);
        i = i + 1;
    }
    assert(section_names().take(i as int) =~= section_names());
    (table, offsets)
}

impl CompilerX64Elf {
    /// Builds the symbol table and the table of symbol names.
    pub fn symbol_table(&self) -> (tables: (Vec<ElfSymbol>, Vec<u8>))
        ensures
            tables.0@ == symbol_entries(self@.symbols),
            tables.1@ == name_table(symbol_names(self@.symbols)),
    {
        let mut symbol_table: Vec<ElfSymbol> = vec![
            ElfSymbol {
                st_name: 0,
                st_info: 0,
                st_other: 0,
                st_size: 0,
                st_shndx: 0,
                st_value: 0,
            },
        ];
        let mut symbol_table_names: Vec<u8> = "".to_owned().serialize(false);
        let ghost symbols = self@.symbols;
        assert(symbol_table_names@ =~= name_table(symbol_names(symbols.take(0)))) by {
            lemma_name_table_push(Seq::empty(), Seq::empty());
            reveal_strlit("");
        }

        let mut i: usize = 0;
        while i < self.symbols.len()
            invariant
                i <= self.symbols@.len(),
                symbols == self@.symbols,
                symbol_table@ == symbol_entries(symbols.take(i as int)),
                symbol_table_names@ == name_table(symbol_names(symbols.take(i as int))),
            decreases self.symbols@.len() - i,
        {
            let sym = &self.symbols[i];
            let ghost before = symbols.take(i as int);
            proof {
                assert(symbols.take(i + 1).drop_last() =~= before);
            }
            let mut name_idx: usize = 0;

            let shndx = match sym.section {
                Section::Text => TEXT_INDEX,
                Section::Rodata => RODATA_INDEX,
            };

            match &sym.name {
                Some(x) => {
                    name_idx = symbol_table_names.len();
                    let mut name = x.serialize(false);
                    symbol_table_names.append(&mut name);
                    proof {
                        lemma_name_table_push(symbol_names(before), x@);
                    }
                },
                None => {},
            }

            let elf_type: u8 = sym.elf_type;
            assert(elf_type & 0xf == elf_type % 16) by (bit_vector);
            assert(BINDING_GLOBAL << 4 == 16) by (bit_vector);
            let symbol = ElfSymbol {
                st_name: (name_idx as u64 % 0x1_0000_0000) as u32,
                st_info: (BINDING_GLOBAL << 4) + (elf_type & 0xf),
                st_other: 0,
                st_shndx: shndx,
                st_size: sym.size as u64,
                st_value: sym.offset as u64,
            };

            symbol_table.push(symbol);
            i = i + 1;
        }
        assert(symbols.take(i as int) =~= symbols);
        (symbol_table, symbol_table_names)
    }

    /// Builds the relocation table.
    pub fn relocation_table(&self) -> (table: Vec<ElfRelocation>)
        ensures
            table@ == relocation_entries(self@.relocations),
    {
        let mut table: Vec<ElfRelocation> = Vec::new();
        let mut i: usize = 0;
        while i < self.relocations.len()
            invariant
                i <= self.relocations@.len(),
                table@.len() == i,
                forall|j: int| 0 <= j < i ==> table@[j] == relocation_entry(self.relocations@[j]@),
            decreases self.relocations@.len() - i,
        {
            let reloc = &self.relocations[i];
            let symbol_index: u64 = reloc.src_symbol as u64 % 0x1_0000_0000;
            table.push(
                ElfRelocation {
                    r_offset: reloc.dst_offset as u64,
                    r_info: symbol_index * 0x1_0000_0000 + RELOCATION_ABSOLUTE_64,
                },
            );
            i = i + 1;
        }
        table
    }
}

/// A section header with no place in the file yet.
fn unplaced_section(
    sh_name: u32,
    sh_type: u32,
    sh_flags: u64,
    sh_link: u32,
    sh_info: u32,
    sh_entsize: u64,
) -> (header: ElfSectionHeader)
    ensures
        header == (ElfSectionHeader {
            sh_name,
            sh_type,
            sh_flags,
            sh_addr: 0,
            sh_offset: 0,
            sh_size: 0,
            sh_link,
            sh_info,
            sh_addralign: 0,
            sh_entsize,
        }),
{
    ElfSectionHeader {
        sh_name,
        sh_type,
        sh_flags,
        sh_addr: 0,
        sh_offset: 0,
        sh_size: 0,
        sh_link,
        sh_info,
        sh_addralign: 0,
        sh_entsize,
    }
}

impl CompilerX64Elf {
    /// Assembles the object file from what has been emitted: the header, the
    /// section header table, and the sections in the order of the table.
    pub fn assemble(&self) -> (elf: ElfFile)
        ensures
            is_object_file(elf, self@),
    {
        let (section_name_bytes, name_offsets) = section_name_table();
        let (symbol_table, symbol_name_bytes) = self.symbol_table();
        let relocation_table = self.relocation_table();

        let mut elf = ElfFile {
            elf_header: ElfHeader {
                e_ident_magic: [0x7F, 0x45, 0x4c, 0x46],
                e_ident_class: 2,
                e_ident_data: 1,
                e_ident_version: 1,
                e_ident_abi: 3,
                e_ident_abi_version: 67,
                e_ident_pad: [0, 0, 0, 0, 0, 0, 0],
                e_type: 1,
                e_machine: 0x3E,
                e_version: 1,
                e_entry: 0,
                e_phoff: 0,
                e_shoff: ELF_HEADER_SIZE as u64,
                e_flags: 0,
                e_ehsize: ELF_HEADER_SIZE as u16,
                e_phentsize: PROGRAM_HEADER_SIZE as u16,
                e_phnum: 0,
                e_shentsize: SECTION_HEADER_SIZE as u16,
                e_shnum: SECTION_COUNT as u16,
                e_shstrndx: SHSTRTAB_INDEX,
            },
            elf_program_headers: vec![],
            elf_section_headers: vec![
                unplaced_section(name_offsets[0], 0, 0, 0, 0, 0),
                unplaced_section(name_offsets[1], TYPE_PROGBITS, FLAG_ALLOC | FLAG_EXEC, 0, 0, 0),
                unplaced_section(name_offsets[2], TYPE_STRTAB, FLAG_STRINGS, 0, 0, 0),
                unplaced_section(
                    name_offsets[3],
                    TYPE_SYMTAB,
                    0,
                    STRTAB_INDEX as u32,
                    1,
                    SYMBOL_SIZE as u64,
                ),
                unplaced_section(name_offsets[4], TYPE_STRTAB, FLAG_STRINGS, 0, 0, 0),
                unplaced_section(name_offsets[5], TYPE_PROGBITS, FLAG_ALLOC, 0, 0, 0),
                unplaced_section(
                    name_offsets[6],
                    TYPE_REL,
                    0,
                    SYMTAB_INDEX as u32,
                    TEXT_INDEX as u32,
                    RELOCATION_SIZE as u64,
                ),
            ],
            data: vec![],
        };
        let ghost emitted = self@;
        proof {
            lemma_section_name_offsets();
            assert(elf.elf_header.e_ident_pad@ =~= Seq::new(7, |i: int| 0u8));
        }

        let ghost before = elf;
        elf.append_section(TEXT_INDEX as usize, self.text.as_slice());
        proof {
            lemma_append_section(before, elf, emitted, TEXT_INDEX as int);
        }

        let ghost before = elf;
        elf.append_section(SHSTRTAB_INDEX as usize, section_name_bytes.as_slice());
        proof {
            lemma_append_section(before, elf, emitted, SHSTRTAB_INDEX as int);
        }

        let ghost before = elf;
        let symbol_bytes = symbol_table.serialize(false);
        elf.append_section(SYMTAB_INDEX as usize, symbol_bytes.as_slice());
        proof {
            lemma_append_section(before, elf, emitted, SYMTAB_INDEX as int);
        }

        let ghost before = elf;
        elf.append_section(STRTAB_INDEX as usize, symbol_name_bytes.as_slice());
        proof {
            lemma_append_section(before, elf, emitted, STRTAB_INDEX as int);
        }

        let ghost before = elf;
        elf.append_section(RODATA_INDEX as usize, self.rodata.as_slice());
        proof {
            lemma_append_section(before, elf, emitted, RODATA_INDEX as int);
        }

        let ghost before = elf;
        let relocation_bytes = relocation_table.serialize(false);
        elf.append_section(REL_TEXT_INDEX as usize, relocation_bytes.as_slice());
        proof {
            lemma_append_section(before, elf, emitted, REL_TEXT_INDEX as int);
            lemma_all_sections_appended(elf, emitted);
        }
        elf
    }
}

impl Codegen for CompilerX64Elf {
    type OutputFormat = ElfFile;

    /// Compiles the functions in the order of the unit, each followed by its
    /// symbol, and assembles the object file from everything that this
    /// generator has emitted. The generator gains one symbol for each function
    /// and for each constant that the functions refer to by address, and the
    /// symbol of every function spans exactly the code of the function.
    fn compile_translation_unit(&mut self, translation_unit: TranslationUnit) -> (elf: ElfFile)
        ensures
            final(self)@ == old(self)@.emit_functions(translation_unit.functions@),
            is_object_file(elf, final(self)@),
            final(self)@.symbols.len() == old(self)@.symbols.len()
                + translation_unit.functions@.len() + functions_refs(
                translation_unit.functions@,
            ).len(),
            forall|index: int|
                0 <= index < translation_unit.functions@.len() ==> final(self)@.spans(
                    old(self)@.symbols.len() + function_symbol_index(
                        translation_unit.functions@,
                        index,
                    ),
                    #[trigger] translation_unit.functions@[index],
                ),
    {
        proof {
            let functions = translation_unit.functions@;
            self@.lemma_emit_functions_grows(functions);
            assert forall|index: int| 0 <= index < functions.len() implies self@.emit_functions(
                functions,
            ).spans(
                self@.symbols.len() + function_symbol_index(functions, index),
                #[trigger] functions[index],
            ) by {
                self@.lemma_function_symbol_spans_code(functions, index);
            }
        }
        let mut i: usize = 0;
        while i < translation_unit.functions.len()
            invariant
                i <= translation_unit.functions@.len(),
                translation_unit.compilable(),
                self@ == old(self)@.emit_functions(translation_unit.functions@.take(i as int)),
            decreases translation_unit.functions@.len() - i,
        {
            let func = &translation_unit.functions[i];
            let ghost before = self@;
            let function_start = self.text.len();
            self.compile_function(func);

            self.symbols.push(
                Symbol {
                    offset: function_start,
                    elf_type: SYMBOL_TYPE_FUNCTION,
                    size: self.text.len() - function_start,
                    section: Section::Text,
                    name: Some(func.name.clone()),
                },
            );
            proof {
                assert(translation_unit.functions@.take(i + 1).drop_last()
                    =~= translation_unit.functions@.take(i as int));
                assert(self@.symbols =~= before.emit_function(*func).symbols);
            }
            i = i + 1;
        }
        assert(translation_unit.functions@.take(i as int) =~= translation_unit.functions@);
        self.assemble()
    }
}

} // verus!
