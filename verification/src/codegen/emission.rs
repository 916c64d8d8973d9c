//! What compilation emits, as a mathematical model: the contents of the two
//! sections and the symbol and relocation records, and how each construct of
//! the intermediate representation extends them.

use crate::codegen::x64_elf::{
    Section, ADDRESS_SIZE, RETURN_OPCODE, SYMBOL_TYPE_FUNCTION, SYMBOL_TYPE_OBJECT,
};
use crate::ir::{Block, ConstValue, Function, Instruction, Terminator, Value};
use vstd::prelude::*;

verus! {

/// What a symbol says, with its name as a sequence of characters.
pub struct SymbolView {
    pub section: Section,
    pub offset: nat,
    pub size: nat,
    pub name: Option<Seq<char>>,
    pub elf_type: u8,
}

/// What a relocation says.
pub struct RelocationView {
    pub src_symbol: nat,
    pub dst_section: Section,
    pub dst_offset: nat,
}

/// Everything that compilation has produced so far.
pub struct Emitted {
    pub text: Seq<u8>,
    pub rodata: Seq<u8>,
    pub symbols: Seq<SymbolView>,
    pub relocations: Seq<RelocationView>,
}

/// The bytes that stand in the code where an address will be patched in.
pub open spec fn placeholder() -> Seq<u8> {
    Seq::new(ADDRESS_SIZE as nat, |i: int| 0u8)
}

impl Emitted {
    /// Nothing emitted.
    pub open spec fn empty() -> Emitted {
        Emitted {
            text: Seq::empty(),
            rodata: Seq::empty(),
            symbols: Seq::empty(),
            relocations: Seq::empty(),
        }
    }

    /// Emits a value. An inline constant goes into the code, little-endian. A
    /// referenced constant goes into the constant data, under a new anonymous
    /// object symbol that starts where the data ended; the code gets a
    /// placeholder, and a new relocation binds it to that symbol.
    pub open spec fn emit_value(self, value: Value) -> Emitted {
        match value {
            Value::Const(val) => Emitted { text: self.text + val.encoding(false), ..self },
            Value::ConstRef(val) => Emitted {
                text: self.text + placeholder(),
                rodata: self.rodata + val.encoding(false),
                symbols: self.symbols.push(
                    SymbolView {
                        section: Section::Rodata,
                        offset: self.rodata.len(),
                        size: ADDRESS_SIZE as nat,
                        name: None,
                        elf_type: SYMBOL_TYPE_OBJECT,
                    },
                ),
                relocations: self.relocations.push(
                    RelocationView {
                        src_symbol: self.symbols.len() + 1,
                        dst_section: Section::Text,
                        dst_offset: self.text.len(),
                    },
                ),
            },
        }
    }

    /// Emits an instruction: raw machine code as it is, a value as `emit_value` says.
    pub open spec fn emit_instruction(self, instruction: Instruction) -> Emitted {
        match instruction {
            Instruction::Asm(code) => Emitted { text: self.text + code@, ..self },
            Instruction::AsmValue(value) => self.emit_value(value),
        }
    }

    /// Emits instructions one after the other.
    pub open spec fn emit_instructions(self, instructions: Seq<Instruction>) -> Emitted
        decreases instructions.len(),
    {
        if instructions.len() == 0 {
            self
        } else {
            self.emit_instructions(instructions.drop_last()).emit_instruction(instructions.last())
        }
    }

    /// Emits a terminator: a return is its opcode. A jump emits nothing: no
    /// branch is encoded yet, so control falls through where a block jumps.
    pub open spec fn emit_terminator(self, terminator: Terminator) -> Emitted {
        match terminator {
            Terminator::Return => Emitted { text: self.text.push(RETURN_OPCODE), ..self },
            Terminator::Jump(_) => self,
        }
    }

    /// Emits a block: its instructions, then its terminator.
    pub open spec fn emit_block(self, block: Block) -> Emitted
        recommends
            block.terminator is Some,
    {
        self.emit_instructions(block.instructions@).emit_terminator(block.terminator->0)
    }

    /// Emits a function: its block, then a function symbol under the function's
    /// name that spans the code of the block.
    pub open spec fn emit_function(self, function: Function) -> Emitted
        recommends
            function.start_block.terminator is Some,
    {
        let body = self.emit_block(*function.start_block);
        Emitted {
            symbols: body.symbols.push(
                SymbolView {
                    section: Section::Text,
                    offset: self.text.len(),
                    size: (body.text.len() - self.text.len()) as nat,
                    name: Some(function.name@),
                    elf_type: SYMBOL_TYPE_FUNCTION,
                },
            ),
            ..body
        }
    }

    /// Emits functions one after the other.
    pub open spec fn emit_functions(self, functions: Seq<Function>) -> Emitted
        decreases functions.len(),
    {
        if functions.len() == 0 {
            self
        } else {
            self.emit_functions(functions.drop_last()).emit_function(functions.last())
        }
    }
}

impl Emitted {
    /// `self` holds everything that `earlier` holds, in the same places, and
    /// maybe more after it.
    pub open spec fn extends(self, earlier: Emitted) -> bool {
        &&& earlier.text.is_prefix_of(self.text)
        &&& earlier.rodata.is_prefix_of(self.rodata)
        &&& earlier.symbols.is_prefix_of(self.symbols)
        &&& earlier.relocations.is_prefix_of(self.relocations)
    }

    /// Emitting a value only adds.
    pub proof fn lemma_emit_value_extends(self, value: Value)
        ensures
            self.emit_value(value).extends(self),
    {
    }

    /// Emitting an instruction only adds.
    pub proof fn lemma_emit_instruction_extends(self, instruction: Instruction)
        ensures
            self.emit_instruction(instruction).extends(self),
    {
    }

    /// Emitting instructions only adds.
    pub proof fn lemma_emit_instructions_extends(self, instructions: Seq<Instruction>)
        ensures
            self.emit_instructions(instructions).extends(self),
        decreases instructions.len(),
    {
        if instructions.len() > 0 {
            self.lemma_emit_instructions_extends(instructions.drop_last());
            self.emit_instructions(instructions.drop_last()).lemma_emit_instruction_extends(
                instructions.last(),
            );
        }
    }

    /// Emitting a block only adds.
    pub proof fn lemma_emit_block_extends(self, block: Block)
        ensures
            self.emit_block(block).extends(self),
    {
        self.lemma_emit_instructions_extends(block.instructions@);
    }

    /// Emitting a function only adds.
    pub proof fn lemma_emit_function_extends(self, function: Function)
        ensures
            self.emit_function(function).extends(self),
    {
        self.lemma_emit_block_extends(*function.start_block);
    }

    /// Emitting functions only adds: nothing that was emitted is changed or moved.
    pub proof fn lemma_emit_functions_extends(self, functions: Seq<Function>)
        ensures
            self.emit_functions(functions).extends(self),
        decreases functions.len(),
    {
        if functions.len() > 0 {
            self.lemma_emit_functions_extends(functions.drop_last());
            self.emit_functions(functions.drop_last()).lemma_emit_function_extends(
                functions.last(),
            );
        }
    }
}

/// The code of a value: an inline constant is its little-endian encoding, a
/// referenced one the placeholder for its address.
pub open spec fn value_code(value: Value) -> Seq<u8> {
    match value {
        Value::Const(val) => val.encoding(false),
        Value::ConstRef(_) => placeholder(),
    }
}

/// The code of an instruction.
pub open spec fn instruction_code(instruction: Instruction) -> Seq<u8> {
    match instruction {
        Instruction::Asm(code) => code@,
        Instruction::AsmValue(value) => value_code(value),
    }
}

/// The code of instructions that follow one another.
pub open spec fn instructions_code(instructions: Seq<Instruction>) -> Seq<u8>
    decreases instructions.len(),
{
    if instructions.len() == 0 {
        Seq::empty()
    } else {
        instructions_code(instructions.drop_last()) + instruction_code(instructions.last())
    }
}

/// The code of a terminator.
pub open spec fn terminator_code(terminator: Terminator) -> Seq<u8> {
    match terminator {
        Terminator::Return => seq![RETURN_OPCODE],
        Terminator::Jump(_) => Seq::empty(),
    }
}

/// The code of a block: that of its instructions and of its terminator.
pub open spec fn block_code(block: Block) -> Seq<u8>
    recommends
        block.terminator is Some,
{
    instructions_code(block.instructions@) + terminator_code(block.terminator->0)
}

/// The constants that a value refers to by address: itself or none.
pub open spec fn value_refs(value: Value) -> Seq<ConstValue> {
    match value {
        Value::Const(_) => Seq::empty(),
        Value::ConstRef(val) => seq![val],
    }
}

/// The constants that an instruction refers to by address: one or none.
pub open spec fn instruction_refs(instruction: Instruction) -> Seq<ConstValue> {
    match instruction {
        Instruction::Asm(_) => Seq::empty(),
        Instruction::AsmValue(value) => value_refs(value),
    }
}

/// The constants that instructions refer to by address, in the order of the
/// instructions.
pub open spec fn instructions_refs(instructions: Seq<Instruction>) -> Seq<ConstValue>
    decreases instructions.len(),
{
    if instructions.len() == 0 {
        Seq::empty()
    } else {
        instructions_refs(instructions.drop_last()) + instruction_refs(instructions.last())
    }
}

/// The constants that functions refer to by address, in the order of the
/// functions and of their instructions.
pub open spec fn functions_refs(functions: Seq<Function>) -> Seq<ConstValue>
    decreases functions.len(),
{
    if functions.len() == 0 {
        Seq::empty()
    } else {
        functions_refs(functions.drop_last()) + instructions_refs(
            functions.last().start_block.instructions@,
        )
    }
}

/// The constant data of `constants`: their little-endian encodings in order.
pub open spec fn constants_data(constants: Seq<ConstValue>) -> Seq<u8>
    decreases constants.len(),
{
    if constants.len() == 0 {
        Seq::empty()
    } else {
        constants_data(constants.drop_last()) + constants.last().encoding(false)
    }
}

/// The code of functions that follow one another.
pub open spec fn functions_code(functions: Seq<Function>) -> Seq<u8>
    decreases functions.len(),
{
    if functions.len() == 0 {
        Seq::empty()
    } else {
        functions_code(functions.drop_last()) + block_code(*functions.last().start_block)
    }
}

/// The constant data of constants that follow one another is the data of the
/// first, then that of the others.
pub proof fn lemma_constants_data_concat(first: Seq<ConstValue>, others: Seq<ConstValue>)
    ensures
        constants_data(first + others) == constants_data(first) + constants_data(others),
    decreases others.len(),
{
    if others.len() > 0 {
        assert((first + others).drop_last() =~= first + others.drop_last());
        lemma_constants_data_concat(first, others.drop_last());
    }
}

impl Emitted {
    /// The sections grow by the code and by the referenced constants of what
    /// is emitted, and the two lists by one entry for each such constant.
    pub open spec fn grows_by(
        self,
        earlier: Emitted,
        code: Seq<u8>,
        refs: Seq<ConstValue>,
    ) -> bool {
        &&& self.extends(earlier)
        &&& self.text == earlier.text + code
        &&& self.rodata == earlier.rodata + constants_data(refs)
        &&& self.relocations.len() == earlier.relocations.len() + refs.len()
    }

    /// What emitting an instruction adds.
    pub proof fn lemma_emit_instruction_grows(self, instruction: Instruction)
        ensures
            self.emit_instruction(instruction).grows_by(
                self,
                instruction_code(instruction),
                instruction_refs(instruction),
            ),
            self.emit_instruction(instruction).symbols.len() == self.symbols.len()
                + instruction_refs(instruction).len(),
    {
        let refs = instruction_refs(instruction);
        if refs.len() > 0 {
            assert(constants_data(refs.drop_last()) =~= Seq::empty());
        }
    }

    /// What emitting instructions adds.
    pub proof fn lemma_emit_instructions_grows(self, instructions: Seq<Instruction>)
        ensures
            self.emit_instructions(instructions).grows_by(
                self,
                instructions_code(instructions),
                instructions_refs(instructions),
            ),
            self.emit_instructions(instructions).symbols.len() == self.symbols.len()
                + instructions_refs(instructions).len(),
        decreases instructions.len(),
    {
        let after = self.emit_instructions(instructions);
        if instructions.len() > 0 {
            let before = self.emit_instructions(instructions.drop_last());
            self.lemma_emit_instructions_grows(instructions.drop_last());
            before.lemma_emit_instruction_grows(instructions.last());
            lemma_constants_data_concat(
                instructions_refs(instructions.drop_last()),
                instruction_refs(instructions.last()),
            );
            assert(after.text =~= self.text + instructions_code(instructions));
            assert(after.rodata =~= self.rodata + constants_data(instructions_refs(instructions)));
        }
    }

    /// What emitting a block adds: its code, and its referenced constants.
    pub proof fn lemma_emit_block_grows(self, block: Block)
        ensures
            self.emit_block(block).grows_by(
                self,
                block_code(block),
                instructions_refs(block.instructions@),
            ),
            self.emit_block(block).symbols.len() == self.symbols.len() + instructions_refs(
                block.instructions@,
            ).len(),
    {
        self.lemma_emit_instructions_grows(block.instructions@);
        let after = self.emit_block(block);
        assert(after.text =~= self.text + block_code(block));
    }
}

impl Emitted {
    /// The same instruction emits the same.
    pub proof fn lemma_alike_instructions_emit_alike(
        self,
        instruction: Instruction,
        other: Instruction,
    )
        requires
            instruction.alike(other),
        ensures
            self.emit_instruction(instruction) == self.emit_instruction(other),
    {
        match instruction {
            Instruction::Asm(_) => {},
            Instruction::AsmValue(value) => {
                value.constant().lemma_alike_encoding(other->AsmValue_0.constant(), false);
            },
        }
    }

    /// The same instructions in the same order emit the same.
    pub proof fn lemma_alike_runs_emit_alike(
        self,
        instructions: Seq<Instruction>,
        others: Seq<Instruction>,
    )
        requires
            instructions.len() == others.len(),
            forall|i: int|
                0 <= i < instructions.len() ==> (#[trigger] instructions[i]).alike(others[i]),
        ensures
            self.emit_instructions(instructions) == self.emit_instructions(others),
        decreases instructions.len(),
    {
        if instructions.len() > 0 {
            let before = instructions.drop_last();
            let others_before = others.drop_last();
            assert forall|i: int| 0 <= i < before.len() implies (#[trigger] before[i]).alike(
                others_before[i],
            ) by {}
            self.lemma_alike_runs_emit_alike(before, others_before);
            self.emit_instructions(before).lemma_alike_instructions_emit_alike(
                instructions.last(),
                others.last(),
            );
        }
    }

    /// The same block emits the same: a copy of a block compiles as the block does.
    pub proof fn lemma_alike_blocks_emit_alike(self, block: Block, other: Block)
        requires
            block.alike(other),
            block.terminator is Some,
        ensures
            self.emit_block(block) == self.emit_block(other),
    {
        self.lemma_alike_runs_emit_alike(block.instructions@, other.instructions@);
    }
}

} // verus!
