//! A sample translation unit: a program that writes a greeting and exits.

use crate::ir::{
    byte_constants, Block, ConstValue, Function, Instruction, Terminator, TranslationUnit, Value,
};
use crate::outputs::serialization::c_string_bytes;
use vstd::prelude::*;

verus! {

/// The code before the address of the greeting: the numbers of the `write`
/// call and of standard output, and the opcode that loads an address.
pub open spec fn example_prologue() -> Seq<u8> {
    seq![0x6Au8, 0x1u8, 0x58u8, 0x6Au8, 0x1u8, 0x5Fu8, 0x48u8, 0xbeu8]
}

/// The code between the address of the greeting and the exit status: the
/// length of the greeting, the call, the number of the `exit` call, and the
/// opcode that loads the status.
pub open spec fn example_call() -> Seq<u8> {
    seq![0x6au8, 14u8, 0x5au8, 0x0fu8, 0x05u8, 0x6au8, 0x3cu8, 0x58u8, 0x48u8, 0xbfu8]
}

/// The code after the exit status: the call.
pub open spec fn example_epilogue() -> Seq<u8> {
    seq![0x0fu8, 0x05u8]
}

/// `block` is the block of the sample program.
pub open spec fn is_example_block(block: Block) -> bool {
    &&& block.terminator == Some(Terminator::Return)
    &&& block.instructions@.len() == 5
    &&& block.instructions@[0] matches Instruction::Asm(code) && code@ == example_prologue()
    &&& block.instructions@[1] matches Instruction::AsmValue(
        Value::ConstRef(ConstValue::Array(elements)),
    ) && elements@ == byte_constants(c_string_bytes("Hello, World!\n"@))
    &&& block.instructions@[2] matches Instruction::Asm(code) && code@ == example_call()
    &&& block.instructions@[3] == Instruction::AsmValue(Value::Const(ConstValue::Int64(0)))
    &&& block.instructions@[4] matches Instruction::Asm(code) && code@ == example_epilogue()
}

/// The sample unit `cook`: one function `_start` that writes "Hello, World!"
/// and a line feed to standard output and exits with status 0.
pub fn get_example_translation_unit() -> (unit: TranslationUnit)
    ensures
        unit.name@ == "cook"@,
        unit.functions@.len() == 1,
        unit.functions@[0].name@ == "_start"@,
        is_example_block(*unit.functions@[0].start_block),
        unit.compilable(),
        unit.wf(),
{
    let mut translation_unit = TranslationUnit::new("cook");

    let mut block = Block::new();

    let str = Value::const_str("Hello, World!\n".to_owned());

    block.add_instruction(
        Instruction::Asm(
            vec![
                0x6A, 0x1,  // push 1
                0x58,  // pop rax
                0x6A, 0x1,  // push 1
                0x5F,  // pop rdi
                0x48, 0xbe,  // put following 64-bit immediate into rsi
            ],
        ),
    );

    block.add_instruction(Instruction::AsmValue(str));

    block.add_instruction(
        Instruction::Asm(
            vec![
                0x6a, 14,  // push 14
                0x5a,  // pop rdx
                0x0f, 0x05,  // syscall
                0x6a, 0x3c,  // push 60
                0x58,  // pop rax
                0x48, 0xbf,  // put following 64-bit immediate into rdi
            ],
        ),
    );

    block.add_instruction(Instruction::AsmValue(Value::const_i64(0)));

    block.add_instruction(
        Instruction::Asm(
            vec![
                0x0f, 0x05,  // syscall
            ],
        ),
    );

    block.set_terminator(Terminator::Return);
    translation_unit.add_function(Function::new("_start", block));

    translation_unit
}

} // verus!
