use elfgen::ir::sample::get_example_translation_unit;
use elfgen::ir::{Block, ConstValue, Function, Instruction, Terminator, TranslationUnit, Value};
use elfgen::outputs::serialization::Serializable;

fn returning(code: Vec<u8>) -> Block {
    Block::from(vec![Instruction::Asm(code)], Terminator::Return)
}

fn code_of(function: &Function) -> Vec<u8> {
    match &function.start_block.instructions[0] {
        Instruction::Asm(code) => code.clone(),
        Instruction::AsmValue(_) => panic!("no code"),
    }
}

#[test]
fn new_unit_is_empty() {
    let unit = TranslationUnit::new("cook");
    assert_eq!(unit.name, "cook");
    assert!(unit.functions.is_empty());
    assert!(unit.is_compilable());
}

#[test]
fn functions_keep_the_order_in_which_they_came() {
    let mut unit = TranslationUnit::new("unit");
    unit.add_function(Function::new("zeta", returning(vec![1])));
    unit.add_function(Function::new("alpha", returning(vec![2])));
    unit.add_function(Function::new("mid", returning(vec![3])));
    let names: Vec<&str> = unit.functions.iter().map(|f| f.name.as_str()).collect();
    assert_eq!(names, vec!["zeta", "alpha", "mid"]);
}

#[test]
fn a_function_replaces_the_one_of_its_name() {
    let mut unit = TranslationUnit::new("unit");
    unit.add_function(Function::new("a", returning(vec![1])));
    unit.add_function(Function::new("b", returning(vec![2])));
    unit.add_function(Function::new("c", returning(vec![3])));
    unit.add_function(Function::new("b", returning(vec![4])));
    let names: Vec<&str> = unit.functions.iter().map(|f| f.name.as_str()).collect();
    assert_eq!(names, vec!["a", "b", "c"]);
    assert_eq!(code_of(&unit.functions[0]), vec![1]);
    assert_eq!(code_of(&unit.functions[1]), vec![4]);
    assert_eq!(code_of(&unit.functions[2]), vec![3]);
}

#[test]
fn block_is_built_piece_by_piece() {
    let mut block = Block::new();
    assert!(block.instructions.is_empty());
    assert!(!block.has_terminator());
    block.add_instruction(Instruction::Asm(vec![1]));
    block.add_instruction(Instruction::Asm(vec![2, 3]));
    assert_eq!(block.instructions.len(), 2);
    assert!(!block.has_terminator());
    block.set_terminator(Terminator::Return);
    assert!(block.has_terminator());
    assert!(matches!(block.terminator, Some(Terminator::Return)));
    block.set_terminator(Terminator::Jump(Box::new(Block::new())));
    assert!(matches!(block.terminator, Some(Terminator::Jump(_))));
    assert_eq!(block.instructions.len(), 2);
}

#[test]
fn block_from_is_finished() {
    let block = Block::from(vec![Instruction::Asm(vec![0x90])], Terminator::Return);
    assert!(block.has_terminator());
    assert_eq!(block.instructions.len(), 1);
}

#[test]
fn unit_with_an_open_block_is_not_compilable() {
    let mut open = Block::new();
    open.add_instruction(Instruction::Asm(vec![0x90]));
    let mut unit = TranslationUnit::new("unit");
    unit.add_function(Function::new("done", returning(vec![1])));
    assert!(unit.is_compilable());
    unit.add_function(Function::new("open", open));
    assert!(!unit.is_compilable());
    unit.add_function(Function::new("open", returning(vec![2])));
    assert!(unit.is_compilable());
}

#[test]
fn only_the_entry_block_needs_its_terminator() {
    let block = Block::from(vec![], Terminator::Jump(Box::new(Block::new())));
    let mut unit = TranslationUnit::new("unit");
    unit.add_function(Function::new("jumps", block));
    assert!(unit.is_compilable());
}

#[test]
fn const_i64_is_inline() {
    match Value::const_i64(-5) {
        Value::Const(ConstValue::Int64(number)) => assert_eq!(number, -5),
        _ => panic!("not an inline 64-bit constant"),
    }
}

#[test]
fn const_str_is_a_referenced_array_of_bytes() {
    match Value::const_str("Hi\n".to_owned()) {
        Value::ConstRef(ConstValue::Array(elements)) => {
            let bytes: Vec<u8> = elements
                .iter()
                .map(|element| match element {
                    ConstValue::UInt8(byte) => *byte,
                    _ => panic!("not a byte"),
                })
                .collect();
            assert_eq!(bytes, vec![b'H', b'i', b'\n', 0]);
        }
        _ => panic!("not a referenced array"),
    }
}

#[test]
fn const_str_encodes_as_the_null_terminated_text() {
    let (Value::Const(constant) | Value::ConstRef(constant)) =
        Value::const_str("Hello, World!\n".to_owned());
    assert_eq!(constant.serialize(false), b"Hello, World!\n\0".to_vec());
    assert_eq!(constant.serialize(true), b"Hello, World!\n\0".to_vec());
    assert_eq!(constant.serialized_length(), 15);
}

#[test]
fn constants_encode_scalars_in_the_chosen_order() {
    assert_eq!(ConstValue::UInt8(0x7F).serialize(false), vec![0x7F]);
    assert_eq!(
        ConstValue::Int64(0x0102030405060708).serialize(false),
        vec![8, 7, 6, 5, 4, 3, 2, 1]
    );
    assert_eq!(
        ConstValue::Int64(0x0102030405060708).serialize(true),
        vec![1, 2, 3, 4, 5, 6, 7, 8]
    );
    assert_eq!(ConstValue::Int64(-1).serialize(false), vec![0xFF; 8]);
}

#[test]
fn arrays_encode_their_elements_in_order() {
    let nested = ConstValue::Array(vec![
        ConstValue::UInt8(1),
        ConstValue::Array(vec![ConstValue::UInt8(2), ConstValue::Int64(3)]),
        ConstValue::Array(vec![]),
        ConstValue::UInt8(4),
    ]);
    assert_eq!(nested.serialize(false), vec![1, 2, 3, 0, 0, 0, 0, 0, 0, 0, 4]);
    assert_eq!(nested.serialize(true), vec![1, 2, 0, 0, 0, 0, 0, 0, 0, 3, 4]);
    assert!(ConstValue::Array(vec![]).serialize(false).is_empty());
}

#[test]
fn sample_unit() {
    let unit = get_example_translation_unit();
    assert_eq!(unit.name, "cook");
    assert_eq!(unit.functions.len(), 1);
    let function = &unit.functions[0];
    assert_eq!(function.name, "_start");
    let block = &function.start_block;
    assert!(matches!(block.terminator, Some(Terminator::Return)));
    assert_eq!(block.instructions.len(), 5);
    assert!(matches!(&block.instructions[0], Instruction::Asm(code)
        if *code == vec![0x6A, 0x1, 0x58, 0x6A, 0x1, 0x5F, 0x48, 0xbe]));
    match &block.instructions[1] {
        Instruction::AsmValue(Value::ConstRef(constant)) => {
            assert_eq!(constant.serialize(false), b"Hello, World!\n\0".to_vec())
        }
        _ => panic!("not a referenced constant"),
    }
    assert!(matches!(&block.instructions[2], Instruction::Asm(code)
        if *code == vec![0x6a, 14, 0x5a, 0x0f, 0x05, 0x6a, 0x3c, 0x58, 0x48, 0xbf]));
    assert!(matches!(
        &block.instructions[3],
        Instruction::AsmValue(Value::Const(ConstValue::Int64(0)))
    ));
    assert!(matches!(&block.instructions[4], Instruction::Asm(code) if *code == vec![0x0f, 0x05]));
}

#[test]
fn copies_are_the_same_constants() {
    let nested = ConstValue::Array(vec![
        ConstValue::UInt8(1),
        ConstValue::Array(vec![ConstValue::Int64(-3), ConstValue::Array(vec![])]),
    ]);
    let copy = nested.clone();
    assert_eq!(copy.serialize(false), nested.serialize(false));
    match copy {
        ConstValue::Array(elements) => {
            assert_eq!(elements.len(), 2);
            assert!(matches!(elements[0], ConstValue::UInt8(1)));
            match &elements[1] {
                ConstValue::Array(inner) => {
                    assert_eq!(inner.len(), 2);
                    assert!(matches!(inner[0], ConstValue::Int64(-3)));
                    assert!(matches!(&inner[1], ConstValue::Array(none) if none.is_empty()));
                }
                _ => panic!("not an array"),
            }
        }
        _ => panic!("not an array"),
    }
}

#[test]
fn copies_are_the_same_blocks() {
    let target = Block::from(vec![Instruction::Asm(vec![0x90])], Terminator::Return);
    let block = Block::from(
        vec![
            Instruction::Asm(vec![1, 2, 3]),
            Instruction::AsmValue(Value::const_str("s".to_owned())),
            Instruction::AsmValue(Value::const_i64(9)),
        ],
        Terminator::Jump(Box::new(target)),
    );
    let copy = block.clone();
    assert_eq!(copy.instructions.len(), 3);
    assert!(matches!(&copy.instructions[0], Instruction::Asm(code) if *code == vec![1, 2, 3]));
    match &copy.instructions[1] {
        Instruction::AsmValue(Value::ConstRef(constant)) => {
            assert_eq!(constant.serialize(false), vec![b's', 0])
        }
        _ => panic!("not a referenced constant"),
    }
    assert!(matches!(
        &copy.instructions[2],
        Instruction::AsmValue(Value::Const(ConstValue::Int64(9)))
    ));
    match &copy.terminator {
        Some(Terminator::Jump(target)) => {
            assert_eq!(target.instructions.len(), 1);
            assert!(matches!(target.terminator, Some(Terminator::Return)));
        }
        _ => panic!("not a jump"),
    }
    let open = Block::new().clone();
    assert!(open.instructions.is_empty());
    assert!(open.terminator.is_none());
}
