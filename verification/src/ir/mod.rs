//! The intermediate representation: translation units of functions, each one
//! block of pre-encoded instructions and constant values.

use crate::outputs::serialization::{
    c_string_bytes, concat_serialized, int_bytes, le_bytes, lemma_int_bytes_len,
    twos_complement, Serializable, ToBytes,
};
use vstd::prelude::*;

pub mod alike;
pub mod sample;

verus! {

/// One compilation input: a named collection of functions, each under its own name.
#[derive(Debug)]
pub struct TranslationUnit {
    pub name: String,
    pub functions: Vec<Function>,
}

/// A function: its name and the block at which it is entered.
#[derive(Debug)]
pub struct Function {
    pub name: String,
    pub start_block: Box<Block>,
}

/// A run of instructions that ends in a terminator. A block can be built up
/// piece by piece, so the terminator may still be missing; such a block cannot
/// be compiled.
#[derive(Debug)]
pub struct Block {
    pub instructions: Vec<Instruction>,
    pub terminator: Option<Terminator>,
}

/// An instruction: machine code to emit as it is, or a value to materialize.
#[derive(Debug)]
pub enum Instruction {
    Asm(Vec<u8>),
    AsmValue(Value),
}

/// A constant: a scalar, or a run of constants laid out one after the other.
#[derive(Debug)]
pub enum ConstValue {
    UInt8(u8),
    Int64(i64),
    Array(Vec<ConstValue>),
}

/// How a constant reaches the code: `Const` is written into the code in place,
/// `ConstRef` is written into the constant data and referred to by address.
#[derive(Debug)]
pub enum Value {
    Const(ConstValue),
    ConstRef(ConstValue),
}

/// What ends a block: a jump to another block, or the return to the caller.
#[derive(Debug)]
pub enum Terminator {
    Jump(Box<Block>),
    Return,
}

impl ConstValue {
    /// The bytes of the constant: a scalar in the chosen byte order (a signed one
    /// in two's complement), an array as the encodings of its elements in order.
    pub open spec fn encoding(self, big_endian: bool) -> Seq<u8>
        decreases self,
    {
        match self {
            ConstValue::UInt8(num) => int_bytes(num as nat, 1, big_endian),
            ConstValue::Int64(num) => int_bytes(twos_complement(num), 8, big_endian),
            ConstValue::Array(vals) => Self::encoding_of_first(vals@, vals@.len(), big_endian),
        }
    }

    /// The encodings of the first `count` of `vals`, one after the other.
    pub open spec fn encoding_of_first(
        vals: Seq<ConstValue>,
        count: nat,
        big_endian: bool,
    ) -> Seq<u8>
        decreases vals, count,
    {
        if count == 0 || count > vals.len() {
            Seq::empty()
        } else {
            Self::encoding_of_first(vals, (count - 1) as nat, big_endian)
                + vals[count - 1].encoding(big_endian)
        }
    }

    /// The byte order changes the bytes of a constant, never their number.
    pub proof fn lemma_encoding_length_ignores_byte_order(self)
        ensures
            self.encoding(true).len() == self.encoding(false).len(),
        decreases self,
    {
        match self {
            ConstValue::UInt8(num) => {
                lemma_int_bytes_len(num as nat, 1, true);
                lemma_int_bytes_len(num as nat, 1, false);
            },
            ConstValue::Int64(num) => {
                lemma_int_bytes_len(twos_complement(num), 8, true);
                lemma_int_bytes_len(twos_complement(num), 8, false);
            },
            ConstValue::Array(vals) => {
                Self::lemma_encoding_of_first_length(vals@, vals@.len());
            },
        }
    }

    /// The byte order does not change the length of the encodings of the first
    /// `count` of `vals` either.
    proof fn lemma_encoding_of_first_length(vals: Seq<ConstValue>, count: nat)
        ensures
            Self::encoding_of_first(vals, count, true).len() == Self::encoding_of_first(
                vals,
                count,
                false,
            ).len(),
        decreases vals, count,
    {
        if count != 0 && count <= vals.len() {
            Self::lemma_encoding_of_first_length(vals, (count - 1) as nat);
            vals[count - 1].lemma_encoding_length_ignores_byte_order();
        }
    }

    /// An array encodes as its elements do when serialized in a row.
    pub proof fn lemma_array_encoding(vals: Vec<ConstValue>, big_endian: bool)
        ensures
            ConstValue::Array(vals).encoding(big_endian) == vals.spec_serialize(big_endian),
    {
        Self::lemma_encoding_of_first_is_concat(vals@, vals@.len(), big_endian);
        assert(vals@.take(vals@.len() as int) =~= vals@);
    }

    /// The encodings of the first `count` of `vals` are what these encode to
    /// when serialized in a row.
    proof fn lemma_encoding_of_first_is_concat(
        vals: Seq<ConstValue>,
        count: nat,
        big_endian: bool,
    )
        requires
            count <= vals.len(),
        ensures
            Self::encoding_of_first(vals, count, big_endian) == concat_serialized(
                vals.take(count as int),
                big_endian,
            ),
        decreases count,
    {
        if count > 0 {
            Self::lemma_encoding_of_first_is_concat(vals, (count - 1) as nat, big_endian);
            assert(vals.take(count as int).drop_last() =~= vals.take(count - 1));
        }
    }
}

impl Serializable for ConstValue {
    open spec fn spec_serialize(&self, big_endian: bool) -> Seq<u8> {
        self.encoding(big_endian)
    }

    proof fn lemma_length_ignores_byte_order(&self) {
        self.lemma_encoding_length_ignores_byte_order();
    }

    fn serialize(&self, big_endian: bool) -> (bytes: Vec<u8>)
        decreases self,
    {
        match self {
            Self::UInt8(num) => num.to_bytes(big_endian),
            Self::Int64(num) => num.to_bytes(big_endian),
            Self::Array(vals) => {
                let mut bytes: Vec<u8> = Vec::new();
                let mut i: usize = 0;
                while i < vals.len()
                    invariant
                        i <= vals@.len(),
                        *self == ConstValue::Array(*vals),
                        decreases_to!(*self => vals@),
                        bytes@ == ConstValue::encoding_of_first(vals@, i as nat, big_endian),
                    decreases vals@.len() - i,
                {
                    let mut element = vals[i].serialize(big_endian);
                    bytes.append(&mut element);
                    i = i + 1;
                }
                bytes
            },
        }
    }
}

/// The constants that stand for `bytes`, one unsigned 8-bit scalar for each.
pub open spec fn byte_constants(bytes: Seq<u8>) -> Seq<ConstValue> {
    bytes.map_values(|byte: u8| ConstValue::UInt8(byte))
}

/// An array of byte constants encodes as those bytes, in either byte order.
pub proof fn lemma_byte_constants_encoding(bytes: Seq<u8>, count: nat, big_endian: bool)
    requires
        count <= bytes.len(),
    ensures
        ConstValue::encoding_of_first(byte_constants(bytes), count, big_endian) == bytes.take(
            count as int,
        ),
    decreases count,
{
    let constants = byte_constants(bytes);
    if count > 0 {
        lemma_byte_constants_encoding(bytes, (count - 1) as nat, big_endian);
        let byte = bytes[count - 1];
        assert(le_bytes(byte as nat, 1) =~= seq![byte]) by {
            reveal_with_fuel(le_bytes, 2);
        }
        assert(constants[count - 1].encoding(big_endian) == seq![byte]);
    }
}

impl Value {
    /// The constant that the value carries.
    pub open spec fn constant(self) -> ConstValue {
        match self {
            Value::Const(val) => val,
            Value::ConstRef(val) => val,
        }
    }

    /// A 64-bit signed number, written into the code in place.
    pub fn const_i64(num: i64) -> (value: Value)
        ensures
            value == Value::Const(ConstValue::Int64(num)),
    {
        Value::Const(ConstValue::Int64(num))
    }

    /// A null-terminated text in the constant data, referred to by address.
    pub fn const_str(string: String) -> (value: Value)
        ensures
            value matches Value::ConstRef(ConstValue::Array(elements)) && elements@
                == byte_constants(c_string_bytes(string@)),
            forall|big_endian: bool|
                #[trigger] value.constant().encoding(big_endian) == c_string_bytes(string@),
    {
        let bytes = string.serialize(false);
        let mut elements: Vec<ConstValue> = Vec::new();
        let mut i: usize = 0;
        while i < bytes.len()
            invariant
                i <= bytes@.len(),
                elements@ == byte_constants(bytes@.take(i as int)),
            decreases bytes@.len() - i,
        {
            elements.push(ConstValue::UInt8(bytes[i]));
            i = i + 1;
        }
        proof {
            assert(bytes@.take(i as int) =~= bytes@);
            assert forall|big_endian: bool|
                #[trigger] ConstValue::Array(elements).encoding(big_endian) == bytes@ by {
                lemma_byte_constants_encoding(bytes@, bytes@.len(), big_endian);
            }
        }
        Value::ConstRef(ConstValue::Array(elements))
    }
}

impl Block {
    /// Whether the block has its terminator.
    pub fn has_terminator(&self) -> (terminated: bool)
        ensures
            terminated == (self.terminator is Some),
    {
        self.terminator.is_some()
    }

    /// A block with no instruction and no terminator yet.
    pub fn new() -> (block: Block)
        ensures
            block.instructions@ == Seq::<Instruction>::empty(),
            block.terminator is None,
    {
        Block { instructions: vec![], terminator: None }
    }

    /// A finished block.
    pub fn from(instructions: Vec<Instruction>, terminator: Terminator) -> (block: Block)
        ensures
            block.instructions == instructions,
            block.terminator == Some(terminator),
    {
        Block { instructions: instructions, terminator: Some(terminator) }
    }

    /// Ends the block with `terminator`, in place of the one it had, if any.
    pub fn set_terminator(&mut self, terminator: Terminator)
        ensures
            final(self).instructions == old(self).instructions,
            final(self).terminator == Some(terminator),
    {
        self.terminator = Some(terminator);
    }

    /// Adds `instruction` after those that the block holds.
    pub fn add_instruction(&mut self, instruction: Instruction)
        ensures
            final(self).instructions@ == old(self).instructions@.push(instruction),
            final(self).terminator == old(self).terminator,
    {
        self.instructions.push(instruction);
    }
}

impl Function {
    /// A function called `name` that is entered at `start_block`.
    pub fn new(name: &'static str, start_block: Block) -> (function: Function)
        ensures
            function.name@ == name@,
            *function.start_block == start_block,
    {
        Function { name: name.to_owned(), start_block: Box::new(start_block) }
    }
}

/// The position of the first of `functions` that is called `name`, or their
/// number if none is.
pub open spec fn index_of_name(functions: Seq<Function>, name: Seq<char>) -> int
    decreases functions.len(),
{
    if functions.len() == 0 || functions.first().name@ == name {
        0
    } else {
        1 + index_of_name(functions.drop_first(), name)
    }
}

/// `functions` with `function` under its name: in the place of the function
/// that had the name, or at the end if none had it.
pub open spec fn insert_function(functions: Seq<Function>, function: Function) -> Seq<Function> {
    let index = index_of_name(functions, function.name@);
    if index < functions.len() {
        functions.update(index, function)
    } else {
        functions.push(function)
    }
}

/// No two of `functions` share a name.
pub open spec fn names_unique(functions: Seq<Function>) -> bool {
    forall|i: int, j: int|
        0 <= i < j < functions.len() ==> functions[i].name@ != functions[j].name@
}

/// `index_of_name` is the one position before which no function is called
/// `name` and at which one is, or the list ends.
pub proof fn lemma_index_of_name(functions: Seq<Function>, name: Seq<char>, index: int)
    requires
        0 <= index <= functions.len(),
        forall|j: int| 0 <= j < index ==> functions[j].name@ != name,
        index < functions.len() ==> functions[index].name@ == name,
    ensures
        index_of_name(functions, name) == index,
    decreases functions.len(),
{
    if functions.len() > 0 && index > 0 {
        let rest = functions.drop_first();
        assert forall|j: int| 0 <= j < index - 1 implies rest[j].name@ != name by {}
        lemma_index_of_name(rest, name, index - 1);
    }
}

/// What `index_of_name` finds: the first position of the name.
pub proof fn lemma_index_of_name_bounds(functions: Seq<Function>, name: Seq<char>)
    ensures
        0 <= index_of_name(functions, name) <= functions.len(),
        forall|j: int| 0 <= j < index_of_name(functions, name) ==> functions[j].name@ != name,
        index_of_name(functions, name) < functions.len() ==> functions[index_of_name(
            functions,
            name,
        )].name@ == name,
    decreases functions.len(),
{
    if functions.len() > 0 && functions.first().name@ != name {
        let rest = functions.drop_first();
        lemma_index_of_name_bounds(rest, name);
        let index = index_of_name(functions, name);
        assert forall|j: int| 0 <= j < index implies functions[j].name@ != name by {
            if j > 0 {
                assert(rest[j - 1] == functions[j]);
            }
        }
    }
}

/// Inserting a function keeps the names of a unit distinct.
pub proof fn lemma_insert_keeps_names_unique(functions: Seq<Function>, function: Function)
    requires
        names_unique(functions),
    ensures
        names_unique(insert_function(functions, function)),
{
    let name = function.name@;
    let index = index_of_name(functions, name);
    lemma_index_of_name_bounds(functions, name);
    let after = insert_function(functions, function);
    assert forall|i: int, j: int| 0 <= i < j < after.len() implies after[i].name@
        != after[j].name@ by {
        if index < functions.len() {
        } else if j < functions.len() {
        }
    }
}

impl TranslationUnit {
    /// Every function of the unit has a name of its own.
    pub open spec fn wf(self) -> bool {
        names_unique(self.functions@)
    }

    /// Every function of the unit is entered at a block that has its terminator.
    pub open spec fn compilable(self) -> bool {
        forall|i: int|
            0 <= i < self.functions@.len() ==> (
            #[trigger] self.functions@[i]).start_block.terminator is Some
    }

    /// Whether the unit can be compiled.
    pub fn is_compilable(&self) -> (compilable: bool)
        ensures
            compilable == self.compilable(),
    {
        let mut i: usize = 0;
        while i < self.functions.len()
            invariant
                i <= self.functions@.len(),
                forall|j: int|
                    0 <= j < i ==> (#[trigger] self.functions@[j]).start_block.terminator is Some,
            decreases self.functions@.len() - i,
        {
            if !self.functions[i].start_block.has_terminator() {
                return false;
            }
            i = i + 1;
        }
        true
    }

    /// A unit called `name` without functions.
    pub fn new(name: &'static str) -> (unit: TranslationUnit)
        ensures
            unit.name@ == name@,
            unit.functions@ == Seq::<Function>::empty(),
            unit.wf(),
    {
        TranslationUnit { name: name.to_owned(), functions: Vec::new() }
    }

    /// Puts `function` into the unit under its name. A function that the unit
    /// held under that name is replaced where it stood; a new name goes last.
    pub fn add_function(&mut self, function: Function)
        ensures
            final(self).name == old(self).name,
            final(self).functions@ == insert_function(old(self).functions@, function),
            old(self).wf() ==> final(self).wf(),
    {
        proof {
            if self.wf() {
                lemma_insert_keeps_names_unique(self.functions@, function);
            }
        }
        let mut i: usize = 0;
        while i < self.functions.len()
            invariant
                *self == *old(self),
                i <= self.functions@.len(),
                forall|j: int| 0 <= j < i ==> self.functions@[j].name@ != function.name@,
            decreases self.functions@.len() - i,
        {
            if self.functions[i].name == function.name {
                proof {
                    lemma_index_of_name(self.functions@, function.name@, i as int);
                }
                self.functions[i] = function;
                return;
            }
            i = i + 1;
        }
        proof {
            lemma_index_of_name(self.functions@, function.name@, i as int);
        }
        self.functions.push(function);
    }
}

} // verus!
