//! Copies of the intermediate representation, and what makes two values of
//! it the same: not where they are stored, but what they say.

use crate::ir::{Block, ConstValue, Instruction, Terminator, Value};
use vstd::prelude::*;

verus! {

impl ConstValue {
    /// `self` and `other` are the same constant: scalars of the same kind and
    /// value, or arrays of the same length whose elements are the same constants.
    pub open spec fn alike(self, other: ConstValue) -> bool
        decreases self,
    {
        match self {
            ConstValue::UInt8(num) => other == ConstValue::UInt8(num),
            ConstValue::Int64(num) => other == ConstValue::Int64(num),
            ConstValue::Array(vals) => other matches ConstValue::Array(others) && Self::all_alike(
                vals@,
                others@,
                vals@.len(),
            ),
        }
    }

    /// `vals` and `others` have the same length, and their first `count`
    /// elements are the same constants.
    pub open spec fn all_alike(vals: Seq<ConstValue>, others: Seq<ConstValue>, count: nat) -> bool
        decreases vals, count,
    {
        &&& vals.len() == others.len()
        &&& count <= vals.len()
        &&& count > 0 ==> Self::all_alike(vals, others, (count - 1) as nat) && vals[count
            - 1].alike(others[count - 1])
    }
}

impl Clone for ConstValue {
    fn clone(&self) -> (res: Self)
        ensures
            self.alike(res),
        decreases self,
    {
        match self {
            ConstValue::UInt8(num) => ConstValue::UInt8(*num),
            ConstValue::Int64(num) => ConstValue::Int64(*num),
            ConstValue::Array(vals) => {
                let mut others: Vec<ConstValue> = Vec::new();
                let mut i: usize = 0;
                while i < vals.len()
                    invariant
                        i <= vals@.len(),
                        others@.len() == i,
                        decreases_to!(*self => vals@),
                        forall|j: int| 0 <= j < i ==> (#[trigger] vals@[j]).alike(others@[j]),
                    decreases vals@.len() - i,
                {
                    others.push(vals[i].clone());
                    i = i + 1;
                }
                proof {
                    Self::lemma_all_alike(vals@, others@, vals@.len());
                }
                ConstValue::Array(others)
            },
        }
    }
}

impl ConstValue {
    /// Constants that are the same one by one are the same all together.
    proof fn lemma_all_alike(vals: Seq<ConstValue>, others: Seq<ConstValue>, count: nat)
        requires
            vals.len() == others.len(),
            count <= vals.len(),
            forall|j: int| 0 <= j < count ==> (#[trigger] vals[j]).alike(others[j]),
        ensures
            Self::all_alike(vals, others, count),
        decreases count,
    {
        if count > 0 {
            Self::lemma_all_alike(vals, others, (count - 1) as nat);
        }
    }

    /// The same constants have the same encoding.
    pub proof fn lemma_alike_encoding(self, other: ConstValue, big_endian: bool)
        requires
            self.alike(other),
        ensures
            self.encoding(big_endian) == other.encoding(big_endian),
        decreases self,
    {
        match self {
            ConstValue::Array(vals) => {
                let others = other->Array_0;
                Self::lemma_all_alike_encoding(vals@, others@, vals@.len(), big_endian);
            },
            _ => {},
        }
    }

    /// The first of two runs of the same constants have the same encoding.
    proof fn lemma_all_alike_encoding(
        vals: Seq<ConstValue>,
        others: Seq<ConstValue>,
        count: nat,
        big_endian: bool,
    )
        requires
            Self::all_alike(vals, others, count),
        ensures
            Self::encoding_of_first(vals, count, big_endian) == Self::encoding_of_first(
                others,
                count,
                big_endian,
            ),
        decreases vals, count,
    {
        if count > 0 {
            Self::lemma_all_alike_encoding(vals, others, (count - 1) as nat, big_endian);
            vals[count - 1].lemma_alike_encoding(others[count - 1], big_endian);
        }
    }
}

impl Value {
    /// `self` and `other` carry the same constant in the same way.
    pub open spec fn alike(self, other: Value) -> bool {
        match self {
            Value::Const(val) => other matches Value::Const(other_val) && val.alike(other_val),
            Value::ConstRef(val) => other matches Value::ConstRef(other_val) && val.alike(
                other_val,
            ),
        }
    }
}

impl Clone for Value {
    fn clone(&self) -> (res: Self)
        ensures
            self.alike(res),
    {
        match self {
            Value::Const(val) => Value::Const(val.clone()),
            Value::ConstRef(val) => Value::ConstRef(val.clone()),
        }
    }
}

impl Instruction {
    /// `self` and `other` are the same instruction: the same machine code, or
    /// the same value.
    pub open spec fn alike(self, other: Instruction) -> bool {
        match self {
            Instruction::Asm(code) => other matches Instruction::Asm(other_code) && code@
                == other_code@,
            Instruction::AsmValue(value) => other matches Instruction::AsmValue(other_value)
                && value.alike(other_value),
        }
    }
}

impl Clone for Instruction {
    fn clone(&self) -> (res: Self)
        ensures
            self.alike(res),
    {
        match self {
            Instruction::Asm(code) => Instruction::Asm(code.clone()),
            Instruction::AsmValue(value) => Instruction::AsmValue(value.clone()),
        }
    }
}

impl Terminator {
    /// `self` and `other` end a block in the same way: both return, or both
    /// jump to the same block.
    pub open spec fn alike(self, other: Terminator) -> bool
        decreases self,
    {
        match self {
            Terminator::Return => other is Return,
            Terminator::Jump(target) => other matches Terminator::Jump(other_target)
                && target.alike(*other_target),
        }
    }
}

impl Block {
    /// `self` and `other` are the same block: the same instructions in the
    /// same order, and the same terminator or none.
    pub open spec fn alike(self, other: Block) -> bool
        decreases self,
    {
        &&& self.instructions@.len() == other.instructions@.len()
        &&& forall|i: int|
            0 <= i < self.instructions@.len() ==> (#[trigger] self.instructions@[i]).alike(
                other.instructions@[i],
            )
        &&& match self.terminator {
            Some(terminator) => other.terminator matches Some(other_terminator)
                && terminator.alike(other_terminator),
            None => other.terminator is None,
        }
    }
}

impl Clone for Terminator {
    fn clone(&self) -> (res: Self)
        ensures
            self.alike(res),
        decreases self,
    {
        match self {
            Terminator::Return => Terminator::Return,
            Terminator::Jump(target) => Terminator::Jump(Box::new((&**target).clone())),
        }
    }
}

impl Clone for Block {
    fn clone(&self) -> (res: Self)
        ensures
            self.alike(res),
        decreases self,
    {
        let mut instructions: Vec<Instruction> = Vec::new();
        let mut i: usize = 0;
        while i < self.instructions.len()
            invariant
                i <= self.instructions@.len(),
                instructions@.len() == i,
                forall|j: int|
                    0 <= j < i ==> (#[trigger] self.instructions@[j]).alike(instructions@[j]),
            decreases self.instructions@.len() - i,
        {
            instructions.push(self.instructions[i].clone());
            i = i + 1;
        }
        let terminator = match &self.terminator {
            Some(terminator) => Some(terminator.clone()),
            None => None,
        };
        Block { instructions, terminator }
    }
}

} // verus!
