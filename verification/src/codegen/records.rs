//! What the symbols and the relocations say of the code and the constant
//! data: every function symbol spans the code of its function, and every
//! relocation binds a placeholder in the code to a constant in the data.

use crate::codegen::emission::{
    block_code, constants_data, functions_code, functions_refs, instructions_refs,
    lemma_constants_data_concat, placeholder, value_refs, Emitted,
};
use crate::codegen::x64_elf::{Section, ADDRESS_SIZE, SYMBOL_TYPE_FUNCTION, SYMBOL_TYPE_OBJECT};
use crate::ir::{ConstValue, Function, Instruction, Value};
use crate::outputs::serialization::range;
use vstd::prelude::*;

verus! {

/// Where the symbol of function `index` stands among the symbols of
/// `functions`: after the symbols of the functions before it, and after the
/// symbols of the constants that these and the function itself refer to.
pub open spec fn function_symbol_index(functions: Seq<Function>, index: int) -> int {
    index + functions_refs(functions.take(index + 1)).len()
}

impl Emitted {
    /// Relocation `index` binds a place in the code to `constant`: the place
    /// holds the placeholder, and the relocation names an anonymous object
    /// symbol of the size of an address that points at the encoding of
    /// `constant` in the constant data.
    pub open spec fn binds(self, index: int, constant: ConstValue) -> bool {
        let relocation = self.relocations[index];
        let symbol = self.symbols[relocation.src_symbol - 1];
        &&& 0 <= index < self.relocations.len()
        &&& 1 <= relocation.src_symbol <= self.symbols.len()
        &&& relocation.dst_section == Section::Text
        &&& relocation.dst_offset + ADDRESS_SIZE <= self.text.len()
        &&& range(self.text, relocation.dst_offset, ADDRESS_SIZE as nat) == placeholder()
        &&& symbol.section == Section::Rodata
        &&& symbol.elf_type == SYMBOL_TYPE_OBJECT
        &&& symbol.name is None
        &&& symbol.size == ADDRESS_SIZE
        &&& symbol.offset + constant.encoding(false).len() <= self.rodata.len()
        &&& range(self.rodata, symbol.offset, constant.encoding(false).len())
            == constant.encoding(false)
    }

    /// The relocations are those of `constants`: one for each, in order.
    pub open spec fn binds_all(self, constants: Seq<ConstValue>) -> bool {
        &&& self.relocations.len() == constants.len()
        &&& forall|index: int| 0 <= index < constants.len() ==> self.binds(index, constants[index])
    }

    /// Symbol `index` is the symbol of `function`: a function symbol under
    /// the function's name whose range of the code section is exactly the
    /// code of the function's block, terminator included.
    pub open spec fn spans(self, index: int, function: Function) -> bool {
        let symbol = self.symbols[index];
        let code = block_code(*function.start_block);
        &&& 0 <= index < self.symbols.len()
        &&& symbol.section == Section::Text
        &&& symbol.elf_type == SYMBOL_TYPE_FUNCTION
        &&& symbol.name == Some(function.name@)
        &&& symbol.size == code.len()
        &&& symbol.offset + symbol.size <= self.text.len()
        &&& range(self.text, symbol.offset, symbol.size) == code
    }

    /// Where a constant takes exactly the size of an address, the offset and
    /// the size of its symbol mark exactly its encoding in the constant data.
    pub proof fn lemma_symbol_marks_constant(self, index: int, constant: ConstValue)
        requires
            self.binds(index, constant),
            constant.encoding(false).len() == ADDRESS_SIZE,
        ensures
            ({
                let symbol = self.symbols[self.relocations[index].src_symbol - 1];
                range(self.rodata, symbol.offset, symbol.size) == constant.encoding(false)
            }),
    {
    }

    /// What a relocation binds, it goes on binding whatever is emitted later.
    pub proof fn lemma_binds_later(self, later: Emitted, index: int, constant: ConstValue)
        requires
            later.extends(self),
            self.binds(index, constant),
        ensures
            later.binds(index, constant),
    {
        let relocation = self.relocations[index];
        let symbol = self.symbols[relocation.src_symbol - 1];
        assert(range(later.text, relocation.dst_offset, ADDRESS_SIZE as nat) =~= range(
            self.text,
            relocation.dst_offset,
            ADDRESS_SIZE as nat,
        ));
        assert(range(later.rodata, symbol.offset, constant.encoding(false).len()) =~= range(
            self.rodata,
            symbol.offset,
            constant.encoding(false).len(),
        ));
    }

    /// What a function symbol spans, it goes on spanning whatever is emitted later.
    pub proof fn lemma_spans_later(self, later: Emitted, index: int, function: Function)
        requires
            later.extends(self),
            self.spans(index, function),
        ensures
            later.spans(index, function),
    {
        let symbol = self.symbols[index];
        assert(range(later.text, symbol.offset, symbol.size) =~= range(
            self.text,
            symbol.offset,
            symbol.size,
        ));
    }

    /// All relocations go on binding their constants whatever is emitted later
    /// without a new relocation.
    proof fn lemma_binds_all_later(self, later: Emitted, constants: Seq<ConstValue>)
        requires
            later.extends(self),
            later.relocations.len() == self.relocations.len(),
            self.binds_all(constants),
        ensures
            later.binds_all(constants),
    {
        assert forall|index: int| 0 <= index < constants.len() implies later.binds(
            index,
            constants[index],
        ) by {
            self.lemma_binds_later(later, index, constants[index]);
        }
    }

    /// Emitting a value that refers to a constant adds the relocation that
    /// binds the constant.
    pub proof fn lemma_emit_reference_binds(self, constant: ConstValue)
        ensures
            self.emit_value(Value::ConstRef(constant)).binds(
                self.relocations.len() as int,
                constant,
            ),
    {
        let after = self.emit_value(Value::ConstRef(constant));
        let relocation = after.relocations[self.relocations.len() as int];
        let symbol = after.symbols[relocation.src_symbol - 1];
        assert(range(after.text, relocation.dst_offset, ADDRESS_SIZE as nat) =~= placeholder());
        assert(range(after.rodata, symbol.offset, constant.encoding(false).len())
            =~= constant.encoding(false));
    }

    /// Emitting a value that refers to a constant adds the relocation that
    /// binds it to those that bind the earlier ones; emitting any other value
    /// adds none.
    pub proof fn lemma_emit_value_binds(self, value: Value, constants: Seq<ConstValue>)
        requires
            self.binds_all(constants),
        ensures
            self.emit_value(value).binds_all(constants + value_refs(value)),
    {
        let after = self.emit_value(value);
        let all = constants + value_refs(value);
        self.lemma_emit_value_extends(value);
        match value {
            Value::Const(_) => {
                self.lemma_binds_all_later(after, constants);
            },
            Value::ConstRef(val) => {
                assert forall|index: int| 0 <= index < all.len() implies after.binds(
                    index,
                    all[index],
                ) by {
                    if index < constants.len() {
                        self.lemma_binds_later(after, index, constants[index]);
                    } else {
                        self.lemma_emit_reference_binds(val);
                    }
                }
            },
        }
    }

    /// Emitting instructions adds the relocations that bind their constants.
    pub proof fn lemma_emit_instructions_binds(
        self,
        instructions: Seq<Instruction>,
        constants: Seq<ConstValue>,
    )
        requires
            self.binds_all(constants),
        ensures
            self.emit_instructions(instructions).binds_all(
                constants + instructions_refs(instructions),
            ),
        decreases instructions.len(),
    {
        if instructions.len() > 0 {
            let before = self.emit_instructions(instructions.drop_last());
            let known = constants + instructions_refs(instructions.drop_last());
            self.lemma_emit_instructions_binds(instructions.drop_last(), constants);
            match instructions.last() {
                Instruction::Asm(_) => {
                    let after = before.emit_instruction(instructions.last());
                    before.lemma_emit_instruction_extends(instructions.last());
                    before.lemma_binds_all_later(after, known);
                },
                Instruction::AsmValue(value) => {
                    before.lemma_emit_value_binds(value, known);
                    assert(constants + instructions_refs(instructions) =~= known + value_refs(
                        value,
                    ));
                },
            }
        }
    }

    /// Emitting a function adds the relocations that bind its constants.
    pub proof fn lemma_emit_function_binds(self, function: Function, constants: Seq<ConstValue>)
        requires
            self.binds_all(constants),
        ensures
            self.emit_function(function).binds_all(
                constants + instructions_refs(function.start_block.instructions@),
            ),
    {
        let block = *function.start_block;
        let body = self.emit_instructions(block.instructions@);
        self.lemma_emit_instructions_binds(block.instructions@, constants);
        let after = self.emit_function(function);
        body.lemma_binds_all_later(after, constants + instructions_refs(block.instructions@));
    }

    /// Every relocation binds its constant: after `functions` are emitted,
    /// the relocations are the earlier ones and then one for each constant
    /// that the functions refer to, in order. Each names the symbol of its
    /// constant, which points at the constant's encoding in the constant
    /// data, and the code holds the placeholder at the relocation's offset.
    pub proof fn lemma_emit_functions_binds(
        self,
        functions: Seq<Function>,
        constants: Seq<ConstValue>,
    )
        requires
            self.binds_all(constants),
        ensures
            self.emit_functions(functions).binds_all(constants + functions_refs(functions)),
        decreases functions.len(),
    {
        if functions.len() > 0 {
            let before = self.emit_functions(functions.drop_last());
            let known = constants + functions_refs(functions.drop_last());
            self.lemma_emit_functions_binds(functions.drop_last(), constants);
            before.lemma_emit_function_binds(functions.last(), known);
            assert(constants + functions_refs(functions) =~= known + instructions_refs(
                functions.last().start_block.instructions@,
            ));
        }
    }

    /// In what a fresh generator emits for `functions`, there is one
    /// relocation for each constant that the functions refer to by address, in
    /// order, and each binds its constant.
    pub proof fn lemma_unit_relocations_bind(functions: Seq<Function>)
        ensures
            Emitted::empty().emit_functions(functions).binds_all(functions_refs(functions)),
    {
        Emitted::empty().lemma_emit_functions_binds(functions, Seq::empty());
        assert(Seq::<ConstValue>::empty() + functions_refs(functions) =~= functions_refs(
            functions,
        ));
    }

    /// What emitting a function adds: the code of its block, its referenced
    /// constants with a symbol for each, and last its own symbol, which spans
    /// the code of the block.
    pub proof fn lemma_emit_function_grows(self, function: Function)
        ensures
            self.emit_function(function).grows_by(
                self,
                block_code(*function.start_block),
                instructions_refs(function.start_block.instructions@),
            ),
            self.emit_function(function).symbols.len() == self.symbols.len() + instructions_refs(
                function.start_block.instructions@,
            ).len() + 1,
            self.emit_function(function).spans(
                (self.symbols.len() + instructions_refs(
                    function.start_block.instructions@,
                ).len()) as int,
                function,
            ),
    {
        let block = *function.start_block;
        self.lemma_emit_block_grows(block);
        let after = self.emit_function(function);
        assert(range(after.text, self.text.len(), block_code(block).len()) =~= block_code(block));
    }

    /// What emitting functions adds: their code, their referenced constants,
    /// and one symbol for each function and each referenced constant.
    pub proof fn lemma_emit_functions_grows(self, functions: Seq<Function>)
        ensures
            self.emit_functions(functions).grows_by(
                self,
                functions_code(functions),
                functions_refs(functions),
            ),
            self.emit_functions(functions).symbols.len() == self.symbols.len() + functions.len()
                + functions_refs(functions).len(),
        decreases functions.len(),
    {
        let after = self.emit_functions(functions);
        if functions.len() > 0 {
            let before = self.emit_functions(functions.drop_last());
            self.lemma_emit_functions_grows(functions.drop_last());
            before.lemma_emit_function_grows(functions.last());
            lemma_constants_data_concat(
                functions_refs(functions.drop_last()),
                instructions_refs(functions.last().start_block.instructions@),
            );
            assert(after.text =~= self.text + functions_code(functions));
            assert(after.rodata =~= self.rodata + constants_data(functions_refs(functions)));
        }
    }

    /// Every function symbol spans the code of its function: after
    /// `functions` are emitted, the symbol of function `index` carries the
    /// function's name, and its offset and size mark in the code section
    /// exactly the code of the function's block, terminator included.
    pub proof fn lemma_function_symbol_spans_code(self, functions: Seq<Function>, index: int)
        requires
            0 <= index < functions.len(),
        ensures
            self.emit_functions(functions).spans(
                self.symbols.len() + function_symbol_index(functions, index),
                functions[index],
            ),
        decreases functions.len(),
    {
        let before = self.emit_functions(functions.drop_last());
        let after = self.emit_functions(functions);
        before.lemma_emit_function_extends(functions.last());
        if index < functions.len() - 1 {
            self.lemma_function_symbol_spans_code(functions.drop_last(), index);
            assert(functions.drop_last().take(index + 1) =~= functions.take(index + 1));
            before.lemma_spans_later(
                after,
                self.symbols.len() + function_symbol_index(functions, index),
                functions[index],
            );
        } else {
            assert(functions.take(index + 1) =~= functions);
            self.lemma_emit_functions_grows(functions.drop_last());
            before.lemma_emit_function_grows(functions.last());
        }
    }
}

} // verus!
