//! Code generation: from a translation unit to an output format.

use crate::ir::TranslationUnit;
use vstd::prelude::*;

pub mod emission;
pub mod image;
pub mod object;
pub mod records;
pub mod x64_elf;

verus! {

/// A code generator for one target and one output format.
pub trait Codegen {
    type OutputFormat;

    /// Compiles every function of `translation_unit`. A unit with a block
    /// that lacks its terminator is no input.
    fn compile_translation_unit(&mut self, translation_unit: TranslationUnit) -> Self::OutputFormat
        requires
            translation_unit.compilable(),
    ;
}

} // verus!
