//! Translation of stack-language procedures into single-assignment code, and
//! its emission as LLVM functions.
use vstd::prelude::*;

pub mod codegen;
pub mod ops;
pub mod ssa;
pub mod translate;

pub use codegen::Compiler;
pub use ops::{Operation, Procedure, TranslationError};
pub use ssa::{Instr, Unit};
pub use translate::translate;

verus! {

} // verus!
