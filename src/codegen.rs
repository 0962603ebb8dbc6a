use vstd::prelude::*;

use inkwell::builder::{Builder, BuilderError};
use inkwell::context::Context;
use inkwell::module::Module;
use inkwell::values::{FunctionValue, IntValue};

use crate::ops::{outcome, Operation, Procedure, TranslationError};
use crate::ssa::{lemma_values_well_formed, operands_before, values, Instr};
use crate::translate::{fits, translate};

verus! {

#[verifier::external_type_specification]
#[verifier::external_body]
pub struct ExContext(Context);

#[verifier::external_type_specification]
#[verifier::external_body]
pub struct ExBuilder<'ctx>(Builder<'ctx>);

#[verifier::external_type_specification]
#[verifier::external_body]
pub struct ExModule<'ctx>(Module<'ctx>);

#[verifier::external_type_specification]
#[verifier::external_body]
pub struct ExIntValue<'ctx>(IntValue<'ctx>);

#[verifier::external_type_specification]
#[verifier::external_body]
pub struct ExFunctionValue<'ctx>(FunctionValue<'ctx>);

#[verifier::external_type_specification]
#[verifier::external_body]
pub struct ExBuilderError(BuilderError);

/// Emits procedures into an LLVM module through a builder of the same context.
pub struct Compiler<'a, 'ctx> {
    pub builder: &'a Builder<'ctx>,
    pub context: &'ctx Context,
    pub module: &'a Module<'ctx>,
    /// The output intrinsic that `Print` calls: a function taking one 64-bit integer.
    pub output: Option<FunctionValue<'ctx>>,
}

/// Whether position `i` holds the first `Print` of `ops`.
pub open spec fn first_print(ops: Seq<Operation>, i: int) -> bool {
    &&& 0 <= i < ops.len()
    &&& ops[i] is Print
    &&& forall|j: int| 0 <= j < i ==> !(ops[j] is Print)
}

pub open spec fn prints(ops: Seq<Operation>) -> bool {
    exists|i: int| 0 <= i < ops.len() && ops[i] is Print
}

/// What compiling `ops` may give: the translation error if there is one; else, where the
/// procedure prints and no output intrinsic is supplied, that error at the first `Print`;
/// else the emitted function, unless the backend rejects it.
pub open spec fn compiles_to<T>(ops: Seq<Operation>, has_output: bool, r: Result<T, TranslationError>) -> bool {
    match outcome(ops) {
        Err(e) => r == Err::<T, TranslationError>(e),
        Ok(_) => if !has_output && prints(ops) {
            exists|i: int|
                first_print(ops, i) && r == Err::<T, TranslationError>(
                    TranslationError::OutputUnavailable { index: i as usize },
                )
        } else {
            r is Ok || r == Err::<T, TranslationError>(TranslationError::MalformedUnit)
        },
    }
}

/// Compiling the same operations twice, into fresh contexts, fails in the same way
/// wherever the procedure itself is at fault; only the backend may still reject a unit.
pub proof fn lemma_compile_deterministic<T, U>(
    ops: Seq<Operation>,
    has_output: bool,
    r1: Result<T, TranslationError>,
    r2: Result<U, TranslationError>,
)
    requires
        compiles_to(ops, has_output, r1),
        compiles_to(ops, has_output, r2),
    ensures
        r1 is Err && r1->Err_0 != TranslationError::MalformedUnit ==> r2 is Err && r2->Err_0
            == r1->Err_0,
{
    if outcome(ops) is Ok && !has_output && prints(ops) {
        let i1 = choose|i: int|
            first_print(ops, i) && r1 == Err::<T, TranslationError>(
                TranslationError::OutputUnavailable { index: i as usize },
            );
        let i2 = choose|i: int|
            first_print(ops, i) && r2 == Err::<U, TranslationError>(
                TranslationError::OutputUnavailable { index: i as usize },
            );
        if i1 < i2 {
            assert(!(ops[i1] is Print));
        } else if i2 < i1 {
            assert(!(ops[i2] is Print));
        }
    }
}

/// Relies on `Context::i64_type`, `IntType::fn_type` and `Module::add_function`:
/// declares a function named `name` that takes nothing and returns a 64-bit integer.
#[verifier::external_body]
fn declare_unit<'ctx>(context: &'ctx Context, module: &Module<'ctx>, name: &str) -> FunctionValue<'ctx> {
    module.add_function(name, context.i64_type().fn_type(&[], false), None)
}

/// Relies on `Context::append_basic_block` and `Builder::position_at_end`:
/// opens the entry block of `f` and emits from its end.
#[verifier::external_body]
fn open_entry<'ctx>(context: &'ctx Context, builder: &Builder<'ctx>, f: FunctionValue<'ctx>) {
    let entry = context.append_basic_block(f, "entry");
    builder.position_at_end(entry);
}

/// Relies on `IntType::const_int` of `Context::i64_type`: the 64-bit constant `v`.
#[verifier::external_body]
fn const_i64<'ctx>(context: &'ctx Context, v: u64) -> IntValue<'ctx> {
    context.i64_type().const_int(v, false)
}

/// Relies on `Builder::build_int_add`.
#[verifier::external_body]
fn emit_add<'ctx>(b: &Builder<'ctx>, x: IntValue<'ctx>, y: IntValue<'ctx>) -> Result<IntValue<'ctx>, BuilderError> {
    b.build_int_add(x, y, "add")
}

/// Relies on `Builder::build_int_sub`.
#[verifier::external_body]
fn emit_sub<'ctx>(b: &Builder<'ctx>, x: IntValue<'ctx>, y: IntValue<'ctx>) -> Result<IntValue<'ctx>, BuilderError> {
    b.build_int_sub(x, y, "sub")
}

/// Relies on `Builder::build_int_mul`.
#[verifier::external_body]
fn emit_mul<'ctx>(b: &Builder<'ctx>, x: IntValue<'ctx>, y: IntValue<'ctx>) -> Result<IntValue<'ctx>, BuilderError> {
    b.build_int_mul(x, y, "mul")
}

/// Relies on `Builder::build_int_unsigned_div`.
#[verifier::external_body]
fn emit_udiv<'ctx>(b: &Builder<'ctx>, x: IntValue<'ctx>, y: IntValue<'ctx>) -> Result<IntValue<'ctx>, BuilderError> {
    b.build_int_unsigned_div(x, y, "div")
}

/// Relies on `Builder::build_int_unsigned_rem`.
#[verifier::external_body]
fn emit_urem<'ctx>(b: &Builder<'ctx>, x: IntValue<'ctx>, y: IntValue<'ctx>) -> Result<IntValue<'ctx>, BuilderError> {
    b.build_int_unsigned_rem(x, y, "mod")
}

/// Relies on `Builder::build_int_signed_div`.
#[verifier::external_body]
fn emit_sdiv<'ctx>(b: &Builder<'ctx>, x: IntValue<'ctx>, y: IntValue<'ctx>) -> Result<IntValue<'ctx>, BuilderError> {
    b.build_int_signed_div(x, y, "idiv")
}

/// Relies on `Builder::build_int_signed_rem`.
#[verifier::external_body]
fn emit_srem<'ctx>(b: &Builder<'ctx>, x: IntValue<'ctx>, y: IntValue<'ctx>) -> Result<IntValue<'ctx>, BuilderError> {
    b.build_int_signed_rem(x, y, "imod")
}

/// Relies on `Builder::build_call`: calls `f` with the single argument `v`.
#[verifier::external_body]
fn emit_call<'ctx>(b: &Builder<'ctx>, f: FunctionValue<'ctx>, v: IntValue<'ctx>) -> Result<(), BuilderError> {
    b.build_call(f, &[v.into()], "").map(|_| ())
}

/// Relies on `Builder::build_return`: returns `v`.
#[verifier::external_body]
fn emit_return<'ctx>(b: &Builder<'ctx>, v: IntValue<'ctx>) -> Result<(), BuilderError> {
    b.build_return(Some(&v)).map(|_| ())
}

/// Relies on `FunctionValue::verify`: whether LLVM's verifier accepts `f`.
#[verifier::external_body]
fn verify_unit<'ctx>(f: FunctionValue<'ctx>) -> bool {
    f.verify(true)
}

/// The index of the first `Print` in `ops`, if any.
fn find_print(ops: &Vec<Operation>) -> (r: Option<usize>)
    ensures
        match r {
            Some(i) => first_print(ops@, i as int),
            None => !prints(ops@),
        },
{
    let mut i: usize = 0;
    while i < ops.len()
        invariant
            i <= ops@.len(),
            forall|j: int| 0 <= j < i ==> !(ops@[j] is Print),
        decreases ops@.len() - i,
    {
        if ops[i] == Operation::Print {
            return Some(i);
        }
        i = i + 1;
    }
    None
}

impl<'a, 'ctx> Compiler<'a, 'ctx> {
    /// A compiler that emits into `module` with `builder`, without an output intrinsic.
    pub fn new(builder: &'a Builder<'ctx>, context: &'ctx Context, module: &'a Module<'ctx>) -> (r: Compiler<'a, 'ctx>)
        ensures
            r.builder == builder,
            r.context == context,
            r.module == module,
            r.output is None,
    {
        Compiler { builder, context, module, output: None }
    }

    /// The same compiler, with `output` as the intrinsic that `Print` calls.
    pub fn with_output(self, output: FunctionValue<'ctx>) -> (r: Compiler<'a, 'ctx>)
        ensures
            r.builder == self.builder,
            r.context == self.context,
            r.module == self.module,
            r.output == Some(output),
    {
        Compiler { output: Some(output), ..self }
    }

    /// Translates `proc` and emits it as a function of the module that takes nothing
    /// and returns the procedure's value. Nothing is emitted where translation fails.
    pub fn compile_proc(&self, proc: &Procedure) -> (r: Result<FunctionValue<'ctx>, TranslationError>)
        requires
            fits(proc.ops@),
        ensures
            compiles_to(proc.ops@, self.output is Some, r),
    {
        let unit = match translate(proc) {
            Ok(u) => u,
            Err(e) => return Err(e),
        };
        let hook = match self.output {
            Some(f) => Some(f),
            None => match find_print(&proc.ops) {
                Some(i) => return Err(TranslationError::OutputUnavailable { index: i }),
                None => None,
            },
        };
        proof {
            lemma_values_well_formed(unit.instrs@);
            crate::ssa::lemma_values_len(unit.instrs@);
        }
        let f = declare_unit(self.context, self.module, unit.name.as_str());
        open_entry(self.context, self.builder, f);
        let mut handles: Vec<IntValue<'ctx>> = Vec::new();
        let mut i: usize = 0;
        while i < unit.instrs.len()
            invariant
                handles@.len() == i,
                i <= unit.instrs@.len(),
                forall|j: int| 0 <= j < unit.instrs@.len() ==> operands_before(#[trigger] unit.instrs@[j], j),
                unit.ret < unit.instrs@.len(),
                outcome(proc.ops@) is Ok,
                self.output is None ==> !prints(proc.ops@),
            decreases unit.instrs@.len() - i,
        {
            let ins = unit.instrs[i];
            assert(operands_before(ins, i as int));
            let emitted = match ins {
                Instr::Const(v) => Ok(const_i64(self.context, v)),
                Instr::Add(a, b) => emit_add(self.builder, handles[a], handles[b]),
                Instr::Sub(a, b) => emit_sub(self.builder, handles[a], handles[b]),
                Instr::Mul(a, b) => emit_mul(self.builder, handles[a], handles[b]),
                Instr::UnsignedDiv(a, b) => emit_udiv(self.builder, handles[a], handles[b]),
                Instr::UnsignedRem(a, b) => emit_urem(self.builder, handles[a], handles[b]),
                Instr::SignedDiv(a, b) => emit_sdiv(self.builder, handles[a], handles[b]),
                Instr::SignedRem(a, b) => emit_srem(self.builder, handles[a], handles[b]),
                Instr::Output(a) => match hook {
                    Some(out) => match emit_call(self.builder, out, handles[a]) {
                        Ok(()) => Ok(handles[a]),
                        Err(e) => Err(e),
                    },
                    None => return Err(TranslationError::MalformedUnit),
                },
            };
            match emitted {
                Ok(h) => handles.push(h),
                Err(_) => return Err(TranslationError::MalformedUnit),
            }
            i = i + 1;
        }
        if emit_return(self.builder, handles[unit.ret]).is_err() {
            return Err(TranslationError::MalformedUnit);
        }
        if verify_unit(f) {
            Ok(f)
        } else {
            Err(TranslationError::MalformedUnit)
        }
    }
}

} // verus!
