use vstd::prelude::*;

use crate::ops::{
    check, consumes, is_division, outcome, produces, run, signed_div, signed_rem, wrapping_add,
    wrapping_mul, wrapping_sub, Operation, Procedure, TranslationError, SIGN_BIT,
};
use crate::ssa::{instr_value, lemma_values_len, unit_result, values, Instr, Unit};

verus! {

/// The instructions emitted for `op`, and the stack of value indices after it,
/// given the instructions so far and the stack of value indices before it.
pub open spec fn lower_op(op: Operation, instrs: Seq<Instr>, ids: Seq<usize>) -> (Seq<Instr>, Seq<usize>) {
    let n = instrs.len() as usize;
    let base = ids.subrange(0, ids.len() - 2);
    let a = ids[ids.len() - 2];
    let b = ids[ids.len() - 1];
    match op {
        Operation::PushInteger(v) => (instrs.push(Instr::Const(v)), ids.push(n)),
        Operation::Add => (instrs.push(Instr::Add(a, b)), base.push(n)),
        Operation::Sub => (instrs.push(Instr::Sub(a, b)), base.push(n)),
        Operation::Mul => (instrs.push(Instr::Mul(a, b)), base.push(n)),
        Operation::DivMod => (
            instrs.push(Instr::UnsignedDiv(a, b)).push(Instr::UnsignedRem(a, b)),
            base.push(n).push((n + 1) as usize),
        ),
        Operation::SignedDivMod => (
            instrs.push(Instr::SignedDiv(a, b)).push(Instr::SignedRem(a, b)),
            base.push(n).push((n + 1) as usize),
        ),
        Operation::Drop => (instrs, ids.drop_last()),
        Operation::Print => (instrs.push(Instr::Output(b)), ids.drop_last()),
    }
}

/// The instructions and the stack of value indices after the first `k` operations.
pub open spec fn lowered(ops: Seq<Operation>, k: nat) -> (Seq<Instr>, Seq<usize>)
    decreases k,
{
    if k == 0 {
        (Seq::empty(), Seq::empty())
    } else {
        let p = lowered(ops, (k - 1) as nat);
        lower_op(ops[k - 1], p.0, p.1)
    }
}

/// `r` is what translating the procedure `name` with operations `ops` gives:
/// the unit that `lowered` describes, returning the procedure's value, or the error of `outcome`.
pub open spec fn translates_to(ops: Seq<Operation>, name: Seq<char>, r: Result<Unit, TranslationError>) -> bool {
    match r {
        Ok(u) => {
            &&& outcome(ops) is Ok
            &&& u.name@ == name
            &&& u.instrs@ == lowered(ops, ops.len()).0
            &&& u.ret == lowered(ops, ops.len()).1[0]
            &&& unit_result(u.instrs@, u.ret as int) == Some(outcome(ops)->Ok_0)
        },
        Err(e) => outcome(ops) == Err::<u64, TranslationError>(e),
    }
}

/// Operations short enough that every value index fits in a `usize`.
pub open spec fn fits(ops: Seq<Operation>) -> bool {
    2 * ops.len() + 2 < usize::MAX
}

proof fn lemma_values_push(instrs: Seq<Instr>, x: Instr)
    ensures
        values(instrs.push(x)) == match values(instrs) {
            None => None,
            Some(vs) => match instr_value(x, vs) {
                None => None,
                Some(v) => Some(vs.push(v)),
            },
        },
{
    assert(instrs.push(x).drop_last() =~= instrs);
}

/// An error among the first `j` operations is the error of every longer prefix.
pub proof fn lemma_error_persists(ops: Seq<Operation>, j: nat, m: nat)
    requires
        j <= m,
        run(ops, j) is Err,
    ensures
        run(ops, m) == run(ops, j),
    decreases m - j,
{
    if j < m {
        lemma_error_persists(ops, j, (m - 1) as nat);
    }
}

/// Where the first `k` operations run without error, the lowered instructions
/// compute, at the indices on the lowered stack, exactly the values on the value stack.
pub proof fn lemma_lowering_tracks(ops: Seq<Operation>, k: nat)
    requires
        k <= ops.len(),
        fits(ops),
        run(ops, k) is Ok,
    ensures
        ({
            let (instrs, ids) = lowered(ops, k);
            let s = run(ops, k)->Ok_0;
            &&& instrs.len() <= 2 * k
            &&& values(instrs) is Some
            &&& ids.len() == s.len()
            &&& forall|i: int|
                #![trigger ids[i]]
                0 <= i < ids.len() ==> ids[i] < instrs.len() && values(instrs)->Some_0[ids[i] as int]
                    == s[i]
        }),
    decreases k,
{
    if k > 0 {
        let j = (k - 1) as nat;
        lemma_lowering_tracks(ops, j);
        let (instrs0, ids0) = lowered(ops, j);
        let s0 = run(ops, j)->Ok_0;
        let vs0 = values(instrs0)->Some_0;
        lemma_values_len(instrs0);
        let op = ops[k - 1];
        let (instrs, ids) = lowered(ops, k);
        let s = run(ops, k)->Ok_0;
        assert(run(ops, k) == check(op, k - 1, s0));
        assert(s0.len() >= consumes(op));
        assert(s == crate::ops::apply(op, s0));
        let n = instrs0.len() as int;
        let len = ids0.len();
        match op {
            Operation::PushInteger(v) => {
                lemma_values_push(instrs0, Instr::Const(v));
                let vs = values(instrs)->Some_0;
                assert(vs == vs0.push(v));
                assert forall|i: int| 0 <= i < ids.len() implies ids[i] < instrs.len() && vs[ids[i] as int] == s[i] by {
                    if i < len {
                        assert(ids[i] == ids0[i]);
                        assert(s[i] == s0[i]);
                    }
                }
            },
            Operation::Drop => {
                assert forall|i: int| 0 <= i < ids.len() implies ids[i] < instrs.len() && vs0[ids[i] as int] == s[i] by {
                    assert(ids[i] == ids0[i]);
                    assert(s[i] == s0[i]);
                }
            },
            Operation::Print => {
                lemma_values_push(instrs0, Instr::Output(ids0[len - 1]));
                assert(len >= 1);
                assert(ids0[len - 1] < instrs0.len());
                assert(ids0[len - 1] < vs0.len());
                let vs = values(instrs)->Some_0;
                assert(vs == vs0.push(vs0[ids0[len - 1] as int]));
                assert forall|i: int| 0 <= i < ids.len() implies ids[i] < instrs.len() && vs[ids[i] as int] == s[i] by {
                    assert(ids[i] == ids0[i]);
                    assert(s[i] == s0[i]);
                }
            },
            Operation::DivMod | Operation::SignedDivMod => {
                let a = ids0[len - 2];
                let b = ids0[len - 1];
                let (d, m) = if op is DivMod {
                    (Instr::UnsignedDiv(a, b), Instr::UnsignedRem(a, b))
                } else {
                    (Instr::SignedDiv(a, b), Instr::SignedRem(a, b))
                };
                lemma_values_push(instrs0, d);
                lemma_values_push(instrs0.push(d), m);
                let vs = values(instrs)->Some_0;
                assert(vs.len() == n + 2);
                assert(vs[n] == s[len - 2]);
                assert(vs[n + 1] == s[len - 1]);
                assert forall|i: int| 0 <= i < ids.len() implies ids[i] < instrs.len() && vs[ids[i] as int] == s[i] by {
                    if i < len - 2 {
                        assert(ids[i] == ids0[i]);
                        assert(s[i] == s0[i]);
                    }
                }
            },
            _ => {
                let a = ids0[len - 2];
                let b = ids0[len - 1];
                let x = match op {
                    Operation::Add => Instr::Add(a, b),
                    Operation::Sub => Instr::Sub(a, b),
                    _ => Instr::Mul(a, b),
                };
                lemma_values_push(instrs0, x);
                let vs = values(instrs)->Some_0;
                assert(vs.len() == n + 1);
                assert(vs[n] == s[len - 2]);
                assert forall|i: int| 0 <= i < ids.len() implies ids[i] < instrs.len() && vs[ids[i] as int] == s[i] by {
                    if i < len - 2 {
                        assert(ids[i] == ids0[i]);
                        assert(s[i] == s0[i]);
                    }
                }
            },
        }
    }
}

/// A procedure that translates returns, when executed, the value that the
/// stack semantics gives it.
pub proof fn lemma_translation_correct(ops: Seq<Operation>)
    requires
        fits(ops),
        outcome(ops) is Ok,
    ensures
        lowered(ops, ops.len()).1.len() == 1,
        unit_result(lowered(ops, ops.len()).0, lowered(ops, ops.len()).1[0] as int) == Some(
            outcome(ops)->Ok_0,
        ),
{
    lemma_lowering_tracks(ops, ops.len());
    lemma_values_len(lowered(ops, ops.len()).0);
}

/// Net stack depth after the first `k` operations: values produced minus values consumed.
pub open spec fn depth(ops: Seq<Operation>, k: nat) -> int
    decreases k,
{
    if k == 0 {
        0
    } else {
        depth(ops, (k - 1) as nat) + produces(ops[k - 1]) - consumes(ops[k - 1])
    }
}

/// Whether `op` on stack `s` divides by zero, or divides the least signed word by minus one.
pub open spec fn faults(op: Operation, s: Seq<u64>) -> bool {
    &&& is_division(op)
    &&& (s.last() == 0 || (op is SignedDivMod && s[s.len() - 2] == SIGN_BIT && s.last() == u64::MAX))
}

/// After the first `k` operations, as long as none failed, the stack holds
/// as many values as those operations produced minus those they consumed.
pub proof fn lemma_stack_depth(ops: Seq<Operation>, k: nat)
    requires
        k <= ops.len(),
        run(ops, k) is Ok,
    ensures
        run(ops, k)->Ok_0.len() == depth(ops, k),
    decreases k,
{
    if k > 0 {
        let j = (k - 1) as nat;
        lemma_stack_depth(ops, j);
        let s0 = run(ops, j)->Ok_0;
        assert(run(ops, k) == check(ops[k - 1], k - 1, s0));
    }
}

/// The first operation that needs more values than the net depth before it
/// is where translation fails, with a stack underflow naming it.
pub proof fn lemma_underflow_first(ops: Seq<Operation>, k: nat)
    requires
        k < ops.len(),
        run(ops, k) is Ok,
        depth(ops, k) < consumes(ops[k as int]),
    ensures
        outcome(ops) == Err::<u64, TranslationError>(
            TranslationError::StackUnderflow {
                index: k as usize,
                operation: ops[k as int],
                required: consumes(ops[k as int]) as usize,
                available: depth(ops, k) as usize,
            },
        ),
{
    lemma_stack_depth(ops, k);
    assert(run(ops, k + 1) == check(ops[k as int], k as int, run(ops, k)->Ok_0));
    lemma_error_persists(ops, k + 1, ops.len());
}

proof fn lemma_runs_through(ops: Seq<Operation>, k: nat)
    requires
        k <= ops.len(),
        forall|i: nat| i < ops.len() ==> depth(ops, i) >= consumes(#[trigger] ops[i as int]),
        forall|i: nat|
            i < ops.len() && run(ops, i) is Ok ==> !faults(#[trigger] ops[i as int], run(ops, i)->Ok_0),
    ensures
        run(ops, k) is Ok,
    decreases k,
{
    if k > 0 {
        let j = (k - 1) as nat;
        lemma_runs_through(ops, j);
        lemma_stack_depth(ops, j);
        assert(depth(ops, j) >= consumes(ops[j as int]));
        assert(!faults(ops[j as int], run(ops, j)->Ok_0));
    }
}

/// A procedure in which no operation lacks operands, no division faults, and
/// exactly one value is left at the end translates; by `lemma_translation_correct`
/// its unit then returns the value of the stack semantics.
pub proof fn lemma_balanced_translates(ops: Seq<Operation>)
    requires
        forall|i: nat| i < ops.len() ==> depth(ops, i) >= consumes(#[trigger] ops[i as int]),
        forall|i: nat|
            i < ops.len() && run(ops, i) is Ok ==> !faults(#[trigger] ops[i as int], run(ops, i)->Ok_0),
        depth(ops, ops.len()) == 1,
    ensures
        outcome(ops) is Ok,
{
    lemma_runs_through(ops, ops.len());
    lemma_stack_depth(ops, ops.len());
}

/// Translating the same operations twice gives the same outcome: both succeed
/// with the same instructions, or both fail with the same error.
pub proof fn lemma_translation_deterministic(
    ops: Seq<Operation>,
    name: Seq<char>,
    r1: Result<Unit, TranslationError>,
    r2: Result<Unit, TranslationError>,
)
    requires
        translates_to(ops, name, r1),
        translates_to(ops, name, r2),
    ensures
        r1 is Ok <==> r2 is Ok,
        r1 is Err ==> r1 == r2,
        r1 is Ok ==> r1->Ok_0.instrs@ == r2->Ok_0.instrs@ && r1->Ok_0.ret == r2->Ok_0.ret,
{
}

/// One operation of the translation loop: the checks of `check`, then the
/// instructions and stack updates of `lower_op`.
fn step(
    op: Operation,
    index: usize,
    instrs: &mut Vec<Instr>,
    ids: &mut Vec<usize>,
    vals: &mut Vec<u64>,
) -> (r: Result<(), TranslationError>)
    requires
        old(ids)@.len() == old(vals)@.len(),
        old(instrs)@.len() + 2 < usize::MAX,
    ensures
        match check(op, index as int, old(vals)@) {
            Ok(s) => {
                &&& r is Ok
                &&& final(vals)@ == s
                &&& final(ids)@.len() == s.len()
                &&& (final(instrs)@, final(ids)@) == lower_op(op, old(instrs)@, old(ids)@)
            },
            Err(e) => r == Err::<(), TranslationError>(e),
        },
{
    let need = op.required();
    if vals.len() < need {
        return Err(
            TranslationError::StackUnderflow {
                index,
                operation: op,
                required: need,
                available: vals.len(),
            },
        );
    }
    let n = instrs.len();
    let ghost vals0 = vals@;
    let ghost ids0 = ids@;
    match op {
        Operation::PushInteger(v) => {
            instrs.push(Instr::Const(v));
            ids.push(n);
            vals.push(v);
        },
        Operation::Drop => {
            ids.pop();
            vals.pop();
        },
        Operation::Print => {
            let b = ids[ids.len() - 1];
            instrs.push(Instr::Output(b));
            ids.pop();
            vals.pop();
        },
        _ => {
            let len = vals.len();
            let x = vals[len - 2];
            let y = vals[len - 1];
            let a = ids[len - 2];
            let b = ids[len - 1];
            if (op == Operation::DivMod || op == Operation::SignedDivMod) && y == 0 {
                return Err(TranslationError::DivisionByZero { index });
            }
            if op == Operation::SignedDivMod && x == SIGN_BIT && y == u64::MAX {
                return Err(TranslationError::DivisionOverflow { index });
            }
            vals.pop();
            vals.pop();
            ids.pop();
            ids.pop();
            assert(vals@ =~= vals0.subrange(0, len - 2));
            assert(ids@ =~= ids0.subrange(0, len - 2));
            match op {
                Operation::Add => {
                    instrs.push(Instr::Add(a, b));
                    ids.push(n);
                    vals.push(wrapping_add(x, y));
                },
                Operation::Sub => {
                    instrs.push(Instr::Sub(a, b));
                    ids.push(n);
                    vals.push(wrapping_sub(x, y));
                },
                Operation::Mul => {
                    instrs.push(Instr::Mul(a, b));
                    ids.push(n);
                    vals.push(wrapping_mul(x, y));
                },
                Operation::DivMod => {
                    instrs.push(Instr::UnsignedDiv(a, b));
                    instrs.push(Instr::UnsignedRem(a, b));
                    ids.push(n);
                    ids.push(n + 1);
                    vals.push(x / y);
                    vals.push(x % y);
                },
                _ => {
                    instrs.push(Instr::SignedDiv(a, b));
                    instrs.push(Instr::SignedRem(a, b));
                    ids.push(n);
                    ids.push(n + 1);
                    vals.push(signed_div(x, y));
                    vals.push(signed_rem(x, y));
                },
            }
        },
    }
    assert(vals@ =~= crate::ops::apply(op, vals0));
    assert((instrs@, ids@) =~= lower_op(op, old(instrs)@, ids0));
    Ok(())
}

/// Translates a procedure into a single-assignment unit, checking the stack arity
/// of every operation, rejecting divisions whose divisor is zero (or, signed, the
/// least integer by minus one), and requiring exactly one value left to return.
pub fn translate(proc: &Procedure) -> (r: Result<Unit, TranslationError>)
    requires
        fits(proc.ops@),
    ensures
        translates_to(proc.ops@, proc.name@, r),
{
    let ghost ops = proc.ops@;
    let mut instrs: Vec<Instr> = Vec::new();
    let mut ids: Vec<usize> = Vec::new();
    let mut vals: Vec<u64> = Vec::new();
    let mut k: usize = 0;
    while k < proc.ops.len()
        invariant
            ops == proc.ops@,
            fits(ops),
            k <= ops.len(),
            run(ops, k as nat) == Ok::<Seq<u64>, TranslationError>(vals@),
            lowered(ops, k as nat) == (instrs@, ids@),
            ids@.len() == vals@.len(),
            instrs@.len() <= 2 * k,
        decreases ops.len() - k,
    {
        let r = step(proc.ops[k], k, &mut instrs, &mut ids, &mut vals);
        if let Err(e) = r {
            proof {
                lemma_error_persists(ops, (k + 1) as nat, ops.len());
            }
            return Err(e);
        }
        k = k + 1;
    }
    if vals.len() == 0 {
        return Err(TranslationError::MissingReturnValue);
    }
    if vals.len() > 1 {
        return Err(TranslationError::UnconsumedOperands { count: vals.len() });
    }
    proof {
        lemma_translation_correct(ops);
    }
    Ok(Unit { name: proc.name.clone(), instrs, ret: ids[0] })
}

} // verus!
