use vstd::prelude::*;

verus! {

/// One primitive instruction of the stack language.
#[derive(Clone, Copy, Debug, PartialEq, Eq, Structural)]
pub enum Operation {
    /// Push a 64-bit literal.
    PushInteger(u64),
    /// Pop `y`, pop `x`, push `x + y` (wrapping).
    Add,
    /// Pop `y`, pop `x`, push `x - y` (wrapping).
    Sub,
    /// Pop `y`, pop `x`, push `x * y` (wrapping).
    Mul,
    /// Pop `y`, pop `x`, push the unsigned quotient and then the unsigned remainder.
    DivMod,
    /// Pop `y`, pop `x`, push the signed quotient and then the signed remainder.
    SignedDivMod,
    /// Discard the top value.
    Drop,
    /// Hand the top value to the output intrinsic.
    Print,
}

/// A parsed procedure: a name and its operations, in order.
pub struct Procedure {
    pub name: String,
    pub ops: Vec<Operation>,
}

/// Why a procedure could not be translated.
#[derive(Clone, Copy, Debug, PartialEq, Eq, Structural)]
pub enum TranslationError {
    /// The operation at `index` needs `required` operands but only `available` are on the stack.
    StackUnderflow { index: usize, operation: Operation, required: usize, available: usize },
    /// Nothing is left on the stack to return.
    MissingReturnValue,
    /// More than one value is left on the stack at the end.
    UnconsumedOperands { count: usize },
    /// The divisor of the division at `index` is zero.
    DivisionByZero { index: usize },
    /// The signed division at `index` divides the least 64-bit integer by minus one.
    DivisionOverflow { index: usize },
    /// The procedure prints at `index`, but no output intrinsic was supplied.
    OutputUnavailable { index: usize },
    /// The backend rejected the emitted unit.
    MalformedUnit,
}

pub open spec fn consumes(op: Operation) -> nat {
    match op {
        Operation::PushInteger(_) => 0,
        Operation::Drop | Operation::Print => 1,
        _ => 2,
    }
}

pub open spec fn produces(op: Operation) -> nat {
    match op {
        Operation::Drop | Operation::Print => 0,
        Operation::DivMod | Operation::SignedDivMod => 2,
        _ => 1,
    }
}

pub open spec fn is_division(op: Operation) -> bool {
    op is DivMod || op is SignedDivMod
}

pub const SIGN_BIT: u64 = 0x8000_0000_0000_0000;

/// The 64-bit word congruent to `i`.
pub open spec fn wrap(i: int) -> u64 {
    (i % 0x1_0000_0000_0000_0000) as u64
}

/// The two's-complement reading of a word.
pub open spec fn signed(x: u64) -> int {
    if x < SIGN_BIT {
        x as int
    } else {
        x - 0x1_0000_0000_0000_0000
    }
}

pub open spec fn abs(i: int) -> int {
    if i < 0 {
        -i
    } else {
        i
    }
}

/// Quotient rounded toward zero.
pub open spec fn trunc_div(x: int, y: int) -> int {
    let q = abs(x) / abs(y);
    if (x < 0) != (y < 0) {
        -q
    } else {
        q
    }
}

/// Remainder that takes the sign of the dividend.
pub open spec fn trunc_rem(x: int, y: int) -> int {
    let r = abs(x) % abs(y);
    if x < 0 {
        -r
    } else {
        r
    }
}

/// The stack after `op`, which has its operands: `y` is the top, `x` the one below.
pub open spec fn apply(op: Operation, s: Seq<u64>) -> Seq<u64> {
    let base = s.subrange(0, s.len() - 2);
    let x = s[s.len() - 2];
    let y = s[s.len() - 1];
    match op {
        Operation::PushInteger(v) => s.push(v),
        Operation::Add => base.push(wrap(x + y)),
        Operation::Sub => base.push(wrap(x - y)),
        Operation::Mul => base.push(wrap(x * y)),
        Operation::DivMod => base.push(x / y).push(x % y),
        Operation::SignedDivMod => base.push(wrap(trunc_div(signed(x), signed(y)))).push(
            wrap(trunc_rem(signed(x), signed(y))),
        ),
        Operation::Drop | Operation::Print => s.drop_last(),
    }
}

/// Operation number `index` on stack `s`: its arity and division checks, then its effect.
pub open spec fn check(op: Operation, index: int, s: Seq<u64>) -> Result<Seq<u64>, TranslationError> {
    if s.len() < consumes(op) {
        Err(
            TranslationError::StackUnderflow {
                index: index as usize,
                operation: op,
                required: consumes(op) as usize,
                available: s.len() as usize,
            },
        )
    } else if is_division(op) && s.last() == 0 {
        Err(TranslationError::DivisionByZero { index: index as usize })
    } else if op is SignedDivMod && s[s.len() - 2] == SIGN_BIT && s.last() == u64::MAX {
        Err(TranslationError::DivisionOverflow { index: index as usize })
    } else {
        Ok(apply(op, s))
    }
}

/// The value stack after the first `k` operations, or the first error among them.
pub open spec fn run(ops: Seq<Operation>, k: nat) -> Result<Seq<u64>, TranslationError>
    decreases k,
{
    if k == 0 {
        Ok(Seq::empty())
    } else {
        match run(ops, (k - 1) as nat) {
            Err(e) => Err(e),
            Ok(s) => check(ops[k - 1], k - 1, s),
        }
    }
}

/// What the procedure computes: the single value left on the stack, or why there is none.
pub open spec fn outcome(ops: Seq<Operation>) -> Result<u64, TranslationError> {
    match run(ops, ops.len()) {
        Err(e) => Err(e),
        Ok(s) => if s.len() == 0 {
            Err(TranslationError::MissingReturnValue)
        } else if s.len() > 1 {
            Err(TranslationError::UnconsumedOperands { count: s.len() as usize })
        } else {
            Ok(s[0])
        },
    }
}

impl Operation {
    /// How many operands the operation takes from the stack.
    pub fn required(&self) -> (r: usize)
        ensures
            r == consumes(*self),
    {
        match self {
            Operation::PushInteger(_) => 0,
            Operation::Drop | Operation::Print => 1,
            _ => 2,
        }
    }

    /// How many values the operation leaves on the stack.
    pub fn produced(&self) -> (r: usize)
        ensures
            r == produces(*self),
    {
        match self {
            Operation::Drop | Operation::Print => 0,
            Operation::DivMod | Operation::SignedDivMod => 2,
            _ => 1,
        }
    }
}

pub fn wrapping_add(x: u64, y: u64) -> (r: u64)
    ensures
        r == wrap(x + y),
{
    x.wrapping_add(y)
}

pub fn wrapping_sub(x: u64, y: u64) -> (r: u64)
    ensures
        r == wrap(x - y),
{
    x.wrapping_sub(y)
}

pub fn wrapping_mul(x: u64, y: u64) -> (r: u64)
    ensures
        r == wrap(x * y),
{
    x.wrapping_mul(y)
}

/// `|signed(x)|`, which always fits in a word.
fn magnitude(x: u64) -> (r: u64)
    ensures
        r == abs(signed(x)),
{
    if x < SIGN_BIT {
        x
    } else {
        0u64.wrapping_sub(x)
    }
}

fn negate_if(neg: bool, m: u64) -> (r: u64)
    ensures
        r == wrap(if neg { -m } else { m as int }),
{
    if neg {
        0u64.wrapping_sub(m)
    } else {
        m
    }
}

/// Signed quotient, rounded toward zero.
pub fn signed_div(x: u64, y: u64) -> (r: u64)
    requires
        y != 0,
    ensures
        r == wrap(trunc_div(signed(x), signed(y))),
{
    let q = magnitude(x) / magnitude(y);
    negate_if((x >= SIGN_BIT) != (y >= SIGN_BIT), q)
}

/// Signed remainder, with the sign of the dividend.
pub fn signed_rem(x: u64, y: u64) -> (r: u64)
    requires
        y != 0,
    ensures
        r == wrap(trunc_rem(signed(x), signed(y))),
{
    let m = magnitude(x) % magnitude(y);
    negate_if(x >= SIGN_BIT, m)
}

} // verus!
