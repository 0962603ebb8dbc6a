use vstd::prelude::*;

use crate::ops::{signed_div, signed_rem, trunc_div, trunc_rem, signed, wrap, wrapping_add, wrapping_mul, wrapping_sub, SIGN_BIT};

verus! {

/// One single-assignment instruction. Operands are indices of earlier instructions.
#[derive(Clone, Copy, Debug, PartialEq, Eq, Structural)]
pub enum Instr {
    Const(u64),
    Add(usize, usize),
    Sub(usize, usize),
    Mul(usize, usize),
    UnsignedDiv(usize, usize),
    UnsignedRem(usize, usize),
    SignedDiv(usize, usize),
    SignedRem(usize, usize),
    /// A call of the output intrinsic; its value is that of its operand.
    Output(usize),
}

/// A straight-line unit: its instructions and the index of the returned value.
pub struct Unit {
    pub name: String,
    pub instrs: Vec<Instr>,
    pub ret: usize,
}

pub open spec fn signed_fault(x: u64, y: u64) -> bool {
    y == 0 || (x == SIGN_BIT && y == u64::MAX)
}

/// The value of `i` given the values `vs` of the instructions before it;
/// `None` where an operand is not earlier or a division faults.
pub open spec fn instr_value(i: Instr, vs: Seq<u64>) -> Option<u64> {
    match i {
        Instr::Const(v) => Some(v),
        Instr::Output(a) => if a < vs.len() {
            Some(vs[a as int])
        } else {
            None
        },
        Instr::Add(a, b) | Instr::Sub(a, b) | Instr::Mul(a, b) | Instr::UnsignedDiv(a, b)
        | Instr::UnsignedRem(a, b) | Instr::SignedDiv(a, b) | Instr::SignedRem(a, b) => {
            if a < vs.len() && b < vs.len() {
                let x = vs[a as int];
                let y = vs[b as int];
                match i {
                    Instr::Add(_, _) => Some(wrap(x + y)),
                    Instr::Sub(_, _) => Some(wrap(x - y)),
                    Instr::Mul(_, _) => Some(wrap(x * y)),
                    Instr::UnsignedDiv(_, _) => if y == 0 {
                        None
                    } else {
                        Some(x / y)
                    },
                    Instr::UnsignedRem(_, _) => if y == 0 {
                        None
                    } else {
                        Some(x % y)
                    },
                    Instr::SignedDiv(_, _) => if signed_fault(x, y) {
                        None
                    } else {
                        Some(wrap(trunc_div(signed(x), signed(y))))
                    },
                    _ => if signed_fault(x, y) {
                        None
                    } else {
                        Some(wrap(trunc_rem(signed(x), signed(y))))
                    },
                }
            } else {
                None
            }
        },
    }
}

/// The value of every instruction, in order, or `None` if one of them has none.
pub open spec fn values(instrs: Seq<Instr>) -> Option<Seq<u64>>
    decreases instrs.len(),
{
    if instrs.len() == 0 {
        Some(Seq::empty())
    } else {
        match values(instrs.drop_last()) {
            None => None,
            Some(vs) => match instr_value(instrs.last(), vs) {
                None => None,
                Some(v) => Some(vs.push(v)),
            },
        }
    }
}

/// What a unit returns when executed, or `None` if it faults.
pub open spec fn unit_result(instrs: Seq<Instr>, ret: int) -> Option<u64> {
    match values(instrs) {
        None => None,
        Some(vs) => if 0 <= ret < vs.len() {
            Some(vs[ret])
        } else {
            None
        },
    }
}

pub proof fn lemma_values_len(instrs: Seq<Instr>)
    ensures
        values(instrs) is Some ==> values(instrs)->Some_0.len() == instrs.len(),
    decreases instrs.len(),
{
    if instrs.len() > 0 {
        lemma_values_len(instrs.drop_last());
    }
}

/// Every operand of `i` names an instruction before position `j`.
pub open spec fn operands_before(i: Instr, j: int) -> bool {
    match i {
        Instr::Const(_) => true,
        Instr::Output(a) => a < j,
        Instr::Add(a, b) | Instr::Sub(a, b) | Instr::Mul(a, b) | Instr::UnsignedDiv(a, b)
        | Instr::UnsignedRem(a, b) | Instr::SignedDiv(a, b) | Instr::SignedRem(a, b) => a < j && b
            < j,
    }
}

/// Instructions that all have values only refer to earlier instructions.
pub proof fn lemma_values_well_formed(instrs: Seq<Instr>)
    requires
        values(instrs) is Some,
    ensures
        forall|j: int| 0 <= j < instrs.len() ==> operands_before(#[trigger] instrs[j], j),
    decreases instrs.len(),
{
    if instrs.len() > 0 {
        let pre = instrs.drop_last();
        lemma_values_well_formed(pre);
        lemma_values_len(pre);
        assert forall|j: int| 0 <= j < instrs.len() implies operands_before(#[trigger] instrs[j], j) by {
            if j < instrs.len() - 1 {
                assert(instrs[j] == pre[j]);
            }
        }
    }
}

/// The value of `i` given the values of the instructions before it.
pub fn value_of(i: Instr, vs: &Vec<u64>) -> (r: Option<u64>)
    ensures
        r == instr_value(i, vs@),
{
    match i {
        Instr::Const(v) => Some(v),
        Instr::Output(a) => if a < vs.len() {
            Some(vs[a])
        } else {
            None
        },
        Instr::Add(a, b) | Instr::Sub(a, b) | Instr::Mul(a, b) | Instr::UnsignedDiv(a, b)
        | Instr::UnsignedRem(a, b) | Instr::SignedDiv(a, b) | Instr::SignedRem(a, b) => {
            if a < vs.len() && b < vs.len() {
                let x = vs[a];
                let y = vs[b];
                match i {
                    Instr::Add(_, _) => Some(wrapping_add(x, y)),
                    Instr::Sub(_, _) => Some(wrapping_sub(x, y)),
                    Instr::Mul(_, _) => Some(wrapping_mul(x, y)),
                    Instr::UnsignedDiv(_, _) => if y == 0 {
                        None
                    } else {
                        Some(x / y)
                    },
                    Instr::UnsignedRem(_, _) => if y == 0 {
                        None
                    } else {
                        Some(x % y)
                    },
                    Instr::SignedDiv(_, _) => if y == 0 || (x == SIGN_BIT && y == u64::MAX) {
                        None
                    } else {
                        Some(signed_div(x, y))
                    },
                    _ => if y == 0 || (x == SIGN_BIT && y == u64::MAX) {
                        None
                    } else {
                        Some(signed_rem(x, y))
                    },
                }
            } else {
                None
            }
        },
    }
}

impl Unit {
    /// Executes the unit: the value it returns, or `None` where an instruction faults.
    pub fn evaluate(&self) -> (r: Option<u64>)
        ensures
            r == unit_result(self.instrs@, self.ret as int),
    {
        let mut vs: Vec<u64> = Vec::new();
        let mut i: usize = 0;
        while i < self.instrs.len()
            invariant
                i <= self.instrs@.len(),
                values(self.instrs@.subrange(0, i as int)) == Some(vs@),
            decreases self.instrs@.len() - i,
        {
            let ghost pre = self.instrs@.subrange(0, i as int);
            let v = value_of(self.instrs[i], &vs);
            proof {
                let next = self.instrs@.subrange(0, i + 1);
                assert(next.drop_last() =~= pre);
            }
            match v {
                None => {
                    proof {
                        lemma_none_persists(self.instrs@, i as int + 1);
                    }
                    return None;
                },
                Some(v) => {
                    vs.push(v);
                },
            }
            i = i + 1;
        }
        assert(self.instrs@.subrange(0, i as int) =~= self.instrs@);
        if self.ret < vs.len() {
            Some(vs[self.ret])
        } else {
            None
        }
    }
}

/// Once a prefix has no values, no longer prefix has any.
proof fn lemma_none_persists(instrs: Seq<Instr>, k: int)
    requires
        0 <= k <= instrs.len(),
        values(instrs.subrange(0, k)) is None,
    ensures
        values(instrs) is None,
    decreases instrs.len() - k,
{
    if k < instrs.len() {
        assert(instrs.subrange(0, k + 1).drop_last() =~= instrs.subrange(0, k));
        lemma_none_persists(instrs, k + 1);
    } else {
        assert(instrs.subrange(0, k) =~= instrs);
    }
}

} // verus!
