use stackgen::{translate, Instr, Operation, Procedure, TranslationError};

use Operation::{Add, Drop, DivMod, Mul, Print, PushInteger, SignedDivMod, Sub};

fn procedure(ops: Vec<Operation>) -> Procedure {
    Procedure { name: "main".to_string(), ops }
}

fn result_of(ops: Vec<Operation>) -> Result<Option<u64>, TranslationError> {
    translate(&procedure(ops)).map(|u| u.evaluate())
}

#[test]
fn scenario_add_returns_sum() {
    assert_eq!(result_of(vec![PushInteger(3), PushInteger(4), Add]), Ok(Some(7)));
}

#[test]
fn scenario_sub_takes_top_as_right_operand() {
    assert_eq!(result_of(vec![PushInteger(10), PushInteger(3), Sub]), Ok(Some(7)));
}

#[test]
fn scenario_divmod_drop_leaves_quotient() {
    assert_eq!(result_of(vec![PushInteger(17), PushInteger(5), DivMod, Drop]), Ok(Some(3)));
}

#[test]
fn scenario_add_on_empty_stack_underflows() {
    assert_eq!(
        result_of(vec![Add]),
        Err(TranslationError::StackUnderflow { index: 0, operation: Add, required: 2, available: 0 })
    );
}

#[test]
fn scenario_single_push_is_returned() {
    assert_eq!(result_of(vec![PushInteger(7)]), Ok(Some(7)));
}

#[test]
fn empty_procedure_has_no_return_value() {
    assert_eq!(result_of(vec![]), Err(TranslationError::MissingReturnValue));
}

#[test]
fn two_values_left_are_unconsumed() {
    assert_eq!(
        result_of(vec![PushInteger(1), PushInteger(2)]),
        Err(TranslationError::UnconsumedOperands { count: 2 })
    );
}

#[test]
fn trailing_drop_leaves_nothing_to_return() {
    assert_eq!(result_of(vec![PushInteger(1), Drop]), Err(TranslationError::MissingReturnValue));
}

#[test]
fn underflow_reports_first_short_operation() {
    assert_eq!(
        result_of(vec![PushInteger(1), PushInteger(2), Drop, Drop, Add, Mul]),
        Err(TranslationError::StackUnderflow { index: 4, operation: Add, required: 2, available: 0 })
    );
    assert_eq!(
        result_of(vec![PushInteger(1), Mul]),
        Err(TranslationError::StackUnderflow { index: 1, operation: Mul, required: 2, available: 1 })
    );
}

#[test]
fn divisor_zero_is_rejected() {
    assert_eq!(
        result_of(vec![PushInteger(1), PushInteger(0), DivMod, Drop]),
        Err(TranslationError::DivisionByZero { index: 2 })
    );
    assert_eq!(
        result_of(vec![PushInteger(5), PushInteger(2), PushInteger(2), Sub, SignedDivMod, Drop]),
        Err(TranslationError::DivisionByZero { index: 4 })
    );
}

#[test]
fn signed_overflow_is_rejected() {
    assert_eq!(
        result_of(vec![PushInteger(1u64 << 63), PushInteger(u64::MAX), SignedDivMod, Drop]),
        Err(TranslationError::DivisionOverflow { index: 2 })
    );
}

#[test]
fn subtraction_order_is_kept() {
    assert_eq!(result_of(vec![PushInteger(2), PushInteger(10), Sub]), Ok(Some((-8i64) as u64)));
}

#[test]
fn arithmetic_wraps() {
    assert_eq!(result_of(vec![PushInteger(u64::MAX), PushInteger(1), Add]), Ok(Some(0)));
    assert_eq!(result_of(vec![PushInteger(0), PushInteger(1), Sub]), Ok(Some(u64::MAX)));
    assert_eq!(result_of(vec![PushInteger(1u64 << 32), PushInteger(1u64 << 32), Mul]), Ok(Some(0)));
    assert_eq!(result_of(vec![PushInteger(6), PushInteger(7), Mul]), Ok(Some(42)));
}

#[test]
fn divmod_pushes_quotient_then_remainder() {
    // 17 = 3 * 5 + 2: the remainder is on top, so subtracting gives 3 - 2.
    assert_eq!(result_of(vec![PushInteger(17), PushInteger(5), DivMod, Sub]), Ok(Some(1)));
}

#[test]
fn signed_divmod_truncates_toward_zero() {
    let minus_seven = (-7i64) as u64;
    assert_eq!(
        result_of(vec![PushInteger(minus_seven), PushInteger(2), SignedDivMod, Drop]),
        Ok(Some((-3i64) as u64))
    );
    // quotient -3 and remainder -1
    assert_eq!(
        result_of(vec![PushInteger(minus_seven), PushInteger(2), SignedDivMod, Add]),
        Ok(Some((-4i64) as u64))
    );
    assert_eq!(
        result_of(vec![PushInteger(7), PushInteger((-2i64) as u64), SignedDivMod, Sub]),
        Ok(Some((-4i64) as u64))
    );
}

#[test]
fn unsigned_divmod_reads_words_unsigned() {
    assert_eq!(
        result_of(vec![PushInteger(u64::MAX), PushInteger(2), DivMod, Drop]),
        Ok(Some(u64::MAX / 2))
    );
}

#[test]
fn print_consumes_its_operand() {
    let unit = translate(&procedure(vec![PushInteger(7), Print, PushInteger(5)])).unwrap();
    assert_eq!(unit.instrs, vec![Instr::Const(7), Instr::Output(0), Instr::Const(5)]);
    assert_eq!(unit.ret, 2);
    assert_eq!(unit.evaluate(), Some(5));
}

#[test]
fn unit_is_single_assignment() {
    let unit = translate(&procedure(vec![PushInteger(3), PushInteger(4), Add])).unwrap();
    assert_eq!(unit.name, "main");
    assert_eq!(unit.instrs, vec![Instr::Const(3), Instr::Const(4), Instr::Add(0, 1)]);
    assert_eq!(unit.ret, 2);
    let unit = translate(&procedure(vec![PushInteger(17), PushInteger(5), DivMod, Drop])).unwrap();
    assert_eq!(
        unit.instrs,
        vec![Instr::Const(17), Instr::Const(5), Instr::UnsignedDiv(0, 1), Instr::UnsignedRem(0, 1)]
    );
    assert_eq!(unit.ret, 2);
}

#[test]
fn stack_depth_follows_arity() {
    // depth 1, 2, 3, 2, 3, 2, 1
    let ops = vec![
        PushInteger(2),
        PushInteger(3),
        PushInteger(4),
        Mul,
        PushInteger(5),
        Sub,
        Add,
    ];
    assert_eq!(result_of(ops), Ok(Some(2 + (12 - 5))));
}

#[test]
fn retranslation_gives_same_outcome() {
    let good = procedure(vec![PushInteger(3), PushInteger(4), Add]);
    let a = translate(&good).unwrap();
    let b = translate(&good).unwrap();
    assert_eq!(a.instrs, b.instrs);
    assert_eq!(a.ret, b.ret);
    let bad = procedure(vec![PushInteger(3), Add]);
    assert_eq!(translate(&bad).err(), translate(&bad).err());
}

#[test]
fn evaluate_faults_on_zero_divisor() {
    let unit = stackgen::Unit {
        name: "f".to_string(),
        instrs: vec![Instr::Const(1), Instr::Const(0), Instr::UnsignedDiv(0, 1)],
        ret: 2,
    };
    assert_eq!(unit.evaluate(), None);
    let unit = stackgen::Unit {
        name: "g".to_string(),
        instrs: vec![Instr::Const(1), Instr::Add(0, 1)],
        ret: 1,
    };
    assert_eq!(unit.evaluate(), None);
}
