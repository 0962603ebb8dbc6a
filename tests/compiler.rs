use inkwell::context::Context;
use stackgen::{Compiler, Operation, Procedure, TranslationError};

use Operation::{Add, DivMod, Drop, Print, PushInteger, SignedDivMod, Sub};

fn procedure(name: &str, ops: Vec<Operation>) -> Procedure {
    Procedure { name: name.to_string(), ops }
}

#[test]
fn compiled_unit_returns_sum() {
    let context = Context::create();
    let module = context.create_module("m");
    let builder = context.create_builder();
    let compiler = Compiler::new(&builder, &context, &module);
    let f = compiler.compile_proc(&procedure("sum", vec![PushInteger(3), PushInteger(4), Add])).unwrap();
    assert_eq!(f.get_name().to_str(), Ok("sum"));
    let ir = module.print_to_string().to_string();
    assert!(ir.contains("ret i64 7"), "{}", ir);
    assert!(module.verify().is_ok());
}

#[test]
fn compiled_units_keep_operand_order() {
    let context = Context::create();
    let module = context.create_module("m");
    let builder = context.create_builder();
    let compiler = Compiler::new(&builder, &context, &module);
    compiler.compile_proc(&procedure("diff", vec![PushInteger(10), PushInteger(3), Sub])).unwrap();
    compiler
        .compile_proc(&procedure("quot", vec![PushInteger(17), PushInteger(5), DivMod, Drop]))
        .unwrap();
    compiler
        .compile_proc(&procedure(
            "squot",
            vec![PushInteger((-7i64) as u64), PushInteger(2), SignedDivMod, Add],
        ))
        .unwrap();
    let ir = module.print_to_string().to_string();
    assert!(ir.contains("ret i64 7"), "{}", ir);
    assert!(ir.contains("ret i64 3"), "{}", ir);
    assert!(ir.contains("ret i64 -4"), "{}", ir);
}

#[test]
fn failed_translation_emits_nothing() {
    let context = Context::create();
    let module = context.create_module("m");
    let builder = context.create_builder();
    let compiler = Compiler::new(&builder, &context, &module);
    assert_eq!(
        compiler.compile_proc(&procedure("bad", vec![Add])),
        Err(TranslationError::StackUnderflow { index: 0, operation: Add, required: 2, available: 0 })
    );
    assert_eq!(
        compiler.compile_proc(&procedure("left", vec![PushInteger(1), PushInteger(2)])),
        Err(TranslationError::UnconsumedOperands { count: 2 })
    );
    assert!(module.get_function("bad").is_none());
    assert!(module.get_function("left").is_none());
}

#[test]
fn print_needs_an_output_intrinsic() {
    let context = Context::create();
    let module = context.create_module("m");
    let builder = context.create_builder();
    let compiler = Compiler::new(&builder, &context, &module);
    let ops = vec![PushInteger(1), PushInteger(7), Print, Print, PushInteger(5)];
    assert_eq!(
        compiler.compile_proc(&procedure("p", ops.clone())),
        Err(TranslationError::OutputUnavailable { index: 2 })
    );
    let i64_type = context.i64_type();
    let hook = module.add_function("print_i64", context.void_type().fn_type(&[i64_type.into()], false), None);
    let compiler = compiler.with_output(hook);
    let f = compiler.compile_proc(&procedure("p", ops)).unwrap();
    assert!(f.verify(false));
    let ir = module.print_to_string().to_string();
    assert!(ir.contains("call void @print_i64(i64 7)"), "{}", ir);
    assert!(ir.contains("call void @print_i64(i64 1)"), "{}", ir);
}

#[test]
fn recompiling_into_fresh_context_agrees() {
    for _ in 0..2 {
        let context = Context::create();
        let module = context.create_module("m");
        let builder = context.create_builder();
        let compiler = Compiler::new(&builder, &context, &module);
        assert!(compiler.compile_proc(&procedure("ok", vec![PushInteger(7)])).is_ok());
        assert_eq!(
            compiler.compile_proc(&procedure("no", vec![])),
            Err(TranslationError::MissingReturnValue)
        );
    }
}

