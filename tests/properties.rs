use mth_lang::ast::{int_literal, varref, Decimal, Expr, Literal};
use mth_lang::codegen::{compile_expr, compile_module, CompileError};
use mth_lang::compiler::{compile, compile_checked, compile_expression};
use mth_lang::cursor::Cursor;
use mth_lang::grammar::{expr, parse_expr_text, parse_program};
use mth_lang::ops::{Instruction, OpCode, Scalar};

fn konst(n: i32) -> Instruction {
    Instruction::int_constant(n)
}

fn inst(op: OpCode) -> Instruction {
    Instruction::op(op)
}

#[test]
fn integer_literal_is_one_constant() {
    for n in [0, 1, 42, 2147483647] {
        let text = n.to_string();
        assert_eq!(compile_expression(&text).unwrap(), vec![konst(n)]);
    }
    assert_eq!(
        compile_expr(&int_literal(i32::MIN)).unwrap(),
        vec![Instruction::constant(Scalar::Number(Decimal {
            negative: true,
            digits: 2147483648,
            exponent: 0
        }))]
    );
}

#[test]
fn negation_of_a_call_appends_minus_one_times() {
    let plain = compile_expression("sin(x)").unwrap();
    let mut expected = plain.clone();
    expected.push(konst(-1));
    expected.push(inst(OpCode::Mul));
    assert_eq!(compile_expression("-(sin(x))").unwrap(), expected);
    assert_eq!(compile_expression("-(-(sin(x)))").unwrap(), plain);
    assert_eq!(compile_expression("-(-(3))").unwrap(), compile_expression("3").unwrap());
    assert_eq!(compile_expression("-(3)").unwrap(), vec![konst(-3)]);
}

#[test]
fn sine_of_zero() {
    let code = compile_expression("sin(0)").unwrap();
    assert_eq!(code, vec![konst(0), inst(OpCode::Sin)]);
    assert_eq!(code.len(), 2);
}

#[test]
fn one_plus_two() {
    assert_eq!(compile_expression("1 + 2").unwrap(), vec![konst(1), konst(2), inst(OpCode::Add)]);
}

#[test]
fn power_by_name_and_by_operator() {
    let expected = vec![konst(2), konst(3), inst(OpCode::Pow)];
    assert_eq!(compile_expression("pow(2,3)").unwrap(), expected);
    assert_eq!(compile_expression("2^3").unwrap(), expected);
}

#[test]
fn implicit_multiplication_equals_explicit() {
    let (_, a) = expr(Cursor::new("2 x")).unwrap();
    let (_, b) = expr(Cursor::new("2 * x")).unwrap();
    assert_eq!(a, b);
    let expected = vec![konst(2), inst(OpCode::X), inst(OpCode::Mul)];
    assert_eq!(compile_expression("2 x").unwrap(), expected);
    assert_eq!(compile_expression("2 * x").unwrap(), expected);
}

#[test]
fn arity_violation_is_an_error() {
    assert_eq!(
        compile_expression("sin(1,2)"),
        Err(CompileError::ArityMismatch { name: "sin", expected: 1, found: 2 })
    );
}

#[test]
fn unknown_identifier_is_an_error() {
    assert_eq!(compile_expression("foo(1)"), Err(CompileError::UnresolvedIdentifier("foo")));
    assert_eq!(compile_expression("foo"), Err(CompileError::UnresolvedIdentifier("foo")));
}

#[test]
fn overflow_is_an_error_not_a_truncation() {
    let src = "f(x) = x + x + x; plot(f);";
    // x x + x + : five instructions
    assert_eq!(compile(src, 5).unwrap().len(), 5);
    assert_eq!(compile(src, 4), Err(CompileError::Overflow { count: 5, capacity: 4 }));
    let (_, m) = parse_program(src).unwrap();
    assert_eq!(compile_checked(&m, 0), Err(CompileError::Overflow { count: 5, capacity: 0 }));
    assert_eq!(compile_checked(&m, 100).unwrap(), compile_module(&m).unwrap());
}

#[test]
fn parsing_and_compiling_twice_agree() {
    let text = "2 x ^ 2 - sin(y) / 3";
    let a = parse_expr_text(text).unwrap();
    let b = parse_expr_text(text).unwrap();
    assert_eq!(a, b);
    assert_eq!(compile_expr(&a).unwrap(), compile_expr(&a).unwrap());
}

#[test]
fn syntax_errors_and_trailing_input() {
    assert!(matches!(compile_expression("1 +"), Err(CompileError::Syntax(_))));
    assert!(matches!(compile_expression("2x"), Err(CompileError::Syntax(_))));
    assert!(matches!(compile_expression(""), Err(CompileError::Syntax(_))));
    assert_eq!(compile_expression("  1  ").unwrap(), vec![konst(1)]);
}

#[test]
fn whole_program() {
    let src = "f(x) = sin(x)*2;\nplot(f);";
    assert_eq!(
        compile(src, 64).unwrap(),
        vec![inst(OpCode::X), inst(OpCode::Sin), konst(2), inst(OpCode::Mul)]
    );
    let src = "f :: int -> int;\nf(x) = x < 0.5;\n-plot(f);";
    let half = Decimal { negative: false, digits: 5, exponent: -1 };
    assert_eq!(
        compile(src, 64).unwrap(),
        vec![
            inst(OpCode::X),
            Instruction::constant(Scalar::Number(half)),
            inst(OpCode::Lt),
            konst(-1),
            inst(OpCode::Mul)
        ]
    );
    assert_eq!(compile("plot(g);", 64), Err(CompileError::UnresolvedIdentifier("g")));
    assert_eq!(compile("f = x; plot(-f);", 64), Err(CompileError::MalformedPlot));
    assert_eq!(compile("f = true; plot(f);", 64), Err(CompileError::NonNumericLiteral));
}

#[test]
fn double_negation_of_trees() {
    let e = varref("x");
    assert_eq!(varref("x").neg().neg(), e);
    let l = Expr::Literal(Literal::Bool(true));
    assert_eq!(Expr::Literal(Literal::Bool(true)).neg().neg(), l);
    assert_eq!(Expr::Literal(Literal::Str("a")).neg(), Expr::Literal(Literal::Str("a")));
    assert_eq!(int_literal(i32::MIN).neg(), int_literal(i32::MIN));
}
