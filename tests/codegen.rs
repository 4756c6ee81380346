use mth_lang::ast::{function_call, int_literal, varref, Decimal, Expr, Literal, Mapping, Module, TopLevel};
use mth_lang::codegen::{compile_expr, compile_literal, compile_module, compile_s_expr, CompileError};
use mth_lang::ops::{Instruction, OpCode, Scalar};

fn s_expr<'s>(name: &'s str, args: Vec<Expr<'s>>) -> Expr<'s> {
    function_call(name, args)
}

fn konst(n: i32) -> Instruction {
    Instruction::int_constant(n)
}

fn inst(op: OpCode) -> Instruction {
    Instruction::op(op)
}

#[test]
fn lib_test_compile_literal() {
    let expr = &Expr::Literal(Literal::Int(42));
    let result = compile_expr(expr).unwrap();
    assert_eq!(result, vec![konst(42)]);
}

#[test]
fn lib_test_compile_add() {
    let expr = s_expr("+", vec![int_literal(1), int_literal(2)]);
    let result = compile_expr(&expr).unwrap();
    assert_eq!(result, vec![konst(1), konst(2), inst(OpCode::Add)]);
}

#[test]
fn lib_test_compile_mul() {
    let expr = s_expr("*", vec![int_literal(3), int_literal(4)]);
    let result = compile_expr(&expr).unwrap();
    assert_eq!(result, vec![konst(3), konst(4), inst(OpCode::Mul)]);
}

#[test]
fn lib_test_compile_sub() {
    let expr = s_expr("-", vec![int_literal(5), int_literal(2)]);
    let result = compile_expr(&expr).unwrap();
    assert_eq!(result, vec![konst(5), konst(2), inst(OpCode::Sub)]);
}

#[test]
fn lib_test_compile_div() {
    let expr = s_expr("/", vec![int_literal(8), int_literal(2)]);
    let result = compile_expr(&expr).unwrap();
    assert_eq!(result, vec![konst(8), konst(2), inst(OpCode::Div)]);
}

#[test]
fn lib_test_compile_sin() {
    let expr = s_expr("sin", vec![int_literal(0)]);
    let result = compile_expr(&expr).unwrap();
    assert_eq!(result, vec![konst(0), inst(OpCode::Sin)]);
}

#[test]
fn lib_test_compile_cos() {
    let expr = s_expr("cos", vec![int_literal(0)]);
    let result = compile_expr(&expr).unwrap();
    assert_eq!(result, vec![konst(0), inst(OpCode::Cos)]);
}

#[test]
fn lib_test_compile_pow() {
    let expr = s_expr("pow", vec![int_literal(2), int_literal(3)]);
    let result = compile_expr(&expr).unwrap();
    assert_eq!(result, vec![konst(2), konst(3), inst(OpCode::Pow)]);
}

#[test]
fn lib_test_compile_nested_expression() {
    // sin(1 + 2)
    let inner = s_expr("+", vec![int_literal(1), int_literal(2)]);
    let expr = s_expr("sin", vec![inner]);
    let result = compile_expr(&expr).unwrap();
    assert_eq!(result, vec![konst(1), konst(2), inst(OpCode::Add), inst(OpCode::Sin)]);
}

#[test]
fn lib_test_compile_deeply_nested_expression() {
    // pow(1 + 2, sin(0))
    let inner_add = s_expr("+", vec![int_literal(1), int_literal(2)]);
    let inner_sin = s_expr("sin", vec![int_literal(0)]);
    let expr = s_expr("pow", vec![inner_add, inner_sin]);
    let result = compile_expr(&expr).unwrap();
    assert_eq!(
        result,
        vec![
            konst(1),
            konst(2),
            inst(OpCode::Add),
            konst(0),
            inst(OpCode::Sin),
            inst(OpCode::Pow),
        ]
    );
}

#[test]
fn lib_test_compile_s_expr_direct() {
    let Expr::FunctionCall(s_expr) = s_expr("+", vec![int_literal(1), int_literal(2)]) else {
        panic!("Expected Expr::SExpr")
    };
    let result = compile_s_expr(&s_expr).unwrap();
    assert_eq!(result, vec![konst(1), konst(2), inst(OpCode::Add)]);
}

#[test]
fn lib_test_single_literal_instruction_count() {
    let expr = s_expr("sin", vec![int_literal(0)]);
    let result = compile_expr(&expr).unwrap();
    assert_eq!(result.len(), 2);
    assert_eq!(result[0], konst(0));
    assert_eq!(result[1], inst(OpCode::Sin));
}

#[test]
fn lib_test_constant_zero_instruction_count() {
    let expr = int_literal(0);
    let result = compile_expr(&expr).unwrap();
    assert_eq!(result.len(), 1);
    assert_eq!(result[0], konst(0));
}

#[test]
fn lib_test_complex_expression_instruction_count() {
    let inner = s_expr("+", vec![int_literal(1), int_literal(2)]);
    let expr = s_expr("sin", vec![inner]);
    let result = compile_expr(&expr).unwrap();
    assert_eq!(result.len(), 4);
}

#[test]
fn lib_test_compile_mapping_with_literal() {
    // a = 0; plot(a);
    let mapping = Mapping { name: "a", params: vec![], body: int_literal(0) };
    let module = Module {
        name: None,
        top_level: vec![TopLevel::Function(mapping), TopLevel::Expr(s_expr("plot", vec![varref("a")]))],
    };
    let result = compile_module(&module).unwrap();
    assert_eq!(result, vec![konst(0)]);
}

#[test]
fn lib_test_compile_mapping_with_expression() {
    // a = 1 - 1; plot(a);
    let mapping = Mapping {
        name: "a",
        params: vec![],
        body: s_expr("-", vec![int_literal(1), int_literal(1)]),
    };
    let module = Module {
        name: None,
        top_level: vec![TopLevel::Function(mapping), TopLevel::Expr(s_expr("plot", vec![varref("a")]))],
    };
    let result = compile_module(&module).unwrap();
    assert_eq!(result, vec![konst(1), konst(1), inst(OpCode::Sub)]);
}

#[test]
fn tests_test_compile_literal() {
    let expr = &Expr::Literal(Literal::Int(42));
    let result = compile_expr(expr).unwrap();
    assert_eq!(result, vec![konst(42)]);
}

#[test]
fn tests_test_compile_add() {
    let expr = s_expr("+", vec![int_literal(1), int_literal(2)]);
    let result = compile_expr(&expr).unwrap();
    assert_eq!(result, vec![konst(1), konst(2), inst(OpCode::Add)]);
}

#[test]
fn tests_test_compile_mul() {
    let expr = s_expr("*", vec![int_literal(3), int_literal(4)]);
    let result = compile_expr(&expr).unwrap();
    assert_eq!(result, vec![konst(3), konst(4), inst(OpCode::Mul)]);
}

#[test]
fn tests_test_compile_sub() {
    let expr = s_expr("-", vec![int_literal(5), int_literal(2)]);
    let result = compile_expr(&expr).unwrap();
    assert_eq!(result, vec![konst(5), konst(2), inst(OpCode::Sub)]);
}

#[test]
fn tests_test_compile_div() {
    let expr = s_expr("/", vec![int_literal(8), int_literal(2)]);
    let result = compile_expr(&expr).unwrap();
    assert_eq!(result, vec![konst(8), konst(2), inst(OpCode::Div)]);
}

#[test]
fn tests_test_compile_sin() {
    let expr = s_expr("sin", vec![int_literal(0)]);
    let result = compile_expr(&expr).unwrap();
    assert_eq!(result, vec![konst(0), inst(OpCode::Sin)]);
}

#[test]
fn tests_test_compile_cos() {
    let expr = s_expr("cos", vec![int_literal(0)]);
    let result = compile_expr(&expr).unwrap();
    assert_eq!(result, vec![konst(0), inst(OpCode::Cos)]);
}

#[test]
fn tests_test_compile_pow() {
    let expr = s_expr("pow", vec![int_literal(2), int_literal(3)]);
    let result = compile_expr(&expr).unwrap();
    assert_eq!(result, vec![konst(2), konst(3), inst(OpCode::Pow)]);
}

#[test]
fn tests_test_compile_nested_expression() {
    // sin(1 + 2)
    let inner = s_expr("+", vec![int_literal(1), int_literal(2)]);
    let expr = s_expr("sin", vec![inner]);
    let result = compile_expr(&expr).unwrap();
    assert_eq!(result, vec![konst(1), konst(2), inst(OpCode::Add), inst(OpCode::Sin)]);
}

#[test]
fn tests_test_compile_deeply_nested_expression() {
    // pow(1 + 2, sin(0))
    let inner_add = s_expr("+", vec![int_literal(1), int_literal(2)]);
    let inner_sin = s_expr("sin", vec![int_literal(0)]);
    let expr = s_expr("pow", vec![inner_add, inner_sin]);
    let result = compile_expr(&expr).unwrap();
    assert_eq!(
        result,
        vec![
            konst(1),
            konst(2),
            inst(OpCode::Add),
            konst(0),
            inst(OpCode::Sin),
            inst(OpCode::Pow),
        ]
    );
}

#[test]
fn tests_test_compile_s_expr_direct() {
    let Expr::FunctionCall(s_expr) = s_expr("+", vec![int_literal(1), int_literal(2)]) else {
        panic!("Expected Expr::SExpr")
    };
    let result = compile_s_expr(&s_expr).unwrap();
    assert_eq!(result, vec![konst(1), konst(2), inst(OpCode::Add)]);
}

#[test]
fn tests_test_single_literal_instruction_count() {
    let expr = s_expr("sin", vec![int_literal(0)]);
    let result = compile_expr(&expr).unwrap();
    assert_eq!(result.len(), 2);
    assert_eq!(result[0], konst(0));
    assert_eq!(result[1], inst(OpCode::Sin));
}

#[test]
fn tests_test_constant_zero_instruction_count() {
    let expr = int_literal(0);
    let result = compile_expr(&expr).unwrap();
    assert_eq!(result.len(), 1);
    assert_eq!(result[0], konst(0));
}

#[test]
fn tests_test_complex_expression_instruction_count() {
    let inner = s_expr("+", vec![int_literal(1), int_literal(2)]);
    let expr = s_expr("sin", vec![inner]);
    let result = compile_expr(&expr).unwrap();
    assert_eq!(result.len(), 4);
}

#[test]
fn tests_test_compile_mapping_with_literal() {
    // a = 0; plot(a);
    let mapping = Mapping { name: "a", params: vec![], body: int_literal(0) };
    let module = Module {
        name: None,
        top_level: vec![TopLevel::Function(mapping), TopLevel::Expr(s_expr("plot", vec![varref("a")]))],
    };
    let result = compile_module(&module).unwrap();
    assert_eq!(result, vec![konst(0)]);
}

#[test]
fn tests_test_compile_mapping_with_expression() {
    // a = 1 - 1; plot(a);
    let mapping = Mapping {
        name: "a",
        params: vec![],
        body: s_expr("-", vec![int_literal(1), int_literal(1)]),
    };
    let module = Module {
        name: None,
        top_level: vec![TopLevel::Function(mapping), TopLevel::Expr(s_expr("plot", vec![varref("a")]))],
    };
    let result = compile_module(&module).unwrap();
    assert_eq!(result, vec![konst(1), konst(1), inst(OpCode::Sub)]);
}

#[test]
fn test_buffer_size_issue() {
    let result = compile_literal(&Literal::Int(0)).unwrap();
    assert_eq!(result.len(), 1);

    let expr = s_expr("-", vec![int_literal(1), int_literal(1)]);
    let result = compile_expr(&expr).unwrap();
    assert_eq!(result.len(), 3);
}

#[test]
fn test_fix_verification() {
    let mapping = Mapping { name: "a", params: vec![], body: int_literal(0) };
    let module = Module {
        name: None,
        top_level: vec![TopLevel::Function(mapping), TopLevel::Expr(s_expr("plot", vec![varref("a")]))],
    };
    let result = compile_module(&module).unwrap();
    assert_eq!(result, vec![konst(0)]);
}

#[test]
fn inputs_pi_and_comparisons() {
    assert_eq!(compile_expr(&varref("x")).unwrap(), vec![inst(OpCode::X)]);
    assert_eq!(compile_expr(&varref("y")).unwrap(), vec![inst(OpCode::Y)]);
    assert_eq!(compile_expr(&varref("pi")).unwrap(), vec![Instruction::constant(Scalar::Pi)]);
    for (name, op) in [
        ("==", OpCode::Eq),
        ("!=", OpCode::Ne),
        ("<", OpCode::Lt),
        ("<=", OpCode::Le),
        (">", OpCode::Gt),
        (">=", OpCode::Ge),
        ("^", OpCode::Pow),
        ("/", OpCode::Div),
    ] {
        let e = s_expr(name, vec![varref("x"), int_literal(1)]);
        assert_eq!(compile_expr(&e).unwrap(), vec![inst(OpCode::X), konst(1), inst(op)]);
    }
    assert_eq!(
        compile_expr(&s_expr("tan", vec![varref("y")])).unwrap(),
        vec![inst(OpCode::Y), inst(OpCode::Tan)]
    );
    assert_eq!(
        compile_expr(&s_expr("log", vec![varref("y")])).unwrap(),
        vec![inst(OpCode::Y), inst(OpCode::Log)]
    );
}

#[test]
fn negation_appends_multiplication() {
    let e = varref("x").neg();
    assert_eq!(compile_expr(&e).unwrap(), vec![inst(OpCode::X), konst(-1), inst(OpCode::Mul)]);
    let f = Expr::Literal(Literal::Float(Decimal { negative: false, digits: 15, exponent: -1 })).neg();
    assert_eq!(
        compile_expr(&f).unwrap(),
        vec![Instruction::constant(Scalar::Number(Decimal { negative: true, digits: 15, exponent: -1 }))]
    );
}

#[test]
fn compile_errors() {
    assert_eq!(compile_expr(&varref("z")), Err(CompileError::UnresolvedIdentifier("z")));
    assert_eq!(
        compile_expr(&s_expr("sin", vec![int_literal(1), int_literal(2)])),
        Err(CompileError::ArityMismatch { name: "sin", expected: 1, found: 2 })
    );
    assert_eq!(
        compile_expr(&s_expr("x", vec![int_literal(1)])),
        Err(CompileError::ArityMismatch { name: "x", expected: 0, found: 1 })
    );
    assert_eq!(
        compile_expr(&s_expr("+", vec![int_literal(1)])),
        Err(CompileError::ArityMismatch { name: "+", expected: 2, found: 1 })
    );
    assert_eq!(compile_expr(&Expr::Literal(Literal::Bool(true))), Err(CompileError::NonNumericLiteral));
    assert_eq!(compile_expr(&Expr::Literal(Literal::Str("s"))), Err(CompileError::NonNumericLiteral));
    assert_eq!(
        compile_expr(&s_expr("+", vec![int_literal(1), varref("q")])),
        Err(CompileError::UnresolvedIdentifier("q"))
    );
}

#[test]
fn module_without_plot_gives_default_program() {
    let module = Module { name: None, top_level: vec![] };
    let minus_one = Decimal { negative: true, digits: 1, exponent: 0 };
    let three = Decimal { negative: false, digits: 3, exponent: 0 };
    assert_eq!(
        compile_module(&module).unwrap(),
        vec![
            Instruction { opcode: OpCode::XPoly, a: Scalar::Number(minus_one), b: Scalar::Number(three) },
            konst(1),
            inst(OpCode::Add),
        ]
    );
}

#[test]
fn module_plot_rules() {
    let def = |name: &'static str, body: Expr<'static>| TopLevel::Function(Mapping { name, params: vec![], body });
    // the last definition of a name wins, also after the plot statement
    let m = Module {
        name: None,
        top_level: vec![
            def("f", int_literal(1)),
            TopLevel::Expr(s_expr("plot", vec![varref("f")])),
            def("f", varref("x")),
        ],
    };
    assert_eq!(compile_module(&m).unwrap(), vec![inst(OpCode::X)]);
    // a negated plot negates the program
    let m = Module {
        name: None,
        top_level: vec![def("f", varref("x")), TopLevel::Expr(s_expr("plot", vec![varref("f")]).neg())],
    };
    assert_eq!(compile_module(&m).unwrap(), vec![inst(OpCode::X), konst(-1), inst(OpCode::Mul)]);
    // malformed and unresolved targets
    let m = Module { name: None, top_level: vec![TopLevel::Expr(s_expr("plot", vec![]))] };
    assert_eq!(compile_module(&m), Err(CompileError::MalformedPlot));
    let m = Module { name: None, top_level: vec![TopLevel::Expr(s_expr("plot", vec![int_literal(1)]))] };
    assert_eq!(compile_module(&m), Err(CompileError::MalformedPlot));
    let m = Module { name: None, top_level: vec![TopLevel::Expr(s_expr("plot", vec![varref("g")]))] };
    assert_eq!(compile_module(&m), Err(CompileError::UnresolvedIdentifier("g")));
}

#[test]
fn other_names_are_unresolved() {
    assert_eq!(
        compile_expr(&s_expr("__builtin__add", vec![int_literal(1), int_literal(2)])),
        Err(CompileError::UnresolvedIdentifier("__builtin__add"))
    );
}

#[test]
fn opcode_numbers_are_stable() {
    let all = [
        (OpCode::Const, 0), (OpCode::X, 1), (OpCode::XPoly, 2), (OpCode::Add, 3), (OpCode::Mul, 4),
        (OpCode::Pow, 5), (OpCode::Cos, 6), (OpCode::Sin, 7), (OpCode::Tan, 8), (OpCode::Log, 9),
        (OpCode::Sub, 10), (OpCode::Div, 11), (OpCode::Eq, 12), (OpCode::Y, 13), (OpCode::Lt, 14),
        (OpCode::Le, 15), (OpCode::Gt, 16), (OpCode::Ge, 17), (OpCode::Ne, 18),
    ];
    for (op, code) in all {
        assert_eq!(op.code(), code);
    }
}
