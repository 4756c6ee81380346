use vstd::prelude::*;

use crate::ast::{decimal_of_int, Decimal, Expr, FunctionCall, Literal, Mapping, Module, TopLevel};
use crate::error::PError;
use crate::ops::{const_inst, op_inst, Instruction, OpCode, Scalar};
use crate::text::same_text;

verus! {

/// Why a program could not be compiled.
#[derive(Clone, Debug, PartialEq)]
pub enum CompileError<'s> {
    /// A name that is neither a built-in nor resolvable.
    UnresolvedIdentifier(&'s str),
    /// A built-in called with the wrong number of arguments.
    ArityMismatch { name: &'s str, expected: usize, found: usize },
    /// A boolean or string literal where a number is needed.
    NonNumericLiteral,
    /// A `plot` statement without exactly one argument naming a function.
    MalformedPlot,
    /// The program has more instructions than the evaluator holds.
    Overflow { count: usize, capacity: usize },
    /// The text does not parse.
    Syntax(PError),
}

/// The built-in names of the language and what they compile to.
#[derive(Clone, Copy, Debug, PartialEq, Eq, Structural)]
pub enum Builtin {
    /// A binary operator, compiled to its two operands and the operation.
    Binary(OpCode),
    /// A function of one argument, compiled to its argument and the operation.
    Unary(OpCode),
    /// One of the evaluation coordinates `x` and `y`.
    Input(OpCode),
    /// The constant pi.
    Pi,
}

pub open spec fn builtin_of(name: Seq<char>) -> Option<Builtin> {
    if name == "+"@ {
        Some(Builtin::Binary(OpCode::Add))
    } else if name == "-"@ {
        Some(Builtin::Binary(OpCode::Sub))
    } else if name == "*"@ {
        Some(Builtin::Binary(OpCode::Mul))
    } else if name == "/"@ {
        Some(Builtin::Binary(OpCode::Div))
    } else if name == "^"@ || name == "pow"@ {
        Some(Builtin::Binary(OpCode::Pow))
    } else if name == "=="@ {
        Some(Builtin::Binary(OpCode::Eq))
    } else if name == "!="@ {
        Some(Builtin::Binary(OpCode::Ne))
    } else if name == "<"@ {
        Some(Builtin::Binary(OpCode::Lt))
    } else if name == "<="@ {
        Some(Builtin::Binary(OpCode::Le))
    } else if name == ">"@ {
        Some(Builtin::Binary(OpCode::Gt))
    } else if name == ">="@ {
        Some(Builtin::Binary(OpCode::Ge))
    } else if name == "sin"@ {
        Some(Builtin::Unary(OpCode::Sin))
    } else if name == "cos"@ {
        Some(Builtin::Unary(OpCode::Cos))
    } else if name == "tan"@ {
        Some(Builtin::Unary(OpCode::Tan))
    } else if name == "log"@ {
        Some(Builtin::Unary(OpCode::Log))
    } else if name == "x"@ {
        Some(Builtin::Input(OpCode::X))
    } else if name == "y"@ {
        Some(Builtin::Input(OpCode::Y))
    } else if name == "pi"@ {
        Some(Builtin::Pi)
    } else {
        None
    }
}

/// What a built-in name stands for, if it is one.
pub fn classify(name: &str) -> (r: Option<Builtin>)
    ensures
        r == builtin_of(name@),
{
    if same_text(name, "+") {
        Some(Builtin::Binary(OpCode::Add))
    } else if same_text(name, "-") {
        Some(Builtin::Binary(OpCode::Sub))
    } else if same_text(name, "*") {
        Some(Builtin::Binary(OpCode::Mul))
    } else if same_text(name, "/") {
        Some(Builtin::Binary(OpCode::Div))
    } else if same_text(name, "^") || same_text(name, "pow") {
        Some(Builtin::Binary(OpCode::Pow))
    } else if same_text(name, "==") {
        Some(Builtin::Binary(OpCode::Eq))
    } else if same_text(name, "!=") {
        Some(Builtin::Binary(OpCode::Ne))
    } else if same_text(name, "<") {
        Some(Builtin::Binary(OpCode::Lt))
    } else if same_text(name, "<=") {
        Some(Builtin::Binary(OpCode::Le))
    } else if same_text(name, ">") {
        Some(Builtin::Binary(OpCode::Gt))
    } else if same_text(name, ">=") {
        Some(Builtin::Binary(OpCode::Ge))
    } else if same_text(name, "sin") {
        Some(Builtin::Unary(OpCode::Sin))
    } else if same_text(name, "cos") {
        Some(Builtin::Unary(OpCode::Cos))
    } else if same_text(name, "tan") {
        Some(Builtin::Unary(OpCode::Tan))
    } else if same_text(name, "log") {
        Some(Builtin::Unary(OpCode::Log))
    } else if same_text(name, "x") {
        Some(Builtin::Input(OpCode::X))
    } else if same_text(name, "y") {
        Some(Builtin::Input(OpCode::Y))
    } else if same_text(name, "pi") {
        Some(Builtin::Pi)
    } else {
        None
    }
}

/// The two instructions appended for a minus sign in front of a call: multiply by -1.
pub open spec fn negation_suffix() -> Seq<Instruction> {
    seq![
        const_inst(Scalar::Number(decimal_of_int(-1i32))),
        op_inst(OpCode::Mul),
    ]
}

/// The instructions of a literal.
pub open spec fn compiled_literal<'s>(lit: Literal<'s>) -> Result<Seq<Instruction>, CompileError<'s>> {
    match lit {
        Literal::Int(n) => Ok(seq![const_inst(Scalar::Number(decimal_of_int(n)))]),
        Literal::Float(d) => Ok(seq![const_inst(Scalar::Number(d))]),
        _ => Err(CompileError::NonNumericLiteral),
    }
}

/// The number of arguments a built-in takes.
pub open spec fn arity(b: Builtin) -> nat {
    match b {
        Builtin::Binary(_) => 2,
        Builtin::Unary(_) => 1,
        _ => 0,
    }
}

/// The instructions of an expression: operands first, then the operation (post-order),
/// and a multiplication by -1 after a negated call.
pub open spec fn compiled<'s>(e: Expr<'s>) -> Result<Seq<Instruction>, CompileError<'s>>
    decreases e,
{
    match e {
        Expr::Literal(lit) => compiled_literal(lit),
        Expr::FunctionCall(call) => {
            let own = match builtin_of(call.name@) {
                None => Err(CompileError::UnresolvedIdentifier(call.name)),
                Some(b) => if call.args.len() != arity(b) {
                    Err(
                        CompileError::ArityMismatch {
                            name: call.name,
                            expected: arity(b) as usize,
                            found: call.args.len(),
                        },
                    )
                } else {
                    match b {
                        Builtin::Binary(op) => match compiled(call.args[0]) {
                            Err(err) => Err(err),
                            Ok(left) => match compiled(call.args[1]) {
                                Err(err) => Err(err),
                                Ok(right) => Ok(left + right + seq![op_inst(op)]),
                            },
                        },
                        Builtin::Unary(op) => match compiled(call.args[0]) {
                            Err(err) => Err(err),
                            Ok(arg) => Ok(arg + seq![op_inst(op)]),
                        },
                        Builtin::Input(op) => Ok(seq![op_inst(op)]),
                        Builtin::Pi => Ok(seq![const_inst(Scalar::Pi)]),
                    }
                },
            };
            match own {
                Err(err) => Err(err),
                Ok(code) => Ok(
                    if call.is_negated {
                        code + negation_suffix()
                    } else {
                        code
                    },
                ),
            }
        },
    }
}

/// The sequence view of a compilation result.
pub open spec fn result_view<'s>(r: Result<Vec<Instruction>, CompileError<'s>>) -> Result<
    Seq<Instruction>,
    CompileError<'s>,
> {
    match r {
        Ok(v) => Ok(v@),
        Err(e) => Err(e),
    }
}

/// Compiles a literal to one `CONST` instruction; booleans and strings are refused.
pub fn compile_literal<'s>(lit: &Literal<'s>) -> (r: Result<Vec<Instruction>, CompileError<'s>>)
    ensures
        result_view(r) == compiled_literal(*lit),
{
    match lit {
        Literal::Int(n) => {
            let v = vec![Instruction::int_constant(*n)];
            proof {
                assert(v@ =~= seq![const_inst(Scalar::Number(decimal_of_int(*n)))]);
            }
            Ok(v)
        },
        Literal::Float(d) => {
            let v = vec![Instruction::constant(Scalar::Number(*d))];
            proof {
                assert(v@ =~= seq![const_inst(Scalar::Number(*d))]);
            }
            Ok(v)
        },
        _ => Err(CompileError::NonNumericLiteral),
    }
}

/// Compiles an expression to stack-machine instructions.
pub fn compile_expr<'s>(expr: &Expr<'s>) -> (r: Result<Vec<Instruction>, CompileError<'s>>)
    ensures
        result_view(r) == compiled(*expr),
    decreases expr, 2nat,
{
    match expr {
        Expr::Literal(lit) => compile_literal(lit),
        Expr::FunctionCall(call) => compile_s_expr(call),
    }
}

/// Appends the instructions of `tail` to `code`.
fn append_all(code: &mut Vec<Instruction>, tail: Vec<Instruction>)
    ensures
        final(code)@ == old(code)@ + tail@,
{
    let mut tail = tail;
    code.append(&mut tail);
}

/// The instructions of a binary operation: left operand, right operand, then `opcode`.
pub open spec fn compiled_binary<'s>(call: FunctionCall<'s>, opcode: OpCode) -> Result<
    Seq<Instruction>,
    CompileError<'s>,
> {
    if call.args.len() != 2 {
        Err(CompileError::ArityMismatch { name: call.name, expected: 2, found: call.args.len() })
    } else {
        match compiled(call.args[0]) {
            Err(err) => Err(err),
            Ok(left) => match compiled(call.args[1]) {
                Err(err) => Err(err),
                Ok(right) => Ok(left + right + seq![op_inst(opcode)]),
            },
        }
    }
}

/// Compiles a call of two arguments followed by `opcode`; the sign of the call is not read.
pub fn compile_binary_op<'s>(call: &FunctionCall<'s>, opcode: OpCode) -> (r: Result<
    Vec<Instruction>,
    CompileError<'s>,
>)
    ensures
        result_view(r) == compiled_binary(*call, opcode),
    decreases call, 0nat,
{
    if call.args.len() != 2 {
        return Err(CompileError::ArityMismatch { name: call.name, expected: 2, found: call.args.len() });
    }
    let mut code = match compile_expr(&call.args[0]) {
        Ok(code) => code,
        Err(err) => {
            return Err(err);
        },
    };
    let right = match compile_expr(&call.args[1]) {
        Ok(code) => code,
        Err(err) => {
            return Err(err);
        },
    };
    let ghost left = code@;
    let ghost right_code = right@;
    append_all(&mut code, right);
    code.push(Instruction::op(opcode));
    proof {
        assert(code@ =~= left + right_code + seq![op_inst(opcode)]);
    }
    Ok(code)
}

/// Compiles a call: a built-in operator or function, an input, or pi, with its minus sign.
pub fn compile_s_expr<'s>(call: &FunctionCall<'s>) -> (r: Result<Vec<Instruction>, CompileError<'s>>)
    ensures
        result_view(r) == compiled(Expr::FunctionCall(*call)),
    decreases call, 1nat,
{
    let mut code = match classify(call.name) {
        None => {
            return Err(CompileError::UnresolvedIdentifier(call.name));
        },
        Some(Builtin::Binary(op)) => match compile_binary_op(call, op) {
            Ok(code) => code,
            Err(err) => {
                return Err(err);
            },
        },
        Some(Builtin::Unary(op)) => {
            if call.args.len() != 1 {
                return Err(
                    CompileError::ArityMismatch { name: call.name, expected: 1, found: call.args.len() },
                );
            }
            let mut code = match compile_expr(&call.args[0]) {
                Ok(code) => code,
                Err(err) => {
                    return Err(err);
                },
            };
            code.push(Instruction::op(op));
            code
        },
        Some(b) => {
            if call.args.len() != 0 {
                return Err(
                    CompileError::ArityMismatch { name: call.name, expected: 0, found: call.args.len() },
                );
            }
            match b {
                Builtin::Input(op) => vec![Instruction::op(op)],
                _ => vec![Instruction::constant(Scalar::Pi)],
            }
        },
    };
    if call.is_negated {
        code.push(Instruction::int_constant(-1));
        code.push(Instruction::op(OpCode::Mul));
    }
    proof {
        assert(code@ =~= compiled(Expr::FunctionCall(*call))->Ok_0);
    }
    Ok(code)
}

/// The program compiled when a module names nothing to plot: `-x^3 + 1`.
pub open spec fn default_program() -> Seq<Instruction> {
    seq![
        Instruction {
            opcode: OpCode::XPoly,
            a: Scalar::Number(decimal_of_int(-1i32)),
            b: Scalar::Number(decimal_of_int(3i32)),
        },
        const_inst(Scalar::Number(decimal_of_int(1i32))),
        op_inst(OpCode::Add),
    ]
}

/// `item` is an expression statement calling `plot`.
pub open spec fn is_plot<'s>(item: TopLevel<'s>) -> bool {
    &&& item is Expr
    &&& item->Expr_0 is FunctionCall
    &&& item->Expr_0->FunctionCall_0.name@ == "plot"@
}

/// The first `plot` statement among `items`.
pub open spec fn first_plot<'s>(items: Seq<TopLevel<'s>>) -> Option<FunctionCall<'s>>
    decreases items.len(),
{
    if items.len() == 0 {
        None
    } else if is_plot(items[0]) {
        Some(items[0]->Expr_0->FunctionCall_0)
    } else {
        first_plot(items.drop_first())
    }
}

/// The last definition of `name` among `items`: later definitions shadow earlier ones.
pub open spec fn last_definition<'s>(items: Seq<TopLevel<'s>>, name: Seq<char>) -> Option<
    Mapping<'s>,
>
    decreases items.len(),
{
    if items.len() == 0 {
        None
    } else if items.last() is Function && items.last()->Function_0.name@ == name {
        Some(items.last()->Function_0)
    } else {
        last_definition(items.drop_last(), name)
    }
}

/// The argument of a `plot` call is one call without arguments and without minus sign.
pub open spec fn plot_target_ok<'s>(call: FunctionCall<'s>) -> bool {
    &&& call.args.len() == 1
    &&& call.args[0] is FunctionCall
    &&& call.args[0]->FunctionCall_0.args.len() == 0
    &&& !call.args[0]->FunctionCall_0.is_negated
}

/// The program of a module: the body of the function that the first `plot` statement names,
/// negated if the statement is; the default program when there is no `plot` statement.
pub open spec fn compiled_module<'s>(m: Module<'s>) -> Result<Seq<Instruction>, CompileError<'s>> {
    match first_plot(m.top_level@) {
        None => Ok(default_program()),
        Some(call) => if !plot_target_ok(call) {
            Err(CompileError::MalformedPlot)
        } else {
            let target = call.args[0]->FunctionCall_0.name;
            match last_definition(m.top_level@, target@) {
                None => Err(CompileError::UnresolvedIdentifier(target)),
                Some(f) => match compiled(f.body) {
                    Err(err) => Err(err),
                    Ok(code) => Ok(
                        if call.is_negated {
                            code + negation_suffix()
                        } else {
                            code
                        },
                    ),
                },
            }
        },
    }
}

/// The index of the first `plot` statement, if any.
fn find_plot<'s>(items: &Vec<TopLevel<'s>>) -> (r: Option<usize>)
    ensures
        match r {
            None => first_plot(items@) is None,
            Some(i) => i < items@.len() && is_plot(items@[i as int]) && first_plot(items@) == Some(
                items@[i as int]->Expr_0->FunctionCall_0,
            ),
        },
{
    let mut i: usize = 0;
    proof {
        assert(items@.skip(0) =~= items@);
    }
    while i < items.len()
        invariant
            i <= items@.len(),
            first_plot(items@) == first_plot(items@.skip(i as int)),
        decreases items@.len() - i,
    {
        let found = match &items[i] {
            TopLevel::Expr(Expr::FunctionCall(call)) => same_text(call.name, "plot"),
            _ => false,
        };
        if found {
            return Some(i);
        }
        proof {
            assert(items@.skip(i as int).drop_first() =~= items@.skip(i + 1));
        }
        i = i + 1;
    }
    None
}

/// The index of the last definition of `name`, if any.
fn find_definition<'s>(items: &Vec<TopLevel<'s>>, name: &str) -> (r: Option<usize>)
    ensures
        match r {
            None => last_definition(items@, name@) is None,
            Some(i) => i < items@.len() && items@[i as int] is Function && last_definition(
                items@,
                name@,
            ) == Some(items@[i as int]->Function_0),
        },
{
    let mut j: usize = items.len();
    proof {
        assert(items@.take(j as int) =~= items@);
    }
    while j > 0
        invariant
            j <= items@.len(),
            last_definition(items@, name@) == last_definition(items@.take(j as int), name@),
        decreases j,
    {
        let found = match &items[j - 1] {
            TopLevel::Function(f) => same_text(f.name, name),
            _ => false,
        };
        if found {
            return Some(j - 1);
        }
        proof {
            assert(items@.take(j as int).drop_last() =~= items@.take(j - 1));
        }
        j = j - 1;
    }
    None
}

/// Compiles the function that the module's first `plot` statement names.
///
/// Definitions are looked up among all statements, the last one of a name winning. Without
/// a `plot` statement the default program comes back, so that there is always something to
/// draw.
pub fn compile_module<'s>(module: &Module<'s>) -> (r: Result<Vec<Instruction>, CompileError<'s>>)
    ensures
        result_view(r) == compiled_module(*module),
{
    let items = &module.top_level;
    let at = match find_plot(items) {
        None => {
            let v = vec![
                Instruction {
                    opcode: OpCode::XPoly,
                    a: Scalar::Number(Decimal::from_int(-1)),
                    b: Scalar::Number(Decimal::from_int(3)),
                },
                Instruction::int_constant(1),
                Instruction::op(OpCode::Add),
            ];
            proof {
                assert(v@ =~= default_program());
            }
            return Ok(v);
        },
        Some(at) => at,
    };
    let call = match &items[at] {
        TopLevel::Expr(Expr::FunctionCall(call)) => call,
        _ => {
            return Err(CompileError::MalformedPlot);
        },
    };
    if call.args.len() != 1 {
        return Err(CompileError::MalformedPlot);
    }
    let target = match &call.args[0] {
        Expr::FunctionCall(target) => target,
        _ => {
            return Err(CompileError::MalformedPlot);
        },
    };
    if target.args.len() != 0 || target.is_negated {
        return Err(CompileError::MalformedPlot);
    }
    let def = match find_definition(items, target.name) {
        None => {
            return Err(CompileError::UnresolvedIdentifier(target.name));
        },
        Some(d) => d,
    };
    let f = match &items[def] {
        TopLevel::Function(f) => f,
        _ => {
            return Err(CompileError::MalformedPlot);
        },
    };
    let mut code = match compile_fn(f) {
        Ok(code) => code,
        Err(err) => {
            return Err(err);
        },
    };
    if call.is_negated {
        code.push(Instruction::int_constant(-1));
        code.push(Instruction::op(OpCode::Mul));
    }
    proof {
        assert(code@ =~= compiled_module(*module)->Ok_0);
    }
    Ok(code)
}

/// Compiles the body of a function definition.
pub fn compile_fn<'s>(f: &Mapping<'s>) -> (r: Result<Vec<Instruction>, CompileError<'s>>)
    ensures
        result_view(r) == compiled(f.body),
{
    compile_expr(&f.body)
}

} // verus!
