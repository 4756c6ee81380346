use vstd::prelude::*;

use crate::ast::{decimal_of_int, items_view, neg_i32, Expr, FunctionCall, Literal, Module};
use crate::grammar::{expr_text_s, module_items_s};
use crate::codegen::{compiled, negation_suffix, result_view, CompileError};
use crate::compiler::within_capacity;
use crate::ops::{const_inst, Instruction, Scalar};

verus! {

/// An integer literal `n` compiles to exactly one instruction, which pushes `n`.
pub proof fn law_int_literal(n: i32)
    ensures
        compiled(Expr::Literal(Literal::Int(n))) == Ok::<Seq<Instruction>, CompileError<'static>>(
            seq![const_inst(Scalar::Number(decimal_of_int(n)))],
        ),
{
}

/// A minus sign in front of a call appends `CONST(-1), MUL` to the call's instructions,
/// and leaves an error as it is.
pub proof fn law_negated_call<'s>(call: FunctionCall<'s>)
    requires
        !call.is_negated,
    ensures
        compiled(Expr::FunctionCall(call).neg_spec()) == match compiled(Expr::FunctionCall(call)) {
            Ok(code) => Ok(code + negation_suffix()),
            Err(e) => Err(e),
        },
{
    let n = Expr::FunctionCall(call).neg_spec();
    assert(n->FunctionCall_0.args == call.args);
    assert(n->FunctionCall_0.name == call.name);
}

/// A minus sign in front of a literal is folded into the literal: the one instruction of
/// `-lit` pushes the negated value.
pub proof fn law_negated_int_literal(v: i32)
    ensures
        compiled(Expr::Literal(Literal::Int(v)).neg_spec()) == Ok::<
            Seq<Instruction>,
            CompileError<'static>,
        >(seq![const_inst(Scalar::Number(decimal_of_int(neg_i32(v))))]),
{
}

/// Negating twice gives back the same expression, and so the same instructions.
pub proof fn law_double_negation<'s>(e: Expr<'s>)
    ensures
        e.neg_spec().neg_spec() == e,
        compiled(e.neg_spec().neg_spec()) == compiled(e),
{
    match e {
        Expr::Literal(lit) => {
            match lit {
                Literal::Int(v) => {
                    assert(neg_i32(neg_i32(v)) == v);
                },
                Literal::Float(d) => {
                    assert(d.neg_spec().neg_spec() == d);
                },
                _ => {},
            }
        },
        Expr::FunctionCall(call) => {
            assert(call.neg_spec().neg_spec() == call);
        },
    }
}

/// Compiling the same expression twice gives the same instructions.
pub proof fn law_compile_deterministic<'s>(
    e: Expr<'s>,
    r1: Result<Vec<Instruction>, CompileError<'s>>,
    r2: Result<Vec<Instruction>, CompileError<'s>>,
)
    requires
        result_view(r1) == compiled(e),
        result_view(r2) == compiled(e),
    ensures
        result_view(r1) == result_view(r2),
{
}

/// A program longer than the capacity is refused with an overflow that gives its length;
/// a program that fits comes back whole.
pub proof fn law_capacity<'s>(code: Seq<Instruction>, capacity: usize)
    requires
        code.len() <= usize::MAX,
    ensures
        code.len() > capacity ==> within_capacity(Ok(code), capacity) == Err::<
            Seq<Instruction>,
            CompileError<'s>,
        >(CompileError::Overflow { count: code.len() as usize, capacity }),
        code.len() <= capacity ==> within_capacity(Ok(code), capacity) == Ok::<
            Seq<Instruction>,
            CompileError<'s>,
        >(code),
{
}

/// Parsing the same program text twice gives structurally equal modules: each is the
/// module that the text spells.
pub proof fn law_parse_deterministic<'s>(text: Seq<char>, m1: Module<'s>, m2: Module<'s>)
    requires
        items_view(m1.top_level@) == module_items_s(text),
        items_view(m2.top_level@) == module_items_s(text),
    ensures
        items_view(m1.top_level@) == items_view(m2.top_level@),
{
}

/// Parsing the same expression text twice gives structurally equal trees.
pub proof fn law_parse_expr_deterministic<'s>(text: Seq<char>, e1: Expr<'s>, e2: Expr<'s>)
    requires
        expr_text_s(text) == Some(e1.view()),
        expr_text_s(text) == Some(e2.view()),
    ensures
        e1.view() == e2.view(),
{
}

} // verus!
