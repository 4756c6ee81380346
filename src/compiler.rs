use vstd::prelude::*;

use crate::ast::{items_view, Module};
use crate::codegen::{compile_expr, compile_module, compiled, compiled_module, result_view, CompileError};
use crate::grammar::{expr_text_s, module_items_s, parse_expr_text, parse_program};
use crate::ops::Instruction;

verus! {

/// A compilation result held to a buffer of `capacity` instructions: a longer program is
/// refused whole, never cut short.
pub open spec fn within_capacity<'s>(
    code: Result<Seq<Instruction>, CompileError<'s>>,
    capacity: usize,
) -> Result<Seq<Instruction>, CompileError<'s>> {
    match code {
        Ok(c) => if c.len() > capacity {
            Err(CompileError::Overflow { count: c.len() as usize, capacity })
        } else {
            Ok(c)
        },
        Err(e) => Err(e),
    }
}

/// Compiling an expression never reports an overflow: only the capacity check does.
pub proof fn lemma_compiled_no_overflow<'s>(e: crate::ast::Expr<'s>)
    ensures
        !(compiled(e) matches Err(CompileError::Overflow { .. })),
    decreases e,
{
    match e {
        crate::ast::Expr::Literal(_) => {},
        crate::ast::Expr::FunctionCall(call) => {
            if call.args.len() >= 1 {
                lemma_compiled_no_overflow(call.args[0]);
            }
            if call.args.len() >= 2 {
                lemma_compiled_no_overflow(call.args[1]);
            }
        },
    }
}

/// Compiling a module never reports an overflow: only the capacity check does.
pub proof fn lemma_module_no_overflow<'s>(m: Module<'s>)
    ensures
        !(compiled_module(m) matches Err(CompileError::Overflow { .. })),
{
    if let Some(call) = crate::codegen::first_plot(m.top_level@) {
        if crate::codegen::plot_target_ok(call) {
            let target = call.args[0]->FunctionCall_0.name;
            if let Some(f) = crate::codegen::last_definition(m.top_level@, target@) {
                lemma_compiled_no_overflow(f.body);
            }
        }
    }
}

/// Compiles a module for an evaluator that holds `capacity` instructions.
pub fn compile_checked<'s>(module: &Module<'s>, capacity: usize) -> (r: Result<
    Vec<Instruction>,
    CompileError<'s>,
>)
    ensures
        result_view(r) == within_capacity(compiled_module(*module), capacity),
        r matches Err(CompileError::Overflow { count, capacity: c }) ==> count > capacity && c
            == capacity,
{
    match compile_module(module) {
        Ok(code) => {
            if code.len() > capacity {
                Err(CompileError::Overflow { count: code.len(), capacity })
            } else {
                Ok(code)
            }
        },
        Err(e) => {
            proof {
                lemma_module_no_overflow(*module);
            }
            Err(e)
        },
    }
}

/// Parses a program text and compiles it for an evaluator that holds `capacity`
/// instructions. Statements that do not parse are skipped.
pub fn compile<'s>(source: &'s str, capacity: usize) -> (r: Result<Vec<Instruction>, CompileError<'s>>)
    ensures
        r matches Ok(code) ==> code@.len() <= capacity,
        r matches Err(CompileError::Overflow { count, capacity: c }) ==> count > capacity && c
            == capacity,
        exists|m: Module<'s>|
            items_view(m.top_level@) == module_items_s(source@) && #[trigger] result_view(r)
                == within_capacity(compiled_module(m), capacity),
{
    match parse_program(source) {
        Ok((_, module)) => {
            let r = compile_checked(&module, capacity);
            proof {
                assert(items_view(module.top_level@) == module_items_s(source@));
                assert(result_view(r) == within_capacity(compiled_module(module), capacity));
            }
            r
        },
        Err(e) => {
            proof {
                assert(false);
            }
            Err(CompileError::Syntax(e))
        },
    }
}

/// Parses a text that is one expression and compiles it.
pub fn compile_expression<'s>(text: &'s str) -> (r: Result<Vec<Instruction>, CompileError<'s>>)
    ensures
        match expr_text_s(text@) {
            None => r matches Err(CompileError::Syntax(_)),
            Some(v) => exists|e: crate::ast::Expr<'s>|
                e.view() == v && #[trigger] compiled(e) == result_view(r),
        },
{
    match parse_expr_text(text) {
        Ok(e) => {
            let r = compile_expr(&e);
            proof {
                assert(e.view() == expr_text_s(text@)->Some_0 && compiled(e) == result_view(r));
            }
            r
        },
        Err(err) => Err(CompileError::Syntax(err)),
    }
}

} // verus!
