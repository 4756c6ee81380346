use vstd::prelude::*;

use crate::ast::{
    args_view, function_call, items_view, neg_i32, params_view, varref, Expr, ExprView, FunctionCall,
    LiteralView, Mapping, Module, Param, TopLevel, TopLevelView, Type, TypeDecl,
};
use crate::cursor::{head, Cursor};
use crate::error::{PError, PResult};
use crate::helpers::{
    after_space, ident, ident_len, ident_s, is_name_char, is_space, lemma_run_len, lemma_run_len_bound, run_len,
    starts_with, tok_chr, tok_chr_s, tok_ident, tok_keyword, whitespace,
};
use crate::literal::{literal_s, parse_literal};
use crate::primitives::keyword;
use crate::text::same_text;

verus! {

/// Whether the character under the cursor is `c`.
fn at_char<'s>(src: Cursor<'s>, c: char) -> (r: bool)
    ensures
        r == (src.peek() == Some(c)),
{
    src.cur_char() == Some(c)
}

/// The binary operators: symbol, precedence (higher binds tighter) and whether the
/// operator groups to the right. Longer symbols come before their prefixes.
pub open spec fn operator_table() -> Seq<(Seq<char>, u8, bool)> {
    seq![
        ("=="@, 1u8, false),
        ("!="@, 1u8, false),
        ("<="@, 1u8, false),
        ("<"@, 1u8, false),
        (">="@, 1u8, false),
        (">"@, 1u8, false),
        ("+"@, 2u8, false),
        ("-"@, 2u8, false),
        ("*"@, 3u8, false),
        ("/"@, 3u8, false),
        ("^"@, 4u8, true),
    ]
}

/// The operator table, in order of preference.
pub fn get_operator_info() -> (r: Vec<(&'static str, u8, bool)>)
    ensures
        r@.len() == operator_table().len(),
        forall|i: int|
            0 <= i < r@.len() ==> ((#[trigger] r@[i]).0@, r@[i].1, r@[i].2) == operator_table()[i],
        forall|i: int| 0 <= i < r@.len() ==> 1 <= (#[trigger] r@[i]).1 <= 4 && r@[i].0@.len() > 0,
{
    let v = vec![
        ("==", 1u8, false),
        ("!=", 1u8, false),
        ("<=", 1u8, false),
        ("<", 1u8, false),
        (">=", 1u8, false),
        (">", 1u8, false),
        ("+", 2u8, false),
        ("-", 2u8, false),
        ("*", 3u8, false),
        ("/", 3u8, false),
        ("^", 4u8, true),
    ];
    proof {
        reveal_strlit("==");
        reveal_strlit("!=");
        reveal_strlit("<=");
        reveal_strlit("<");
        reveal_strlit(">=");
        reveal_strlit(">");
        reveal_strlit("+");
        reveal_strlit("-");
        reveal_strlit("*");
        reveal_strlit("/");
        reveal_strlit("^");
    }
    v
}

/// The binary operator after optional whitespace, if any: the first entry of the operator
/// table whose symbol comes next. Nothing is consumed.
pub fn peek_binary_operator<'s>(src: Cursor<'s>) -> (r: Option<(&'static str, u8, bool)>)
    ensures
        match r {
            Some((op, prec, right)) => exists|i: int|
                0 <= i < operator_table().len() && operator_table()[i] == (op@, prec, right)
                    && starts_with(after_space(src.rest()), op@) && forall|j: int|
                    0 <= j < i ==> !starts_with(
                        after_space(src.rest()),
                        (#[trigger] operator_table()[j]).0,
                    ),
            None => forall|j: int|
                0 <= j < operator_table().len() ==> !starts_with(
                    after_space(src.rest()),
                    (#[trigger] operator_table()[j]).0,
                ),
        },
        r matches Some((op, prec, _)) ==> 1 <= prec <= 4 && op@.len() > 0,
{
    let s = match whitespace(src) {
        Ok((s, _)) => s,
        Err(_) => src,
    };
    let ops = get_operator_info();
    let mut i: usize = 0;
    while i < ops.len()
        invariant
            s.rest() == after_space(src.rest()),
            i <= ops@.len(),
            ops@.len() == operator_table().len(),
            forall|k: int|
                0 <= k < ops@.len() ==> ((#[trigger] ops@[k]).0@, ops@[k].1, ops@[k].2)
                    == operator_table()[k],
            forall|k: int|
                0 <= k < ops@.len() ==> 1 <= (#[trigger] ops@[k]).1 <= 4 && ops@[k].0@.len() > 0,
            forall|j: int|
                0 <= j < i ==> !starts_with(s.rest(), (#[trigger] operator_table()[j]).0),
        decreases ops@.len() - i,
    {
        let (op, prec, right) = ops[i];
        if keyword(op, s).is_ok() {
            proof {
                assert(operator_table()[i as int] == (op@, prec, right));
            }
            return Some((op, prec, right));
        }
        proof {
            assert(operator_table()[i as int].0 == op@);
        }
        i = i + 1;
    }
    None
}

/// The first entry of the operator table, from the `i`-th on, whose symbol starts `a`.
pub open spec fn first_op(a: Seq<char>, i: nat) -> Option<(Seq<char>, u8, bool)>
    decreases operator_table().len() - i,
{
    if i >= operator_table().len() {
        None
    } else if starts_with(a, operator_table()[i as int].0) {
        Some(operator_table()[i as int])
    } else {
        first_op(a, i + 1)
    }
}

/// The binary operator after the whitespace at the start of `s`.
pub open spec fn peek_s(s: Seq<char>) -> Option<(Seq<char>, u8, bool)> {
    first_op(after_space(s), 0)
}

/// The text after whitespace, the operator `op` and whitespace at the start of `s`.
pub open spec fn op_s(s: Seq<char>, op: Seq<char>) -> Option<Seq<char>> {
    if starts_with(after_space(s), op) {
        Some(after_space(after_space(s).skip(op.len() as int)))
    } else {
        None
    }
}

/// Unary minus on a tree: folded into a literal, a flag on a call.
pub open spec fn neg_view(v: ExprView) -> ExprView {
    match v {
        ExprView::Literal(LiteralView::Int(n)) => ExprView::Literal(LiteralView::Int(neg_i32(n))),
        ExprView::Literal(LiteralView::Float(d)) => ExprView::Literal(LiteralView::Float(d.neg_spec())),
        ExprView::Literal(LiteralView::Bool(b)) => ExprView::Literal(LiteralView::Bool(!b)),
        ExprView::Literal(LiteralView::Str(t)) => ExprView::Literal(LiteralView::Str(t)),
        ExprView::Call(n, args, neg) => ExprView::Call(n, args, !neg),
    }
}

/// The binary node `op(left, right)`.
pub open spec fn binary(op: Seq<char>, left: ExprView, right: ExprView) -> ExprView {
    ExprView::Call(op, seq![left, right], false)
}

/// An expression at the start of `s`, and the text after it.
pub open spec fn expr_s(s: Seq<char>) -> Option<(Seq<char>, ExprView)>
    decreases s.len(), 5nat,
{
    pewp_s(s, 0)
}

/// A prefix expression, then operators of precedence `min` or more (precedence climbing).
pub open spec fn pewp_s(s: Seq<char>, min: u8) -> Option<(Seq<char>, ExprView)>
    decreases s.len(), 4nat,
{
    match prefix_s(s) {
        Some((r, left)) => if r.len() < s.len() {
            climb_s(r, left, min)
        } else {
            None
        },
        None => None,
    }
}

/// After `left` at `r`: while an operator of precedence `min` or more follows, its right
/// operand (which binds higher precedences, or equal ones to the right) joins `left`.
pub open spec fn climb_s(r: Seq<char>, left: ExprView, min: u8) -> Option<(Seq<char>, ExprView)>
    decreases r.len(), 4nat,
{
    match peek_s(r) {
        None => Some((r, left)),
        Some((op, prec, right_assoc)) => if prec < min {
            Some((r, left))
        } else {
            match op_s(r, op) {
                None => None,
                Some(r1) => if r1.len() < r.len() && prec < 255 {
                    match pewp_s(
                        r1,
                        if right_assoc {
                            prec
                        } else {
                            (prec + 1) as u8
                        },
                    ) {
                        None => None,
                        Some((r2, right)) => if r2.len() < r1.len() {
                            climb_s(r2, binary(op, left, right), min)
                        } else {
                            None
                        },
                    }
                } else {
                    None
                },
            }
        },
    }
}

/// A prefix expression: `-` or `+` before a prefix expression, `(` expression `)`, or a
/// primary.
pub open spec fn prefix_s(s: Seq<char>) -> Option<(Seq<char>, ExprView)>
    decreases s.len(), 3nat,
{
    match tok_chr_s('-', s) {
        Some(r) => if r.len() < s.len() {
            match prefix_s(r) {
                Some((r2, e)) => Some((r2, neg_view(e))),
                None => None,
            }
        } else {
            None
        },
        None => match tok_chr_s('+', s) {
            Some(r) => if r.len() < s.len() {
                prefix_s(r)
            } else {
                None
            },
            None => match tok_chr_s('(', s) {
                Some(r) => if r.len() < s.len() {
                    paren_s(r)
                } else {
                    None
                },
                None => primary_s(s),
            },
        },
    }
}

/// An expression and `)`, after a `(`.
pub open spec fn paren_s(r: Seq<char>) -> Option<(Seq<char>, ExprView)>
    decreases r.len(), 6nat,
{
    match expr_s(r) {
        Some((r2, e)) => match tok_chr_s(')', r2) {
            Some(r3) => Some((r3, e)),
            None => None,
        },
        None => None,
    }
}

/// A primary: a literal or an uncalled name (each possibly multiplied implicitly), a call,
/// or `(` expression `)`.
pub open spec fn primary_s(s: Seq<char>) -> Option<(Seq<char>, ExprView)>
    decreases s.len(), 2nat,
{
    match literal_s(s) {
        Some((r, l)) => if r.len() < s.len() {
            implicit_s(r, ExprView::Literal(l))
        } else {
            None
        },
        None => match ident_s(s) {
            Some((r, name)) => if head(r) == Some('(') {
                match fn_call_s(s) {
                    Some((r2, call)) => Some((r2, ExprView::Call(call.0, call.1, false))),
                    None => None,
                }
            } else if r.len() < s.len() {
                implicit_s(r, ExprView::Call(name, seq![], false))
            } else {
                None
            },
            None => match tok_chr_s('(', s) {
                Some(r) => if r.len() < s.len() {
                    paren_s(r)
                } else {
                    None
                },
                None => None,
            },
        },
    }
}

/// After `left` at `cur`: while whitespace and a factor follow, `left` times that factor.
/// Whitespace that no factor follows is consumed.
pub open spec fn implicit_s(cur: Seq<char>, left: ExprView) -> Option<(Seq<char>, ExprView)>
    decreases cur.len(), 1nat,
{
    let s2 = after_space(cur);
    if s2.len() >= cur.len() {
        Some((cur, left))
    } else {
        match factor_s(s2) {
            Some((r, right)) => if r.len() < s2.len() {
                implicit_s(r, binary("*"@, left, right))
            } else {
                None
            },
            None => Some((s2, left)),
        }
    }
}

/// A factor of implicit multiplication at the start of `s`: `(` expression `)`, a literal,
/// or a name not followed by `(`.
pub open spec fn factor_s(s: Seq<char>) -> Option<(Seq<char>, ExprView)>
    decreases s.len(), 1nat,
{
    if head(s) == Some('(') {
        match tok_chr_s('(', s) {
            Some(r) => if r.len() < s.len() {
                paren_s(r)
            } else {
                None
            },
            None => None,
        }
    } else {
        match literal_s(s) {
            Some((r, l)) => Some((r, ExprView::Literal(l))),
            None => {
                let k = ident_len(s);
                if k > 0 && head(s.skip(k as int)) != Some('(') {
                    Some((s.skip(k as int), ExprView::Call(s.take(k as int), seq![], false)))
                } else {
                    None
                }
            },
        }
    }
}

/// A call `name(args)` at the start of `s`: its name and arguments, and the text after it.
pub open spec fn fn_call_s(s: Seq<char>) -> Option<(Seq<char>, (Seq<char>, Seq<ExprView>))>
    decreases s.len(), 1nat,
{
    match ident_s(s) {
        None => None,
        Some((r, name)) => match tok_chr_s('(', r) {
            None => None,
            Some(r1) => if r1.len() < s.len() {
                match args_s(r1) {
                    None => None,
                    Some((r2, args)) => match tok_chr_s(')', r2) {
                        Some(r3) => Some((r3, (name, args))),
                        None => None,
                    },
                }
            } else {
                None
            },
        },
    }
}

/// Zero or more expressions separated by `,` at the start of `s`.
pub open spec fn args_s(s: Seq<char>) -> Option<(Seq<char>, Seq<ExprView>)>
    decreases s.len(), 6nat,
{
    match expr_s(s) {
        None => Some((s, seq![])),
        Some((r, first)) => if r.len() < s.len() {
            args_more_s(r, seq![first])
        } else {
            None
        },
    }
}

/// Further arguments `, expr` after the arguments `acc` at `cur`.
pub open spec fn args_more_s(cur: Seq<char>, acc: Seq<ExprView>) -> Option<(Seq<char>, Seq<ExprView>)>
    decreases cur.len(), 6nat,
{
    match tok_chr_s(',', cur) {
        None => Some((cur, acc)),
        Some(r) => if r.len() < cur.len() {
            match expr_s(r) {
                Some((r2, a)) => if r2.len() < r.len() {
                    args_more_s(r2, acc.push(a))
                } else {
                    None
                },
                None => Some((cur, acc)),
            }
        } else {
            None
        },
    }
}

/// The parse result as the text after it and the tree's view.
pub open spec fn expr_result<'s>(r: PResult<'s, Expr<'s>>) -> Option<(Seq<char>, ExprView)> {
    match r {
        Ok((next, e)) => Some((next.rest(), e.view())),
        Err(_) => None,
    }
}

proof fn lemma_binary_view<'s>(name: &'s str, args: Vec<Expr<'s>>, left: Expr<'s>, right: Expr<'s>)
    requires
        args@ == seq![left, right],
    ensures
        function_call_view(name, args) == binary(name@, left.view(), right.view()),
{
    assert(args_view(args@) =~= seq![left.view(), right.view()]);
}

/// The view of `function_call(name, args)`.
pub open spec fn function_call_view<'s>(name: &'s str, args: Vec<Expr<'s>>) -> ExprView {
    ExprView::Call(name@, args_view(args@), false)
}

/// Skips whitespace, consumes the operator `op`, then skips whitespace after it.
pub fn parse_op<'s>(op: &str, src: Cursor<'s>) -> (r: PResult<'s, &'s str>)
    ensures
        match r {
            Ok((next, found)) => {
                &&& found@ == op@
                &&& starts_with(after_space(src.rest()), op@)
                &&& next.follows(src)
                &&& (op@.len() > 0 ==> next.progressed(src))
                &&& op_s(src.rest(), op@) == Some(next.rest())
            },
            Err(_) => !starts_with(after_space(src.rest()), op@) && op_s(src.rest(), op@) is None,
        },
{
    let (s, found) = match tok_keyword(op, src) {
        Ok(x) => x,
        Err(e) => {
            return Err(e.context("Expected operator"));
        },
    };
    match whitespace(s) {
        Ok((s, _)) => Ok((s, found)),
        Err(e) => Err(e),
    }
}

/// An expression: binary operators by precedence over prefix expressions.
pub fn expr<'s>(src: Cursor<'s>) -> (r: PResult<'s, Expr<'s>>)
    ensures
        r matches Ok((next, _)) ==> next.progressed(src),
        expr_result(r) == expr_s(src.rest()),
    decreases src.rest().len(), 5nat,
{
    parse_expression_with_precedence(src, 0)
}

/// Precedence climbing: a prefix expression, then each following operator of precedence
/// `min_prec` or more with its right operand, which binds operators of higher precedence
/// (or equal, for a right-associative operator).
fn parse_expression_with_precedence<'s>(src: Cursor<'s>, min_prec: u8) -> (r: PResult<'s, Expr<'s>>)
    ensures
        r matches Ok((next, _)) ==> next.progressed(src),
        expr_result(r) == pewp_s(src.rest(), min_prec),
    decreases src.rest().len(), 4nat,
{
    let (mut cur, mut left) = match parse_prefix_expression(src) {
        Ok(x) => x,
        Err(e) => {
            return Err(e);
        },
    };
    loop
        invariant
            cur.progressed(src),
            pewp_s(src.rest(), min_prec) == climb_s(cur.rest(), left.view(), min_prec),
        ensures
            cur.progressed(src),
            pewp_s(src.rest(), min_prec) == Some((cur.rest(), left.view())),
        decreases cur.rest().len(),
    {
        let (op, prec, right_assoc) = match peek_binary_operator(cur) {
            Some(x) => x,
            None => {
                proof {
                    lemma_peek_none(cur.rest());
                }
                break ;
            },
        };
        proof {
            lemma_peek_some(cur.rest(), op@, prec, right_assoc);
        }
        if prec < min_prec {
            break ;
        }
        let (next, name) = match parse_op(op, cur) {
            Ok(x) => x,
            Err(e) => {
                return Err(e);
            },
        };
        let next_min = if right_assoc {
            prec
        } else {
            prec + 1
        };
        let (next2, right) = match parse_expression_with_precedence(next, next_min) {
            Ok(x) => x,
            Err(e) => {
                return Err(e);
            },
        };
        let ghost l = left;
        let ghost rt = right;
        let mut args = Vec::new();
        args.push(left);
        args.push(right);
        proof {
            assert(args@ =~= seq![l, rt]);
            lemma_binary_view(name, args, l, rt);
        }
        left = function_call(name, args);
        cur = next2;
    }
    Ok((cur, left))
}

proof fn lemma_first_op_none(a: Seq<char>, i: nat)
    requires
        forall|j: int| i <= j < operator_table().len() ==> !starts_with(a, (#[trigger] operator_table()[j]).0),
    ensures
        first_op(a, i) is None,
    decreases operator_table().len() - i,
{
    if i < operator_table().len() {
        lemma_first_op_none(a, i + 1);
    }
}

proof fn lemma_first_op_at(a: Seq<char>, i: nat, k: nat)
    requires
        i <= k < operator_table().len(),
        starts_with(a, operator_table()[k as int].0),
        forall|j: int| i <= j < k ==> !starts_with(a, (#[trigger] operator_table()[j]).0),
    ensures
        first_op(a, i) == Some(operator_table()[k as int]),
    decreases k - i,
{
    if i < k {
        lemma_first_op_at(a, i + 1, k);
    }
}

proof fn lemma_peek_none(s: Seq<char>)
    requires
        forall|j: int|
            0 <= j < operator_table().len() ==> !starts_with(after_space(s), (#[trigger] operator_table()[j]).0),
    ensures
        peek_s(s) is None,
{
    lemma_first_op_none(after_space(s), 0);
}

proof fn lemma_peek_some(s: Seq<char>, op: Seq<char>, prec: u8, right: bool)
    requires
        exists|i: int|
            0 <= i < operator_table().len() && operator_table()[i] == (op, prec, right) && starts_with(
                after_space(s),
                op,
            ) && forall|j: int|
                0 <= j < i ==> !starts_with(after_space(s), (#[trigger] operator_table()[j]).0),
    ensures
        peek_s(s) == Some((op, prec, right)),
{
    let i = choose|i: int|
        0 <= i < operator_table().len() && operator_table()[i] == (op, prec, right) && starts_with(
            after_space(s),
            op,
        ) && forall|j: int|
            0 <= j < i ==> !starts_with(after_space(s), (#[trigger] operator_table()[j]).0);
    lemma_first_op_at(after_space(s), 0, i as nat);
}

/// A prefix expression: `-` or `+` before a prefix expression, a parenthesized expression,
/// or a primary. A minus is folded into a literal and recorded on a call.
fn parse_prefix_expression<'s>(src: Cursor<'s>) -> (r: PResult<'s, Expr<'s>>)
    ensures
        r matches Ok((next, _)) ==> next.progressed(src),
        expr_result(r) == prefix_s(src.rest()),
    decreases src.rest().len(), 3nat,
{
    if let Ok((s, _)) = tok_chr('-', src) {
        return match parse_prefix_expression(s) {
            Ok((next, e)) => {
                let ghost ge = e;
                let n = e.neg();
                proof {
                    assert(n.view() == neg_view(ge.view()));
                }
                Ok((next, n))
            },
            Err(e) => Err(e),
        };
    }
    if let Ok((s, _)) = tok_chr('+', src) {
        return parse_prefix_expression(s);
    }
    if let Ok((s, _)) = tok_chr('(', src) {
        return parenthesized_rest(s, src);
    }
    match primary(src) {
        Ok(x) => Ok(x),
        Err(e) => Err(e.context("[parse_prefix] Couldn't match any prefix expression")),
    }
}

/// The rest of a parenthesized expression after its `(`: an expression, then `)`.
fn parenthesized_rest<'s>(s: Cursor<'s>, start: Cursor<'s>) -> (r: PResult<'s, Expr<'s>>)
    requires
        s.progressed(start),
    ensures
        r matches Ok((next, _)) ==> next.progressed(start),
        expr_result(r) == paren_s(s.rest()),
    decreases s.rest().len(), 6nat,
{
    let (s2, e) = match expr(s) {
        Ok(x) => x,
        Err(e) => {
            return Err(e);
        },
    };
    match tok_chr(')', s2) {
        Ok((s3, _)) => Ok((s3, e)),
        Err(e) => Err(e.context("Expected ')'")),
    }
}

/// A primary expression: a literal, a call `name(args)`, a name, or a parenthesized
/// expression. After a literal or a name, whitespace followed by a literal, a name that
/// is not called, or `(` multiplies: `2 x` is `2 * x`.
pub fn primary<'s>(src: Cursor<'s>) -> (r: PResult<'s, Expr<'s>>)
    ensures
        r matches Ok((next, _)) ==> next.progressed(src),
        expr_result(r) == primary_s(src.rest()),
    decreases src.rest().len(), 2nat,
{
    if let Ok((s, lit)) = parse_literal(src) {
        return try_implicit_multiplication(s, Expr::Literal(lit), src);
    }
    if let Ok((s, name)) = tok_ident(src) {
        if at_char(s, '(') {
            return match parse_fn_call(src) {
                Ok((next, call)) => Ok((next, Expr::FunctionCall(call))),
                Err(e) => Err(e),
            };
        }
        let v = varref(name);
        proof {
            assert(args_view(Seq::<Expr<'s>>::empty()) =~= Seq::<ExprView>::empty());
        }
        return try_implicit_multiplication(s, v, src);
    }
    if let Ok((s, _)) = tok_chr('(', src) {
        return parenthesized_rest(s, src);
    }
    Err(PError::at("[parse_primary] No parser succeeded", src.ctx()))
}

/// A factor that may follow a literal or a name by implicit multiplication: `(` expr `)`,
/// a literal, or a name not followed by `(`.
fn implicit_factor<'s>(src: Cursor<'s>) -> (r: Option<(Cursor<'s>, Expr<'s>)>)
    ensures
        r matches Some((next, _)) ==> next.progressed(src),
        factor_s(src.rest()) == match r {
            Some((next, e)) => Some((next.rest(), e.view())),
            None => None,
        },
    decreases src.rest().len(), 1nat,
{
    if at_char(src, '(') {
        return match tok_chr('(', src) {
            Ok((s, _)) => match parenthesized_rest(s, src) {
                Ok(x) => Some(x),
                Err(_) => None,
            },
            Err(_) => None,
        };
    }
    if let Ok((s, lit)) = parse_literal(src) {
        return Some((s, Expr::Literal(lit)));
    }
    proof {
        if src.rest().len() > 0 {
            lemma_run_len_bound(src.rest().drop_first(), is_name_char());
        }
    }
    if let Ok((s, name)) = ident(src) {
        if !at_char(s, '(') {
            let v = varref(name);
            proof {
                assert(args_view(Seq::<Expr<'s>>::empty()) =~= Seq::<ExprView>::empty());
            }
            return Some((s, v));
        }
    }
    None
}

/// After a literal or a name `left` ending at `src`: while whitespace and then a factor
/// follow, multiplies `left` by that factor.
fn try_implicit_multiplication<'s>(src: Cursor<'s>, left: Expr<'s>, start: Cursor<'s>) -> (r: PResult<
    's,
    Expr<'s>,
>)
    requires
        src.progressed(start),
    ensures
        r matches Ok((next, _)) ==> next.progressed(start),
        expr_result(r) == implicit_s(src.rest(), left.view()),
    decreases start.rest().len(), 1nat,
{
    let ghost init = left.view();
    let mut cur = src;
    let mut left = left;
    loop
        invariant_except_break
            implicit_s(src.rest(), init) == implicit_s(cur.rest(), left.view()),
        invariant
            cur.progressed(start),
        ensures
            cur.progressed(start),
            implicit_s(src.rest(), init) == Some((cur.rest(), left.view())),
        decreases cur.rest().len(),
    {
        let s = match whitespace(cur) {
            Ok((s, _)) => s,
            Err(_) => cur,
        };
        if s.remainder().unicode_len() == cur.remainder().unicode_len() {
            break ;
        }
        match implicit_factor(s) {
            Some((next, right)) => {
                let ghost l = left;
                let ghost rt = right;
                let mut args = Vec::new();
                args.push(left);
                args.push(right);
                proof {
                    assert(args@ =~= seq![l, rt]);
                    lemma_binary_view("*", args, l, rt);
                    reveal_strlit("*");
                }
                left = function_call("*", args);
                cur = next;
            },
            None => {
                cur = s;
                break ;
            },
        }
    }
    Ok((cur, left))
}

/// A call `name(arg, ...)` with zero or more arguments.
pub fn parse_fn_call<'s>(src: Cursor<'s>) -> (r: PResult<'s, FunctionCall<'s>>)
    ensures
        r matches Ok((next, _)) ==> next.progressed(src),
        match r {
            Ok((next, call)) => !call.is_negated && fn_call_s(src.rest()) == Some(
                (next.rest(), (call.name@, args_view(call.args@))),
            ),
            Err(_) => fn_call_s(src.rest()) is None,
        },
    decreases src.rest().len(), 1nat,
{
    let (s, name) = match tok_ident(src) {
        Ok(x) => x,
        Err(e) => {
            return Err(e.context("Couldn't parse function name"));
        },
    };
    let (s, _) = match tok_chr('(', s) {
        Ok(x) => x,
        Err(e) => {
            return Err(e.context("Expected '(' after function name"));
        },
    };
    let (s, args) = match parse_comma_separated_args(s) {
        Ok(x) => x,
        Err(e) => {
            return Err(e.context("Couldn't parse function arguments"));
        },
    };
    match tok_chr(')', s) {
        Ok((s, _)) => Ok((s, FunctionCall { name, args, is_negated: false })),
        Err(e) => Err(e.context("Expected ')' after function arguments")),
    }
}

/// Zero or more expressions separated by `,`.
fn parse_comma_separated_args<'s>(src: Cursor<'s>) -> (r: PResult<'s, Vec<Expr<'s>>>)
    ensures
        r matches Ok((next, _)) ==> next.follows(src),
        match r {
            Ok((next, args)) => args_s(src.rest()) == Some((next.rest(), args_view(args@))),
            Err(_) => args_s(src.rest()) is None,
        },
    decreases src.rest().len(), 6nat,
{
    let (first_end, first) = match expr(src) {
        Ok(x) => x,
        Err(_) => {
            proof {
                assert(args_view(Seq::<Expr<'s>>::empty()) =~= Seq::<ExprView>::empty());
            }
            return Ok((src, Vec::new()));
        },
    };
    let mut args = Vec::new();
    let ghost f = first;
    args.push(first);
    proof {
        assert(args_view(args@) =~= seq![f.view()]);
    }
    let mut cur = first_end;
    loop
        invariant
            cur.progressed(src),
            args_s(src.rest()) == args_more_s(cur.rest(), args_view(args@)),
        ensures
            cur.progressed(src),
            args_s(src.rest()) == Some((cur.rest(), args_view(args@))),
        decreases cur.rest().len(),
    {
        let s = match tok_chr(',', cur) {
            Ok((s, _)) => s,
            Err(_) => {
                break ;
            },
        };
        match expr(s) {
            Ok((next, arg)) => {
                let ghost before = args@;
                let ghost a = arg;
                args.push(arg);
                proof {
                    assert(args_view(args@) =~= args_view(before).push(a.view()));
                }
                cur = next;
            },
            Err(_) => {
                break ;
            },
        }
    }
    Ok((cur, args))
}

/// The type named after the whitespace at the start of `s`, and the text after it.
pub open spec fn type_s(s: Seq<char>) -> Option<(Seq<char>, Type)> {
    let a = after_space(s);
    if starts_with(a, "int"@) {
        Some((a.skip("int"@.len() as int), Type::Int))
    } else if starts_with(a, "string"@) {
        Some((a.skip("string"@.len() as int), Type::String))
    } else if starts_with(a, "bool"@) {
        Some((a.skip("bool"@.len() as int), Type::Bool))
    } else {
        None
    }
}

/// A type name: `int`, `string` or `bool`.
pub fn parse_type<'s>(src: Cursor<'s>) -> (r: PResult<'s, Type>)
    ensures
        r matches Ok((next, _)) ==> next.progressed(src),
        match r {
            Ok((next, t)) => type_s(src.rest()) == Some((next.rest(), t)),
            Err(_) => type_s(src.rest()) is None,
        },
{
    proof {
        reveal_strlit("int");
        reveal_strlit("string");
        reveal_strlit("bool");
    }
    if let Ok((s, _)) = tok_keyword("int", src) {
        return Ok((s, Type::Int));
    }
    if let Ok((s, _)) = tok_keyword("string", src) {
        return Ok((s, Type::String));
    }
    match tok_keyword("bool", src) {
        Ok((s, _)) => Ok((s, Type::Bool)),
        Err(e) => Err(e.context("[parse_type]")),
    }
}

/// Further types `-> type` after the types `acc` at `cur`.
pub open spec fn types_more_s(cur: Seq<char>, acc: Seq<Type>) -> Option<(Seq<char>, Seq<Type>)>
    decreases cur.len(),
{
    if starts_with(after_space(cur), "->"@) {
        let r = after_space(cur).skip("->"@.len() as int);
        match type_s(r) {
            Some((r2, t)) => if r2.len() < cur.len() {
                types_more_s(r2, acc.push(t))
            } else {
                None
            },
            None => None,
        }
    } else {
        Some((cur, acc))
    }
}

/// A type declaration `name :: type (-> type)*` at the start of `s`: name and types.
pub open spec fn type_decl_s(s: Seq<char>) -> Option<(Seq<char>, (Seq<char>, Seq<Type>))> {
    match ident_s(s) {
        None => None,
        Some((r, name)) => if starts_with(after_space(r), "::"@) {
            match type_s(after_space(r).skip("::"@.len() as int)) {
                None => None,
                Some((r2, t)) => match types_more_s(r2, seq![t]) {
                    Some((r3, ts)) => Some((r3, (name, ts))),
                    None => None,
                },
            }
        } else {
            None
        },
    }
}

/// A type declaration `name :: type (-> type)*`.
pub fn parse_type_decl<'s>(src: Cursor<'s>) -> (r: PResult<'s, TypeDecl<'s>>)
    ensures
        r matches Ok((next, _)) ==> next.progressed(src),
        match r {
            Ok((next, d)) => type_decl_s(src.rest()) == Some((next.rest(), (d.name@, d.params@))),
            Err(_) => type_decl_s(src.rest()) is None,
        },
{
    let (s, name) = match tok_ident(src) {
        Ok(x) => x,
        Err(e) => {
            return Err(e.context("Could not parse type name"));
        },
    };
    proof {
        reveal_strlit("::");
        reveal_strlit("->");
    }
    let (s, _) = match tok_keyword("::", s) {
        Ok(x) => x,
        Err(e) => {
            return Err(e.context("Could not find '::'"));
        },
    };
    let (s, first) = match parse_type(s) {
        Ok(x) => x,
        Err(e) => {
            return Err(e.context("Could not parse type params"));
        },
    };
    let mut params = Vec::new();
    params.push(first);
    proof {
        assert(params@ =~= seq![first]);
    }
    let mut cur = s;
    loop
        invariant
            cur.progressed(src),
            type_decl_s(src.rest()) == match types_more_s(cur.rest(), params@) {
                Some((r3, ts)) => Some((r3, (name@, ts))),
                None => None,
            },
        ensures
            cur.progressed(src),
            type_decl_s(src.rest()) == Some((cur.rest(), (name@, params@))),
        decreases cur.rest().len(),
    {
        proof {
            reveal_strlit("->");
        }
        let s = match tok_keyword("->", cur) {
            Ok((s, _)) => s,
            Err(_) => {
                break ;
            },
        };
        match parse_type(s) {
            Ok((next, t)) => {
                params.push(t);
                cur = next;
            },
            Err(e) => {
                return Err(e.context("Could not parse type after '->'"));
            },
        }
    }
    Ok((cur, TypeDecl { name, params }))
}

/// Whether `params` already holds a parameter called `name`.
fn has_param<'s>(params: &Vec<Param<'s>>, name: &str) -> (r: bool)
    ensures
        r == params_view(params@).contains(name@),
{
    let mut i: usize = 0;
    while i < params.len()
        invariant
            i <= params@.len(),
            forall|j: int| 0 <= j < i ==> (#[trigger] params@[j]).0@ != name@,
        decreases params@.len() - i,
    {
        if same_text(params[i].0, name) {
            proof {
                assert(params_view(params@)[i as int] == name@);
            }
            return true;
        }
        i = i + 1;
    }
    proof {
        if params_view(params@).contains(name@) {
            let j = choose|j: int| 0 <= j < params_view(params@).len() && params_view(params@)[j] == name@;
            assert(params@[j].0@ == name@);
        }
    }
    false
}

/// A parameter: a name.
pub fn parse_param<'s>(src: Cursor<'s>) -> (r: PResult<'s, Param<'s>>)
    ensures
        r matches Ok((next, _)) ==> next.progressed(src),
        match r {
            Ok((next, p)) => ident_s(src.rest()) == Some((next.rest(), p.0@)),
            Err(_) => ident_s(src.rest()) is None,
        },
{
    match tok_ident(src) {
        Ok((s, name)) => Ok((s, Param(name))),
        Err(e) => Err(e),
    }
}

/// Further parameters `, name` after the names `acc` at `cur`; a repeated name is refused.
pub open spec fn params_more_s(cur: Seq<char>, acc: Seq<Seq<char>>) -> Option<(Seq<char>, Seq<Seq<char>>)>
    decreases cur.len(),
{
    match tok_chr_s(',', cur) {
        None => Some((cur, acc)),
        Some(r) => match ident_s(r) {
            None => None,
            Some((r2, p)) => if acc.contains(p) {
                None
            } else if r2.len() < cur.len() {
                params_more_s(r2, acc.push(p))
            } else {
                None
            },
        },
    }
}

/// A parameter list at the start of `s`: one or more distinct names separated by `,`.
pub open spec fn paramlist_s(s: Seq<char>) -> Option<(Seq<char>, Seq<Seq<char>>)> {
    match ident_s(s) {
        None => None,
        Some((r, p)) => params_more_s(r, seq![p]),
    }
}

/// A parameter list: one or more distinct names separated by `,`.
pub fn paramlist<'s>(src: Cursor<'s>) -> (r: PResult<'s, Vec<Param<'s>>>)
    ensures
        r matches Ok((next, _)) ==> next.progressed(src),
        match r {
            Ok((next, ps)) => paramlist_s(src.rest()) == Some((next.rest(), params_view(ps@))),
            Err(_) => paramlist_s(src.rest()) is None,
        },
{
    let mut params: Vec<Param<'s>> = Vec::new();
    let (s, p) = match parse_param(src) {
        Ok(x) => x,
        Err(e) => {
            return Err(e.context("Could not parse params"));
        },
    };
    let ghost gp = p;
    params.push(p);
    proof {
        assert(params_view(params@) =~= seq![gp.0@]);
    }
    let mut cur = s;
    loop
        invariant
            cur.progressed(src),
            paramlist_s(src.rest()) == params_more_s(cur.rest(), params_view(params@)),
        ensures
            cur.progressed(src),
            paramlist_s(src.rest()) == Some((cur.rest(), params_view(params@))),
        decreases cur.rest().len(),
    {
        let s = match tok_chr(',', cur) {
            Ok((s, _)) => s,
            Err(_) => {
                break ;
            },
        };
        let (s, p) = match parse_param(s) {
            Ok(x) => x,
            Err(e) => {
                return Err(e.context("Could not parse params"));
            },
        };
        if has_param(&params, p.0) {
            return Err(PError::at("Duplicate parameter name", s.ctx()));
        }
        let ghost before = params@;
        let ghost gp = p;
        params.push(p);
        proof {
            assert(params_view(params@) =~= params_view(before).push(gp.0@));
        }
        cur = s;
    }
    Ok((cur, params))
}

/// A definition `name = expr` at the start of `s`.
pub open spec fn var_assign_s(s: Seq<char>) -> Option<(Seq<char>, (Seq<char>, Seq<Seq<char>>, ExprView))> {
    match ident_s(s) {
        None => None,
        Some((r, name)) => match tok_chr_s('=', r) {
            None => None,
            Some(r1) => match expr_s(r1) {
                Some((r2, body)) => Some((r2, (name, seq![], body))),
                None => None,
            },
        },
    }
}

/// The parameters in parentheses after `(` at the start of `s`: `)` for none, else a
/// parameter list and `)`.
pub open spec fn params_paren_s(s: Seq<char>) -> Option<(Seq<char>, Seq<Seq<char>>)> {
    match tok_chr_s(')', s) {
        Some(r) => Some((r, seq![])),
        None => match paramlist_s(s) {
            None => None,
            Some((r, ps)) => match tok_chr_s(')', r) {
                Some(r2) => Some((r2, ps)),
                None => None,
            },
        },
    }
}

/// A definition `name(params) = expr` at the start of `s`.
pub open spec fn fn_decl_s(s: Seq<char>) -> Option<(Seq<char>, (Seq<char>, Seq<Seq<char>>, ExprView))> {
    match ident_s(s) {
        None => None,
        Some((r, name)) => match tok_chr_s('(', r) {
            None => None,
            Some(r1) => match params_paren_s(r1) {
                None => None,
                Some((r2, ps)) => match tok_chr_s('=', r2) {
                    None => None,
                    Some(r3) => match expr_s(r3) {
                        Some((r4, body)) => Some((r4, (name, ps, body))),
                        None => None,
                    },
                },
            },
        },
    }
}

/// A definition at the start of `s`: with a parameter list, else without.
pub open spec fn mapping_s(s: Seq<char>) -> Option<(Seq<char>, (Seq<char>, Seq<Seq<char>>, ExprView))> {
    match fn_decl_s(s) {
        Some(x) => Some(x),
        None => var_assign_s(s),
    }
}

/// The parse result of a definition as the text after it and its view.
pub open spec fn mapping_result<'s>(r: PResult<'s, Mapping<'s>>) -> Option<
    (Seq<char>, (Seq<char>, Seq<Seq<char>>, ExprView)),
> {
    match r {
        Ok((next, m)) => Some((next.rest(), m.view())),
        Err(_) => None,
    }
}

/// A definition without parameters: `name = expr`.
pub fn parse_var_assign<'s>(src: Cursor<'s>) -> (r: PResult<'s, Mapping<'s>>)
    ensures
        r matches Ok((next, _)) ==> next.progressed(src),
        mapping_result(r) == var_assign_s(src.rest()),
{
    let (s, name) = match tok_ident(src) {
        Ok(x) => x,
        Err(e) => {
            return Err(e.context("Could not parse mapping name"));
        },
    };
    let (s, _) = match tok_chr('=', s) {
        Ok(x) => x,
        Err(e) => {
            return Err(e.context("Expected '=' in definition"));
        },
    };
    match expr(s) {
        Ok((s, body)) => {
            let m = Mapping { name, params: Vec::new(), body };
            proof {
                assert(params_view(m.params@) =~= Seq::<Seq<char>>::empty());
            }
            Ok((s, m))
        },
        Err(e) => Err(e),
    }
}

/// A function definition with a parameter list: `name(params) = expr`.
pub fn parse_fn_decl<'s>(src: Cursor<'s>) -> (r: PResult<'s, Mapping<'s>>)
    ensures
        r matches Ok((next, _)) ==> next.progressed(src),
        mapping_result(r) == fn_decl_s(src.rest()),
{
    let (s, name) = match tok_ident(src) {
        Ok(x) => x,
        Err(e) => {
            return Err(e.context("Could not parse mapping name"));
        },
    };
    let (s, _) = match tok_chr('(', s) {
        Ok(x) => x,
        Err(e) => {
            return Err(e.context("Expected '(' in function declaration"));
        },
    };
    let (s, params) = match tok_chr(')', s) {
        Ok((s, _)) => {
            let none: Vec<Param<'s>> = Vec::new();
            proof {
                assert(params_view(none@) =~= Seq::<Seq<char>>::empty());
            }
            (s, none)
        },
        Err(_) => {
            let (s, params) = match paramlist(s) {
                Ok(x) => x,
                Err(e) => {
                    return Err(e);
                },
            };
            match tok_chr(')', s) {
                Ok((s, _)) => (s, params),
                Err(e) => {
                    return Err(e.context("Expected ')' in function declaration"));
                },
            }
        },
    };
    let (s, _) = match tok_chr('=', s) {
        Ok(x) => x,
        Err(e) => {
            return Err(e.context("Expected '=' in function declaration"));
        },
    };
    match expr(s) {
        Ok((s, body)) => Ok((s, Mapping { name, params, body })),
        Err(e) => Err(e),
    }
}

/// A function definition: `name(params) = expr`, or `name = expr` without parameters.
pub fn parse_mapping<'s>(src: Cursor<'s>) -> (r: PResult<'s, Mapping<'s>>)
    ensures
        r matches Ok((next, _)) ==> next.progressed(src),
        mapping_result(r) == mapping_s(src.rest()),
{
    match parse_fn_decl(src) {
        Ok(x) => Ok(x),
        Err(_) => parse_var_assign(src),
    }
}

/// A statement at the start of `s`: a type declaration, a definition or an expression, each
/// ended by `;`, tried in that order.
pub open spec fn top_level_s(s: Seq<char>) -> Option<(Seq<char>, TopLevelView)> {
    let as_decl = match type_decl_s(s) {
        Some((r, d)) => match tok_chr_s(';', r) {
            Some(r2) => Some((r2, TopLevelView::TypeDecl(d.0, d.1))),
            None => None,
        },
        None => None,
    };
    let as_def = match mapping_s(s) {
        Some((r, m)) => match tok_chr_s(';', r) {
            Some(r2) => Some((r2, TopLevelView::Function(m.0, m.1, m.2))),
            None => None,
        },
        None => None,
    };
    if as_decl is Some {
        as_decl
    } else if as_def is Some {
        as_def
    } else {
        match expr_s(s) {
            Some((r, e)) => match tok_chr_s(';', r) {
                Some(r2) => Some((r2, TopLevelView::Expr(e))),
                None => None,
            },
            None => None,
        }
    }
}

/// A statement: a type declaration, a function definition or an expression, each ended
/// by `;`, tried in that order.
pub fn parse_top_level<'s>(src: Cursor<'s>) -> (r: PResult<'s, TopLevel<'s>>)
    ensures
        r matches Ok((next, _)) ==> next.progressed(src),
        match r {
            Ok((next, t)) => top_level_s(src.rest()) == Some((next.rest(), t.view())),
            Err(_) => top_level_s(src.rest()) is None,
        },
{
    if let Ok((s, d)) = parse_type_decl(src) {
        if let Ok((s, _)) = tok_chr(';', s) {
            return Ok((s, TopLevel::TypeDecl(d)));
        }
    }
    if let Ok((s, m)) = parse_mapping(src) {
        if let Ok((s, _)) = tok_chr(';', s) {
            return Ok((s, TopLevel::Function(m)));
        }
    }
    match expr(src) {
        Ok((s, e)) => match tok_chr(';', s) {
            Ok((s, _)) => Ok((s, TopLevel::Expr(e))),
            Err(err) => Err(err.context("[parse_top_level] Expected ';'")),
        },
        Err(err) => Err(err.context("[parse_top_level]")),
    }
}

/// Characters other than `;`.
pub open spec fn not_semicolon() -> spec_fn(char) -> bool {
    |c: char| c != ';'
}

/// The text after the statement at the start of `s`: past its first `;`, or empty.
pub open spec fn skip_stmt_s(s: Seq<char>) -> Seq<char> {
    if head(s) == Some(';') {
        s.drop_first()
    } else {
        let b = s.drop_first();
        let k = run_len(b, not_semicolon());
        if k < b.len() {
            b.skip((k + 1) as int)
        } else {
            b.skip(b.len() as int)
        }
    }
}

/// Skips past the next `;`, or to the end of the text.
fn skip_statement<'s>(src: Cursor<'s>) -> (r: Cursor<'s>)
    requires
        src.rest().len() > 0,
    ensures
        r.progressed(src),
        r.rest() == skip_stmt_s(src.rest()),
{
    let mut cur = src;
    let first = cur.cur_char();
    cur.next();
    if first == Some(';') {
        return cur;
    }
    let ghost b = src.rest().drop_first();
    let ghost mut i: nat = 0;
    proof {
        assert(b.skip(0) =~= b);
        assert(cur.rest() == b);
    }
    loop
        invariant_except_break
            i <= b.len(),
            cur.rest() == b.skip(i as int),
            forall|j: int| 0 <= j < i ==> (not_semicolon())(#[trigger] b[j]),
        invariant
            cur.progressed(src),
            head(src.rest()) != Some(';'),
            b == src.rest().drop_first(),
        ensures
            cur.progressed(src),
            cur.rest() == skip_stmt_s(src.rest()),
        decreases cur.rest().len(),
    {
        match cur.cur_char() {
            None => {
                proof {
                    assert(b.skip(i as int).len() == 0);
                    assert(i == b.len());
                    lemma_run_len(b, not_semicolon(), i);
                }
                break ;
            },
            Some(c) => {
                proof {
                    assert(b.skip(i as int)[0] == b[i as int]);
                    assert(b.skip(i as int).drop_first() =~= b.skip((i + 1) as int));
                }
                cur.next();
                if c == ';' {
                    proof {
                        lemma_run_len(b, not_semicolon(), i);
                    }
                    break ;
                }
                proof {
                    i = i + 1;
                }
            },
        }
    }
    cur
}

/// The statements of the text `cur`, in order; a statement that does not parse is skipped
/// up to its `;`.
pub open spec fn module_items_s(cur: Seq<char>) -> Seq<TopLevelView>
    decreases cur.len(),
{
    let s = after_space(cur);
    if s.len() == 0 || s.len() > cur.len() {
        seq![]
    } else {
        match top_level_s(s) {
            Some((r, item)) => if r.len() < s.len() {
                seq![item] + module_items_s(r)
            } else {
                seq![]
            },
            None => {
                let r = skip_stmt_s(s);
                if r.len() < s.len() {
                    module_items_s(r)
                } else {
                    seq![]
                }
            },
        }
    }
}

/// A module: statements up to the end of the text. A statement that does not parse is
/// skipped up to its `;`, so that one mistake does not hide the rest of the program.
pub fn parse_module<'s>(src: Cursor<'s>) -> (r: PResult<'s, Module<'s>>)
    ensures
        r matches Ok((next, m)) && next.text() == src.text() && next.rest().len() == 0
            && items_view(m.top_level@) == module_items_s(src.rest()) && m.name is None,
{
    let mut cur = src;
    let mut items = Vec::new();
    proof {
        assert(items_view(items@) + module_items_s(src.rest()) =~= module_items_s(src.rest()));
    }
    loop
        invariant
            cur.text() == src.text(),
            items_view(items@) + module_items_s(cur.rest()) == module_items_s(src.rest()),
        ensures
            cur.text() == src.text(),
            cur.rest().len() == 0,
            items_view(items@) == module_items_s(src.rest()),
        decreases cur.rest().len(),
    {
        let s = match whitespace(cur) {
            Ok((s, _)) => s,
            Err(_) => cur,
        };
        proof {
            lemma_run_len_bound(cur.rest(), is_space());
        }
        if s.remainder().unicode_len() == 0 {
            proof {
                assert(module_items_s(cur.rest()) =~= Seq::<TopLevelView>::empty());
                assert(items_view(items@) + Seq::<TopLevelView>::empty() =~= items_view(items@));
            }
            cur = s;
            break ;
        }
        match parse_top_level(s) {
            Ok((next, item)) => {
                let ghost before = items@;
                let ghost it = item;
                items.push(item);
                proof {
                    assert(items_view(items@) =~= items_view(before).push(it.view()));
                    assert(items_view(before).push(it.view()) + module_items_s(next.rest())
                        =~= items_view(before) + (seq![it.view()] + module_items_s(next.rest())));
                }
                cur = next;
            },
            Err(_) => {
                cur = skip_statement(s);
            },
        }
    }
    Ok((cur, Module { name: None, top_level: items }))
}

/// Parses a whole program text into a module.
pub fn parse_program<'s>(s: &'s str) -> (r: PResult<'s, Module<'s>>)
    ensures
        r matches Ok((next, m)) && next.text() == s@ && next.rest().len() == 0 && items_view(
            m.top_level@,
        ) == module_items_s(s@),
{
    parse_module(Cursor::new(s))
}

/// The expression that makes up all of `s`, but for whitespace around it.
pub open spec fn expr_text_s(s: Seq<char>) -> Option<ExprView> {
    match expr_s(s) {
        Some((r, e)) => if after_space(r).len() == 0 {
            Some(e)
        } else {
            None
        },
        None => None,
    }
}

/// Parses a text that is one expression, up to trailing whitespace.
pub fn parse_expr_text<'s>(s: &'s str) -> (r: Result<Expr<'s>, PError>)
    ensures
        match r {
            Ok(e) => expr_text_s(s@) == Some(e.view()),
            Err(_) => expr_text_s(s@) is None,
        },
{
    let src = Cursor::new(s);
    let (next, e) = match expr(src) {
        Ok(x) => x,
        Err(err) => {
            return Err(err);
        },
    };
    let end = match whitespace(next) {
        Ok((end, _)) => end,
        Err(_) => next,
    };
    if end.remainder().unicode_len() != 0 {
        return Err(PError::at("Unexpected input after the expression", end.ctx()));
    }
    Ok(e)
}

} // verus!
