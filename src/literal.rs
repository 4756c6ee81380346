use vstd::prelude::*;

use crate::ast::{Decimal, Literal, LiteralView};
use crate::cursor::{head, tail, Cursor};
use crate::error::{PError, PResult};
use crate::helpers::{after_space, ident_s, lemma_run_len, lemma_run_len_bound, run_len, tok_ident, whitespace};
use crate::primitives::{chr, chr_take_while};
use crate::text::same_text;

verus! {

pub open spec fn is_dec_digit(c: char) -> bool {
    '0' <= c && c <= '9'
}

/// Decimal digits as a character class.
pub open spec fn dec_digit_class() -> spec_fn(char) -> bool {
    |c: char| is_dec_digit(c)
}

/// Number of decimal digits at the start of `s`.
pub open spec fn digit_run(s: Seq<char>) -> nat {
    run_len(s, dec_digit_class())
}

/// The digits of the number that follows the whitespace at the start of `s`.
pub open spec fn number_digits(s: Seq<char>) -> Seq<char> {
    let a = after_space(s);
    a.take(digit_run(a) as int)
}

/// The value of a run of decimal digits.
pub open spec fn digits_value(s: Seq<char>) -> int
    decreases s.len(),
{
    if s.len() == 0 {
        0
    } else {
        digits_value(s.drop_last()) * 10 + (s.last() as int - '0' as int)
    }
}

pub proof fn lemma_digits_value_nonneg(s: Seq<char>)
    requires
        forall|i: int| 0 <= i < s.len() ==> is_dec_digit(#[trigger] s[i]),
    ensures
        digits_value(s) >= 0,
    decreases s.len(),
{
    if s.len() > 0 {
        lemma_digits_value_nonneg(s.drop_last());
    }
}

/// The value of the decimal digits `s`, or `None` if it exceeds `u64::MAX`.
pub fn digits_to_u64(s: &str) -> (r: Option<u64>)
    requires
        forall|i: int| 0 <= i < s@.len() ==> is_dec_digit(#[trigger] s@[i]),
    ensures
        r matches Some(v) ==> v == digits_value(s@),
        r is None ==> digits_value(s@) > u64::MAX,
{
    let n = s.unicode_len();
    let mut acc: Option<u64> = Some(0);
    let mut i: usize = 0;
    proof {
        assert(s@.take(0) =~= Seq::<char>::empty());
    }
    while i < n
        invariant
            n == s@.len(),
            i <= n,
            forall|j: int| 0 <= j < s@.len() ==> is_dec_digit(#[trigger] s@[j]),
            acc matches Some(v) ==> v == digits_value(s@.take(i as int)),
            acc is None ==> digits_value(s@.take(i as int)) > u64::MAX,
        decreases n - i,
    {
        let c = s.get_char(i);
        let d = (c as u32 - '0' as u32) as u64;
        proof {
            let t = s@.take(i + 1);
            assert(t.drop_last() =~= s@.take(i as int));
            assert(t.last() == c);
            assert forall|j: int| 0 <= j < i implies is_dec_digit(#[trigger] s@.take(i as int)[j]) by {
                assert(s@.take(i as int)[j] == s@[j]);
            }
            lemma_digits_value_nonneg(s@.take(i as int));
        }
        acc = match acc {
            Some(v) => match v.checked_mul(10) {
                Some(w) => w.checked_add(d),
                None => None,
            },
            None => None,
        };
        i = i + 1;
    }
    proof {
        assert(s@.take(n as int) =~= s@);
    }
    acc
}

/// Consumes a run of decimal digits, at least one, and returns it.
fn dec_digits<'s>(src: Cursor<'s>) -> (r: PResult<'s, &'s str>)
    ensures
        match r {
            Ok((next, ds)) => {
                &&& next.progressed(src)
                &&& next.advanced_by(src, digit_run(src.rest()))
                &&& digit_run(src.rest()) > 0
                &&& ds@ == src.rest().take(digit_run(src.rest()) as int)
                &&& forall|i: int| 0 <= i < ds@.len() ==> is_dec_digit(#[trigger] ds@[i])
            },
            Err(_) => digit_run(src.rest()) == 0,
        },
{
    let f = |c: char| -> (b: bool)
        ensures
            b == is_dec_digit(c),
        { '0' <= c && c <= '9' };
    match chr_take_while(f, src) {
        Ok((next, ds)) => {
            proof {
                lemma_run_len(src.rest(), dec_digit_class(), ds@.len());
            }
            if ds.unicode_len() == 0 {
                return Err(PError::at("Expected a digit", src.ctx()));
            }
            proof {
                assert forall|i: int| 0 <= i < ds@.len() implies is_dec_digit(#[trigger] ds@[i]) by {
                    assert(ds@[i] == src.rest()[i]);
                }
            }
            Ok((next, ds))
        },
        Err(e) => Err(e),
    }
}

/// Characters other than `"`.
pub open spec fn not_quote() -> spec_fn(char) -> bool {
    |c: char| c != '"'
}

/// The string literal at the start of `a`: its characters and the text after it.
pub open spec fn string_s(a: Seq<char>) -> Option<(Seq<char>, Seq<char>)> {
    if head(a) == Some('"') {
        let b = a.drop_first();
        let k = run_len(b, not_quote());
        if k < b.len() {
            Some((b.skip((k + 1) as int), b.take(k as int)))
        } else {
            None
        }
    } else {
        None
    }
}

/// A string literal: characters other than `"` between two `"`.
fn string<'s>(src: Cursor<'s>) -> (r: PResult<'s, &'s str>)
    ensures
        match r {
            Ok((next, t)) => next.progressed(src) && string_s(src.rest()) == Some((next.rest(), t@)),
            Err(_) => string_s(src.rest()) is None,
        },
{
    let (s, _) = match chr('"', src) {
        Ok(x) => x,
        Err(e) => {
            return Err(e.context("Expected opening quote"));
        },
    };
    let ghost b = src.rest().drop_first();
    proof {
        assert(src.rest().skip(1) =~= b);
    }
    let f = |c: char| -> (b: bool)
        ensures
            b == (c != '"'),
        { c != '"' };
    let (s2, content) = match chr_take_while(f, s) {
        Ok(x) => x,
        Err(e) => {
            return Err(e);
        },
    };
    proof {
        lemma_run_len(b, not_quote(), content@.len());
    }
    match chr('"', s2) {
        Ok((s3, _)) => {
            proof {
                assert(b.skip(content@.len() as int).skip(1) =~= b.skip((content@.len() + 1) as int));
            }
            Ok((s3, content))
        },
        Err(e) => Err(e.context("Expected closing quote")),
    }
}

/// `true` or `false` as the name after the whitespace at the start of `s`.
pub open spec fn boolean_s(s: Seq<char>) -> Option<(Seq<char>, bool)> {
    match ident_s(s) {
        Some((r, n)) => if n == "true"@ {
            Some((r, true))
        } else if n == "false"@ {
            Some((r, false))
        } else {
            None
        },
        None => None,
    }
}

/// `true` or `false`, as a whole name.
fn boolean<'s>(src: Cursor<'s>) -> (r: PResult<'s, bool>)
    ensures
        match r {
            Ok((next, b)) => next.progressed(src) && boolean_s(src.rest()) == Some((next.rest(), b)),
            Err(_) => boolean_s(src.rest()) is None,
        },
{
    let (s, name) = match tok_ident(src) {
        Ok(x) => x,
        Err(e) => {
            return Err(e.context("Bool is not 'true'"));
        },
    };
    if same_text(name, "true") {
        Ok((s, true))
    } else if same_text(name, "false") {
        Ok((s, false))
    } else {
        Err(PError::at("[boolean] Expected 'true' or 'false'", s.ctx()))
    }
}

/// The integer literal after the whitespace at the start of `s`, if its value fits in an
/// `i32`.
pub open spec fn integer_s(s: Seq<char>) -> Option<(Seq<char>, i32)> {
    let a = after_space(s);
    let ds = number_digits(s);
    if digit_run(a) > 0 && digits_value(ds) <= i32::MAX {
        Some((a.skip(ds.len() as int), digits_value(ds) as i32))
    } else {
        None
    }
}

/// An integer literal: decimal digits whose value fits in an `i32`.
fn integer<'s>(src: Cursor<'s>) -> (r: PResult<'s, i32>)
    ensures
        match r {
            Ok((next, v)) => next.progressed(src) && integer_s(src.rest()) == Some((next.rest(), v)),
            Err(_) => integer_s(src.rest()) is None,
        },
{
    let (s, _) = match whitespace(src) {
        Ok(x) => x,
        Err(e) => {
            return Err(e);
        },
    };
    proof {
        lemma_run_len_bound(s.rest(), dec_digit_class());
    }
    let (s2, ds) = match dec_digits(s) {
        Ok(x) => x,
        Err(e) => {
            return Err(e.context("Could not parse int"));
        },
    };
    match digits_to_u64(ds) {
        Some(v) => {
            if v <= i32::MAX as u64 {
                Ok((s2, v as i32))
            } else {
                Err(PError::at("Integer literal out of range", src.ctx()))
            }
        },
        None => Err(PError::at("Integer literal out of range", src.ctx())),
    }
}

/// The text after the integer digits and the point of the float at the start of `s`.
pub open spec fn after_point(s: Seq<char>) -> Seq<char> {
    let a = after_space(s);
    a.skip(digit_run(a) as int + 1)
}

/// The fraction digits of the float at the start of `s`.
pub open spec fn fraction_digits(s: Seq<char>) -> Seq<char> {
    let p = after_point(s);
    p.take(digit_run(p) as int)
}

/// The text after the fraction digits of the float at the start of `s`.
pub open spec fn after_fraction(s: Seq<char>) -> Seq<char> {
    let p = after_point(s);
    p.skip(digit_run(p) as int)
}

/// The value of the exponent part at the start of `t`: `e` or `E`, an optional sign and
/// digits; 0 when `t` does not start with `e` or `E`.
pub open spec fn exponent_value(t: Seq<char>) -> int {
    if head(t) == Some('e') || head(t) == Some('E') {
        let u = tail(t);
        if head(u) == Some('-') {
            -digits_value(tail(u).take(digit_run(tail(u)) as int))
        } else if head(u) == Some('+') {
            digits_value(tail(u).take(digit_run(tail(u)) as int))
        } else {
            digits_value(u.take(digit_run(u) as int))
        }
    } else {
        0
    }
}

/// Consumes `c`, stating the rest as the text after it.
fn chr_step<'s>(c: char, src: Cursor<'s>) -> (r: PResult<'s, char>)
    ensures
        match r {
            Ok((next, _)) => {
                &&& head(src.rest()) == Some(c)
                &&& next.rest() == tail(src.rest())
                &&& next.progressed(src)
            },
            Err(_) => head(src.rest()) != Some(c),
        },
{
    let r = chr(c, src);
    proof {
        if r is Ok {
            assert(src.rest().skip(1) =~= src.rest().drop_first());
        }
    }
    r
}

/// Ten to the power `n`.
pub open spec fn pow10(n: nat) -> nat
    decreases n,
{
    if n == 0 {
        1
    } else {
        10 * pow10((n - 1) as nat)
    }
}

pub proof fn lemma_digits_value_bound(s: Seq<char>)
    requires
        forall|i: int| 0 <= i < s.len() ==> is_dec_digit(#[trigger] s[i]),
    ensures
        digits_value(s) < pow10(s.len()),
    decreases s.len(),
{
    if s.len() > 0 {
        lemma_digits_value_bound(s.drop_last());
        assert(is_dec_digit(s[s.len() - 1]));
    }
}

pub proof fn lemma_pow10_mono(m: nat, n: nat)
    requires
        m <= n,
    ensures
        pow10(m) <= pow10(n),
    decreases n,
{
    if m < n {
        lemma_pow10_mono(m, (n - 1) as nat);
    }
}

/// Number of significant digits a float keeps; further digits only scale it.
pub open spec fn kept_digits() -> nat {
    19
}

/// The float literal after the whitespace at the start of `s`: digits, `.`, digits, and an
/// optional exponent. Its digits past the nineteenth are dropped and counted in the
/// exponent instead; the result must have an `i32` exponent.
pub open spec fn float_s(s: Seq<char>) -> Option<(Seq<char>, Decimal)> {
    let a = after_space(s);
    let k1 = digit_run(a);
    let p = after_point(s);
    let k2 = digit_run(p);
    let t = after_fraction(s);
    let m = number_digits(s) + fraction_digits(s);
    let has_e = head(t) == Some('e') || head(t) == Some('E');
    let u = tail(t);
    let v = if head(u) == Some('-') || head(u) == Some('+') {
        tail(u)
    } else {
        u
    };
    let kept = if m.len() > kept_digits() {
        m.take(kept_digits() as int)
    } else {
        m
    };
    let exponent = exponent_value(t) - k2 + (m.len() - kept.len());
    if k1 == 0 || head(a.skip(k1 as int)) != Some('.') || k2 == 0 {
        None
    } else if has_e && (digit_run(v) == 0 || digits_value(v.take(digit_run(v) as int))
        > i32::MAX) {
        None
    } else if m.len() > i32::MAX || exponent < i32::MIN || exponent > i32::MAX {
        None
    } else {
        Some(
            (
                if has_e {
                    v.skip(digit_run(v) as int)
                } else {
                    t
                },
                Decimal { negative: false, digits: digits_value(kept) as u64, exponent: exponent as i32 },
            ),
        )
    }
}

/// A float literal: digits, `.`, digits, and an optional exponent `e` or `E` with an
/// optional sign and digits. The first nineteen significant digits are kept exactly; any
/// further ones are dropped and counted in the exponent.
fn float<'s>(src: Cursor<'s>) -> (r: PResult<'s, Decimal>)
    ensures
        match r {
            Ok((next, d)) => next.progressed(src) && float_s(src.rest()) == Some((next.rest(), d)),
            Err(_) => float_s(src.rest()) is None,
        },
{
    let (s, _) = match whitespace(src) {
        Ok(x) => x,
        Err(e) => {
            return Err(e);
        },
    };
    let ghost a = after_space(src.rest());
    proof {
        lemma_run_len_bound(a, dec_digit_class());
    }
    let (s, int_part) = match dec_digits(s) {
        Ok(x) => x,
        Err(e) => {
            return Err(e.context("Expected digits before '.'"));
        },
    };
    let (s, _) = match chr_step('.', s) {
        Ok(x) => x,
        Err(e) => {
            return Err(e.context("Expected '.' in float"));
        },
    };
    let ghost p = after_point(src.rest());
    proof {
        assert(a.skip(digit_run(a) as int).drop_first() =~= p);
        lemma_run_len_bound(p, dec_digit_class());
    }
    let (s, frac_part) = match dec_digits(s) {
        Ok(x) => x,
        Err(e) => {
            return Err(e.context("Expected digits after '.'"));
        },
    };
    let mut all = String::from_str(int_part);
    all.append(frac_part);
    let n = all.unicode_len();
    if n > i32::MAX as usize {
        return Err(PError::at("Float literal has too many digits", src.ctx()));
    }
    let kept = if n > 19 {
        all.as_str().substring_char(0, 19)
    } else {
        all.as_str()
    };
    proof {
        reveal_with_fuel(pow10, 20);
        assert forall|i: int| 0 <= i < kept@.len() implies is_dec_digit(#[trigger] kept@[i]) by {
            assert(kept@[i] == all@[i]);
            if i < int_part@.len() {
                assert(all@[i] == int_part@[i]);
            } else {
                assert(all@[i] == frac_part@[i - int_part@.len()]);
            }
        }
        lemma_digits_value_bound(kept@);
        lemma_pow10_mono(kept@.len(), 19);
        assert(pow10(19) == 10000000000000000000);
    }
    let digits = match digits_to_u64(kept) {
        Some(v) => v,
        None => {
            return Err(PError::at("Float literal has too many digits", src.ctx()));
        },
    };
    let frac_len = frac_part.unicode_len();
    let dropped = n - kept.unicode_len();
    let mut exponent: i64 = dropped as i64 - frac_len as i64;
    let mut end = s;
    let ghost t = after_fraction(src.rest());
    let marker = match chr_step('e', s) {
        Ok(x) => Some(x),
        Err(_) => match chr_step('E', s) {
            Ok(x) => Some(x),
            Err(_) => None,
        },
    };
    match marker {
        Some((se, _)) => {
            let ghost u = tail(t);
            let (se, negative) = match chr_step('-', se) {
                Ok((t2, _)) => (t2, true),
                Err(_) => match chr_step('+', se) {
                    Ok((t2, _)) => (t2, false),
                    Err(_) => (se, false),
                },
            };
            let ghost v = se.rest();
            proof {
                lemma_run_len_bound(v, dec_digit_class());
            }
            let (se, exp_digits) = match dec_digits(se) {
                Ok(x) => x,
                Err(e) => {
                    return Err(e.context("Expected digits in exponent"));
                },
            };
            let e = match digits_to_u64(exp_digits) {
                Some(v) => {
                    if v > i32::MAX as u64 {
                        return Err(PError::at("Float exponent out of range", src.ctx()));
                    }
                    v as i64
                },
                None => {
                    return Err(PError::at("Float exponent out of range", src.ctx()));
                },
            };
            proof {
                if negative {
                    assert(exponent_value(t) == -digits_value(v.take(digit_run(v) as int)));
                } else {
                    assert(exponent_value(t) == digits_value(v.take(digit_run(v) as int)));
                }
            }
            exponent = if negative {
                exponent - e
            } else {
                exponent + e
            };
            end = se;
        },
        None => {},
    }
    if exponent < i32::MIN as i64 || exponent > i32::MAX as i64 {
        return Err(PError::at("Float exponent out of range", src.ctx()));
    }
    Ok((end, Decimal { negative: false, digits, exponent: exponent as i32 }))
}

/// The literal after the whitespace at the start of `s`: a string, `true` or `false`, or a
/// number, read as a float when its digits are followed by `.` or `e`.
pub open spec fn literal_s(s: Seq<char>) -> Option<(Seq<char>, LiteralView)> {
    let a = after_space(s);
    match string_s(a) {
        Some((r, t)) => Some((r, LiteralView::Str(t))),
        None => match boolean_s(s) {
            Some((r, b)) => Some((r, LiteralView::Bool(b))),
            None => if digit_run(a) == 0 {
                None
            } else {
                let next = head(a.skip(digit_run(a) as int));
                if next == Some('.') || next == Some('e') {
                    match float_s(s) {
                        Some((r, d)) => Some((r, LiteralView::Float(d))),
                        None => None,
                    }
                } else {
                    match integer_s(s) {
                        Some((r, v)) => Some((r, LiteralView::Int(v))),
                        None => None,
                    }
                }
            },
        },
    }
}

/// A literal: a string, `true` or `false`, or a number. A number whose digits are followed
/// by `.` or `e` is read as a float, otherwise as an integer.
pub fn parse_literal<'s>(src: Cursor<'s>) -> (r: PResult<'s, Literal<'s>>)
    ensures
        match r {
            Ok((next, l)) => next.progressed(src) && literal_s(src.rest()) == Some(
                (next.rest(), l.view()),
            ),
            Err(_) => literal_s(src.rest()) is None,
        },
{
    let (s, _) = match whitespace(src) {
        Ok(x) => x,
        Err(e) => {
            return Err(e);
        },
    };
    if let Ok((next, v)) = string(s) {
        return Ok((next, Literal::Str(v)));
    }
    if let Ok((next, v)) = boolean(src) {
        return Ok((next, Literal::Bool(v)));
    }
    let (after, _) = match dec_digits(s) {
        Ok(x) => x,
        Err(e) => {
            return Err(e.context("[parse_literal]"));
        },
    };
    proof {
        lemma_run_len_bound(s.rest(), dec_digit_class());
    }
    let c = after.cur_char();
    if c == Some('.') || c == Some('e') {
        match float(src) {
            Ok((next, d)) => Ok((next, Literal::Float(d))),
            Err(e) => Err(e.context("[parse_literal] Could not parse float")),
        }
    } else {
        match integer(src) {
            Ok((next, v)) => Ok((next, Literal::Int(v))),
            Err(e) => Err(e),
        }
    }
}

} // verus!
