use vstd::prelude::*;

use crate::cursor::{head, Cursor};
use crate::error::{PError, PResult};
use crate::primitives::{chr, chr_take_while, keyword, satisfy};

verus! {

/// Whether `c` has the Unicode `White_Space` property.
pub uninterp spec fn whitespace_char(c: char) -> bool;

/// Whether `c` has the Unicode `Alphabetic` property.
pub uninterp spec fn alphabetic_char(c: char) -> bool;

/// Whether `c` is alphabetic or numeric in Unicode's sense.
pub uninterp spec fn alphanumeric_char(c: char) -> bool;

/// `c` is an ASCII letter.
pub open spec fn ascii_letter(c: char) -> bool {
    ('a' <= c && c <= 'z') || ('A' <= c && c <= 'Z')
}

/// Relies on `char::is_whitespace`, whose result depends on `c` alone. Among ASCII
/// characters, White_Space holds of the space and of `\t`, `\n`, `\x0B`, `\x0C`, `\r`.
#[verifier::external_body]
fn is_whitespace(c: char) -> (r: bool)
    ensures
        r == whitespace_char(c),
        (c as u32) < 128 ==> (r <==> (c == ' ' || ('\t' <= c && c <= '\r'))),
{
    c.is_whitespace()
}

/// Relies on `char::is_alphabetic`, whose result depends on `c` alone. Among ASCII
/// characters, the Alphabetic property holds of the letters only.
#[verifier::external_body]
fn is_alphabetic(c: char) -> (r: bool)
    ensures
        r == alphabetic_char(c),
        (c as u32) < 128 ==> (r <==> ascii_letter(c)),
{
    c.is_alphabetic()
}

/// Relies on `char::is_alphanumeric`, whose result depends on `c` alone. Among ASCII
/// characters, it holds of the letters and the digits only.
#[verifier::external_body]
fn is_alphanumeric(c: char) -> (r: bool)
    ensures
        r == alphanumeric_char(c),
        (c as u32) < 128 ==> (r <==> (ascii_letter(c) || ('0' <= c && c <= '9'))),
{
    c.is_alphanumeric()
}

/// The number of leading characters of `s` that `f` accepts.
pub open spec fn run_len(s: Seq<char>, f: spec_fn(char) -> bool) -> nat
    decreases s.len(),
{
    if s.len() > 0 && f(s[0]) {
        1 + run_len(s.drop_first(), f)
    } else {
        0
    }
}

pub proof fn lemma_run_len(s: Seq<char>, f: spec_fn(char) -> bool, k: nat)
    requires
        k <= s.len(),
        forall|i: int| 0 <= i < k ==> f(#[trigger] s[i]),
        k == s.len() || !f(s[k as int]),
    ensures
        run_len(s, f) == k,
    decreases k,
{
    if k > 0 {
        let t = s.drop_first();
        assert forall|i: int| 0 <= i < k - 1 implies f(#[trigger] t[i]) by {
            assert(t[i] == s[i + 1]);
        }
        if k < s.len() {
            assert(t[k - 1] == s[k as int]);
        }
        lemma_run_len(t, f, (k - 1) as nat);
    }
}

pub proof fn lemma_run_len_bound(s: Seq<char>, f: spec_fn(char) -> bool)
    ensures
        run_len(s, f) <= s.len(),
        forall|i: int| 0 <= i < run_len(s, f) ==> f(#[trigger] s[i]),
        run_len(s, f) < s.len() ==> !f(s[run_len(s, f) as int]),
    decreases s.len(),
{
    if s.len() > 0 && f(s[0]) {
        let t = s.drop_first();
        lemma_run_len_bound(t, f);
        assert forall|i: int| 0 <= i < run_len(s, f) implies f(#[trigger] s[i]) by {
            if i > 0 {
                assert(s[i] == t[i - 1]);
            }
        }
        if run_len(s, f) < s.len() {
            assert(s[run_len(s, f) as int] == t[run_len(t, f) as int]);
        }
    }
}

/// What follows the whitespace at the start of `s`.
pub open spec fn after_space(s: Seq<char>) -> Seq<char> {
    s.skip(space_len(s) as int)
}

/// `s` begins with `p`.
pub open spec fn starts_with(s: Seq<char>, p: Seq<char>) -> bool {
    s.len() >= p.len() && s.take(p.len() as int) == p
}

/// Characters that separate tokens.
pub open spec fn is_space() -> spec_fn(char) -> bool {
    |c: char| whitespace_char(c)
}

/// Characters that continue a name: alphanumeric or `_`.
pub open spec fn is_name_char() -> spec_fn(char) -> bool {
    |c: char| alphanumeric_char(c) || c == '_'
}

/// Number of whitespace characters at the start of `s`.
pub open spec fn space_len(s: Seq<char>) -> nat {
    run_len(s, is_space())
}

/// Length of the name at the start of `s`: an alphabetic character followed by
/// alphanumeric characters and underscores; 0 if `s` does not start with a name.
pub open spec fn ident_len(s: Seq<char>) -> nat {
    if s.len() > 0 && alphabetic_char(s[0]) {
        1 + run_len(s.drop_first(), is_name_char())
    } else {
        0
    }
}

/// Skips whitespace; always succeeds.
pub fn whitespace<'s>(src: Cursor<'s>) -> (r: PResult<'s, ()>)
    ensures
        r is Ok,
        r matches Ok((next, _)) && next.advanced_by(src, space_len(src.rest())),
        r matches Ok((next, _)) && next.rest() == src.rest().skip(space_len(src.rest()) as int),
{
    let ws = |c: char| -> (b: bool)
        ensures
            b == whitespace_char(c),
        { is_whitespace(c) };
    match chr_take_while(ws, src) {
        Ok((next, taken)) => {
            proof {
                lemma_run_len(src.rest(), is_space(), taken@.len());
            }
            Ok((next, ()))
        },
        Err(e) => Err(e),
    }
}

/// Skips whitespace, then runs `p`.
pub fn tok<'s, T, P: Fn(Cursor<'s>) -> PResult<'s, T>>(p: P, src: Cursor<'s>) -> (r: PResult<'s, T>)
    requires
        forall|c: Cursor<'s>| p.requires((c,)),
    ensures
        exists|mid: Cursor<'s>| mid.advanced_by(src, space_len(src.rest())) && p.ensures((mid,), r),
{
    match whitespace(src) {
        Ok((mid, _)) => {
            let r = p(mid);
            proof {
                assert(mid.advanced_by(src, space_len(src.rest())) && p.ensures((mid,), r));
            }
            r
        },
        Err(e) => Err(e),
    }
}

/// Whether `c` is a digit in base `radix` (`0-9`, then `a-z` or `A-Z` for ten and up).
pub open spec fn is_digit_spec(c: char, radix: u32) -> bool {
    match digit_value_spec(c) {
        Some(d) => d < radix,
        None => false,
    }
}

/// The value of `c` as a digit of base 36 at most.
pub open spec fn digit_value_spec(c: char) -> Option<u32> {
    if '0' <= c && c <= '9' {
        Some((c as u32 - '0' as u32) as u32)
    } else if 'a' <= c && c <= 'z' {
        Some((c as u32 - 'a' as u32 + 10) as u32)
    } else if 'A' <= c && c <= 'Z' {
        Some((c as u32 - 'A' as u32 + 10) as u32)
    } else {
        None
    }
}

/// The value of `c` as a digit of base 36 at most.
pub fn digit_value(c: char) -> (r: Option<u32>)
    ensures
        r == digit_value_spec(c),
{
    if '0' <= c && c <= '9' {
        Some(c as u32 - '0' as u32)
    } else if 'a' <= c && c <= 'z' {
        Some(c as u32 - 'a' as u32 + 10)
    } else if 'A' <= c && c <= 'Z' {
        Some(c as u32 - 'A' as u32 + 10)
    } else {
        None
    }
}

/// Consumes one digit of base `radix`.
pub fn digit<'s>(radix: u32, src: Cursor<'s>) -> (r: PResult<'s, char>)
    requires
        2 <= radix <= 36,
    ensures
        match r {
            Ok((next, ch)) => {
                &&& src.peek() == Some(ch)
                &&& is_digit_spec(ch, radix)
                &&& next.advanced_by(src, 1)
            },
            Err(e) => {
                &&& e.ctx == src.context()
                &&& (src.peek() is None || !is_digit_spec(src.peek()->0, radix))
            },
        },
{
    let is_digit = |c: char| -> (b: bool)
        ensures
            b == is_digit_spec(c, radix),
        {
            match digit_value(c) {
                Some(d) => d < radix,
                None => false,
            }
        };
    satisfy(is_digit, src)
}

/// Consumes a name: an alphabetic character, then alphanumeric characters and underscores.
pub fn ident<'s>(src: Cursor<'s>) -> (r: PResult<'s, &'s str>)
    ensures
        match r {
            Ok((next, name)) => {
                &&& ident_len(src.rest()) > 0
                &&& name@ == src.rest().take(ident_len(src.rest()) as int)
                &&& next.advanced_by(src, ident_len(src.rest()))
            },
            Err(e) => ident_len(src.rest()) == 0 && e.ctx == src.context(),
        },
{
    let ch = match src.cur_char() {
        Some(ch) => ch,
        None => {
            return Err(PError::at("Unexpected EOF, expecting ident", src.ctx()));
        },
    };
    if !is_alphabetic(ch) {
        return Err(PError::at("Ident has to start with an alphabetic character", src.ctx()));
    }
    let rem = src.remainder();
    let n = rem.unicode_len();
    let mut k: usize = 1;
    let mut stop = false;
    while k < n && !stop
        invariant
            n == rem@.len(),
            rem@ == src.rest(),
            1 <= k <= n,
            forall|i: int| 1 <= i < k ==> (is_name_char())(#[trigger] rem@[i]),
            stop ==> k < n && !(is_name_char())(rem@[k as int]),
        decreases n - k + (if stop { 0int } else { 1int }),
    {
        let c = rem.get_char(k);
        if is_alphanumeric(c) || c == '_' {
            k = k + 1;
        } else {
            stop = true;
        }
    }
    proof {
        let t = rem@.drop_first();
        assert forall|i: int| 0 <= i < k - 1 implies (is_name_char())(#[trigger] t[i]) by {
            assert(t[i] == rem@[i + 1]);
        }
        lemma_run_len(t, is_name_char(), (k - 1) as nat);
    }
    let name = rem.substring_char(0, k);
    let mut next = src;
    next.advance(k);
    Ok((next, name))
}

/// The text after whitespace and the character `c` at the start of `s`, if `c` is there.
pub open spec fn tok_chr_s(c: char, s: Seq<char>) -> Option<Seq<char>> {
    let a = after_space(s);
    if head(a) == Some(c) {
        Some(a.drop_first())
    } else {
        None
    }
}

/// The name after the whitespace at the start of `s`, with the text after it.
pub open spec fn ident_s(s: Seq<char>) -> Option<(Seq<char>, Seq<char>)> {
    let a = after_space(s);
    let k = ident_len(a);
    if k > 0 {
        Some((a.skip(k as int), a.take(k as int)))
    } else {
        None
    }
}

/// Skips whitespace, then consumes `c`.
pub fn tok_chr<'s>(c: char, src: Cursor<'s>) -> (r: PResult<'s, char>)
    ensures
        match r {
            Ok((next, ch)) => {
                &&& ch == c
                &&& head(after_space(src.rest())) == Some(c)
                &&& next.advanced_by(src, space_len(src.rest()) + 1)
                &&& next.progressed(src)
                &&& tok_chr_s(c, src.rest()) == Some(next.rest())
            },
            Err(_) => head(after_space(src.rest())) != Some(c) && tok_chr_s(c, src.rest()) is None,
        },
{
    proof {
        lemma_run_len_bound(src.rest(), is_space());
    }
    match whitespace(src) {
        Ok((s, _)) => match chr(c, s) {
            Ok((next, ch)) => {
                proof {
                    Cursor::lemma_advanced_trans(src, s, next, space_len(src.rest()), 1);
                    assert(src.rest().skip(space_len(src.rest()) as int).drop_first() =~= src.rest().skip(
                        (space_len(src.rest()) + 1) as int,
                    ));
                }
                Ok((next, ch))
            },
            Err(e) => Err(e),
        },
        Err(e) => Err(e),
    }
}

/// Skips whitespace, then consumes a name.
pub fn tok_ident<'s>(src: Cursor<'s>) -> (r: PResult<'s, &'s str>)
    ensures
        match r {
            Ok((next, name)) => {
                let a = after_space(src.rest());
                &&& ident_len(a) > 0
                &&& name@ == a.take(ident_len(a) as int)
                &&& next.advanced_by(src, space_len(src.rest()) + ident_len(a))
                &&& next.progressed(src)
                &&& ident_s(src.rest()) == Some((next.rest(), name@))
            },
            Err(_) => ident_len(after_space(src.rest())) == 0 && ident_s(src.rest()) is None,
        },
{
    proof {
        lemma_run_len_bound(src.rest(), is_space());
    }
    match whitespace(src) {
        Ok((s, _)) => match ident(s) {
            Ok((next, name)) => {
                proof {
                    lemma_run_len_bound(s.rest().drop_first(), is_name_char());
                    Cursor::lemma_advanced_trans(src, s, next, space_len(src.rest()), ident_len(s.rest()));
                    assert(src.rest().skip(space_len(src.rest()) as int).skip(ident_len(s.rest()) as int)
                        =~= src.rest().skip((space_len(src.rest()) + ident_len(s.rest())) as int));
                }
                Ok((next, name))
            },
            Err(e) => Err(e),
        },
        Err(e) => Err(e),
    }
}

/// Skips whitespace, then consumes `kw`.
pub fn tok_keyword<'s>(kw: &str, src: Cursor<'s>) -> (r: PResult<'s, &'s str>)
    ensures
        match r {
            Ok((next, found)) => {
                &&& starts_with(after_space(src.rest()), kw@)
                &&& found@ == kw@
                &&& next.advanced_by(src, space_len(src.rest()) + kw@.len())
                &&& next.follows(src)
                &&& (kw@.len() > 0 ==> next.progressed(src))
                &&& next.rest() == after_space(src.rest()).skip(kw@.len() as int)
            },
            Err(_) => !starts_with(after_space(src.rest()), kw@),
        },
{
    proof {
        lemma_run_len_bound(src.rest(), is_space());
    }
    match whitespace(src) {
        Ok((s, _)) => match keyword(kw, s) {
            Ok((next, found)) => {
                proof {
                    Cursor::lemma_advanced_trans(src, s, next, space_len(src.rest()), kw@.len());
                    assert(src.rest().skip(space_len(src.rest()) as int).skip(kw@.len() as int)
                        =~= src.rest().skip((space_len(src.rest()) + kw@.len()) as int));
                }
                Ok((next, found))
            },
            Err(e) => Err(e),
        },
        Err(e) => Err(e),
    }
}

} // verus!
