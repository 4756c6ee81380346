use vstd::prelude::*;

use crate::cursor::Cursor;
use crate::error::{char_text, PError, PResult};

verus! {

/// Succeeds with `v` without consuming anything.
pub fn okparser<'s, T>(v: T, src: Cursor<'s>) -> (r: PResult<'s, T>)
    ensures
        r == Ok::<(Cursor<'s>, T), PError>((src, v)),
{
    Ok((src, v))
}

/// Consumes the character under the cursor if `pred` holds of it.
pub fn satisfy<'s, F: Fn(char) -> bool>(pred: F, src: Cursor<'s>) -> (r: PResult<'s, char>)
    requires
        forall|c: char| pred.requires((c,)),
    ensures
        match r {
            Ok((next, ch)) => {
                &&& src.peek() == Some(ch)
                &&& pred.ensures((ch,), true)
                &&& next.advanced_by(src, 1)
            },
            Err(e) => {
                &&& e.ctx == src.context()
                &&& (src.peek() is None || pred.ensures((src.peek()->0,), false))
            },
        },
{
    let mut src = src;
    match src.cur_char() {
        Some(ch) => {
            if pred(ch) {
                src.next();
                Ok((src, ch))
            } else {
                Err(PError::at("[satisfy] Predicate failed", src.ctx()))
            }
        },
        None => Err(PError::at("[satisfy] Unexpected EOF", src.ctx())),
    }
}

/// Runs `p`; its value in `Some` on success, `None` and the cursor unchanged on failure.
pub fn optional<'s, T, P: Fn(Cursor<'s>) -> PResult<'s, T>>(p: P, src: Cursor<'s>) -> (r: PResult<
    's,
    Option<T>,
>)
    requires
        p.requires((src,)),
    ensures
        r is Ok,
        match r {
            Ok((next, Some(v))) => p.ensures((src,), Ok((next, v))),
            Ok((next, None)) => next == src && exists|e: PError| p.ensures((src,), Err(e)),
            Err(_) => false,
        },
{
    match p(src) {
        Ok((next, v)) => Ok((next, Some(v))),
        Err(_) => Ok((src, None)),
    }
}

/// Consumes the character `expected`.
pub fn chr<'s>(expected: char, src: Cursor<'s>) -> (r: PResult<'s, char>)
    ensures
        match r {
            Ok((next, ch)) => {
                &&& src.peek() == Some(expected)
                &&& ch == expected
                &&& next.advanced_by(src, 1)
            },
            Err(e) => {
                &&& src.peek() != Some(expected)
                &&& e.ctx == src.context()
                &&& e.msg@ == match src.peek() {
                    Some(found) => "[chr] Expected '"@ + seq![expected] + "', found '"@ + seq![found]
                        + "'"@,
                    None => "[chr] Unexpected EOF, expected '"@ + seq![expected] + "'"@,
                }
            },
        },
{
    let mut src = src;
    match src.cur_char() {
        Some(ch) => {
            if ch == expected {
                src.next();
                Ok((src, expected))
            } else {
                let mut msg = String::from_str("[chr] Expected '");
                msg.append(char_text(expected).as_str());
                msg.append("', found '");
                msg.append(char_text(ch).as_str());
                msg.append("'");
                Err(PError { msg, ctx: src.ctx() })
            }
        },
        None => {
            let mut msg = String::from_str("[chr] Unexpected EOF, expected '");
            msg.append(char_text(expected).as_str());
            msg.append("'");
            Err(PError { msg, ctx: src.ctx() })
        },
    }
}

/// Consumes the longest prefix of characters that `pred` accepts and returns it.
pub fn chr_take_while<'s, F: Fn(char) -> bool>(pred: F, src: Cursor<'s>) -> (r: PResult<'s, &'s str>)
    requires
        forall|c: char| pred.requires((c,)),
    ensures
        match r {
            Ok((next, taken)) => {
                let k = taken@.len();
                &&& k <= src.rest().len()
                &&& taken@ == src.rest().take(k as int)
                &&& next.advanced_by(src, k)
                &&& forall|i: int| 0 <= i < k ==> pred.ensures((#[trigger] src.rest()[i],), true)
                &&& (k == src.rest().len() || pred.ensures((src.rest()[k as int],), false))
            },
            Err(_) => false,
        },
{
    let rem = src.remainder();
    let n = rem.unicode_len();
    let mut k: usize = 0;
    let mut stop = false;
    while k < n && !stop
        invariant
            forall|c: char| pred.requires((c,)),
            n == rem@.len(),
            rem@ == src.rest(),
            k <= n,
            forall|i: int| 0 <= i < k ==> pred.ensures((#[trigger] src.rest()[i],), true),
            stop ==> k < n && pred.ensures((src.rest()[k as int],), false),
        decreases n - k + (if stop { 0int } else { 1int }),
    {
        if pred(rem.get_char(k)) {
            k = k + 1;
        } else {
            stop = true;
        }
    }
    let taken = rem.substring_char(0, k);
    let mut next = src;
    next.advance(k);
    Ok((next, taken))
}

/// Consumes the text `expected`, compared character by character.
pub fn keyword<'s>(expected: &str, src: Cursor<'s>) -> (r: PResult<'s, &'s str>)
    ensures
        match r {
            Ok((next, found)) => {
                &&& src.rest().len() >= expected@.len()
                &&& src.rest().take(expected@.len() as int) == expected@
                &&& found@ == expected@
                &&& next.advanced_by(src, expected@.len())
            },
            Err(e) => {
                &&& !(src.rest().len() >= expected@.len() && src.rest().take(
                    expected@.len() as int,
                ) == expected@)
                &&& e.ctx == src.context()
            },
        },
{
    let rem = src.remainder();
    let n = rem.unicode_len();
    let k = expected.unicode_len();
    if n < k {
        let mut msg = String::from_str("[keyword] Unexpected EOF. Expected: '");
        msg.append(expected);
        msg.append("'");
        return Err(PError { msg, ctx: src.ctx() });
    }
    let mut i: usize = 0;
    while i < k
        invariant
            n == rem@.len(),
            k == expected@.len(),
            rem@ == src.rest(),
            k <= n,
            i <= k,
            forall|j: int| 0 <= j < i ==> rem@[j] == expected@[j],
        decreases k - i,
    {
        if rem.get_char(i) != expected.get_char(i) {
            let slice = rem.substring_char(0, k);
            let mut msg = String::from_str("[keyword] Expected '");
            msg.append(expected);
            msg.append("', found '");
            msg.append(slice);
            msg.append("'");
            proof {
                assert(rem@.take(k as int)[i as int] != expected@[i as int]);
            }
            return Err(PError { msg, ctx: src.ctx() });
        }
        i = i + 1;
    }
    let found = rem.substring_char(0, k);
    proof {
        assert(rem@.take(k as int) =~= expected@);
    }
    let mut next = src;
    next.advance(k);
    Ok((next, found))
}

/// Runs `p` and transforms its value with `f`; a failure passes through.
pub fn pmap<'s, A, B, P: Fn(Cursor<'s>) -> PResult<'s, A>, F: Fn(A) -> B>(
    p: P,
    f: F,
    src: Cursor<'s>,
) -> (r: PResult<'s, B>)
    requires
        p.requires((src,)),
        forall|a: A| f.requires((a,)),
    ensures
        r is Ok ==> exists|a: A|
            p.ensures((src,), Ok((r->Ok_0.0, a))) && f.ensures((a,), r->Ok_0.1),
        r is Err ==> p.ensures((src,), Err(r->Err_0)),
{
    match p(src) {
        Ok((next, a)) => {
            let ghost ga = a;
            let b = f(a);
            let r: PResult<'s, B> = Ok((next, b));
            proof {
                assert(p.ensures((src,), Ok((r->Ok_0.0, ga))) && f.ensures((ga,), r->Ok_0.1));
            }
            r
        },
        Err(e) => Err(e),
    }
}

} // verus!
