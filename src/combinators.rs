use vstd::prelude::*;

use crate::cursor::Cursor;
use crate::error::{PError, PResult};

verus! {

/// A parser's success relation: run on `c`, it may stop at `next` with value `v`.
pub open spec fn succeeds<'s, T, P: Fn(Cursor<'s>) -> PResult<'s, T>>(p: P) -> spec_fn(
    Cursor<'s>,
    Cursor<'s>,
    T,
) -> bool {
    |c: Cursor<'s>, next: Cursor<'s>, v: T| p.ensures((c,), Ok((next, v)))
}

/// A parser's refusal: run on `c`, it may fail, or succeed without consuming anything.
pub open spec fn stalls<'s, T, P: Fn(Cursor<'s>) -> PResult<'s, T>>(p: P, c: Cursor<'s>) -> bool {
    exists|r: PResult<'s, T>|
        #![trigger p.ensures((c,), r)]
        p.ensures((c,), r) && (r is Err || r->Ok_0.0.rest().len() >= c.rest().len())
}

/// `vs` are the values of steps that lead from `start` to `end`, each consuming input.
pub open spec fn repeated<'s, T>(
    step: spec_fn(Cursor<'s>, Cursor<'s>, T) -> bool,
    start: Cursor<'s>,
    vs: Seq<T>,
    end: Cursor<'s>,
) -> bool
    decreases vs.len(),
{
    if vs.len() == 0 {
        start == end
    } else {
        exists|mid: Cursor<'s>|
            #![trigger step(start, mid, vs[0])]
            step(start, mid, vs[0]) && mid.rest().len() < start.rest().len() && repeated(
                step,
                mid,
                vs.drop_first(),
                end,
            )
    }
}

pub proof fn lemma_repeated_push<'s, T>(
    step: spec_fn(Cursor<'s>, Cursor<'s>, T) -> bool,
    start: Cursor<'s>,
    vs: Seq<T>,
    end: Cursor<'s>,
    next: Cursor<'s>,
    v: T,
)
    requires
        repeated(step, start, vs, end),
        step(end, next, v),
        next.rest().len() < end.rest().len(),
    ensures
        repeated(step, start, vs.push(v), next),
    decreases vs.len(),
{
    let ws = vs.push(v);
    if vs.len() == 0 {
        assert(ws.drop_first() =~= Seq::<T>::empty());
        assert(repeated(step, next, ws.drop_first(), next));
        assert(step(start, next, ws[0]));
    } else {
        let mid = choose|mid: Cursor<'s>|
            #![trigger step(start, mid, vs[0])]
            step(start, mid, vs[0]) && mid.rest().len() < start.rest().len() && repeated(
                step,
                mid,
                vs.drop_first(),
                end,
            );
        lemma_repeated_push(step, mid, vs.drop_first(), end, next, v);
        assert(ws.drop_first() =~= vs.drop_first().push(v));
        assert(ws[0] == vs[0]);
        assert(step(start, mid, ws[0]));
    }
}

/// Runs `p1`; if it fails, runs `p2` on the same input.
pub fn or<'s, T, P1: Fn(Cursor<'s>) -> PResult<'s, T>, P2: Fn(Cursor<'s>) -> PResult<'s, T>>(
    p1: P1,
    p2: P2,
    src: Cursor<'s>,
) -> (r: PResult<'s, T>)
    requires
        p1.requires((src,)),
        p2.requires((src,)),
    ensures
        p1.ensures((src,), r) && r is Ok || (exists|e: PError| p1.ensures((src,), Err(e)))
            && p2.ensures((src,), r),
{
    let r1 = p1(src);
    match r1 {
        Ok(v) => Ok(v),
        Err(_) => p2(src),
    }
}

/// Runs `prefix`, then `parser`, and keeps the value of `parser`.
pub fn preceded<'s, T, D, P1: Fn(Cursor<'s>) -> PResult<'s, D>, P2: Fn(Cursor<'s>) -> PResult<'s, T>>(
    prefix: P1,
    parser: P2,
    src: Cursor<'s>,
) -> (r: PResult<'s, T>)
    requires
        prefix.requires((src,)),
        forall|c: Cursor<'s>| parser.requires((c,)),
    ensures
        (exists|e: PError| prefix.ensures((src,), Err(e)) && r == Err::<(Cursor<'s>, T), PError>(e))
            || (exists|mid: Cursor<'s>, d: D|
            prefix.ensures((src,), Ok((mid, d))) && parser.ensures((mid,), r)),
{
    match prefix(src) {
        Ok((mid, d)) => {
            let ghost gd = d;
            let r = parser(mid);
            proof {
                assert(prefix.ensures((src,), Ok((mid, gd))) && parser.ensures((mid,), r));
            }
            r
        },
        Err(e) => Err(e),
    }
}

/// Runs `p1`, then `p2`, and keeps the value of `p1`.
pub fn terminated<'s, T, D, P1: Fn(Cursor<'s>) -> PResult<'s, T>, P2: Fn(Cursor<'s>) -> PResult<
    's,
    D,
>>(p1: P1, p2: P2, src: Cursor<'s>) -> (r: PResult<'s, T>)
    requires
        p1.requires((src,)),
        forall|c: Cursor<'s>| p2.requires((c,)),
    ensures
        match r {
            Ok((end, v)) => exists|mid: Cursor<'s>, d: D|
                p1.ensures((src,), Ok((mid, v))) && p2.ensures((mid,), Ok((end, d))),
            Err(e) => p1.ensures((src,), Err(e)) || exists|mid: Cursor<'s>, v: T|
                p1.ensures((src,), Ok((mid, v))) && p2.ensures((mid,), Err(e)),
        },
{
    match p1(src) {
        Ok((mid, v)) => {
            let ghost gv = v;
            match p2(mid) {
                Ok((end, d)) => {
                    let ghost gd = d;
                    let r: PResult<'s, T> = Ok((end, v));
                    proof {
                        assert(p1.ensures((src,), Ok((mid, r->Ok_0.1))) && p2.ensures(
                            (mid,),
                            Ok((r->Ok_0.0, gd)),
                        ));
                    }
                    r
                },
                Err(e) => {
                    proof {
                        assert(p1.ensures((src,), Ok((mid, gv))) && p2.ensures((mid,), Err(e)));
                    }
                    Err(e)
                },
            }
        },
        Err(e) => Err(e),
    }
}

/// Runs `d1`, `p` and `d2` in turn, and keeps the value of `p`.
pub fn between<'s, T, D1, D2, P: Fn(Cursor<'s>) -> PResult<'s, T>, Q1: Fn(Cursor<'s>) -> PResult<
    's,
    D1,
>, Q2: Fn(Cursor<'s>) -> PResult<'s, D2>>(p: P, d1: Q1, d2: Q2, src: Cursor<'s>) -> (r: PResult<
    's,
    T,
>)
    requires
        d1.requires((src,)),
        forall|c: Cursor<'s>| p.requires((c,)),
        forall|c: Cursor<'s>| d2.requires((c,)),
    ensures
        r matches Ok((end, v)) ==> exists|a: Cursor<'s>, b: Cursor<'s>, x: D1, y: D2|
            d1.ensures((src,), Ok((a, x))) && p.ensures((a,), Ok((b, v))) && d2.ensures(
                (b,),
                Ok((end, y)),
            ),
        r matches Err(e) ==> d1.ensures((src,), Err(e)) || (exists|a: Cursor<'s>, x: D1|
            d1.ensures((src,), Ok((a, x))) && p.ensures((a,), Err(e))) || (exists|
            a: Cursor<'s>,
            x: D1,
            b: Cursor<'s>,
            v: T,
        | d1.ensures((src,), Ok((a, x))) && p.ensures((a,), Ok((b, v))) && d2.ensures((b,), Err(e)))
            ,
{
    match d1(src) {
        Ok((a, x)) => {
            let ghost gx = x;
            match p(a) {
                Ok((b, v)) => {
                    let ghost gv = v;
                    match d2(b) {
                        Ok((end, y)) => {
                            let ghost gy = y;
                            let r: PResult<'s, T> = Ok((end, v));
                            proof {
                                assert(d1.ensures((src,), Ok((a, gx))) && p.ensures(
                                    (a,),
                                    Ok((b, r->Ok_0.1)),
                                ) && d2.ensures((b,), Ok((r->Ok_0.0, gy))));
                            }
                            r
                        },
                        Err(e) => {
                            proof {
                                assert(d1.ensures((src,), Ok((a, gx))) && p.ensures((a,), Ok((b, gv)))
                                    && d2.ensures((b,), Err(e)));
                            }
                            Err(e)
                        },
                    }
                },
                Err(e) => {
                    proof {
                        assert(d1.ensures((src,), Ok((a, gx))) && p.ensures((a,), Err(e)));
                    }
                    Err(e)
                },
            }
        },
        Err(e) => Err(e),
    }
}

/// Tries each parser in order on the same input and returns the first success; when all
/// fail, the error of the last one.
pub fn choice_f<'s, T, P: Fn(Cursor<'s>) -> PResult<'s, T>>(parsers: &Vec<P>, src: Cursor<'s>) -> (r:
    PResult<'s, T>)
    requires
        forall|i: int| 0 <= i < parsers@.len() ==> (#[trigger] parsers@[i]).requires((src,)),
    ensures
        match r {
            Ok(v) => exists|i: int|
                0 <= i < parsers@.len() && (#[trigger] parsers@[i]).ensures((src,), Ok(v))
                    && forall|j: int|
                    0 <= j < i ==> exists|e: PError| (#[trigger] parsers@[j]).ensures((src,), Err(e)),
            Err(e) => {
                &&& forall|j: int|
                    0 <= j < parsers@.len() ==> exists|e2: PError|
                        (#[trigger] parsers@[j]).ensures((src,), Err(e2))
                &&& parsers@.len() == 0 ==> e.ctx == src.context() && e.msg@ == "no matching parser"@
                &&& parsers@.len() > 0 ==> parsers@.last().ensures((src,), Err(e))
            },
        },
{
    let mut last_err: Option<PError> = None;
    let mut i: usize = 0;
    while i < parsers.len()
        invariant
            i <= parsers@.len(),
            forall|k: int| 0 <= k < parsers@.len() ==> (#[trigger] parsers@[k]).requires((src,)),
            forall|j: int|
                0 <= j < i ==> exists|e: PError| (#[trigger] parsers@[j]).ensures((src,), Err(e)),
            i == 0 <==> last_err is None,
            i > 0 ==> parsers@[i - 1].ensures((src,), Err(last_err->0)),
        decreases parsers@.len() - i,
    {
        let p = &parsers[i];
        match p(src) {
            Ok(v) => {
                return Ok(v);
            },
            Err(e) => {
                last_err = Some(e);
            },
        }
        i = i + 1;
    }
    match last_err {
        Some(e) => Err(e),
        None => Err(PError::at("no matching parser", src.ctx())),
    }
}

/// Applies `p` as often as it succeeds and consumes input; zero matches are fine.
pub fn many0<'s, T, P: Fn(Cursor<'s>) -> PResult<'s, T>>(p: P, src: Cursor<'s>) -> (r: PResult<
    's,
    Vec<T>,
>)
    requires
        forall|c: Cursor<'s>| p.requires((c,)),
    ensures
        r matches Ok((end, vs)) && repeated(succeeds(p), src, vs@, end) && stalls(p, end),
{
    let mut out: Vec<T> = Vec::new();
    let mut cur = src;
    loop
        invariant
            forall|c: Cursor<'s>| p.requires((c,)),
            repeated(succeeds(p), src, out@, cur),
        decreases cur.rest().len(),
    {
        let res = p(cur);
        match res {
            Ok((next, v)) => {
                if next.remainder().unicode_len() >= cur.remainder().unicode_len() {
                    proof {
                        assert(p.ensures((cur,), res));
                    }
                    return Ok((cur, out));
                }
                proof {
                    lemma_repeated_push(succeeds(p), src, out@, cur, next, v);
                }
                out.push(v);
                cur = next;
            },
            Err(_) => {
                proof {
                    assert(p.ensures((cur,), res));
                }
                return Ok((cur, out));
            },
        }
    }
}

/// Applies `p` once, then as often as it succeeds and consumes input.
pub fn some<'s, T, P: Fn(Cursor<'s>) -> PResult<'s, T>>(p: P, src: Cursor<'s>) -> (r: PResult<
    's,
    Vec<T>,
>)
    requires
        forall|c: Cursor<'s>| p.requires((c,)),
    ensures
        match r {
            Ok((end, vs)) => {
                &&& vs@.len() >= 1
                &&& exists|mid: Cursor<'s>|
                    p.ensures((src,), Ok((mid, vs@[0]))) && repeated(
                        succeeds(p),
                        mid,
                        vs@.drop_first(),
                        end,
                    )
                &&& stalls(p, end)
            },
            Err(e) => {
                &&& e.ctx == src.context()
                &&& e.msg@ == "Expected at least one element"@
                &&& exists|e2: PError| p.ensures((src,), Err(e2))
            },
        },
{
    let (next, v) = match p(src) {
        Ok((next, v)) => (next, v),
        Err(_) => {
            return Err(PError::at("Expected at least one element", src.ctx()));
        },
    };
    let ghost gv = v;
    let mut rest: Vec<T> = Vec::new();
    let mut cur = next;
    loop
        invariant
            forall|c: Cursor<'s>| p.requires((c,)),
            repeated(succeeds(p), next, rest@, cur),
        ensures
            repeated(succeeds(p), next, rest@, cur),
            stalls(p, cur),
        decreases cur.rest().len(),
    {
        let res = p(cur);
        match res {
            Ok((n2, v2)) => {
                if n2.remainder().unicode_len() >= cur.remainder().unicode_len() {
                    proof {
                        assert(p.ensures((cur,), res));
                    }
                    break ;
                }
                proof {
                    lemma_repeated_push(succeeds(p), next, rest@, cur, n2, v2);
                }
                rest.push(v2);
                cur = n2;
            },
            Err(_) => {
                proof {
                    assert(p.ensures((cur,), res));
                }
                break ;
            },
        }
    }
    let ghost tail = rest@;
    let mut out = vec![v];
    out.append(&mut rest);
    proof {
        assert(out@.drop_first() =~= tail);
        assert(out@[0] == gv);
        assert(p.ensures((src,), Ok((next, out@[0]))));
    }
    Ok((cur, out))
}

/// Runs `ps`, then `p`, and appends the value of `p` to the values of `ps`.
pub fn then_append<'s, T, PS: Fn(Cursor<'s>) -> PResult<'s, Vec<T>>, P: Fn(Cursor<'s>) -> PResult<
    's,
    T,
>>(ps: PS, p: P, src: Cursor<'s>) -> (r: PResult<'s, Vec<T>>)
    requires
        ps.requires((src,)),
        forall|c: Cursor<'s>| p.requires((c,)),
    ensures
        r matches Ok((end, xs)) ==> exists|mid: Cursor<'s>, ys: Vec<T>, x: T|
            ps.ensures((src,), Ok((mid, ys))) && p.ensures((mid,), Ok((end, x))) && xs@ == ys@.push(
                x,
            ),
        r matches Err(e) ==> ps.ensures((src,), Err(e)) || exists|mid: Cursor<'s>, ys: Vec<T>|
            ps.ensures((src,), Ok((mid, ys))) && p.ensures((mid,), Err(e)),
{
    match ps(src) {
        Ok((mid, xs)) => {
            let ghost ys = xs;
            match p(mid) {
                Ok((end, x)) => {
                    let ghost gx = x;
                    let mut xs = xs;
                    xs.push(x);
                    let r: PResult<'s, Vec<T>> = Ok((end, xs));
                    proof {
                        assert(ps.ensures((src,), Ok((mid, ys))) && p.ensures(
                            (mid,),
                            Ok((r->Ok_0.0, gx)),
                        ) && r->Ok_0.1@ == ys@.push(gx));
                    }
                    r
                },
                Err(e) => {
                    proof {
                        assert(ps.ensures((src,), Ok((mid, ys))) && p.ensures((mid,), Err(e)));
                    }
                    Err(e)
                },
            }
        },
        Err(e) => Err(e),
    }
}

/// At `c` no further item and delimiter can be taken: the item fails, or the delimiter
/// after it fails, or the two consume nothing.
pub open spec fn delim_stalls<'s, T, D, P: Fn(Cursor<'s>) -> PResult<'s, T>, Q: Fn(Cursor<'s>) -> PResult<
    's,
    D,
>>(p: P, del: Q, c: Cursor<'s>) -> bool {
    exists|r1: PResult<'s, T>|
        #![trigger p.ensures((c,), r1)]
        p.ensures((c,), r1) && (r1 is Err || exists|r2: PResult<'s, D>|
            #![trigger del.ensures((r1->Ok_0.0,), r2)]
            del.ensures((r1->Ok_0.0,), r2) && (r2 is Err || r2->Ok_0.0.rest().len() >= c.rest().len()))
}

/// One item followed by a delimiter, consuming input.
pub open spec fn item_then_delim<'s, T, D, P: Fn(Cursor<'s>) -> PResult<'s, T>, Q: Fn(
    Cursor<'s>,
) -> PResult<'s, D>>(p: P, del: Q) -> spec_fn(Cursor<'s>, Cursor<'s>, T) -> bool {
    |c: Cursor<'s>, next: Cursor<'s>, v: T|
        exists|a: Cursor<'s>, d: D| p.ensures((c,), Ok((a, v))) && del.ensures((a,), Ok((next, d)))
}

/// One or more items `p` separated by `del`; no delimiter after the last item.
pub fn delimited1<'s, T, D, P: Fn(Cursor<'s>) -> PResult<'s, T>, Q: Fn(Cursor<'s>) -> PResult<
    's,
    D,
>>(p: P, del: Q, src: Cursor<'s>) -> (r: PResult<'s, Vec<T>>)
    requires
        forall|c: Cursor<'s>| p.requires((c,)),
        forall|c: Cursor<'s>| del.requires((c,)),
    ensures
        r matches Ok((end, vs)) ==> vs@.len() >= 1 && exists|mid: Cursor<'s>|
            repeated(item_then_delim(p, del), src, vs@.drop_last(), mid) && delim_stalls(p, del, mid)
                && p.ensures((mid,), Ok((end, vs@.last()))),
        r matches Err(e) ==> exists|mid: Cursor<'s>, vs: Seq<T>|
            repeated(item_then_delim(p, del), src, vs, mid) && p.ensures((mid,), Err(e)),
{
    let mut out: Vec<T> = Vec::new();
    let mut cur = src;
    loop
        invariant
            forall|c: Cursor<'s>| p.requires((c,)),
            forall|c: Cursor<'s>| del.requires((c,)),
            repeated(item_then_delim(p, del), src, out@, cur),
        ensures
            repeated(item_then_delim(p, del), src, out@, cur),
            delim_stalls(p, del, cur),
        decreases cur.rest().len(),
    {
        let r1 = p(cur);
        let ghost g1 = r1;
        let (a, v) = match r1 {
            Ok(x) => x,
            Err(_) => {
                proof {
                    assert(p.ensures((cur,), g1));
                }
                break ;
            },
        };
        let ghost gv = v;
        let r2 = del(a);
        let ghost g2 = r2;
        let b = match r2 {
            Ok((b, d)) => {
                let ghost gd = d;
                proof {
                    assert(p.ensures((cur,), Ok((a, gv))) && del.ensures((a,), Ok((b, gd))));
                }
                b
            },
            Err(_) => {
                proof {
                    assert(p.ensures((cur,), g1) && del.ensures((g1->Ok_0.0,), g2));
                }
                break ;
            },
        };
        if b.remainder().unicode_len() >= cur.remainder().unicode_len() {
            proof {
                assert(p.ensures((cur,), g1) && del.ensures((g1->Ok_0.0,), g2));
            }
            break ;
        }
        proof {
            assert((item_then_delim(p, del))(cur, b, gv));
            lemma_repeated_push(item_then_delim(p, del), src, out@, cur, b, gv);
        }
        out.push(v);
        cur = b;
    }
    match p(cur) {
        Ok((end, v)) => {
            let ghost before = out@;
            let ghost gv = v;
            out.push(v);
            let r: PResult<'s, Vec<T>> = Ok((end, out));
            proof {
                assert(r->Ok_0.1@.drop_last() =~= before);
                assert(p.ensures((cur,), Ok((r->Ok_0.0, r->Ok_0.1@.last()))));
                assert(repeated(item_then_delim(p, del), src, r->Ok_0.1@.drop_last(), cur) && delim_stalls(
                    p,
                    del,
                    cur,
                ) && p.ensures((cur,), Ok((r->Ok_0.0, r->Ok_0.1@.last()))));
            }
            r
        },
        Err(e) => {
            proof {
                assert(repeated(item_then_delim(p, del), src, out@, cur) && p.ensures((cur,), Err(e)));
            }
            Err(e)
        },
    }
}

} // verus!
