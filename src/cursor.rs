use vstd::prelude::*;

verus! {

/// Line and column of the character under a cursor.
#[derive(Clone, Copy, Debug, PartialEq, Eq, Structural)]
pub struct FileContext {
    pub line: usize,
    pub col: usize,
}

impl Default for FileContext {
    /// The position of the first character of a text: line 1, column 1.
    fn default() -> (r: FileContext)
        ensures
            r == (FileContext { line: 1, col: 1 }),
    {
        FileContext { line: 1, col: 1 }
    }
}

/// Adds one, staying at `usize::MAX` once there.
pub open spec fn bump(n: usize) -> usize {
    if n < usize::MAX {
        (n + 1) as usize
    } else {
        n
    }
}

/// The first character of `s`, if any.
pub open spec fn head(s: Seq<char>) -> Option<char> {
    if s.len() > 0 {
        Some(s[0])
    } else {
        None
    }
}

/// `s` without its first character; the empty sequence stays empty.
pub open spec fn tail(s: Seq<char>) -> Seq<char> {
    if s.len() > 0 {
        s.drop_first()
    } else {
        s
    }
}

/// Position after one step onto the character `c` (`None` at the end of the text): the
/// column grows by one, and a newline starts a new line at column 0.
pub open spec fn next_context(ctx: FileContext, c: Option<char>) -> FileContext {
    if c == Some('\n') {
        FileContext { line: bump(ctx.line), col: 0 }
    } else {
        FileContext { line: ctx.line, col: bump(ctx.col) }
    }
}

/// What is left of `rest` after `n` steps.
pub open spec fn rest_after(rest: Seq<char>, n: nat) -> Seq<char> {
    if n <= rest.len() {
        rest.skip(n as int)
    } else {
        Seq::empty()
    }
}

/// The position after `n` steps from `ctx` over `rest`.
pub open spec fn context_after(ctx: FileContext, rest: Seq<char>, n: nat) -> FileContext
    decreases n,
{
    if n == 0 {
        ctx
    } else {
        context_after(next_context(ctx, head(tail(rest))), tail(rest), (n - 1) as nat)
    }
}

pub proof fn lemma_rest_after_step(rest: Seq<char>, n: nat)
    ensures
        rest_after(tail(rest), n) == rest_after(rest, n + 1),
{
    if rest.len() > 0 {
        if n + 1 <= rest.len() {
            assert(rest.drop_first().skip(n as int) =~= rest.skip((n + 1) as int));
        }
    }
}

pub proof fn lemma_rest_after_split(rest: Seq<char>, i: nat, j: nat)
    ensures
        rest_after(rest_after(rest, i), j) == rest_after(rest, i + j),
{
    if i + j <= rest.len() {
        assert(rest.skip(i as int).skip(j as int) =~= rest.skip((i + j) as int));
    } else if i <= rest.len() {
        assert(rest.skip(i as int).len() < j);
    }
}

pub proof fn lemma_context_after_split(ctx: FileContext, rest: Seq<char>, i: nat, j: nat)
    ensures
        context_after(ctx, rest, i + j) == context_after(
            context_after(ctx, rest, i),
            rest_after(rest, i),
            j,
        ),
    decreases i,
{
    if i == 0 {
        assert(rest.skip(0) =~= rest);
    } else {
        let nc = next_context(ctx, head(tail(rest)));
        lemma_context_after_split(nc, tail(rest), (i - 1) as nat, j);
        lemma_rest_after_step(rest, (i - 1) as nat);
        assert((i + j - 1) as nat == ((i - 1) + j) as nat);
    }
}

/// A scanning position over an immutable text.
///
/// The cursor keeps the whole text, the suffix not yet consumed, the character under the
/// cursor (the first of that suffix) and its line and column. It is `Copy`: backtracking
/// keeps an earlier copy.
#[derive(Clone, Copy, Debug)]
pub struct Cursor<'s> {
    src: &'s str,
    remainder: &'s str,
    cur_char: Option<char>,
    ctx: FileContext,
}

impl<'s> Cursor<'s> {
    #[verifier::type_invariant]
    spec fn well_formed(self) -> bool {
        &&& self.remainder@.len() <= self.src@.len()
        &&& self.remainder@ == self.src@.subrange(
            self.src@.len() - self.remainder@.len(),
            self.src@.len() as int,
        )
        &&& self.cur_char == head(self.remainder@)
    }

    /// The whole text.
    pub closed spec fn text(self) -> Seq<char> {
        self.src@
    }

    /// The part of the text not yet consumed.
    pub closed spec fn rest(self) -> Seq<char> {
        self.remainder@
    }

    /// Line and column of the character under the cursor.
    pub closed spec fn context(self) -> FileContext {
        self.ctx
    }

    /// Number of characters consumed.
    pub open spec fn pos(self) -> int {
        self.text().len() - self.rest().len()
    }

    /// The character under the cursor.
    pub open spec fn peek(self) -> Option<char> {
        head(self.rest())
    }

    /// `self` is `from` moved on by `n` steps.
    pub open spec fn advanced_by(self, from: Cursor<'s>, n: nat) -> bool {
        &&& self.text() == from.text()
        &&& self.rest() == rest_after(from.rest(), n)
        &&& self.context() == context_after(from.context(), from.rest(), n)
    }

    /// `self` scans the same text as `from` and has consumed no less.
    pub open spec fn follows(self, from: Cursor<'s>) -> bool {
        &&& self.text() == from.text()
        &&& self.rest().len() <= from.rest().len()
    }

    /// `self` scans the same text as `from` and has consumed more.
    pub open spec fn progressed(self, from: Cursor<'s>) -> bool {
        &&& self.text() == from.text()
        &&& self.rest().len() < from.rest().len()
    }

    /// Moving on by `i` steps and then by `j` steps is moving on by `i + j` steps.
    pub proof fn lemma_advanced_trans(a: Cursor<'s>, b: Cursor<'s>, c: Cursor<'s>, i: nat, j: nat)
        requires
            b.advanced_by(a, i),
            c.advanced_by(b, j),
        ensures
            c.advanced_by(a, i + j),
    {
        lemma_rest_after_split(a.rest(), i, j);
        lemma_context_after_split(a.context(), a.rest(), i, j);
    }

    /// A cursor on the first character of `src`, at line 1, column 1.
    pub fn new(src: &'s str) -> (r: Cursor<'s>)
        ensures
            r.text() == src@,
            r.rest() == src@,
            r.context() == (FileContext { line: 1, col: 1 }),
    {
        let first = if src.unicode_len() > 0 {
            Some(src.get_char(0))
        } else {
            None
        };
        proof {
            assert(src@.subrange(0, src@.len() as int) =~= src@);
        }
        Cursor { src, remainder: src, cur_char: first, ctx: FileContext::default() }
    }

    /// The character under the cursor, `None` at the end of the text.
    pub fn cur_char(&self) -> (r: Option<char>)
        ensures
            r == self.peek(),
    {
        proof {
            use_type_invariant(self);
        }
        self.cur_char
    }

    /// The part of the text not yet consumed.
    pub fn remainder(&self) -> (r: &'s str)
        ensures
            r@ == self.rest(),
    {
        self.remainder
    }

    /// The part of the text not yet consumed.
    pub fn as_str(&self) -> (r: &'s str)
        ensures
            r@ == self.rest(),
    {
        self.remainder
    }

    /// The whole text.
    pub fn source(&self) -> (r: &'s str)
        ensures
            r@ == self.text(),
    {
        self.src
    }

    /// Line and column of the character under the cursor.
    pub fn ctx(&self) -> (r: FileContext)
        ensures
            r == self.context(),
    {
        self.ctx
    }

    /// Consumes the character under the cursor and returns the new one.
    ///
    /// At the end of the text nothing is consumed, but the column still grows.
    pub fn next(&mut self) -> (r: Option<char>)
        ensures
            final(self).advanced_by(*old(self), 1),
            final(self).rest() == tail(old(self).rest()),
            final(self).context() == next_context(old(self).context(), r),
            r == final(self).peek(),
    {
        proof {
            use_type_invariant(&*self);
        }
        let len = self.remainder.unicode_len();
        let rem = if len > 0 {
            self.remainder.substring_char(1, len)
        } else {
            self.remainder
        };
        let c = if len > 1 {
            Some(rem.get_char(0))
        } else {
            None
        };
        let ctx = if c == Some('\n') {
            FileContext { line: self.ctx.line.saturating_add(1), col: 0 }
        } else {
            FileContext { line: self.ctx.line, col: self.ctx.col.saturating_add(1) }
        };
        proof {
            let t = self.src@;
            let r = self.remainder@;
            if len > 0 {
                assert(rem@ =~= r.drop_first());
                assert(rem@ =~= t.subrange(t.len() - rem@.len(), t.len() as int));
            }
            assert(context_after(next_context(self.ctx, head(tail(r))), tail(r), 0)
                == next_context(self.ctx, head(tail(r))));
            lemma_rest_after_step(r, 0);
            assert(r.skip(0) =~= r);
        }
        *self = Cursor { src: self.src, remainder: rem, cur_char: c, ctx };
        c
    }

    /// Consumes `n` characters, or all that are left if fewer.
    pub fn advance(&mut self, n: usize)
        ensures
            final(self).advanced_by(*old(self), n as nat),
    {
        let ghost start = *self;
        let mut i: usize = 0;
        proof {
            assert(start.rest().skip(0) =~= start.rest());
        }
        while i < n
            invariant
                i <= n,
                self.text() == start.text(),
                self.rest() == rest_after(start.rest(), i as nat),
                context_after(start.context(), start.rest(), n as nat) == context_after(
                    self.context(),
                    self.rest(),
                    (n - i) as nat,
                ),
            decreases n - i,
        {
            let ghost before = *self;
            self.next();
            proof {
                lemma_rest_after_step(rest_after(start.rest(), i as nat), 0);
                lemma_rest_after_twice(start.rest(), i as nat);
            }
            i = i + 1;
        }
    }
}

proof fn lemma_rest_after_twice(rest: Seq<char>, i: nat)
    ensures
        tail(rest_after(rest, i)) == rest_after(rest, i + 1),
{
    if i + 1 <= rest.len() {
        assert(rest.skip(i as int).drop_first() =~= rest.skip((i + 1) as int));
    } else if i <= rest.len() {
        assert(rest.skip(i as int).len() == 0);
        assert(rest.skip(i as int) =~= Seq::<char>::empty());
    }
}

} // verus!
