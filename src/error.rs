use vstd::prelude::*;

use crate::cursor::{Cursor, FileContext};

verus! {

/// A parse failure: what was expected, and where.
#[derive(Clone, Debug, PartialEq)]
pub struct PError {
    pub msg: String,
    pub ctx: FileContext,
}

/// The result of a parser: the cursor after what it consumed and the value, or an error.
pub type PResult<'s, O> = Result<(Cursor<'s>, O), PError>;

/// Relies on `char::to_string`: the text of one character.
#[verifier::external_body]
pub(crate) fn char_text(c: char) -> (r: String)
    ensures
        r@ == seq![c],
{
    c.to_string()
}

impl PError {
    /// An error with message `msg` at the position of `ctx`.
    pub fn at(msg: &str, ctx: FileContext) -> (r: PError)
        ensures
            r.msg@ == msg@,
            r.ctx == ctx,
    {
        PError { msg: String::from_str(msg), ctx }
    }

    /// The same error with `prefix` and `": "` put in front of its message.
    pub fn context(self, prefix: &str) -> (r: PError)
        ensures
            r.msg@ == prefix@ + ": "@ + self.msg@,
            r.ctx == self.ctx,
    {
        let mut msg = String::from_str(prefix);
        msg.append(": ");
        msg.append(self.msg.as_str());
        PError { msg, ctx: self.ctx }
    }

    /// The message and the position, as shown to a user: `Error: msg` and `line:col`.
    pub fn describe(&self) -> (r: String)
        ensures
            r@ == "Error: "@ + self.msg@ + "\n   "@ + decimal_text(self.ctx.line as nat) + ":"@
                + decimal_text(self.ctx.col as nat),
    {
        let mut s = String::from_str("Error: ");
        s.append(self.msg.as_str());
        s.append("\n   ");
        s.append(usize_text(self.ctx.line).as_str());
        s.append(":");
        s.append(usize_text(self.ctx.col).as_str());
        s
    }
}

/// The character of the decimal digit `d`.
pub open spec fn digit_char_spec(d: nat) -> char {
    ((d + 48) as u8) as char
}

/// The decimal digits of `n`, without leading zeros.
pub open spec fn decimal_text(n: nat) -> Seq<char>
    decreases n,
{
    if n < 10 {
        seq![digit_char_spec(n)]
    } else {
        decimal_text(n / 10) + seq![digit_char_spec(n % 10)]
    }
}

/// The decimal digits of `n`.
pub fn usize_text(n: usize) -> (r: String)
    ensures
        r@ == decimal_text(n as nat),
    decreases n,
{
    if n < 10 {
        char_text(digit_char(n))
    } else {
        let mut s = usize_text(n / 10);
        s.append(char_text(digit_char(n % 10)).as_str());
        s
    }
}

fn digit_char(d: usize) -> (r: char)
    requires
        d < 10,
    ensures
        r == digit_char_spec(d as nat),
{
    ((d as u8) + 48u8) as char
}

} // verus!
