use vstd::prelude::*;

verus! {

/// An exact decimal number: `(-1)^negative * digits * 10^exponent`.
///
/// Number literals and instruction operands are held in this form; turning one into a
/// machine float is left to whoever runs the instructions.
#[derive(Clone, Copy, Debug, PartialEq, Eq, Structural)]
pub struct Decimal {
    pub negative: bool,
    pub digits: u64,
    pub exponent: i32,
}

/// The decimal that stands for the integer `n`.
pub open spec fn decimal_of_int(n: i32) -> Decimal {
    Decimal {
        negative: n < 0,
        digits: (if n < 0 { -(n as int) } else { n as int }) as u64,
        exponent: 0,
    }
}

impl Decimal {
    pub fn from_int(n: i32) -> (r: Decimal)
        ensures
            r == decimal_of_int(n),
    {
        let digits: u64 = if n < 0 {
            (-(n as i64)) as u64
        } else {
            n as u64
        };
        Decimal { negative: n < 0, digits, exponent: 0 }
    }

    pub open spec fn neg_spec(self) -> Decimal {
        Decimal { negative: !self.negative, ..self }
    }

    /// The same magnitude with the other sign.
    pub fn neg(self) -> (r: Decimal)
        ensures
            r == self.neg_spec(),
    {
        Decimal { negative: !self.negative, ..self }
    }
}

/// A literal of the language.
#[derive(Clone, Debug, PartialEq)]
pub enum Literal<'s> {
    Int(i32),
    Float(Decimal),
    Bool(bool),
    Str(&'s str),
}

/// Negation of an `i32` that maps `i32::MIN` to itself, so that it is its own inverse.
pub open spec fn neg_i32(v: i32) -> i32 {
    if v == i32::MIN {
        v
    } else {
        (-v) as i32
    }
}

impl<'s> Literal<'s> {
    pub open spec fn neg_spec(self) -> Literal<'s> {
        match self {
            Literal::Int(v) => Literal::Int(neg_i32(v)),
            Literal::Float(d) => Literal::Float(d.neg_spec()),
            Literal::Bool(b) => Literal::Bool(!b),
            Literal::Str(s) => Literal::Str(s),
        }
    }

    /// Negates a number, flips a boolean, and leaves a string as it is.
    pub fn neg(self) -> (r: Literal<'s>)
        ensures
            r == self.neg_spec(),
    {
        match self {
            Literal::Int(v) => Literal::Int(
                if v == i32::MIN {
                    v
                } else {
                    -v
                },
            ),
            Literal::Float(d) => Literal::Float(d.neg()),
            Literal::Bool(b) => Literal::Bool(!b),
            Literal::Str(s) => Literal::Str(s),
        }
    }
}

/// A call of a named function on arguments. A bare name is a call without arguments, and a
/// binary operator is a call named by its symbol. `is_negated` records a minus sign in front
/// of the whole call.
#[derive(Debug, PartialEq)]
pub struct FunctionCall<'s> {
    pub name: &'s str,
    pub args: Vec<Expr<'s>>,
    pub is_negated: bool,
}

impl<'s> FunctionCall<'s> {
    pub open spec fn neg_spec(self) -> FunctionCall<'s> {
        FunctionCall { is_negated: !self.is_negated, ..self }
    }

    /// The same call with the minus sign toggled.
    pub fn neg(self) -> (r: FunctionCall<'s>)
        ensures
            r == self.neg_spec(),
    {
        FunctionCall { name: self.name, args: self.args, is_negated: !self.is_negated }
    }
}

/// An expression: a literal or a function call.
#[derive(Debug, PartialEq)]
pub enum Expr<'s> {
    FunctionCall(FunctionCall<'s>),
    Literal(Literal<'s>),
}

impl<'s> Expr<'s> {
    pub open spec fn neg_spec(self) -> Expr<'s> {
        match self {
            Expr::Literal(l) => Expr::Literal(l.neg_spec()),
            Expr::FunctionCall(c) => Expr::FunctionCall(c.neg_spec()),
        }
    }

    /// Unary minus: folded into a literal, recorded on a call.
    pub fn neg(self) -> (r: Expr<'s>)
        ensures
            r == self.neg_spec(),
    {
        match self {
            Expr::Literal(l) => Expr::Literal(l.neg()),
            Expr::FunctionCall(c) => Expr::FunctionCall(c.neg()),
        }
    }
}

/// `e` is a call of `name` on `args` with the minus sign `negated`.
pub open spec fn is_call<'s>(e: Expr<'s>, name: &'s str, args: Seq<Expr<'s>>, negated: bool) -> bool {
    &&& e is FunctionCall
    &&& e->FunctionCall_0.name == name
    &&& e->FunctionCall_0.args@ == args
    &&& e->FunctionCall_0.is_negated == negated
}

/// A reference to a name: a call without arguments.
pub fn varref<'s>(name: &'s str) -> (r: Expr<'s>)
    ensures
        is_call(r, name, Seq::empty(), false),
{
    Expr::FunctionCall(FunctionCall { name, args: Vec::new(), is_negated: false })
}

/// A call of `name` on `args`, without minus sign.
pub fn function_call<'s>(name: &'s str, args: Vec<Expr<'s>>) -> (r: Expr<'s>)
    ensures
        r == Expr::FunctionCall(FunctionCall { name, args, is_negated: false }),
{
    Expr::FunctionCall(FunctionCall { name, args, is_negated: false })
}

/// The integer literal `x` as an expression.
pub fn int_literal(x: i32) -> (r: Expr<'static>)
    ensures
        r == Expr::Literal(Literal::Int(x)),
{
    Expr::Literal(Literal::Int(x))
}

/// A formal parameter of a function definition.
#[derive(Clone, Debug, PartialEq)]
pub struct Param<'s>(pub &'s str);

/// A function definition `name(params) = body`.
#[derive(Debug, PartialEq)]
pub struct Mapping<'s> {
    pub name: &'s str,
    pub params: Vec<Param<'s>>,
    pub body: Expr<'s>,
}

/// The types that a type declaration may name.
#[derive(Clone, Copy, Debug, PartialEq, Eq, Structural)]
pub enum Type {
    Int,
    String,
    Bool,
}

/// A type declaration `name :: t1 -> t2 -> ...`; it informs and is not enforced.
#[derive(Clone, Debug, PartialEq)]
pub struct TypeDecl<'s> {
    pub name: &'s str,
    pub params: Vec<Type>,
}

/// A statement of a module.
#[derive(Debug, PartialEq)]
pub enum TopLevel<'s> {
    TypeDecl(TypeDecl<'s>),
    Function(Mapping<'s>),
    Expr(Expr<'s>),
}

/// A parsed program: its statements in order.
#[derive(Debug, PartialEq)]
pub struct Module<'s> {
    pub name: Option<&'s str>,
    pub top_level: Vec<TopLevel<'s>>,
}

/// A literal as plain values: a string as its characters.
pub enum LiteralView {
    Int(i32),
    Float(Decimal),
    Bool(bool),
    Str(Seq<char>),
}

/// An expression as plain values: names as their characters.
pub enum ExprView {
    Literal(LiteralView),
    Call(Seq<char>, Seq<ExprView>, bool),
}

impl<'s> Literal<'s> {
    pub open spec fn view(self) -> LiteralView {
        match self {
            Literal::Int(v) => LiteralView::Int(v),
            Literal::Float(d) => LiteralView::Float(d),
            Literal::Bool(b) => LiteralView::Bool(b),
            Literal::Str(t) => LiteralView::Str(t@),
        }
    }
}

/// The views of `args`.
pub open spec fn args_view<'s>(args: Seq<Expr<'s>>) -> Seq<ExprView>
    decreases args,
{
    Seq::new(
        args.len(),
        |i: int|
            if 0 <= i < args.len() {
                args[i].view()
            } else {
                ExprView::Literal(LiteralView::Bool(false))
            },
    )
}

impl<'s> Expr<'s> {
    pub open spec fn view(self) -> ExprView
        decreases self,
    {
        match self {
            Expr::Literal(l) => ExprView::Literal(l.view()),
            Expr::FunctionCall(c) => ExprView::Call(c.name@, args_view(c.args@), c.is_negated),
        }
    }
}

/// A statement as plain values.
pub enum TopLevelView {
    /// A type declaration: name and types.
    TypeDecl(Seq<char>, Seq<Type>),
    /// A definition: name, parameter names and body.
    Function(Seq<char>, Seq<Seq<char>>, ExprView),
    Expr(ExprView),
}

/// The names of `params`.
pub open spec fn params_view<'s>(params: Seq<Param<'s>>) -> Seq<Seq<char>> {
    Seq::new(params.len(), |i: int| params[i].0@)
}

impl<'s> Mapping<'s> {
    pub open spec fn view(self) -> (Seq<char>, Seq<Seq<char>>, ExprView) {
        (self.name@, params_view(self.params@), self.body.view())
    }
}

impl<'s> TopLevel<'s> {
    pub open spec fn view(self) -> TopLevelView {
        match self {
            TopLevel::TypeDecl(d) => TopLevelView::TypeDecl(d.name@, d.params@),
            TopLevel::Function(m) => TopLevelView::Function(m.name@, params_view(m.params@), m.body.view()),
            TopLevel::Expr(e) => TopLevelView::Expr(e.view()),
        }
    }
}

/// The views of `items`.
pub open spec fn items_view<'s>(items: Seq<TopLevel<'s>>) -> Seq<TopLevelView> {
    Seq::new(items.len(), |i: int| items[i].view())
}

} // verus!
