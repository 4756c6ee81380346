use vstd::prelude::*;

use crate::ast::Decimal;

verus! {

/// The operations of the stack machine that runs compiled programs.
#[derive(Clone, Copy, Debug, PartialEq, Eq, Structural)]
pub enum OpCode {
    /// Push operand `a`.
    Const,
    /// Push the x coordinate of the sample point.
    X,
    /// Push `a * x^b`.
    XPoly,
    Add,
    Mul,
    Pow,
    Cos,
    Sin,
    Tan,
    Log,
    Sub,
    Div,
    Eq,
    /// Push the y coordinate of the sample point.
    Y,
    Lt,
    Le,
    Gt,
    Ge,
    Ne,
}

impl OpCode {
    /// The stable number of the operation in the instruction record.
    pub open spec fn code_spec(self) -> u32 {
        match self {
            OpCode::Const => 0,
            OpCode::X => 1,
            OpCode::XPoly => 2,
            OpCode::Add => 3,
            OpCode::Mul => 4,
            OpCode::Pow => 5,
            OpCode::Cos => 6,
            OpCode::Sin => 7,
            OpCode::Tan => 8,
            OpCode::Log => 9,
            OpCode::Sub => 10,
            OpCode::Div => 11,
            OpCode::Eq => 12,
            OpCode::Y => 13,
            OpCode::Lt => 14,
            OpCode::Le => 15,
            OpCode::Gt => 16,
            OpCode::Ge => 17,
            OpCode::Ne => 18,
        }
    }

    /// The stable number of the operation in the instruction record.
    pub fn code(self) -> (r: u32)
        ensures
            r == self.code_spec(),
    {
        match self {
            OpCode::Const => 0,
            OpCode::X => 1,
            OpCode::XPoly => 2,
            OpCode::Add => 3,
            OpCode::Mul => 4,
            OpCode::Pow => 5,
            OpCode::Cos => 6,
            OpCode::Sin => 7,
            OpCode::Tan => 8,
            OpCode::Log => 9,
            OpCode::Sub => 10,
            OpCode::Div => 11,
            OpCode::Eq => 12,
            OpCode::Y => 13,
            OpCode::Lt => 14,
            OpCode::Le => 15,
            OpCode::Gt => 16,
            OpCode::Ge => 17,
            OpCode::Ne => 18,
        }
    }
}

/// An operand of an instruction: an exact decimal, or the constant pi.
#[derive(Clone, Copy, Debug, PartialEq, Eq, Structural)]
pub enum Scalar {
    Number(Decimal),
    Pi,
}

pub open spec fn zero() -> Scalar {
    Scalar::Number(Decimal { negative: false, digits: 0, exponent: 0 })
}

/// One instruction: an operation and its two operands.
#[derive(Clone, Copy, Debug, PartialEq, Eq, Structural)]
pub struct Instruction {
    pub opcode: OpCode,
    pub a: Scalar,
    pub b: Scalar,
}

/// The instruction `op` with zero operands.
pub open spec fn op_inst(op: OpCode) -> Instruction {
    Instruction { opcode: op, a: zero(), b: zero() }
}

/// The instruction that pushes `a`.
pub open spec fn const_inst(a: Scalar) -> Instruction {
    Instruction { opcode: OpCode::Const, a, b: zero() }
}

impl Instruction {
    /// The instruction `opcode` with zero operands.
    pub fn op(opcode: OpCode) -> (r: Instruction)
        ensures
            r == op_inst(opcode),
    {
        Instruction { opcode, a: Scalar::zero(), b: Scalar::zero() }
    }

    /// The instruction that pushes `a`.
    pub fn constant(a: Scalar) -> (r: Instruction)
        ensures
            r == const_inst(a),
    {
        Instruction { opcode: OpCode::Const, a, b: Scalar::zero() }
    }

    /// The instruction that pushes the integer `n`.
    pub fn int_constant(n: i32) -> (r: Instruction)
        ensures
            r == const_inst(Scalar::Number(crate::ast::decimal_of_int(n))),
    {
        Instruction::constant(Scalar::Number(Decimal::from_int(n)))
    }
}

impl Default for Instruction {
    /// `CONST 0`: pushes zero.
    fn default() -> (r: Instruction)
        ensures
            r == const_inst(zero()),
    {
        Instruction::constant(Scalar::zero())
    }
}

impl Scalar {
    pub fn zero() -> (r: Scalar)
        ensures
            r == zero(),
    {
        Scalar::Number(Decimal { negative: false, digits: 0, exponent: 0 })
    }
}

} // verus!
