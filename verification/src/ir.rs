//! The intermediate representation: the fixed vocabulary that the code
//! generator consumes.  Pure data, no logic.
//!
//! A numeric constant is carried as the bit pattern of an IEEE-754 double
//! (`u64`); the code generator emits it verbatim as a double immediate.

use vstd::prelude::*;

verus! {

/// An instruction operand: nothing, a double immediate (as its bit pattern),
/// a variable reference, or a text literal.
///
/// `Null` and `String` operands are legitimate IR values, but the code
/// generator rejects them wherever a numeric value is required.
#[derive(Debug)]
pub enum Operand {
    Null,
    Const(u64),
    Var(String),
    String(String),
}

/// The closed set of arithmetic operations.  `Idiv` is floored integer
/// division, `Mod` is floored modulo; `Pow` is delegated to a host routine.
#[derive(Debug, PartialEq, Eq, Structural)]
pub enum OpKind {
    Add,
    Sub,
    Mul,
    Div,
    Idiv,
    Mod,
    Pow,
}

/// Conditions for the reserved `Jump` instruction.  The type exists so that a
/// later compiler version can lower branches without an IR change; the
/// current lowering does not emit them.
#[derive(Debug, PartialEq, Eq, Structural)]
pub enum JumpCondition {
    Equal,
    NotEqual,
    LessThan,
    LessThanEq,
    GreaterThan,
    GreaterThanEq,
    StrictEqual,
    Always,
}

/// One instruction: assign an operand to a variable (the `set` statement),
/// combine two operands into a variable (`op`), or (reserved) jump to a line
/// when a condition holds.
#[derive(Debug)]
pub enum Instr {
    Assign(String, Operand),
    Op(String, OpKind, Operand, Operand),
    Jump(i32, JumpCondition, Operand, Operand),
}

/// The mathematical shape of an `Operand`: text carried as its character
/// sequence.
pub enum OperandModel {
    Null,
    Const(u64),
    Var(Seq<char>),
    String(Seq<char>),
}

/// The mathematical shape of an `Instr`.
pub enum InstrModel {
    Assign(Seq<char>, OperandModel),
    Op(Seq<char>, OpKind, OperandModel, OperandModel),
    Jump(i32, JumpCondition, OperandModel, OperandModel),
}

impl View for Operand {
    type V = OperandModel;

    open spec fn view(&self) -> OperandModel {
        match self {
            Operand::Null => OperandModel::Null,
            Operand::Const(bits) => OperandModel::Const(*bits),
            Operand::Var(name) => OperandModel::Var(name@),
            Operand::String(text) => OperandModel::String(text@),
        }
    }
}

impl View for Instr {
    type V = InstrModel;

    open spec fn view(&self) -> InstrModel {
        match self {
            Instr::Assign(var, oper) => InstrModel::Assign(var@, oper@),
            Instr::Op(var, kind, left, right) => InstrModel::Op(var@, *kind, left@, right@),
            Instr::Jump(line, cond, left, right) => InstrModel::Jump(*line, *cond, left@, right@),
        }
    }
}

impl PartialEq for Operand {
    fn eq(&self, other: &Operand) -> (r: bool) {
        match (self, other) {
            (Operand::Null, Operand::Null) => true,
            (Operand::Const(a), Operand::Const(b)) => a == b,
            (Operand::Var(a), Operand::Var(b)) => a.eq(b),
            (Operand::String(a), Operand::String(b)) => a.eq(b),
            _ => false,
        }
    }
}

/// What `==` means on operands: structural equality, with the text of
/// `Var` and `String` compared by characters.
pub open spec fn operand_eq(a: Operand, b: Operand) -> bool {
    match (a, b) {
        (Operand::Null, Operand::Null) => true,
        (Operand::Const(x), Operand::Const(y)) => x == y,
        (Operand::Var(x), Operand::Var(y)) => x@ == y@,
        (Operand::String(x), Operand::String(y)) => x@ == y@,
        _ => false,
    }
}

impl vstd::std_specs::cmp::PartialEqSpecImpl for Operand {
    open spec fn obeys_eq_spec() -> bool {
        true
    }

    open spec fn eq_spec(&self, other: &Operand) -> bool {
        operand_eq(*self, *other)
    }
}

impl PartialEq for Instr {
    fn eq(&self, other: &Instr) -> (r: bool) {
        match (self, other) {
            (Instr::Assign(v1, o1), Instr::Assign(v2, o2)) => v1.eq(v2) && o1.eq(o2),
            (Instr::Op(v1, k1, l1, r1), Instr::Op(v2, k2, l2, r2)) => {
                v1.eq(v2) && k1 == k2 && l1.eq(l2) && r1.eq(r2)
            },
            (Instr::Jump(t1, c1, l1, r1), Instr::Jump(t2, c2, l2, r2)) => {
                t1 == t2 && c1 == c2 && l1.eq(l2) && r1.eq(r2)
            },
            _ => false,
        }
    }
}

impl vstd::std_specs::cmp::PartialEqSpecImpl for Instr {
    open spec fn obeys_eq_spec() -> bool {
        true
    }

    open spec fn eq_spec(&self, other: &Instr) -> bool {
        match (self, other) {
            (Instr::Assign(v1, o1), Instr::Assign(v2, o2)) => v1@ == v2@ && operand_eq(*o1, *o2),
            (Instr::Op(v1, k1, l1, r1), Instr::Op(v2, k2, l2, r2)) => {
                v1@ == v2@ && k1 == k2 && operand_eq(*l1, *l2) && operand_eq(*r1, *r2)
            },
            (Instr::Jump(t1, c1, l1, r1), Instr::Jump(t2, c2, l2, r2)) => {
                t1 == t2 && c1 == c2 && operand_eq(*l1, *l2) && operand_eq(*r1, *r2)
            },
            _ => false,
        }
    }
}

} // verus!
