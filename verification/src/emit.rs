//! The model of an emitted native function body.
//!
//! Every operation the code generator hands to the backend is recorded, as
//! it is emitted, in a ghost sequence of `EmitOp` values: the operation, the
//! scalar data it carries (immediate bit patterns, byte offsets), and the
//! opaque SSA handles it consumed and produced.  `body_lowered` then says
//! what a correct body looks like for an instruction sequence: one segment
//! per instruction — operand resolutions, the operation (`Idiv` as
//! divide-then-floor, `Mod` by the floored identity, `Pow` as one call of
//! the host routine with the operands in order), a store to the target's
//! register — and one closing return.  The handles chain each consumer to
//! the recorded result of its producer, so the record also pins the data
//! flow.

use vstd::prelude::*;

use crate::ir::{Instr, OpKind, Operand};
use crate::jit::REGISTER_STRIDE;
use crate::symbol_table::{slot_of, table_contains};
use cranelift_codegen::ir::{FuncRef, Value};

verus! {

/// One operation of a function body, recorded as it is emitted.
pub enum EmitOp {
    /// A double immediate with exactly this bit pattern.
    ConstF64 { bits: u64, result: Value },
    /// A double load from `offset` bytes past the address `ptr`.
    Load { ptr: Value, offset: i32, result: Value },
    /// A double store of `val` at `offset` bytes past the address `ptr`.
    Store { val: Value, ptr: Value, offset: i32 },
    /// Double arithmetic on two operands.
    Fadd { a: Value, b: Value, result: Value },
    Fsub { a: Value, b: Value, result: Value },
    Fmul { a: Value, b: Value, result: Value },
    Fdiv { a: Value, b: Value, result: Value },
    /// Round toward negative infinity.
    Floor { a: Value, result: Value },
    /// A call of the imported routine `f` with arguments `(a, b)`.
    Call { f: FuncRef, a: Value, b: Value, result: Value },
    /// The single return closing the body.
    Return,
}

/// The result handle an operation produced; meaningful only for the
/// value-producing operations.
pub open spec fn emit_result(op: EmitOp) -> Value {
    match op {
        EmitOp::ConstF64 { bits: _b, result } => result,
        EmitOp::Load { ptr: _p, offset: _o, result } => result,
        EmitOp::Store { val: _v, ptr: _p, offset: _o } => vstd::pervasive::arbitrary(),
        EmitOp::Fadd { a: _a, b: _b, result } => result,
        EmitOp::Fsub { a: _a, b: _b, result } => result,
        EmitOp::Fmul { a: _a, b: _b, result } => result,
        EmitOp::Fdiv { a: _a, b: _b, result } => result,
        EmitOp::Floor { a: _a, result } => result,
        EmitOp::Call { f: _f, a: _a, b: _b, result } => result,
        EmitOp::Return => vstd::pervasive::arbitrary(),
    }
}

/// The table after allocating `name`, capacity aside (the compile-time walk
/// enforces capacity separately).
pub open spec fn alloc_table(t: Seq<Seq<char>>, name: Seq<char>) -> Seq<Seq<char>> {
    if table_contains(t, name) {
        t
    } else {
        t.push(name)
    }
}

/// The table after resolving an operand: only a variable reference
/// allocates.
pub open spec fn operand_table(t: Seq<Seq<char>>, o: Operand) -> Seq<Seq<char>> {
    match o {
        Operand::Var(name) => alloc_table(t, name@),
        _ => t,
    }
}

/// The table after one instruction: operands before the target.
pub open spec fn step_table(t: Seq<Seq<char>>, instr: Instr) -> Seq<Seq<char>> {
    match instr {
        Instr::Assign(var, oper) => alloc_table(operand_table(t, oper), var@),
        Instr::Op(var, _kind, left, right) => alloc_table(
            operand_table(operand_table(t, left), right),
            var@,
        ),
        Instr::Jump(_line, _cond, _left, _right) => t,
    }
}

/// The table before instruction `k`, assuming every earlier instruction
/// took a step.
pub open spec fn table_before(instrs: Seq<Instr>, k: int) -> Seq<Seq<char>>
    decreases k,
{
    if k <= 0 {
        Seq::empty()
    } else {
        step_table(table_before(instrs, k - 1), instrs[k - 1])
    }
}

/// The byte offset of `name`'s register in table `t`.
pub open spec fn reg_offset(t: Seq<Seq<char>>, name: Seq<char>) -> int {
    slot_of(t, name) * REGISTER_STRIDE
}

/// `ops[j]` resolves operand `o`: an immediate with the constant's exact
/// bits, or a load of the variable's register — its slot taken in `t`, the
/// table after the operand's own allocation — from the context address.
pub open spec fn operand_lowered(
    ops: Seq<EmitOp>,
    j: int,
    t: Seq<Seq<char>>,
    o: Operand,
    ctx: Value,
) -> bool {
    &&& 0 <= j < ops.len()
    &&& match o {
        Operand::Const(bits) => ops[j] matches EmitOp::ConstF64 { bits: b, result: _r } && b
            == bits,
        Operand::Var(name) => ops[j] matches EmitOp::Load { ptr, offset, result: _r } && ptr
            == ctx && offset == reg_offset(t, name@),
        Operand::Null => false,
        Operand::String(_text) => false,
    }
}

/// How many operations an operation kind emits.
pub open spec fn kind_len(k: OpKind) -> int {
    match k {
        OpKind::Idiv => 2,
        OpKind::Mod => 4,
        _ => 1,
    }
}

/// `ops[j..]` computes operation `k` on the handles `l` and `r`: the plain
/// double instruction; `Idiv` as divide then floor; `Mod` by the floored
/// identity `l - floor(l / r) * r`; `Pow` as one call of the host routine
/// `fref` with `(l, r)` in order.
pub open spec fn kind_lowered(
    ops: Seq<EmitOp>,
    j: int,
    k: OpKind,
    l: Value,
    r: Value,
    fref: FuncRef,
) -> bool {
    &&& 0 <= j
    &&& j + kind_len(k) <= ops.len()
    &&& match k {
        OpKind::Add => ops[j] matches EmitOp::Fadd { a, b, result: _x } && a == l && b == r,
        OpKind::Sub => ops[j] matches EmitOp::Fsub { a, b, result: _x } && a == l && b == r,
        OpKind::Mul => ops[j] matches EmitOp::Fmul { a, b, result: _x } && a == l && b == r,
        OpKind::Div => ops[j] matches EmitOp::Fdiv { a, b, result: _x } && a == l && b == r,
        OpKind::Idiv => {
            &&& (ops[j] matches EmitOp::Fdiv { a, b, result: _x } && a == l && b == r)
            &&& (ops[j + 1] matches EmitOp::Floor { a, result: _y } && a == emit_result(ops[j]))
        },
        OpKind::Mod => {
            &&& (ops[j] matches EmitOp::Fdiv { a, b, result: _x } && a == l && b == r)
            &&& (ops[j + 1] matches EmitOp::Floor { a, result: _y } && a == emit_result(ops[j]))
            &&& (ops[j + 2] matches EmitOp::Fmul { a, b, result: _z } && a == emit_result(
                ops[j + 1],
            ) && b == r)
            &&& (ops[j + 3] matches EmitOp::Fsub { a, b, result: _w } && a == l && b
                == emit_result(ops[j + 2]))
        },
        OpKind::Pow => ops[j] matches EmitOp::Call { f, a, b, result: _x } && f == fref && a == l
            && b == r,
    }
}

/// `ops[j..]` lowers `Assign(var, oper)` against the table `t` it meets:
/// the value operand, then a store of its result at the target's register.
pub open spec fn assign_lowered(
    ops: Seq<EmitOp>,
    j: int,
    t: Seq<Seq<char>>,
    var: Seq<char>,
    oper: Operand,
    ctx: Value,
) -> bool {
    let t1 = operand_table(t, oper);
    let t2 = alloc_table(t1, var);
    &&& operand_lowered(ops, j, t1, oper, ctx)
    &&& j + 2 <= ops.len()
    &&& (ops[j + 1] matches EmitOp::Store { val, ptr, offset } && val == emit_result(ops[j])
        && ptr == ctx && offset == reg_offset(t2, var))
}

/// `ops[j..]` lowers `Op(var, kind, left, right)` against the table `t` it
/// meets: both operands, the operation on their results, a store of the
/// final result at the target's register.
pub open spec fn op_lowered(
    ops: Seq<EmitOp>,
    j: int,
    t: Seq<Seq<char>>,
    var: Seq<char>,
    kind: OpKind,
    left: Operand,
    right: Operand,
    ctx: Value,
    fref: FuncRef,
) -> bool {
    let t1 = operand_table(t, left);
    let t2 = operand_table(t1, right);
    let t3 = alloc_table(t2, var);
    let js = j + 2 + kind_len(kind);
    &&& operand_lowered(ops, j, t1, left, ctx)
    &&& operand_lowered(ops, j + 1, t2, right, ctx)
    &&& kind_lowered(ops, j + 2, kind, emit_result(ops[j]), emit_result(ops[j + 1]), fref)
    &&& js + 1 <= ops.len()
    &&& (ops[js] matches EmitOp::Store { val, ptr, offset } && val == emit_result(ops[js - 1])
        && ptr == ctx && offset == reg_offset(t3, var))
}

/// How many operations one instruction emits.
pub open spec fn instr_len(instr: Instr) -> int {
    match instr {
        Instr::Assign(_var, _oper) => 2,
        Instr::Op(_var, kind, _left, _right) => 3 + kind_len(kind),
        Instr::Jump(_line, _cond, _left, _right) => 0,
    }
}

/// `ops[j..]` lowers one instruction against the table `t` it meets.
pub open spec fn instr_lowered(
    ops: Seq<EmitOp>,
    j: int,
    t: Seq<Seq<char>>,
    instr: Instr,
    ctx: Value,
    fref: FuncRef,
) -> bool {
    match instr {
        Instr::Assign(var, oper) => assign_lowered(ops, j, t, var@, oper, ctx),
        Instr::Op(var, kind, left, right) => op_lowered(
            ops,
            j,
            t,
            var@,
            kind,
            left,
            right,
            ctx,
            fref,
        ),
        Instr::Jump(_line, _cond, _left, _right) => false,
    }
}

/// Where instruction `k`'s segment starts in the body.
pub open spec fn seg_start(instrs: Seq<Instr>, k: int) -> int
    decreases k,
{
    if k <= 0 {
        0
    } else {
        seg_start(instrs, k - 1) + instr_len(instrs[k - 1])
    }
}

/// The whole body: each instruction's segment in place, in order, against
/// the table it meets, and exactly one closing return.  `ctx` is the
/// function's one parameter (the execution context's address) and `fref`
/// the in-function reference to the host routine.
pub open spec fn body_lowered(
    ops: Seq<EmitOp>,
    instrs: Seq<Instr>,
    ctx: Value,
    fref: FuncRef,
) -> bool {
    &&& ops.len() == seg_start(instrs, instrs.len() as int) + 1
    &&& ops.last() is Return
    &&& forall|k: int|
        0 <= k < instrs.len() ==> instr_lowered(
            ops,
            #[trigger] seg_start(instrs, k),
            table_before(instrs, k),
            instrs[k],
            ctx,
            fref,
        )
}

/// An instruction's footprint is never negative.
pub proof fn lemma_instr_len_nonneg(instr: Instr)
    ensures
        instr_len(instr) >= 0,
{
}

/// Segment starts never move backwards.
pub proof fn lemma_seg_start_mono(instrs: Seq<Instr>, a: int, b: int)
    requires
        0 <= a <= b,
    ensures
        seg_start(instrs, a) <= seg_start(instrs, b),
    decreases b - a,
{
    if a < b {
        lemma_seg_start_mono(instrs, a, b - 1);
        lemma_instr_len_nonneg(instrs[b - 1]);
    }
}

/// A lowered instruction reads only its own segment: extending the body to
/// the right leaves it lowered.
pub proof fn lemma_instr_lowered_frame(
    ops1: Seq<EmitOp>,
    ops2: Seq<EmitOp>,
    j: int,
    t: Seq<Seq<char>>,
    instr: Instr,
    ctx: Value,
    fref: FuncRef,
)
    requires
        instr_lowered(ops1, j, t, instr, ctx, fref),
        j + instr_len(instr) <= ops1.len(),
        ops1.len() <= ops2.len(),
        forall|x: int| 0 <= x < ops1.len() ==> ops2[x] == ops1[x],
    ensures
        instr_lowered(ops2, j, t, instr, ctx, fref),
{
    assert forall|x: int| j <= x < j + instr_len(instr) implies ops2[x] == ops1[x] by {
    }
}

} // verus!
