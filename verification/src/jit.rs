//! The code generator: translates one instruction sequence into one native
//! function that reads and writes a caller-owned register file.
//!
//! The generated function takes a single pointer-sized parameter, the
//! address of an execution context whose first `REGISTER_COUNT` doubles are
//! the registers, one per allocated slot, at byte offset `REGISTER_STRIDE`
//! times the slot.  The walk over the instructions is verified: the
//! variable→slot table it builds, and exactly which sequences are rejected
//! and why, are pinned by `spec_compile`; what is emitted is recorded by
//! the trusted wrappers in `backend` and pinned, over that record, by
//! `emit::body_lowered`.

use vstd::prelude::*;

use crate::backend;
use crate::backend::FuncGen;
use crate::compiled_function::CompiledFunction;
use crate::emit::{
    alloc_table, assign_lowered, body_lowered, emit_result, instr_lowered, kind_len,
    kind_lowered, lemma_instr_lowered_frame, lemma_seg_start_mono, op_lowered, operand_lowered,
    operand_table, seg_start, step_table, table_before,
};
use crate::ir::{Instr, OpKind, Operand};
use crate::symbol_table::{
    SymbolTable, names_view, slot_of, table_contains, table_distinct,
};
use cranelift_codegen::ir::{FuncRef, Value};
use cranelift_frontend::FunctionBuilder;
use cranelift_jit::JITModule;
use cranelift_module::FuncId;

verus! {

/// Number of double registers in an execution context, and so the capacity
/// of the variable→slot mapping.  The host-side context struct must agree.
pub const REGISTER_COUNT: usize = 256;

/// Byte stride between consecutive registers: the size of one double.
pub const REGISTER_STRIDE: usize = 8;

/// Why a compilation failed.  The payload is the position of the offending
/// instruction in the compiled sequence.
#[derive(Debug, PartialEq, Eq, Structural)]
pub enum CompileError {
    /// The instruction at this position has no lowering (`Jump`).
    UnsupportedInstruction(usize),
    /// The instruction at this position uses a `String` or `Null` operand
    /// where a numeric value is required.
    UnsupportedOperand(usize),
    /// The instruction at this position references a distinct variable
    /// beyond the `REGISTER_COUNT` the register file can hold.
    CapacityExceeded(usize),
    /// The native code generator refused the function.
    Backend,
}

/// The table after allocating a slot for `name` in the instruction at
/// position `at`: unchanged when the name already has a slot, extended by
/// one entry when a slot is free, and a capacity failure otherwise.
pub open spec fn spec_alloc(t: Seq<Seq<char>>, name: Seq<char>, at: int) -> Result<
    Seq<Seq<char>>,
    CompileError,
> {
    if table_contains(t, name) {
        Ok(t)
    } else if t.len() < REGISTER_COUNT {
        Ok(t.push(name))
    } else {
        Err(CompileError::CapacityExceeded(at as usize))
    }
}

/// The table after resolving `o` as a numeric operand of the instruction at
/// position `at`: a constant changes nothing, a variable reference allocates
/// its slot, and `String` and `Null` are rejected.
pub open spec fn spec_operand(t: Seq<Seq<char>>, o: Operand, at: int) -> Result<
    Seq<Seq<char>>,
    CompileError,
> {
    match o {
        Operand::Null => Err(CompileError::UnsupportedOperand(at as usize)),
        Operand::Const(_) => Ok(t),
        Operand::Var(name) => spec_alloc(t, name@, at),
        Operand::String(_) => Err(CompileError::UnsupportedOperand(at as usize)),
    }
}

/// The table after an assignment: the value operand is resolved first, then
/// the target's slot is allocated — operands are first-seen before a new
/// target, as in the arithmetic instruction.
pub open spec fn spec_assign(t: Seq<Seq<char>>, var: Seq<char>, oper: Operand, at: int) -> Result<
    Seq<Seq<char>>,
    CompileError,
> {
    match spec_operand(t, oper, at) {
        Ok(t1) => spec_alloc(t1, var, at),
        Err(e) => Err(e),
    }
}

/// The table after an arithmetic instruction: the left operand is resolved,
/// then the right, then the target's slot is allocated.
pub open spec fn spec_op(
    t: Seq<Seq<char>>,
    var: Seq<char>,
    left: Operand,
    right: Operand,
    at: int,
) -> Result<Seq<Seq<char>>, CompileError> {
    match spec_operand(t, left, at) {
        Ok(t1) => match spec_operand(t1, right, at) {
            Ok(t2) => spec_alloc(t2, var, at),
            Err(e) => Err(e),
        },
        Err(e) => Err(e),
    }
}

/// The table after one instruction at position `at`; `Jump` has no lowering
/// and is rejected outright.
pub open spec fn spec_step(t: Seq<Seq<char>>, instr: Instr, at: int) -> Result<
    Seq<Seq<char>>,
    CompileError,
> {
    match instr {
        Instr::Assign(var, oper) => spec_assign(t, var@, oper, at),
        Instr::Op(var, _kind, left, right) => spec_op(t, var@, left, right, at),
        Instr::Jump(_line, _cond, _left, _right) => Err(
            CompileError::UnsupportedInstruction(at as usize),
        ),
    }
}

/// The table after the instructions from position `from` on, or the first
/// error they raise.
pub open spec fn spec_walk(t: Seq<Seq<char>>, instrs: Seq<Instr>, from: int) -> Result<
    Seq<Seq<char>>,
    CompileError,
>
    decreases instrs.len() - from,
{
    if from < 0 || from >= instrs.len() {
        Ok(t)
    } else {
        match spec_step(t, instrs[from], from) {
            Ok(t1) => spec_walk(t1, instrs, from + 1),
            Err(e) => Err(e),
        }
    }
}

/// The compile-time outcome of a whole sequence: the final variable→slot
/// table (the k-th distinct variable referenced holds slot k), or the first
/// error raised walking the sequence in order.
pub open spec fn spec_compile(instrs: Seq<Instr>) -> Result<Seq<Seq<char>>, CompileError> {
    spec_walk(Seq::empty(), instrs, 0)
}

/// The byte offset of a register slot.
fn slot_offset(idx: usize) -> (r: i32)
    requires
        idx < REGISTER_COUNT,
    ensures
        r == idx * REGISTER_STRIDE,
{
    (idx * REGISTER_STRIDE) as i32
}

/// Allocates (or looks up) the slot of `name` for the instruction at
/// position `at`, enforcing the register file's capacity.
fn alloc_slot(sym: &mut SymbolTable, name: &str, at: usize) -> (r: Result<usize, CompileError>)
    requires
        old(sym).wf(),
        old(sym)@.len() <= REGISTER_COUNT,
    ensures
        ({
            let a = spec_alloc(old(sym)@, name@, at as int);
            match r {
                Ok(idx) => a == Ok::<Seq<Seq<char>>, CompileError>(final(sym)@) && final(sym).wf()
                    && final(sym)@.len() <= REGISTER_COUNT && idx == slot_of(final(sym)@, name@)
                    && idx < REGISTER_COUNT,
                Err(e) => a == Err::<Seq<Seq<char>>, CompileError>(e),
            }
        }),
{
    let idx = sym.index_for(name);
    if idx >= REGISTER_COUNT {
        Err(CompileError::CapacityExceeded(at))
    } else {
        Ok(idx)
    }
}

/// Resolves an operand against the table alone — the compile-time half of
/// `oper_helper`, with nothing emitted.
fn check_operand(sym: &mut SymbolTable, oper: &Operand, at: usize) -> (r: Result<
    (),
    CompileError,
>)
    requires
        old(sym).wf(),
        old(sym)@.len() <= REGISTER_COUNT,
    ensures
        ({
            let a = spec_operand(old(sym)@, *oper, at as int);
            match r {
                Ok(_) => a == Ok::<Seq<Seq<char>>, CompileError>(final(sym)@) && final(sym).wf()
                    && final(sym)@.len() <= REGISTER_COUNT,
                Err(e) => a == Err::<Seq<Seq<char>>, CompileError>(e),
            }
        }),
{
    match oper {
        Operand::Null => Err(CompileError::UnsupportedOperand(at)),
        Operand::Const(_bits) => Ok(()),
        Operand::Var(name) => match alloc_slot(sym, name.as_str(), at) {
            Ok(_idx) => Ok(()),
            Err(e) => Err(e),
        },
        Operand::String(_text) => Err(CompileError::UnsupportedOperand(at)),
    }
}

/// Checks a sequence against the compile-time rules alone, with no native
/// module opened: the outcome is exactly `spec_compile`'s, so a sequence
/// the specification rejects is turned away before any backend work.
fn validate(ir: &Vec<Instr>) -> (r: Result<(), CompileError>)
    ensures
        ({
            let c = spec_compile(ir@);
            match r {
                Ok(_) => c is Ok,
                Err(e) => c == Err::<Seq<Seq<char>>, CompileError>(e),
            }
        }),
{
    let mut sym = SymbolTable::new();
    let mut i: usize = 0;
    while i < ir.len()
        invariant
            i <= ir@.len(),
            sym.wf(),
            sym@.len() <= REGISTER_COUNT,
            spec_walk(sym@, ir@, i as int) == spec_compile(ir@),
        decreases ir@.len() - i,
    {
        let ghost t0 = sym@;
        match &ir[i] {
            Instr::Assign(var, oper) => {
                match check_operand(&mut sym, oper, i) {
                    Ok(_) => {},
                    Err(e) => {
                        proof {
                            assert(spec_step(t0, ir@[i as int], i as int) == Err::<
                                Seq<Seq<char>>,
                                CompileError,
                            >(e));
                        }
                        return Err(e);
                    },
                }
                match alloc_slot(&mut sym, var.as_str(), i) {
                    Ok(_) => {},
                    Err(e) => {
                        proof {
                            assert(spec_step(t0, ir@[i as int], i as int) == Err::<
                                Seq<Seq<char>>,
                                CompileError,
                            >(e));
                        }
                        return Err(e);
                    },
                }
            },
            Instr::Op(var, _kind, left, right) => {
                match check_operand(&mut sym, left, i) {
                    Ok(_) => {},
                    Err(e) => {
                        proof {
                            assert(spec_step(t0, ir@[i as int], i as int) == Err::<
                                Seq<Seq<char>>,
                                CompileError,
                            >(e));
                        }
                        return Err(e);
                    },
                }
                match check_operand(&mut sym, right, i) {
                    Ok(_) => {},
                    Err(e) => {
                        proof {
                            assert(spec_step(t0, ir@[i as int], i as int) == Err::<
                                Seq<Seq<char>>,
                                CompileError,
                            >(e));
                        }
                        return Err(e);
                    },
                }
                match alloc_slot(&mut sym, var.as_str(), i) {
                    Ok(_) => {},
                    Err(e) => {
                        proof {
                            assert(spec_step(t0, ir@[i as int], i as int) == Err::<
                                Seq<Seq<char>>,
                                CompileError,
                            >(e));
                        }
                        return Err(e);
                    },
                }
            },
            Instr::Jump(_line, _cond, _left, _right) => {
                return Err(CompileError::UnsupportedInstruction(i));
            },
        }
        i += 1;
    }
    Ok(())
}

/// The host routines that generated code may call: a fixed catalog, declared
/// once per module under stable names and resolved, at finalization, to the
/// addresses the compiler was built with.
pub struct HostFunctions {
    pub pow_func_id: FuncId,
}

impl HostFunctions {
    /// Declares the catalog's one routine, `host_pow`: two double
    /// parameters, one double result.
    pub fn new(module: &mut JITModule) -> (r: Result<HostFunctions, CompileError>)
        ensures
            r matches Err(e) ==> e == CompileError::Backend,
    {
        match backend::declare_binary_import(module, "host_pow") {
            Some(id) => Ok(HostFunctions { pow_func_id: id }),
            None => Err(CompileError::Backend),
        }
    }
}

/// The host-routine references usable inside one function body.
pub struct FuncRefs {
    pub pow_func_ref: FuncRef,
}

impl FuncRefs {
    /// Makes the declared host routines callable from the function under
    /// construction.
    pub fn new(module: &mut JITModule, fb: &mut FunctionBuilder, host: &HostFunctions) -> FuncRefs {
        FuncRefs { pow_func_ref: backend::declare_func_ref(module, fb, host.pow_func_id) }
    }
}

/// The JIT compiler.  Each `compile` call builds its function into a fresh
/// module owned by the resulting `CompiledFunction`, so one compiler may be
/// reused for many independent sequences and a failed compilation leaves
/// earlier artifacts untouched.
pub struct JitCompiler {
    /// Address of the host power routine: a native function taking two
    /// doubles and returning one, C calling convention.  Generated code
    /// calls it by this address; it is only reached when a compiled `Pow`
    /// instruction is executed.
    pub pow_addr: usize,
}

impl JitCompiler {
    /// A compiler whose generated code delegates `Pow` to the host routine
    /// at `pow_addr` (two doubles in, one double out, C calling convention).
    pub fn new(pow_addr: usize) -> (r: JitCompiler)
        ensures
            r.pow_addr == pow_addr,
    {
        JitCompiler { pow_addr }
    }

    /// Compiles `ir` into one native function.
    ///
    /// The outcome follows `spec_compile(ir@)`: a sequence the
    /// specification rejects is answered with precisely that error (checked
    /// before any backend work, so a rejected sequence never opens a
    /// module); on success the artifact's slot table is exactly the one the
    /// specification builds.  `Backend` can only arise on a sequence the
    /// specification accepts, when the native code generator itself refuses
    /// it.
    pub fn compile(&mut self, ir: &Vec<Instr>) -> (r: Result<CompiledFunction, CompileError>)
        ensures
            ({
                let c = spec_compile(ir@);
                &&& (r matches Ok(cf) ==> c == Ok::<Seq<Seq<char>>, CompileError>(
                    names_view(cf.symbols@),
                ) && body_lowered(cf.ops@, ir@, cf.ctx_param@, cf.host_ref@))
                &&& (r matches Err(e) ==> e == CompileError::Backend || c == Err::<
                    Seq<Seq<char>>,
                    CompileError,
                >(e))
                &&& (c matches Err(e0) ==> r == Err::<CompiledFunction, CompileError>(e0))
            }),
            final(self).pow_addr == old(self).pow_addr,
    {
        match validate(ir) {
            Ok(_) => {},
            Err(e) => {
                return Err(e);
            },
        }
        let mut builder = match backend::new_jit_builder() {
            Some(b) => b,
            None => {
                return Err(CompileError::Backend);
            },
        };
        backend::register_symbol(&mut builder, "host_pow", self.pow_addr);
        let mut module = backend::new_module(builder);
        let host = match HostFunctions::new(&mut module) {
            Ok(h) => h,
            Err(_) => {
                return Err(CompileError::Backend);
            },
        };
        let mut cctx = backend::make_context_for_ptr_param(&module);
        let mut fbc = backend::new_builder_context();
        let mut sym = SymbolTable::new();
        let mut fb = backend::new_function_builder(&mut cctx, &mut fbc);
        let func_refs = FuncRefs::new(&mut module, &mut fb, &host);
        let entry = backend::create_block(&mut fb);
        backend::append_block_params(&mut fb, entry);
        backend::switch_to_block(&mut fb, entry);
        backend::seal_block(&mut fb, entry);
        let ctx_ptr = match backend::block_param(&fb, entry, 0) {
            Some(v) => v,
            None => {
                return Err(CompileError::Backend);
            },
        };
        let fref = func_refs.pow_func_ref;
        let mut g = backend::wrap_builder(fb);
        let mut i: usize = 0;
        while i < ir.len()
            invariant
                i <= ir@.len(),
                sym.wf(),
                sym@.len() <= REGISTER_COUNT,
                spec_walk(sym@, ir@, i as int) == spec_compile(ir@),
                spec_compile(ir@) is Ok,
                self.pow_addr == old(self).pow_addr,
                fref == func_refs.pow_func_ref,
                g.ops@.len() == seg_start(ir@, i as int),
                sym@ == table_before(ir@, i as int),
                forall|k: int|
                    0 <= k < i ==> instr_lowered(
                        g.ops@,
                        #[trigger] seg_start(ir@, k),
                        table_before(ir@, k),
                        ir@[k],
                        ctx_ptr,
                        fref,
                    ),
            decreases ir@.len() - i,
        {
            let ghost t0 = sym@;
            let ghost ops0 = g.ops@;
            match &ir[i] {
                Instr::Assign(var, oper) => {
                    match self.compile_set(&mut g, ctx_ptr, &mut sym, var.as_str(), oper, i) {
                        Ok(_) => {},
                        Err(e) => {
                            proof {
                                assert(spec_step(t0, ir@[i as int], i as int) == Err::<
                                    Seq<Seq<char>>,
                                    CompileError,
                                >(e));
                            }
                            return Err(e);
                        },
                    }
                },
                Instr::Op(var, kind, left, right) => {
                    match self.compile_op(
                        &mut g,
                        ctx_ptr,
                        &mut sym,
                        &func_refs,
                        var.as_str(),
                        kind,
                        left,
                        right,
                        i,
                    ) {
                        Ok(_) => {},
                        Err(e) => {
                            if let CompileError::Backend = e {
                                return Err(CompileError::Backend);
                            }
                            proof {
                                assert(spec_step(t0, ir@[i as int], i as int) == Err::<
                                    Seq<Seq<char>>,
                                    CompileError,
                                >(e));
                            }
                            return Err(e);
                        },
                    }
                },
                Instr::Jump(_line, _cond, _left, _right) => {
                    return Err(CompileError::UnsupportedInstruction(i));
                },
            }
            proof {
                lemma_step_is_table(t0, ir@[i as int], i as int);
                assert forall|k: int|
                    0 <= k < i + 1 implies instr_lowered(
                    g.ops@,
                    #[trigger] seg_start(ir@, k),
                    table_before(ir@, k),
                    ir@[k],
                    ctx_ptr,
                    fref,
                ) by {
                    if k < i {
                        lemma_seg_start_mono(ir@, k + 1, i as int);
                        assert forall|x: int| 0 <= x < ops0.len() implies g.ops@[x] == ops0[x] by {
                            assert(g.ops@.subrange(0, ops0.len() as int)[x] == g.ops@[x]);
                        }
                        lemma_instr_lowered_frame(
                            ops0,
                            g.ops@,
                            seg_start(ir@, k),
                            table_before(ir@, k),
                            ir@[k],
                            ctx_ptr,
                            fref,
                        );
                    }
                }
            }
            i += 1;
        }
        let ghost body0 = g.ops@;
        backend::emit_return(&mut g);
        proof {
            assert(g.ops@.subrange(0, body0.len() as int) =~= body0);
            assert forall|k: int|
                0 <= k < ir@.len() implies instr_lowered(
                g.ops@,
                #[trigger] seg_start(ir@, k),
                table_before(ir@, k),
                ir@[k],
                ctx_ptr,
                fref,
            ) by {
                lemma_seg_start_mono(ir@, k + 1, ir@.len() as int);
                assert forall|x: int| 0 <= x < body0.len() implies g.ops@[x] == body0[x] by {
                    assert(g.ops@.subrange(0, body0.len() as int)[x] == g.ops@[x]);
                }
                lemma_instr_lowered_frame(
                    body0,
                    g.ops@,
                    seg_start(ir@, k),
                    table_before(ir@, k),
                    ir@[k],
                    ctx_ptr,
                    fref,
                );
            }
            assert(body_lowered(g.ops@, ir@, ctx_ptr, fref));
        }
        let ghost body_ops = g.ops@;
        backend::finalize_builder(g, &module);
        let func_id = match backend::declare_export_function(&mut module, "mlog_fn", &cctx) {
            Some(f) => f,
            None => {
                return Err(CompileError::Backend);
            },
        };
        if !backend::define_function(&mut module, func_id, &mut cctx) {
            return Err(CompileError::Backend);
        }
        if !backend::finalize_definitions(&mut module) {
            return Err(CompileError::Backend);
        }
        Ok(
            CompiledFunction::new(
                module,
                func_id,
                sym.into_names(),
                Ghost(body_ops),
                Ghost(ctx_ptr),
                Ghost(fref),
            ),
        )
    }

    /// Lowers `Assign(var, oper)`: resolves the value, then stores it in
    /// the target's register; the target's slot is allocated after the
    /// value's, so a new variable inside the value is first-seen before a
    /// new target.
    fn compile_set(
        &mut self,
        g: &mut FuncGen,
        ctx_ptr: Value,
        sym: &mut SymbolTable,
        var: &str,
        oper: &Operand,
        at: usize,
    ) -> (r: Result<(), CompileError>)
        requires
            old(sym).wf(),
            old(sym)@.len() <= REGISTER_COUNT,
        ensures
            ({
                let s = spec_assign(old(sym)@, var@, *oper, at as int);
                match r {
                    Ok(_) => s == Ok::<Seq<Seq<char>>, CompileError>(final(sym)@) && final(sym).wf()
                        && final(sym)@.len() <= REGISTER_COUNT && final(g).ops@.len() == old(
                        g,
                    ).ops@.len() + 2 && final(g).ops@.subrange(0, old(g).ops@.len() as int) == old(
                        g,
                    ).ops@ && assign_lowered(
                        final(g).ops@,
                        old(g).ops@.len() as int,
                        old(sym)@,
                        var@,
                        *oper,
                        ctx_ptr,
                    ),
                    Err(e) => s == Err::<Seq<Seq<char>>, CompileError>(e),
                }
            }),
            final(self).pow_addr == old(self).pow_addr,
    {
        let ghost ops0 = g.ops@;
        let ghost t0 = sym@;
        let val = match oper_helper(g, ctx_ptr, sym, oper, at) {
            Ok(v) => v,
            Err(e) => {
                return Err(e);
            },
        };
        let ghost ops1 = g.ops@;
        let ghost t1 = sym@;
        proof {
            lemma_operand_is_table(t0, *oper, at as int);
        }
        let idx = match alloc_slot(sym, var, at) {
            Ok(idx) => idx,
            Err(e) => {
                return Err(e);
            },
        };
        let offset = slot_offset(idx);
        backend::emit_store(g, val, ctx_ptr, offset);
        proof {
            lemma_alloc_is_table(t1, var@, at as int);
            assert(g.ops@.subrange(0, ops0.len() as int) =~= ops0);
            assert(g.ops@[ops0.len() as int] == ops1[ops0.len() as int]);
            assert(operand_lowered(g.ops@, ops0.len() as int, t1, *oper, ctx_ptr));
            assert(assign_lowered(g.ops@, ops0.len() as int, t0, var@, *oper, ctx_ptr));
        }
        Ok(())
    }

    /// Lowers `Op(var, kind, left, right)`: resolves both operands, emits
    /// the operation — `Idiv` as divide-then-floor, `Mod` by the floored
    /// identity `left - floor(left / right) * right`, `Pow` as a call to the
    /// host routine — and stores the result in the target's register.
    fn compile_op(
        &mut self,
        g: &mut FuncGen,
        ctx_ptr: Value,
        sym: &mut SymbolTable,
        func_refs: &FuncRefs,
        var: &str,
        opkind: &OpKind,
        left: &Operand,
        right: &Operand,
        at: usize,
    ) -> (r: Result<(), CompileError>)
        requires
            old(sym).wf(),
            old(sym)@.len() <= REGISTER_COUNT,
        ensures
            ({
                let s = spec_op(old(sym)@, var@, *left, *right, at as int);
                &&& (r matches Ok(u) ==> s == Ok::<Seq<Seq<char>>, CompileError>(final(sym)@) && final(sym).wf()
                    && final(sym)@.len() <= REGISTER_COUNT && final(g).ops@.len() == old(
                    g,
                ).ops@.len() + 3 + kind_len(*opkind) && final(g).ops@.subrange(
                    0,
                    old(g).ops@.len() as int,
                ) == old(g).ops@ && op_lowered(
                    final(g).ops@,
                    old(g).ops@.len() as int,
                    old(sym)@,
                    var@,
                    *opkind,
                    *left,
                    *right,
                    ctx_ptr,
                    func_refs.pow_func_ref,
                ))
                &&& (r matches Err(e) ==> (e == CompileError::Backend && s is Ok) || s == Err::<
                    Seq<Seq<char>>,
                    CompileError,
                >(e))
            }),
            final(self).pow_addr == old(self).pow_addr,
    {
        let ghost ops0 = g.ops@;
        let ghost t0 = sym@;
        let left_ssa = match oper_helper(g, ctx_ptr, sym, left, at) {
            Ok(v) => v,
            Err(e) => {
                return Err(e);
            },
        };
        let ghost ops1 = g.ops@;
        let ghost t1 = sym@;
        proof {
            lemma_operand_is_table(t0, *left, at as int);
        }
        let right_ssa = match oper_helper(g, ctx_ptr, sym, right, at) {
            Ok(v) => v,
            Err(e) => {
                return Err(e);
            },
        };
        let ghost ops2 = g.ops@;
        let ghost t2 = sym@;
        proof {
            lemma_operand_is_table(t1, *right, at as int);
        }
        let idx = match alloc_slot(sym, var, at) {
            Ok(idx) => idx,
            Err(e) => {
                return Err(e);
            },
        };
        let offset = slot_offset(idx);
        proof {
            lemma_alloc_is_table(t2, var@, at as int);
        }
        let result = match opkind {
            OpKind::Add => backend::emit_fadd(g, left_ssa, right_ssa),
            OpKind::Sub => backend::emit_fsub(g, left_ssa, right_ssa),
            OpKind::Mul => backend::emit_fmul(g, left_ssa, right_ssa),
            OpKind::Div => backend::emit_fdiv(g, left_ssa, right_ssa),
            OpKind::Idiv => {
                let q = backend::emit_fdiv(g, left_ssa, right_ssa);
                backend::emit_floor(g, q)
            },
            OpKind::Mod => {
                let q = backend::emit_fdiv(g, left_ssa, right_ssa);
                let fq = backend::emit_floor(g, q);
                let m = backend::emit_fmul(g, fq, right_ssa);
                backend::emit_fsub(g, left_ssa, m)
            },
            OpKind::Pow => {
                match backend::emit_call_binary(
                    g,
                    func_refs.pow_func_ref,
                    left_ssa,
                    right_ssa,
                ) {
                    Some(v) => v,
                    None => {
                        return Err(CompileError::Backend);
                    },
                }
            },
        };
        backend::emit_store(g, result, ctx_ptr, offset);
        proof {
            let j = ops0.len() as int;
            assert(g.ops@.subrange(0, j) =~= ops0);
            assert(g.ops@[j] == ops1[j]);
            assert(g.ops@[j + 1] == ops2[j + 1]);
            assert(operand_lowered(g.ops@, j, t1, *left, ctx_ptr));
            assert(operand_lowered(g.ops@, j + 1, t2, *right, ctx_ptr));
            assert(kind_lowered(
                g.ops@,
                j + 2,
                *opkind,
                emit_result(g.ops@[j]),
                emit_result(g.ops@[j + 1]),
                func_refs.pow_func_ref,
            ));
            assert(op_lowered(
                g.ops@,
                j,
                t0,
                var@,
                *opkind,
                *left,
                *right,
                ctx_ptr,
                func_refs.pow_func_ref,
            ));
        }
        Ok(())
    }
}

/// Resolves an operand to an SSA value: a constant becomes a double
/// immediate with exactly its bit pattern, a variable becomes a load from
/// its register (allocating the slot when the name is new).  The one
/// operation emitted is recorded, and is exactly what `operand_lowered`
/// asks of it.
fn oper_helper(
    g: &mut FuncGen,
    ctx_ptr: Value,
    sym: &mut SymbolTable,
    oper: &Operand,
    at: usize,
) -> (r: Result<Value, CompileError>)
    requires
        old(sym).wf(),
        old(sym)@.len() <= REGISTER_COUNT,
    ensures
        ({
            let a = spec_operand(old(sym)@, *oper, at as int);
            match r {
                Ok(v) => a == Ok::<Seq<Seq<char>>, CompileError>(final(sym)@) && final(sym).wf()
                    && final(sym)@.len() <= REGISTER_COUNT && final(g).ops@.len() == old(
                    g,
                ).ops@.len() + 1 && final(g).ops@.subrange(0, old(g).ops@.len() as int) == old(
                    g,
                ).ops@ && operand_lowered(
                    final(g).ops@,
                    old(g).ops@.len() as int,
                    final(sym)@,
                    *oper,
                    ctx_ptr,
                ) && emit_result(final(g).ops@.last()) == v,
                Err(e) => a == Err::<Seq<Seq<char>>, CompileError>(e),
            }
        }),
{
    let ghost ops0 = g.ops@;
    match oper {
        Operand::Null => Err(CompileError::UnsupportedOperand(at)),
        Operand::Const(bits) => {
            let v = backend::emit_f64const(g, *bits);
            proof {
                assert(g.ops@.subrange(0, ops0.len() as int) =~= ops0);
            }
            Ok(v)
        },
        Operand::Var(name) => {
            match alloc_slot(sym, name.as_str(), at) {
                Ok(idx) => {
                    let offset = slot_offset(idx);
                    let v = backend::emit_load_f64(g, ctx_ptr, offset);
                    proof {
                        assert(g.ops@.subrange(0, ops0.len() as int) =~= ops0);
                    }
                    Ok(v)
                },
                Err(e) => Err(e),
            }
        },
        Operand::String(_text) => Err(CompileError::UnsupportedOperand(at)),
    }
}

/// `spec_alloc`'s successful table is the total `alloc_table`.
proof fn lemma_alloc_is_table(t: Seq<Seq<char>>, name: Seq<char>, at: int)
    ensures
        spec_alloc(t, name, at) matches Ok(t1) ==> t1 == alloc_table(t, name),
{
}

/// `spec_operand`'s successful table is the total `operand_table`.
proof fn lemma_operand_is_table(t: Seq<Seq<char>>, o: Operand, at: int)
    ensures
        spec_operand(t, o, at) matches Ok(t1) ==> t1 == operand_table(t, o),
{
    match o {
        Operand::Var(name) => lemma_alloc_is_table(t, name@, at),
        _ => {},
    }
}

/// `spec_step`'s successful table is the total `step_table`.
proof fn lemma_step_is_table(t: Seq<Seq<char>>, instr: Instr, at: int)
    ensures
        spec_step(t, instr, at) matches Ok(t1) ==> t1 == step_table(t, instr),
{
    match instr {
        Instr::Assign(var, oper) => {
            lemma_operand_is_table(t, oper, at);
            if let Ok(t1) = spec_operand(t, oper, at) {
                lemma_alloc_is_table(t1, var@, at);
            }
        },
        Instr::Op(var, _kind, left, right) => {
            lemma_operand_is_table(t, left, at);
            if let Ok(t1) = spec_operand(t, left, at) {
                lemma_operand_is_table(t1, right, at);
                if let Ok(t2) = spec_operand(t1, right, at) {
                    lemma_alloc_is_table(t2, var@, at);
                }
            }
        },
        Instr::Jump(_line, _cond, _left, _right) => {},
    }
}

/// Allocation keeps a table well formed: duplicate-free, within capacity,
/// and extended only by the allocated name.
proof fn lemma_alloc_wf(t: Seq<Seq<char>>, name: Seq<char>, at: int)
    requires
        table_distinct(t),
        t.len() <= REGISTER_COUNT,
    ensures
        spec_alloc(t, name, at) matches Ok(t1) ==> table_distinct(t1) && t1.len()
            <= REGISTER_COUNT && (t1 == t || t1 == t.push(name)),
{
    if !table_contains(t, name) && t.len() < REGISTER_COUNT {
        let t1 = t.push(name);
        assert forall|i: int, j: int| 0 <= i < j < t1.len() implies t1[i] != t1[j] by {
            if j == t.len() {
                if t1[i] == name {
                    assert(table_contains(t, name));
                }
            }
        }
    }
}

/// Resolving an operand keeps a table well formed.
proof fn lemma_operand_wf(t: Seq<Seq<char>>, o: Operand, at: int)
    requires
        table_distinct(t),
        t.len() <= REGISTER_COUNT,
    ensures
        spec_operand(t, o, at) matches Ok(t1) ==> table_distinct(t1) && t1.len()
            <= REGISTER_COUNT,
{
    match o {
        Operand::Var(name) => lemma_alloc_wf(t, name@, at),
        _ => {},
    }
}

/// One instruction keeps a table well formed.
proof fn lemma_step_wf(t: Seq<Seq<char>>, instr: Instr, at: int)
    requires
        table_distinct(t),
        t.len() <= REGISTER_COUNT,
    ensures
        spec_step(t, instr, at) matches Ok(t1) ==> table_distinct(t1) && t1.len()
            <= REGISTER_COUNT,
{
    match instr {
        Instr::Assign(var, oper) => {
            lemma_operand_wf(t, oper, at);
            if let Ok(t1) = spec_operand(t, oper, at) {
                lemma_alloc_wf(t1, var@, at);
            }
        },
        Instr::Op(var, _kind, left, right) => {
            lemma_operand_wf(t, left, at);
            if let Ok(t1) = spec_operand(t, left, at) {
                lemma_operand_wf(t1, right, at);
                if let Ok(t2) = spec_operand(t1, right, at) {
                    lemma_alloc_wf(t2, var@, at);
                }
            }
        },
        Instr::Jump(_line, _cond, _left, _right) => {},
    }
}

proof fn lemma_walk_wf(t: Seq<Seq<char>>, instrs: Seq<Instr>, from: int)
    requires
        table_distinct(t),
        t.len() <= REGISTER_COUNT,
    ensures
        spec_walk(t, instrs, from) matches Ok(t2) ==> table_distinct(t2) && t2.len()
            <= REGISTER_COUNT,
    decreases instrs.len() - from,
{
    if 0 <= from < instrs.len() {
        lemma_step_wf(t, instrs[from], from);
        if let Ok(t1) = spec_step(t, instrs[from], from) {
            lemma_walk_wf(t1, instrs, from + 1);
        }
    }
}

/// Determinism: compiling one instruction sequence twice assigns the same
/// variable→slot mapping both times — the mapping is a function of the
/// sequence alone.
pub proof fn lemma_compile_deterministic(
    instrs: Seq<Instr>,
    t1: Seq<Seq<char>>,
    t2: Seq<Seq<char>>,
)
    requires
        spec_compile(instrs) == Ok::<Seq<Seq<char>>, CompileError>(t1),
        spec_compile(instrs) == Ok::<Seq<Seq<char>>, CompileError>(t2),
    ensures
        t1 == t2,
{
}

/// A successful compilation's slot table is duplicate-free (re-binding a
/// variable never duplicates its slot), never outgrows the register file,
/// and gives the k-th distinct variable referenced exactly slot k.
pub proof fn lemma_compile_table_wf(instrs: Seq<Instr>, t: Seq<Seq<char>>)
    requires
        spec_compile(instrs) == Ok::<Seq<Seq<char>>, CompileError>(t),
    ensures
        table_distinct(t),
        t.len() <= REGISTER_COUNT,
        forall|k: int| 0 <= k < t.len() ==> slot_of(t, #[trigger] t[k]) == k,
{
    lemma_walk_wf(Seq::empty(), instrs, 0);
    assert forall|k: int| 0 <= k < t.len() implies slot_of(t, #[trigger] t[k]) == k by {
        crate::symbol_table::lemma_first_use_slot(t, k);
    }
}

/// Whether the reference lowering has no translation for `instr`: a `Jump`,
/// or an arithmetic instruction with a `String` or `Null` operand.
pub open spec fn is_unsupported(instr: Instr) -> bool {
    match instr {
        Instr::Assign(_var, oper) => oper is String || oper is Null,
        Instr::Op(_var, _kind, left, right) => left is String || left is Null || right is String
            || right is Null,
        Instr::Jump(_line, _cond, _left, _right) => true,
    }
}

proof fn lemma_walk_rejects(t: Seq<Seq<char>>, instrs: Seq<Instr>, from: int, k: int)
    requires
        0 <= from <= k < instrs.len(),
        is_unsupported(instrs[k]),
    ensures
        spec_walk(t, instrs, from) is Err,
    decreases instrs.len() - from,
{
    if from < k {
        if let Ok(t1) = spec_step(t, instrs[from], from) {
            lemma_walk_rejects(t1, instrs, from + 1, k);
        }
    }
}

/// Unsupported-construct rejection: a sequence holding a `Jump`, or an
/// arithmetic instruction with a `String` or `Null` operand, never compiles
/// — the outcome is a reported error, and (each compilation owning its own
/// module) earlier and later compilations are unaffected.
pub proof fn lemma_unsupported_rejected(instrs: Seq<Instr>, k: int)
    requires
        0 <= k < instrs.len(),
        is_unsupported(instrs[k]),
    ensures
        spec_compile(instrs) is Err,
{
    lemma_walk_rejects(Seq::empty(), instrs, 0, k);
}

/// Re-binding: a variable that already owns a slot is never allocated a
/// second one — a later assignment to the same name reuses its slot and
/// leaves the table unchanged.
pub proof fn lemma_rebinding_reuses_slot(t: Seq<Seq<char>>, name: Seq<char>, at: int)
    requires
        table_contains(t, name),
    ensures
        spec_alloc(t, name, at) == Ok::<Seq<Seq<char>>, CompileError>(t),
{
}

/// The variable names an operand references.
pub open spec fn operand_names(o: Operand) -> Set<Seq<char>> {
    match o {
        Operand::Var(name) => Set::empty().insert(name@),
        _ => Set::empty(),
    }
}

/// The variable names an instruction references, its target included.
pub open spec fn instr_names(instr: Instr) -> Set<Seq<char>> {
    match instr {
        Instr::Assign(var, oper) => operand_names(oper).insert(var@),
        Instr::Op(var, _kind, left, right) => operand_names(left).union(
            operand_names(right),
        ).insert(var@),
        Instr::Jump(_line, _cond, left, right) => operand_names(left).union(operand_names(right)),
    }
}

/// Every variable name the instructions from position `from` on reference.
pub open spec fn names_from(instrs: Seq<Instr>, from: int) -> Set<Seq<char>>
    decreases instrs.len() - from,
{
    if from < 0 || from >= instrs.len() {
        Set::empty()
    } else {
        instr_names(instrs[from]).union(names_from(instrs, from + 1))
    }
}

proof fn lemma_names_from_finite(instrs: Seq<Instr>, from: int)
    ensures
        names_from(instrs, from).finite(),
    decreases instrs.len() - from,
{
    broadcast use vstd::set::group_set_axioms;

    if 0 <= from && from < instrs.len() {
        lemma_names_from_finite(instrs, from + 1);
        assert(instr_names(instrs[from]).finite()) by {
            match instrs[from] {
                Instr::Assign(_var, _oper) => {},
                Instr::Op(_var, _kind, _left, _right) => {},
                Instr::Jump(_line, _cond, _left, _right) => {},
            }
        }
    }
}

/// Allocation cannot run out of slots while every name in play is drawn
/// from a pool no larger than the register file.
proof fn lemma_alloc_within(t: Seq<Seq<char>>, name: Seq<char>, at: int, s: Set<Seq<char>>)
    requires
        table_distinct(t),
        forall|i: int| 0 <= i < t.len() ==> s.contains(#[trigger] t[i]),
        s.finite(),
        s.len() <= REGISTER_COUNT,
        s.contains(name),
    ensures
        spec_alloc(t, name, at) is Ok,
        spec_alloc(t, name, at) matches Ok(t1) ==> table_distinct(t1) && (forall|i: int|
            0 <= i < t1.len() ==> s.contains(#[trigger] t1[i])),
{
    broadcast use vstd::set::group_set_axioms, vstd::seq_lib::seq_to_set_is_finite;

    let tset = t.to_set();
    assert(t.no_duplicates()) by {
        assert forall|i: int, j: int|
            0 <= i < t.len() && 0 <= j < t.len() && i != j implies t[i] != t[j] by {
            if i < j {
            } else {
                assert(t[j] != t[i]);
            }
        }
    }
    t.unique_seq_to_set();
    assert(tset.subset_of(s)) by {
        assert forall|n: Seq<char>| tset.contains(n) implies s.contains(n) by {
            let i = choose|i: int| 0 <= i < t.len() && t[i] == n;
            assert(s.contains(t[i]));
        }
    }
    vstd::set_lib::lemma_len_subset(tset, s);
    if !table_contains(t, name) {
        assert(!tset.contains(name)) by {
            if tset.contains(name) {
                let i = choose|i: int| 0 <= i < t.len() && t[i] == name;
                assert(table_contains(t, name));
            }
        }
        let tset2 = tset.insert(name);
        assert(tset2.len() == tset.len() + 1);
        assert(tset2.subset_of(s));
        vstd::set_lib::lemma_len_subset(tset2, s);
        assert(t.len() < REGISTER_COUNT);
    }
    lemma_alloc_wf(t, name, at);
}

proof fn lemma_walk_supported(t: Seq<Seq<char>>, instrs: Seq<Instr>, from: int, s: Set<Seq<char>>)
    requires
        table_distinct(t),
        forall|i: int| 0 <= i < t.len() ==> s.contains(#[trigger] t[i]),
        s.finite(),
        s.len() <= REGISTER_COUNT,
        forall|k: int| from <= k < instrs.len() ==> !is_unsupported(#[trigger] instrs[k]),
        names_from(instrs, from).subset_of(s),
    ensures
        spec_walk(t, instrs, from) is Ok,
    decreases instrs.len() - from,
{
    broadcast use vstd::set::group_set_axioms;

    if 0 <= from && from < instrs.len() {
        let instr = instrs[from];
        assert(!is_unsupported(instr));
        assert(instr_names(instr).subset_of(s)) by {
            assert(names_from(instrs, from) == instr_names(instr).union(
                names_from(instrs, from + 1),
            ));
        }
        match instr {
            Instr::Assign(var, oper) => {
                match oper {
                    Operand::Const(_bits) => {},
                    Operand::Var(n) => {
                        assert(s.contains(n@)) by {
                            assert(operand_names(oper).contains(n@));
                            assert(instr_names(instr).contains(n@));
                        }
                        lemma_alloc_within(t, n@, from, s);
                    },
                    _ => {
                        assert(false);
                    },
                }
                match spec_operand(t, oper, from) {
                    Ok(t1) => {
                        assert(s.contains(var@)) by {
                            assert(instr_names(instr).contains(var@));
                        }
                        lemma_alloc_within(t1, var@, from, s);
                    },
                    Err(_e) => {
                        assert(false);
                    },
                }
            },
            Instr::Op(var, _kind, left, right) => {
                match left {
                    Operand::Const(_bits) => {},
                    Operand::Var(n) => {
                        assert(s.contains(n@)) by {
                            assert(operand_names(left).contains(n@));
                            assert(instr_names(instr).contains(n@));
                        }
                        lemma_alloc_within(t, n@, from, s);
                    },
                    _ => {
                        assert(false);
                    },
                }
                match spec_operand(t, left, from) {
                    Ok(t1) => {
                        match right {
                            Operand::Const(_bits) => {},
                            Operand::Var(n) => {
                                assert(s.contains(n@)) by {
                                    assert(operand_names(right).contains(n@));
                                    assert(instr_names(instr).contains(n@));
                                }
                                lemma_alloc_within(t1, n@, from, s);
                            },
                            _ => {
                                assert(false);
                            },
                        }
                        match spec_operand(t1, right, from) {
                            Ok(t2) => {
                                assert(s.contains(var@)) by {
                                    assert(instr_names(instr).contains(var@));
                                }
                                lemma_alloc_within(t2, var@, from, s);
                            },
                            Err(_e) => {
                                assert(false);
                            },
                        }
                    },
                    Err(_e) => {
                        assert(false);
                    },
                }
            },
            Instr::Jump(_line, _cond, _left, _right) => {
                assert(false);
            },
        }
        match spec_step(t, instr, from) {
            Ok(t1) => {
                assert(names_from(instrs, from + 1).subset_of(s)) by {
                    assert(names_from(instrs, from) == instr_names(instr).union(
                        names_from(instrs, from + 1),
                    ));
                }
                lemma_walk_supported(t1, instrs, from + 1, s);
            },
            Err(_e) => {
                assert(false);
            },
        }
    }
}

/// Capacity: a sequence of supported instructions that references at most
/// `REGISTER_COUNT` distinct variable names always compiles — the register
/// file is exhausted only by a 257th distinct name, never sooner.
pub proof fn lemma_within_capacity_compiles(instrs: Seq<Instr>)
    requires
        forall|k: int| 0 <= k < instrs.len() ==> !is_unsupported(#[trigger] instrs[k]),
        names_from(instrs, 0).len() <= REGISTER_COUNT,
    ensures
        spec_compile(instrs) is Ok,
{
    lemma_names_from_finite(instrs, 0);
    lemma_walk_supported(Seq::empty(), instrs, 0, names_from(instrs, 0));
}

/// A successful allocation records the name, and loses none.
proof fn lemma_alloc_grows(t: Seq<Seq<char>>, name: Seq<char>, at: int)
    ensures
        spec_alloc(t, name, at) matches Ok(t1) ==> table_contains(t1, name) && (forall|n:
            Seq<char>| table_contains(t, n) ==> table_contains(t1, n)),
{
    if let Ok(t1) = spec_alloc(t, name, at) {
        if !table_contains(t, name) {
            assert(t1 == t.push(name));
            assert(t1[t.len() as int] == name);
        }
        assert forall|n: Seq<char>| table_contains(t, n) implies table_contains(t1, n) by {
            let i = choose|i: int| 0 <= i < t.len() && t[i] == n;
            assert(t1[i] == n);
        }
    }
}

proof fn lemma_operand_grows(t: Seq<Seq<char>>, o: Operand, at: int)
    ensures
        spec_operand(t, o, at) matches Ok(t1) ==> (forall|n: Seq<char>|
            operand_names(o).contains(n) ==> table_contains(t1, n)) && (forall|n: Seq<char>|
            table_contains(t, n) ==> table_contains(t1, n)),
{
    match o {
        Operand::Var(name) => lemma_alloc_grows(t, name@, at),
        _ => {},
    }
}

/// After a successful step, every name the instruction references has a
/// slot, and earlier slots survive.
proof fn lemma_step_grows(t: Seq<Seq<char>>, instr: Instr, at: int)
    ensures
        spec_step(t, instr, at) matches Ok(t1) ==> (forall|n: Seq<char>|
            instr_names(instr).contains(n) ==> table_contains(t1, n)) && (forall|n: Seq<char>|
            table_contains(t, n) ==> table_contains(t1, n)),
{
    match instr {
        Instr::Assign(var, oper) => {
            lemma_operand_grows(t, oper, at);
            if let Ok(t1) = spec_operand(t, oper, at) {
                lemma_alloc_grows(t1, var@, at);
            }
        },
        Instr::Op(var, _kind, left, right) => {
            lemma_operand_grows(t, left, at);
            if let Ok(t1) = spec_operand(t, left, at) {
                lemma_operand_grows(t1, right, at);
                if let Ok(t2) = spec_operand(t1, right, at) {
                    lemma_alloc_grows(t2, var@, at);
                }
            }
        },
        Instr::Jump(_line, _cond, _left, _right) => {},
    }
}

/// After a successful walk, every referenced name has a slot.
proof fn lemma_walk_grows(t: Seq<Seq<char>>, instrs: Seq<Instr>, from: int)
    ensures
        spec_walk(t, instrs, from) matches Ok(t2) ==> (forall|n: Seq<char>|
            names_from(instrs, from).contains(n) ==> table_contains(t2, n)) && (forall|n:
            Seq<char>| table_contains(t, n) ==> table_contains(t2, n)),
    decreases instrs.len() - from,
{
    if 0 <= from && from < instrs.len() {
        lemma_step_grows(t, instrs[from], from);
        if let Ok(t1) = spec_step(t, instrs[from], from) {
            lemma_walk_grows(t1, instrs, from + 1);
        }
    }
}

/// Under supported instructions the only error left is running out of
/// slots.
proof fn lemma_walk_err_is_capacity(t: Seq<Seq<char>>, instrs: Seq<Instr>, from: int)
    requires
        forall|k: int| from <= k < instrs.len() ==> !is_unsupported(#[trigger] instrs[k]),
    ensures
        spec_walk(t, instrs, from) matches Err(e) ==> e is CapacityExceeded,
    decreases instrs.len() - from,
{
    if 0 <= from && from < instrs.len() {
        assert(!is_unsupported(instrs[from]));
        if let Ok(t1) = spec_step(t, instrs[from], from) {
            lemma_walk_err_is_capacity(t1, instrs, from + 1);
        }
    }
}

/// Capacity, the other way: a sequence of supported instructions that
/// references more than `REGISTER_COUNT` distinct variable names never
/// compiles, and the reported failure is precisely the capacity one — not
/// an out-of-bounds write.
pub proof fn lemma_beyond_capacity_rejected(instrs: Seq<Instr>)
    requires
        forall|k: int| 0 <= k < instrs.len() ==> !is_unsupported(#[trigger] instrs[k]),
        names_from(instrs, 0).len() > REGISTER_COUNT,
    ensures
        spec_compile(instrs) matches Err(e) && e is CapacityExceeded,
{
    broadcast use vstd::set::group_set_axioms, vstd::seq_lib::seq_to_set_is_finite;

    lemma_names_from_finite(instrs, 0);
    match spec_compile(instrs) {
        Ok(t) => {
            lemma_walk_grows(Seq::empty(), instrs, 0);
            lemma_walk_wf(Seq::empty(), instrs, 0);
            assert(names_from(instrs, 0).subset_of(t.to_set())) by {
                assert forall|n: Seq<char>|
                    names_from(instrs, 0).contains(n) implies t.to_set().contains(n) by {
                    assert(table_contains(t, n));
                    let i = choose|i: int| 0 <= i < t.len() && t[i] == n;
                    assert(t.contains(n));
                }
            }
            vstd::set_lib::lemma_len_subset(names_from(instrs, 0), t.to_set());
            t.lemma_cardinality_of_set();
            assert(false);
        },
        Err(_e) => {
            lemma_walk_err_is_capacity(Seq::empty(), instrs, 0);
        },
    }
}

} // verus!
