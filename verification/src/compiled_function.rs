//! The compiled artifact: a native entry address bound to the module that
//! owns the code behind it.

use vstd::prelude::*;

use crate::backend;
use crate::emit::EmitOp;
use cranelift_codegen::ir::{FuncRef, Value};
use cranelift_jit::JITModule;
use cranelift_module::FuncId;

verus! {

/// One compiled instruction sequence.
///
/// `entry` is the address of the finalized native code, valid for exactly as
/// long as `module` — which owns the code — is alive; holding both in one
/// value makes a call through a dangling address unrepresentable.  Every
/// compilation gets a module of its own, so independently compiled functions
/// share no mutable state and need no locking.
///
/// `symbols[k]` is the variable name that slot `k` was allocated to; the
/// compiled code reads and writes the double register at byte offset `8 * k`
/// from the context address it is given.
pub struct CompiledFunction {
    pub entry: usize,
    pub module: JITModule,
    pub symbols: Vec<String>,
    /// Ghost record of the operations emitted into the function's body, in
    /// order; `mlogjit::emit::body_lowered` relates it to the compiled
    /// instruction sequence.
    pub ops: Ghost<Seq<EmitOp>>,
    /// The handle of the function's one parameter: the context address that
    /// the recorded loads and stores go through.
    pub ctx_param: Ghost<Value>,
    /// The in-function reference to the imported host routine that the
    /// recorded calls name.
    pub host_ref: Ghost<FuncRef>,
}

impl CompiledFunction {
    /// Wraps the entry address of `func`, which must already be defined and
    /// finalized in `module`, together with the module that keeps the code
    /// alive, the slot table the code was generated against, and the ghost
    /// record of what was emitted into the body.
    pub(crate) fn new(
        module: JITModule,
        func: FuncId,
        symbols: Vec<String>,
        ops: Ghost<Seq<EmitOp>>,
        ctx_param: Ghost<Value>,
        host_ref: Ghost<FuncRef>,
    ) -> (r: CompiledFunction)
        ensures
            r.symbols@ == symbols@,
            r.ops == ops,
            r.ctx_param == ctx_param,
            r.host_ref == host_ref,
    {
        let entry = backend::finalized_function_address(&module, func);
        CompiledFunction { entry, module, symbols, ops, ctx_param, host_ref }
    }
}

} // verus!
