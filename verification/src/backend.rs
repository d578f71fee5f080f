//! The trusted boundary to the cranelift code generator.
//!
//! Every function here is `external_body`: its body makes exactly the
//! cranelift (or std) calls its doc comment names.  The values cranelift
//! hands back (modules, builders, SSA values, function handles) are opaque
//! to the verifier.  The emit wrappers promise one thing beyond making
//! their call: that the operation, its scalar data and the handles it
//! consumed and produced are appended to the `FuncGen`'s ghost record —
//! everything `emit::body_lowered` states rests on those appends being
//! faithful.  The verified code in `jit.rs` sequences the calls and is
//! responsible for slots, offsets, rejection and the recorded lowering.

use vstd::prelude::*;

use crate::emit::EmitOp;
use cranelift_codegen::Context;
use cranelift_codegen::ir::immediates::Ieee64;
use cranelift_codegen::ir::{AbiParam, Block, FuncRef, InstBuilder, MemFlagsData, Value, types};
use cranelift_frontend::{FunctionBuilder, FunctionBuilderContext};
use cranelift_jit::{JITBuilder, JITModule};
use cranelift_module::{FuncId, Linkage, Module, default_libcall_names};

verus! {

#[verifier::external_type_specification]
#[verifier::external_body]
pub struct ExJITBuilder(JITBuilder);

#[verifier::external_type_specification]
#[verifier::external_body]
pub struct ExJITModule(JITModule);

#[verifier::external_type_specification]
#[verifier::external_body]
pub struct ExContext(Context);

#[verifier::external_type_specification]
#[verifier::external_body]
pub struct ExFunctionBuilderContext(FunctionBuilderContext);

#[verifier::external_type_specification]
#[verifier::external_body]
pub struct ExFunctionBuilder<'a>(FunctionBuilder<'a>);

#[verifier::external_type_specification]
#[verifier::external_body]
pub struct ExValue(Value);

#[verifier::external_type_specification]
#[verifier::external_body]
pub struct ExBlock(Block);

#[verifier::external_type_specification]
#[verifier::external_body]
pub struct ExFuncId(FuncId);

#[verifier::external_type_specification]
#[verifier::external_body]
pub struct ExFuncRef(FuncRef);

/// The function under construction: the opaque cranelift builder together
/// with the ghost record of every operation emitted into the body so far.
/// The record is what the emit wrappers below promise to extend, one
/// operation per call; `jit::spec_compile`'s verified walk drives them.
pub struct FuncGen<'a> {
    pub(crate) fb: FunctionBuilder<'a>,
    pub ops: Ghost<Seq<EmitOp>>,
}

/// Opens the record over a builder whose body holds no instructions yet.
pub(crate) fn wrap_builder<'a>(fb: FunctionBuilder<'a>) -> (g: FuncGen<'a>)
    ensures
        g.ops@ == Seq::<EmitOp>::empty(),
{
    FuncGen { fb, ops: Ghost(Seq::empty()) }
}

/// Relies on `cranelift_jit::JITBuilder::new` with
/// `cranelift_module::default_libcall_names`: builds a JIT builder for the
/// host machine.  On a host cranelift does not support, the callee panics
/// rather than returning the error this `Option` covers.
#[verifier::external_body]
pub(crate) fn new_jit_builder() -> Option<JITBuilder> {
    JITBuilder::new(default_libcall_names()).ok()
}

/// Relies on `cranelift_jit::JITBuilder::symbol`: records `addr` as the
/// native address of the imported name `name`, consulted when the module's
/// relocations are resolved.
#[verifier::external_body]
pub(crate) fn register_symbol(builder: &mut JITBuilder, name: &str, addr: usize) {
    builder.symbol(name, addr as _);
}

/// Relies on `cranelift_jit::JITModule::new`: makes an empty module whose
/// functions are compiled to executable memory in this process.
#[verifier::external_body]
pub(crate) fn new_module(builder: JITBuilder) -> JITModule {
    JITModule::new(builder)
}

/// Relies on `cranelift_module::Module::make_signature`, `AbiParam::new` and
/// `Module::declare_function`: declares an imported function named `name`
/// with signature (f64, f64) -> f64, to be resolved by the module's symbol
/// lookup when definitions are finalized.
#[verifier::external_body]
pub(crate) fn declare_binary_import(module: &mut JITModule, name: &str) -> Option<FuncId> {
    let mut sig = module.make_signature();
    sig.params.push(AbiParam::new(types::F64));
    sig.params.push(AbiParam::new(types::F64));
    sig.returns.push(AbiParam::new(types::F64));
    module.declare_function(name, Linkage::Import, &sig).ok()
}

/// Relies on `Module::make_signature`, `Module::target_config`,
/// `AbiParam::new` and `Module::make_context`: makes a compilation context
/// whose function takes a single pointer-sized parameter (the address of the
/// execution context) and returns nothing.
#[verifier::external_body]
pub(crate) fn make_context_for_ptr_param(module: &JITModule) -> Context {
    let mut sig = module.make_signature();
    sig.params.push(AbiParam::new(module.target_config().pointer_type()));
    let mut ctx = module.make_context();
    ctx.func.signature = sig;
    ctx
}

/// Relies on `cranelift_frontend::FunctionBuilderContext::new`.
#[verifier::external_body]
pub(crate) fn new_builder_context() -> FunctionBuilderContext {
    FunctionBuilderContext::new()
}

/// Relies on `cranelift_frontend::FunctionBuilder::new`: opens a builder for
/// the function held by `ctx`.
#[verifier::external_body]
pub(crate) fn new_function_builder<'a>(
    ctx: &'a mut Context,
    fbc: &'a mut FunctionBuilderContext,
) -> FunctionBuilder<'a> {
    FunctionBuilder::new(&mut ctx.func, fbc)
}

/// Relies on `cranelift_module::Module::declare_func_in_func`: makes a
/// module-declared function callable inside the function under construction.
#[verifier::external_body]
pub(crate) fn declare_func_ref(
    module: &mut JITModule,
    fb: &mut FunctionBuilder,
    id: FuncId,
) -> FuncRef {
    module.declare_func_in_func(id, fb.func)
}

/// Relies on `FunctionBuilder::create_block`.
#[verifier::external_body]
pub(crate) fn create_block(fb: &mut FunctionBuilder) -> Block {
    fb.create_block()
}

/// Relies on `FunctionBuilder::append_block_params_for_function_params`:
/// gives `block` one parameter per function parameter.
#[verifier::external_body]
pub(crate) fn append_block_params(fb: &mut FunctionBuilder, block: Block) {
    fb.append_block_params_for_function_params(block)
}

/// Relies on `FunctionBuilder::switch_to_block`.
#[verifier::external_body]
pub(crate) fn switch_to_block(fb: &mut FunctionBuilder, block: Block) {
    fb.switch_to_block(block)
}

/// Relies on `FunctionBuilder::seal_block`.
#[verifier::external_body]
pub(crate) fn seal_block(fb: &mut FunctionBuilder, block: Block) {
    fb.seal_block(block)
}

/// Relies on `FunctionBuilder::block_params`: hands out the `i`-th parameter
/// of `block`, or `None` when the block has fewer parameters.
#[verifier::external_body]
pub(crate) fn block_param(fb: &FunctionBuilder, block: Block, i: usize) -> Option<Value> {
    fb.block_params(block).get(i).copied()
}

/// Relies on `InstBuilder::f64const` and `Ieee64::with_bits`: emits a double
/// immediate whose bit pattern is exactly `bits`, recorded with the handle
/// it produced.
#[verifier::external_body]
pub(crate) fn emit_f64const(g: &mut FuncGen, bits: u64) -> (r: Value)
    ensures
        final(g).ops@ == old(g).ops@.push((EmitOp::ConstF64 { bits, result: r })),
{
    g.fb.ins().f64const(Ieee64::with_bits(bits))
}

/// Relies on `InstBuilder::load` and `MemFlagsData::new`: emits a double load
/// from `offset` bytes past the address `ptr`, recorded with the handle it
/// produced.
#[verifier::external_body]
pub(crate) fn emit_load_f64(g: &mut FuncGen, ptr: Value, offset: i32) -> (r: Value)
    ensures
        final(g).ops@ == old(g).ops@.push((EmitOp::Load { ptr, offset, result: r })),
{
    g.fb.ins().load(types::F64, MemFlagsData::new(), ptr, offset)
}

/// Relies on `InstBuilder::store` and `MemFlagsData::new`: emits a store of
/// `val` at `offset` bytes past the address `ptr`, recorded as such.
#[verifier::external_body]
pub(crate) fn emit_store(g: &mut FuncGen, val: Value, ptr: Value, offset: i32)
    ensures
        final(g).ops@ == old(g).ops@.push((EmitOp::Store { val, ptr, offset })),
{
    g.fb.ins().store(MemFlagsData::new(), val, ptr, offset);
}

/// Relies on `InstBuilder::fadd`: emits a double addition, recorded with
/// its operands and the handle it produced.
#[verifier::external_body]
pub(crate) fn emit_fadd(g: &mut FuncGen, a: Value, b: Value) -> (r: Value)
    ensures
        final(g).ops@ == old(g).ops@.push((EmitOp::Fadd { a, b, result: r })),
{
    g.fb.ins().fadd(a, b)
}

/// Relies on `InstBuilder::fsub`: emits a double subtraction, recorded with
/// its operands and the handle it produced.
#[verifier::external_body]
pub(crate) fn emit_fsub(g: &mut FuncGen, a: Value, b: Value) -> (r: Value)
    ensures
        final(g).ops@ == old(g).ops@.push((EmitOp::Fsub { a, b, result: r })),
{
    g.fb.ins().fsub(a, b)
}

/// Relies on `InstBuilder::fmul`: emits a double multiplication, recorded with
/// its operands and the handle it produced.
#[verifier::external_body]
pub(crate) fn emit_fmul(g: &mut FuncGen, a: Value, b: Value) -> (r: Value)
    ensures
        final(g).ops@ == old(g).ops@.push((EmitOp::Fmul { a, b, result: r })),
{
    g.fb.ins().fmul(a, b)
}

/// Relies on `InstBuilder::fdiv`: emits a double division, recorded with
/// its operands and the handle it produced.
#[verifier::external_body]
pub(crate) fn emit_fdiv(g: &mut FuncGen, a: Value, b: Value) -> (r: Value)
    ensures
        final(g).ops@ == old(g).ops@.push((EmitOp::Fdiv { a, b, result: r })),
{
    g.fb.ins().fdiv(a, b)
}

/// Relies on `InstBuilder::floor`: emits a round-toward-negative-infinity,
/// recorded with its operand and the handle it produced.
#[verifier::external_body]
pub(crate) fn emit_floor(g: &mut FuncGen, a: Value) -> (r: Value)
    ensures
        final(g).ops@ == old(g).ops@.push((EmitOp::Floor { a, result: r })),
{
    g.fb.ins().floor(a)
}

/// Relies on `InstBuilder::call` and `FunctionBuilder::inst_results`: emits
/// a call of `f` with arguments `(a, b)` and hands out its first result, or
/// `None` when the call has no results.  A call whose result came back is
/// recorded as such; on `None` the record is left unconstrained (the one
/// caller then abandons the compilation).
#[verifier::external_body]
pub(crate) fn emit_call_binary(
    g: &mut FuncGen,
    f: FuncRef,
    a: Value,
    b: Value,
) -> (r: Option<Value>)
    ensures
        r matches Some(v) ==> final(g).ops@ == old(g).ops@.push(
            (EmitOp::Call { f, a, b, result: v }),
        ),
{
    let inst = g.fb.ins().call(f, &[a, b]);
    g.fb.inst_results(inst).first().copied()
}

/// Relies on `InstBuilder::return_`: emits a return with no values,
/// recorded as such.
#[verifier::external_body]
pub(crate) fn emit_return(g: &mut FuncGen)
    ensures
        final(g).ops@ == old(g).ops@.push(EmitOp::Return),
{
    g.fb.ins().return_(&[]);
}

/// Relies on `FunctionBuilder::finalize` and `Module::target_config`: closes
/// the function under construction, checking that it is complete.
#[verifier::external_body]
pub(crate) fn finalize_builder(g: FuncGen, module: &JITModule) {
    let FuncGen { fb, ops: _ } = g;
    fb.finalize(module.target_config())
}

/// Relies on `Module::declare_function`: declares an exported function named
/// `name` with the signature that `ctx` was built with, handing back `None`
/// when the module refuses the declaration (for instance a name already
/// declared with another signature).
#[verifier::external_body]
pub(crate) fn declare_export_function(
    module: &mut JITModule,
    name: &str,
    ctx: &Context,
) -> Option<FuncId> {
    module.declare_function(name, Linkage::Export, &ctx.func.signature).ok()
}

/// Relies on `Module::define_function`: compiles the function in `ctx` to
/// native code as the body of `id`, handing back whether that succeeded.
#[verifier::external_body]
pub(crate) fn define_function(module: &mut JITModule, id: FuncId, ctx: &mut Context) -> bool {
    module.define_function(id, ctx).is_ok()
}

/// Relies on `JITModule::finalize_definitions`: resolves relocations
/// (including the imported host routine, via the builder's symbol lookup)
/// and makes the compiled code executable.
#[verifier::external_body]
pub(crate) fn finalize_definitions(module: &mut JITModule) -> bool {
    module.finalize_definitions().is_ok()
}

/// Relies on `JITModule::get_finalized_function`: the address of the
/// finalized native code of `id`, as an integer.  The address stays valid
/// for as long as the module is alive.  The callee panics when `id` was not
/// defined and finalized in `module`; the one caller fetches the address
/// only after `define_function` and `finalize_definitions` reported success.
#[verifier::external_body]
pub(crate) fn finalized_function_address(module: &JITModule, id: FuncId) -> usize {
    module.get_finalized_function(id) as usize
}

} // verus!
