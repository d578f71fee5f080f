use mlogjit::cfg::generate_cfg;
use mlogjit::compiled_function::CompiledFunction;
use mlogjit::ir::{Instr, JumpCondition, OpKind, Operand};
use mlogjit::jit::{CompileError, JitCompiler};
use mlogjit::symbol_table::SymbolTable;

fn new_compiler() -> JitCompiler {
    // A stand-in host-routine address: these tests compile programs but
    // never execute them, so the routine is never called and any address
    // satisfies the relocation of the `host_pow` import.
    JitCompiler::new(0x1000)
}

fn expect_err(r: Result<CompiledFunction, CompileError>) -> CompileError {
    match r {
        Err(e) => e,
        Ok(_) => panic!("expected a compile error"),
    }
}

fn set(var: &str, val: f64) -> Instr {
    Instr::Assign(var.to_string(), Operand::Const(val.to_bits()))
}

fn op(kind: OpKind, var: &str, left: &str, right: &str) -> Instr {
    Instr::Op(
        var.to_string(),
        kind,
        Operand::Var(left.to_string()),
        Operand::Var(right.to_string()),
    )
}

#[test]
fn symbol_table_first_use_order() {
    let mut sym = SymbolTable::new();
    assert_eq!(0, sym.index_for("a"));
    assert_eq!(1, sym.index_for("b"));
    assert_eq!(0, sym.index_for("a"));
    assert_eq!(2, sym.index_for("c"));
    assert_eq!(1, sym.index_for("b"));
}

#[test]
fn compile_assigns_slots_in_first_seen_order() {
    let ir = vec![set("a", 10.0), set("b", 20.0), set("b", 15.0), set("c", 30.0)];
    let mut compiler = new_compiler();
    let func = compiler.compile(&ir).unwrap();
    assert_eq!(vec!["a", "b", "c"], func.symbols);
}

#[test]
fn compile_allocates_operands_after_target() {
    // `Op` resolves left, then right, then the target.
    let ir = vec![set("a", 1.0), op(OpKind::Add, "result", "a", "b")];
    let mut compiler = new_compiler();
    let func = compiler.compile(&ir).unwrap();
    assert_eq!(vec!["a", "b", "result"], func.symbols);
}

#[test]
fn compile_set_resolves_value_before_target() {
    // `Assign` resolves the value operand before allocating the target, so
    // a new variable inside the value is first-seen before a new target.
    let ir = vec![Instr::Assign("x".to_string(), Operand::Var("y".to_string()))];
    let mut compiler = new_compiler();
    let func = compiler.compile(&ir).unwrap();
    assert_eq!(vec!["y", "x"], func.symbols);
}

#[test]
fn compile_is_deterministic() {
    let ir = vec![set("x", 1.5), set("y", 2.5), op(OpKind::Mul, "z", "x", "y")];
    let mut compiler = new_compiler();
    let first = compiler.compile(&ir).unwrap();
    let second = compiler.compile(&ir).unwrap();
    assert_eq!(first.symbols, second.symbols);
}

#[test]
fn compile_rejects_jump() {
    let ir = vec![
        set("a", 1.0),
        Instr::Jump(3, JumpCondition::Always, Operand::Null, Operand::Null),
    ];
    let mut compiler = new_compiler();
    let err = expect_err(compiler.compile(&ir));
    assert_eq!(CompileError::UnsupportedInstruction(1), err);
    // A failed compilation leaves the compiler usable.
    assert!(compiler.compile(&vec![set("a", 1.0)]).is_ok());
}

#[test]
fn compile_rejects_string_operand() {
    let ir = vec![Instr::Op(
        "r".to_string(),
        OpKind::Add,
        Operand::String("hello".to_string()),
        Operand::Const(1.0f64.to_bits()),
    )];
    let mut compiler = new_compiler();
    assert_eq!(CompileError::UnsupportedOperand(0), expect_err(compiler.compile(&ir)));
}

#[test]
fn compile_rejects_null_operand() {
    let ir = vec![Instr::Assign("r".to_string(), Operand::Null)];
    let mut compiler = new_compiler();
    assert_eq!(CompileError::UnsupportedOperand(0), expect_err(compiler.compile(&ir)));
}

#[test]
fn compile_at_register_capacity() {
    let mut ir = Vec::new();
    for i in 0..256 {
        ir.push(set(&format!("v{}", i), i as f64));
    }
    let mut compiler = new_compiler();
    let func = compiler.compile(&ir).unwrap();
    assert_eq!(256, func.symbols.len());
}

#[test]
fn compile_beyond_register_capacity() {
    let mut ir = Vec::new();
    for i in 0..257 {
        ir.push(set(&format!("v{}", i), i as f64));
    }
    let mut compiler = new_compiler();
    assert_eq!(CompileError::CapacityExceeded(256), expect_err(compiler.compile(&ir)));
}

#[test]
fn compile_pow_program() {
    // The host `pow` routine is declared as an import and resolved against
    // the process when definitions are finalized; a successful compile means
    // the call was emitted and the symbol was found.
    let ir = vec![set("a", 2.0), set("b", 10.0), op(OpKind::Pow, "result", "a", "b")];
    let mut compiler = new_compiler();
    let func = compiler.compile(&ir).unwrap();
    assert_eq!(vec!["a", "b", "result"], func.symbols);
}

#[test]
fn compile_every_operation() {
    let kinds = vec![
        OpKind::Add,
        OpKind::Sub,
        OpKind::Mul,
        OpKind::Div,
        OpKind::Idiv,
        OpKind::Mod,
        OpKind::Pow,
    ];
    let mut compiler = new_compiler();
    for kind in kinds {
        let ir = vec![set("l", -7.0), set("r", 2.0), op(kind, "out", "l", "r")];
        assert!(compiler.compile(&ir).is_ok());
    }
}

#[test]
fn independent_compilations() {
    let mut compiler = new_compiler();
    let f1 = compiler.compile(&vec![set("a", 1.0)]).unwrap();
    let f2 = compiler.compile(&vec![set("x", 2.0), set("y", 3.0)]).unwrap();
    assert_eq!(vec!["a"], f1.symbols);
    assert_eq!(vec!["x", "y"], f2.symbols);
    // Both artifacts stay alive and callable at once: each owns its module,
    // so their native entry points are distinct addresses.
    assert_ne!(f1.entry, f2.entry);
}

#[test]
fn cfg_collects_sorted_distinct_targets() {
    let jump = |line: i32| Instr::Jump(line, JumpCondition::Always, Operand::Null, Operand::Null);
    let ir = vec![jump(5), set("a", 1.0), jump(2), jump(5)];
    assert_eq!(vec![2, 5], generate_cfg(&ir));
    assert_eq!(Vec::<i32>::new(), generate_cfg(&vec![set("a", 1.0)]));
}

#[test]
fn ir_equality_is_structural() {
    assert_eq!(set("a", 10.0), set("a", 10.0));
    assert_ne!(set("a", 10.0), set("a", 11.0));
    assert_ne!(set("a", 10.0), set("b", 10.0));
    assert_eq!(Operand::Null, Operand::Null);
    assert_ne!(
        Operand::Var("x".to_string()),
        Operand::String("x".to_string())
    );
}
