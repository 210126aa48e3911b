//! Resource allocation, label bookkeeping and basic emission.

use vdbe_compiler::builder::ProgramBuilder;
use vdbe_compiler::emitter;
use vdbe_compiler::insn::Insn;
use vdbe_compiler::resources::{InsnPos, Label, LabelTable, Reg, RegRange};

#[test]
fn mod_test_alloc_reg() {
    let mut program = ProgramBuilder::new();
    let reg1 = emitter::alloc_reg(&mut program);
    let reg2 = emitter::alloc_reg(&mut program);
    assert_eq!(reg1.index(), 1);
    assert_eq!(reg2.index(), 2);
}

#[test]
fn alloc_test_alloc_reg() {
    let mut program = ProgramBuilder::new();
    let reg = emitter::alloc_reg(&mut program);
    assert_eq!(reg.index(), 1);
    assert_eq!(program.next_register, 2);
}

#[test]
fn test_alloc_regs() {
    let mut program = ProgramBuilder::new();
    let range = emitter::alloc_regs(&mut program, 5);
    assert_eq!(range.start(), 1);
    assert_eq!(range.count(), 5);
    assert_eq!(program.next_register, 6);
}

#[test]
fn test_label_table() {
    let mut table = LabelTable::new();

    let label1 = table.allocate();
    let label2 = table.allocate();

    assert_eq!(label1.number(), 0);
    assert_eq!(label2.number(), 1);
    assert!(!table.all_resolved());
    assert_eq!(table.unresolved_count(), 2);

    table.resolve(label1, InsnPos(10)).unwrap();
    assert_eq!(table.get_resolved(label1), Some(InsnPos(10)));
    assert_eq!(table.get_resolved(label2), None);
    assert_eq!(table.unresolved_count(), 1);

    table.resolve(label2, InsnPos(20)).unwrap();
    assert!(table.all_resolved());
}

#[test]
fn test_label_double_resolve_error() {
    let mut table = LabelTable::new();
    let label = table.allocate();

    table.resolve(label, InsnPos(10)).unwrap();
    let result = table.resolve(label, InsnPos(20));
    assert!(result.is_err());
}

#[test]
fn test_label_unknown_error() {
    let mut table = LabelTable::new();
    let result = table.resolve(Label(7), InsnPos(0));
    assert!(result.is_err());
}

#[test]
fn test_reg_range() {
    let range = RegRange { start: 5, count: 3 };
    assert_eq!(range.start(), 5);
    assert_eq!(range.count(), 3);
    assert_eq!(range.get(0).index(), 5);
    assert_eq!(range.get(1).index(), 6);
    assert_eq!(range.get(2).index(), 7);

    let regs = range.iter();
    assert_eq!(regs.len(), 3);
    assert_eq!(regs[0].index(), 5);
    assert_eq!(regs[2].index(), 7);
}

#[test]
fn test_alloc_label_and_bind() {
    let mut program = ProgramBuilder::new();
    let label = program.allocate_label();
    program.emit_insn(Insn::Noop);
    program.emit_insn(Insn::Noop);
    program.resolve_label(label).unwrap();

    assert!(program.all_labels_resolved());
    let resolved = program.labels.get_resolved(label).unwrap();
    assert_eq!(resolved.offset(), 2);
}

#[test]
fn test_emit_instruction() {
    let mut program = ProgramBuilder::new();
    program.emit_insn(Insn::Noop);
    let reg = program.alloc_register();
    emitter::integer(&mut program, 42, reg);
    assert_eq!(program.instruction_count(), 2);
}

#[test]
fn test_alloc_loop_labels() {
    let mut program = ProgramBuilder::new();
    let labels = vdbe_compiler::builder::alloc_loop_labels(&mut program);
    assert_ne!(labels.start.number(), labels.next.number());
    assert_ne!(labels.next.number(), labels.end.number());
    assert_ne!(labels.start.number(), labels.end.number());
}

#[test]
fn test_alloc_reg_with_init() {
    let mut program = ProgramBuilder::new();
    let reg = emitter::alloc_reg(&mut program);
    emitter::integer(&mut program, 42, reg);

    assert_eq!(program.instruction_count(), 1);
    match &program.instructions()[0] {
        Insn::Integer { value, dest } => {
            assert_eq!(*value, 42);
            assert_eq!(*dest, reg);
        }
        other => panic!("expected an Integer instruction, found {:?}", other),
    }
}

#[test]
fn test_arithmetic_monadic() {
    // 1 + 2 * 3: two loads and a multiply, then a load and an add.
    let mut program = ProgramBuilder::new();
    let reg2 = emitter::alloc_reg(&mut program);
    emitter::integer(&mut program, 2, reg2);
    let reg3 = emitter::alloc_reg(&mut program);
    emitter::integer(&mut program, 3, reg3);
    let reg_mul = emitter::alloc_reg(&mut program);
    emitter::multiply(&mut program, reg2, reg3, reg_mul);
    let reg1 = emitter::alloc_reg(&mut program);
    emitter::integer(&mut program, 1, reg1);
    let reg_result = emitter::alloc_reg(&mut program);
    emitter::add(&mut program, reg1, reg_mul, reg_result);

    assert!(reg_result.index() > 0);
    assert_eq!(program.instruction_count(), 5);
}

#[test]
fn test_complex_arithmetic() {
    // (1 + 2) * (3 + 4): four loads, two adds, one multiply.
    let mut program = ProgramBuilder::new();
    let mut load = |p: &mut ProgramBuilder, v: i64| {
        let r = emitter::alloc_reg(p);
        emitter::integer(p, v, r);
        r
    };
    let r1 = load(&mut program, 1);
    let r2 = load(&mut program, 2);
    let sum1 = emitter::alloc_reg(&mut program);
    emitter::add(&mut program, r1, r2, sum1);
    let r3 = load(&mut program, 3);
    let r4 = load(&mut program, 4);
    let sum2 = emitter::alloc_reg(&mut program);
    emitter::add(&mut program, r3, r4, sum2);
    let result = emitter::alloc_reg(&mut program);
    emitter::multiply(&mut program, sum1, sum2, result);

    assert!(result.index() > 0);
    assert_eq!(program.instruction_count(), 7);
}

#[test]
fn emit_monad_examples_test_conditional_when() {
    // With the limit present: one integer load.
    let mut program1 = ProgramBuilder::new();
    let has_limit = true;
    let result1 = if has_limit {
        let r = emitter::alloc_reg(&mut program1);
        emitter::integer(&mut program1, 10, r);
        Some(r)
    } else {
        None
    };
    assert!(result1.is_some());
    assert_eq!(program1.instruction_count(), 1);

    // Without it: nothing is emitted.
    let mut program2 = ProgramBuilder::new();
    let has_limit = false;
    let result2: Option<Reg> = if has_limit {
        let r = emitter::alloc_reg(&mut program2);
        emitter::integer(&mut program2, 10, r);
        Some(r)
    } else {
        None
    };
    assert!(result2.is_none());
    assert_eq!(program2.instruction_count(), 0);
}

#[test]
fn emit_monad_examples_test_sequence() {
    let mut program = ProgramBuilder::new();
    let values = vec![1i64, 2, 3];
    let mut regs = Vec::new();
    for v in values {
        let r = emitter::alloc_reg(&mut program);
        emitter::integer(&mut program, v, r);
        regs.push(r);
    }
    assert_eq!(regs.len(), 3);
    assert_eq!(program.instruction_count(), 3);
    assert_eq!(regs[0].index(), 1);
    assert_eq!(regs[1].index(), 2);
    assert_eq!(regs[2].index(), 3);
}

#[test]
fn test_emit_do_bind() {
    let mut program = ProgramBuilder::new();
    let reg = emitter::alloc_reg(&mut program);
    assert_eq!(reg.index(), 1);
}

#[test]
fn test_emit_do_sequence() {
    let mut program = ProgramBuilder::new();
    let reg = emitter::alloc_reg(&mut program);
    emitter::integer(&mut program, 42, reg);
    emitter::integer(&mut program, 100, reg);
    assert_eq!(program.instruction_count(), 2);
}

#[test]
fn test_emit_do_let_binding() {
    let mut program = ProgramBuilder::new();
    let reg = emitter::alloc_reg(&mut program);
    let value = 42 * 2;
    emitter::integer(&mut program, value, reg);
    match &program.instructions()[0] {
        Insn::Integer { value, .. } => assert_eq!(*value, 84),
        other => panic!("expected an Integer instruction, found {:?}", other),
    }
}

#[test]
fn test_nested_composition() {
    let mut program = ProgramBuilder::new();
    let reg1 = emitter::alloc_reg(&mut program);
    let reg2 = emitter::alloc_reg(&mut program);
    emitter::integer(&mut program, 1, reg2);
    emitter::copy(&mut program, reg2, reg1);
    assert_ne!(reg1.index(), reg2.index());
}

#[test]
fn test_binary_compare_kinds() {
    let mut program = ProgramBuilder::new();
    let l = emitter::alloc_reg(&mut program);
    let r = emitter::alloc_reg(&mut program);
    let target = program.allocate_label();
    emitter::binary_compare(&mut program, l, r, target, emitter::CompareType::Lt);
    emitter::binary_compare(&mut program, l, r, target, emitter::CompareType::Ge);
    program.resolve_label(target).unwrap();
    assert!(matches!(program.instructions()[0], Insn::Lt { .. }));
    assert!(matches!(program.instructions()[1], Insn::Ge { .. }));
}

#[test]
fn test_typed_registers() {
    let mut program = ProgramBuilder::new();
    let reg = emitter::alloc_reg(&mut program);
    let typed: vdbe_compiler::typed::TypedReg<vdbe_compiler::typed::Rowid> =
        vdbe_compiler::typed::TypedReg::new(reg);
    assert_eq!(typed.raw(), reg.index());
}

#[test]
fn test_make_record_and_insert() {
    let mut program = ProgramBuilder::new();
    let cursor = program.alloc_cursor();
    let range = emitter::alloc_regs(&mut program, 3);
    let rec = emitter::alloc_reg(&mut program);
    let key = emitter::alloc_reg(&mut program);
    emitter::make_record(&mut program, range.first(), 3, rec);
    emitter::new_rowid(&mut program, cursor, key);
    emitter::insert(&mut program, cursor, key, rec, "t".to_string());
    assert!(matches!(program.instructions()[0], Insn::MakeRecord { count: 3, .. }));
    assert!(matches!(program.instructions()[1], Insn::NewRowId { .. }));
    assert!(matches!(
        &program.instructions()[2],
        Insn::Insert { table_name, .. } if *table_name == "t".to_string()
    ));
}

#[test]
fn test_copy_emits_deep_copy() {
    let mut program = ProgramBuilder::new();
    let src = emitter::alloc_reg(&mut program);
    let dest = emitter::alloc_reg(&mut program);
    emitter::copy(&mut program, src, dest);
    assert!(matches!(
        program.instructions()[0],
        Insn::Copy { count: 1, .. }
    ));
}

#[test]
fn test_halt_is_clean() {
    let mut program = ProgramBuilder::new();
    emitter::halt(&mut program);
    assert!(matches!(
        &program.instructions()[0],
        Insn::Halt { err_code: 0, description } if description.is_empty()
    ));
}
