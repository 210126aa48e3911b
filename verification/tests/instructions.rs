//! The instruction set's structural helpers.

use vdbe_compiler::insn::Insn;
use vdbe_compiler::resources::{Label, Reg};

#[test]
fn test_is_jump() {
    let goto = Insn::Goto { target: Label(0) };
    assert!(goto.is_jump());

    let integer = Insn::Integer { value: 42, dest: Reg(1) };
    assert!(!integer.is_jump());
}

#[test]
fn test_referenced_labels() {
    let jump = Insn::Jump { target_lt: Label(0), target_eq: Label(1), target_gt: Label(2) };
    let labels = jump.referenced_labels();
    assert_eq!(labels.len(), 3);

    let noop = Insn::Noop;
    assert!(noop.referenced_labels().is_empty());
}

#[test]
fn test_reads_writes() {
    let add = Insn::Add { lhs: Reg(1), rhs: Reg(2), dest: Reg(3) };

    let reads = add.reads_registers();
    assert_eq!(reads.len(), 2);
    assert!(reads.contains(&Reg(1)));
    assert!(reads.contains(&Reg(2)));

    let writes = add.writes_registers();
    assert_eq!(writes.len(), 1);
    assert!(writes.contains(&Reg(3)));
}

#[test]
fn test_loop_instructions_reference_their_targets() {
    let rewind = Insn::Rewind { cursor: vdbe_compiler::resources::Cursor(0), if_empty: Label(9) };
    assert!(rewind.is_jump());
    assert_eq!(rewind.referenced_labels(), vec![Label(9)]);

    let result_row = Insn::ResultRow { start_reg: Reg(1), count: 2 };
    let reads = result_row.reads_registers();
    assert_eq!(reads, vec![Reg(1), Reg(2)]);
}
