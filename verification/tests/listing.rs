//! The disassembly listing and value comparison helpers.

use vdbe_compiler::builder::ProgramBuilder;
use vdbe_compiler::explain::{insn_to_explain_row, insn_to_str};
use vdbe_compiler::insn::{CollationSeq, Insn};
use vdbe_compiler::resources::Reg;
use vdbe_compiler::value::{cmp_values, coll_str_eq, value_eq, Cmp, Value};

#[test]
fn test_listing_row_for_add() {
    let mut b = ProgramBuilder::new();
    let r1 = b.alloc_register();
    let r2 = b.alloc_register();
    let r3 = b.alloc_register();
    b.emit_insn(Insn::Add { lhs: r1, rhs: r2, dest: r3 });
    let program = b.build();
    let row = insn_to_explain_row(&program, 0, &program.instructions()[0]);
    assert_eq!(row.opcode, "Add");
    assert_eq!(row.addr, 0);
    assert_eq!(row.p1, 1);
    assert_eq!(row.p2, 2);
    assert_eq!(row.p3, 3);
    assert_eq!(row.comment, "r[3]=r[1]+r[2]".to_string());
    let line = insn_to_str(&row);
    assert_eq!(line, "0 Add 1 2 3  0 r[3]=r[1]+r[2]".to_string());
}

#[test]
fn test_listing_every_instruction() {
    let mut b = ProgramBuilder::new();
    let r = b.alloc_register();
    emitter_all(&mut b, r);
    let program = b.build();
    let mut addr = 0;
    for insn in program.instructions() {
        let row = insn_to_explain_row(&program, addr, insn);
        let line = insn_to_str(&row);
        assert!(!line.is_empty());
        assert_eq!(row.addr, addr);
        addr += 1;
    }
}

fn emitter_all(b: &mut ProgramBuilder, r: Reg) {
    b.emit_insn(Insn::Integer { value: 7, dest: r });
    b.emit_insn(Insn::Null { dest: r, count: 1 });
    b.emit_insn(Insn::Noop);
    b.emit_insn(Insn::ResultRow { start_reg: r, count: 1 });
    b.emit_insn(Insn::Halt { err_code: 0, description: String::new() });
}

#[test]
fn test_opcode_names() {
    assert_eq!(Insn::Noop.opcode(), "Noop");
    assert_eq!(Insn::Goto { target: vdbe_compiler::resources::Label(0) }.opcode(), "Goto");
    assert_eq!(Insn::Integer { value: 1, dest: Reg(1) }.opcode(), "Integer");
}

#[test]
fn test_value_equality_collations() {
    assert!(coll_str_eq(Some(CollationSeq::NoCase), "Alpha", "aLPHA"));
    assert!(!coll_str_eq(Some(CollationSeq::Binary), "Alpha", "aLPHA"));
    assert!(coll_str_eq(Some(CollationSeq::Rtrim), "abc  ", "abc"));
    assert!(!coll_str_eq(Some(CollationSeq::Rtrim), " abc", "abc"));
}

#[test]
fn test_value_equality_nulls() {
    assert!(value_eq(None, true, &Value::Null, &Value::Null));
    assert!(!value_eq(None, false, &Value::Null, &Value::Null));
    assert!(!value_eq(None, true, &Value::Null, &Value::Integer(0)));
}

#[test]
fn test_value_comparison() {
    let a = Value::Integer(1);
    let b = Value::Integer(2);
    assert_eq!(cmp_values(CollationSeq::Binary, &a, &b), Cmp::Less);
    assert_eq!(cmp_values(CollationSeq::Binary, &b, &a), Cmp::Greater);
    assert_eq!(cmp_values(CollationSeq::Binary, &a, &a), Cmp::Equal);
    let t1 = Value::Text("ab".to_string());
    let t2 = Value::Text("b".to_string());
    assert_eq!(cmp_values(CollationSeq::Binary, &t1, &t2), Cmp::Less);
    assert_eq!(cmp_values(CollationSeq::Binary, &a, &t1), Cmp::Less);
}

#[test]
fn test_program_accessors() {
    let mut b = ProgramBuilder::new();
    let label = b.allocate_label();
    b.emit_insn(Insn::Goto { target: label });
    b.resolve_label(label).unwrap();
    let cursor = b.alloc_cursor_with_kind(vdbe_compiler::resources::CursorKind::Sorter {
        num_columns: 2,
    });
    let program = b.build();
    assert_eq!(program.unresolved_count(), 0);
    assert_eq!(program.instruction_count(), 1);
    assert_eq!(program.resolved_position(label).unwrap().offset(), 1);
    assert!(matches!(
        program.cursor_kind(cursor),
        Some(vdbe_compiler::resources::CursorKind::Sorter { num_columns: 2 })
    ));
}
