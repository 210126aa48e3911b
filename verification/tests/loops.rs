//! The loop and block combinators: frame shape and label hygiene.

use vdbe_compiler::builder::ProgramBuilder;
use vdbe_compiler::control::{for_each, for_each_rev, generic_loop, nested_loop, once, sorter_loop, LoopStyle};
use vdbe_compiler::emitter;
use vdbe_compiler::insn::Insn;

#[test]
fn test_for_each_structure() {
    let mut b = ProgramBuilder::new();
    let cursor = b.alloc_cursor();
    let b = for_each(b, cursor, |bb, _ctx| Ok(bb)).unwrap();

    let has_rewind = b.instructions().iter().any(|i| matches!(i, Insn::Rewind { .. }));
    let has_next = b.instructions().iter().any(|i| matches!(i, Insn::Next { .. }));
    assert!(has_rewind, "the loop should hold a Rewind instruction");
    assert!(has_next, "the loop should hold a Next instruction");
}

#[test]
fn test_loop_labels_allocated() {
    let mut b = ProgramBuilder::new();
    let cursor = b.alloc_cursor();
    let b = for_each(b, cursor, |bb, ctx| {
        let _start = ctx.labels.start;
        let _next = ctx.labels.next;
        let _end = ctx.labels.end;
        Ok(bb)
    })
    .unwrap();
    assert!(b.all_labels_resolved());
}

#[test]
fn test_for_each_generates_loop_structure() {
    let mut b = ProgramBuilder::new();
    let cursor = b.alloc_cursor();
    let b = for_each(b, cursor, |bb, _ctx| Ok(bb)).unwrap();
    assert!(b.instructions().iter().any(|i| matches!(i, Insn::Rewind { .. })));
    assert!(b.instructions().iter().any(|i| matches!(i, Insn::Next { .. })));
    assert!(b.all_labels_resolved());
}

#[test]
fn test_for_each_frame_positions() {
    // The entry instruction targets the end label, which is bound just
    // past the loop; the step instruction targets the start label,
    // which is bound to the first body instruction.
    let mut b = ProgramBuilder::new();
    let cursor = b.alloc_cursor();
    let dest = b.alloc_register();
    let b = for_each(b, cursor, |mut bb, ctx| {
        emitter::column(&mut bb, ctx.cursor, 0, dest);
        Ok(bb)
    })
    .unwrap();

    let insns = b.instructions();
    assert_eq!(insns.len(), 3);
    let (start, end) = match &insns[0] {
        Insn::Rewind { if_empty, .. } => match &insns[2] {
            Insn::Next { if_next, .. } => (*if_next, *if_empty),
            other => panic!("expected a Next instruction, found {:?}", other),
        },
        other => panic!("expected a Rewind instruction, found {:?}", other),
    };
    assert_eq!(b.labels.get_resolved(start).unwrap().offset(), 1);
    assert_eq!(b.labels.get_resolved(end).unwrap().offset(), 3);
    let entry_count = insns.iter().filter(|i| matches!(i, Insn::Rewind { .. })).count();
    let step_count = insns.iter().filter(|i| matches!(i, Insn::Next { .. })).count();
    assert_eq!(entry_count, 1);
    assert_eq!(step_count, 1);
}

#[test]
fn test_for_each_rev_structure() {
    let mut b = ProgramBuilder::new();
    let cursor = b.alloc_cursor();
    let b = for_each_rev(b, cursor, |bb, _ctx| Ok(bb)).unwrap();
    assert!(b.instructions().iter().any(|i| matches!(i, Insn::Last { .. })));
    assert!(b.instructions().iter().any(|i| matches!(i, Insn::Prev { .. })));
    assert!(b.all_labels_resolved());
}

#[test]
fn test_sorter_loop_structure() {
    let mut b = ProgramBuilder::new();
    let cursor = b.alloc_cursor();
    let b = sorter_loop(b, cursor, |bb, _ctx| Ok(bb)).unwrap();
    assert_eq!(b.instruction_count(), 2);
    assert!(matches!(b.instructions()[0], Insn::SorterSort { .. }));
    assert!(matches!(b.instructions()[1], Insn::SorterNext { .. }));
    assert!(b.all_labels_resolved());
}

#[test]
fn test_nested_loop() {
    let mut b = ProgramBuilder::new();
    let outer = b.alloc_cursor();
    let inner = b.alloc_cursor();
    let b = nested_loop(b, outer, inner, |bb, _o, _i| Ok(bb)).unwrap();

    let rewind_count = b.instructions().iter().filter(|i| matches!(i, Insn::Rewind { .. })).count();
    let next_count = b.instructions().iter().filter(|i| matches!(i, Insn::Next { .. })).count();
    assert_eq!(rewind_count, 2, "a nested loop holds two Rewind instructions");
    assert_eq!(next_count, 2, "a nested loop holds two Next instructions");
}

#[test]
fn test_nested_loop_structure() {
    let mut b = ProgramBuilder::new();
    let outer = b.alloc_cursor();
    let inner = b.alloc_cursor();
    let b = nested_loop(b, outer, inner, |bb, _o, _i| Ok(bb)).unwrap();
    assert!(b.all_labels_resolved());
    assert_eq!(
        b.instructions().iter().filter(|i| matches!(i, Insn::Rewind { .. })).count(),
        2
    );
    assert_eq!(
        b.instructions().iter().filter(|i| matches!(i, Insn::Next { .. })).count(),
        2
    );
}

#[test]
fn control_test_once_pattern() {
    let mut b = ProgramBuilder::new();
    let b = once(b, |mut bb| {
        emitter::insn(&mut bb, Insn::Noop);
        Ok(bb)
    })
    .unwrap();
    let has_once = b.instructions().iter().any(|i| matches!(i, Insn::Once { .. }));
    assert!(has_once, "the block should start with a Once instruction");
}

#[test]
fn mod_test_once_pattern() {
    let mut b = ProgramBuilder::new();
    let b = once(b, |mut bb| {
        emitter::insn(&mut bb, Insn::Noop);
        Ok(bb)
    })
    .unwrap();
    assert!(b.instructions().iter().any(|i| matches!(i, Insn::Once { .. })));
    assert!(b.all_labels_resolved());
}

#[test]
fn test_simple_query_pattern() {
    // One result column from a forward scan, then a halt.
    let mut b = ProgramBuilder::new();
    let cursor = b.alloc_cursor();
    let result = b.alloc_register();
    let mut b = for_each(b, cursor, move |mut bb, ctx| {
        let val = emitter::alloc_reg(&mut bb);
        emitter::column(&mut bb, ctx.cursor, 0, val);
        emitter::copy(&mut bb, val, result);
        emitter::result_row(&mut bb, result, 1);
        Ok(bb)
    })
    .unwrap();
    emitter::halt(&mut b);

    assert!(result.index() >= 1);
    let kinds: Vec<&'static str> = b
        .instructions()
        .iter()
        .map(|i| match i {
            Insn::Rewind { .. } => "Rewind",
            Insn::Column { .. } => "Column",
            Insn::SCopy { .. } => "SCopy",
            Insn::ResultRow { .. } => "ResultRow",
            Insn::Next { .. } => "Next",
            Insn::Halt { .. } => "Halt",
            _ => "Other",
        })
        .collect();
    assert!(kinds.contains(&"Rewind"));
    assert!(kinds.contains(&"Column"));
    assert!(kinds.contains(&"ResultRow"));
    assert!(kinds.contains(&"Next"));
    assert!(kinds.contains(&"Halt"));
}

#[test]
fn test_error_short_circuits() {
    let mut b = ProgramBuilder::new();
    let cursor = b.alloc_cursor();
    let r = for_each(b, cursor, |_bb, _ctx| {
        Err(vdbe_compiler::TranslateError::UnsupportedStatement)
    });
    assert!(r.is_err());
}

#[test]
fn test_subroutine_pattern() {
    let mut b = ProgramBuilder::new();
    let (b, sub_label, return_reg) = vdbe_compiler::control::subroutine(b, |mut bb, _ret| {
        emitter::insn(&mut bb, Insn::Noop);
        Ok(bb)
    })
    .unwrap();
    let mut b = b;
    vdbe_compiler::control::call_subroutine(&mut b, sub_label, return_reg);
    assert!(b.all_labels_resolved());
    assert!(b.instructions().iter().any(|i| matches!(i, Insn::Return { .. })));
    assert!(b.instructions().iter().any(|i| matches!(i, Insn::Gosub { .. })));
}

#[test]
fn test_coroutine_pattern() {
    let b = ProgramBuilder::new();
    let (b, yield_reg) = vdbe_compiler::control::coroutine(b, |mut bb, reg, _end| {
        vdbe_compiler::control::yield_value(&mut bb, reg, _end);
        Ok(bb)
    })
    .unwrap();
    assert!(yield_reg.index() >= 1);
    assert!(b.instructions().iter().any(|i| matches!(i, Insn::InitCoroutine { .. })));
    assert!(b.instructions().iter().any(|i| matches!(i, Insn::Yield { .. })));
    assert!(b.instructions().iter().any(|i| matches!(i, Insn::EndCoroutine { .. })));
    assert!(b.all_labels_resolved());
}

#[test]
fn test_if_else_pattern() {
    let mut b = ProgramBuilder::new();
    let cond = b.alloc_register();
    let b = vdbe_compiler::control::if_else(
        b,
        cond,
        |mut bb| {
            emitter::insn(&mut bb, Insn::Noop);
            Ok(bb)
        },
        |mut bb| {
            emitter::insn(&mut bb, Insn::Noop);
            Ok(bb)
        },
    )
    .unwrap();
    assert!(b.instructions().iter().any(|i| matches!(i, Insn::IfNot { .. })));
    assert!(b.instructions().iter().any(|i| matches!(i, Insn::Goto { .. })));
    assert!(b.all_labels_resolved());
}

#[test]
fn test_generic_loop() {
    let mut b = ProgramBuilder::new();
    let cursor = b.alloc_cursor();
    let b = generic_loop(b, cursor, LoopStyle::Forward, |bb, _ctx| Ok(bb)).unwrap();
    assert_eq!(b.instruction_count(), 2);
    assert!(matches!(b.instructions()[0], Insn::Rewind { .. }));
    assert!(matches!(b.instructions()[1], Insn::Next { .. }));
    assert!(b.all_labels_resolved());
}
