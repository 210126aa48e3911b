//! The translator for ANALYZE: statistics collection for the query
//! planner.
//!
//! For each target table the emitted program first deletes the prior
//! statistics rows for that table from the statistics catalog, then
//! counts the table's rows exactly and, when the count is not zero,
//! inserts one `(table, NULL, count)` row.  For each index on the table
//! it scans the index in key order, maintaining the previous row's key
//! in registers; at each row it computes the first key position at
//! which the current row differs from the previous one and feeds that
//! change index to a running distinct-prefix accumulator; on exhaustion
//! it inserts one `(table, index, stat-string)` row.

use vstd::prelude::*;

use crate::builder::{extends, lemma_extends_trans, ProgramBuilder};
use crate::control::{
    block_emitted, lemma_block_emitted_refl, lemma_block_emitted_trans, loop_local,
};
use crate::emitter;
use crate::insn::{is_loop_entry, is_loop_step, Affinity, CmpInsFlags, Insn, RootPage, ScalarFunc};
use crate::resources::{Cursor, CursorKind, Label, Reg};
use crate::schema::{Index, Schema, Table};
use crate::text::clone_string;
use crate::TranslateError;

verus! {

/// The name of the statistics catalog table.
pub open spec fn stat_table_name() -> Seq<char> {
    "sqlite_stat1"@
}

/// Some instruction appended at or after the given position satisfies
/// the predicate.
pub open spec fn suffix_has(from: int, b: ProgramBuilder, f: spec_fn(Insn) -> bool) -> bool {
    exists|j: int| from <= j < b.insns@.len() && f(#[trigger] b.insns@[j])
}

/// A satisfied suffix predicate survives any further extension.
pub proof fn lemma_suffix_has_extends(from: int, b: ProgramBuilder, c: ProgramBuilder, f: spec_fn(Insn) -> bool)
    requires
        suffix_has(from, b, f),
        extends(b, c),
        0 <= from,
    ensures
        suffix_has(from, c, f),
{
    let j = choose|j: int| from <= j < b.insns@.len() && f(#[trigger] b.insns@[j]);
    assert(c.insns@[j] == c.insns@.subrange(0, b.insns@.len() as int)[j]);
    assert(f(c.insns@[j]));
}

/// The instruction stream one index's statistics collection appends,
/// from position `from` on: the index cursor is opened on the index's
/// root and scanned (Rewind and Next), the accumulator is initialized,
/// fed once per row, and rendered (the three statistics calls), and the
/// resulting `(table, index, stat)` row is inserted into the statistics
/// catalog.  What the accumulator computes at run time is specified by
/// the statistics model ([`crate::stats::spec_stat_string`]).
pub open spec fn index_stats_emitted(
    from: int,
    b2: ProgramBuilder,
    idx_cursor_id: int,
    stat_cursor: Cursor,
    iname: Seq<char>,
    iroot: usize,
) -> bool {
    &&& suffix_has(
        from,
        b2,
        |i: Insn| i == (Insn::OpenRead {
            cursor: Cursor(idx_cursor_id as usize),
            root_page: iroot,
            db: 0,
        }),
    )
    &&& suffix_has(
        from,
        b2,
        |i: Insn| i matches Insn::Rewind { cursor, .. } && cursor == Cursor(
            idx_cursor_id as usize,
        ),
    )
    &&& suffix_has(
        from,
        b2,
        |i: Insn| i matches Insn::Next { cursor, .. } && cursor == Cursor(idx_cursor_id as usize),
    )
    &&& suffix_has(
        from,
        b2,
        |i: Insn| i matches Insn::Function { func: ScalarFunc::StatInit, .. },
    )
    &&& suffix_has(
        from,
        b2,
        |i: Insn| i matches Insn::Function { func: ScalarFunc::StatPush, .. },
    )
    &&& suffix_has(
        from,
        b2,
        |i: Insn| i matches Insn::Function { func: ScalarFunc::StatGet, .. },
    )
    &&& suffix_has(from, b2, |i: Insn| i matches Insn::String8 { value, .. } && value@ == iname)
    &&& suffix_has(
        from,
        b2,
        |i: Insn| i matches Insn::Insert { cursor, table_name, .. } && cursor == stat_cursor
            && table_name@ == stat_table_name(),
    )
}

/// The exact instruction stream one table's statistics maintenance
/// appends, relative to the instruction position `k`, label base `l`,
/// register base `r` and cursor base `c` at which it started: the
/// delete scan of the statistics catalog (with the extra index-name
/// comparison for a single-index target, shifting later positions by
/// `d`, 3 or 0), then the exact row count guarded by `IfNot` so that an
/// empty table inserts no table-level row.
pub open spec fn table_stats_emitted(
    b2: ProgramBuilder,
    k: int,
    l: int,
    r: int,
    c: int,
    stat_cursor: Cursor,
    tname: Seq<char>,
    troot: usize,
    idx: Option<Seq<char>>,
) -> bool {
    let d: int = if idx is Some {
        3
    } else {
        0
    };
    &&& b2.insns@.len() == k + 18 + d
    &&& b2.insns@[k] == (Insn::Rewind { cursor: stat_cursor, if_empty: Label(l as u32) })
    &&& b2.insns@[k + 1] == (Insn::Column { cursor: stat_cursor, column: 0, dest: Reg(r as usize) })
    &&& (b2.insns@[k + 2] matches Insn::String8 { value, dest } && value@ == tname && dest == Reg(
        (r + 1) as usize,
    ))
    &&& b2.insns@[k + 3] == (Insn::Ne {
        lhs: Reg(r as usize),
        rhs: Reg((r + 1) as usize),
        target: Label((l + 2) as u32),
        flags: (CmpInsFlags { null_eq: false, jump_if_null: false }),
        collation: None,
    })
    &&& (idx matches Some(iname) ==> {
        &&& b2.insns@[k + 4] == (Insn::Column {
            cursor: stat_cursor,
            column: 1,
            dest: Reg((r + 2) as usize),
        })
        &&& (b2.insns@[k + 5] matches Insn::String8 { value, dest } && value@ == iname && dest
            == Reg((r + 3) as usize))
        &&& b2.insns@[k + 6] == (Insn::Ne {
            lhs: Reg((r + 2) as usize),
            rhs: Reg((r + 3) as usize),
            target: Label((l + 2) as u32),
            flags: (CmpInsFlags { null_eq: false, jump_if_null: false }),
            collation: None,
        })
    })
    &&& b2.insns@[k + 4 + d] == (Insn::RowId { cursor: stat_cursor, dest: Reg((r + 4) as usize) })
    &&& (b2.insns@[k + 5 + d] matches Insn::Delete { cursor, table_name } && cursor == stat_cursor
        && table_name@ == stat_table_name())
    &&& b2.insns@[k + 6 + d] == (Insn::Next { cursor: stat_cursor, if_next: Label((l + 1) as u32) })
    &&& b2.insns@[k + 7 + d] == (Insn::Next { cursor: stat_cursor, if_next: Label((l + 1) as u32) })
    &&& b2.insns@[k + 8 + d] == (Insn::OpenRead {
        cursor: Cursor(c as usize),
        root_page: troot,
        db: 0,
    })
    &&& (b2.insns@[k + 9 + d] matches Insn::String8 { value, dest } && value@ == tname && dest
        == Reg((r + 5) as usize))
    &&& b2.insns@[k + 10 + d] == (Insn::Count {
        cursor: Cursor(c as usize),
        dest: Reg((r + 9) as usize),
        exact: true,
    })
    &&& b2.insns@[k + 11 + d] == (Insn::IfNot {
        reg: Reg((r + 9) as usize),
        target: Label((l + 3) as u32),
        jump_if_null: false,
    })
    &&& b2.insns@[k + 12 + d] == (Insn::Null { dest: Reg((r + 6) as usize), count: 1 })
    &&& b2.insns@[k + 13 + d] == (Insn::Copy {
        src: Reg((r + 9) as usize),
        dest: Reg((r + 7) as usize),
        count: 1,
    })
    &&& b2.insns@[k + 14 + d] == (Insn::Cast {
        reg: Reg((r + 7) as usize),
        affinity: Affinity::Text,
    })
    &&& b2.insns@[k + 15 + d] == (Insn::MakeRecord {
        start_reg: Reg((r + 5) as usize),
        count: 3,
        dest: Reg((r + 8) as usize),
    })
    &&& b2.insns@[k + 16 + d] == (Insn::NewRowId {
        cursor: stat_cursor,
        dest: Reg((r + 4) as usize),
    })
    &&& (b2.insns@[k + 17 + d] matches Insn::Insert {
        cursor,
        key_reg,
        record_reg,
        table_name,
        ..
    } && cursor == stat_cursor && key_reg == Reg((r + 4) as usize) && record_reg == Reg(
        (r + 8) as usize,
    ) && table_name@ == stat_table_name())
    &&& b2.labels@[l] == Some((k + 8 + d) as usize)
    &&& b2.labels@[l + 1] == Some((k + 1) as usize)
    &&& b2.labels@[l + 2] == Some((k + 7 + d) as usize)
    &&& b2.labels@[l + 3] == Some((k + 18 + d) as usize)
}

/// Emit the statistics collection for one index: the scan, the
/// change-index computation against the previous row, the accumulator
/// calls, and the final row insertion into the statistics catalog.
///
/// The emitted block binds every label it allocates; its loop entry and
/// loop step instructions only target its own fresh labels.
#[verifier::rlimit(100)]
pub fn emit_index_stats(
    b: &mut ProgramBuilder,
    stat_cursor: Cursor,
    table_name: &str,
    index: &Index,
) -> (n_cols: usize)
    requires
        old(b).wf(),
        stat_cursor.0 < old(b).next_cursor,
        old(b).next_register + 16 + index.columns@.len() <= usize::MAX,
        old(b).labels@.len() + 4 + index.columns@.len() <= u32::MAX,
        old(b).next_cursor + 1 <= usize::MAX,
    ensures
        final(b).wf(),
        block_emitted(*old(b), *final(b)),
        n_cols == index.columns@.len(),
        final(b).next_register <= old(b).next_register + 16 + index.columns@.len(),
        final(b).labels@.len() <= old(b).labels@.len() + 4 + index.columns@.len(),
        final(b).next_cursor <= old(b).next_cursor + 1,
        final(b).nested == old(b).nested,
        index.columns@.len() > 0 ==> index_stats_emitted(
            old(b).insns@.len() as int,
            *final(b),
            old(b).next_cursor as int,
            stat_cursor,
            index.name@,
            index.root_page,
        ),
{
    broadcast use crate::builder::lemma_extends_trans_auto;

    let n_cols = index.columns.len();
    if n_cols == 0 {
        proof {
            lemma_block_emitted_refl(*b);
        }
        return 0;
    }
    let ghost b0 = *b;
    // Open the index cursor.
    let idx_cursor = b.alloc_cursor_with_kind(
        CursorKind::BTreeIndex {
            root_page: index.root_page,
            index_name: clone_string(index.name.as_str()),
        },
    );
    b.emit_insn(Insn::OpenRead { cursor: idx_cursor, root_page: index.root_page, db: 0 });
    // Registers: the accumulator, the change index, one register per key
    // column for the previous row, and a scratch register.
    let reg_accum = b.alloc_register();
    let reg_chng = b.alloc_register();
    let prev = b.alloc_registers(n_cols);
    let reg_temp = b.alloc_register();
    let lbl_empty = b.allocate_label();
    let lbl_loop = b.allocate_label();
    let lbl_stat_push = b.allocate_label();
    let update_prev = emitter::alloc_labels(b, n_cols);
    // Initialize the accumulator with the key width.
    b.emit_insn(Insn::Integer { value: n_cols as i64, dest: reg_chng });
    b.emit_insn(
        Insn::Function {
            func: ScalarFunc::StatInit,
            args_start: reg_chng,
            arg_count: 1,
            dest: reg_accum,
            constant_mask: 0,
        },
    );
    // Scan the index; an empty index skips to the end.
    b.emit_insn(Insn::Rewind { cursor: idx_cursor, if_empty: lbl_empty });
    // First row: everything differs, update all previous-key registers.
    b.emit_insn(Insn::Integer { value: 0, dest: reg_chng });
    b.emit_insn(Insn::Goto { target: update_prev[0] });
    let r1 = b.resolve_label(lbl_loop);
    proof {
        assert(r1 is Ok);
    }
    b.emit_insn(Insn::Integer { value: 0, dest: reg_chng });
    let ghost bsetup = *b;
    proof {
        crate::builder::lemma_extends_refl(bsetup);
        assert(loop_local(bsetup.insns@, bsetup.insns@.len() as int, bsetup.labels@.len() as int));
        assert(loop_local(bsetup.insns@, b0.insns@.len() as int, b0.labels@.len() as int));
    }
    // Compare each key column with the previous row's value; at the
    // first difference jump to the update of that column onwards.
    let mut i: usize = 0;
    while i < n_cols
        invariant
            i <= n_cols,
            b.wf(),
            n_cols == index.columns@.len(),
            0 < n_cols,
            idx_cursor.0 < b.next_cursor,
            0 < reg_chng.0 < b.next_register,
            0 < reg_temp.0 < b.next_register,
            0 < prev.start,
            prev.count == n_cols,
            prev.start + n_cols <= b.next_register,
            update_prev@.len() == n_cols,
            forall|j: int|
                0 <= j < n_cols ==> (#[trigger] update_prev@[j]).0 < b.labels@.len(),
            extends(bsetup, *b),
            b.insns@.len() >= bsetup.insns@.len(),
            b.labels@ == bsetup.labels@,
            b.next_register == bsetup.next_register,
            b.next_cursor == bsetup.next_cursor,
            b.next_hash_table == bsetup.next_hash_table,
            b.cursors@ == bsetup.cursors@,
            b.nested == bsetup.nested,
            b.change_count_on == bsetup.change_count_on,
            loop_local(b.insns@, bsetup.insns@.len() as int, bsetup.labels@.len() as int),
            n_cols as i64 <= i64::MAX,
            lbl_empty.0 < bsetup.labels@.len() - n_cols - 2,
            lbl_stat_push.0 < bsetup.labels@.len() - n_cols,
            bsetup.labels@[lbl_empty.0 as int] is None,
            bsetup.labels@[lbl_stat_push.0 as int] is None,
            loop_local(bsetup.insns@, b0.insns@.len() as int, b0.labels@.len() as int),
        decreases n_cols - i,
    {
        let ghost bprev = *b;
        b.emit_insn(Insn::Column { cursor: idx_cursor, column: i, dest: reg_temp });
        b.emit_insn(
            Insn::Ne {
                lhs: reg_temp,
                rhs: Reg(prev.start + i),
                target: update_prev[i],
                flags: CmpInsFlags { null_eq: true, jump_if_null: false },
                collation: index.columns[i].collation,
            },
        );
        if i + 1 < n_cols {
            b.emit_insn(Insn::Integer { value: (i + 1) as i64, dest: reg_chng });
        }
        proof {
            assert(b.insns@.subrange(0, bprev.insns@.len() as int) =~= bprev.insns@);
            lemma_extends_trans(bsetup, bprev, *b);
            assert forall|j: int|
                bsetup.insns@.len() <= j < b.insns@.len() implies ((is_loop_entry(
                #[trigger] b.insns@[j],
            ) ==> crate::insn::loop_entry_target(b.insns@[j]).0 >= bsetup.labels@.len()) && (
            is_loop_step(b.insns@[j]) ==> crate::insn::loop_step_target(b.insns@[j]).0
                >= bsetup.labels@.len())) by {
                if j < bprev.insns@.len() {
                    assert(b.insns@[j] == bprev.insns@[j]);
                } else {
                    assert(!is_loop_entry(b.insns@[j]) && !is_loop_step(b.insns@[j]));
                }
            }
        }
        i = i + 1;
    }
    // The whole key repeats.
    b.emit_insn(Insn::Integer { value: n_cols as i64, dest: reg_chng });
    b.emit_insn(Insn::Goto { target: lbl_stat_push });
    // Update the previous-key registers from the change position on.
    let mut i2: usize = 0;
    while i2 < n_cols
        invariant
            i2 <= n_cols,
            b.wf(),
            n_cols == index.columns@.len(),
            0 < n_cols,
            idx_cursor.0 < b.next_cursor,
            0 < reg_accum.0,
            reg_accum.0 + 2 <= b.next_register,
            reg_chng.0 == reg_accum.0 + 1,
            0 < prev.start,
            prev.count == n_cols,
            prev.start + n_cols <= b.next_register,
            update_prev@.len() == n_cols,
            forall|j: int|
                0 <= j < n_cols ==> (#[trigger] update_prev@[j]).0 < b.labels@.len(),
            forall|j: int|
                0 <= j < n_cols ==> (#[trigger] update_prev@[j]).0 == bsetup.labels@.len() - n_cols
                    + j,
            extends(bsetup, *b),
            b.labels@.len() == bsetup.labels@.len(),
            forall|j: int|
                0 <= j < bsetup.labels@.len() - n_cols ==> b.labels@[j] == bsetup.labels@[j],
            forall|j: int|
                i2 <= j < n_cols ==> #[trigger] b.labels@[bsetup.labels@.len() - n_cols + j]
                    == bsetup.labels@[bsetup.labels@.len() - n_cols + j],
            forall|j: int|
                0 <= j < i2 ==> (#[trigger] b.labels@[bsetup.labels@.len() - n_cols + j]) is Some,
            b.next_register == bsetup.next_register,
            b.next_cursor == bsetup.next_cursor,
            b.next_hash_table == bsetup.next_hash_table,
            b.cursors@ == bsetup.cursors@,
            b.nested == bsetup.nested,
            b.change_count_on == bsetup.change_count_on,
            loop_local(b.insns@, bsetup.insns@.len() as int, bsetup.labels@.len() as int),
            b.insns@.len() >= bsetup.insns@.len(),
            forall|j: int|
                0 <= j < n_cols ==> (#[trigger] bsetup.labels@[bsetup.labels@.len() - n_cols
                    + j]) is None,
            lbl_empty.0 < bsetup.labels@.len() - n_cols - 2,
            lbl_stat_push.0 < bsetup.labels@.len() - n_cols,
            bsetup.labels@[lbl_empty.0 as int] is None,
            bsetup.labels@[lbl_stat_push.0 as int] is None,
            lbl_loop.0 == bsetup.labels@.len() - n_cols - 2,
            lbl_empty.0 == bsetup.labels@.len() - n_cols - 3,
            lbl_stat_push.0 == bsetup.labels@.len() - n_cols - 1,
            bsetup.labels@[lbl_loop.0 as int] is Some,
            bsetup.labels@.len() - n_cols - 3 == b0.labels@.len(),
            forall|j: int| 0 <= j < b0.labels@.len() ==> bsetup.labels@[j] == b0.labels@[j],
            loop_local(bsetup.insns@, b0.insns@.len() as int, b0.labels@.len() as int),
        decreases n_cols - i2,
    {
        let ghost bprev = *b;
        proof {
            assert(bprev.labels@[bsetup.labels@.len() - n_cols + i2] == bsetup.labels@[
                bsetup.labels@.len() - n_cols + i2]);
        }
        let rl = b.resolve_label(update_prev[i2]);
        proof {
            assert(rl is Ok);
            assert(b.labels@ == bprev.labels@.update(
                update_prev@[i2 as int].0 as int,
                Some(bprev.insns@.len() as usize),
            ));
        }
        b.emit_insn(Insn::Column { cursor: idx_cursor, column: i2, dest: Reg(prev.start + i2) });
        proof {
            assert forall|j: int| 0 <= j < i2 + 1 implies (#[trigger] b.labels@[
                bsetup.labels@.len() - n_cols + j]) is Some by {
                if j < i2 {
                    assert(bprev.labels@[bsetup.labels@.len() - n_cols + j] is Some);
                } else {
                    assert(update_prev@[i2 as int].0 == bsetup.labels@.len() - n_cols + i2);
                    assert(b.labels@[update_prev@[i2 as int].0 as int] is Some);
                }
            }
            assert(b.insns@.subrange(0, bprev.insns@.len() as int) =~= bprev.insns@);
            lemma_extends_trans(bsetup, bprev, *b);
            assert forall|j: int|
                bsetup.insns@.len() <= j < b.insns@.len() implies ((is_loop_entry(
                #[trigger] b.insns@[j],
            ) ==> crate::insn::loop_entry_target(b.insns@[j]).0 >= bsetup.labels@.len()) && (
            is_loop_step(b.insns@[j]) ==> crate::insn::loop_step_target(b.insns@[j]).0
                >= bsetup.labels@.len())) by {
                if j < bprev.insns@.len() {
                    assert(b.insns@[j] == bprev.insns@[j]);
                } else {
                    assert(!is_loop_entry(b.insns@[j]) && !is_loop_step(b.insns@[j]));
                }
            }
        }
        i2 = i2 + 1;
    }
    // Feed the change index to the accumulator and step the scan.
    let ghost bloop2 = *b;
    let r2 = b.resolve_label(lbl_stat_push);
    proof {
        assert(r2 is Ok);
    }
    b.emit_insn(
        Insn::Function {
            func: ScalarFunc::StatPush,
            args_start: reg_accum,
            arg_count: 2,
            dest: reg_accum,
            constant_mask: 0,
        },
    );
    b.emit_insn(Insn::Next { cursor: idx_cursor, if_next: lbl_loop });
    // Render the accumulator and insert the statistics row.
    let reg_stat = b.alloc_register();
    b.emit_insn(
        Insn::Function {
            func: ScalarFunc::StatGet,
            args_start: reg_accum,
            arg_count: 1,
            dest: reg_stat,
            constant_mask: 0,
        },
    );
    b.emit_insn(Insn::IsNull { reg: reg_stat, target: lbl_empty });
    let rec = b.alloc_registers(3);
    b.emit_insn(
        Insn::String8 { value: clone_string(table_name), dest: Reg(rec.start) },
    );
    b.emit_insn(
        Insn::String8 { value: clone_string(index.name.as_str()), dest: Reg(rec.start + 1) },
    );
    b.emit_insn(Insn::Copy { src: reg_stat, dest: Reg(rec.start + 2), count: 1 });
    let idx_record_reg = b.alloc_register();
    b.emit_insn(
        Insn::MakeRecord { start_reg: Reg(rec.start), count: 3, dest: idx_record_reg },
    );
    let idx_rowid_reg = b.alloc_register();
    b.emit_insn(Insn::NewRowId { cursor: stat_cursor, dest: idx_rowid_reg });
    b.emit_insn(
        Insn::Insert {
            cursor: stat_cursor,
            key_reg: idx_rowid_reg,
            record_reg: idx_record_reg,
            flags: crate::insn::InsertFlags { append: false },
            table_name: clone_string("sqlite_stat1"),
        },
    );
    let r3 = b.resolve_label(lbl_empty);
    proof {
        assert(r3 is Ok);
        assert forall|j: int|
            b0.labels@.len() <= j < b.labels@.len() implies (#[trigger] b.labels@[j])
            is Some by {
            if j == lbl_empty.0 {
            } else if j == lbl_loop.0 {
                assert(b.labels@[j] == bsetup.labels@[j]);
            } else if j == lbl_stat_push.0 {
            } else {
                assert(bloop2.labels@[bsetup.labels@.len() - n_cols + (j - (
                bsetup.labels@.len() - n_cols))] is Some);
                assert(bloop2.labels@[j] is Some);
                assert(b.labels@[j] == bloop2.labels@[j]);
            }
        }
        lemma_index_stats_block(b0, bsetup, *b, n_cols as int);
        // Content witnesses: the opened index scan sits in the setup
        // prefix, the accumulator calls and the final insert in the
        // tail just emitted.
        let k0 = b0.insns@.len() as int;
        let m = bloop2.insns@.len() as int;
        assert(bloop2.insns@[k0] == bloop2.insns@.subrange(0, bsetup.insns@.len() as int)[k0]);
        assert(bloop2.insns@[k0 + 2] == bloop2.insns@.subrange(
            0,
            bsetup.insns@.len() as int,
        )[k0 + 2]);
        assert(bloop2.insns@[k0 + 3] == bloop2.insns@.subrange(
            0,
            bsetup.insns@.len() as int,
        )[k0 + 3]);
        assert(b.insns@[k0] == (Insn::OpenRead {
            cursor: idx_cursor,
            root_page: index.root_page,
            db: 0,
        }));
        assert(b.insns@[k0 + 2] matches Insn::Function { func: ScalarFunc::StatInit, .. });
        assert(b.insns@[k0 + 3] matches Insn::Rewind { cursor, .. } && cursor == idx_cursor);
        assert(b.insns@[m] matches Insn::Function { func: ScalarFunc::StatPush, .. });
        assert(b.insns@[m + 1] matches Insn::Next { cursor, .. } && cursor == idx_cursor);
        assert(b.insns@[m + 2] matches Insn::Function { func: ScalarFunc::StatGet, .. });
        assert(b.insns@[m + 5] matches Insn::String8 { value, .. } && value@ == index.name@);
        assert(b.insns@[m + 9] matches Insn::Insert { cursor, table_name, .. } && cursor
            == stat_cursor && table_name@ == stat_table_name());
        assert(idx_cursor == Cursor(b0.next_cursor));
    }
    n_cols
}

/// Assembles the block shape of one index-statistics emission: every
/// label allocated after the base is bound, labels below the base are
/// untouched, and every loop entry or step targets a fresh label.
proof fn lemma_index_stats_block(
    b0: ProgramBuilder,
    bsetup: ProgramBuilder,
    b2: ProgramBuilder,
    n_cols: int,
)
    requires
        b0.wf(),
        b2.wf(),
        0 < n_cols,
        extends(b0, bsetup),
        bsetup.labels@.len() == b0.labels@.len() + 3 + n_cols,
        forall|j: int| 0 <= j < b0.labels@.len() ==> bsetup.labels@[j] == b0.labels@[j],
        bsetup.insns@.len() >= b0.insns@.len(),
        extends(bsetup, b2),
        forall|j: int|
            b0.labels@.len() <= j < b2.labels@.len() ==> (#[trigger] b2.labels@[j]) is Some,
        forall|j: int| 0 <= j < b0.labels@.len() ==> b2.labels@[j] == b0.labels@[j],
        loop_local(b2.insns@, bsetup.insns@.len() as int, b0.labels@.len() as int),
        loop_local(bsetup.insns@, b0.insns@.len() as int, b0.labels@.len() as int),
    ensures
        block_emitted(b0, b2),
{
    lemma_extends_trans(b0, bsetup, b2);
    assert forall|j: int|
        b0.insns@.len() <= j < b2.insns@.len() implies ((is_loop_entry(#[trigger] b2.insns@[j])
        ==> crate::insn::loop_entry_target(b2.insns@[j]).0 >= b0.labels@.len()) && (is_loop_step(
        b2.insns@[j],
    ) ==> crate::insn::loop_step_target(b2.insns@[j]).0 >= b0.labels@.len())) by {
        if j < bsetup.insns@.len() {
            assert(b2.insns@[j] == b2.insns@.subrange(0, bsetup.insns@.len() as int)[j]);
            assert(b2.insns@[j] == bsetup.insns@[j]);
        }
    }
}

/// Append one instruction while threading the block bookkeeping
/// relative to an anchor state: the instruction stream since the anchor
/// stays loop-local to the anchor's label base.
fn emit_tracked(b: &mut ProgramBuilder, instruction: Insn, Ghost(anchor): Ghost<ProgramBuilder>)
    requires
        old(b).wf(),
        crate::insn::insn_wf(
            instruction,
            old(b).next_register as int,
            old(b).next_cursor as int,
            old(b).labels@.len() as int,
        ),
        extends(anchor, *old(b)),
        loop_local(old(b).insns@, anchor.insns@.len() as int, anchor.labels@.len() as int),
        is_loop_entry(instruction) ==> crate::insn::loop_entry_target(instruction).0
            >= anchor.labels@.len(),
        is_loop_step(instruction) ==> crate::insn::loop_step_target(instruction).0
            >= anchor.labels@.len(),
    ensures
        final(b).wf(),
        crate::emitter::emitted(*old(b), *final(b), instruction),
        extends(anchor, *final(b)),
        loop_local(final(b).insns@, anchor.insns@.len() as int, anchor.labels@.len() as int),
{
    let ghost prev = *b;
    b.emit_insn(instruction);
    proof {
        crate::builder::lemma_extends_trans(anchor, prev, *b);
        assert forall|j: int|
            anchor.insns@.len() <= j < b.insns@.len() implies ((is_loop_entry(
            #[trigger] b.insns@[j],
        ) ==> crate::insn::loop_entry_target(b.insns@[j]).0 >= anchor.labels@.len()) && (
        is_loop_step(b.insns@[j]) ==> crate::insn::loop_step_target(b.insns@[j]).0
            >= anchor.labels@.len())) by {
            if j < prev.insns@.len() {
                assert(b.insns@[j] == prev.insns@[j]);
            } else {
                assert(b.insns@[j] == instruction);
            }
        }
    }
}

/// Emit the per-table statistics maintenance: delete the prior
/// statistics rows for this table (and, when given, only those of one
/// index), then count the table's rows exactly and, when the count is
/// not zero, insert one `(table, NULL, count)` row.
#[verifier::rlimit(100)]
pub fn emit_table_stats(
    b: &mut ProgramBuilder,
    stat_cursor: Cursor,
    table_name: &str,
    table_root: usize,
    index_name: Option<&String>,
) -> (r: ())
    requires
        old(b).wf(),
        stat_cursor.0 < old(b).next_cursor,
        old(b).next_register + 16 <= usize::MAX,
        old(b).labels@.len() + 4 <= u32::MAX,
        old(b).next_cursor + 1 <= usize::MAX,
    ensures
        final(b).wf(),
        block_emitted(*old(b), *final(b)),
        final(b).next_register <= old(b).next_register + 16,
        final(b).labels@.len() <= old(b).labels@.len() + 4,
        final(b).next_cursor <= old(b).next_cursor + 1,
        final(b).nested == old(b).nested,
        table_stats_emitted(
            *final(b),
            old(b).insns@.len() as int,
            old(b).labels@.len() as int,
            old(b).next_register as int,
            old(b).next_cursor as int,
            stat_cursor,
            table_name@,
            table_root,
            match index_name {
                Some(n) => Some(n@),
                None => None,
            },
        ),
{
    broadcast use crate::builder::lemma_extends_trans_auto;

    let ghost b0 = *b;
    proof {
        crate::builder::lemma_extends_refl(b0);
    }
    // Scan the statistics catalog and delete the rows of this target.
    let rewind_done = b.allocate_label();
    let loop_start = b.allocate_label();
    let skip = b.allocate_label();
    let after_insert = b.allocate_label();
    let tbl_col_reg = b.alloc_register();
    let target_tbl_reg = b.alloc_register();
    let idx_col_reg = b.alloc_register();
    let target_idx_reg = b.alloc_register();
    let row6 = b.alloc_registers(6);
    let rowid_reg = Reg(row6.start);
    let tablename_reg = Reg(row6.start + 1);
    let indexname_reg = Reg(row6.start + 2);
    let stat_text_reg = Reg(row6.start + 3);
    let record_reg = Reg(row6.start + 4);
    let count_reg = Reg(row6.start + 5);
    emit_tracked(b, Insn::Rewind { cursor: stat_cursor, if_empty: rewind_done }, Ghost(b0));
    let r_start = b.resolve_label(loop_start);
    proof {
        assert(r_start is Ok);
    }
    emit_tracked(
        b,
        Insn::Column { cursor: stat_cursor, column: 0, dest: tbl_col_reg },
        Ghost(b0),
    );
    emit_tracked(
        b,
        Insn::String8 { value: clone_string(table_name), dest: target_tbl_reg },
        Ghost(b0),
    );
    emit_tracked(
        b,
        Insn::Ne {
            lhs: tbl_col_reg,
            rhs: target_tbl_reg,
            target: skip,
            flags: CmpInsFlags { null_eq: false, jump_if_null: false },
            collation: None,
        },
        Ghost(b0),
    );
    match index_name {
        Some(idx) => {
            emit_tracked(
                b,
                Insn::Column { cursor: stat_cursor, column: 1, dest: idx_col_reg },
                Ghost(b0),
            );
            emit_tracked(
                b,
                Insn::String8 { value: clone_string(idx.as_str()), dest: target_idx_reg },
                Ghost(b0),
            );
            emit_tracked(
                b,
                Insn::Ne {
                    lhs: idx_col_reg,
                    rhs: target_idx_reg,
                    target: skip,
                    flags: CmpInsFlags { null_eq: false, jump_if_null: false },
                    collation: None,
                },
                Ghost(b0),
            );
        },
        None => {},
    }
    emit_tracked(b, Insn::RowId { cursor: stat_cursor, dest: rowid_reg }, Ghost(b0));
    emit_tracked(
        b,
        Insn::Delete { cursor: stat_cursor, table_name: clone_string("sqlite_stat1") },
        Ghost(b0),
    );
    emit_tracked(b, Insn::Next { cursor: stat_cursor, if_next: loop_start }, Ghost(b0));
    let r_skip = b.resolve_label(skip);
    proof {
        assert(r_skip is Ok);
    }
    emit_tracked(b, Insn::Next { cursor: stat_cursor, if_next: loop_start }, Ghost(b0));
    let r_done = b.resolve_label(rewind_done);
    proof {
        assert(r_done is Ok);
    }
    // Count the table's rows and insert the table-level statistics row
    // when the count is not zero.
    let target_cursor = b.alloc_cursor_with_kind(
        CursorKind::BTreeTable { root_page: table_root, table_name: clone_string(table_name) },
    );
    emit_tracked(
        b,
        Insn::OpenRead { cursor: target_cursor, root_page: table_root, db: 0 },
        Ghost(b0),
    );
    emit_tracked(
        b,
        Insn::String8 { value: clone_string(table_name), dest: tablename_reg },
        Ghost(b0),
    );
    emit_tracked(
        b,
        Insn::Count { cursor: target_cursor, dest: count_reg, exact: true },
        Ghost(b0),
    );
    emit_tracked(
        b,
        Insn::IfNot { reg: count_reg, target: after_insert, jump_if_null: false },
        Ghost(b0),
    );
    emit_tracked(b, Insn::Null { dest: indexname_reg, count: 1 }, Ghost(b0));
    emit_tracked(b, Insn::Copy { src: count_reg, dest: stat_text_reg, count: 1 }, Ghost(b0));
    emit_tracked(b, Insn::Cast { reg: stat_text_reg, affinity: Affinity::Text }, Ghost(b0));
    emit_tracked(
        b,
        Insn::MakeRecord { start_reg: tablename_reg, count: 3, dest: record_reg },
        Ghost(b0),
    );
    emit_tracked(b, Insn::NewRowId { cursor: stat_cursor, dest: rowid_reg }, Ghost(b0));
    emit_tracked(
        b,
        Insn::Insert {
            cursor: stat_cursor,
            key_reg: rowid_reg,
            record_reg,
            flags: crate::insn::InsertFlags { append: false },
            table_name: clone_string("sqlite_stat1"),
        },
        Ghost(b0),
    );
    let r_after = b.resolve_label(after_insert);
    proof {
        assert(r_after is Ok);
        assert forall|j: int| 0 <= j < b0.labels@.len() implies b.labels@[j] == b0.labels@[
            j] by {}
        assert forall|j: int|
            b0.labels@.len() <= j < b.labels@.len() implies (#[trigger] b.labels@[j])
            is Some by {
            assert(j == rewind_done.0 || j == loop_start.0 || j == skip.0 || j
                == after_insert.0);
        }
    }
}

/// The total key width of the indexes from the given position on.
pub open spec fn total_index_cols(ixs: Seq<Index>, from: int) -> nat
    decreases ixs.len() - from,
{
    if from < 0 || from >= ixs.len() {
        0
    } else {
        ixs[from].columns@.len() + total_index_cols(ixs, from + 1)
    }
}

/// The builder resources one index-statistics emission may consume.
pub open spec fn per_index_budget(s: Schema) -> nat {
    32 + 2 * total_index_cols(s.indexes@, 0)
}

/// The builder resources one table's statistics maintenance may
/// consume, its indexes included.
pub open spec fn per_table_budget(s: Schema) -> nat {
    64 + s.indexes@.len() * per_index_budget(s)
}

/// The builder resources a whole statistics collection may consume.
pub open spec fn analyze_budget(s: Schema) -> nat {
    64 + (s.tables@.len() + 1) * per_table_budget(s)
}

/// One index's key width is bounded by the total key width.
pub proof fn lemma_index_cols_le_total(ixs: Seq<Index>, from: int, ip: int)
    requires
        0 <= from <= ip < ixs.len(),
    ensures
        ixs[ip].columns@.len() <= total_index_cols(ixs, from),
    decreases ip - from,
{
    if from < ip {
        lemma_index_cols_le_total(ixs, from + 1, ip);
    }
}

/// A strictly increasing sequence of positions below a bound has at
/// most that many entries.
pub proof fn lemma_increasing_positions_len(poss: Seq<usize>, n: int)
    requires
        forall|i: int, j: int| 0 <= i < j < poss.len() ==> poss[i] < poss[j],
        forall|i: int| 0 <= i < poss.len() ==> (#[trigger] poss[i]) < n,
        0 <= n,
    ensures
        poss.len() <= n,
    decreases poss.len(),
{
    if poss.len() > 0 {
        let last = poss[poss.len() - 1] as int;
        let prefix = poss.drop_last();
        assert(forall|i: int| 0 <= i < prefix.len() ==> prefix[i] == poss[i]);
        assert(forall|i: int| 0 <= i < prefix.len() ==> (#[trigger] prefix[i]) < last);
        lemma_increasing_positions_len(prefix, last);
    }
}

/// The statistics maintenance of one target table is present in the
/// suffix from the given position on: the table's name is loaded for
/// the catalog comparison and the statistics row, prior rows are
/// deleted from the statistics catalog, the table is opened on its
/// root, and its rows are counted exactly.
pub open spec fn table_target_emitted(
    from: int,
    insns: Seq<Insn>,
    tname: Seq<char>,
    troot: usize,
) -> bool {
    &&& (exists|j: int|
        from <= j < insns.len() && ((#[trigger] insns[j]) matches Insn::String8 {
            value,
            ..
        } && value@ == tname))
    &&& (exists|j: int|
        from <= j < insns.len() && ((#[trigger] insns[j]) matches Insn::OpenRead {
            root_page,
            ..
        } && root_page == troot))
    &&& (exists|j: int|
        from <= j < insns.len() && ((#[trigger] insns[j]) matches Insn::Count {
            exact,
            ..
        } && exact == true))
    &&& (exists|j: int|
        from <= j < insns.len() && ((#[trigger] insns[j]) matches Insn::Delete {
            table_name,
            ..
        } && table_name@ == stat_table_name()))
}

/// Present target maintenance survives any further extension.
pub proof fn lemma_table_target_extends(
    from: int,
    a: ProgramBuilder,
    b: ProgramBuilder,
    tname: Seq<char>,
    troot: usize,
)
    requires
        table_target_emitted(from, a.insns@, tname, troot),
        extends(a, b),
        0 <= from,
    ensures
        table_target_emitted(from, b.insns@, tname, troot),
{
    let j1 = choose|j: int|
        from <= j < a.insns@.len() && ((#[trigger] a.insns@[j]) matches Insn::String8 {
            value,
            ..
        } && value@ == tname);
    assert(b.insns@[j1] == b.insns@.subrange(0, a.insns@.len() as int)[j1]);
    let j2 = choose|j: int|
        from <= j < a.insns@.len() && ((#[trigger] a.insns@[j]) matches Insn::OpenRead {
            root_page,
            ..
        } && root_page == troot);
    assert(b.insns@[j2] == b.insns@.subrange(0, a.insns@.len() as int)[j2]);
    let j3 = choose|j: int|
        from <= j < a.insns@.len() && ((#[trigger] a.insns@[j]) matches Insn::Count {
            exact,
            ..
        } && exact == true);
    assert(b.insns@[j3] == b.insns@.subrange(0, a.insns@.len() as int)[j3]);
    let j4 = choose|j: int|
        from <= j < a.insns@.len() && ((#[trigger] a.insns@[j]) matches Insn::Delete {
            table_name,
            ..
        } && table_name@ == stat_table_name());
    assert(b.insns@[j4] == b.insns@.subrange(0, a.insns@.len() as int)[j4]);
}

/// Whether an ANALYZE target names the whole schema rather than one
/// table or index.
pub open spec fn analyze_targets_whole(t: crate::ast::QualifiedName) -> bool {
    crate::text::nocase_seq_eq(t.name@, "main"@) || (t.db_name matches Some(d)
        && crate::text::nocase_seq_eq(d@, "main"@))
}

/// Whether statistics collection over every unreserved table can
/// succeed: each such B-tree table carries a row identifier, and either
/// the statistics catalog already exists or the schema catalog does, so
/// the statistics catalog can be created.
pub open spec fn analyze_all_ok(s: Schema) -> bool {
    &&& forall|i: int|
        0 <= i < s.tables@.len() ==> match #[trigger] s.tables@[i] {
            Table::BTree(bt) => !crate::text::is_prefix(crate::schema::reserved_prefix(), bt.name@)
                ==> bt.has_rowid,
            Table::Virtual(_) => true,
        }
    &&& (crate::schema::has_btree_table_nocase(s, stat_table_name())
        || crate::schema::has_btree_table_nocase(s, crate::schema::catalog_table_name()))
}

/// Translate ANALYZE: collect statistics for every unreserved table, or
/// for the one table or index the target names.
///
/// Every target is validated before anything is emitted: a target that
/// names neither a table nor an index, or a target table without a row
/// identifier, aborts the translation with nothing appended.
#[verifier::rlimit(100)]
pub fn translate_analyze(
    target: Option<&crate::ast::QualifiedName>,
    schema: &Schema,
    program: ProgramBuilder,
) -> (r: Result<ProgramBuilder, TranslateError>)
    requires
        program.wf(),
        program.next_register + analyze_budget(*schema) <= usize::MAX,
        program.labels@.len() + analyze_budget(*schema) <= u32::MAX,
        program.next_cursor + analyze_budget(*schema) <= usize::MAX,
        schema.schema_version + 1 <= i32::MAX,
    ensures
        r matches Ok(b2) ==> block_emitted(program, b2),
        r matches Err(e) ==> (e is NoSuchTableOrIndex || e is AnalyzeWithoutRowId || e
            is NoSuchTable),
        r matches Err(e) ==> (e matches TranslateError::NoSuchTable(n) ==> n@
            == crate::schema::catalog_table_name()),
        target is None && analyze_all_ok(*schema) ==> r is Ok,
        r matches Ok(b2) ==> (target matches Some(t) ==> ((!analyze_targets_whole(*t)
            && crate::schema::has_btree_table_nocase(*schema, t.name@)) ==> (exists|ti: int|
            0 <= ti < schema.tables@.len() && match #[trigger] schema.tables@[ti] {
                Table::BTree(bt) => crate::text::nocase_seq_eq(bt.name@, t.name@)
                    && table_target_emitted(
                    program.insns@.len() as int,
                    b2.insns@,
                    bt.name@,
                    bt.root_page,
                ),
                Table::Virtual(_) => false,
            }))),
        r matches Ok(b2) ==> (target is None ==> (forall|ti: int|
            0 <= ti < schema.tables@.len() ==> match #[trigger] schema.tables@[ti] {
                Table::BTree(bt) => !crate::text::is_prefix(
                    crate::schema::reserved_prefix(),
                    bt.name@,
                ) ==> table_target_emitted(
                    program.insns@.len() as int,
                    b2.insns@,
                    bt.name@,
                    bt.root_page,
                ),
                Table::Virtual(_) => true,
            })),
{
    broadcast use crate::builder::lemma_extends_trans_auto;
    broadcast use crate::control::lemma_block_emitted_trans_auto;

    // Collect the targets: pairs of a table position and, for an index
    // target, the index position.
    let mut jobs: Vec<(usize, Option<usize>)> = Vec::new();
    let mut whole_schema = false;
    match target {
        None => {
            whole_schema = true;
        },
        Some(t) => {
            let db_is_main = match &t.db_name {
                Some(d) => crate::text::eq_ignore_case(d.as_str(), "main"),
                None => false,
            };
            if crate::text::eq_ignore_case(t.name.as_str(), "main") || db_is_main {
                whole_schema = true;
            } else {
                match schema.find_btree_table(t.name.as_str()) {
                    Some(tp) => {
                        jobs.push((tp, None));
                    },
                    None => {
                        match schema.find_index(t.name.as_str()) {
                            Some(ip) => {
                                let tname = &schema.indexes[ip].table_name;
                                match schema.find_btree_table(tname.as_str()) {
                                    Some(tp) => {
                                        jobs.push((tp, Some(ip)));
                                    },
                                    None => {
                                        return Err(
                                            TranslateError::NoSuchTableOrIndex(
                                                clone_string(t.name.as_str()),
                                            ),
                                        );
                                    },
                                }
                            },
                            None => {
                                return Err(
                                    TranslateError::NoSuchTableOrIndex(
                                        clone_string(t.name.as_str()),
                                    ),
                                );
                            },
                        }
                    },
                }
            }
        },
    }
    if whole_schema {
        let nt = schema.tables.len();
        let mut i: usize = 0;
        while i < nt
            invariant
                i <= nt,
                nt == schema.tables@.len(),
                forall|j: int|
                    0 <= j < jobs@.len() ==> (#[trigger] jobs@[j]).0 < i && jobs@[j].1 is None,
                forall|j: int|
                    0 <= j < jobs@.len() ==> (schema.tables@[(#[trigger] jobs@[j]).0 as int]
                        matches Table::BTree(bt) && !crate::text::is_prefix(
                        crate::schema::reserved_prefix(),
                        bt.name@,
                    )),
                forall|j1: int, j2: int|
                    0 <= j1 < j2 < jobs@.len() ==> jobs@[j1].0 < jobs@[j2].0,
                forall|ti: int|
                    0 <= ti < i && (match #[trigger] schema.tables@[ti] {
                        Table::BTree(bt) => !crate::text::is_prefix(
                            crate::schema::reserved_prefix(),
                            bt.name@,
                        ),
                        Table::Virtual(_) => false,
                    }) ==> (exists|j: int|
                        0 <= j < jobs@.len() && (#[trigger] jobs@[j]).0 == ti),
            decreases nt - i,
        {
            match &schema.tables[i] {
                Table::BTree(bt) => {
                    if !crate::schema::is_reserved_table_name(bt.name.as_str()) {
                        let ghost jobs0 = jobs@;
                        jobs.push((i, None));
                        proof {
                            assert forall|ti: int|
                                0 <= ti < i + 1 && (match #[trigger] schema.tables@[ti] {
                                    Table::BTree(bt2) => !crate::text::is_prefix(
                                        crate::schema::reserved_prefix(),
                                        bt2.name@,
                                    ),
                                    Table::Virtual(_) => false,
                                }) implies (exists|j: int|
                                0 <= j < jobs@.len() && (#[trigger] jobs@[j]).0 == ti) by {
                                if ti < i {
                                    let w = choose|j: int|
                                        0 <= j < jobs0.len() && (#[trigger] jobs0[j]).0 == ti;
                                    assert(jobs@[w].0 == ti);
                                } else {
                                    assert(jobs@[jobs@.len() - 1].0 == ti);
                                }
                            }
                        }
                    }
                },
                Table::Virtual(_) => {},
            }
            i = i + 1;
        }
    }
    if jobs.len() == 0 {
        proof {
            lemma_block_emitted_refl(program);
        }
        return Ok(program);
    }
    // Validate up front: every target table must carry a row identifier.
    let mut v: usize = 0;
    while v < jobs.len()
        invariant
            v <= jobs@.len(),
            forall|j: int|
                0 <= j < jobs@.len() ==> (#[trigger] jobs@[j]).0 < schema.tables@.len(),
            forall|j: int|
                0 <= j < jobs@.len() ==> (schema.tables@[(#[trigger] jobs@[j]).0 as int]
                    matches Table::BTree(bt)),
            whole_schema ==> forall|j: int|
                0 <= j < jobs@.len() ==> (schema.tables@[(#[trigger] jobs@[j]).0 as int]
                    matches Table::BTree(bt) && !crate::text::is_prefix(
                    crate::schema::reserved_prefix(),
                    bt.name@,
                )),
            target is None ==> whole_schema,
            forall|j: int|
                0 <= j < jobs@.len() ==> ((#[trigger] jobs@[j]).1 matches Some(ip) ==> ip
                    < schema.indexes@.len()),
            forall|j1: int, j2: int| 0 <= j1 < j2 < jobs@.len() ==> jobs@[j1].0 < jobs@[j2].0,
            forall|j: int|
                0 <= j < v ==> (schema.tables@[(#[trigger] jobs@[j]).0 as int] matches
                    Table::BTree(bt) && bt.has_rowid),
            target is None ==> (forall|ti: int|
                0 <= ti < schema.tables@.len() && (match #[trigger] schema.tables@[ti] {
                    Table::BTree(bt) => !crate::text::is_prefix(
                        crate::schema::reserved_prefix(),
                        bt.name@,
                    ),
                    Table::Virtual(_) => false,
                }) ==> (exists|j: int|
                    0 <= j < jobs@.len() && (#[trigger] jobs@[j]).0 == ti)),
            match target {
                Some(t) => (!analyze_targets_whole(*t) && crate::schema::has_btree_table_nocase(
                    *schema,
                    t.name@,
                )) ==> (jobs@.len() >= 1 && (schema.tables@[(jobs@[0]).0 as int] matches
                    Table::BTree(bt) && crate::text::nocase_seq_eq(bt.name@, t.name@))),
                None => true,
            },
        decreases jobs@.len() - v,
    {
        let tp = jobs[v].0;
        match &schema.tables[tp] {
            Table::BTree(bt) => {
                if !bt.has_rowid {
                    proof {
                        if target is None && analyze_all_ok(*schema) {
                            assert(schema.tables@[tp as int] matches Table::BTree(btw)
                                && !crate::text::is_prefix(
                                crate::schema::reserved_prefix(),
                                btw.name@,
                            ));
                            assert(false);
                        }
                    }
                    return Err(TranslateError::AnalyzeWithoutRowId(clone_string(bt.name.as_str())));
                }
            },
            Table::Virtual(_) => {
                proof {
                    assert(false);
                }
            },
        }
        v = v + 1;
    }
    // Emission.
    let ghost b0 = program;
    let mut b = program;
    proof {
        crate::builder::lemma_extends_refl(b0);
    }
    let null_reg = b.alloc_register();
    emit_tracked(&mut b, Insn::Null { dest: null_reg, count: 1 }, Ghost(b0));
    // Find or create the statistics catalog.
    let stat_root: RootPage;
    match schema.find_btree_table("sqlite_stat1") {
        Some(sp) => {
            match &schema.tables[sp] {
                Table::BTree(sbt) => {
                    stat_root = RootPage::Page(sbt.root_page);
                },
                Table::Virtual(_) => {
                    proof {
                        assert(false);
                    }
                    stat_root = RootPage::Page(0);
                },
            }
        },
        None => {
            match schema.find_btree_table("sqlite_schema") {
                None => {
                    return Err(TranslateError::NoSuchTable(clone_string("sqlite_schema")));
                },
                Some(_) => {},
            }
            let table_root_reg = b.alloc_register();
            emit_tracked(
                &mut b,
                Insn::CreateBtree {
                    db: 0,
                    root: table_root_reg,
                    flags: crate::insn::CreateBTreeFlags { is_table: true },
                },
                Ghost(b0),
            );
            let schema_cursor = b.alloc_cursor_with_kind(
                CursorKind::BTreeTable { root_page: 1, table_name: clone_string("sqlite_schema") },
            );
            emit_tracked(
                &mut b,
                Insn::OpenWrite { cursor: schema_cursor, root_page: RootPage::Page(1), db: 0 },
                Ghost(b0),
            );
            // The catalog entry row: type, name, tbl_name, rootpage, sql.
            let entry = b.alloc_registers(5);
            emit_tracked(
                &mut b,
                Insn::String8 { value: clone_string("table"), dest: Reg(entry.start) },
                Ghost(b0),
            );
            emit_tracked(
                &mut b,
                Insn::String8 { value: clone_string("sqlite_stat1"), dest: Reg(entry.start + 1) },
                Ghost(b0),
            );
            emit_tracked(
                &mut b,
                Insn::String8 { value: clone_string("sqlite_stat1"), dest: Reg(entry.start + 2) },
                Ghost(b0),
            );
            emit_tracked(
                &mut b,
                Insn::SCopy { src: table_root_reg, dest: Reg(entry.start + 3) },
                Ghost(b0),
            );
            emit_tracked(
                &mut b,
                Insn::String8 {
                    value: clone_string("CREATE TABLE sqlite_stat1(tbl,idx,stat)"),
                    dest: Reg(entry.start + 4),
                },
                Ghost(b0),
            );
            let entry_record = b.alloc_register();
            emit_tracked(
                &mut b,
                Insn::MakeRecord { start_reg: Reg(entry.start), count: 5, dest: entry_record },
                Ghost(b0),
            );
            let entry_rowid = b.alloc_register();
            emit_tracked(
                &mut b,
                Insn::NewRowId { cursor: schema_cursor, dest: entry_rowid },
                Ghost(b0),
            );
            emit_tracked(
                &mut b,
                Insn::Insert {
                    cursor: schema_cursor,
                    key_reg: entry_rowid,
                    record_reg: entry_record,
                    flags: crate::insn::InsertFlags { append: false },
                    table_name: clone_string("sqlite_schema"),
                },
                Ghost(b0),
            );
            emit_tracked(
                &mut b,
                Insn::ParseSchema {
                    db: 0,
                    where_clause: Some(
                        clone_string("tbl_name = 'sqlite_stat1' AND type != 'trigger'"),
                    ),
                },
                Ghost(b0),
            );
            let cookie_value = schema.schema_version as i32 + 1;
            emit_tracked(
                &mut b,
                Insn::SetCookie {
                    db: 0,
                    cookie: crate::insn::Cookie::SchemaVersion,
                    value: cookie_value,
                    p5: 0,
                },
                Ghost(b0),
            );
            stat_root = RootPage::FromRegister(table_root_reg);
        },
    }
    let stat_cursor = b.alloc_cursor_with_kind(
        CursorKind::BTreeTable { root_page: 0, table_name: clone_string("sqlite_stat1") },
    );
    emit_tracked(
        &mut b,
        Insn::OpenWrite { cursor: stat_cursor, root_page: stat_root, db: 0 },
        Ghost(b0),
    );
    let ghost bsetup = b;
    proof {
        assert(block_emitted(b0, bsetup)) by {
            assert(bsetup.labels@ == b0.labels@);
        }
        lemma_block_emitted_refl(bsetup);
        assert(bsetup.next_register <= b0.next_register + 16);
        assert(bsetup.next_cursor <= b0.next_cursor + 2);
    }
    // Emit each target's statistics maintenance: the deletion of prior
    // rows and the table-level row, then the per-index statistics.
    let njobs = jobs.len();
    proof {
        lemma_increasing_positions_first(jobs@, schema.tables@.len() as int);
        assert(njobs <= schema.tables@.len());
        assert((njobs + 1) * per_table_budget(*schema) <= (schema.tables@.len() + 1)
            * per_table_budget(*schema)) by (nonlinear_arith)
            requires
                njobs <= schema.tables@.len(),
                0 <= per_table_budget(*schema),
        ;
    }
    let mut t: usize = 0;
    while t < njobs
        invariant
            t <= njobs,
            njobs == jobs@.len(),
            njobs <= schema.tables@.len(),
            b.wf(),
            block_emitted(bsetup, b),
            stat_cursor.0 < bsetup.next_cursor,
            bsetup.next_cursor <= b.next_cursor,
            forall|j: int|
                0 <= j < jobs@.len() ==> (#[trigger] jobs@[j]).0 < schema.tables@.len(),
            forall|j: int|
                0 <= j < jobs@.len() ==> (schema.tables@[(#[trigger] jobs@[j]).0 as int]
                    matches Table::BTree(bt) && bt.has_rowid),
            forall|j: int|
                0 <= j < jobs@.len() ==> ((#[trigger] jobs@[j]).1 matches Some(ip) ==> ip
                    < schema.indexes@.len()),
            forall|j: int|
                0 <= j < t ==> (match schema.tables@[(#[trigger] jobs@[j]).0 as int] {
                    Table::BTree(bt) => table_target_emitted(
                        b0.insns@.len() as int,
                        b.insns@,
                        bt.name@,
                        bt.root_page,
                    ),
                    Table::Virtual(_) => false,
                }),
            target is None ==> (forall|ti: int|
                0 <= ti < schema.tables@.len() && (match #[trigger] schema.tables@[ti] {
                    Table::BTree(bt) => !crate::text::is_prefix(
                        crate::schema::reserved_prefix(),
                        bt.name@,
                    ),
                    Table::Virtual(_) => false,
                }) ==> (exists|j: int|
                    0 <= j < jobs@.len() && (#[trigger] jobs@[j]).0 == ti)),
            match target {
                Some(t) => (!analyze_targets_whole(*t) && crate::schema::has_btree_table_nocase(
                    *schema,
                    t.name@,
                )) ==> (jobs@.len() >= 1 && (schema.tables@[(jobs@[0]).0 as int] matches
                    Table::BTree(bt) && crate::text::nocase_seq_eq(bt.name@, t.name@))),
                None => true,
            },
            block_emitted(b0, bsetup),
            b.next_register <= bsetup.next_register + t * per_table_budget(*schema),
            b.labels@.len() <= bsetup.labels@.len() + t * per_table_budget(*schema),
            b.next_cursor <= bsetup.next_cursor + t * per_table_budget(*schema),
            bsetup.next_register + (njobs + 1) * per_table_budget(*schema) + 16 <= usize::MAX,
            bsetup.labels@.len() + (njobs + 1) * per_table_budget(*schema) + 16 <= u32::MAX,
            bsetup.next_cursor + (njobs + 1) * per_table_budget(*schema) + 16 <= usize::MAX,
        decreases njobs - t,
    {
        let ghost bt_start = b;
        proof {
            assert((t + 1) * per_table_budget(*schema) == t * per_table_budget(*schema)
                + per_table_budget(*schema)) by (nonlinear_arith);
            assert((njobs + 1) * per_table_budget(*schema) >= (t + 1) * per_table_budget(
                *schema,
            )) by (nonlinear_arith)
                requires
                    t < njobs,
                    0 <= per_table_budget(*schema),
            ;
        }
        let (tp, idx_opt) = (jobs[t].0, jobs[t].1);
        let table_name_s: &String;
        let table_root: usize;
        match &schema.tables[tp] {
            Table::BTree(btt) => {
                table_name_s = &btt.name;
                table_root = btt.root_page;
            },
            Table::Virtual(_) => {
                proof {
                    assert(false);
                }
                return Err(TranslateError::UnsupportedStatement);
            },
        }
        let index_name_opt: Option<&String> = match idx_opt {
            Some(ip) => Some(&schema.indexes[ip].name),
            None => None,
        };
        let ghost bts_pre = b;
        emit_table_stats(&mut b, stat_cursor, table_name_s.as_str(), table_root, index_name_opt);
        let ghost bts = b;
        proof {
            let from0 = b0.insns@.len() as int;
            let kts = bts_pre.insns@.len() as int;
            let d: int = if index_name_opt is Some {
                3
            } else {
                0
            };
            assert(from0 <= kts);
            assert(bts.insns@[kts + 2] matches Insn::String8 { value, .. } && value@
                == table_name_s@);
            assert(bts.insns@[kts + 8 + d] matches Insn::OpenRead { root_page, .. } && root_page
                == table_root);
            assert(bts.insns@[kts + 10 + d] matches Insn::Count { exact, .. } && exact == true);
            assert(bts.insns@[kts + 5 + d] matches Insn::Delete { table_name, .. }
                && table_name@ == stat_table_name());
            assert(table_target_emitted(from0, bts.insns@, table_name_s@, table_root));
            assert forall|j: int|
                0 <= j < t implies (match schema.tables@[(#[trigger] jobs@[j]).0 as int] {
                Table::BTree(bt) => table_target_emitted(from0, bts.insns@, bt.name@, bt.root_page),
                Table::Virtual(_) => false,
            }) by {
                match schema.tables@[jobs@[j].0 as int] {
                    Table::BTree(bt) => {
                        lemma_table_target_extends(from0, bt_start, bts, bt.name@, bt.root_page);
                    },
                    Table::Virtual(_) => {},
                }
            }
        }
        // The indexes whose statistics this target covers.
        let mut poss: Vec<usize> = Vec::new();
        match idx_opt {
            Some(ip) => {
                poss.push(ip);
            },
            None => {
                let all = schema.get_indices(table_name_s.as_str());
                let mut f: usize = 0;
                while f < all.len()
                    invariant
                        f <= all@.len(),
                        forall|j: int|
                            0 <= j < all@.len() ==> (#[trigger] all@[j]) < schema.indexes@.len(),
                        forall|j1: int, j2: int|
                            0 <= j1 < j2 < all@.len() ==> all@[j1] < all@[j2],
                        forall|j: int|
                            0 <= j < poss@.len() ==> (#[trigger] poss@[j])
                                < schema.indexes@.len(),
                        forall|j1: int, j2: int|
                            0 <= j1 < j2 < poss@.len() ==> poss@[j1] < poss@[j2],
                        forall|j: int|
                            0 <= j < poss@.len() ==> (exists|k: int|
                                0 <= k < f && all@[k] == #[trigger] poss@[j]),
                    decreases all@.len() - f,
                {
                    if !schema.indexes[all[f]].has_custom_method {
                        let ghost p0 = poss@;
                        poss.push(all[f]);
                        proof {
                            assert forall|j1: int, j2: int|
                                0 <= j1 < j2 < poss@.len() implies poss@[j1] < poss@[j2] by {
                                if j2 == poss@.len() - 1 {
                                    let w = choose|k: int| 0 <= k < f && all@[k] == p0[j1];
                                    assert(all@[w] < all@[f as int]);
                                }
                            }
                        }
                    }
                    f = f + 1;
                }
            },
        }
        proof {
            lemma_increasing_positions_len(poss@, schema.indexes@.len() as int);
        }
        let nposs = poss.len();
        let mut x: usize = 0;
        while x < nposs
            invariant
                x <= nposs,
                nposs == poss@.len(),
                nposs <= schema.indexes@.len(),
                b.wf(),
                block_emitted(bt_start, b),
                stat_cursor.0 < bt_start.next_cursor,
                bt_start.next_cursor <= b.next_cursor,
                forall|j: int|
                    0 <= j < poss@.len() ==> (#[trigger] poss@[j]) < schema.indexes@.len(),
                table_target_emitted(
                    b0.insns@.len() as int,
                    b.insns@,
                    table_name_s@,
                    table_root,
                ),
                forall|j: int|
                    0 <= j < t ==> (match schema.tables@[(#[trigger] jobs@[j]).0 as int] {
                        Table::BTree(bt) => table_target_emitted(
                            b0.insns@.len() as int,
                            b.insns@,
                            bt.name@,
                            bt.root_page,
                        ),
                        Table::Virtual(_) => false,
                    }),
                b.next_register <= bt_start.next_register + 16 + x * per_index_budget(*schema),
                b.labels@.len() <= bt_start.labels@.len() + 16 + x * per_index_budget(*schema),
                b.next_cursor <= bt_start.next_cursor + 16 + x * per_index_budget(*schema),
                bt_start.next_register + per_table_budget(*schema) + 16 <= usize::MAX,
                bt_start.labels@.len() + per_table_budget(*schema) + 16 <= u32::MAX,
                bt_start.next_cursor + per_table_budget(*schema) + 16 <= usize::MAX,
            decreases nposs - x,
        {
            proof {
                assert((x + 1) * per_index_budget(*schema) == x * per_index_budget(*schema)
                    + per_index_budget(*schema)) by (nonlinear_arith);
                assert(nposs * per_index_budget(*schema) >= (x + 1) * per_index_budget(
                    *schema,
                )) by (nonlinear_arith)
                    requires
                        x < nposs,
                        0 <= per_index_budget(*schema),
                ;
                assert(schema.indexes@.len() * per_index_budget(*schema) >= nposs
                    * per_index_budget(*schema)) by (nonlinear_arith)
                    requires
                        nposs <= schema.indexes@.len(),
                        0 <= per_index_budget(*schema),
                ;
                lemma_index_cols_le_total(schema.indexes@, 0, poss@[x as int] as int);
            }
            let ghost bx = b;
            emit_index_stats(&mut b, stat_cursor, table_name_s.as_str(), &schema.indexes[poss[x]]);
            proof {
                lemma_block_emitted_trans(bt_start, bx, b);
                let from0 = b0.insns@.len() as int;
                lemma_table_target_extends(from0, bx, b, table_name_s@, table_root);
                assert forall|j: int|
                    0 <= j < t implies (match schema.tables@[(#[trigger] jobs@[j]).0 as int] {
                    Table::BTree(bt) => table_target_emitted(
                        from0,
                        b.insns@,
                        bt.name@,
                        bt.root_page,
                    ),
                    Table::Virtual(_) => false,
                }) by {
                    match schema.tables@[jobs@[j].0 as int] {
                        Table::BTree(bt) => {
                            lemma_table_target_extends(from0, bx, b, bt.name@, bt.root_page);
                        },
                        Table::Virtual(_) => {},
                    }
                }
            }
            x = x + 1;
        }
        proof {
            assert(b.next_register <= bt_start.next_register + 16 + schema.indexes@.len()
                * per_index_budget(*schema)) by {
                assert(nposs * per_index_budget(*schema) <= schema.indexes@.len()
                    * per_index_budget(*schema)) by (nonlinear_arith)
                    requires
                        nposs <= schema.indexes@.len(),
                        0 <= per_index_budget(*schema),
                ;
            }
            assert(b.labels@.len() <= bt_start.labels@.len() + 16 + schema.indexes@.len()
                * per_index_budget(*schema)) by {
                assert(nposs * per_index_budget(*schema) <= schema.indexes@.len()
                    * per_index_budget(*schema)) by (nonlinear_arith)
                    requires
                        nposs <= schema.indexes@.len(),
                        0 <= per_index_budget(*schema),
                ;
            }
            assert(b.next_cursor <= bt_start.next_cursor + 16 + schema.indexes@.len()
                * per_index_budget(*schema)) by {
                assert(nposs * per_index_budget(*schema) <= schema.indexes@.len()
                    * per_index_budget(*schema)) by (nonlinear_arith)
                    requires
                        nposs <= schema.indexes@.len(),
                        0 <= per_index_budget(*schema),
                ;
            }
        }
        proof {
            lemma_block_emitted_trans(bsetup, bt_start, b);
            let from0 = b0.insns@.len() as int;
            assert forall|j: int|
                0 <= j < t + 1 implies (match schema.tables@[(#[trigger] jobs@[j]).0 as int] {
                Table::BTree(bt) => table_target_emitted(from0, b.insns@, bt.name@, bt.root_page),
                Table::Virtual(_) => false,
            }) by {
                if j == t {
                    assert(schema.tables@[jobs@[j].0 as int] matches Table::BTree(bt) && bt.name@
                        == table_name_s@ && bt.root_page == table_root);
                }
            }
        }
        t = t + 1;
    }
    proof {
        match target {
            Some(t) => {
                if !analyze_targets_whole(*t) && crate::schema::has_btree_table_nocase(
                    *schema,
                    t.name@,
                ) {
                    let ti = jobs@[0].0 as int;
                    assert(match schema.tables@[ti] {
                        Table::BTree(bt) => table_target_emitted(
                            b0.insns@.len() as int,
                            b.insns@,
                            bt.name@,
                            bt.root_page,
                        ),
                        Table::Virtual(_) => false,
                    });
                }
            },
            None => {},
        }
        if target is None {
            let from0 = b0.insns@.len() as int;
            assert forall|ti: int|
                0 <= ti < schema.tables@.len() implies (match #[trigger] schema.tables@[ti] {
                Table::BTree(bt) => !crate::text::is_prefix(
                    crate::schema::reserved_prefix(),
                    bt.name@,
                ) ==> table_target_emitted(from0, b.insns@, bt.name@, bt.root_page),
                Table::Virtual(_) => true,
            }) by {
                match schema.tables@[ti] {
                    Table::BTree(bt) => {
                        if !crate::text::is_prefix(crate::schema::reserved_prefix(), bt.name@) {
                            let w = choose|j: int|
                                0 <= j < jobs@.len() && (#[trigger] jobs@[j]).0 == ti;
                            assert(match schema.tables@[jobs@[w].0 as int] {
                                Table::BTree(bt2) => table_target_emitted(
                                    from0,
                                    b.insns@,
                                    bt2.name@,
                                    bt2.root_page,
                                ),
                                Table::Virtual(_) => false,
                            });
                        }
                    },
                    Table::Virtual(_) => {},
                }
            }
        }
    }
    Ok(b)
}

/// A strictly increasing sequence of positions below a bound has at
/// most that many entries; this variant is phrased over pairs.
proof fn lemma_increasing_positions_first(jobs: Seq<(usize, Option<usize>)>, n: int)
    requires
        forall|j1: int, j2: int| 0 <= j1 < j2 < jobs.len() ==> jobs[j1].0 < jobs[j2].0,
        forall|j: int| 0 <= j < jobs.len() ==> (#[trigger] jobs[j]).0 < n,
        0 <= n,
    ensures
        jobs.len() <= n,
    decreases jobs.len(),
{
    if jobs.len() > 0 {
        let last = jobs[jobs.len() - 1].0 as int;
        let prefix = jobs.drop_last();
        assert(forall|i: int| 0 <= i < prefix.len() ==> prefix[i] == jobs[i]);
        assert(forall|i: int| 0 <= i < prefix.len() ==> (#[trigger] prefix[i]).0 < last);
        lemma_increasing_positions_first(prefix, last);
    }
}

} // verus!
