//! The translator for UPDATE statements of the catalog-maintenance
//! dialect: a forward scan of the target table that re-evaluates every
//! column for each admitted row and writes the row back under its
//! original key.
//!
//! The schema rewrites (table rename) compile themselves through this
//! translator: they build an [`UpdateStmt`] against the catalog table
//! and recurse into the common pipeline.

use vstd::prelude::*;

use crate::ast::{
    col_index, cond_cols_ok, cond_labels, cond_regs, expr_cols_ok, expr_labels, expr_regs,
    sets_labels, sets_regs, simple_cols_ok, update_cols_ok, where_labels, where_regs, Cond,
    Expr, SimpleExpr, UpdateStmt,
};
use crate::builder::{extends, lemma_extends_trans, ProgramBuilder};
use crate::control::{
    block_emitted, body_ctx_wf, for_each, lemma_block_emitted_trans, lemma_loop_local_weaken,
    lemma_plain_emit_block, lemma_unchanged_block, loop_frame_post, loop_local, LoopContext,
};
use crate::emitter;
use crate::insn::{
    is_loop_entry, is_loop_step, spec_referenced_labels, CmpInsFlags, Insn, RootPage, ScalarFunc,
};
use crate::resources::{Cursor, CursorKind, Label, Reg};
use crate::schema::{column_names, has_btree_table_nocase, BTreeTable, ColumnInfo, Schema, Table};
use crate::text::{clone_string, eq_ignore_case, nocase_seq_eq};
use crate::TranslateError;

verus! {

/// Resolve a column name against a column list, case-insensitively,
/// returning the position of the first match.
pub fn resolve_column(cols: &Vec<ColumnInfo>, name: &str) -> (r: Option<usize>)
    ensures
        match r {
            Some(i) => i < cols@.len() && col_index(column_names(cols@), name@) == i,
            None => col_index(column_names(cols@), name@) == -1,
        },
{
    let n = cols.len();
    let mut i: usize = 0;
    while i < n
        invariant
            i <= n,
            n == cols@.len(),
            forall|j: int|
                0 <= j < i ==> !nocase_seq_eq(column_names(cols@)[j], name@),
        decreases n - i,
    {
        if eq_ignore_case(cols[i].name.as_str(), name) {
            proof {
                assert(column_names(cols@)[i as int] == cols@[i as int].name@);
                crate::ast::lemma_col_index_found(column_names(cols@), name@, i as int);
            }
            return Some(i);
        }
        proof {
            assert(column_names(cols@)[i as int] == cols@[i as int].name@);
        }
        i = i + 1;
    }
    proof {
        crate::ast::lemma_col_index_missing(column_names(cols@), name@);
    }
    None
}

/// Check that an atomic expression only names existing columns,
/// reporting the first missing one.
pub fn validate_simple(cols: &Vec<ColumnInfo>, e: &SimpleExpr) -> (r: Result<(), TranslateError>)
    ensures
        r is Ok <==> simple_cols_ok(*e, column_names(cols@)),
        r matches Err(er) ==> er is NoSuchColumn,
{
    match e {
        SimpleExpr::Column(name) => {
            match resolve_column(cols, name.as_str()) {
                Some(_) => Ok(()),
                None => Err(TranslateError::NoSuchColumn(clone_string(name.as_str()))),
            }
        },
        _ => Ok(()),
    }
}

/// Check that a condition only names existing columns, reporting the
/// first missing one.
pub fn validate_cond(cols: &Vec<ColumnInfo>, c: &Cond) -> (r: Result<(), TranslateError>)
    ensures
        r is Ok <==> cond_cols_ok(*c, column_names(cols@)),
        r matches Err(er) ==> er is NoSuchColumn,
    decreases *c,
{
    match c {
        Cond::Eq { lhs, rhs, .. } => {
            let first = validate_simple(cols, lhs);
            match first {
                Ok(()) => validate_simple(cols, rhs),
                Err(e) => Err(e),
            }
        },
        Cond::Like { lhs, .. } => validate_simple(cols, lhs),
        Cond::And(a, b) => {
            let first = validate_cond(cols, a);
            match first {
                Ok(()) => validate_cond(cols, b),
                Err(e) => Err(e),
            }
        },
        Cond::Or(a, b) => {
            let first = validate_cond(cols, a);
            match first {
                Ok(()) => validate_cond(cols, b),
                Err(e) => Err(e),
            }
        },
    }
}

/// Check that an expression only names existing columns, reporting the
/// first missing one.
pub fn validate_expr(cols: &Vec<ColumnInfo>, e: &Expr) -> (r: Result<(), TranslateError>)
    ensures
        r is Ok <==> expr_cols_ok(*e, column_names(cols@)),
        r matches Err(er) ==> er is NoSuchColumn,
    decreases *e,
{
    match e {
        Expr::Simple(s) => validate_simple(cols, s),
        Expr::Concat(a, b) => {
            let first = validate_expr(cols, a);
            match first {
                Ok(()) => validate_expr(cols, b),
                Err(e) => Err(e),
            }
        },
        Expr::Substr(a, b) => {
            let first = validate_expr(cols, a);
            match first {
                Ok(()) => validate_expr(cols, b),
                Err(e) => Err(e),
            }
        },
        Expr::CaseWhen { when, then, otherwise } => {
            let first = validate_cond(cols, when);
            match first {
                Ok(()) => {
                    let second = validate_expr(cols, then);
                    match second {
                        Ok(()) => validate_expr(cols, otherwise),
                        Err(e) => Err(e),
                    }
                },
                Err(e) => Err(e),
            }
        },
    }
}

/// Emit the read or load of an atomic expression into a register.
pub fn emit_simple_expr(
    b: &mut ProgramBuilder,
    cols: &Vec<ColumnInfo>,
    cursor: Cursor,
    e: &SimpleExpr,
    dest: Reg,
)
    requires
        old(b).wf(),
        cursor.0 < old(b).next_cursor,
        0 < dest.0 < old(b).next_register,
        simple_cols_ok(*e, column_names(cols@)),
    ensures
        final(b).wf(),
        block_emitted(*old(b), *final(b)),
        final(b).next_register == old(b).next_register,
        final(b).labels@ == old(b).labels@,
        final(b).next_cursor == old(b).next_cursor,
        final(b).insns@.len() == old(b).insns@.len() + 1,
        match *e {
            SimpleExpr::Column(name) => final(b).insns@.last() == (Insn::Column {
                cursor,
                column: col_index(column_names(cols@), name@) as usize,
                dest,
            }),
            SimpleExpr::Text(t) => final(b).insns@.last() matches Insn::String8 {
                value,
                dest: dd,
            } && value@ == t@ && dd == dest,
            SimpleExpr::Int(v) => final(b).insns@.last() == (Insn::Integer { value: v, dest }),
            SimpleExpr::Null => final(b).insns@.last() == (Insn::Null { dest, count: 1 }),
        },
{
    match e {
        SimpleExpr::Column(name) => {
            match resolve_column(cols, name.as_str()) {
                Some(i) => {
                    emitter::column(b, cursor, i, dest);
                    proof {
                        lemma_plain_emit_block(
                            *old(b),
                            *b,
                            Insn::Column { cursor, column: i, dest },
                        );
                    }
                },
                None => {
                    proof {
                        assert(false);
                    }
                },
            }
        },
        SimpleExpr::Text(s) => {
            let text = clone_string(s.as_str());
            let ghost t = text;
            emitter::string8(b, text, dest);
            proof {
                lemma_plain_emit_block(*old(b), *b, Insn::String8 { value: t, dest });
            }
        },
        SimpleExpr::Int(v) => {
            emitter::integer(b, *v, dest);
            proof {
                lemma_plain_emit_block(*old(b), *b, Insn::Integer { value: *v, dest });
            }
        },
        SimpleExpr::Null => {
            emitter::null(b, dest);
            proof {
                lemma_plain_emit_block(*old(b), *b, Insn::Null { dest, count: 1 });
            }
        },
    }
}

/// Emit the jump-threaded compilation of a condition: when
/// `jump_on_match` is set, control reaches `target` exactly when the
/// condition matches; otherwise exactly when it does not.  The emitted
/// block allocates scratch registers and binds every label it
/// allocates.
pub fn emit_cond_jump(
    b: &mut ProgramBuilder,
    cols: &Vec<ColumnInfo>,
    cursor: Cursor,
    c: &Cond,
    jump_on_match: bool,
    target: Label,
)
    requires
        old(b).wf(),
        cursor.0 < old(b).next_cursor,
        target.0 < old(b).labels@.len(),
        cond_cols_ok(*c, column_names(cols@)),
        old(b).next_register + cond_regs(*c) <= usize::MAX,
        old(b).labels@.len() + cond_labels(*c) <= u32::MAX,
    ensures
        final(b).wf(),
        block_emitted(*old(b), *final(b)),
        final(b).next_register <= old(b).next_register + cond_regs(*c),
        final(b).labels@.len() <= old(b).labels@.len() + cond_labels(*c),
        final(b).next_cursor == old(b).next_cursor,
        exists|j: int|
            old(b).insns@.len() <= j < final(b).insns@.len() && spec_referenced_labels(
                #[trigger] final(b).insns@[j],
            ).contains(target),
    decreases *c,
{
    match c {
        Cond::Eq { lhs, rhs, collation } => {
            let ghost a0 = *b;
            let range = b.alloc_registers(2);
            let r1 = Reg(range.start);
            let r2 = Reg(range.start + 1);
            let ghost s1 = *b;
            emit_simple_expr(b, cols, cursor, lhs, r1);
            let ghost s2 = *b;
            emit_simple_expr(b, cols, cursor, rhs, r2);
            let ghost s3 = *b;
            let cmp = if jump_on_match {
                Insn::Eq {
                    lhs: r1,
                    rhs: r2,
                    target,
                    flags: CmpInsFlags { null_eq: false, jump_if_null: false },
                    collation: *collation,
                }
            } else {
                Insn::Ne {
                    lhs: r1,
                    rhs: r2,
                    target,
                    flags: CmpInsFlags { null_eq: false, jump_if_null: true },
                    collation: *collation,
                }
            };
            let ghost cmpv = cmp;
            b.emit_insn(cmp);
            proof {
                lemma_unchanged_block(a0, s1);
                lemma_block_emitted_trans(a0, s1, s2);
                lemma_block_emitted_trans(a0, s2, s3);
                lemma_plain_emit_block(s3, *b, cmpv);
                lemma_block_emitted_trans(a0, s3, *b);
                assert(spec_referenced_labels(b.insns@[b.insns@.len() - 1]) == seq![target]);
                assert(seq![target][0] == target);
            }
        },
        Cond::Like { lhs, pattern } => {
            let ghost a0 = *b;
            let range = b.alloc_registers(2);
            let rpat = Reg(range.start);
            let rtext = Reg(range.start + 1);
            let rdest = b.alloc_register();
            let ghost s1 = *b;
            let pat = clone_string(pattern.as_str());
            let ghost patv = pat;
            emitter::string8(b, pat, rpat);
            let ghost s2 = *b;
            emit_simple_expr(b, cols, cursor, lhs, rtext);
            let ghost s3 = *b;
            emitter::function_call(b, ScalarFunc::Like, rpat, 2, rdest, 0);
            let ghost s4 = *b;
            let branch = if jump_on_match {
                Insn::If { reg: rdest, target, jump_if_null: false }
            } else {
                Insn::IfNot { reg: rdest, target, jump_if_null: true }
            };
            let ghost branchv = branch;
            b.emit_insn(branch);
            proof {
                lemma_unchanged_block(a0, s1);
                lemma_plain_emit_block(s1, s2, Insn::String8 { value: patv, dest: rpat });
                lemma_block_emitted_trans(a0, s1, s2);
                lemma_block_emitted_trans(a0, s2, s3);
                lemma_plain_emit_block(
                    s3,
                    s4,
                    Insn::Function {
                        func: ScalarFunc::Like,
                        args_start: rpat,
                        arg_count: 2,
                        dest: rdest,
                        constant_mask: 0,
                    },
                );
                lemma_block_emitted_trans(a0, s3, s4);
                lemma_plain_emit_block(s4, *b, branchv);
                lemma_block_emitted_trans(a0, s4, *b);
                assert(spec_referenced_labels(b.insns@[b.insns@.len() - 1]) == seq![target]);
                assert(seq![target][0] == target);
            }
        },
        Cond::And(x, y) => {
            if jump_on_match {
                let ghost a0 = *b;
                let fail = b.allocate_label();
                let ghost s1 = *b;
                emit_cond_jump(b, cols, cursor, x, false, fail);
                let ghost s2 = *b;
                emit_cond_jump(b, cols, cursor, y, true, target);
                let ghost s3 = *b;
                let rr = b.resolve_label(fail);
                proof {
                    assert(s3.labels@[fail.0 as int] == s1.labels@[fail.0 as int]);
                }
                match rr {
                    Err(_) => {
                        proof {
                            assert(false);
                        }
                    },
                    Ok(()) => {
                        proof {
                            lemma_one_label_chain(a0, s1, s2, s3, *b, fail);
                            let jw = choose|j: int|
                                s2.insns@.len() <= j < s3.insns@.len()
                                    && spec_referenced_labels(#[trigger] s3.insns@[j]).contains(
                                    target,
                                );
                            assert(b.insns@[jw] == s3.insns@[jw]);
                        }
                    },
                }
            } else {
                let ghost a0 = *b;
                emit_cond_jump(b, cols, cursor, x, false, target);
                let ghost s1 = *b;
                emit_cond_jump(b, cols, cursor, y, false, target);
                proof {
                    lemma_block_emitted_trans(a0, s1, *b);
                }
            }
        },
        Cond::Or(x, y) => {
            if jump_on_match {
                let ghost a0 = *b;
                emit_cond_jump(b, cols, cursor, x, true, target);
                let ghost s1 = *b;
                emit_cond_jump(b, cols, cursor, y, true, target);
                proof {
                    lemma_block_emitted_trans(a0, s1, *b);
                }
            } else {
                let ghost a0 = *b;
                let matched = b.allocate_label();
                let ghost s1 = *b;
                emit_cond_jump(b, cols, cursor, x, true, matched);
                let ghost s2 = *b;
                emit_cond_jump(b, cols, cursor, y, false, target);
                let ghost s3 = *b;
                let rr = b.resolve_label(matched);
                proof {
                    assert(s3.labels@[matched.0 as int] == s1.labels@[matched.0 as int]);
                }
                match rr {
                    Err(_) => {
                        proof {
                            assert(false);
                        }
                    },
                    Ok(()) => {
                        proof {
                            lemma_one_label_chain(a0, s1, s2, s3, *b, matched);
                            let jw = choose|j: int|
                                s2.insns@.len() <= j < s3.insns@.len()
                                    && spec_referenced_labels(#[trigger] s3.insns@[j]).contains(
                                    target,
                                );
                            assert(b.insns@[jw] == s3.insns@[jw]);
                        }
                    },
                }
            }
        },
    }
}

/// A block built as: allocate one label, run two blocks, then bind that
/// label to the current position.
proof fn lemma_one_label_chain(
    a0: ProgramBuilder,
    s1: ProgramBuilder,
    s2: ProgramBuilder,
    s3: ProgramBuilder,
    s4: ProgramBuilder,
    l: Label,
)
    requires
        a0.wf(),
        s1.labels@ == a0.labels@.push(None),
        s1.insns@ == a0.insns@,
        s1.cursors@ == a0.cursors@,
        s1.next_register == a0.next_register,
        s1.next_cursor == a0.next_cursor,
        s1.next_hash_table == a0.next_hash_table,
        s1.nested == a0.nested,
        s1.change_count_on == a0.change_count_on,
        l.0 == a0.labels@.len(),
        block_emitted(s1, s2),
        block_emitted(s2, s3),
        s4.labels@ == s3.labels@.update(l.0 as int, Some(s3.insns@.len() as usize)),
        s4.insns@ == s3.insns@,
        s4.cursors@ == s3.cursors@,
        s4.next_register == s3.next_register,
        s4.next_cursor == s3.next_cursor,
        s4.next_hash_table == s3.next_hash_table,
        s4.nested == s3.nested,
        s4.change_count_on == s3.change_count_on,
        s4.wf(),
    ensures
        block_emitted(a0, s4),
{
    let l0 = a0.labels@.len() as int;
    assert(extends(a0, s1)) by {
        assert(s1.insns@.subrange(0, a0.insns@.len() as int) =~= a0.insns@);
    }
    lemma_block_emitted_trans(s1, s2, s3);
    lemma_extends_trans(a0, s1, s3);
    assert(extends(s3, s4)) by {
        assert(s4.insns@.subrange(0, s3.insns@.len() as int) =~= s3.insns@);
    }
    lemma_extends_trans(a0, s3, s4);
    assert forall|i: int| 0 <= i < l0 implies s4.labels@[i] == a0.labels@[i] by {
        assert(s3.labels@[i] == s1.labels@[i]);
    }
    assert forall|i: int| l0 <= i < s4.labels@.len() implies (#[trigger] s4.labels@[i])
        is Some by {
        if i != l0 {
            assert(i >= s1.labels@.len());
            assert(s3.labels@[i] is Some);
        }
    }
    assert(loop_local(s4.insns@, a0.insns@.len() as int, l0)) by {
        lemma_loop_local_weaken(s3.insns@, s1.insns@.len() as int, s1.labels@.len() as int, l0);
        assert forall|j: int| a0.insns@.len() <= j < s4.insns@.len() implies ((is_loop_entry(
            #[trigger] s4.insns@[j],
        ) ==> crate::insn::loop_entry_target(s4.insns@[j]).0 >= l0) && (is_loop_step(
            s4.insns@[j],
        ) ==> crate::insn::loop_step_target(s4.insns@[j]).0 >= l0)) by {
            assert(s4.insns@[j] == s3.insns@[j]);
        }
    }
}

/// Emit the evaluation of an expression into a register.  The emitted
/// block allocates scratch registers and binds every label it
/// allocates.
pub fn emit_expr_into(
    b: &mut ProgramBuilder,
    cols: &Vec<ColumnInfo>,
    cursor: Cursor,
    e: &Expr,
    dest: Reg,
)
    requires
        old(b).wf(),
        cursor.0 < old(b).next_cursor,
        0 < dest.0 < old(b).next_register,
        expr_cols_ok(*e, column_names(cols@)),
        old(b).next_register + expr_regs(*e) <= usize::MAX,
        old(b).labels@.len() + expr_labels(*e) <= u32::MAX,
    ensures
        final(b).wf(),
        block_emitted(*old(b), *final(b)),
        final(b).next_register <= old(b).next_register + expr_regs(*e),
        final(b).labels@.len() <= old(b).labels@.len() + expr_labels(*e),
        final(b).next_cursor == old(b).next_cursor,
    decreases *e,
{
    match e {
        Expr::Simple(se) => {
            emit_simple_expr(b, cols, cursor, se, dest);
        },
        Expr::Concat(x, y) => {
            let ghost a0 = *b;
            let range = b.alloc_registers(2);
            let ghost s1 = *b;
            emit_expr_into(b, cols, cursor, x, Reg(range.start));
            let ghost s2 = *b;
            emit_expr_into(b, cols, cursor, y, Reg(range.start + 1));
            let ghost s3 = *b;
            emitter::function_call(b, ScalarFunc::Concat, Reg(range.start), 2, dest, 0);
            proof {
                lemma_unchanged_block(a0, s1);
                lemma_block_emitted_trans(a0, s1, s2);
                lemma_block_emitted_trans(a0, s2, s3);
                lemma_plain_emit_block(
                    s3,
                    *b,
                    Insn::Function {
                        func: ScalarFunc::Concat,
                        args_start: Reg(range.start),
                        arg_count: 2,
                        dest,
                        constant_mask: 0,
                    },
                );
                lemma_block_emitted_trans(a0, s3, *b);
            }
        },
        Expr::Substr(x, y) => {
            let ghost a0 = *b;
            let range = b.alloc_registers(2);
            let ghost s1 = *b;
            emit_expr_into(b, cols, cursor, x, Reg(range.start));
            let ghost s2 = *b;
            emit_expr_into(b, cols, cursor, y, Reg(range.start + 1));
            let ghost s3 = *b;
            emitter::function_call(b, ScalarFunc::Substr, Reg(range.start), 2, dest, 0);
            proof {
                lemma_unchanged_block(a0, s1);
                lemma_block_emitted_trans(a0, s1, s2);
                lemma_block_emitted_trans(a0, s2, s3);
                lemma_plain_emit_block(
                    s3,
                    *b,
                    Insn::Function {
                        func: ScalarFunc::Substr,
                        args_start: Reg(range.start),
                        arg_count: 2,
                        dest,
                        constant_mask: 0,
                    },
                );
                lemma_block_emitted_trans(a0, s3, *b);
            }
        },
        Expr::CaseWhen { when, then, otherwise } => {
            let ghost a0 = *b;
            let else_l = b.allocate_label();
            let end_l = b.allocate_label();
            let ghost s1 = *b;
            emit_cond_jump(b, cols, cursor, when, false, else_l);
            let ghost s2 = *b;
            emit_expr_into(b, cols, cursor, then, dest);
            let ghost s3 = *b;
            emitter::goto(b, end_l);
            let ghost s4 = *b;
            let r_else = b.resolve_label(else_l);
            proof {
                assert(s4.labels@[else_l.0 as int] == s1.labels@[else_l.0 as int]);
            }
            match r_else {
                Err(_) => {
                    proof {
                        assert(false);
                    }
                },
                Ok(()) => {
                    let ghost s5 = *b;
                    emit_expr_into(b, cols, cursor, otherwise, dest);
                    let ghost s6 = *b;
                    let r_end = b.resolve_label(end_l);
                    proof {
                        assert(s6.labels@[end_l.0 as int] == s5.labels@[end_l.0 as int]);
                        assert(s5.labels@[end_l.0 as int] == s4.labels@[end_l.0 as int]);
                    }
                    match r_end {
                        Err(_) => {
                            proof {
                                assert(false);
                            }
                        },
                        Ok(()) => {
                            proof {
                                lemma_case_chain(
                                    a0,
                                    s1,
                                    s2,
                                    s3,
                                    s4,
                                    s5,
                                    s6,
                                    *b,
                                    else_l,
                                    end_l,
                                );
                            }
                        },
                    }
                },
            }
        },
    }
}

/// A block built as: allocate two labels, a condition block, a value
/// block, a jump, bind the first label, another value block, bind the
/// second label.
proof fn lemma_case_chain(
    a0: ProgramBuilder,
    s1: ProgramBuilder,
    s2: ProgramBuilder,
    s3: ProgramBuilder,
    s4: ProgramBuilder,
    s5: ProgramBuilder,
    s6: ProgramBuilder,
    s7: ProgramBuilder,
    else_l: Label,
    end_l: Label,
)
    requires
        a0.wf(),
        s1.labels@ == a0.labels@.push(None).push(None),
        s1.insns@ == a0.insns@,
        s1.cursors@ == a0.cursors@,
        s1.next_register == a0.next_register,
        s1.next_cursor == a0.next_cursor,
        s1.next_hash_table == a0.next_hash_table,
        s1.nested == a0.nested,
        s1.change_count_on == a0.change_count_on,
        else_l.0 == a0.labels@.len(),
        end_l.0 == a0.labels@.len() + 1,
        block_emitted(s1, s2),
        block_emitted(s2, s3),
        crate::emitter::emitted(s3, s4, Insn::Goto { target: end_l }),
        s5.labels@ == s4.labels@.update(else_l.0 as int, Some(s4.insns@.len() as usize)),
        s5.insns@ == s4.insns@,
        s5.cursors@ == s4.cursors@,
        s5.next_register == s4.next_register,
        s5.next_cursor == s4.next_cursor,
        s5.next_hash_table == s4.next_hash_table,
        s5.nested == s4.nested,
        s5.change_count_on == s4.change_count_on,
        s5.wf(),
        block_emitted(s5, s6),
        s7.labels@ == s6.labels@.update(end_l.0 as int, Some(s6.insns@.len() as usize)),
        s7.insns@ == s6.insns@,
        s7.cursors@ == s6.cursors@,
        s7.next_register == s6.next_register,
        s7.next_cursor == s6.next_cursor,
        s7.next_hash_table == s6.next_hash_table,
        s7.nested == s6.nested,
        s7.change_count_on == s6.change_count_on,
        s7.wf(),
    ensures
        block_emitted(a0, s7),
{
    let l0 = a0.labels@.len() as int;
    assert(extends(a0, s1)) by {
        assert(s1.insns@.subrange(0, a0.insns@.len() as int) =~= a0.insns@);
    }
    lemma_block_emitted_trans(s1, s2, s3);
    lemma_extends_trans(a0, s1, s3);
    assert(extends(s3, s4)) by {
        assert(s4.insns@.subrange(0, s3.insns@.len() as int) =~= s3.insns@);
    }
    assert(extends(s4, s5)) by {
        assert(s5.insns@.subrange(0, s4.insns@.len() as int) =~= s4.insns@);
    }
    assert(extends(s6, s7)) by {
        assert(s7.insns@.subrange(0, s6.insns@.len() as int) =~= s6.insns@);
    }
    lemma_extends_trans(a0, s3, s4);
    lemma_extends_trans(a0, s4, s5);
    lemma_extends_trans(a0, s5, s6);
    lemma_extends_trans(a0, s6, s7);
    assert forall|i: int| 0 <= i < l0 implies s7.labels@[i] == a0.labels@[i] by {
        assert(s3.labels@[i] == s1.labels@[i]);
        assert(s6.labels@[i] == s5.labels@[i]);
    }
    assert forall|i: int| l0 <= i < s7.labels@.len() implies (#[trigger] s7.labels@[i])
        is Some by {
        if i == l0 {
            assert(s5.labels@[i] is Some);
            assert(s6.labels@[i] == s5.labels@[i]);
        } else if i == l0 + 1 {
        } else {
            assert(i >= s1.labels@.len());
            if i < s3.labels@.len() {
                assert(s3.labels@[i] is Some);
                assert(s6.labels@[i] == s5.labels@[i]);
                assert(s5.labels@[i] == s4.labels@[i]);
            } else {
                assert(i >= s5.labels@.len());
                assert(s6.labels@[i] is Some);
            }
        }
    }
    assert(loop_local(s7.insns@, a0.insns@.len() as int, l0)) by {
        assert forall|j: int| a0.insns@.len() <= j < s7.insns@.len() implies ((is_loop_entry(
            #[trigger] s7.insns@[j],
        ) ==> crate::insn::loop_entry_target(s7.insns@[j]).0 >= l0) && (is_loop_step(
            s7.insns@[j],
        ) ==> crate::insn::loop_step_target(s7.insns@[j]).0 >= l0)) by {
            if j < s3.insns@.len() {
                assert(s7.insns@[j] == s6.insns@[j]);
                assert(s6.insns@[j] == s6.insns@.subrange(0, s5.insns@.len() as int)[j]);
                assert(s5.insns@[j] == s4.insns@[j]);
                assert(s4.insns@[j] == s4.insns@.subrange(0, s3.insns@.len() as int)[j]);
                lemma_loop_local_weaken(
                    s3.insns@,
                    s1.insns@.len() as int,
                    s1.labels@.len() as int,
                    l0,
                );
            } else if j == s3.insns@.len() {
                assert(s7.insns@[j] == s6.insns@[j]);
                assert(s6.insns@[j] == s6.insns@.subrange(0, s5.insns@.len() as int)[j]);
                assert(s5.insns@[j] == s4.insns@[j]);
                assert(s4.insns@[j] == (Insn::Goto { target: end_l }));
            } else {
                assert(s7.insns@[j] == s6.insns@[j]);
                lemma_loop_local_weaken(
                    s6.insns@,
                    s5.insns@.len() as int,
                    s5.labels@.len() as int,
                    l0,
                );
            }
        }
    }
}

/// How many registers recompiling one row of an update allocates: the
/// row id, one register per column, the packed record, and the scratch
/// registers of every assignment and of the condition.
pub open spec fn update_row_regs(u: UpdateStmt, ncols: nat) -> nat {
    2 + ncols + sets_regs(u.sets@, 0) + where_regs(u)
}

/// How many labels compiling an update allocates: the loop frame plus
/// those of every assignment and of the condition.
pub open spec fn update_row_labels(u: UpdateStmt) -> nat {
    3 + sets_labels(u.sets@, 0) + where_labels(u)
}

/// The instruction stream a catalog UPDATE compiles into, stated over
/// an instruction sequence and label table from position `k`, label
/// base `l` and cursor id `c` on: a write cursor is opened on the
/// target table's root; the table is scanned once (the loop frame at
/// `k + 1`); inside the scan each admitted row's identifier is read
/// and the row is re-packed full-width and written back as the last
/// two body instructions; and, when the statement has a WHERE clause,
/// its compiled test steers rows past the write-back by jumping to the
/// loop's `next` label.  What the tested clause means over a row is
/// [`crate::ast::eval_cond`]; for the clause a rename builds, which
/// rows it admits is proved by
/// [`crate::alter::lemma_rename_where_matches`].
pub open spec fn update_emitted_at(
    insns: Seq<Insn>,
    labels: Seq<Option<usize>>,
    u: UpdateStmt,
    ncols: int,
    troot: usize,
    k: int,
    l: int,
    c: int,
) -> bool {
    let cur = Cursor(c as usize);
    let end_pos = insns.len() as int;
    &&& end_pos >= k + 5
    &&& insns[k] == (Insn::OpenWrite { cursor: cur, root_page: RootPage::Page(troot), db: 0 })
    &&& insns[k + 1] == (Insn::Rewind { cursor: cur, if_empty: Label((l + 2) as u32) })
    &&& labels[l] == Some((k + 2) as usize)
    &&& labels[l + 1] == Some((end_pos - 1) as usize)
    &&& labels[l + 2] == Some(end_pos as usize)
    &&& insns[end_pos - 1] == (Insn::Next { cursor: cur, if_next: Label(l as u32) })
    &&& (insns[end_pos - 2] matches Insn::Insert { cursor, .. } && cursor == cur)
    &&& (insns[end_pos - 3] matches Insn::MakeRecord { count, .. } && count == ncols)
    &&& (exists|j: int|
        k + 2 <= j < end_pos - 1 && ((#[trigger] insns[j]) matches Insn::RowId { cursor, .. }
            && cursor == cur))
    &&& (u.where_clause is Some ==> exists|j: int|
        k + 2 <= j < end_pos - 1 && spec_referenced_labels(#[trigger] insns[j]).contains(
            Label((l + 1) as u32),
        ))
}

/// Translate an UPDATE of the catalog-maintenance dialect.
///
/// The target table is looked up case-insensitively and every named
/// column is validated before any instruction is emitted: a failed
/// validation aborts the translation with nothing appended.  On
/// success, the emission is one forward scan of the table; each row
/// that the WHERE clause admits is re-packed from its current columns
/// with the assignments applied, and written back under its original
/// row id.
pub fn translate_update(b: ProgramBuilder, schema: &Schema, u: &UpdateStmt) -> (r: Result<
    ProgramBuilder,
    TranslateError,
>)
    requires
        b.wf(),
        b.next_cursor < usize::MAX,
        b.labels@.len() + update_row_labels(*u) <= u32::MAX,
        forall|i: int|
            0 <= i < schema.tables@.len() ==> match #[trigger] schema.tables@[i] {
                Table::BTree(bt) => nocase_seq_eq(bt.name@, u.table@) ==> b.next_register
                    + update_row_regs(*u, bt.columns@.len()) <= usize::MAX,
                Table::Virtual(_) => true,
            },
    ensures
        r matches Ok(b2) ==> block_emitted(b, b2),
        r matches Ok(b2) ==> has_btree_table_nocase(*schema, u.table@),
        !has_btree_table_nocase(*schema, u.table@) ==> (r matches Err(e) && e matches
            TranslateError::NoSuchTable(n) && n@ == u.table@),
        r matches Err(e) ==> (e is NoSuchTable || e is NoSuchColumn),
        r matches Err(e) && e is NoSuchTable ==> !has_btree_table_nocase(*schema, u.table@),
        r matches Err(e) && e is NoSuchColumn ==> (exists|i: int|
            0 <= i < schema.tables@.len() && match #[trigger] schema.tables@[i] {
                Table::BTree(bt) => nocase_seq_eq(bt.name@, u.table@) && !update_cols_ok(
                    *u,
                    column_names(bt.columns@),
                ),
                Table::Virtual(_) => false,
            }),
        r matches Ok(b2) ==> (exists|ti: int|
            0 <= ti < schema.tables@.len() && match #[trigger] schema.tables@[ti] {
                Table::BTree(bt) => nocase_seq_eq(bt.name@, u.table@) && update_emitted_at(
                    b2.insns@,
                    b2.labels@,
                    *u,
                    bt.columns@.len() as int,
                    bt.root_page,
                    b.insns@.len() as int,
                    b.labels@.len() as int,
                    b.next_cursor as int,
                ),
                Table::Virtual(_) => false,
            }),
{
    let bt = match schema.get_btree_table(u.table.as_str()) {
        None => {
            return Err(TranslateError::NoSuchTable(clone_string(u.table.as_str())));
        },
        Some(bt) => bt,
    };
    // Resolve every assigned column and validate every expression
    // before emitting anything.
    let nsets = u.sets.len();
    let mut set_cols: Vec<usize> = Vec::new();
    let mut si: usize = 0;
    while si < nsets
        invariant
            si <= nsets,
            nsets == u.sets@.len(),
            set_cols@.len() == si,
            has_btree_table_nocase(*schema, u.table@),
            nocase_seq_eq(bt.name@, u.table@),
            exists|i: int|
                0 <= i < schema.tables@.len() && #[trigger] schema.tables@[i] == Table::BTree(
                    *bt,
                ),
            forall|j: int|
                0 <= j < si ==> (#[trigger] set_cols@[j]) < bt.columns@.len() && col_index(
                    column_names(bt.columns@),
                    u.sets@[j].column@,
                ) == set_cols@[j] && expr_cols_ok(u.sets@[j].value, column_names(bt.columns@)),
        decreases nsets - si,
    {
        let sc = &u.sets[si];
        match resolve_column(&bt.columns, sc.column.as_str()) {
            None => {
                proof {
                    assert(!update_cols_ok(*u, column_names(bt.columns@)));
                    let wi = choose|i: int|
                        0 <= i < schema.tables@.len() && #[trigger] schema.tables@[i]
                            == Table::BTree(*bt);
                    assert(match schema.tables@[wi] {
                        Table::BTree(btw) => nocase_seq_eq(btw.name@, u.table@)
                            && !update_cols_ok(*u, column_names(btw.columns@)),
                        Table::Virtual(_) => false,
                    });
                }
                return Err(TranslateError::NoSuchColumn(clone_string(sc.column.as_str())));
            },
            Some(ci) => {
                match validate_expr(&bt.columns, &sc.value) {
                    Err(e) => {
                        proof {
                            assert(!update_cols_ok(*u, column_names(bt.columns@)));
                            let wi = choose|i: int|
                                0 <= i < schema.tables@.len() && #[trigger] schema.tables@[i]
                                    == Table::BTree(*bt);
                            assert(match schema.tables@[wi] {
                                Table::BTree(btw) => nocase_seq_eq(btw.name@, u.table@)
                                    && !update_cols_ok(*u, column_names(btw.columns@)),
                                Table::Virtual(_) => false,
                            });
                        }
                        return Err(e);
                    },
                    Ok(()) => {
                        let ghost sc0 = set_cols@;
                        set_cols.push(ci);
                        proof {
                            assert forall|j: int|
                                0 <= j < si + 1 implies (#[trigger] set_cols@[j])
                                < bt.columns@.len() && col_index(
                                column_names(bt.columns@),
                                u.sets@[j].column@,
                            ) == set_cols@[j] && expr_cols_ok(
                                u.sets@[j].value,
                                column_names(bt.columns@),
                            ) by {
                                if j < si {
                                    assert(set_cols@[j] == sc0[j]);
                                }
                            }
                        }
                    },
                }
            },
        }
        si = si + 1;
    }
    match &u.where_clause {
        Some(c) => {
            match validate_cond(&bt.columns, c) {
                Err(e) => {
                    proof {
                        assert(u.where_clause == Some(*c));
                        assert(!update_cols_ok(*u, column_names(bt.columns@)));
                        let wi = choose|i: int|
                            0 <= i < schema.tables@.len() && #[trigger] schema.tables@[i]
                                == Table::BTree(*bt);
                        assert(match schema.tables@[wi] {
                            Table::BTree(btw) => nocase_seq_eq(btw.name@, u.table@)
                                && !update_cols_ok(*u, column_names(btw.columns@)),
                            Table::Virtual(_) => false,
                        });
                    }
                    return Err(e);
                },
                Ok(()) => {
                    proof {
                        assert(u.where_clause == Some(*c));
                    }
                },
            }
        },
        None => {},
    }
    proof {
        assert forall|i: int| 0 <= i < u.sets@.len() implies col_index(
            column_names(bt.columns@),
            (#[trigger] u.sets@[i]).column@,
        ) >= 0 && expr_cols_ok(u.sets@[i].value, column_names(bt.columns@)) by {
            assert(set_cols@[i] < bt.columns@.len());
        }
        assert(update_cols_ok(*u, column_names(bt.columns@)));
    }
    // Emission: open a write cursor on the table and scan it forward.
    let ghost b0 = b;
    let mut b = b;
    let root = bt.root_page;
    let cursor = b.alloc_cursor_with_kind(
        CursorKind::BTreeTable { root_page: root, table_name: clone_string(bt.name.as_str()) },
    );
    let ghost bcur = b;
    b.emit_insn(Insn::OpenWrite { cursor, root_page: RootPage::Page(root), db: 0 });
    let ghost bpre = b;
    let ncols = bt.columns.len();
    let ghost budget_regs = 2 + ncols + sets_regs(u.sets@, 0) + where_regs(*u);
    let ghost budget_labels = sets_labels(u.sets@, 0) + where_labels(*u);
    proof {
        assert(has_btree_table_nocase(*schema, u.table@));
        let wi = choose|i: int|
            0 <= i < schema.tables@.len() && schema.tables@[i] == Table::BTree(*bt);
        assert(schema.tables@[wi] matches Table::BTree(btw) && nocase_seq_eq(
            btw.name@,
            u.table@,
        ));
        assert(bpre.next_register + budget_regs <= usize::MAX);
        assert(bpre.labels@.len() + 3 + budget_labels <= u32::MAX);
    }
    let set_cols_shared = set_cols;
    let body = |bb: ProgramBuilder, ctx: LoopContext| -> (ro: Result<
        ProgramBuilder,
        TranslateError,
    >)
        requires
            bb.wf(),
            body_ctx_wf(bb, ctx),
            bb.next_register + 2 + ncols + sets_regs(u.sets@, 0) + where_regs(*u)
                <= usize::MAX,
            bb.labels@.len() + sets_labels(u.sets@, 0) + where_labels(*u) <= u32::MAX,
            ncols == bt.columns@.len(),
            set_cols_shared@.len() == u.sets@.len(),
            forall|j: int|
                0 <= j < u.sets@.len() ==> (#[trigger] set_cols_shared@[j]) < bt.columns@.len(),
            forall|j: int|
                0 <= j < u.sets@.len() ==> expr_cols_ok(
                    (#[trigger] u.sets@[j]).value,
                    column_names(bt.columns@),
                ),
            u.where_clause matches Some(c) ==> cond_cols_ok(c, column_names(bt.columns@)),
        ensures
            ro is Ok,
            ro matches Ok(bo) ==> block_emitted(bb, bo),
            ro matches Ok(bo) ==> {
                &&& bo.insns@.len() >= bb.insns@.len() + 3
                &&& (bo.insns@[bo.insns@.len() - 1] matches Insn::Insert { cursor, .. } && cursor
                    == ctx.cursor)
                &&& (bo.insns@[bo.insns@.len() - 2] matches Insn::MakeRecord { count, .. }
                    && count == ncols)
                &&& (exists|j: int|
                    bb.insns@.len() <= j < bo.insns@.len() && ((#[trigger] bo.insns@[j]) matches
                        Insn::RowId { cursor, .. } && cursor == ctx.cursor))
                &&& (u.where_clause is Some ==> exists|j: int|
                    bb.insns@.len() <= j < bo.insns@.len() && spec_referenced_labels(
                        #[trigger] bo.insns@[j],
                    ).contains(ctx.labels.next))
            },
        {
            let ghost bin = bb;
            let mut bb = bb;
            match &u.where_clause {
                Some(c) => {
                    emit_cond_jump(&mut bb, &bt.columns, ctx.cursor, c, false, ctx.labels.next);
                },
                None => {},
            }
            let ghost bw = bb;
            let rowid_reg = bb.alloc_register();
            let row = bb.alloc_registers(ncols);
            let ghost balloc = bb;
            proof {
                lemma_unchanged_block(bw, balloc);
                if u.where_clause is Some {
                    lemma_block_emitted_trans(bin, bw, balloc);
                } else {
                    assert(block_emitted(bin, balloc));
                }
            }
            emitter::rowid(&mut bb, ctx.cursor, rowid_reg);
            let ghost brid = bb;
            proof {
                lemma_plain_emit_block(
                    balloc,
                    bb,
                    Insn::RowId { cursor: ctx.cursor, dest: rowid_reg },
                );
                lemma_block_emitted_trans(bin, balloc, bb);
                assert(bb.insns@.subrange(0, brid.insns@.len() as int) =~= brid.insns@);
            }
            // Copy the current row into the column registers.
            let mut ci: usize = 0;
            while ci < ncols
                invariant
                    ci <= ncols,
                    bb.wf(),
                    block_emitted(bin, bb),
                    body_ctx_wf(bin, ctx),
                    ctx.cursor.0 < bb.next_cursor,
                    row.start == balloc.next_register - ncols,
                    row.count == ncols,
                    0 < row.start,
                    row.start + ncols <= bb.next_register,
                    bb.next_register == balloc.next_register,
                    bb.labels@ == balloc.labels@,
                    bin.next_register + 2 + ncols + sets_regs(u.sets@, 0) + where_regs(*u)
                        <= usize::MAX,
                    balloc.next_register <= bin.next_register + 2 + ncols + where_regs(*u),
                    bb.labels@.len() + sets_labels(u.sets@, 0) <= u32::MAX,
                    brid.insns@.len() <= bb.insns@.len(),
                    bb.insns@.subrange(0, brid.insns@.len() as int) == brid.insns@,
                decreases ncols - ci,
            {
                let ghost bprev = bb;
                emitter::column(&mut bb, ctx.cursor, ci, Reg(row.start + ci));
                proof {
                    lemma_plain_emit_block(
                        bprev,
                        bb,
                        Insn::Column { cursor: ctx.cursor, column: ci, dest: Reg((row.start + ci) as usize) },
                    );
                    lemma_block_emitted_trans(bin, bprev, bb);
                    assert(bb.insns@.subrange(0, brid.insns@.len() as int) =~= bprev.insns@.subrange(
                        0,
                        brid.insns@.len() as int,
                    ));
                }
                ci = ci + 1;
            }
            // Apply the assignments in order.
            let mut sj: usize = 0;
            while sj < u.sets.len()
                invariant
                    sj <= u.sets@.len(),
                    bb.wf(),
                    block_emitted(bin, bb),
                    body_ctx_wf(bin, ctx),
                    ctx.cursor.0 < bb.next_cursor,
                    ncols == bt.columns@.len(),
                    row.count == ncols,
                    0 < row.start,
                    row.start + ncols <= bb.next_register,
                    set_cols_shared@.len() == u.sets@.len(),
                    forall|j: int|
                        0 <= j < u.sets@.len() ==> (#[trigger] set_cols_shared@[j])
                            < bt.columns@.len(),
                    forall|j: int|
                        0 <= j < u.sets@.len() ==> expr_cols_ok(
                            (#[trigger] u.sets@[j]).value,
                            column_names(bt.columns@),
                        ),
                    bb.next_register + 1 + sets_regs(u.sets@, sj as int) <= usize::MAX,
                    bb.labels@.len() + sets_labels(u.sets@, sj as int) <= u32::MAX,
                    brid.insns@.len() <= bb.insns@.len(),
                    bb.insns@.subrange(0, brid.insns@.len() as int) == brid.insns@,
                decreases u.sets@.len() - sj,
            {
                let ghost bprev = bb;
                let target_reg = Reg(row.start + set_cols_shared[sj]);
                emit_expr_into(&mut bb, &bt.columns, ctx.cursor, &u.sets[sj].value, target_reg);
                proof {
                    lemma_block_emitted_trans(bin, bprev, bb);
                    assert(sets_regs(u.sets@, sj as int) == expr_regs(u.sets@[sj as int].value)
                        + sets_regs(u.sets@, sj + 1));
                    assert(sets_labels(u.sets@, sj as int) == expr_labels(
                        u.sets@[sj as int].value,
                    ) + sets_labels(u.sets@, sj + 1));
                    assert(bb.insns@.subrange(0, brid.insns@.len() as int) =~= bprev.insns@.subrange(
                        0,
                        brid.insns@.len() as int,
                    ));
                }
                sj = sj + 1;
            }
            // Pack and write the row back under its original key.
            let rec_reg = bb.alloc_register();
            let ghost brec = bb;
            proof {
                lemma_unchanged_block(bb, bb);
                lemma_block_emitted_trans(bin, bb, bb);
            }
            emitter::make_record(&mut bb, Reg(row.start), ncols, rec_reg);
            let ghost bmk = bb;
            proof {
                lemma_plain_emit_block(
                    brec,
                    bmk,
                    Insn::MakeRecord { start_reg: Reg(row.start), count: ncols, dest: rec_reg },
                );
                lemma_block_emitted_trans(bin, brec, bmk);
            }
            let tname = clone_string(bt.name.as_str());
            let ghost tnamev = tname;
            emitter::insert(&mut bb, ctx.cursor, rowid_reg, rec_reg, tname);
            proof {
                lemma_plain_emit_block(
                    bmk,
                    bb,
                    Insn::Insert {
                        cursor: ctx.cursor,
                        key_reg: rowid_reg,
                        record_reg: rec_reg,
                        flags: (crate::insn::InsertFlags { append: false }),
                        table_name: tnamev,
                    },
                );
                lemma_block_emitted_trans(bin, bmk, bb);
                // Content witnesses: the row identifier read just after
                // the scratch allocation, and the compiled WHERE test.
                assert(bb.insns@.subrange(0, brid.insns@.len() as int) =~= bmk.insns@.subrange(
                    0,
                    brid.insns@.len() as int,
                ));
                let jr = brid.insns@.len() - 1;
                assert(bb.insns@[jr as int] == brid.insns@[jr as int]);
                assert(bb.insns@[jr as int] == (Insn::RowId {
                    cursor: ctx.cursor,
                    dest: rowid_reg,
                }));
                if u.where_clause is Some {
                    let jc = choose|j: int|
                        bin.insns@.len() <= j < bw.insns@.len() && spec_referenced_labels(
                            #[trigger] bw.insns@[j],
                        ).contains(ctx.labels.next);
                    assert(brid.insns@[jc] == bw.insns@[jc]);
                    assert(bb.insns@[jc] == brid.insns@[jc]);
                }
            }
            Ok(bb)
        };
    let looped = for_each(b, cursor, body);
    match looped {
        Ok(b2) => {
            proof {
                assert(block_emitted(bpre, b2)) by {
                    assert(loop_frame_post(bpre, b2));
                }
                lemma_unchanged_block(b0, bcur);
                lemma_plain_emit_block(
                    bcur,
                    bpre,
                    Insn::OpenWrite { cursor, root_page: RootPage::Page(root), db: 0 },
                );
                lemma_block_emitted_trans(b0, bcur, bpre);
                lemma_block_emitted_trans(b0, bpre, b2);
                // Assemble the emitted-content contract from the loop
                // frame and the body's outcome.
                let k = b0.insns@.len() as int;
                let l = b0.labels@.len() as int;
                let end_pos = b2.insns@.len() as int;
                let (bi, bo2): (ProgramBuilder, ProgramBuilder) = choose|
                    bi: ProgramBuilder,
                    bo2: ProgramBuilder,
                |
                    {
                        &&& crate::control::loop_entry_state(
                            bpre,
                            bi,
                            crate::control::canonical_ctx(bpre, cursor),
                            cursor,
                            Insn::Rewind {
                                cursor,
                                if_empty: Label((bpre.labels@.len() + 2) as u32),
                            },
                        )
                        &&& #[trigger] call_ensures(
                            body,
                            (bi, crate::control::canonical_ctx(bpre, cursor)),
                            Ok(bo2),
                        )
                        &&& b2.insns@ == bo2.insns@.push(
                            Insn::Next {
                                cursor,
                                if_next: Label(bpre.labels@.len() as u32),
                            },
                        )
                        &&& b2.labels@ == bo2.labels@.update(
                            bpre.labels@.len() as int + 1,
                            Some(bo2.insns@.len() as usize),
                        ).update(
                            bpre.labels@.len() as int + 2,
                            Some((bo2.insns@.len() + 1) as usize),
                        )
                    };
                assert(bi.insns@.len() == k + 2);
                assert(b2.insns@[k] == (Insn::OpenWrite {
                    cursor,
                    root_page: RootPage::Page(root),
                    db: 0,
                })) by {
                    assert(bpre.insns@[k] == (Insn::OpenWrite {
                        cursor,
                        root_page: RootPage::Page(root),
                        db: 0,
                    }));
                    assert(b2.insns@.subrange(0, bpre.insns@.len() as int) == bpre.insns@);
                    assert(b2.insns@[k] == b2.insns@.subrange(0, bpre.insns@.len() as int)[k]);
                }
                assert(bo2.insns@[bo2.insns@.len() - 1] matches Insn::Insert { cursor: cc, .. }
                    && cc == cursor);
                assert(bo2.insns@[bo2.insns@.len() - 2] matches Insn::MakeRecord { count, .. }
                    && count == ncols);
                assert(b2.insns@[end_pos - 2] == bo2.insns@[bo2.insns@.len() - 1]);
                assert(b2.insns@[end_pos - 3] == bo2.insns@[bo2.insns@.len() - 2]);
                let jr = choose|j: int|
                    bi.insns@.len() <= j < bo2.insns@.len() && ((#[trigger] bo2.insns@[j])
                        matches Insn::RowId { cursor: cc, .. } && cc == cursor);
                assert(b2.insns@[jr] == bo2.insns@[jr]);
                if u.where_clause is Some {
                    let jc = choose|j: int|
                        bi.insns@.len() <= j < bo2.insns@.len() && spec_referenced_labels(
                            #[trigger] bo2.insns@[j],
                        ).contains(
                            crate::control::canonical_ctx(bpre, cursor).labels.next,
                        );
                    assert(b2.insns@[jc] == bo2.insns@[jc]);
                    assert(crate::control::canonical_ctx(bpre, cursor).labels.next == Label(
                        (l + 1) as u32,
                    ));
                }
                assert(update_emitted_at(
                    b2.insns@,
                    b2.labels@,
                    *u,
                    ncols as int,
                    root,
                    k,
                    l,
                    b0.next_cursor as int,
                ));
            }
            Ok(b2)
        },
        Err(e) => {
            proof {
                assert(false);
            }
            Err(e)
        },
    }
}

} // verus!
