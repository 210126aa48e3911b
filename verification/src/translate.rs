//! The translation entry point: one statement in, one program out.
//!
//! Statement translators can recurse into this pipeline for the
//! sub-statements they emit (a rename compiles a catalog UPDATE through
//! [`deep_parse`]); the nesting counter records the depth of such
//! sub-compilations for diagnostics.

use vstd::prelude::*;

use crate::alter::catalog_cols_shape;
use crate::analyze::analyze_budget;
use crate::ast::{update_cols_ok, Stmt, UpdateStmt};
use crate::builder::{Program, ProgramBuilder};
use crate::control::block_emitted;
use crate::schema::{column_names, has_btree_table_nocase, Schema, Table};
use crate::text::nocase_seq_eq;
use crate::update::{translate_update, update_row_labels, update_row_regs};
use crate::TranslateError;

verus! {

/// Read-only context handed to translators that may recurse into the
/// pipeline.
pub struct DeepParseArgs<'a> {
    /// The schema catalog.
    pub schema: &'a Schema,
}

/// The recursion rank of a statement: a rename recurses into the
/// pipeline once, for the catalog UPDATE it emits; nothing recurses
/// further.
pub open spec fn stmt_rank(stmt: Stmt) -> nat {
    match stmt {
        Stmt::AlterTableRename { .. } => 1,
        Stmt::Analyze { .. } => 0,
        Stmt::Update(_) => 0,
    }
}

/// The machine-limit headroom a statement's translation needs from the
/// builder counters; these bounds exist only because register, cursor
/// and label numbers must fit their machine types.
pub open spec fn stmt_fits(s: Schema, stmt: Stmt, regs: int, cursors: int, labels: int) -> bool {
    match stmt {
        Stmt::AlterTableRename { table, new_name } => {
            &&& table.name@.len() + 18 <= i64::MAX
            &&& forall|i: int|
                0 <= i < s.tables@.len() ==> match #[trigger] s.tables@[i] {
                    Table::BTree(cbt) => nocase_seq_eq(
                        cbt.name@,
                        crate::schema::catalog_table_name(),
                    ) ==> regs + 25 + cbt.columns@.len() <= usize::MAX,
                    Table::Virtual(_) => true,
                }
            &&& labels + 16 <= u32::MAX
            &&& cursors + 2 <= usize::MAX
        },
        Stmt::Analyze { .. } => {
            &&& regs + analyze_budget(s) <= usize::MAX
            &&& labels + analyze_budget(s) <= u32::MAX
            &&& cursors + analyze_budget(s) <= usize::MAX
            &&& s.schema_version + 1 <= i32::MAX
        },
        Stmt::Update(u) => {
            &&& forall|i: int|
                0 <= i < s.tables@.len() ==> match #[trigger] s.tables@[i] {
                    Table::BTree(bt) => nocase_seq_eq(bt.name@, u.table@) ==> regs
                        + update_row_regs(u, bt.columns@.len()) <= usize::MAX,
                    Table::Virtual(_) => true,
                }
            &&& labels + update_row_labels(u) <= u32::MAX
            &&& cursors + 1 <= usize::MAX
        },
    }
}

/// The error, if any, of a translation result.
pub open spec fn err_of<T>(r: Result<T, TranslateError>) -> Option<TranslateError> {
    match r {
        Ok(_) => None,
        Err(e) => Some(e),
    }
}

/// The per-statement promises a translation makes, phrased over the
/// statement, the schema, and the outcome (`None` for success) alone.
pub open spec fn stmt_outcome(s: Schema, stmt: Stmt, r: Option<TranslateError>) -> bool {
    match stmt {
        Stmt::Update(u) => {
            &&& (!has_btree_table_nocase(s, u.table@) ==> (r matches Some(e) && e matches
                TranslateError::NoSuchTable(n) && n@ == u.table@))
            &&& (r matches Some(e) ==> (e is NoSuchTable || e is NoSuchColumn))
            &&& (r is None ==> has_btree_table_nocase(s, u.table@))
            &&& ((has_btree_table_nocase(s, u.table@) && (forall|i: int|
                0 <= i < s.tables@.len() ==> match #[trigger] s.tables@[i] {
                    Table::BTree(bt) => nocase_seq_eq(bt.name@, u.table@) ==> update_cols_ok(
                        u,
                        column_names(bt.columns@),
                    ),
                    Table::Virtual(_) => true,
                })) ==> r is None)
        },
        Stmt::AlterTableRename { table, new_name } => {
            &&& (!crate::schema::has_table_nocase(s, table.name@) ==> (r matches Some(e) && e
                matches TranslateError::NoSuchTable(n) && n@ == table.name@))
            &&& ((crate::schema::has_table_nocase(s, table.name@)
                && crate::schema::has_table_nocase(s, new_name@)) ==> (r matches Some(e) && e
                matches TranslateError::NameInUse(n) && n@ == new_name@))
            &&& ((crate::schema::has_table_nocase(s, table.name@)
                && !crate::schema::has_table_nocase(s, new_name@)
                && crate::schema::has_index_nocase(s, new_name@)) ==> (r matches Some(e) && e
                matches TranslateError::NameInUse(n) && n@ == new_name@))
            &&& (r matches Some(e) ==> (e is NoSuchTable || e is NameInUse
                || e is TableNotAlterable || e is NoSuchColumn))
            &&& ((crate::schema::has_table_nocase(s, table.name@)
                && !crate::schema::has_table_nocase(s, new_name@)
                && !crate::schema::has_index_nocase(s, new_name@) && (forall|i: int|
                0 <= i < s.tables@.len() && nocase_seq_eq(
                    crate::schema::table_name(#[trigger] s.tables@[i]),
                    table.name@,
                ) ==> crate::alter::alterable(s.tables@[i], table.name@))
                && has_btree_table_nocase(s, crate::schema::catalog_table_name()) && (
            forall|i: int|
                0 <= i < s.tables@.len() ==> match #[trigger] s.tables@[i] {
                    Table::BTree(cbt) => nocase_seq_eq(
                        cbt.name@,
                        crate::schema::catalog_table_name(),
                    ) ==> catalog_cols_shape(column_names(cbt.columns@)),
                    Table::Virtual(_) => true,
                })) ==> r is None)
        },
        Stmt::Analyze { target } => {
            &&& (r matches Some(e) ==> (e is NoSuchTableOrIndex || e is AnalyzeWithoutRowId || e
                is NoSuchTable))
            &&& (target is None && crate::analyze::analyze_all_ok(s) ==> r is None)
        },
    }
}

/// The compiled catalog UPDATE of a statement is present: some table
/// of the schema matches the statement's target case-insensitively and
/// the instruction stream from position `k` on is its compilation.
pub open spec fn update_content(
    s: Schema,
    u: UpdateStmt,
    insns: Seq<crate::insn::Insn>,
    labels: Seq<Option<usize>>,
    k: int,
    l: int,
    c: int,
) -> bool {
    exists|ti: int|
        0 <= ti < s.tables@.len() && match #[trigger] s.tables@[ti] {
            Table::BTree(bt) => nocase_seq_eq(bt.name@, u.table@)
                && crate::update::update_emitted_at(
                insns,
                labels,
                u,
                bt.columns@.len() as int,
                bt.root_page,
                k,
                l,
                c,
            ),
            Table::Virtual(_) => false,
        }
}

/// The emission a successful rename leaves behind: the write
/// transaction, then the compilation of the catalog UPDATE built by
/// [`crate::alter::build_rename_update`] for the old name.
pub open spec fn rename_content(
    s: Schema,
    old_name: Seq<char>,
    insns: Seq<crate::insn::Insn>,
    labels: Seq<Option<usize>>,
    k: int,
    l: int,
    c: int,
) -> bool {
    &&& insns.len() > k
    &&& insns[k] == (crate::insn::Insn::Transaction { db: 0, write: true })
    &&& exists|uu: UpdateStmt|
        {
            &&& uu.table@ == crate::schema::catalog_table_name()
            &&& (uu.where_clause matches Some(c2) && crate::alter::rename_where_shape(
                c2,
                old_name,
            ))
            &&& uu.sets@.len() == 2
            &&& #[trigger] update_content(s, uu, insns, labels, k + 1, l, c)
        }
}

/// Translate one statement against an in-progress builder.
pub fn translate_inner(schema: &Schema, stmt: Stmt, b: ProgramBuilder) -> (r: Result<
    ProgramBuilder,
    TranslateError,
>)
    requires
        b.wf(),
        stmt_rank(stmt) > 0 ==> b.nested < usize::MAX,
        stmt_fits(*schema, stmt, b.next_register as int, b.next_cursor as int, b.labels@.len() as int),
    ensures
        r matches Ok(b2) ==> block_emitted(b, b2),
        stmt_outcome(*schema, stmt, err_of(r)),
        r matches Ok(b2) ==> (stmt matches Stmt::Update(u) ==> update_content(
            *schema,
            u,
            b2.insns@,
            b2.labels@,
            b.insns@.len() as int,
            b.labels@.len() as int,
            b.next_cursor as int,
        )),
        r matches Ok(b2) ==> (stmt matches Stmt::AlterTableRename { table, new_name }
            ==> rename_content(
            *schema,
            table.name@,
            b2.insns@,
            b2.labels@,
            b.insns@.len() as int,
            b.labels@.len() as int,
            b.next_cursor as int,
        )),
        r matches Ok(b2) ==> (stmt matches Stmt::Analyze { target } ==> (target is None ==> (
        forall|ti: int|
            0 <= ti < schema.tables@.len() ==> match #[trigger] schema.tables@[ti] {
                Table::BTree(bt) => !crate::text::is_prefix(
                    crate::schema::reserved_prefix(),
                    bt.name@,
                ) ==> crate::analyze::table_target_emitted(
                    b.insns@.len() as int,
                    b2.insns@,
                    bt.name@,
                    bt.root_page,
                ),
                Table::Virtual(_) => true,
            }))),
        r matches Ok(b2) ==> (stmt matches Stmt::Analyze { target } ==> (target matches Some(t)
            ==> ((!crate::analyze::analyze_targets_whole(t) && has_btree_table_nocase(
            *schema,
            t.name@,
        )) ==> (exists|ti: int|
            0 <= ti < schema.tables@.len() && match #[trigger] schema.tables@[ti] {
                Table::BTree(bt) => nocase_seq_eq(bt.name@, t.name@)
                    && crate::analyze::table_target_emitted(
                    b.insns@.len() as int,
                    b2.insns@,
                    bt.name@,
                    bt.root_page,
                ),
                Table::Virtual(_) => false,
            })))),
    decreases stmt_rank(stmt), 3int,
{
    match stmt {
        Stmt::AlterTableRename { table, new_name } => {
            crate::alter::translate_alter_table(
                DeepParseArgs { schema },
                &table,
                new_name.as_str(),
                b,
            )
        },
        Stmt::Analyze { target } => {
            crate::analyze::translate_analyze(
                match &target {
                    Some(t) => Some(t),
                    None => None,
                },
                schema,
                b,
            )
        },
        Stmt::Update(u) => translate_update(b, schema, &u),
    }
}

/// Recurse into the pipeline for a sub-statement a translator emits,
/// raising the nesting counter around the sub-compilation.
pub fn deep_parse(schema: &Schema, b: ProgramBuilder, stmt: Stmt) -> (r: Result<
    ProgramBuilder,
    TranslateError,
>)
    requires
        b.wf(),
        b.nested < usize::MAX,
        stmt_rank(stmt) > 0 ==> b.nested + 1 < usize::MAX,
        stmt_fits(*schema, stmt, b.next_register as int, b.next_cursor as int, b.labels@.len() as int),
    ensures
        r matches Ok(b2) ==> block_emitted(b, b2),
        stmt_outcome(*schema, stmt, err_of(r)),
        r matches Ok(b2) ==> (stmt matches Stmt::Update(u) ==> update_content(
            *schema,
            u,
            b2.insns@,
            b2.labels@,
            b.insns@.len() as int,
            b.labels@.len() as int,
            b.next_cursor as int,
        )),
    decreases stmt_rank(stmt), 4int,
{
    let ghost b0 = b;
    let mut b = b;
    b.nested = b.nested + 1;
    let ghost braised = b;
    let sub = translate_inner(schema, stmt, b);
    match sub {
        Err(e) => Err(e),
        Ok(done) => {
            let ghost bdone = done;
            let mut done = done;
            done.nested = done.nested - 1;
            proof {
                assert(block_emitted(braised, bdone));
                assert(block_emitted(b0, done)) by {
                    assert(done.insns@ == bdone.insns@);
                    assert(done.labels@ == bdone.labels@);
                    assert(done.insns@.subrange(0, b0.insns@.len() as int) == b0.insns@);
                }
            }
            Ok(done)
        },
    }
}

/// Translate one statement into a program ready for execution.
///
/// Every program handed out is label-complete: each label the
/// compilation allocated has been bound to an instruction position
/// exactly once.
pub fn translate(schema: &Schema, stmt: Stmt) -> (r: Result<Program, TranslateError>)
    requires
        stmt_fits(*schema, stmt, 1, 0, 0),
    ensures
        r matches Ok(p) ==> p.complete() && p.wf() && p.nested == 0,
        stmt_outcome(*schema, stmt, err_of(r)),
        r matches Ok(p) ==> (stmt matches Stmt::Update(u) ==> update_content(
            *schema,
            u,
            p.insns@,
            p.labels@,
            0,
            0,
            0,
        )),
        r matches Ok(p) ==> (stmt matches Stmt::AlterTableRename { table, new_name }
            ==> rename_content(*schema, table.name@, p.insns@, p.labels@, 0, 0, 0)),
        r matches Ok(p) ==> (stmt matches Stmt::Analyze { target } ==> (target is None ==> (
        forall|ti: int|
            0 <= ti < schema.tables@.len() ==> match #[trigger] schema.tables@[ti] {
                Table::BTree(bt) => !crate::text::is_prefix(
                    crate::schema::reserved_prefix(),
                    bt.name@,
                ) ==> crate::analyze::table_target_emitted(0, p.insns@, bt.name@, bt.root_page),
                Table::Virtual(_) => true,
            }))),
{
    let b = ProgramBuilder::new();
    let inner = translate_inner(schema, stmt, b);
    match inner {
        Err(e) => Err(e),
        Ok(b2) => {
            proof {
                assert forall|i: int| 0 <= i < b2.labels@.len() implies b2.labels@[i]
                    is Some by {}
            }
            Ok(b2.build())
        },
    }
}

} // verus!
