//! The translator for `ALTER TABLE ... RENAME TO`.
//!
//! Renaming validates the schema first: the source table must exist, no
//! table or index may already use the target name, and system tables may
//! not be altered.  Any failed validation aborts the translation before
//! a single instruction is emitted.  On success the rename compiles into
//! one bulk UPDATE against the schema catalog table, rewriting the
//! `tbl_name`, `name` and autoindex-name columns of every catalog row
//! whose `tbl_name` matches the old name case-insensitively, restricted
//! to rows of kind table, index or trigger.  That UPDATE is itself
//! compiled recursively through the common translator pipeline.

use vstd::prelude::*;

use crate::ast::{
    col_index, eval_cond, eval_simple, sets_labels, sets_regs, update_cols_ok, where_labels,
    where_regs, Cond, Expr, SetClause, SimpleExpr, UpdateStmt,
};
use crate::insn::CollationSeq;
use crate::schema::{
    catalog_table_name, column_names, reserved_prefix, Table, VTabKind,
};
use crate::text::{clone_string, is_prefix, nocase_seq_eq};
use crate::value::{values_eq, Value};

verus! {

/// Whether a table may be altered: table-valued-function virtual tables
/// and tables carrying the reserved system prefix may not.
pub open spec fn alterable(table: Table, tbl_name: Seq<char>) -> bool {
    &&& !(table matches Table::Virtual(vt) && vt.kind == VTabKind::TableValuedFunction)
    &&& !is_prefix(reserved_prefix(), tbl_name)
}

/// Check whether a table may be altered.
pub fn is_alterable_table(table: &Table, tbl_name: &str) -> (r: bool)
    ensures
        r == alterable(*table, tbl_name@),
{
    match table {
        Table::Virtual(vt) => {
            if matches!(vt.kind, VTabKind::TableValuedFunction) {
                return false;
            }
        },
        Table::BTree(_) => {},
    }
    !crate::schema::is_reserved_table_name(tbl_name)
}

/// A condition of the form `type = '<kind>'`, compared without
/// collation.
pub open spec fn is_kind_eq(c: Cond, kind: Seq<char>) -> bool {
    match c {
        Cond::Eq { lhs, rhs, collation } => {
            &&& lhs matches SimpleExpr::Column(n) && n@ == "type"@
            &&& rhs matches SimpleExpr::Text(t) && t@ == kind
            &&& collation is None
        },
        _ => false,
    }
}

/// The WHERE clause a rename emits: `tbl_name` equals the old name
/// case-insensitively, and the row's kind is table, index or trigger.
pub open spec fn rename_where_shape(c: Cond, old: Seq<char>) -> bool {
    match c {
        Cond::And(a, b) => {
            &&& match *a {
                Cond::Eq { lhs, rhs, collation } => {
                    &&& lhs matches SimpleExpr::Column(n) && n@ == "tbl_name"@
                    &&& rhs matches SimpleExpr::Text(t) && t@ == old
                    &&& collation == Some(CollationSeq::NoCase)
                },
                _ => false,
            }
            &&& match *b {
                Cond::Or(x, y) => {
                    &&& is_kind_eq(*x, "table"@)
                    &&& match *y {
                        Cond::Or(p, q) => is_kind_eq(*p, "index"@) && is_kind_eq(
                            *q,
                            "trigger"@,
                        ),
                        _ => false,
                    }
                },
                _ => false,
            }
        },
        _ => false,
    }
}

/// The column names of the schema catalog table, in declaration order.
pub open spec fn catalog_cols_shape(cols: Seq<Seq<char>>) -> bool {
    &&& cols.len() == 5
    &&& cols[0] == "type"@
    &&& cols[1] == "name"@
    &&& cols[2] == "tbl_name"@
    &&& cols[3] == "rootpage"@
    &&& cols[4] == "sql"@
}

/// The text of a text value.
pub open spec fn text_of(v: Value) -> Seq<char> {
    match v {
        Value::Text(s) => s@,
        _ => Seq::<char>::empty(),
    }
}

/// The catalog column names are pairwise distinct, case-insensitively,
/// so each resolves to its own position.
proof fn lemma_catalog_col_positions(cols: Seq<Seq<char>>)
    requires
        catalog_cols_shape(cols),
    ensures
        col_index(cols, "type"@) == 0,
        col_index(cols, "name"@) == 1,
        col_index(cols, "tbl_name"@) == 2,
    {
    reveal_strlit("type");
    reveal_strlit("name");
    reveal_strlit("tbl_name");
    assert("type"@.len() == 4);
    assert("name"@.len() == 4);
    assert("tbl_name"@.len() == 8);
    assert(nocase_seq_eq("type"@, "type"@));
    assert(nocase_seq_eq("name"@, "name"@));
    assert(nocase_seq_eq("tbl_name"@, "tbl_name"@));
    assert(!nocase_seq_eq("type"@, "name"@)) by {
        assert(crate::text::lower_code("type"@[0]) == 116);
        assert(crate::text::lower_code("name"@[0]) == 110);
    }
    crate::ast::lemma_col_index_found(cols, "type"@, 0);
    crate::ast::lemma_col_index_found(cols, "name"@, 1);
    crate::ast::lemma_col_index_found(cols, "tbl_name"@, 2);
}

/// LAW — rename selectivity.  The rows a rename's catalog UPDATE admits
/// are exactly the catalog rows whose `tbl_name` equals the old table
/// name case-insensitively and whose kind is `table`, `index` or
/// `trigger`.
pub proof fn lemma_rename_where_matches(
    c: Cond,
    cols: Seq<Seq<char>>,
    row: Seq<Value>,
    old: Seq<char>,
)
    requires
        rename_where_shape(c, old),
        catalog_cols_shape(cols),
        row.len() == cols.len(),
        row[0] is Text,
        row[2] is Text,
    ensures
        (eval_cond(c, cols, row) == Some(true)) <==> (nocase_seq_eq(text_of(row[2]), old) && (
        text_of(row[0]) == "table"@ || text_of(row[0]) == "index"@ || text_of(row[0])
            == "trigger"@)),
{
    lemma_catalog_col_positions(cols);
    let and_a = c->And_0;
    let and_b = c->And_1;
    assert(eval_cond(*and_a, cols, row) == Some(nocase_seq_eq(text_of(row[2]), old))) by {
        match *and_a {
            Cond::Eq { lhs, rhs, collation } => {
                assert(eval_simple(lhs, cols, row) == Some(row[2]));
                match rhs {
                    SimpleExpr::Text(t) => {
                        assert(eval_simple(rhs, cols, row) == Some(Value::Text(t)));
                        assert(values_eq(collation, false, row[2], Value::Text(t))
                            == nocase_seq_eq(text_of(row[2]), old));
                    },
                    _ => {
                        assert(false);
                    },
                }
            },
            _ => {
                assert(false);
            },
        }
    }
    assert(eval_cond(*and_b, cols, row) == Some(text_of(row[0]) == "table"@ || text_of(row[0])
        == "index"@ || text_of(row[0]) == "trigger"@)) by {
        match *and_b {
            Cond::Or(x, y) => {
                lemma_kind_eq_eval(*x, cols, row, "table"@);
                match *y {
                    Cond::Or(p, q) => {
                        lemma_kind_eq_eval(*p, cols, row, "index"@);
                        lemma_kind_eq_eval(*q, cols, row, "trigger"@);
                        assert(eval_cond(*y, cols, row) == Some(text_of(row[0]) == "index"@
                            || text_of(row[0]) == "trigger"@));
                    },
                    _ => {
                        assert(false);
                    },
                }
            },
            _ => {
                assert(false);
            },
        }
    }
    assert(eval_cond(c, cols, row) == Some(nocase_seq_eq(text_of(row[2]), old) && (text_of(
        row[0],
    ) == "table"@ || text_of(row[0]) == "index"@ || text_of(row[0]) == "trigger"@)));
}

/// Evaluating `type = '<kind>'` over a catalog row tests the row's kind
/// for exact equality.
proof fn lemma_kind_eq_eval(c: Cond, cols: Seq<Seq<char>>, row: Seq<Value>, kind: Seq<char>)
    requires
        is_kind_eq(c, kind),
        catalog_cols_shape(cols),
        row.len() == cols.len(),
        row[0] is Text,
        col_index(cols, "type"@) == 0,
    ensures
        eval_cond(c, cols, row) == Some(text_of(row[0]) == kind),
{
    match c {
        Cond::Eq { lhs, rhs, collation } => {
            assert(eval_simple(lhs, cols, row) == Some(row[0]));
            match rhs {
                SimpleExpr::Text(t) => {
                    assert(eval_simple(rhs, cols, row) == Some(Value::Text(t)));
                    assert(values_eq(None, false, row[0], Value::Text(t)) == (text_of(row[0])
                        == kind));
                },
                _ => {
                    assert(false);
                },
            }
        },
        _ => {
            assert(false);
        },
    }
}

/// Build the catalog UPDATE a rename compiles into: rewrite `tbl_name`
/// to the new name, rewrite `name` to the new name for the table row
/// itself and for its autoindex rows, and keep every other name; admit
/// exactly the rows of kind table, index or trigger whose `tbl_name`
/// equals the old name case-insensitively.
pub fn build_rename_update(table_name: &str, new_name: &str) -> (u: UpdateStmt)
    requires
        table_name@.len() + 18 <= i64::MAX,
    ensures
        u.table@ == catalog_table_name(),
        match u.where_clause {
            Some(c) => rename_where_shape(c, table_name@),
            None => false,
        },
        u.sets@.len() == 2,
        u.sets@[0].column@ == "tbl_name"@,
        u.sets@[1].column@ == "name"@,
        u.sets@[0].value matches Expr::Simple(se) && se matches SimpleExpr::Text(t) && t@
            == new_name@,
        sets_regs(u.sets@, 0) == 13,
        sets_labels(u.sets@, 0) == 5,
        where_regs(u) == 8,
        where_labels(u) == 3,
        forall|cols: Seq<Seq<char>>|
            #[trigger] catalog_cols_shape(cols) ==> update_cols_ok(u, cols),
{
    let autoindex_start = (table_name.unicode_len() as i64) + 18;
    let where_clause = Cond::And(
        Box::new(
            Cond::Eq {
                lhs: SimpleExpr::Column(clone_string("tbl_name")),
                rhs: SimpleExpr::Text(clone_string(table_name)),
                collation: Some(CollationSeq::NoCase),
            },
        ),
        Box::new(
            Cond::Or(
                Box::new(
                    Cond::Eq {
                        lhs: SimpleExpr::Column(clone_string("type")),
                        rhs: SimpleExpr::Text(clone_string("table")),
                        collation: None,
                    },
                ),
                Box::new(
                    Cond::Or(
                        Box::new(
                            Cond::Eq {
                                lhs: SimpleExpr::Column(clone_string("type")),
                                rhs: SimpleExpr::Text(clone_string("index")),
                                collation: None,
                            },
                        ),
                        Box::new(
                            Cond::Eq {
                                lhs: SimpleExpr::Column(clone_string("type")),
                                rhs: SimpleExpr::Text(clone_string("trigger")),
                                collation: None,
                            },
                        ),
                    ),
                ),
            ),
        ),
    );
    let name_value = Expr::CaseWhen {
        when: Cond::Eq {
            lhs: SimpleExpr::Column(clone_string("type")),
            rhs: SimpleExpr::Text(clone_string("table")),
            collation: None,
        },
        then: Box::new(Expr::Simple(SimpleExpr::Text(clone_string(new_name)))),
        otherwise: Box::new(
            Expr::CaseWhen {
                when: Cond::And(
                    Box::new(
                        Cond::Like {
                            lhs: SimpleExpr::Column(clone_string("name")),
                            pattern: clone_string("sqlite_autoindex%"),
                        },
                    ),
                    Box::new(
                        Cond::Eq {
                            lhs: SimpleExpr::Column(clone_string("type")),
                            rhs: SimpleExpr::Text(clone_string("index")),
                            collation: None,
                        },
                    ),
                ),
                then: Box::new(
                    Expr::Concat(
                        Box::new(Expr::Simple(SimpleExpr::Text(clone_string(
                            "sqlite_autoindex_",
                        )))),
                        Box::new(
                            Expr::Concat(
                                Box::new(Expr::Simple(SimpleExpr::Text(clone_string(new_name)))),
                                Box::new(
                                    Expr::Substr(
                                        Box::new(Expr::Simple(SimpleExpr::Column(clone_string(
                                            "name",
                                        )))),
                                        Box::new(Expr::Simple(SimpleExpr::Int(autoindex_start))),
                                    ),
                                ),
                            ),
                        ),
                    ),
                ),
                otherwise: Box::new(Expr::Simple(SimpleExpr::Column(clone_string("name")))),
            },
        ),
    };
    let mut sets: Vec<SetClause> = Vec::new();
    sets.push(
        SetClause {
            column: clone_string("tbl_name"),
            value: Expr::Simple(SimpleExpr::Text(clone_string(new_name))),
        },
    );
    sets.push(SetClause { column: clone_string("name"), value: name_value });
    let u = UpdateStmt {
        table: clone_string("sqlite_schema"),
        sets,
        where_clause: Some(where_clause),
    };
    proof {
        reveal_with_fuel(crate::ast::expr_regs, 10);
        reveal_with_fuel(crate::ast::cond_regs, 10);
        reveal_with_fuel(crate::ast::expr_labels, 10);
        reveal_with_fuel(crate::ast::cond_labels, 10);
        reveal_with_fuel(crate::ast::sets_regs, 4);
        reveal_with_fuel(crate::ast::sets_labels, 4);
        reveal_with_fuel(crate::ast::expr_cols_ok, 10);
        reveal_with_fuel(crate::ast::cond_cols_ok, 10);
        assert(u.table@ == catalog_table_name());
        assert(sets_regs(u.sets@, 2) == 0);
        assert(sets_regs(u.sets@, 1) == 13);
        assert(sets_labels(u.sets@, 2) == 0);
        assert(sets_labels(u.sets@, 1) == 5);
        assert forall|cols: Seq<Seq<char>>| #[trigger] catalog_cols_shape(cols) implies
            update_cols_ok(u, cols) by {
            lemma_catalog_col_positions(cols);
        }
    }
    u
}

/// Translate `ALTER TABLE ... RENAME TO`.
///
/// The validations run first, in order: the source table must exist, no
/// table may already use the target name, no index may already use the
/// target name, and the source table must be alterable.  A failed
/// validation aborts with nothing emitted.  On success the translation
/// starts a write transaction and compiles the catalog UPDATE built by
/// [`build_rename_update`] recursively through the common pipeline,
/// with the nesting counter raised around the sub-compilation.
pub fn translate_alter_table_rename_to(
    schema: &crate::schema::Schema,
    tbl_name: &crate::ast::QualifiedName,
    new_tbl_name: &str,
    b: crate::builder::ProgramBuilder,
) -> (r: Result<crate::builder::ProgramBuilder, crate::TranslateError>)
    requires
        b.wf(),
        b.nested < usize::MAX,
        tbl_name.name@.len() + 18 <= i64::MAX,
        forall|i: int|
            0 <= i < schema.tables@.len() ==> match #[trigger] schema.tables@[i] {
                crate::schema::Table::BTree(cbt) => nocase_seq_eq(
                    cbt.name@,
                    catalog_table_name(),
                ) ==> b.next_register + 25 + cbt.columns@.len() <= usize::MAX,
                crate::schema::Table::Virtual(_) => true,
            },
        b.labels@.len() + 16 <= u32::MAX,
        b.next_cursor + 2 <= usize::MAX,
    ensures
        r matches Ok(b2) ==> crate::control::block_emitted(b, b2),
        r matches Ok(b2) ==> b2.insns@[b.insns@.len() as int] == (crate::insn::Insn::Transaction {
            db: 0,
            write: true,
        }),
        r matches Ok(b2) ==> crate::translate::rename_content(
            *schema,
            tbl_name.name@,
            b2.insns@,
            b2.labels@,
            b.insns@.len() as int,
            b.labels@.len() as int,
            b.next_cursor as int,
        ),
        !crate::schema::has_table_nocase(*schema, tbl_name.name@) ==> (r matches Err(e) && e
            matches crate::TranslateError::NoSuchTable(n) && n@ == tbl_name.name@),
        (crate::schema::has_table_nocase(*schema, tbl_name.name@)
            && crate::schema::has_table_nocase(*schema, new_tbl_name@)) ==> (r matches Err(e)
            && e matches crate::TranslateError::NameInUse(n) && n@ == new_tbl_name@),
        (crate::schema::has_table_nocase(*schema, tbl_name.name@)
            && !crate::schema::has_table_nocase(*schema, new_tbl_name@)
            && crate::schema::has_index_nocase(*schema, new_tbl_name@)) ==> (r matches Err(e)
            && e matches crate::TranslateError::NameInUse(n) && n@ == new_tbl_name@),
        r matches Err(e) ==> (e is NoSuchTable || e is NameInUse || e is TableNotAlterable || e
            is NoSuchColumn),
        r matches Err(e) ==> (e is TableNotAlterable ==> exists|i: int|
            0 <= i < schema.tables@.len() && nocase_seq_eq(
                crate::schema::table_name(#[trigger] schema.tables@[i]),
                tbl_name.name@,
            ) && !alterable(schema.tables@[i], tbl_name.name@)),
        (crate::schema::has_table_nocase(*schema, tbl_name.name@)
            && !crate::schema::has_table_nocase(*schema, new_tbl_name@)
            && !crate::schema::has_index_nocase(*schema, new_tbl_name@) && (forall|i: int|
            0 <= i < schema.tables@.len() && nocase_seq_eq(
                crate::schema::table_name(#[trigger] schema.tables@[i]),
                tbl_name.name@,
            ) ==> alterable(schema.tables@[i], tbl_name.name@))
            && crate::schema::has_btree_table_nocase(*schema, catalog_table_name()) && (
        forall|i: int|
            0 <= i < schema.tables@.len() ==> match #[trigger] schema.tables@[i] {
                crate::schema::Table::BTree(cbt) => nocase_seq_eq(
                    cbt.name@,
                    catalog_table_name(),
                ) ==> catalog_cols_shape(column_names(cbt.columns@)),
                crate::schema::Table::Virtual(_) => true,
            })) ==> r is Ok,
    decreases 1int, 1int,
{
    broadcast use crate::builder::lemma_extends_trans_auto;
    broadcast use crate::control::lemma_block_emitted_trans_auto;

    let table_name = tbl_name.name.as_str();
    let table = match schema.get_table(table_name) {
        None => {
            return Err(crate::TranslateError::NoSuchTable(clone_string(table_name)));
        },
        Some(t) => t,
    };
    // No table, virtual table or index may already use the target name.
    match schema.get_table(new_tbl_name) {
        Some(_) => {
            return Err(crate::TranslateError::NameInUse(clone_string(new_tbl_name)));
        },
        None => {},
    }
    if schema.has_index_named(new_tbl_name) {
        return Err(crate::TranslateError::NameInUse(clone_string(new_tbl_name)));
    }
    // System tables and table-valued functions may not be altered.
    if !is_alterable_table(table, table_name) {
        return Err(crate::TranslateError::TableNotAlterable(clone_string(table_name)));
    }
    let ghost b0 = b;
    let mut b = b;
    b.emit_transaction(true);
    let ghost b1 = b;
    proof {
        crate::control::lemma_plain_emit_block(
            b0,
            b1,
            crate::insn::Insn::Transaction { db: 0, write: true },
        );
    }
    // Rewrite the catalog rows of this table through the self-hosted
    // UPDATE, compiled recursively at raised nesting depth.
    let u = build_rename_update(table_name, new_tbl_name);
    let ghost uv = u;
    let sub = crate::translate::deep_parse(schema, b, crate::ast::Stmt::Update(u));
    match sub {
        Err(e) => Err(e),
        Ok(b2) => {
            proof {
                assert(crate::control::block_emitted(b0, b2));
                assert(b2.insns@[b0.insns@.len() as int] == b1.insns@[b0.insns@.len() as int])
                    by {
                    assert(b2.insns@.subrange(0, b1.insns@.len() as int) =~= b1.insns@);
                }
                assert(crate::translate::update_content(
                    *schema,
                    uv,
                    b2.insns@,
                    b2.labels@,
                    b0.insns@.len() as int + 1,
                    b0.labels@.len() as int,
                    b0.next_cursor as int,
                ));
            }
            Ok(b2)
        },
    }
}

/// Translate an ALTER TABLE statement.  Renaming is the one alteration
/// this core compiles; it delegates to
/// [`translate_alter_table_rename_to`].
pub fn translate_alter_table(
    args: crate::translate::DeepParseArgs,
    tbl_name: &crate::ast::QualifiedName,
    new_tbl_name: &str,
    b: crate::builder::ProgramBuilder,
) -> (r: Result<crate::builder::ProgramBuilder, crate::TranslateError>)
    requires
        b.wf(),
        b.nested < usize::MAX,
        tbl_name.name@.len() + 18 <= i64::MAX,
        forall|i: int|
            0 <= i < args.schema.tables@.len() ==> match #[trigger] args.schema.tables@[i] {
                crate::schema::Table::BTree(cbt) => nocase_seq_eq(
                    cbt.name@,
                    catalog_table_name(),
                ) ==> b.next_register + 25 + cbt.columns@.len() <= usize::MAX,
                crate::schema::Table::Virtual(_) => true,
            },
        b.labels@.len() + 16 <= u32::MAX,
        b.next_cursor + 2 <= usize::MAX,
    ensures
        r matches Ok(b2) ==> crate::control::block_emitted(b, b2),
        r matches Ok(b2) ==> crate::translate::rename_content(
            *args.schema,
            tbl_name.name@,
            b2.insns@,
            b2.labels@,
            b.insns@.len() as int,
            b.labels@.len() as int,
            b.next_cursor as int,
        ),
        !crate::schema::has_table_nocase(*args.schema, tbl_name.name@) ==> (r matches Err(e) && e
            matches crate::TranslateError::NoSuchTable(n) && n@ == tbl_name.name@),
        (crate::schema::has_table_nocase(*args.schema, tbl_name.name@)
            && crate::schema::has_table_nocase(*args.schema, new_tbl_name@)) ==> (r matches Err(
        e) && e matches crate::TranslateError::NameInUse(n) && n@ == new_tbl_name@),
        (crate::schema::has_table_nocase(*args.schema, tbl_name.name@)
            && !crate::schema::has_table_nocase(*args.schema, new_tbl_name@)
            && crate::schema::has_index_nocase(*args.schema, new_tbl_name@)) ==> (r matches Err(
        e) && e matches crate::TranslateError::NameInUse(n) && n@ == new_tbl_name@),
        r matches Err(e) ==> (e is NoSuchTable || e is NameInUse || e is TableNotAlterable || e
            is NoSuchColumn),
        r matches Err(e) ==> (e is TableNotAlterable ==> exists|i: int|
            0 <= i < args.schema.tables@.len() && nocase_seq_eq(
                crate::schema::table_name(#[trigger] args.schema.tables@[i]),
                tbl_name.name@,
            ) && !alterable(args.schema.tables@[i], tbl_name.name@)),
        (crate::schema::has_table_nocase(*args.schema, tbl_name.name@)
            && !crate::schema::has_table_nocase(*args.schema, new_tbl_name@)
            && !crate::schema::has_index_nocase(*args.schema, new_tbl_name@) && (forall|i: int|
            0 <= i < args.schema.tables@.len() && nocase_seq_eq(
                crate::schema::table_name(#[trigger] args.schema.tables@[i]),
                tbl_name.name@,
            ) ==> alterable(args.schema.tables@[i], tbl_name.name@))
            && crate::schema::has_btree_table_nocase(*args.schema, catalog_table_name()) && (
        forall|i: int|
            0 <= i < args.schema.tables@.len() ==> match #[trigger] args.schema.tables@[i] {
                crate::schema::Table::BTree(cbt) => nocase_seq_eq(
                    cbt.name@,
                    catalog_table_name(),
                ) ==> catalog_cols_shape(column_names(cbt.columns@)),
                crate::schema::Table::Virtual(_) => true,
            })) ==> r is Ok,
    decreases 1int, 2int,
{
    translate_alter_table_rename_to(args.schema, tbl_name, new_tbl_name, b)
}

} // verus!
