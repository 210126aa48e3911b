//! Statement translation end to end: validation, emission, label
//! completeness.

use vdbe_compiler::ast::{QualifiedName, SetClause, SimpleExpr, Stmt, UpdateStmt};
use vdbe_compiler::insn::Insn;
use vdbe_compiler::schema::{
    BTreeTable, ColumnInfo, Index, IndexColumn, Schema, Table, VTabKind, VirtualTable,
};
use vdbe_compiler::translate::translate;
use vdbe_compiler::TranslateError;

fn col(name: &str) -> ColumnInfo {
    ColumnInfo { name: name.to_string(), collation: None }
}

fn btree(name: &str, root: usize, cols: Vec<ColumnInfo>) -> Table {
    Table::BTree(BTreeTable {
        name: name.to_string(),
        root_page: root,
        has_rowid: true,
        columns: cols,
    })
}

fn catalog_table() -> Table {
    btree(
        "sqlite_schema",
        1,
        vec![col("type"), col("name"), col("tbl_name"), col("rootpage"), col("sql")],
    )
}

fn demo_schema() -> Schema {
    Schema {
        tables: vec![
            catalog_table(),
            btree("users", 2, vec![col("id"), col("name")]),
            btree("orders", 3, vec![col("id"), col("user_id")]),
        ],
        indexes: vec![Index {
            name: "users_name".to_string(),
            table_name: "users".to_string(),
            root_page: 4,
            columns: vec![IndexColumn {
                name: "name".to_string(),
                pos_in_table: 1,
                collation: None,
                descending: false,
            }],
            has_custom_method: false,
        }],
        schema_version: 1,
    }
}

fn rename(table: &str, new_name: &str) -> Stmt {
    Stmt::AlterTableRename {
        table: QualifiedName { db_name: None, name: table.to_string() },
        new_name: new_name.to_string(),
    }
}

#[test]
fn test_rename_missing_table() {
    let schema = demo_schema();
    let r = translate(&schema, rename("absent", "fresh"));
    assert_eq!(r.err().unwrap(), TranslateError::NoSuchTable("absent".to_string()));
}

#[test]
fn test_rename_to_existing_table() {
    let schema = demo_schema();
    let r = translate(&schema, rename("users", "orders"));
    assert_eq!(r.err().unwrap(), TranslateError::NameInUse("orders".to_string()));
}

#[test]
fn test_rename_to_existing_index() {
    let schema = demo_schema();
    let r = translate(&schema, rename("users", "users_name"));
    assert_eq!(r.err().unwrap(), TranslateError::NameInUse("users_name".to_string()));
}

#[test]
fn test_rename_system_table() {
    let schema = demo_schema();
    let r = translate(&schema, rename("sqlite_schema", "fresh"));
    assert_eq!(
        r.err().unwrap(),
        TranslateError::TableNotAlterable("sqlite_schema".to_string())
    );
}

#[test]
fn test_rename_table_valued_function() {
    let mut schema = demo_schema();
    schema.tables.push(Table::Virtual(VirtualTable {
        name: "gen".to_string(),
        module_name: "generator".to_string(),
        kind: VTabKind::TableValuedFunction,
    }));
    let r = translate(&schema, rename("gen", "fresh"));
    assert_eq!(r.err().unwrap(), TranslateError::TableNotAlterable("gen".to_string()));
}

#[test]
fn test_rename_succeeds_and_is_label_complete() {
    let schema = demo_schema();
    let p = translate(&schema, rename("users", "people")).unwrap();
    assert_eq!(p.unresolved_count(), 0);
    assert!(p.instruction_count() > 0);
    assert!(matches!(p.instructions()[0], Insn::Transaction { write: true, .. }));
    // The rename compiled its catalog UPDATE recursively: the program
    // scans the catalog table and writes rows back.
    assert!(p.instructions().iter().any(|i| matches!(i, Insn::OpenWrite { .. })));
    assert!(p.instructions().iter().any(|i| matches!(i, Insn::Rewind { .. })));
    assert!(p.instructions().iter().any(|i| matches!(i, Insn::Insert { .. })));
    assert_eq!(p.nesting_depth(), 0);
}

#[test]
fn test_rename_case_insensitive_lookup() {
    let schema = demo_schema();
    let p = translate(&schema, rename("USERS", "people")).unwrap();
    assert_eq!(p.unresolved_count(), 0);
}

#[test]
fn test_update_missing_table() {
    let schema = demo_schema();
    let stmt = Stmt::Update(UpdateStmt {
        table: "absent".to_string(),
        sets: vec![],
        where_clause: None,
    });
    let r = translate(&schema, stmt);
    assert_eq!(r.err().unwrap(), TranslateError::NoSuchTable("absent".to_string()));
}

#[test]
fn test_update_missing_column() {
    let schema = demo_schema();
    let stmt = Stmt::Update(UpdateStmt {
        table: "users".to_string(),
        sets: vec![SetClause {
            column: "absent".to_string(),
            value: vdbe_compiler::ast::Expr::Simple(SimpleExpr::Int(1)),
        }],
        where_clause: None,
    });
    let r = translate(&schema, stmt);
    assert_eq!(r.err().unwrap(), TranslateError::NoSuchColumn("absent".to_string()));
}

#[test]
fn test_update_emits_scan_and_writeback() {
    let schema = demo_schema();
    let stmt = Stmt::Update(UpdateStmt {
        table: "users".to_string(),
        sets: vec![SetClause {
            column: "name".to_string(),
            value: vdbe_compiler::ast::Expr::Simple(SimpleExpr::Text("renamed".to_string())),
        }],
        where_clause: None,
    });
    let p = translate(&schema, stmt).unwrap();
    assert_eq!(p.unresolved_count(), 0);
    assert!(p.instructions().iter().any(|i| matches!(i, Insn::OpenWrite { .. })));
    assert!(p.instructions().iter().any(|i| matches!(i, Insn::MakeRecord { .. })));
    assert!(p.instructions().iter().any(|i| matches!(i, Insn::Insert { .. })));
}

#[test]
fn test_analyze_unknown_target() {
    let schema = demo_schema();
    let stmt = Stmt::Analyze {
        target: Some(QualifiedName { db_name: None, name: "absent".to_string() }),
    };
    let r = translate(&schema, stmt);
    assert_eq!(
        r.err().unwrap(),
        TranslateError::NoSuchTableOrIndex("absent".to_string())
    );
}

#[test]
fn test_analyze_without_rowid() {
    let mut schema = demo_schema();
    schema.tables.push(Table::BTree(BTreeTable {
        name: "norowid".to_string(),
        root_page: 9,
        has_rowid: false,
        columns: vec![col("k")],
    }));
    let stmt = Stmt::Analyze {
        target: Some(QualifiedName { db_name: None, name: "norowid".to_string() }),
    };
    let r = translate(&schema, stmt);
    assert_eq!(
        r.err().unwrap(),
        TranslateError::AnalyzeWithoutRowId("norowid".to_string())
    );
}

#[test]
fn test_analyze_whole_schema_is_label_complete() {
    let mut schema = demo_schema();
    // The statistics catalog exists already.
    schema.tables.push(btree("sqlite_stat1", 7, vec![col("tbl"), col("idx"), col("stat")]));
    let stmt = Stmt::Analyze { target: None };
    let p = translate(&schema, stmt).unwrap();
    assert_eq!(p.unresolved_count(), 0);
    assert!(p.instructions().iter().any(|i| matches!(i, Insn::Count { .. })));
    assert!(p.instructions().iter().any(|i| matches!(i, Insn::Delete { .. })));
    assert!(p
        .instructions()
        .iter()
        .any(|i| matches!(i, Insn::Function { func: vdbe_compiler::insn::ScalarFunc::StatPush, .. })));
}

#[test]
fn test_analyze_creates_statistics_catalog() {
    let schema = demo_schema();
    let stmt = Stmt::Analyze { target: None };
    let p = translate(&schema, stmt).unwrap();
    assert_eq!(p.unresolved_count(), 0);
    assert!(p.instructions().iter().any(|i| matches!(i, Insn::CreateBtree { .. })));
    assert!(p.instructions().iter().any(|i| matches!(i, Insn::ParseSchema { .. })));
    assert!(p.instructions().iter().any(|i| matches!(i, Insn::SetCookie { .. })));
}

#[test]
fn test_analyze_single_index_target() {
    let mut schema = demo_schema();
    schema.tables.push(btree("sqlite_stat1", 7, vec![col("tbl"), col("idx"), col("stat")]));
    let stmt = Stmt::Analyze {
        target: Some(QualifiedName { db_name: None, name: "users_name".to_string() }),
    };
    let p = translate(&schema, stmt).unwrap();
    assert_eq!(p.unresolved_count(), 0);
    assert!(p.instructions().iter().any(|i| matches!(i, Insn::OpenRead { .. })));
}

#[test]
fn test_build_rename_update_shape() {
    let u = vdbe_compiler::alter::build_rename_update("users", "people");
    assert_eq!(u.table, "sqlite_schema".to_string());
    assert_eq!(u.sets.len(), 2);
    assert_eq!(u.sets[0].column, "tbl_name".to_string());
    assert_eq!(u.sets[1].column, "name".to_string());
    assert!(u.where_clause.is_some());
}

#[test]
fn test_analyze_empty_schema() {
    // Only system tables: nothing to analyze, nothing emitted.
    let schema = Schema {
        tables: vec![catalog_table()],
        indexes: vec![],
        schema_version: 1,
    };
    let p = translate(&schema, Stmt::Analyze { target: None }).unwrap();
    assert_eq!(p.instruction_count(), 0);
    assert_eq!(p.unresolved_count(), 0);
}
