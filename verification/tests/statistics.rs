//! The statistics model: stat strings, the delete-then-reinsert
//! catalog semantics, and their idempotence.

use vdbe_compiler::stats::{
    ceil_div, change_index, index_stat_string, replace_stats, table_stat_row, StatRow,
};
use vdbe_compiler::value::Value;

fn text(s: &str) -> Value {
    Value::Text(s.to_string())
}

#[test]
fn test_stat_scenario_three_rows() {
    // Table T(a, b) with rows (1, "x"), (1, "y"), (2, "x") and an index
    // on (a, b), scanned in key order: 3 rows in total, on average 2
    // rows per distinct value of `a`, 1 per distinct pair (a, b).
    let rows = vec![
        vec![Value::Integer(1), text("x")],
        vec![Value::Integer(1), text("y")],
        vec![Value::Integer(2), text("x")],
    ];
    let colls = vec![None, None];
    let stat = index_stat_string(&rows, &colls);
    assert_eq!(stat, "3 2 1".to_string());
}

#[test]
fn test_stat_single_column() {
    let rows = vec![
        vec![Value::Integer(1)],
        vec![Value::Integer(1)],
        vec![Value::Integer(1)],
        vec![Value::Integer(2)],
    ];
    let colls = vec![None];
    let stat = index_stat_string(&rows, &colls);
    assert_eq!(stat, "4 2".to_string());
}

#[test]
fn test_stat_null_repeats_null() {
    // NULL counts as repeating NULL for prefix purposes.
    let rows = vec![vec![Value::Null], vec![Value::Null]];
    let colls = vec![None];
    let stat = index_stat_string(&rows, &colls);
    assert_eq!(stat, "2 2".to_string());
}

#[test]
fn test_change_index_positions() {
    let colls = vec![None, None];
    let a = vec![Value::Integer(1), text("x")];
    let b = vec![Value::Integer(1), text("y")];
    let c = vec![Value::Integer(2), text("x")];
    assert_eq!(change_index(&a, &b, &colls), 1);
    assert_eq!(change_index(&b, &c, &colls), 0);
    assert_eq!(change_index(&a, &a, &colls), 2);
}

#[test]
fn test_ceil_div_values() {
    assert_eq!(ceil_div(3, 2), 2);
    assert_eq!(ceil_div(4, 2), 2);
    assert_eq!(ceil_div(1, 3), 1);
    assert_eq!(ceil_div(0, 5), 0);
}

#[test]
fn test_empty_table_has_no_stat_row() {
    assert!(table_stat_row("users", 0).is_none());
    let row = table_stat_row("users", 3).unwrap();
    assert_eq!(row.tbl, "users".to_string());
    assert!(row.idx.is_none());
    assert_eq!(row.stat, "3".to_string());
}

fn fresh_rows() -> Vec<StatRow> {
    vec![
        StatRow { tbl: "users".to_string(), idx: None, stat: "3".to_string() },
        StatRow {
            tbl: "users".to_string(),
            idx: Some("users_name".to_string()),
            stat: "3 1".to_string(),
        },
    ]
}

#[test]
fn test_replace_stats_removes_prior_rows() {
    let catalog = vec![
        StatRow { tbl: "users".to_string(), idx: None, stat: "9".to_string() },
        StatRow { tbl: "orders".to_string(), idx: None, stat: "4".to_string() },
    ];
    let out = replace_stats(catalog, "users", fresh_rows());
    assert_eq!(out.len(), 3);
    assert_eq!(out[0].tbl, "orders".to_string());
    assert_eq!(out[1].stat, "3".to_string());
    assert_eq!(out[2].stat, "3 1".to_string());
}

#[test]
fn test_analyze_idempotence() {
    // Collecting statistics twice for an unchanged table leaves the
    // catalog exactly as one collection does.
    let catalog = vec![
        StatRow { tbl: "users".to_string(), idx: None, stat: "9".to_string() },
        StatRow { tbl: "orders".to_string(), idx: None, stat: "4".to_string() },
    ];
    let once = replace_stats(catalog, "users", fresh_rows());
    let copy: Vec<StatRow> = once
        .iter()
        .map(|r| StatRow { tbl: r.tbl.clone(), idx: r.idx.clone(), stat: r.stat.clone() })
        .collect();
    let twice = replace_stats(copy, "users", fresh_rows());
    assert_eq!(once, twice);
}

#[test]
fn test_replace_stats_case_insensitive() {
    let catalog = vec![StatRow { tbl: "Users".to_string(), idx: None, stat: "9".to_string() }];
    let out = replace_stats(catalog, "users", fresh_rows());
    assert_eq!(out.len(), 2);
    assert!(out.iter().all(|r| r.stat != "9".to_string()));
}
