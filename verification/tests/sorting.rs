//! The multi-key sorter: ordering, flags, collations, and the count
//! round trip.

use vdbe_compiler::insn::CollationSeq;
use vdbe_compiler::sorter::{Record, Sorter};
use vdbe_compiler::value::Value;

fn rec(values: Vec<Value>) -> Record {
    Record { values }
}

fn int_rec(a: i64, b: i64) -> Record {
    rec(vec![Value::Integer(a), Value::Integer(b)])
}

fn drain(sorter: &mut Sorter) -> Vec<Record> {
    let mut out = Vec::new();
    while sorter.has_more() {
        match sorter.record() {
            Some(r) => out.push(Record {
                values: r
                    .values
                    .iter()
                    .map(|v| match v {
                        Value::Null => Value::Null,
                        Value::Integer(x) => Value::Integer(*x),
                        Value::Text(s) => Value::Text(s.clone()),
                        Value::Blob(b) => Value::Blob(b.clone()),
                    })
                    .collect(),
            }),
            None => break,
        }
        sorter.next();
    }
    out
}

#[test]
fn test_sorter_ascending() {
    let mut s = Sorter::new(vec![true], CollationSeq::Binary);
    s.insert(int_rec(3, 0));
    s.insert(int_rec(1, 0));
    s.insert(int_rec(2, 0));
    s.sort();
    let out = drain(&mut s);
    assert_eq!(out.len(), 3);
    assert_eq!(out[0].values[0], Value::Integer(1));
    assert_eq!(out[1].values[0], Value::Integer(2));
    assert_eq!(out[2].values[0], Value::Integer(3));
}

#[test]
fn test_sorter_descending() {
    let mut s = Sorter::new(vec![false], CollationSeq::Binary);
    s.insert(int_rec(3, 0));
    s.insert(int_rec(1, 0));
    s.insert(int_rec(2, 0));
    s.sort();
    let out = drain(&mut s);
    assert_eq!(out[0].values[0], Value::Integer(3));
    assert_eq!(out[1].values[0], Value::Integer(2));
    assert_eq!(out[2].values[0], Value::Integer(1));
}

#[test]
fn test_sorter_multi_key() {
    // Ascending on the first column, descending on the second.
    let mut s = Sorter::new(vec![true, false], CollationSeq::Binary);
    s.insert(int_rec(1, 1));
    s.insert(int_rec(2, 5));
    s.insert(int_rec(1, 9));
    s.sort();
    let out = drain(&mut s);
    assert_eq!(out[0], int_rec(1, 9));
    assert_eq!(out[1], int_rec(1, 1));
    assert_eq!(out[2], int_rec(2, 5));
}

#[test]
fn test_sorter_count_round_trip() {
    // The number of produced records equals the number inserted.
    let mut s = Sorter::new(vec![true], CollationSeq::Binary);
    for v in [5i64, 3, 9, 1, 7] {
        s.insert(int_rec(v, 0));
    }
    s.sort();
    let mut count = 0;
    while s.has_more() {
        count += 1;
        s.next();
    }
    assert_eq!(count, 5);
    assert!(!s.has_more());
}

#[test]
fn test_sorter_empty() {
    let mut s = Sorter::new(vec![true], CollationSeq::Binary);
    assert!(s.is_empty());
    s.sort();
    assert!(!s.has_more());
}

#[test]
fn test_sorter_nocase_collation() {
    let mut s = Sorter::new(vec![true], CollationSeq::NoCase);
    s.insert(rec(vec![Value::Text("b".to_string())]));
    s.insert(rec(vec![Value::Text("A".to_string())]));
    s.insert(rec(vec![Value::Text("C".to_string())]));
    s.sort();
    let out = drain(&mut s);
    assert_eq!(out[0].values[0], Value::Text("A".to_string()));
    assert_eq!(out[1].values[0], Value::Text("b".to_string()));
    assert_eq!(out[2].values[0], Value::Text("C".to_string()));
}

#[test]
fn test_sorter_type_ranks() {
    // NULL sorts before integers, integers before text, text before
    // byte strings.
    let mut s = Sorter::new(vec![true], CollationSeq::Binary);
    s.insert(rec(vec![Value::Blob(vec![1])]));
    s.insert(rec(vec![Value::Text("a".to_string())]));
    s.insert(rec(vec![Value::Null]));
    s.insert(rec(vec![Value::Integer(7)]));
    s.sort();
    let out = drain(&mut s);
    assert_eq!(out[0].values[0], Value::Null);
    assert_eq!(out[1].values[0], Value::Integer(7));
    assert_eq!(out[2].values[0], Value::Text("a".to_string()));
    assert_eq!(out[3].values[0], Value::Blob(vec![1]));
}

#[test]
fn test_sorter_equal_keys_keep_count() {
    let mut s = Sorter::new(vec![true], CollationSeq::Binary);
    s.insert(int_rec(1, 10));
    s.insert(int_rec(1, 20));
    s.insert(int_rec(1, 30));
    s.sort();
    let out = drain(&mut s);
    assert_eq!(out.len(), 3);
    for r in &out {
        assert_eq!(r.values[0], Value::Integer(1));
    }
}

#[test]
fn test_sorter_stability() {
    // Key-equal records come out in insertion order; the second column
    // is not part of the key.
    let mut s = Sorter::new(vec![true], CollationSeq::Binary);
    s.insert(int_rec(1, 10));
    s.insert(int_rec(2, 77));
    s.insert(int_rec(1, 20));
    s.insert(int_rec(1, 30));
    s.sort();
    let out = drain(&mut s);
    assert_eq!(out[0], int_rec(1, 10));
    assert_eq!(out[1], int_rec(1, 20));
    assert_eq!(out[2], int_rec(1, 30));
    assert_eq!(out[3], int_rec(2, 77));
}

#[test]
fn test_sorter_stability_nocase() {
    // Records equal under the case-insensitive collation keep their
    // insertion order.
    let mut s = Sorter::new(vec![true], CollationSeq::NoCase);
    s.insert(rec(vec![Value::Text("B".to_string())]));
    s.insert(rec(vec![Value::Text("a".to_string())]));
    s.insert(rec(vec![Value::Text("A".to_string())]));
    s.sort();
    let out = drain(&mut s);
    assert_eq!(out[0].values[0], Value::Text("a".to_string()));
    assert_eq!(out[1].values[0], Value::Text("A".to_string()));
    assert_eq!(out[2].values[0], Value::Text("B".to_string()));
}
