use dispo_rows::cell::Value;
use dispo_rows::parse_error::ParseFilesError;
use dispo_rows::table::{Column, RawTable};

fn text(s: &str) -> Value {
    Value::Text(String::from(s))
}

fn table(cols: Vec<(&str, Vec<Value>)>) -> RawTable {
    RawTable {
        columns: cols
            .into_iter()
            .map(|(name, values)| Column { name: String::from(name), values })
            .collect(),
    }
}

#[test]
fn select_projects_in_order() {
    let t = table(vec![
        ("A", vec![Value::Int(1), Value::Int(2)]),
        ("B", vec![text("x"), text("y")]),
        ("C", vec![Value::Null, Value::Bool(true)]),
    ]);
    let out = t.select(&["C", "A"]).unwrap();
    assert_eq!(out.columns.len(), 2);
    assert_eq!(out.columns[0].name, "C");
    assert_eq!(out.columns[1].name, "A");
    assert_eq!(out.height(), 2);
    assert!(matches!(out.columns[1].values[1], Value::Int(2)));
}

#[test]
fn select_reports_the_missing_column() {
    let t = table(vec![("A", vec![Value::Int(1)])]);
    match t.select(&["A", "B"]).unwrap_err() {
        ParseFilesError::TableError(m) => assert_eq!(m, "column not found: B"),
        _ => panic!("expected TableError"),
    }
}

#[test]
fn inner_join_builds_the_cross_product_of_matches() {
    let left = table(vec![
        ("K", vec![text("a"), text("b"), text("a")]),
        ("L", vec![Value::Int(1), Value::Int(2), Value::Int(3)]),
    ]);
    let right = table(vec![
        ("K", vec![text("a"), text("a")]),
        ("R", vec![Value::Int(10), Value::Int(20)]),
    ]);
    let joined = left.inner_join(&right, "K").unwrap();
    assert_eq!(joined.columns.len(), 3);
    assert_eq!(joined.columns[0].name, "K");
    assert_eq!(joined.columns[1].name, "L");
    assert_eq!(joined.columns[2].name, "R");
    // Rows a1, b2, a3 against a10, a20: left-major order.
    assert_eq!(joined.height(), 4);
    let l: Vec<i64> = joined.columns[1]
        .values
        .iter()
        .map(|v| match v {
            Value::Int(i) => *i,
            _ => panic!("expected int"),
        })
        .collect();
    let r: Vec<i64> = joined.columns[2]
        .values
        .iter()
        .map(|v| match v {
            Value::Int(i) => *i,
            _ => panic!("expected int"),
        })
        .collect();
    assert_eq!(l, vec![1, 1, 3, 3]);
    assert_eq!(r, vec![10, 20, 10, 20]);
}

#[test]
fn inner_join_rejects_a_clashing_column_name() {
    let left = table(vec![("K", vec![text("a")]), ("X", vec![Value::Int(1)])]);
    let right = table(vec![("K", vec![text("a")]), ("X", vec![Value::Int(2)])]);
    match left.inner_join(&right, "K").unwrap_err() {
        ParseFilesError::TableError(m) => assert_eq!(m, "duplicate column name: X"),
        _ => panic!("expected TableError"),
    }
}

#[test]
fn inner_join_requires_the_key_on_both_sides() {
    let left = table(vec![("K", vec![text("a")])]);
    let right = table(vec![("J", vec![text("a")])]);
    match left.inner_join(&right, "K").unwrap_err() {
        ParseFilesError::TableError(m) => assert_eq!(m, "column not found: K"),
        _ => panic!("expected TableError"),
    }
}

#[test]
fn join_keys_compare_exactly() {
    let left = table(vec![("K", vec![text("A"), Value::Int(1), Value::Null])]);
    let right = table(vec![
        ("K", vec![text("a"), Value::Int(1), Value::Null]),
        ("R", vec![text("r1"), text("r2"), text("r3")]),
    ]);
    let joined = left.inner_join(&right, "K").unwrap();
    // "A" does not match "a"; the integer and the two nulls match.
    assert_eq!(joined.height(), 2);
}
