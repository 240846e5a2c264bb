use sqlvm::expr::{apply_binary, apply_function, apply_unary, like, BinOp, ColumnRef, Expr, ExprError, UnOp};
use sqlvm::ops::{filter_table, limit_table, order_table, project_table};
use sqlvm::table::{Column, Row, Table};
use sqlvm::value::{text_less, DataType, Value};
use sqlvm::vm::RuntimeError;

fn column(name: &str, t: DataType) -> Column {
    Column::new(name.to_string(), t, Vec::new(), false)
}

fn table(names: &[&str], rows: Vec<Vec<Value>>) -> Table {
    Table {
        name: "t".to_string(),
        columns: names.iter().map(|n| column(n, DataType::Int)).collect(),
        raw_data: rows.into_iter().map(|data| Row { data }).collect(),
        temporary: false,
    }
}

fn ints(rows: &[&[i64]]) -> Vec<Vec<Value>> {
    rows.iter().map(|r| r.iter().map(|i| Value::Int(*i)).collect()).collect()
}

fn as_ints(t: &Table) -> Vec<Vec<i64>> {
    t.raw_data
        .iter()
        .map(|r| r.data.iter().map(|v| if let Value::Int(i) = v { *i } else { panic!("{:?}", v) }).collect())
        .collect()
}

fn col(name: &str) -> Expr {
    Expr::ColumnRef(ColumnRef { table: None, name: name.to_string() })
}

fn gt(name: &str, k: i64) -> Expr {
    Expr::Binary { left: Box::new(col(name)), op: BinOp::GreaterThan, right: Box::new(Expr::Value(Value::Int(k))) }
}

#[test]
fn filter_keeps_order_and_shrinks() {
    let mut t = table(&["a"], ints(&[&[5], &[1], &[7], &[3], &[9]]));
    filter_table(&mut t, &gt("a", 2)).unwrap();
    assert_eq!(as_ints(&t), vec![vec![5], vec![7], vec![3], vec![9]]);
}

#[test]
fn filter_twice_is_filter_once() {
    let mut t = table(&["a"], ints(&[&[5], &[1], &[7]]));
    filter_table(&mut t, &gt("a", 4)).unwrap();
    let once = as_ints(&t);
    filter_table(&mut t, &gt("a", 4)).unwrap();
    assert_eq!(as_ints(&t), once);
}

#[test]
fn filter_all_null_is_empty() {
    let mut t = table(&["a"], ints(&[&[5], &[1]]));
    filter_table(&mut t, &Expr::Value(Value::Null)).unwrap();
    assert!(t.raw_data.is_empty());
}

#[test]
fn filter_non_boolean_fails() {
    let mut t = table(&["a"], ints(&[&[5]]));
    let r = filter_table(&mut t, &col("a"));
    assert!(matches!(r, Err(RuntimeError::FilterWithNonBoolean(Value::Int(5)))));
    assert_eq!(as_ints(&t), vec![vec![5]]);
}

#[test]
fn filter_unknown_column_fails() {
    let mut t = table(&["a"], ints(&[&[5]]));
    let r = filter_table(&mut t, &gt("zz", 1));
    assert!(matches!(r, Err(RuntimeError::ExprError(ExprError::ColumnNotFound(ref c))) if c == "zz"));
}

#[test]
fn order_is_stable_rearrangement() {
    let mut t = table(&["k", "id"], ints(&[&[2, 0], &[1, 1], &[2, 2], &[1, 3]]));
    order_table(&mut t, &col("k"), true).unwrap();
    assert_eq!(as_ints(&t), vec![vec![1, 1], vec![1, 3], vec![2, 0], vec![2, 2]]);
    let mut d = table(&["k", "id"], ints(&[&[2, 0], &[1, 1], &[3, 2]]));
    order_table(&mut d, &col("k"), false).unwrap();
    assert_eq!(as_ints(&d), vec![vec![3, 2], vec![2, 0], vec![1, 1]]);
}

#[test]
fn order_sorted_is_identity() {
    let mut t = table(&["k"], ints(&[&[1], &[2], &[2], &[8]]));
    order_table(&mut t, &col("k"), true).unwrap();
    assert_eq!(as_ints(&t), vec![vec![1], vec![2], vec![2], vec![8]]);
}

#[test]
fn order_empty_table() {
    let mut t = table(&["k"], vec![]);
    order_table(&mut t, &col("k"), true).unwrap();
    assert!(t.raw_data.is_empty());
}

#[test]
fn order_nulls_first_and_text() {
    let mut t = Table {
        name: "t".to_string(),
        columns: vec![column("s", DataType::Text)],
        raw_data: vec![
            Row { data: vec![Value::Text("pear".to_string())] },
            Row { data: vec![Value::Null] },
            Row { data: vec![Value::Text("apple".to_string())] },
        ],
        temporary: false,
    };
    order_table(&mut t, &col("s"), true).unwrap();
    assert!(matches!(t.raw_data[0].data[0], Value::Null));
    assert!(matches!(&t.raw_data[1].data[0], Value::Text(s) if s == "apple"));
    assert!(matches!(&t.raw_data[2].data[0], Value::Text(s) if s == "pear"));
}

#[test]
fn limit_takes_prefix() {
    let mut t = table(&["a"], ints(&[&[1], &[2], &[3]]));
    limit_table(&mut t, 2);
    assert_eq!(as_ints(&t), vec![vec![1], vec![2]]);
    limit_table(&mut t, 10);
    assert_eq!(t.raw_data.len(), 2);
    limit_table(&mut t, 0);
    assert!(t.raw_data.is_empty());
}

#[test]
fn project_wildcard_onto_empty_copies_all() {
    let inp = table(&["a", "b"], ints(&[&[1, 2], &[3, 4]]));
    let mut out = Table::new_temp(9);
    project_table(&inp, &mut out, &Expr::Wildcard, None).unwrap();
    assert_eq!(out.columns.len(), 2);
    assert_eq!(out.columns[1].name, "b");
    assert_eq!(as_ints(&out), vec![vec![1, 2], vec![3, 4]]);
}

#[test]
fn project_keeps_row_count_and_names_column() {
    let inp = table(&["a", "b"], ints(&[&[1, 2], &[3, 4]]));
    let mut out = Table::new_temp(9);
    project_table(&inp, &mut out, &col("b"), None).unwrap();
    project_table(&inp, &mut out, &col("a"), Some("x".to_string())).unwrap();
    assert_eq!(out.raw_data.len(), 2);
    assert_eq!(out.columns[0].name, "?column?");
    assert_eq!(out.columns[1].name, "x");
    assert_eq!(as_ints(&out), vec![vec![2, 1], vec![4, 3]]);
}

#[test]
fn project_size_mismatch() {
    let inp = table(&["a"], ints(&[&[1], &[2]]));
    let mut out = table(&["z"], ints(&[&[1]]));
    let r = project_table(&inp, &mut out, &col("a"), None);
    assert!(matches!(r, Err(RuntimeError::ProjectTableSizeMismatch { inp_table_len: 2, out_table_len: 1 })));
}

#[test]
fn project_empty_input_probes_type_on_sentinel() {
    let inp = table(&["a"], vec![]);
    let mut out = Table::new_temp(9);
    let e = Expr::Binary { left: Box::new(col("a")), op: BinOp::Equal, right: Box::new(col("a")) };
    project_table(&inp, &mut out, &e, None).unwrap();
    assert_eq!(out.columns[0].data_type, DataType::Boolean);
    assert!(out.raw_data.is_empty());
}

#[test]
fn division_by_zero_is_error() {
    assert!(matches!(apply_binary(BinOp::Divide, &Value::Int(7), &Value::Int(0)), Err(ExprError::DivisionByZero)));
    assert!(matches!(apply_binary(BinOp::Modulo, &Value::Int(7), &Value::Int(0)), Err(ExprError::DivisionByZero)));
    assert!(matches!(apply_binary(BinOp::Divide, &Value::Int(-7), &Value::Int(2)), Ok(Value::Int(-3))));
    assert!(matches!(apply_binary(BinOp::Modulo, &Value::Int(-7), &Value::Int(2)), Ok(Value::Int(-1))));
}

#[test]
fn overflow_is_error() {
    assert!(matches!(apply_binary(BinOp::Plus, &Value::Int(i64::MAX), &Value::Int(1)), Err(ExprError::Overflow)));
    assert!(matches!(apply_binary(BinOp::Divide, &Value::Int(i64::MIN), &Value::Int(-1)), Err(ExprError::Overflow)));
    assert!(matches!(apply_unary(UnOp::Minus, &Value::Int(i64::MIN)), Err(ExprError::Overflow)));
    assert!(matches!(apply_binary(BinOp::Multiply, &Value::Int(6), &Value::Int(7)), Ok(Value::Int(42))));
}

#[test]
fn three_valued_logic() {
    let t = Value::Bool(true);
    let f = Value::Bool(false);
    let n = Value::Null;
    assert!(matches!(apply_binary(BinOp::And, &n, &f), Ok(Value::Bool(false))));
    assert!(matches!(apply_binary(BinOp::Or, &n, &t), Ok(Value::Bool(true))));
    assert!(matches!(apply_binary(BinOp::And, &n, &t), Ok(Value::Null)));
    assert!(matches!(apply_binary(BinOp::Equal, &n, &Value::Int(1)), Ok(Value::Null)));
    assert!(matches!(apply_unary(UnOp::Not, &n), Ok(Value::Null)));
    assert!(matches!(apply_unary(UnOp::IsNull, &n), Ok(Value::Bool(true))));
    assert!(matches!(apply_unary(UnOp::IsNotNull, &n), Ok(Value::Bool(false))));
    assert!(matches!(apply_unary(UnOp::IsTrue, &n), Ok(Value::Bool(false))));
    assert!(matches!(apply_unary(UnOp::IsFalse, &n), Ok(Value::Bool(false))));
    assert!(matches!(apply_binary(BinOp::And, &Value::Int(1), &t), Err(ExprError::TypeMismatch)));
}

#[test]
fn comparisons_and_type_mismatch() {
    let a = Value::Text("abc".to_string());
    let b = Value::Text("abd".to_string());
    assert!(matches!(apply_binary(BinOp::LessThan, &a, &b), Ok(Value::Bool(true))));
    assert!(matches!(apply_binary(BinOp::GreaterThanOrEqual, &a, &b), Ok(Value::Bool(false))));
    assert!(matches!(apply_binary(BinOp::NotEqual, &a, &a), Ok(Value::Bool(false))));
    assert!(matches!(apply_binary(BinOp::LessThan, &a, &Value::Int(1)), Err(ExprError::TypeMismatch)));
    assert!(text_less(&"ab".to_string(), &"abc".to_string()));
    assert!(!text_less(&"b".to_string(), &"abc".to_string()));
}

#[test]
fn like_patterns() {
    let s = |x: &str| x.to_string();
    assert!(like(false, &s("hello"), &s("h%o")));
    assert!(like(false, &s("hello"), &s("_ello")));
    assert!(!like(false, &s("hello"), &s("H%")));
    assert!(like(true, &s("hello"), &s("H%")));
    assert!(like(false, &s(""), &s("%")));
    assert!(!like(false, &s("abc"), &s("ab")));
}

#[test]
fn functions_of_registry() {
    assert!(matches!(apply_function(&"ABS".to_string(), &Value::Int(-4)), Ok(Value::Int(4))));
    assert!(matches!(apply_function(&"Length".to_string(), &Value::Text("héllo".to_string())), Ok(Value::Int(5))));
    let t = table(&["a"], ints(&[&[1]]));
    let e = Expr::Function { name: "nope".to_string(), args: vec![] };
    assert!(matches!(e.execute(&t, &t.raw_data[0]), Err(ExprError::UnknownFunction(ref n)) if n == "nope"));
    let e = Expr::Function { name: "abs".to_string(), args: vec![] };
    assert!(matches!(e.execute(&t, &t.raw_data[0]), Err(ExprError::WrongArgumentCount)));
    assert!(matches!(Expr::Wildcard.execute(&t, &t.raw_data[0]), Err(ExprError::WildcardNotAllowed)));
}

#[test]
fn sentinel_row_has_defaults() {
    let mut t = table(&["a"], vec![]);
    t.add_column(column("s", DataType::Text));
    let s = t.sentinel_row();
    assert!(matches!(s.data[0], Value::Int(0)));
    assert!(matches!(&s.data[1], Value::Text(x) if x.is_empty()));
}
