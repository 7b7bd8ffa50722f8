use fkit::api::{catch_all_text, csv, is_path_safe};
use fkit::fields::Fields;
use fkit::memory::{copy_texts, MemoryBackend};
use fkit::backend::{Action, FailureKind, Response};
use fkit::project::DataType;
use fkit::value::{can_store, fits_decimal, fits_integer};

#[test]
fn integers_are_plain_numerals_in_range() {
    for good in ["0", "-0", "+7", "007", "2147483647", "-2147483648", "000000000000000000000000042"] {
        assert!(fits_integer(good, i32::MIN as i64, i32::MAX as i64), "{}", good);
    }
    for bad in ["", "-", "+", "1 ", " 1", "1_000", "0x10", "2147483648", "-2147483649", "--1", "1-", "٣"] {
        assert!(!fits_integer(bad, i32::MIN as i64, i32::MAX as i64), "{}", bad);
    }
    assert!(fits_integer("9223372036854775807", i64::MIN, i64::MAX));
    assert!(fits_integer("-9223372036854775808", i64::MIN, i64::MAX));
    assert!(!fits_integer("9223372036854775808", i64::MIN, i64::MAX));
    assert!(!fits_integer("-9223372036854775809", i64::MIN, i64::MAX));
    assert!(!fits_integer("99999999999999999999999999999999999999999999", i64::MIN, i64::MAX));
    assert!(fits_integer("5", 5, 5));
    assert!(!fits_integer("4", 5, 5));
    assert!(!fits_integer("6", 5, 5));
}

#[test]
fn decimals_have_digits_and_at_most_one_point() {
    for good in ["0", "21.5", "-21.5", "+.5", "5.", "100", "0.000"] {
        assert!(fits_decimal(good), "{}", good);
    }
    for bad in ["", ".", "-", "-.", "1.2.3", "1e5", "1,5", "NaN", "inf", " 1", "1-"] {
        assert!(!fits_decimal(bad), "{}", bad);
    }
}

#[test]
fn storage_rules_per_type() {
    assert!(can_store(DataType::Text, "anything"));
    assert!(can_store(DataType::Raw, ""));
    assert!(can_store(DataType::Integer, "12"));
    assert!(!can_store(DataType::Integer, "3000000000"));
    assert!(can_store(DataType::BigInteger, "3000000000"));
    assert!(!can_store(DataType::BigInteger, "3.5"));
    assert!(can_store(DataType::Float, "3.5"));
    assert!(!can_store(DataType::Float, "three"));
}

#[test]
fn fields_keep_first_seen_order_and_last_value() {
    let mut f = Fields::new();
    assert_eq!(f.len(), 0);
    f.insert("b", "1");
    f.insert("a", "2");
    f.insert("b", "3");
    assert_eq!(f.len(), 2);
    assert_eq!(f.keys(), vec!["b".to_string(), "a".to_string()]);
    assert_eq!(f.values(), vec!["3".to_string(), "2".to_string()]);
    assert_eq!(f.get("b"), Some("3".to_string()));
    assert_eq!(f.get("c"), None);
}

#[test]
fn echo_lists_the_fields() {
    let mut f = Fields::new();
    f.insert("temp", "21.5");
    f.insert("unit", "C");
    assert_eq!(catch_all_text("demo", &f), "Project: demo\ntemp: 21.5\nunit: C\n");
    assert_eq!(catch_all_text("", &Fields::new()), "Project: \n");
}

#[test]
fn csv_has_a_header_and_one_line_per_row() {
    let mut first = Fields::new();
    first.insert("temp", "21.5");
    first.insert("unit", "C");
    let mut second = Fields::new();
    second.insert("unit", "F");
    let columns = vec!["temp".to_string(), "unit".to_string()];
    assert_eq!(
        csv("demo", &columns, &vec![first, second]),
        "demo\n\ntemp,unit,\n21.5,C,\n,F,\n"
    );
    assert_eq!(csv("demo", &vec![], &vec![]), "demo\n\n\n");
    assert_eq!(csv("d", &columns, &vec![]), "d\n\ntemp,unit,\n");
}

#[test]
fn project_names_in_paths_have_no_slash() {
    assert!(is_path_safe("demo"));
    assert!(is_path_safe(""));
    assert!(!is_path_safe("a/b"));
    assert!(!is_path_safe("/"));
}

#[test]
fn memory_backend_keeps_its_rules() {
    let mut b = MemoryBackend::new();
    let p = b.insert_project("de mo", "demo", 1).unwrap();
    assert_eq!((p.id, p.name.as_str()), (1, "de mo"));
    assert_eq!(b.insert_project("de mo", "other", 1).unwrap_err().kind, FailureKind::Conflict);
    assert_eq!(b.insert_project("other", "demo", 1).unwrap_err().kind, FailureKind::Conflict);
    assert_eq!(b.insert_project("other", "de mo", 1).unwrap_err().kind, FailureKind::Other);
    assert_eq!(b.insert_project("other", "projects", 1).unwrap_err().kind, FailureKind::Conflict);
    assert_eq!(b.insert_project("other", "ok", i64::MAX).unwrap_err().kind, FailureKind::Other);
    assert_eq!(b.list_projects(), vec![p.clone()]);
    assert_eq!(b.find_project_by_name("de mo"), Some(p));
    assert_eq!(b.find_project_by_name("demo"), None);
    let c = b.insert_column(1, "demo", "a b", "ab", DataType::Integer, 2).unwrap();
    assert_eq!(c.column_type, "INTEGER");
    assert_eq!(b.insert_column(1, "demo", "a b", "x", DataType::Text, 2).unwrap_err().kind, FailureKind::Conflict);
    assert_eq!(b.insert_column(1, "demo", "ab", "ab", DataType::Text, 2).unwrap_err().kind, FailureKind::Conflict);
    assert_eq!(
        b.insert_column(1, "demo", "t", "__timestamp__", DataType::Text, 2).unwrap_err().kind,
        FailureKind::Conflict
    );
    assert_eq!(b.insert_column(2, "demo", "n", "n", DataType::Text, 2).unwrap_err().kind, FailureKind::Missing);
    assert_eq!(b.insert_column(1, "nope", "n", "n", DataType::Text, 2).unwrap_err().kind, FailureKind::Missing);
    assert_eq!(b.insert_column(1, "demo", "n", "n n", DataType::Text, 2).unwrap_err().kind, FailureKind::Other);
    assert_eq!(b.list_columns(1), vec![c]);
    assert_eq!(b.list_columns(2), vec![]);
    let cols = vec!["ab".to_string()];
    let vals = vec!["5".to_string()];
    assert_eq!(copy_texts(&cols), cols);
    b.insert_row("demo", &cols, 9, &vals).unwrap();
    assert_eq!(b.insert_row("nope", &cols, 9, &vals).unwrap_err().kind, FailureKind::Missing);
    assert_eq!(b.insert_row("demo", &vec!["zz".to_string()], 9, &vals).unwrap_err().kind, FailureKind::Other);
    assert_eq!(b.insert_row("demo", &cols, 9, &vec![]).unwrap_err().kind, FailureKind::Other);
    let rows = b.read_rows("demo").unwrap();
    assert_eq!(rows.len(), 1);
    assert_eq!(rows[0].timestamp, 9);
    assert_eq!(rows[0].cells[0].name, "ab");
    assert_eq!(rows[0].cells[0].value, Some("5".to_string()));
    assert_eq!(b.read_rows("nope").unwrap_err().kind, FailureKind::Missing);
    match b.execute(&Action::ReadRows { table: "demo".into() }) {
        Response::Rows(again) => assert_eq!(again, rows),
        other => panic!("{:?}", other),
    }
    match b.execute(&Action::FindProject { name: "zz".into() }) {
        Response::Project(None) => {}
        other => panic!("{:?}", other),
    }
}
