use fkit::clock::{valid_timestamp, MAX_TIMESTAMP, MIN_TIMESTAMP};
use fkit::database::Database;
use fkit::error::ErrorKind;
use fkit::fields::Fields;
use fkit::project::{Column, DataType, Project, RawColumn, RawProject};

fn create_mem_db(_name: &str) -> Database {
    Database::new()
}

fn create(db: &mut Database, name: &str) -> Project {
    db.create_project(name).expect("Project should have been created")
}

fn get(db: &Database, name: &str) -> Option<Project> {
    db.get_project(name).expect("Project should have been fetched")
}

fn get_all(db: &Database) -> Vec<Project> {
    db.get_projects().expect("Projects should have been fetched")
}

fn cre_col(db: &mut Database, project: &Project, name: &str) -> Column {
    project.create_column(db, name, DataType::Text).expect("Column should be created")
}

fn names(list: &[&str]) -> Vec<String> {
    list.iter().map(|s| s.to_string()).collect()
}

#[test]
fn create_memory_database() {
    let db = create_mem_db("create_db");
    assert_eq!(get_all(&db).len(), 0);
}

#[test]
fn create_project() {
    let mut db = create_mem_db("create_project");
    let project = create(&mut db, "foo");

    assert_eq!(project.name, "foo");
    assert_eq!(project.encoded, "foo");
}

#[test]
fn get_project() {
    let mut db = create_mem_db("get_project");

    create(&mut db, "foo");

    let foo = get(&db, "foo");
    let roo = get(&db, "bar");

    assert!(foo.is_some());
    assert!(roo.is_none());
}

#[test]
fn get_projects() {
    let mut db = create_mem_db("get_projects");

    let projects = get_all(&db);

    assert_eq!(projects.len(), 0);

    create(&mut db, "foo");
    create(&mut db, "bar");

    let projects = get_all(&db);

    assert_eq!(projects.len(), 2);
}

#[test]
fn create_column() {
    let mut db = create_mem_db("create_column");
    let project = create(&mut db, "foo");
    let column = cre_col(&mut db, &project, "boo");

    let columns = project.get_columns(&db).expect("Columns should be fetched");
    assert_eq!(columns.len(), 1);

    assert_eq!(column.name, "boo");
    assert_eq!(column.encoded, "boo");
}

#[test]
fn create_columns() {
    let mut db = create_mem_db("create_columns");
    let project = create(&mut db, "foo");

    cre_col(&mut db, &project, "boo");
    cre_col(&mut db, &project, "bar");

    let columns = project.get_columns(&db).expect("Columns should be fetched");
    assert_eq!(columns.len(), 2);
}

#[test]
fn get_or_create_columns_single() {
    let mut db = create_mem_db("get_or_create_columns_single");
    let project = create(&mut db, "foo");

    let names = vec!["boo".to_string()];

    let columns = project.get_or_create_columns(&mut db, &names).unwrap();
    assert_eq!(columns.len(), 1);

    assert_eq!(columns[0].name, "boo");
}

#[test]
fn get_or_create_columns_multiple() {
    let mut db = create_mem_db("get_or_create_columns_multiple");
    let project = create(&mut db, "foo");

    let names = vec![
        "boo".to_string(),
        "bar".to_string(),
        "baz".to_string(),
        "foo".to_string(),
    ];

    let columns = project.get_or_create_columns(&mut db, &names).unwrap();
    assert_eq!(columns.len(), 4);

    assert_eq!(columns[0].name, "boo");
    assert_eq!(columns[1].name, "bar");
    assert_eq!(columns[2].name, "baz");
    assert_eq!(columns[3].name, "foo");
}

#[test]
fn add_single_data() {
    let mut db = create_mem_db("add_single_data");
    let project = create(&mut db, "foo");

    cre_col(&mut db, &project, "boo");

    let mut data = Fields::new();
    data.insert("boo", "bar");

    project.add_datapoint(&mut db, &data).unwrap();
    let data = project.get_data(&db).unwrap();

    assert_eq!(data.len(), 1);
    assert_eq!(data[0].get("boo"), Some("bar".to_string()));
}

#[test]
fn projects_100() {
    let mut db = create_mem_db("projects_100");

    for i in 0..100 {
        create(&mut db, &format!("project_{}", i));
    }

    let projects = get_all(&db);

    assert_eq!(projects.len(), 100);
}

#[test]
fn columns_100() {
    let mut db = create_mem_db("columns_100");

    let project = create(&mut db, "project");

    for i in 0..100 {
        cre_col(&mut db, &project, &format!("column_{}", i));
    }

    let columns = project.get_columns(&db).expect("Getting columns shouldn't fail");
    assert_eq!(columns.len(), 100);
}

#[test]
fn matrix() {
    let mut db = create_mem_db("matrix");

    for i in 0..20 {
        let project = create(&mut db, &format!("project_{}", i));

        for j in 0..20 {
            cre_col(&mut db, &project, &format!("column_{}", j));
        }

        let columns = project.get_columns(&db).expect("Getting columns shouldn't fail");
        assert_eq!(columns.len(), 20);
    }

    let projects = get_all(&db);
    assert_eq!(projects.len(), 20);
}

#[test]
fn project_ids_count_up_and_names_are_kept() {
    let mut db = Database::new();
    let a = db.create_project_at("first one", 10).unwrap();
    let b = db.create_project_at("second", 20).unwrap();
    assert_eq!((a.id, a.encoded.as_str(), a.created_at), (1, "firstone", 10));
    assert_eq!((b.id, b.encoded.as_str(), b.created_at), (2, "second", 20));
    assert_eq!(db.get_project_id("second"), Ok(2));
    assert_eq!(db.get_project_id("third").unwrap_err().kind, ErrorKind::NotFound);
    let all = get_all(&db);
    assert_eq!(all[0], a);
    assert_eq!(all[1], b);
    assert_eq!(get(&db, "first one"), Some(a));
}

#[test]
fn creating_a_project_twice_is_a_conflict_and_changes_nothing() {
    let mut db = Database::new();
    let p = create(&mut db, "p");
    cre_col(&mut db, &p, "x");
    let before = get_all(&db);
    let columns_before = p.get_columns(&db).unwrap();
    let again = db.create_project("p").unwrap_err();
    assert_eq!(again.kind, ErrorKind::SchemaConflict);
    assert_eq!(again.identifier, "p");
    assert_eq!(get_all(&db), before);
    assert_eq!(p.get_columns(&db).unwrap(), columns_before);
    assert_eq!(p.get_data(&db).unwrap().len(), 0);
}

#[test]
fn project_names_that_share_a_table_conflict() {
    let mut db = Database::new();
    create(&mut db, "my project");
    let e = db.create_project("my-project").unwrap_err();
    assert_eq!(e.kind, ErrorKind::SchemaConflict);
    assert_eq!(get_all(&db).len(), 1);
    for reserved in ["projects", "columns", "col umns"] {
        let e = db.create_project(reserved).unwrap_err();
        assert_eq!(e.kind, ErrorKind::SchemaConflict);
    }
    assert_eq!(get_all(&db).len(), 1);
}

#[test]
fn project_without_an_allowed_character_is_refused() {
    let mut db = Database::new();
    let e = db.create_project("!?").unwrap_err();
    assert_eq!(e.kind, ErrorKind::EmptyIdentifier);
    assert_eq!(e.identifier, "!?");
    let e = db.create_project("").unwrap_err();
    assert_eq!(e.kind, ErrorKind::EmptyIdentifier);
    assert_eq!(get_all(&db).len(), 0);
}

#[test]
fn creation_times_must_be_dates() {
    let mut db = Database::new();
    let e = db.create_project_at("p", MAX_TIMESTAMP + 1).unwrap_err();
    assert_eq!(e.kind, ErrorKind::CorruptMetadata);
    let p = db.create_project_at("p", MAX_TIMESTAMP).unwrap();
    let e = p.create_column_at(&mut db, "c", DataType::Text, MIN_TIMESTAMP - 1).unwrap_err();
    assert_eq!(e.kind, ErrorKind::CorruptMetadata);
    let c = p.create_column_at(&mut db, "c", DataType::Text, MIN_TIMESTAMP).unwrap();
    assert_eq!(c.created_at, MIN_TIMESTAMP);
}

#[test]
fn timestamps_are_valid_within_the_calendar() {
    assert!(valid_timestamp(0));
    assert!(valid_timestamp(-1));
    assert!(valid_timestamp(1_431_648_000));
    assert!(valid_timestamp(MIN_TIMESTAMP));
    assert!(valid_timestamp(MAX_TIMESTAMP));
    assert!(!valid_timestamp(MIN_TIMESTAMP - 1));
    assert!(!valid_timestamp(MAX_TIMESTAMP + 1));
    assert!(!valid_timestamp(i64::MIN));
    assert!(!valid_timestamp(i64::MAX));
    assert_eq!(MIN_TIMESTAMP, -8_334_601_228_800);
    assert_eq!(MAX_TIMESTAMP, 8_210_266_876_799);
}

#[test]
fn the_clock_gives_a_valid_recent_time() {
    let t = fkit::clock::now();
    assert!(valid_timestamp(t));
    assert!(t > 1_600_000_000);
    let mut db = Database::new();
    let p = db.create_project("p").unwrap();
    assert!(p.created_at >= t);
}

#[test]
fn raw_rows_decode() {
    let raw = RawProject { name: "n".into(), encoded: "n".into(), created_at: 5, id: 7 };
    let p = Project::from_raw(raw).unwrap();
    assert_eq!((p.id, p.name.as_str(), p.encoded.as_str(), p.created_at), (7, "n", "n", 5));
    let raw = RawProject { name: "n".into(), encoded: "n".into(), created_at: i64::MAX, id: 7 };
    assert_eq!(Project::from_raw(raw), None);

    let raw = RawColumn {
        name: "c".into(),
        encoded: "c".into(),
        project_id: 1,
        column_type: "BIGINT".into(),
        created_at: 9,
    };
    let c = Column::from_raw(raw).unwrap();
    assert_eq!(c.column_type, DataType::BigInteger);
    assert_eq!((c.name.as_str(), c.encoded.as_str(), c.project_id, c.created_at), ("c", "c", 1, 9));
    let raw = RawColumn {
        name: "c".into(),
        encoded: "c".into(),
        project_id: 1,
        column_type: "VARCHAR".into(),
        created_at: 9,
    };
    let e = Column::from_raw(raw).unwrap_err();
    assert_eq!(e.kind, ErrorKind::CorruptMetadata);
    assert_eq!(e.identifier, "c");
    assert_eq!(e.detail, "invalid data type");
    let raw = RawColumn {
        name: "c".into(),
        encoded: "c".into(),
        project_id: 1,
        column_type: "VARCHAR".into(),
        created_at: i64::MIN,
    };
    assert_eq!(Column::from_raw(raw).unwrap_err().detail, "invalid timestamp");
}

#[test]
fn data_types_map_both_ways() {
    let all = [
        (DataType::Text, "TEXT"),
        (DataType::Raw, "BLOB"),
        (DataType::Integer, "INTEGER"),
        (DataType::BigInteger, "BIGINT"),
        (DataType::Float, "FLOAT"),
    ];
    for (t, s) in all {
        assert_eq!(t.to_sql(), s);
        assert_eq!(DataType::from_sql(s), Some(t));
    }
    assert_eq!(DataType::from_sql("NOT_A_TYPE"), None);
    assert_eq!(DataType::from_sql("text"), None);
    assert_eq!(DataType::from_sql(""), None);
}

#[test]
fn repeated_keys_resolve_to_one_column() {
    let mut db = Database::new();
    let p = create(&mut db, "p");
    let columns = p.get_or_create_columns(&mut db, &names(&["a", "b", "a"])).unwrap();
    assert_eq!(columns.len(), 3);
    assert_eq!(columns[0], columns[2]);
    assert_eq!(columns[0].name, "a");
    assert_eq!(columns[1].name, "b");
    let registered = p.get_columns(&db).unwrap();
    assert_eq!(registered.len(), 2);
    assert_eq!(registered[0], columns[0]);
    assert_eq!(registered[1], columns[1]);
}

#[test]
fn resolution_keeps_existing_columns_and_their_order() {
    let mut db = Database::new();
    let p = create(&mut db, "p");
    let b = p.create_column_at(&mut db, "b", DataType::Integer, 1).unwrap();
    let got = p
        .get_or_create_columns_at(&mut db, &names(&["a", "b", "c"]), DataType::Float, 2)
        .unwrap();
    assert_eq!(got[1], b);
    assert_eq!(got[0].column_type, DataType::Float);
    assert_eq!(got[0].created_at, 2);
    assert_eq!(got[2].name, "c");
    let all = p.get_columns(&db).unwrap();
    let order: Vec<&str> = all.iter().map(|c| c.name.as_str()).collect();
    assert_eq!(order, vec!["b", "a", "c"]);
    let none = p.get_or_create_columns(&mut db, &Vec::new()).unwrap();
    assert!(none.is_empty());
}

#[test]
fn a_field_name_without_allowed_characters_is_an_empty_identifier() {
    let mut db = Database::new();
    let p = create(&mut db, "p");
    let e = p.create_column(&mut db, "?!", DataType::Text).unwrap_err();
    assert_eq!(e.kind, ErrorKind::EmptyIdentifier);
    assert_eq!(e.identifier, "?!");
    let e = p.get_or_create_columns(&mut db, &names(&["ok", "...", "later"])).unwrap_err();
    assert_eq!(e.kind, ErrorKind::EmptyIdentifier);
    assert_eq!(e.identifier, "...");
    let all = p.get_columns(&db).unwrap();
    assert_eq!(all.len(), 1);
    assert_eq!(all[0].name, "ok");
    let mut data = Fields::new();
    data.insert("***", "1");
    let e = p.add_datapoint(&mut db, &data).unwrap_err();
    assert_eq!(e.kind, ErrorKind::EmptyIdentifier);
    assert_eq!(p.get_data(&db).unwrap().len(), 0);
}

#[test]
fn the_reserved_column_cannot_be_taken() {
    let mut db = Database::new();
    let p = create(&mut db, "p");
    for name in ["__timestamp__", "__time stamp__", "__timestamp__!"] {
        let e = p.create_column(&mut db, name, DataType::Text).unwrap_err();
        assert_eq!(e.kind, ErrorKind::ReservedName);
        let e = p.get_or_create_columns(&mut db, &names(&[name])).unwrap_err();
        assert_eq!(e.kind, ErrorKind::ReservedName);
        assert_eq!(e.identifier, name);
    }
    assert_eq!(p.get_columns(&db).unwrap().len(), 0);
}

#[test]
fn names_that_share_a_physical_column_conflict() {
    let mut db = Database::new();
    let p = create(&mut db, "p");
    cre_col(&mut db, &p, "a b");
    let e = p.create_column(&mut db, "ab", DataType::Text).unwrap_err();
    assert_eq!(e.kind, ErrorKind::SchemaConflict);
    let e = p.create_column(&mut db, "a b", DataType::Text).unwrap_err();
    assert_eq!(e.kind, ErrorKind::SchemaConflict);
    let e = p.get_or_create_columns(&mut db, &names(&["a b", "a-b"])).unwrap_err();
    assert_eq!(e.kind, ErrorKind::SchemaConflict);
    assert_eq!(e.identifier, "a-b");
    assert_eq!(p.get_columns(&db).unwrap().len(), 1);
    let q = create(&mut db, "q");
    assert_eq!(cre_col(&mut db, &q, "ab").encoded, "ab");
}

#[test]
fn a_project_that_the_store_does_not_have_is_not_found() {
    let mut db = Database::new();
    let ghost = Project { id: 4, name: "ghost".into(), encoded: "ghost".into(), created_at: 0 };
    let e = ghost.create_column(&mut db, "c", DataType::Text).unwrap_err();
    assert_eq!(e.kind, ErrorKind::NotFound);
    let e = ghost.get_or_create_columns(&mut db, &names(&["c"])).unwrap_err();
    assert_eq!(e.kind, ErrorKind::NotFound);
    assert_eq!(ghost.get_data(&db).unwrap_err().kind, ErrorKind::NotFound);
    let mut data = Fields::new();
    data.insert("c", "1");
    assert_eq!(ghost.add_datapoint(&mut db, &data).unwrap_err().kind, ErrorKind::NotFound);
    assert_eq!(db.create_column("ghost", "c").unwrap_err().kind, ErrorKind::NotFound);
}

#[test]
fn round_trip_of_one_datapoint() {
    let mut db = Database::new();
    let p = create(&mut db, "p");
    let mut data = Fields::new();
    data.insert("x", "5");
    p.add_datapoint_at(&mut db, &data, 1234).unwrap();
    let rows = p.get_data(&db).unwrap();
    assert_eq!(rows.len(), 1);
    assert_eq!(rows[0].timestamp, 1234);
    assert_eq!(rows[0].fields, data);
    assert_eq!(rows[0].get("x"), Some("5".to_string()));
    assert_eq!(rows[0].get("__timestamp__"), None);
}

#[test]
fn demo_project_end_to_end() {
    let mut db = Database::new();
    let demo = create(&mut db, "demo");
    let mut data = Fields::new();
    data.insert("temp", "21.5");
    data.insert("unit", "C");
    demo.add_datapoint(&mut db, &data).unwrap();
    let columns = demo.get_columns(&db).unwrap();
    let order: Vec<&str> = columns.iter().map(|c| c.name.as_str()).collect();
    assert_eq!(order, vec!["temp", "unit"]);
    let rows = demo.get_data(&db).unwrap();
    assert_eq!(rows.len(), 1);
    assert_eq!(rows[0].fields, data);
    assert_eq!(rows[0].fields.len(), 2);
}

#[test]
fn rows_written_before_a_column_existed_lack_it() {
    let mut db = Database::new();
    let p = create(&mut db, "p");
    let mut first = Fields::new();
    first.insert("a", "1");
    p.add_datapoint_at(&mut db, &first, 1).unwrap();
    let mut second = Fields::new();
    second.insert("b b", "2");
    second.insert("a", "3");
    p.add_datapoint_at(&mut db, &second, 2).unwrap();
    let rows = p.get_data(&db).unwrap();
    assert_eq!(rows.len(), 2);
    assert_eq!(rows[0].fields, first);
    assert_eq!(rows[0].get("b b"), None);
    assert_eq!(rows[1].get("a"), Some("3".to_string()));
    assert_eq!(rows[1].get("b b"), Some("2".to_string()));
    assert_eq!(rows[1].fields.keys(), vec!["a".to_string(), "b b".to_string()]);
    assert_eq!((rows[0].timestamp, rows[1].timestamp), (1, 2));
}

#[test]
fn disjoint_new_fields_register_one_column_each() {
    let mut db = Database::new();
    let n = 25;
    for i in 0..n {
        let mut data = Fields::new();
        data.insert(&format!("field {}", i), "v");
        db.add_datapoint("fresh", &data).unwrap();
    }
    let p = get(&db, "fresh").unwrap();
    let columns = p.get_columns(&db).unwrap();
    assert_eq!(columns.len(), n);
    for (i, c) in columns.iter().enumerate() {
        assert_eq!(c.name, format!("field {}", i));
        assert_eq!(c.encoded, format!("field{}", i));
    }
    assert_eq!(p.get_data(&db).unwrap().len(), n);
    assert_eq!(get_all(&db).len(), 1);
}

#[test]
fn values_are_checked_against_the_column_type() {
    let mut db = Database::new();
    let p = create(&mut db, "p");
    p.create_column(&mut db, "n", DataType::Integer).unwrap();
    p.create_column(&mut db, "big", DataType::BigInteger).unwrap();
    p.create_column(&mut db, "f", DataType::Float).unwrap();
    p.create_column(&mut db, "raw", DataType::Raw).unwrap();
    let mut good = Fields::new();
    good.insert("n", "-2147483648");
    good.insert("big", "9223372036854775807");
    good.insert("f", "-21.5");
    good.insert("raw", "anything at all");
    good.insert("t", "");
    p.add_datapoint(&mut db, &good).unwrap();
    for (key, value) in [
        ("n", "2147483648"),
        ("n", "12a"),
        ("n", ""),
        ("n", "-"),
        ("n", "1.0"),
        ("big", "9223372036854775808"),
        ("big", "-9223372036854775809"),
        ("f", "1.2.3"),
        ("f", "."),
        ("f", "1e5"),
        ("f", "abc"),
    ] {
        let mut bad = Fields::new();
        bad.insert("t", "fine");
        bad.insert(key, value);
        let e = p.add_datapoint(&mut db, &bad).unwrap_err();
        assert_eq!(e.kind, ErrorKind::TypeMismatch);
        assert_eq!(e.identifier, key);
    }
    assert_eq!(p.get_data(&db).unwrap().len(), 1);
}

#[test]
fn store_level_ingestion_creates_the_project_once() {
    let mut db = Database::new();
    let mut data = Fields::new();
    data.insert("a", "1");
    db.add_datapoint("site", &data).unwrap();
    db.add_datapoint("site", &data).unwrap();
    assert_eq!(get_all(&db).len(), 1);
    let p = db.open_project("site").unwrap();
    assert_eq!(p.id, 1);
    assert_eq!(p.get_data(&db).unwrap().len(), 2);
    let e = db.add_datapoint("si te", &data).unwrap_err();
    assert_eq!(e.kind, ErrorKind::SchemaConflict);
    let e = db.add_datapoint("--", &data).unwrap_err();
    assert_eq!(e.kind, ErrorKind::EmptyIdentifier);
    db.create_column("site", "b").unwrap();
    assert_eq!(p.get_columns(&db).unwrap().len(), 2);
    assert_eq!(db.create_column("site", "b").unwrap_err().kind, ErrorKind::SchemaConflict);
}

#[test]
fn a_table_of_another_project_takes_no_foreign_columns() {
    let mut db = Database::new();
    let a = create(&mut db, "a");
    let b = create(&mut db, "b");
    cre_col(&mut db, &a, "x");
    let forged = Project { id: a.id, name: "a".into(), encoded: b.encoded.clone(), created_at: 0 };
    let mut data = Fields::new();
    data.insert("x", "1");
    let e = forged.add_datapoint(&mut db, &data).unwrap_err();
    assert_eq!(e.kind, ErrorKind::ConnectionFailure);
    assert_eq!(b.get_data(&db).unwrap().len(), 0);
    assert_eq!(a.get_data(&db).unwrap().len(), 0);
}

#[test]
fn columns_by_project_name_at_a_given_time() {
    let mut db = Database::new();
    create(&mut db, "site");
    db.create_column_at("site", "a b", 42).unwrap();
    let p = get(&db, "site").unwrap();
    let columns = p.get_columns(&db).unwrap();
    assert_eq!(columns.len(), 1);
    assert_eq!(
        (columns[0].name.as_str(), columns[0].encoded.as_str(), columns[0].created_at),
        ("a b", "ab", 42)
    );
    assert_eq!(columns[0].column_type, DataType::Text);
    assert_eq!(db.create_column_at("site", "", 42).unwrap_err().kind, ErrorKind::EmptyIdentifier);
    assert_eq!(db.create_column_at("nope", "a", 42).unwrap_err().kind, ErrorKind::NotFound);
    let mut data = Fields::new();
    data.insert("a b", "v");
    db.add_datapoint_at("site", &data, 43).unwrap();
    db.add_datapoint_at("new site", &data, 44).unwrap();
    let q = get(&db, "new site").unwrap();
    assert_eq!(q.created_at, 44);
    assert_eq!(q.get_data(&db).unwrap()[0].timestamp, 44);
    assert_eq!(p.get_data(&db).unwrap()[0].timestamp, 43);
}

#[test]
fn resolving_in_two_steps_equals_resolving_in_one() {
    let mut one = Database::new();
    let p = one.create_project_at("p", 1).unwrap();
    let all = p
        .get_or_create_columns_at(&mut one, &names(&["a", "b", "a", "c"]), DataType::Text, 5)
        .unwrap();
    let mut two = Database::new();
    let q = two.create_project_at("p", 1).unwrap();
    let mut parts =
        q.get_or_create_columns_at(&mut two, &names(&["a", "b"]), DataType::Text, 5).unwrap();
    parts.extend(q.get_or_create_columns_at(&mut two, &names(&["a", "c"]), DataType::Text, 5).unwrap());
    assert_eq!(parts, all);
    assert_eq!(p.get_columns(&one).unwrap(), q.get_columns(&two).unwrap());
    assert_eq!(p.get_columns(&one).unwrap().len(), 3);
}
