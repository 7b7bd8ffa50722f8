use fkit::backend::{Action, Failure, FailureKind, RawCell, RawRow, Response};
use fkit::datapoint::{decode_data_row, decoded_rows, find_cell, insert_request, inserted};
use fkit::engine::{
    create_column_request, create_project_request, created_column, created_project,
    decode_columns, decode_projects, found_project, listed_columns, listed_projects, migrated,
    physical_name, refused, unexpected, connection_refused,
};
use fkit::error::{Error, ErrorKind};
use fkit::fields::Fields;
use fkit::opener::{Opener, Opening, Stage};
use fkit::project::{Column, DataType, Project, RawColumn, RawProject};
use fkit::resolver::{find_known, has_encoded, Phase, Resolver, Step};
use fkit::statement::{
    create_table, insert_project, migrations, placeholder_list, select_columns, select_project,
    select_projects, select_rows, timestamp_column, Param, Statement,
};
use fkit::text::{join, owned};

fn project() -> Project {
    Project { id: 3, name: "my project".into(), encoded: "myproject".into(), created_at: 1 }
}

fn raw_column(name: &str, encoded: &str) -> RawColumn {
    RawColumn {
        name: name.into(),
        encoded: encoded.into(),
        project_id: 3,
        column_type: "TEXT".into(),
        created_at: 7,
    }
}

fn column(name: &str, encoded: &str, column_type: DataType) -> Column {
    Column { name: name.into(), encoded: encoded.into(), project_id: 3, column_type, created_at: 7 }
}

fn conflict() -> Response {
    Response::Failed(Failure { kind: FailureKind::Conflict, message: "taken".into() })
}

#[test]
fn statements_have_exact_text() {
    assert_eq!(timestamp_column(), "__timestamp__");
    assert_eq!(
        create_table("demo"),
        Statement {
            sql: "CREATE TABLE demo (__timestamp__ INTEGER NOT NULL)".into(),
            params: vec![]
        }
    );
    assert_eq!(
        insert_project("de mo", "demo", 5),
        Statement {
            sql: "INSERT INTO projects (name, encoded_name, created_at) VALUES (?, ?, ?) RETURNING *"
                .into(),
            params: vec![Param::Text("de mo".into()), Param::Text("demo".into()), Param::Integer(5)]
        }
    );
    assert_eq!(select_projects().sql, "SELECT * FROM projects");
    assert_eq!(
        select_project("x"),
        Statement {
            sql: "SELECT * FROM projects WHERE name = ?".into(),
            params: vec![Param::Text("x".into())]
        }
    );
    assert_eq!(
        select_columns(9),
        Statement {
            sql: "SELECT * FROM columns WHERE project_id = ?".into(),
            params: vec![Param::Integer(9)]
        }
    );
    assert_eq!(select_rows("demo").sql, "SELECT * FROM demo");
    let p = project();
    assert_eq!(
        p.add_column("temp", DataType::Float),
        Statement { sql: "ALTER TABLE myproject ADD COLUMN temp FLOAT".into(), params: vec![] }
    );
    assert_eq!(
        p.insert_column("te mp", "temp", DataType::Text, 11),
        Statement {
            sql: "INSERT INTO columns (project_id, name, encoded_name, column_type, created_at) VALUES (?, ?, ?, ?, ?) RETURNING *".into(),
            params: vec![
                Param::Integer(3),
                Param::Text("te mp".into()),
                Param::Text("temp".into()),
                Param::Text("TEXT".into()),
                Param::Integer(11)
            ]
        }
    );
    assert_eq!(
        p.generate_query(&vec!["__timestamp__".to_string(), "a".to_string(), "b".to_string()]),
        "INSERT INTO myproject (__timestamp__,a,b) VALUES (?,?,?)"
    );
    assert_eq!(p.generate_query(&vec![]), "INSERT INTO myproject () VALUES ()");
    assert_eq!(placeholder_list(0), "");
    assert_eq!(placeholder_list(1), "?");
    assert_eq!(placeholder_list(4), "?,?,?,?");
    assert_eq!(join(&vec!["a".to_string(), "".to_string(), "c".to_string()], ", "), "a, , c");
    assert_eq!(join(&vec![], ","), "");
    assert_eq!(owned("x"), "x");
}

#[test]
fn migrations_set_up_both_relations() {
    let m = migrations();
    assert_eq!(m.len(), 2);
    assert!(m[0].sql.starts_with("CREATE TABLE IF NOT EXISTS projects ("));
    assert!(m[1].sql.starts_with("CREATE TABLE IF NOT EXISTS columns ("));
    assert!(m[1].sql.contains("UNIQUE (project_id, name)"));
    assert!(m[1].sql.contains("UNIQUE (project_id, encoded_name)"));
    assert!(m[0].params.is_empty() && m[1].params.is_empty());
}

#[test]
fn actions_render_to_statements() {
    let a = Action::CreateProject { name: "de mo".into(), encoded: "demo".into(), created_at: 5 };
    let s = a.statements();
    assert_eq!(s.len(), 2);
    assert_eq!(s[0], create_table("demo"));
    assert_eq!(s[1], insert_project("de mo", "demo", 5));
    let a = Action::CreateColumn {
        project_id: 3,
        table: "myproject".into(),
        name: "te mp".into(),
        encoded: "temp".into(),
        column_type: DataType::Integer,
        created_at: 8,
    };
    let s = a.statements();
    assert_eq!(s[0], project().add_column("temp", DataType::Integer));
    assert_eq!(s[1], project().insert_column("te mp", "temp", DataType::Integer, 8));
    let a = Action::InsertRow {
        table: "demo".into(),
        columns: vec!["temp".into(), "unit".into()],
        timestamp: 99,
        values: vec!["21.5".into(), "C".into()],
    };
    let s = a.statements();
    assert_eq!(s.len(), 1);
    assert_eq!(s[0].sql, "INSERT INTO demo (__timestamp__,temp,unit) VALUES (?,?,?)");
    assert_eq!(
        s[0].params,
        vec![Param::Integer(99), Param::Text("21.5".into()), Param::Text("C".into())]
    );
    assert_eq!(Action::ListProjects.statements(), vec![select_projects()]);
    assert_eq!(Action::FindProject { name: "n".into() }.statements(), vec![select_project("n")]);
    assert_eq!(Action::ListColumns { project_id: 2 }.statements(), vec![select_columns(2)]);
    assert_eq!(Action::ReadRows { table: "t".into() }.statements(), vec![select_rows("t")]);
}

#[test]
fn backend_reports_are_classified() {
    let f = Failure::from_backend(true, "UNIQUE constraint failed: projects.name");
    assert_eq!(f.kind, FailureKind::Conflict);
    assert_eq!(f.message, "UNIQUE constraint failed: projects.name");
    assert_eq!(Failure::from_backend(false, "table demo already exists").kind, FailureKind::Conflict);
    assert_eq!(Failure::from_backend(false, "duplicate column name: a").kind, FailureKind::Conflict);
    assert_eq!(Failure::from_backend(false, "no such table: demo").kind, FailureKind::Missing);
    assert_eq!(Failure::from_backend(false, "disk I/O error").kind, FailureKind::Other);
    assert_eq!(Failure::from_backend(false, "").kind, FailureKind::Other);
    assert_eq!(Failure::from_backend(false, "already exist").kind, FailureKind::Other);
    let e = refused(&Failure::from_backend(true, "dup"), "p");
    assert_eq!(e, Error::new(ErrorKind::SchemaConflict, "p", "dup"));
    assert_eq!(refused(&Failure::from_backend(false, "no such table: x"), "p").kind, ErrorKind::NotFound);
    assert_eq!(refused(&Failure::from_backend(false, "boom"), "p").kind, ErrorKind::ConnectionFailure);
    assert_eq!(unexpected("p"), Error::new(ErrorKind::ConnectionFailure, "p", "unexpected answer"));
    assert_eq!(unexpected("p").clone(), unexpected("p"));
}

#[test]
fn project_requests_and_answers() {
    assert_eq!(physical_name("a-b c").unwrap(), "abc");
    assert_eq!(physical_name("--").unwrap_err().kind, ErrorKind::EmptyIdentifier);
    assert_eq!(
        create_project_request("de mo", 5).unwrap(),
        Action::CreateProject { name: "de mo".into(), encoded: "demo".into(), created_at: 5 }
    );
    assert_eq!(create_project_request("...", 5).unwrap_err().kind, ErrorKind::EmptyIdentifier);
    assert_eq!(create_project_request("ok", i64::MAX).unwrap_err().kind, ErrorKind::CorruptMetadata);
    let raw = RawProject { name: "de mo".into(), encoded: "demo".into(), created_at: 5, id: 1 };
    let p = created_project("de mo", Response::Project(Some(raw.clone()))).unwrap();
    assert_eq!((p.id, p.name.as_str(), p.encoded.as_str(), p.created_at), (1, "de mo", "demo", 5));
    assert_eq!(created_project("de mo", conflict()).unwrap_err().kind, ErrorKind::SchemaConflict);
    assert_eq!(created_project("x", Response::Project(None)).unwrap_err().kind, ErrorKind::ConnectionFailure);
    assert_eq!(created_project("x", Response::Done).unwrap_err().kind, ErrorKind::ConnectionFailure);
    let bad = RawProject { created_at: i64::MIN, ..raw.clone() };
    assert_eq!(
        created_project("x", Response::Project(Some(bad.clone()))).unwrap_err().kind,
        ErrorKind::CorruptMetadata
    );
    assert_eq!(found_project("x", Response::Project(None)), Ok(None));
    assert_eq!(found_project("x", Response::Project(Some(raw.clone()))), Ok(Some(p.clone())));
    assert_eq!(
        found_project("x", Response::Failed(Failure::from_backend(false, "no such table: projects"))),
        Ok(None)
    );
    assert_eq!(found_project("x", conflict()).unwrap_err().kind, ErrorKind::SchemaConflict);
    assert_eq!(found_project("x", Response::Project(Some(bad.clone()))).unwrap_err().kind, ErrorKind::CorruptMetadata);
    assert_eq!(listed_projects(Response::Projects(vec![raw.clone(), raw.clone()])).unwrap().len(), 2);
    assert_eq!(listed_projects(Response::Projects(vec![])).unwrap().len(), 0);
    let e = listed_projects(Response::Projects(vec![raw.clone(), bad.clone()])).unwrap_err();
    assert_eq!((e.kind, e.identifier.as_str()), (ErrorKind::CorruptMetadata, "de mo"));
    assert_eq!(listed_projects(Response::Done).unwrap_err().kind, ErrorKind::ConnectionFailure);
    assert_eq!(decode_projects(&vec![raw]).unwrap(), vec![p]);
}

#[test]
fn column_requests_and_answers() {
    let p = project();
    assert_eq!(
        create_column_request(&p, "te mp", DataType::Float, 8).unwrap(),
        Action::CreateColumn {
            project_id: 3,
            table: "myproject".into(),
            name: "te mp".into(),
            encoded: "temp".into(),
            column_type: DataType::Float,
            created_at: 8,
        }
    );
    assert_eq!(create_column_request(&p, "", DataType::Text, 8).unwrap_err().kind, ErrorKind::EmptyIdentifier);
    assert_eq!(
        create_column_request(&p, "__timestamp__", DataType::Text, 8).unwrap_err().kind,
        ErrorKind::ReservedName
    );
    assert_eq!(
        create_column_request(&p, "a", DataType::Text, i64::MIN).unwrap_err().kind,
        ErrorKind::CorruptMetadata
    );
    let c = created_column("a", Response::Column(raw_column("a", "a"))).unwrap();
    assert_eq!(c, column("a", "a", DataType::Text));
    assert_eq!(c.clone(), c);
    assert_eq!(created_column("a", conflict()).unwrap_err().kind, ErrorKind::SchemaConflict);
    assert_eq!(created_column("a", Response::Done).unwrap_err().kind, ErrorKind::ConnectionFailure);
    let mut bad = raw_column("b", "b");
    bad.column_type = "NOPE".into();
    assert_eq!(created_column("b", Response::Column(bad.clone())).unwrap_err().kind, ErrorKind::CorruptMetadata);
    let listed = listed_columns(&p, Response::Columns(vec![raw_column("a", "a"), raw_column("c", "c")])).unwrap();
    assert_eq!(listed, vec![column("a", "a", DataType::Text), column("c", "c", DataType::Text)]);
    let e = listed_columns(&p, Response::Columns(vec![raw_column("a", "a"), bad.clone()])).unwrap_err();
    assert_eq!((e.kind, e.identifier.as_str()), (ErrorKind::CorruptMetadata, "b"));
    let e = listed_columns(&p, conflict()).unwrap_err();
    assert_eq!(e.identifier, "my project");
    assert_eq!(decode_columns(&vec![bad]).unwrap_err().kind, ErrorKind::CorruptMetadata);
}

#[test]
fn resolver_walks_the_keys_in_order() {
    let keys = vec!["a".to_string(), "b c".to_string(), "a".to_string()];
    let (resolver, action) = Resolver::start(&project(), keys, DataType::Text, 8);
    assert!(resolver.is_well_formed());
    assert_eq!(resolver.phase, Phase::Listing);
    assert_eq!(action, Action::ListColumns { project_id: 3 });
    let step = resolver.resume(Response::Columns(vec![raw_column("a", "a")]));
    let (resolver, action) = match step {
        Step::Ask(r, a) => (r, a),
        Step::Done(r) => panic!("{:?}", r),
    };
    assert!(resolver.is_well_formed());
    assert_eq!(resolver.phase, Phase::Creating);
    assert_eq!(resolver.resolved, vec![column("a", "a", DataType::Text)]);
    assert_eq!(
        action,
        Action::CreateColumn {
            project_id: 3,
            table: "myproject".into(),
            name: "b c".into(),
            encoded: "bc".into(),
            column_type: DataType::Text,
            created_at: 8,
        }
    );
    let step = resolver.resume(Response::Column(raw_column("b c", "bc")));
    match step {
        Step::Done(Ok(columns)) => {
            assert_eq!(
                columns,
                vec![
                    column("a", "a", DataType::Text),
                    column("b c", "bc", DataType::Text),
                    column("a", "a", DataType::Text)
                ]
            );
        }
        other => panic!("{:?}", other),
    }
}

#[test]
fn resolver_rereads_once_after_a_conflict() {
    let start = || {
        let (r, _) = Resolver::start(&project(), vec!["new".to_string()], DataType::Text, 8);
        match r.resume(Response::Columns(vec![])) {
            Step::Ask(r, a) => (r, a),
            Step::Done(r) => panic!("{:?}", r),
        }
    };
    let (resolver, _) = start();
    let (resolver, action) = match resolver.resume(conflict()) {
        Step::Ask(r, a) => (r, a),
        Step::Done(r) => panic!("{:?}", r),
    };
    assert_eq!(resolver.phase, Phase::Relisting);
    assert!(resolver.is_well_formed());
    assert_eq!(action, Action::ListColumns { project_id: 3 });
    match resolver.resume(Response::Columns(vec![raw_column("new", "new")])) {
        Step::Done(Ok(columns)) => assert_eq!(columns, vec![column("new", "new", DataType::Text)]),
        other => panic!("{:?}", other),
    }
    let (resolver, _) = start();
    let resolver = match resolver.resume(conflict()) {
        Step::Ask(r, _) => r,
        Step::Done(r) => panic!("{:?}", r),
    };
    match resolver.resume(Response::Columns(vec![raw_column("n-ew", "new")])) {
        Step::Done(Err(e)) => {
            assert_eq!((e.kind, e.identifier.as_str()), (ErrorKind::SchemaConflict, "new"))
        }
        other => panic!("{:?}", other),
    }
    let (resolver, _) = start();
    match resolver.resume(Response::Failed(Failure::from_backend(false, "disk full"))) {
        Step::Done(Err(e)) => {
            assert_eq!((e.kind, e.identifier.as_str()), (ErrorKind::ConnectionFailure, "new"));
            assert_eq!(e.detail, "disk full");
        }
        other => panic!("{:?}", other),
    }
    let (resolver, _) = start();
    match resolver.resume(Response::Column(raw_column("other", "other"))) {
        Step::Done(Err(e)) => assert_eq!(e.kind, ErrorKind::CorruptMetadata),
        other => panic!("{:?}", other),
    }
    let (resolver, _) = start();
    match resolver.resume(Response::Columns(vec![])) {
        Step::Done(Err(e)) => assert_eq!(e.kind, ErrorKind::ConnectionFailure),
        other => panic!("{:?}", other),
    }
}

#[test]
fn resolver_refuses_before_it_asks() {
    let run = |key: &str, known: Vec<RawColumn>| {
        let (r, _) = Resolver::start(&project(), vec![key.to_string()], DataType::Text, 8);
        match r.resume(Response::Columns(known)) {
            Step::Done(Err(e)) => e.kind,
            other => panic!("{:?}", other),
        }
    };
    assert_eq!(run("!!", vec![]), ErrorKind::EmptyIdentifier);
    assert_eq!(run("__timestamp__", vec![]), ErrorKind::ReservedName);
    assert_eq!(run("a-b", vec![raw_column("a b", "ab")]), ErrorKind::SchemaConflict);
    let mut corrupt = raw_column("x", "x");
    corrupt.created_at = i64::MAX;
    assert_eq!(run("y", vec![corrupt]), ErrorKind::CorruptMetadata);
    let (r, _) = Resolver::start(&project(), vec!["y".to_string()], DataType::Text, i64::MAX);
    match r.resume(Response::Columns(vec![])) {
        Step::Done(Err(e)) => assert_eq!(e.kind, ErrorKind::CorruptMetadata),
        other => panic!("{:?}", other),
    }
    let (r, _) = Resolver::start(&project(), vec!["y".to_string()], DataType::Text, 1);
    match r.resume(conflict()) {
        Step::Done(Err(e)) => {
            assert_eq!((e.kind, e.identifier.as_str()), (ErrorKind::SchemaConflict, "my project"))
        }
        other => panic!("{:?}", other),
    }
    let known = vec![column("a", "x", DataType::Text), column("b", "y", DataType::Raw)];
    assert_eq!(find_known(&known, "b"), Some(1));
    assert_eq!(find_known(&known, "x"), None);
    assert!(has_encoded(&known, "y"));
    assert!(!has_encoded(&known, "a"));
}

#[test]
fn opener_creates_a_missing_project_and_rereads_after_a_conflict() {
    let raw = RawProject { name: "de mo".into(), encoded: "demo".into(), created_at: 5, id: 1 };
    let (opener, action) = Opener::start("de mo", 5);
    assert_eq!(opener.stage, Stage::Finding);
    assert_eq!(action, Action::FindProject { name: "de mo".into() });
    match opener.resume(Response::Project(Some(raw.clone()))) {
        Opening::Done(Ok(p)) => assert_eq!(p.id, 1),
        other => panic!("{:?}", other),
    }
    let (opener, _) = Opener::start("de mo", 5);
    let (opener, action) = match opener.resume(Response::Project(None)) {
        Opening::Ask(o, a) => (o, a),
        other => panic!("{:?}", other),
    };
    assert_eq!(opener.stage, Stage::Creating);
    assert_eq!(action, create_project_request("de mo", 5).unwrap());
    let (opener, action) = match opener.resume(conflict()) {
        Opening::Ask(o, a) => (o, a),
        other => panic!("{:?}", other),
    };
    assert_eq!(opener.stage, Stage::Refinding);
    assert_eq!(action, Action::FindProject { name: "de mo".into() });
    match opener.resume(Response::Project(Some(raw.clone()))) {
        Opening::Done(Ok(p)) => assert_eq!(p.name, "de mo"),
        other => panic!("{:?}", other),
    }
    let (opener, _) = Opener::start("de mo", 5);
    let opener = match opener.resume(Response::Project(None)) {
        Opening::Ask(o, _) => o,
        other => panic!("{:?}", other),
    };
    let opener = match opener.resume(conflict()) {
        Opening::Ask(o, _) => o,
        other => panic!("{:?}", other),
    };
    match opener.resume(Response::Project(None)) {
        Opening::Done(Err(e)) => assert_eq!(e.kind, ErrorKind::SchemaConflict),
        other => panic!("{:?}", other),
    }
    let (opener, _) = Opener::start("??", 5);
    match opener.resume(Response::Project(None)) {
        Opening::Done(Err(e)) => assert_eq!(e.kind, ErrorKind::EmptyIdentifier),
        other => panic!("{:?}", other),
    }
    let (opener, _) = Opener::start("p", 5);
    match opener.resume(Response::Failed(Failure::from_backend(false, "gone"))) {
        Opening::Done(Err(e)) => assert_eq!(e.kind, ErrorKind::ConnectionFailure),
        other => panic!("{:?}", other),
    }
    let (opener, _) = Opener::start("p", 5);
    match opener.resume(Response::Done) {
        Opening::Done(Err(e)) => assert_eq!(e.kind, ErrorKind::ConnectionFailure),
        other => panic!("{:?}", other),
    }
}

#[test]
fn insert_requests_bind_values_in_column_order() {
    let p = project();
    let columns = vec![column("te mp", "temp", DataType::Float), column("unit", "unit", DataType::Text)];
    let mut fields = Fields::new();
    fields.insert("te mp", "21.5");
    fields.insert("unit", "C");
    assert_eq!(
        insert_request(&p, &columns, &fields, 77).unwrap(),
        Action::InsertRow {
            table: "myproject".into(),
            columns: vec!["temp".into(), "unit".into()],
            timestamp: 77,
            values: vec!["21.5".into(), "C".into()],
        }
    );
    fields.insert("te mp", "warm");
    let e = insert_request(&p, &columns, &fields, 77).unwrap_err();
    assert_eq!((e.kind, e.identifier.as_str()), (ErrorKind::TypeMismatch, "te mp"));
    let e = insert_request(&p, &vec![], &fields, 77).unwrap_err();
    assert_eq!(e.kind, ErrorKind::CorruptMetadata);
    assert_eq!(inserted(&p, Response::Done), Ok(()));
    assert_eq!(inserted(&p, conflict()).unwrap_err().kind, ErrorKind::SchemaConflict);
    assert_eq!(inserted(&p, Response::Rows(vec![])).unwrap_err().kind, ErrorKind::ConnectionFailure);
}

#[test]
fn rows_are_read_by_declared_columns() {
    let columns = vec![
        column("unit", "unit", DataType::Text),
        column("te mp", "temp", DataType::Float),
        column("gone", "gone", DataType::Text),
    ];
    let cell = |name: &str, value: Option<&str>| RawCell {
        name: name.into(),
        value: value.map(|v| v.to_string()),
    };
    let raw = RawRow {
        timestamp: 5,
        cells: vec![
            cell("temp", None),
            cell("temp", Some("21.5")),
            cell("stray", Some("x")),
            cell("unit", Some("C")),
            cell("gone", None),
            cell("temp", Some("9")),
        ],
    };
    assert_eq!(find_cell(&raw.cells, "temp"), Some("21.5".to_string()));
    assert_eq!(find_cell(&raw.cells, "gone"), None);
    assert_eq!(find_cell(&raw.cells, "absent"), None);
    let row = decode_data_row(&columns, &raw);
    assert_eq!(row.timestamp, 5);
    assert_eq!(row.fields.keys(), vec!["unit".to_string(), "te mp".to_string()]);
    assert_eq!(row.fields.values(), vec!["C".to_string(), "21.5".to_string()]);
    assert_eq!(row.get("te mp"), Some("21.5".to_string()));
    assert_eq!(row.get("temp"), None);
    let rows = decoded_rows(&project(), &columns, Response::Rows(vec![raw])).unwrap();
    assert_eq!(rows, vec![row]);
    let e = decoded_rows(
        &project(),
        &columns,
        Response::Failed(Failure::from_backend(false, "no such table: myproject")),
    )
    .unwrap_err();
    assert_eq!(e.kind, ErrorKind::NotFound);
    assert_eq!(decoded_rows(&project(), &columns, Response::Done).unwrap_err().kind, ErrorKind::ConnectionFailure);
}

#[test]
fn failures_at_start_up_are_told_apart() {
    let f = Failure::from_backend(false, "out of disk");
    let e = connection_refused("sqlite://x.db", &f);
    assert_eq!(e, Error::new(ErrorKind::ConnectionFailure, "sqlite://x.db", "out of disk"));
    assert_eq!(migrated("sqlite://x.db", Response::Done), Ok(()));
    let e = migrated("sqlite://x.db", Response::Failed(f)).unwrap_err();
    assert_eq!(e, Error::new(ErrorKind::MigrationFailure, "sqlite://x.db", "out of disk"));
    let e = migrated("u", Response::Project(None)).unwrap_err();
    assert_eq!(e.kind, ErrorKind::ConnectionFailure);
}
