use fkit::config::{generate_default_config, DatabaseUrl, Schema, Settings};

#[test]
fn test_get_url() {
    let settings = Settings::new("sqlite://./test.db", None);

    let url = settings.get_database_url();
    assert_eq!(url.raw, "sqlite://./test.db");
    assert_eq!(url.scheme, "sqlite");
    assert_eq!(url.location, "./test.db");
}

#[test]
fn url_parts_stop_at_the_next_separator() {
    let settings = Settings::new("postgres://host://rest", Some(8080));
    assert!(settings.has_database_url());
    let url = settings.get_database_url();
    assert_eq!(url.get_as_str(), "postgres://host://rest");
    assert_eq!(url.scheme, "postgres");
    assert_eq!(url.get_location(), "host");
    assert_eq!(settings.get_server_port(), Some(8080));
}

#[test]
fn url_without_separator_is_recognised() {
    assert!(!Settings::new("sqlite:/x.db", None).has_database_url());
    assert!(!Settings::new("", None).has_database_url());
    assert!(!Settings::new(":/", None).has_database_url());
    assert!(Settings::new("://", None).has_database_url());
    let url = Settings::new("://", None).get_database_url();
    assert_eq!(url.scheme, "");
    assert_eq!(url.location, "");
    let url = Settings::new(":://a", None).get_database_url();
    assert_eq!(url.scheme, ":");
    assert_eq!(url.location, "a");
}

#[test]
fn schemes_name_engines() {
    let url = Settings::new("sqlite://a", None).get_database_url();
    assert!(url.has_known_scheme());
    assert_eq!(url.get_scheme(), Schema::Sqlite);
    let url = Settings::new("postgres://a", None).get_database_url();
    assert_eq!(url.get_scheme(), Schema::Postgres);
    let url = Settings::new("mysql://a", None).get_database_url();
    assert_eq!(url.get_scheme(), Schema::Mysql);
    let url = Settings::new("oracle://a", None).get_database_url();
    assert!(!url.has_known_scheme());
}

#[test]
fn change_url_replaces_all_parts() {
    let mut url: DatabaseUrl = Settings::new("sqlite://./a.db", None).get_database_url();
    url.change_url("mysql://user@host/db");
    assert_eq!(url.get_as_str(), "mysql://user@host/db");
    assert_eq!(url.scheme, "mysql");
    assert_eq!(url.get_location(), "user@host/db");
    assert_eq!(url.get_scheme(), Schema::Mysql);
}

#[test]
fn server_port_defaults_to_none() {
    assert_eq!(Settings::new("sqlite://x", None).get_server_port(), None);
}

#[test]
fn default_config_names_the_directory() {
    assert_eq!(
        generate_default_config("fkit"),
        "\n[database]\nurl = \"sqlite://./fkit.db\"\n"
    );
    let text = generate_default_config("lab");
    let url_line = text.lines().nth(2).unwrap();
    assert_eq!(url_line, "url = \"sqlite://./lab.db\"");
}
