use fkit::encoder::{allowed_char, encode, is_identifier, sql_encode};

#[test]
fn test_sql_encode() {
    let output = sql_encode("Hello, world!");
    assert!(output.is_err());

    assert_eq!(output.unwrap_err(), "Helloworld".to_string());
}

#[test]
fn test_sql_encode_safe() {
    let output = sql_encode("Hello_world");

    assert_eq!(output.unwrap(), "Hello_world".to_string());
}

#[test]
fn encode_is_idempotent() {
    for input in ["Hello, world!", "", "a b c", "__timestamp__", "ünïcödé x9", "!!!", "A-Z_0"] {
        let once = encode(input);
        let twice = encode(&once.sanitized);
        assert_eq!(twice.sanitized, once.sanitized);
        assert!(!twice.lossy);
        assert!(once.sanitized.chars().all(allowed_char));
    }
}

#[test]
fn encode_keeps_order_and_reports_loss() {
    let e = encode("te mp-1!");
    assert_eq!(e.sanitized, "temp1");
    assert!(e.lossy);
    let e = encode("temp_1");
    assert_eq!(e.sanitized, "temp_1");
    assert!(!e.lossy);
}

#[test]
fn encode_of_empty_input_is_not_lossy() {
    let e = encode("");
    assert_eq!(e.sanitized, "");
    assert!(!e.lossy);
    assert_eq!(sql_encode(""), Ok(String::new()));
}

#[test]
fn encode_of_punctuation_is_empty_and_lossy() {
    let e = encode("?!.,;");
    assert_eq!(e.sanitized, "");
    assert!(e.lossy);
    assert_eq!(sql_encode("?!.,;"), Err(String::new()));
}

#[test]
fn allowed_characters_are_letters_digits_and_underscore() {
    for c in ['A', 'Z', 'a', 'z', '0', '9', '_', 'm', 'Q', '5'] {
        assert!(allowed_char(c));
    }
    for c in ['@', '[', '`', '{', '/', ':', ' ', '-', 'é', '\n', '\''] {
        assert!(!allowed_char(c));
    }
}

#[test]
fn identifiers_are_clean_and_not_empty() {
    assert!(is_identifier("abc_1"));
    assert!(!is_identifier(""));
    assert!(!is_identifier("a b"));
    assert!(!is_identifier("drop;table"));
}
