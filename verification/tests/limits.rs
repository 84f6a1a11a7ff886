//! Payload limits.

use memory_engine::error::{ConflictError, MemoryError};
use memory_engine::json::{member_str, serialized_len};
use memory_engine::limits::{check_json_size, check_new_fact, check_str_size, MAX_PAYLOAD_BYTES};
use memory_engine::test_util::new_fact;

fn empty_object() -> serde_json::Value {
    serde_json::Value::Object(serde_json::Map::new())
}

#[test]
fn serialized_len_counts_exact_bytes() {
    const EXPECTED_STRING_LEN: usize = 5; // "abc" → content + two quotes
    const EXPECTED_EMPTY_OBJECT_LEN: usize = 2; // {}

    assert_eq!(
        serialized_len(&serde_json::Value::String("abc".into()), MAX_PAYLOAD_BYTES).unwrap(),
        EXPECTED_STRING_LEN
    );
    assert_eq!(
        serialized_len(&empty_object(), MAX_PAYLOAD_BYTES).unwrap(),
        EXPECTED_EMPTY_OBJECT_LEN
    );
}

#[test]
fn serialized_len_aborts_early_over_limit() {
    let big = serde_json::Value::String("x".repeat(1000));
    let limit = 16;
    match serialized_len(&big, limit) {
        Err(n) => assert!(n > limit, "abort count {n} must exceed limit {limit}"),
        Ok(n) => panic!("expected early abort over limit {limit}, got Ok({n})"),
    }
}

#[test]
fn serialized_len_at_the_limit_and_one_over() {
    let value = serde_json::Value::String("abc".into());
    assert_eq!(serialized_len(&value, 5), Ok(5));
    assert!(serialized_len(&value, 4).is_err());
    assert_eq!(serialized_len(&value, usize::MAX), Ok(5));
}

#[test]
fn serialized_len_counts_bytes_not_chars() {
    // Two bytes for the letter, two for the quotes.
    assert_eq!(serialized_len(&serde_json::Value::String("é".into()), 100), Ok(4));
    // A line break is escaped.
    assert_eq!(serialized_len(&serde_json::Value::String("\n".into()), 100), Ok(4));
}

#[test]
fn serialized_len_of_a_nested_value() {
    let value: serde_json::Value = serde_json::from_str("{\"a\": [1, 2, null], \"b\": true}").unwrap();
    assert_eq!(serialized_len(&value, 100), Ok("{\"a\":[1,2,null],\"b\":true}".len()));
}

#[test]
fn check_json_size_boundary() {
    // A JSON string of N chars serializes to N + 2 bytes (the quotes).
    let at_limit = serde_json::Value::String("x".repeat(MAX_PAYLOAD_BYTES - 2));
    assert!(check_json_size(&at_limit, "fact metadata").is_ok());

    let over = serde_json::Value::String("x".repeat(MAX_PAYLOAD_BYTES));
    let err = check_json_size(&over, "fact metadata").unwrap_err();
    assert!(matches!(
        err,
        MemoryError::Conflict(ConflictError::PayloadTooLarge {
            kind: "fact metadata",
            ..
        })
    ));
}

#[test]
fn check_str_size_boundary() {
    let at_limit = "x".repeat(MAX_PAYLOAD_BYTES);
    assert!(check_str_size(&at_limit, "fact content").is_ok());

    let over = "x".repeat(MAX_PAYLOAD_BYTES + 1);
    let err = check_str_size(&over, "fact content").unwrap_err();
    assert!(matches!(
        err,
        MemoryError::Conflict(ConflictError::PayloadTooLarge {
            kind: "fact content",
            size,
            limit
        }) if size == MAX_PAYLOAD_BYTES + 1 && limit == MAX_PAYLOAD_BYTES
    ));
}

#[test]
fn str_size_counts_bytes() {
    // Two bytes a letter: half as many letters fill the limit.
    let at_limit = "é".repeat(MAX_PAYLOAD_BYTES / 2);
    assert!(check_str_size(&at_limit, "fact content").is_ok());
    let over = "é".repeat(MAX_PAYLOAD_BYTES / 2 + 1);
    assert!(check_str_size(&over, "fact content").is_err());
}

#[test]
fn new_fact_is_checked_by_content_and_by_metadata() {
    let mut fact = new_fact("short", vec![0, 0]);
    assert!(check_new_fact(&fact).is_ok());

    fact.metadata = serde_json::Value::String("x".repeat(MAX_PAYLOAD_BYTES));
    assert!(matches!(
        check_new_fact(&fact),
        Err(MemoryError::Conflict(ConflictError::PayloadTooLarge { kind: "fact metadata", .. }))
    ));

    // Of two faults the content comes first.
    fact.content = "x".repeat(MAX_PAYLOAD_BYTES + 1);
    assert!(matches!(
        check_new_fact(&fact),
        Err(MemoryError::Conflict(ConflictError::PayloadTooLarge { kind: "fact content", .. }))
    ));
}

#[test]
fn member_str_reads_texts_only() {
    let value: serde_json::Value =
        serde_json::from_str("{\"command\": \"ls\", \"n\": 3}").unwrap();
    assert_eq!(member_str(&value, "command"), Some("ls"));
    assert_eq!(member_str(&value, "n"), None);
    assert_eq!(member_str(&value, "absent"), None);
    assert_eq!(member_str(&serde_json::Value::String("command".into()), "command"), None);
}
