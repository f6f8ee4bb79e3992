use rust_rag::cache_key::make_cache_key;
use rust_rag::http::{is_success, join_endpoint};
use rust_rag::numbers::{parse_i64, parse_usize};
use rust_rag::store::schema_statements;
use rust_rag::text::{push_decimal, push_signed_decimal, trim_trailing_slashes};

#[test]
fn cache_key_is_prefixed_sha256_hex() {
    assert_eq!(
        make_cache_key("hello"),
        "rag:answer:2cf24dba5fb0a30e26e83b2ac5b9e29e1b161e5c1fa7425e73043362938b9824"
    );
    assert_eq!(
        make_cache_key(""),
        "rag:answer:e3b0c44298fc1c149afbf4c8996fb92427ae41e4649b934ca495991b7852b855"
    );
    let k = make_cache_key("What does pgvector do?");
    assert_eq!(k.len(), 11 + 64);
    assert!(k[11..].chars().all(|c| c.is_ascii_digit() || ('a'..='f').contains(&c)));
    assert_eq!(k, make_cache_key("What does pgvector do?"));
    assert_ne!(k, make_cache_key("What does pgvector do"));
}

#[test]
fn parse_usize_follows_str_parse() {
    for s in ["0", "42", "+7", "007", "", "+", "-", "-0", "-1", " 1", "1 ", "1_0", "x", "18446744073709551615", "18446744073709551616", "99999999999999999999"] {
        assert_eq!(parse_usize(s), s.parse::<usize>().ok(), "input {:?}", s);
    }
}

#[test]
fn parse_i64_follows_str_parse() {
    for s in ["0", "4", "-4", "+4", "-0", "", "+", "-", "--1", "+-1", "9223372036854775807", "9223372036854775808", "-9223372036854775808", "-9223372036854775809", "12a"] {
        assert_eq!(parse_i64(s), s.parse::<i64>().ok(), "input {:?}", s);
    }
}

#[test]
fn decimal_notation() {
    let mut s = String::from("n=");
    push_decimal(&mut s, 0);
    assert_eq!(s, "n=0");
    let mut s = String::new();
    push_decimal(&mut s, 1234567890123);
    assert_eq!(s, "1234567890123");
    let mut s = String::new();
    push_signed_decimal(&mut s, -2147483648);
    assert_eq!(s, "-2147483648");
    let mut s = String::new();
    push_signed_decimal(&mut s, 1536);
    assert_eq!(s, "1536");
}

#[test]
fn trailing_slashes_are_dropped_from_base_urls() {
    assert_eq!(trim_trailing_slashes("http://h:8000/v1///"), "http://h:8000/v1");
    assert_eq!(trim_trailing_slashes("///"), "");
    assert_eq!(join_endpoint("http://h/v1/", "/embeddings"), "http://h/v1/embeddings");
    assert_eq!(join_endpoint("http://h/v1", "/chat/completions"), "http://h/v1/chat/completions");
}

#[test]
fn success_statuses_are_the_2xx_ones() {
    assert!(is_success(200));
    assert!(is_success(204));
    assert!(is_success(299));
    assert!(!is_success(199));
    assert!(!is_success(300));
    assert!(!is_success(404));
    assert!(!is_success(500));
}

#[test]
fn schema_sizes_the_vector_column() {
    let stmts = schema_statements(1536);
    assert_eq!(stmts.len(), 4);
    assert_eq!(stmts[0], "CREATE EXTENSION IF NOT EXISTS vector;");
    assert!(stmts[1].contains("CREATE TABLE IF NOT EXISTS documents ("));
    assert!(stmts[2].contains("embedding VECTOR(1536) NOT NULL,"));
    assert!(stmts[3].starts_with("CREATE INDEX IF NOT EXISTS chunks_embedding_idx"));
    let stmts = schema_statements(-3);
    assert!(stmts[2].contains("VECTOR(-3)"));
}
