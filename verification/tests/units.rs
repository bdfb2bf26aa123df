use linx::error::AppError;
use linx::response::{health, AppResponse};
use linx::service::{compose_short_url, generation_step, supplied_insert_result, RetryDecision};
use linx::store::{InsertError, MemStore};
use linx::{code_byte, generate_code, is_base62, normalize_code, trim_spaces, DEFAULT_CODE_LEN};

#[test]
fn base62_accepts_the_alphabet() {
    assert!(is_base62(
        "0123456789ABCDEFGHIJKLMNOPQRSTUVWXYZabcdefghijklmnopqrstuvwxyz"
    ));
    assert!(is_base62("abc123XYZ"));
    assert!(is_base62(""));
}

#[test]
fn base62_rejects_other_characters() {
    for bad in ["-", "_", " ", "a b", "é", "abc!", "a/b", "\n"] {
        assert!(!is_base62(bad), "accepted {:?}", bad);
    }
}

#[test]
fn trim_removes_surrounding_whitespace_only() {
    assert_eq!(trim_spaces("  ex \t\n"), "ex");
    assert_eq!(trim_spaces("ex"), "ex");
    assert_eq!(trim_spaces("  a b  "), "a b");
    assert_eq!(trim_spaces("   "), "");
    assert_eq!(trim_spaces(""), "");
    assert_eq!(trim_spaces("\u{3000}wide\u{a0}"), "wide");
}

#[test]
fn normalize_treats_blank_as_absent() {
    assert_eq!(normalize_code(None), None);
    assert_eq!(normalize_code(Some("   ".to_string())), None);
    assert_eq!(normalize_code(Some("".to_string())), None);
    assert_eq!(normalize_code(Some(" ex ".to_string())), Some("ex".to_string()));
    assert_eq!(normalize_code(Some("ex".to_string())), Some("ex".to_string()));
}

#[test]
fn code_byte_follows_the_table() {
    assert_eq!(code_byte(0), b'0');
    assert_eq!(code_byte(9), b'9');
    assert_eq!(code_byte(10), b'A');
    assert_eq!(code_byte(35), b'Z');
    assert_eq!(code_byte(36), b'a');
    assert_eq!(code_byte(61), b'z');
    let mut seen = [false; 256];
    for i in 0..62 {
        let b = code_byte(i);
        assert!(!seen[b as usize], "symbol {} repeated", b as char);
        seen[b as usize] = true;
    }
}

#[test]
fn generated_codes_use_the_alphabet_and_length() {
    for len in [1usize, 2, 6, 32] {
        for _ in 0..16 {
            let code = generate_code(len);
            assert_eq!(code.len(), len);
            assert!(code.chars().all(|c| c.is_ascii_alphanumeric()));
        }
    }
    assert_eq!(generate_code(DEFAULT_CODE_LEN).len(), 6);
}

#[test]
fn compose_short_url_joins_with_slash() {
    let short = compose_short_url("http://localhost:3000", &"ex".to_string());
    assert_eq!(short, "http://localhost:3000/ex");
}

#[test]
fn error_statuses_and_messages() {
    let bad = AppError::BadRequest("invalid code (base62 only)".to_string());
    assert_eq!(bad.status(), 400);
    assert_eq!(bad.message(), "invalid code (base62 only)");

    let conflict = AppError::Conflict("code already exists".to_string());
    assert_eq!(conflict.status(), 409);
    assert_eq!(conflict.message(), "code already exists");

    let anonymous = AppError::NotFound(None);
    assert_eq!(anonymous.status(), 404);
    assert_eq!(anonymous.message(), "not found");

    let named = AppError::NotFound(Some("link".to_string()));
    assert_eq!(named.status(), 404);
    assert_eq!(named.message(), "link not found");

    let internal = AppError::Internal;
    assert_eq!(internal.status(), 500);
    assert_eq!(internal.message(), "internal error");
}

#[test]
fn response_statuses() {
    assert_eq!(
        AppResponse::Shorten("http://localhost:3000/ex".to_string(), "ex".to_string()).status(),
        200
    );
    assert_eq!(AppResponse::Redirect("https://example.com".to_string()).status(), 301);
    assert_eq!(AppResponse::Health.status(), 200);
    assert!(matches!(health(), AppResponse::Health));
}

#[test]
fn generation_step_retries_only_collisions() {
    assert!(matches!(generation_step(0, &Ok(())), RetryDecision::Accept));
    assert!(matches!(
        generation_step(0, &Err(InsertError::DuplicateCode)),
        RetryDecision::RetryAgain
    ));
    assert!(matches!(
        generation_step(3, &Err(InsertError::DuplicateCode)),
        RetryDecision::RetryAgain
    ));
    assert!(matches!(
        generation_step(4, &Err(InsertError::DuplicateCode)),
        RetryDecision::GiveUp(AppError::Conflict(_))
    ));
    assert!(matches!(
        generation_step(2, &Err(InsertError::StorageFailure)),
        RetryDecision::GiveUp(AppError::Internal)
    ));
}

#[test]
fn supplied_insert_result_maps_outcomes() {
    match supplied_insert_result("ex".to_string(), "http://localhost:3000", &Ok(())) {
        Ok(AppResponse::Shorten(short, code)) => {
            assert_eq!(short, "http://localhost:3000/ex");
            assert_eq!(code, "ex");
        }
        other => panic!("expected Shorten, got {:?}", other),
    }
    assert!(matches!(
        supplied_insert_result("ex".to_string(), "b", &Err(InsertError::DuplicateCode)),
        Err(AppError::Conflict(_))
    ));
    assert!(matches!(
        supplied_insert_result("ex".to_string(), "b", &Err(InsertError::StorageFailure)),
        Err(AppError::Internal)
    ));
}

#[test]
fn store_lookup_reads_what_insert_wrote() {
    let mut store = MemStore::new();
    assert!(store.lookup(&"g".to_string()).is_none());
    assert!(store.insert("g".to_string(), "http://google.com".to_string()).is_ok());
    assert_eq!(store.lookup(&"g".to_string()), Some("http://google.com".to_string()));
    assert!(matches!(
        store.insert("g".to_string(), "http://elsewhere.example".to_string()),
        Err(InsertError::DuplicateCode)
    ));
    assert_eq!(store.lookup(&"g".to_string()), Some("http://google.com".to_string()));
}
