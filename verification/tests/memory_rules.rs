use memori::cursor::{decode_cursor, encode_cursor};
use memori::embedding::{check_embedding_len, EMBEDDING_DIM};
use memori::memory::{
    apply_update, list_page, list_window, plan_forget, prepare_record, prepare_record_at,
    validate_content,
    validate_query, validate_tags, ForgetTarget,
};
use memori::{ForgetFilter, MemoriError, MemoryRecord, Query};

fn message(r: Result<(), MemoriError>) -> String {
    r.unwrap_err().message()
}

fn rec(id: u128, content: &str, created_at: i64) -> MemoryRecord {
    MemoryRecord {
        id,
        content: content.to_string(),
        created_at,
        tags: vec![],
        source: None,
    }
}

#[test]
fn content_must_not_be_blank() {
    assert_eq!(message(validate_content("   ")), "invalid input: content must not be empty");
    assert_eq!(message(validate_content("")), "invalid input: content must not be empty");
    assert_eq!(
        message(validate_content("\u{3000}\t\n")),
        "invalid input: content must not be empty"
    );
    assert!(validate_content(" x ").is_ok());
}

#[test]
fn content_limit_counts_utf8_bytes() {
    let ok = "a".repeat(65536);
    assert!(validate_content(&ok).is_ok());
    let too_long = "a".repeat(65537);
    assert_eq!(message(validate_content(&too_long)), "invalid input: content exceeds 64 KiB limit");
    // 21846 three-byte characters are 65538 bytes.
    let wide = "€".repeat(21846);
    assert!(validate_content(&wide).is_err());
    let wide_ok = "€".repeat(21845);
    assert!(validate_content(&wide_ok).is_ok());
}

#[test]
fn tags_must_not_be_empty() {
    assert!(validate_tags(&["a".to_string(), "b".to_string()]).is_ok());
    assert!(validate_tags(&[]).is_ok());
    assert_eq!(
        message(validate_tags(&["a".to_string(), String::new()])),
        "invalid input: tag must not be empty"
    );
}

#[test]
fn query_needs_text_and_sane_top_k() {
    let mut q = Query::default();
    assert_eq!(q.top_k, 5);
    assert!(q.text.is_empty() && q.tag_filter.is_empty() && q.source_filter.is_none());
    assert!(validate_query(&q).unwrap_err().message().contains("empty"));
    q.text = " ".into();
    assert!(validate_query(&q).unwrap_err().message().contains("empty"));
    q.text = "rust".into();
    assert!(validate_query(&q).is_ok());
    q.top_k = 0;
    assert_eq!(message(validate_query(&q)), "invalid input: top_k must be in [1, 25]");
    q.top_k = 26;
    assert!(validate_query(&q).is_err());
    q.top_k = 25;
    assert!(validate_query(&q).is_ok());
}

#[test]
fn prepared_record_keeps_metadata() {
    let before = chrono::Utc::now().timestamp_micros();
    let r = prepare_record(
        "Rust is a systems programming language".into(),
        vec!["lang".into(), "systems".into()],
        Some("test-agent".into()),
    )
    .unwrap();
    let after = chrono::Utc::now().timestamp_micros();
    assert_eq!(r.tags, vec!["lang", "systems"]);
    assert_eq!(r.source.as_deref(), Some("test-agent"));
    assert!(r.created_at >= before && r.created_at <= after);
    assert_ne!(r.id, 0);
    assert_eq!(uuid::Uuid::from_u128(r.id).get_version_num(), 4);
}

#[test]
fn prepared_record_uses_the_given_time() {
    let r = prepare_record_at("note".into(), vec!["a".into()], None, 1_700_000_000_123_456).unwrap();
    assert_eq!(r.created_at, 1_700_000_000_123_456);
    assert_eq!(r.content, "note");
    assert_ne!(r.id, 0);
    let e = prepare_record_at("".into(), vec!["".into()], None, 5).unwrap_err();
    assert_eq!(e.message(), "invalid input: content must not be empty");
}

#[test]
fn prepared_record_rejects_bad_input() {
    let e = prepare_record("   ".into(), vec![], None).unwrap_err();
    assert!(e.message().contains("empty"));
    let e = prepare_record("ok".into(), vec!["".into()], None).unwrap_err();
    assert_eq!(e.message(), "invalid input: tag must not be empty");
}

#[test]
fn update_keeps_identity() {
    let mut old = rec(7, "cats are mammals", 1234);
    old.tags = vec!["bio".into()];
    old.source = Some("seed".into());
    let new = apply_update(7, "the capital of France is Paris".into(), Some(old)).unwrap();
    assert_eq!(new.id, 7);
    assert_eq!(new.created_at, 1234);
    assert_eq!(new.tags, vec!["bio"]);
    assert_eq!(new.source.as_deref(), Some("seed"));
    assert_eq!(new.content, "the capital of France is Paris");
}

#[test]
fn update_of_missing_id_errors() {
    let id = 0x11111111_1111_1111_1111_111111111111u128;
    let e = apply_update(id, "whatever".into(), None).unwrap_err();
    assert_eq!(
        e.message(),
        "invalid input: no memory with id 11111111-1111-1111-1111-111111111111"
    );
}

#[test]
fn cursor_is_base64_of_decimal_offset() {
    assert_eq!(encode_cursor(3), "Mw==");
    assert_eq!(encode_cursor(20), "MjA=");
    assert_eq!(encode_cursor(100), "MTAw");
    assert_eq!(encode_cursor(0), "MA==");
    for n in [0usize, 1, 3, 20, 99, 100, 12345, usize::MAX] {
        assert_eq!(decode_cursor(&encode_cursor(n)).ok(), Some(n));
    }
}

#[test]
fn bad_cursors_are_refused() {
    for bad in ["", "!!!", "YWJj", "LTE=", "Kw==", "MA"] {
        let e = decode_cursor(bad);
        if bad.is_empty() {
            // empty base64 is empty bytes, which is no number
            assert!(e.is_err());
            continue;
        }
        assert_eq!(e.unwrap_err().message(), "invalid input: cursor is invalid", "{bad}");
    }
    // "+5" is accepted as 5, as str::parse accepts it
    assert_eq!(decode_cursor("KzU=").ok(), Some(5));
}

#[test]
fn list_window_defaults_and_limits() {
    assert_eq!(list_window(0, None).ok(), Some((20, 0)));
    assert_eq!(list_window(100, None).ok(), Some((100, 0)));
    let e = list_window(101, None).unwrap_err();
    assert!(e.message().contains("100"), "should mention limit of 100");
    assert_eq!(list_window(3, Some("Mw==")).ok(), Some((3, 3)));
    assert!(list_window(3, Some("nope")).is_err());
}

#[test]
fn pages_and_next_cursor() {
    let rows: Vec<MemoryRecord> = (0..4).map(|i| rec(i, "x", i as i64)).collect();
    let (page, next) = list_page(rows.clone(), 3, 0);
    assert_eq!(page.len(), 3);
    assert_eq!(next.as_deref(), Some("Mw=="));
    let w = list_window(3, next.as_deref()).unwrap();
    assert_eq!(w, (3, 3));
    let (page, next) = list_page(rows, 3, 3);
    assert_eq!(page.len(), 1);
    assert!(next.is_none(), "no more pages");
    let rows: Vec<MemoryRecord> = (0..3).map(|i| rec(i, "x", i as i64)).collect();
    let (page, next) = list_page(rows, 3, 0);
    assert_eq!(page.len(), 3);
    assert!(next.is_none(), "exactly one full page has no next cursor");
}

#[test]
fn following_cursors_lists_every_record_newest_first() {
    // Stored out of order: times 2, 0, 4, 1, 3.
    let times = [2i64, 0, 4, 1, 3];
    let rows: Vec<MemoryRecord> = times.iter().map(|&t| rec(t as u128, "x", t)).collect();
    let mut seen = Vec::new();
    let mut pages = Vec::new();
    let mut cursor: Option<String> = None;
    loop {
        let (limit, offset) = list_window(3, cursor.as_deref()).unwrap();
        let (page, next) = list_page(rows.clone(), limit, offset);
        pages.push(page.iter().map(|r| r.created_at).collect::<Vec<_>>());
        seen.extend(page.iter().map(|r| r.created_at));
        match next {
            Some(c) => cursor = Some(c),
            None => break,
        }
    }
    assert_eq!(pages, vec![vec![4, 3, 2], vec![1, 0]]);
    assert_eq!(seen, vec![4, 3, 2, 1, 0]);
}

#[test]
fn forget_needs_exactly_one_target() {
    let e = plan_forget(None, None).err().unwrap();
    assert!(e.message().contains("must supply"));
    let f = ForgetFilter { older_than: None, tags: vec!["x".into()], source: None };
    let e = plan_forget(Some(1), Some(f)).err().unwrap();
    assert!(e.message().contains("not both"));
    assert!(matches!(plan_forget(Some(9), None), Ok(ForgetTarget::ById(9))));
    let f = ForgetFilter::default();
    assert!(matches!(plan_forget(None, Some(f)), Ok(ForgetTarget::ByFilter(_))));
}

#[test]
fn embedding_length_is_checked() {
    assert_eq!(EMBEDDING_DIM, 384);
    assert!(check_embedding_len(384).is_ok());
    assert_eq!(
        check_embedding_len(12).unwrap_err().message(),
        "embedding error: dimension mismatch: got 12, expected 384"
    );
}

#[test]
fn error_messages_carry_their_kind() {
    assert_eq!(MemoriError::Storage("x".into()).message(), "storage error: x");
    assert_eq!(MemoriError::Io("x".into()).message(), "IO error: x");
    assert_eq!(MemoriError::Serde("x".into()).message(), "serialization error: x");
    assert_eq!(MemoriError::Arrow("x".into()).message(), "arrow error: x");
}
