use memori::datetime::{MAX_MICROS, MIN_MICROS};
use memori::ids::{lookup_prefix, starts_with_id, PrefixLookup};
use memori::storage::{
    build_filter, deleted_count, forget_predicate, id_predicate, order_newest_first,
    record_from_row, row_from_record, scan_page, StoredRow,
};
use memori::{ForgetFilter, MemoryRecord};

fn rec(id: u128, content: &str, created_at: i64) -> MemoryRecord {
    MemoryRecord { id, content: content.to_string(), created_at, tags: vec![], source: None }
}

#[test]
fn filter_is_none_without_criteria() {
    assert!(build_filter(&[], None).is_none());
}

#[test]
fn filter_joins_tags_and_source() {
    let f = build_filter(&["rust".to_string(), "core".to_string()], Some("agent-x")).unwrap();
    assert_eq!(
        f,
        r#"tags LIKE '%"rust"%' ESCAPE '\' AND tags LIKE '%"core"%' ESCAPE '\' AND source = 'agent-x'"#
    );
    assert_eq!(build_filter(&[], Some("a")).unwrap(), "source = 'a'");
}

#[test]
fn filter_doubles_quotes() {
    let f = build_filter(&["it's".to_string()], Some("o'neil")).unwrap();
    assert_eq!(f, r#"tags LIKE '%"it''s"%' ESCAPE '\' AND source = 'o''neil'"#);
}

#[test]
fn filter_matches_tag_characters_literally() {
    let f = build_filter(&["50%_off".to_string(), "say \"hi\"".to_string()], None).unwrap();
    assert_eq!(
        f,
        r#"tags LIKE '%"50\%\_off"%' ESCAPE '\' AND tags LIKE '%"say \\"hi\\""%' ESCAPE '\'"#
    );
}

#[test]
fn forget_predicate_formats_time_first() {
    let t = chrono::DateTime::parse_from_rfc3339("2024-05-06T07:08:09.123456Z").unwrap();
    let f = ForgetFilter {
        older_than: Some(t.timestamp_micros()),
        tags: vec!["tmp".into()],
        source: Some("cursor".into()),
    };
    assert_eq!(
        forget_predicate(&f).unwrap(),
        r#"created_at < TIMESTAMP '2024-05-06T07:08:09' AND tags LIKE '%"tmp"%' ESCAPE '\' AND source = 'cursor'"#
    );
}

#[test]
fn forget_predicate_refuses_empty_filter() {
    let e = forget_predicate(&ForgetFilter::default()).unwrap_err();
    assert_eq!(
        e.message(),
        "invalid input: forget filter is empty — supply at least one criterion"
    );
}

#[test]
fn id_predicate_uses_hyphenated_form() {
    let id = uuid::Uuid::parse_str("d2c04325-9e1a-4f3b-8c2d-0123456789ab").unwrap().as_u128();
    assert_eq!(id_predicate(id), "id = 'd2c04325-9e1a-4f3b-8c2d-0123456789ab'");
}

#[test]
fn deleted_count_saturates() {
    assert_eq!(deleted_count(5, 3), 2);
    assert_eq!(deleted_count(3, 3), 0);
    assert_eq!(deleted_count(3, 5), 0);
}

#[test]
fn row_round_trip() {
    let r = MemoryRecord {
        id: uuid::Uuid::new_v4().as_u128(),
        content: "the sky is \"blue\"".into(),
        created_at: 1_716_000_000_123_456,
        tags: vec!["fact".into(), "a'b".into(), "ünï".into()],
        source: Some("itest".into()),
    };
    let row = row_from_record(&r);
    assert_eq!(row.id, uuid::Uuid::from_u128(r.id).to_string());
    assert_eq!(row.tags, r#"["fact","a'b","ünï"]"#);
    let back = record_from_row(&row);
    assert_eq!(back.id, r.id);
    assert_eq!(back.content, r.content);
    assert_eq!(back.created_at, r.created_at);
    assert_eq!(back.tags, r.tags);
    assert_eq!(back.source, r.source);
}

#[test]
fn damaged_row_reads_with_defaults() {
    let row = StoredRow {
        id: "not-a-uuid".into(),
        content: "c".into(),
        created_at: i64::MAX,
        tags: "not json".into(),
        source: None,
    };
    let back = record_from_row(&row);
    assert_eq!(back.id, 0);
    assert_eq!(back.created_at, 0);
    assert!(back.tags.is_empty());
    assert!(back.source.is_none());
}

#[test]
fn newest_first_is_stable() {
    let rows = vec![rec(1, "a", 10), rec(2, "b", 30), rec(3, "c", 10), rec(4, "d", 20), rec(5, "e", 30)];
    let ids: Vec<u128> = order_newest_first(rows).iter().map(|r| r.id).collect();
    assert_eq!(ids, vec![2, 5, 4, 1, 3]);
}

#[test]
fn scan_page_skips_and_takes() {
    let rows: Vec<MemoryRecord> = (0..5).map(|i| rec(i, "x", i as i64)).collect();
    let ids: Vec<u128> = scan_page(rows.clone(), 2, 1).iter().map(|r| r.id).collect();
    assert_eq!(ids, vec![3, 2]);
    let ids: Vec<u128> = scan_page(rows.clone(), 10, 3).iter().map(|r| r.id).collect();
    assert_eq!(ids, vec![1, 0]);
    assert!(scan_page(rows, 3, 5).is_empty());
}

#[test]
fn prefix_lookup() {
    let a = uuid::Uuid::parse_str("ee66bfb5-0000-4000-8000-000000000001").unwrap().as_u128();
    let b = uuid::Uuid::parse_str("ee66bfb5-0000-4000-8000-000000000002").unwrap().as_u128();
    let c = uuid::Uuid::parse_str("12345678-0000-4000-8000-000000000003").unwrap().as_u128();
    let records = vec![rec(a, "a", 1), rec(b, "b", 2), rec(c, "c", 3)];
    assert!(matches!(lookup_prefix(&records, "EE66BFB5"), PrefixLookup::Ambiguous(2)));
    assert!(matches!(lookup_prefix(&records, "ee66bfb5-0000-4000-8000-000000000002"), PrefixLookup::Unique(1)));
    assert!(matches!(lookup_prefix(&records, "1234"), PrefixLookup::Unique(2)));
    assert!(matches!(lookup_prefix(&records, "ffffffff"), PrefixLookup::NoMatch));
    assert!(matches!(lookup_prefix(&records, ""), PrefixLookup::Ambiguous(3)));
    assert!(starts_with_id(c, &"12345678-".chars().collect()));
    assert!(!starts_with_id(c, &"12345678-0000-4000-8000-0000000000031".chars().collect()));
}

#[test]
fn row_time_range_matches_calendar() {
    for (t, valid) in [
        (MIN_MICROS, true),
        (MIN_MICROS - 1, false),
        (MAX_MICROS, true),
        (MAX_MICROS + 1, false),
        (0, true),
    ] {
        assert_eq!(chrono::DateTime::from_timestamp_micros(t).is_some(), valid, "{t}");
        let row = StoredRow {
            id: "00000000-0000-0000-0000-000000000001".into(),
            content: String::new(),
            created_at: t,
            tags: "[]".into(),
            source: Some("s".into()),
        };
        let back = record_from_row(&row);
        assert_eq!(back.created_at, if valid { t } else { 0 });
        assert_eq!(back.id, 1);
    }
}
