use memori::ipc::proto::{socket_path, Request};
use memori::ipc::server::{clamp, plan_request, Call};
use memori::mcp::{ForgetArgs, ListArgs, RecallArgs};

#[test]
fn socket_path_joins_like_a_path() {
    assert_eq!(socket_path("/home/u/.local/share/memori"), "/home/u/.local/share/memori/memori.sock");
    assert_eq!(socket_path("/tmp/"), "/tmp/memori.sock");
    assert_eq!(socket_path(""), "memori.sock");
    assert_eq!(
        socket_path("/tmp/x"),
        std::path::Path::new("/tmp/x").join("memori.sock").to_string_lossy()
    );
}

#[test]
fn list_request_defaults_to_fifty() {
    let req = Request::List { limit: 0, cursor: None, tags: vec![], source: None };
    match plan_request(req) {
        Ok(Call::List { limit, .. }) => assert_eq!(limit, 50),
        other => panic!("unexpected {other:?}"),
    }
    let req = Request::List { limit: 7, cursor: Some("c".into()), tags: vec!["a".into()], source: None };
    match plan_request(req) {
        Ok(Call::List { limit, cursor, tags, .. }) => {
            assert_eq!(limit, 7);
            assert_eq!(cursor.as_deref(), Some("c"));
            assert_eq!(tags, vec!["a"]);
        }
        other => panic!("unexpected {other:?}"),
    }
}

#[test]
fn recall_request_clamps_top_k() {
    for (k, want) in [(0usize, 1usize), (3, 3), (99, 25)] {
        let req = Request::Recall { query: "q".into(), top_k: k, tags: vec![] };
        match plan_request(req) {
            Ok(Call::Recall { query }) => {
                assert_eq!(query.top_k, want);
                assert!(query.source_filter.is_none());
            }
            other => panic!("unexpected {other:?}"),
        }
    }
    assert_eq!(clamp(30, 1, 25), 25);
}

#[test]
fn update_invalid_uuid_returns_err() {
    let req = Request::Update { id: "not-a-uuid".into(), content: "x".into() };
    let e = plan_request(req).unwrap_err();
    assert!(e.contains("UUID"), "expected err for bad uuid");
    let req = Request::Update { id: "11111111-1111-1111-1111-111111111111".into(), content: "x".into() };
    match plan_request(req) {
        Ok(Call::Update { id, .. }) => assert_eq!(id, 0x11111111_1111_1111_1111_111111111111),
        other => panic!("unexpected {other:?}"),
    }
}

#[test]
fn forget_request_by_id_drops_filters() {
    let req = Request::Forget {
        id: Some("11111111-1111-1111-1111-111111111111".into()),
        tags: vec!["x".into()],
        source: None,
        older_than: None,
    };
    match plan_request(req) {
        Ok(Call::Forget { id: Some(_), filter: None }) => {}
        other => panic!("unexpected {other:?}"),
    }
}

#[test]
fn forget_request_reads_rfc3339() {
    let req = Request::Forget {
        id: None,
        tags: vec![],
        source: Some("a".into()),
        older_than: Some("2024-01-01T00:00:00+02:00".into()),
    };
    match plan_request(req) {
        Ok(Call::Forget { id: None, filter: Some(f) }) => {
            assert_eq!(f.older_than, Some(1_704_060_000_000_000));
            assert_eq!(f.source.as_deref(), Some("a"));
        }
        other => panic!("unexpected {other:?}"),
    }
    let req = Request::Forget { id: None, tags: vec![], source: None, older_than: Some("yesterday".into()) };
    assert_eq!(plan_request(req).unwrap_err(), "older_than is not a valid RFC-3339 timestamp");
}

#[test]
fn mcp_recall_and_list_defaults() {
    let q = RecallArgs { query: "q".into(), top_k: None, tag_filter: vec![] }.into_query();
    assert_eq!(q.top_k, 5);
    let q = RecallArgs { query: "q".into(), top_k: Some(100), tag_filter: vec![] }.into_query();
    assert_eq!(q.top_k, 25);
    let l = ListArgs { limit: None, cursor: None, tag_filter: vec![], source_filter: None };
    assert_eq!(l.page_limit(), 20);
}

#[test]
fn mcp_forget_plans() {
    let now = 1_000_000_000_000_000i64;
    let none = ForgetArgs { id: None, older_than: None, tags: vec![], source: None };
    assert_eq!(none.plan(now).unwrap_err(), "must supply id or filter");
    let both = ForgetArgs { id: Some("x".into()), older_than: None, tags: vec!["t".into()], source: None };
    assert_eq!(both.plan(now).unwrap_err(), "supply id or filter, not both");
    let bad = ForgetArgs { id: Some("x".into()), older_than: None, tags: vec![], source: None };
    assert_eq!(bad.plan(now).unwrap_err(), "id is not a valid UUID");
    let aged = ForgetArgs { id: None, older_than: Some("1d".into()), tags: vec![], source: None };
    let (id, f) = aged.plan(now).unwrap();
    assert!(id.is_none());
    assert_eq!(f.unwrap().older_than, Some(now - 86_400_000_000));
    let wrong = ForgetArgs { id: None, older_than: Some("1w".into()), tags: vec![], source: None };
    assert!(wrong.plan(now).unwrap_err().contains("NNd or NNh"));
}
