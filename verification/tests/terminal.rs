use memori::cli::dump::{
    content_width, fmt_created, fmt_created_detail, markdown_of, table_row, table_rule, truncate, word_wrap, ListedItem,
};
use memori::cli::edit::{edit_outcome, EditOutcome};
use memori::cli::forget::{plan_forget_args, preview_matches, ForgetArgsError, PreviewItem};

#[test]
fn wraps_greedily_by_bytes() {
    assert_eq!(word_wrap("the quick brown fox", 9), vec!["the quick", "brown fox"]);
    assert_eq!(word_wrap("a  b\tc", 80), vec!["a b c"]);
    assert_eq!(word_wrap("one\n\ntwo", 80), vec!["one", "", "two"]);
    assert_eq!(word_wrap("supercalifragilistic x", 5), vec!["supercalifragilistic", "x"]);
    assert_eq!(word_wrap("", 10), vec![""]);
    assert_eq!(word_wrap("   ", 10), Vec::<String>::new());
    // "ééé" is six bytes
    assert_eq!(word_wrap("ééé a", 8), vec!["ééé a"]);
    assert_eq!(word_wrap("ééé a", 7), vec!["ééé", "a"]);
}

#[test]
fn dump_truncates_with_ellipsis() {
    assert_eq!(truncate("hello", 5), "hello");
    assert_eq!(truncate("hello world", 5), "hell…");
    assert_eq!(truncate("héllo", 2), "h…");
    assert_eq!(truncate("ab", 0), "…");
}

#[test]
fn forget_preview_truncates_after_max() {
    assert_eq!(memori::cli::forget::truncate("hello world", 5), "hello…");
    assert_eq!(memori::cli::forget::truncate("hello", 5), "hello");
}

#[test]
fn edit_outcomes() {
    assert!(matches!(edit_outcome("a b", "  a b\n"), EditOutcome::Unchanged));
    assert!(matches!(edit_outcome("a b", "   "), EditOutcome::Empty));
    assert!(matches!(edit_outcome("a b", "a c"), EditOutcome::Changed));
    assert!(matches!(edit_outcome("", " \n"), EditOutcome::Unchanged));
}

#[test]
fn forget_arguments() {
    let now = 1_000_000_000_000_000i64;
    assert!(matches!(plan_forget_args(None, 0, false, None, now), Err(ForgetArgsError::NoTarget)));
    assert!(matches!(plan_forget_args(Some("x"), 1, false, None, now), Err(ForgetArgsError::Conflict)));
    match plan_forget_args(Some("nope"), 0, false, None, now) {
        Err(ForgetArgsError::BadId(m)) => assert_eq!(m, "--id is not a valid UUID: nope"),
        other => panic!("unexpected {other:?}"),
    }
    let p = plan_forget_args(None, 0, false, Some("24h"), now).unwrap();
    assert_eq!(p.cutoff, Some(now - 86_400_000_000));
    assert!(p.id.is_none());
    let p = plan_forget_args(None, 2, true, None, now).unwrap();
    assert!(p.cutoff.is_none() && p.id.is_none());
    assert!(matches!(plan_forget_args(None, 0, false, Some("7"), now), Err(ForgetArgsError::BadDuration(_))));
}

#[test]
fn dry_run_selection() {
    let id = uuid::Uuid::parse_str("a1b2c3d4-0000-4000-8000-000000000000").unwrap();
    let items = vec![
        PreviewItem { id: Some(id.to_string()), created_at: Some("2024-01-01T00:00:00Z".into()) },
        PreviewItem { id: Some("other".into()), created_at: Some("2025-01-01T00:00:00Z".into()) },
        PreviewItem { id: None, created_at: Some("garbage".into()) },
    ];
    assert_eq!(preview_matches(&items, Some(id.as_u128()), None, 0), vec![0]);
    let cutoff = chrono::DateTime::parse_from_rfc3339("2024-06-01T00:00:00Z").unwrap().timestamp_micros();
    assert_eq!(preview_matches(&items, None, Some(cutoff), 0), vec![0]);
    assert_eq!(preview_matches(&items, None, None, 0), vec![0, 1, 2]);
}

#[test]
fn dry_run_cutoff_counts_nanoseconds() {
    let items = vec![PreviewItem { id: None, created_at: Some("2024-06-01T00:00:00.000005Z".into()) }];
    let at = chrono::DateTime::parse_from_rfc3339("2024-06-01T00:00:00.000005Z").unwrap().timestamp_micros();
    // A cutoff at the same microsecond is after the item only when it has
    // nanoseconds beyond it.
    assert_eq!(preview_matches(&items, None, Some(at), 0), Vec::<usize>::new());
    assert_eq!(preview_matches(&items, None, Some(at), 1), vec![0]);
    assert_eq!(preview_matches(&items, None, Some(at + 1), 0), vec![0]);
    // An item with nanoseconds of its own is compared to the nanosecond.
    let items = vec![PreviewItem { id: None, created_at: Some("2024-06-01T00:00:00.000005500Z".into()) }];
    assert_eq!(preview_matches(&items, None, Some(at), 500), Vec::<usize>::new());
    assert_eq!(preview_matches(&items, None, Some(at), 501), vec![0]);
    assert_eq!(preview_matches(&items, None, Some(at), 1), Vec::<usize>::new());
}

#[test]
fn wrapped_lines_fit_unless_single_word() {
    let text = "Lorem ipsum dolor sit amet, consectetur adipiscing elit\n\nsed do eiusmodtemporincididuntutlabore et dolore";
    for max in [1usize, 5, 10, 20, 40] {
        for line in word_wrap(text, max) {
            assert!(line.len() <= max || !line.contains(char::is_whitespace), "{max}: {line:?}");
        }
    }
}

fn item(source: Option<&str>, tags: &[&str]) -> ListedItem {
    ListedItem {
        id: "0f8fad5b-d9cb-469f-a165-70867728950e".into(),
        created_at: "2024-05-06T07:08:09.123456+00:00".into(),
        source: source.map(|s| s.to_string()),
        tags: tags.iter().map(|t| t.to_string()).collect(),
        content: "Rust is a systems programming language".into(),
    }
}

#[test]
fn markdown_export_lists_each_memory() {
    let items = vec![item(Some("cli"), &["lang", "systems"]), item(None, &[])];
    let md = markdown_of(&items);
    let first = "## 0f8fad5b\n\n- **id**: `0f8fad5b-d9cb-469f-a165-70867728950e`\n\
                 - **created**: 2024-05-06 07:08 UTC\n- **source**: cli\n\
                 - **tags**: #lang #systems\n\nRust is a systems programming language\n\n---\n\n";
    let second = "## 0f8fad5b\n\n- **id**: `0f8fad5b-d9cb-469f-a165-70867728950e`\n\
                  - **created**: 2024-05-06 07:08 UTC\n\nRust is a systems programming language\n\n---\n\n";
    assert_eq!(md, format!("{first}{second}"));
    assert_eq!(markdown_of(&vec![]), "");
}

#[test]
fn created_time_shown_to_the_minute_or_cut() {
    assert_eq!(fmt_created("2024-05-06T07:08:09+02:00"), "2024-05-06 07:08 UTC");
    assert_eq!(fmt_created("not a time at all, really"), "not a time at al");
    assert_eq!(fmt_created("-"), "-");
}

#[test]
fn content_column_width() {
    assert_eq!(content_width(100), 28);
    assert_eq!(content_width(200), 48);
    assert_eq!(content_width(80), 20);
    assert_eq!(content_width(0), 20);
    assert_eq!(table_rule(3), "───");
    assert_eq!(table_rule(500).chars().count(), 120);
}

#[test]
fn table_row_pads_and_cuts_cells() {
    let row = table_row(&item(Some("a-very-long-source-name-here"), &["lang", "systems", "extra"]), 20);
    assert_eq!(row.id, "0f8fad5b  ");
    assert_eq!(row.created, "2024-05-06 07:08 UTC");
    assert_eq!(row.source, "a-very-long-source-…");
    assert_eq!(row.tags, "lang,systems,…");
    assert_eq!(row.content, "Rust is a systems p…");
    let row = table_row(&item(None, &[]), 100);
    assert_eq!(row.source, format!("-{}", " ".repeat(19)));
    assert_eq!(row.tags, format!("-{}", " ".repeat(13)));
    assert_eq!(row.content, "Rust is a systems programming language");
}

#[test]
fn detail_time_shown_to_the_second_or_as_is() {
    assert_eq!(fmt_created_detail("2024-05-06T07:08:09.5Z"), "2024-05-06 07:08:09 UTC");
    assert_eq!(fmt_created_detail("yesterday"), "yesterday");
}
