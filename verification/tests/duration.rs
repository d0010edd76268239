use memori::cli::{duration_ago_is_in_range, parse_duration_ago};

fn now_micros() -> i64 {
    chrono::Utc::now().timestamp_micros()
}

#[test]
fn parses_days_and_hours() {
    let now = now_micros();
    let d = parse_duration_ago("7d", now).unwrap();
    let h = parse_duration_ago("24h", now).unwrap();
    // 7d and 24h cutoffs should be in the past, 7d older than 24h.
    assert!(d < now && h < now);
    assert!(d < h, "7d ago must be earlier than 24h ago");
    // ~7 days in seconds, allow a small clock delta.
    let delta = (now - d) / 1_000_000;
    assert!((604_700..=604_900).contains(&delta), "delta was {delta}");
}

#[test]
fn trims_whitespace() {
    assert!(parse_duration_ago("  3d  ", now_micros()).is_ok());
}

#[test]
fn rejects_bad_formats() {
    for bad in ["", "7", "d", "7x", "abc", "-3d", "7days", "1.5h"] {
        assert!(parse_duration_ago(bad, now_micros()).is_err(), "{bad} should be rejected");
    }
}

#[test]
fn duration_cutoff_is_exact() {
    assert_eq!(parse_duration_ago("2h", 10_000_000_000), Ok(10_000_000_000 - 7_200_000_000));
    assert_eq!(parse_duration_ago("+1d", 100_000_000_000), Ok(100_000_000_000 - 86_400_000_000));
    assert_eq!(parse_duration_ago("0h", 5), Ok(5));
}

#[test]
fn duration_error_names_trimmed_text() {
    assert_eq!(
        parse_duration_ago("  7x ", 0),
        Err("--older-than format must be NNd or NNh, got: 7x".to_string())
    );
    assert_eq!(
        parse_duration_ago("1.5h", 0),
        Err("--older-than format must be NNd or NNh, got: 1.5h".to_string())
    );
}

#[test]
fn duration_range_check() {
    let now = 1_700_000_000_000_000;
    assert!(duration_ago_is_in_range("7d", now));
    assert!(duration_ago_is_in_range("nonsense", now));
    // overflows u64 seconds
    assert!(!duration_ago_is_in_range("18446744073709551615d", now));
    // too far back for the calendar
    assert!(!duration_ago_is_in_range("999999999999d", now));
    // a u64 that reads as -16 seconds: a cutoff 16 s in the future
    let wrapped = "5124095576030431h";
    assert!(duration_ago_is_in_range(wrapped, now));
    assert_eq!(parse_duration_ago(wrapped, now), Ok(now + 16_000_000));
}
