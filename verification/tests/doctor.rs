use memori::cli::doctor::{
    exit_code, mentions_server, probe_step, recall_verdict, stack_healthy, CheckStatus, ProbeAction,
    ProbeEvent, ProbeState,
};
use memori::cli::init::{plan_config_merge, ConfigMerge, ConfigShape};

#[test]
fn exit_status_is_one_only_on_failure() {
    assert_eq!(exit_code(&vec![]), 0);
    assert_eq!(exit_code(&vec![CheckStatus::Pass, CheckStatus::Warn]), 0);
    assert_eq!(exit_code(&vec![CheckStatus::Pass, CheckStatus::Fail, CheckStatus::Warn]), 1);
    assert!(stack_healthy(&vec![CheckStatus::Pass, CheckStatus::Warn]));
    assert!(!stack_healthy(&vec![CheckStatus::Fail]));
}

#[test]
fn status_names_and_icons() {
    assert_eq!(CheckStatus::Pass.name(), "pass");
    assert_eq!(CheckStatus::Warn.name(), "warn");
    assert_eq!(CheckStatus::Fail.name(), "fail");
    assert_eq!(CheckStatus::Pass.icon(), "✓");
    assert_eq!(CheckStatus::Fail.icon(), "✗");
    assert_eq!(CheckStatus::Warn.icon(), "!");
}

#[test]
fn probe_must_come_back_first() {
    assert!(recall_verdict(Some("abc"), "abc").is_ok());
    assert_eq!(
        recall_verdict(Some("xyz"), "abc").unwrap_err(),
        "recall returned a different memory (xyz)"
    );
    assert_eq!(recall_verdict(None, "abc").unwrap_err(), "recall returned no results");
}

#[test]
fn client_config_names_the_server() {
    assert!(mentions_server(r#"{"mcpServers": {"memori": {"command": "memori"}}}"#));
    assert!(!mentions_server(r#"{"mcpServers": {"memorix": {}}}"#));
    assert!(!mentions_server(""));
    assert!(mentions_server("\"memori\""));
}

#[test]
fn config_merge_for_each_shape() {
    assert_eq!(plan_config_merge(ConfigShape::NotJson, false), ConfigMerge::RefuseNotJson);
    assert_eq!(plan_config_merge(ConfigShape::NotAnObject, false), ConfigMerge::RefuseNotObject);
    assert_eq!(plan_config_merge(ConfigShape::SectionWithEntry, false), ConfigMerge::AlreadyPresent);
    assert_eq!(
        plan_config_merge(ConfigShape::NoSection, false),
        ConfigMerge::AddEntry { create_section: true, write: true }
    );
    assert_eq!(
        plan_config_merge(ConfigShape::NullSection, true),
        ConfigMerge::AddEntry { create_section: false, write: false }
    );
    assert_eq!(
        plan_config_merge(ConfigShape::SectionWithoutEntry, true),
        ConfigMerge::AddEntry { create_section: false, write: false }
    );
}

#[test]
fn probe_is_forgotten_whatever_the_recall_gave() {
    // A failed store is reported at once.
    let (s, a) = probe_step(ProbeState::Storing, ProbeEvent::Stored(Err("disk full".into())));
    assert!(matches!(s, ProbeState::Finished));
    assert!(matches!(a, ProbeAction::Report(Err(ref m)) if m == "disk full"));

    // A stored probe is recalled, then forgotten, then judged.
    let (s, a) = probe_step(ProbeState::Storing, ProbeEvent::Stored(Ok("p1".into())));
    assert!(matches!(a, ProbeAction::Recall));
    let (s, a) = probe_step(s, ProbeEvent::Recalled(Ok(Some("other".into()))));
    assert!(matches!(a, ProbeAction::Forget { ref id } if id == "p1"));
    let (s, a) = probe_step(s, ProbeEvent::Forgot);
    assert!(matches!(s, ProbeState::Finished));
    assert!(matches!(a, ProbeAction::Report(Err(ref m)) if m == "recall returned a different memory (other)"));

    // A failed recall still forgets the probe before reporting.
    let (s, _) = probe_step(ProbeState::Storing, ProbeEvent::Stored(Ok("p2".into())));
    let (s, a) = probe_step(s, ProbeEvent::Recalled(Err("model gone".into())));
    assert!(matches!(a, ProbeAction::Forget { ref id } if id == "p2"));
    let (_, a) = probe_step(s, ProbeEvent::Forgot);
    assert!(matches!(a, ProbeAction::Report(Err(ref m)) if m == "model gone"));

    // The probe coming back first passes.
    let (s, _) = probe_step(ProbeState::Storing, ProbeEvent::Stored(Ok("p3".into())));
    let (s, _) = probe_step(s, ProbeEvent::Recalled(Ok(Some("p3".into()))));
    let (_, a) = probe_step(s, ProbeEvent::Forgot);
    assert!(matches!(a, ProbeAction::Report(Ok(()))));
}
