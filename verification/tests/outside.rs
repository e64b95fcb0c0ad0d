use clawhip_lanes::ledger::Ledger;
use clawhip_lanes::outside::{lossy_text, new_id, now_rfc3339, timestamp_text};
use clawhip_lanes::records::{SessionInput, WatchIntentInput};
use clawhip_lanes::status::{
    RegistrationSource, SessionKind, SessionOwner, SessionState, WorkflowStatus,
};

#[test]
fn timestamps_are_in_rfc_3339() {
    assert_eq!(timestamp_text(0), "1970-01-01T00:00:00Z");
    assert_eq!(
        timestamp_text(1_780_531_200_000_000_000),
        "2026-06-04T00:00:00Z"
    );
    assert_eq!(
        timestamp_text(1_780_531_200_250_000_000),
        "2026-06-04T00:00:00.25Z"
    );
    assert_eq!(timestamp_text(-1_000_000_000), "1969-12-31T23:59:59Z");
}

#[test]
fn timestamps_end_with_the_year_9999() {
    assert_eq!(
        timestamp_text(253_402_300_799_999_999_999),
        "9999-12-31T23:59:59.999999999Z"
    );
    assert_eq!(
        timestamp_text(253_402_300_800_000_000_000),
        "1970-01-01T00:00:00Z"
    );
    assert_eq!(
        timestamp_text(-62_167_219_200_000_000_000),
        "0000-01-01T00:00:00Z"
    );
    assert_eq!(
        timestamp_text(-62_167_219_200_000_000_001),
        "1970-01-01T00:00:00Z"
    );
    assert_eq!(timestamp_text(i128::MAX), "1970-01-01T00:00:00Z");
    assert_eq!(timestamp_text(i128::MIN), "1970-01-01T00:00:00Z");
}

#[test]
fn the_clock_runs() {
    let now = now_rfc3339();
    assert!(now.starts_with("20") && now.ends_with('Z'), "{now}");
    assert!(now.as_str() > "2020-01-01T00:00:00Z");
}

#[test]
fn identifiers_are_random_uuids() {
    let id = new_id();
    assert_eq!(id.len(), 36);
    for (i, c) in id.chars().enumerate() {
        match i {
            8 | 13 | 18 | 23 => assert_eq!(c, '-'),
            14 => assert_eq!(c, '4'),
            19 => assert!("89ab".contains(c)),
            _ => assert!(c.is_ascii_digit() || ('a'..='f').contains(&c)),
        }
    }
    assert_ne!(id, new_id());
}

#[test]
fn lossy_text_replaces_what_is_not_utf8() {
    assert_eq!(lossy_text(&"grün".as_bytes().to_vec()), "grün");
    assert_eq!(lossy_text(&vec![b'a', 0xff, b'b']), "a\u{fffd}b");
    assert_eq!(lossy_text(&Vec::new()), "");
}

#[test]
fn keywords_are_stored_as_json() {
    let mut ledger = Ledger::open_memory().unwrap();
    ledger
        .upsert_session(SessionInput {
            tmux_session: "one".to_string(),
            tmux_pane: None,
            kind: SessionKind::Human,
            owner: SessionOwner::System,
            project_path: None,
            repo_name: None,
            branch: None,
            spawned_by_clawhip: false,
            expected_watch: false,
            state: SessionState::Unknown,
            workflow_status: WorkflowStatus::Active,
            last_seen_at: None,
        })
        .unwrap();
    let keywords = vec![
        String::new(),
        "\"\\\n".to_string(),
        "grün".to_string(),
        "\u{1}".to_string(),
    ];
    let record = ledger
        .upsert_watch_intent(WatchIntentInput {
            tmux_session: "one".to_string(),
            channel: None,
            thread: None,
            mention: None,
            keywords: keywords.clone(),
            stale_minutes: 0,
            format: None,
            registration_source: RegistrationSource::CliWatch,
            original_command_json: None,
            registered_at: String::new(),
            last_confirmed_at: None,
        })
        .unwrap();
    assert_eq!(record.keywords, keywords);
    assert_eq!(
        ledger.stored_watch_intent("one").unwrap().keywords_json,
        "[\"\",\"\\\"\\\\\\n\",\"grün\",\"\\u0001\"]"
    );
    assert_eq!(
        serde_json::from_str::<Vec<String>>(
            &ledger.stored_watch_intent("one").unwrap().keywords_json
        )
        .unwrap(),
        keywords
    );
}
