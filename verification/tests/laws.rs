use clawhip_lanes::error::{Constraint, LedgerError};
use clawhip_lanes::lanes::{
    classify_lanes, classify_ledger_session, classify_unclaimed_tmux_session,
};
use clawhip_lanes::ledger::Ledger;
use clawhip_lanes::names::NameSet;
use clawhip_lanes::records::{
    map_session, map_watch_intent, map_watch_intent_with, minutes_from_stored, SessionInput,
    SessionRow, WatchIntentInput, WatchIntentRow,
};
use clawhip_lanes::registration::{RegisteredTmuxSession, RoutingMetadata, SessionOwnerMapping};
use clawhip_lanes::status::{
    LaneStatus, MessageFormat, RegistrationSource, RuntimeStatus, SessionKind, SessionOwner,
    SessionState, WorkflowStatus,
};
use clawhip_lanes::tables::{BaselineRow, FreshValues, MigrationRow, SCHEMA_VERSION};

const MORNING: &str = "2026-06-04T08:00:00Z";
const NOON: &str = "2026-06-04T12:00:00Z";
const EVENING: &str = "2026-06-04T20:00:00Z";

fn input(name: &str) -> SessionInput {
    SessionInput {
        tmux_session: name.to_string(),
        tmux_pane: None,
        kind: SessionKind::Agent,
        owner: SessionOwner::Named("walter".to_string()),
        project_path: Some("/work/repo".to_string()),
        repo_name: Some("repo".to_string()),
        branch: Some("main".to_string()),
        spawned_by_clawhip: false,
        expected_watch: true,
        state: SessionState::Healthy,
        workflow_status: WorkflowStatus::Active,
        last_seen_at: Some(MORNING.to_string()),
    }
}

fn watch(name: &str) -> WatchIntentInput {
    WatchIntentInput {
        tmux_session: name.to_string(),
        channel: Some("alerts".to_string()),
        thread: None,
        mention: None,
        keywords: vec!["a \"quoted\" word".to_string(), "tab\t".to_string()],
        stale_minutes: 15,
        format: Some(MessageFormat::Compact),
        registration_source: RegistrationSource::ConfigMonitor,
        original_command_json: None,
        registered_at: MORNING.to_string(),
        last_confirmed_at: None,
    }
}

fn registration(session: &str) -> RegisteredTmuxSession {
    RegisteredTmuxSession {
        session: session.to_string(),
        channel: Some("daemon-channel".to_string()),
        thread: Some("daemon-thread".to_string()),
        mention: None,
        routing: RoutingMetadata {
            repo_name: Some("repo".to_string()),
            worktree_path: Some("/work/repo".to_string()),
            branch: Some("main".to_string()),
        },
        keywords: Vec::new(),
        keyword_window_secs: 30,
        stale_minutes: 10,
        format: None,
        registered_at: MORNING.to_string(),
        registration_source: RegistrationSource::CliWatch,
        active_wrapper_monitor: false,
    }
}

fn session_row(id: &str, name: &str) -> SessionRow {
    SessionRow {
        id: id.to_string(),
        tmux_session: name.to_string(),
        tmux_pane: None,
        kind: "agent".to_string(),
        owner: "walter".to_string(),
        project_path: None,
        repo_name: None,
        branch: None,
        spawned_by_clawhip: false,
        expected_watch: false,
        state: "healthy".to_string(),
        workflow_status: "active".to_string(),
        created_at: MORNING.to_string(),
        updated_at: MORNING.to_string(),
        last_seen_at: None,
    }
}

fn intent_row(id: &str, session_id: &str) -> WatchIntentRow {
    WatchIntentRow {
        id: id.to_string(),
        session_id: session_id.to_string(),
        channel: None,
        thread: None,
        mention: None,
        keywords_json: "[\"READY\",\"DONE\"]".to_string(),
        stale_minutes: 10,
        format: Some("alert".to_string()),
        registration_source: "cli-watch".to_string(),
        original_command_json: None,
        registered_at: MORNING.to_string(),
        last_confirmed_at: None,
    }
}

fn live(list: &[&str]) -> NameSet {
    NameSet::from_names(&list.iter().map(|name| name.to_string()).collect())
}

#[test]
fn recorded_session_reads_back() {
    let mut ledger = Ledger::empty();
    let record = ledger
        .upsert_session_at(input("one"), "id-1".to_string(), MORNING.to_string())
        .unwrap();
    assert_eq!(record.id, "id-1");
    assert_eq!(record.owner, SessionOwner::Named("walter".to_string()));
    assert_eq!(record.created_at, MORNING);
    assert_eq!(record.updated_at, MORNING);
    assert_eq!(record.last_seen_at.as_deref(), Some(MORNING));
    assert_eq!(ledger.session_by_name("one").unwrap(), Some(record));
    assert_eq!(ledger.session_by_name("two").unwrap(), None);
}

#[test]
fn id_creation_time_and_provenance_stay() {
    let mut ledger = Ledger::empty();
    let mut spawned = input("one");
    spawned.spawned_by_clawhip = true;
    ledger
        .upsert_session_at(spawned, "id-1".to_string(), MORNING.to_string())
        .unwrap();
    let again = ledger
        .upsert_session_at(input("one"), "id-2".to_string(), NOON.to_string())
        .unwrap();
    assert_eq!(again.id, "id-1");
    assert_eq!(again.created_at, MORNING);
    assert_eq!(again.updated_at, NOON);
    assert!(again.spawned_by_clawhip);
    assert_eq!(ledger.sessions().unwrap().len(), 1);
}

#[test]
fn operations_leave_other_sessions_alone() {
    let mut ledger = Ledger::empty();
    ledger
        .upsert_session_at(input("one"), "id-1".to_string(), MORNING.to_string())
        .unwrap();
    ledger
        .upsert_session_at(input("two"), "id-2".to_string(), MORNING.to_string())
        .unwrap();
    ledger
        .upsert_watch_intent_at(watch("two"), "w-2".to_string())
        .unwrap();
    let session = ledger.session_by_name("two").unwrap();
    let intent = ledger.watch_intent_for_session("two").unwrap();
    ledger
        .set_workflow_status_at("one", WorkflowStatus::Completed, NOON.to_string())
        .unwrap();
    ledger
        .upsert_watch_intent_at(watch("one"), "w-1".to_string())
        .unwrap();
    ledger
        .record_registration_at(
            &registration("one"),
            true,
            &[],
            None,
            FreshValues {
                seen: EVENING.to_string(),
                session_id: "id-3".to_string(),
                now: EVENING.to_string(),
                confirmed: EVENING.to_string(),
                intent_id: "w-3".to_string(),
            },
        )
        .unwrap();
    assert_eq!(ledger.session_by_name("two").unwrap(), session);
    assert_eq!(ledger.watch_intent_for_session("two").unwrap(), intent);
}

#[test]
fn watch_intent_reads_back_with_its_keywords() {
    let mut ledger = Ledger::empty();
    ledger
        .upsert_session_at(input("one"), "id-1".to_string(), MORNING.to_string())
        .unwrap();
    let record = ledger
        .upsert_watch_intent_at(watch("one"), "w-1".to_string())
        .unwrap();
    assert_eq!(record.id, "w-1");
    assert_eq!(record.session_id, "id-1");
    assert_eq!(record.keywords, vec!["a \"quoted\" word", "tab\t"]);
    assert_eq!(
        ledger.watch_intent_for_session("one").unwrap(),
        Some(record)
    );
    assert_eq!(
        ledger.stored_watch_intent("one").unwrap().keywords_json,
        "[\"a \\\"quoted\\\" word\",\"tab\\t\"]"
    );
}

#[test]
fn registration_records_session_and_intent() {
    let mut ledger = Ledger::empty();
    let (session, intent) = ledger
        .record_registration_at(
            &registration("one"),
            true,
            &[SessionOwnerMapping {
                repo: "repo".to_string(),
                owner: "hermes".to_string(),
            }],
            Some("{}".to_string()),
            FreshValues {
                seen: MORNING.to_string(),
                session_id: "id-1".to_string(),
                now: NOON.to_string(),
                confirmed: EVENING.to_string(),
                intent_id: "w-1".to_string(),
            },
        )
        .unwrap();
    assert_eq!(session.last_seen_at.as_deref(), Some(MORNING));
    assert_eq!(session.created_at, NOON);
    assert_eq!(session.owner.as_str(), "hermes");
    assert_eq!(session.project_path.as_deref(), Some("/work/repo"));
    assert_eq!(session.state, SessionState::Unknown);
    assert_eq!(intent.session_id, session.id);
    assert_eq!(intent.last_confirmed_at.as_deref(), Some(EVENING));
    assert_eq!(intent.original_command_json.as_deref(), Some("{}"));
    assert_eq!(intent.registered_at, MORNING);
}

#[test]
fn first_owner_mapping_wins() {
    let mappings = [
        SessionOwnerMapping {
            repo: "other".to_string(),
            owner: "zoe".to_string(),
        },
        SessionOwnerMapping {
            repo: "repo".to_string(),
            owner: "first".to_string(),
        },
        SessionOwnerMapping {
            repo: "repo".to_string(),
            owner: "second".to_string(),
        },
    ];
    let owner = SessionOwner::infer_from_registration(&registration("one"), &mappings);
    assert_eq!(owner, SessionOwner::Named("first".to_string()));
    let mut nowhere = registration("one");
    nowhere.routing = RoutingMetadata::default();
    let owner = SessionOwner::infer_from_registration(&nowhere, &mappings);
    assert_eq!(owner, SessionOwner::Unknown);
}

#[test]
fn state_and_workflow_do_not_touch_each_other() {
    let mut ledger = Ledger::empty();
    ledger
        .upsert_session_at(input("one"), "id-1".to_string(), MORNING.to_string())
        .unwrap();
    ledger
        .set_session_state_at("one", SessionState::Dead, NOON.to_string())
        .unwrap();
    let record = ledger
        .set_workflow_status_at("one", WorkflowStatus::PrOpen, EVENING.to_string())
        .unwrap();
    assert_eq!(record.state, SessionState::Dead);
    assert_eq!(record.workflow_status, WorkflowStatus::PrOpen);
    assert_eq!(record.updated_at, EVENING);
    assert_eq!(record.created_at, MORNING);
}

#[test]
fn every_mark_sets_its_status() {
    let mut ledger = Ledger::open_memory().unwrap();
    ledger.upsert_session(input("one")).unwrap();
    assert_eq!(
        ledger.mark_ignored("one").unwrap().state,
        SessionState::IgnoredAlive
    );
    let status = ledger.mark_needs_review("one").unwrap().workflow_status;
    assert_eq!(status, WorkflowStatus::NeedsReview);
    let status = ledger.mark_needs_qa("one").unwrap().workflow_status;
    assert_eq!(status, WorkflowStatus::NeedsQa);
    let status = ledger.mark_pr_open("one").unwrap().workflow_status;
    assert_eq!(status, WorkflowStatus::PrOpen);
    let status = ledger.mark_awaiting_ci("one").unwrap().workflow_status;
    assert_eq!(status, WorkflowStatus::AwaitingCi);
    let status = ledger.mark_awaiting_human("one").unwrap().workflow_status;
    assert_eq!(status, WorkflowStatus::AwaitingHuman);
    let status = ledger.complete_session("one").unwrap().workflow_status;
    assert_eq!(status, WorkflowStatus::Completed);
    let status = ledger.cancel_session("one").unwrap().workflow_status;
    assert_eq!(status, WorkflowStatus::Cancelled);
    let status = ledger.supersede_session("one").unwrap().workflow_status;
    assert_eq!(status, WorkflowStatus::Superseded);
    let record = ledger.retire_session("one").unwrap();
    assert_eq!(record.workflow_status, WorkflowStatus::Retired);
    assert_eq!(record.state, SessionState::IgnoredAlive);
}

#[test]
fn migration_brings_labels_up_to_date() {
    let mut ledger = Ledger::empty();
    let cases = [
        ("a", "healthy", "failed", "active"),
        ("b", "healthy", "interrupted", "active"),
        ("c", "dead", "abandoned", "active"),
        ("d", "retired", "active", "retired"),
        ("e", "retired", "completed", "completed"),
        ("f", "healthy", "needs-qa", "needs-qa"),
    ];
    for (name, state, status, _) in cases {
        let mut row = session_row(name, name);
        row.state = state.to_string();
        row.workflow_status = status.to_string();
        ledger.load_session(row).unwrap();
    }
    ledger.migrate_at(NOON.to_string()).unwrap();
    for (name, _, _, expected) in cases {
        let row = ledger.stored_session(name).unwrap();
        assert_eq!(row.workflow_status, expected, "{name}");
    }
    ledger.migrate_at(EVENING.to_string()).unwrap();
    for (name, _, _, expected) in cases {
        let row = ledger.stored_session(name).unwrap();
        assert_eq!(row.workflow_status, expected, "{name}");
    }
    let applied = ledger.stored_migration(SCHEMA_VERSION).unwrap();
    assert_eq!(applied.applied_at, NOON);
    assert_eq!(ledger.stored_migration(1), None);
}

#[test]
fn retired_session_with_an_old_label_takes_two_migrations() {
    let mut ledger = Ledger::empty();
    let mut row = session_row("id-1", "one");
    row.state = "retired".to_string();
    row.workflow_status = "failed".to_string();
    ledger.load_session(row).unwrap();
    ledger.migrate_at(MORNING.to_string()).unwrap();
    let status = ledger.stored_session("one").unwrap().workflow_status;
    assert_eq!(status, "active");
    ledger.migrate_at(NOON.to_string()).unwrap();
    let status = ledger.stored_session("one").unwrap().workflow_status;
    assert_eq!(status, "retired");
    ledger.migrate_at(EVENING.to_string()).unwrap();
    let status = ledger.stored_session("one").unwrap().workflow_status;
    assert_eq!(status, "retired");
}

#[test]
fn listings_are_in_the_order_of_names() {
    let mut ledger = Ledger::empty();
    for (n, name) in ["b", "a10", "a", "ä", "a1"].iter().enumerate() {
        ledger
            .upsert_session_at(input(name), format!("id-{n}"), MORNING.to_string())
            .unwrap();
        if *name != "a10" {
            ledger
                .upsert_watch_intent_at(watch(name), format!("w-{n}"))
                .unwrap();
        }
    }
    let listed: Vec<String> = ledger
        .sessions()
        .unwrap()
        .into_iter()
        .map(|record| record.tmux_session)
        .collect();
    assert_eq!(listed, vec!["a", "a1", "a10", "b", "ä"]);
    let watched: Vec<String> = ledger
        .watch_intents()
        .unwrap()
        .into_iter()
        .map(|record| record.tmux_session)
        .collect();
    assert_eq!(watched, vec!["a", "a1", "b", "ä"]);
}

#[test]
fn listing_stops_at_the_first_unreadable_row() {
    let mut ledger = Ledger::empty();
    let mut first = session_row("id-1", "b");
    first.kind = "robot".to_string();
    let mut second = session_row("id-2", "c");
    second.state = "asleep".to_string();
    ledger.load_session(second).unwrap();
    ledger.load_session(first).unwrap();
    ledger.load_session(session_row("id-0", "a")).unwrap();
    let error = ledger.sessions().unwrap_err();
    assert_eq!(error.message(), "invalid session kind 'robot'");
}

#[test]
fn unreadable_labels_are_reported() {
    let mut row = session_row("id-1", "one");
    row.kind = "robot".to_string();
    assert_eq!(
        map_session(&row).unwrap_err().message(),
        "invalid session kind 'robot'"
    );
    let mut row = session_row("id-1", "one");
    row.owner = String::new();
    assert_eq!(
        map_session(&row).unwrap_err().message(),
        "session owner cannot be empty"
    );
    let mut row = session_row("id-1", "one");
    row.state = "asleep".to_string();
    assert_eq!(
        map_session(&row).unwrap_err().message(),
        "invalid session state 'asleep'"
    );
    let mut row = session_row("id-1", "one");
    row.workflow_status = "done".to_string();
    assert_eq!(
        map_session(&row).unwrap_err().message(),
        "invalid workflow status 'done'"
    );
    let mut row = intent_row("w-1", "id-1");
    row.registration_source = "cron".to_string();
    assert_eq!(
        map_watch_intent(&row, "one").unwrap_err().message(),
        "invalid registration source 'cron'"
    );
    let mut row = intent_row("w-1", "id-1");
    row.format = Some("loud".to_string());
    assert!(matches!(
        map_watch_intent(&row, "one"),
        Err(LedgerError::InvalidMessageFormat(label)) if label == "loud"
    ));
    let mut row = intent_row("w-1", "id-1");
    row.keywords_json = "READY".to_string();
    assert!(matches!(
        map_watch_intent(&row, "one"),
        Err(LedgerError::InvalidKeywords(_))
    ));
}

#[test]
fn old_workflow_labels_read_as_active() {
    for label in ["failed", "interrupted", "abandoned"] {
        assert_eq!(
            WorkflowStatus::parse(label).unwrap(),
            WorkflowStatus::Active
        );
    }
}

#[test]
fn stored_intent_is_mapped_field_by_field() {
    let row = intent_row("w-1", "id-1");
    let record = map_watch_intent(&row, "one").unwrap();
    assert_eq!(record.tmux_session, "one");
    assert_eq!(record.keywords, vec!["READY", "DONE"]);
    assert_eq!(record.format, Some(MessageFormat::Alert));
    assert_eq!(record.registration_source, RegistrationSource::CliWatch);
    let given = map_watch_intent_with(&row, "one", Ok(vec!["X".to_string()])).unwrap();
    assert_eq!(given.keywords, vec!["X"]);
    let refused = map_watch_intent_with(&row, "one", Err("bad".to_string())).unwrap_err();
    assert_eq!(refused.message(), "bad");
}

#[test]
fn negative_minutes_read_as_unsigned() {
    assert_eq!(minutes_from_stored(10), 10);
    assert_eq!(minutes_from_stored(-1), u64::MAX);
    assert_eq!(minutes_from_stored(i64::MIN), 1 << 63);
    assert_eq!(minutes_from_stored(i64::MAX), i64::MAX as u64);
}

#[test]
fn refused_operations_change_nothing() {
    let mut ledger = Ledger::empty();
    ledger
        .upsert_session_at(input("one"), "id-1".to_string(), MORNING.to_string())
        .unwrap();
    let before = ledger.sessions().unwrap();

    let error = ledger
        .upsert_session_at(input("two"), "id-1".to_string(), NOON.to_string())
        .unwrap_err();
    assert_eq!(error.message(), "UNIQUE constraint failed: sessions.id");
    let error = ledger
        .upsert_session_at(input("\t \u{3000}"), "id-2".to_string(), NOON.to_string())
        .unwrap_err();
    assert_eq!(error.message(), "tmux session cannot be empty");
    let error = ledger
        .set_session_state_at("two", SessionState::Dead, NOON.to_string())
        .unwrap_err();
    assert_eq!(error.message(), "unknown session 'two'");
    let error = ledger
        .set_workflow_status_at("two", WorkflowStatus::Active, NOON.to_string())
        .unwrap_err();
    assert_eq!(error.message(), "unknown session 'two'");
    let error = ledger
        .upsert_watch_intent_at(watch("two"), "w-1".to_string())
        .unwrap_err();
    assert_eq!(
        error.message(),
        "cannot store watch intent for unknown session 'two'"
    );
    let error = ledger
        .upsert_watch_intent_at(watch(""), "w-1".to_string())
        .unwrap_err();
    assert_eq!(error.message(), "tmux session cannot be empty");
    let mut long = watch("one");
    long.stale_minutes = 1 << 63;
    let error = ledger
        .upsert_watch_intent_at(long, "w-1".to_string())
        .unwrap_err();
    assert!(matches!(error, LedgerError::StaleMinutesTooLarge(_)));

    assert_eq!(ledger.sessions().unwrap(), before);
    assert!(ledger.watch_intents().unwrap().is_empty());
}

#[test]
fn taken_intent_id_is_refused() {
    let mut ledger = Ledger::empty();
    for (name, id) in [("one", "id-1"), ("two", "id-2")] {
        ledger
            .upsert_session_at(input(name), id.to_string(), MORNING.to_string())
            .unwrap();
    }
    ledger
        .upsert_watch_intent_at(watch("one"), "w-1".to_string())
        .unwrap();
    let error = ledger
        .upsert_watch_intent_at(watch("two"), "w-1".to_string())
        .unwrap_err();
    assert_eq!(error.message(), "UNIQUE constraint failed: watch_intents.id");
    let again = ledger
        .upsert_watch_intent_at(watch("one"), "w-9".to_string())
        .unwrap();
    assert_eq!(again.id, "w-1");
    assert_eq!(ledger.watch_intents().unwrap().len(), 1);
}

#[test]
fn empty_owner_is_stored_and_cannot_be_read() {
    let mut ledger = Ledger::empty();
    let mut nameless = input("one");
    nameless.owner = SessionOwner::Named(String::new());
    let error = ledger
        .upsert_session_at(nameless, "id-1".to_string(), MORNING.to_string())
        .unwrap_err();
    assert_eq!(error.message(), "session owner cannot be empty");
    assert_eq!(ledger.stored_session("one").unwrap().owner, "");
    assert!(ledger.session_by_name("one").is_err());
}

#[test]
fn loading_keeps_the_constraints() {
    let mut ledger = Ledger::empty();
    ledger.load_session(session_row("id-1", "one")).unwrap();
    let refused = |result: Result<(), LedgerError>| match result {
        Err(LedgerError::ConstraintFailed(constraint)) => constraint,
        other => panic!("{other:?}"),
    };
    assert_eq!(
        refused(ledger.load_session(session_row("id-2", "one"))),
        Constraint::SessionName
    );
    assert_eq!(
        refused(ledger.load_session(session_row("id-1", "two"))),
        Constraint::SessionId
    );
    ledger.load_session(session_row("id-2", "two")).unwrap();
    assert_eq!(
        refused(ledger.load_watch_intent(intent_row("w-1", "id-3"))),
        Constraint::IntentReference
    );
    ledger.load_watch_intent(intent_row("w-1", "id-1")).unwrap();
    assert_eq!(
        refused(ledger.load_watch_intent(intent_row("w-2", "id-1"))),
        Constraint::IntentSession
    );
    assert_eq!(
        refused(ledger.load_watch_intent(intent_row("w-1", "id-2"))),
        Constraint::IntentId
    );
    let baseline = BaselineRow {
        repo_path: "/repo".to_string(),
        payload: "{}".to_string(),
        updated_at: MORNING.to_string(),
    };
    ledger.load_baseline(baseline.clone()).unwrap();
    assert_eq!(
        refused(ledger.load_baseline(baseline.clone())),
        Constraint::BaselinePath
    );
    assert_eq!(ledger.stored_baseline("/repo"), Some(baseline));
    assert_eq!(ledger.stored_baseline("/other"), None);
    let version = MigrationRow {
        version: 1,
        applied_at: MORNING.to_string(),
    };
    ledger.load_migration(version.clone()).unwrap();
    assert_eq!(
        refused(ledger.load_migration(version)),
        Constraint::MigrationVersion
    );
    ledger.migrate_at(NOON.to_string()).unwrap();
    assert_eq!(ledger.applied_schema_versions().unwrap(), vec![1, 2]);
}

#[test]
fn baselines_of_other_repositories_stay() {
    let mut ledger = Ledger::empty();
    ledger
        .set_github_issue_baseline_at("/a", "1", MORNING.to_string())
        .unwrap();
    ledger
        .set_github_issue_baseline_at("/b", "2", MORNING.to_string())
        .unwrap();
    ledger
        .set_github_issue_baseline_at("/a", "3", NOON.to_string())
        .unwrap();
    assert_eq!(
        ledger.github_issue_baseline("/a").unwrap().as_deref(),
        Some("3")
    );
    assert_eq!(
        ledger.github_issue_baseline("/b").unwrap().as_deref(),
        Some("2")
    );
    assert_eq!(ledger.stored_baseline("/a").unwrap().updated_at, NOON);
}

#[test]
fn ledger_sessions_are_classified_by_what_is_there() {
    let mut ledger = Ledger::empty();
    let mut record = ledger
        .upsert_session_at(input("one"), "id-1".to_string(), MORNING.to_string())
        .unwrap();
    assert_eq!(
        classify_ledger_session(&record, true, true),
        LaneStatus::HealthyAgent
    );
    assert_eq!(
        classify_ledger_session(&record, true, false),
        LaneStatus::LostMonitoring
    );
    record.expected_watch = false;
    assert_eq!(
        classify_ledger_session(&record, true, true),
        LaneStatus::ExternallyWatched
    );
    assert_eq!(
        classify_ledger_session(&record, true, false),
        LaneStatus::UnknownTmux
    );
    assert_eq!(
        classify_ledger_session(&record, false, true),
        LaneStatus::TmuxMissing
    );
    record.workflow_status = WorkflowStatus::PrOpen;
    assert_eq!(
        classify_ledger_session(&record, false, true),
        LaneStatus::WorkflowHandoff
    );
    record.state = SessionState::IgnoredAlive;
    assert_eq!(
        classify_ledger_session(&record, true, true),
        LaneStatus::IgnoredInfra
    );
}

#[test]
fn unclaimed_sessions_are_told_apart_by_prefix() {
    let prefixes = ["ever-".to_string(), "infra".to_string()];
    assert_eq!(
        classify_unclaimed_tmux_session("infra-db", &prefixes),
        LaneStatus::InfraCandidate
    );
    assert_eq!(
        classify_unclaimed_tmux_session("ever", &prefixes),
        LaneStatus::UnknownTmux
    );
    assert_eq!(
        classify_unclaimed_tmux_session("ever", &[]),
        LaneStatus::UnknownTmux
    );
    assert_eq!(
        classify_unclaimed_tmux_session("x", &[String::new()]),
        LaneStatus::InfraCandidate
    );
}

#[test]
fn board_is_sorted_and_names_no_session_twice() {
    let mut ledger = Ledger::empty();
    for (n, name) in ["m", "c", "x"].iter().enumerate() {
        ledger
            .upsert_session_at(input(name), format!("id-{n}"), MORNING.to_string())
            .unwrap();
    }
    ledger
        .set_workflow_status_at("x", WorkflowStatus::Completed, NOON.to_string())
        .unwrap();
    let mut second = registration("d");
    second.channel = Some("second".to_string());
    let registrations = [
        registration("d"),
        second,
        registration("m"),
        registration("x"),
    ];
    let rows = classify_lanes(
        &ledger.sessions().unwrap(),
        &[],
        &registrations,
        &live(&["z", "m", "d", "x", "a"]),
        &[],
    );
    let shown: Vec<&str> = rows.iter().map(|row| row.session.as_str()).collect();
    assert_eq!(shown, vec!["a", "c", "d", "m", "z"]);
    assert_eq!(rows[0].status, LaneStatus::UnknownTmux);
    assert_eq!(rows[1].status, LaneStatus::TmuxMissing);
    assert_eq!(rows[2].status, LaneStatus::ExternallyWatched);
    assert_eq!(rows[2].channel.as_deref(), Some("daemon-channel"));
    assert_eq!(rows[3].status, LaneStatus::HealthyAgent);
    assert_eq!(rows[3].channel.as_deref(), Some("daemon-channel"));
    for row in &rows {
        assert_eq!(row.live_tmux, row.runtime_status == RuntimeStatus::Live);
        assert_eq!(row.has_restore, row.restore_command.is_some());
    }
}

#[test]
fn board_takes_the_last_intent_and_the_last_registration() {
    let mut ledger = Ledger::empty();
    ledger
        .upsert_session_at(input("one"), "id-1".to_string(), MORNING.to_string())
        .unwrap();
    let first = ledger
        .upsert_watch_intent_at(watch("one"), "w-1".to_string())
        .unwrap();
    let mut second = first.clone();
    second.channel = None;
    second.registration_source = RegistrationSource::CliNew;
    let mut registered = registration("one");
    registered.channel = Some("last".to_string());
    let rows = classify_lanes(
        &ledger.sessions().unwrap(),
        &[first, second.clone()],
        &[registration("one"), registered],
        &live(&["one"]),
        &[],
    );
    assert_eq!(rows.len(), 1);
    assert_eq!(rows[0].channel.as_deref(), Some("last"));
    assert_eq!(rows[0].thread.as_deref(), Some("daemon-thread"));
    assert_eq!(rows[0].registration_source, Some(RegistrationSource::CliNew));
    assert_eq!(
        rows[0].restore_command,
        Some(second.restore_command_string())
    );
}

#[test]
fn lines_of_one_session_keep_their_order() {
    let mut ledger = Ledger::empty();
    let first = ledger
        .upsert_session_at(input("same"), "id-1".to_string(), MORNING.to_string())
        .unwrap();
    let mut second = first.clone();
    second.branch = Some("other".to_string());
    let rows = classify_lanes(&[first, second], &[], &[], &NameSet::new(), &[]);
    let branches: Vec<&str> = rows.iter().filter_map(|row| row.branch.as_deref()).collect();
    assert_eq!(branches, vec!["main", "other"]);
}

#[test]
fn retired_state_hides_a_live_session() {
    let mut ledger = Ledger::empty();
    let mut retired = input("one");
    retired.state = SessionState::Retired;
    ledger
        .upsert_session_at(retired, "id-1".to_string(), MORNING.to_string())
        .unwrap();
    let rows = classify_lanes(
        &ledger.sessions().unwrap(),
        &[],
        &[registration("one")],
        &live(&["one"]),
        &[],
    );
    assert!(rows.is_empty());
}

#[test]
fn labels_are_kebab_case() {
    assert_eq!(LaneStatus::HealthyAgent.as_str(), "healthy-agent");
    assert_eq!(LaneStatus::LostMonitoring.as_str(), "lost-monitoring");
    assert_eq!(LaneStatus::IgnoredInfra.as_str(), "ignored-infra");
    assert_eq!(LaneStatus::UnknownTmux.as_str(), "unknown-tmux");
    assert_eq!(LaneStatus::InfraCandidate.as_str(), "infra-candidate");
    assert_eq!(LaneStatus::ExternallyWatched.as_str(), "externally-watched");
    assert_eq!(LaneStatus::WorkflowHandoff.as_str(), "workflow-handoff");
    assert_eq!(LaneStatus::TmuxMissing.as_str(), "tmux-missing");
    assert_eq!(RuntimeStatus::Live.as_str(), "live");
    assert_eq!(RuntimeStatus::TmuxMissing.as_str(), "tmux-missing");
    for status in [
        WorkflowStatus::Active,
        WorkflowStatus::NeedsReview,
        WorkflowStatus::NeedsQa,
        WorkflowStatus::PrOpen,
        WorkflowStatus::AwaitingCi,
        WorkflowStatus::AwaitingHuman,
        WorkflowStatus::Completed,
        WorkflowStatus::Superseded,
        WorkflowStatus::Cancelled,
        WorkflowStatus::Retired,
    ] {
        assert_eq!(WorkflowStatus::parse(status.as_str()).unwrap(), status);
    }
    for kind in [
        SessionKind::Agent,
        SessionKind::Infra,
        SessionKind::Human,
        SessionKind::Unknown,
    ] {
        assert_eq!(SessionKind::parse(kind.as_str()).unwrap(), kind);
    }
    for state in [
        SessionState::Unknown,
        SessionState::Healthy,
        SessionState::LostMonitoring,
        SessionState::IgnoredAlive,
        SessionState::Dead,
        SessionState::Retired,
    ] {
        assert_eq!(SessionState::parse(state.as_str()).unwrap(), state);
    }
}

#[test]
fn name_sets_are_sorted_and_unique() {
    let set = live(&["b", "a", "b", "c", "a"]);
    let listed: Vec<&str> = (0..set.len()).map(|i| set.get(i)).collect();
    assert_eq!(listed, vec!["a", "b", "c"]);
    assert!(set.contains("b"));
    assert!(!set.contains("d"));
}
