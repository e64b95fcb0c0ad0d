use std::collections::BTreeMap;

use clawhip_lanes::lanes::classify_lanes;
use clawhip_lanes::ledger::Ledger;
use clawhip_lanes::names::NameSet;
use clawhip_lanes::records::{SessionInput, WatchIntentInput};
use clawhip_lanes::registration::{
    RegisteredTmuxSession, RoutingMetadata, SessionOwnerMapping,
};
use clawhip_lanes::status::{
    LaneStatus, MessageFormat, RegistrationSource, RuntimeStatus, SessionKind, SessionOwner,
    SessionState, WorkflowStatus,
};
use clawhip_lanes::tables::SCHEMA_VERSION;

fn sample_session_input(name: &str) -> SessionInput {
    SessionInput {
        tmux_session: name.to_string(),
        tmux_pane: Some("0.0".to_string()),
        kind: SessionKind::Agent,
        owner: SessionOwner::Named("alice".to_string()),
        project_path: Some("/tmp/project".to_string()),
        repo_name: Some("project".to_string()),
        branch: Some("main".to_string()),
        spawned_by_clawhip: true,
        expected_watch: true,
        state: SessionState::Unknown,
        workflow_status: WorkflowStatus::Active,
        last_seen_at: Some("2026-06-04T00:00:00Z".to_string()),
    }
}

fn sample_watch_input(name: &str) -> WatchIntentInput {
    WatchIntentInput {
        tmux_session: name.to_string(),
        channel: Some("alerts".to_string()),
        thread: None,
        mention: Some("<@123>".to_string()),
        keywords: vec!["READY_FOR_REVIEW".to_string(), "BLOCKED".to_string()],
        stale_minutes: 10,
        format: Some(MessageFormat::Alert),
        registration_source: RegistrationSource::CliNew,
        original_command_json: Some(r#"{"session":"agent-1"}"#.to_string()),
        registered_at: "2026-06-04T00:00:00Z".to_string(),
        last_confirmed_at: Some("2026-06-04T00:00:01Z".to_string()),
    }
}

fn owner_mapping(repo: &str, owner: &str) -> SessionOwnerMapping {
    SessionOwnerMapping {
        repo: repo.to_string(),
        owner: owner.to_string(),
    }
}

fn registration(session: &str) -> RegisteredTmuxSession {
    RegisteredTmuxSession {
        session: session.to_string(),
        channel: Some("alerts".to_string()),
        thread: None,
        mention: None,
        routing: RoutingMetadata::default(),
        keywords: vec!["READY".to_string()],
        keyword_window_secs: 30,
        stale_minutes: 10,
        format: Some(MessageFormat::Compact),
        registered_at: "2026-06-04T00:00:00Z".to_string(),
        registration_source: RegistrationSource::CliNew,
        active_wrapper_monitor: false,
    }
}

fn names(list: &[&str]) -> NameSet {
    NameSet::from_names(&list.iter().map(|name| name.to_string()).collect())
}

#[test]
fn migrations_are_idempotent() {
    let mut ledger = Ledger::open_memory().expect("ledger");
    ledger.migrate().expect("second migration");
    assert_eq!(
        ledger.applied_schema_versions().unwrap(),
        vec![SCHEMA_VERSION]
    );
}

#[test]
fn github_issue_baseline_round_trip() {
    let mut ledger = Ledger::open_memory().expect("ledger");
    assert_eq!(ledger.github_issue_baseline("/tmp/repo").unwrap(), None);
    ledger
        .set_github_issue_baseline("/tmp/repo", "{\"high_water_mark\":3}")
        .expect("insert baseline");
    assert_eq!(
        ledger
            .github_issue_baseline("/tmp/repo")
            .unwrap()
            .as_deref(),
        Some("{\"high_water_mark\":3}")
    );
    ledger
        .set_github_issue_baseline("/tmp/repo", "{\"high_water_mark\":7}")
        .expect("overwrite baseline");
    assert_eq!(
        ledger
            .github_issue_baseline("/tmp/repo")
            .unwrap()
            .as_deref(),
        Some("{\"high_water_mark\":7}")
    );
}

#[test]
fn upserts_and_reads_session() {
    let mut ledger = Ledger::open_memory().expect("ledger");
    let first = ledger
        .upsert_session(sample_session_input("agent-1"))
        .expect("insert session");
    let mut update = sample_session_input("agent-1");
    update.state = SessionState::Healthy;
    update.branch = Some("feature".to_string());
    let second = ledger.upsert_session(update).expect("update session");

    assert_eq!(first.id, second.id);
    assert_eq!(second.state, SessionState::Healthy);
    assert_eq!(second.branch.as_deref(), Some("feature"));
    assert_eq!(ledger.sessions().unwrap().len(), 1);
}

#[test]
fn upserts_watch_intent_without_duplicates() {
    let mut ledger = Ledger::open_memory().expect("ledger");
    ledger
        .upsert_session(sample_session_input("agent-1"))
        .expect("session");
    let first = ledger
        .upsert_watch_intent(sample_watch_input("agent-1"))
        .expect("insert watch");
    let mut update = sample_watch_input("agent-1");
    update.keywords = vec!["DONE".to_string()];
    update.stale_minutes = 5;
    let second = ledger.upsert_watch_intent(update).expect("update watch");

    assert_eq!(first.id, second.id);
    assert_eq!(second.keywords, vec!["DONE"]);
    assert_eq!(second.stale_minutes, 5);
}

#[test]
fn restore_command_renders_safe_watch_command() {
    let mut ledger = Ledger::open_memory().expect("ledger");
    ledger
        .upsert_session(sample_session_input("agent-1"))
        .expect("session");
    let intent = ledger
        .upsert_watch_intent(sample_watch_input("agent-1"))
        .expect("watch");

    assert_eq!(
        intent.restore_command(),
        vec![
            "clawhip",
            "tmux",
            "watch",
            "--session",
            "agent-1",
            "--channel",
            "alerts",
            "--mention",
            "<@123>",
            "--keywords",
            "READY_FOR_REVIEW,BLOCKED",
            "--stale-minutes",
            "10",
            "--format",
            "alert"
        ]
    );
    assert!(intent
        .restore_command_string()
        .contains("--mention '<@123>'"));
    assert!(intent
        .restore_command_string()
        .contains("--session agent-1"));
}

#[test]
fn record_registration_captures_routing_metadata() {
    let mut ledger = Ledger::open_memory().expect("ledger");
    let registration = RegisteredTmuxSession {
        session: "agent-2".to_string(),
        channel: Some("channel-1".to_string()),
        thread: None,
        mention: None,
        routing: RoutingMetadata {
            repo_name: Some("forever-agent".to_string()),
            worktree_path: Some("/tmp/forever-agent".to_string()),
            branch: Some("main".to_string()),
        },
        keywords: vec!["READY".to_string()],
        keyword_window_secs: 30,
        stale_minutes: 12,
        format: Some(MessageFormat::Compact),
        registered_at: "2026-06-04T00:00:00Z".to_string(),
        registration_source: RegistrationSource::CliNew,
        active_wrapper_monitor: false,
    };
    let mappings = vec![owner_mapping("forever-agent", "walter")];

    let (session, intent) = ledger
        .record_registration(&registration, true, &mappings, None)
        .expect("record");
    assert_eq!(session.kind, SessionKind::Agent);
    assert_eq!(session.owner, SessionOwner::Named("walter".to_string()));
    assert!(session.spawned_by_clawhip);
    assert!(session.expected_watch);
    assert_eq!(session.repo_name.as_deref(), Some("forever-agent"));
    assert_eq!(intent.registration_source, RegistrationSource::CliNew);
    assert_eq!(intent.keywords, vec!["READY"]);
}

#[test]
fn cli_watch_reregistration_preserves_clawhip_spawn_provenance() {
    let mut ledger = Ledger::open_memory().expect("ledger");
    let initial_registration = registration("agent-reregistered");
    let (session, _) = ledger
        .record_registration(&initial_registration, true, &[], None)
        .expect("record initial clawhip spawn");

    assert!(session.spawned_by_clawhip);

    let mut watch_registration = registration("agent-reregistered");
    watch_registration.registration_source = RegistrationSource::CliWatch;
    watch_registration.keywords = vec!["https://github.com/namuh-eng/opensend/pull/".to_string()];
    watch_registration.thread = Some("thread-123".to_string());

    let (session, intent) = ledger
        .record_registration(&watch_registration, false, &[], None)
        .expect("record reregistration");

    assert!(session.spawned_by_clawhip);
    assert_eq!(intent.registration_source, RegistrationSource::CliWatch);
    assert_eq!(
        intent.keywords,
        vec!["https://github.com/namuh-eng/opensend/pull/"]
    );
    assert_eq!(intent.thread.as_deref(), Some("thread-123"));
}

#[test]
fn record_registration_config_driven_owner_mapping() {
    let mut ledger = Ledger::open_memory().expect("ledger");
    let mappings = vec![
        owner_mapping("opensend", "hermes"),
        owner_mapping("forgeos", "hermes"),
    ];
    for repo_name in ["opensend", "forgeos"] {
        let mut reg = registration(repo_name);
        reg.routing.repo_name = Some(repo_name.to_string());

        let (session, _) = ledger
            .record_registration(&reg, true, &mappings, None)
            .expect("record");

        assert_eq!(
            session.owner,
            SessionOwner::Named("hermes".to_string()),
            "repo {repo_name}"
        );
        assert_eq!(session.repo_name.as_deref(), Some(repo_name));
    }
}

#[test]
fn old_db_owner_values_parse_as_named() {
    let walter = SessionOwner::parse("walter").expect("parse walter");
    assert_eq!(walter, SessionOwner::Named("walter".to_string()));
    assert_eq!(walter.as_str(), "walter");

    let hermes = SessionOwner::parse("hermes-orchestrator").expect("parse hermes");
    assert_eq!(
        hermes,
        SessionOwner::Named("hermes-orchestrator".to_string())
    );

    let system = SessionOwner::parse("system").expect("parse system");
    assert_eq!(system, SessionOwner::System);

    let unknown = SessionOwner::parse("unknown").expect("parse unknown");
    assert_eq!(unknown, SessionOwner::Unknown);

    assert!(SessionOwner::parse("").is_err());
}

#[test]
fn record_registration_uses_unknown_owner_for_unmapped_projects() {
    let mut ledger = Ledger::open_memory().expect("ledger");
    let mut registration = registration("agent-unknown");
    registration.routing.repo_name = Some("side-project".to_string());

    let (session, _) = ledger
        .record_registration(&registration, true, &[], None)
        .expect("record");

    assert_eq!(session.owner, SessionOwner::Unknown);
}

#[test]
fn rejects_empty_session_names() {
    let mut ledger = Ledger::open_memory().expect("ledger");
    let error = ledger
        .upsert_session(sample_session_input(" "))
        .expect_err("empty session should fail");
    assert!(error.message().contains("tmux session cannot be empty"));
}

#[test]
fn classifies_expected_lane_states() {
    let mut healthy = sample_session_input("healthy");
    healthy.state = SessionState::Healthy;
    let mut lost = sample_session_input("lost");
    lost.state = SessionState::LostMonitoring;
    let mut ignored = sample_session_input("infra");
    ignored.kind = SessionKind::Infra;
    ignored.owner = SessionOwner::System;
    ignored.expected_watch = false;
    ignored.state = SessionState::IgnoredAlive;
    let mut dead = sample_session_input("dead");
    dead.state = SessionState::Dead;
    let mut ledger = Ledger::open_memory().expect("ledger");
    for input in [healthy, lost, ignored, dead] {
        ledger.upsert_session(input).expect("session");
    }
    ledger
        .upsert_watch_intent(sample_watch_input("healthy"))
        .expect("healthy watch");
    ledger
        .upsert_watch_intent(sample_watch_input("lost"))
        .expect("lost watch");
    let mut external_registration = registration("external");
    external_registration.registration_source = RegistrationSource::CliWatch;
    let daemon_registrations = vec![registration("healthy"), external_registration];
    let live_tmux_sessions = names(&[
        "ever-forever-agent",
        "external",
        "healthy",
        "infra",
        "lost",
        "manual",
    ]);

    let infra_prefixes = vec!["ever-".to_string()];
    let rows = classify_lanes(
        &ledger.sessions().unwrap(),
        &ledger.watch_intents().unwrap(),
        &daemon_registrations,
        &live_tmux_sessions,
        &infra_prefixes,
    );
    let statuses = rows
        .iter()
        .map(|row| (row.session.as_str(), row.status))
        .collect::<BTreeMap<_, _>>();

    assert_eq!(statuses["healthy"], LaneStatus::HealthyAgent);
    assert_eq!(statuses["lost"], LaneStatus::LostMonitoring);
    assert_eq!(statuses["infra"], LaneStatus::IgnoredInfra);
    assert_eq!(statuses["manual"], LaneStatus::UnknownTmux);
    assert_eq!(statuses["ever-forever-agent"], LaneStatus::InfraCandidate);
    assert_eq!(statuses["external"], LaneStatus::ExternallyWatched);
    assert_eq!(statuses["dead"], LaneStatus::TmuxMissing);
}

#[test]
fn missing_runtime_with_pending_workflow_is_a_handoff() {
    let mut ledger = Ledger::open_memory().expect("ledger");
    for (name, workflow_status) in [
        ("review", WorkflowStatus::NeedsReview),
        ("qa", WorkflowStatus::NeedsQa),
        ("pr", WorkflowStatus::PrOpen),
        ("ci", WorkflowStatus::AwaitingCi),
        ("human", WorkflowStatus::AwaitingHuman),
    ] {
        let mut input = sample_session_input(name);
        input.state = SessionState::Dead;
        input.workflow_status = workflow_status;
        ledger.upsert_session(input).expect("session");
    }

    let rows = classify_lanes(&ledger.sessions().unwrap(), &[], &[], &NameSet::new(), &[]);

    assert_eq!(rows.len(), 5);
    assert!(rows.iter().all(|row| {
        row.status == LaneStatus::WorkflowHandoff
            && row.runtime_status == RuntimeStatus::TmuxMissing
    }));
}

#[test]
fn terminal_sessions_are_hidden_from_lane_board() {
    let mut ledger = Ledger::open_memory().expect("ledger");
    for (name, workflow_status) in [
        ("completed-review", WorkflowStatus::Completed),
        ("cancelled-review", WorkflowStatus::Cancelled),
        ("superseded-review", WorkflowStatus::Superseded),
        ("retired-review", WorkflowStatus::Retired),
    ] {
        let mut input = sample_session_input(name);
        input.workflow_status = workflow_status;
        ledger.upsert_session(input).expect("session");
        ledger
            .upsert_watch_intent(sample_watch_input(name))
            .expect("watch");
    }

    let rows = classify_lanes(
        &ledger.sessions().unwrap(),
        &ledger.watch_intents().unwrap(),
        &[],
        &NameSet::new(),
        &[],
    );

    assert!(rows.is_empty());
}

#[test]
fn ignored_session_becomes_tmux_missing_when_tmux_disappears() {
    let mut ledger = Ledger::open_memory().expect("ledger");
    let mut ignored = sample_session_input("infra");
    ignored.expected_watch = false;
    ignored.state = SessionState::IgnoredAlive;
    ledger.upsert_session(ignored).expect("session");

    let rows = classify_lanes(
        &ledger.sessions().unwrap(),
        &ledger.watch_intents().unwrap(),
        &[],
        &NameSet::new(),
        &[],
    );

    assert_eq!(rows[0].status, LaneStatus::TmuxMissing);
}

#[test]
fn record_registration_persists_thread_restore_target() {
    let mut ledger = Ledger::open_memory().expect("ledger");
    let mut registration = registration("agent-threaded");
    registration.channel = None;
    registration.thread = Some("thread-123".to_string());

    let (_session, intent) = ledger
        .record_registration(&registration, true, &[], None)
        .expect("registration");

    assert_eq!(intent.channel, None);
    assert_eq!(intent.thread.as_deref(), Some("thread-123"));
    assert!(
        intent
            .restore_command_string()
            .contains("--thread thread-123"),
        "{}",
        intent.restore_command_string()
    );
}
