//! What holds of every operation of the ledger.

use vstd::prelude::*;
use vstd::string::*;

use crate::error::LedgerErrorView;
use crate::lanes::{
    finished_sessions_are_hidden, hidden, known, no_session_is_shown_twice, sorts, BoardView, LaneRowView,
};
use crate::records::{
    intent_of_row, session_of_row, SessionInputView, SessionRecordView, SessionRowView,
    WatchIntentInputView, WatchIntentRecordView,
};
use crate::registration::{
    inferred_owner, registered_intent, registered_session, RegisteredTmuxSessionView,
    SessionOwnerMappingView,
};
use crate::status::{SessionOwnerView, SessionState, WorkflowStatus};
use crate::tables::{
    lemma_collected_all, lemma_collected_fails, lemma_migrated_sessions_valid,
    lemma_same_sessions_valid, lemma_set_baseline_valid,
    lemma_with_intent_valid, lemma_with_session_valid, merged_session, migrated_session,
    retired_label, sorted_names, FreshValuesView, LedgerView, SCHEMA_VERSION,
};
use crate::text::{blank, text_le_is_antisymmetric, text_lt};

verus! {

/// An operation that changes the ledger, with all that it takes.
pub enum LedgerStep {
    UpsertSession { session: SessionInputView, fresh_id: Seq<char>, now: Seq<char> },
    UpsertWatchIntent { intent: WatchIntentInputView, fresh_id: Seq<char> },
    RecordRegistration {
        registration: RegisteredTmuxSessionView,
        spawned_by_clawhip: bool,
        mappings: Seq<SessionOwnerMappingView>,
        original_command_json: Option<Seq<char>>,
        fresh: FreshValuesView,
    },
    SetSessionState { name: Seq<char>, state: SessionState, now: Seq<char> },
    SetWorkflowStatus { name: Seq<char>, workflow_status: WorkflowStatus, now: Seq<char> },
    SetBaseline { repo_path: Seq<char>, payload: Seq<char>, now: Seq<char> },
    Migrate { now: Seq<char> },
}

impl LedgerStep {
    /// The session that the operation is about, where it is about one.
    pub open spec fn session(self) -> Option<Seq<char>> {
        match self {
            LedgerStep::UpsertSession { session, .. } => Some(session.tmux_session),
            LedgerStep::UpsertWatchIntent { intent, .. } => Some(intent.tmux_session),
            LedgerStep::RecordRegistration { registration, .. } => Some(registration.session),
            LedgerStep::SetSessionState { name, .. } => Some(name),
            LedgerStep::SetWorkflowStatus { name, .. } => Some(name),
            LedgerStep::SetBaseline { .. } => None,
            LedgerStep::Migrate { .. } => None,
        }
    }

    /// One for the operation that is made of two others, else zero.
    pub open spec fn parts(self) -> nat {
        if self is RecordRegistration {
            1
        } else {
            0
        }
    }

    /// The owner that the operation records, where it records one.
    pub open spec fn owner(self) -> Option<SessionOwnerView> {
        match self {
            LedgerStep::UpsertSession { session, .. } => Some(session.owner),
            LedgerStep::RecordRegistration { registration, mappings, .. } => Some(
                inferred_owner(registration.routing.repo_name, mappings),
            ),
            _ => None,
        }
    }
}

impl LedgerView {
    /// The ledger after an operation.
    pub open spec fn after(self, step: LedgerStep) -> LedgerView {
        match step {
            LedgerStep::UpsertSession { session, fresh_id, now } => self.upsert_session(
                session,
                fresh_id,
                now,
            ).0,
            LedgerStep::UpsertWatchIntent { intent, fresh_id } => self.upsert_watch_intent(
                intent,
                fresh_id,
            ).0,
            LedgerStep::RecordRegistration {
                registration,
                spawned_by_clawhip,
                mappings,
                original_command_json,
                fresh,
            } => self.record_registration(
                registration,
                spawned_by_clawhip,
                mappings,
                original_command_json,
                fresh,
            ).0,
            LedgerStep::SetSessionState { name, state, now } => self.set_session_state(
                name,
                state,
                now,
            ).0,
            LedgerStep::SetWorkflowStatus { name, workflow_status, now } =>
                self.set_workflow_status(name, workflow_status, now).0,
            LedgerStep::SetBaseline { repo_path, payload, now } => self.set_baseline(
                repo_path,
                payload,
                now,
            ),
            LedgerStep::Migrate { now } => self.migrate(now),
        }
    }
}

/// A registration is recorded as its session and then, where that succeeds, as its wish to watch.
pub open spec fn registration_steps(step: LedgerStep) -> (LedgerStep, LedgerStep)
    recommends
        step is RecordRegistration,
{
    let registration = step->registration;
    let fresh = step->fresh;
    (
        LedgerStep::UpsertSession {
            session: registered_session(
                registration,
                step->spawned_by_clawhip,
                step->mappings,
                fresh.seen,
            ),
            fresh_id: fresh.session_id,
            now: fresh.now,
        },
        LedgerStep::UpsertWatchIntent {
            intent: registered_intent(registration, step->original_command_json, fresh.confirmed),
            fresh_id: fresh.intent_id,
        },
    )
}

proof fn lemma_registration_in_two(pre: LedgerView, step: LedgerStep)
    requires
        step is RecordRegistration,
    ensures
        pre.after(step) == pre.after(registration_steps(step).0) || pre.after(step) == pre.after(
            registration_steps(step).0,
        ).after(registration_steps(step).1),
{
}

/// Every operation keeps the constraints of the tables: no name, no id and no session is taken
/// twice, and no watch intent is without its session.
pub proof fn every_step_keeps_the_constraints(pre: LedgerView, step: LedgerStep)
    requires
        pre.valid(),
    ensures
        pre.after(step).valid(),
    decreases step.parts(),
{
    match step {
        LedgerStep::UpsertSession { session: input, fresh_id, now } => {
            let row = merged_session(
                pre.session_row(input.tmux_session),
                input,
                fresh_id,
                now,
            );
            if pre.after(step) != pre {
                lemma_with_session_valid(pre, row);
            }
        },
        LedgerStep::UpsertWatchIntent { intent: input, fresh_id } => {
            let json = crate::outside::string_list_json(input.keywords);
            let (post, stored) = pre.store_intent(input, fresh_id, json);
            if let Ok(row) = stored {
                assert(pre.sessions.contains_key(input.tmux_session));
                lemma_with_intent_valid(pre, row);
            }
        },
        LedgerStep::RecordRegistration { .. } => {
            let (first, second) = registration_steps(step);
            every_step_keeps_the_constraints(pre, first);
            every_step_keeps_the_constraints(pre.after(first), second);
            lemma_registration_in_two(pre, step);
        },
        LedgerStep::SetSessionState { name, state, now } => {
            if let Some(row) = pre.session_row(name) {
                lemma_with_session_valid(
                    pre,
                    SessionRowView { state: state.text(), updated_at: now, ..row },
                );
            }
        },
        LedgerStep::SetWorkflowStatus { name, workflow_status, now } => {
            if let Some(row) = pre.session_row(name) {
                lemma_with_session_valid(
                    pre,
                    SessionRowView {
                        workflow_status: workflow_status.text(),
                        updated_at: now,
                        ..row
                    },
                );
            }
        },
        LedgerStep::SetBaseline { repo_path, payload, now } => {
            lemma_set_baseline_valid(pre, repo_path, payload, now);
        },
        LedgerStep::Migrate { now } => {
            let between = LedgerView {
                sessions: pre.sessions.map_values(|row: SessionRowView| migrated_session(row)),
                ..pre
            };
            lemma_migrated_sessions_valid(pre);
            lemma_same_sessions_valid(between, pre.after(step));
        },
    }
}

/// No operation removes a session. Its id, its name and the time of its creation never change, and
/// once clawhip has spawned it, that stays recorded.
pub proof fn sessions_stay(pre: LedgerView, step: LedgerStep, name: Seq<char>)
    requires
        pre.valid(),
        pre.sessions.contains_key(name),
    ensures
        pre.after(step).sessions.contains_key(name),
        pre.after(step).sessions[name].id == pre.sessions[name].id,
        pre.after(step).sessions[name].tmux_session == name,
        pre.after(step).sessions[name].created_at == pre.sessions[name].created_at,
        pre.sessions[name].spawned_by_clawhip
            ==> pre.after(step).sessions[name].spawned_by_clawhip,
    decreases step.parts(),
{
    if step is RecordRegistration {
        let (first, second) = registration_steps(step);
        every_step_keeps_the_constraints(pre, first);
        sessions_stay(pre, first, name);
        sessions_stay(pre.after(first), second, name);
        lemma_registration_in_two(pre, step);
    }
}

/// No operation removes a watch intent or gives it to another session, and its id never changes.
pub proof fn watch_intents_stay(pre: LedgerView, step: LedgerStep, session_id: Seq<char>)
    requires
        pre.valid(),
        pre.intents.contains_key(session_id),
    ensures
        pre.after(step).intents.contains_key(session_id),
        pre.after(step).intents[session_id].id == pre.intents[session_id].id,
        pre.after(step).intents[session_id].session_id == session_id,
    decreases step.parts(),
{
    if step is RecordRegistration {
        let (first, second) = registration_steps(step);
        every_step_keeps_the_constraints(pre, first);
        watch_intents_stay(pre, first, session_id);
        watch_intents_stay(pre.after(first), second, session_id);
        lemma_registration_in_two(pre, step);
    }
}

/// An operation on one session leaves what is stored of every other session, and of the wish to
/// watch it, as it was.
pub proof fn other_sessions_are_left_alone(pre: LedgerView, step: LedgerStep, name: Seq<char>)
    requires
        pre.valid(),
        !(step is Migrate),
        step.session() != Some(name),
    ensures
        pre.after(step).session_row(name) == pre.session_row(name),
        pre.after(step).intent_row(name) == pre.intent_row(name),
    decreases step.parts(),
{
    match step {
        LedgerStep::RecordRegistration { .. } => {
            let (first, second) = registration_steps(step);
            every_step_keeps_the_constraints(pre, first);
            other_sessions_are_left_alone(pre, first, name);
            other_sessions_are_left_alone(pre.after(first), second, name);
            lemma_registration_in_two(pre, step);
        },
        LedgerStep::UpsertWatchIntent { intent, fresh_id } => {
            if pre.sessions.contains_key(name) && pre.sessions.contains_key(intent.tmux_session) {
                assert(pre.sessions[name].id != pre.sessions[intent.tmux_session].id);
            }
        },
        _ => {},
    }
}

/// Only setting a baseline changes baselines, and only that of its repository. It reads back as it
/// was set.
pub proof fn baselines_read_back(pre: LedgerView, step: LedgerStep, repo_path: Seq<char>)
    ensures
        match step {
            LedgerStep::SetBaseline { repo_path: set, payload, .. } => pre.after(step).baseline(
                repo_path,
            ) == if set == repo_path {
                Some(payload)
            } else {
                pre.baseline(repo_path)
            },
            _ => pre.after(step).baseline(repo_path) == pre.baseline(repo_path),
        },
    decreases step.parts(),
{
    if step is RecordRegistration {
        let (first, second) = registration_steps(step);
        baselines_read_back(pre, first, repo_path);
        baselines_read_back(pre.after(first), second, repo_path);
        lemma_registration_in_two(pre, step);
    }
}

/// The record that recording `input` leads to, given what is stored of the session of that name.
pub open spec fn recorded_session(
    existing: Option<SessionRowView>,
    input: SessionInputView,
    fresh_id: Seq<char>,
    now: Seq<char>,
) -> SessionRecordView {
    let row = merged_session(existing, input, fresh_id, now);
    SessionRecordView {
        id: row.id,
        tmux_session: input.tmux_session,
        tmux_pane: input.tmux_pane,
        kind: input.kind,
        owner: input.owner,
        project_path: input.project_path,
        repo_name: input.repo_name,
        branch: input.branch,
        spawned_by_clawhip: row.spawned_by_clawhip,
        expected_watch: input.expected_watch,
        state: input.state,
        workflow_status: input.workflow_status,
        created_at: row.created_at,
        updated_at: now,
        last_seen_at: input.last_seen_at,
    }
}

/// What is recorded of a session reads back as it was recorded. It is refused only where the name is
/// blank, where what was stored under that name cannot be read, and where the id that a new session
/// would get is taken. An owner that is named like one of the fixed owners, or with the empty name,
/// does not read back.
pub proof fn recorded_sessions_read_back(
    pre: LedgerView,
    input: SessionInputView,
    fresh_id: Seq<char>,
    now: Seq<char>,
)
    requires
        !blank(input.tmux_session),
        pre.session(input.tmux_session) is Ok,
        pre.sessions.contains_key(input.tmux_session) || !pre.has_session_id(fresh_id),
        input.owner.distinctly_named(),
    ensures
        pre.upsert_session(input, fresh_id, now).1 == Ok::<SessionRecordView, LedgerErrorView>(
            recorded_session(pre.session_row(input.tmux_session), input, fresh_id, now),
        ),
        pre.upsert_session(input, fresh_id, now).0.session(input.tmux_session) == Ok::<
            Option<SessionRecordView>,
            LedgerErrorView,
        >(
            Some(recorded_session(pre.session_row(input.tmux_session), input, fresh_id, now)),
        ),
{
    input.kind.label_reads_back();
    input.owner.label_reads_back();
    input.state.label_reads_back();
    input.workflow_status.label_reads_back();
}

/// Whatever is done to a session that is there adds no session; and, where it has a watch intent,
/// no watch intent.
pub proof fn recording_again_adds_nothing(pre: LedgerView, step: LedgerStep, name: Seq<char>)
    requires
        pre.valid(),
        step.session() == Some(name),
        pre.sessions.contains_key(name),
    ensures
        pre.after(step).sessions.dom() == pre.sessions.dom(),
        pre.intent_row(name) is Some ==> pre.after(step).intents.dom() == pre.intents.dom(),
    decreases step.parts(),
{
    if step is RecordRegistration {
        let (first, second) = registration_steps(step);
        every_step_keeps_the_constraints(pre, first);
        sessions_stay(pre, first, name);
        if pre.intent_row(name) is Some {
            watch_intents_stay(pre, first, pre.sessions[name].id);
        }
        recording_again_adds_nothing(pre, first, name);
        recording_again_adds_nothing(pre.after(first), second, name);
        lemma_registration_in_two(pre, step);
    }
    assert(pre.after(step).sessions.dom() =~= pre.sessions.dom());
    if pre.intent_row(name) is Some {
        assert(pre.after(step).intents.dom() =~= pre.intents.dom());
    }
}

/// Setting the monitoring state and setting the workflow status do not get in each other's way: in
/// either order they leave the same labels, and each leaves all the rest but the time of the change.
pub proof fn state_and_workflow_are_independent(
    pre: LedgerView,
    name: Seq<char>,
    state: SessionState,
    workflow_status: WorkflowStatus,
    now: Seq<char>,
)
    requires
        pre.valid(),
    ensures
        pre.set_session_state(name, state, now).0.set_workflow_status(
            name,
            workflow_status,
            now,
        ).0 == pre.set_workflow_status(name, workflow_status, now).0.set_session_state(
            name,
            state,
            now,
        ).0,
        pre.session_row(name) matches Some(row) ==> pre.set_session_state(
            name,
            state,
            now,
        ).0.session_row(name) == Some(
            SessionRowView { state: state.text(), updated_at: now, ..row },
        ),
        pre.session_row(name) matches Some(row) ==> pre.set_workflow_status(
            name,
            workflow_status,
            now,
        ).0.session_row(name) == Some(
            SessionRowView { workflow_status: workflow_status.text(), updated_at: now, ..row },
        ),
{
    let one = pre.set_session_state(name, state, now).0.set_workflow_status(
        name,
        workflow_status,
        now,
    ).0;
    let other = pre.set_workflow_status(name, workflow_status, now).0.set_session_state(
        name,
        state,
        now,
    ).0;
    if pre.sessions.contains_key(name) {
        assert(one =~= other);
    }
}

/// As long as no session is recorded with an empty owner, every stored session can be read.
pub proof fn sessions_stay_readable(pre: LedgerView, step: LedgerStep)
    requires
        pre.valid(),
        pre.sessions_readable(),
        step.owner() matches Some(owner) ==> owner.text().len() > 0,
    ensures
        pre.after(step).sessions_readable(),
    decreases step.parts(),
{
    match step {
        LedgerStep::RecordRegistration { .. } => {
            let (first, second) = registration_steps(step);
            every_step_keeps_the_constraints(pre, first);
            sessions_stay_readable(pre, first);
            sessions_stay_readable(pre.after(first), second);
            lemma_registration_in_two(pre, step);
        },
        LedgerStep::UpsertSession { session, .. } => {
            session.kind.label_reads_back();
            session.state.label_reads_back();
            session.workflow_status.label_reads_back();
        },
        LedgerStep::SetSessionState { state, .. } => {
            state.label_reads_back();
        },
        LedgerStep::SetWorkflowStatus { workflow_status, .. } => {
            workflow_status.label_reads_back();
        },
        LedgerStep::Migrate { .. } => {
            WorkflowStatus::Retired.label_reads_back();
            WorkflowStatus::Active.label_reads_back();
            assert forall|name: Seq<char>| #[trigger]
                pre.after(step).sessions.contains_key(name) implies session_of_row(
                pre.after(step).sessions[name],
            ) is Ok by {
                assert(pre.sessions.contains_key(name));
            }
        },
        _ => {},
    }
}

/// After a migration no session has a workflow status of an earlier version, and the schema version
/// is recorded.
pub proof fn migrated_ledgers_are_current(pre: LedgerView, now: Seq<char>)
    ensures
        forall|name: Seq<char>| #[trigger]
            pre.migrate(now).sessions.contains_key(name) ==> !retired_label(
                pre.migrate(now).sessions[name].workflow_status,
            ),
        pre.migrate(now).migrations.contains_key(SCHEMA_VERSION),
        pre.migrations.contains_key(SCHEMA_VERSION) ==> pre.migrate(now).migrations
            == pre.migrations,
{
    lemma_current_labels_are_not_retired();
}

proof fn lemma_current_labels_are_not_retired()
    ensures
        !retired_label("active"@),
        !retired_label("retired"@),
        "active"@ != "retired"@,
{
    reveal_strlit("active");
    reveal_strlit("retired");
    reveal_strlit("failed");
    reveal_strlit("interrupted");
    reveal_strlit("abandoned");
    assert("active"@.len() == 6 && "retired"@.len() == 7);
    assert("failed"@.len() == 6 && "interrupted"@.len() == 11 && "abandoned"@.len() == 9);
    assert("active"@[0] != "failed"@[0]);
}

/// A second migration changes nothing. A session with the state `retired` and a workflow status of
/// an earlier version is the exception: the first migration makes it active and the second retires
/// it.
pub proof fn migration_is_idempotent(pre: LedgerView, now: Seq<char>, later: Seq<char>)
    requires
        forall|name: Seq<char>| #[trigger]
            pre.sessions.contains_key(name) ==> !(pre.sessions[name].state == "retired"@
                && retired_label(pre.sessions[name].workflow_status)),
    ensures
        pre.migrate(now).migrate(later) == pre.migrate(now),
{
    lemma_current_labels_are_not_retired();
    let once = pre.migrate(now);
    let twice = once.migrate(later);
    assert forall|name: Seq<char>| #[trigger] once.sessions.contains_key(name) implies
        twice.sessions[name] == once.sessions[name] by {
        assert(pre.sessions.contains_key(name));
    }
    assert(twice.sessions =~= once.sessions);
    assert(twice =~= once);
}

/// From the second migration on, migrating changes nothing at all.
pub proof fn migrating_twice_is_enough(
    pre: LedgerView,
    now: Seq<char>,
    later: Seq<char>,
    last: Seq<char>,
)
    ensures
        pre.migrate(now).migrate(later).migrate(last) == pre.migrate(now).migrate(later),
{
    migrated_ledgers_are_current(pre, now);
    migration_is_idempotent(pre.migrate(now), later, last);
}

/// What the ledger refuses, it does not do: where recording a session, recording a wish to watch or
/// setting a status fails, nothing has changed. Left out are a session with an empty owner, which is
/// stored though it cannot be read back, and the statuses of a session whose row could not be read
/// in the first place.
pub proof fn refused_steps_change_nothing(pre: LedgerView, step: LedgerStep)
    requires
        match step {
            LedgerStep::UpsertSession { session, fresh_id, now } => session.owner.text().len() > 0
                && pre.upsert_session(session, fresh_id, now).1 is Err,
            LedgerStep::UpsertWatchIntent { intent, fresh_id } => pre.store_intent(
                intent,
                fresh_id,
                crate::outside::string_list_json(intent.keywords),
            ).1 is Err,
            LedgerStep::SetSessionState { name, state, now } => pre.session(name) is Ok
                && pre.set_session_state(name, state, now).1 is Err,
            LedgerStep::SetWorkflowStatus { name, workflow_status, now } => pre.session(name) is Ok
                && pre.set_workflow_status(name, workflow_status, now).1 is Err,
            _ => false,
        },
    ensures
        pre.after(step) == pre,
{
    match step {
        LedgerStep::UpsertSession { session, .. } => {
            session.kind.label_reads_back();
            session.state.label_reads_back();
            session.workflow_status.label_reads_back();
        },
        LedgerStep::SetSessionState { state, .. } => {
            state.label_reads_back();
        },
        LedgerStep::SetWorkflowStatus { workflow_status, .. } => {
            workflow_status.label_reads_back();
        },
        _ => {},
    }
}

/// There is one way to list the sessions in order, and one way to list those that have a watch
/// intent.
pub proof fn listings_are_determined(names: Seq<Seq<char>>, others: Seq<Seq<char>>)
    requires
        sorted_names(names),
        sorted_names(others),
        forall|name: Seq<char>|
            #![trigger names.contains(name)]
            #![trigger others.contains(name)]
            names.contains(name) <==> others.contains(name),
    ensures
        names == others,
    decreases names.len(),
{
    if names.len() == 0 {
        if others.len() > 0 {
            assert(others.contains(others[0]));
        }
        assert(names =~= others);
    } else if others.len() == 0 {
        assert(names.contains(names[0]));
    } else {
        let last = names.last();
        let end = others.last();
        assert(names.contains(last) && others.contains(end));
        let i = others.index_of(last);
        let j = names.index_of(end);
        assert(others.contains(last) && names.contains(end));
        if i < others.len() - 1 && j < names.len() - 1 {
            assert(text_lt(others[i], others[others.len() - 1]));
            assert(text_lt(names[j], names[names.len() - 1]));
            text_le_is_antisymmetric(last, end);
        }
        assert(last == end);
        let a = names.drop_last();
        let b = others.drop_last();
        assert(sorted_names(a)) by {
            assert forall|i: int, j: int| 0 <= i < j < a.len() implies text_lt(
                #[trigger] a[i],
                #[trigger] a[j],
            ) by {
                assert(text_lt(names[i], names[j]));
            }
        }
        assert(sorted_names(b)) by {
            assert forall|i: int, j: int| 0 <= i < j < b.len() implies text_lt(
                #[trigger] b[i],
                #[trigger] b[j],
            ) by {
                assert(text_lt(others[i], others[j]));
            }
        }
        assert forall|name: Seq<char>|
            #![trigger a.contains(name)]
            #![trigger b.contains(name)]
            a.contains(name) <==> b.contains(name) by {
            if a.contains(name) {
                let k = a.index_of(name);
                assert(names[k] == name);
                assert(text_lt(names[k], names[names.len() - 1]));
                assert(names.contains(name) && others.contains(name));
                let l = others.index_of(name);
                assert(b[l] == name);
            }
            if b.contains(name) {
                let k = b.index_of(name);
                assert(others[k] == name);
                assert(text_lt(others[k], others[others.len() - 1]));
                assert(others.contains(name) && names.contains(name));
                let l = names.index_of(name);
                assert(a[l] == name);
            }
        }
        listings_are_determined(a, b);
        assert(names =~= a.push(last));
        assert(others =~= b.push(end));
    }
}

/// A listing of the sessions holds each session once, as it reads by its name, in the order of the
/// names; and there is one wherever every session can be read.
pub proof fn listed_sessions_read_by_name(ledger: LedgerView, names: Seq<Seq<char>>)
    requires
        ledger.valid(),
        ledger.session_names(names),
    ensures
        ledger.listed_sessions(names) matches Ok(list) ==> ledger.lists_sessions(list),
        ledger.listed_sessions(names) is Ok <==> ledger.sessions_readable(),
{
    let outcomes = ledger.session_outcomes(names);
    if ledger.listed_sessions(names) is Ok {
        let list = ledger.listed_sessions(names)->Ok_0;
        lemma_collected_all(outcomes);
        assert forall|i: int| 0 <= i < list.len() implies (#[trigger] list[i]).tmux_session
            == names[i] && ledger.session(names[i]) == Ok::<
            Option<SessionRecordView>,
            LedgerErrorView,
        >(Some(list[i])) by {
            assert(names.contains(names[i]));
            assert(outcomes[i] == session_of_row(ledger.sessions[names[i]]));
        }
        assert forall|i: int, j: int| 0 <= i < j < list.len() implies text_lt(
            (#[trigger] list[i]).tmux_session,
            (#[trigger] list[j]).tmux_session,
        ) by {
            assert(text_lt(names[i], names[j]));
        }
        assert forall|name: Seq<char>| #[trigger] ledger.sessions.contains_key(name) implies (
        exists|i: int| 0 <= i < list.len() && (#[trigger] list[i]).tmux_session == name)
            && session_of_row(ledger.sessions[name]) is Ok by {
            assert(names.contains(name));
            let i = names.index_of(name);
            assert(list[i].tmux_session == name);
            assert(outcomes[i] == session_of_row(ledger.sessions[names[i]]));
        }
    } else {
        let i = lemma_collected_fails(outcomes);
        assert(names.contains(names[i]));
        assert(outcomes[i] == session_of_row(ledger.sessions[names[i]]));
    }
}

/// A listing of the watch intents holds each once, as it reads by the name of its session, in the
/// order of the names; and there is one wherever every watch intent can be read.
pub proof fn listed_intents_read_by_name(ledger: LedgerView, names: Seq<Seq<char>>)
    requires
        ledger.watched_names(names),
    ensures
        ledger.listed_intents(names) matches Ok(list) ==> ledger.lists_intents(list),
        ledger.listed_intents(names) is Ok <==> ledger.intents_readable(),
{
    let outcomes = ledger.intent_outcomes(names);
    if ledger.listed_intents(names) is Ok {
        let list = ledger.listed_intents(names)->Ok_0;
        lemma_collected_all(outcomes);
        assert forall|i: int| 0 <= i < list.len() implies (#[trigger] list[i]).tmux_session
            == names[i] && ledger.intent(names[i]) == Ok::<
            Option<WatchIntentRecordView>,
            LedgerErrorView,
        >(Some(list[i])) by {
            assert(names.contains(names[i]));
            assert(outcomes[i] == intent_of_row(ledger.intent_row(names[i])->Some_0, names[i]));
        }
        assert forall|i: int, j: int| 0 <= i < j < list.len() implies text_lt(
            (#[trigger] list[i]).tmux_session,
            (#[trigger] list[j]).tmux_session,
        ) by {
            assert(text_lt(names[i], names[j]));
        }
        assert forall|name: Seq<char>| (#[trigger] ledger.intent_row(name)) is Some implies (
        exists|i: int| 0 <= i < list.len() && (#[trigger] list[i]).tmux_session == name)
            && ledger.intent(name) is Ok by {
            assert(names.contains(name));
            let i = names.index_of(name);
            assert(list[i].tmux_session == name);
        }
    } else {
        let i = lemma_collected_fails(outcomes);
        assert(names.contains(names[i]));
        assert(outcomes[i] == intent_of_row(ledger.intent_row(names[i])->Some_0, names[i]));
    }
}

/// The board of a ledger names no session twice.
pub proof fn ledger_boards_are_in_strict_order(
    ledger: LedgerView,
    names: Seq<Seq<char>>,
    board: BoardView,
    sorted: Seq<LaneRowView>,
)
    requires
        ledger.valid(),
        ledger.session_names(names),
        ledger.listed_sessions(names) == Ok::<Seq<SessionRecordView>, LedgerErrorView>(
            board.sessions,
        ),
        sorted_names(board.live),
        sorts(sorted, board.lanes()),
    ensures
        forall|i: int, j: int|
            0 <= i < j < sorted.len() ==> text_lt(
                (#[trigger] sorted[i]).session,
                (#[trigger] sorted[j]).session,
            ),
{
    listed_sessions_read_by_name(ledger, names);
    assert(ledger.lists_sessions(board.sessions));
    assert forall|i: int, j: int| 0 <= i < j < board.sessions.len() implies (
    #[trigger] board.sessions[i]).tmux_session != (#[trigger] board.sessions[j]).tmux_session by {
        assert(text_lt(board.sessions[i].tmux_session, board.sessions[j].tmux_session));
    }
    no_session_is_shown_twice(board, sorted);
}

/// A session whose work is set to a terminal status leaves the board of the ledger, and stays off it
/// whatever the daemon and tmux know of it.
pub proof fn finished_work_leaves_the_board(
    pre: LedgerView,
    name: Seq<char>,
    workflow_status: WorkflowStatus,
    now: Seq<char>,
    names: Seq<Seq<char>>,
    board: BoardView,
    sorted: Seq<LaneRowView>,
)
    requires
        pre.valid(),
        pre.sessions.contains_key(name),
        workflow_status.terminal(),
        ({
            let post = pre.set_workflow_status(name, workflow_status, now).0;
            &&& post.session_names(names)
            &&& post.listed_sessions(names) == Ok::<Seq<SessionRecordView>, LedgerErrorView>(
                board.sessions,
            )
        }),
        sorts(sorted, board.lanes()),
    ensures
        forall|k: int| 0 <= k < sorted.len() ==> (#[trigger] sorted[k]).session != name,
{
    let step = LedgerStep::SetWorkflowStatus { name, workflow_status, now };
    let post = pre.set_workflow_status(name, workflow_status, now).0;
    every_step_keeps_the_constraints(pre, step);
    assert(post == pre.after(step));
    listed_sessions_read_by_name(post, names);
    workflow_status.label_reads_back();
    assert(names.contains(name));
    assert(post.lists_sessions(board.sessions));
    assert(known(board.sessions, name)) by {
        let i = choose|i: int|
            0 <= i < board.sessions.len() && (#[trigger] board.sessions[i]).tmux_session == name;
        assert(board.sessions[i].tmux_session == name);
    }
    assert forall|i: int|
        0 <= i < board.sessions.len() && (#[trigger] board.sessions[i]).tmux_session
            == name implies hidden(board.sessions[i]) by {
        assert(post.session(name) == Ok::<Option<SessionRecordView>, LedgerErrorView>(
            Some(board.sessions[i]),
        ));
    }
    finished_sessions_are_hidden(board, sorted, name);
}

} // verus!
