//! What is recorded and read back, field by field.

use vstd::prelude::*;
use vstd::string::*;

use crate::error::{Constraint, LedgerError, LedgerErrorView};
use crate::ledger::{found_is, list_is, registration_reads_back, state_was_set, workflow_was_set};
use crate::outside::clock_text;
use crate::records::{
    intent_of_row, intent_with_keywords, name_outcome, outcome_is, session_of_row, stored_minutes,
    SessionInputView, SessionRecord, SessionRecordView, SessionRowView, WatchIntentInputView,
    WatchIntentRecordView, WatchIntentRowView,
};
use crate::registration::{
    first_mapping_names_the_owner, inferred_owner, registered_intent, registered_session,
    unmapped_repository_has_unknown_owner, RegisteredTmuxSessionView, SessionOwnerMappingView,
};
use crate::report_laws::shows;
use crate::schema::{add_column, table_info};
use crate::status::{
    MessageFormat, RegistrationSource, SessionKind, SessionOwnerView, SessionState, WorkflowStatus,
};
use crate::tables::{FreshValuesView, LedgerView};

verus! {

/// Whether a stored session reads as a record: every label stands for something.
pub open spec fn labels_are_known(row: SessionRowView) -> bool {
    &&& exists|kind: SessionKind| row.kind == #[trigger] kind.text()
    &&& row.owner.len() > 0
    &&& exists|state: SessionState| row.state == #[trigger] state.text()
    &&& (exists|status: WorkflowStatus| row.workflow_status == #[trigger] status.text()) || (
    row.workflow_status == "failed"@ || row.workflow_status == "interrupted"@ || row.workflow_status
        == "abandoned"@)
}

/// A stored session reads as a record exactly where every label of it stands for something, and the
/// record has what the row has, field by field; work under a label of an earlier version is active.
pub proof fn session_rows_read_field_by_field(row: SessionRowView)
    ensures
        session_of_row(row) is Ok <==> labels_are_known(row),
        session_of_row(row) matches Err(e) ==> {
            let kind = exists|kind: SessionKind| row.kind == #[trigger] kind.text();
            let state = exists|state: SessionState| row.state == #[trigger] state.text();
            e == if !kind {
                LedgerErrorView::InvalidSessionKind(row.kind)
            } else if row.owner.len() == 0 {
                LedgerErrorView::EmptySessionOwner
            } else if !state {
                LedgerErrorView::InvalidSessionState(row.state)
            } else {
                LedgerErrorView::InvalidWorkflowStatus(row.workflow_status)
            }
        },
        session_of_row(row) matches Ok(record) ==> {
            &&& record.id == row.id
            &&& record.tmux_session == row.tmux_session
            &&& record.tmux_pane == row.tmux_pane
            &&& record.kind.text() == row.kind
            &&& record.owner.text() == row.owner
            &&& record.project_path == row.project_path
            &&& record.repo_name == row.repo_name
            &&& record.branch == row.branch
            &&& record.spawned_by_clawhip == row.spawned_by_clawhip
            &&& record.expected_watch == row.expected_watch
            &&& record.state.text() == row.state
            &&& record.workflow_status.text() == row.workflow_status || (record.workflow_status
                == WorkflowStatus::Active && (row.workflow_status == "failed"@
                || row.workflow_status == "interrupted"@ || row.workflow_status == "abandoned"@))
            &&& record.created_at == row.created_at
            &&& record.updated_at == row.updated_at
            &&& record.last_seen_at == row.last_seen_at
        },
{
    SessionKind::labels_stand_for_one_value(row.kind);
    SessionState::labels_stand_for_one_value(row.state);
    WorkflowStatus::labels_stand_for_one_value(row.workflow_status);
    SessionOwnerView::owners_stand_by_their_names(row.owner);
    if exists|kind: SessionKind| row.kind == #[trigger] kind.text() {
        let kind = choose|kind: SessionKind| row.kind == #[trigger] kind.text();
        kind.label_reads_back();
    }
    if exists|state: SessionState| row.state == #[trigger] state.text() {
        let state = choose|state: SessionState| row.state == #[trigger] state.text();
        state.label_reads_back();
    }
    if exists|status: WorkflowStatus| row.workflow_status == #[trigger] status.text() {
        let status = choose|status: WorkflowStatus| row.workflow_status == #[trigger] status.text();
        status.label_reads_back();
    }
}

/// Whether the labels of a stored watch intent stand for something.
pub open spec fn intent_labels_are_known(row: WatchIntentRowView) -> bool {
    &&& row.format is Some ==> exists|format: MessageFormat|
        row.format->Some_0 == #[trigger] format.text()
    &&& exists|source: RegistrationSource| row.registration_source == #[trigger] source.text()
}

/// A stored watch intent reads as a record exactly where its keywords can be read and its labels
/// stand for something, and the record has what the row has, field by field.
pub proof fn intent_rows_read_field_by_field(
    row: WatchIntentRowView,
    tmux_session: Seq<char>,
    keywords: Result<Seq<Seq<char>>, Seq<char>>,
)
    ensures
        intent_with_keywords(row, tmux_session, keywords) is Ok <==> keywords is Ok
            && intent_labels_are_known(row),
        keywords is Err ==> intent_with_keywords(row, tmux_session, keywords) == Err::<
            WatchIntentRecordView,
            LedgerErrorView,
        >(LedgerErrorView::InvalidKeywords(keywords->Err_0)),
        keywords is Ok ==> (intent_with_keywords(row, tmux_session, keywords) matches Err(e) ==> {
            let source = exists|source: RegistrationSource|
                row.registration_source == #[trigger] source.text();
            let format = exists|format: MessageFormat|
                row.format->Some_0 == #[trigger] format.text();
            e == if row.format is Some && !format {
                LedgerErrorView::InvalidMessageFormat(row.format->Some_0)
            } else {
                LedgerErrorView::InvalidRegistrationSource(row.registration_source)
            }
        }),
        intent_with_keywords(row, tmux_session, keywords) matches Ok(record) ==> {
            &&& record.id == row.id
            &&& record.session_id == row.session_id
            &&& record.tmux_session == tmux_session
            &&& record.channel == row.channel
            &&& record.thread == row.thread
            &&& record.mention == row.mention
            &&& record.keywords == keywords->Ok_0
            &&& record.stale_minutes == row.stale_minutes || record.stale_minutes
                == row.stale_minutes + 0x1_0000_0000_0000_0000
            &&& record.format is Some <==> row.format is Some
            &&& record.format is Some ==> record.format->Some_0.text() == row.format->Some_0
            &&& record.registration_source.text() == row.registration_source
            &&& record.original_command_json == row.original_command_json
            &&& record.registered_at == row.registered_at
            &&& record.last_confirmed_at == row.last_confirmed_at
        },
{
    RegistrationSource::labels_stand_for_one_value(row.registration_source);
    if exists|source: RegistrationSource| row.registration_source == #[trigger] source.text() {
        let source = choose|source: RegistrationSource|
            row.registration_source == #[trigger] source.text();
        source.label_reads_back();
    }
    if let Some(label) = row.format {
        MessageFormat::labels_stand_for_one_value(label);
        if exists|format: MessageFormat| label == #[trigger] format.text() {
            let format = choose|format: MessageFormat| label == #[trigger] format.text();
            format.label_reads_back();
        }
    }
}

/// A ledger reads under a name the row that it has stored under it, the watch intent by the id of
/// that row; it finds nothing exactly where it has stored nothing.
pub proof fn ledgers_read_by_name(ledger: LedgerView, name: Seq<char>)
    ensures
        ({
            let known = ledger.sessions.contains_key(name);
            let id = ledger.sessions[name].id;
            let wished = known && ledger.intents.contains_key(id);
            &&& !known ==> ledger.session(name) == Ok::<Option<SessionRecordView>, LedgerErrorView>(
                None,
            )
            &&& known && labels_are_known(ledger.sessions[name]) ==> (ledger.session(name) matches Ok(
                Some(record),
            ) && record.id == id)
            &&& known && !labels_are_known(ledger.sessions[name]) ==> ledger.session(name) is Err
            &&& !wished ==> ledger.intent(name) == Ok::<
                Option<WatchIntentRecordView>,
                LedgerErrorView,
            >(None)
            &&& wished ==> match intent_of_row(ledger.intents[id], name) {
                Ok(record) => ledger.intent(name) == Ok::<
                    Option<WatchIntentRecordView>,
                    LedgerErrorView,
                >(Some(record)) && record.tmux_session == name,
                Err(e) => ledger.intent(name) == Err::<
                    Option<WatchIntentRecordView>,
                    LedgerErrorView,
                >(e),
            }
            &&& ledger.baseline(name) is Some <==> ledger.baselines.contains_key(name)
            &&& ledger.baselines.contains_key(name) ==> ledger.baseline(name) == Some(
                ledger.baselines[name].payload,
            )
        }),
{
    if ledger.sessions.contains_key(name) {
        session_rows_read_field_by_field(ledger.sessions[name]);
    }
}

/// Whether no session has the id `id`.
pub open spec fn session_id_is_free(ledger: LedgerView, id: Seq<char>) -> bool {
    forall|name: Seq<char>| #[trigger]
        ledger.sessions.contains_key(name) ==> ledger.sessions[name].id != id
}

/// Whether no watch intent has the id `id`.
pub open spec fn intent_id_is_free(ledger: LedgerView, id: Seq<char>) -> bool {
    forall|session: Seq<char>| #[trigger]
        ledger.intents.contains_key(session) ==> ledger.intents[session].id != id
}

/// Recording a session succeeds exactly where its name shows something, what is stored under that
/// name can be read, a new session gets a free id, and the owner has a name. What is said then, and
/// what the ledger reads under that name, is what was given, field by field; a known session keeps
/// its id, the time of its creation and that clawhip has spawned it. A name that shows nothing is
/// refused as such, and so are a row that cannot be read and a taken id.
pub proof fn sessions_are_recorded_field_by_field(
    pre: LedgerView,
    input: SessionInputView,
    fresh_id: Seq<char>,
    now: Seq<char>,
)
    ensures
        ({
            let name = input.tmux_session;
            let known = pre.sessions.contains_key(name);
            let held = pre.sessions[name];
            let (post, said) = pre.upsert_session(input, fresh_id, now);
            &&& said is Ok <==> shows(name) && (known ==> labels_are_known(held)) && (!known
                ==> session_id_is_free(pre, fresh_id)) && input.owner.text().len() > 0
            &&& !shows(name) ==> post == pre && said->Err_0 == LedgerErrorView::EmptySessionName
            &&& shows(name) && !known && !session_id_is_free(pre, fresh_id) ==> post == pre
                && said->Err_0 == LedgerErrorView::ConstraintFailed(Constraint::SessionId)
            &&& shows(name) && known && !labels_are_known(held) ==> post == pre && said
                == session_of_row(held)
            &&& post.sessions == pre.sessions || post.sessions == pre.sessions.insert(
                name,
                post.sessions[name],
            )
            &&& post.intents == pre.intents && post.baselines == pre.baselines && post.migrations
                == pre.migrations
            &&& said matches Ok(record) ==> {
                &&& post.session(name) == Ok::<Option<SessionRecordView>, LedgerErrorView>(
                    Some(record),
                )
                &&& record.tmux_session == name
                &&& record.tmux_pane == input.tmux_pane
                &&& record.kind == input.kind
                &&& record.owner.text() == input.owner.text()
                &&& record.project_path == input.project_path
                &&& record.repo_name == input.repo_name
                &&& record.branch == input.branch
                &&& record.spawned_by_clawhip <==> input.spawned_by_clawhip || (known
                    && held.spawned_by_clawhip)
                &&& record.expected_watch == input.expected_watch
                &&& record.state == input.state
                &&& record.workflow_status == input.workflow_status
                &&& record.last_seen_at == input.last_seen_at
                &&& record.updated_at == now
                &&& known ==> record.id == held.id && record.created_at == held.created_at
                &&& !known ==> record.id == fresh_id && record.created_at == now
            }
        }),
{
    let name = input.tmux_session;
    input.kind.label_reads_back();
    input.state.label_reads_back();
    input.workflow_status.label_reads_back();
    SessionOwnerView::owners_stand_by_their_names(input.owner.text());
    if pre.sessions.contains_key(name) {
        session_rows_read_field_by_field(pre.sessions[name]);
    }
}

/// Recording a wish to watch succeeds exactly where the name shows something, the session and a
/// wish that is stored already can be read, a new wish gets a free id, and the minutes fit the
/// column. What is said then is what was given, field by field, for the session of that name; a
/// wish that is stored already keeps its id. Nothing but that wish changes.
pub proof fn intents_are_recorded_field_by_field(
    pre: LedgerView,
    input: WatchIntentInputView,
    fresh_id: Seq<char>,
)
    ensures
        ({
            let name = input.tmux_session;
            let known = pre.sessions.contains_key(name);
            let session = pre.sessions[name];
            let wished = pre.intents.contains_key(session.id);
            let held = pre.intents[session.id];
            let said = pre.recorded_intent(input, fresh_id);
            let post = pre.upsert_watch_intent(input, fresh_id).0;
            &&& said is Ok <==> shows(name) && known && labels_are_known(session) && (wished
                ==> intent_of_row(held, name) is Ok) && (!wished ==> intent_id_is_free(
                pre,
                fresh_id,
            )) && input.stale_minutes <= 0x7fff_ffff_ffff_ffff
            &&& said is Err ==> post == pre
            &&& !shows(name) ==> said->Err_0 == LedgerErrorView::EmptySessionName
            &&& shows(name) && !known ==> said->Err_0 == LedgerErrorView::UnknownWatchSession(name)
            &&& shows(name) && known && labels_are_known(session) && (wished ==> intent_of_row(
                held,
                name,
            ) is Ok) && said is Err ==> said->Err_0 == if input.stale_minutes
                > 0x7fff_ffff_ffff_ffff {
                LedgerErrorView::StaleMinutesTooLarge(input.stale_minutes)
            } else {
                LedgerErrorView::ConstraintFailed(Constraint::IntentId)
            }
            &&& said matches Ok(record) ==> {
                &&& record.session_id == session.id
                &&& record.id == if wished {
                    held.id
                } else {
                    fresh_id
                }
                &&& record.tmux_session == name
                &&& record.channel == input.channel
                &&& record.thread == input.thread
                &&& record.mention == input.mention
                &&& record.keywords == input.keywords
                &&& record.stale_minutes == input.stale_minutes
                &&& record.format == input.format
                &&& record.registration_source == input.registration_source
                &&& record.original_command_json == input.original_command_json
                &&& record.registered_at == input.registered_at
                &&& record.last_confirmed_at == input.last_confirmed_at
                &&& post.sessions == pre.sessions && post.baselines == pre.baselines
                    && post.migrations == pre.migrations
                &&& post.intents == pre.intents.insert(session.id, post.intents[session.id])
                &&& row_holds(post.intents[session.id], record)
            }
        }),
{
    let name = input.tmux_session;
    if pre.sessions.contains_key(name) {
        session_rows_read_field_by_field(pre.sessions[name]);
    }
}

/// Storing a wish to watch with its keywords in JSON succeeds exactly where recording it does, and
/// what is stored holds those keywords and what is said of it.
pub proof fn stored_intents_hold_what_is_said(
    pre: LedgerView,
    input: WatchIntentInputView,
    fresh_id: Seq<char>,
    keywords_json: Seq<char>,
)
    ensures
        ({
            let (post, stored) = pre.store_intent(input, fresh_id, keywords_json);
            let said = pre.recorded_intent(input, fresh_id);
            &&& stored is Ok <==> said is Ok
            &&& stored matches Err(e) ==> said->Err_0 == e && post == pre
            &&& stored matches Ok(row) ==> {
                &&& row.keywords_json == keywords_json
                &&& row_holds(row, said->Ok_0)
                &&& post.intents == pre.intents.insert(row.session_id, row)
                &&& post.sessions == pre.sessions && post.baselines == pre.baselines
                    && post.migrations == pre.migrations
            }
        }),
{
}

/// Whether a row holds what a record says, field by field, but for the keywords.
pub open spec fn row_holds(row: WatchIntentRowView, record: WatchIntentRecordView) -> bool {
    &&& row.id == record.id
    &&& row.session_id == record.session_id
    &&& row.channel == record.channel
    &&& row.thread == record.thread
    &&& row.mention == record.mention
    &&& row.stale_minutes == record.stale_minutes
    &&& row.format is Some <==> record.format is Some
    &&& row.format is Some ==> row.format->Some_0 == record.format->Some_0.text()
    &&& row.registration_source == record.registration_source.text()
    &&& row.original_command_json == record.original_command_json
    &&& row.registered_at == record.registered_at
    &&& row.last_confirmed_at == record.last_confirmed_at
}

/// Recording a registration succeeds exactly where its session and its wish to watch can be
/// recorded. The wish that is said, and that is stored, has the registration's own channel, thread,
/// mention, keywords, minutes, format, source and time; the session is an agent's that is to be
/// watched, with the owner, the place and the branch of the registration.
pub proof fn registrations_are_recorded_field_by_field(
    pre: LedgerView,
    registration: RegisteredTmuxSessionView,
    spawned_by_clawhip: bool,
    mappings: Seq<SessionOwnerMappingView>,
    original_command_json: Option<Seq<char>>,
    fresh: FreshValuesView,
)
    requires
        pre.valid(),
    ensures
        ({
            let name = registration.session;
            let known = pre.sessions.contains_key(name);
            let held = pre.sessions[name];
            let wished = known && pre.intents.contains_key(held.id);
            let owner = inferred_owner(registration.routing.repo_name, mappings);
            let said = pre.recorded_registration(
                registration,
                spawned_by_clawhip,
                mappings,
                original_command_json,
                fresh,
            );
            let post = pre.record_registration(
                registration,
                spawned_by_clawhip,
                mappings,
                original_command_json,
                fresh,
            ).0;
            &&& said is Ok <==> shows(name) && (known ==> labels_are_known(held)) && (!known
                ==> session_id_is_free(pre, fresh.session_id)) && owner.text().len() > 0 && (wished
                ==> intent_of_row(pre.intents[held.id], name) is Ok) && (!wished
                ==> intent_id_is_free(pre, fresh.intent_id)) && registration.stale_minutes
                <= 0x7fff_ffff_ffff_ffff
            &&& said matches Ok((session, intent)) ==> {
                &&& intent.tmux_session == name
                &&& intent.session_id == session.id
                &&& intent.channel == registration.channel
                &&& intent.thread == registration.thread
                &&& intent.mention == registration.mention
                &&& intent.keywords == registration.keywords
                &&& intent.stale_minutes == registration.stale_minutes
                &&& intent.format == registration.format
                &&& intent.registration_source == registration.registration_source
                &&& intent.registered_at == registration.registered_at
                &&& intent.original_command_json == original_command_json
                &&& intent.last_confirmed_at == Some(fresh.confirmed)
                &&& wished ==> intent.id == pre.intents[held.id].id
                &&& !wished ==> intent.id == fresh.intent_id
                &&& post.intent_row(name) is Some
                &&& row_holds(post.intent_row(name)->Some_0, intent)
                &&& post.intent(name) matches Ok(Some(read)) ==> {
                    &&& read.channel == registration.channel
                    &&& read.thread == registration.thread
                    &&& read.mention == registration.mention
                    &&& read.stale_minutes == registration.stale_minutes
                    &&& read.format == registration.format
                    &&& read.registration_source == registration.registration_source
                    &&& read.registered_at == registration.registered_at
                }
                &&& post.session(name) == Ok::<Option<SessionRecordView>, LedgerErrorView>(
                    Some(session),
                )
                &&& session.tmux_session == name
                &&& session.tmux_pane is None
                &&& session.kind == SessionKind::Agent
                &&& session.owner.text() == owner.text()
                &&& session.project_path == registration.routing.worktree_path
                &&& session.repo_name == registration.routing.repo_name
                &&& session.branch == registration.routing.branch
                &&& session.spawned_by_clawhip <==> spawned_by_clawhip || (known
                    && held.spawned_by_clawhip)
                &&& session.expected_watch
                &&& session.state == SessionState::Unknown
                &&& session.workflow_status == WorkflowStatus::Active
                &&& session.last_seen_at == Some(fresh.seen)
                &&& session.updated_at == fresh.now
                &&& known ==> session.id == held.id && session.created_at == held.created_at
                &&& !known ==> session.id == fresh.session_id && session.created_at == fresh.now
            }
        }),
{
    let name = registration.session;
    let first = registered_session(registration, spawned_by_clawhip, mappings, fresh.seen);
    let second = registered_intent(registration, original_command_json, fresh.confirmed);
    let (between, session) = pre.upsert_session(first, fresh.session_id, fresh.now);
    sessions_are_recorded_field_by_field(pre, first, fresh.session_id, fresh.now);
    intents_are_recorded_field_by_field(between, second, fresh.intent_id);
    if session is Ok {
        session_rows_read_field_by_field(between.sessions[name]);
        assert(between.intents == pre.intents);
        assert(intent_id_is_free(between, fresh.intent_id) == intent_id_is_free(
            pre,
            fresh.intent_id,
        ));
        if !pre.sessions.contains_key(name) && pre.intents.contains_key(fresh.session_id) {
            assert(pre.has_session_id(fresh.session_id));
        }
        registration.registration_source.label_reads_back();
        if let Some(format) = registration.format {
            format.label_reads_back();
        }
    }
}

/// What a registration leaves in the ledger is what is said of it.
pub proof fn registrations_read_back(
    ledger: LedgerView,
    name: Seq<char>,
    session: SessionRecordView,
    intent: WatchIntentRecordView,
)
    requires
        registration_reads_back(ledger, name, session, intent),
    ensures
        ledger.session(name) == Ok::<Option<SessionRecordView>, LedgerErrorView>(Some(session)),
        ledger.intent(name) == Ok::<Option<WatchIntentRecordView>, LedgerErrorView>(Some(intent)),
        intent.session_id == session.id,
{
}

/// A session without a repository has the unknown owner; else it has the owner of the first mapping
/// for exactly that repository, and the unknown owner where there is none.
pub proof fn owners_come_from_the_first_mapping(
    repo: Seq<char>,
    mappings: Seq<SessionOwnerMappingView>,
    k: int,
)
    ensures
        inferred_owner(None, mappings) == SessionOwnerView::Unknown,
        (forall|i: int| 0 <= i < mappings.len() ==> (#[trigger] mappings[i]).repo != repo)
            ==> inferred_owner(Some(repo), mappings) == SessionOwnerView::Unknown,
        0 <= k < mappings.len() && mappings[k].repo == repo && (forall|i: int|
            0 <= i < k ==> (#[trigger] mappings[i]).repo != repo) ==> inferred_owner(
            Some(repo),
            mappings,
        ) == SessionOwnerView::Named(mappings[k].owner),
{
    if forall|i: int| 0 <= i < mappings.len() ==> (#[trigger] mappings[i]).repo != repo {
        unmapped_repository_has_unknown_owner(repo, mappings);
    }
    if 0 <= k < mappings.len() && mappings[k].repo == repo && (forall|i: int|
        0 <= i < k ==> (#[trigger] mappings[i]).repo != repo) {
        first_mapping_names_the_owner(repo, mappings, k);
    }
}

/// Whether two records say the same but for the state, the workflow status and the time of the
/// change.
pub open spec fn same_session(a: SessionRecordView, b: SessionRecordView) -> bool {
    &&& a.id == b.id
    &&& a.tmux_session == b.tmux_session
    &&& a.tmux_pane == b.tmux_pane
    &&& a.kind == b.kind
    &&& a.owner == b.owner
    &&& a.project_path == b.project_path
    &&& a.repo_name == b.repo_name
    &&& a.branch == b.branch
    &&& a.spawned_by_clawhip == b.spawned_by_clawhip
    &&& a.expected_watch == b.expected_watch
    &&& a.created_at == b.created_at
    &&& a.last_seen_at == b.last_seen_at
}

/// Setting the monitoring state of a session that can be read leaves it with that state, changed at
/// that time, and otherwise as it was; a session that is not there is said to be unknown, and
/// nothing changes.
pub proof fn states_are_set_alone(
    pre: LedgerView,
    name: Seq<char>,
    state: SessionState,
    now: Seq<char>,
)
    requires
        pre.valid(),
    ensures
        ({
            let (post, said) = pre.set_session_state(name, state, now);
            &&& !pre.sessions.contains_key(name) ==> post == pre && said == Err::<
                SessionRecordView,
                LedgerErrorView,
            >(LedgerErrorView::UnknownSession(name))
            &&& pre.session(name) matches Ok(Some(held)) ==> (said matches Ok(record) && record.state
                == state && record.workflow_status == held.workflow_status && record.updated_at
                == now && same_session(record, held) && post.session(name) == Ok::<
                Option<SessionRecordView>,
                LedgerErrorView,
            >(Some(record)))
            &&& post.intents == pre.intents && post.baselines == pre.baselines && post.migrations
                == pre.migrations
        }),
{
    state.label_reads_back();
}

/// Setting the workflow status of a session leaves it with that status, changed at that time, and
/// otherwise as it was; a session that is not there is said to be unknown, and nothing changes.
pub proof fn workflow_statuses_are_set_alone(
    pre: LedgerView,
    name: Seq<char>,
    workflow_status: WorkflowStatus,
    now: Seq<char>,
)
    requires
        pre.valid(),
    ensures
        ({
            let (post, said) = pre.set_workflow_status(name, workflow_status, now);
            &&& !pre.sessions.contains_key(name) ==> post == pre && said == Err::<
                SessionRecordView,
                LedgerErrorView,
            >(LedgerErrorView::UnknownSession(name))
            &&& pre.session(name) matches Ok(Some(held)) ==> (said matches Ok(record)
                && record.workflow_status == workflow_status && record.state == held.state
                && record.updated_at == now && same_session(record, held) && post.session(name)
                == Ok::<Option<SessionRecordView>, LedgerErrorView>(Some(record)))
            &&& post.intents == pre.intents && post.baselines == pre.baselines && post.migrations
                == pre.migrations
        }),
{
    workflow_status.label_reads_back();
}

/// A state that was set now is the state that was asked for.
pub proof fn states_set_now_are_those_asked_for(
    pre: LedgerView,
    post: LedgerView,
    name: Seq<char>,
    state: SessionState,
    res: Result<SessionRecord, LedgerError>,
    held: SessionRecordView,
)
    requires
        pre.valid(),
        state_was_set(pre, post, name, state, res),
        pre.session(name) == Ok::<Option<SessionRecordView>, LedgerErrorView>(Some(held)),
    ensures
        res matches Ok(record) && record@.state == state && record@.workflow_status
            == held.workflow_status && same_session(record@, held),
        post.session(name) == Ok::<Option<SessionRecordView>, LedgerErrorView>(
            Some(res->Ok_0@),
        ),
{
    let now = choose|now: Seq<char>| #[trigger]
        clock_text(now) && post == pre.set_session_state(name, state, now).0
            && outcome_is(res, pre.set_session_state(name, state, now).1);
    states_are_set_alone(pre, name, state, now);
}

/// A workflow status that was set now is the one that was asked for.
pub proof fn workflow_statuses_set_now_are_those_asked_for(
    pre: LedgerView,
    post: LedgerView,
    name: Seq<char>,
    workflow_status: WorkflowStatus,
    res: Result<SessionRecord, LedgerError>,
    held: SessionRecordView,
)
    requires
        pre.valid(),
        workflow_was_set(pre, post, name, workflow_status, res),
        pre.session(name) == Ok::<Option<SessionRecordView>, LedgerErrorView>(Some(held)),
    ensures
        res matches Ok(record) && record@.workflow_status == workflow_status && record@.state
            == held.state && same_session(record@, held),
        post.session(name) == Ok::<Option<SessionRecordView>, LedgerErrorView>(
            Some(res->Ok_0@),
        ),
{
    let now = choose|now: Seq<char>| #[trigger]
        clock_text(now) && post == pre.set_workflow_status(
            name,
            workflow_status,
            now,
        ).0 && outcome_is(
            res,
            pre.set_workflow_status(name, workflow_status, now).1,
        );
    workflow_statuses_are_set_alone(pre, name, workflow_status, now);
}

/// A migration changes the workflow status of a session in two ways and nothing else of it: active
/// work of a retired session is retired, and a label of an earlier version becomes active. It
/// leaves the watch intents and the baselines alone, and records the version where it is not
/// recorded yet.
pub proof fn migrations_change_two_labels(pre: LedgerView, now: Seq<char>, name: Seq<char>)
    ensures
        ({
            let post = pre.migrate(now);
            let before = pre.sessions[name];
            let after = post.sessions[name];
            let earlier = before.workflow_status == "failed"@ || before.workflow_status
                == "interrupted"@ || before.workflow_status == "abandoned"@;
            let retiring = before.state == "retired"@ && before.workflow_status == "active"@;
            &&& post.sessions.contains_key(name) <==> pre.sessions.contains_key(name)
            &&& pre.sessions.contains_key(name) ==> {
                &&& retiring ==> after.workflow_status == "retired"@
                &&& !retiring && earlier ==> after.workflow_status == "active"@
                &&& !retiring && !earlier ==> after.workflow_status == before.workflow_status
                &&& after == (SessionRowView { workflow_status: after.workflow_status, ..before })
            }
            &&& post.intents == pre.intents
            &&& post.baselines == pre.baselines
            &&& post.migrations.contains_key(2)
            &&& pre.migrations.contains_key(2) ==> post.migrations == pre.migrations
            &&& !pre.migrations.contains_key(2) ==> post.migrations[2].applied_at == now
                && post.migrations[2].version == 2 && post.migrations.remove(2) == pre.migrations
        }),
{
    let post = pre.migrate(now);
    if !pre.migrations.contains_key(2) {
        assert(post.migrations.remove(2) =~= pre.migrations);
    }
}

/// A baseline is set with its text and time under its path alone.
pub proof fn baselines_are_set_alone(
    pre: LedgerView,
    repo_path: Seq<char>,
    payload: Seq<char>,
    now: Seq<char>,
    other: Seq<char>,
)
    ensures
        ({
            let post = pre.set_baseline(repo_path, payload, now);
            &&& post.baseline(repo_path) == Some(payload)
            &&& post.baselines[repo_path].updated_at == now
            &&& other != repo_path ==> post.baseline(other) == pre.baseline(other)
            &&& post.sessions == pre.sessions && post.intents == pre.intents && post.migrations
                == pre.migrations
        }),
{
}

/// The minutes that a signed column holds are read as the unsigned number of the same bits.
pub proof fn minutes_keep_their_bits(n: i64)
    ensures
        0 <= stored_minutes(n) <= u64::MAX,
        n >= 0 ==> stored_minutes(n) == n,
        n < 0 ==> stored_minutes(n) - 0x1_0000_0000_0000_0000 == n,
{
}

/// What is said of a refusal names what was refused.
pub proof fn refusals_name_what_was_refused(s: Seq<char>, n: u64)
    ensures
        LedgerErrorView::InvalidWorkflowStatus(s).text() == "invalid workflow status '"@ + s + "'"@,
        LedgerErrorView::InvalidSessionKind(s).text() == "invalid session kind '"@ + s + "'"@,
        LedgerErrorView::InvalidSessionState(s).text() == "invalid session state '"@ + s + "'"@,
        LedgerErrorView::InvalidRegistrationSource(s).text() == "invalid registration source '"@ + s
            + "'"@,
        LedgerErrorView::InvalidMessageFormat(s).text() == "invalid message format '"@ + s + "'"@,
        LedgerErrorView::InvalidKeywords(s).text() == s,
        LedgerErrorView::EmptySessionOwner.text() == "session owner cannot be empty"@,
        LedgerErrorView::EmptySessionName.text() == "tmux session cannot be empty"@,
        LedgerErrorView::UnknownSession(s).text() == "unknown session '"@ + s + "'"@,
        LedgerErrorView::UnknownWatchSession(s).text()
            == "cannot store watch intent for unknown session '"@ + s + "'"@,
        LedgerErrorView::StaleMinutesTooLarge(n).text()
            == "out of range integral type conversion attempted"@,
        LedgerErrorView::ConstraintFailed(Constraint::SessionId).text()
            == "UNIQUE constraint failed: sessions.id"@,
        LedgerErrorView::ConstraintFailed(Constraint::SessionName).text()
            == "UNIQUE constraint failed: sessions.tmux_session"@,
        LedgerErrorView::ConstraintFailed(Constraint::IntentId).text()
            == "UNIQUE constraint failed: watch_intents.id"@,
        LedgerErrorView::ConstraintFailed(Constraint::IntentSession).text()
            == "UNIQUE constraint failed: watch_intents.session_id"@,
        LedgerErrorView::ConstraintFailed(Constraint::IntentReference).text()
            == "FOREIGN KEY constraint failed"@,
        LedgerErrorView::ConstraintFailed(Constraint::BaselinePath).text()
            == "UNIQUE constraint failed: github_issue_baselines.repo_path"@,
        LedgerErrorView::ConstraintFailed(Constraint::MigrationVersion).text()
            == "UNIQUE constraint failed: schema_migrations.version"@,
{
}

/// What is said has the value, or the refusal, that is expected, and never the one for the other.
pub proof fn outcomes_are_as_expected<T: View>(
    res: Result<T, LedgerError>,
    expected: Result<T::V, LedgerErrorView>,
)
    requires
        outcome_is(res, expected),
    ensures
        res is Ok <==> expected is Ok,
        res is Ok ==> res->Ok_0@ == expected->Ok_0,
        res is Err ==> res->Err_0@ == expected->Err_0,
{
}

/// What is found is what is expected, and nothing is found exactly where nothing is expected.
pub proof fn finds_are_as_expected<T: View>(
    res: Result<Option<T>, LedgerError>,
    expected: Result<Option<T::V>, LedgerErrorView>,
)
    requires
        found_is(res, expected),
    ensures
        res is Ok <==> expected is Ok,
        res is Ok ==> (res->Ok_0 is Some <==> expected->Ok_0 is Some),
        res is Ok && res->Ok_0 is Some ==> res->Ok_0->Some_0@ == expected->Ok_0->Some_0,
        res is Err ==> res->Err_0@ == expected->Err_0,
{
}

/// A list has as many records as are expected, each in its place.
pub proof fn lists_are_as_expected<T: View>(
    res: Result<Vec<T>, LedgerError>,
    expected: Result<Seq<T::V>, LedgerErrorView>,
    i: int,
)
    requires
        list_is(res, expected),
    ensures
        res is Ok <==> expected is Ok,
        res is Ok ==> res->Ok_0@.len() == expected->Ok_0.len(),
        res is Ok && 0 <= i < res->Ok_0@.len() ==> res->Ok_0@[i]@ == expected->Ok_0[i],
        res is Err ==> res->Err_0@ == expected->Err_0,
{
    if res is Ok && 0 <= i < res->Ok_0@.len() {
        assert(res->Ok_0@.map_values(|r: T| r@)[i] == res->Ok_0@[i]@);
    }
}

/// A session name is refused exactly where it shows nothing, and then for that.
pub proof fn names_that_show_something_are_taken(name: Seq<char>, res: Result<(), LedgerError>)
    requires
        name_outcome(name, res),
    ensures
        res is Ok <==> shows(name),
        res is Err ==> res->Err_0@ == LedgerErrorView::EmptySessionName,
{
}

/// The versions that a ledger lists rise, and they are those that it has recorded.
pub proof fn versions_rise(ledger: LedgerView, versions: Seq<i64>, i: int, j: int, version: i64)
    requires
        ledger.versions_in_order(versions),
    ensures
        0 <= i < j < versions.len() ==> versions[i] < versions[j],
        ledger.migrations.contains_key(version) <==> exists|k: int|
            0 <= k < versions.len() && #[trigger] versions[k] == version,
{
    assert(versions.contains(version) <==> ledger.migrations.contains_key(version));
}

/// The statements on a table name it, and the one that adds a column names the column and its
/// definition, each in its place.
pub proof fn statements_name_the_table(
    table: Seq<char>,
    column: Seq<char>,
    definition: Seq<char>,
)
    ensures
        ({
            let asked = table_info(table);
            let added = add_column(table, column, definition);
            let n = table.len() as int;
            let m = column.len() as int;
            &&& asked.len() == n + 19
            &&& asked.take(18) == "PRAGMA table_info("@
            &&& asked.subrange(18, 18 + n) == table
            &&& asked.last() == ')'
            &&& added.len() == n + m + definition.len() + 25
            &&& added.take(12) == "ALTER TABLE "@
            &&& added.subrange(12, 12 + n) == table
            &&& added.subrange(12 + n, 24 + n) == " ADD COLUMN "@
            &&& added.subrange(24 + n, 24 + n + m) == column
            &&& added[24 + n + m] == ' '
            &&& added.skip(25 + n + m) == definition
        }),
{
    reveal_strlit("PRAGMA table_info(");
    reveal_strlit(")");
    reveal_strlit("ALTER TABLE ");
    reveal_strlit(" ADD COLUMN ");
    reveal_strlit(" ");
    let asked = table_info(table);
    let added = add_column(table, column, definition);
    let n = table.len() as int;
    let m = column.len() as int;
    assert(asked.take(18) =~= "PRAGMA table_info("@);
    assert(asked.subrange(18, 18 + n) =~= table);
    assert(added.take(12) =~= "ALTER TABLE "@);
    assert(added.subrange(12, 12 + n) =~= table);
    assert(added.subrange(12 + n, 24 + n) =~= " ADD COLUMN "@);
    assert(added.subrange(24 + n, 24 + n + m) =~= column);
    assert(added.skip(25 + n + m) =~= definition);
}

} // verus!
