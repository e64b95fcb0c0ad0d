//! The tables of the ledger and what each operation makes of them.

use vstd::prelude::*;
use vstd::string::*;

use crate::error::{Constraint, LedgerErrorView};
use crate::keyed::Keyed;
use crate::outside::{parsed_string_list, string_list_json};
use crate::records::{
    intent_of_row, session_of_row, SessionInputView, SessionRecordView, SessionRowView,
    WatchIntentInputView, WatchIntentRecordView, WatchIntentRowView,
};
use crate::registration::{
    registered_intent, registered_session, RegisteredTmuxSessionView, SessionOwnerMappingView,
};
use crate::status::{SessionState, WorkflowStatus};
use crate::text::{blank, text_lt};

verus! {

/// The schema version that a migrated ledger has.
pub const SCHEMA_VERSION: i64 = 2;

/// The issues of a repository as they were last seen, as it is stored.
#[derive(Debug, PartialEq, Eq)]
pub struct BaselineRow {
    pub repo_path: String,
    pub payload: String,
    pub updated_at: String,
}

/// [`BaselineRow`] with its strings as characters.
#[verifier::ext_equal]
pub struct BaselineRowView {
    pub repo_path: Seq<char>,
    pub payload: Seq<char>,
    pub updated_at: Seq<char>,
}

impl View for BaselineRow {
    type V = BaselineRowView;

    open spec fn view(&self) -> BaselineRowView {
        BaselineRowView {
            repo_path: self.repo_path@,
            payload: self.payload@,
            updated_at: self.updated_at@,
        }
    }
}

impl Clone for BaselineRow {
    fn clone(&self) -> (copy: BaselineRow)
        ensures
            copy@ == self@,
    {
        BaselineRow {
            repo_path: self.repo_path.clone(),
            payload: self.payload.clone(),
            updated_at: self.updated_at.clone(),
        }
    }
}

/// A schema version and when it was applied, as it is stored.
#[derive(Debug, PartialEq, Eq)]
pub struct MigrationRow {
    pub version: i64,
    pub applied_at: String,
}

/// [`MigrationRow`] with its strings as characters.
#[verifier::ext_equal]
pub struct MigrationRowView {
    pub version: i64,
    pub applied_at: Seq<char>,
}

impl View for MigrationRow {
    type V = MigrationRowView;

    open spec fn view(&self) -> MigrationRowView {
        MigrationRowView {
            version: self.version,
            applied_at: self.applied_at@,
        }
    }
}

impl Clone for MigrationRow {
    fn clone(&self) -> (copy: MigrationRow)
        ensures
            copy@ == self@,
    {
        MigrationRow {
            version: self.version,
            applied_at: self.applied_at.clone(),
        }
    }
}

impl Keyed<Seq<char>> for SessionRowView {
    /// No two sessions share a tmux session name.
    open spec fn key(self) -> Seq<char> {
        self.tmux_session
    }
}

impl Keyed<Seq<char>> for WatchIntentRowView {
    /// No session has two watch intents.
    open spec fn key(self) -> Seq<char> {
        self.session_id
    }
}

impl Keyed<Seq<char>> for BaselineRowView {
    /// No repository path has two baselines.
    open spec fn key(self) -> Seq<char> {
        self.repo_path
    }
}

impl Keyed<i64> for MigrationRowView {
    /// No schema version is recorded twice.
    open spec fn key(self) -> i64 {
        self.version
    }
}

/// The tables of the ledger.
#[verifier::ext_equal]
pub struct LedgerView {
    /// The sessions, by tmux session name.
    pub sessions: Map<Seq<char>, SessionRowView>,
    /// The watch intents, by the id of their session.
    pub intents: Map<Seq<char>, WatchIntentRowView>,
    /// The issue baselines, by repository path.
    pub baselines: Map<Seq<char>, BaselineRowView>,
    /// The applied migrations, by schema version.
    pub migrations: Map<i64, MigrationRowView>,
}

/// What is stored of `input`, given what is stored of the session of that name. The id and the time
/// of creation stay, and so does it that clawhip spawned the session.
pub open spec fn merged_session(
    existing: Option<SessionRowView>,
    input: SessionInputView,
    fresh_id: Seq<char>,
    now: Seq<char>,
) -> SessionRowView {
    SessionRowView {
        id: match existing {
            Some(row) => row.id,
            None => fresh_id,
        },
        tmux_session: input.tmux_session,
        tmux_pane: input.tmux_pane,
        kind: input.kind.text(),
        owner: input.owner.text(),
        project_path: input.project_path,
        repo_name: input.repo_name,
        branch: input.branch,
        spawned_by_clawhip: input.spawned_by_clawhip || (existing matches Some(row)
            && row.spawned_by_clawhip),
        expected_watch: input.expected_watch,
        state: input.state.text(),
        workflow_status: input.workflow_status.text(),
        created_at: match existing {
            Some(row) => row.created_at,
            None => now,
        },
        updated_at: now,
        last_seen_at: input.last_seen_at,
    }
}

/// What is stored of `input` for the session with the id `session_id`, its keywords in JSON.
pub open spec fn intent_row(
    input: WatchIntentInputView,
    id: Seq<char>,
    session_id: Seq<char>,
    keywords_json: Seq<char>,
) -> WatchIntentRowView {
    WatchIntentRowView {
        id,
        session_id,
        channel: input.channel,
        thread: input.thread,
        mention: input.mention,
        keywords_json,
        stale_minutes: input.stale_minutes as i64,
        format: match input.format {
            Some(format) => Some(format.text()),
            None => None,
        },
        registration_source: input.registration_source.text(),
        original_command_json: input.original_command_json,
        registered_at: input.registered_at,
        last_confirmed_at: input.last_confirmed_at,
    }
}

/// The record of `input` under the id `id`, for the session with the id `session_id`.
pub open spec fn intent_record(
    input: WatchIntentInputView,
    id: Seq<char>,
    session_id: Seq<char>,
) -> WatchIntentRecordView {
    WatchIntentRecordView {
        id,
        session_id,
        tmux_session: input.tmux_session,
        channel: input.channel,
        thread: input.thread,
        mention: input.mention,
        keywords: input.keywords,
        stale_minutes: input.stale_minutes,
        format: input.format,
        registration_source: input.registration_source,
        original_command_json: input.original_command_json,
        registered_at: input.registered_at,
        last_confirmed_at: input.last_confirmed_at,
    }
}

/// A watch intent reads back as it was recorded, where its keyword list does.
pub proof fn stored_intent_reads_back(
    input: WatchIntentInputView,
    id: Seq<char>,
    session_id: Seq<char>,
    keywords_json: Seq<char>,
)
    requires
        input.stale_minutes <= i64::MAX,
        parsed_string_list(keywords_json) is Ok,
        parsed_string_list(keywords_json)->Ok_0 == input.keywords,
    ensures
        intent_of_row(intent_row(input, id, session_id, keywords_json), input.tmux_session) == Ok::<
            WatchIntentRecordView,
            LedgerErrorView,
        >(intent_record(input, id, session_id)),
{
    input.registration_source.label_reads_back();
    if let Some(format) = input.format {
        format.label_reads_back();
    }
}

/// Whether `status` is a workflow status of an earlier version.
pub open spec fn retired_label(status: Seq<char>) -> bool {
    status == "failed"@ || status == "interrupted"@ || status == "abandoned"@
}

/// What a migration makes of a workflow status.
pub open spec fn migrated_status(state: Seq<char>, status: Seq<char>) -> Seq<char> {
    if state == "retired"@ && status == "active"@ {
        "retired"@
    } else if retired_label(status) {
        "active"@
    } else {
        status
    }
}

/// What a migration makes of a stored session.
pub open spec fn migrated_session(row: SessionRowView) -> SessionRowView {
    SessionRowView { workflow_status: migrated_status(row.state, row.workflow_status), ..row }
}

/// Whether the names stand in order, none twice.
pub open spec fn sorted_names(names: Seq<Seq<char>>) -> bool {
    forall|i: int, j: int|
        0 <= i < j < names.len() ==> text_lt(#[trigger] names[i], #[trigger] names[j])
}

/// All the results, or the first error among them.
pub open spec fn collected<R>(outcomes: Seq<Result<R, LedgerErrorView>>) -> Result<
    Seq<R>,
    LedgerErrorView,
>
    decreases outcomes.len(),
{
    if outcomes.len() == 0 {
        Ok(Seq::empty())
    } else {
        match collected(outcomes.drop_last()) {
            Err(e) => Err(e),
            Ok(list) => match outcomes.last() {
                Err(e) => Err(e),
                Ok(r) => Ok(list.push(r)),
            },
        }
    }
}

pub proof fn lemma_collected_step<R>(outcomes: Seq<Result<R, LedgerErrorView>>, i: int)
    requires
        0 <= i < outcomes.len(),
        collected(outcomes.take(i)) is Ok,
    ensures
        match outcomes[i] {
            Ok(r) => collected(outcomes.take(i + 1)) == Ok::<Seq<R>, LedgerErrorView>(
                collected(outcomes.take(i))->Ok_0.push(r),
            ),
            Err(e) => collected(outcomes) == Err::<Seq<R>, LedgerErrorView>(e),
        },
{
    assert(outcomes.take(i + 1).drop_last() =~= outcomes.take(i));
    if let Err(e) = outcomes[i] {
        lemma_collected_error(outcomes, i + 1, e);
        assert(outcomes.take(outcomes.len() as int) =~= outcomes);
    }
}

pub proof fn lemma_collected_fails<R>(outcomes: Seq<Result<R, LedgerErrorView>>) -> (at: int)
    requires
        collected(outcomes) is Err,
    ensures
        0 <= at < outcomes.len(),
        outcomes[at] is Err,
    decreases outcomes.len(),
{
    let rest = outcomes.drop_last();
    if collected(rest) is Err {
        let at = lemma_collected_fails(rest);
        assert(rest[at] == outcomes[at]);
        at
    } else {
        outcomes.len() - 1
    }
}

pub proof fn lemma_collected_all<R>(outcomes: Seq<Result<R, LedgerErrorView>>)
    requires
        collected(outcomes) is Ok,
    ensures
        collected(outcomes)->Ok_0.len() == outcomes.len(),
        forall|i: int|
            0 <= i < outcomes.len() ==> #[trigger] outcomes[i] == Ok::<R, LedgerErrorView>(
                collected(outcomes)->Ok_0[i],
            ),
    decreases outcomes.len(),
{
    if outcomes.len() > 0 {
        let rest = outcomes.drop_last();
        lemma_collected_all(rest);
        assert forall|i: int| 0 <= i < outcomes.len() implies #[trigger] outcomes[i] == Ok::<
            R,
            LedgerErrorView,
        >(collected(outcomes)->Ok_0[i]) by {
            if i < rest.len() {
                assert(rest[i] == outcomes[i]);
            }
        }
    }
}

proof fn lemma_collected_error<R>(
    outcomes: Seq<Result<R, LedgerErrorView>>,
    i: int,
    e: LedgerErrorView,
)
    requires
        0 <= i <= outcomes.len(),
        collected(outcomes.take(i)) == Err::<Seq<R>, LedgerErrorView>(e),
    ensures
        collected(outcomes) == Err::<Seq<R>, LedgerErrorView>(e),
    decreases outcomes.len() - i,
{
    if i < outcomes.len() {
        assert(outcomes.take(i + 1).drop_last() =~= outcomes.take(i));
        lemma_collected_error(outcomes, i + 1, e);
    } else {
        assert(outcomes.take(i) =~= outcomes);
    }
}

impl LedgerView {
    /// No rows at all.
    pub open spec fn empty() -> LedgerView {
        LedgerView {
            sessions: Map::empty(),
            intents: Map::empty(),
            baselines: Map::empty(),
            migrations: Map::empty(),
        }
    }

    /// Whether a session has the id `id`.
    pub open spec fn has_session_id(self, id: Seq<char>) -> bool {
        exists|name: Seq<char>| #[trigger]
            self.sessions.contains_key(name) && self.sessions[name].id == id
    }

    /// Whether a watch intent has the id `id`.
    pub open spec fn has_intent_id(self, id: Seq<char>) -> bool {
        exists|session_id: Seq<char>| #[trigger]
            self.intents.contains_key(session_id) && self.intents[session_id].id == id
    }

    /// The constraints of the tables: every row stands under its own key, ids are not shared, and
    /// every watch intent belongs to a session.
    pub open spec fn valid(self) -> bool {
        &&& forall|k: Seq<char>| #[trigger]
            self.sessions.contains_key(k) ==> self.sessions[k].tmux_session == k
        &&& forall|k: Seq<char>, l: Seq<char>| #[trigger]
            self.sessions.contains_key(k) && #[trigger] self.sessions.contains_key(l)
                && self.sessions[k].id == self.sessions[l].id ==> k == l
        &&& forall|k: Seq<char>| #[trigger]
            self.intents.contains_key(k) ==> self.intents[k].session_id == k
                && self.has_session_id(k)
        &&& forall|k: Seq<char>, l: Seq<char>| #[trigger]
            self.intents.contains_key(k) && #[trigger] self.intents.contains_key(l)
                && self.intents[k].id == self.intents[l].id ==> k == l
        &&& forall|k: Seq<char>| #[trigger]
            self.baselines.contains_key(k) ==> self.baselines[k].repo_path == k
        &&& forall|v: i64| #[trigger]
            self.migrations.contains_key(v) ==> self.migrations[v].version == v
    }

    /// What is stored of the session `name`.
    pub open spec fn session_row(self, name: Seq<char>) -> Option<SessionRowView> {
        if self.sessions.contains_key(name) {
            Some(self.sessions[name])
        } else {
            None
        }
    }

    /// What is stored of the wish to watch the session `name`.
    pub open spec fn intent_row(self, name: Seq<char>) -> Option<WatchIntentRowView> {
        if self.sessions.contains_key(name) && self.intents.contains_key(self.sessions[name].id) {
            Some(self.intents[self.sessions[name].id])
        } else {
            None
        }
    }

    /// The session `name`, where there is one; an error where its row holds a label that stands for
    /// nothing.
    pub open spec fn session(self, name: Seq<char>) -> Result<
        Option<SessionRecordView>,
        LedgerErrorView,
    > {
        match self.session_row(name) {
            None => Ok(None),
            Some(row) => match session_of_row(row) {
                Ok(record) => Ok(Some(record)),
                Err(e) => Err(e),
            },
        }
    }

    /// The watch intent of the session `name`, where there is one; an error where its row cannot be
    /// read.
    pub open spec fn intent(self, name: Seq<char>) -> Result<
        Option<WatchIntentRecordView>,
        LedgerErrorView,
    > {
        match self.intent_row(name) {
            None => Ok(None),
            Some(row) => match intent_of_row(row, name) {
                Ok(record) => Ok(Some(record)),
                Err(e) => Err(e),
            },
        }
    }

    /// The baseline of a repository, where there is one.
    pub open spec fn baseline(self, repo_path: Seq<char>) -> Option<Seq<char>> {
        if self.baselines.contains_key(repo_path) {
            Some(self.baselines[repo_path].payload)
        } else {
            None
        }
    }

    /// Whether every stored session reads as a record.
    pub open spec fn sessions_readable(self) -> bool {
        forall|name: Seq<char>| #[trigger]
            self.sessions.contains_key(name) ==> session_of_row(self.sessions[name]) is Ok
    }

    /// Whether every stored watch intent reads as a record.
    pub open spec fn intents_readable(self) -> bool {
        forall|name: Seq<char>|
            (#[trigger] self.intent_row(name)) is Some ==> self.intent(name) is Ok
    }

    /// Whether `versions` are the schema versions that are applied, in order, none twice.
    pub open spec fn versions_in_order(self, versions: Seq<i64>) -> bool {
        &&& forall|i: int, j: int|
            0 <= i < j < versions.len() ==> #[trigger] versions[i] < #[trigger] versions[j]
        &&& forall|v: i64| #[trigger] versions.contains(v) <==> self.migrations.contains_key(v)
    }

    /// Whether `names` are the names of the sessions, in order, none twice.
    pub open spec fn session_names(self, names: Seq<Seq<char>>) -> bool {
        &&& sorted_names(names)
        &&& forall|name: Seq<char>| #[trigger]
            names.contains(name) <==> self.sessions.contains_key(name)
    }

    /// Whether `names` are the names of the sessions that have a watch intent, in order, none twice.
    pub open spec fn watched_names(self, names: Seq<Seq<char>>) -> bool {
        &&& sorted_names(names)
        &&& forall|name: Seq<char>| #[trigger]
            names.contains(name) <==> self.intent_row(name) is Some
    }

    /// What each of the sessions `names` reads as.
    pub open spec fn session_outcomes(self, names: Seq<Seq<char>>) -> Seq<
        Result<SessionRecordView, LedgerErrorView>,
    > {
        names.map_values(|name: Seq<char>| session_of_row(self.sessions[name]))
    }

    /// What each of the watch intents of the sessions `names` reads as.
    pub open spec fn intent_outcomes(self, names: Seq<Seq<char>>) -> Seq<
        Result<WatchIntentRecordView, LedgerErrorView>,
    > {
        names.map_values(|name: Seq<char>| intent_of_row(self.intent_row(name)->Some_0, name))
    }

    /// The sessions `names`, or the first error among them.
    pub open spec fn listed_sessions(self, names: Seq<Seq<char>>) -> Result<
        Seq<SessionRecordView>,
        LedgerErrorView,
    > {
        collected(self.session_outcomes(names))
    }

    /// The watch intents of the sessions `names`, or the first error among them.
    pub open spec fn listed_intents(self, names: Seq<Seq<char>>) -> Result<
        Seq<WatchIntentRecordView>,
        LedgerErrorView,
    > {
        collected(self.intent_outcomes(names))
    }

    /// Whether `list` holds every session once, as it reads by its name, in the order of the names.
    pub open spec fn lists_sessions(self, list: Seq<SessionRecordView>) -> bool {
        &&& forall|i: int, j: int|
            0 <= i < j < list.len() ==> text_lt(
                (#[trigger] list[i]).tmux_session,
                (#[trigger] list[j]).tmux_session,
            )
        &&& forall|i: int|
            0 <= i < list.len() ==> self.session((#[trigger] list[i]).tmux_session) == Ok::<
                Option<SessionRecordView>,
                LedgerErrorView,
            >(Some(list[i]))
        &&& forall|name: Seq<char>| #[trigger]
            self.sessions.contains_key(name) ==> exists|i: int|
                0 <= i < list.len() && (#[trigger] list[i]).tmux_session == name
    }

    /// Whether `list` holds every watch intent once, as it reads by the name of its session, in the
    /// order of the names.
    pub open spec fn lists_intents(self, list: Seq<WatchIntentRecordView>) -> bool {
        &&& forall|i: int, j: int|
            0 <= i < j < list.len() ==> text_lt(
                (#[trigger] list[i]).tmux_session,
                (#[trigger] list[j]).tmux_session,
            )
        &&& forall|i: int|
            0 <= i < list.len() ==> self.intent((#[trigger] list[i]).tmux_session) == Ok::<
                Option<WatchIntentRecordView>,
                LedgerErrorView,
            >(Some(list[i]))
        &&& forall|name: Seq<char>|
            (#[trigger] self.intent_row(name)) is Some ==> exists|i: int|
                0 <= i < list.len() && (#[trigger] list[i]).tmux_session == name
    }

    /// The ledger with the stored session `row` in the place of what it had under that name.
    pub open spec fn with_session(self, row: SessionRowView) -> LedgerView {
        LedgerView { sessions: self.sessions.insert(row.tmux_session, row), ..self }
    }

    /// The ledger with the stored watch intent `row` in the place of what it had for that session.
    pub open spec fn with_intent(self, row: WatchIntentRowView) -> LedgerView {
        LedgerView { intents: self.intents.insert(row.session_id, row), ..self }
    }

    /// Records a session: what the ledger is then, and what is said.
    pub open spec fn upsert_session(
        self,
        input: SessionInputView,
        fresh_id: Seq<char>,
        now: Seq<char>,
    ) -> (LedgerView, Result<SessionRecordView, LedgerErrorView>) {
        if blank(input.tmux_session) {
            (self, Err(LedgerErrorView::EmptySessionName))
        } else {
            match self.session(input.tmux_session) {
                Err(e) => (self, Err(e)),
                Ok(found) => if found is None && self.has_session_id(fresh_id) {
                    (self, Err(LedgerErrorView::ConstraintFailed(Constraint::SessionId)))
                } else {
                    let row = merged_session(
                        self.session_row(input.tmux_session),
                        input,
                        fresh_id,
                        now,
                    );
                    (self.with_session(row), session_of_row(row))
                },
            }
        }
    }

    /// Records the wish to watch a session, given the keywords in JSON: what the ledger is then, and
    /// what is stored or what stands in the way.
    pub open spec fn store_intent(
        self,
        input: WatchIntentInputView,
        fresh_id: Seq<char>,
        keywords_json: Seq<char>,
    ) -> (LedgerView, Result<WatchIntentRowView, LedgerErrorView>) {
        if blank(input.tmux_session) {
            (self, Err(LedgerErrorView::EmptySessionName))
        } else {
            match self.session(input.tmux_session) {
                Err(e) => (self, Err(e)),
                Ok(None) => (self, Err(LedgerErrorView::UnknownWatchSession(input.tmux_session))),
                Ok(Some(session)) => match self.intent(input.tmux_session) {
                    Err(e) => (self, Err(e)),
                    Ok(found) => if input.stale_minutes > i64::MAX {
                        (self, Err(LedgerErrorView::StaleMinutesTooLarge(input.stale_minutes)))
                    } else if found is None && self.has_intent_id(fresh_id) {
                        (self, Err(LedgerErrorView::ConstraintFailed(Constraint::IntentId)))
                    } else {
                        let id = match found {
                            Some(record) => record.id,
                            None => fresh_id,
                        };
                        let row = intent_row(input, id, session.id, keywords_json);
                        (self.with_intent(row), Ok(row))
                    },
                },
            }
        }
    }

    /// Records the wish to watch a session: what the ledger is then, and what is said.
    pub open spec fn upsert_watch_intent(
        self,
        input: WatchIntentInputView,
        fresh_id: Seq<char>,
    ) -> (LedgerView, Result<WatchIntentRecordView, LedgerErrorView>) {
        let (after, stored) = self.store_intent(input, fresh_id, string_list_json(input.keywords));
        (
            after,
            match stored {
                Err(e) => Err(e),
                Ok(row) => intent_of_row(row, input.tmux_session),
            },
        )
    }

    /// What is said of recording the wish to watch a session: the wish as it was given, under the id
    /// that is stored; or what stands in the way.
    pub open spec fn recorded_intent(self, input: WatchIntentInputView, fresh_id: Seq<char>) -> Result<
        WatchIntentRecordView,
        LedgerErrorView,
    > {
        match self.store_intent(input, fresh_id, string_list_json(input.keywords)).1 {
            Err(e) => Err(e),
            Ok(row) => Ok(intent_record(input, row.id, row.session_id)),
        }
    }

    /// What is said of recording a registration: its session and its wish to watch; or what stands in
    /// the way of the one or of the other.
    pub open spec fn recorded_registration(
        self,
        registration: RegisteredTmuxSessionView,
        spawned_by_clawhip: bool,
        mappings: Seq<SessionOwnerMappingView>,
        original_command_json: Option<Seq<char>>,
        fresh: FreshValuesView,
    ) -> Result<(SessionRecordView, WatchIntentRecordView), LedgerErrorView> {
        let (between, session) = self.upsert_session(
            registered_session(registration, spawned_by_clawhip, mappings, fresh.seen),
            fresh.session_id,
            fresh.now,
        );
        match session {
            Err(e) => Err(e),
            Ok(session) => match between.recorded_intent(
                registered_intent(registration, original_command_json, fresh.confirmed),
                fresh.intent_id,
            ) {
                Err(e) => Err(e),
                Ok(intent) => Ok((session, intent)),
            },
        }
    }

    /// Records a registration: its session and, where that succeeds, its wish to watch.
    pub open spec fn record_registration(
        self,
        registration: RegisteredTmuxSessionView,
        spawned_by_clawhip: bool,
        mappings: Seq<SessionOwnerMappingView>,
        original_command_json: Option<Seq<char>>,
        fresh: FreshValuesView,
    ) -> (LedgerView, Result<(SessionRecordView, WatchIntentRecordView), LedgerErrorView>) {
        let (between, session) = self.upsert_session(
            registered_session(registration, spawned_by_clawhip, mappings, fresh.seen),
            fresh.session_id,
            fresh.now,
        );
        match session {
            Err(e) => (between, Err(e)),
            Ok(session) => {
                let (after, intent) = between.upsert_watch_intent(
                    registered_intent(registration, original_command_json, fresh.confirmed),
                    fresh.intent_id,
                );
                (
                    after,
                    match intent {
                        Err(e) => Err(e),
                        Ok(intent) => Ok((session, intent)),
                    },
                )
            },
        }
    }

    /// Changes what is stored of the session `name`, where there is such a session.
    pub open spec fn change_session(
        self,
        name: Seq<char>,
        change: spec_fn(SessionRowView) -> SessionRowView,
    ) -> (LedgerView, Result<SessionRecordView, LedgerErrorView>) {
        match self.session_row(name) {
            None => (self, Err(LedgerErrorView::UnknownSession(name))),
            Some(row) => (self.with_session(change(row)), session_of_row(change(row))),
        }
    }

    /// Sets the monitoring state of the session `name`.
    pub open spec fn set_session_state(
        self,
        name: Seq<char>,
        state: SessionState,
        now: Seq<char>,
    ) -> (LedgerView, Result<SessionRecordView, LedgerErrorView>) {
        self.change_session(
            name,
            |row: SessionRowView|
                SessionRowView { state: state.text(), updated_at: now, ..row },
        )
    }

    /// Sets the workflow status of the session `name`.
    pub open spec fn set_workflow_status(
        self,
        name: Seq<char>,
        workflow_status: WorkflowStatus,
        now: Seq<char>,
    ) -> (LedgerView, Result<SessionRecordView, LedgerErrorView>) {
        self.change_session(
            name,
            |row: SessionRowView|
                SessionRowView {
                    workflow_status: workflow_status.text(),
                    updated_at: now,
                    ..row
                },
        )
    }

    /// Sets the baseline of a repository.
    pub open spec fn set_baseline(
        self,
        repo_path: Seq<char>,
        payload: Seq<char>,
        now: Seq<char>,
    ) -> LedgerView {
        LedgerView {
            baselines: self.baselines.insert(
                repo_path,
                BaselineRowView { repo_path, payload, updated_at: now },
            ),
            ..self
        }
    }

    /// Brings the stored sessions up to the current schema version and records it, where it is not
    /// recorded yet.
    pub open spec fn migrate(self, now: Seq<char>) -> LedgerView {
        LedgerView {
            sessions: self.sessions.map_values(|row: SessionRowView| migrated_session(row)),
            migrations: if self.migrations.contains_key(SCHEMA_VERSION) {
                self.migrations
            } else {
                self.migrations.insert(
                    SCHEMA_VERSION,
                    MigrationRowView { version: SCHEMA_VERSION, applied_at: now },
                )
            },
            ..self
        }
    }
}

/// The identifiers and times that one registration takes.
#[derive(Debug)]
pub struct FreshValues {
    /// When the session is seen.
    pub seen: String,
    /// The id of the session, where it is not known yet.
    pub session_id: String,
    /// When the session is recorded.
    pub now: String,
    /// When the wish to watch is confirmed.
    pub confirmed: String,
    /// The id of the watch intent, where there is none yet.
    pub intent_id: String,
}

/// [`FreshValues`] with its strings as characters.
#[verifier::ext_equal]
pub struct FreshValuesView {
    pub seen: Seq<char>,
    pub session_id: Seq<char>,
    pub now: Seq<char>,
    pub confirmed: Seq<char>,
    pub intent_id: Seq<char>,
}

impl View for FreshValues {
    type V = FreshValuesView;

    open spec fn view(&self) -> FreshValuesView {
        FreshValuesView {
            seen: self.seen@,
            session_id: self.session_id@,
            now: self.now@,
            confirmed: self.confirmed@,
            intent_id: self.intent_id@,
        }
    }
}

pub proof fn lemma_with_session_valid(pre: LedgerView, row: SessionRowView)
    requires
        pre.valid(),
        match pre.session_row(row.tmux_session) {
            Some(old) => old.id == row.id,
            None => !pre.has_session_id(row.id),
        },
    ensures
        pre.with_session(row).valid(),
        forall|id: Seq<char>| pre.has_session_id(id) ==> pre.with_session(row).has_session_id(id),
{
    let post = pre.with_session(row);
    let name = row.tmux_session;
    assert forall|k: Seq<char>, l: Seq<char>| #[trigger]
        post.sessions.contains_key(k) && #[trigger] post.sessions.contains_key(l)
            && post.sessions[k].id == post.sessions[l].id implies k == l by {
        if k != name {
            assert(pre.sessions.contains_key(k));
        }
        if l != name {
            assert(pre.sessions.contains_key(l));
        }
        if pre.sessions.contains_key(name) {
            assert(pre.sessions[name].id == row.id);
        }
    }
    assert forall|id: Seq<char>| pre.has_session_id(id) implies post.has_session_id(id) by {
        let k = choose|k: Seq<char>| #[trigger]
            pre.sessions.contains_key(k) && pre.sessions[k].id == id;
        assert(post.sessions.contains_key(k) && post.sessions[k].id == id);
    }
    assert forall|k: Seq<char>| #[trigger] post.intents.contains_key(k) implies
        post.intents[k].session_id == k && post.has_session_id(k) by {
        assert(pre.intents.contains_key(k));
        assert(pre.has_session_id(k));
    }
}

pub proof fn lemma_with_intent_valid(pre: LedgerView, row: WatchIntentRowView)
    requires
        pre.valid(),
        pre.has_session_id(row.session_id),
        if pre.intents.contains_key(row.session_id) {
            pre.intents[row.session_id].id == row.id
        } else {
            !pre.has_intent_id(row.id)
        },
    ensures
        pre.with_intent(row).valid(),
{
    let post = pre.with_intent(row);
    let name = row.session_id;
    assert(forall|id: Seq<char>| #[trigger] pre.has_session_id(id) ==> post.has_session_id(id)) by {
        assert forall|id: Seq<char>| #[trigger] pre.has_session_id(id) implies post.has_session_id(
            id,
        ) by {
            let k = choose|k: Seq<char>| #[trigger]
                pre.sessions.contains_key(k) && pre.sessions[k].id == id;
            assert(post.sessions.contains_key(k));
        }
    }
    assert forall|k: Seq<char>| #[trigger] post.intents.contains_key(k) implies
        post.intents[k].session_id == k && post.has_session_id(k) by {
        if k != name {
            assert(pre.intents.contains_key(k));
            assert(pre.has_session_id(k));
        }
    }
    assert forall|k: Seq<char>, l: Seq<char>| #[trigger]
        post.intents.contains_key(k) && #[trigger] post.intents.contains_key(l)
            && post.intents[k].id == post.intents[l].id implies k == l by {
        if k != name {
            assert(pre.intents.contains_key(k));
        }
        if l != name {
            assert(pre.intents.contains_key(l));
        }
        if pre.intents.contains_key(name) {
            assert(pre.intents[name].id == row.id);
        }
    }
}

pub proof fn lemma_set_baseline_valid(
    pre: LedgerView,
    repo_path: Seq<char>,
    payload: Seq<char>,
    now: Seq<char>,
)
    requires
        pre.valid(),
    ensures
        pre.set_baseline(repo_path, payload, now).valid(),
{
    lemma_same_sessions_valid(pre, pre.set_baseline(repo_path, payload, now));
}

pub proof fn lemma_same_sessions_valid(pre: LedgerView, post: LedgerView)
    requires
        pre.valid(),
        post.sessions == pre.sessions,
        post.intents == pre.intents,
        forall|k: Seq<char>| #[trigger]
            post.baselines.contains_key(k) ==> post.baselines[k].repo_path == k,
        forall|v: i64| #[trigger]
            post.migrations.contains_key(v) ==> post.migrations[v].version == v,
    ensures
        post.valid(),
{
    assert forall|k: Seq<char>| #[trigger] post.intents.contains_key(k) implies
        post.intents[k].session_id == k && post.has_session_id(k) by {
        assert(pre.intents.contains_key(k));
        assert(pre.has_session_id(k));
        let name = choose|name: Seq<char>| #[trigger]
            pre.sessions.contains_key(name) && pre.sessions[name].id == k;
        assert(post.sessions.contains_key(name));
    }
}

pub proof fn lemma_migrated_sessions_valid(pre: LedgerView)
    requires
        pre.valid(),
    ensures
        (LedgerView {
            sessions: pre.sessions.map_values(|row: SessionRowView| migrated_session(row)),
            ..pre
        }).valid(),
{
    let post = LedgerView {
        sessions: pre.sessions.map_values(|row: SessionRowView| migrated_session(row)),
        ..pre
    };
    assert forall|k: Seq<char>, l: Seq<char>| #[trigger]
        post.sessions.contains_key(k) && #[trigger] post.sessions.contains_key(l)
            && post.sessions[k].id == post.sessions[l].id implies k == l by {
        assert(pre.sessions.contains_key(k) && pre.sessions.contains_key(l));
    }
    assert forall|k: Seq<char>| #[trigger] post.sessions.contains_key(k) implies
        post.sessions[k].tmux_session == k by {
        assert(pre.sessions.contains_key(k));
    }
    assert forall|k: Seq<char>| #[trigger] post.intents.contains_key(k) implies
        post.intents[k].session_id == k && post.has_session_id(k) by {
        assert(pre.intents.contains_key(k));
        assert(pre.has_session_id(k));
        let name = choose|name: Seq<char>| #[trigger]
            pre.sessions.contains_key(name) && pre.sessions[name].id == k;
        assert(post.sessions.contains_key(name) && post.sessions[name].id == k);
    }
}

} // verus!
