//! The ledger of sessions, watch intents and issue baselines.

use vstd::prelude::*;
use vstd::string::*;

use crate::error::{Constraint, LedgerError, LedgerErrorView};
use crate::keyed::{
    by_key, has_key, lemma_by_key_at, lemma_by_key_insert, lemma_by_key_map, lemma_by_key_update,
    unique_keys,
};
use crate::laws::{listed_intents_read_by_name, listed_sessions_read_by_name};
use crate::outside::{clock_text, new_id, now_rfc3339, strings_to_json, uuid_text};
use crate::records::{
    intent_list, map_session, map_watch_intent, outcome_is, session_list, session_of_row,
    SessionInput, SessionRecord, SessionRecordView, SessionRow, SessionRowView, WatchIntentInput,
    WatchIntentRecord, WatchIntentRecordView, WatchIntentRow, WatchIntentRowView,
};
use crate::registration::{mapping_views, RegisteredTmuxSession, SessionOwnerMapping};
use crate::status::{SessionState, WorkflowStatus};
use crate::tables::{
    collected, lemma_collected_step, lemma_migrated_sessions_valid,
    lemma_same_sessions_valid, lemma_set_baseline_valid, migrated_session, retired_label,
    sorted_names, stored_intent_reads_back, BaselineRow, BaselineRowView, FreshValues,
    FreshValuesView, LedgerView, MigrationRow, MigrationRowView, SCHEMA_VERSION,
};
use crate::text::{
    clone_opt, is_text_le, opt_view, str_eq, text_le, text_le_is_total, text_le_is_transitive,
    text_lt, views,
};

verus! {

/// The ledger: what is known of the sessions, of the wishes to watch them and of the issues of
/// repositories, as stored rows.
pub struct Ledger {
    sessions: Vec<SessionRow>,
    intents: Vec<WatchIntentRow>,
    baselines: Vec<BaselineRow>,
    migrations: Vec<MigrationRow>,
}

spec fn session_views(rows: Seq<SessionRow>) -> Seq<SessionRowView> {
    rows.map_values(|row: SessionRow| row@)
}

spec fn intent_views(rows: Seq<WatchIntentRow>) -> Seq<WatchIntentRowView> {
    rows.map_values(|row: WatchIntentRow| row@)
}

spec fn baseline_views(rows: Seq<BaselineRow>) -> Seq<BaselineRowView> {
    rows.map_values(|row: BaselineRow| row@)
}

spec fn migration_views(rows: Seq<MigrationRow>) -> Seq<MigrationRowView> {
    rows.map_values(|row: MigrationRow| row@)
}

/// Whether the rows stand in the order of their names, no name twice.
spec fn by_name(rows: Seq<SessionRowView>) -> bool {
    forall|i: int, j: int|
        0 <= i < j < rows.len() ==> text_lt(
            (#[trigger] rows[i]).tmux_session,
            (#[trigger] rows[j]).tmux_session,
        )
}

/// Whether the rows stand in the order of their versions, no version twice.
spec fn by_version(rows: Seq<MigrationRowView>) -> bool {
    forall|i: int, j: int|
        0 <= i < j < rows.len() ==> (#[trigger] rows[i]).version < (#[trigger] rows[j]).version
}

impl View for Ledger {
    type V = LedgerView;

    closed spec fn view(&self) -> LedgerView {
        LedgerView {
            sessions: by_key(session_views(self.sessions@)),
            intents: by_key(intent_views(self.intents@)),
            baselines: by_key(baseline_views(self.baselines@)),
            migrations: by_key(migration_views(self.migrations@)),
        }
    }
}

/// Whether what was looked up is what a specification says it is.
pub open spec fn found_is<T: View>(
    res: Result<Option<T>, LedgerError>,
    expected: Result<Option<T::V>, LedgerErrorView>,
) -> bool {
    match expected {
        Ok(Some(x)) => res matches Ok(Some(y)) && y@ == x,
        Ok(None) => res matches Ok(None),
        Err(e) => res matches Err(f) && f@ == e,
    }
}

/// Whether the monitoring state of a session was set at a time that the clock gave, and what was
/// said of it.
pub open spec fn state_was_set(
    pre: LedgerView,
    post: LedgerView,
    name: Seq<char>,
    state: SessionState,
    res: Result<SessionRecord, LedgerError>,
) -> bool {
    exists|now: Seq<char>| #[trigger]
        clock_text(now) && post == pre.set_session_state(name, state, now).0 && outcome_is(
            res,
            pre.set_session_state(name, state, now).1,
        )
}

/// Whether the workflow status of a session was set at a time that the clock gave, and what was
/// said of it.
pub open spec fn workflow_was_set(
    pre: LedgerView,
    post: LedgerView,
    name: Seq<char>,
    workflow_status: WorkflowStatus,
    res: Result<SessionRecord, LedgerError>,
) -> bool {
    exists|now: Seq<char>| #[trigger]
        clock_text(now) && post == pre.set_workflow_status(name, workflow_status, now).0
            && outcome_is(res, pre.set_workflow_status(name, workflow_status, now).1)
}

/// Whether a change was refused because of the constraint `c`.
pub open spec fn refused(res: Result<(), LedgerError>, c: Constraint) -> bool {
    res matches Err(e) && e@ == LedgerErrorView::ConstraintFailed(c)
}

/// Whether a list is what a specification says it is.
pub open spec fn list_is<T: View>(
    res: Result<Vec<T>, LedgerError>,
    expected: Result<Seq<T::V>, LedgerErrorView>,
) -> bool {
    match expected {
        Ok(list) => res matches Ok(records) && records@.map_values(|r: T| r@) == list,
        Err(e) => res matches Err(f) && f@ == e,
    }
}

/// Whether the session `name` and its watch intent read back as the two records, the one belonging
/// to the other.
pub open spec fn registration_reads_back(
    ledger: LedgerView,
    name: Seq<char>,
    session: SessionRecordView,
    intent: WatchIntentRecordView,
) -> bool {
    &&& intent.session_id == session.id
    &&& ledger.session(name) == Ok::<Option<SessionRecordView>, LedgerErrorView>(Some(session))
    &&& ledger.intent(name) == Ok::<Option<WatchIntentRecordView>, LedgerErrorView>(Some(intent))
}

/// Whether `status` is a workflow status of an earlier version.
fn is_retired_label(status: &str) -> (yes: bool)
    ensures
        yes == retired_label(status@),
{
    str_eq(status, "failed") || str_eq(status, "interrupted") || str_eq(status, "abandoned")
}

/// Whether the identifiers and times are such as the clock and the random source give.
pub open spec fn given_now(fresh: FreshValuesView) -> bool {
    &&& clock_text(fresh.seen)
    &&& uuid_text(fresh.session_id)
    &&& clock_text(fresh.now)
    &&& clock_text(fresh.confirmed)
    &&& uuid_text(fresh.intent_id)
}

proof fn lemma_by_name_unique(rows: Seq<SessionRowView>)
    requires
        by_name(rows),
    ensures
        unique_keys::<Seq<char>, SessionRowView>(rows),
{
    assert forall|i: int, j: int|
        0 <= i < rows.len() && 0 <= j < rows.len() && #[trigger] crate::keyed::Keyed::<
            Seq<char>,
        >::key(rows[i]) == #[trigger] crate::keyed::Keyed::<Seq<char>>::key(rows[j]) implies i
        == j by {
        if i < j {
            assert(text_lt(rows[i].tmux_session, rows[j].tmux_session));
        } else if j < i {
            assert(text_lt(rows[j].tmux_session, rows[i].tmux_session));
        }
    }
}

proof fn lemma_by_version_unique(rows: Seq<MigrationRowView>)
    requires
        by_version(rows),
    ensures
        unique_keys::<i64, MigrationRowView>(rows),
{
    assert forall|i: int, j: int|
        0 <= i < rows.len() && 0 <= j < rows.len() && #[trigger] crate::keyed::Keyed::<i64>::key(
            rows[i],
        ) == #[trigger] crate::keyed::Keyed::<i64>::key(rows[j]) implies i == j by {
        if i < j {
            assert(rows[i].version < rows[j].version);
        } else if j < i {
            assert(rows[j].version < rows[i].version);
        }
    }
}

impl Ledger {
    /// Whether the rows are in order and satisfy the constraints of the tables.
    pub closed spec fn wf(&self) -> bool {
        &&& by_name(session_views(self.sessions@))
        &&& unique_keys::<Seq<char>, WatchIntentRowView>(intent_views(self.intents@))
        &&& unique_keys::<Seq<char>, BaselineRowView>(baseline_views(self.baselines@))
        &&& by_version(migration_views(self.migrations@))
        &&& self@.valid()
    }

    /// The tables of a well-formed ledger satisfy their constraints.
    pub proof fn wf_is_valid(&self)
        requires
            self.wf(),
        ensures
            self@.valid(),
    {
    }

    fn find_session(&self, name: &str) -> (found: Option<usize>)
        requires
            self.wf(),
        ensures
            match found {
                Some(i) => i < self.sessions@.len() && self.sessions@[i as int]@.tmux_session
                    == name@ && self@.session_row(name@) == Some(self.sessions@[i as int]@),
                None => !has_key(session_views(self.sessions@), name@) && self@.session_row(name@)
                    is None,
            },
    {
        let ghost rows = session_views(self.sessions@);
        let mut i: usize = 0;
        while i < self.sessions.len()
            invariant
                i <= self.sessions@.len(),
                self.wf(),
                rows == session_views(self.sessions@),
                forall|j: int| 0 <= j < i ==> (#[trigger] rows[j]).tmux_session != name@,
            decreases self.sessions.len() - i,
        {
            if str_eq(self.sessions[i].tmux_session.as_str(), name) {
                proof {
                    lemma_by_name_unique(rows);
                    lemma_by_key_at::<Seq<char>, SessionRowView>(rows, i as int);
                    assert(rows[i as int] == self.sessions@[i as int]@);
                }
                return Some(i);
            }
            assert(rows[i as int] == self.sessions@[i as int]@);
            i = i + 1;
        }
        assert(!has_key(rows, name@));
        None
    }

    /// The session `tmux_session`, where there is one.
    pub fn session_by_name(&self, tmux_session: &str) -> (res: Result<
        Option<SessionRecord>,
        LedgerError,
    >)
        requires
            self.wf(),
        ensures
            found_is(res, self@.session(tmux_session@)),
    {
        match self.find_session(tmux_session) {
            None => Ok(None),
            Some(i) => Ok(Some(map_session(&self.sessions[i])?)),
        }
    }

    fn has_session_id(&self, id: &str) -> (yes: bool)
        requires
            self.wf(),
        ensures
            yes == self@.has_session_id(id@),
    {
        let ghost rows = session_views(self.sessions@);
        proof {
            lemma_by_name_unique(rows);
        }
        let mut i: usize = 0;
        while i < self.sessions.len()
            invariant
                i <= self.sessions@.len(),
                rows == session_views(self.sessions@),
                self@.sessions == by_key::<Seq<char>, SessionRowView>(rows),
                unique_keys::<Seq<char>, SessionRowView>(rows),
                forall|j: int| 0 <= j < i ==> (#[trigger] rows[j]).id != id@,
            decreases self.sessions.len() - i,
        {
            assert(rows[i as int] == self.sessions@[i as int]@);
            if str_eq(self.sessions[i].id.as_str(), id) {
                proof {
                    lemma_by_key_at::<Seq<char>, SessionRowView>(rows, i as int);
                    assert(self@.sessions.contains_key(rows[i as int].tmux_session));
                }
                return true;
            }
            i = i + 1;
        }
        proof {
            if self@.has_session_id(id@) {
                let name = choose|name: Seq<char>| #[trigger]
                    self@.sessions.contains_key(name) && self@.sessions[name].id == id@;
                assert(has_key(rows, name));
                let j = choose|j: int|
                    0 <= j < rows.len() && #[trigger] crate::keyed::Keyed::<Seq<char>>::key(rows[j])
                        == name;
                lemma_by_key_at::<Seq<char>, SessionRowView>(rows, j);
                assert(rows[j].id == id@);
            }
        }
        false
    }

    fn put_session(&mut self, row: SessionRow)
        requires
            old(self).wf(),
            match old(self)@.session_row(row@.tmux_session) {
                Some(held) => held.id == row@.id,
                None => !old(self)@.has_session_id(row@.id),
            },
        ensures
            final(self).wf(),
            final(self)@ == old(self)@.with_session(row@),
    {
        let ghost rows = session_views(self.sessions@);
        let ghost name = row@.tmux_session;
        let ghost new = row@;
        proof {
            lemma_by_name_unique(rows);
            crate::tables::lemma_with_session_valid(self@, row@);
        }
        match self.find_session(row.tmux_session.as_str()) {
            Some(i) => {
                proof {
                    assert(rows[i as int] == self.sessions@[i as int]@);
                    lemma_by_key_update::<Seq<char>, SessionRowView>(rows, i as int, new);
                }
                self.sessions.set(i, row);
                assert(session_views(self.sessions@) =~= rows.update(i as int, new));
                assert forall|a: int, b: int| 0 <= a < b < rows.len() implies text_lt(
                    (#[trigger] rows.update(i as int, new)[a]).tmux_session,
                    (#[trigger] rows.update(i as int, new)[b]).tmux_session,
                ) by {
                    assert(text_lt(rows[a].tmux_session, rows[b].tmux_session));
                }
                assert(self@ =~= old(self)@.with_session(new));
            },
            None => {
                let mut p: usize = 0;
                while p < self.sessions.len() && !is_text_le(
                    row.tmux_session.as_str(),
                    self.sessions[p].tmux_session.as_str(),
                )
                    invariant
                        p <= self.sessions@.len(),
                        self.wf(),
                        *self == *old(self),
                        name == row@.tmux_session,
                        rows == session_views(self.sessions@),
                        forall|j: int|
                            0 <= j < p ==> !text_le(name, (#[trigger] rows[j]).tmux_session),
                    decreases self.sessions.len() - p,
                {
                    assert(rows[p as int] == self.sessions@[p as int]@);
                    p = p + 1;
                }
                let ghost after = rows.insert(p as int, new);
                proof {
                    lemma_by_key_insert::<Seq<char>, SessionRowView>(rows, p as int, new);
                    assert forall|a: int, b: int| 0 <= a < b < after.len() implies text_lt(
                        (#[trigger] after[a]).tmux_session,
                        (#[trigger] after[b]).tmux_session,
                    ) by {
                        let x = if a < p { a } else { a - 1 };
                        let y = if b < p { b } else { b - 1 };
                        if a != p && b != p {
                            assert(text_lt(rows[x].tmux_session, rows[y].tmux_session));
                        } else if b == p {
                            text_le_is_total(name, rows[x].tmux_session);
                            assert(crate::keyed::Keyed::<Seq<char>>::key(rows[x])
                                == rows[x].tmux_session);
                        } else {
                            assert(rows[p as int] == self.sessions@[p as int]@);
                            if y > p {
                                assert(text_lt(
                                    rows[p as int].tmux_session,
                                    rows[y].tmux_session,
                                ));
                                text_le_is_transitive(
                                    name,
                                    rows[p as int].tmux_session,
                                    rows[y].tmux_session,
                                );
                            }
                            assert(crate::keyed::Keyed::<Seq<char>>::key(rows[y])
                                == rows[y].tmux_session);
                        }
                    }
                }
                self.sessions.insert(p, row);
                assert(session_views(self.sessions@) =~= after);
                assert(self@ =~= old(self)@.with_session(new));
            },
        }
    }

    /// Records a session at `now`; where it is not known yet, under the id `fresh_id`.
    pub fn upsert_session_at(&mut self, input: SessionInput, fresh_id: String, now: String) -> (res:
        Result<SessionRecord, LedgerError>)
        requires
            old(self).wf(),
        ensures
            final(self).wf(),
            final(self)@ == old(self)@.upsert_session(input@, fresh_id@, now@).0,
            outcome_is(res, old(self)@.upsert_session(input@, fresh_id@, now@).1),
            res matches Ok(record) ==> final(self)@.session(input@.tmux_session) == Ok::<
                Option<SessionRecordView>,
                LedgerErrorView,
            >(Some(record@)),
    {
        input.validate()?;
        self.session_by_name(input.tmux_session.as_str())?;
        let found = self.find_session(input.tmux_session.as_str());
        if found.is_none() && self.has_session_id(fresh_id.as_str()) {
            return Err(LedgerError::ConstraintFailed(Constraint::SessionId));
        }
        let (id, created_at, spawned) = match found {
            Some(i) => {
                let row = &self.sessions[i];
                (row.id.clone(), row.created_at.clone(), row.spawned_by_clawhip)
            },
            None => (fresh_id, now.clone(), false),
        };
        let row = SessionRow {
            id,
            tmux_session: input.tmux_session,
            tmux_pane: input.tmux_pane,
            kind: input.kind.as_str().to_owned(),
            owner: input.owner.as_str().to_owned(),
            project_path: input.project_path,
            repo_name: input.repo_name,
            branch: input.branch,
            spawned_by_clawhip: input.spawned_by_clawhip || spawned,
            expected_watch: input.expected_watch,
            state: input.state.as_str().to_owned(),
            workflow_status: input.workflow_status.as_str().to_owned(),
            created_at,
            updated_at: now,
            last_seen_at: input.last_seen_at,
        };
        assert(row@ =~= crate::tables::merged_session(
            self@.session_row(input@.tmux_session),
            input@,
            fresh_id@,
            now@,
        ));
        let record = map_session(&row);
        self.put_session(row);
        record
    }

    /// Records a session now.
    pub fn upsert_session(&mut self, input: SessionInput) -> (res: Result<
        SessionRecord,
        LedgerError,
    >)
        requires
            old(self).wf(),
        ensures
            final(self).wf(),
            exists|fresh_id: Seq<char>, now: Seq<char>|
                uuid_text(fresh_id) && clock_text(now) && {
                    let outcome = #[trigger] old(self)@.upsert_session(input@, fresh_id, now);
                    final(self)@ == outcome.0 && outcome_is(res, outcome.1)
                },
            res matches Ok(record) ==> final(self)@.session(input@.tmux_session) == Ok::<
                Option<SessionRecordView>,
                LedgerErrorView,
            >(Some(record@)),
    {
        let fresh_id = new_id();
        let now = now_rfc3339();
        let ghost outcome = self@.upsert_session(input@, fresh_id@, now@);
        self.upsert_session_at(input, fresh_id, now)
    }

    /// Sets the monitoring state of a session at `now`.
    pub fn set_session_state_at(
        &mut self,
        tmux_session: &str,
        state: SessionState,
        now: String,
    ) -> (res: Result<SessionRecord, LedgerError>)
        requires
            old(self).wf(),
        ensures
            final(self).wf(),
            final(self)@ == old(self)@.set_session_state(tmux_session@, state, now@).0,
            outcome_is(res, old(self)@.set_session_state(tmux_session@, state, now@).1),
    {
        match self.find_session(tmux_session) {
            None => Err(LedgerError::UnknownSession(tmux_session.to_owned())),
            Some(i) => {
                let mut row = self.sessions[i].clone();
                row.state = state.as_str().to_owned();
                row.updated_at = now;
                let record = map_session(&row);
                self.put_session(row);
                record
            },
        }
    }

    /// Sets the workflow status of a session at `now`.
    pub fn set_workflow_status_at(
        &mut self,
        tmux_session: &str,
        workflow_status: WorkflowStatus,
        now: String,
    ) -> (res: Result<SessionRecord, LedgerError>)
        requires
            old(self).wf(),
        ensures
            final(self).wf(),
            final(self)@ == old(self)@.set_workflow_status(
                tmux_session@,
                workflow_status,
                now@,
            ).0,
            outcome_is(
                res,
                old(self)@.set_workflow_status(tmux_session@, workflow_status, now@).1,
            ),
    {
        match self.find_session(tmux_session) {
            None => Err(LedgerError::UnknownSession(tmux_session.to_owned())),
            Some(i) => {
                let mut row = self.sessions[i].clone();
                row.workflow_status = workflow_status.as_str().to_owned();
                row.updated_at = now;
                let record = map_session(&row);
                self.put_session(row);
                record
            },
        }
    }

    /// Sets the monitoring state of a session now.
    pub fn set_session_state(&mut self, tmux_session: &str, state: SessionState) -> (res: Result<
        SessionRecord,
        LedgerError,
    >)
        requires
            old(self).wf(),
        ensures
            final(self).wf(),
            state_was_set(old(self)@, final(self)@, tmux_session@, state, res),
    {
        let now = now_rfc3339();
        let ghost moment = now@;
        let res = self.set_session_state_at(tmux_session, state, now);
        assert(clock_text(moment));
        res
    }

    /// Sets the workflow status of a session now.
    pub fn set_workflow_status(
        &mut self,
        tmux_session: &str,
        workflow_status: WorkflowStatus,
    ) -> (res: Result<SessionRecord, LedgerError>)
        requires
            old(self).wf(),
        ensures
            final(self).wf(),
            workflow_was_set(old(self)@, final(self)@, tmux_session@, workflow_status, res),
    {
        let now = now_rfc3339();
        let ghost moment = now@;
        let res = self.set_workflow_status_at(tmux_session, workflow_status, now);
        assert(clock_text(moment));
        res
    }

    /// Takes a session off the watch while it lives.
    pub fn mark_ignored(&mut self, tmux_session: &str) -> (res: Result<SessionRecord, LedgerError>)
        requires
            old(self).wf(),
        ensures
            final(self).wf(),
            state_was_set(
                old(self)@,
                final(self)@,
                tmux_session@,
                SessionState::IgnoredAlive,
                res,
            ),
    {
        self.set_session_state(tmux_session, SessionState::IgnoredAlive)
    }

    /// Records that the work of a session is done.
    pub fn complete_session(&mut self, tmux_session: &str) -> (res: Result<SessionRecord, LedgerError>)
        requires
            old(self).wf(),
        ensures
            final(self).wf(),
            workflow_was_set(
                old(self)@,
                final(self)@,
                tmux_session@,
                WorkflowStatus::Completed,
                res,
            ),
    {
        self.set_workflow_status(tmux_session, WorkflowStatus::Completed)
    }

    /// Records that the work of a session waits for a review.
    pub fn mark_needs_review(&mut self, tmux_session: &str) -> (res: Result<SessionRecord, LedgerError>)
        requires
            old(self).wf(),
        ensures
            final(self).wf(),
            workflow_was_set(
                old(self)@,
                final(self)@,
                tmux_session@,
                WorkflowStatus::NeedsReview,
                res,
            ),
    {
        self.set_workflow_status(tmux_session, WorkflowStatus::NeedsReview)
    }

    /// Records that the work of a session waits for a test.
    pub fn mark_needs_qa(&mut self, tmux_session: &str) -> (res: Result<SessionRecord, LedgerError>)
        requires
            old(self).wf(),
        ensures
            final(self).wf(),
            workflow_was_set(
                old(self)@,
                final(self)@,
                tmux_session@,
                WorkflowStatus::NeedsQa,
                res,
            ),
    {
        self.set_workflow_status(tmux_session, WorkflowStatus::NeedsQa)
    }

    /// Records that the work of a session stands in an open pull request.
    pub fn mark_pr_open(&mut self, tmux_session: &str) -> (res: Result<SessionRecord, LedgerError>)
        requires
            old(self).wf(),
        ensures
            final(self).wf(),
            workflow_was_set(
                old(self)@,
                final(self)@,
                tmux_session@,
                WorkflowStatus::PrOpen,
                res,
            ),
    {
        self.set_workflow_status(tmux_session, WorkflowStatus::PrOpen)
    }

    /// Records that the work of a session waits for its checks.
    pub fn mark_awaiting_ci(&mut self, tmux_session: &str) -> (res: Result<SessionRecord, LedgerError>)
        requires
            old(self).wf(),
        ensures
            final(self).wf(),
            workflow_was_set(
                old(self)@,
                final(self)@,
                tmux_session@,
                WorkflowStatus::AwaitingCi,
                res,
            ),
    {
        self.set_workflow_status(tmux_session, WorkflowStatus::AwaitingCi)
    }

    /// Records that the work of a session waits for a person.
    pub fn mark_awaiting_human(&mut self, tmux_session: &str) -> (res: Result<SessionRecord, LedgerError>)
        requires
            old(self).wf(),
        ensures
            final(self).wf(),
            workflow_was_set(
                old(self)@,
                final(self)@,
                tmux_session@,
                WorkflowStatus::AwaitingHuman,
                res,
            ),
    {
        self.set_workflow_status(tmux_session, WorkflowStatus::AwaitingHuman)
    }

    /// Records that the work of a session is called off.
    pub fn cancel_session(&mut self, tmux_session: &str) -> (res: Result<SessionRecord, LedgerError>)
        requires
            old(self).wf(),
        ensures
            final(self).wf(),
            workflow_was_set(
                old(self)@,
                final(self)@,
                tmux_session@,
                WorkflowStatus::Cancelled,
                res,
            ),
    {
        self.set_workflow_status(tmux_session, WorkflowStatus::Cancelled)
    }

    /// Records that other work has taken the place of that of a session.
    pub fn supersede_session(&mut self, tmux_session: &str) -> (res: Result<SessionRecord, LedgerError>)
        requires
            old(self).wf(),
        ensures
            final(self).wf(),
            workflow_was_set(
                old(self)@,
                final(self)@,
                tmux_session@,
                WorkflowStatus::Superseded,
                res,
            ),
    {
        self.set_workflow_status(tmux_session, WorkflowStatus::Superseded)
    }

    /// Records that a session is retired.
    pub fn retire_session(&mut self, tmux_session: &str) -> (res: Result<SessionRecord, LedgerError>)
        requires
            old(self).wf(),
        ensures
            final(self).wf(),
            workflow_was_set(
                old(self)@,
                final(self)@,
                tmux_session@,
                WorkflowStatus::Retired,
                res,
            ),
    {
        self.set_workflow_status(tmux_session, WorkflowStatus::Retired)
    }

    fn find_intent(&self, session_id: &str) -> (found: Option<usize>)
        requires
            self.wf(),
        ensures
            match found {
                Some(i) => i < self.intents@.len() && self.intents@[i as int]@.session_id
                    == session_id@ && self@.intents.contains_key(session_id@)
                    && self@.intents[session_id@] == self.intents@[i as int]@,
                None => !has_key(intent_views(self.intents@), session_id@)
                    && !self@.intents.contains_key(session_id@),
            },
    {
        let ghost rows = intent_views(self.intents@);
        let mut i: usize = 0;
        while i < self.intents.len()
            invariant
                i <= self.intents@.len(),
                self.wf(),
                rows == intent_views(self.intents@),
                forall|j: int| 0 <= j < i ==> (#[trigger] rows[j]).session_id != session_id@,
            decreases self.intents.len() - i,
        {
            assert(rows[i as int] == self.intents@[i as int]@);
            if str_eq(self.intents[i].session_id.as_str(), session_id) {
                proof {
                    lemma_by_key_at::<Seq<char>, WatchIntentRowView>(rows, i as int);
                }
                return Some(i);
            }
            i = i + 1;
        }
        assert(!has_key(rows, session_id@));
        None
    }

    fn has_intent_id(&self, id: &str) -> (yes: bool)
        requires
            self.wf(),
        ensures
            yes == self@.has_intent_id(id@),
    {
        let ghost rows = intent_views(self.intents@);
        let mut i: usize = 0;
        while i < self.intents.len()
            invariant
                i <= self.intents@.len(),
                rows == intent_views(self.intents@),
                self@.intents == by_key::<Seq<char>, WatchIntentRowView>(rows),
                unique_keys::<Seq<char>, WatchIntentRowView>(rows),
                forall|j: int| 0 <= j < i ==> (#[trigger] rows[j]).id != id@,
            decreases self.intents.len() - i,
        {
            assert(rows[i as int] == self.intents@[i as int]@);
            if str_eq(self.intents[i].id.as_str(), id) {
                proof {
                    lemma_by_key_at::<Seq<char>, WatchIntentRowView>(rows, i as int);
                    assert(self@.intents.contains_key(rows[i as int].session_id));
                }
                return true;
            }
            i = i + 1;
        }
        proof {
            if self@.has_intent_id(id@) {
                let k = choose|k: Seq<char>| #[trigger]
                    self@.intents.contains_key(k) && self@.intents[k].id == id@;
                assert(has_key(rows, k));
                let j = choose|j: int|
                    0 <= j < rows.len() && #[trigger] crate::keyed::Keyed::<Seq<char>>::key(rows[j])
                        == k;
                lemma_by_key_at::<Seq<char>, WatchIntentRowView>(rows, j);
                assert(rows[j].id == id@);
            }
        }
        false
    }

    fn put_intent(&mut self, row: WatchIntentRow)
        requires
            old(self).wf(),
            old(self)@.has_session_id(row@.session_id),
            if old(self)@.intents.contains_key(row@.session_id) {
                old(self)@.intents[row@.session_id].id == row@.id
            } else {
                !old(self)@.has_intent_id(row@.id)
            },
        ensures
            final(self).wf(),
            final(self)@ == old(self)@.with_intent(row@),
    {
        let ghost rows = intent_views(self.intents@);
        let ghost new = row@;
        proof {
            crate::tables::lemma_with_intent_valid(self@, row@);
        }
        match self.find_intent(row.session_id.as_str()) {
            Some(i) => {
                proof {
                    assert(rows[i as int] == self.intents@[i as int]@);
                    lemma_by_key_update::<Seq<char>, WatchIntentRowView>(rows, i as int, new);
                }
                self.intents.set(i, row);
                assert(intent_views(self.intents@) =~= rows.update(i as int, new));
                assert(self@ =~= old(self)@.with_intent(new));
            },
            None => {
                proof {
                    lemma_by_key_insert::<Seq<char>, WatchIntentRowView>(
                        rows,
                        rows.len() as int,
                        new,
                    );
                }
                self.intents.push(row);
                assert(intent_views(self.intents@) =~= rows.insert(rows.len() as int, new));
                assert(self@ =~= old(self)@.with_intent(new));
            },
        }
    }

    /// The watch intent of the session `tmux_session`, where there is one.
    pub fn watch_intent_for_session(&self, tmux_session: &str) -> (res: Result<
        Option<WatchIntentRecord>,
        LedgerError,
    >)
        requires
            self.wf(),
        ensures
            found_is(res, self@.intent(tmux_session@)),
    {
        match self.find_session(tmux_session) {
            None => Ok(None),
            Some(i) => match self.find_intent(self.sessions[i].id.as_str()) {
                None => Ok(None),
                Some(j) => Ok(Some(map_watch_intent(&self.intents[j], tmux_session)?)),
            },
        }
    }

    /// Stores the wish to watch a session, its keywords in JSON; where none is stored yet, under the
    /// id `fresh_id`.
    pub fn store_watch_intent(
        &mut self,
        input: &WatchIntentInput,
        fresh_id: String,
        keywords_json: String,
    ) -> (res: Result<WatchIntentRow, LedgerError>)
        requires
            old(self).wf(),
        ensures
            final(self).wf(),
            final(self)@ == old(self)@.store_intent(input@, fresh_id@, keywords_json@).0,
            outcome_is(res, old(self)@.store_intent(input@, fresh_id@, keywords_json@).1),
    {
        input.validate()?;
        let session = match self.session_by_name(input.tmux_session.as_str())? {
            Some(session) => session,
            None => {
                return Err(LedgerError::UnknownWatchSession(input.tmux_session.clone()));
            },
        };
        let found = self.watch_intent_for_session(input.tmux_session.as_str())?;
        if input.stale_minutes > i64::MAX as u64 {
            return Err(LedgerError::StaleMinutesTooLarge(input.stale_minutes));
        }
        if found.is_none() && self.has_intent_id(fresh_id.as_str()) {
            return Err(LedgerError::ConstraintFailed(Constraint::IntentId));
        }
        let id = match found {
            Some(record) => record.id,
            None => fresh_id,
        };
        let row = WatchIntentRow {
            id,
            session_id: session.id,
            channel: clone_opt(&input.channel),
            thread: clone_opt(&input.thread),
            mention: clone_opt(&input.mention),
            keywords_json,
            stale_minutes: input.stale_minutes as i64,
            format: match input.format {
                Some(format) => Some(format.as_str().to_owned()),
                None => None,
            },
            registration_source: input.registration_source.as_str().to_owned(),
            original_command_json: clone_opt(&input.original_command_json),
            registered_at: input.registered_at.clone(),
            last_confirmed_at: clone_opt(&input.last_confirmed_at),
        };
        assert(self@.sessions.contains_key(input@.tmux_session));
        let stored = row.clone();
        self.put_intent(row);
        Ok(stored)
    }

    /// Records the wish to watch a session; where none is recorded yet, under the id `fresh_id`.
    pub fn upsert_watch_intent_at(&mut self, input: WatchIntentInput, fresh_id: String) -> (res:
        Result<WatchIntentRecord, LedgerError>)
        requires
            old(self).wf(),
        ensures
            final(self).wf(),
            final(self)@ == old(self)@.upsert_watch_intent(input@, fresh_id@).0,
            outcome_is(res, old(self)@.upsert_watch_intent(input@, fresh_id@).1),
            outcome_is(res, old(self)@.recorded_intent(input@, fresh_id@)),
            res matches Ok(record) ==> final(self)@.intent(input@.tmux_session) == Ok::<
                Option<WatchIntentRecordView>,
                LedgerErrorView,
            >(Some(record@)),
    {
        let keywords_json = match strings_to_json(&input.keywords) {
            Ok(text) => text,
            Err(said) => {
                return Err(LedgerError::InvalidKeywords(said));
            },
        };
        let ghost json = keywords_json@;
        let row = self.store_watch_intent(&input, fresh_id, keywords_json)?;
        proof {
            stored_intent_reads_back(input@, row@.id, row@.session_id, json);
        }
        map_watch_intent(&row, input.tmux_session.as_str())
    }

    /// Records the wish to watch a session.
    pub fn upsert_watch_intent(&mut self, input: WatchIntentInput) -> (res: Result<
        WatchIntentRecord,
        LedgerError,
    >)
        requires
            old(self).wf(),
        ensures
            final(self).wf(),
            exists|fresh_id: Seq<char>| #[trigger]
                uuid_text(fresh_id) && final(self)@ == old(self)@.upsert_watch_intent(
                    input@,
                    fresh_id,
                ).0 && outcome_is(res, old(self)@.upsert_watch_intent(input@, fresh_id).1)
                    && outcome_is(res, old(self)@.recorded_intent(input@, fresh_id)),
            res matches Ok(record) ==> final(self)@.intent(input@.tmux_session) == Ok::<
                Option<WatchIntentRecordView>,
                LedgerErrorView,
            >(Some(record@)),
    {
        let fresh_id = new_id();
        let ghost id = fresh_id@;
        let res = self.upsert_watch_intent_at(input, fresh_id);
        assert(uuid_text(id));
        res
    }

    /// Records a registration with the identifiers and times `fresh`: its session and, where that
    /// succeeds, its wish to watch. `original_command_json` is the registration itself in JSON.
    pub fn record_registration_at(
        &mut self,
        registration: &RegisteredTmuxSession,
        spawned_by_clawhip: bool,
        owner_mappings: &[SessionOwnerMapping],
        original_command_json: Option<String>,
        fresh: FreshValues,
    ) -> (res: Result<(SessionRecord, WatchIntentRecord), LedgerError>)
        requires
            old(self).wf(),
        ensures
            final(self).wf(),
            final(self)@ == old(self)@.record_registration(
                registration@,
                spawned_by_clawhip,
                mapping_views(owner_mappings@),
                opt_view(original_command_json),
                fresh@,
            ).0,
            outcome_is(
                res,
                old(self)@.record_registration(
                    registration@,
                    spawned_by_clawhip,
                    mapping_views(owner_mappings@),
                    opt_view(original_command_json),
                    fresh@,
                ).1,
            ),
            outcome_is(
                res,
                old(self)@.recorded_registration(
                    registration@,
                    spawned_by_clawhip,
                    mapping_views(owner_mappings@),
                    opt_view(original_command_json),
                    fresh@,
                ),
            ),
            res matches Ok((session, intent)) ==> registration_reads_back(
                final(self)@,
                registration@.session,
                session@,
                intent@,
            ),
            res matches Ok((_, intent)) ==> {
                &&& intent@.tmux_session == registration@.session
                &&& intent@.channel == registration@.channel
                &&& intent@.thread == registration@.thread
                &&& intent@.mention == registration@.mention
                &&& intent@.keywords == registration@.keywords
                &&& intent@.stale_minutes == registration@.stale_minutes
                &&& intent@.format == registration@.format
                &&& intent@.registration_source == registration@.registration_source
                &&& intent@.registered_at == registration@.registered_at
                &&& intent@.original_command_json == opt_view(original_command_json)
            },
    {
        let input = SessionInput::from_registration_at(
            registration,
            spawned_by_clawhip,
            owner_mappings,
            fresh.seen,
        );
        let session = self.upsert_session_at(input, fresh.session_id, fresh.now)?;
        let input = WatchIntentInput::from_registration_at(
            registration,
            original_command_json,
            fresh.confirmed,
        );
        let intent = self.upsert_watch_intent_at(input, fresh.intent_id)?;
        Ok((session, intent))
    }

    /// Records a registration now.
    pub fn record_registration(
        &mut self,
        registration: &RegisteredTmuxSession,
        spawned_by_clawhip: bool,
        owner_mappings: &[SessionOwnerMapping],
        original_command_json: Option<String>,
    ) -> (res: Result<(SessionRecord, WatchIntentRecord), LedgerError>)
        requires
            old(self).wf(),
        ensures
            final(self).wf(),
            exists|fresh: FreshValuesView| #[trigger]
                given_now(fresh) && final(self)@ == old(self)@.record_registration(
                    registration@,
                    spawned_by_clawhip,
                    mapping_views(owner_mappings@),
                    opt_view(original_command_json),
                    fresh,
                ).0 && outcome_is(
                    res,
                    old(self)@.record_registration(
                        registration@,
                        spawned_by_clawhip,
                        mapping_views(owner_mappings@),
                        opt_view(original_command_json),
                        fresh,
                    ).1,
                ) && outcome_is(
                    res,
                    old(self)@.recorded_registration(
                        registration@,
                        spawned_by_clawhip,
                        mapping_views(owner_mappings@),
                        opt_view(original_command_json),
                        fresh,
                    ),
                ),
            res matches Ok((session, intent)) ==> registration_reads_back(
                final(self)@,
                registration@.session,
                session@,
                intent@,
            ),
            res matches Ok((_, intent)) ==> {
                &&& intent@.tmux_session == registration@.session
                &&& intent@.channel == registration@.channel
                &&& intent@.thread == registration@.thread
                &&& intent@.mention == registration@.mention
                &&& intent@.keywords == registration@.keywords
                &&& intent@.stale_minutes == registration@.stale_minutes
                &&& intent@.format == registration@.format
                &&& intent@.registration_source == registration@.registration_source
                &&& intent@.registered_at == registration@.registered_at
                &&& intent@.original_command_json == opt_view(original_command_json)
            },
    {
        let fresh = FreshValues {
            seen: now_rfc3339(),
            session_id: new_id(),
            now: now_rfc3339(),
            confirmed: now_rfc3339(),
            intent_id: new_id(),
        };
        let ghost values = fresh@;
        let res = self.record_registration_at(
            registration,
            spawned_by_clawhip,
            owner_mappings,
            original_command_json,
            fresh,
        );
        assert(given_now(values));
        res
    }

    fn find_baseline(&self, repo_path: &str) -> (found: Option<usize>)
        requires
            self.wf(),
        ensures
            match found {
                Some(i) => i < self.baselines@.len() && self.baselines@[i as int]@.repo_path
                    == repo_path@ && self@.baselines.contains_key(repo_path@)
                    && self@.baselines[repo_path@] == self.baselines@[i as int]@,
                None => !has_key(baseline_views(self.baselines@), repo_path@)
                    && !self@.baselines.contains_key(repo_path@),
            },
    {
        let ghost rows = baseline_views(self.baselines@);
        let mut i: usize = 0;
        while i < self.baselines.len()
            invariant
                i <= self.baselines@.len(),
                self.wf(),
                rows == baseline_views(self.baselines@),
                forall|j: int| 0 <= j < i ==> (#[trigger] rows[j]).repo_path != repo_path@,
            decreases self.baselines.len() - i,
        {
            assert(rows[i as int] == self.baselines@[i as int]@);
            if str_eq(self.baselines[i].repo_path.as_str(), repo_path) {
                proof {
                    lemma_by_key_at::<Seq<char>, BaselineRowView>(rows, i as int);
                }
                return Some(i);
            }
            i = i + 1;
        }
        assert(!has_key(rows, repo_path@));
        None
    }

    /// The issue baseline of a repository, where there is one.
    pub fn github_issue_baseline(&self, repo_path: &str) -> (res: Result<
        Option<String>,
        LedgerError,
    >)
        requires
            self.wf(),
        ensures
            res matches Ok(payload) && opt_view(payload) == self@.baseline(repo_path@),
    {
        match self.find_baseline(repo_path) {
            Some(i) => Ok(Some(self.baselines[i].payload.clone())),
            None => Ok(None),
        }
    }

    /// Sets the issue baseline of a repository at `now`.
    pub fn set_github_issue_baseline_at(&mut self, repo_path: &str, payload: &str, now: String) -> (
        res: Result<(), LedgerError>)
        requires
            old(self).wf(),
        ensures
            final(self).wf(),
            final(self)@ == old(self)@.set_baseline(repo_path@, payload@, now@),
            res is Ok,
    {
        let ghost rows = baseline_views(self.baselines@);
        let row = BaselineRow {
            repo_path: repo_path.to_owned(),
            payload: payload.to_owned(),
            updated_at: now,
        };
        let ghost new = row@;
        let ghost expected = self@.set_baseline(repo_path@, payload@, now@);
        proof {
            lemma_set_baseline_valid(self@, repo_path@, payload@, now@);
        }
        match self.find_baseline(repo_path) {
            Some(i) => {
                proof {
                    assert(rows[i as int] == self.baselines@[i as int]@);
                    lemma_by_key_update::<Seq<char>, BaselineRowView>(rows, i as int, new);
                }
                self.baselines.set(i, row);
                assert(baseline_views(self.baselines@) =~= rows.update(i as int, new));
            },
            None => {
                proof {
                    lemma_by_key_insert::<Seq<char>, BaselineRowView>(
                        rows,
                        rows.len() as int,
                        new,
                    );
                }
                self.baselines.push(row);
                assert(baseline_views(self.baselines@) =~= rows.insert(rows.len() as int, new));
            },
        }
        assert(self@ =~= expected);
        Ok(())
    }

    /// Sets the issue baseline of a repository now.
    pub fn set_github_issue_baseline(&mut self, repo_path: &str, payload: &str) -> (res: Result<
        (),
        LedgerError,
    >)
        requires
            old(self).wf(),
        ensures
            final(self).wf(),
            exists|now: Seq<char>| #[trigger]
                clock_text(now) && final(self)@ == old(self)@.set_baseline(
                    repo_path@,
                    payload@,
                    now,
                ),
            res is Ok,
    {
        let now = now_rfc3339();
        let ghost moment = now@;
        let res = self.set_github_issue_baseline_at(repo_path, payload, now);
        assert(clock_text(moment));
        res
    }

    fn find_version(&self, version: i64) -> (found: Result<usize, usize>)
        requires
            self.wf(),
        ensures
            match found {
                Ok(i) => i < self.migrations@.len() && self.migrations@[i as int]@.version
                    == version && self@.migrations.contains_key(version),
                Err(p) => p <= self.migrations@.len() && !has_key(
                    migration_views(self.migrations@),
                    version,
                ) && !self@.migrations.contains_key(version) && (forall|j: int|
                    0 <= j < p ==> (#[trigger] self.migrations@[j])@.version < version) && (forall|
                    j: int,
                |
                    p <= j < self.migrations@.len() ==> version < (
                    #[trigger] self.migrations@[j])@.version),
            },
    {
        let ghost rows = migration_views(self.migrations@);
        let mut i: usize = 0;
        while i < self.migrations.len() && self.migrations[i].version < version
            invariant
                i <= self.migrations@.len(),
                self.wf(),
                rows == migration_views(self.migrations@),
                forall|j: int| 0 <= j < i ==> (#[trigger] self.migrations@[j])@.version < version,
            decreases self.migrations.len() - i,
        {
            i = i + 1;
        }
        proof {
            lemma_by_version_unique(rows);
            assert forall|j: int| 0 <= j < rows.len() implies #[trigger] rows[j]
                == self.migrations@[j]@ by {}
            if i < rows.len() {
                assert forall|j: int| i < j < self.migrations@.len() implies rows[i as int].version
                    < (#[trigger] self.migrations@[j])@.version by {
                    assert(rows[j] == self.migrations@[j]@);
                }
            }
        }
        if i < self.migrations.len() && self.migrations[i].version == version {
            proof {
                lemma_by_key_at::<i64, MigrationRowView>(rows, i as int);
            }
            return Ok(i);
        }
        assert(!has_key::<i64, MigrationRowView>(rows, version)) by {
            if has_key::<i64, MigrationRowView>(rows, version) {
                let j = choose|j: int|
                    0 <= j < rows.len() && #[trigger] crate::keyed::Keyed::<i64>::key(rows[j])
                        == version;
                assert(rows[j] == self.migrations@[j]@);
            }
        }
        Err(i)
    }

    fn put_version(&mut self, version: i64, applied_at: String)
        requires
            old(self).wf(),
            !old(self)@.migrations.contains_key(version),
        ensures
            final(self).wf(),
            final(self)@ == (LedgerView {
                migrations: old(self)@.migrations.insert(
                    version,
                    MigrationRowView { version, applied_at: applied_at@ },
                ),
                ..old(self)@
            }),
    {
        let ghost rows = migration_views(self.migrations@);
        let ghost at = applied_at@;
        match self.find_version(version) {
            Ok(_) => {},
            Err(p) => {
                let row = MigrationRow { version, applied_at };
                let ghost new = row@;
                let ghost after = rows.insert(p as int, new);
                proof {
                    lemma_by_version_unique(rows);
                    lemma_by_key_insert::<i64, MigrationRowView>(rows, p as int, new);
                    assert forall|a: int, b: int| 0 <= a < b < after.len() implies (
                    #[trigger] after[a]).version < (#[trigger] after[b]).version by {
                        let x = if a < p { a } else { a - 1 };
                        let y = if b < p { b } else { b - 1 };
                        if a != p {
                            assert(rows[x] == self.migrations@[x]@);
                        }
                        if b != p {
                            assert(rows[y] == self.migrations@[y]@);
                        }
                    }
                }
                self.migrations.insert(p, row);
                assert(migration_views(self.migrations@) =~= after);
                let ghost expected = LedgerView {
                    migrations: old(self)@.migrations.insert(
                        version,
                        MigrationRowView { version, applied_at: at },
                    ),
                    ..old(self)@
                };
                assert(self@ =~= expected);
                proof {
                    lemma_same_sessions_valid(old(self)@, expected);
                }
            },
        }
    }

    /// Brings the stored sessions up to the current schema version at `now`, and records the
    /// version where it is not recorded yet.
    pub fn migrate_at(&mut self, now: String) -> (res: Result<(), LedgerError>)
        requires
            old(self).wf(),
        ensures
            final(self).wf(),
            final(self)@ == old(self)@.migrate(now@),
            res is Ok,
    {
        let ghost rows = session_views(self.sessions@);
        let ghost change = |row: SessionRowView| migrated_session(row);
        let ghost expected = self@.migrate(now@);
        let mut i: usize = 0;
        while i < self.sessions.len()
            invariant
                i <= self.sessions@.len() == rows.len(),
                self.intents == old(self).intents,
                self.baselines == old(self).baselines,
                self.migrations == old(self).migrations,
                forall|j: int|
                    0 <= j < i ==> (#[trigger] self.sessions@[j])@ == migrated_session(rows[j]),
                forall|j: int|
                    i <= j < rows.len() ==> (#[trigger] self.sessions@[j])@ == rows[j],
            decreases self.sessions.len() - i,
        {
            let mut row = self.sessions[i].clone();
            if str_eq(row.state.as_str(), "retired") && str_eq(
                row.workflow_status.as_str(),
                "active",
            ) {
                row.workflow_status = "retired".to_owned();
            } else if is_retired_label(row.workflow_status.as_str()) {
                row.workflow_status = "active".to_owned();
            }
            assert(row@ =~= migrated_session(rows[i as int]));
            self.sessions.set(i, row);
            i = i + 1;
        }
        proof {
            let after = session_views(self.sessions@);
            lemma_by_name_unique(rows);
            assert forall|j: int| 0 <= j < rows.len() implies #[trigger] after[j] == change(rows[j])
                && crate::keyed::Keyed::<Seq<char>>::key(after[j]) == crate::keyed::Keyed::<
                Seq<char>,
            >::key(rows[j]) by {
                assert(after[j] == self.sessions@[j]@);
            }
            lemma_by_key_map::<Seq<char>, SessionRowView>(rows, after, change);
            assert forall|a: int, b: int| 0 <= a < b < after.len() implies text_lt(
                (#[trigger] after[a]).tmux_session,
                (#[trigger] after[b]).tmux_session,
            ) by {
                assert(after[a] == change(rows[a]) && after[b] == change(rows[b]));
                assert(text_lt(rows[a].tmux_session, rows[b].tmux_session));
            }
            lemma_migrated_sessions_valid(old(self)@);
            assert(self@.sessions == old(self)@.sessions.map_values(change));
            assert(self@ =~= LedgerView {
                sessions: old(self)@.sessions.map_values(change),
                ..old(self)@
            });
        }
        match self.find_version(SCHEMA_VERSION) {
            Ok(_) => {},
            Err(_) => {
                self.put_version(SCHEMA_VERSION, now);
            },
        }
        assert(self@ =~= expected);
        Ok(())
    }

    /// Brings the stored sessions up to the current schema version now.
    pub fn migrate(&mut self) -> (res: Result<(), LedgerError>)
        requires
            old(self).wf(),
        ensures
            final(self).wf(),
            exists|now: Seq<char>| #[trigger]
                clock_text(now) && final(self)@ == old(self)@.migrate(now),
            res is Ok,
    {
        let now = now_rfc3339();
        let ghost moment = now@;
        let res = self.migrate_at(now);
        assert(clock_text(moment));
        res
    }

    /// A ledger without rows.
    pub fn empty() -> (ledger: Ledger)
        ensures
            ledger.wf(),
            ledger@ == LedgerView::empty(),
    {
        let ledger = Ledger {
            sessions: Vec::new(),
            intents: Vec::new(),
            baselines: Vec::new(),
            migrations: Vec::new(),
        };
        assert(ledger@ =~= LedgerView::empty());
        ledger
    }

    /// A ledger without sessions, at the current schema version.
    pub fn open_memory() -> (res: Result<Ledger, LedgerError>)
        ensures
            res matches Ok(ledger) && ledger.wf() && exists|now: Seq<char>| #[trigger]
                clock_text(now) && ledger@ == LedgerView::empty().migrate(now),
    {
        let mut ledger = Ledger::empty();
        ledger.migrate()?;
        Ok(ledger)
    }

    /// The schema versions that are applied, in order.
    pub fn applied_schema_versions(&self) -> (res: Result<Vec<i64>, LedgerError>)
        requires
            self.wf(),
        ensures
            res matches Ok(versions) && self@.versions_in_order(versions@),
    {
        let ghost rows = migration_views(self.migrations@);
        let mut versions: Vec<i64> = Vec::new();
        let mut i: usize = 0;
        while i < self.migrations.len()
            invariant
                i <= self.migrations@.len() == rows.len(),
                rows == migration_views(self.migrations@),
                versions@.len() == i,
                forall|j: int| 0 <= j < i ==> #[trigger] versions@[j] == rows[j].version,
            decreases self.migrations.len() - i,
        {
            assert(rows[i as int] == self.migrations@[i as int]@);
            versions.push(self.migrations[i].version);
            i = i + 1;
        }
        proof {
            lemma_by_version_unique(rows);
            assert forall|v: i64| #[trigger] versions@.contains(v)
                <==> self@.migrations.contains_key(v) by {
                if versions@.contains(v) {
                    let j = choose|j: int| 0 <= j < versions@.len() && versions@[j] == v;
                    lemma_by_key_at::<i64, MigrationRowView>(rows, j);
                }
                if self@.migrations.contains_key(v) {
                    assert(has_key::<i64, MigrationRowView>(rows, v));
                    let j = choose|j: int|
                        0 <= j < rows.len() && #[trigger] crate::keyed::Keyed::<i64>::key(rows[j])
                            == v;
                    assert(versions@[j] == v);
                }
            }
        }
        Ok(versions)
    }

    /// The sessions, in the order of their names.
    pub fn sessions(&self) -> (res: Result<Vec<SessionRecord>, LedgerError>)
        requires
            self.wf(),
        ensures
            exists|names: Seq<Seq<char>>| #[trigger]
                self@.session_names(names) && list_is(res, self@.listed_sessions(names)),
            res matches Ok(records) ==> self@.lists_sessions(session_list(records@)),
            res is Ok <==> self@.sessions_readable(),
    {
        let ghost rows = session_views(self.sessions@);
        let ghost names = rows.map_values(|row: SessionRowView| row.tmux_session);
        let ghost outcomes = self@.session_outcomes(names);
        proof {
            lemma_by_name_unique(rows);
            assert forall|name: Seq<char>| #[trigger] names.contains(name)
                <==> self@.sessions.contains_key(name) by {
                if names.contains(name) {
                    let j = choose|j: int| 0 <= j < names.len() && names[j] == name;
                    lemma_by_key_at::<Seq<char>, SessionRowView>(rows, j);
                }
                if self@.sessions.contains_key(name) {
                    assert(has_key::<Seq<char>, SessionRowView>(rows, name));
                    let j = choose|j: int|
                        0 <= j < rows.len() && #[trigger] crate::keyed::Keyed::<Seq<char>>::key(
                            rows[j],
                        ) == name;
                    assert(names[j] == name);
                }
            }
            assert forall|a: int, b: int| 0 <= a < b < names.len() implies text_lt(
                #[trigger] names[a],
                #[trigger] names[b],
            ) by {
                assert(text_lt(rows[a].tmux_session, rows[b].tmux_session));
            }
            assert(self@.session_names(names));
            listed_sessions_read_by_name(self@, names);
            assert forall|j: int| 0 <= j < rows.len() implies #[trigger] outcomes[j]
                == session_of_row(rows[j]) by {
                lemma_by_key_at::<Seq<char>, SessionRowView>(rows, j);
            }
        }
        let mut records: Vec<SessionRecord> = Vec::new();
        let mut i: usize = 0;
        assert(session_list(records@) =~= Seq::empty());
        while i < self.sessions.len()
            invariant
                i <= self.sessions@.len() == rows.len() == outcomes.len(),
                rows == session_views(self.sessions@),
                outcomes == self@.session_outcomes(names),
                self@.session_names(names),
                self@.listed_sessions(names) is Ok <==> self@.sessions_readable(),
                forall|j: int|
                    0 <= j < rows.len() ==> #[trigger] outcomes[j] == session_of_row(rows[j]),
                collected(outcomes.take(i as int)) == Ok::<
                    Seq<SessionRecordView>,
                    LedgerErrorView,
                >(session_list(records@)),
            decreases self.sessions.len() - i,
        {
            assert(rows[i as int] == self.sessions@[i as int]@);
            assert(outcomes[i as int] == session_of_row(rows[i as int]));
            proof {
                lemma_collected_step(outcomes, i as int);
            }
            let ghost before = session_list(records@);
            let record = map_session(&self.sessions[i])?;
            let ghost new = record@;
            records.push(record);
            assert(session_list(records@) =~= before.push(new));
            i = i + 1;
        }
        assert(outcomes.take(i as int) =~= outcomes);
        Ok(records)
    }

    /// The watch intents, in the order of the names of their sessions.
    pub fn watch_intents(&self) -> (res: Result<Vec<WatchIntentRecord>, LedgerError>)
        requires
            self.wf(),
        ensures
            exists|names: Seq<Seq<char>>| #[trigger]
                self@.watched_names(names) && list_is(res, self@.listed_intents(names)),
            res matches Ok(records) ==> self@.lists_intents(intent_list(records@)),
            res is Ok <==> self@.intents_readable(),
    {
        let ghost rows = session_views(self.sessions@);
        proof {
            lemma_by_name_unique(rows);
        }
        let mut watched: Vec<String> = Vec::new();
        let mut at: Vec<usize> = Vec::new();
        let mut i: usize = 0;
        while i < self.sessions.len()
            invariant
                self.wf(),
                i <= self.sessions@.len() == rows.len(),
                rows == session_views(self.sessions@),
                unique_keys::<Seq<char>, SessionRowView>(rows),
                by_name(rows),
                at@.len() == watched@.len(),
                sorted_names(views(watched@)),
                forall|k: int|
                    0 <= k < at@.len() ==> {
                        &&& at@[k] < self.intents@.len()
                        &&& self@.intent_row((#[trigger] watched@[k])@) == Some(
                            self.intents@[at@[k] as int]@,
                        )
                    },
                forall|k: int|
                    0 <= k < watched@.len() ==> exists|j: int|
                        0 <= j < i && rows[j].tmux_session == (#[trigger] watched@[k])@,
                forall|j: int|
                    0 <= j < i && self@.intent_row((#[trigger] rows[j]).tmux_session) is Some
                        ==> views(watched@).contains(rows[j].tmux_session),
            decreases self.sessions.len() - i,
        {
            assert(rows[i as int] == self.sessions@[i as int]@);
            proof {
                lemma_by_key_at::<Seq<char>, SessionRowView>(rows, i as int);
            }
            let ghost before = watched@;
            match self.find_intent(self.sessions[i].id.as_str()) {
                None => {},
                Some(j) => {
                    let name = self.sessions[i].tmux_session.clone();
                    let ghost text = name@;
                    watched.push(name);
                    at.push(j);
                    proof {
                        assert(views(watched@) =~= views(before).push(text));
                        assert forall|a: int, b: int| 0 <= a < b < watched@.len() implies text_lt(
                            #[trigger] views(watched@)[a],
                            #[trigger] views(watched@)[b],
                        ) by {
                            if b < before.len() {
                                assert(views(before)[a] == views(watched@)[a]);
                                assert(views(before)[b] == views(watched@)[b]);
                            } else {
                                assert(watched@[a] == before[a]);
                                let j = choose|j: int|
                                    0 <= j < i && rows[j].tmux_session == before[a]@;
                                assert(text_lt(rows[j].tmux_session, rows[i as int].tmux_session));
                            }
                        }
                        assert forall|k: int| 0 <= k < watched@.len() implies exists|j: int|
                            0 <= j < i + 1 && rows[j].tmux_session == (#[trigger] watched@[k])@ by {
                            if k < before.len() {
                                assert(watched@[k] == before[k]);
                                let j = choose|j: int|
                                    0 <= j < i && rows[j].tmux_session == before[k]@;
                                assert(rows[j].tmux_session == watched@[k]@);
                            } else {
                                assert(rows[i as int].tmux_session == watched@[k]@);
                            }
                        }
                        assert forall|j: int|
                            0 <= j < i + 1 && self@.intent_row((#[trigger] rows[j]).tmux_session)
                                is Some implies views(watched@).contains(
                            rows[j].tmux_session,
                        ) by {
                            if j < i {
                                let k = views(before).index_of(rows[j].tmux_session);
                                assert(views(before).contains(rows[j].tmux_session));
                                assert(views(watched@)[k] == views(before)[k]);
                            } else {
                                assert(views(watched@)[before.len() as int] == text);
                            }
                        }
                    }
                },
            }
            i = i + 1;
        }
        let ghost names = views(watched@);
        let ghost outcomes = self@.intent_outcomes(names);
        proof {
            assert forall|name: Seq<char>| #[trigger] names.contains(name)
                <==> self@.intent_row(name) is Some by {
                if names.contains(name) {
                    let k = choose|k: int| 0 <= k < names.len() && names[k] == name;
                    assert(watched@[k]@ == name);
                }
                if self@.intent_row(name) is Some {
                    assert(has_key::<Seq<char>, SessionRowView>(rows, name));
                    let j = choose|j: int|
                        0 <= j < rows.len() && #[trigger] crate::keyed::Keyed::<Seq<char>>::key(
                            rows[j],
                        ) == name;
                    assert(rows[j].tmux_session == name);
                }
            }
            assert(self@.watched_names(names));
            listed_intents_read_by_name(self@, names);
        }
        let mut records: Vec<WatchIntentRecord> = Vec::new();
        let mut k: usize = 0;
        assert(intent_list(records@) =~= Seq::empty());
        while k < watched.len()
            invariant
                k <= watched@.len() == at@.len() == names.len() == outcomes.len(),
                names == views(watched@),
                self@.watched_names(names),
                self@.listed_intents(names) is Ok <==> self@.intents_readable(),
                outcomes == self@.intent_outcomes(names),
                forall|k: int|
                    0 <= k < at@.len() ==> {
                        &&& at@[k] < self.intents@.len()
                        &&& self@.intent_row((#[trigger] watched@[k])@) == Some(
                            self.intents@[at@[k] as int]@,
                        )
                    },
                collected(outcomes.take(k as int)) == Ok::<
                    Seq<WatchIntentRecordView>,
                    LedgerErrorView,
                >(intent_list(records@)),
            decreases watched.len() - k,
        {
            assert(names[k as int] == watched@[k as int]@);
            proof {
                lemma_collected_step(outcomes, k as int);
            }
            let ghost before = intent_list(records@);
            let record = map_watch_intent(&self.intents[at[k]], watched[k].as_str())?;
            let ghost new = record@;
            records.push(record);
            assert(intent_list(records@) =~= before.push(new));
            k = k + 1;
        }
        assert(outcomes.take(k as int) =~= outcomes);
        Ok(records)
    }

    /// Takes in a stored session. It is refused where its name or its id is there already.
    pub fn load_session(&mut self, row: SessionRow) -> (res: Result<(), LedgerError>)
        requires
            old(self).wf(),
        ensures
            final(self).wf(),
            if old(self)@.sessions.contains_key(row@.tmux_session) {
                refused(res, Constraint::SessionName) && final(self)@ == old(self)@
            } else if old(self)@.has_session_id(row@.id) {
                refused(res, Constraint::SessionId) && final(self)@ == old(self)@
            } else {
                res is Ok && final(self)@ == old(self)@.with_session(row@)
            },
    {
        if self.find_session(row.tmux_session.as_str()).is_some() {
            return Err(LedgerError::ConstraintFailed(Constraint::SessionName));
        }
        if self.has_session_id(row.id.as_str()) {
            return Err(LedgerError::ConstraintFailed(Constraint::SessionId));
        }
        self.put_session(row);
        Ok(())
    }

    /// Takes in a stored watch intent. It is refused where its session is not there, where the
    /// session has one already, and where its id is there already.
    pub fn load_watch_intent(&mut self, row: WatchIntentRow) -> (res: Result<(), LedgerError>)
        requires
            old(self).wf(),
        ensures
            final(self).wf(),
            if !old(self)@.has_session_id(row@.session_id) {
                refused(res, Constraint::IntentReference) && final(self)@ == old(self)@
            } else if old(self)@.intents.contains_key(row@.session_id) {
                refused(res, Constraint::IntentSession) && final(self)@ == old(self)@
            } else if old(self)@.has_intent_id(row@.id) {
                refused(res, Constraint::IntentId) && final(self)@ == old(self)@
            } else {
                res is Ok && final(self)@ == old(self)@.with_intent(row@)
            },
    {
        if !self.has_session_id(row.session_id.as_str()) {
            return Err(LedgerError::ConstraintFailed(Constraint::IntentReference));
        }
        if self.find_intent(row.session_id.as_str()).is_some() {
            return Err(LedgerError::ConstraintFailed(Constraint::IntentSession));
        }
        if self.has_intent_id(row.id.as_str()) {
            return Err(LedgerError::ConstraintFailed(Constraint::IntentId));
        }
        self.put_intent(row);
        Ok(())
    }

    /// Takes in a stored baseline. It is refused where its repository has one already.
    pub fn load_baseline(&mut self, row: BaselineRow) -> (res: Result<(), LedgerError>)
        requires
            old(self).wf(),
        ensures
            final(self).wf(),
            if old(self)@.baselines.contains_key(row@.repo_path) {
                refused(res, Constraint::BaselinePath) && final(self)@ == old(self)@
            } else {
                res is Ok && final(self)@ == old(self)@.set_baseline(
                    row@.repo_path,
                    row@.payload,
                    row@.updated_at,
                )
            },
    {
        if self.find_baseline(row.repo_path.as_str()).is_some() {
            return Err(LedgerError::ConstraintFailed(Constraint::BaselinePath));
        }
        self.set_github_issue_baseline_at(
            row.repo_path.as_str(),
            row.payload.as_str(),
            row.updated_at,
        )
    }

    /// Takes in an applied schema version. It is refused where it is there already.
    pub fn load_migration(&mut self, row: MigrationRow) -> (res: Result<(), LedgerError>)
        requires
            old(self).wf(),
        ensures
            final(self).wf(),
            if old(self)@.migrations.contains_key(row@.version) {
                refused(res, Constraint::MigrationVersion) && final(self)@ == old(self)@
            } else {
                res is Ok && final(self)@ == (LedgerView {
                    migrations: old(self)@.migrations.insert(row@.version, row@),
                    ..old(self)@
                })
            },
    {
        match self.find_version(row.version) {
            Ok(_) => Err(LedgerError::ConstraintFailed(Constraint::MigrationVersion)),
            Err(_) => {
                self.put_version(row.version, row.applied_at);
                Ok(())
            },
        }
    }

    /// What is stored of the session `tmux_session`.
    pub fn stored_session(&self, tmux_session: &str) -> (row: Option<SessionRow>)
        requires
            self.wf(),
        ensures
            match self@.session_row(tmux_session@) {
                Some(held) => row matches Some(copy) && copy@ == held,
                None => row is None,
            },
    {
        match self.find_session(tmux_session) {
            Some(i) => Some(self.sessions[i].clone()),
            None => None,
        }
    }

    /// What is stored of the wish to watch the session `tmux_session`.
    pub fn stored_watch_intent(&self, tmux_session: &str) -> (row: Option<WatchIntentRow>)
        requires
            self.wf(),
        ensures
            match self@.intent_row(tmux_session@) {
                Some(held) => row matches Some(copy) && copy@ == held,
                None => row is None,
            },
    {
        match self.find_session(tmux_session) {
            Some(i) => match self.find_intent(self.sessions[i].id.as_str()) {
                Some(j) => Some(self.intents[j].clone()),
                None => None,
            },
            None => None,
        }
    }

    /// What is stored of the issues of a repository.
    pub fn stored_baseline(&self, repo_path: &str) -> (row: Option<BaselineRow>)
        requires
            self.wf(),
        ensures
            match row {
                Some(copy) => self@.baselines.contains_key(repo_path@)
                    && self@.baselines[repo_path@] == copy@,
                None => !self@.baselines.contains_key(repo_path@),
            },
    {
        match self.find_baseline(repo_path) {
            Some(i) => Some(self.baselines[i].clone()),
            None => None,
        }
    }

    /// What is stored of the schema version `version`.
    pub fn stored_migration(&self, version: i64) -> (row: Option<MigrationRow>)
        requires
            self.wf(),
        ensures
            match row {
                Some(copy) => self@.migrations.contains_key(version)
                    && self@.migrations[version] == copy@,
                None => !self@.migrations.contains_key(version),
            },
    {
        match self.find_version(version) {
            Ok(i) => {
                let ghost rows = migration_views(self.migrations@);
                proof {
                    lemma_by_version_unique(rows);
                    assert(rows[i as int] == self.migrations@[i as int]@);
                    lemma_by_key_at::<i64, MigrationRowView>(rows, i as int);
                }
                Some(self.migrations[i].clone())
            },
            Err(_) => None,
        }
    }
}

} // verus!
