//! The lane board: what is to be said of every session that is known or there.

use vstd::prelude::*;
use vstd::string::*;

use crate::names::NameSet;
use crate::records::{
    intent_list, session_list, SessionRecord, SessionRecordView, WatchIntentRecord,
    WatchIntentRecordView,
};
use crate::registration::{RegisteredTmuxSession, RegisteredTmuxSessionView};
use crate::status::{
    LaneStatus, RegistrationSource, RuntimeStatus, SessionKind, SessionOwner, SessionOwnerView,
    SessionState, WorkflowStatus,
};
use crate::tables::sorted_names;
use crate::text::{
    clone_opt, has_prefix, is_text_le, opt_view, starts_with, str_eq, text_le,
    text_le_is_antisymmetric, text_le_is_total, text_le_is_transitive, text_lt, views,
};

verus! {

/// A line of the lane board.
#[derive(Debug, PartialEq, Eq)]
pub struct LaneRow {
    pub session: String,
    pub status: LaneStatus,
    pub workflow_status: WorkflowStatus,
    pub runtime_status: RuntimeStatus,
    pub kind: SessionKind,
    pub owner: SessionOwner,
    pub state: SessionState,
    pub spawned_by_clawhip: bool,
    pub expected_watch: bool,
    pub registration_source: Option<RegistrationSource>,
    pub live_tmux: bool,
    pub daemon_watch: bool,
    pub has_restore: bool,
    pub channel: Option<String>,
    pub thread: Option<String>,
    pub repo_name: Option<String>,
    pub branch: Option<String>,
    pub restore_command: Option<String>,
}

/// [`LaneRow`] with its strings as characters.
#[verifier::ext_equal]
pub struct LaneRowView {
    pub session: Seq<char>,
    pub status: LaneStatus,
    pub workflow_status: WorkflowStatus,
    pub runtime_status: RuntimeStatus,
    pub kind: SessionKind,
    pub owner: SessionOwnerView,
    pub state: SessionState,
    pub spawned_by_clawhip: bool,
    pub expected_watch: bool,
    pub registration_source: Option<RegistrationSource>,
    pub live_tmux: bool,
    pub daemon_watch: bool,
    pub has_restore: bool,
    pub channel: Option<Seq<char>>,
    pub thread: Option<Seq<char>>,
    pub repo_name: Option<Seq<char>>,
    pub branch: Option<Seq<char>>,
    pub restore_command: Option<Seq<char>>,
}

impl View for LaneRow {
    type V = LaneRowView;

    open spec fn view(&self) -> LaneRowView {
        LaneRowView {
            session: self.session@,
            status: self.status,
            workflow_status: self.workflow_status,
            runtime_status: self.runtime_status,
            kind: self.kind,
            owner: self.owner@,
            state: self.state,
            spawned_by_clawhip: self.spawned_by_clawhip,
            expected_watch: self.expected_watch,
            registration_source: self.registration_source,
            live_tmux: self.live_tmux,
            daemon_watch: self.daemon_watch,
            has_restore: self.has_restore,
            channel: opt_view(self.channel),
            thread: opt_view(self.thread),
            repo_name: opt_view(self.repo_name),
            branch: opt_view(self.branch),
            restore_command: opt_view(self.restore_command),
        }
    }
}

impl Clone for LaneRow {
    fn clone(&self) -> (copy: LaneRow)
        ensures
            copy@ == self@,
    {
        LaneRow {
            session: self.session.clone(),
            status: self.status,
            workflow_status: self.workflow_status,
            runtime_status: self.runtime_status,
            kind: self.kind,
            owner: self.owner.clone(),
            state: self.state,
            spawned_by_clawhip: self.spawned_by_clawhip,
            expected_watch: self.expected_watch,
            registration_source: self.registration_source,
            live_tmux: self.live_tmux,
            daemon_watch: self.daemon_watch,
            has_restore: self.has_restore,
            channel: clone_opt(&self.channel),
            thread: clone_opt(&self.thread),
            repo_name: clone_opt(&self.repo_name),
            branch: clone_opt(&self.branch),
            restore_command: clone_opt(&self.restore_command),
        }
    }
}

/// The registrations with their strings as characters.
pub open spec fn registration_list(registrations: Seq<RegisteredTmuxSession>) -> Seq<
    RegisteredTmuxSessionView,
> {
    registrations.map_values(|r: RegisteredTmuxSession| r@)
}

/// The lines of the board with their strings as characters.
pub open spec fn lane_list(rows: Seq<LaneRow>) -> Seq<LaneRowView> {
    rows.map_values(|r: LaneRow| r@)
}

/// Whether the ledger knows the session `name`.
pub open spec fn known(sessions: Seq<SessionRecordView>, name: Seq<char>) -> bool {
    exists|i: int| 0 <= i < sessions.len() && (#[trigger] sessions[i]).tmux_session == name
}

/// Whether the daemon has the session `name` registered.
pub open spec fn registered(registrations: Seq<RegisteredTmuxSessionView>, name: Seq<char>) -> bool {
    exists|i: int| 0 <= i < registrations.len() && (#[trigger] registrations[i]).session == name
}

/// The watch intent of the session `name`: of several the last.
pub open spec fn intent_for(intents: Seq<WatchIntentRecordView>, name: Seq<char>) -> Option<
    WatchIntentRecordView,
>
    decreases intents.len(),
{
    if intents.len() == 0 {
        None
    } else if intents.last().tmux_session == name {
        Some(intents.last())
    } else {
        intent_for(intents.drop_last(), name)
    }
}

/// The registration of the session `name`: of several the last.
pub open spec fn registration_for(
    registrations: Seq<RegisteredTmuxSessionView>,
    name: Seq<char>,
) -> Option<RegisteredTmuxSessionView>
    decreases registrations.len(),
{
    if registrations.len() == 0 {
        None
    } else if registrations.last().session == name {
        Some(registrations.last())
    } else {
        registration_for(registrations.drop_last(), name)
    }
}

/// Whether the board leaves a session of the ledger out: its work is over, or it is retired.
pub open spec fn hidden(session: SessionRecordView) -> bool {
    session.workflow_status.terminal() || session.state == SessionState::Retired
}

/// What the board says of a session of the ledger.
pub open spec fn ledger_status(
    session: SessionRecordView,
    live_tmux: bool,
    daemon_watch: bool,
) -> LaneStatus {
    if !live_tmux {
        if session.workflow_status == WorkflowStatus::Active {
            LaneStatus::TmuxMissing
        } else {
            LaneStatus::WorkflowHandoff
        }
    } else if session.state == SessionState::IgnoredAlive {
        LaneStatus::IgnoredInfra
    } else {
        match (session.expected_watch, daemon_watch) {
            (true, true) => LaneStatus::HealthyAgent,
            (true, false) => LaneStatus::LostMonitoring,
            (false, true) => LaneStatus::ExternallyWatched,
            (false, false) => LaneStatus::UnknownTmux,
        }
    }
}

/// What the board says of a session that is there and that neither the ledger nor the daemon knows.
pub open spec fn unclaimed_status(name: Seq<char>, infra_prefixes: Seq<Seq<char>>) -> LaneStatus {
    if exists|i: int| 0 <= i < infra_prefixes.len() && has_prefix(name, #[trigger] infra_prefixes[i]) {
        LaneStatus::InfraCandidate
    } else {
        LaneStatus::UnknownTmux
    }
}

/// No session is hinted as infrastructure where no prefixes are configured.
pub proof fn infra_hints_are_opt_in(name: Seq<char>)
    ensures
        unclaimed_status(name, Seq::empty()) == LaneStatus::UnknownTmux,
{
}

/// The first of two optional texts that is there.
pub open spec fn text_of_either(
    first: Option<Seq<char>>,
    second: Option<Seq<char>>,
) -> Option<Seq<char>> {
    if first is Some {
        first
    } else {
        second
    }
}

/// The line of a session of the ledger.
pub open spec fn ledger_lane(
    session: SessionRecordView,
    intent: Option<WatchIntentRecordView>,
    registration: Option<RegisteredTmuxSessionView>,
    live_tmux: bool,
) -> LaneRowView {
    let channel = match intent {
        Some(intent) => intent.channel,
        None => None,
    };
    let thread = match intent {
        Some(intent) => intent.thread,
        None => None,
    };
    let daemon_channel = match registration {
        Some(registration) => registration.channel,
        None => None,
    };
    let daemon_thread = match registration {
        Some(registration) => registration.thread,
        None => None,
    };
    LaneRowView {
        session: session.tmux_session,
        status: ledger_status(session, live_tmux, registration is Some),
        workflow_status: session.workflow_status,
        runtime_status: RuntimeStatus::of_live(live_tmux),
        kind: session.kind,
        owner: session.owner,
        state: session.state,
        spawned_by_clawhip: session.spawned_by_clawhip,
        expected_watch: session.expected_watch,
        registration_source: match intent {
            Some(intent) => Some(intent.registration_source),
            None => None,
        },
        live_tmux,
        daemon_watch: registration is Some,
        has_restore: intent is Some,
        channel: text_of_either(channel, daemon_channel),
        thread: text_of_either(thread, daemon_thread),
        repo_name: session.repo_name,
        branch: session.branch,
        restore_command: match intent {
            Some(intent) => Some(intent.restore_line()),
            None => None,
        },
    }
}

/// The line of a session that the daemon watches and the ledger does not know.
pub open spec fn daemon_lane(
    registration: RegisteredTmuxSessionView,
    live_tmux: bool,
) -> LaneRowView {
    LaneRowView {
        session: registration.session,
        status: LaneStatus::ExternallyWatched,
        workflow_status: WorkflowStatus::Active,
        runtime_status: RuntimeStatus::of_live(live_tmux),
        kind: SessionKind::Unknown,
        owner: SessionOwnerView::Unknown,
        state: SessionState::Healthy,
        spawned_by_clawhip: false,
        expected_watch: true,
        registration_source: Some(registration.registration_source),
        live_tmux,
        daemon_watch: true,
        has_restore: false,
        channel: registration.channel,
        thread: registration.thread,
        repo_name: registration.routing.repo_name,
        branch: registration.routing.branch,
        restore_command: None,
    }
}

/// The line of a session that is there and that neither the ledger nor the daemon knows.
pub open spec fn unclaimed_lane(name: Seq<char>, infra_prefixes: Seq<Seq<char>>) -> LaneRowView {
    LaneRowView {
        session: name,
        status: unclaimed_status(name, infra_prefixes),
        workflow_status: WorkflowStatus::Active,
        runtime_status: RuntimeStatus::Live,
        kind: SessionKind::Unknown,
        owner: SessionOwnerView::Unknown,
        state: SessionState::Unknown,
        spawned_by_clawhip: false,
        expected_watch: false,
        registration_source: None,
        live_tmux: true,
        daemon_watch: false,
        has_restore: false,
        channel: None,
        thread: None,
        repo_name: None,
        branch: None,
        restore_command: None,
    }
}

/// All that the board is made of.
#[verifier::ext_equal]
pub struct BoardView {
    pub sessions: Seq<SessionRecordView>,
    pub intents: Seq<WatchIntentRecordView>,
    pub registrations: Seq<RegisteredTmuxSessionView>,
    /// The names of the tmux sessions that are there, in order, none twice.
    pub live: Seq<Seq<char>>,
    pub infra_prefixes: Seq<Seq<char>>,
}

impl BoardView {
    /// The line of the ledger's session `session`.
    pub open spec fn ledger_lane(self, session: SessionRecordView) -> LaneRowView {
        ledger_lane(
            session,
            intent_for(self.intents, session.tmux_session),
            registration_for(self.registrations, session.tmux_session),
            self.live.contains(session.tmux_session),
        )
    }

    /// The line of a registration.
    pub open spec fn daemon_lane(self, registration: RegisteredTmuxSessionView) -> LaneRowView {
        daemon_lane(registration, self.live.contains(registration.session))
    }

    /// The lines of the first `n` sessions of the ledger.
    pub open spec fn ledger_lanes(self, n: nat) -> Seq<LaneRowView>
        decreases n,
    {
        if n == 0 {
            Seq::empty()
        } else {
            let before = self.ledger_lanes((n - 1) as nat);
            let session = self.sessions[n - 1];
            if hidden(session) {
                before
            } else {
                before.push(self.ledger_lane(session))
            }
        }
    }

    /// The lines of the first `n` registrations: one for each session that the ledger does not know,
    /// for its first registration.
    pub open spec fn daemon_lanes(self, n: nat) -> Seq<LaneRowView>
        decreases n,
    {
        if n == 0 {
            Seq::empty()
        } else {
            let before = self.daemon_lanes((n - 1) as nat);
            let registration = self.registrations[n - 1];
            if known(self.sessions, registration.session) || registered(
                self.registrations.take(n - 1),
                registration.session,
            ) {
                before
            } else {
                before.push(self.daemon_lane(registration))
            }
        }
    }

    /// The lines of the first `n` tmux sessions that are there: one for each that neither the ledger
    /// nor the daemon knows.
    pub open spec fn unclaimed_lanes(self, n: nat) -> Seq<LaneRowView>
        decreases n,
    {
        if n == 0 {
            Seq::empty()
        } else {
            let before = self.unclaimed_lanes((n - 1) as nat);
            let name = self.live[n - 1];
            if known(self.sessions, name) || registered(self.registrations, name) {
                before
            } else {
                before.push(unclaimed_lane(name, self.infra_prefixes))
            }
        }
    }

    /// The lines of the board, not yet in order.
    pub open spec fn lanes(self) -> Seq<LaneRowView> {
        self.ledger_lanes(self.sessions.len()) + self.daemon_lanes(self.registrations.len())
            + self.unclaimed_lanes(self.live.len())
    }
}

/// The lines of the session `name`.
pub open spec fn lanes_of(rows: Seq<LaneRowView>, name: Seq<char>) -> Seq<LaneRowView>
    decreases rows.len(),
{
    if rows.len() == 0 {
        Seq::empty()
    } else if rows.last().session == name {
        lanes_of(rows.drop_last(), name).push(rows.last())
    } else {
        lanes_of(rows.drop_last(), name)
    }
}

/// Whether the lines stand in the order of their sessions.
pub open spec fn in_order(rows: Seq<LaneRowView>) -> bool {
    forall|i: int, j: int|
        0 <= i < j < rows.len() ==> text_le(
            (#[trigger] rows[i]).session,
            (#[trigger] rows[j]).session,
        )
}

/// Whether `sorted` holds the lines `rows` in the order of their sessions, those of one session in
/// the order that they had.
pub open spec fn sorts(sorted: Seq<LaneRowView>, rows: Seq<LaneRowView>) -> bool {
    &&& in_order(sorted)
    &&& forall|name: Seq<char>| #[trigger] lanes_of(sorted, name) == lanes_of(rows, name)
}

proof fn lemma_lanes_of_add(a: Seq<LaneRowView>, b: Seq<LaneRowView>, name: Seq<char>)
    ensures
        lanes_of(a + b, name) == lanes_of(a, name) + lanes_of(b, name),
    decreases b.len(),
{
    if b.len() == 0 {
        assert(a + b =~= a);
        assert(lanes_of(a, name) + lanes_of(b, name) =~= lanes_of(a, name));
    } else {
        lemma_lanes_of_add(a, b.drop_last(), name);
        assert((a + b).drop_last() =~= a + b.drop_last());
        assert(lanes_of(a + b, name) =~= lanes_of(a, name) + lanes_of(b, name));
    }
}

proof fn lemma_lanes_of_none(rows: Seq<LaneRowView>, name: Seq<char>)
    requires
        forall|i: int| 0 <= i < rows.len() ==> (#[trigger] rows[i]).session != name,
    ensures
        lanes_of(rows, name) == Seq::<LaneRowView>::empty(),
    decreases rows.len(),
{
    if rows.len() > 0 {
        assert(rows.last() == rows[rows.len() - 1]);
        assert forall|i: int| 0 <= i < rows.len() - 1 implies (
        #[trigger] rows.drop_last()[i]).session != name by {
            assert(rows.drop_last()[i] == rows[i]);
        }
        lemma_lanes_of_none(rows.drop_last(), name);
    }
}

proof fn lemma_lanes_of_has(rows: Seq<LaneRowView>, i: int)
    requires
        0 <= i < rows.len(),
    ensures
        lanes_of(rows, rows[i].session).contains(rows[i]),
    decreases rows.len(),
{
    let name = rows[i].session;
    let rest = rows.drop_last();
    if i < rows.len() - 1 {
        lemma_lanes_of_has(rest, i);
        assert(rest[i] == rows[i]);
        let k = lanes_of(rest, name).index_of(rows[i]);
        assert(lanes_of(rows, name)[k] == rows[i]);
    } else {
        let all = lanes_of(rows, name);
        assert(all[all.len() - 1] == rows[i]);
    }
}

proof fn lemma_lanes_of_come_from(rows: Seq<LaneRowView>, name: Seq<char>, row: LaneRowView)
    requires
        lanes_of(rows, name).contains(row),
    ensures
        rows.contains(row),
        row.session == name,
    decreases rows.len(),
{
    if rows.len() > 0 {
        let rest = rows.drop_last();
        let k = lanes_of(rows, name).index_of(row);
        if rows.last().session == name && k == lanes_of(rest, name).len() {
            assert(rows[rows.len() - 1] == row);
        } else {
            assert(lanes_of(rest, name)[k] == row);
            lemma_lanes_of_come_from(rest, name, row);
            let j = rest.index_of(row);
            assert(rows[j] == row);
        }
    }
}

/// A sorted board holds the lines that were to be sorted, and no others.
pub proof fn sorting_keeps_the_lines(
    sorted: Seq<LaneRowView>,
    rows: Seq<LaneRowView>,
    row: LaneRowView,
)
    requires
        sorts(sorted, rows),
    ensures
        sorted.contains(row) <==> rows.contains(row),
{
    let name = row.session;
    assert(lanes_of(sorted, name) == lanes_of(rows, name));
    if sorted.contains(row) {
        lemma_lanes_of_has(sorted, sorted.index_of(row));
        lemma_lanes_of_come_from(rows, name, row);
    }
    if rows.contains(row) {
        lemma_lanes_of_has(rows, rows.index_of(row));
        lemma_lanes_of_come_from(sorted, name, row);
    }
}

/// There is one way to sort the lines.
pub proof fn sorting_is_determined(
    sorted: Seq<LaneRowView>,
    other: Seq<LaneRowView>,
    rows: Seq<LaneRowView>,
)
    requires
        sorts(sorted, rows),
        sorts(other, rows),
    ensures
        sorted == other,
{
    assert forall|name: Seq<char>| #[trigger] lanes_of(sorted, name) == lanes_of(other, name) by {
        assert(lanes_of(sorted, name) == lanes_of(rows, name));
        assert(lanes_of(other, name) == lanes_of(rows, name));
    }
    lemma_same_lanes(sorted, other);
}

proof fn lemma_same_lanes(a: Seq<LaneRowView>, b: Seq<LaneRowView>)
    requires
        in_order(a),
        in_order(b),
        forall|name: Seq<char>| #[trigger] lanes_of(a, name) == lanes_of(b, name),
    ensures
        a == b,
    decreases a.len(),
{
    if a.len() == 0 {
        if b.len() > 0 {
            lemma_lanes_of_has(b, 0);
            assert(lanes_of(a, b[0].session) == lanes_of(b, b[0].session));
        }
        assert(a =~= b);
    } else {
        let x = a.last();
        lemma_lanes_of_has(a, a.len() - 1);
        assert(lanes_of(a, x.session) == lanes_of(b, x.session));
        lemma_lanes_of_come_from(b, x.session, x);
        let i = b.index_of(x);
        let y = b.last();
        lemma_lanes_of_has(b, b.len() - 1);
        assert(lanes_of(a, y.session) == lanes_of(b, y.session));
        lemma_lanes_of_come_from(a, y.session, y);
        let j = a.index_of(y);
        if i < b.len() - 1 && j < a.len() - 1 {
            assert(text_le(b[i].session, b[b.len() - 1].session));
            assert(text_le(a[j].session, a[a.len() - 1].session));
            text_le_is_antisymmetric(x.session, y.session);
        }
        assert(x.session == y.session);
        assert(lanes_of(a, x.session).last() == x);
        assert(lanes_of(b, x.session).last() == y);
        let s = a.drop_last();
        let t = b.drop_last();
        assert forall|name: Seq<char>| #[trigger] lanes_of(s, name) == lanes_of(t, name) by {
            assert(lanes_of(a, name) == lanes_of(b, name));
            if name == x.session {
                assert(lanes_of(s, name) =~= lanes_of(a, name).drop_last());
                assert(lanes_of(t, name) =~= lanes_of(b, name).drop_last());
            }
        }
        assert(in_order(s)) by {
            assert forall|i: int, j: int| 0 <= i < j < s.len() implies text_le(
                (#[trigger] s[i]).session,
                (#[trigger] s[j]).session,
            ) by {
                assert(text_le(a[i].session, a[j].session));
            }
        }
        assert(in_order(t)) by {
            assert forall|i: int, j: int| 0 <= i < j < t.len() implies text_le(
                (#[trigger] t[i]).session,
                (#[trigger] t[j]).session,
            ) by {
                assert(text_le(b[i].session, b[j].session));
            }
        }
        lemma_same_lanes(s, t);
        assert(a =~= s.push(x));
        assert(b =~= t.push(y));
    }
}

/// Puts a line into its place, behind those of its own session.
fn insert_lane(rows: &mut Vec<LaneRow>, row: LaneRow, Ghost(unsorted): Ghost<Seq<LaneRowView>>)
    requires
        sorts(lane_list(old(rows)@), unsorted),
    ensures
        sorts(lane_list(final(rows)@), unsorted.push(row@)),
{
    let ghost before = lane_list(rows@);
    let ghost new = row@;
    let mut p: usize = 0;
    while p < rows.len() && is_text_le(rows[p].session.as_str(), row.session.as_str())
        invariant
            p <= rows@.len(),
            *rows == *old(rows),
            before == lane_list(rows@),
            new == row@,
            forall|j: int|
                0 <= j < p ==> text_le((#[trigger] before[j]).session, new.session),
        decreases rows.len() - p,
    {
        assert(before[p as int] == rows@[p as int]@);
        p = p + 1;
    }
    if p < rows.len() {
        assert(before[p as int] == rows@[p as int]@);
    }
    rows.insert(p, row);
    let ghost after = before.insert(p as int, new);
    assert(lane_list(rows@) =~= after);
    proof {
        assert forall|j: int| p <= j < before.len() implies !text_le(
            (#[trigger] before[j]).session,
            new.session,
        ) by {
            if j > p {
                assert(text_le(before[p as int].session, before[j].session));
                if text_le(before[j].session, new.session) {
                    text_le_is_transitive(
                        before[p as int].session,
                        before[j].session,
                        new.session,
                    );
                }
            }
        }
        assert forall|a: int, b: int| 0 <= a < b < after.len() implies text_le(
            (#[trigger] after[a]).session,
            (#[trigger] after[b]).session,
        ) by {
            let x = if a < p { a } else { a - 1 };
            let y = if b < p { b } else { b - 1 };
            if a != p && b != p {
                assert(text_le(before[x].session, before[y].session));
            } else if a == p {
                text_le_is_total(before[y].session, new.session);
            }
        }
        let head = before.take(p as int);
        let tail = before.skip(p as int);
        assert(after =~= head + (seq![new] + tail));
        assert(before =~= head + tail);
        assert forall|name: Seq<char>| #[trigger] lanes_of(after, name) == lanes_of(
            unsorted.push(new),
            name,
        ) by {
            lemma_lanes_of_add(head, seq![new] + tail, name);
            lemma_lanes_of_add(seq![new], tail, name);
            lemma_lanes_of_add(head, tail, name);
            assert(lanes_of(before, name) == lanes_of(unsorted, name));
            assert(unsorted.push(new).drop_last() =~= unsorted);
            reveal_with_fuel(lanes_of, 2);
            assert(seq![new].drop_last() =~= Seq::<LaneRowView>::empty());
            if new.session == name {
                text_le_is_total(name, name);
                assert forall|i: int| 0 <= i < tail.len() implies (#[trigger] tail[i]).session
                    != name by {
                    assert(tail[i] == before[p + i]);
                }
                lemma_lanes_of_none(tail, name);
                assert(lanes_of(seq![new], name) =~= seq![new]);
                assert(lanes_of(after, name) =~= lanes_of(unsorted, name).push(new));
            } else {
                assert(lanes_of(seq![new], name) =~= Seq::<LaneRowView>::empty());
                assert(lanes_of(after, name) =~= lanes_of(unsorted, name));
            }
        }
    }
}

fn is_known(sessions: &[SessionRecord], name: &str) -> (yes: bool)
    ensures
        yes == known(session_list(sessions@), name@),
{
    let ghost all = session_list(sessions@);
    let mut i: usize = 0;
    while i < sessions.len()
        invariant
            i <= sessions@.len(),
            all == session_list(sessions@),
            forall|j: int| 0 <= j < i ==> (#[trigger] all[j]).tmux_session != name@,
        decreases sessions.len() - i,
    {
        assert(all[i as int] == sessions@[i as int]@);
        if str_eq(sessions[i].tmux_session.as_str(), name) {
            return true;
        }
        i = i + 1;
    }
    false
}

fn is_registered(registrations: &[RegisteredTmuxSession], n: usize, name: &str) -> (yes: bool)
    requires
        n <= registrations@.len(),
    ensures
        yes == registered(registration_list(registrations@).take(n as int), name@),
{
    let ghost first = registration_list(registrations@).take(n as int);
    let mut i: usize = 0;
    while i < n
        invariant
            i <= n <= registrations@.len(),
            first == registration_list(registrations@).take(n as int),
            forall|j: int| 0 <= j < i ==> (#[trigger] first[j]).session != name@,
        decreases n - i,
    {
        assert(first[i as int] == registrations@[i as int]@);
        if str_eq(registrations[i].session.as_str(), name) {
            return true;
        }
        i = i + 1;
    }
    false
}

fn find_intent<'a>(intents: &'a [WatchIntentRecord], name: &str) -> (found: Option<
    &'a WatchIntentRecord,
>)
    ensures
        match intent_for(intent_list(intents@), name@) {
            Some(intent) => found matches Some(x) && x@ == intent,
            None => found is None,
        },
{
    let ghost all = intent_list(intents@);
    let mut n: usize = intents.len();
    assert(all.take(n as int) =~= all);
    while n > 0
        invariant
            n <= intents@.len(),
            all == intent_list(intents@),
            intent_for(all.take(n as int), name@) == intent_for(all, name@),
        decreases n,
    {
        assert(all.take(n as int).last() == intents@[n - 1]@);
        assert(all.take(n as int).drop_last() =~= all.take(n - 1));
        if str_eq(intents[n - 1].tmux_session.as_str(), name) {
            return Some(&intents[n - 1]);
        }
        n = n - 1;
    }
    None
}

fn find_registration<'a>(registrations: &'a [RegisteredTmuxSession], name: &str) -> (found: Option<
    &'a RegisteredTmuxSession,
>)
    ensures
        match registration_for(registration_list(registrations@), name@) {
            Some(registration) => found matches Some(x) && x@ == registration,
            None => found is None,
        },
{
    let ghost all = registration_list(registrations@);
    let mut n: usize = registrations.len();
    assert(all.take(n as int) =~= all);
    while n > 0
        invariant
            n <= registrations@.len(),
            all == registration_list(registrations@),
            registration_for(all.take(n as int), name@) == registration_for(all, name@),
        decreases n,
    {
        assert(all.take(n as int).last() == registrations@[n - 1]@);
        assert(all.take(n as int).drop_last() =~= all.take(n - 1));
        if str_eq(registrations[n - 1].session.as_str(), name) {
            return Some(&registrations[n - 1]);
        }
        n = n - 1;
    }
    None
}

/// What the board says of a session of the ledger.
pub fn classify_ledger_session(session: &SessionRecord, live_tmux: bool, daemon_watch: bool) -> (
    status: LaneStatus)
    ensures
        status == ledger_status(session@, live_tmux, daemon_watch),
{
    if !live_tmux {
        return if session.workflow_status == WorkflowStatus::Active {
            LaneStatus::TmuxMissing
        } else {
            LaneStatus::WorkflowHandoff
        };
    }
    if session.state == SessionState::IgnoredAlive {
        return LaneStatus::IgnoredInfra;
    }
    if session.expected_watch && daemon_watch {
        return LaneStatus::HealthyAgent;
    }
    if session.expected_watch && !daemon_watch {
        return LaneStatus::LostMonitoring;
    }
    if !session.expected_watch && daemon_watch {
        return LaneStatus::ExternallyWatched;
    }
    LaneStatus::UnknownTmux
}

/// What the board says of a session that is there and that neither the ledger nor the daemon knows.
pub fn classify_unclaimed_tmux_session(session: &str, infra_prefixes: &[String]) -> (status:
    LaneStatus)
    ensures
        status == unclaimed_status(session@, views(infra_prefixes@)),
{
    let ghost prefixes = views(infra_prefixes@);
    let mut i: usize = 0;
    while i < infra_prefixes.len()
        invariant
            i <= infra_prefixes@.len(),
            prefixes == views(infra_prefixes@),
            forall|j: int| 0 <= j < i ==> !has_prefix(session@, #[trigger] prefixes[j]),
        decreases infra_prefixes.len() - i,
    {
        assert(prefixes[i as int] == infra_prefixes@[i as int]@);
        if starts_with(session, infra_prefixes[i].as_str()) {
            return LaneStatus::InfraCandidate;
        }
        i = i + 1;
    }
    LaneStatus::UnknownTmux
}

fn first_text(first: &Option<String>, second: &Option<String>) -> (text: Option<String>)
    ensures
        opt_view(text) == text_of_either(opt_view(*first), opt_view(*second)),
{
    if first.is_some() {
        clone_opt(first)
    } else {
        clone_opt(second)
    }
}

fn lane_of_session(
    session: &SessionRecord,
    intent: Option<&WatchIntentRecord>,
    registration: Option<&RegisteredTmuxSession>,
    live_tmux: bool,
) -> (row: LaneRow)
    ensures
        row@ == ledger_lane(
            session@,
            match intent {
                Some(x) => Some(x@),
                None => None,
            },
            match registration {
                Some(x) => Some(x@),
                None => None,
            },
            live_tmux,
        ),
{
    let daemon_watch = registration.is_some();
    let (daemon_channel, daemon_thread) = match registration {
        Some(r) => (clone_opt(&r.channel), clone_opt(&r.thread)),
        None => (None, None),
    };
    let (channel, thread, registration_source, restore_command) = match intent {
        Some(x) => (
            first_text(&x.channel, &daemon_channel),
            first_text(&x.thread, &daemon_thread),
            Some(x.registration_source),
            Some(x.restore_command_string()),
        ),
        None => (daemon_channel, daemon_thread, None, None),
    };
    LaneRow {
        session: session.tmux_session.clone(),
        status: classify_ledger_session(session, live_tmux, daemon_watch),
        workflow_status: session.workflow_status,
        runtime_status: RuntimeStatus::from_live_tmux(live_tmux),
        kind: session.kind,
        owner: session.owner.clone(),
        state: session.state,
        spawned_by_clawhip: session.spawned_by_clawhip,
        expected_watch: session.expected_watch,
        registration_source,
        live_tmux,
        daemon_watch,
        has_restore: intent.is_some(),
        channel,
        thread,
        repo_name: clone_opt(&session.repo_name),
        branch: clone_opt(&session.branch),
        restore_command,
    }
}

fn lane_of_registration(registration: &RegisteredTmuxSession, live_tmux: bool) -> (row: LaneRow)
    ensures
        row@ == daemon_lane(registration@, live_tmux),
{
    LaneRow {
        session: registration.session.clone(),
        status: LaneStatus::ExternallyWatched,
        workflow_status: WorkflowStatus::Active,
        runtime_status: RuntimeStatus::from_live_tmux(live_tmux),
        kind: SessionKind::Unknown,
        owner: SessionOwner::Unknown,
        state: SessionState::Healthy,
        spawned_by_clawhip: false,
        expected_watch: true,
        registration_source: Some(registration.registration_source),
        live_tmux,
        daemon_watch: true,
        has_restore: false,
        channel: clone_opt(&registration.channel),
        thread: clone_opt(&registration.thread),
        repo_name: clone_opt(&registration.routing.repo_name),
        branch: clone_opt(&registration.routing.branch),
        restore_command: None,
    }
}

fn lane_of_unclaimed(name: &str, infra_prefixes: &[String]) -> (row: LaneRow)
    ensures
        row@ == unclaimed_lane(name@, views(infra_prefixes@)),
{
    LaneRow {
        session: name.to_owned(),
        status: classify_unclaimed_tmux_session(name, infra_prefixes),
        workflow_status: WorkflowStatus::Active,
        runtime_status: RuntimeStatus::Live,
        kind: SessionKind::Unknown,
        owner: SessionOwner::Unknown,
        state: SessionState::Unknown,
        spawned_by_clawhip: false,
        expected_watch: false,
        registration_source: None,
        live_tmux: true,
        daemon_watch: false,
        has_restore: false,
        channel: None,
        thread: None,
        repo_name: None,
        branch: None,
        restore_command: None,
    }
}

/// The lane board: a line for each session of the ledger whose work is not over, for each session
/// that only the daemon watches, and for each tmux session that nobody claims, in the order of their
/// names.
pub fn classify_lanes(
    ledger_sessions: &[SessionRecord],
    watch_intents: &[WatchIntentRecord],
    daemon_registrations: &[RegisteredTmuxSession],
    live_tmux_sessions: &NameSet,
    infra_session_prefixes: &[String],
) -> (rows: Vec<LaneRow>)
    ensures
        sorts(
            lane_list(rows@),
            (BoardView {
                sessions: session_list(ledger_sessions@),
                intents: intent_list(watch_intents@),
                registrations: registration_list(daemon_registrations@),
                live: live_tmux_sessions@,
                infra_prefixes: views(infra_session_prefixes@),
            }).lanes(),
        ),
{
    let ghost board = BoardView {
        sessions: session_list(ledger_sessions@),
        intents: intent_list(watch_intents@),
        registrations: registration_list(daemon_registrations@),
        live: live_tmux_sessions@,
        infra_prefixes: views(infra_session_prefixes@),
    };
    let mut rows: Vec<LaneRow> = Vec::new();
    assert(lane_list(rows@) =~= board.ledger_lanes(0));
    let mut i: usize = 0;
    while i < ledger_sessions.len()
        invariant
            i <= ledger_sessions@.len() == board.sessions.len(),
            board.sessions == session_list(ledger_sessions@),
            board.intents == intent_list(watch_intents@),
            board.registrations == registration_list(daemon_registrations@),
            board.live == live_tmux_sessions@,
            sorts(lane_list(rows@), board.ledger_lanes(i as nat)),
        decreases ledger_sessions.len() - i,
    {
        let session = &ledger_sessions[i];
        assert(board.sessions[i as int] == session@);
        if !(session.workflow_status.is_terminal() || session.state == SessionState::Retired) {
            let name = session.tmux_session.as_str();
            let row = lane_of_session(
                session,
                find_intent(watch_intents, name),
                find_registration(daemon_registrations, name),
                live_tmux_sessions.contains(name),
            );
            assert(row@ == board.ledger_lane(session@));
            insert_lane(&mut rows, row, Ghost(board.ledger_lanes(i as nat)));
        }
        i = i + 1;
    }
    let ghost ledger = board.ledger_lanes(board.sessions.len());
    assert(ledger + board.daemon_lanes(0) =~= ledger);
    i = 0;
    while i < daemon_registrations.len()
        invariant
            i <= daemon_registrations@.len() == board.registrations.len(),
            board.sessions == session_list(ledger_sessions@),
            board.registrations == registration_list(daemon_registrations@),
            board.live == live_tmux_sessions@,
            sorts(lane_list(rows@), ledger + board.daemon_lanes(i as nat)),
        decreases daemon_registrations.len() - i,
    {
        let registration = &daemon_registrations[i];
        assert(board.registrations[i as int] == registration@);
        let name = registration.session.as_str();
        if !is_known(ledger_sessions, name) && !is_registered(daemon_registrations, i, name) {
            let row = lane_of_registration(registration, live_tmux_sessions.contains(name));
            let ghost new = row@;
            insert_lane(&mut rows, row, Ghost(ledger + board.daemon_lanes(i as nat)));
            assert((ledger + board.daemon_lanes(i as nat)).push(new) =~= ledger
                + board.daemon_lanes((i + 1) as nat));
        }
        i = i + 1;
    }
    let ghost watched = ledger + board.daemon_lanes(board.registrations.len());
    assert(watched + board.unclaimed_lanes(0) =~= watched);
    i = 0;
    assert(board.registrations.take(board.registrations.len() as int) =~= board.registrations);
    while i < live_tmux_sessions.len()
        invariant
            i <= live_tmux_sessions@.len() == board.live.len(),
            board.sessions == session_list(ledger_sessions@),
            board.registrations == registration_list(daemon_registrations@),
            board.registrations.take(board.registrations.len() as int) == board.registrations,
            board.live == live_tmux_sessions@,
            board.infra_prefixes == views(infra_session_prefixes@),
            sorts(lane_list(rows@), watched + board.unclaimed_lanes(i as nat)),
        decreases live_tmux_sessions@.len() - i,
    {
        let name = live_tmux_sessions.get(i);
        if !is_known(ledger_sessions, name) && !is_registered(
            daemon_registrations,
            daemon_registrations.len(),
            name,
        ) {
            let row = lane_of_unclaimed(name, infra_session_prefixes);
            let ghost new = row@;
            insert_lane(&mut rows, row, Ghost(watched + board.unclaimed_lanes(i as nat)));
            assert((watched + board.unclaimed_lanes(i as nat)).push(new) =~= watched
                + board.unclaimed_lanes((i + 1) as nat));
        }
        i = i + 1;
    }
    rows
}

/// Whether `row` is the line of a session of the ledger.
pub open spec fn from_ledger(board: BoardView, row: LaneRowView) -> bool {
    exists|i: int|
        0 <= i < board.sessions.len() && !hidden(#[trigger] board.sessions[i]) && row
            == board.ledger_lane(board.sessions[i])
}

/// Whether `row` is the line of the first registration of a session that the ledger does not know.
pub open spec fn from_daemon(board: BoardView, row: LaneRowView) -> bool {
    exists|i: int|
        0 <= i < board.registrations.len() && !known(
            board.sessions,
            (#[trigger] board.registrations[i]).session,
        ) && !registered(board.registrations.take(i), board.registrations[i].session) && row
            == board.daemon_lane(board.registrations[i])
}

/// Whether `row` is the line of a tmux session that neither the ledger nor the daemon knows.
pub open spec fn from_tmux(board: BoardView, row: LaneRowView) -> bool {
    exists|i: int|
        0 <= i < board.live.len() && !known(board.sessions, #[trigger] board.live[i])
            && !registered(board.registrations, board.live[i]) && row == unclaimed_lane(
            board.live[i],
            board.infra_prefixes,
        )
}

proof fn lemma_ledger_lanes(board: BoardView, n: nat, row: LaneRowView)
    requires
        n <= board.sessions.len(),
    ensures
        board.ledger_lanes(n).contains(row) <==> exists|i: int|
            0 <= i < n && !hidden(#[trigger] board.sessions[i]) && row == board.ledger_lane(
                board.sessions[i],
            ),
    decreases n,
{
    if n > 0 {
        let m = (n - 1) as nat;
        let before = board.ledger_lanes(m);
        let after = board.ledger_lanes(n);
        lemma_ledger_lanes(board, m, row);
        if after.contains(row) {
            let k = after.index_of(row);
            if k < before.len() {
                assert(before[k] == row);
            } else {
                assert(!hidden(board.sessions[n - 1]));
            }
        }
        if exists|i: int|
            0 <= i < n && !hidden(#[trigger] board.sessions[i]) && row == board.ledger_lane(
                board.sessions[i],
            ) {
            let i = choose|i: int|
                0 <= i < n && !hidden(#[trigger] board.sessions[i]) && row == board.ledger_lane(
                    board.sessions[i],
                );
            if i < m {
                assert(before.contains(row));
                assert(after[before.index_of(row)] == row);
            } else {
                assert(after[before.len() as int] == row);
            }
        }
    }
}

proof fn lemma_daemon_lanes(board: BoardView, n: nat, row: LaneRowView)
    requires
        n <= board.registrations.len(),
    ensures
        board.daemon_lanes(n).contains(row) <==> exists|i: int|
            0 <= i < n && !known(board.sessions, (#[trigger] board.registrations[i]).session)
                && !registered(board.registrations.take(i), board.registrations[i].session) && row
                == board.daemon_lane(board.registrations[i]),
    decreases n,
{
    if n > 0 {
        let m = (n - 1) as nat;
        let before = board.daemon_lanes(m);
        let after = board.daemon_lanes(n);
        lemma_daemon_lanes(board, m, row);
        if after.contains(row) {
            let k = after.index_of(row);
            if k < before.len() {
                assert(before[k] == row);
            } else {
                assert(row == board.daemon_lane(board.registrations[n - 1]));
            }
        }
        if exists|i: int|
            0 <= i < n && !known(board.sessions, (#[trigger] board.registrations[i]).session)
                && !registered(board.registrations.take(i), board.registrations[i].session) && row
                == board.daemon_lane(board.registrations[i]) {
            let i = choose|i: int|
                0 <= i < n && !known(board.sessions, (#[trigger] board.registrations[i]).session)
                    && !registered(board.registrations.take(i), board.registrations[i].session)
                    && row == board.daemon_lane(board.registrations[i]);
            if i < m {
                assert(before.contains(row));
                assert(after[before.index_of(row)] == row);
            } else {
                assert(after[before.len() as int] == row);
            }
        }
    }
}

proof fn lemma_unclaimed_lanes(board: BoardView, n: nat, row: LaneRowView)
    requires
        n <= board.live.len(),
    ensures
        board.unclaimed_lanes(n).contains(row) <==> exists|i: int|
            0 <= i < n && !known(board.sessions, #[trigger] board.live[i]) && !registered(
                board.registrations,
                board.live[i],
            ) && row == unclaimed_lane(board.live[i], board.infra_prefixes),
    decreases n,
{
    if n > 0 {
        let m = (n - 1) as nat;
        let before = board.unclaimed_lanes(m);
        let after = board.unclaimed_lanes(n);
        lemma_unclaimed_lanes(board, m, row);
        if after.contains(row) {
            let k = after.index_of(row);
            if k < before.len() {
                assert(before[k] == row);
            } else {
                assert(row == unclaimed_lane(board.live[n - 1], board.infra_prefixes));
            }
        }
        if exists|i: int|
            0 <= i < n && !known(board.sessions, #[trigger] board.live[i]) && !registered(
                board.registrations,
                board.live[i],
            ) && row == unclaimed_lane(board.live[i], board.infra_prefixes) {
            let i = choose|i: int|
                0 <= i < n && !known(board.sessions, #[trigger] board.live[i]) && !registered(
                    board.registrations,
                    board.live[i],
                ) && row == unclaimed_lane(board.live[i], board.infra_prefixes);
            if i < m {
                assert(before.contains(row));
                assert(after[before.index_of(row)] == row);
            } else {
                assert(after[before.len() as int] == row);
            }
        }
    }
}

/// The board holds exactly the lines of the ledger, of the daemon and of what nobody claims.
pub proof fn lines_of_the_board(board: BoardView, sorted: Seq<LaneRowView>, row: LaneRowView)
    requires
        sorts(sorted, board.lanes()),
    ensures
        sorted.contains(row) <==> from_ledger(board, row) || from_daemon(board, row) || from_tmux(
            board,
            row,
        ),
{
    sorting_keeps_the_lines(sorted, board.lanes(), row);
    lemma_ledger_lanes(board, board.sessions.len(), row);
    lemma_daemon_lanes(board, board.registrations.len(), row);
    lemma_unclaimed_lanes(board, board.live.len(), row);
    let a = board.ledger_lanes(board.sessions.len());
    let b = board.daemon_lanes(board.registrations.len());
    let c = board.unclaimed_lanes(board.live.len());
    let all = board.lanes();
    if all.contains(row) {
        let k = all.index_of(row);
        if k < a.len() {
            assert(a[k] == row);
        } else if k < a.len() + b.len() {
            assert(b[k - a.len()] == row);
        } else {
            assert(c[k - a.len() - b.len()] == row);
        }
    }
    if a.contains(row) {
        assert(all[a.index_of(row)] == row);
    }
    if b.contains(row) {
        assert(all[a.len() + b.index_of(row)] == row);
    }
    if c.contains(row) {
        assert(all[a.len() + b.len() + c.index_of(row)] == row);
    }
}

/// A session that the ledger knows, and whose work is over in all that the ledger says of it, is not
/// on the board: not even where the daemon watches it or its tmux session is there.
pub proof fn finished_sessions_are_hidden(
    board: BoardView,
    sorted: Seq<LaneRowView>,
    name: Seq<char>,
)
    requires
        sorts(sorted, board.lanes()),
        known(board.sessions, name),
        forall|i: int|
            0 <= i < board.sessions.len() && (#[trigger] board.sessions[i]).tmux_session == name
                ==> hidden(board.sessions[i]),
    ensures
        forall|k: int| 0 <= k < sorted.len() ==> (#[trigger] sorted[k]).session != name,
{
    assert forall|k: int| 0 <= k < sorted.len() implies (#[trigger] sorted[k]).session != name by {
        let row = sorted[k];
        assert(sorted.contains(row));
        lines_of_the_board(board, sorted, row);
    }
}

/// A session of the ledger whose work is not over is on the board.
pub proof fn unfinished_sessions_are_shown(board: BoardView, sorted: Seq<LaneRowView>, i: int)
    requires
        sorts(sorted, board.lanes()),
        0 <= i < board.sessions.len(),
        !hidden(board.sessions[i]),
    ensures
        sorted.contains(board.ledger_lane(board.sessions[i])),
{
    lines_of_the_board(board, sorted, board.ledger_lane(board.sessions[i]));
}

/// A session that the daemon watches and the ledger does not know is on the board as externally
/// watched.
pub proof fn watched_strangers_are_shown(
    board: BoardView,
    sorted: Seq<LaneRowView>,
    name: Seq<char>,
)
    requires
        sorts(sorted, board.lanes()),
        registered(board.registrations, name),
        !known(board.sessions, name),
    ensures
        exists|k: int|
            0 <= k < sorted.len() && (#[trigger] sorted[k]).session == name && sorted[k].status
                == LaneStatus::ExternallyWatched,
{
    let i = choose|i: int|
        0 <= i < board.registrations.len() && (#[trigger] board.registrations[i]).session == name;
    let first = lemma_first_registration(board.registrations, name, i);
    let row = board.daemon_lane(board.registrations[first]);
    assert(from_daemon(board, row));
    lines_of_the_board(board, sorted, row);
    assert(sorted[sorted.index_of(row)] == row);
}

proof fn lemma_first_registration(
    registrations: Seq<RegisteredTmuxSessionView>,
    name: Seq<char>,
    i: int,
) -> (first: int)
    requires
        0 <= i < registrations.len(),
        registrations[i].session == name,
    ensures
        0 <= first <= i,
        registrations[first].session == name,
        !registered(registrations.take(first), name),
    decreases i,
{
    if registered(registrations.take(i), name) {
        let before = registrations.take(i);
        let j = choose|j: int|
            0 <= j < before.len() && (#[trigger] before[j]).session == name;
        assert(registrations[j] == before[j]);
        lemma_first_registration(registrations, name, j)
    } else {
        i
    }
}

/// A tmux session that is there and that neither the ledger nor the daemon knows is on the board.
pub proof fn unclaimed_sessions_are_shown(
    board: BoardView,
    sorted: Seq<LaneRowView>,
    name: Seq<char>,
)
    requires
        sorts(sorted, board.lanes()),
        board.live.contains(name),
        !known(board.sessions, name),
        !registered(board.registrations, name),
    ensures
        sorted.contains(unclaimed_lane(name, board.infra_prefixes)),
{
    let i = board.live.index_of(name);
    assert(board.live[i] == name);
    assert(from_tmux(board, unclaimed_lane(name, board.infra_prefixes)));
    lines_of_the_board(board, sorted, unclaimed_lane(name, board.infra_prefixes));
}

/// Every line says truly whether its tmux session is there and whether the daemon watches it; it
/// has a restore command exactly where it says so.
pub proof fn lines_tell_what_is_there(board: BoardView, sorted: Seq<LaneRowView>, k: int)
    requires
        sorts(sorted, board.lanes()),
        0 <= k < sorted.len(),
    ensures
        sorted[k].live_tmux == board.live.contains(sorted[k].session),
        sorted[k].runtime_status == RuntimeStatus::of_live(sorted[k].live_tmux),
        sorted[k].daemon_watch == registered(board.registrations, sorted[k].session),
        sorted[k].has_restore == (sorted[k].restore_command is Some),
{
    let row = sorted[k];
    assert(sorted.contains(row));
    lines_of_the_board(board, sorted, row);
    lemma_registration_for_is_registered(board.registrations, row.session);
    if from_daemon(board, row) {
        let i = choose|i: int|
            0 <= i < board.registrations.len() && !known(
                board.sessions,
                (#[trigger] board.registrations[i]).session,
            ) && !registered(board.registrations.take(i), board.registrations[i].session) && row
                == board.daemon_lane(board.registrations[i]);
        assert(registered(board.registrations, board.registrations[i].session));
    }
    if from_tmux(board, row) {
        let i = choose|i: int|
            0 <= i < board.live.len() && !known(board.sessions, #[trigger] board.live[i])
                && !registered(board.registrations, board.live[i]) && row == unclaimed_lane(
                board.live[i],
                board.infra_prefixes,
            );
        assert(board.live.contains(board.live[i]));
    }
}

proof fn lemma_registration_for_is_registered(
    registrations: Seq<RegisteredTmuxSessionView>,
    name: Seq<char>,
)
    ensures
        registration_for(registrations, name) is Some <==> registered(registrations, name),
    decreases registrations.len(),
{
    if registrations.len() > 0 {
        let rest = registrations.drop_last();
        lemma_registration_for_is_registered(rest, name);
        if registered(registrations, name) {
            let i = choose|i: int|
                0 <= i < registrations.len() && (#[trigger] registrations[i]).session == name;
            if i < rest.len() {
                assert(rest[i].session == name);
            }
        }
        if registered(rest, name) {
            let i = choose|i: int| 0 <= i < rest.len() && (#[trigger] rest[i]).session == name;
            assert(registrations[i].session == name);
        }
        if registrations.last().session == name {
            assert(registrations[registrations.len() - 1].session == name);
        }
    }
}

/// Where its tmux session is gone, an unfinished session of the ledger is shown as missing while its
/// work is active, even where it was to be ignored, and as a handoff in every other case; and no line
/// is shown so in any other way.
pub proof fn missing_sessions_are_told_apart(board: BoardView, sorted: Seq<LaneRowView>, k: int)
    requires
        sorts(sorted, board.lanes()),
        0 <= k < sorted.len(),
    ensures
        sorted[k].status == LaneStatus::TmuxMissing <==> known(board.sessions, sorted[k].session)
            && !sorted[k].live_tmux && sorted[k].workflow_status == WorkflowStatus::Active,
        sorted[k].status == LaneStatus::WorkflowHandoff <==> known(
            board.sessions,
            sorted[k].session,
        ) && !sorted[k].live_tmux && sorted[k].workflow_status != WorkflowStatus::Active,
        !sorted[k].workflow_status.terminal(),
{
    let row = sorted[k];
    assert(sorted.contains(row));
    lines_of_the_board(board, sorted, row);
    if from_ledger(board, row) {
        let i = choose|i: int|
            0 <= i < board.sessions.len() && !hidden(#[trigger] board.sessions[i]) && row
                == board.ledger_lane(board.sessions[i]);
        assert(known(board.sessions, row.session));
    }
}

proof fn lemma_ledger_lanes_single(board: BoardView, n: nat, name: Seq<char>)
    requires
        n <= board.sessions.len(),
        forall|i: int, j: int|
            0 <= i < j < board.sessions.len() ==> (#[trigger] board.sessions[i]).tmux_session != (
            #[trigger] board.sessions[j]).tmux_session,
    ensures
        lanes_of(board.ledger_lanes(n), name).len() <= 1,
        (forall|i: int| 0 <= i < n ==> (#[trigger] board.sessions[i]).tmux_session != name)
            ==> lanes_of(board.ledger_lanes(n), name).len() == 0,
    decreases n,
{
    if n > 0 {
        let m = (n - 1) as nat;
        lemma_ledger_lanes_single(board, m, name);
        let before = board.ledger_lanes(m);
        let session = board.sessions[n - 1];
        if !hidden(session) {
            assert(before.push(board.ledger_lane(session)).drop_last() =~= before);
        }
    }
}

proof fn lemma_daemon_lanes_single(board: BoardView, n: nat, name: Seq<char>)
    requires
        n <= board.registrations.len(),
    ensures
        lanes_of(board.daemon_lanes(n), name).len() <= 1,
        known(board.sessions, name) || !registered(board.registrations.take(n as int), name)
            ==> lanes_of(board.daemon_lanes(n), name).len() == 0,
    decreases n,
{
    if n > 0 {
        let m = (n - 1) as nat;
        lemma_daemon_lanes_single(board, m, name);
        let before = board.daemon_lanes(m);
        let registration = board.registrations[n - 1];
        let less = board.registrations.take(m as int);
        let more = board.registrations.take(n as int);
        assert(before.push(board.daemon_lane(registration)).drop_last() =~= before);
        if registered(less, name) {
            let i = choose|i: int| 0 <= i < less.len() && (#[trigger] less[i]).session == name;
            assert(more[i].session == name);
        }
        assert(more[n - 1] == registration);
    }
}

proof fn lemma_unclaimed_lanes_single(board: BoardView, n: nat, name: Seq<char>)
    requires
        n <= board.live.len(),
        sorted_names(board.live),
    ensures
        lanes_of(board.unclaimed_lanes(n), name).len() <= 1,
        known(board.sessions, name) || registered(board.registrations, name) || !board.live.take(
            n as int,
        ).contains(name) ==> lanes_of(board.unclaimed_lanes(n), name).len() == 0,
    decreases n,
{
    if n > 0 {
        let m = (n - 1) as nat;
        lemma_unclaimed_lanes_single(board, m, name);
        let before = board.unclaimed_lanes(m);
        let last = board.live[n - 1];
        let less = board.live.take(m as int);
        let more = board.live.take(n as int);
        assert(before.push(unclaimed_lane(last, board.infra_prefixes)).drop_last() =~= before);
        if less.contains(name) {
            let i = less.index_of(name);
            assert(more[i] == name);
            assert(text_lt(board.live[i], last));
        }
        assert(more[n - 1] == last);
    }
}

/// Where the ledger names no session twice, the board names none twice: its lines stand in strict
/// order.
pub proof fn no_session_is_shown_twice(board: BoardView, sorted: Seq<LaneRowView>)
    requires
        sorts(sorted, board.lanes()),
        sorted_names(board.live),
        forall|i: int, j: int|
            0 <= i < j < board.sessions.len() ==> (#[trigger] board.sessions[i]).tmux_session != (
            #[trigger] board.sessions[j]).tmux_session,
    ensures
        forall|i: int, j: int|
            0 <= i < j < sorted.len() ==> text_lt(
                (#[trigger] sorted[i]).session,
                (#[trigger] sorted[j]).session,
            ),
{
    let a = board.ledger_lanes(board.sessions.len());
    let b = board.daemon_lanes(board.registrations.len());
    let c = board.unclaimed_lanes(board.live.len());
    assert forall|i: int, j: int| 0 <= i < j < sorted.len() implies text_lt(
        (#[trigger] sorted[i]).session,
        (#[trigger] sorted[j]).session,
    ) by {
        if sorted[i].session == sorted[j].session {
            let name = sorted[i].session;
            lemma_lanes_of_add(a + b, c, name);
            lemma_lanes_of_add(a, b, name);
            lemma_ledger_lanes_single(board, board.sessions.len(), name);
            lemma_daemon_lanes_single(board, board.registrations.len(), name);
            lemma_unclaimed_lanes_single(board, board.live.len(), name);
            assert(board.registrations.take(board.registrations.len() as int)
                =~= board.registrations);
            assert(lanes_of(sorted, name) == lanes_of(board.lanes(), name));
            assert(lanes_of(board.lanes(), name).len() <= 1);
            let head = sorted.take(j);
            let tail = sorted.skip(j);
            assert(sorted =~= head + tail);
            lemma_lanes_of_add(head, tail, name);
            assert(head[i] == sorted[i] && tail[0] == sorted[j]);
            lemma_lanes_of_has(head, i);
            lemma_lanes_of_has(tail, 0);
        }
    }
}

} // verus!
