//! What the lines of the lane board say, in terms of what the board is made of.

use vstd::prelude::*;
use vstd::string::*;

use crate::lanes::{
    daemon_lane, from_ledger, from_tmux, hidden, intent_for, known, lines_of_the_board, registered,
    registration_for, sorts, unclaimed_lane, unclaimed_status, BoardView, LaneRowView,
};
use crate::records::{SessionRecordView, WatchIntentRecordView};
use crate::registration::RegisteredTmuxSessionView;
use crate::status::{
    LaneStatus, RuntimeStatus, SessionKind, SessionOwnerView, SessionState, WorkflowStatus,
};
use crate::text::{has_prefix, text_le};
use crate::text_laws::prefixes_stand_in_front;

verus! {

/// Whether the `i`-th session of the ledger has the name `name`.
pub open spec fn session_at(board: BoardView, i: int, name: Seq<char>) -> bool {
    0 <= i < board.sessions.len() && board.sessions[i].tmux_session == name
}

/// Whether the `i`-th watch intent is the last of the session `name`.
pub open spec fn last_intent_at(board: BoardView, i: int, name: Seq<char>) -> bool {
    &&& 0 <= i < board.intents.len()
    &&& board.intents[i].tmux_session == name
    &&& forall|j: int| i < j < board.intents.len() ==> (#[trigger] board.intents[j]).tmux_session
        != name
}

/// Whether the `i`-th registration is the last of the session `name`.
pub open spec fn last_registration_at(board: BoardView, i: int, name: Seq<char>) -> bool {
    &&& 0 <= i < board.registrations.len()
    &&& board.registrations[i].session == name
    &&& forall|j: int|
        i < j < board.registrations.len() ==> (#[trigger] board.registrations[j]).session != name
}

/// Whether the `i`-th registration is the first of the session `name`.
pub open spec fn first_registration_at(board: BoardView, i: int, name: Seq<char>) -> bool {
    &&& 0 <= i < board.registrations.len()
    &&& board.registrations[i].session == name
    &&& forall|j: int| 0 <= j < i ==> (#[trigger] board.registrations[j]).session != name
}

/// Whether the work that a record tells of goes on: it is not completed, superseded, cancelled or
/// retired, and neither is the session.
pub open spec fn goes_on(session: SessionRecordView) -> bool {
    &&& session.state != SessionState::Retired
    &&& match session.workflow_status {
        WorkflowStatus::Completed => false,
        WorkflowStatus::Superseded => false,
        WorkflowStatus::Cancelled => false,
        WorkflowStatus::Retired => false,
        WorkflowStatus::Active => true,
        WorkflowStatus::NeedsReview => true,
        WorkflowStatus::NeedsQa => true,
        WorkflowStatus::PrOpen => true,
        WorkflowStatus::AwaitingCi => true,
        WorkflowStatus::AwaitingHuman => true,
    }
}

/// Whether a line tells what a record of the ledger says, field by field.
pub open spec fn tells(row: LaneRowView, session: SessionRecordView) -> bool {
    &&& row.session == session.tmux_session
    &&& row.workflow_status == session.workflow_status
    &&& row.kind == session.kind
    &&& row.owner == session.owner
    &&& row.state == session.state
    &&& row.spawned_by_clawhip == session.spawned_by_clawhip
    &&& row.expected_watch == session.expected_watch
    &&& row.repo_name == session.repo_name
    &&& row.branch == session.branch
}

proof fn lemma_hidden(session: SessionRecordView)
    ensures
        hidden(session) == !goes_on(session),
{
}

/// Every line of a session that the ledger knows tells what a record of it says whose work goes on;
/// and every such record is told.
pub proof fn ledger_lines_tell_the_records(board: BoardView, sorted: Seq<LaneRowView>)
    requires
        sorts(sorted, board.lanes()),
    ensures
        forall|k: int|
            0 <= k < sorted.len() && (exists|i: int|
                #[trigger] session_at(board, i, sorted[k].session)) ==> exists|i: int|
                0 <= i < board.sessions.len() && goes_on(#[trigger] board.sessions[i]) && tells(
                    #[trigger] sorted[k],
                    board.sessions[i],
                ),
        forall|i: int|
            0 <= i < board.sessions.len() && goes_on(#[trigger] board.sessions[i])
                ==> exists|k: int|
                0 <= k < sorted.len() && tells(#[trigger] sorted[k], board.sessions[i]),
{
    assert forall|k: int|
        0 <= k < sorted.len() && (exists|i: int| #[trigger] session_at(
            board,
            i,
            sorted[k].session,
        )) implies exists|i: int|
        0 <= i < board.sessions.len() && goes_on(#[trigger] board.sessions[i]) && tells(
            #[trigger] sorted[k],
            board.sessions[i],
        ) by {
        let row = sorted[k];
        let j = choose|i: int| #[trigger] session_at(board, i, sorted[k].session);
        assert(board.sessions[j].tmux_session == row.session);
        assert(sorted.contains(row));
        lines_of_the_board(board, sorted, row);
        assert(known(board.sessions, row.session));
        assert(from_ledger(board, row));
        let i = choose|i: int|
            0 <= i < board.sessions.len() && !hidden(#[trigger] board.sessions[i]) && row
                == board.ledger_lane(board.sessions[i]);
        assert(goes_on(board.sessions[i]) && tells(row, board.sessions[i]));
    }
    assert forall|i: int|
        0 <= i < board.sessions.len() && goes_on(#[trigger] board.sessions[i]) implies exists|
        k: int,
    | 0 <= k < sorted.len() && tells(#[trigger] sorted[k], board.sessions[i]) by {
        let row = board.ledger_lane(board.sessions[i]);
        lines_of_the_board(board, sorted, row);
        let k = sorted.index_of(row);
        assert(sorted[k] == row);
    }
}

/// A session that the ledger knows is on the board exactly where the work of one of its records
/// goes on, whatever the daemon and tmux know of it.
pub proof fn finished_work_is_not_shown(
    board: BoardView,
    sorted: Seq<LaneRowView>,
    name: Seq<char>,
)
    requires
        sorts(sorted, board.lanes()),
        exists|i: int| #[trigger] session_at(board, i, name),
    ensures
        (exists|k: int| 0 <= k < sorted.len() && (#[trigger] sorted[k]).session == name)
            <==> exists|i: int|
            #[trigger] session_at(board, i, name) && goes_on(board.sessions[i]),
{
    ledger_lines_tell_the_records(board, sorted);
    if exists|k: int| 0 <= k < sorted.len() && (#[trigger] sorted[k]).session == name {
        let k = choose|k: int| 0 <= k < sorted.len() && (#[trigger] sorted[k]).session == name;
        let i = choose|i: int|
            0 <= i < board.sessions.len() && goes_on(#[trigger] board.sessions[i]) && tells(
                sorted[k],
                board.sessions[i],
            );
        assert(session_at(board, i, name));
    }
    if exists|i: int| #[trigger] session_at(board, i, name) && goes_on(board.sessions[i]) {
        let i = choose|i: int|
            #[trigger] session_at(board, i, name) && goes_on(board.sessions[i]);
        let k = choose|k: int|
            0 <= k < sorted.len() && tells(#[trigger] sorted[k], board.sessions[i]);
        assert(sorted[k].session == name);
    }
}

/// A line of a session of the ledger says by its own fields what is up with it. Where the tmux
/// session is gone: missing while the work is active, else a handoff. Where it is there: ignored
/// where the session is to be; else healthy where a watch is expected and the daemon watches, lost
/// where it is expected and the daemon does not, externally watched where the daemon watches
/// unexpectedly, and unknown where neither is so. Nothing else about the session matters.
pub proof fn ledger_lines_say_what_is_up(board: BoardView, sorted: Seq<LaneRowView>, k: int)
    requires
        sorts(sorted, board.lanes()),
        0 <= k < sorted.len(),
        exists|i: int| #[trigger] session_at(board, i, sorted[k].session),
    ensures
        ({
            let row = sorted[k];
            let watched = row.live_tmux && row.state != SessionState::IgnoredAlive;
            &&& row.status == LaneStatus::TmuxMissing <==> !row.live_tmux && row.workflow_status
                == WorkflowStatus::Active
            &&& row.status == LaneStatus::WorkflowHandoff <==> !row.live_tmux
                && row.workflow_status != WorkflowStatus::Active
            &&& row.status == LaneStatus::IgnoredInfra <==> row.live_tmux && row.state
                == SessionState::IgnoredAlive
            &&& row.status == LaneStatus::HealthyAgent <==> watched && row.expected_watch
                && row.daemon_watch
            &&& row.status == LaneStatus::LostMonitoring <==> watched && row.expected_watch
                && !row.daemon_watch
            &&& row.status == LaneStatus::ExternallyWatched <==> watched && !row.expected_watch
                && row.daemon_watch
            &&& row.status == LaneStatus::UnknownTmux <==> watched && !row.expected_watch
                && !row.daemon_watch
            &&& row.status != LaneStatus::InfraCandidate
        }),
{
    let row = sorted[k];
    let j = choose|i: int| #[trigger] session_at(board, i, sorted[k].session);
    assert(board.sessions[j].tmux_session == row.session);
    assert(sorted.contains(row));
    lines_of_the_board(board, sorted, row);
    assert(known(board.sessions, row.session));
    assert(from_ledger(board, row));
}

/// Every line says truly whether its tmux session is there and whether the daemon has it
/// registered.
pub proof fn lines_say_what_is_there(board: BoardView, sorted: Seq<LaneRowView>, k: int)
    requires
        sorts(sorted, board.lanes()),
        0 <= k < sorted.len(),
    ensures
        sorted[k].live_tmux <==> exists|i: int|
            0 <= i < board.live.len() && #[trigger] board.live[i] == sorted[k].session,
        sorted[k].live_tmux ==> sorted[k].runtime_status == RuntimeStatus::Live,
        !sorted[k].live_tmux ==> sorted[k].runtime_status == RuntimeStatus::TmuxMissing,
        sorted[k].daemon_watch <==> exists|i: int|
            0 <= i < board.registrations.len() && (#[trigger] board.registrations[i]).session
                == sorted[k].session,
{
    crate::lanes::lines_tell_what_is_there(board, sorted, k);
    let row = sorted[k];
    if board.live.contains(row.session) {
        assert(board.live[board.live.index_of(row.session)] == row.session);
    }
}

proof fn lemma_intent_for(intents: Seq<WatchIntentRecordView>, name: Seq<char>) -> (at: Option<int>)
    ensures
        match at {
            None => intent_for(intents, name) is None && forall|j: int|
                0 <= j < intents.len() ==> (#[trigger] intents[j]).tmux_session != name,
            Some(i) => 0 <= i < intents.len() && intents[i].tmux_session == name && intent_for(
                intents,
                name,
            ) == Some(intents[i]) && forall|j: int|
                i < j < intents.len() ==> (#[trigger] intents[j]).tmux_session != name,
        },
    decreases intents.len(),
{
    if intents.len() == 0 {
        None
    } else if intents.last().tmux_session == name {
        Some(intents.len() - 1)
    } else {
        let rest = intents.drop_last();
        let at = lemma_intent_for(rest, name);
        let from = match at {
            None => 0,
            Some(i) => i + 1,
        };
        assert forall|j: int| from <= j < intents.len() implies (#[trigger] intents[j]).tmux_session
            != name by {
            if j < rest.len() {
                assert(rest[j] == intents[j]);
            }
        }
        at
    }
}

proof fn lemma_registration_for(
    registrations: Seq<RegisteredTmuxSessionView>,
    name: Seq<char>,
) -> (at: Option<int>)
    ensures
        match at {
            None => registration_for(registrations, name) is None && forall|j: int|
                0 <= j < registrations.len() ==> (#[trigger] registrations[j]).session != name,
            Some(i) => 0 <= i < registrations.len() && registrations[i].session == name && registration_for(
                registrations,
                name,
            ) == Some(registrations[i]) && forall|j: int|
                i < j < registrations.len() ==> (#[trigger] registrations[j]).session != name,
        },
    decreases registrations.len(),
{
    if registrations.len() == 0 {
        None
    } else if registrations.last().session == name {
        Some(registrations.len() - 1)
    } else {
        let rest = registrations.drop_last();
        let at = lemma_registration_for(rest, name);
        let from = match at {
            None => 0,
            Some(i) => i + 1,
        };
        assert forall|j: int| from <= j < registrations.len() implies (#[trigger] registrations[j]).session
            != name by {
            if j < rest.len() {
                assert(rest[j] == registrations[j]);
            }
        }
        at
    }
}

/// A line of a session of the ledger takes the way to restore it from the last watch intent for the
/// session, and where to post from that intent or, where it does not say, from the last
/// registration.
pub proof fn ledger_lines_tell_how_to_restore(
    board: BoardView,
    sorted: Seq<LaneRowView>,
    k: int,
    intent: int,
    registration: int,
)
    requires
        sorts(sorted, board.lanes()),
        0 <= k < sorted.len(),
        exists|i: int| #[trigger] session_at(board, i, sorted[k].session),
    ensures
        ({
            let row = sorted[k];
            let name = row.session;
            let no_intent = forall|j: int|
                0 <= j < board.intents.len() ==> (#[trigger] board.intents[j]).tmux_session != name;
            let no_registration = forall|j: int|
                0 <= j < board.registrations.len() ==> (#[trigger] board.registrations[j]).session
                    != name;
            &&& last_intent_at(board, intent, name) ==> {
                let wish = board.intents[intent];
                &&& row.has_restore
                &&& row.registration_source == Some(wish.registration_source)
                &&& row.restore_command == Some(wish.restore_line())
                &&& wish.channel is Some ==> row.channel == wish.channel
                &&& wish.thread is Some ==> row.thread == wish.thread
                &&& no_registration ==> row.channel == wish.channel && row.thread == wish.thread
            }
            &&& no_intent ==> !row.has_restore && row.registration_source is None
                && row.restore_command is None
            &&& no_intent && no_registration ==> row.channel is None && row.thread is None
            &&& last_registration_at(board, registration, name) && (no_intent || (last_intent_at(
                board,
                intent,
                name,
            ) && board.intents[intent].channel is None)) ==> row.channel
                == board.registrations[registration].channel
            &&& last_registration_at(board, registration, name) && (no_intent || (last_intent_at(
                board,
                intent,
                name,
            ) && board.intents[intent].thread is None)) ==> row.thread
                == board.registrations[registration].thread
        }),
{
    let row = sorted[k];
    let j = choose|i: int| #[trigger] session_at(board, i, sorted[k].session);
    assert(board.sessions[j].tmux_session == row.session);
    assert(sorted.contains(row));
    lines_of_the_board(board, sorted, row);
    assert(known(board.sessions, row.session));
    assert(from_ledger(board, row));
    let last = lemma_intent_for(board.intents, row.session);
    let newest = lemma_registration_for(board.registrations, row.session);
    if last_intent_at(board, intent, row.session) {
        assert(board.intents[intent].tmux_session == row.session);
        assert(last == Some(intent));
    }
    if last_registration_at(board, registration, row.session) {
        assert(board.registrations[registration].session == row.session);
        assert(newest == Some(registration));
    }
}

/// A session that only the daemon knows has the line of its first registration: externally watched,
/// with what the registration says of it and nothing that only the ledger could say.
pub proof fn daemon_lines_tell_the_registration(
    board: BoardView,
    sorted: Seq<LaneRowView>,
    k: int,
    first: int,
)
    requires
        sorts(sorted, board.lanes()),
        0 <= k < sorted.len(),
        forall|i: int| !#[trigger] session_at(board, i, sorted[k].session),
        first_registration_at(board, first, sorted[k].session),
    ensures
        ({
            let row = sorted[k];
            let registration = board.registrations[first];
            &&& row.status == LaneStatus::ExternallyWatched
            &&& row.workflow_status == WorkflowStatus::Active
            &&& row.kind == SessionKind::Unknown
            &&& row.owner == SessionOwnerView::Unknown
            &&& row.state == SessionState::Healthy
            &&& !row.spawned_by_clawhip && row.expected_watch
            &&& row.registration_source == Some(registration.registration_source)
            &&& row.channel == registration.channel
            &&& row.thread == registration.thread
            &&& row.repo_name == registration.routing.repo_name
            &&& row.branch == registration.routing.branch
            &&& !row.has_restore && row.restore_command is None
        }),
{
    let row = sorted[k];
    assert(sorted.contains(row));
    lines_of_the_board(board, sorted, row);
    if from_ledger(board, row) {
        let i = choose|i: int|
            0 <= i < board.sessions.len() && !hidden(#[trigger] board.sessions[i]) && row
                == board.ledger_lane(board.sessions[i]);
        assert(session_at(board, i, row.session));
    }
    if from_tmux(board, row) {
        assert(registered(board.registrations, row.session));
    }
    let i = choose|i: int|
        0 <= i < board.registrations.len() && !known(
            board.sessions,
            (#[trigger] board.registrations[i]).session,
        ) && !registered(board.registrations.take(i), board.registrations[i].session) && row
            == board.daemon_lane(board.registrations[i]);
    if first < i {
        assert(board.registrations.take(i)[first].session == row.session);
    }
    assert(i == first);
}

/// Every session that only the daemon knows is on the board.
pub proof fn registered_sessions_are_shown(
    board: BoardView,
    sorted: Seq<LaneRowView>,
    i: int,
)
    requires
        sorts(sorted, board.lanes()),
        0 <= i < board.registrations.len(),
        forall|j: int| !#[trigger] session_at(board, j, board.registrations[i].session),
    ensures
        exists|k: int|
            0 <= k < sorted.len() && (#[trigger] sorted[k]).session
                == board.registrations[i].session,
{
    let name = board.registrations[i].session;
    assert(registered(board.registrations, name));
    if known(board.sessions, name) {
        let j = choose|j: int|
            0 <= j < board.sessions.len() && (#[trigger] board.sessions[j]).tmux_session == name;
        assert(session_at(board, j, name));
    }
    crate::lanes::watched_strangers_are_shown(board, sorted, name);
}

/// A tmux session that is there and that nobody knows is on the board, and its line says nothing of
/// it but that it is there: a candidate for infrastructure exactly where its name begins with one
/// of the configured prefixes.
pub proof fn unclaimed_lines_say_little(
    board: BoardView,
    sorted: Seq<LaneRowView>,
    name: Seq<char>,
)
    requires
        sorts(sorted, board.lanes()),
        exists|i: int| 0 <= i < board.live.len() && #[trigger] board.live[i] == name,
        forall|i: int| !#[trigger] session_at(board, i, name),
        forall|i: int|
            0 <= i < board.registrations.len() ==> (#[trigger] board.registrations[i]).session
                != name,
    ensures
        exists|k: int| 0 <= k < sorted.len() && (#[trigger] sorted[k]).session == name,
        forall|k: int|
            0 <= k < sorted.len() && (#[trigger] sorted[k]).session == name ==> {
                let row = sorted[k];
                let hinted = exists|p: int| #[trigger]
                    begins_with(name, board.infra_prefixes, p);
                &&& row.status == if hinted {
                    LaneStatus::InfraCandidate
                } else {
                    LaneStatus::UnknownTmux
                }
                &&& row.workflow_status == WorkflowStatus::Active
                &&& row.kind == SessionKind::Unknown
                &&& row.owner == SessionOwnerView::Unknown
                &&& row.state == SessionState::Unknown
                &&& !row.spawned_by_clawhip && !row.expected_watch && !row.has_restore
                &&& row.registration_source is None && row.channel is None && row.thread is None
                &&& row.repo_name is None && row.branch is None && row.restore_command is None
            },
{
    if known(board.sessions, name) {
        let j = choose|j: int|
            0 <= j < board.sessions.len() && (#[trigger] board.sessions[j]).tmux_session == name;
        assert(session_at(board, j, name));
    }
    let at = choose|i: int| 0 <= i < board.live.len() && #[trigger] board.live[i] == name;
    assert(board.live.contains(name));
    let line = unclaimed_lane(name, board.infra_prefixes);
    crate::lanes::unclaimed_sessions_are_shown(board, sorted, name);
    assert(sorted[sorted.index_of(line)] == line);
    assert forall|k: int| 0 <= k < sorted.len() && (#[trigger] sorted[k]).session == name implies
        sorted[k] == line by {
        let row = sorted[k];
        assert(sorted.contains(row));
        lines_of_the_board(board, sorted, row);
        if from_ledger(board, row) {
            let i = choose|i: int|
                0 <= i < board.sessions.len() && !hidden(#[trigger] board.sessions[i]) && row
                    == board.ledger_lane(board.sessions[i]);
            assert(session_at(board, i, name));
        }
    }
    if exists|p: int| #[trigger] begins_with(name, board.infra_prefixes, p) {
        let p = choose|p: int| #[trigger] begins_with(name, board.infra_prefixes, p);
        prefixes_stand_in_front(name, board.infra_prefixes[p]);
        assert(has_prefix(name, board.infra_prefixes[p]));
    }
    if unclaimed_status(name, board.infra_prefixes) == LaneStatus::InfraCandidate {
        let p = choose|p: int|
            0 <= p < board.infra_prefixes.len() && has_prefix(
                name,
                #[trigger] board.infra_prefixes[p],
            );
        prefixes_stand_in_front(name, board.infra_prefixes[p]);
        assert(begins_with(name, board.infra_prefixes, p));
    }
}

/// Whether `name` begins with the `p`-th of the prefixes, character by character.
pub open spec fn begins_with(name: Seq<char>, prefixes: Seq<Seq<char>>, p: int) -> bool {
    &&& 0 <= p < prefixes.len()
    &&& prefixes[p].len() <= name.len()
    &&& forall|c: int| 0 <= c < prefixes[p].len() ==> #[trigger] name[c] == prefixes[p][c]
}

/// No line is of a session that neither the ledger, the daemon nor tmux knows, and no later line
/// has a lower name.
pub proof fn boards_show_what_is_known_in_order(board: BoardView, sorted: Seq<LaneRowView>, k: int)
    requires
        sorts(sorted, board.lanes()),
        0 <= k < sorted.len(),
    ensures
        ({
            let name = sorted[k].session;
            ||| exists|i: int| #[trigger] session_at(board, i, name)
            ||| exists|i: int|
                0 <= i < board.registrations.len() && (#[trigger] board.registrations[i]).session
                    == name
            ||| exists|i: int| 0 <= i < board.live.len() && #[trigger] board.live[i] == name
        }),
        forall|l: int|
            k < l < sorted.len() ==> text_le(sorted[k].session, (#[trigger] sorted[l]).session),
{
    let row = sorted[k];
    assert(sorted.contains(row));
    lines_of_the_board(board, sorted, row);
    if from_ledger(board, row) {
        let i = choose|i: int|
            0 <= i < board.sessions.len() && !hidden(#[trigger] board.sessions[i]) && row
                == board.ledger_lane(board.sessions[i]);
        assert(session_at(board, i, row.session));
    }
}

} // verus!
