//! What the ledger takes, stores and gives back.

use vstd::prelude::*;
use vstd::string::*;

use crate::error::{LedgerError, LedgerErrorView};
use crate::outside::{parsed_string_list, strings_from_json};
use crate::status::{
    MessageFormat, RegistrationSource, SessionKind, SessionOwner, SessionOwnerView, SessionState,
    WorkflowStatus,
};
use crate::text::{blank, clone_opt, clone_strings, is_blank, opt_view, views};

verus! {

/// What is to be recorded of a session.
#[derive(Debug)]
pub struct SessionInput {
    pub tmux_session: String,
    pub tmux_pane: Option<String>,
    pub kind: SessionKind,
    pub owner: SessionOwner,
    pub project_path: Option<String>,
    pub repo_name: Option<String>,
    pub branch: Option<String>,
    pub spawned_by_clawhip: bool,
    pub expected_watch: bool,
    pub state: SessionState,
    pub workflow_status: WorkflowStatus,
    pub last_seen_at: Option<String>,
}

/// [`SessionInput`] with its strings as characters.
#[verifier::ext_equal]
pub struct SessionInputView {
    pub tmux_session: Seq<char>,
    pub tmux_pane: Option<Seq<char>>,
    pub kind: SessionKind,
    pub owner: SessionOwnerView,
    pub project_path: Option<Seq<char>>,
    pub repo_name: Option<Seq<char>>,
    pub branch: Option<Seq<char>>,
    pub spawned_by_clawhip: bool,
    pub expected_watch: bool,
    pub state: SessionState,
    pub workflow_status: WorkflowStatus,
    pub last_seen_at: Option<Seq<char>>,
}

impl View for SessionInput {
    type V = SessionInputView;

    open spec fn view(&self) -> SessionInputView {
        SessionInputView {
            tmux_session: self.tmux_session@,
            tmux_pane: opt_view(self.tmux_pane),
            kind: self.kind,
            owner: self.owner@,
            project_path: opt_view(self.project_path),
            repo_name: opt_view(self.repo_name),
            branch: opt_view(self.branch),
            spawned_by_clawhip: self.spawned_by_clawhip,
            expected_watch: self.expected_watch,
            state: self.state,
            workflow_status: self.workflow_status,
            last_seen_at: opt_view(self.last_seen_at),
        }
    }
}

impl Clone for SessionInput {
    fn clone(&self) -> (copy: SessionInput)
        ensures
            copy@ == self@,
    {
        SessionInput {
            tmux_session: self.tmux_session.clone(),
            tmux_pane: clone_opt(&self.tmux_pane),
            kind: self.kind,
            owner: self.owner.clone(),
            project_path: clone_opt(&self.project_path),
            repo_name: clone_opt(&self.repo_name),
            branch: clone_opt(&self.branch),
            spawned_by_clawhip: self.spawned_by_clawhip,
            expected_watch: self.expected_watch,
            state: self.state,
            workflow_status: self.workflow_status,
            last_seen_at: clone_opt(&self.last_seen_at),
        }
    }
}

/// A session as the ledger gives it.
#[derive(Debug, PartialEq, Eq)]
pub struct SessionRecord {
    pub id: String,
    pub tmux_session: String,
    pub tmux_pane: Option<String>,
    pub kind: SessionKind,
    pub owner: SessionOwner,
    pub project_path: Option<String>,
    pub repo_name: Option<String>,
    pub branch: Option<String>,
    pub spawned_by_clawhip: bool,
    pub expected_watch: bool,
    pub state: SessionState,
    pub workflow_status: WorkflowStatus,
    pub created_at: String,
    pub updated_at: String,
    pub last_seen_at: Option<String>,
}

/// [`SessionRecord`] with its strings as characters.
#[verifier::ext_equal]
pub struct SessionRecordView {
    pub id: Seq<char>,
    pub tmux_session: Seq<char>,
    pub tmux_pane: Option<Seq<char>>,
    pub kind: SessionKind,
    pub owner: SessionOwnerView,
    pub project_path: Option<Seq<char>>,
    pub repo_name: Option<Seq<char>>,
    pub branch: Option<Seq<char>>,
    pub spawned_by_clawhip: bool,
    pub expected_watch: bool,
    pub state: SessionState,
    pub workflow_status: WorkflowStatus,
    pub created_at: Seq<char>,
    pub updated_at: Seq<char>,
    pub last_seen_at: Option<Seq<char>>,
}

impl View for SessionRecord {
    type V = SessionRecordView;

    open spec fn view(&self) -> SessionRecordView {
        SessionRecordView {
            id: self.id@,
            tmux_session: self.tmux_session@,
            tmux_pane: opt_view(self.tmux_pane),
            kind: self.kind,
            owner: self.owner@,
            project_path: opt_view(self.project_path),
            repo_name: opt_view(self.repo_name),
            branch: opt_view(self.branch),
            spawned_by_clawhip: self.spawned_by_clawhip,
            expected_watch: self.expected_watch,
            state: self.state,
            workflow_status: self.workflow_status,
            created_at: self.created_at@,
            updated_at: self.updated_at@,
            last_seen_at: opt_view(self.last_seen_at),
        }
    }
}

impl Clone for SessionRecord {
    fn clone(&self) -> (copy: SessionRecord)
        ensures
            copy@ == self@,
    {
        SessionRecord {
            id: self.id.clone(),
            tmux_session: self.tmux_session.clone(),
            tmux_pane: clone_opt(&self.tmux_pane),
            kind: self.kind,
            owner: self.owner.clone(),
            project_path: clone_opt(&self.project_path),
            repo_name: clone_opt(&self.repo_name),
            branch: clone_opt(&self.branch),
            spawned_by_clawhip: self.spawned_by_clawhip,
            expected_watch: self.expected_watch,
            state: self.state,
            workflow_status: self.workflow_status,
            created_at: self.created_at.clone(),
            updated_at: self.updated_at.clone(),
            last_seen_at: clone_opt(&self.last_seen_at),
        }
    }
}

/// A session as it is stored: the labels are text, and may be labels of earlier versions.
#[derive(Debug, PartialEq, Eq)]
pub struct SessionRow {
    pub id: String,
    pub tmux_session: String,
    pub tmux_pane: Option<String>,
    pub kind: String,
    pub owner: String,
    pub project_path: Option<String>,
    pub repo_name: Option<String>,
    pub branch: Option<String>,
    pub spawned_by_clawhip: bool,
    pub expected_watch: bool,
    pub state: String,
    pub workflow_status: String,
    pub created_at: String,
    pub updated_at: String,
    pub last_seen_at: Option<String>,
}

/// [`SessionRow`] with its strings as characters.
#[verifier::ext_equal]
pub struct SessionRowView {
    pub id: Seq<char>,
    pub tmux_session: Seq<char>,
    pub tmux_pane: Option<Seq<char>>,
    pub kind: Seq<char>,
    pub owner: Seq<char>,
    pub project_path: Option<Seq<char>>,
    pub repo_name: Option<Seq<char>>,
    pub branch: Option<Seq<char>>,
    pub spawned_by_clawhip: bool,
    pub expected_watch: bool,
    pub state: Seq<char>,
    pub workflow_status: Seq<char>,
    pub created_at: Seq<char>,
    pub updated_at: Seq<char>,
    pub last_seen_at: Option<Seq<char>>,
}

impl View for SessionRow {
    type V = SessionRowView;

    open spec fn view(&self) -> SessionRowView {
        SessionRowView {
            id: self.id@,
            tmux_session: self.tmux_session@,
            tmux_pane: opt_view(self.tmux_pane),
            kind: self.kind@,
            owner: self.owner@,
            project_path: opt_view(self.project_path),
            repo_name: opt_view(self.repo_name),
            branch: opt_view(self.branch),
            spawned_by_clawhip: self.spawned_by_clawhip,
            expected_watch: self.expected_watch,
            state: self.state@,
            workflow_status: self.workflow_status@,
            created_at: self.created_at@,
            updated_at: self.updated_at@,
            last_seen_at: opt_view(self.last_seen_at),
        }
    }
}

impl Clone for SessionRow {
    fn clone(&self) -> (copy: SessionRow)
        ensures
            copy@ == self@,
    {
        SessionRow {
            id: self.id.clone(),
            tmux_session: self.tmux_session.clone(),
            tmux_pane: clone_opt(&self.tmux_pane),
            kind: self.kind.clone(),
            owner: self.owner.clone(),
            project_path: clone_opt(&self.project_path),
            repo_name: clone_opt(&self.repo_name),
            branch: clone_opt(&self.branch),
            spawned_by_clawhip: self.spawned_by_clawhip,
            expected_watch: self.expected_watch,
            state: self.state.clone(),
            workflow_status: self.workflow_status.clone(),
            created_at: self.created_at.clone(),
            updated_at: self.updated_at.clone(),
            last_seen_at: clone_opt(&self.last_seen_at),
        }
    }
}

/// What is to be recorded of the wish to watch a session.
#[derive(Debug)]
pub struct WatchIntentInput {
    pub tmux_session: String,
    pub channel: Option<String>,
    pub thread: Option<String>,
    pub mention: Option<String>,
    pub keywords: Vec<String>,
    pub stale_minutes: u64,
    pub format: Option<MessageFormat>,
    pub registration_source: RegistrationSource,
    pub original_command_json: Option<String>,
    pub registered_at: String,
    pub last_confirmed_at: Option<String>,
}

/// [`WatchIntentInput`] with its strings as characters.
#[verifier::ext_equal]
pub struct WatchIntentInputView {
    pub tmux_session: Seq<char>,
    pub channel: Option<Seq<char>>,
    pub thread: Option<Seq<char>>,
    pub mention: Option<Seq<char>>,
    pub keywords: Seq<Seq<char>>,
    pub stale_minutes: u64,
    pub format: Option<MessageFormat>,
    pub registration_source: RegistrationSource,
    pub original_command_json: Option<Seq<char>>,
    pub registered_at: Seq<char>,
    pub last_confirmed_at: Option<Seq<char>>,
}

impl View for WatchIntentInput {
    type V = WatchIntentInputView;

    open spec fn view(&self) -> WatchIntentInputView {
        WatchIntentInputView {
            tmux_session: self.tmux_session@,
            channel: opt_view(self.channel),
            thread: opt_view(self.thread),
            mention: opt_view(self.mention),
            keywords: views(self.keywords@),
            stale_minutes: self.stale_minutes,
            format: self.format,
            registration_source: self.registration_source,
            original_command_json: opt_view(self.original_command_json),
            registered_at: self.registered_at@,
            last_confirmed_at: opt_view(self.last_confirmed_at),
        }
    }
}

impl Clone for WatchIntentInput {
    fn clone(&self) -> (copy: WatchIntentInput)
        ensures
            copy@ == self@,
    {
        WatchIntentInput {
            tmux_session: self.tmux_session.clone(),
            channel: clone_opt(&self.channel),
            thread: clone_opt(&self.thread),
            mention: clone_opt(&self.mention),
            keywords: clone_strings(&self.keywords),
            stale_minutes: self.stale_minutes,
            format: self.format,
            registration_source: self.registration_source,
            original_command_json: clone_opt(&self.original_command_json),
            registered_at: self.registered_at.clone(),
            last_confirmed_at: clone_opt(&self.last_confirmed_at),
        }
    }
}

/// The wish to watch a session, as the ledger gives it.
#[derive(Debug, PartialEq, Eq)]
pub struct WatchIntentRecord {
    pub id: String,
    pub session_id: String,
    pub tmux_session: String,
    pub channel: Option<String>,
    pub thread: Option<String>,
    pub mention: Option<String>,
    pub keywords: Vec<String>,
    pub stale_minutes: u64,
    pub format: Option<MessageFormat>,
    pub registration_source: RegistrationSource,
    pub original_command_json: Option<String>,
    pub registered_at: String,
    pub last_confirmed_at: Option<String>,
}

/// [`WatchIntentRecord`] with its strings as characters.
#[verifier::ext_equal]
pub struct WatchIntentRecordView {
    pub id: Seq<char>,
    pub session_id: Seq<char>,
    pub tmux_session: Seq<char>,
    pub channel: Option<Seq<char>>,
    pub thread: Option<Seq<char>>,
    pub mention: Option<Seq<char>>,
    pub keywords: Seq<Seq<char>>,
    pub stale_minutes: u64,
    pub format: Option<MessageFormat>,
    pub registration_source: RegistrationSource,
    pub original_command_json: Option<Seq<char>>,
    pub registered_at: Seq<char>,
    pub last_confirmed_at: Option<Seq<char>>,
}

impl View for WatchIntentRecord {
    type V = WatchIntentRecordView;

    open spec fn view(&self) -> WatchIntentRecordView {
        WatchIntentRecordView {
            id: self.id@,
            session_id: self.session_id@,
            tmux_session: self.tmux_session@,
            channel: opt_view(self.channel),
            thread: opt_view(self.thread),
            mention: opt_view(self.mention),
            keywords: views(self.keywords@),
            stale_minutes: self.stale_minutes,
            format: self.format,
            registration_source: self.registration_source,
            original_command_json: opt_view(self.original_command_json),
            registered_at: self.registered_at@,
            last_confirmed_at: opt_view(self.last_confirmed_at),
        }
    }
}

impl Clone for WatchIntentRecord {
    fn clone(&self) -> (copy: WatchIntentRecord)
        ensures
            copy@ == self@,
    {
        WatchIntentRecord {
            id: self.id.clone(),
            session_id: self.session_id.clone(),
            tmux_session: self.tmux_session.clone(),
            channel: clone_opt(&self.channel),
            thread: clone_opt(&self.thread),
            mention: clone_opt(&self.mention),
            keywords: clone_strings(&self.keywords),
            stale_minutes: self.stale_minutes,
            format: self.format,
            registration_source: self.registration_source,
            original_command_json: clone_opt(&self.original_command_json),
            registered_at: self.registered_at.clone(),
            last_confirmed_at: clone_opt(&self.last_confirmed_at),
        }
    }
}

/// The wish to watch a session, as it is stored.
#[derive(Debug, PartialEq, Eq)]
pub struct WatchIntentRow {
    pub id: String,
    pub session_id: String,
    pub channel: Option<String>,
    pub thread: Option<String>,
    pub mention: Option<String>,
    pub keywords_json: String,
    pub stale_minutes: i64,
    pub format: Option<String>,
    pub registration_source: String,
    pub original_command_json: Option<String>,
    pub registered_at: String,
    pub last_confirmed_at: Option<String>,
}

/// [`WatchIntentRow`] with its strings as characters.
#[verifier::ext_equal]
pub struct WatchIntentRowView {
    pub id: Seq<char>,
    pub session_id: Seq<char>,
    pub channel: Option<Seq<char>>,
    pub thread: Option<Seq<char>>,
    pub mention: Option<Seq<char>>,
    pub keywords_json: Seq<char>,
    pub stale_minutes: i64,
    pub format: Option<Seq<char>>,
    pub registration_source: Seq<char>,
    pub original_command_json: Option<Seq<char>>,
    pub registered_at: Seq<char>,
    pub last_confirmed_at: Option<Seq<char>>,
}

impl View for WatchIntentRow {
    type V = WatchIntentRowView;

    open spec fn view(&self) -> WatchIntentRowView {
        WatchIntentRowView {
            id: self.id@,
            session_id: self.session_id@,
            channel: opt_view(self.channel),
            thread: opt_view(self.thread),
            mention: opt_view(self.mention),
            keywords_json: self.keywords_json@,
            stale_minutes: self.stale_minutes,
            format: opt_view(self.format),
            registration_source: self.registration_source@,
            original_command_json: opt_view(self.original_command_json),
            registered_at: self.registered_at@,
            last_confirmed_at: opt_view(self.last_confirmed_at),
        }
    }
}

impl Clone for WatchIntentRow {
    fn clone(&self) -> (copy: WatchIntentRow)
        ensures
            copy@ == self@,
    {
        WatchIntentRow {
            id: self.id.clone(),
            session_id: self.session_id.clone(),
            channel: clone_opt(&self.channel),
            thread: clone_opt(&self.thread),
            mention: clone_opt(&self.mention),
            keywords_json: self.keywords_json.clone(),
            stale_minutes: self.stale_minutes,
            format: clone_opt(&self.format),
            registration_source: self.registration_source.clone(),
            original_command_json: clone_opt(&self.original_command_json),
            registered_at: self.registered_at.clone(),
            last_confirmed_at: clone_opt(&self.last_confirmed_at),
        }
    }
}

/// The sessions with their strings as characters.
pub open spec fn session_list(sessions: Seq<SessionRecord>) -> Seq<SessionRecordView> {
    sessions.map_values(|s: SessionRecord| s@)
}

/// The watch intents with their strings as characters.
pub open spec fn intent_list(intents: Seq<WatchIntentRecord>) -> Seq<WatchIntentRecordView> {
    intents.map_values(|i: WatchIntentRecord| i@)
}

/// The record of a stored session, or the first of its labels that stands for nothing.
pub open spec fn session_of_row(
    row: SessionRowView,
) -> Result<SessionRecordView, LedgerErrorView> {
    match SessionKind::of_text(row.kind) {
        None => Err(LedgerErrorView::InvalidSessionKind(row.kind)),
        Some(kind) => match SessionOwnerView::of_text(row.owner) {
            None => Err(LedgerErrorView::EmptySessionOwner),
            Some(owner) => match SessionState::of_text(row.state) {
                None => Err(LedgerErrorView::InvalidSessionState(row.state)),
                Some(state) => match WorkflowStatus::of_text(row.workflow_status) {
                    None => Err(LedgerErrorView::InvalidWorkflowStatus(row.workflow_status)),
                    Some(workflow_status) => Ok(
                        SessionRecordView {
                            id: row.id,
                            tmux_session: row.tmux_session,
                            tmux_pane: row.tmux_pane,
                            kind,
                            owner,
                            project_path: row.project_path,
                            repo_name: row.repo_name,
                            branch: row.branch,
                            spawned_by_clawhip: row.spawned_by_clawhip,
                            expected_watch: row.expected_watch,
                            state,
                            workflow_status,
                            created_at: row.created_at,
                            updated_at: row.updated_at,
                            last_seen_at: row.last_seen_at,
                        },
                    ),
                },
            },
        },
    }
}

/// Whether an outcome is what a specification says it is.
pub open spec fn outcome_is<T: View>(
    res: Result<T, LedgerError>,
    expected: Result<T::V, LedgerErrorView>,
) -> bool {
    match expected {
        Ok(x) => res matches Ok(y) && y@ == x,
        Err(e) => res matches Err(f) && f@ == e,
    }
}

/// The record of a stored session.
pub fn map_session(row: &SessionRow) -> (res: Result<SessionRecord, LedgerError>)
    ensures
        outcome_is(res, session_of_row(row@)),
{
    let kind = SessionKind::parse(row.kind.as_str())?;
    let owner = SessionOwner::parse(row.owner.as_str())?;
    let state = SessionState::parse(row.state.as_str())?;
    let workflow_status = WorkflowStatus::parse(row.workflow_status.as_str())?;
    Ok(
        SessionRecord {
            id: row.id.clone(),
            tmux_session: row.tmux_session.clone(),
            tmux_pane: clone_opt(&row.tmux_pane),
            kind,
            owner,
            project_path: clone_opt(&row.project_path),
            repo_name: clone_opt(&row.repo_name),
            branch: clone_opt(&row.branch),
            spawned_by_clawhip: row.spawned_by_clawhip,
            expected_watch: row.expected_watch,
            state,
            workflow_status,
            created_at: row.created_at.clone(),
            updated_at: row.updated_at.clone(),
            last_seen_at: clone_opt(&row.last_seen_at),
        },
    )
}

/// The minutes that a signed column holds, read as an unsigned number of the same bits.
pub open spec fn stored_minutes(n: i64) -> int {
    if n >= 0 {
        n as int
    } else {
        n + 0x1_0000_0000_0000_0000
    }
}

/// The format that a stored label stands for, where one is stored.
pub open spec fn format_of_label(label: Option<Seq<char>>) -> Result<
    Option<MessageFormat>,
    LedgerErrorView,
> {
    match label {
        None => Ok(None),
        Some(t) => match MessageFormat::of_text(t) {
            Some(format) => Ok(Some(format)),
            None => Err(LedgerErrorView::InvalidMessageFormat(t)),
        },
    }
}

/// The record of a stored watch intent of the session `tmux_session`, given what its keyword list
/// reads as; else what is wrong with the list, the format or the source, the first of them.
pub open spec fn intent_with_keywords(
    row: WatchIntentRowView,
    tmux_session: Seq<char>,
    keywords: Result<Seq<Seq<char>>, Seq<char>>,
) -> Result<WatchIntentRecordView, LedgerErrorView> {
    match keywords {
        Err(said) => Err(LedgerErrorView::InvalidKeywords(said)),
        Ok(keywords) => match format_of_label(row.format) {
            Err(e) => Err(e),
            Ok(format) => match RegistrationSource::of_text(row.registration_source) {
                None => Err(LedgerErrorView::InvalidRegistrationSource(row.registration_source)),
                Some(registration_source) => Ok(
                    WatchIntentRecordView {
                        id: row.id,
                        session_id: row.session_id,
                        tmux_session,
                        channel: row.channel,
                        thread: row.thread,
                        mention: row.mention,
                        keywords,
                        stale_minutes: stored_minutes(row.stale_minutes) as u64,
                        format,
                        registration_source,
                        original_command_json: row.original_command_json,
                        registered_at: row.registered_at,
                        last_confirmed_at: row.last_confirmed_at,
                    },
                ),
            },
        },
    }
}

/// The record of a stored watch intent of the session `tmux_session`.
pub open spec fn intent_of_row(row: WatchIntentRowView, tmux_session: Seq<char>) -> Result<
    WatchIntentRecordView,
    LedgerErrorView,
> {
    intent_with_keywords(row, tmux_session, parsed_string_list(row.keywords_json))
}

/// What a reading of a keyword list has given, with its strings as characters.
pub open spec fn keywords_view(keywords: Result<Vec<String>, String>) -> Result<
    Seq<Seq<char>>,
    Seq<char>,
> {
    match keywords {
        Ok(list) => Ok(views(list@)),
        Err(said) => Err(said@),
    }
}

/// The minutes that a signed column holds, read as an unsigned number of the same bits.
pub fn minutes_from_stored(n: i64) -> (minutes: u64)
    ensures
        minutes == stored_minutes(n),
{
    if n >= 0 {
        n as u64
    } else {
        (n as i128 + 0x1_0000_0000_0000_0000) as u64
    }
}

/// The record of a stored watch intent, given what its keyword list reads as.
pub fn map_watch_intent_with(
    row: &WatchIntentRow,
    tmux_session: &str,
    keywords: Result<Vec<String>, String>,
) -> (res: Result<WatchIntentRecord, LedgerError>)
    ensures
        outcome_is(res, intent_with_keywords(row@, tmux_session@, keywords_view(keywords))),
{
    let keywords = match keywords {
        Ok(list) => list,
        Err(said) => {
            return Err(LedgerError::InvalidKeywords(said));
        },
    };
    let format = match &row.format {
        Some(label) => Some(MessageFormat::from_label(label.as_str())?),
        None => None,
    };
    let registration_source = RegistrationSource::parse(row.registration_source.as_str())?;
    Ok(
        WatchIntentRecord {
            id: row.id.clone(),
            session_id: row.session_id.clone(),
            tmux_session: tmux_session.to_owned(),
            channel: clone_opt(&row.channel),
            thread: clone_opt(&row.thread),
            mention: clone_opt(&row.mention),
            keywords,
            stale_minutes: minutes_from_stored(row.stale_minutes),
            format,
            registration_source,
            original_command_json: clone_opt(&row.original_command_json),
            registered_at: row.registered_at.clone(),
            last_confirmed_at: clone_opt(&row.last_confirmed_at),
        },
    )
}

/// The record of a stored watch intent of the session `tmux_session`.
pub fn map_watch_intent(row: &WatchIntentRow, tmux_session: &str) -> (res: Result<
    WatchIntentRecord,
    LedgerError,
>)
    ensures
        outcome_is(res, intent_of_row(row@, tmux_session@)),
{
    map_watch_intent_with(row, tmux_session, strings_from_json(row.keywords_json.as_str()))
}

/// What is said of the name of a session that is to be recorded.
pub open spec fn name_outcome(tmux_session: Seq<char>, res: Result<(), LedgerError>) -> bool {
    if blank(tmux_session) {
        res matches Err(e) && e@ == LedgerErrorView::EmptySessionName
    } else {
        res is Ok
    }
}

impl SessionInput {
    /// Refuses a blank session name.
    pub fn validate(&self) -> (res: Result<(), LedgerError>)
        ensures
            name_outcome(self@.tmux_session, res),
    {
        if is_blank(self.tmux_session.as_str()) {
            return Err(LedgerError::EmptySessionName);
        }
        Ok(())
    }
}

impl WatchIntentInput {
    /// Refuses a blank session name.
    pub fn validate(&self) -> (res: Result<(), LedgerError>)
        ensures
            name_outcome(self@.tmux_session, res),
    {
        if is_blank(self.tmux_session.as_str()) {
            return Err(LedgerError::EmptySessionName);
        }
        Ok(())
    }
}

} // verus!
