//! What can go wrong in the ledger.

use vstd::prelude::*;
use vstd::string::*;

verus! {

/// A constraint that every state of the ledger's tables satisfies.
#[derive(Debug, Clone, Copy, PartialEq, Eq, Structural)]
pub enum Constraint {
    /// No two sessions share an id.
    SessionId,
    /// No two sessions share a tmux session name.
    SessionName,
    /// No two watch intents share an id.
    IntentId,
    /// No two watch intents belong to one session.
    IntentSession,
    /// Every watch intent belongs to a session that is there.
    IntentReference,
    /// No two baselines are for one repository path.
    BaselinePath,
    /// No schema version is recorded twice.
    MigrationVersion,
}

impl Constraint {
    /// What is said where a change would break the constraint.
    pub open spec fn text(self) -> Seq<char> {
        match self {
            Constraint::SessionId => "UNIQUE constraint failed: sessions.id"@,
            Constraint::SessionName => "UNIQUE constraint failed: sessions.tmux_session"@,
            Constraint::IntentId => "UNIQUE constraint failed: watch_intents.id"@,
            Constraint::IntentSession => "UNIQUE constraint failed: watch_intents.session_id"@,
            Constraint::IntentReference => "FOREIGN KEY constraint failed"@,
            Constraint::BaselinePath =>
                "UNIQUE constraint failed: github_issue_baselines.repo_path"@,
            Constraint::MigrationVersion =>
                "UNIQUE constraint failed: schema_migrations.version"@,
        }
    }

    pub fn as_str(self) -> (s: &'static str)
        ensures
            s@ == self.text(),
    {
        match self {
            Constraint::SessionId => "UNIQUE constraint failed: sessions.id",
            Constraint::SessionName => "UNIQUE constraint failed: sessions.tmux_session",
            Constraint::IntentId => "UNIQUE constraint failed: watch_intents.id",
            Constraint::IntentSession => "UNIQUE constraint failed: watch_intents.session_id",
            Constraint::IntentReference => "FOREIGN KEY constraint failed",
            Constraint::BaselinePath =>
                "UNIQUE constraint failed: github_issue_baselines.repo_path",
            Constraint::MigrationVersion =>
                "UNIQUE constraint failed: schema_migrations.version",
        }
    }
}

/// Why the ledger refuses.
#[derive(Debug)]
pub enum LedgerError {
    InvalidWorkflowStatus(String),
    InvalidSessionKind(String),
    InvalidSessionState(String),
    InvalidRegistrationSource(String),
    InvalidMessageFormat(String),
    /// The stored keyword list is not a JSON list of strings; what the JSON parser says.
    InvalidKeywords(String),
    EmptySessionOwner,
    EmptySessionName,
    UnknownSession(String),
    /// A watch intent for a session that is not in the ledger.
    UnknownWatchSession(String),
    /// More minutes than the signed column holds.
    StaleMinutesTooLarge(u64),
    ConstraintFailed(Constraint),
}

/// [`LedgerError`] with its strings as characters.
pub enum LedgerErrorView {
    InvalidWorkflowStatus(Seq<char>),
    InvalidSessionKind(Seq<char>),
    InvalidSessionState(Seq<char>),
    InvalidRegistrationSource(Seq<char>),
    InvalidMessageFormat(Seq<char>),
    InvalidKeywords(Seq<char>),
    EmptySessionOwner,
    EmptySessionName,
    UnknownSession(Seq<char>),
    UnknownWatchSession(Seq<char>),
    StaleMinutesTooLarge(u64),
    ConstraintFailed(Constraint),
}

impl View for LedgerError {
    type V = LedgerErrorView;

    open spec fn view(&self) -> LedgerErrorView {
        match *self {
            LedgerError::InvalidWorkflowStatus(s) => LedgerErrorView::InvalidWorkflowStatus(s@),
            LedgerError::InvalidSessionKind(s) => LedgerErrorView::InvalidSessionKind(s@),
            LedgerError::InvalidSessionState(s) => LedgerErrorView::InvalidSessionState(s@),
            LedgerError::InvalidRegistrationSource(s) =>
                LedgerErrorView::InvalidRegistrationSource(s@),
            LedgerError::InvalidMessageFormat(s) => LedgerErrorView::InvalidMessageFormat(s@),
            LedgerError::InvalidKeywords(s) => LedgerErrorView::InvalidKeywords(s@),
            LedgerError::EmptySessionOwner => LedgerErrorView::EmptySessionOwner,
            LedgerError::EmptySessionName => LedgerErrorView::EmptySessionName,
            LedgerError::UnknownSession(s) => LedgerErrorView::UnknownSession(s@),
            LedgerError::UnknownWatchSession(s) => LedgerErrorView::UnknownWatchSession(s@),
            LedgerError::StaleMinutesTooLarge(n) => LedgerErrorView::StaleMinutesTooLarge(n),
            LedgerError::ConstraintFailed(c) => LedgerErrorView::ConstraintFailed(c),
        }
    }
}

impl LedgerErrorView {
    /// What is said of the error.
    pub open spec fn text(self) -> Seq<char> {
        match self {
            LedgerErrorView::InvalidWorkflowStatus(s) =>
                "invalid workflow status '"@ + s + "'"@,
            LedgerErrorView::InvalidSessionKind(s) => "invalid session kind '"@ + s + "'"@,
            LedgerErrorView::InvalidSessionState(s) => "invalid session state '"@ + s + "'"@,
            LedgerErrorView::InvalidRegistrationSource(s) =>
                "invalid registration source '"@ + s + "'"@,
            LedgerErrorView::InvalidMessageFormat(s) => "invalid message format '"@ + s + "'"@,
            LedgerErrorView::InvalidKeywords(s) => s,
            LedgerErrorView::EmptySessionOwner => "session owner cannot be empty"@,
            LedgerErrorView::EmptySessionName => "tmux session cannot be empty"@,
            LedgerErrorView::UnknownSession(s) => "unknown session '"@ + s + "'"@,
            LedgerErrorView::UnknownWatchSession(s) =>
                "cannot store watch intent for unknown session '"@ + s + "'"@,
            LedgerErrorView::StaleMinutesTooLarge(_) =>
                "out of range integral type conversion attempted"@,
            LedgerErrorView::ConstraintFailed(c) => c.text(),
        }
    }
}

fn naming(before: &str, name: &String) -> (s: String)
    ensures
        s@ == before@ + name@ + "'"@,
{
    let mut s = before.to_owned();
    s.append(name.as_str());
    s.append("'");
    s
}

impl LedgerError {
    /// What is said of the error.
    pub fn message(&self) -> (s: String)
        ensures
            s@ == self@.text(),
    {
        match self {
            LedgerError::InvalidWorkflowStatus(s) => naming("invalid workflow status '", s),
            LedgerError::InvalidSessionKind(s) => naming("invalid session kind '", s),
            LedgerError::InvalidSessionState(s) => naming("invalid session state '", s),
            LedgerError::InvalidRegistrationSource(s) => naming(
                "invalid registration source '",
                s,
            ),
            LedgerError::InvalidMessageFormat(s) => naming("invalid message format '", s),
            LedgerError::InvalidKeywords(s) => s.clone(),
            LedgerError::EmptySessionOwner => "session owner cannot be empty".to_owned(),
            LedgerError::EmptySessionName => "tmux session cannot be empty".to_owned(),
            LedgerError::UnknownSession(s) => naming("unknown session '", s),
            LedgerError::UnknownWatchSession(s) => naming(
                "cannot store watch intent for unknown session '",
                s,
            ),
            LedgerError::StaleMinutesTooLarge(_) =>
                "out of range integral type conversion attempted".to_owned(),
            LedgerError::ConstraintFailed(c) => c.as_str().to_owned(),
        }
    }
}

} // verus!
