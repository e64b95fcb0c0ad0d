//! The labels that the ledger stores and the lane board shows.

use vstd::prelude::*;
use vstd::string::*;

use crate::error::{LedgerError, LedgerErrorView};
use crate::text::str_eq;

verus! {

/// What the lane board says of a session.
#[derive(Debug, Clone, Copy, PartialEq, Eq, Structural)]
pub enum LaneStatus {
    HealthyAgent,
    LostMonitoring,
    IgnoredInfra,
    UnknownTmux,
    InfraCandidate,
    ExternallyWatched,
    WorkflowHandoff,
    TmuxMissing,
}

impl LaneStatus {
    /// The label of the value.
    pub open spec fn text(self) -> Seq<char> {
        match self {
            LaneStatus::HealthyAgent => "healthy-agent"@,
            LaneStatus::LostMonitoring => "lost-monitoring"@,
            LaneStatus::IgnoredInfra => "ignored-infra"@,
            LaneStatus::UnknownTmux => "unknown-tmux"@,
            LaneStatus::InfraCandidate => "infra-candidate"@,
            LaneStatus::ExternallyWatched => "externally-watched"@,
            LaneStatus::WorkflowHandoff => "workflow-handoff"@,
            LaneStatus::TmuxMissing => "tmux-missing"@,
        }
    }

    /// The label of the value.
    pub fn as_str(self) -> (s: &'static str)
        ensures
            s@ == self.text(),
    {
        match self {
            LaneStatus::HealthyAgent => "healthy-agent",
            LaneStatus::LostMonitoring => "lost-monitoring",
            LaneStatus::IgnoredInfra => "ignored-infra",
            LaneStatus::UnknownTmux => "unknown-tmux",
            LaneStatus::InfraCandidate => "infra-candidate",
            LaneStatus::ExternallyWatched => "externally-watched",
            LaneStatus::WorkflowHandoff => "workflow-handoff",
            LaneStatus::TmuxMissing => "tmux-missing",
        }
    }

    /// Different values have different labels.
    pub proof fn labels_differ(self, other: LaneStatus)
        requires
            self.text() == other.text(),
        ensures
            self == other,
    {
        reveal_strlit("healthy-agent");
        reveal_strlit("lost-monitoring");
        reveal_strlit("ignored-infra");
        reveal_strlit("unknown-tmux");
        reveal_strlit("infra-candidate");
        reveal_strlit("externally-watched");
        reveal_strlit("workflow-handoff");
        reveal_strlit("tmux-missing");
        assert("healthy-agent"@.len() == 13);
        assert("lost-monitoring"@.len() == 15);
        assert("ignored-infra"@.len() == 13);
        assert("unknown-tmux"@.len() == 12);
        assert("infra-candidate"@.len() == 15);
        assert("externally-watched"@.len() == 18);
        assert("workflow-handoff"@.len() == 16);
        assert("tmux-missing"@.len() == 12);
        assert("healthy-agent"@[0] != "ignored-infra"@[0]);
        assert("lost-monitoring"@[0] != "infra-candidate"@[0]);
        assert("unknown-tmux"@[0] != "tmux-missing"@[0]);
    }
}

/// How far the work of a session has come.
#[derive(Debug, Clone, Copy, PartialEq, Eq, Structural)]
pub enum WorkflowStatus {
    Active,
    NeedsReview,
    NeedsQa,
    PrOpen,
    AwaitingCi,
    AwaitingHuman,
    Completed,
    Superseded,
    Cancelled,
    Retired,
}

impl WorkflowStatus {
    /// The label of the value.
    pub open spec fn text(self) -> Seq<char> {
        match self {
            WorkflowStatus::Active => "active"@,
            WorkflowStatus::NeedsReview => "needs-review"@,
            WorkflowStatus::NeedsQa => "needs-qa"@,
            WorkflowStatus::PrOpen => "pr-open"@,
            WorkflowStatus::AwaitingCi => "awaiting-ci"@,
            WorkflowStatus::AwaitingHuman => "awaiting-human"@,
            WorkflowStatus::Completed => "completed"@,
            WorkflowStatus::Superseded => "superseded"@,
            WorkflowStatus::Cancelled => "cancelled"@,
            WorkflowStatus::Retired => "retired"@,
        }
    }

    /// The label of the value.
    pub fn as_str(self) -> (s: &'static str)
        ensures
            s@ == self.text(),
    {
        match self {
            WorkflowStatus::Active => "active",
            WorkflowStatus::NeedsReview => "needs-review",
            WorkflowStatus::NeedsQa => "needs-qa",
            WorkflowStatus::PrOpen => "pr-open",
            WorkflowStatus::AwaitingCi => "awaiting-ci",
            WorkflowStatus::AwaitingHuman => "awaiting-human",
            WorkflowStatus::Completed => "completed",
            WorkflowStatus::Superseded => "superseded",
            WorkflowStatus::Cancelled => "cancelled",
            WorkflowStatus::Retired => "retired",
        }
    }

    /// The value that a label stands for, retired labels among them.
    pub open spec fn of_text(t: Seq<char>) -> Option<WorkflowStatus> {
        if t == "active"@ {
            Some(WorkflowStatus::Active)
        } else if t == "needs-review"@ {
            Some(WorkflowStatus::NeedsReview)
        } else if t == "needs-qa"@ {
            Some(WorkflowStatus::NeedsQa)
        } else if t == "pr-open"@ {
            Some(WorkflowStatus::PrOpen)
        } else if t == "awaiting-ci"@ {
            Some(WorkflowStatus::AwaitingCi)
        } else if t == "awaiting-human"@ {
            Some(WorkflowStatus::AwaitingHuman)
        } else if t == "completed"@ {
            Some(WorkflowStatus::Completed)
        } else if t == "superseded"@ {
            Some(WorkflowStatus::Superseded)
        } else if t == "cancelled"@ {
            Some(WorkflowStatus::Cancelled)
        } else if t == "retired"@ {
            Some(WorkflowStatus::Retired)
        } else if t == "failed"@ {
            Some(WorkflowStatus::Active)
        } else if t == "interrupted"@ {
            Some(WorkflowStatus::Active)
        } else if t == "abandoned"@ {
            Some(WorkflowStatus::Active)
        } else {
            None
        }
    }

    /// The value that `value` is the label of.
    pub fn parse(value: &str) -> (res: Result<WorkflowStatus, LedgerError>)
        ensures
            match WorkflowStatus::of_text(value@) {
                Some(x) => res == Ok::<WorkflowStatus, LedgerError>(x),
                None => res matches Err(e) && e@ == LedgerErrorView::InvalidWorkflowStatus(value@),
            },
    {
        if str_eq(value, "active") {
            Ok(WorkflowStatus::Active)
        } else if str_eq(value, "needs-review") {
            Ok(WorkflowStatus::NeedsReview)
        } else if str_eq(value, "needs-qa") {
            Ok(WorkflowStatus::NeedsQa)
        } else if str_eq(value, "pr-open") {
            Ok(WorkflowStatus::PrOpen)
        } else if str_eq(value, "awaiting-ci") {
            Ok(WorkflowStatus::AwaitingCi)
        } else if str_eq(value, "awaiting-human") {
            Ok(WorkflowStatus::AwaitingHuman)
        } else if str_eq(value, "completed") {
            Ok(WorkflowStatus::Completed)
        } else if str_eq(value, "superseded") {
            Ok(WorkflowStatus::Superseded)
        } else if str_eq(value, "cancelled") {
            Ok(WorkflowStatus::Cancelled)
        } else if str_eq(value, "retired") {
            Ok(WorkflowStatus::Retired)
        } else if str_eq(value, "failed") {
            Ok(WorkflowStatus::Active)
        } else if str_eq(value, "interrupted") {
            Ok(WorkflowStatus::Active)
        } else if str_eq(value, "abandoned") {
            Ok(WorkflowStatus::Active)
        } else {
            Err(LedgerError::InvalidWorkflowStatus(value.to_owned()))
        }
    }

    /// A label reads back as the value it was written for.
    pub proof fn label_reads_back(self)
        ensures
            WorkflowStatus::of_text(self.text()) == Some(self),
    {
        reveal_strlit("active");
        reveal_strlit("needs-review");
        reveal_strlit("needs-qa");
        reveal_strlit("pr-open");
        reveal_strlit("awaiting-ci");
        reveal_strlit("awaiting-human");
        reveal_strlit("completed");
        reveal_strlit("superseded");
        reveal_strlit("cancelled");
        reveal_strlit("retired");
        assert("active"@.len() == 6);
        assert("needs-review"@.len() == 12);
        assert("needs-qa"@.len() == 8);
        assert("pr-open"@.len() == 7);
        assert("awaiting-ci"@.len() == 11);
        assert("awaiting-human"@.len() == 14);
        assert("completed"@.len() == 9);
        assert("superseded"@.len() == 10);
        assert("cancelled"@.len() == 9);
        assert("retired"@.len() == 7);
        assert("pr-open"@[0] != "retired"@[0]);
        assert("completed"@[1] != "cancelled"@[1]);
    }

    /// Whether the work of the session is over.
    pub open spec fn terminal(self) -> bool {
        ||| self is Completed
        ||| self is Superseded
        ||| self is Cancelled
        ||| self is Retired
    }

    /// Whether the work of the session is over.
    pub fn is_terminal(self) -> (yes: bool)
        ensures
            yes == self.terminal(),
    {
        matches!(
            self,
            WorkflowStatus::Completed | WorkflowStatus::Superseded | WorkflowStatus::Cancelled
                | WorkflowStatus::Retired
        )
    }
}

/// Whether the tmux session is there.
#[derive(Debug, Clone, Copy, PartialEq, Eq, Structural)]
pub enum RuntimeStatus {
    Live,
    TmuxMissing,
}

impl RuntimeStatus {
    /// The label of the value.
    pub open spec fn text(self) -> Seq<char> {
        match self {
            RuntimeStatus::Live => "live"@,
            RuntimeStatus::TmuxMissing => "tmux-missing"@,
        }
    }

    /// The label of the value.
    pub fn as_str(self) -> (s: &'static str)
        ensures
            s@ == self.text(),
    {
        match self {
            RuntimeStatus::Live => "live",
            RuntimeStatus::TmuxMissing => "tmux-missing",
        }
    }

    /// Different values have different labels.
    pub proof fn labels_differ(self, other: RuntimeStatus)
        requires
            self.text() == other.text(),
        ensures
            self == other,
    {
        reveal_strlit("live");
        reveal_strlit("tmux-missing");
        assert("live"@.len() == 4);
        assert("tmux-missing"@.len() == 12);
    }

    /// `Live` exactly where the tmux session is there.
    pub open spec fn of_live(live_tmux: bool) -> RuntimeStatus {
        if live_tmux {
            RuntimeStatus::Live
        } else {
            RuntimeStatus::TmuxMissing
        }
    }

    /// `Live` exactly where the tmux session is there.
    pub fn from_live_tmux(live_tmux: bool) -> (status: RuntimeStatus)
        ensures
            status == RuntimeStatus::of_live(live_tmux),
    {
        if live_tmux {
            RuntimeStatus::Live
        } else {
            RuntimeStatus::TmuxMissing
        }
    }
}

/// What runs in a session.
#[derive(Debug, Clone, Copy, PartialEq, Eq, Structural)]
pub enum SessionKind {
    Agent,
    Infra,
    Human,
    Unknown,
}

impl SessionKind {
    /// The label of the value.
    pub open spec fn text(self) -> Seq<char> {
        match self {
            SessionKind::Agent => "agent"@,
            SessionKind::Infra => "infra"@,
            SessionKind::Human => "human"@,
            SessionKind::Unknown => "unknown"@,
        }
    }

    /// The label of the value.
    pub fn as_str(self) -> (s: &'static str)
        ensures
            s@ == self.text(),
    {
        match self {
            SessionKind::Agent => "agent",
            SessionKind::Infra => "infra",
            SessionKind::Human => "human",
            SessionKind::Unknown => "unknown",
        }
    }

    /// The value that a label stands for.
    pub open spec fn of_text(t: Seq<char>) -> Option<SessionKind> {
        if t == "agent"@ {
            Some(SessionKind::Agent)
        } else if t == "infra"@ {
            Some(SessionKind::Infra)
        } else if t == "human"@ {
            Some(SessionKind::Human)
        } else if t == "unknown"@ {
            Some(SessionKind::Unknown)
        } else {
            None
        }
    }

    /// The value that `value` is the label of.
    pub fn parse(value: &str) -> (res: Result<SessionKind, LedgerError>)
        ensures
            match SessionKind::of_text(value@) {
                Some(x) => res == Ok::<SessionKind, LedgerError>(x),
                None => res matches Err(e) && e@ == LedgerErrorView::InvalidSessionKind(value@),
            },
    {
        if str_eq(value, "agent") {
            Ok(SessionKind::Agent)
        } else if str_eq(value, "infra") {
            Ok(SessionKind::Infra)
        } else if str_eq(value, "human") {
            Ok(SessionKind::Human)
        } else if str_eq(value, "unknown") {
            Ok(SessionKind::Unknown)
        } else {
            Err(LedgerError::InvalidSessionKind(value.to_owned()))
        }
    }

    /// A label reads back as the value it was written for.
    pub proof fn label_reads_back(self)
        ensures
            SessionKind::of_text(self.text()) == Some(self),
    {
        reveal_strlit("agent");
        reveal_strlit("infra");
        reveal_strlit("human");
        reveal_strlit("unknown");
        assert("agent"@.len() == 5);
        assert("infra"@.len() == 5);
        assert("human"@.len() == 5);
        assert("unknown"@.len() == 7);
        assert("agent"@[0] != "infra"@[0]);
        assert("agent"@[0] != "human"@[0]);
        assert("infra"@[0] != "human"@[0]);
    }
}

/// What is known of the monitoring of a session.
#[derive(Debug, Clone, Copy, PartialEq, Eq, Structural)]
pub enum SessionState {
    Unknown,
    Healthy,
    LostMonitoring,
    IgnoredAlive,
    Dead,
    Retired,
}

impl SessionState {
    /// The label of the value.
    pub open spec fn text(self) -> Seq<char> {
        match self {
            SessionState::Unknown => "unknown"@,
            SessionState::Healthy => "healthy"@,
            SessionState::LostMonitoring => "lost-monitoring"@,
            SessionState::IgnoredAlive => "ignored-alive"@,
            SessionState::Dead => "dead"@,
            SessionState::Retired => "retired"@,
        }
    }

    /// The label of the value.
    pub fn as_str(self) -> (s: &'static str)
        ensures
            s@ == self.text(),
    {
        match self {
            SessionState::Unknown => "unknown",
            SessionState::Healthy => "healthy",
            SessionState::LostMonitoring => "lost-monitoring",
            SessionState::IgnoredAlive => "ignored-alive",
            SessionState::Dead => "dead",
            SessionState::Retired => "retired",
        }
    }

    /// The value that a label stands for.
    pub open spec fn of_text(t: Seq<char>) -> Option<SessionState> {
        if t == "unknown"@ {
            Some(SessionState::Unknown)
        } else if t == "healthy"@ {
            Some(SessionState::Healthy)
        } else if t == "lost-monitoring"@ {
            Some(SessionState::LostMonitoring)
        } else if t == "ignored-alive"@ {
            Some(SessionState::IgnoredAlive)
        } else if t == "dead"@ {
            Some(SessionState::Dead)
        } else if t == "retired"@ {
            Some(SessionState::Retired)
        } else {
            None
        }
    }

    /// The value that `value` is the label of.
    pub fn parse(value: &str) -> (res: Result<SessionState, LedgerError>)
        ensures
            match SessionState::of_text(value@) {
                Some(x) => res == Ok::<SessionState, LedgerError>(x),
                None => res matches Err(e) && e@ == LedgerErrorView::InvalidSessionState(value@),
            },
    {
        if str_eq(value, "unknown") {
            Ok(SessionState::Unknown)
        } else if str_eq(value, "healthy") {
            Ok(SessionState::Healthy)
        } else if str_eq(value, "lost-monitoring") {
            Ok(SessionState::LostMonitoring)
        } else if str_eq(value, "ignored-alive") {
            Ok(SessionState::IgnoredAlive)
        } else if str_eq(value, "dead") {
            Ok(SessionState::Dead)
        } else if str_eq(value, "retired") {
            Ok(SessionState::Retired)
        } else {
            Err(LedgerError::InvalidSessionState(value.to_owned()))
        }
    }

    /// A label reads back as the value it was written for.
    pub proof fn label_reads_back(self)
        ensures
            SessionState::of_text(self.text()) == Some(self),
    {
        reveal_strlit("unknown");
        reveal_strlit("healthy");
        reveal_strlit("lost-monitoring");
        reveal_strlit("ignored-alive");
        reveal_strlit("dead");
        reveal_strlit("retired");
        assert("unknown"@.len() == 7);
        assert("healthy"@.len() == 7);
        assert("lost-monitoring"@.len() == 15);
        assert("ignored-alive"@.len() == 13);
        assert("dead"@.len() == 4);
        assert("retired"@.len() == 7);
        assert("unknown"@[0] != "healthy"@[0]);
        assert("unknown"@[0] != "retired"@[0]);
        assert("healthy"@[0] != "retired"@[0]);
    }
}

/// What asked for a session to be watched.
#[derive(Debug, Clone, Copy, PartialEq, Eq, Structural)]
pub enum RegistrationSource {
    CliWatch,
    CliNew,
    ConfigMonitor,
}

impl RegistrationSource {
    /// The label of the value.
    pub open spec fn text(self) -> Seq<char> {
        match self {
            RegistrationSource::CliWatch => "cli-watch"@,
            RegistrationSource::CliNew => "cli-new"@,
            RegistrationSource::ConfigMonitor => "config-monitor"@,
        }
    }

    /// The label of the value.
    pub fn as_str(self) -> (s: &'static str)
        ensures
            s@ == self.text(),
    {
        match self {
            RegistrationSource::CliWatch => "cli-watch",
            RegistrationSource::CliNew => "cli-new",
            RegistrationSource::ConfigMonitor => "config-monitor",
        }
    }

    /// The value that a label stands for.
    pub open spec fn of_text(t: Seq<char>) -> Option<RegistrationSource> {
        if t == "cli-watch"@ {
            Some(RegistrationSource::CliWatch)
        } else if t == "cli-new"@ {
            Some(RegistrationSource::CliNew)
        } else if t == "config-monitor"@ {
            Some(RegistrationSource::ConfigMonitor)
        } else {
            None
        }
    }

    /// The value that `value` is the label of.
    pub fn parse(value: &str) -> (res: Result<RegistrationSource, LedgerError>)
        ensures
            match RegistrationSource::of_text(value@) {
                Some(x) => res == Ok::<RegistrationSource, LedgerError>(x),
                None => res matches Err(e) && e@ == LedgerErrorView::InvalidRegistrationSource(value@),
            },
    {
        if str_eq(value, "cli-watch") {
            Ok(RegistrationSource::CliWatch)
        } else if str_eq(value, "cli-new") {
            Ok(RegistrationSource::CliNew)
        } else if str_eq(value, "config-monitor") {
            Ok(RegistrationSource::ConfigMonitor)
        } else {
            Err(LedgerError::InvalidRegistrationSource(value.to_owned()))
        }
    }

    /// A label reads back as the value it was written for.
    pub proof fn label_reads_back(self)
        ensures
            RegistrationSource::of_text(self.text()) == Some(self),
    {
        reveal_strlit("cli-watch");
        reveal_strlit("cli-new");
        reveal_strlit("config-monitor");
        assert("cli-watch"@.len() == 9);
        assert("cli-new"@.len() == 7);
        assert("config-monitor"@.len() == 14);
    }
}

/// How messages of a watched session are laid out.
#[derive(Debug, Clone, Copy, PartialEq, Eq, Structural)]
pub enum MessageFormat {
    Compact,
    Alert,
}

impl MessageFormat {
    /// The label of the value.
    pub open spec fn text(self) -> Seq<char> {
        match self {
            MessageFormat::Compact => "compact"@,
            MessageFormat::Alert => "alert"@,
        }
    }

    /// The label of the value.
    pub fn as_str(self) -> (s: &'static str)
        ensures
            s@ == self.text(),
    {
        match self {
            MessageFormat::Compact => "compact",
            MessageFormat::Alert => "alert",
        }
    }

    /// The value that a label stands for.
    pub open spec fn of_text(t: Seq<char>) -> Option<MessageFormat> {
        if t == "compact"@ {
            Some(MessageFormat::Compact)
        } else if t == "alert"@ {
            Some(MessageFormat::Alert)
        } else {
            None
        }
    }

    /// The value that `value` is the label of.
    pub fn from_label(value: &str) -> (res: Result<MessageFormat, LedgerError>)
        ensures
            match MessageFormat::of_text(value@) {
                Some(x) => res == Ok::<MessageFormat, LedgerError>(x),
                None => res matches Err(e) && e@ == LedgerErrorView::InvalidMessageFormat(value@),
            },
    {
        if str_eq(value, "compact") {
            Ok(MessageFormat::Compact)
        } else if str_eq(value, "alert") {
            Ok(MessageFormat::Alert)
        } else {
            Err(LedgerError::InvalidMessageFormat(value.to_owned()))
        }
    }

    /// A label reads back as the value it was written for.
    pub proof fn label_reads_back(self)
        ensures
            MessageFormat::of_text(self.text()) == Some(self),
    {
        reveal_strlit("compact");
        reveal_strlit("alert");
        assert("compact"@.len() == 7);
        assert("alert"@.len() == 5);
    }
}

/// Who answers for a session.
#[derive(Debug, PartialEq, Eq)]
pub enum SessionOwner {
    System,
    Unknown,
    Named(String),
}

/// [`SessionOwner`] with the name as characters.
pub enum SessionOwnerView {
    System,
    Unknown,
    Named(Seq<char>),
}

impl View for SessionOwner {
    type V = SessionOwnerView;

    open spec fn view(&self) -> SessionOwnerView {
        match *self {
            SessionOwner::System => SessionOwnerView::System,
            SessionOwner::Unknown => SessionOwnerView::Unknown,
            SessionOwner::Named(name) => SessionOwnerView::Named(name@),
        }
    }
}

impl SessionOwnerView {
    /// The label of the owner: the name itself where there is one.
    pub open spec fn text(self) -> Seq<char> {
        match self {
            SessionOwnerView::System => "system"@,
            SessionOwnerView::Unknown => "unknown"@,
            SessionOwnerView::Named(name) => name,
        }
    }

    /// The owner that a label stands for; the empty label stands for none.
    pub open spec fn of_text(t: Seq<char>) -> Option<SessionOwnerView> {
        if t == "system"@ {
            Some(SessionOwnerView::System)
        } else if t == "unknown"@ {
            Some(SessionOwnerView::Unknown)
        } else if t.len() == 0 {
            None
        } else {
            Some(SessionOwnerView::Named(t))
        }
    }

    /// Whether the owner is named by a label of its own: not by the empty text, nor by the label of
    /// the system or of the unknown owner.
    pub open spec fn distinctly_named(self) -> bool {
        self matches SessionOwnerView::Named(name) ==> name.len() > 0 && name != "system"@ && name
            != "unknown"@
    }

    /// The label of an owner with a label of its own reads back as that owner.
    pub proof fn label_reads_back(self)
        requires
            self.distinctly_named(),
        ensures
            SessionOwnerView::of_text(self.text()) == Some(self),
    {
        reveal_strlit("system");
        reveal_strlit("unknown");
        assert("system"@.len() == 6);
        assert("unknown"@.len() == 7);
    }

    /// Every label but the empty one is the label of what it stands for.
    pub proof fn owner_keeps_its_label(t: Seq<char>)
        requires
            t.len() > 0,
        ensures
            SessionOwnerView::of_text(t) matches Some(owner) && owner.text() == t
                && owner.distinctly_named(),
    {
    }
}

impl SessionOwner {
    /// The label of the owner.
    pub fn as_str(&self) -> (s: &str)
        ensures
            s@ == self@.text(),
    {
        match self {
            SessionOwner::System => "system",
            SessionOwner::Unknown => "unknown",
            SessionOwner::Named(name) => name.as_str(),
        }
    }

    /// The owner that `value` is the label of.
    pub fn parse(value: &str) -> (res: Result<SessionOwner, LedgerError>)
        ensures
            match SessionOwnerView::of_text(value@) {
                Some(owner) => res matches Ok(x) && x@ == owner,
                None => res matches Err(e) && e@ == LedgerErrorView::EmptySessionOwner,
            },
    {
        if str_eq(value, "system") {
            Ok(SessionOwner::System)
        } else if str_eq(value, "unknown") {
            Ok(SessionOwner::Unknown)
        } else if value.is_empty() {
            Err(LedgerError::EmptySessionOwner)
        } else {
            Ok(SessionOwner::Named(value.to_owned()))
        }
    }

}

impl Clone for SessionOwner {
    fn clone(&self) -> (owner: SessionOwner)
        ensures
            owner == *self,
    {
        match self {
            SessionOwner::System => SessionOwner::System,
            SessionOwner::Unknown => SessionOwner::Unknown,
            SessionOwner::Named(name) => SessionOwner::Named(name.clone()),
        }
    }
}

} // verus!
