//! Which label stands for what.

use vstd::prelude::*;
use vstd::string::*;

use crate::status::{
    LaneStatus, MessageFormat, RegistrationSource, RuntimeStatus, SessionKind, SessionOwnerView,
    SessionState, WorkflowStatus,
};

verus! {

impl WorkflowStatus {
    /// Every text stands for at most one value, and for none but by these labels; labels of earlier
    /// versions stand for active work.
    pub proof fn labels_stand_for_one_value(t: Seq<char>)
        ensures
            WorkflowStatus::of_text(t) == Some(WorkflowStatus::Active) <==> (t == "active"@
                || t == "failed"@
                || t == "interrupted"@
                || t == "abandoned"@),
            WorkflowStatus::of_text(t) == Some(WorkflowStatus::NeedsReview)
                <==> t == "needs-review"@,
            WorkflowStatus::of_text(t) == Some(WorkflowStatus::NeedsQa) <==> t == "needs-qa"@,
            WorkflowStatus::of_text(t) == Some(WorkflowStatus::PrOpen) <==> t == "pr-open"@,
            WorkflowStatus::of_text(t) == Some(WorkflowStatus::AwaitingCi) <==> t == "awaiting-ci"@,
            WorkflowStatus::of_text(t) == Some(WorkflowStatus::AwaitingHuman)
                <==> t == "awaiting-human"@,
            WorkflowStatus::of_text(t) == Some(WorkflowStatus::Completed) <==> t == "completed"@,
            WorkflowStatus::of_text(t) == Some(WorkflowStatus::Superseded) <==> t == "superseded"@,
            WorkflowStatus::of_text(t) == Some(WorkflowStatus::Cancelled) <==> t == "cancelled"@,
            WorkflowStatus::of_text(t) == Some(WorkflowStatus::Retired) <==> t == "retired"@,
            WorkflowStatus::Active.text() == "active"@,
            WorkflowStatus::NeedsReview.text() == "needs-review"@,
            WorkflowStatus::NeedsQa.text() == "needs-qa"@,
            WorkflowStatus::PrOpen.text() == "pr-open"@,
            WorkflowStatus::AwaitingCi.text() == "awaiting-ci"@,
            WorkflowStatus::AwaitingHuman.text() == "awaiting-human"@,
            WorkflowStatus::Completed.text() == "completed"@,
            WorkflowStatus::Superseded.text() == "superseded"@,
            WorkflowStatus::Cancelled.text() == "cancelled"@,
            WorkflowStatus::Retired.text() == "retired"@,
    {
        reveal_strlit("active");
        reveal_strlit("needs-review");
        reveal_strlit("needs-qa");
        reveal_strlit("pr-open");
        reveal_strlit("awaiting-ci");
        reveal_strlit("awaiting-human");
        reveal_strlit("completed");
        reveal_strlit("superseded");
        reveal_strlit("cancelled");
        reveal_strlit("retired");
        reveal_strlit("failed");
        reveal_strlit("interrupted");
        reveal_strlit("abandoned");
        assert("active"@.len() == 6);
        assert("needs-review"@.len() == 12);
        assert("needs-qa"@.len() == 8);
        assert("pr-open"@.len() == 7);
        assert("awaiting-ci"@.len() == 11);
        assert("awaiting-human"@.len() == 14);
        assert("completed"@.len() == 9);
        assert("superseded"@.len() == 10);
        assert("cancelled"@.len() == 9);
        assert("retired"@.len() == 7);
        assert("failed"@.len() == 6);
        assert("interrupted"@.len() == 11);
        assert("abandoned"@.len() == 9);
        assert("completed"@[1] != "cancelled"@[1]);
        assert("pr-open"@[0] != "retired"@[0]);
        assert("active"@[0] != "failed"@[0]);
        assert("awaiting-ci"@[0] != "interrupted"@[0]);
        assert("completed"@[0] != "abandoned"@[0]);
        assert("cancelled"@[0] != "abandoned"@[0]);
    }
}

impl SessionKind {
    /// Every text stands for at most one value, and for none but by these labels.
    pub proof fn labels_stand_for_one_value(t: Seq<char>)
        ensures
            SessionKind::of_text(t) == Some(SessionKind::Agent) <==> t == "agent"@,
            SessionKind::of_text(t) == Some(SessionKind::Infra) <==> t == "infra"@,
            SessionKind::of_text(t) == Some(SessionKind::Human) <==> t == "human"@,
            SessionKind::of_text(t) == Some(SessionKind::Unknown) <==> t == "unknown"@,
            SessionKind::Agent.text() == "agent"@,
            SessionKind::Infra.text() == "infra"@,
            SessionKind::Human.text() == "human"@,
            SessionKind::Unknown.text() == "unknown"@,
    {
        reveal_strlit("agent");
        reveal_strlit("infra");
        reveal_strlit("human");
        reveal_strlit("unknown");
        assert("agent"@.len() == 5);
        assert("infra"@.len() == 5);
        assert("human"@.len() == 5);
        assert("unknown"@.len() == 7);
        assert("agent"@[0] != "infra"@[0]);
        assert("agent"@[0] != "human"@[0]);
        assert("infra"@[0] != "human"@[0]);
    }
}

impl SessionState {
    /// Every text stands for at most one value, and for none but by these labels.
    pub proof fn labels_stand_for_one_value(t: Seq<char>)
        ensures
            SessionState::of_text(t) == Some(SessionState::Unknown) <==> t == "unknown"@,
            SessionState::of_text(t) == Some(SessionState::Healthy) <==> t == "healthy"@,
            SessionState::of_text(t) == Some(SessionState::LostMonitoring)
                <==> t == "lost-monitoring"@,
            SessionState::of_text(t) == Some(SessionState::IgnoredAlive) <==> t == "ignored-alive"@,
            SessionState::of_text(t) == Some(SessionState::Dead) <==> t == "dead"@,
            SessionState::of_text(t) == Some(SessionState::Retired) <==> t == "retired"@,
            SessionState::Unknown.text() == "unknown"@,
            SessionState::Healthy.text() == "healthy"@,
            SessionState::LostMonitoring.text() == "lost-monitoring"@,
            SessionState::IgnoredAlive.text() == "ignored-alive"@,
            SessionState::Dead.text() == "dead"@,
            SessionState::Retired.text() == "retired"@,
    {
        reveal_strlit("unknown");
        reveal_strlit("healthy");
        reveal_strlit("lost-monitoring");
        reveal_strlit("ignored-alive");
        reveal_strlit("dead");
        reveal_strlit("retired");
        assert("unknown"@.len() == 7);
        assert("healthy"@.len() == 7);
        assert("lost-monitoring"@.len() == 15);
        assert("ignored-alive"@.len() == 13);
        assert("dead"@.len() == 4);
        assert("retired"@.len() == 7);
        assert("unknown"@[0] != "healthy"@[0]);
        assert("unknown"@[0] != "retired"@[0]);
        assert("healthy"@[0] != "retired"@[0]);
    }
}

impl RegistrationSource {
    /// Every text stands for at most one value, and for none but by these labels.
    pub proof fn labels_stand_for_one_value(t: Seq<char>)
        ensures
            RegistrationSource::of_text(t) == Some(RegistrationSource::CliWatch)
                <==> t == "cli-watch"@,
            RegistrationSource::of_text(t) == Some(RegistrationSource::CliNew) <==> t == "cli-new"@,
            RegistrationSource::of_text(t) == Some(RegistrationSource::ConfigMonitor)
                <==> t == "config-monitor"@,
            RegistrationSource::CliWatch.text() == "cli-watch"@,
            RegistrationSource::CliNew.text() == "cli-new"@,
            RegistrationSource::ConfigMonitor.text() == "config-monitor"@,
    {
        reveal_strlit("cli-watch");
        reveal_strlit("cli-new");
        reveal_strlit("config-monitor");
        assert("cli-watch"@.len() == 9);
        assert("cli-new"@.len() == 7);
        assert("config-monitor"@.len() == 14);
    }
}

impl MessageFormat {
    /// Every text stands for at most one value, and for none but by these labels.
    pub proof fn labels_stand_for_one_value(t: Seq<char>)
        ensures
            MessageFormat::of_text(t) == Some(MessageFormat::Compact) <==> t == "compact"@,
            MessageFormat::of_text(t) == Some(MessageFormat::Alert) <==> t == "alert"@,
            MessageFormat::Compact.text() == "compact"@,
            MessageFormat::Alert.text() == "alert"@,
    {
        reveal_strlit("compact");
        reveal_strlit("alert");
        assert("compact"@.len() == 7);
        assert("alert"@.len() == 5);
    }
}

impl LaneStatus {
    /// The board shows each value by its own label.
    pub proof fn labels_are_shown(self)
        ensures
            self.text() == match self {
                LaneStatus::HealthyAgent => "healthy-agent"@,
                LaneStatus::LostMonitoring => "lost-monitoring"@,
                LaneStatus::IgnoredInfra => "ignored-infra"@,
                LaneStatus::UnknownTmux => "unknown-tmux"@,
                LaneStatus::InfraCandidate => "infra-candidate"@,
                LaneStatus::ExternallyWatched => "externally-watched"@,
                LaneStatus::WorkflowHandoff => "workflow-handoff"@,
                LaneStatus::TmuxMissing => "tmux-missing"@,
            },
    {
    }
}

impl RuntimeStatus {
    /// The board shows each value by its own label.
    pub proof fn labels_are_shown(self)
        ensures
            self.text() == match self {
                RuntimeStatus::Live => "live"@,
                RuntimeStatus::TmuxMissing => "tmux-missing"@,
            },
    {
    }
}

impl SessionOwnerView {
    /// The two fixed owners stand by their words, and every other text but the empty one stands for
    /// the owner of that name.
    pub proof fn owners_stand_by_their_names(t: Seq<char>)
        ensures
            SessionOwnerView::of_text(t) == Some(SessionOwnerView::System) <==> t == "system"@,
            SessionOwnerView::of_text(t) == Some(SessionOwnerView::Unknown) <==> t == "unknown"@,
            SessionOwnerView::of_text(t) == Some(SessionOwnerView::Named(t)) <==> t.len() > 0 && t
                != "system"@ && t != "unknown"@,
            SessionOwnerView::of_text(t) is None <==> t.len() == 0,
            SessionOwnerView::System.text() == "system"@,
            SessionOwnerView::Unknown.text() == "unknown"@,
            SessionOwnerView::Named(t).text() == t,
    {
        reveal_strlit("system");
        reveal_strlit("unknown");
        assert("system"@.len() == 6);
        assert("unknown"@.len() == 7);
    }
}

} // verus!
