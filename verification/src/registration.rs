//! Sessions as the daemon has them registered, and what is recorded of them.

use vstd::prelude::*;
use vstd::string::*;

use crate::outside::{clock_text, now_rfc3339};
use crate::records::{SessionInput, SessionInputView, WatchIntentInput, WatchIntentInputView};
use crate::status::{
    MessageFormat, RegistrationSource, SessionKind, SessionOwner, SessionOwnerView, SessionState,
    WorkflowStatus,
};
use crate::text::{clone_opt, clone_strings, opt_view, str_eq, views};

verus! {

/// Where the work of a session happens.
#[derive(Debug, PartialEq, Eq)]
pub struct RoutingMetadata {
    pub repo_name: Option<String>,
    pub worktree_path: Option<String>,
    pub branch: Option<String>,
}

/// [`RoutingMetadata`] with its strings as characters.
#[verifier::ext_equal]
pub struct RoutingMetadataView {
    pub repo_name: Option<Seq<char>>,
    pub worktree_path: Option<Seq<char>>,
    pub branch: Option<Seq<char>>,
}

impl View for RoutingMetadata {
    type V = RoutingMetadataView;

    open spec fn view(&self) -> RoutingMetadataView {
        RoutingMetadataView {
            repo_name: opt_view(self.repo_name),
            worktree_path: opt_view(self.worktree_path),
            branch: opt_view(self.branch),
        }
    }
}

impl Clone for RoutingMetadata {
    fn clone(&self) -> (copy: RoutingMetadata)
        ensures
            copy@ == self@,
    {
        RoutingMetadata {
            repo_name: clone_opt(&self.repo_name),
            worktree_path: clone_opt(&self.worktree_path),
            branch: clone_opt(&self.branch),
        }
    }
}

/// A session as the daemon has it registered.
#[derive(Debug, PartialEq, Eq)]
pub struct RegisteredTmuxSession {
    pub session: String,
    pub channel: Option<String>,
    pub thread: Option<String>,
    pub mention: Option<String>,
    pub routing: RoutingMetadata,
    pub keywords: Vec<String>,
    pub keyword_window_secs: u64,
    pub stale_minutes: u64,
    pub format: Option<MessageFormat>,
    pub registered_at: String,
    pub registration_source: RegistrationSource,
    pub active_wrapper_monitor: bool,
}

/// [`RegisteredTmuxSession`] with its strings as characters.
#[verifier::ext_equal]
pub struct RegisteredTmuxSessionView {
    pub session: Seq<char>,
    pub channel: Option<Seq<char>>,
    pub thread: Option<Seq<char>>,
    pub mention: Option<Seq<char>>,
    pub routing: RoutingMetadataView,
    pub keywords: Seq<Seq<char>>,
    pub keyword_window_secs: u64,
    pub stale_minutes: u64,
    pub format: Option<MessageFormat>,
    pub registered_at: Seq<char>,
    pub registration_source: RegistrationSource,
    pub active_wrapper_monitor: bool,
}

impl View for RegisteredTmuxSession {
    type V = RegisteredTmuxSessionView;

    open spec fn view(&self) -> RegisteredTmuxSessionView {
        RegisteredTmuxSessionView {
            session: self.session@,
            channel: opt_view(self.channel),
            thread: opt_view(self.thread),
            mention: opt_view(self.mention),
            routing: self.routing@,
            keywords: views(self.keywords@),
            keyword_window_secs: self.keyword_window_secs,
            stale_minutes: self.stale_minutes,
            format: self.format,
            registered_at: self.registered_at@,
            registration_source: self.registration_source,
            active_wrapper_monitor: self.active_wrapper_monitor,
        }
    }
}

impl Clone for RegisteredTmuxSession {
    fn clone(&self) -> (copy: RegisteredTmuxSession)
        ensures
            copy@ == self@,
    {
        RegisteredTmuxSession {
            session: self.session.clone(),
            channel: clone_opt(&self.channel),
            thread: clone_opt(&self.thread),
            mention: clone_opt(&self.mention),
            routing: self.routing.clone(),
            keywords: clone_strings(&self.keywords),
            keyword_window_secs: self.keyword_window_secs,
            stale_minutes: self.stale_minutes,
            format: self.format,
            registered_at: self.registered_at.clone(),
            registration_source: self.registration_source,
            active_wrapper_monitor: self.active_wrapper_monitor,
        }
    }
}

/// The owner of the sessions that work on a repository.
#[derive(Debug, PartialEq, Eq)]
pub struct SessionOwnerMapping {
    pub repo: String,
    pub owner: String,
}

/// [`SessionOwnerMapping`] with its strings as characters.
#[verifier::ext_equal]
pub struct SessionOwnerMappingView {
    pub repo: Seq<char>,
    pub owner: Seq<char>,
}

impl View for SessionOwnerMapping {
    type V = SessionOwnerMappingView;

    open spec fn view(&self) -> SessionOwnerMappingView {
        SessionOwnerMappingView {
            repo: self.repo@,
            owner: self.owner@,
        }
    }
}

impl Default for RoutingMetadata {
    fn default() -> (routing: RoutingMetadata)
        ensures
            routing@ == (RoutingMetadataView { repo_name: None, worktree_path: None, branch: None }),
    {
        RoutingMetadata { repo_name: None, worktree_path: None, branch: None }
    }
}

/// The owner that the first mapping for `repo` names, or the unknown owner where there is none.
pub open spec fn mapped_owner(repo: Seq<char>, mappings: Seq<SessionOwnerMappingView>) -> SessionOwnerView
    decreases mappings.len(),
{
    if mappings.len() == 0 {
        SessionOwnerView::Unknown
    } else if mappings[0].repo == repo {
        SessionOwnerView::Named(mappings[0].owner)
    } else {
        mapped_owner(repo, mappings.drop_first())
    }
}

/// The owner of a session: that of its repository, where it has one.
pub open spec fn inferred_owner(
    repo_name: Option<Seq<char>>,
    mappings: Seq<SessionOwnerMappingView>,
) -> SessionOwnerView {
    match repo_name {
        None => SessionOwnerView::Unknown,
        Some(repo) => mapped_owner(repo, mappings),
    }
}

/// The mappings with their strings as characters.
pub open spec fn mapping_views(mappings: Seq<SessionOwnerMapping>) -> Seq<SessionOwnerMappingView> {
    mappings.map_values(|m: SessionOwnerMapping| m@)
}

impl SessionOwner {
    /// The owner that the mappings give a session.
    pub fn infer_from_registration(
        registration: &RegisteredTmuxSession,
        mappings: &[SessionOwnerMapping],
    ) -> (owner: SessionOwner)
        ensures
            owner@ == inferred_owner(registration@.routing.repo_name, mapping_views(mappings@)),
    {
        let repo = match &registration.routing.repo_name {
            Some(repo) => repo,
            None => {
                return SessionOwner::Unknown;
            },
        };
        let ghost all = mapping_views(mappings@);
        let mut i: usize = 0;
        assert(all.skip(0) == all);
        while i < mappings.len()
            invariant
                i <= mappings@.len(),
                registration@.routing.repo_name == Some(repo@),
                all == mapping_views(mappings@),
                mapped_owner(repo@, all.skip(i as int)) == mapped_owner(repo@, all),
            decreases mappings.len() - i,
        {
            let mapping = &mappings[i];
            assert(all.skip(i as int)[0] == mapping@);
            if str_eq(mapping.repo.as_str(), repo.as_str()) {
                return SessionOwner::Named(mapping.owner.clone());
            }
            assert(all.skip(i as int).drop_first() == all.skip(i + 1));
            i = i + 1;
        }
        SessionOwner::Unknown
    }
}

/// What is recorded of the session of a registration that is seen at `now`.
pub open spec fn registered_session(
    registration: RegisteredTmuxSessionView,
    spawned_by_clawhip: bool,
    mappings: Seq<SessionOwnerMappingView>,
    now: Seq<char>,
) -> SessionInputView {
    SessionInputView {
        tmux_session: registration.session,
        tmux_pane: None,
        kind: SessionKind::Agent,
        owner: inferred_owner(registration.routing.repo_name, mappings),
        project_path: registration.routing.worktree_path,
        repo_name: registration.routing.repo_name,
        branch: registration.routing.branch,
        spawned_by_clawhip,
        expected_watch: true,
        state: SessionState::Unknown,
        workflow_status: WorkflowStatus::Active,
        last_seen_at: Some(now),
    }
}

/// What is recorded of the wish to watch that a registration expresses, confirmed at `now`.
pub open spec fn registered_intent(
    registration: RegisteredTmuxSessionView,
    original_command_json: Option<Seq<char>>,
    now: Seq<char>,
) -> WatchIntentInputView {
    WatchIntentInputView {
        tmux_session: registration.session,
        channel: registration.channel,
        thread: registration.thread,
        mention: registration.mention,
        keywords: registration.keywords,
        stale_minutes: registration.stale_minutes,
        format: registration.format,
        registration_source: registration.registration_source,
        original_command_json,
        registered_at: registration.registered_at,
        last_confirmed_at: Some(now),
    }
}

impl SessionInput {
    /// What is recorded of the session of a registration that is seen at `now`.
    pub fn from_registration_at(
        registration: &RegisteredTmuxSession,
        spawned_by_clawhip: bool,
        owner_mappings: &[SessionOwnerMapping],
        now: String,
    ) -> (input: SessionInput)
        ensures
            input@ == registered_session(
                registration@,
                spawned_by_clawhip,
                mapping_views(owner_mappings@),
                now@,
            ),
    {
        SessionInput {
            tmux_session: registration.session.clone(),
            tmux_pane: None,
            kind: SessionKind::Agent,
            owner: SessionOwner::infer_from_registration(registration, owner_mappings),
            project_path: clone_opt(&registration.routing.worktree_path),
            repo_name: clone_opt(&registration.routing.repo_name),
            branch: clone_opt(&registration.routing.branch),
            spawned_by_clawhip,
            expected_watch: true,
            state: SessionState::Unknown,
            workflow_status: WorkflowStatus::Active,
            last_seen_at: Some(now),
        }
    }

    /// What is recorded of the session of a registration that is seen now.
    pub fn from_registration(
        registration: &RegisteredTmuxSession,
        spawned_by_clawhip: bool,
        owner_mappings: &[SessionOwnerMapping],
    ) -> (input: SessionInput)
        ensures
            exists|now: Seq<char>| #[trigger]
                clock_text(now) && input@ == registered_session(
                    registration@,
                    spawned_by_clawhip,
                    mapping_views(owner_mappings@),
                    now,
                ),
    {
        let now = now_rfc3339();
        let ghost moment = now@;
        let input = SessionInput::from_registration_at(
            registration,
            spawned_by_clawhip,
            owner_mappings,
            now,
        );
        assert(clock_text(moment));
        input
    }
}

impl WatchIntentInput {
    /// What is recorded of the wish to watch that a registration expresses, confirmed at `now`.
    /// `original_command_json` is the registration itself in JSON, where it could be written so.
    pub fn from_registration_at(
        registration: &RegisteredTmuxSession,
        original_command_json: Option<String>,
        now: String,
    ) -> (input: WatchIntentInput)
        ensures
            input@ == registered_intent(registration@, opt_view(original_command_json), now@),
    {
        WatchIntentInput {
            tmux_session: registration.session.clone(),
            channel: clone_opt(&registration.channel),
            thread: clone_opt(&registration.thread),
            mention: clone_opt(&registration.mention),
            keywords: clone_strings(&registration.keywords),
            stale_minutes: registration.stale_minutes,
            format: registration.format,
            registration_source: registration.registration_source,
            original_command_json,
            registered_at: registration.registered_at.clone(),
            last_confirmed_at: Some(now),
        }
    }

    /// What is recorded of the wish to watch that a registration expresses, confirmed now.
    pub fn from_registration(
        registration: &RegisteredTmuxSession,
        original_command_json: Option<String>,
    ) -> (input: WatchIntentInput)
        ensures
            exists|now: Seq<char>| #[trigger]
                clock_text(now) && input@ == registered_intent(
                    registration@,
                    opt_view(original_command_json),
                    now,
                ),
    {
        let now = now_rfc3339();
        let ghost moment = now@;
        let input = WatchIntentInput::from_registration_at(registration, original_command_json, now);
        assert(clock_text(moment));
        input
    }
}

/// A repository that no mapping is for has the unknown owner.
pub proof fn unmapped_repository_has_unknown_owner(
    repo: Seq<char>,
    mappings: Seq<SessionOwnerMappingView>,
)
    requires
        forall|i: int| 0 <= i < mappings.len() ==> (#[trigger] mappings[i]).repo != repo,
    ensures
        inferred_owner(Some(repo), mappings) == SessionOwnerView::Unknown,
    decreases mappings.len(),
{
    if mappings.len() > 0 {
        let rest = mappings.drop_first();
        assert forall|i: int| 0 <= i < rest.len() implies (#[trigger] rest[i]).repo != repo by {
            assert(rest[i] == mappings[i + 1]);
        }
        unmapped_repository_has_unknown_owner(repo, rest);
    }
}

/// A repository has the owner of the first mapping that is for it.
pub proof fn first_mapping_names_the_owner(
    repo: Seq<char>,
    mappings: Seq<SessionOwnerMappingView>,
    k: int,
)
    requires
        0 <= k < mappings.len(),
        mappings[k].repo == repo,
        forall|i: int| 0 <= i < k ==> (#[trigger] mappings[i]).repo != repo,
    ensures
        inferred_owner(Some(repo), mappings) == SessionOwnerView::Named(mappings[k].owner),
    decreases mappings.len(),
{
    if k > 0 {
        let rest = mappings.drop_first();
        assert(mappings[0].repo != repo);
        assert forall|i: int| 0 <= i < k - 1 implies (#[trigger] rest[i]).repo != repo by {
            assert(rest[i] == mappings[i + 1]);
        }
        first_mapping_names_the_owner(repo, rest, k - 1);
    }
}

} // verus!
