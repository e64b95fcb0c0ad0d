//! The audit of working trees.

use vstd::prelude::*;
use vstd::string::*;

use crate::commands::{
    answer_view, answer_views, words_of, CmdOutput, CmdOutputView, CommandLine,
    CommandLineView,
};
use crate::git::{
    counts_add_up, git_status, git_step, is_git_worktree, says_worktree, worktree_command, worktree_words, GitNext,
    GitNextView, GitStatus, GitStatusView,
};
use crate::outside::utf8_lossy;
use crate::paths::{
    join_path, path_has_prefix, path_joined, path_starts_with, path_text, path_views, paths_equal,
    same_path, sort_names, sorts_names,
};
use crate::table::{cell_views, table, table_lines};
use crate::text::{decimal, decimal_text, views};

verus! {

/// What the audit says of a working tree.
#[derive(Debug, Clone, Copy, PartialEq, Eq, Structural)]
pub enum WorktreeState {
    Active,
    NotGit,
    DirtySalvage,
    CleanRemovable,
}

impl WorktreeState {
    /// The label of the value.
    pub open spec fn text(self) -> Seq<char> {
        match self {
            WorktreeState::Active => "active"@,
            WorktreeState::NotGit => "not-git"@,
            WorktreeState::DirtySalvage => "dirty-salvage"@,
            WorktreeState::CleanRemovable => "clean-removable-if-terminal"@,
        }
    }

    /// The label of the value.
    pub fn as_str(self) -> (s: &'static str)
        ensures
            s@ == self.text(),
    {
        match self {
            WorktreeState::Active => "active",
            WorktreeState::NotGit => "not-git",
            WorktreeState::DirtySalvage => "dirty-salvage",
            WorktreeState::CleanRemovable => "clean-removable-if-terminal",
        }
    }
}

/// Whether two paths are the same or one lies under the other.
pub open spec fn on_one_branch(a: Seq<u8>, b: Seq<u8>) -> bool {
    same_path(a, b) || path_has_prefix(b, a) || path_has_prefix(a, b)
}

/// Whether a pane works in the tree with the top level `root`, under it or above it.
pub open spec fn in_use(root: Seq<u8>, active: Seq<Seq<u8>>) -> bool {
    root.len() > 0 && exists|i: int|
        0 <= i < active.len() && on_one_branch(root, #[trigger] active[i])
}

/// What the audit says of a working tree.
pub open spec fn worktree_state(git: GitStatusView, active: Seq<Seq<u8>>) -> WorktreeState {
    if in_use(git.root, active) {
        WorktreeState::Active
    } else if !git.is_git {
        WorktreeState::NotGit
    } else if git.dirty {
        WorktreeState::DirtySalvage
    } else {
        WorktreeState::CleanRemovable
    }
}

/// What the audit says of a working tree.
pub fn worktree_state_of(git: &GitStatus, active_paths: &Vec<Vec<u8>>) -> (state: WorktreeState)
    ensures
        state == worktree_state(git@, path_views(active_paths@)),
{
    let ghost active = path_views(active_paths@);
    let mut i: usize = 0;
    while i < active_paths.len()
        invariant
            i <= active_paths@.len(),
            active == path_views(active_paths@),
            git@.root.len() > 0 ==> forall|j: int|
                0 <= j < i ==> !on_one_branch(git@.root, #[trigger] active[j]),
        decreases active_paths.len() - i,
    {
        let path = &active_paths[i];
        assert(active[i as int] == path@);
        if git.root.len() > 0 && (paths_equal(&git.root, path) || path_starts_with(path, &git.root)
            || path_starts_with(&git.root, path)) {
            return WorktreeState::Active;
        }
        i = i + 1;
    }
    if !git.is_git {
        WorktreeState::NotGit
    } else if git.dirty {
        WorktreeState::DirtySalvage
    } else {
        WorktreeState::CleanRemovable
    }
}

/// The label of what the audit says of a working tree.
pub fn classify_worktree_status(git: &GitStatus, active_paths: &Vec<Vec<u8>>) -> (label: String)
    ensures
        label@ == worktree_state(git@, path_views(active_paths@)).text(),
{
    worktree_state_of(git, active_paths).as_str().to_owned()
}

/// A tree that a pane works in is never called removable or to be salvaged, and a tree that is called
/// removable has no changes.
pub proof fn trees_in_use_are_left_alone(git: GitStatusView, active: Seq<Seq<u8>>)
    ensures
        in_use(git.root, active) <==> worktree_state(git, active) == WorktreeState::Active,
        worktree_state(git, active) == WorktreeState::CleanRemovable ==> git.is_git && !git.dirty,
        worktree_state(git, active) == WorktreeState::DirtySalvage ==> git.is_git && git.dirty,
{
}

/// A line of the audit.
#[derive(Debug)]
pub struct WorktreeRow {
    pub state: String,
    pub dirty: usize,
    pub modified: usize,
    pub untracked: usize,
    pub path: String,
}

/// [`WorktreeRow`] with its strings as characters.
#[verifier::ext_equal]
pub struct WorktreeRowView {
    pub state: Seq<char>,
    pub dirty: nat,
    pub modified: nat,
    pub untracked: nat,
    pub path: Seq<char>,
}

impl View for WorktreeRow {
    type V = WorktreeRowView;

    open spec fn view(&self) -> WorktreeRowView {
        WorktreeRowView {
            state: self.state@,
            dirty: self.dirty as nat,
            modified: self.modified as nat,
            untracked: self.untracked as nat,
            path: self.path@,
        }
    }
}

/// The line of the working tree at `path`.
pub open spec fn audited(
    path: Seq<u8>,
    git: GitStatusView,
    active: Seq<Seq<u8>>,
) -> WorktreeRowView {
    WorktreeRowView {
        state: worktree_state(git, active).text(),
        dirty: git.dirty_count,
        modified: git.modified_count,
        untracked: git.untracked_count,
        path: utf8_lossy(path),
    }
}

/// The line of the working tree at `path`.
pub fn worktree_row(path: &Vec<u8>, git: &GitStatus, active_paths: &Vec<Vec<u8>>) -> (row:
    WorktreeRow)
    ensures
        row@ == audited(path@, git@, path_views(active_paths@)),
{
    WorktreeRow {
        state: classify_worktree_status(git, active_paths),
        dirty: git.dirty_count,
        modified: git.modified_count,
        untracked: git.untracked_count,
        path: path_text(path),
    }
}

/// The paths of `names` in the directory `root`.
pub open spec fn paths_under(root: Seq<u8>, names: Seq<Seq<u8>>) -> Seq<Seq<u8>> {
    names.map_values(|name: Seq<u8>| path_joined(root, name))
}

/// The first `limit` names, or all where there are fewer.
pub open spec fn first_names(names: Seq<Seq<u8>>, limit: nat) -> Seq<Seq<u8>> {
    if names.len() <= limit {
        names
    } else {
        names.take(limit as int)
    }
}

/// The directories that the audit looks at: of the directories `names` in `root` the first `limit`,
/// in the order of their names.
pub fn worktree_candidates(root: &Vec<u8>, names: &Vec<Vec<u8>>, limit: usize) -> (paths: Vec<
    Vec<u8>,
>)
    ensures
        exists|sorted: Seq<Seq<u8>>| #[trigger]
            sorts_names(sorted, path_views(names@)) && path_views(paths@) == paths_under(
                root@,
                first_names(sorted, limit as nat),
            ),
{
    let sorted = sort_names(names);
    let ghost order = path_views(sorted@);
    let n = if sorted.len() <= limit {
        sorted.len()
    } else {
        limit
    };
    let mut paths: Vec<Vec<u8>> = Vec::new();
    let mut i: usize = 0;
    while i < n
        invariant
            i <= n <= sorted@.len(),
            order == path_views(sorted@),
            paths@.len() == i,
            forall|j: int| 0 <= j < i ==> (#[trigger] paths@[j])@ == path_joined(root@, order[j]),
        decreases n - i,
    {
        assert(order[i as int] == sorted@[i as int]@);
        paths.push(join_path(root, sorted[i].as_slice()));
        i = i + 1;
    }
    assert(path_views(paths@) =~= paths_under(root@, first_names(order, limit as nat)));
    paths
}

/// The cells of a line of the audit.
pub open spec fn worktree_cells(row: WorktreeRowView) -> Seq<Seq<char>> {
    seq![
        row.state,
        decimal(row.dirty),
        decimal(row.modified),
        decimal(row.untracked),
        row.path,
    ]
}

/// The cells of a line of the audit.
pub fn worktree_row_cells(row: &WorktreeRow) -> (cells: Vec<String>)
    ensures
        views(cells@) == worktree_cells(row@),
        cells@.len() == 5,
{
    let mut cells: Vec<String> = Vec::new();
    cells.push(row.state.clone());
    cells.push(decimal_text(row.dirty as u64));
    cells.push(decimal_text(row.modified as u64));
    cells.push(decimal_text(row.untracked as u64));
    cells.push(row.path.clone());
    assert(views(cells@) =~= worktree_cells(row@));
    cells
}

/// The lines with their strings as characters.
pub open spec fn worktree_views(rows: Seq<WorktreeRow>) -> Seq<WorktreeRowView> {
    rows.map_values(|row: WorktreeRow| row@)
}

/// The cells of each line of the audit.
pub open spec fn audit_cells(rows: Seq<WorktreeRowView>) -> Seq<Seq<Seq<char>>> {
    rows.map_values(|row: WorktreeRowView| worktree_cells(row))
}

/// The cells of each line of the audit.
pub fn worktree_table_rows(rows: &Vec<WorktreeRow>) -> (cells: Vec<Vec<String>>)
    ensures
        cell_views(cells@) == audit_cells(worktree_views(rows@)),
        forall|r: int| 0 <= r < cells@.len() ==> (#[trigger] cells@[r])@.len() == 5,
{
    let mut cells: Vec<Vec<String>> = Vec::new();
    let mut i: usize = 0;
    while i < rows.len()
        invariant
            i <= rows@.len(),
            cells@.len() == i,
            forall|j: int|
                0 <= j < i ==> views((#[trigger] cells@[j])@) == worktree_cells(rows@[j]@)
                    && cells@[j]@.len() == 5,
        decreases rows.len() - i,
    {
        cells.push(worktree_row_cells(&rows[i]));
        i = i + 1;
    }
    assert(cell_views(cells@) =~= audit_cells(worktree_views(rows@)));
    cells
}

/// The headers of the audit.
pub open spec fn worktree_headers() -> Seq<Seq<char>> {
    seq!["state"@, "dirty"@, "mod"@, "new"@, "path"@]
}

/// The audit as a table.
pub open spec fn audit_table(rows: Seq<WorktreeRowView>) -> Seq<Seq<char>> {
    table(worktree_headers(), audit_cells(rows))
}

/// The audit as a table.
pub fn worktree_lines(rows: &Vec<WorktreeRow>) -> (lines: Vec<String>)
    ensures
        views(lines@) == audit_table(worktree_views(rows@)),
{
    let headers = words_of(&["state", "dirty", "mod", "new", "path"]);
    assert(views(headers@) =~= worktree_headers());
    assert(views(headers@).len() == 5);
    let cells = worktree_table_rows(rows);
    table_lines(&headers, &cells)
}

/// An audit under way.
#[derive(Debug)]
pub struct WorktreeAudit {
    paths: Vec<Vec<u8>>,
    active_paths: Vec<Vec<u8>>,
    at: usize,
    answers: Vec<Option<CmdOutput>>,
    rows: Vec<WorktreeRow>,
}

/// [`WorktreeAudit`] with its strings as characters.
#[verifier::ext_equal]
pub struct WorktreeAuditView {
    /// The directories that are still to be looked at, the one that is looked at first of all.
    pub paths: Seq<Seq<u8>>,
    /// The directories that panes work in.
    pub active: Seq<Seq<u8>>,
    /// What has been said of the directory that is looked at.
    pub answers: Seq<Option<CmdOutputView>>,
    /// The lines so far.
    pub rows: Seq<WorktreeRowView>,
}

impl View for WorktreeAudit {
    type V = WorktreeAuditView;

    closed spec fn view(&self) -> WorktreeAuditView {
        WorktreeAuditView {
            paths: path_views(self.paths@).skip(self.at as int),
            active: path_views(self.active_paths@),
            answers: answer_views(self.answers@),
            rows: worktree_views(self.rows@),
        }
    }
}

/// What is to be done next in an audit.
#[derive(Debug)]
pub enum AuditNext {
    /// Run the command and tell the audit what it says.
    Run(CommandLine),
    /// The audit is complete.
    Done,
}

impl WorktreeAuditView {
    /// An audit of the directories `paths`, where panes work in `active`, before the first answer.
    pub open spec fn fresh(paths: Seq<Seq<u8>>, active: Seq<Seq<u8>>) -> WorktreeAuditView {
        WorktreeAuditView { paths, active, answers: Seq::empty(), rows: Seq::empty() }
    }

    /// The audit with its first directory behind it.
    pub open spec fn moved_on(self, rows: Seq<WorktreeRowView>) -> WorktreeAuditView {
        WorktreeAuditView {
            paths: self.paths.drop_first(),
            answers: Seq::empty(),
            rows,
            ..self
        }
    }

    /// Whether what has been said of the directory that is looked at leaves something to ask: git has
    /// said that it is a working tree, and what is known of it does not stand yet.
    pub open spec fn valid(self) -> bool {
        self.answers.len() > 0 ==> self.paths.len() > 0 && says_worktree(self.answers[0])
            && git_step(self.paths[0], self.answers.drop_first()) is Run
    }

    /// The command to run next; none where the audit is complete.
    pub open spec fn command(self) -> Option<CommandLineView> {
        if self.paths.len() == 0 {
            None
        } else if self.answers.len() == 0 {
            Some(CommandLineView { words: worktree_words(self.paths[0]), cwd: None })
        } else {
            Some(git_step(self.paths[0], self.answers.drop_first())->Run_0)
        }
    }

    /// The audit after the command has said `answer`: a directory that is no working tree is passed
    /// over, and a line is added once all is known.
    pub open spec fn heard(self, answer: Option<CmdOutputView>) -> WorktreeAuditView {
        if self.answers.len() == 0 {
            if says_worktree(answer) {
                WorktreeAuditView { answers: seq![answer], ..self }
            } else {
                self.moved_on(self.rows)
            }
        } else {
            let answers = self.answers.push(answer);
            match git_step(self.paths[0], answers.drop_first()) {
                GitNextView::Done(git) => self.moved_on(
                    self.rows.push(audited(self.paths[0], git, self.active)),
                ),
                GitNextView::Run(_) => WorktreeAuditView { answers, ..self },
            }
        }
    }

    /// Every answer leaves the audit in order, and keeps the lines that it has.
    pub proof fn answers_keep_the_lines(self, answer: Option<CmdOutputView>)
        requires
            self.valid(),
            self.paths.len() > 0,
        ensures
            self.heard(answer).valid(),
            self.rows.is_prefix_of(self.heard(answer).rows),
            self.heard(answer).rows.len() <= self.rows.len() + 1,
            self.heard(answer).active == self.active,
    {
        let after = self.heard(answer);
        if self.answers.len() == 0 {
            assert(seq![answer].drop_first() =~= Seq::empty());
        } else {
            let answers = self.answers.push(answer);
            assert(answers[0] == self.answers[0]);
        }
        assert(after.rows.subrange(0, self.rows.len() as int) =~= self.rows);
    }

    /// Every directory takes at most five answers: an answer finishes it, or adds to fewer than five.
    pub proof fn audits_end(self, answer: Option<CmdOutputView>)
        requires
            self.valid(),
            self.paths.len() > 0,
        ensures
            self.answers.len() < 5,
            self.heard(answer).paths.len() < self.paths.len() || (self.heard(answer).paths
                == self.paths && self.heard(answer).answers.len() == self.answers.len() + 1
                && self.heard(answer).answers.len() < 5),
    {
        if self.answers.len() > 0 {
            let answers = self.answers.push(answer);
            assert(answers.drop_first() =~= self.answers.drop_first().push(answer));
        }
    }

    /// The audit after the commands have said `answers`, one after the other.
    pub open spec fn heard_all(self, answers: Seq<Option<CmdOutputView>>) -> WorktreeAuditView
        decreases answers.len(),
    {
        if answers.len() == 0 {
            self
        } else {
            self.heard(answers[0]).heard_all(answers.drop_first())
        }
    }

    /// Whether each of `answers` is the answer to a command that the audit has asked for.
    pub open spec fn asked_for(self, answers: Seq<Option<CmdOutputView>>) -> bool
        decreases answers.len(),
    {
        answers.len() > 0 ==> self.command() is Some && self.heard(answers[0]).asked_for(
            answers.drop_first(),
        )
    }
}

/// A directory of an audit, with all that the commands have said of it.
#[verifier::ext_equal]
pub struct LookedAt {
    pub path: Seq<u8>,
    pub answers: Seq<Option<CmdOutputView>>,
}

impl LookedAt {
    /// Whether git has said that the directory is a working tree.
    pub open spec fn is_tree(self) -> bool {
        says_worktree(self.answers[0])
    }

    /// What is known of the directory.
    pub open spec fn known(self) -> GitStatusView {
        git_step(self.path, self.answers.drop_first())->Done_0
    }

    /// The line of the directory.
    pub open spec fn row(self, active: Seq<Seq<u8>>) -> WorktreeRowView {
        audited(self.path, self.known(), active)
    }
}

/// How many of the answers are of the first directory: one where it is no working tree; else as many
/// more as it takes to know of it, the first of which says once more whether it is one.
pub open spec fn answers_of_first(answers: Seq<Option<CmdOutputView>>) -> int {
    if !says_worktree(answers[0]) {
        1
    } else if !says_worktree(answers[1]) {
        2
    } else {
        5
    }
}

/// The directories, each with the answers that are of it.
pub open spec fn looked_at(
    paths: Seq<Seq<u8>>,
    answers: Seq<Option<CmdOutputView>>,
) -> Seq<LookedAt>
    decreases paths.len(),
{
    if paths.len() == 0 {
        Seq::empty()
    } else {
        let n = answers_of_first(answers);
        seq![LookedAt { path: paths[0], answers: answers.take(n) }] + looked_at(
            paths.drop_first(),
            answers.skip(n),
        )
    }
}

/// The answers of all the directories, one after the other.
pub open spec fn all_answers(dirs: Seq<LookedAt>) -> Seq<Option<CmdOutputView>> {
    dirs.map_values(|dir: LookedAt| dir.answers).flatten()
}

/// The lines of the working trees among the directories, in their order.
pub open spec fn tree_rows(dirs: Seq<LookedAt>, active: Seq<Seq<u8>>) -> Seq<WorktreeRowView> {
    dirs.filter(|dir: LookedAt| dir.is_tree()).map_values(|dir: LookedAt| dir.row(active))
}

/// What an audit says when it is complete, given all the answers that it has asked for: one line for
/// each working tree among the directories, in their order, and so never more than there are
/// directories; and in each line the changes are those of tracked files and those of others. The
/// answers are all of one directory or another, and what is known of a directory rests on its own.
pub proof fn complete_audits_show_the_trees(
    paths: Seq<Seq<u8>>,
    active: Seq<Seq<u8>>,
    answers: Seq<Option<CmdOutputView>>,
)
    requires
        WorktreeAuditView::fresh(paths, active).asked_for(answers),
        WorktreeAuditView::fresh(paths, active).heard_all(answers).command() is None,
    ensures
        ({
            let dirs = looked_at(paths, answers);
            let rows = WorktreeAuditView::fresh(paths, active).heard_all(answers).rows;
            &&& dirs.map_values(|dir: LookedAt| dir.path) == paths
            &&& all_answers(dirs) == answers
            &&& forall|i: int|
                0 <= i < dirs.len() && (#[trigger] dirs[i]).is_tree() ==> git_step(
                    dirs[i].path,
                    dirs[i].answers.drop_first(),
                ) is Done
            &&& rows == tree_rows(dirs, active)
            &&& rows.len() <= paths.len()
            &&& forall|k: int|
                0 <= k < rows.len() ==> (#[trigger] rows[k]).dirty == rows[k].modified
                    + rows[k].untracked
        }),
{
    let audit = WorktreeAuditView::fresh(paths, active);
    let dirs = looked_at(paths, answers);
    lemma_complete_audit(audit, answers);
    let trees = dirs.filter(|dir: LookedAt| dir.is_tree());
    let rows = audit.heard_all(answers).rows;
    assert(rows =~= tree_rows(dirs, active));
    assert(dirs.map_values(|dir: LookedAt| dir.path) =~= paths);
    dirs.lemma_filter_len(|dir: LookedAt| dir.is_tree());
    assert forall|k: int| 0 <= k < rows.len() implies (#[trigger] rows[k]).dirty
        == rows[k].modified + rows[k].untracked by {
        assert(rows[k] == trees[k].row(active));
        dirs.lemma_filter_contains_rev(|dir: LookedAt| dir.is_tree(), trees[k]);
        let i = dirs.index_of(trees[k]);
        assert(dirs[i] == trees[k]);
        lemma_known_counts_add_up(trees[k].path, trees[k].answers.drop_first());
    }
}

proof fn lemma_known_counts_add_up(path: Seq<u8>, answers: Seq<Option<CmdOutputView>>)
    ensures
        git_step(path, answers) matches GitNextView::Done(git) ==> git.dirty_count
            == git.modified_count + git.untracked_count,
{
    if answers.len() >= 4 {
        counts_add_up(path, answers[1], answers[2], answers[3]);
    }
}

proof fn lemma_complete_audit(audit: WorktreeAuditView, answers: Seq<Option<CmdOutputView>>)
    requires
        audit.answers.len() == 0,
        audit.asked_for(answers),
        audit.heard_all(answers).command() is None,
    ensures
        ({
            let dirs = looked_at(audit.paths, answers);
            &&& audit.heard_all(answers).rows == audit.rows + tree_rows(dirs, audit.active)
            &&& dirs.len() == audit.paths.len()
            &&& forall|i: int| 0 <= i < dirs.len() ==> (#[trigger] dirs[i]).path == audit.paths[i]
            &&& all_answers(dirs) == answers
            &&& forall|i: int|
                0 <= i < dirs.len() && (#[trigger] dirs[i]).is_tree() ==> git_step(
                    dirs[i].path,
                    dirs[i].answers.drop_first(),
                ) is Done
        }),
    decreases audit.paths.len(),
{
    let dirs = looked_at(audit.paths, answers);
    if audit.paths.len() == 0 {
        reveal(Seq::filter);
        assert(answers =~= Seq::empty());
        assert(tree_rows(dirs, audit.active) =~= Seq::empty());
        assert(audit.rows + tree_rows(dirs, audit.active) =~= audit.rows);
        assert(all_answers(dirs) =~= answers);
    } else {
        lemma_first_directory(audit, answers);
        let n = answers_of_first(answers);
        let first = LookedAt { path: audit.paths[0], answers: answers.take(n) };
        let after = audit.heard_all(answers.take(n));
        let rest = looked_at(audit.paths.drop_first(), answers.skip(n));
        lemma_complete_audit(after, answers.skip(n));
        assert(dirs =~= seq![first] + rest);
        let tree = |dir: LookedAt| dir.is_tree();
        Seq::filter_distributes_over_add(seq![first], rest, tree);
        reveal_with_fuel(Seq::filter, 2);
        assert(seq![first].drop_last() =~= Seq::empty());
        assert(seq![first].filter(tree) =~= if first.is_tree() {
            seq![first]
        } else {
            Seq::empty()
        });
        assert(first.is_tree() == says_worktree(answers[0]));
        assert(audit.heard_all(answers).rows =~= audit.rows + tree_rows(dirs, audit.active));
        let parcels = dirs.map_values(|dir: LookedAt| dir.answers);
        assert(parcels.drop_first() =~= rest.map_values(|dir: LookedAt| dir.answers));
        assert(parcels.first() == answers.take(n));
        assert(answers =~= answers.take(n) + answers.skip(n));
        assert forall|i: int| 0 <= i < dirs.len() implies (#[trigger] dirs[i]).path
            == audit.paths[i] && (dirs[i].is_tree() ==> git_step(
            dirs[i].path,
            dirs[i].answers.drop_first(),
        ) is Done) by {
            if i > 0 {
                assert(dirs[i] == rest[i - 1]);
            }
        }
    }
}

proof fn lemma_first_directory(audit: WorktreeAuditView, answers: Seq<Option<CmdOutputView>>)
    requires
        audit.answers.len() == 0,
        audit.paths.len() > 0,
        audit.asked_for(answers),
        audit.heard_all(answers).command() is None,
    ensures
        ({
            let n = answers_of_first(answers);
            let first = LookedAt { path: audit.paths[0], answers: answers.take(n) };
            let after = audit.heard_all(answers.take(n));
            &&& 0 < n <= answers.len()
            &&& after.paths == audit.paths.drop_first()
            &&& after.answers.len() == 0
            &&& after.active == audit.active
            &&& after.rows == if says_worktree(answers[0]) {
                audit.rows.push(first.row(audit.active))
            } else {
                audit.rows
            }
            &&& says_worktree(answers[0]) ==> git_step(
                first.path,
                first.answers.drop_first(),
            ) is Done
            &&& after.asked_for(answers.skip(n))
            &&& after.heard_all(answers.skip(n)) == audit.heard_all(answers)
        }),
{
    reveal_with_fuel(WorktreeAuditView::heard_all, 6);
    reveal_with_fuel(WorktreeAuditView::asked_for, 6);
    let path = audit.paths[0];
    assert(answers.len() > 0);
    let a = answers[0];
    let s1 = audit.heard(a);
    let r1 = answers.drop_first();
    assert(r1 =~= answers.skip(1));
    if !says_worktree(a) {
        assert(answers.take(1).drop_first() =~= Seq::empty());
    } else {
        assert(r1.len() > 0);
        let b = answers[1];
        assert(r1[0] == b);
        assert(s1.answers.push(b) =~= seq![a, b]);
        assert(seq![a, b].drop_first() =~= seq![b]);
        let s2 = s1.heard(b);
        let r2 = r1.drop_first();
        assert(r2 =~= answers.skip(2));
        if !says_worktree(b) {
            assert(answers.take(2).drop_first() =~= seq![b]);
            assert(seq![b].drop_first() =~= Seq::empty());
        } else {
            assert(r2.len() > 0);
            let c = answers[2];
            assert(s2.answers.push(c) =~= seq![a, b, c]);
            assert(seq![a, b, c].drop_first() =~= seq![b, c]);
            let s3 = s2.heard(c);
            let r3 = r2.drop_first();
            assert(r3 =~= answers.skip(3));
            assert(r3.len() > 0);
            let d = answers[3];
            assert(s3.answers.push(d) =~= seq![a, b, c, d]);
            assert(seq![a, b, c, d].drop_first() =~= seq![b, c, d]);
            let s4 = s3.heard(d);
            let r4 = r3.drop_first();
            assert(r4 =~= answers.skip(4));
            assert(r4.len() > 0);
            let e = answers[4];
            assert(s4.answers.push(e) =~= seq![a, b, c, d, e]);
            assert(seq![a, b, c, d, e].drop_first() =~= seq![b, c, d, e]);
            assert(r4.drop_first() =~= answers.skip(5));
            let five = answers.take(5);
            assert(five =~= seq![a, b, c, d, e]);
            assert(five.drop_first() =~= seq![b, c, d, e]);
            assert(seq![b, c, d, e].drop_first() =~= seq![c, d, e]);
            assert(seq![c, d, e].drop_first() =~= seq![d, e]);
            assert(seq![d, e].drop_first() =~= seq![e]);
            assert(seq![e].drop_first() =~= Seq::empty());
        }
    }
}

impl WorktreeAudit {
    /// Whether the audit is in order.
    pub closed spec fn wf(&self) -> bool {
        self.at <= self.paths@.len() && self@.valid()
    }

    /// An audit of the directories `paths`, where panes work in `active_paths`.
    pub fn new(paths: Vec<Vec<u8>>, active_paths: Vec<Vec<u8>>) -> (audit: WorktreeAudit)
        ensures
            audit.wf(),
            audit@ == WorktreeAuditView::fresh(path_views(paths@), path_views(active_paths@)),
    {
        let audit = WorktreeAudit {
            paths,
            active_paths,
            at: 0,
            answers: Vec::new(),
            rows: Vec::new(),
        };
        assert(audit@.paths =~= path_views(paths@));
        assert(audit@.answers =~= Seq::empty());
        assert(audit@.rows =~= Seq::empty());
        audit
    }

    /// What is to be done next.
    pub fn next(&self) -> (next: AuditNext)
        requires
            self.wf(),
        ensures
            match self@.command() {
                Some(command) => next matches AuditNext::Run(c) && c@ == command,
                None => next is Done,
            },
    {
        if self.at >= self.paths.len() {
            return AuditNext::Done;
        }
        let path = &self.paths[self.at];
        assert(self@.paths[0] == path@);
        let n = self.answers.len();
        assert(self@.answers.len() == n);
        if n == 0 {
            return AuditNext::Run(worktree_command(path));
        }
        let rest = vstd::slice::slice_subrange(self.answers.as_slice(), 1, n);
        assert(answer_views(rest@) =~= self@.answers.drop_first());
        match git_status(path, rest) {
            GitNext::Run(command) => AuditNext::Run(command),
            GitNext::Done(_) => AuditNext::Done,
        }
    }

    /// Takes in what the command that was to be run has said.
    pub fn hear(&mut self, answer: Option<CmdOutput>)
        requires
            old(self).wf(),
            old(self)@.command() is Some,
        ensures
            final(self).wf(),
            final(self)@ == old(self)@.heard(answer_view(answer)),
    {
        let ghost before = self@;
        let ghost said = answer_view(answer);
        proof {
            before.answers_keep_the_lines(said);
            assert(before.paths[0] == self.paths@[self.at as int]@);
        }
        assert(self.at < self.paths.len());
        if self.answers.len() == 0 {
            assert(before.answers.len() == 0);
            if is_git_worktree(&answer) {
                self.answers.push(answer);
                assert(answer_views(self.answers@) =~= seq![said]);
                assert(self@ =~= before.heard(said));
            } else {
                self.at = self.at + 1;
                assert(self@.paths =~= before.paths.drop_first());
                assert(self@.answers =~= Seq::empty());
                assert(self@ =~= before.heard(said));
            }
            return;
        }
        self.answers.push(answer);
        assert(answer_views(self.answers@) =~= before.answers.push(said));
        let n = self.answers.len();
        let rest = vstd::slice::slice_subrange(self.answers.as_slice(), 1, n);
        assert(answer_views(rest@) =~= before.answers.push(said).drop_first());
        match git_status(&self.paths[self.at], rest) {
            GitNext::Run(_) => {
                assert(self@ =~= before.heard(said));
            },
            GitNext::Done(git) => {
                let row = worktree_row(&self.paths[self.at], &git, &self.active_paths);
                let ghost new = row@;
                self.rows.push(row);
                self.answers = Vec::new();
                self.at = self.at + 1;
                assert(self@.paths =~= before.paths.drop_first());
                assert(self@.answers =~= Seq::empty());
                assert(self@.rows =~= before.rows.push(new));
                assert(self@ =~= before.heard(said));
            },
        }
    }

    /// The lines of the audit.
    pub fn into_rows(self) -> (rows: Vec<WorktreeRow>)
        ensures
            worktree_views(rows@) == self@.rows,
    {
        self.rows
    }
}

} // verus!
