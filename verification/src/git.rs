//! What git and gh say of a working directory.

use vstd::prelude::*;
use vstd::string::*;
use vstd::utf8::encode_utf8;

use crate::commands::{
    answer_text, answer_view, answer_views, success_text, text_of, text_of_success, words_of,
    CmdOutput, CmdOutputView, CommandLine, CommandLineView,
};
use crate::outside::utf8_lossy;
use crate::paths::{clone_path, path_of_text, path_text};
use crate::text::{
    blank, has_prefix, is_blank, lines, lines_of, starts_with, str_eq, trim, trimmed, views,
};

verus! {

/// What is known of a working directory.
#[derive(Debug)]
pub struct GitStatus {
    pub is_git: bool,
    pub root: Vec<u8>,
    pub status: String,
    pub diff_stat: String,
    pub dirty: bool,
    pub dirty_count: usize,
    pub modified_count: usize,
    pub untracked_count: usize,
}

/// [`GitStatus`] with its strings as characters.
#[verifier::ext_equal]
pub struct GitStatusView {
    pub is_git: bool,
    pub root: Seq<u8>,
    pub status: Seq<char>,
    pub diff_stat: Seq<char>,
    pub dirty: bool,
    pub dirty_count: nat,
    pub modified_count: nat,
    pub untracked_count: nat,
}

impl View for GitStatus {
    type V = GitStatusView;

    open spec fn view(&self) -> GitStatusView {
        GitStatusView {
            is_git: self.is_git,
            root: self.root@,
            status: self.status@,
            diff_stat: self.diff_stat@,
            dirty: self.dirty,
            dirty_count: self.dirty_count as nat,
            modified_count: self.modified_count as nat,
            untracked_count: self.untracked_count as nat,
        }
    }
}

impl GitStatusView {
    /// What is known of a directory that git does not know.
    pub open spec fn none() -> GitStatusView {
        GitStatusView {
            is_git: false,
            root: Seq::empty(),
            status: Seq::empty(),
            diff_stat: Seq::empty(),
            dirty: false,
            dirty_count: 0,
            modified_count: 0,
            untracked_count: 0,
        }
    }
}

impl Default for GitStatus {
    fn default() -> (status: GitStatus)
        ensures
            status@ == GitStatusView::none(),
    {
        let status = GitStatus {
            is_git: false,
            root: Vec::new(),
            status: String::new(),
            diff_stat: String::new(),
            dirty: false,
            dirty_count: 0,
            modified_count: 0,
            untracked_count: 0,
        };
        assert(status@ =~= GitStatusView::none());
        status
    }
}

/// Whether a line of `git status --short --branch` tells of a change: it is not blank, and not the
/// line of the branch.
pub open spec fn tells_of_change(line: Seq<char>) -> bool {
    !blank(line) && !has_prefix(line, "##"@)
}

/// Whether a line of `git status --short --branch` tells of a file that git does not track.
pub open spec fn tells_of_untracked(line: Seq<char>) -> bool {
    tells_of_change(line) && has_prefix(line, "??"@)
}

/// How many lines tell of a change.
pub open spec fn change_count(lines: Seq<Seq<char>>) -> nat {
    lines.filter(|line: Seq<char>| tells_of_change(line)).len()
}

/// How many lines tell of a file that git does not track.
pub open spec fn untracked_count(lines: Seq<Seq<char>>) -> nat {
    lines.filter(|line: Seq<char>| tells_of_untracked(line)).len()
}

/// What `git status`, `git diff --stat` and the top level make known of the directory `path`.
pub open spec fn git_status_of(
    path: Seq<u8>,
    status: Option<CmdOutputView>,
    diff: Option<CmdOutputView>,
    top: Option<CmdOutputView>,
) -> GitStatusView {
    let lines = lines_of(text_of(status));
    GitStatusView {
        is_git: true,
        root: match text_of_success(top) {
            Some(text) => encode_utf8(trimmed(text)),
            None => path,
        },
        status: text_of(status),
        diff_stat: text_of(diff),
        dirty: change_count(lines) > 0,
        dirty_count: change_count(lines),
        modified_count: (change_count(lines) - untracked_count(lines)) as nat,
        untracked_count: untracked_count(lines),
    }
}

proof fn lemma_untracked_are_changes(lines: Seq<Seq<char>>)
    ensures
        untracked_count(lines) <= change_count(lines) <= lines.len(),
    decreases lines.len(),
{
    reveal(Seq::filter);
    if lines.len() > 0 {
        lemma_untracked_are_changes(lines.drop_last());
    }
}

/// Every change is either of a file that git tracks or of one that it does not, and a directory is
/// dirty exactly where there is a change.
pub proof fn counts_add_up(
    path: Seq<u8>,
    status: Option<CmdOutputView>,
    diff: Option<CmdOutputView>,
    top: Option<CmdOutputView>,
)
    ensures
        ({
            let known = git_status_of(path, status, diff, top);
            &&& known.modified_count + known.untracked_count == known.dirty_count
            &&& known.dirty <==> known.dirty_count > 0
        }),
{
    lemma_untracked_are_changes(lines_of(text_of(status)));
}

fn count_changes(status: &str) -> (counts: (usize, usize))
    ensures
        counts.0 == change_count(lines_of(status@)),
        counts.1 == untracked_count(lines_of(status@)),
{
    let all = lines(status);
    let ghost texts = views(all@);
    let mut changes: usize = 0;
    let mut untracked: usize = 0;
    let mut i: usize = 0;
    proof {
        reveal(Seq::filter);
    }
    assert(texts.take(0).len() == 0);
    while i < all.len()
        invariant
            i <= all@.len(),
            texts == views(all@),
            changes <= i,
            untracked <= i,
            changes == change_count(texts.take(i as int)),
            untracked == untracked_count(texts.take(i as int)),
        decreases all.len() - i,
    {
        let line = all[i].as_str();
        proof {
            reveal(Seq::filter);
            assert(texts.take(i + 1).drop_last() =~= texts.take(i as int));
            assert(texts.take(i + 1).last() == line@);
        }
        if !is_blank(line) && !starts_with(line, "##") {
            changes = changes + 1;
            if starts_with(line, "??") {
                untracked = untracked + 1;
            }
        }
        i = i + 1;
    }
    assert(texts.take(i as int) =~= texts);
    (changes, untracked)
}

/// What is known of the directory `path`, given what the three commands have said.
pub fn git_status_from(
    path: &Vec<u8>,
    status: &Option<CmdOutput>,
    diff: &Option<CmdOutput>,
    top: &Option<CmdOutput>,
) -> (known: GitStatus)
    ensures
        known@ == git_status_of(
            path@,
            answer_view(*status),
            answer_view(*diff),
            answer_view(*top),
        ),
{
    let text = answer_text(status);
    let (dirty_count, untracked) = count_changes(text.as_str());
    proof {
        lemma_untracked_are_changes(lines_of(text@));
    }
    let root = match success_text(top) {
        Some(text) => {
            let name = trim(text.as_str());
            path_of_text(name.as_str())
        },
        None => clone_path(path),
    };
    GitStatus {
        is_git: true,
        root,
        status: text,
        diff_stat: answer_text(diff),
        dirty: dirty_count > 0,
        dirty_count,
        modified_count: dirty_count - untracked,
        untracked_count: untracked,
    }
}

/// The words that ask git whether a directory is inside a working tree.
pub open spec fn worktree_words(path: Seq<u8>) -> Seq<Seq<char>> {
    seq!["git"@, "-C"@, utf8_lossy(path), "rev-parse"@, "--is-inside-work-tree"@]
}

/// The words that ask git for the changes of a directory.
pub open spec fn status_words(path: Seq<u8>) -> Seq<Seq<char>> {
    seq!["git"@, "-C"@, utf8_lossy(path), "status"@, "--short"@, "--branch"@]
}

/// The words that ask git for the extent of the changes of a directory.
pub open spec fn diff_words(path: Seq<u8>) -> Seq<Seq<char>> {
    seq!["git"@, "-C"@, utf8_lossy(path), "diff"@, "--stat"@]
}

/// The words that ask git for the top level of a directory.
pub open spec fn top_words(path: Seq<u8>) -> Seq<Seq<char>> {
    seq!["git"@, "-C"@, utf8_lossy(path), "rev-parse"@, "--show-toplevel"@]
}

/// The words that ask git for the branch of a directory.
pub open spec fn branch_words(path: Seq<u8>) -> Seq<Seq<char>> {
    seq!["git"@, "-C"@, utf8_lossy(path), "branch"@, "--show-current"@]
}

/// The words that ask gh for the pull request of a branch.
pub open spec fn pull_request_words(branch: Seq<char>) -> Seq<Seq<char>> {
    seq![
        "gh"@,
        "pr"@,
        "view"@,
        branch,
        "--json"@,
        "number,url,state,isDraft,mergeStateStatus,headRefOid,baseRefName,statusCheckRollup"@,
        "--jq"@,
        "."@,
    ]
}

/// Whether git has said that the directory is inside a working tree.
pub open spec fn says_worktree(answer: Option<CmdOutputView>) -> bool {
    text_of_success(answer) matches Some(text) && trimmed(text) == "true"@
}

/// Whether git has said that the directory is inside a working tree.
pub fn is_git_worktree(answer: &Option<CmdOutput>) -> (yes: bool)
    ensures
        yes == says_worktree(answer_view(*answer)),
{
    match success_text(answer) {
        Some(text) => {
            let said = trim(text.as_str());
            str_eq(said.as_str(), "true")
        },
        None => false,
    }
}

/// The command that asks git whether a directory is inside a working tree.
pub fn worktree_command(path: &Vec<u8>) -> (command: CommandLine)
    ensures
        command@ == (CommandLineView { words: worktree_words(path@), cwd: None }),
{
    let text = path_text(path);
    let words = words_of(&["git", "-C", text.as_str(), "rev-parse", "--is-inside-work-tree"]);
    assert(views(words@) =~= worktree_words(path@));
    CommandLine { words, cwd: None }
}

/// What is to be done next to learn of a directory.
#[derive(Debug)]
pub enum GitNext {
    /// Run the command and add what it says to the answers.
    Run(CommandLine),
    /// This is what is known.
    Done(GitStatus),
}

/// [`GitNext`] with its strings as characters.
pub enum GitNextView {
    Run(CommandLineView),
    Done(GitStatusView),
}

impl View for GitNext {
    type V = GitNextView;

    open spec fn view(&self) -> GitNextView {
        match *self {
            GitNext::Run(command) => GitNextView::Run(command@),
            GitNext::Done(status) => GitNextView::Done(status@),
        }
    }
}

/// What is to be done next to learn of the directory `path`, given the answers so far: first it is
/// asked whether git knows it; where it does, the changes, their extent and the top level are asked
/// for.
pub open spec fn git_step(path: Seq<u8>, answers: Seq<Option<CmdOutputView>>) -> GitNextView {
    let ask = |words: Seq<Seq<char>>| GitNextView::Run(CommandLineView { words, cwd: None });
    if answers.len() == 0 {
        ask(worktree_words(path))
    } else if !says_worktree(answers[0]) {
        GitNextView::Done(GitStatusView::none())
    } else if answers.len() == 1 {
        ask(status_words(path))
    } else if answers.len() == 2 {
        ask(diff_words(path))
    } else if answers.len() == 3 {
        ask(top_words(path))
    } else {
        GitNextView::Done(git_status_of(path, answers[1], answers[2], answers[3]))
    }
}

/// What is to be done next to learn of the directory `path`, given the answers so far.
pub fn git_status(path: &Vec<u8>, answers: &[Option<CmdOutput>]) -> (next: GitNext)
    ensures
        next@ == git_step(path@, answer_views(answers@)),
{
    let text = path_text(path);
    let dir = text.as_str();
    if answers.len() == 0 {
        return GitNext::Run(worktree_command(path));
    }
    assert(answer_views(answers@)[0] == answer_view(answers@[0]));
    if !is_git_worktree(&answers[0]) {
        return GitNext::Done(GitStatus::default());
    }
    if answers.len() == 1 {
        let words = words_of(&["git", "-C", dir, "status", "--short", "--branch"]);
        assert(views(words@) =~= status_words(path@));
        return GitNext::Run(CommandLine { words, cwd: None });
    }
    if answers.len() == 2 {
        let words = words_of(&["git", "-C", dir, "diff", "--stat"]);
        assert(views(words@) =~= diff_words(path@));
        return GitNext::Run(CommandLine { words, cwd: None });
    }
    if answers.len() == 3 {
        let words = words_of(&["git", "-C", dir, "rev-parse", "--show-toplevel"]);
        assert(views(words@) =~= top_words(path@));
        return GitNext::Run(CommandLine { words, cwd: None });
    }
    GitNext::Done(git_status_from(path, &answers[1], &answers[2], &answers[3]))
}

/// Whatever the commands say, what is known of a directory stands after at most four of them, and a
/// further answer changes nothing.
pub proof fn four_answers_are_enough(
    path: Seq<u8>,
    answers: Seq<Option<CmdOutputView>>,
    more: Option<CmdOutputView>,
)
    ensures
        answers.len() >= 4 ==> git_step(path, answers) is Done,
        git_step(path, answers) is Done ==> git_step(path, answers.push(more)) == git_step(
            path,
            answers,
        ),
{
}

/// What is to be done next to learn of a pull request.
#[derive(Debug)]
pub enum PullRequestNext {
    /// Run the command and add what it says to the answers.
    Run(CommandLine),
    /// This is what is known; nothing where there is no pull request.
    Done(String),
}

/// [`PullRequestNext`] with its strings as characters.
pub enum PullRequestNextView {
    Run(CommandLineView),
    Done(Seq<char>),
}

impl View for PullRequestNext {
    type V = PullRequestNextView;

    open spec fn view(&self) -> PullRequestNextView {
        match *self {
            PullRequestNext::Run(command) => PullRequestNextView::Run(command@),
            PullRequestNext::Done(text) => PullRequestNextView::Done(text@),
        }
    }
}

/// The branch that git has named; empty where it has named none.
pub open spec fn branch_of(answer: Option<CmdOutputView>) -> Seq<char> {
    match text_of_success(answer) {
        Some(text) => trimmed(text),
        None => Seq::empty(),
    }
}

/// What is to be done next to learn of the pull request of the branch of the directory `path`, given
/// the answers so far: first the branch is asked for; where there is one, gh is asked in that
/// directory.
pub open spec fn pull_request_step(
    path: Seq<u8>,
    answers: Seq<Option<CmdOutputView>>,
) -> PullRequestNextView {
    if answers.len() == 0 {
        PullRequestNextView::Run(CommandLineView { words: branch_words(path), cwd: None })
    } else if branch_of(answers[0]).len() == 0 {
        PullRequestNextView::Done(Seq::empty())
    } else if answers.len() == 1 {
        PullRequestNextView::Run(
            CommandLineView {
                words: pull_request_words(branch_of(answers[0])),
                cwd: Some(path),
            },
        )
    } else {
        PullRequestNextView::Done(
            match text_of_success(answers[1]) {
                Some(text) => text,
                None => Seq::empty(),
            },
        )
    }
}

/// What is to be done next to learn of the pull request of the branch of the directory `path`, given
/// the answers so far.
pub fn gh_pr_for_branch(path: &Vec<u8>, answers: &[Option<CmdOutput>]) -> (next: PullRequestNext)
    ensures
        next@ == pull_request_step(path@, answer_views(answers@)),
{
    if answers.len() == 0 {
        let text = path_text(path);
        let words = words_of(&["git", "-C", text.as_str(), "branch", "--show-current"]);
        assert(views(words@) =~= branch_words(path@));
        return PullRequestNext::Run(CommandLine { words, cwd: None });
    }
    assert(answer_views(answers@)[0] == answer_view(answers@[0]));
    let branch = match success_text(&answers[0]) {
        Some(text) => trim(text.as_str()),
        None => String::new(),
    };
    assert(branch@ =~= branch_of(answer_view(answers@[0])));
    if branch.as_str().is_empty() {
        let next = PullRequestNext::Done(String::new());
        assert(next@->Done_0 =~= Seq::<char>::empty());
        return next;
    }
    if answers.len() == 1 {
        let words = words_of(
            &[
                "gh",
                "pr",
                "view",
                branch.as_str(),
                "--json",
                "number,url,state,isDraft,mergeStateStatus,headRefOid,baseRefName,statusCheckRollup",
                "--jq",
                ".",
            ],
        );
        assert(views(words@) =~= pull_request_words(branch@));
        return PullRequestNext::Run(CommandLine { words, cwd: Some(clone_path(path)) });
    }
    match success_text(&answers[1]) {
        Some(text) => PullRequestNext::Done(text),
        None => {
            let next = PullRequestNext::Done(String::new());
            assert(next@->Done_0 =~= Seq::<char>::empty());
            next
        },
    }
}

/// Whatever the commands say, what is known of a pull request stands after at most two of them.
pub proof fn two_answers_are_enough(path: Seq<u8>, answers: Seq<Option<CmdOutputView>>)
    ensures
        answers.len() >= 2 ==> pull_request_step(path, answers) is Done,
{
}

} // verus!
