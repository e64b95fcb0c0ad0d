//! What the commands of the lane board print.

use vstd::prelude::*;
use vstd::string::*;
use vstd::utf8::encode_utf8;

use crate::commands::{
    answer_view, answer_views, words_of, CmdOutput, CmdOutputView, CommandLine,
    CommandLineView,
};
use crate::git::{
    branch_of, gh_pr_for_branch, git_status, git_step, is_git_worktree, pull_request_step,
    says_worktree, GitNext, GitNextView, GitStatus, GitStatusView, PullRequestNext,
    PullRequestNextView,
};
use crate::outside::utf8_lossy;
use crate::panes::{
    capture_pane_content, capture_pane_words, capture_words, captured, or_nothing, pane_header_row, pane_headers,
    text_or_nothing, TmuxPaneInfo, TmuxPaneInfoView,
};
use crate::paths::{path_of_text, path_text, path_views};
use crate::table::{cell_views, table, table_lines};
use crate::text::{
    decimal, decimal_text, empty_as, is_blank, text_or, trim, trimmed,
    truncate_chars, truncated, views,
};
use crate::worktrees::{audit_table, worktree_lines, worktree_views, WorktreeRow, WorktreeRowView};

verus! {

/// The most characters that are shown of a pull request.
pub const PULL_REQUEST_LIMIT: usize = 6000;

/// The words that ask clawhip for its own list.
pub open spec fn clawhip_list_words() -> Seq<Seq<char>> {
    seq!["bash"@, "-lc"@, "clawhip tmux list 2>/dev/null || true"@]
}

/// The command that asks clawhip for its own list.
pub fn clawhip_list_command() -> (command: CommandLine)
    ensures
        command@ == (CommandLineView { words: clawhip_list_words(), cwd: None }),
{
    let words = words_of(&["bash", "-lc", "clawhip tmux list 2>/dev/null || true"]);
    assert(views(words@) =~= clawhip_list_words());
    CommandLine { words, cwd: None }
}

/// What is shown of clawhip's own list.
pub fn clawhip_list_text(output: &CmdOutput) -> (text: String)
    ensures
        text@ == text_or(trimmed(output@.stdout), "No clawhip tmux output"@),
{
    let said = trim(output.stdout.as_str());
    empty_as(said.as_str(), "No clawhip tmux output").to_owned()
}

/// The table of panes.
pub fn pane_table(rows: &Vec<Vec<String>>) -> (lines: Vec<String>)
    requires
        forall|r: int| 0 <= r < rows@.len() ==> (#[trigger] rows@[r])@.len() <= 6,
    ensures
        views(lines@) == table(pane_headers(), cell_views(rows@)),
{
    let headers = pane_header_row();
    table_lines(&headers, rows)
}

/// The directories whose working trees the board audits: those that were asked for, else those that
/// are configured; none where there are neither.
pub open spec fn roots_of(asked: Seq<Seq<u8>>, configured: Seq<Seq<char>>) -> Seq<Seq<u8>> {
    if asked.len() > 0 {
        asked
    } else {
        configured.map_values(|root: Seq<char>| encode_utf8(root))
    }
}

/// The directories whose working trees the board audits.
pub fn board_roots(asked: Vec<Vec<u8>>, configured: &Vec<String>) -> (roots: Vec<Vec<u8>>)
    ensures
        path_views(roots@) == roots_of(path_views(asked@), views(configured@)),
{
    if asked.len() > 0 {
        assert(path_views(asked@).len() > 0);
        return asked;
    }
    let mut roots: Vec<Vec<u8>> = Vec::new();
    let mut i: usize = 0;
    while i < configured.len()
        invariant
            i <= configured@.len(),
            roots@.len() == i,
            forall|j: int| 0 <= j < i ==> (#[trigger] roots@[j])@ == encode_utf8(configured@[j]@),
        decreases configured.len() - i,
    {
        roots.push(path_of_text(configured[i].as_str()));
        i = i + 1;
    }
    assert(path_views(roots@) =~= roots_of(path_views(asked@), views(configured@)));
    roots
}

/// What is said where no directory is audited.
pub fn audit_skipped() -> (text: &'static str)
    ensures
        text@
            == "(worktree audit skipped: no --worktree-root flag and no lane_worktree_roots configured)"@,
{
    "(worktree audit skipped: no --worktree-root flag and no lane_worktree_roots configured)"
}

/// The title of the audit of a directory.
pub open spec fn audit_title(root: Seq<u8>) -> Seq<char> {
    "== worktree audit: "@ + utf8_lossy(root) + " =="@
}

/// The title of the audit of a directory.
pub fn audit_heading(root: &Vec<u8>) -> (title: String)
    ensures
        title@ == audit_title(root@),
{
    let name = path_text(root);
    let mut title = "== worktree audit: ".to_owned();
    title.append(name.as_str());
    title.append(" ==");
    title
}

/// What stands under the title of an audit, given its lines; none where the directory is missing.
pub open spec fn audit_report(rows: Option<Seq<WorktreeRowView>>) -> Seq<Seq<char>> {
    match rows {
        Some(rows) => audit_table(rows),
        None => seq!["missing"@],
    }
}

/// What stands under the title of an audit.
pub fn worktree_audit_lines(rows: &Option<Vec<WorktreeRow>>) -> (lines: Vec<String>)
    ensures
        views(lines@) == audit_report(
            match rows {
                Some(list) => Some(worktree_views(list@)),
                None => None,
            },
        ),
{
    match rows {
        Some(list) => worktree_lines(list),
        None => {
            let mut lines: Vec<String> = Vec::new();
            lines.push("missing".to_owned());
            assert(views(lines@) =~= seq!["missing"@]);
            lines
        },
    }
}

/// The title of the verification of a session, and what is said where it has no panes.
pub open spec fn verify_title(session: Seq<char>, found: bool) -> Seq<Seq<char>> {
    let title = "== verify session: "@ + session + " =="@;
    if found {
        seq![title]
    } else {
        seq![title, "tmux session/pane not found"@]
    }
}

/// The title of the verification of a session, and what is said where it has no panes.
pub fn verify_heading(session: &str, found: bool) -> (lines: Vec<String>)
    ensures
        views(lines@) == verify_title(session@, found),
{
    let mut title = "== verify session: ".to_owned();
    title.append(session);
    title.append(" ==");
    let mut lines: Vec<String> = Vec::new();
    lines.push(title);
    if !found {
        lines.push("tmux session/pane not found".to_owned());
    }
    assert(views(lines@) =~= verify_title(session@, found));
    lines
}

/// The word for a truth value.
pub open spec fn truth(value: bool) -> Seq<char> {
    if value {
        "true"@
    } else {
        "false"@
    }
}

/// The title of a pane.
pub open spec fn pane_title(pane: TmuxPaneInfoView) -> Seq<char> {
    "-- pane "@ + pane.session + ":"@ + pane.pane + " pid="@ + text_or_nothing(pane.pid) + " cmd="@
        + text_or_nothing(pane.command) + " dead="@ + truth(pane.dead) + " --"@
}

fn pane_heading(pane: &TmuxPaneInfo) -> (title: String)
    ensures
        title@ == pane_title(pane@),
{
    let pid = or_nothing(&pane.pid);
    let command = or_nothing(&pane.command);
    let mut title = "-- pane ".to_owned();
    title.append(pane.session.as_str());
    title.append(":");
    title.append(pane.pane.as_str());
    title.append(" pid=");
    title.append(pid.as_str());
    title.append(" cmd=");
    title.append(command.as_str());
    title.append(" dead=");
    title.append(
        if pane.dead {
            "true"
        } else {
            "false"
        },
    );
    title.append(" --");
    title
}

/// What is printed of the directory of a pane, given what is known of it and of its pull request.
pub open spec fn git_section(git: GitStatusView, pull_request: Seq<char>) -> Seq<Seq<char>> {
    if !git.is_git {
        seq!["git: not inside worktree"@]
    } else {
        let status = seq!["\n[git status]"@, text_or(git.status, "clean"@)];
        let diff = if git.diff_stat.len() > 0 {
            seq!["\n[git diff --stat]"@, git.diff_stat]
        } else {
            Seq::empty()
        };
        let request = if pull_request.len() > 0 {
            seq![
                "\n[gh pr view current branch]"@,
                truncated(pull_request, PULL_REQUEST_LIMIT as nat),
            ]
        } else {
            Seq::empty()
        };
        status + diff + request
    }
}

fn push_git_section(lines: &mut Vec<String>, git: &GitStatus, pull_request: &str)
    ensures
        views(final(lines)@) == views(old(lines)@) + git_section(git@, pull_request@),
{
    let ghost before = views(lines@);
    if !git.is_git {
        lines.push("git: not inside worktree".to_owned());
        assert(views(lines@) =~= before + git_section(git@, pull_request@));
        return;
    }
    lines.push("\n[git status]".to_owned());
    lines.push(empty_as(git.status.as_str(), "clean").to_owned());
    let ghost status = seq!["\n[git status]"@, text_or(git@.status, "clean"@)];
    assert(views(lines@) =~= before + status);
    let ghost mut diff: Seq<Seq<char>> = Seq::empty();
    if !git.diff_stat.as_str().is_empty() {
        lines.push("\n[git diff --stat]".to_owned());
        lines.push(git.diff_stat.clone());
        proof {
            diff = seq!["\n[git diff --stat]"@, git@.diff_stat];
        }
    }
    assert(views(lines@) =~= before + (status + diff));
    let ghost mut request: Seq<Seq<char>> = Seq::empty();
    if !pull_request.is_empty() {
        lines.push("\n[gh pr view current branch]".to_owned());
        lines.push(truncate_chars(pull_request, PULL_REQUEST_LIMIT));
        proof {
            request = seq![
                "\n[gh pr view current branch]"@,
                truncated(pull_request@, PULL_REQUEST_LIMIT as nat),
            ];
        }
    }
    assert(views(lines@) =~= before + (status + diff + request));
}

/// What is printed of a pane before the last lines of its session.
pub open spec fn pane_body(
    pane: TmuxPaneInfoView,
    cwd: Seq<u8>,
    git: GitStatusView,
    pull_request: Seq<char>,
    lines: nat,
) -> Seq<Seq<char>> {
    seq![Seq::empty(), pane_title(pane), "cwd: "@ + utf8_lossy(cwd)] + git_section(
        git,
        pull_request,
    ) + seq!["\n[pane tail -"@ + decimal(lines) + "]"@]
}

/// How many answers stand for what is known of a directory.
pub open spec fn git_answers(answers: Seq<Option<CmdOutputView>>) -> int {
    if says_worktree(answers[0]) {
        4
    } else {
        1
    }
}

/// How many answers stand for what is known of a pull request.
pub open spec fn pull_request_answers(answers: Seq<Option<CmdOutputView>>) -> int {
    if branch_of(answers[0]).len() > 0 {
        2
    } else {
        1
    }
}

/// What is to be done next to report on a pane.
#[derive(Debug)]
pub enum ReportNext {
    /// Run the command and add what it says to the answers.
    Run(CommandLine),
    /// This is the report.
    Done(Vec<String>),
    /// This is the report as far as it goes: tmux could not be run.
    Failed(Vec<String>),
}

/// [`ReportNext`] with its strings as characters.
pub enum ReportNextView {
    Run(CommandLineView),
    Done(Seq<Seq<char>>),
    Failed(Seq<Seq<char>>),
}

impl View for ReportNext {
    type V = ReportNextView;

    open spec fn view(&self) -> ReportNextView {
        match *self {
            ReportNext::Run(command) => ReportNextView::Run(command@),
            ReportNext::Done(lines) => ReportNextView::Done(views(lines@)),
            ReportNext::Failed(lines) => ReportNextView::Failed(views(lines@)),
        }
    }
}

/// The end of the report on a pane: the last lines of its session are asked for and added.
pub open spec fn tail_step(
    session: Seq<char>,
    lines: nat,
    body: Seq<Seq<char>>,
    answers: Seq<Option<CmdOutputView>>,
) -> ReportNextView {
    if answers.len() == 0 {
        ReportNextView::Run(CommandLineView { words: capture_words(session, lines), cwd: None })
    } else {
        match answers[0] {
            Some(output) => ReportNextView::Done(body.push(captured(output))),
            None => ReportNextView::Failed(body),
        }
    }
}

/// What is to be done next to report on a pane of the session `session`, given the answers so far:
/// its directory is asked about; where it is a working tree, its pull request; and then the last
/// lines of the session. A pane without a directory is not asked about.
pub open spec fn report_step(
    pane: TmuxPaneInfoView,
    session: Seq<char>,
    lines: nat,
    answers: Seq<Option<CmdOutputView>>,
) -> ReportNextView {
    match pane.cwd {
        None => ReportNextView::Done(seq![Seq::empty(), pane_title(pane), "cwd: unknown"@]),
        Some(cwd) => match git_step(cwd, answers) {
            GitNextView::Run(command) => ReportNextView::Run(command),
            GitNextView::Done(git) => {
                let rest = answers.skip(git_answers(answers));
                if !git.is_git {
                    let body = pane_body(pane, cwd, git, Seq::empty(), lines);
                    tail_step(session, lines, body, rest)
                } else {
                    match pull_request_step(cwd, rest) {
                        PullRequestNextView::Run(command) => ReportNextView::Run(command),
                        PullRequestNextView::Done(text) => {
                            let body = pane_body(pane, cwd, git, text, lines);
                            tail_step(
                                session,
                                lines,
                                body,
                                rest.skip(pull_request_answers(rest)),
                            )
                        },
                    }
                }
            },
        },
    }
}

fn opening(pane: &TmuxPaneInfo) -> (lines: Vec<String>)
    ensures
        views(lines@) == seq![Seq::<char>::empty(), pane_title(pane@)],
{
    let mut lines: Vec<String> = Vec::new();
    lines.push(String::new());
    lines.push(pane_heading(pane));
    assert(lines@[0]@ =~= Seq::<char>::empty());
    assert(views(lines@) =~= seq![Seq::<char>::empty(), pane_title(pane@)]);
    lines
}

fn body_of(
    pane: &TmuxPaneInfo,
    cwd: &Vec<u8>,
    git: &GitStatus,
    pull_request: &str,
    lines: usize,
) -> (body: Vec<String>)
    ensures
        views(body@) == pane_body(pane@, cwd@, git@, pull_request@, lines as nat),
{
    let mut body = opening(pane);
    let ghost start = views(body@);
    let dir = path_text(cwd);
    let mut place = "cwd: ".to_owned();
    place.append(dir.as_str());
    body.push(place);
    assert(views(body@) =~= start.push("cwd: "@ + utf8_lossy(cwd@)));
    push_git_section(&mut body, git, pull_request);
    let ghost held = views(body@);
    let number = decimal_text(lines as u64);
    let mut tail = "\n[pane tail -".to_owned();
    tail.append(number.as_str());
    tail.append("]");
    let ghost last = tail@;
    body.push(tail);
    assert(views(body@) =~= held.push(last));
    assert(views(body@) =~= pane_body(pane@, cwd@, git@, pull_request@, lines as nat));
    body
}

fn finish(session: &str, lines: usize, body: Vec<String>, answers: &[Option<CmdOutput>]) -> (next:
    ReportNext)
    ensures
        next@ == tail_step(session@, lines as nat, views(body@), answer_views(answers@)),
{
    let mut body = body;
    if answers.len() == 0 {
        return ReportNext::Run(
            CommandLine { words: capture_pane_words(session, lines), cwd: None },
        );
    }
    assert(answer_views(answers@)[0] == answer_view(answers@[0]));
    match &answers[0] {
        Some(output) => {
            let ghost before = views(body@);
            body.push(capture_pane_content(output));
            assert(views(body@) =~= before.push(captured(output@)));
            ReportNext::Done(body)
        },
        None => ReportNext::Failed(body),
    }
}

/// What is to be done next to report on a pane of the session `session`, given the answers so far.
pub fn verify_pane(
    pane: &TmuxPaneInfo,
    session: &str,
    lines: usize,
    answers: &[Option<CmdOutput>],
) -> (next: ReportNext)
    ensures
        next@ == report_step(pane@, session@, lines as nat, answer_views(answers@)),
{
    let ghost said = answer_views(answers@);
    let cwd = match &pane.cwd {
        Some(cwd) => cwd,
        None => {
            let mut report = opening(pane);
            let ghost start = views(report@);
            report.push("cwd: unknown".to_owned());
            assert(views(report@) =~= start.push("cwd: unknown"@));
            assert(views(report@) =~= seq![
                Seq::<char>::empty(),
                pane_title(pane@),
                "cwd: unknown"@,
            ]);
            return ReportNext::Done(report);
        },
    };
    let git = match git_status(cwd, answers) {
        GitNext::Run(command) => {
            return ReportNext::Run(command);
        },
        GitNext::Done(git) => git,
    };
    assert(said[0] == answer_view(answers@[0]));
    if !is_git_worktree(&answers[0]) {
        let body = body_of(pane, cwd, &git, "", lines);
        proof {
            reveal_strlit("");
            assert(""@ =~= Seq::<char>::empty());
        }
        let rest = vstd::slice::slice_subrange(answers, 1, answers.len());
        assert(answer_views(rest@) =~= said.skip(1));
        return finish(session, lines, body, rest);
    }
    let rest = vstd::slice::slice_subrange(answers, 4, answers.len());
    let ghost left = said.skip(4);
    assert(answer_views(rest@) =~= left);
    let request = match gh_pr_for_branch(cwd, rest) {
        PullRequestNext::Run(command) => {
            return ReportNext::Run(command);
        },
        PullRequestNext::Done(text) => text,
    };
    assert(left[0] == answer_view(rest@[0]));
    let body = body_of(pane, cwd, &git, request.as_str(), lines);
    let used: usize = if has_branch(&rest[0]) {
        2
    } else {
        1
    };
    let last = vstd::slice::slice_subrange(rest, used, rest.len());
    assert(answer_views(last@) =~= left.skip(pull_request_answers(left)));
    finish(session, lines, body, last)
}

fn has_branch(answer: &Option<CmdOutput>) -> (yes: bool)
    ensures
        yes == (branch_of(answer_view(*answer)).len() > 0),
{
    match answer {
        Some(output) => {
            proof {
                crate::text::trimmed_is_empty_iff_blank(output@.stdout);
            }
            output.success && !is_blank(output.stdout.as_str())
        },
        None => false,
    }
}

/// Whatever the commands say, the report on a pane stands after at most seven of them.
pub proof fn seven_answers_are_enough(
    pane: TmuxPaneInfoView,
    session: Seq<char>,
    lines: nat,
    answers: Seq<Option<CmdOutputView>>,
)
    ensures
        answers.len() >= 7 ==> !(report_step(pane, session, lines, answers) is Run),
{
}

} // verus!
