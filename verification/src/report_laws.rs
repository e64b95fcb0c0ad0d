//! What is printed, in terms of what was asked for and answered.

use vstd::prelude::*;
use vstd::string::*;
use vstd::utf8::encode_utf8;

use crate::commands::{CmdOutputView, CommandLineView};
use crate::git::{
    git_status_of, git_step, pull_request_step, says_worktree, GitNextView, GitStatusView,
};
use crate::git_laws::{git_status_counts_the_lines, written};
use crate::outside::utf8_lossy;
use crate::panes::{
    capture_words, cwds_of, list_words, pane_cells, pane_headers, pane_of_fields, panes_of,
    panes_of_lines, TmuxPaneInfoView,
};
use crate::report::{
    audit_report, audit_title, clawhip_list_words, pane_title, report_step, roots_of, verify_title,
    ReportNextView,
};
use crate::table::{column_width, column_widths, line, padded, repeated, rule, shown, table};
use crate::text::{decimal, joined, split_on, trimmed, white_space};
use crate::text_laws::{
    joining_adds_the_next_text, lines_read_back, one_line, shortened_texts_are_beginnings,
    splitting_undoes_joining, stand_ins_are_for_blank_texts,
};
use crate::worktrees::{audit_cells, audit_table, worktree_headers, WorktreeRowView};

verus! {

/// Whether a text shows anything.
pub open spec fn shows(text: Seq<char>) -> bool {
    exists|i: int| 0 <= i < text.len() && !white_space(#[trigger] text[i])
}

/// Whether the lines `out` report on a pane in a working tree, up to the heading of its last lines:
/// the status as git has written it wherever that shows anything, and `clean` only where it does
/// not; the extent of the changes and the pull request each exactly where there is one, whatever
/// the others are.
pub open spec fn tells_of_tree(
    out: Seq<Seq<char>>,
    pane: TmuxPaneInfoView,
    cwd: Seq<u8>,
    status: Seq<char>,
    diff: Seq<char>,
    request: Seq<char>,
    lines: nat,
) -> bool {
    let d: int = if diff.len() > 0 {
        2
    } else {
        0
    };
    let r: int = if request.len() > 0 {
        2
    } else {
        0
    };
    &&& out.len() >= 6 + d + r
    &&& out[0].len() == 0
    &&& out[1] == pane_title(pane)
    &&& out[2] == "cwd: "@ + utf8_lossy(cwd)
    &&& out[3] == "\n[git status]"@
    &&& shows(status) ==> out[4] == status
    &&& !shows(status) ==> out[4] == "clean"@
    &&& diff.len() > 0 ==> out[5] == "\n[git diff --stat]"@ && out[6] == diff
    &&& request.len() > 0 ==> {
        &&& out[5 + d] == "\n[gh pr view current branch]"@
        &&& out[6 + d].len() == if request.len() <= 6000 {
            request.len()
        } else {
            6000
        }
        &&& forall|i: int|
            0 <= i < request.len() && i < 6000 ==> #[trigger] out[6 + d][i] == request[i]
    }
    &&& out[5 + d + r] == "\n[pane tail -"@ + decimal(lines) + "]"@
}

/// Whether git has named a branch.
pub open spec fn names_a_branch(answer: Option<CmdOutputView>) -> bool {
    answer is Some && answer->Some_0.success && trimmed(answer->Some_0.stdout).len() > 0
}

/// The complete report on a pane in a working tree tells all that was answered: what git has
/// written of the status, never `clean` in its place; the extent of the changes; the pull request;
/// and last what tmux has shown, or why it could not. Where tmux could not be run the report ends
/// before that.
pub proof fn tree_reports_tell_what_was_answered(
    pane: TmuxPaneInfoView,
    cwd: Seq<u8>,
    session: Seq<char>,
    lines: nat,
    first: Option<CmdOutputView>,
    status: Option<CmdOutputView>,
    diff: Option<CmdOutputView>,
    top: Option<CmdOutputView>,
    branch: Option<CmdOutputView>,
    request: Option<CmdOutputView>,
    tail: Option<CmdOutputView>,
)
    requires
        pane.cwd == Some(cwd),
        says_worktree(first),
    ensures
        ({
            let named = names_a_branch(branch);
            let asked = if named {
                seq![branch, request]
            } else {
                seq![branch]
            };
            let answers = seq![first, status, diff, top] + asked;
            let text = pull_request_step(cwd, asked)->Done_0;
            let d: int = if written(diff).len() > 0 {
                2
            } else {
                0
            };
            let r: int = if text.len() > 0 {
                2
            } else {
                0
            };
            &&& pull_request_step(cwd, asked) is Done
            &&& report_step(pane, session, lines, answers) == ReportNextView::Run(
                CommandLineView {
                    words: seq![
                        "tmux"@,
                        "capture-pane"@,
                        "-pt"@,
                        session,
                        "-S"@,
                        "-"@ + decimal(lines),
                    ],
                    cwd: None,
                },
            )
            &&& match report_step(pane, session, lines, answers.push(tail)) {
                ReportNextView::Run(_) => false,
                ReportNextView::Done(out) => tail is Some && out.len() == 7 + d + r && tells_of_tree(
                    out,
                    pane,
                    cwd,
                    written(status),
                    written(diff),
                    text,
                    lines,
                ) && out[6 + d + r] == if tail->Some_0.success {
                    tail->Some_0.stdout
                } else {
                    tail->Some_0.stderr
                },
                ReportNextView::Failed(out) => tail is None && out.len() == 6 + d + r
                    && tells_of_tree(
                    out,
                    pane,
                    cwd,
                    written(status),
                    written(diff),
                    text,
                    lines,
                ),
            }
        }),
{
    let asked = if names_a_branch(branch) {
        seq![branch, request]
    } else {
        seq![branch]
    };
    let answers = seq![first, status, diff, top] + asked;
    let all = answers.push(tail);
    let git = git_status_of(cwd, status, diff, top);
    let text = pull_request_step(cwd, asked)->Done_0;
    git_status_counts_the_lines(cwd, status, diff, top);
    assert(answers.skip(4) =~= asked);
    assert(all.skip(4) =~= asked.push(tail));
    assert(asked.skip(asked.len() as int) =~= Seq::empty());
    assert(asked.push(tail).skip(asked.len() as int) =~= seq![tail]);
    stand_ins_are_for_blank_texts(git.status, "clean"@);
    shortened_texts_are_beginnings(text, 6000);
}

/// The complete report on a pane in a directory that is no working tree says so, and ends as the
/// others do.
pub proof fn plain_reports_tell_what_was_answered(
    pane: TmuxPaneInfoView,
    cwd: Seq<u8>,
    session: Seq<char>,
    lines: nat,
    first: Option<CmdOutputView>,
    tail: Option<CmdOutputView>,
)
    requires
        pane.cwd == Some(cwd),
        !says_worktree(first),
    ensures
        match report_step(pane, session, lines, seq![first, tail]) {
            ReportNextView::Run(_) => false,
            ReportNextView::Done(out) => tail is Some && out.len() == 6 && out[0].len() == 0
                && out[1] == pane_title(pane) && out[2] == "cwd: "@ + utf8_lossy(cwd) && out[3]
                == "git: not inside worktree"@ && out[4] == "\n[pane tail -"@ + decimal(lines)
                + "]"@ && out[5] == if tail->Some_0.success {
                tail->Some_0.stdout
            } else {
                tail->Some_0.stderr
            },
            ReportNextView::Failed(out) => tail is None && out.len() == 5 && out[3]
                == "git: not inside worktree"@,
        },
{
    assert(seq![first, tail].skip(1) =~= seq![tail]);
}

/// A pane whose directory is not known is reported on without asking anything. What the others are
/// asked is what their directories are asked.
pub proof fn reports_ask_what_they_need(
    pane: TmuxPaneInfoView,
    cwd: Seq<u8>,
    session: Seq<char>,
    lines: nat,
    answers: Seq<Option<CmdOutputView>>,
)
    ensures
        pane.cwd is None ==> (report_step(pane, session, lines, answers)
            matches ReportNextView::Done(out) && out.len() == 3 && out[0].len() == 0 && out[1]
            == pane_title(pane) && out[2] == "cwd: unknown"@),
        pane.cwd == Some(cwd) ==> (git_step(cwd, answers) matches GitNextView::Run(command)
            ==> report_step(pane, session, lines, answers) == ReportNextView::Run(command)),
        pane.cwd == Some(cwd) && answers.len() == 4 && says_worktree(answers[0]) ==> report_step(
            pane,
            session,
            lines,
            answers,
        ) == ReportNextView::Run(
            pull_request_step(cwd, Seq::<Option<CmdOutputView>>::empty())->Run_0,
        ),
{
    if answers.len() == 4 {
        assert(answers.skip(4) =~= Seq::empty());
    }
}

/// The title of a pane tells its session, its place, its process, its command and whether it is
/// dead.
pub proof fn pane_titles_tell_the_pane(pane: TmuxPaneInfoView)
    ensures
        ({
            let pid = if pane.pid is Some {
                pane.pid->Some_0
            } else {
                Seq::empty()
            };
            let command = if pane.command is Some {
                pane.command->Some_0
            } else {
                Seq::empty()
            };
            let dead = if pane.dead {
                "true"@
            } else {
                "false"@
            };
            pane_title(pane) == joined(
                seq![
                    "-- pane "@,
                    pane.session,
                    ":"@,
                    pane.pane,
                    " pid="@,
                    pid,
                    " cmd="@,
                    command,
                    " dead="@,
                    dead,
                    " --"@,
                ],
                Seq::empty(),
            )
        }),
{
    let pid = if pane.pid is Some {
        pane.pid->Some_0
    } else {
        Seq::empty()
    };
    let command = if pane.command is Some {
        pane.command->Some_0
    } else {
        Seq::empty()
    };
    let dead = if pane.dead {
        "true"@
    } else {
        "false"@
    };
    let none = Seq::<char>::empty();
    let s1 = seq!["-- pane "@];
    let s2 = s1.push(pane.session);
    let s3 = s2.push(":"@);
    let s4 = s3.push(pane.pane);
    let s5 = s4.push(" pid="@);
    let s6 = s5.push(pid);
    let s7 = s6.push(" cmd="@);
    let s8 = s7.push(command);
    let s9 = s8.push(" dead="@);
    let s10 = s9.push(dead);
    let s11 = s10.push(" --"@);
    joining_adds_the_next_text(s1, pane.session, none);
    joining_adds_the_next_text(s2, ":"@, none);
    joining_adds_the_next_text(s3, pane.pane, none);
    joining_adds_the_next_text(s4, " pid="@, none);
    joining_adds_the_next_text(s5, pid, none);
    joining_adds_the_next_text(s6, " cmd="@, none);
    joining_adds_the_next_text(s7, command, none);
    joining_adds_the_next_text(s8, " dead="@, none);
    joining_adds_the_next_text(s9, dead, none);
    joining_adds_the_next_text(s10, " --"@, none);
    assert(s11 =~= seq![
        "-- pane "@,
        pane.session,
        ":"@,
        pane.pane,
        " pid="@,
        pid,
        " cmd="@,
        command,
        " dead="@,
        dead,
        " --"@,
    ]);
    assert(joined(s1, none) == "-- pane "@);
    assert(pane_title(pane) =~= joined(s11, none));
}

/// The other titles and fixed texts: a session that has no panes is said not to be found, a
/// directory that is not there to be missing, and what was asked for goes before what is
/// configured.
pub proof fn headings_tell_what_follows(
    session: Seq<char>,
    root: Seq<u8>,
    rows: Seq<WorktreeRowView>,
    asked: Seq<Seq<u8>>,
    configured: Seq<Seq<char>>,
)
    ensures
        verify_title(session, true).len() == 1,
        verify_title(session, true)[0] == "== verify session: "@ + session + " =="@,
        verify_title(session, false).len() == 2,
        verify_title(session, false)[0] == "== verify session: "@ + session + " =="@,
        verify_title(session, false)[1] == "tmux session/pane not found"@,
        audit_title(root) == "== worktree audit: "@ + utf8_lossy(root) + " =="@,
        audit_report(None).len() == 1,
        audit_report(None)[0] == "missing"@,
        audit_report(Some(rows)) == audit_table(rows),
        clawhip_list_words().len() == 3,
        clawhip_list_words()[0] == "bash"@,
        clawhip_list_words()[1] == "-lc"@,
        clawhip_list_words()[2] == "clawhip tmux list 2>/dev/null || true"@,
        asked.len() > 0 ==> roots_of(asked, configured) == asked,
        asked.len() == 0 ==> roots_of(asked, configured).len() == configured.len() && forall|i: int|
            0 <= i < configured.len() ==> #[trigger] roots_of(asked, configured)[i] == encode_utf8(
                configured[i],
            ),
{
}

/// A pane reads back from its fields, the empty ones as nothing. A line with fewer than seven
/// fields is no pane, and further fields do not matter.
pub proof fn panes_read_their_fields(fields: Seq<Seq<char>>)
    ensures
        fields.len() < 7 ==> pane_of_fields(fields) is None,
        fields.len() >= 7 ==> (pane_of_fields(fields) matches Some(pane) && pane.session
            == fields[0] && pane.pane == fields[1] && (pane.pid is None <==> fields[2].len() == 0)
            && (pane.pid is Some ==> pane.pid == Some(fields[2])) && (pane.cwd is None
            <==> fields[3].len() == 0) && (pane.cwd is Some ==> pane.cwd == Some(
            encode_utf8(fields[3]),
        )) && (pane.command is None <==> fields[4].len() == 0) && (pane.command is Some
            ==> pane.command == Some(fields[4])) && (pane.dead <==> fields[6] == "1"@)),
{
}

proof fn lemma_panes_of_rows(rows: Seq<Seq<Seq<char>>>, lines: Seq<Seq<char>>, n: nat)
    requires
        n <= rows.len() == lines.len(),
        forall|k: int|
            0 <= k < rows.len() ==> (#[trigger] rows[k]).len() >= 7 && split_on(lines[k], '\t')
                == rows[k],
    ensures
        panes_of_lines(lines, n).len() == n,
        forall|k: int|
            0 <= k < n ==> Some(#[trigger] panes_of_lines(lines, n)[k]) == pane_of_fields(rows[k]),
    decreases n,
{
    if n > 0 {
        lemma_panes_of_rows(rows, lines, (n - 1) as nat);
        assert(rows[n - 1].len() >= 7);
    }
}

/// What is listed line by line, with tabs between at least seven fields, reads back as one pane for
/// each line, in order.
pub proof fn listed_panes_read_back(rows: Seq<Seq<Seq<char>>>)
    requires
        rows.len() > 0,
        forall|k: int|
            0 <= k < rows.len() ==> (#[trigger] rows[k]).len() >= 7 && one_line(
                joined(rows[k], seq!['\t']),
            ),
        forall|k: int, f: int|
            0 <= k < rows.len() && 0 <= f < rows[k].len() ==> !(#[trigger] rows[k][f]).contains(
                '\t',
            ),
    ensures
        ({
            let listing = joined(
                Seq::new(rows.len(), |k: int| joined(rows[k], seq!['\t'])),
                seq!['\n'],
            ).push('\n');
            &&& panes_of(listing).len() == rows.len()
            &&& forall|k: int|
                0 <= k < rows.len() ==> Some(#[trigger] panes_of(listing)[k]) == pane_of_fields(
                    rows[k],
                )
        }),
{
    let lines = Seq::new(rows.len(), |k: int| joined(rows[k], seq!['\t']));
    assert forall|k: int| 0 <= k < lines.len() implies one_line(#[trigger] lines[k]) by {
        assert(rows[k].len() >= 7);
    }
    lines_read_back(lines);
    assert forall|k: int| 0 <= k < rows.len() implies (#[trigger] rows[k]).len() >= 7 && split_on(
        lines[k],
        '\t',
    ) == rows[k] by {
        assert forall|f: int| 0 <= f < rows[k].len() implies !(#[trigger] rows[k][f]).contains(
            '\t',
        ) by {}
        splitting_undoes_joining(rows[k], '\t');
    }
    lemma_panes_of_rows(rows, lines, rows.len());
}

/// A further line adds its pane where it has one, and nothing else changes.
pub proof fn further_lines_add_panes(lines: Seq<Seq<char>>, more: Seq<char>)
    ensures
        ({
            let before = panes_of_lines(lines, lines.len());
            let after = panes_of_lines(lines.push(more), lines.len() + 1);
            match pane_of_fields(split_on(more, '\t')) {
                Some(pane) => after == before.push(pane),
                None => after == before,
            }
        }),
{
    lemma_panes_in_front(lines, more, lines.len());
}

proof fn lemma_panes_in_front(lines: Seq<Seq<char>>, more: Seq<char>, n: nat)
    requires
        n <= lines.len(),
    ensures
        panes_of_lines(lines.push(more), n) == panes_of_lines(lines, n),
    decreases n,
{
    if n > 0 {
        lemma_panes_in_front(lines, more, (n - 1) as nat);
    }
}

/// The directories of the panes are those that are known, in order.
pub proof fn known_directories_are_listed(panes: Seq<TmuxPaneInfoView>, pane: TmuxPaneInfoView)
    ensures
        cwds_of(Seq::empty(), 0) == Seq::<Seq<u8>>::empty(),
        pane.cwd is Some ==> cwds_of(panes.push(pane), panes.len() + 1) == cwds_of(
            panes,
            panes.len(),
        ).push(pane.cwd->Some_0),
        pane.cwd is None ==> cwds_of(panes.push(pane), panes.len() + 1) == cwds_of(
            panes,
            panes.len(),
        ),
{
    lemma_cwds_in_front(panes, pane, panes.len());
}

proof fn lemma_cwds_in_front(panes: Seq<TmuxPaneInfoView>, pane: TmuxPaneInfoView, n: nat)
    requires
        n <= panes.len(),
    ensures
        cwds_of(panes.push(pane), n) == cwds_of(panes, n),
    decreases n,
{
    if n > 0 {
        lemma_cwds_in_front(panes, pane, (n - 1) as nat);
    }
}

/// The row of a pane tells the pane and the state of its directory under the headers.
pub proof fn pane_rows_tell_the_pane(pane: TmuxPaneInfoView, git: GitStatusView)
    ensures
        ({
            let cells = pane_cells(pane, git);
            let headers = pane_headers();
            &&& cells.len() == 6 && headers.len() == 6
            &&& headers[0] == "session"@ && cells[0] == pane.session
            &&& headers[1] == "pane"@ && cells[1] == pane.pane
            &&& headers[2] == "cmd"@ && (pane.command is Some ==> cells[2] == pane.command->Some_0)
                && (pane.command is None ==> cells[2].len() == 0)
            &&& headers[3] == "git"@ && (git.dirty ==> cells[3] == "dirty"@) && (!git.dirty
                && git.is_git ==> cells[3] == "clean"@) && (!git.dirty && !git.is_git ==> cells[3]
                == "not-git"@)
            &&& headers[4] == "dirty"@ && cells[4] == decimal(git.dirty_count)
            &&& headers[5] == "cwd"@ && (pane.cwd is Some ==> cells[5] == utf8_lossy(
                pane.cwd->Some_0,
            )) && (pane.cwd is None ==> cells[5] == utf8_lossy(Seq::empty()))
        }),
{
}

/// The rows of an audit tell state, counts and path under the headers.
pub proof fn audit_rows_tell_the_counts(rows: Seq<WorktreeRowView>)
    ensures
        audit_table(rows) == table(worktree_headers(), audit_cells(rows)),
        audit_cells(rows).len() == rows.len(),
        forall|r: int|
            0 <= r < rows.len() ==> (#[trigger] audit_cells(rows)[r]).len() == 5 && audit_cells(
                rows,
            )[r][0] == rows[r].state && audit_cells(rows)[r][1] == decimal(rows[r].dirty)
                && audit_cells(rows)[r][2] == decimal(rows[r].modified) && audit_cells(rows)[r][3]
                == decimal(rows[r].untracked) && audit_cells(rows)[r][4] == rows[r].path,
        worktree_headers().len() == 5,
        worktree_headers()[0] == "state"@,
        worktree_headers()[1] == "dirty"@,
        worktree_headers()[2] == "mod"@,
        worktree_headers()[3] == "new"@,
        worktree_headers()[4] == "path"@,
{
}

/// Tmux is asked for the panes of one session by its name, else for all, in one format.
pub proof fn tmux_is_asked_by_name(name: Seq<char>, lines: nat)
    ensures
        ({
            let one = list_words(Some(name));
            let all = list_words(None);
            let format =
                "#{session_name}\t#{window_index}.#{pane_index}\t#{pane_pid}\t#{pane_current_path}\t#{pane_current_command}\t#{pane_active}\t#{pane_dead}"@;
            &&& one.len() == 5 && one[0] == "list-panes"@ && one[1] == "-t"@ && one[2] == name
                && one[3] == "-F"@ && one[4] == format
            &&& all.len() == 4 && all[0] == "list-panes"@ && all[1] == "-a"@ && all[2] == "-F"@
                && all[3] == format
        }),
        capture_words(name, lines) == seq![
            "tmux"@,
            "capture-pane"@,
            "-pt"@,
            name,
            "-S"@,
            "-"@ + decimal(lines),
        ],
{
}

/// A cell shows its characters in their places, a space for each newline, and at most 120 of them.
pub proof fn cells_show_their_characters(cell: Seq<char>)
    ensures
        shown(cell).len() == if cell.len() <= 120 {
            cell.len()
        } else {
            120
        },
        forall|i: int|
            0 <= i < cell.len() && i < 120 ==> #[trigger] shown(cell)[i] == if cell[i] == '\n' {
                ' '
            } else {
                cell[i]
            },
{
}

/// A column is as wide as it must be: no cell and no header, in bytes, is wider, and one of them is
/// as wide.
pub proof fn columns_are_as_wide_as_needed(
    headers: Seq<Seq<char>>,
    rows: Seq<Seq<Seq<char>>>,
    c: int,
)
    requires
        0 <= c < headers.len(),
    ensures
        ({
            let width = column_widths(headers, rows)[c];
            &&& encode_utf8(headers[c]).len() <= width
            &&& forall|r: int|
                0 <= r < rows.len() && c < (#[trigger] rows[r]).len() ==> shown(rows[r][c]).len()
                    <= width
            &&& width == encode_utf8(headers[c]).len() || exists|r: int|
                0 <= r < rows.len() && c < (#[trigger] rows[r]).len() && shown(rows[r][c]).len()
                    == width
        }),
{
    lemma_column_width(headers, rows, rows.len(), c);
}

proof fn lemma_column_width(
    headers: Seq<Seq<char>>,
    rows: Seq<Seq<Seq<char>>>,
    n: nat,
    c: int,
)
    requires
        0 <= c < headers.len(),
        n <= rows.len(),
    ensures
        ({
            let width = column_width(headers, rows, n, c);
            &&& encode_utf8(headers[c]).len() <= width
            &&& forall|r: int|
                0 <= r < n && c < (#[trigger] rows[r]).len() ==> shown(rows[r][c]).len() <= width
            &&& width == encode_utf8(headers[c]).len() || exists|r: int|
                0 <= r < n && c < (#[trigger] rows[r]).len() && shown(rows[r][c]).len() == width
        }),
    decreases n,
{
    if n > 0 {
        lemma_column_width(headers, rows, (n - 1) as nat, c);
        let before = column_width(headers, rows, (n - 1) as nat, c);
        let width = column_width(headers, rows, n, c);
        if width == before && before != encode_utf8(headers[c]).len() {
            let r = choose|r: int|
                0 <= r < n - 1 && c < (#[trigger] rows[r]).len() && shown(rows[r][c]).len()
                    == before;
            assert(c < rows[r].len() && shown(rows[r][c]).len() == width);
        } else if width != before {
            assert(c < rows[n - 1].len() && shown(rows[n - 1][c]).len() == width);
        }
    }
}

/// The lines of a table are the headers, a rule and one line for each row. In each the next cell
/// stands two spaces behind the one before, filled up with spaces to the width of its column.
pub proof fn tables_stand_cell_by_cell(
    headers: Seq<Seq<char>>,
    rows: Seq<Seq<Seq<char>>>,
    cells: Seq<Seq<char>>,
    next: Seq<char>,
    widths: Seq<nat>,
)
    ensures
        rows.len() == 0 ==> table(headers, rows).len() == 1 && table(headers, rows)[0]
            == "(none)"@,
        rows.len() > 0 ==> {
            let all = column_widths(headers, rows);
            &&& table(headers, rows).len() == rows.len() + 2
            &&& table(headers, rows)[0] == line(headers, all)
            &&& table(headers, rows)[1] == rule(all)
            &&& forall|r: int|
                0 <= r < rows.len() ==> #[trigger] table(headers, rows)[r + 2] == line(
                    Seq::new(rows[r].len(), |c: int| shown(rows[r][c])),
                    all,
                )
        },
        line(seq![next], widths) == padded(next, widths[0]),
        cells.len() > 0 ==> line(cells.push(next), widths) == line(cells, widths) + seq![' ', ' ']
            + padded(next, widths[cells.len() as int]),
        widths.len() > 0 ==> rule(widths.push(next.len())) == rule(widths) + seq![' ', ' ']
            + repeated('-', next.len()),
{
    reveal_strlit("  ");
    assert("  "@ =~= seq![' ', ' ']);
    if rows.len() > 0 {
        assert forall|r: int| 0 <= r < rows.len() implies #[trigger] table(headers, rows)[r + 2]
            == line(
            Seq::new(rows[r].len(), |c: int| shown(rows[r][c])),
            column_widths(headers, rows),
        ) by {
            assert(crate::table::shown_cells(rows[r]) =~= Seq::new(
                rows[r].len(),
                |c: int| shown(rows[r][c]),
            ));
        }
    }
    let one = Seq::new(seq![next].len(), |c: int| padded(seq![next][c], widths[c]));
    assert(one =~= seq![padded(next, widths[0])]);
    let wide = Seq::new(cells.len(), |c: int| padded(cells[c], widths[c]));
    let more = cells.push(next);
    assert(Seq::new(more.len(), |c: int| padded(more[c], widths[c])) =~= wide.push(
        padded(next, widths[cells.len() as int]),
    ));
    joining_adds_the_next_text(wide, padded(next, widths[cells.len() as int]), "  "@);
    let rules = widths.map_values(|w: nat| repeated('-', w));
    assert(widths.push(next.len()).map_values(|w: nat| repeated('-', w)) =~= rules.push(
        repeated('-', next.len()),
    ));
    joining_adds_the_next_text(rules, repeated('-', next.len()), "  "@);
}

/// A filled-up text is the text with as many spaces behind it as are wanting to the width.
pub proof fn filling_up_adds_spaces(text: Seq<char>, width: nat)
    ensures
        padded(text, width).len() == if text.len() >= width {
            text.len()
        } else {
            width
        },
        forall|i: int|
            0 <= i < padded(text, width).len() ==> #[trigger] padded(text, width)[i] == if i
                < text.len() {
                text[i]
            } else {
                ' '
            },
        repeated('-', width).len() == width,
        forall|i: int| 0 <= i < width ==> #[trigger] repeated('-', width)[i] == '-',
{
}

} // verus!
