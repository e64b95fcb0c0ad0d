//! What is known of a directory and said in an audit, in terms of what git has written.

use vstd::prelude::*;
use vstd::string::*;
use vstd::utf8::encode_utf8;

use crate::commands::{CmdOutputView, CommandLineView};
use crate::git::{
    git_status_of, git_step, pull_request_step, says_worktree, tells_of_change, tells_of_untracked,
    untracked_count, GitNextView, GitStatusView, PullRequestNextView,
};
use crate::outside::utf8_lossy;
use crate::path_laws::prefixes_agree_component_by_component;
use crate::paths::{components, path_joined};
use crate::text::{has_prefix, joined, lines_of, trimmed, white_space};
use crate::text_laws::{lines_read_back, one_line, prefixes_stand_in_front};
use crate::worktrees::{audited, first_names, on_one_branch, paths_under, LookedAt};

verus! {

/// Whether a line shows anything and does not begin with two hashes.
pub open spec fn change_line(line: Seq<char>) -> bool {
    &&& exists|i: int| 0 <= i < line.len() && !white_space(#[trigger] line[i])
    &&& !(line.len() >= 2 && line[0] == '#' && line[1] == '#')
}

/// Whether a line begins with two question marks.
pub open spec fn unknown_line(line: Seq<char>) -> bool {
    line.len() >= 2 && line[0] == '?' && line[1] == '?'
}

/// What a command has written, where it could be run.
pub open spec fn written(answer: Option<CmdOutputView>) -> Seq<char> {
    if answer is Some {
        answer->Some_0.stdout
    } else {
        Seq::empty()
    }
}

proof fn lemma_line_tests(line: Seq<char>)
    ensures
        tells_of_change(line) == change_line(line),
        tells_of_untracked(line) == unknown_line(line),
{
    reveal_strlit("##");
    reveal_strlit("??");
    assert("##"@.len() == 2 && "##"@[0] == '#' && "##"@[1] == '#');
    assert("??"@.len() == 2 && "??"@[0] == '?' && "??"@[1] == '?');
    prefixes_stand_in_front(line, "##"@);
    prefixes_stand_in_front(line, "??"@);
    if line.len() >= 2 && line[0] == '#' && line[1] == '#' {
        assert forall|i: int| 0 <= i < 2 implies #[trigger] line[i] == "##"@[i] by {}
    }
    if unknown_line(line) {
        assert forall|i: int| 0 <= i < 2 implies #[trigger] line[i] == "??"@[i] by {}
        assert(!white_space(line[0]));
    }
    if has_prefix(line, "??"@) {
        assert(line[0] == "??"@[0] && line[1] == "??"@[1]);
    }
    if has_prefix(line, "##"@) {
        assert(line[0] == "##"@[0] && line[1] == "##"@[1]);
    }
}

/// What is known of a working tree rests on what git has written and on nothing else: the changes
/// are the lines of the status that show something and do not begin with `##`, those that begin
/// with `??` are of files that git does not track, and the others are modifications. The texts are
/// kept as git has written them, and the top level is the one that git names, or the directory
/// itself.
pub proof fn git_status_counts_the_lines(
    path: Seq<u8>,
    status: Option<CmdOutputView>,
    diff: Option<CmdOutputView>,
    top: Option<CmdOutputView>,
)
    ensures
        ({
            let known = git_status_of(path, status, diff, top);
            let lines = lines_of(written(status));
            &&& known.is_git
            &&& known.dirty_count == lines.filter(|line: Seq<char>| change_line(line)).len()
            &&& known.untracked_count == lines.filter(|line: Seq<char>| unknown_line(line)).len()
            &&& known.modified_count + known.untracked_count == known.dirty_count
            &&& known.dirty <==> exists|i: int|
                0 <= i < lines.len() && change_line(#[trigger] lines[i])
            &&& known.status == written(status)
            &&& known.diff_stat == written(diff)
            &&& top is Some && top->Some_0.success ==> known.root == encode_utf8(
                trimmed(top->Some_0.stdout),
            )
            &&& top is None || !top->Some_0.success ==> known.root == path
        }),
{
    let lines = lines_of(written(status));
    let change = |line: Seq<char>| change_line(line);
    assert((|line: Seq<char>| tells_of_change(line)) =~= change) by {
        assert forall|line: Seq<char>| tells_of_change(line) == change_line(line) by {
            lemma_line_tests(line);
        }
    }
    assert((|line: Seq<char>| tells_of_untracked(line)) =~= (|line: Seq<char>| unknown_line(line)))
        by {
        assert forall|line: Seq<char>| tells_of_untracked(line) == unknown_line(line) by {
            lemma_line_tests(line);
        }
    }
    crate::git::counts_add_up(path, status, diff, top);
    let changes = lines.filter(change);
    if changes.len() > 0 {
        lines.lemma_filter_contains_rev(change, changes[0]);
        lines.lemma_filter_pred(change, 0);
        let i = lines.index_of(changes[0]);
        assert(change_line(lines[i]));
    }
    if exists|i: int| 0 <= i < lines.len() && change_line(#[trigger] lines[i]) {
        let i = choose|i: int| 0 <= i < lines.len() && change_line(#[trigger] lines[i]);
        lines.lemma_filter_contains(change, i);
    }
}

/// Where the status is a line for the branch and one line for each change, there are as many
/// changes as such lines, whatever letters they begin with, and those with `??` are of files that
/// git does not track.
pub proof fn every_status_line_counts(
    path: Seq<u8>,
    success: bool,
    said: Seq<char>,
    branch: Seq<char>,
    changes: Seq<Seq<char>>,
    diff: Option<CmdOutputView>,
    top: Option<CmdOutputView>,
)
    requires
        one_line(branch),
        branch.len() >= 2 && branch[0] == '#' && branch[1] == '#',
        forall|k: int|
            0 <= k < changes.len() ==> one_line(#[trigger] changes[k]) && changes[k].len() >= 2 && (
            !white_space(changes[k][0]) || !white_space(changes[k][1])) && !(changes[k][0] == '#'
                && changes[k][1] == '#'),
    ensures
        ({
            let text = joined(seq![branch] + changes, seq!['\n']);
            let status = Some(CmdOutputView { success, stdout: text, stderr: said });
            let known = git_status_of(path, status, diff, top);
            &&& known.dirty_count == changes.len()
            &&& known.dirty == (changes.len() > 0)
            &&& known.untracked_count == changes.filter(|line: Seq<char>| unknown_line(line)).len()
        }),
{
    let lines = seq![branch] + changes;
    let text = joined(lines, seq!['\n']);
    let status = Some(CmdOutputView { success, stdout: text, stderr: said });
    assert forall|k: int| 0 <= k < lines.len() implies one_line(#[trigger] lines[k]) by {
        if k > 0 {
            assert(lines[k] == changes[k - 1]);
        }
    }
    if changes.len() > 0 {
        assert(lines[lines.len() - 1] == changes[changes.len() - 1]);
    } else {
        assert(lines[lines.len() - 1] == branch);
    }
    lines_read_back(lines);
    git_status_counts_the_lines(path, status, diff, top);
    let change = |line: Seq<char>| change_line(line);
    let unknown = |line: Seq<char>| unknown_line(line);
    Seq::filter_distributes_over_add(seq![branch], changes, change);
    Seq::filter_distributes_over_add(seq![branch], changes, unknown);
    reveal_with_fuel(Seq::filter, 2);
    assert(seq![branch].drop_last() =~= Seq::empty());
    assert(seq![branch].filter(change).len() == 0);
    assert(seq![branch].filter(unknown).len() == 0);
    assert forall|k: int| 0 <= k < changes.len() implies change(#[trigger] changes[k]) by {
        assert(!white_space(changes[k][0]) || !white_space(changes[k][1]));
    }
    lemma_filter_all(changes, change);
    if changes.len() > 0 {
        assert(lines[1] == changes[0]);
        assert(change(changes[0]));
    } else {
        assert forall|i: int| 0 <= i < lines.len() implies !change_line(#[trigger] lines[i]) by {
            assert(lines[i] == branch);
        }
    }
}

proof fn lemma_filter_all<T>(s: Seq<T>, keep: spec_fn(T) -> bool)
    requires
        forall|k: int| 0 <= k < s.len() ==> keep(#[trigger] s[k]),
    ensures
        s.filter(keep) == s,
    decreases s.len(),
{
    reveal(Seq::filter);
    if s.len() > 0 {
        let t = s.drop_last();
        assert forall|k: int| 0 <= k < t.len() implies keep(#[trigger] t[k]) by {
            assert(t[k] == s[k]);
        }
        lemma_filter_all(t, keep);
        assert(keep(s[s.len() - 1]));
        assert(t.push(s.last()) =~= s);
    } else {
        assert(s.filter(keep) =~= s);
    }
}

/// Git is taken to call a directory a working tree exactly where it could be run, succeeded and
/// said `true`.
pub proof fn git_says_true_of_working_trees(answer: Option<CmdOutputView>)
    ensures
        answer is None ==> !says_worktree(answer),
        answer is Some ==> (says_worktree(answer) <==> answer->Some_0.success && trimmed(
            answer->Some_0.stdout,
        ) == "true"@),
{
}

/// A directory is learned of in this order: whether it is a working tree; and only where it is, its
/// changes, their extent and its top level. All is asked of git in the directory itself. A
/// directory that is no working tree is known for nothing else.
pub proof fn directories_are_learned_of_in_order(
    path: Seq<u8>,
    first: Option<CmdOutputView>,
    status: Option<CmdOutputView>,
    diff: Option<CmdOutputView>,
    top: Option<CmdOutputView>,
)
    ensures
        ({
            let dir = seq!["git"@, "-C"@, utf8_lossy(path)];
            let ask = |words: Seq<Seq<char>>|
                GitNextView::Run(CommandLineView { words: dir + words, cwd: None });
            &&& git_step(path, Seq::empty()) == ask(seq!["rev-parse"@, "--is-inside-work-tree"@])
            &&& says_worktree(first) ==> {
                &&& git_step(path, seq![first]) == ask(seq!["status"@, "--short"@, "--branch"@])
                &&& git_step(path, seq![first, status]) == ask(seq!["diff"@, "--stat"@])
                &&& git_step(path, seq![first, status, diff]) == ask(
                    seq!["rev-parse"@, "--show-toplevel"@],
                )
                &&& git_step(path, seq![first, status, diff, top]) == GitNextView::Done(
                    git_status_of(path, status, diff, top),
                )
            }
            &&& !says_worktree(first) ==> (git_step(path, seq![first]) matches GitNextView::Done(
                known,
            ) && !known.is_git && !known.dirty && known.dirty_count == 0 && known.modified_count
                == 0 && known.untracked_count == 0 && known.root.len() == 0 && known.status.len()
                == 0 && known.diff_stat.len() == 0)
        }),
{
    let dir = seq!["git"@, "-C"@, utf8_lossy(path)];
    assert(dir + seq!["rev-parse"@, "--is-inside-work-tree"@] =~= crate::git::worktree_words(path));
    assert(dir + seq!["status"@, "--short"@, "--branch"@] =~= crate::git::status_words(path));
    assert(dir + seq!["diff"@, "--stat"@] =~= crate::git::diff_words(path));
    assert(dir + seq!["rev-parse"@, "--show-toplevel"@] =~= crate::git::top_words(path));
}

/// The pull request is that of the branch that git names. Where it names none, gh is not asked;
/// where it does, gh is asked for exactly that branch in the directory itself, and what it writes
/// where it succeeds is what is known.
pub proof fn pull_requests_are_of_the_branch(
    path: Seq<u8>,
    branch: Option<CmdOutputView>,
    request: Option<CmdOutputView>,
)
    ensures
        pull_request_step(path, Seq::empty()) == PullRequestNextView::Run(
            CommandLineView {
                words: seq!["git"@, "-C"@, utf8_lossy(path), "branch"@, "--show-current"@],
                cwd: None,
            },
        ),
        branch is None || !branch->Some_0.success || trimmed(branch->Some_0.stdout).len() == 0 ==> (
        pull_request_step(path, seq![branch]) matches PullRequestNextView::Done(text)
            && text.len() == 0),
        branch is Some && branch->Some_0.success && trimmed(branch->Some_0.stdout).len() > 0 ==> {
            &&& pull_request_step(path, seq![branch]) matches PullRequestNextView::Run(command)
                && command.cwd == Some(path) && command.words.len() == 8 && command.words[0]
                == "gh"@ && command.words[1] == "pr"@ && command.words[2] == "view"@
                && command.words[3] == trimmed(branch->Some_0.stdout) && command.words[4]
                == "--json"@ && command.words[5]
                == "number,url,state,isDraft,mergeStateStatus,headRefOid,baseRefName,statusCheckRollup"@
                && command.words[6] == "--jq"@ && command.words[7] == "."@
            &&& request is Some && request->Some_0.success ==> pull_request_step(
                path,
                seq![branch, request],
            ) == PullRequestNextView::Done(request->Some_0.stdout)
            &&& request is None || !request->Some_0.success ==> (pull_request_step(
                path,
                seq![branch, request],
            ) matches PullRequestNextView::Done(text) && text.len() == 0)
        },
{
}

/// Whether one of two lists of components goes on where the other ends: they agree as far as both
/// go.
pub open spec fn go_together(a: Seq<Seq<u8>>, b: Seq<Seq<u8>>) -> bool {
    forall|i: int| 0 <= i < a.len() && i < b.len() ==> #[trigger] a[i] == b[i]
}

proof fn lemma_on_one_branch(a: Seq<u8>, b: Seq<u8>)
    ensures
        on_one_branch(a, b) == go_together(components(a), components(b)),
{
    prefixes_agree_component_by_component(a, b);
    prefixes_agree_component_by_component(b, a);
    let x = components(a);
    let y = components(b);
    if go_together(x, y) {
        if x.len() <= y.len() {
            assert forall|i: int| 0 <= i < x.len() implies #[trigger] x[i] == y[i] by {}
        } else {
            assert forall|i: int| 0 <= i < y.len() implies #[trigger] y[i] == x[i] by {
                assert(x[i] == y[i]);
            }
        }
    }
    if on_one_branch(a, b) {
        assert forall|i: int| 0 <= i < x.len() && i < y.len() implies #[trigger] x[i] == y[i] by {
            assert(y[i] == y[i]);
        }
    }
}

/// A line of the audit gives the counts as they are known and the path as it is, and says of the
/// tree: active where the directory of a pane and its top level agree as far as both go; else that
/// it is not git, that there is something to salvage, or that it can be removed, by what is known
/// of it.
pub proof fn audit_lines_follow_what_is_known(
    path: Seq<u8>,
    git: GitStatusView,
    active: Seq<Seq<u8>>,
)
    ensures
        ({
            let row = audited(path, git, active);
            let used = git.root.len() > 0 && exists|i: int|
                0 <= i < active.len() && go_together(
                    components(git.root),
                    components(#[trigger] active[i]),
                );
            &&& row.dirty == git.dirty_count
            &&& row.modified == git.modified_count
            &&& row.untracked == git.untracked_count
            &&& row.path == utf8_lossy(path)
            &&& used ==> row.state == "active"@
            &&& !used && !git.is_git ==> row.state == "not-git"@
            &&& !used && git.is_git && git.dirty ==> row.state == "dirty-salvage"@
            &&& !used && git.is_git && !git.dirty ==> row.state == "clean-removable-if-terminal"@
        }),
{
    assert forall|i: int| 0 <= i < active.len() implies on_one_branch(
        git.root,
        #[trigger] active[i],
    ) == go_together(components(git.root), components(active[i])) by {
        lemma_on_one_branch(git.root, active[i]);
    }
}

/// The line of a working tree that no pane works in tells of its changes: with a line in the status
/// that shows something and does not begin with `##` there is something to salvage, and without one
/// the tree can be removed.
pub proof fn changes_are_never_called_removable(
    path: Seq<u8>,
    first: Option<CmdOutputView>,
    again: Option<CmdOutputView>,
    status: Option<CmdOutputView>,
    diff: Option<CmdOutputView>,
    top: Option<CmdOutputView>,
    active: Seq<Seq<u8>>,
)
    requires
        says_worktree(first),
        says_worktree(again),
    ensures
        ({
            let dir = LookedAt { path, answers: seq![first, again, status, diff, top] };
            let row = dir.row(active);
            let lines = lines_of(written(status));
            let changed = exists|i: int| 0 <= i < lines.len() && change_line(#[trigger] lines[i]);
            &&& row.dirty == lines.filter(|line: Seq<char>| change_line(line)).len()
            &&& row.untracked == lines.filter(|line: Seq<char>| unknown_line(line)).len()
            &&& row.modified + row.untracked == row.dirty
            &&& changed <==> row.dirty > 0
            &&& changed ==> row.state == "active"@ || row.state == "dirty-salvage"@
            &&& !changed ==> row.state == "active"@ || row.state == "clean-removable-if-terminal"@
            &&& active.len() == 0 ==> row.state == if changed {
                "dirty-salvage"@
            } else {
                "clean-removable-if-terminal"@
            }
        }),
{
    let answers = seq![first, again, status, diff, top];
    assert(answers.drop_first() =~= seq![again, status, diff, top]);
    git_status_counts_the_lines(path, status, diff, top);
    audit_lines_follow_what_is_known(path, git_status_of(path, status, diff, top), active);
}

/// The audit looks at the first directories in order, as many as the limit allows, each under the
/// root.
pub proof fn audits_look_at_the_first_names(root: Seq<u8>, sorted: Seq<Seq<u8>>, limit: nat)
    ensures
        ({
            let paths = paths_under(root, first_names(sorted, limit));
            &&& sorted.len() <= limit ==> paths.len() == sorted.len()
            &&& limit <= sorted.len() ==> paths.len() == limit
            &&& forall|i: int|
                0 <= i < paths.len() ==> #[trigger] paths[i] == path_joined(root, sorted[i])
        }),
{
}

} // verus!
