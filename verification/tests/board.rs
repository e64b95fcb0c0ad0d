use clawhip_lanes::commands::CmdOutput;
use clawhip_lanes::git::{
    gh_pr_for_branch, git_status, is_git_worktree, worktree_command, GitNext, GitStatus,
    PullRequestNext,
};
use clawhip_lanes::panes::{
    capture_pane_content, capture_pane_words, list_panes_args, pane_row, parse_panes,
    tmux_pane_cwds, tmux_panes_raw, TmuxPaneInfo,
};
use clawhip_lanes::paths::{
    default_ledger_path, default_state_dir, join_path, path_components, path_of_text,
    path_starts_with, path_text, paths_equal, sort_names,
};
use clawhip_lanes::report::{
    audit_heading, audit_skipped, board_roots, clawhip_list_command, clawhip_list_text,
    pane_table, verify_heading, verify_pane, worktree_audit_lines, ReportNext,
};
use clawhip_lanes::schema::{ensure_column, table_info_statement};
use clawhip_lanes::table::table_lines;
use clawhip_lanes::text::{
    decimal_text, empty_as, is_blank, is_text_le, is_white_space, join, lines, replace_char, split,
    starts_with, str_eq, trim, truncate_chars,
};
use clawhip_lanes::worktrees::{
    classify_worktree_status, worktree_candidates, worktree_lines, worktree_row, AuditNext,
    WorktreeAudit, WorktreeRow,
};

fn path(text: &str) -> Vec<u8> {
    text.as_bytes().to_vec()
}

fn strings(list: &[&str]) -> Vec<String> {
    list.iter().map(|s| s.to_string()).collect()
}

fn said(stdout: &str) -> Option<CmdOutput> {
    Some(CmdOutput::new(true, &path(stdout), &Vec::new()))
}

fn failed(stderr: &str) -> Option<CmdOutput> {
    Some(CmdOutput::new(false, &Vec::new(), &path(stderr)))
}

fn command_of(next: GitNext) -> Vec<String> {
    match next {
        GitNext::Run(command) => command.words,
        GitNext::Done(status) => panic!("{status:?}"),
    }
}

fn status_of(next: GitNext) -> GitStatus {
    match next {
        GitNext::Done(status) => status,
        GitNext::Run(command) => panic!("{command:?}"),
    }
}

#[test]
fn white_space_is_that_of_unicode() {
    for c in '\0'..=char::MAX {
        assert_eq!(is_white_space(c), c.is_whitespace(), "{c:?}");
    }
}

#[test]
fn texts_are_trimmed_split_and_joined() {
    for text in ["", " ", " a b ", "\u{a0}x\u{2003}", "\r\n", "a\tb"] {
        assert_eq!(trim(text), text.trim());
        assert_eq!(is_blank(text), text.trim().is_empty());
        let parts: Vec<&str> = text.split('\t').collect();
        assert_eq!(split(text, '\t'), parts);
        assert_eq!(join(&split(text, '\t'), "\t"), text);
    }
    assert_eq!(replace_char("a\nb", '\n', ' '), "a b");
    assert_eq!(truncate_chars("grün", 3), "grü");
    assert_eq!(truncate_chars("grün", 9), "grün");
    assert_eq!(empty_as(" \n", "none"), "none");
    assert_eq!(empty_as(" x", "none"), " x");
    assert!(starts_with("abc", "ab") && !starts_with("ab", "abc"));
    assert!(str_eq("ä", "ä") && !str_eq("a", "b"));
}

#[test]
fn lines_end_with_newlines() {
    for text in [
        "", "a", "a\n", "a\r\nb", "\n", "\r\n", "a\n\nb\n", "a\r", "a\n\r", "\r\r\n",
    ] {
        let expected: Vec<&str> = text.lines().collect();
        assert_eq!(lines(text), expected, "{text:?}");
    }
}

#[test]
fn texts_are_ordered_like_their_bytes() {
    let texts = ["", "a", "ab", "b", "ä", "\u{ffff}", "\u{10000}", "a\0"];
    for a in texts {
        for b in texts {
            assert_eq!(is_text_le(a, b), a <= b, "{a:?} {b:?}");
        }
    }
}

#[test]
fn numbers_are_written_in_decimal() {
    for n in [0, 9, 10, 99, 100, 1234567890, u64::MAX] {
        assert_eq!(decimal_text(n), n.to_string());
    }
}

#[test]
fn ledger_path_follows_the_variables() {
    let some = |text: &str| Some(path(text));
    assert_eq!(
        default_ledger_path(some("/l.db"), some("/c"), some("/h")),
        path("/l.db")
    );
    assert_eq!(
        default_ledger_path(None, some("/c"), some("/h")),
        path("/c/session-ledger.sqlite")
    );
    assert_eq!(
        default_ledger_path(None, None, some("/h/")),
        path("/h/.clawhip/session-ledger.sqlite")
    );
    assert_eq!(
        default_ledger_path(None, None, None),
        path(".clawhip/session-ledger.sqlite")
    );
    assert_eq!(default_state_dir(None, some("")), path(".clawhip"));
    assert_eq!(
        default_ledger_path(None, some(""), None),
        path("session-ledger.sqlite")
    );
}

#[test]
fn paths_compare_like_those_of_std() {
    let texts = [
        "", "/", "//", ".", "./", "./a", "a", "a/", "a//b", "a/./b", "a/b", "/a", "/a/b", "/./a",
        "/ab", "..", "a/..", "/a/b/.", "../a", "./.", "/.",
    ];
    for a in texts {
        let x = std::path::Path::new(a);
        for b in texts {
            let y = std::path::Path::new(b);
            assert_eq!(
                path_starts_with(&path(a), &path(b)),
                x.starts_with(y),
                "{a:?} {b:?}"
            );
            assert_eq!(paths_equal(&path(a), &path(b)), x == y, "{a:?} {b:?}");
        }
        assert_eq!(
            path_components(&path(a)).len(),
            x.components().count(),
            "{a:?}"
        );
        assert_eq!(
            join_path(&path(a), b"x/y"),
            path(x.join("x/y").to_str().unwrap())
        );
    }
}

#[test]
fn paths_are_shown_lossily() {
    assert_eq!(path_text(&path_of_text("/grün")), "/grün");
    assert_eq!(path_text(&vec![b'/', 0xff]), "/\u{fffd}");
}

#[test]
fn names_are_sorted_by_their_bytes() {
    let names: Vec<Vec<u8>> = ["b", "a", "B", "ab", "a", ""].iter().map(|n| path(n)).collect();
    let sorted: Vec<Vec<u8>> = ["", "B", "a", "a", "ab", "b"].iter().map(|n| path(n)).collect();
    assert_eq!(sort_names(&names), sorted);
}

#[test]
fn tables_are_aligned() {
    let headers = strings(&["state", "n"]);
    assert_eq!(table_lines(&headers, &Vec::new()), vec!["(none)"]);
    let rows = vec![strings(&["grün", "123"]), strings(&["two\nlines", "4"])];
    assert_eq!(
        table_lines(&headers, &rows),
        vec![
            "state      n  ",
            "---------  ---",
            "grün       123",
            "two lines  4  ",
        ]
    );
}

#[test]
fn long_cells_are_cut_and_short_rows_are_allowed() {
    let headers = strings(&["ä", "b"]);
    let rows = vec![vec!["x".repeat(130)], strings(&["", "y"])];
    let shown = table_lines(&headers, &rows);
    assert_eq!(shown[0], format!("{:<120}  b", "ä"));
    assert_eq!(shown[1], format!("{}  -", "-".repeat(120)));
    assert_eq!(shown[2], "x".repeat(120));
    assert_eq!(shown[3], format!("{:<120}  y", ""));
    let narrow = table_lines(&strings(&["ä"]), &vec![strings(&["z"])]);
    assert_eq!(narrow, vec!["ä ", "--", "z "]);
}

#[test]
fn command_output_is_trimmed() {
    let output = CmdOutput::new(true, &path("  a \n"), &vec![0xff, b'\n']);
    assert_eq!(output.stdout, "a");
    assert_eq!(output.stderr, "\u{fffd}");
    assert!(output.success);
}

#[test]
fn git_is_asked_step_by_step() {
    let dir = path("/work/repo");
    assert_eq!(
        command_of(git_status(&dir, &[])),
        vec!["git", "-C", "/work/repo", "rev-parse", "--is-inside-work-tree"]
    );
    assert_eq!(
        worktree_command(&dir).words,
        command_of(git_status(&dir, &[]))
    );
    let answers = [said("true\n")];
    assert_eq!(
        command_of(git_status(&dir, &answers)),
        vec!["git", "-C", "/work/repo", "status", "--short", "--branch"]
    );
    let answers = [
        said("true"),
        said("## main\n M a.rs\n?? b.rs\n\n?? c.rs\nA  d.rs"),
    ];
    assert_eq!(
        command_of(git_status(&dir, &answers)),
        vec!["git", "-C", "/work/repo", "diff", "--stat"]
    );
    let [first, second] = answers;
    let answers = [first, second, said(" a.rs | 2 +-")];
    assert_eq!(
        command_of(git_status(&dir, &answers)),
        vec!["git", "-C", "/work/repo", "rev-parse", "--show-toplevel"]
    );
    let [first, second, third] = answers;
    let answers = [first, second, third, said("/work")];
    let status = status_of(git_status(&dir, &answers));
    assert!(status.is_git && status.dirty);
    assert_eq!(status.root, path("/work"));
    assert_eq!(status.dirty_count, 4);
    assert_eq!(status.untracked_count, 2);
    assert_eq!(status.modified_count, 2);
    assert_eq!(status.diff_stat, "a.rs | 2 +-");
    assert!(status.status.starts_with("## main\n"));
}

#[test]
fn directory_outside_git_is_not_asked_about() {
    for answer in [None, failed("fatal"), said("false"), said("")] {
        assert!(!is_git_worktree(&answer));
        let status = status_of(git_status(&path("/x"), &[answer]));
        assert!(!status.is_git && !status.dirty);
        assert!(status.root.is_empty());
    }
    let mut odd = failed("").unwrap();
    odd.stdout = "true".to_string();
    assert!(!is_git_worktree(&Some(odd)));
}

#[test]
fn failing_git_commands_leave_a_clean_tree() {
    let answers = [said("true"), None, None, failed("fatal")];
    let status = status_of(git_status(&path("/x"), &answers));
    assert!(status.is_git && !status.dirty);
    assert_eq!(status.root, path("/x"));
    assert_eq!(status.dirty_count, 0);
    assert_eq!(status.status, "");
    let mut loud = failed("").unwrap();
    loud.stdout = " M a".to_string();
    let answers = [said("true"), Some(loud), None, None];
    assert_eq!(status_of(git_status(&path("/x"), &answers)).dirty_count, 1);
}

#[test]
fn pull_request_is_asked_for_where_there_is_a_branch() {
    let dir = path("/work");
    match gh_pr_for_branch(&dir, &[]) {
        PullRequestNext::Run(command) => assert_eq!(
            command.words,
            vec!["git", "-C", "/work", "branch", "--show-current"]
        ),
        PullRequestNext::Done(text) => panic!("{text}"),
    }
    match gh_pr_for_branch(&dir, &[said("feature\n")]) {
        PullRequestNext::Run(command) => {
            assert_eq!(
                command.words,
                vec![
                    "gh",
                    "pr",
                    "view",
                    "feature",
                    "--json",
                    "number,url,state,isDraft,mergeStateStatus,headRefOid,baseRefName,statusCheckRollup",
                    "--jq",
                    "."
                ]
            );
            assert_eq!(command.cwd, Some(dir.clone()));
        }
        PullRequestNext::Done(text) => panic!("{text}"),
    }
    let done = |answers: &[Option<CmdOutput>]| match gh_pr_for_branch(&dir, answers) {
        PullRequestNext::Done(text) => text,
        PullRequestNext::Run(command) => panic!("{command:?}"),
    };
    assert_eq!(done(&[said("")]), "");
    assert_eq!(done(&[None]), "");
    assert_eq!(done(&[failed("no git")]), "");
    assert_eq!(done(&[said("feature"), said("{}")]), "{}");
    assert_eq!(done(&[said("feature"), failed("none")]), "");
    assert_eq!(done(&[said("feature"), None]), "");
}

#[test]
fn panes_are_read_from_their_listing() {
    let listing = "main\t0.1\t42\t/work\tvim\t1\t0\nshort\t0.0\t1\nother\t1.0\t\t\t\t0\t1\textra\n";
    let panes = parse_panes(listing);
    assert_eq!(panes.len(), 2);
    assert_eq!(panes[0].session, "main");
    assert_eq!(panes[0].pane, "0.1");
    assert_eq!(panes[0].pid.as_deref(), Some("42"));
    assert_eq!(panes[0].cwd, Some(path("/work")));
    assert_eq!(panes[0].command.as_deref(), Some("vim"));
    assert!(!panes[0].dead);
    assert_eq!(panes[1].pid, None);
    assert_eq!(panes[1].cwd, None);
    assert_eq!(panes[1].command, None);
    assert!(panes[1].dead);
    assert_eq!(tmux_pane_cwds(&panes), vec![path("/work")]);
    assert_eq!(tmux_panes_raw(true, &path(listing)).len(), 2);
    assert!(tmux_panes_raw(false, &path(listing)).is_empty());
    let odd = tmux_panes_raw(true, &b"s\xff\t0\t1\t/\tsh\t1\t0".to_vec());
    assert_eq!(odd[0].session, "s\u{fffd}");
}

#[test]
fn tmux_is_asked_for_one_session_or_all() {
    let format = "#{session_name}\t#{window_index}.#{pane_index}\t#{pane_pid}\t#{pane_current_path}\t#{pane_current_command}\t#{pane_active}\t#{pane_dead}";
    assert_eq!(
        list_panes_args(None),
        vec!["list-panes", "-a", "-F", format]
    );
    assert_eq!(
        list_panes_args(Some("agent")),
        vec!["list-panes", "-t", "agent", "-F", format]
    );
    assert_eq!(
        capture_pane_words("agent", 80),
        vec!["tmux", "capture-pane", "-pt", "agent", "-S", "-80"]
    );
    assert_eq!(capture_pane_content(&said("text").unwrap()), "text");
    assert_eq!(capture_pane_content(&failed("no pane").unwrap()), "no pane");
}

fn pane(cwd: Option<&str>) -> TmuxPaneInfo {
    TmuxPaneInfo {
        session: "agent".to_string(),
        pane: "0.0".to_string(),
        pid: Some("7".to_string()),
        cwd: cwd.map(path),
        command: None,
        dead: false,
    }
}

#[test]
fn pane_rows_show_the_state_of_git() {
    let mut git = GitStatus::default();
    assert_eq!(
        pane_row(&pane(None), &git),
        vec!["agent", "0.0", "", "not-git", "0", ""]
    );
    git.is_git = true;
    assert_eq!(pane_row(&pane(Some("/w")), &git)[3], "clean");
    git.dirty = true;
    git.dirty_count = 3;
    let row = pane_row(&pane(Some("/w")), &git);
    assert_eq!(row, vec!["agent", "0.0", "", "dirty", "3", "/w"]);
    assert_eq!(
        pane_table(&vec![row]),
        vec![
            "session  pane  cmd  git    dirty  cwd",
            "-------  ----  ---  -----  -----  ---",
            "agent    0.0        dirty  3      /w ",
        ]
    );
    assert_eq!(pane_table(&Vec::new()), vec!["(none)"]);
}

#[test]
fn working_trees_are_classified() {
    let mut git = GitStatus::default();
    assert_eq!(classify_worktree_status(&git, &vec![path("/w")]), "not-git");
    git.is_git = true;
    git.root = path("/w/a");
    assert_eq!(
        classify_worktree_status(&git, &vec![path("/w/ab")]),
        "clean-removable-if-terminal"
    );
    git.dirty = true;
    assert_eq!(
        classify_worktree_status(&git, &Vec::new()),
        "dirty-salvage"
    );
    for active in ["/w/a", "/w/a/src", "/w", "/", "/w//a/"] {
        assert_eq!(
            classify_worktree_status(&git, &vec![path("/other"), path(active)]),
            "active",
            "{active}"
        );
    }
}

#[test]
fn audit_takes_the_first_names_in_order() {
    let names = ["c", "a", "b"].iter().map(|n| path(n)).collect();
    assert_eq!(
        worktree_candidates(&path("/w"), &names, 2),
        vec![path("/w/a"), path("/w/b")]
    );
    assert_eq!(worktree_candidates(&path("/w"), &names, 9).len(), 3);
    assert!(worktree_candidates(&path("/w"), &names, 0).is_empty());
}

#[test]
fn audit_passes_over_what_is_no_working_tree() {
    let mut audit = WorktreeAudit::new(
        vec![path("/w/a"), path("/w/b"), path("/w/c")],
        vec![path("/w/c/src")],
    );
    let answers = vec![
        said("false"),
        said("true"),
        said("true"),
        said("?? x"),
        said(""),
        said("/w/b"),
        said("true"),
        said("true"),
        said("## main"),
        said(""),
        failed("fatal"),
    ];
    let mut asked = Vec::new();
    for answer in answers {
        match audit.next() {
            AuditNext::Run(command) => asked.push(command.words[2..].join(" ")),
            AuditNext::Done => panic!("{asked:?}"),
        }
        audit.hear(answer);
    }
    assert!(matches!(audit.next(), AuditNext::Done));
    assert_eq!(asked[0], "/w/a rev-parse --is-inside-work-tree");
    assert_eq!(asked[1], "/w/b rev-parse --is-inside-work-tree");
    assert_eq!(asked[2], "/w/b rev-parse --is-inside-work-tree");
    assert_eq!(asked[3], "/w/b status --short --branch");
    assert_eq!(asked[6], "/w/c rev-parse --is-inside-work-tree");
    let rows = audit.into_rows();
    assert_eq!(rows.len(), 2);
    assert_eq!(rows[0].state, "dirty-salvage");
    assert_eq!(rows[0].path, "/w/b");
    assert_eq!((rows[0].dirty, rows[0].modified, rows[0].untracked), (1, 0, 1));
    assert_eq!(rows[1].state, "active");
    assert_eq!(rows[1].path, "/w/c");
    for row in &rows {
        assert_eq!(row.dirty, row.modified + row.untracked);
    }
}

#[test]
fn tree_that_is_gone_when_asked_again_is_not_git() {
    let mut audit = WorktreeAudit::new(vec![path("/w/a"), path("/w/b")], Vec::new());
    for answer in [said("true"), failed("fatal"), None] {
        assert!(matches!(audit.next(), AuditNext::Run(_)));
        audit.hear(answer);
    }
    assert!(matches!(audit.next(), AuditNext::Done));
    let rows = audit.into_rows();
    assert_eq!(rows.len(), 1);
    assert_eq!(rows[0].state, "not-git");
    assert_eq!(rows[0].path, "/w/a");
    assert_eq!((rows[0].dirty, rows[0].modified, rows[0].untracked), (0, 0, 0));
}

#[test]
fn audit_is_printed_as_a_table() {
    let rows = vec![WorktreeRow {
        state: "active".to_string(),
        dirty: 3,
        modified: 1,
        untracked: 2,
        path: "/w/a".to_string(),
    }];
    let shown = vec![
        "state   dirty  mod  new  path",
        "------  -----  ---  ---  ----",
        "active  3      1    2    /w/a",
    ];
    assert_eq!(worktree_lines(&rows), shown);
    assert_eq!(worktree_audit_lines(&Some(rows)), shown);
    assert_eq!(worktree_audit_lines(&None), vec!["missing"]);
    assert_eq!(audit_heading(&path("/w")), "== worktree audit: /w ==");
    let row = worktree_row(&path("/x"), &GitStatus::default(), &Vec::new());
    assert_eq!(row.state, "not-git");
    assert_eq!(row.path, "/x");
}

#[test]
fn roots_that_were_asked_for_come_first() {
    let configured = strings(&["/c"]);
    assert_eq!(board_roots(vec![path("/a")], &configured), vec![path("/a")]);
    assert_eq!(board_roots(Vec::new(), &configured), vec![path("/c")]);
    assert!(board_roots(Vec::new(), &Vec::new()).is_empty());
    assert_eq!(
        audit_skipped(),
        "(worktree audit skipped: no --worktree-root flag and no lane_worktree_roots configured)"
    );
}

#[test]
fn clawhip_list_has_a_fallback() {
    assert_eq!(
        clawhip_list_command().words,
        vec!["bash", "-lc", "clawhip tmux list 2>/dev/null || true"]
    );
    assert_eq!(
        clawhip_list_text(&said(" \n").unwrap()),
        "No clawhip tmux output"
    );
    assert_eq!(clawhip_list_text(&said("a\nb\n").unwrap()), "a\nb");
}

#[test]
fn report_on_a_pane_without_a_directory_asks_nothing() {
    match verify_pane(&pane(None), "agent", 40, &[]) {
        ReportNext::Done(shown) => assert_eq!(
            shown,
            vec![
                "",
                "-- pane agent:0.0 pid=7 cmd= dead=false --",
                "cwd: unknown"
            ]
        ),
        other => panic!("{other:?}"),
    }
    assert_eq!(
        verify_heading("agent", true),
        vec!["== verify session: agent =="]
    );
    assert_eq!(
        verify_heading("agent", false),
        vec!["== verify session: agent ==", "tmux session/pane not found"]
    );
}

#[test]
fn report_on_a_working_tree_is_complete() {
    let answers = vec![
        said("true"),
        said("## main\n M a"),
        said("a | 1 +"),
        said("/w"),
        said("main"),
        said("{\"number\":1}"),
        said("$ tail"),
    ];
    let mut heard = Vec::new();
    let mut words = Vec::new();
    for answer in answers {
        match verify_pane(&pane(Some("/w")), "agent", 40, &heard) {
            ReportNext::Run(command) => words.push(command.words.join(" ")),
            other => panic!("{other:?}"),
        }
        heard.push(answer);
    }
    assert_eq!(words[5].split(' ').next(), Some("gh"));
    assert_eq!(words[6], "tmux capture-pane -pt agent -S -40");
    match verify_pane(&pane(Some("/w")), "agent", 40, &heard) {
        ReportNext::Done(shown) => assert_eq!(
            shown,
            vec![
                "",
                "-- pane agent:0.0 pid=7 cmd= dead=false --",
                "cwd: /w",
                "\n[git status]",
                "## main\n M a",
                "\n[git diff --stat]",
                "a | 1 +",
                "\n[gh pr view current branch]",
                "{\"number\":1}",
                "\n[pane tail -40]",
                "$ tail"
            ]
        ),
        other => panic!("{other:?}"),
    }
}

#[test]
fn report_leaves_out_what_is_empty() {
    let heard = vec![
        said("true"),
        said(""),
        said(""),
        said("/w"),
        said(""),
        failed("no session"),
    ];
    match verify_pane(&pane(Some("/w")), "agent", 5, &heard) {
        ReportNext::Done(shown) => assert_eq!(
            shown[3..],
            ["\n[git status]", "clean", "\n[pane tail -5]", "no session"]
        ),
        other => panic!("{other:?}"),
    }
    let heard = vec![said("false"), None];
    match verify_pane(&pane(Some("/w")), "agent", 5, &heard) {
        ReportNext::Failed(shown) => {
            assert_eq!(shown[3..], ["git: not inside worktree", "\n[pane tail -5]"])
        }
        other => panic!("{other:?}"),
    }
}

#[test]
fn long_pull_requests_are_cut() {
    let long = "x".repeat(7000);
    let heard = vec![
        said("true"),
        said(""),
        said(""),
        said("/w"),
        said("main"),
        said(&long),
        said("t"),
    ];
    match verify_pane(&pane(Some("/w")), "agent", 5, &heard) {
        ReportNext::Done(shown) => assert_eq!(shown[6], "x".repeat(6000)),
        other => panic!("{other:?}"),
    }
}

#[test]
fn missing_columns_are_added() {
    assert_eq!(
        table_info_statement("sessions"),
        "PRAGMA table_info(sessions)"
    );
    let columns = strings(&["id", "state"]);
    assert_eq!(
        ensure_column("sessions", "workflow_status", "TEXT", &columns).as_deref(),
        Some("ALTER TABLE sessions ADD COLUMN workflow_status TEXT")
    );
    assert_eq!(ensure_column("sessions", "state", "TEXT", &columns), None);
}
