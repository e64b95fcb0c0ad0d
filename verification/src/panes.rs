//! The panes of tmux.

use vstd::prelude::*;
use vstd::string::*;
use vstd::utf8::encode_utf8;

use crate::commands::{words_of, CmdOutput, CmdOutputView};
use crate::git::{GitStatus, GitStatusView};
use crate::outside::{lossy_text, utf8_lossy};
use crate::paths::{clone_path, opt_path_view, path_of_text, path_text, path_views};
use crate::text::{
    decimal, decimal_text, lines, lines_of, opt_view, split, split_on, str_eq, views,
};

verus! {

/// A pane of tmux.
#[derive(Debug)]
pub struct TmuxPaneInfo {
    pub session: String,
    pub pane: String,
    pub pid: Option<String>,
    pub cwd: Option<Vec<u8>>,
    pub command: Option<String>,
    pub dead: bool,
}

/// [`TmuxPaneInfo`] with its strings as characters.
#[verifier::ext_equal]
pub struct TmuxPaneInfoView {
    pub session: Seq<char>,
    pub pane: Seq<char>,
    pub pid: Option<Seq<char>>,
    pub cwd: Option<Seq<u8>>,
    pub command: Option<Seq<char>>,
    pub dead: bool,
}

impl View for TmuxPaneInfo {
    type V = TmuxPaneInfoView;

    open spec fn view(&self) -> TmuxPaneInfoView {
        TmuxPaneInfoView {
            session: self.session@,
            pane: self.pane@,
            pid: opt_view(self.pid),
            cwd: opt_path_view(self.cwd),
            command: opt_view(self.command),
            dead: self.dead,
        }
    }
}

/// The panes with their strings as characters.
pub open spec fn pane_views(panes: Seq<TmuxPaneInfo>) -> Seq<TmuxPaneInfoView> {
    panes.map_values(|p: TmuxPaneInfo| p@)
}

/// The format in which tmux is asked to list panes.
pub open spec fn pane_format() -> Seq<char> {
    "#{session_name}\t#{window_index}.#{pane_index}\t#{pane_pid}\t#{pane_current_path}\t#{pane_current_command}\t#{pane_active}\t#{pane_dead}"@
}

/// The arguments with which tmux lists the panes of one session, or of all.
pub open spec fn list_words(session: Option<Seq<char>>) -> Seq<Seq<char>> {
    match session {
        Some(name) => seq!["list-panes"@, "-t"@, name, "-F"@, pane_format()],
        None => seq!["list-panes"@, "-a"@, "-F"@, pane_format()],
    }
}

/// The arguments with which tmux lists the panes of one session, or of all.
pub fn list_panes_args(session: Option<&str>) -> (args: Vec<String>)
    ensures
        views(args@) == list_words(
            match session {
                Some(name) => Some(name@),
                None => None,
            },
        ),
{
    let format = "#{session_name}\t#{window_index}.#{pane_index}\t#{pane_pid}\t#{pane_current_path}\t#{pane_current_command}\t#{pane_active}\t#{pane_dead}";
    match session {
        Some(name) => {
            let args = words_of(&["list-panes", "-t", name, "-F", format]);
            assert(views(args@) =~= list_words(Some(name@)));
            args
        },
        None => {
            let args = words_of(&["list-panes", "-a", "-F", format]);
            assert(views(args@) =~= list_words(None));
            args
        },
    }
}

/// `text`, unless it is empty.
pub open spec fn non_empty(text: Seq<char>) -> Option<Seq<char>> {
    if text.len() == 0 {
        None
    } else {
        Some(text)
    }
}

/// The pane that the fields of a line describe; none where there are fewer than seven.
pub open spec fn pane_of_fields(fields: Seq<Seq<char>>) -> Option<TmuxPaneInfoView> {
    if fields.len() < 7 {
        None
    } else {
        Some(
            TmuxPaneInfoView {
                session: fields[0],
                pane: fields[1],
                pid: non_empty(fields[2]),
                cwd: match non_empty(fields[3]) {
                    Some(text) => Some(encode_utf8(text)),
                    None => None,
                },
                command: non_empty(fields[4]),
                dead: fields[6] == "1"@,
            },
        )
    }
}

/// The panes that the first `n` lines describe.
pub open spec fn panes_of_lines(lines: Seq<Seq<char>>, n: nat) -> Seq<TmuxPaneInfoView>
    decreases n,
{
    if n == 0 {
        Seq::empty()
    } else {
        let before = panes_of_lines(lines, (n - 1) as nat);
        match pane_of_fields(split_on(lines[n - 1], '\t')) {
            Some(pane) => before.push(pane),
            None => before,
        }
    }
}

/// The panes that a listing describes.
pub open spec fn panes_of(listing: Seq<char>) -> Seq<TmuxPaneInfoView> {
    panes_of_lines(lines_of(listing), lines_of(listing).len())
}

fn unless_empty(text: &String) -> (some: Option<String>)
    ensures
        opt_view(some) == non_empty(text@),
{
    if text.as_str().is_empty() {
        None
    } else {
        Some(text.clone())
    }
}

fn pane_from(line: &str) -> (pane: Option<TmuxPaneInfo>)
    ensures
        match pane_of_fields(split_on(line@, '\t')) {
            Some(expected) => pane matches Some(p) && p@ == expected,
            None => pane is None,
        },
{
    let fields = split(line, '\t');
    let ghost texts = split_on(line@, '\t');
    assert(views(fields@) == texts);
    if fields.len() < 7 {
        return None;
    }
    assert(forall|i: int| 0 <= i < 7 ==> (#[trigger] fields@[i])@ == texts[i]) by {
        assert forall|i: int| 0 <= i < 7 implies (#[trigger] fields@[i])@ == texts[i] by {
            assert(views(fields@)[i] == fields@[i]@);
        }
    }
    let cwd = match unless_empty(&fields[3]) {
        Some(text) => Some(path_of_text(text.as_str())),
        None => None,
    };
    let pane = TmuxPaneInfo {
        session: fields[0].clone(),
        pane: fields[1].clone(),
        pid: unless_empty(&fields[2]),
        cwd,
        command: unless_empty(&fields[4]),
        dead: str_eq(fields[6].as_str(), "1"),
    };
    Some(pane)
}

/// The panes that a listing describes.
pub fn parse_panes(listing: &str) -> (panes: Vec<TmuxPaneInfo>)
    ensures
        pane_views(panes@) == panes_of(listing@),
{
    let all = lines(listing);
    let ghost texts = lines_of(listing@);
    let mut panes: Vec<TmuxPaneInfo> = Vec::new();
    let mut n: usize = 0;
    assert(pane_views(panes@) =~= panes_of_lines(texts, 0));
    while n < all.len()
        invariant
            n <= all@.len(),
            texts == views(all@),
            pane_views(panes@) == panes_of_lines(texts, n as nat),
        decreases all.len() - n,
    {
        assert(texts[n as int] == all@[n as int]@);
        let ghost before = pane_views(panes@);
        match pane_from(all[n].as_str()) {
            Some(pane) => {
                let ghost new = pane@;
                panes.push(pane);
                assert(pane_views(panes@) =~= before.push(new));
            },
            None => {},
        }
        n = n + 1;
    }
    panes
}

/// The panes that tmux has listed, given how it ended and what it has written: none where it failed.
pub fn tmux_panes_raw(success: bool, stdout: &Vec<u8>) -> (panes: Vec<TmuxPaneInfo>)
    ensures
        pane_views(panes@) == if success {
            panes_of(utf8_lossy(stdout@))
        } else {
            Seq::empty()
        },
{
    if !success {
        let panes: Vec<TmuxPaneInfo> = Vec::new();
        assert(pane_views(panes@) =~= Seq::empty());
        return panes;
    }
    let listing = lossy_text(stdout);
    parse_panes(listing.as_str())
}

/// The directories of the first `n` panes that have one.
pub open spec fn cwds_of(panes: Seq<TmuxPaneInfoView>, n: nat) -> Seq<Seq<u8>>
    decreases n,
{
    if n == 0 {
        Seq::empty()
    } else {
        let before = cwds_of(panes, (n - 1) as nat);
        match panes[n - 1].cwd {
            Some(cwd) => before.push(cwd),
            None => before,
        }
    }
}

/// The directories of the panes that have one.
pub fn tmux_pane_cwds(panes: &Vec<TmuxPaneInfo>) -> (cwds: Vec<Vec<u8>>)
    ensures
        path_views(cwds@) == cwds_of(pane_views(panes@), panes@.len()),
{
    let ghost all = pane_views(panes@);
    let mut cwds: Vec<Vec<u8>> = Vec::new();
    let mut n: usize = 0;
    assert(path_views(cwds@) =~= cwds_of(all, 0));
    while n < panes.len()
        invariant
            n <= panes@.len(),
            all == pane_views(panes@),
            path_views(cwds@) == cwds_of(all, n as nat),
        decreases panes.len() - n,
    {
        assert(all[n as int] == panes@[n as int]@);
        let ghost before = path_views(cwds@);
        match &panes[n].cwd {
            Some(cwd) => {
                let ghost new = cwd@;
                cwds.push(clone_path(cwd));
                assert(path_views(cwds@) =~= before.push(new));
            },
            None => {},
        }
        n = n + 1;
    }
    cwds
}

/// `text`, or nothing where there is none.
pub open spec fn text_or_nothing(text: Option<Seq<char>>) -> Seq<char> {
    match text {
        Some(t) => t,
        None => Seq::empty(),
    }
}

/// A string, or the empty one where there is none.
pub fn or_nothing(text: &Option<String>) -> (t: String)
    ensures
        t@ == text_or_nothing(opt_view(*text)),
{
    match text {
        Some(t) => t.clone(),
        None => {
            let t = String::new();
            assert(t@ =~= Seq::<char>::empty());
            t
        },
    }
}

/// The directory to ask git of for a pane; none where it is not known.
pub open spec fn pane_dir(pane: TmuxPaneInfoView) -> Seq<u8> {
    match pane.cwd {
        Some(cwd) => cwd,
        None => Seq::empty(),
    }
}

/// What is said of the directory of a pane.
pub open spec fn git_label(git: GitStatusView) -> Seq<char> {
    if git.dirty {
        "dirty"@
    } else if git.is_git {
        "clean"@
    } else {
        "not-git"@
    }
}

/// The cells of a pane.
pub open spec fn pane_cells(pane: TmuxPaneInfoView, git: GitStatusView) -> Seq<Seq<char>> {
    seq![
        pane.session,
        pane.pane,
        text_or_nothing(pane.command),
        git_label(git),
        decimal(git.dirty_count),
        utf8_lossy(pane_dir(pane)),
    ]
}

/// The headers of the table of panes.
pub open spec fn pane_headers() -> Seq<Seq<char>> {
    seq!["session"@, "pane"@, "cmd"@, "git"@, "dirty"@, "cwd"@]
}

/// The headers of the table of panes.
pub fn pane_header_row() -> (headers: Vec<String>)
    ensures
        views(headers@) == pane_headers(),
        headers@.len() == 6,
{
    let headers = words_of(&["session", "pane", "cmd", "git", "dirty", "cwd"]);
    assert(views(headers@) =~= pane_headers());
    assert(views(headers@).len() == 6);
    headers
}

/// The cells of a pane, given what is known of its directory.
pub fn pane_row(pane: &TmuxPaneInfo, git: &GitStatus) -> (cells: Vec<String>)
    ensures
        views(cells@) == pane_cells(pane@, git@),
        cells@.len() == 6,
{
    let dir = match &pane.cwd {
        Some(cwd) => path_text(cwd),
        None => {
            let none: Vec<u8> = Vec::new();
            assert(none@ =~= Seq::<u8>::empty());
            path_text(&none)
        },
    };
    let label = if git.dirty {
        "dirty"
    } else if git.is_git {
        "clean"
    } else {
        "not-git"
    };
    let mut cells: Vec<String> = Vec::new();
    cells.push(pane.session.clone());
    cells.push(pane.pane.clone());
    cells.push(or_nothing(&pane.command));
    cells.push(label.to_owned());
    cells.push(decimal_text(git.dirty_count as u64));
    cells.push(dir);
    assert(views(cells@) =~= pane_cells(pane@, git@));
    cells
}

/// The words that ask tmux for the last lines of a session.
pub open spec fn capture_words(session: Seq<char>, lines: nat) -> Seq<Seq<char>> {
    seq!["tmux"@, "capture-pane"@, "-pt"@, session, "-S"@, "-"@ + decimal(lines)]
}

/// The words that ask tmux for the last lines of a session.
pub fn capture_pane_words(session: &str, lines: usize) -> (words: Vec<String>)
    ensures
        views(words@) == capture_words(session@, lines as nat),
{
    let number = decimal_text(lines as u64);
    let mut start = "-".to_owned();
    start.append(number.as_str());
    let words = words_of(&["tmux", "capture-pane", "-pt", session, "-S", start.as_str()]);
    assert(views(words@) =~= capture_words(session@, lines as nat));
    words
}

/// What is shown of a session, given what tmux has said: its last lines, or why there are none.
pub open spec fn captured(output: CmdOutputView) -> Seq<char> {
    if output.success {
        output.stdout
    } else {
        output.stderr
    }
}

/// What is shown of a session, given what tmux has said.
pub fn capture_pane_content(output: &CmdOutput) -> (content: String)
    ensures
        content@ == captured(output@),
{
    if output.success {
        output.stdout.clone()
    } else {
        output.stderr.clone()
    }
}

} // verus!
