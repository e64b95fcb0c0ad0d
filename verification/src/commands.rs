//! Commands that are to be run, and what they have said.

use vstd::prelude::*;
use vstd::string::*;

use crate::outside::{lossy_text, utf8_lossy};
use crate::paths::opt_path_view;
use crate::text::{trim, trimmed, views};

verus! {

/// A command: its words, and the directory to run it in where it matters.
#[derive(Debug)]
pub struct CommandLine {
    pub words: Vec<String>,
    pub cwd: Option<Vec<u8>>,
}

/// [`CommandLine`] with its strings as characters.
#[verifier::ext_equal]
pub struct CommandLineView {
    pub words: Seq<Seq<char>>,
    pub cwd: Option<Seq<u8>>,
}

impl View for CommandLine {
    type V = CommandLineView;

    open spec fn view(&self) -> CommandLineView {
        CommandLineView { words: views(self.words@), cwd: opt_path_view(self.cwd) }
    }
}

/// What a command has said.
#[derive(Debug)]
pub struct CmdOutput {
    pub success: bool,
    pub stdout: String,
    pub stderr: String,
}

/// [`CmdOutput`] with its strings as characters.
#[verifier::ext_equal]
pub struct CmdOutputView {
    pub success: bool,
    pub stdout: Seq<char>,
    pub stderr: Seq<char>,
}

impl View for CmdOutput {
    type V = CmdOutputView;

    open spec fn view(&self) -> CmdOutputView {
        CmdOutputView { success: self.success, stdout: self.stdout@, stderr: self.stderr@ }
    }
}

/// What a command has said, where it could be run.
pub open spec fn answer_view(answer: Option<CmdOutput>) -> Option<CmdOutputView> {
    match answer {
        Some(output) => Some(output@),
        None => None,
    }
}

/// What each of some commands has said.
pub open spec fn answer_views(answers: Seq<Option<CmdOutput>>) -> Seq<Option<CmdOutputView>> {
    answers.map_values(|answer: Option<CmdOutput>| answer_view(answer))
}

impl CmdOutput {
    /// What a command has said, given the bytes that it has written. White space around them is
    /// left out.
    pub fn new(success: bool, stdout: &Vec<u8>, stderr: &Vec<u8>) -> (output: CmdOutput)
        ensures
            output@ == (CmdOutputView {
                success,
                stdout: trimmed(utf8_lossy(stdout@)),
                stderr: trimmed(utf8_lossy(stderr@)),
            }),
    {
        let out = lossy_text(stdout);
        let err = lossy_text(stderr);
        CmdOutput { success, stdout: trim(out.as_str()), stderr: trim(err.as_str()) }
    }
}

/// What a command that could be run has written, success or not; nothing where it could not be run.
pub open spec fn text_of(answer: Option<CmdOutputView>) -> Seq<char> {
    match answer {
        Some(output) => output.stdout,
        None => Seq::empty(),
    }
}

/// What a command that succeeded has written.
pub open spec fn text_of_success(answer: Option<CmdOutputView>) -> Option<Seq<char>> {
    match answer {
        Some(output) => if output.success {
            Some(output.stdout)
        } else {
            None
        },
        None => None,
    }
}

/// What a command that could be run has written.
pub fn answer_text(answer: &Option<CmdOutput>) -> (text: String)
    ensures
        text@ == text_of(answer_view(*answer)),
{
    match answer {
        Some(output) => output.stdout.clone(),
        None => String::new(),
    }
}

/// What a command that succeeded has written.
pub fn success_text(answer: &Option<CmdOutput>) -> (text: Option<String>)
    ensures
        match text_of_success(answer_view(*answer)) {
            Some(expected) => text matches Some(t) && t@ == expected,
            None => text is None,
        },
{
    match answer {
        Some(output) => if output.success {
            Some(output.stdout.clone())
        } else {
            None
        },
        None => None,
    }
}

/// The texts of a list of words.
pub open spec fn word_views(words: Seq<&str>) -> Seq<Seq<char>> {
    words.map_values(|w: &str| w@)
}

/// The words as strings of their own.
pub fn words_of(words: &[&str]) -> (strings: Vec<String>)
    ensures
        views(strings@) == word_views(words@),
{
    let mut strings: Vec<String> = Vec::new();
    let mut i: usize = 0;
    while i < words.len()
        invariant
            i <= words@.len(),
            strings@.len() == i,
            forall|j: int| 0 <= j < i ==> (#[trigger] strings@[j])@ == words@[j]@,
        decreases words.len() - i,
    {
        strings.push(words[i].to_owned());
        i = i + 1;
    }
    assert(views(strings@) =~= word_views(words@));
    strings
}

} // verus!
