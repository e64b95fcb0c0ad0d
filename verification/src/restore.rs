//! The command that brings a watch back.

use vstd::prelude::*;
use vstd::string::*;

use crate::records::{WatchIntentRecord, WatchIntentRecordView};
use crate::shell::{command_line, quoted, shell_quote, shell_reads_command_line_back, shell_words};
use crate::text::{decimal, decimal_text, join, joined, views};

verus! {

/// A flag with its value, where there is one.
pub open spec fn flag(name: Seq<char>, value: Option<Seq<char>>) -> Seq<Seq<char>> {
    match value {
        Some(v) => seq![name, v],
        None => Seq::empty(),
    }
}

impl WatchIntentRecordView {
    /// The keywords as one argument, where there are any.
    pub open spec fn keywords_arg(self) -> Option<Seq<char>> {
        if self.keywords.len() > 0 {
            Some(joined(self.keywords, ","@))
        } else {
            None
        }
    }

    /// The label of the format, where there is one.
    pub open spec fn format_arg(self) -> Option<Seq<char>> {
        match self.format {
            Some(format) => Some(format.text()),
            None => None,
        }
    }

    /// The arguments of the command that brings the watch back.
    pub open spec fn restore_args(self) -> Seq<Seq<char>> {
        seq!["clawhip"@, "tmux"@, "watch"@, "--session"@, self.tmux_session] + flag(
            "--channel"@,
            self.channel,
        ) + flag("--thread"@, self.thread) + flag("--mention"@, self.mention) + flag(
            "--keywords"@,
            self.keywords_arg(),
        ) + seq!["--stale-minutes"@, decimal(self.stale_minutes as nat)] + flag(
            "--format"@,
            self.format_arg(),
        )
    }

    /// The command that brings the watch back, as a shell takes it.
    pub open spec fn restore_line(self) -> Seq<char> {
        command_line(self.restore_args())
    }

    /// A shell reads the restore command as exactly its arguments, whatever the session, the
    /// channel, the mention and the keywords hold.
    pub proof fn shell_reads_restore_line_back(self)
        ensures
            shell_words(self.restore_line()) == Some(self.restore_args()),
    {
        shell_reads_command_line_back(self.restore_args());
    }
}

fn push_text(args: &mut Vec<String>, text: &str)
    ensures
        views(final(args)@) == views(old(args)@).push(text@),
{
    args.push(text.to_owned());
    assert(views(args@) =~= views(old(args)@).push(text@));
}

fn push_flag(args: &mut Vec<String>, name: &str, value: &str)
    ensures
        views(final(args)@) == views(old(args)@) + flag(name@, Some(value@)),
{
    push_text(args, name);
    push_text(args, value);
    assert(views(args@) =~= views(old(args)@) + flag(name@, Some(value@)));
}

fn push_optional_flag(args: &mut Vec<String>, name: &str, value: &Option<String>)
    ensures
        views(final(args)@) == views(old(args)@) + flag(name@, crate::text::opt_view(*value)),
{
    match value {
        Some(text) => push_flag(args, name, text.as_str()),
        None => {
            assert(views(args@) =~= views(args@) + flag(name@, None));
        },
    }
}

impl WatchIntentRecord {
    /// The arguments of the command that brings the watch back.
    pub fn restore_command(&self) -> (args: Vec<String>)
        ensures
            views(args@) == self@.restore_args(),
    {
        let mut args: Vec<String> = Vec::new();
        push_text(&mut args, "clawhip");
        push_text(&mut args, "tmux");
        push_text(&mut args, "watch");
        push_text(&mut args, "--session");
        push_text(&mut args, self.tmux_session.as_str());
        assert(views(args@) =~= seq![
            "clawhip"@,
            "tmux"@,
            "watch"@,
            "--session"@,
            self.tmux_session@,
        ]);
        push_optional_flag(&mut args, "--channel", &self.channel);
        push_optional_flag(&mut args, "--thread", &self.thread);
        push_optional_flag(&mut args, "--mention", &self.mention);
        if self.keywords.len() > 0 {
            let keywords = join(&self.keywords, ",");
            push_flag(&mut args, "--keywords", keywords.as_str());
        } else {
            assert(views(args@) =~= views(args@) + flag("--keywords"@, None));
        }
        let minutes = decimal_text(self.stale_minutes);
        push_flag(&mut args, "--stale-minutes", minutes.as_str());
        match self.format {
            Some(format) => push_flag(&mut args, "--format", format.as_str()),
            None => {
                assert(views(args@) =~= views(args@) + flag("--format"@, None));
            },
        }
        args
    }

    /// The command that brings the watch back, as a shell takes it.
    pub fn restore_command_string(&self) -> (line: String)
        ensures
            line@ == self@.restore_line(),
    {
        let args = self.restore_command();
        let ghost texts = views(args@);
        let mut words: Vec<String> = Vec::new();
        let mut i: usize = 0;
        while i < args.len()
            invariant
                i <= args@.len(),
                texts == views(args@),
                views(words@) == texts.take(i as int).map_values(|arg: Seq<char>| quoted(arg)),
            decreases args.len() - i,
        {
            let ghost before = views(words@);
            let word = shell_quote(args[i].as_str());
            let ghost text = word@;
            words.push(word);
            assert(views(words@) =~= before.push(text));
            assert(views(words@) =~= texts.take(i + 1).map_values(|arg: Seq<char>| quoted(arg)));
            i = i + 1;
        }
        assert(texts.take(i as int) == texts);
        proof {
            reveal_strlit(" ");
            assert(" "@ =~= seq![' ']);
        }
        join(&words, " ")
    }
}

} // verus!
