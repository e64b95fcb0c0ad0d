//! What the command that brings a watch back says, as a reader of command lines takes it.

use vstd::prelude::*;
use vstd::string::*;

use crate::records::WatchIntentRecordView;
use crate::restore::flag;
use crate::shell::{quoted, shell_words};
use crate::status::MessageFormat;
use crate::text::{decimal, joined};
use crate::text_laws::{decimals_tell_numbers_apart, splitting_undoes_joining};

verus! {

/// The value behind the first flag `name`, in a list of flags with their values.
pub open spec fn value_behind(args: Seq<Seq<char>>, name: Seq<char>) -> Option<Seq<char>>
    decreases args.len(),
{
    if args.len() < 2 {
        None
    } else if args[0] == name {
        Some(args[1])
    } else {
        value_behind(args.skip(2), name)
    }
}

proof fn lemma_value_behind(
    name: Seq<char>,
    value: Option<Seq<char>>,
    rest: Seq<Seq<char>>,
    wanted: Seq<char>,
)
    ensures
        value_behind(flag(name, value) + rest, wanted) == if name == wanted && value is Some {
            value
        } else {
            value_behind(rest, wanted)
        },
{
    let all = flag(name, value) + rest;
    match value {
        Some(v) => {
            assert(all[0] == name && all[1] == v);
            assert(all.skip(2) =~= rest);
        },
        None => {
            assert(all =~= rest);
        },
    }
}

/// One where there is a value, else none.
pub open spec fn present<T>(value: Option<T>) -> int {
    if value is Some {
        1
    } else {
        0
    }
}

proof fn lemma_flags_differ()
    ensures
        "--session"@ != "--channel"@,
        "--session"@ != "--thread"@,
        "--session"@ != "--mention"@,
        "--session"@ != "--keywords"@,
        "--session"@ != "--stale-minutes"@,
        "--session"@ != "--format"@,
        "--channel"@ != "--thread"@,
        "--channel"@ != "--mention"@,
        "--channel"@ != "--keywords"@,
        "--channel"@ != "--stale-minutes"@,
        "--channel"@ != "--format"@,
        "--thread"@ != "--mention"@,
        "--thread"@ != "--keywords"@,
        "--thread"@ != "--stale-minutes"@,
        "--thread"@ != "--format"@,
        "--mention"@ != "--keywords"@,
        "--mention"@ != "--stale-minutes"@,
        "--mention"@ != "--format"@,
        "--keywords"@ != "--stale-minutes"@,
        "--keywords"@ != "--format"@,
        "--stale-minutes"@ != "--format"@,
{
    reveal_strlit("--session");
    reveal_strlit("--channel");
    reveal_strlit("--thread");
    reveal_strlit("--mention");
    reveal_strlit("--keywords");
    reveal_strlit("--stale-minutes");
    reveal_strlit("--format");
    assert("--session"@.len() == 9 && "--channel"@.len() == 9 && "--thread"@.len() == 8);
    assert("--mention"@.len() == 9 && "--keywords"@.len() == 10);
    assert("--stale-minutes"@.len() == 15 && "--format"@.len() == 8);
    assert("--session"@[2] == 's' && "--channel"@[2] == 'c' && "--mention"@[2] == 'm');
    assert("--thread"@[2] == 't' && "--format"@[2] == 'f');
}

proof fn lemma_regrouped(
    head: Seq<Seq<char>>,
    a: Seq<Seq<char>>,
    b: Seq<Seq<char>>,
    c: Seq<Seq<char>>,
    d: Seq<Seq<char>>,
    e: Seq<Seq<char>>,
    f: Seq<Seq<char>>,
    g: Seq<Seq<char>>,
)
    ensures
        ({
            let tail = a + (b + (c + (d + (e + (f + (g + Seq::empty()))))));
            &&& head + a + b + c + d + e + f + g == head + tail
            &&& (head + tail).skip(head.len() as int) == tail
        }),
{
    let tail = a + (b + (c + (d + (e + (f + (g + Seq::empty()))))));
    assert(head + a + b + c + d + e + f + g =~= head + tail);
    assert((head + tail).skip(head.len() as int) =~= tail);
}

/// The flags of a restore command, given their values.
spec fn all_flags(
    session: Seq<char>,
    channel: Option<Seq<char>>,
    thread: Option<Seq<char>>,
    mention: Option<Seq<char>>,
    keywords: Option<Seq<char>>,
    minutes: Seq<char>,
    format: Option<Seq<char>>,
) -> Seq<Seq<char>> {
    flag("--session"@, Some(session)) + (flag("--channel"@, channel) + (flag("--thread"@, thread) + (
    flag("--mention"@, mention) + (flag("--keywords"@, keywords) + (flag(
        "--stale-minutes"@,
        Some(minutes),
    ) + (flag("--format"@, format) + Seq::empty()))))))
}

proof fn lemma_flag_values(
    session: Seq<char>,
    channel: Option<Seq<char>>,
    thread: Option<Seq<char>>,
    mention: Option<Seq<char>>,
    keywords: Option<Seq<char>>,
    minutes: Seq<char>,
    format: Option<Seq<char>>,
    wanted: Seq<char>,
)
    ensures
        ({
            let found = value_behind(
                all_flags(session, channel, thread, mention, keywords, minutes, format),
                wanted,
            );
            &&& wanted == "--session"@ ==> found == Some(session)
            &&& wanted == "--channel"@ ==> found == channel
            &&& wanted == "--thread"@ ==> found == thread
            &&& wanted == "--mention"@ ==> found == mention
            &&& wanted == "--keywords"@ ==> found == keywords
            &&& wanted == "--stale-minutes"@ ==> found == Some(minutes)
            &&& wanted == "--format"@ ==> found == format
        }),
{
    lemma_flags_differ();
    let f7 = flag("--format"@, format) + Seq::empty();
    let f6 = flag("--stale-minutes"@, Some(minutes)) + f7;
    let f5 = flag("--keywords"@, keywords) + f6;
    let f4 = flag("--mention"@, mention) + f5;
    let f3 = flag("--thread"@, thread) + f4;
    let f2 = flag("--channel"@, channel) + f3;
    lemma_value_behind("--session"@, Some(session), f2, wanted);
    lemma_value_behind("--channel"@, channel, f3, wanted);
    lemma_value_behind("--thread"@, thread, f4, wanted);
    lemma_value_behind("--mention"@, mention, f5, wanted);
    lemma_value_behind("--keywords"@, keywords, f6, wanted);
    lemma_value_behind("--stale-minutes"@, Some(minutes), f7, wanted);
    lemma_value_behind("--format"@, format, Seq::empty(), wanted);
}

impl WatchIntentRecordView {
    proof fn lemma_restore_flags(self)
        ensures
            self.restore_args().skip(3) == all_flags(
                self.tmux_session,
                self.channel,
                self.thread,
                self.mention,
                self.keywords_arg(),
                decimal(self.stale_minutes as nat),
                self.format_arg(),
            ),
            self.restore_args().len() >= 3,
            self.restore_args().take(3) == seq!["clawhip"@, "tmux"@, "watch"@],
    {
        let head = seq!["clawhip"@, "tmux"@, "watch"@];
        let session = flag("--session"@, Some(self.tmux_session));
        let minutes = decimal(self.stale_minutes as nat);
        assert(seq!["clawhip"@, "tmux"@, "watch"@, "--session"@, self.tmux_session] =~= head
            + session);
        assert(seq!["--stale-minutes"@, minutes] =~= flag("--stale-minutes"@, Some(minutes)));
        lemma_regrouped(
            head,
            session,
            flag("--channel"@, self.channel),
            flag("--thread"@, self.thread),
            flag("--mention"@, self.mention),
            flag("--keywords"@, self.keywords_arg()),
            flag("--stale-minutes"@, Some(minutes)),
            flag("--format"@, self.format_arg()),
        );
        assert(self.restore_args().take(3) =~= head);
    }

    /// The restore command is `clawhip tmux watch` with flags behind it, and reading the flags
    /// gives the watch intent back: the session and the minutes always; the channel, the thread,
    /// the mention and the format each exactly where there is one, whatever the others are; and the
    /// keywords, where there are any, with commas between them. There is no other argument.
    pub proof fn restore_command_gives_the_intent_back(self)
        ensures
            ({
                let args = self.restore_args();
                let flags = args.skip(3);
                &&& args.len() >= 3
                &&& args[0] == "clawhip"@ && args[1] == "tmux"@ && args[2] == "watch"@
                &&& value_behind(flags, "--session"@) == Some(self.tmux_session)
                &&& value_behind(flags, "--channel"@) == self.channel
                &&& value_behind(flags, "--thread"@) == self.thread
                &&& value_behind(flags, "--mention"@) == self.mention
                &&& value_behind(flags, "--keywords"@) == if self.keywords.len() == 0 {
                    None
                } else {
                    Some(joined(self.keywords, seq![',']))
                }
                &&& value_behind(flags, "--stale-minutes"@) == Some(
                    decimal(self.stale_minutes as nat),
                )
                &&& value_behind(flags, "--format"@) == match self.format {
                    Some(MessageFormat::Compact) => Some("compact"@),
                    Some(MessageFormat::Alert) => Some("alert"@),
                    None => None,
                }
                &&& args.len() == 7 + 2 * (present(self.channel) + present(self.thread) + present(
                    self.mention,
                ) + present(self.format) + if self.keywords.len() == 0 {
                    0int
                } else {
                    1
                })
            }),
    {
        let args = self.restore_args();
        let minutes = decimal(self.stale_minutes as nat);
        reveal_strlit(",");
        assert(","@ =~= seq![',']);
        self.lemma_restore_flags();
        let head = args.take(3);
        assert(args[0] == head[0] && args[1] == head[1] && args[2] == head[2]);
        assert forall|wanted: Seq<char>| true implies ({
            let found = #[trigger] value_behind(args.skip(3), wanted);
            &&& wanted == "--session"@ ==> found == Some(self.tmux_session)
            &&& wanted == "--channel"@ ==> found == self.channel
            &&& wanted == "--thread"@ ==> found == self.thread
            &&& wanted == "--mention"@ ==> found == self.mention
            &&& wanted == "--keywords"@ ==> found == self.keywords_arg()
            &&& wanted == "--stale-minutes"@ ==> found == Some(minutes)
            &&& wanted == "--format"@ ==> found == self.format_arg()
        }) by {
            lemma_flag_values(
                self.tmux_session,
                self.channel,
                self.thread,
                self.mention,
                self.keywords_arg(),
                minutes,
                self.format_arg(),
                wanted,
            );
        }
    }

    /// As a shell takes it, the command is its words, each quoted, with one space between each and
    /// the next.
    pub proof fn restore_line_is_the_quoted_words(self)
        ensures
            self.restore_line() == joined(
                Seq::new(self.restore_args().len(), |i: int| quoted(self.restore_args()[i])),
                seq![' '],
            ),
    {
        let args = self.restore_args();
        assert(args.map_values(|arg: Seq<char>| quoted(arg)) =~= Seq::new(
            args.len(),
            |i: int| quoted(args[i]),
        ));
    }

    /// Watch intents that differ in session, channel, thread, mention, minutes or format have
    /// different restore commands, word for word and as a shell takes them; so have those that
    /// differ in keywords that hold no comma.
    pub proof fn restore_commands_tell_intents_apart(self, other: WatchIntentRecordView)
        requires
            self.restore_line() == other.restore_line(),
        ensures
            self.restore_args() == other.restore_args(),
            self.tmux_session == other.tmux_session,
            self.channel == other.channel,
            self.thread == other.thread,
            self.mention == other.mention,
            self.stale_minutes == other.stale_minutes,
            self.format == other.format,
            (forall|k: int| 0 <= k < self.keywords.len() ==> !(#[trigger] self.keywords[k]).contains(
                ',',
            )) && (forall|k: int|
                0 <= k < other.keywords.len() ==> !(#[trigger] other.keywords[k]).contains(','))
                ==> self.keywords == other.keywords,
    {
        self.shell_reads_restore_line_back();
        other.shell_reads_restore_line_back();
        assert(shell_words(self.restore_line()) == shell_words(other.restore_line()));
        self.restore_command_gives_the_intent_back();
        other.restore_command_gives_the_intent_back();
        decimals_tell_numbers_apart(self.stale_minutes as nat, other.stale_minutes as nat);
        MessageFormat::Compact.label_reads_back();
        MessageFormat::Alert.label_reads_back();
        reveal_strlit("compact");
        reveal_strlit("alert");
        assert("compact"@.len() == 7 && "alert"@.len() == 5);
        if (forall|k: int| 0 <= k < self.keywords.len() ==> !(#[trigger] self.keywords[k]).contains(
            ',',
        )) && (forall|k: int|
            0 <= k < other.keywords.len() ==> !(#[trigger] other.keywords[k]).contains(',')) {
            if self.keywords.len() > 0 {
                splitting_undoes_joining(self.keywords, ',');
                splitting_undoes_joining(other.keywords, ',');
            } else {
                assert(self.keywords =~= other.keywords);
            }
        }
    }
}

} // verus!
