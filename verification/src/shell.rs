//! Shell quoting shared by everything that prints a command, and the keyword-window default.

use vstd::prelude::*;
use vstd::string::*;

use crate::text::{joined, split_on, to_chars};

verus! {

pub const DEFAULT_KEYWORD_WINDOW_SECS: u64 = 30;

/// The keyword window where none is given: [`DEFAULT_KEYWORD_WINDOW_SECS`].
pub fn default_keyword_window_secs() -> (secs: u64)
    ensures
        secs == DEFAULT_KEYWORD_WINDOW_SECS,
        secs == 30,
{
    DEFAULT_KEYWORD_WINDOW_SECS
}

/// Whether a shell takes `c` literally wherever it stands in an argument: an ASCII letter or digit,
/// or one of `_@%+=:,./-`.
pub open spec fn safe_char(c: char) -> bool {
    ||| 'a' <= c <= 'z'
    ||| 'A' <= c <= 'Z'
    ||| '0' <= c <= '9'
    ||| c == '_' || c == '@' || c == '%' || c == '+' || c == '=' || c == ':' || c == ',' || c == '.'
        || c == '/' || c == '-'
}

/// Whether `s` can go without quotes.
pub open spec fn safe_text(s: Seq<char>) -> bool {
    s.len() > 0 && forall|i: int| 0 <= i < s.len() ==> safe_char(#[trigger] s[i])
}

/// `c` as it stands inside single quotes: a single quote closes them, stands escaped, and opens
/// them again.
pub open spec fn escaped_char(c: char) -> Seq<char> {
    if c == '\'' {
        seq!['\'', '\\', '\'', '\'']
    } else {
        seq![c]
    }
}

/// `s` as it stands inside single quotes.
pub open spec fn escaped(s: Seq<char>) -> Seq<char>
    decreases s.len(),
{
    if s.len() == 0 {
        Seq::empty()
    } else {
        escaped(s.drop_last()) + escaped_char(s.last())
    }
}

/// `s` as one shell word: as it is where that is safe, else in single quotes.
pub open spec fn quoted(s: Seq<char>) -> Seq<char> {
    if safe_text(s) {
        s
    } else {
        seq!['\''] + escaped(s) + seq!['\'']
    }
}

fn is_safe_char(c: char) -> (yes: bool)
    ensures
        yes == safe_char(c),
{
    let n = c as u32;
    (97 <= n && n <= 122) || (65 <= n && n <= 90) || (48 <= n && n <= 57) || c == '_' || c == '@'
        || c == '%' || c == '+' || c == '=' || c == ':' || c == ',' || c == '.' || c == '/' || c
        == '-'
}

fn is_safe_text(chars: &Vec<char>) -> (yes: bool)
    ensures
        yes == safe_text(chars@),
{
    let mut i: usize = 0;
    while i < chars.len()
        invariant
            i <= chars@.len(),
            forall|j: int| 0 <= j < i ==> safe_char(#[trigger] chars@[j]),
        decreases chars.len() - i,
    {
        if !is_safe_char(chars[i]) {
            assert(!safe_char(chars@[i as int]));
            return false;
        }
        i = i + 1;
    }
    chars.len() > 0
}

/// `value` as one shell word: as it is where every character is an ASCII letter or digit or one of
/// `_@%+=:,./-`, else in single quotes, with `'\''` for each single quote.
pub fn shell_quote(value: &str) -> (word: String)
    ensures
        word@ == quoted(value@),
{
    let chars = to_chars(value);
    if is_safe_text(&chars) {
        value.to_owned()
    } else {
        let mut word = String::new();
        word.push('\'');
        let mut i: usize = 0;
        while i < chars.len()
            invariant
                i <= chars@.len(),
                word@ == seq!['\''] + escaped(chars@.take(i as int)),
            decreases chars.len() - i,
        {
            let ghost done = chars@.take(i as int);
            assert(chars@.take(i + 1).drop_last() == done);
            if chars[i] == '\'' {
                word.push('\'');
                word.push('\\');
                word.push('\'');
                word.push('\'');
            } else {
                word.push(chars[i]);
            }
            assert(word@ == seq!['\''] + (escaped(done) + escaped_char(chars@[i as int])));
            i = i + 1;
        }
        assert(chars@.take(i as int) == chars@);
        word.push('\'');
        assert(word@ == quoted(value@));
        word
    }
}

/// How far a POSIX shell has come in a command line that is being read into words.
pub enum ReadMode {
    /// Between two words.
    Between,
    /// In a word, outside quotes.
    Bare,
    /// In a word, inside single quotes.
    Quoted,
    /// In a word, behind a backslash outside quotes.
    Escape,
    /// At a character that is more than text to a shell: an operator, an expansion, a pattern.
    Special,
}

/// The words that have been read and the word that is being read.
#[verifier::ext_equal]
pub struct ShellReader {
    pub words: Seq<Seq<char>>,
    pub word: Seq<char>,
    pub mode: ReadMode,
}

/// Whether `c`, unquoted, is more than text to a POSIX shell.
pub open spec fn special_char(c: char) -> bool {
    ||| c == '|' || c == '&' || c == ';' || c == '<' || c == '>' || c == '(' || c == ')'
    ||| c == '$' || c == '`' || c == '"' || c == '\n'
    ||| c == '*' || c == '?' || c == '[' || c == ']' || c == '#' || c == '~'
    ||| c == '{' || c == '}' || c == '!'
}

impl ShellReader {
    /// Before the first character of a command line.
    pub open spec fn start() -> ShellReader {
        ShellReader { words: Seq::empty(), word: Seq::empty(), mode: ReadMode::Between }
    }

    /// Reads one character.
    pub open spec fn step(self, c: char) -> ShellReader {
        match self.mode {
            ReadMode::Special => self,
            ReadMode::Quoted => if c == '\'' {
                ShellReader { mode: ReadMode::Bare, ..self }
            } else {
                ShellReader { word: self.word.push(c), ..self }
            },
            ReadMode::Escape => if c == '\n' {
                ShellReader { mode: ReadMode::Special, ..self }
            } else {
                ShellReader { word: self.word.push(c), mode: ReadMode::Bare, ..self }
            },
            ReadMode::Between | ReadMode::Bare => {
                let word = if self.mode is Between {
                    Seq::empty()
                } else {
                    self.word
                };
                if c == ' ' || c == '\t' {
                    if self.mode is Between {
                        self
                    } else {
                        ShellReader { words: self.words.push(word), mode: ReadMode::Between, ..self }
                    }
                } else if c == '\'' {
                    ShellReader { word, mode: ReadMode::Quoted, ..self }
                } else if c == '\\' {
                    ShellReader { word, mode: ReadMode::Escape, ..self }
                } else if special_char(c) {
                    ShellReader { mode: ReadMode::Special, ..self }
                } else {
                    ShellReader { word: word.push(c), mode: ReadMode::Bare, ..self }
                }
            },
        }
    }

    /// Reads the characters of `s`.
    pub open spec fn read(self, s: Seq<char>) -> ShellReader
        decreases s.len(),
    {
        if s.len() == 0 {
            self
        } else {
            self.read(s.drop_last()).step(s.last())
        }
    }

    /// The words of the command line, where it ends here; nothing where a quote or an escape is
    /// still open or the line is more than words.
    pub open spec fn finish(self) -> Option<Seq<Seq<char>>> {
        match self.mode {
            ReadMode::Between => Some(self.words),
            ReadMode::Bare => Some(self.words.push(self.word)),
            _ => None,
        }
    }
}

/// The words that a POSIX shell reads in `line`, where it is words alone.
pub open spec fn shell_words(line: Seq<char>) -> Option<Seq<Seq<char>>> {
    ShellReader::start().read(line).finish()
}

proof fn lemma_read_concat(r: ShellReader, a: Seq<char>, b: Seq<char>)
    ensures
        r.read(a + b) == r.read(a).read(b),
    decreases b.len(),
{
    if b.len() == 0 {
        assert(a + b == a);
    } else {
        assert((a + b).drop_last() == a + b.drop_last());
        lemma_read_concat(r, a, b.drop_last());
    }
}

proof fn lemma_read_push(r: ShellReader, a: Seq<char>, c: char)
    ensures
        r.read(a.push(c)) == r.read(a).step(c),
{
    assert(a.push(c).drop_last() == a);
}

proof fn lemma_read_safe(r: ShellReader, s: Seq<char>)
    requires
        r.mode is Between,
        safe_text(s),
    ensures
        r.read(s) == (ShellReader { word: s, mode: ReadMode::Bare, ..r }),
    decreases s.len(),
{
    let t = s.drop_last();
    assert(safe_char(s[s.len() - 1]));
    if t.len() > 0 {
        assert forall|i: int| 0 <= i < t.len() implies safe_char(#[trigger] t[i]) by {
            assert(t[i] == s[i]);
        }
        lemma_read_safe(r, t);
        assert(t.push(s.last()) == s);
    } else {
        assert(r.read(t) == r);
        assert(Seq::<char>::empty().push(s.last()) == s);
    }
}

proof fn lemma_read_escaped(r: ShellReader, s: Seq<char>)
    requires
        r.mode is Quoted,
    ensures
        r.read(escaped(s)) == (ShellReader { word: r.word + s, ..r }),
    decreases s.len(),
{
    if s.len() == 0 {
        assert(r.word + s == r.word);
    } else {
        let t = s.drop_last();
        let c = s.last();
        lemma_read_escaped(r, t);
        let e = escaped(t);
        let q = r.read(e);
        assert(r.word + s == (r.word + t).push(c));
        if c == '\'' {
            let a = e.push('\'');
            let b = a.push('\\');
            let d = b.push('\'');
            assert(escaped(s) == d.push('\''));
            lemma_read_push(r, e, '\'');
            lemma_read_push(r, a, '\\');
            lemma_read_push(r, b, '\'');
            lemma_read_push(r, d, '\'');
        } else {
            assert(escaped(s) == e.push(c));
            lemma_read_push(r, e, c);
        }
    }
}

proof fn lemma_read_quoted(r: ShellReader, s: Seq<char>)
    requires
        r.mode is Between,
    ensures
        r.read(quoted(s)) == (ShellReader { word: s, mode: ReadMode::Bare, ..r }),
{
    if safe_text(s) {
        lemma_read_safe(r, s);
    } else {
        let open = seq!['\''];
        assert(open == Seq::<char>::empty().push('\''));
        lemma_read_push(r, Seq::empty(), '\'');
        assert(r.read(Seq::empty()) == r);
        let q = r.read(open);
        lemma_read_concat(r, open, escaped(s));
        lemma_read_escaped(q, s);
        assert(q.word + s == s);
        assert(quoted(s) == (open + escaped(s)).push('\''));
        lemma_read_push(r, open + escaped(s), '\'');
    }
}

/// A shell reads a quoted text as one word, and that word is the text.
pub proof fn shell_reads_quoted_text_back(s: Seq<char>)
    ensures
        shell_words(quoted(s)) == Some(seq![s]),
{
    lemma_read_quoted(ShellReader::start(), s);
    assert(Seq::<Seq<char>>::empty().push(s) == seq![s]);
}

/// The command line of the arguments `args`: each quoted, with a space between each and the next.
pub open spec fn command_line(args: Seq<Seq<char>>) -> Seq<char> {
    joined(args.map_values(|arg: Seq<char>| quoted(arg)), seq![' '])
}

proof fn lemma_read_command_line(args: Seq<Seq<char>>)
    requires
        args.len() > 0,
    ensures
        ShellReader::start().read(command_line(args)) == (ShellReader {
            words: args.drop_last(),
            word: args.last(),
            mode: ReadMode::Bare,
        }),
    decreases args.len(),
{
    let r = ShellReader::start();
    let words = args.map_values(|arg: Seq<char>| quoted(arg));
    let before = args.drop_last();
    assert(words.last() == quoted(args.last()));
    if before.len() == 0 {
        lemma_read_quoted(r, args.last());
        assert(before == Seq::<Seq<char>>::empty());
    } else {
        lemma_read_command_line(before);
        assert(words.drop_last() == before.map_values(|arg: Seq<char>| quoted(arg)));
        let head = command_line(before);
        lemma_read_push(r, head, ' ');
        assert(head + seq![' '] == head.push(' '));
        let q = r.read(head.push(' '));
        assert(before.drop_last().push(before.last()) == before);
        lemma_read_quoted(q, args.last());
        lemma_read_concat(r, head.push(' '), quoted(args.last()));
    }
}

/// A shell reads a command line of quoted arguments as exactly those arguments.
pub proof fn shell_reads_command_line_back(args: Seq<Seq<char>>)
    ensures
        shell_words(command_line(args)) == Some(args),
{
    if args.len() > 0 {
        lemma_read_command_line(args);
        assert(args.drop_last().push(args.last()) == args);
    } else {
        assert(args =~= Seq::empty());
        assert(command_line(args) == Seq::<char>::empty());
    }
}

/// A text goes without quotes exactly where it is not empty and every character is an ASCII letter or
/// digit or one of `_@%+=:,./-`. Every other text stands in single quotes, its pieces between single
/// quotes as they are, with `'\''` between each and the next.
pub proof fn quotes_stand_where_they_are_needed(s: Seq<char>)
    ensures
        s.len() > 0 && (forall|i: int|
            0 <= i < s.len() ==> 'a' <= #[trigger] s[i] <= 'z' || 'A' <= s[i] <= 'Z' || '0' <= s[i]
                <= '9' || "_@%+=:,./-"@.contains(s[i])) ==> quoted(s) == s,
        s.len() == 0 || (exists|i: int|
            0 <= i < s.len() && !('a' <= #[trigger] s[i] <= 'z' || 'A' <= s[i] <= 'Z' || '0' <= s[i]
                <= '9' || "_@%+=:,./-"@.contains(s[i]))) ==> quoted(s) == seq!['\''] + joined(
            split_on(s, '\''),
            seq!['\'', '\\', '\'', '\''],
        ) + seq!['\''],
{
    let extra = "_@%+=:,./-"@;
    reveal_strlit("_@%+=:,./-");
    assert(extra.len() == 10);
    assert(extra[0] == '_' && extra[1] == '@' && extra[2] == '%' && extra[3] == '+' && extra[4]
        == '=' && extra[5] == ':' && extra[6] == ',' && extra[7] == '.' && extra[8] == '/'
        && extra[9] == '-');
    assert forall|c: char| safe_char(c) == ('a' <= c <= 'z' || 'A' <= c <= 'Z' || '0' <= c <= '9'
        || #[trigger] extra.contains(c)) by {
        if extra.contains(c) {
            let k = extra.index_of(c);
            assert(extra[k] == c);
        }
        if c == '_' || c == '@' || c == '%' || c == '+' || c == '=' || c == ':' || c == ',' || c
            == '.' || c == '/' || c == '-' {
            assert(exists|k: int| 0 <= k < extra.len() && extra[k] == c);
        }
    }
    if s.len() > 0 && (forall|i: int|
        0 <= i < s.len() ==> 'a' <= #[trigger] s[i] <= 'z' || 'A' <= s[i] <= 'Z' || '0' <= s[i]
            <= '9' || extra.contains(s[i])) {
        assert forall|i: int| 0 <= i < s.len() implies safe_char(#[trigger] s[i]) by {
            assert(extra.contains(s[i]) || !extra.contains(s[i]));
        }
    }
    if exists|i: int|
        0 <= i < s.len() && !('a' <= #[trigger] s[i] <= 'z' || 'A' <= s[i] <= 'Z' || '0' <= s[i]
            <= '9' || extra.contains(s[i])) {
        let i = choose|i: int|
            0 <= i < s.len() && !('a' <= #[trigger] s[i] <= 'z' || 'A' <= s[i] <= 'Z' || '0'
                <= s[i] <= '9' || extra.contains(s[i]));
        assert(!safe_char(s[i]));
    }
    lemma_escaped_is_joined(s);
}

proof fn lemma_escaped_is_joined(s: Seq<char>)
    ensures
        escaped(s) == joined(split_on(s, '\''), seq!['\'', '\\', '\'', '\'']),
        split_on(s, '\'').len() > 0,
    decreases s.len(),
{
    let separator = seq!['\'', '\\', '\'', '\''];
    let all = split_on(s, '\'');
    if s.len() == 0 {
        assert(escaped(s) =~= joined(all, separator));
    } else {
        let before = split_on(s.drop_last(), '\'');
        lemma_escaped_is_joined(s.drop_last());
        if s.last() == '\'' {
            assert(all.drop_last() =~= before);
        } else {
            assert(all.drop_last() =~= before.drop_last());
            if before.len() == 1 {
                assert(before.last() == before[0]);
            }
        }
        assert(escaped(s) =~= joined(all, separator));
    }
}

} // verus!
