//! What holds of the text primitives, said of the characters themselves.

use vstd::prelude::*;

use crate::text::{
    blank, decimal, has_prefix, joined, lines_of, replaced, split_on, text_le, text_or, trimmed,
    trimmed_end, trimmed_start, truncated, white_space, without_cr,
};

verus! {

/// The characters of white space, one by one: the six of ASCII, and those that stand for a space or
/// an end of a line elsewhere.
pub open spec fn spaces() -> Seq<char> {
    seq![
        '\t', '\n', '\u{b}', '\u{c}', '\r', ' ', '\u{85}', '\u{a0}', '\u{1680}', '\u{2000}',
        '\u{2001}', '\u{2002}', '\u{2003}', '\u{2004}', '\u{2005}', '\u{2006}', '\u{2007}',
        '\u{2008}', '\u{2009}', '\u{200a}', '\u{2028}', '\u{2029}', '\u{202f}', '\u{205f}',
        '\u{3000}',
    ]
}

/// A character is white space exactly where it is one of those.
pub proof fn white_space_is_listed(c: char)
    ensures
        white_space(c) <==> spaces().contains(c),
{
    let n = c as u32;
    if white_space(c) {
        let k: int = if n <= 0xd {
            n - 9
        } else if n == 0x20 {
            5
        } else if n == 0x85 {
            6
        } else if n == 0xa0 {
            7
        } else if n == 0x1680 {
            8
        } else if n <= 0x200a {
            n - 0x2000 + 9
        } else if n == 0x2028 {
            20
        } else if n == 0x2029 {
            21
        } else if n == 0x202f {
            22
        } else if n == 0x205f {
            23
        } else {
            24
        };
        assert(spaces()[k] == c);
    }
}

/// Trimming cuts white space off the two ends, all of it there and nothing else: what is left
/// stands in the text from the one place to the other, and neither begins nor ends with white
/// space.
pub proof fn trimming_cuts_the_ends(s: Seq<char>) -> (ends: (int, int))
    ensures
        0 <= ends.0 <= ends.1 <= s.len(),
        trimmed(s) == s.subrange(ends.0, ends.1),
        forall|k: int| 0 <= k < ends.0 ==> white_space(#[trigger] s[k]),
        forall|k: int| ends.1 <= k < s.len() ==> white_space(#[trigger] s[k]),
        ends.0 < ends.1 ==> !white_space(s[ends.0]) && !white_space(s[ends.1 - 1]),
{
    let i = lemma_trimmed_start(s);
    let t = s.skip(i);
    let j = lemma_trimmed_end(t);
    assert(t.take(j) =~= s.subrange(i, i + j));
    assert forall|k: int| i + j <= k < s.len() implies white_space(#[trigger] s[k]) by {
        assert(t[k - i] == s[k]);
    }
    if j > 0 {
        assert(t[0] == s[i] && t[j - 1] == s[i + j - 1]);
        if i == s.len() {
            assert(t.len() == 0);
        }
    }
    (i, i + j)
}

proof fn lemma_trimmed_start(s: Seq<char>) -> (i: int)
    ensures
        0 <= i <= s.len(),
        trimmed_start(s) == s.skip(i),
        forall|k: int| 0 <= k < i ==> white_space(#[trigger] s[k]),
        i < s.len() ==> !white_space(s[i]),
    decreases s.len(),
{
    if s.len() > 0 && white_space(s[0]) {
        let t = s.drop_first();
        let j = lemma_trimmed_start(t);
        assert(t.skip(j) =~= s.skip(j + 1));
        assert forall|k: int| 0 <= k < j + 1 implies white_space(#[trigger] s[k]) by {
            if k > 0 {
                assert(t[k - 1] == s[k]);
            }
        }
        if j < t.len() {
            assert(t[j] == s[j + 1]);
        }
        j + 1
    } else {
        assert(s.skip(0) =~= s);
        0
    }
}

proof fn lemma_trimmed_end(s: Seq<char>) -> (j: int)
    ensures
        0 <= j <= s.len(),
        trimmed_end(s) == s.take(j),
        forall|k: int| j <= k < s.len() ==> white_space(#[trigger] s[k]),
        j > 0 ==> !white_space(s[j - 1]),
    decreases s.len(),
{
    if s.len() > 0 && white_space(s.last()) {
        let t = s.drop_last();
        let j = lemma_trimmed_end(t);
        assert(t.take(j) =~= s.take(j));
        assert forall|k: int| j <= k < s.len() implies white_space(#[trigger] s[k]) by {
            if k < t.len() {
                assert(t[k] == s[k]);
            }
        }
        if j > 0 {
            assert(t[j - 1] == s[j - 1]);
        }
        j
    } else {
        assert(s.take(s.len() as int) =~= s);
        s.len() as int
    }
}

/// A text is blank exactly where no character of it is anything but white space.
pub proof fn blank_texts_show_nothing(s: Seq<char>)
    ensures
        blank(s) <==> !exists|i: int| 0 <= i < s.len() && !white_space(#[trigger] s[i]),
{
}

/// A text gives way to its stand-in exactly where it shows nothing.
pub proof fn stand_ins_are_for_blank_texts(value: Seq<char>, fallback: Seq<char>)
    ensures
        (exists|i: int| 0 <= i < value.len() && !white_space(#[trigger] value[i])) ==> text_or(
            value,
            fallback,
        ) == value,
        (forall|i: int| 0 <= i < value.len() ==> white_space(#[trigger] value[i])) ==> text_or(
            value,
            fallback,
        ) == fallback,
{
}

/// A text begins with another exactly where it is the other with something behind it.
pub proof fn prefixes_stand_in_front(s: Seq<char>, prefix: Seq<char>)
    ensures
        has_prefix(s, prefix) <==> prefix.len() <= s.len() && forall|i: int|
            0 <= i < prefix.len() ==> #[trigger] s[i] == prefix[i],
        has_prefix(prefix + s, prefix),
{
    if prefix.len() <= s.len() && forall|i: int|
        0 <= i < prefix.len() ==> #[trigger] s[i] == prefix[i] {
        assert(s.take(prefix.len() as int) =~= prefix);
    }
    if has_prefix(s, prefix) {
        assert forall|i: int| 0 <= i < prefix.len() implies #[trigger] s[i] == prefix[i] by {
            assert(s.take(prefix.len() as int)[i] == s[i]);
        }
    }
    assert((prefix + s).take(prefix.len() as int) =~= prefix);
}

/// One text comes no later than another exactly where it is the beginning of the other, or has the
/// lower character at the first place where the two differ.
pub proof fn texts_are_ordered_by_the_first_difference(a: Seq<char>, b: Seq<char>)
    ensures
        text_le(a, b) <==> (a.len() <= b.len() && forall|i: int|
            0 <= i < a.len() ==> #[trigger] a[i] == b[i]) || exists|d: int|
            0 <= d < a.len() && d < b.len() && #[trigger] a[d] < b[d] && forall|i: int|
                0 <= i < d ==> #[trigger] a[i] == b[i],
    decreases a.len(),
{
    let prefix = a.len() <= b.len() && forall|i: int| 0 <= i < a.len() ==> #[trigger] a[i] == b[i];
    let less = exists|d: int|
        0 <= d < a.len() && d < b.len() && #[trigger] a[d] < b[d] && forall|i: int|
            0 <= i < d ==> #[trigger] a[i] == b[i];
    if a.len() > 0 && b.len() > 0 && a[0] == b[0] {
        let x = a.drop_first();
        let y = b.drop_first();
        texts_are_ordered_by_the_first_difference(x, y);
        if text_le(x, y) {
            if x.len() <= y.len() && forall|i: int| 0 <= i < x.len() ==> #[trigger] x[i] == y[i] {
                assert forall|i: int| 0 <= i < a.len() implies #[trigger] a[i] == b[i] by {
                    if i > 0 {
                        assert(x[i - 1] == a[i] && y[i - 1] == b[i]);
                    }
                }
                assert(prefix);
            } else {
                let d = choose|d: int|
                    0 <= d < x.len() && d < y.len() && #[trigger] x[d] < y[d] && forall|i: int|
                        0 <= i < d ==> #[trigger] x[i] == y[i];
                assert(a[d + 1] < b[d + 1]);
                assert forall|i: int| 0 <= i < d + 1 implies #[trigger] a[i] == b[i] by {
                    if i > 0 {
                        assert(x[i - 1] == a[i] && y[i - 1] == b[i]);
                    }
                }
                assert(less);
            }
        }
        if prefix {
            assert forall|i: int| 0 <= i < x.len() implies #[trigger] x[i] == y[i] by {
                assert(a[i + 1] == b[i + 1]);
            }
        }
        if less {
            let d = choose|d: int|
                0 <= d < a.len() && d < b.len() && #[trigger] a[d] < b[d] && forall|i: int|
                    0 <= i < d ==> #[trigger] a[i] == b[i];
            assert(d > 0);
            assert(x[d - 1] < y[d - 1]);
            assert forall|i: int| 0 <= i < d - 1 implies #[trigger] x[i] == y[i] by {
                assert(a[i + 1] == b[i + 1]);
            }
        }
    } else if a.len() > 0 && b.len() > 0 {
        if a[0] < b[0] {
            assert(less);
        }
        if less {
            let d = choose|d: int|
                0 <= d < a.len() && d < b.len() && #[trigger] a[d] < b[d] && forall|i: int|
                    0 <= i < d ==> #[trigger] a[i] == b[i];
            if d > 0 {
                assert(a[0] == b[0]);
            }
        }
    }
}

/// Texts are joined one behind the other, with the separator only between them.
pub proof fn joining_adds_the_next_text(
    parts: Seq<Seq<char>>,
    next: Seq<char>,
    separator: Seq<char>,
)
    ensures
        joined(Seq::empty(), separator) == Seq::<char>::empty(),
        joined(seq![next], separator) == next,
        parts.len() > 0 ==> joined(parts.push(next), separator) == joined(parts, separator)
            + separator + next,
{
    assert(parts.push(next).drop_last() =~= parts);
}

proof fn lemma_split_plain(p: Seq<char>, separator: char)
    requires
        !p.contains(separator),
    ensures
        split_on(p, separator) == seq![p],
    decreases p.len(),
{
    if p.len() == 0 {
        assert(p =~= Seq::empty());
    } else {
        let q = p.drop_last();
        assert forall|i: int| 0 <= i < q.len() implies q[i] != separator by {
            assert(p[i] == q[i]);
            assert(p.contains(p[i]));
        }
        lemma_split_plain(q, separator);
        assert(p.contains(p.last()));
        assert(seq![q].drop_last() =~= Seq::empty());
        assert(q.push(p.last()) =~= p);
        assert(split_on(p, separator) =~= seq![p]);
    }
}

proof fn lemma_split_behind(s: Seq<char>, separator: char, p: Seq<char>)
    requires
        !p.contains(separator),
    ensures
        split_on(s + seq![separator] + p, separator) == split_on(s, separator).push(p),
    decreases p.len(),
{
    let whole = s + seq![separator] + p;
    if p.len() == 0 {
        assert(whole.drop_last() =~= s);
        assert(whole.last() == separator);
        assert(p =~= Seq::empty());
    } else {
        let q = p.drop_last();
        assert forall|i: int| 0 <= i < q.len() implies q[i] != separator by {
            assert(p[i] == q[i]);
            assert(p.contains(p[i]));
        }
        lemma_split_behind(s, separator, q);
        assert(p.contains(p.last()));
        assert(whole.drop_last() =~= s + seq![separator] + q);
        assert(whole.last() == p.last());
        let before = split_on(s, separator).push(q);
        assert(before.drop_last() =~= split_on(s, separator));
        assert(q.push(p.last()) =~= p);
    }
}

/// Texts that lack the separator, joined by it, split into the same texts again.
pub proof fn splitting_undoes_joining(pieces: Seq<Seq<char>>, separator: char)
    requires
        pieces.len() > 0,
        forall|k: int| 0 <= k < pieces.len() ==> !(#[trigger] pieces[k]).contains(separator),
    ensures
        split_on(joined(pieces, seq![separator]), separator) == pieces,
    decreases pieces.len(),
{
    if pieces.len() == 1 {
        lemma_split_plain(pieces[0], separator);
        assert(pieces =~= seq![pieces[0]]);
    } else {
        let rest = pieces.drop_last();
        assert forall|k: int| 0 <= k < rest.len() implies !(#[trigger] rest[k]).contains(
            separator,
        ) by {
            assert(rest[k] == pieces[k]);
        }
        splitting_undoes_joining(rest, separator);
        assert(pieces.last() == pieces[pieces.len() - 1]);
        lemma_split_behind(joined(rest, seq![separator]), separator, pieces.last());
        assert(rest.push(pieces.last()) =~= pieces);
    }
}

/// Whether a text can be a line: it holds no newline and does not end with a carriage return.
pub open spec fn one_line(line: Seq<char>) -> bool {
    !line.contains('\n') && (line.len() > 0 ==> line[line.len() - 1] != '\r')
}

/// Lines that are written one behind the other read back as the same lines, whether each ends with
/// a newline or the last goes without.
pub proof fn lines_read_back(lines: Seq<Seq<char>>)
    requires
        lines.len() > 0,
        forall|k: int| 0 <= k < lines.len() ==> one_line(#[trigger] lines[k]),
    ensures
        lines_of(joined(lines, seq!['\n']).push('\n')) == lines,
        lines[lines.len() - 1].len() > 0 ==> lines_of(joined(lines, seq!['\n'])) == lines,
        lines_of(Seq::empty()) == Seq::<Seq<char>>::empty(),
{
    let text = joined(lines, seq!['\n']);
    splitting_undoes_joining(lines, '\n');
    assert(split_on(Seq::<char>::empty(), '\n') =~= seq![Seq::<char>::empty()]);
    assert(lines_of(Seq::empty()) =~= Seq::<Seq<char>>::empty());
    let ended = text.push('\n');
    assert(ended.drop_last() =~= text);
    assert(split_on(ended, '\n') =~= lines.push(Seq::empty()));
    assert(lines.push(Seq::empty()).drop_last() =~= lines);
    assert(lines.map_values(|piece: Seq<char>| without_cr(piece)) =~= lines);
    assert(lines_of(ended) =~= lines);
    if lines[lines.len() - 1].len() > 0 {
        let rest = lines.drop_last();
        assert(rest.map_values(|piece: Seq<char>| without_cr(piece)) =~= rest) by {
            assert forall|k: int| 0 <= k < rest.len() implies without_cr(#[trigger] rest[k])
                == rest[k] by {
                assert(rest[k] == lines[k]);
            }
        }
        assert(rest.push(lines.last()) =~= lines);
    }
}

/// A carriage return before the newline is no part of the line.
pub proof fn carriage_returns_end_lines(text: Seq<char>, line: Seq<char>)
    requires
        one_line(line),
        text.len() > 0 ==> text[text.len() - 1] == '\n',
    ensures
        lines_of(text + line + seq!['\r', '\n']) == lines_of(text + line + seq!['\n']),
        lines_of(text + line + seq!['\n']) == lines_of(text).push(line),
{
    let cr = line.push('\r');
    assert(!cr.contains('\n')) by {
        assert forall|i: int| 0 <= i < cr.len() implies cr[i] != '\n' by {
            if i < line.len() {
                assert(line.contains(line[i]));
            }
        }
    }
    let s = text.drop_last();
    let one = text + line + seq!['\n'];
    let two = text + line + seq!['\r', '\n'];
    assert(one.drop_last() =~= text + line);
    assert(two.drop_last() =~= text + cr);
    let before = if text.len() == 0 {
        Seq::<Seq<char>>::empty()
    } else {
        split_on(s, '\n')
    };
    if text.len() == 0 {
        assert(text + line =~= line);
        assert(text + cr =~= cr);
        lemma_split_plain(line, '\n');
        lemma_split_plain(cr, '\n');
        assert(before.push(line) =~= seq![line]);
        assert(before.push(cr) =~= seq![cr]);
        assert(split_on(text, '\n') =~= before.push(Seq::empty()));
    } else {
        assert(text + line =~= s + seq!['\n'] + line);
        assert(text + cr =~= s + seq!['\n'] + cr);
        lemma_split_behind(s, '\n', line);
        lemma_split_behind(s, '\n', cr);
        assert(split_on(text, '\n') =~= before.push(Seq::empty()));
    }
    let cut = |piece: Seq<char>| without_cr(piece);
    assert(before.push(Seq::empty()).drop_last() =~= before);
    assert(before.push(line).push(Seq::empty()).drop_last() =~= before.push(line));
    assert(before.push(cr).push(Seq::empty()).drop_last() =~= before.push(cr));
    assert(cr.drop_last() =~= line);
    assert(before.push(line).map_values(cut) =~= before.map_values(cut).push(line));
    assert(before.push(cr).map_values(cut) =~= before.map_values(cut).push(line));
    assert(split_on(one, '\n') =~= before.push(line).push(Seq::empty()));
    assert(split_on(two, '\n') =~= before.push(cr).push(Seq::empty()));
}

/// The number that decimal digits spell.
pub open spec fn spelled(digits: Seq<char>) -> int
    decreases digits.len(),
{
    if digits.len() == 0 {
        0
    } else {
        spelled(digits.drop_last()) * 10 + (digits[digits.len() - 1] as int - '0' as int)
    }
}

/// A number is written in decimal digits that spell it, without needless zeros in front.
pub proof fn decimals_spell_the_number(n: nat)
    ensures
        spelled(decimal(n)) == n,
        decimal(n).len() > 0,
        forall|i: int| 0 <= i < decimal(n).len() ==> '0' <= #[trigger] decimal(n)[i] <= '9',
        decimal(n).len() > 1 ==> decimal(n)[0] != '0',
    decreases n,
{
    if n < 10 {
        assert(decimal(n).drop_last() =~= Seq::empty());
        assert(decimal(n)[0] == (48 + n) as char);
        reveal_with_fuel(spelled, 2);
    } else {
        decimals_spell_the_number(n / 10);
        let front = decimal(n / 10);
        assert(decimal(n).drop_last() =~= front);
        assert(decimal(n)[front.len() as int] == (48 + n % 10) as char);
        lemma_first_digit(n);
    }
}

proof fn lemma_first_digit(n: nat)
    requires
        n > 0,
    ensures
        decimal(n).len() > 0,
        decimal(n)[0] != '0',
    decreases n,
{
    if n < 10 {
        assert(decimal(n)[0] == (48 + n) as char);
    } else {
        lemma_first_digit(n / 10);
        assert(decimal(n)[0] == decimal(n / 10)[0]);
    }
}

/// Different numbers are written differently.
pub proof fn decimals_tell_numbers_apart(m: nat, n: nat)
    requires
        decimal(m) == decimal(n),
    ensures
        m == n,
{
    decimals_spell_the_number(m);
    decimals_spell_the_number(n);
}

/// Replacing a character changes every occurrence of it and nothing else.
pub proof fn replacing_changes_that_character(s: Seq<char>, from: char, to: char)
    ensures
        replaced(s, from, to).len() == s.len(),
        forall|i: int|
            0 <= i < s.len() ==> #[trigger] replaced(s, from, to)[i] == if s[i] == from {
                to
            } else {
                s[i]
            },
{
}

/// A shortened text is the beginning of the text, as long as the limit allows.
pub proof fn shortened_texts_are_beginnings(s: Seq<char>, limit: nat)
    ensures
        truncated(s, limit).len() == if s.len() <= limit {
            s.len()
        } else {
            limit
        },
        forall|i: int|
            0 <= i < s.len() && i < limit ==> #[trigger] truncated(s, limit)[i] == s[i],
{
}

} // verus!
