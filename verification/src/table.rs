//! Tables of text.

use vstd::prelude::*;
use vstd::string::*;
use vstd::utf8::encode_utf8;

use crate::text::{join, joined, replace_char, replaced, to_chars, truncate_chars, truncated, views};

verus! {

/// The most characters that a cell shows.
pub const CELL_LIMIT: usize = 120;

/// The cells of each row of a list.
pub open spec fn cell_views(rows: Seq<Vec<String>>) -> Seq<Seq<Seq<char>>> {
    rows.map_values(|row: Vec<String>| views(row@))
}

/// What a cell shows: on one line, and not more than the limit.
pub open spec fn shown(cell: Seq<char>) -> Seq<char> {
    truncated(replaced(cell, '\n', ' '), CELL_LIMIT as nat)
}

/// What the cells of a row show.
pub open spec fn shown_cells(row: Seq<Seq<char>>) -> Seq<Seq<char>> {
    row.map_values(|cell: Seq<char>| shown(cell))
}

/// `n` times the character `c`.
pub open spec fn repeated(c: char, n: nat) -> Seq<char> {
    Seq::new(n, |i: int| c)
}

/// `text` with spaces behind it, up to `width` characters.
pub open spec fn padded(text: Seq<char>, width: nat) -> Seq<char> {
    if text.len() >= width {
        text
    } else {
        text + repeated(' ', (width - text.len()) as nat)
    }
}

/// The width of the column `c` in a table of the first `n` rows: that of the widest cell, and at
/// least as many characters as the header has bytes.
pub open spec fn column_width(
    headers: Seq<Seq<char>>,
    rows: Seq<Seq<Seq<char>>>,
    n: nat,
    c: int,
) -> nat
    decreases n,
{
    if n == 0 {
        encode_utf8(headers[c]).len()
    } else {
        let before = column_width(headers, rows, (n - 1) as nat, c);
        let row = rows[n - 1];
        if c < row.len() && shown(row[c]).len() > before {
            shown(row[c]).len()
        } else {
            before
        }
    }
}

/// The widths of the columns.
pub open spec fn column_widths(headers: Seq<Seq<char>>, rows: Seq<Seq<Seq<char>>>) -> Seq<nat> {
    Seq::new(headers.len(), |c: int| column_width(headers, rows, rows.len(), c))
}

/// The cells side by side, each as wide as its column.
pub open spec fn line(cells: Seq<Seq<char>>, widths: Seq<nat>) -> Seq<char> {
    joined(Seq::new(cells.len(), |c: int| padded(cells[c], widths[c])), "  "@)
}

/// The line under the headers.
pub open spec fn rule(widths: Seq<nat>) -> Seq<char> {
    joined(widths.map_values(|w: nat| repeated('-', w)), "  "@)
}

/// The lines of a table.
pub open spec fn table(headers: Seq<Seq<char>>, rows: Seq<Seq<Seq<char>>>) -> Seq<Seq<char>> {
    if rows.len() == 0 {
        seq!["(none)"@]
    } else {
        let widths = column_widths(headers, rows);
        seq![line(headers, widths), rule(widths)] + rows.map_values(
            |row: Seq<Seq<char>>| line(shown_cells(row), widths),
        )
    }
}

fn char_count(text: &str) -> (n: usize)
    ensures
        n == text@.len(),
{
    to_chars(text).len()
}

fn repeat_char(c: char, n: usize) -> (text: String)
    ensures
        text@ == repeated(c, n as nat),
{
    let mut text = String::new();
    let mut i: usize = 0;
    while i < n
        invariant
            i <= n,
            text@ == repeated(c, i as nat),
        decreases n - i,
    {
        text.push(c);
        i = i + 1;
        assert(text@ =~= repeated(c, i as nat));
    }
    text
}

fn pad(text: &str, width: usize) -> (wide: String)
    ensures
        wide@ == padded(text@, width as nat),
{
    let n = char_count(text);
    let mut wide = text.to_owned();
    if n < width {
        let spaces = repeat_char(' ', width - n);
        wide.append(spaces.as_str());
    }
    wide
}

fn show(cell: &str) -> (text: String)
    ensures
        text@ == shown(cell@),
{
    let flat = replace_char(cell, '\n', ' ');
    truncate_chars(flat.as_str(), CELL_LIMIT)
}

fn show_all(row: &Vec<String>) -> (cells: Vec<String>)
    ensures
        views(cells@) == shown_cells(views(row@)),
        cells@.len() == row@.len(),
{
    let mut cells: Vec<String> = Vec::new();
    let mut i: usize = 0;
    while i < row.len()
        invariant
            i <= row@.len(),
            cells@.len() == i,
            forall|j: int| 0 <= j < i ==> (#[trigger] cells@[j])@ == shown(row@[j]@),
        decreases row.len() - i,
    {
        cells.push(show(row[i].as_str()));
        i = i + 1;
    }
    assert(views(cells@) =~= shown_cells(views(row@)));
    cells
}

fn width_of(headers: &Vec<String>, rows: &Vec<Vec<String>>, c: usize) -> (width: usize)
    requires
        c < headers@.len(),
    ensures
        width == column_width(views(headers@), cell_views(rows@), rows@.len(), c as int),
{
    let ghost texts = cell_views(rows@);
    let mut width: usize = headers[c].as_str().as_bytes().len();
    let mut n: usize = 0;
    while n < rows.len()
        invariant
            c < headers@.len(),
            n <= rows@.len(),
            texts == cell_views(rows@),
            width == column_width(views(headers@), texts, n as nat, c as int),
        decreases rows.len() - n,
    {
        assert(texts[n as int] == views(rows@[n as int]@));
        if c < rows[n].len() {
            let text = show(rows[n][c].as_str());
            assert(texts[n as int][c as int] == rows@[n as int]@[c as int]@);
            let wide = char_count(text.as_str());
            if wide > width {
                width = wide;
            }
        }
        n = n + 1;
    }
    width
}

/// The widths as natural numbers.
spec fn naturals(widths: Seq<usize>) -> Seq<nat> {
    widths.map_values(|w: usize| w as nat)
}

fn widths_of(headers: &Vec<String>, rows: &Vec<Vec<String>>) -> (widths: Vec<usize>)
    ensures
        naturals(widths@) == column_widths(views(headers@), cell_views(rows@)),
{
    let mut widths: Vec<usize> = Vec::new();
    let mut c: usize = 0;
    while c < headers.len()
        invariant
            c <= headers@.len(),
            widths@.len() == c,
            forall|j: int|
                0 <= j < c ==> #[trigger] widths@[j] == column_width(
                    views(headers@),
                    cell_views(rows@),
                    rows@.len(),
                    j,
                ),
        decreases headers.len() - c,
    {
        widths.push(width_of(headers, rows, c));
        c = c + 1;
    }
    assert(naturals(widths@) =~= column_widths(views(headers@), cell_views(rows@)));
    widths
}

fn line_of(cells: &Vec<String>, widths: &Vec<usize>) -> (text: String)
    requires
        cells@.len() <= widths@.len(),
    ensures
        text@ == line(views(cells@), naturals(widths@)),
{
    let mut parts: Vec<String> = Vec::new();
    let mut c: usize = 0;
    while c < cells.len()
        invariant
            c <= cells@.len() <= widths@.len(),
            parts@.len() == c,
            forall|j: int|
                0 <= j < c ==> (#[trigger] parts@[j])@ == padded(cells@[j]@, widths@[j] as nat),
        decreases cells.len() - c,
    {
        parts.push(pad(cells[c].as_str(), widths[c]));
        c = c + 1;
    }
    assert(views(parts@) =~= Seq::new(
        views(cells@).len(),
        |c: int| padded(views(cells@)[c], naturals(widths@)[c]),
    ));
    join(&parts, "  ")
}

fn rule_of(widths: &Vec<usize>) -> (text: String)
    ensures
        text@ == rule(naturals(widths@)),
{
    let mut parts: Vec<String> = Vec::new();
    let mut c: usize = 0;
    while c < widths.len()
        invariant
            c <= widths@.len(),
            parts@.len() == c,
            forall|j: int|
                0 <= j < c ==> (#[trigger] parts@[j])@ == repeated('-', widths@[j] as nat),
        decreases widths.len() - c,
    {
        parts.push(repeat_char('-', widths[c]));
        c = c + 1;
    }
    assert(views(parts@) =~= naturals(widths@).map_values(|w: nat| repeated('-', w)));
    join(&parts, "  ")
}

/// The lines of a table. No row has more cells than there are headers.
pub fn table_lines(headers: &Vec<String>, rows: &Vec<Vec<String>>) -> (lines: Vec<String>)
    requires
        forall|r: int| 0 <= r < rows@.len() ==> (#[trigger] rows@[r])@.len() <= headers@.len(),
    ensures
        views(lines@) == table(views(headers@), cell_views(rows@)),
{
    let mut lines: Vec<String> = Vec::new();
    if rows.len() == 0 {
        lines.push("(none)".to_owned());
        assert(views(lines@) =~= seq!["(none)"@]);
        return lines;
    }
    let widths = widths_of(headers, rows);
    let ghost wide = column_widths(views(headers@), cell_views(rows@));
    assert(widths@.len() == naturals(widths@).len());
    lines.push(line_of(headers, &widths));
    lines.push(rule_of(&widths));
    let mut r: usize = 0;
    while r < rows.len()
        invariant
            r <= rows@.len(),
            widths@.len() == headers@.len(),
            naturals(widths@) == wide,
            forall|r: int| 0 <= r < rows@.len() ==> (#[trigger] rows@[r])@.len() <= headers@.len(),
            lines@.len() == r + 2,
            lines@[0]@ == line(views(headers@), wide),
            lines@[1]@ == rule(wide),
            forall|j: int|
                2 <= j < r + 2 ==> (#[trigger] lines@[j])@ == line(
                    shown_cells(views(rows@[j - 2]@)),
                    wide,
                ),
        decreases rows.len() - r,
    {
        let cells = show_all(&rows[r]);
        lines.push(line_of(&cells, &widths));
        r = r + 1;
    }
    assert(views(lines@) =~= table(views(headers@), cell_views(rows@))) by {
        let texts = cell_views(rows@);
        let expected = table(views(headers@), texts);
        assert forall|j: int| 0 <= j < lines@.len() implies #[trigger] views(lines@)[j]
            == expected[j] by {
            if j >= 2 {
                assert(texts[j - 2] == views(rows@[j - 2]@));
                assert(lines@[j]@ == line(shown_cells(texts[j - 2]), wide));
            }
        }
    }
    lines
}

proof fn lemma_column_width_fits(
    headers: Seq<Seq<char>>,
    rows: Seq<Seq<Seq<char>>>,
    n: nat,
    r: int,
    c: int,
)
    requires
        0 <= r < n <= rows.len(),
        0 <= c < headers.len(),
        c < rows[r].len(),
    ensures
        shown(rows[r][c]).len() <= column_width(headers, rows, n, c),
    decreases n,
{
    if r < n - 1 {
        lemma_column_width_fits(headers, rows, (n - 1) as nat, r, c);
    }
}

proof fn lemma_column_width_fits_header(
    headers: Seq<Seq<char>>,
    rows: Seq<Seq<Seq<char>>>,
    n: nat,
    c: int,
)
    ensures
        encode_utf8(headers[c]).len() <= column_width(headers, rows, n, c),
    decreases n,
{
    if n > 0 {
        lemma_column_width_fits_header(headers, rows, (n - 1) as nat, c);
    }
}

/// The cells of a column stand under each other: each is filled up to exactly the width of its
/// column, whatever it holds.
pub proof fn columns_are_aligned(
    headers: Seq<Seq<char>>,
    rows: Seq<Seq<Seq<char>>>,
    r: int,
    c: int,
)
    requires
        0 <= r < rows.len(),
        0 <= c < headers.len(),
        c < rows[r].len(),
    ensures
        padded(shown(rows[r][c]), column_widths(headers, rows)[c]).len() == column_widths(
            headers,
            rows,
        )[c],
        encode_utf8(headers[c]).len() <= column_widths(headers, rows)[c],
{
    lemma_column_width_fits(headers, rows, rows.len(), r, c);
    lemma_column_width_fits_header(headers, rows, rows.len(), c);
}

/// What a cell shows stands on one line and holds no more characters than the limit.
pub proof fn cells_stand_on_one_line(cell: Seq<char>)
    ensures
        shown(cell).len() <= CELL_LIMIT,
        !shown(cell).contains('\n'),
{
}

} // verus!
