//! Tables: a grid of cell texts is rendered as a pipe table whose columns are
//! as wide as their widest cell.
//!
//! The width of a text is the number of bytes of its UTF-8 encoding.

use crate::text::{char_width, lemma_chars_deep_view, repeated, text_width};
use vstd::prelude::*;

verus! {

/// The number of columns of the first `n` rows: the length of the longest.
pub open spec fn column_count_to(rows: Seq<Seq<Seq<char>>>, n: int) -> nat
    decreases n,
{
    if n <= 0 || n > rows.len() {
        0
    } else if rows[n - 1].len() > column_count_to(rows, n - 1) {
        rows[n - 1].len()
    } else {
        column_count_to(rows, n - 1)
    }
}

/// The number of columns of a table: the length of its longest row.
pub open spec fn column_count(rows: Seq<Seq<Seq<char>>>) -> nat {
    column_count_to(rows, rows.len() as int)
}

/// The cell of `row` in column `col`; empty where the row is too short.
pub open spec fn cell_at(row: Seq<Seq<char>>, col: int) -> Seq<char> {
    if 0 <= col < row.len() {
        row[col]
    } else {
        Seq::empty()
    }
}

/// The width of column `col` over the first `n` rows: that of its widest cell.
pub open spec fn column_width_to(rows: Seq<Seq<Seq<char>>>, col: int, n: int) -> nat
    decreases n,
{
    if n <= 0 || n > rows.len() {
        0
    } else if text_width(cell_at(rows[n - 1], col)) > column_width_to(rows, col, n - 1) {
        text_width(cell_at(rows[n - 1], col))
    } else {
        column_width_to(rows, col, n - 1)
    }
}

/// The width of column `col` of a table: that of its widest cell.
pub open spec fn column_width(rows: Seq<Seq<Seq<char>>>, col: int) -> nat {
    column_width_to(rows, col, rows.len() as int)
}

/// How many spaces fill a text of width `used` up to `width`.
pub open spec fn padding(width: nat, used: nat) -> nat {
    if width >= used {
        (width - used) as nat
    } else {
        0
    }
}

/// One cell of a rendered row: a space, the text, the spaces that fill the
/// column, a space and a pipe.
pub open spec fn render_cell(cell: Seq<char>, width: nat) -> Seq<char> {
    seq![' '] + cell + repeated(' ', padding(width, text_width(cell))) + seq![' ', '|']
}

/// The cells of `row` from column `col` on, as the table `rows` lays them out.
pub open spec fn render_cells_from(row: Seq<Seq<char>>, rows: Seq<Seq<Seq<char>>>, col: int) -> Seq<
    char,
>
    decreases column_count(rows) - col,
{
    if !(0 <= col < column_count(rows)) {
        Seq::empty()
    } else {
        render_cell(cell_at(row, col), column_width(rows, col)) + render_cells_from(
            row,
            rows,
            col + 1,
        )
    }
}

/// One line of the table: a pipe, then a cell for every column of the table,
/// empty where the row is too short.
pub open spec fn render_row(row: Seq<Seq<char>>, rows: Seq<Seq<Seq<char>>>) -> Seq<char> {
    seq!['|'] + render_cells_from(row, rows, 0) + seq!['\n']
}

/// The cells of the rule under the header from column `col` on: dashes as wide
/// as the column.
pub open spec fn render_rule_from(rows: Seq<Seq<Seq<char>>>, col: int) -> Seq<char>
    decreases column_count(rows) - col,
{
    if !(0 <= col < column_count(rows)) {
        Seq::empty()
    } else {
        seq![' '] + repeated('-', column_width(rows, col)) + seq![' ', '|'] + render_rule_from(
            rows,
            col + 1,
        )
    }
}

/// The rule under the header.
pub open spec fn render_rule(rows: Seq<Seq<Seq<char>>>) -> Seq<char> {
    seq!['|'] + render_rule_from(rows, 0) + seq!['\n']
}

/// The lines of the rows from row `r` on.
pub open spec fn render_rows_from(rows: Seq<Seq<Seq<char>>>, r: int) -> Seq<char>
    decreases rows.len() - r,
{
    if !(0 <= r < rows.len()) {
        Seq::empty()
    } else {
        render_row(rows[r], rows) + render_rows_from(rows, r + 1)
    }
}

/// The table as text: the first row as the header, the rule, then the other
/// rows. Nothing for a table without rows.
pub open spec fn render_table(rows: Seq<Seq<Seq<char>>>) -> Seq<char> {
    if rows.len() == 0 {
        Seq::empty()
    } else {
        render_row(rows[0], rows) + render_rule(rows) + render_rows_from(rows, 1)
    }
}

/// How often `c` occurs in `s`.
pub open spec fn count_char(s: Seq<char>, c: char) -> nat
    decreases s.len(),
{
    if s.len() == 0 {
        0
    } else if s.last() == c {
        count_char(s.drop_last(), c) + 1
    } else {
        count_char(s.drop_last(), c)
    }
}

/// How often `c` occurs in the cells of `row` in the columns from `col` up to
/// `end`.
pub open spec fn count_in_cells(row: Seq<Seq<char>>, c: char, col: int, end: int) -> nat
    decreases end - col,
{
    if col >= end {
        0
    } else {
        count_char(cell_at(row, col), c) + count_in_cells(row, c, col + 1, end)
    }
}

/// A character occurs in two texts joined as often as in both together.
pub proof fn lemma_count_char_add(a: Seq<char>, b: Seq<char>, c: char)
    ensures
        count_char(a + b, c) == count_char(a, c) + count_char(b, c),
    decreases b.len(),
{
    if b.len() == 0 {
        assert(a + b == a);
    } else {
        assert((a + b).drop_last() == a + b.drop_last());
        assert((a + b).last() == b.last());
        lemma_count_char_add(a, b.drop_last(), c);
    }
}

/// How often a character occurs among copies of one character.
pub proof fn lemma_count_char_repeated(fill: char, n: nat, c: char)
    ensures
        count_char(repeated(fill, n), c) == if fill == c {
            n
        } else {
            0
        },
    decreases n,
{
    if n > 0 {
        assert(repeated(fill, n).drop_last() == repeated(fill, (n - 1) as nat));
        lemma_count_char_repeated(fill, (n - 1) as nat, c);
    }
}

/// How often a pipe occurs in the fixed parts of a line.
proof fn lemma_count_short()
    ensures
        count_char(seq![' '], '|') == 0,
        count_char(seq![' ', '|'], '|') == 1,
        count_char(seq!['|'], '|') == 1,
        count_char(seq!['\n'], '|') == 0,
{
    reveal_with_fuel(count_char, 3);
    assert(seq![' ', '|'].drop_last() == seq![' ']);
    assert(seq![' '].drop_last() == Seq::<char>::empty());
    assert(seq!['|'].drop_last() == Seq::<char>::empty());
    assert(seq!['\n'].drop_last() == Seq::<char>::empty());
}

/// The pipes in the cells of a line from column `col` on: one for each column,
/// and those that stand in the cells themselves.
proof fn lemma_pipes_in_cells(row: Seq<Seq<char>>, rows: Seq<Seq<Seq<char>>>, col: int)
    requires
        0 <= col <= column_count(rows),
    ensures
        count_char(render_cells_from(row, rows, col), '|') == (column_count(rows) - col)
            + count_in_cells(row, '|', col, column_count(rows) as int),
    decreases column_count(rows) - col,
{
    if col < column_count(rows) {
        let cell = cell_at(row, col);
        let fill = repeated(' ', padding(column_width(rows, col), text_width(cell)));
        let rest = render_cells_from(row, rows, col + 1);
        lemma_pipes_in_cells(row, rows, col + 1);
        lemma_count_short();
        lemma_count_char_repeated(' ', padding(column_width(rows, col), text_width(cell)), '|');
        lemma_count_char_add(seq![' '], cell, '|');
        lemma_count_char_add(seq![' '] + cell, fill, '|');
        lemma_count_char_add(seq![' '] + cell + fill, seq![' ', '|'], '|');
        lemma_count_char_add(render_cell(cell, column_width(rows, col)), rest, '|');
    }
}

/// The pipes in the rule from column `col` on: one for each column.
proof fn lemma_pipes_in_rule(rows: Seq<Seq<Seq<char>>>, col: int)
    requires
        0 <= col <= column_count(rows),
    ensures
        count_char(render_rule_from(rows, col), '|') == column_count(rows) - col,
    decreases column_count(rows) - col,
{
    if col < column_count(rows) {
        let dashes = repeated('-', column_width(rows, col));
        let rest = render_rule_from(rows, col + 1);
        lemma_pipes_in_rule(rows, col + 1);
        lemma_count_short();
        lemma_count_char_repeated('-', column_width(rows, col), '|');
        lemma_count_char_add(seq![' '], dashes, '|');
        lemma_count_char_add(seq![' '] + dashes, seq![' ', '|'], '|');
        lemma_count_char_add(seq![' '] + dashes + seq![' ', '|'], rest, '|');
    }
}

/// No row of a table is longer than the table has columns, and some row is
/// that long, unless the table has no rows.
pub proof fn lemma_column_count_is_max(rows: Seq<Seq<Seq<char>>>, n: int)
    requires
        0 <= n <= rows.len(),
    ensures
        forall|r: int| 0 <= r < n ==> (#[trigger] rows[r]).len() <= column_count_to(rows, n),
        n > 0 ==> exists|r: int|
            0 <= r < n && (#[trigger] rows[r]).len() == column_count_to(rows, n),
        n == 0 ==> column_count_to(rows, n) == 0,
    decreases n,
{
    if n > 0 {
        lemma_column_count_is_max(rows, n - 1);
        if rows[n - 1].len() > column_count_to(rows, n - 1) || n == 1 {
            assert(rows[n - 1].len() == column_count_to(rows, n));
        } else {
            let r = choose|r: int|
                0 <= r < n - 1 && (#[trigger] rows[r]).len() == column_count_to(rows, n - 1);
            assert(rows[r].len() == column_count_to(rows, n));
        }
    }
}

/// Every line of a rendered table has the same number of cells, which is the
/// length of the longest row: whatever the length of `row`, its line holds one
/// pipe at its start and one at the end of each column of the table, beside
/// the pipes that stand in the cells themselves; the rule holds one at its
/// start and one for each column.
pub proof fn theorem_lines_have_all_columns(rows: Seq<Seq<Seq<char>>>, row: Seq<Seq<char>>)
    ensures
        count_char(render_row(row, rows), '|') == 1 + column_count(rows) + count_in_cells(
            row,
            '|',
            0,
            column_count(rows) as int,
        ),
        count_char(render_rule(rows), '|') == 1 + column_count(rows),
        forall|r: int| 0 <= r < rows.len() ==> (#[trigger] rows[r]).len() <= column_count(rows),
        rows.len() > 0 ==> exists|r: int|
            0 <= r < rows.len() && (#[trigger] rows[r]).len() == column_count(rows),
{
    lemma_pipes_in_cells(row, rows, 0);
    lemma_pipes_in_rule(rows, 0);
    lemma_count_short();
    lemma_count_char_add(seq!['|'], render_cells_from(row, rows, 0), '|');
    lemma_count_char_add(seq!['|'] + render_cells_from(row, rows, 0), seq!['\n'], '|');
    lemma_count_char_add(seq!['|'], render_rule_from(rows, 0), '|');
    lemma_count_char_add(seq!['|'] + render_rule_from(rows, 0), seq!['\n'], '|');
    lemma_column_count_is_max(rows, rows.len() as int);
}

/// Two texts joined are as wide as both together.
pub proof fn lemma_text_width_add(a: Seq<char>, b: Seq<char>)
    ensures
        text_width(a + b) == text_width(a) + text_width(b),
    decreases b.len(),
{
    if b.len() == 0 {
        assert(a + b == a);
    } else {
        assert((a + b).drop_last() == a + b.drop_last());
        assert((a + b).last() == b.last());
        lemma_text_width_add(a, b.drop_last());
    }
}

/// Copies of one character are as wide as the character, times their number.
pub proof fn lemma_text_width_repeated(fill: char, n: nat)
    ensures
        text_width(repeated(fill, n)) == n * char_width(fill),
    decreases n,
{
    if n > 0 {
        assert(repeated(fill, n).drop_last() == repeated(fill, (n - 1) as nat));
        lemma_text_width_repeated(fill, (n - 1) as nat);
        assert(n * char_width(fill) == (n - 1) * char_width(fill) + char_width(fill))
            by (nonlinear_arith);
    } else {
        assert(0 * char_width(fill) == 0);
    }
}

/// The widths of the fixed parts of a line.
proof fn lemma_width_short()
    ensures
        text_width(seq![' ']) == 1,
        text_width(seq![' ', '|']) == 2,
        text_width(seq!['|']) == 1,
        text_width(seq!['\n']) == 1,
        char_width(' ') == 1,
        char_width('-') == 1,
{
    reveal_with_fuel(text_width, 3);
    assert(seq![' ', '|'].drop_last() == seq![' ']);
    assert(seq![' '].drop_last() == Seq::<char>::empty());
    assert(seq!['|'].drop_last() == Seq::<char>::empty());
    assert(seq!['\n'].drop_last() == Seq::<char>::empty());
}

/// A column is at least as wide as each of its cells.
pub proof fn lemma_cell_fits(rows: Seq<Seq<Seq<char>>>, r: int, col: int, n: int)
    requires
        0 <= r < n <= rows.len(),
    ensures
        text_width(cell_at(rows[r], col)) <= column_width_to(rows, col, n),
    decreases n,
{
    if r < n - 1 {
        lemma_cell_fits(rows, r, col, n - 1);
    }
}

/// The width of the columns from `col` on, each with the space before its
/// text and the space and the pipe after it.
pub open spec fn columns_width_from(rows: Seq<Seq<Seq<char>>>, col: int) -> nat
    decreases column_count(rows) - col,
{
    if !(0 <= col < column_count(rows)) {
        0
    } else {
        column_width(rows, col) + 3 + columns_width_from(rows, col + 1)
    }
}

/// The cells of the line of a row of the table, from column `col` on, are as
/// wide as the columns.
proof fn lemma_cells_width(rows: Seq<Seq<Seq<char>>>, r: int, col: int)
    requires
        0 <= r < rows.len(),
        0 <= col <= column_count(rows),
    ensures
        text_width(render_cells_from(rows[r], rows, col)) == columns_width_from(rows, col),
    decreases column_count(rows) - col,
{
    if col < column_count(rows) {
        let cell = cell_at(rows[r], col);
        let width = column_width(rows, col);
        let fill = repeated(' ', padding(width, text_width(cell)));
        let rest = render_cells_from(rows[r], rows, col + 1);
        lemma_cells_width(rows, r, col + 1);
        lemma_cell_fits(rows, r, col, rows.len() as int);
        lemma_width_short();
        lemma_text_width_repeated(' ', padding(width, text_width(cell)));
        lemma_text_width_add(seq![' '], cell);
        lemma_text_width_add(seq![' '] + cell, fill);
        lemma_text_width_add(seq![' '] + cell + fill, seq![' ', '|']);
        lemma_text_width_add(render_cell(cell, width), rest);
    }
}

/// The rule, from column `col` on, is as wide as the columns.
proof fn lemma_rule_width(rows: Seq<Seq<Seq<char>>>, col: int)
    requires
        0 <= col <= column_count(rows),
    ensures
        text_width(render_rule_from(rows, col)) == columns_width_from(rows, col),
    decreases column_count(rows) - col,
{
    if col < column_count(rows) {
        let dashes = repeated('-', column_width(rows, col));
        let rest = render_rule_from(rows, col + 1);
        lemma_rule_width(rows, col + 1);
        lemma_width_short();
        lemma_text_width_repeated('-', column_width(rows, col));
        lemma_text_width_add(seq![' '], dashes);
        lemma_text_width_add(seq![' '] + dashes, seq![' ', '|']);
        lemma_text_width_add(seq![' '] + dashes + seq![' ', '|'], rest);
    }
}

/// The lines of a rendered table are aligned: the line of every row of the
/// table is exactly as wide as the rule, so the pipes of a column stand one
/// below the other.
pub proof fn theorem_lines_are_aligned(rows: Seq<Seq<Seq<char>>>, r: int)
    requires
        0 <= r < rows.len(),
    ensures
        text_width(render_row(rows[r], rows)) == text_width(render_rule(rows)),
        text_width(render_rule(rows)) == 2 + columns_width_from(rows, 0),
{
    lemma_cells_width(rows, r, 0);
    lemma_rule_width(rows, 0);
    lemma_width_short();
    lemma_text_width_add(seq!['|'], render_cells_from(rows[r], rows, 0));
    lemma_text_width_add(seq!['|'] + render_cells_from(rows[r], rows, 0), seq!['\n']);
    lemma_text_width_add(seq!['|'], render_rule_from(rows, 0));
    lemma_text_width_add(seq!['|'] + render_rule_from(rows, 0), seq!['\n']);
}

/// The width of `v`.
pub fn width_of(v: &Vec<char>) -> (w: u128)
    ensures
        w == text_width(v@),
{
    let mut w: u128 = 0;
    let mut i: usize = 0;
    while i < v.len()
        invariant
            i <= v.len(),
            w == text_width(v@.take(i as int)),
            w <= 4 * i,
        decreases v.len() - i,
    {
        let u: u32 = v[i] as u32;
        let cw: u128 = if u < 0x80 {
            1
        } else if u < 0x800 {
            2
        } else if u < 0x10000 {
            3
        } else {
            4
        };
        assert(v@.take(i + 1).drop_last() == v@.take(i as int));
        assert(v@.take(i + 1).last() == v@[i as int]);
        assert(cw == char_width(v@[i as int]));
        w = w + cw;
        i += 1;
    }
    assert(v@.take(v.len() as int) == v@);
    w
}

/// Appends `n` copies of `c` to `buf`.
fn push_fill(buf: &mut Vec<char>, c: char, n: u128)
    ensures
        final(buf)@ == old(buf)@ + repeated(c, n as nat),
{
    let mut i: u128 = 0;
    while i < n
        invariant
            i <= n,
            buf@ == old(buf)@ + repeated(c, i as nat),
        decreases n - i,
    {
        buf.push(c);
        i += 1;
    }
}

/// The views of a table in memory and of its rows and cells agree.
pub proof fn lemma_table_view(rows: Vec<Vec<Vec<char>>>)
    ensures
        rows.deep_view().len() == rows@.len(),
        forall|r: int|
            0 <= r < rows@.len() ==> (#[trigger] rows.deep_view()[r]) == rows@[r].deep_view(),
        forall|r: int|
            0 <= r < rows@.len() ==> (#[trigger] rows.deep_view()[r]).len() == rows@[r]@.len(),
        forall|r: int, c: int|
            0 <= r < rows@.len() && 0 <= c < rows@[r]@.len() ==> (
            #[trigger] rows.deep_view()[r][c]) == rows@[r]@[c]@,
{
    assert forall|r: int, c: int| 0 <= r < rows@.len() && 0 <= c < rows@[r]@.len() implies (
    #[trigger] rows.deep_view()[r][c]) == rows@[r]@[c]@ by {
        lemma_chars_deep_view(rows@[r]@[c]);
    }
}

/// The views of a row in memory and of its cells agree.
pub proof fn lemma_row_view(row: Vec<Vec<char>>)
    ensures
        row.deep_view().len() == row@.len(),
        forall|c: int| 0 <= c < row@.len() ==> (#[trigger] row.deep_view()[c]) == row@[c]@,
{
    assert forall|c: int| 0 <= c < row@.len() implies (#[trigger] row.deep_view()[c])
        == row@[c]@ by {
        lemma_chars_deep_view(row@[c]);
    }
}

/// The number of columns of `rows`.
fn count_columns(rows: &Vec<Vec<Vec<char>>>) -> (n: usize)
    ensures
        n == column_count(rows.deep_view()),
{
    let mut n: usize = 0;
    let mut r: usize = 0;
    proof {
        lemma_table_view(*rows);
    }
    while r < rows.len()
        invariant
            r <= rows.len(),
            n == column_count_to(rows.deep_view(), r as int),
            rows.deep_view().len() == rows@.len(),
            forall|k: int|
                0 <= k < rows@.len() ==> (#[trigger] rows.deep_view()[k]).len() == rows@[k]@.len(),
        decreases rows.len() - r,
    {
        if rows[r].len() > n {
            n = rows[r].len();
        }
        r += 1;
    }
    n
}

/// The widths of the columns of `rows`.
fn measure_columns(rows: &Vec<Vec<Vec<char>>>) -> (widths: Vec<u128>)
    ensures
        widths.len() == column_count(rows.deep_view()),
        forall|c: int|
            0 <= c < widths.len() ==> (#[trigger] widths[c]) == column_width(rows.deep_view(), c),
{
    let count = count_columns(rows);
    let mut widths: Vec<u128> = Vec::new();
    let mut c: usize = 0;
    proof {
        lemma_table_view(*rows);
    }
    while c < count
        invariant
            c <= count,
            widths.len() == c,
            forall|k: int|
                0 <= k < c ==> (#[trigger] widths[k]) == column_width(rows.deep_view(), k),
            rows.deep_view().len() == rows@.len(),
            forall|r: int|
                0 <= r < rows@.len() ==> (#[trigger] rows.deep_view()[r]).len() == rows@[r]@.len(),
            forall|r: int, k: int|
                0 <= r < rows@.len() && 0 <= k < rows@[r]@.len() ==> (
                #[trigger] rows.deep_view()[r][k]) == rows@[r]@[k]@,
        decreases count - c,
    {
        let mut w: u128 = 0;
        let mut r: usize = 0;
        while r < rows.len()
            invariant
                r <= rows.len(),
                w == column_width_to(rows.deep_view(), c as int, r as int),
                rows.deep_view().len() == rows@.len(),
                forall|r: int|
                    0 <= r < rows@.len() ==> (#[trigger] rows.deep_view()[r]).len()
                        == rows@[r]@.len(),
                forall|r: int, k: int|
                    0 <= r < rows@.len() && 0 <= k < rows@[r]@.len() ==> (
                    #[trigger] rows.deep_view()[r][k]) == rows@[r]@[k]@,
            decreases rows.len() - r,
        {
            if c < rows[r].len() {
                let cw = width_of(&rows[r][c]);
                assert(cell_at(rows.deep_view()[r as int], c as int) == rows@[r as int]@[c as int]@);
                if cw > w {
                    w = cw;
                }
            } else {
                assert(cell_at(rows.deep_view()[r as int], c as int) == Seq::<char>::empty());
            }
            r += 1;
        }
        widths.push(w);
        c += 1;
    }
    widths
}

/// Appends the line of `row`, laid out in columns of the given widths.
fn push_row(
    out: &mut Vec<char>,
    row: &Vec<Vec<char>>,
    widths: &Vec<u128>,
    Ghost(rows): Ghost<Seq<Seq<Seq<char>>>>,
)
    requires
        widths.len() == column_count(rows),
        forall|c: int| 0 <= c < widths.len() ==> (#[trigger] widths[c]) == column_width(rows, c),
    ensures
        final(out)@ == old(out)@ + render_row(row.deep_view(), rows),
{
    out.push('|');
    let ghost start = out@;
    let mut c: usize = 0;
    proof {
        lemma_row_view(*row);
    }
    while c < widths.len()
        invariant
            c <= widths.len(),
            widths.len() == column_count(rows),
            forall|k: int|
                0 <= k < widths.len() ==> (#[trigger] widths[k]) == column_width(rows, k),
            row.deep_view().len() == row@.len(),
            forall|k: int| 0 <= k < row@.len() ==> (#[trigger] row.deep_view()[k]) == row@[k]@,
            out@ + render_cells_from(row.deep_view(), rows, c as int) == start + render_cells_from(
                row.deep_view(),
                rows,
                0,
            ),
        decreases widths.len() - c,
    {
        let ghost before = out@;
        let ghost rest = render_cells_from(row.deep_view(), rows, c as int);
        let ghost cell = cell_at(row.deep_view(), c as int);
        out.push(' ');
        if c < row.len() {
            let used = width_of(&row[c]);
            crate::text::push_chars(out, &row[c]);
            let fill: u128 = if widths[c] >= used {
                widths[c] - used
            } else {
                0
            };
            push_fill(out, ' ', fill);
        } else {
            assert(text_width(cell) == 0);
            push_fill(out, ' ', widths[c]);
        }
        out.push(' ');
        out.push('|');
        assert(out@ == before + render_cell(cell, column_width(rows, c as int)));
        c += 1;
        assert(out@ + render_cells_from(row.deep_view(), rows, c as int) == before + rest);
    }
    assert(out@ + Seq::<char>::empty() == out@);
    out.push('\n');
    assert(out@ == old(out)@ + render_row(row.deep_view(), rows));
}

/// Appends the rule under the header.
fn push_rule(out: &mut Vec<char>, widths: &Vec<u128>, Ghost(rows): Ghost<Seq<Seq<Seq<char>>>>)
    requires
        widths.len() == column_count(rows),
        forall|c: int| 0 <= c < widths.len() ==> (#[trigger] widths[c]) == column_width(rows, c),
    ensures
        final(out)@ == old(out)@ + render_rule(rows),
{
    out.push('|');
    let ghost start = out@;
    let mut c: usize = 0;
    while c < widths.len()
        invariant
            c <= widths.len(),
            widths.len() == column_count(rows),
            forall|k: int|
                0 <= k < widths.len() ==> (#[trigger] widths[k]) == column_width(rows, k),
            out@ + render_rule_from(rows, c as int) == start + render_rule_from(rows, 0),
        decreases widths.len() - c,
    {
        let ghost before = out@;
        let ghost rest = render_rule_from(rows, c as int);
        out.push(' ');
        push_fill(out, '-', widths[c]);
        out.push(' ');
        out.push('|');
        assert(out@ == before + (seq![' '] + repeated('-', column_width(rows, c as int)) + seq![
            ' ',
            '|',
        ]));
        c += 1;
        assert(out@ + render_rule_from(rows, c as int) == before + rest);
    }
    assert(out@ + Seq::<char>::empty() == out@);
    out.push('\n');
    assert(out@ == old(out)@ + render_rule(rows));
}

/// Appends the table `rows` as text to `out`.
pub fn write_table(out: &mut Vec<char>, rows: &Vec<Vec<Vec<char>>>)
    ensures
        final(out)@ == old(out)@ + render_table(rows.deep_view()),
{
    proof {
        lemma_table_view(*rows);
    }
    if rows.len() == 0 {
        assert(out@ == old(out)@ + Seq::<char>::empty());
        return;
    }
    let widths = measure_columns(rows);
    let ghost view = rows.deep_view();
    push_row(out, &rows[0], &widths, Ghost(view));
    push_rule(out, &widths, Ghost(view));
    let ghost start = out@;
    let mut r: usize = 1;
    while r < rows.len()
        invariant
            1 <= r <= rows.len(),
            view == rows.deep_view(),
            view.len() == rows@.len(),
            forall|k: int| 0 <= k < rows@.len() ==> (#[trigger] view[k]) == rows@[k].deep_view(),
            widths.len() == column_count(view),
            forall|c: int|
                0 <= c < widths.len() ==> (#[trigger] widths[c]) == column_width(view, c),
            out@ + render_rows_from(view, r as int) == start + render_rows_from(view, 1),
        decreases rows.len() - r,
    {
        let ghost before = out@;
        let ghost rest = render_rows_from(view, r as int);
        push_row(out, &rows[r], &widths, Ghost(view));
        r += 1;
        assert(out@ + render_rows_from(view, r as int) == before + rest);
    }
    assert(out@ + Seq::<char>::empty() == out@);
    assert(out@ == old(out)@ + (render_row(view[0], view) + render_rule(view) + render_rows_from(
        view,
        1,
    )));
}

} // verus!
