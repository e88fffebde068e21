//! What holds of tables: every cell stands in its line, under the heading of its column.

use vstd::prelude::*;
use crate::properties::{bytes_outnumber_characters, columns_fit, joined_width, table_width};
use crate::table::{
    cell_at, column_widths, dashes, padded_cells, row_lines, rows_view, table_line, table_text,
    width_view,
};
use crate::text::{joined, padded, repeated, texts};

verus! {

/// Where column `c` starts in every line.
pub open spec fn column_start(widths: Seq<nat>, c: int) -> nat {
    if c == 0 {
        0
    } else {
        table_width(widths.take(c)) + 2
    }
}

/// No row lacks a column that is empty throughout.
pub open spec fn rows_fit(headings: Seq<Seq<char>>, rows: Seq<Seq<Seq<char>>>) -> bool {
    forall|i: int, c: int|
        0 <= i < rows.len() && (#[trigger] rows[i]).len() <= c < headings.len() ==> (
        #[trigger] column_widths(headings, rows)[c]) >= 1
}

/// The cells of a line of a table: the headings, the dashes, then the rows.
spec fn line_cells(headings: Seq<Seq<char>>, rows: Seq<Seq<Seq<char>>>, k: int) -> Seq<Seq<char>> {
    let widths = column_widths(headings, rows);
    if k == 0 {
        padded_cells(headings, widths)
    } else if k == 1 {
        dashes(widths)
    } else {
        padded_cells(rows[k - 2], widths)
    }
}

spec fn cells_fill(cells: Seq<Seq<char>>, widths: Seq<nat>) -> bool {
    &&& cells.len() == widths.len()
    &&& forall|c: int| 0 <= c < cells.len() ==> (#[trigger] cells[c]).len() == widths[c]
}

proof fn joined_cell(cells: Seq<Seq<char>>, widths: Seq<nat>, c: int)
    requires
        cells_fill(cells, widths),
        0 <= c < cells.len(),
    ensures
        column_start(widths, c) + widths[c] <= joined(cells, "  "@).len(),
        joined(cells, "  "@).subrange(
            column_start(widths, c) as int,
            (column_start(widths, c) + widths[c]) as int,
        ) == cells[c],
        c > 0 ==> joined(cells, "  "@).subrange(
            column_start(widths, c) - 2,
            column_start(widths, c) as int,
        ) == "  "@,
    decreases cells.len(),
{
    reveal_strlit("  ");
    let all = joined(cells, "  "@);
    let at = column_start(widths, c) as int;
    joined_width(cells, widths);
    if cells.len() == 1 {
        assert(all.subrange(at, at + widths[c]) =~= cells[c]);
    } else {
        let front = cells.drop_last();
        let w = widths.drop_last();
        assert(cells_fill(front, w)) by {
            assert forall|k: int| 0 <= k < front.len() implies (#[trigger] front[k]).len()
                == w[k] by {
                assert(front[k] == cells[k]);
            }
        }
        joined_width(front, w);
        if c == cells.len() - 1 {
            assert(widths.take(c) =~= w);
            assert(all.subrange(at, at + widths[c]) =~= cells[c]);
            assert(all.subrange(at - 2, at) =~= "  "@);
        } else {
            joined_cell(front, w, c);
            assert(w.take(c) =~= widths.take(c));
            let part = joined(front, "  "@);
            assert(all.subrange(at, at + widths[c]) =~= part.subrange(at, at + widths[c]));
            if c > 0 {
                assert(all.subrange(at - 2, at) =~= part.subrange(at - 2, at));
            }
        }
    }
}

proof fn lines_fill(headings: Seq<Seq<char>>, rows: Seq<Seq<Seq<char>>>, k: int)
    requires
        rows_fit(headings, rows),
        0 <= k < rows.len() + 2,
    ensures
        cells_fill(line_cells(headings, rows, k), column_widths(headings, rows)),
        table_line(line_cells(headings, rows, k)).len() == table_width(
            column_widths(headings, rows),
        ) + 1,
{
    let widths = column_widths(headings, rows);
    let cells = line_cells(headings, rows, k);
    reveal_strlit("\n");
    reveal_strlit("-");
    assert forall|c: int| 0 <= c < cells.len() implies (#[trigger] cells[c]).len()
        == widths[c] by {
        columns_fit(headings, rows, c);
        if k == 0 {
            bytes_outnumber_characters(headings[c]);
        } else if k > 1 {
            let row = rows[k - 2];
            if c < row.len() {
                bytes_outnumber_characters(row[c]);
                assert(crate::text::byte_len(rows[k - 2][c]) <= widths[c]);
            } else {
                assert(column_widths(headings, rows)[c] >= 1);
            }
            assert(cell_at(row, c).len() <= widths[c]);
        }
    }
    joined_width(cells, widths);
}

/// Lines of one length, one after the other.
spec fn stacked(lines: Seq<Seq<char>>) -> Seq<char>
    decreases lines.len(),
{
    if lines.len() == 0 {
        Seq::empty()
    } else {
        stacked(lines.drop_last()) + lines.last()
    }
}

proof fn stacked_line(lines: Seq<Seq<char>>, length: nat, k: int)
    requires
        forall|i: int| 0 <= i < lines.len() ==> (#[trigger] lines[i]).len() == length,
        0 <= k < lines.len(),
    ensures
        stacked(lines).len() == lines.len() * length,
        0 <= k * length <= (k + 1) * length <= lines.len() * length,
        (k + 1) * length == k * length + length,
        stacked(lines).subrange(k * length, (k + 1) * length) == lines[k],
    decreases lines.len(),
{
    let front = lines.drop_last();
    let n = lines.len() as int;
    assert(n * length == (n - 1) * length + length) by (nonlinear_arith);
    assert((k + 1) * length == k * length + length) by (nonlinear_arith);
    assert(0 <= k * length <= (k + 1) * length <= n * length) by (nonlinear_arith)
        requires
            0 <= k < n,
            length >= 0,
    ;
    assert forall|i: int| 0 <= i < front.len() implies (#[trigger] front[i]).len() == length by {
        assert(front[i] == lines[i]);
    }
    assert(lines.last().len() == length);
    if front.len() > 0 {
        stacked_line(front, length, 0);
    } else {
        assert(0 * length == 0) by (nonlinear_arith);
    }
    assert(stacked(front).len() == (n - 1) * length);
    if k == n - 1 {
        assert(stacked(lines).subrange(k * length, (k + 1) * length) =~= lines[k]);
    } else {
        stacked_line(front, length, k);
        assert((k + 1) * length <= (n - 1) * length) by (nonlinear_arith)
            requires
                k + 1 <= n - 1,
                length >= 0,
        ;
        assert(stacked(lines).subrange(k * length, (k + 1) * length) =~= stacked(front).subrange(
            k * length,
            (k + 1) * length,
        ));
    }
}

spec fn all_lines(headings: Seq<Seq<char>>, rows: Seq<Seq<Seq<char>>>, n: nat) -> Seq<Seq<char>> {
    Seq::new(n, |k: int| table_line(line_cells(headings, rows, k)))
}

proof fn rows_are_stacked(headings: Seq<Seq<char>>, rows: Seq<Seq<Seq<char>>>, n: nat)
    requires
        n <= rows.len(),
    ensures
        stacked(all_lines(headings, rows, n + 2)) == table_line(
            padded_cells(headings, column_widths(headings, rows)),
        ) + table_line(dashes(column_widths(headings, rows))) + row_lines(
            rows.take(n as int),
            column_widths(headings, rows),
        ),
    decreases n,
{
    let widths = column_widths(headings, rows);
    let lines = all_lines(headings, rows, n + 2);
    if n == 0 {
        reveal_with_fuel(stacked, 3);
        assert(lines.drop_last().drop_last() =~= Seq::empty());
        assert(lines.drop_last().last() == lines[0]);
        assert(row_lines(rows.take(0), widths) =~= Seq::empty());
        assert(stacked(lines) =~= table_line(padded_cells(headings, widths)) + table_line(
            dashes(widths),
        ) + row_lines(rows.take(0), widths));
    } else {
        rows_are_stacked(headings, rows, (n - 1) as nat);
        assert(lines.drop_last() =~= all_lines(headings, rows, (n + 1) as nat));
        assert(rows.take(n as int).drop_last() =~= rows.take(n - 1));
        assert(lines.last() == table_line(padded_cells(rows[n - 1], widths)));
        assert(stacked(lines) =~= table_line(padded_cells(headings, widths)) + table_line(
            dashes(widths),
        ) + row_lines(rows.take(n as int), widths));
    }
}

/// A table has a line of headings, a line of dashes and a line for every row, all equally long.
/// In the line of row `i`, the cell of column `c` stands where the heading of the column stands
/// in the first line and as many dashes in the second, filled up with spaces, or a dash where the
/// row is too short. Two spaces stand between two columns, and a line ends behind the last one.
pub proof fn cells_stand_in_their_columns(
    headings: Seq<Seq<char>>,
    rows: Seq<Seq<Seq<char>>>,
    i: int,
    c: int,
)
    requires
        rows_fit(headings, rows),
        0 <= i < rows.len(),
        0 <= c < headings.len(),
    ensures
        ({
            let text = table_text(headings, rows);
            let widths = column_widths(headings, rows);
            let length = (table_width(widths) + 1) as int;
            let at = column_start(widths, c) as int;
            let width = widths[c] as int;
            let line = (i + 2) * length;
            let cell = if c < rows[i].len() {
                rows[i][c]
            } else {
                "-"@
            };
            &&& text.len() == (rows.len() + 2) * length
            &&& at + width < length
            &&& 0 <= line <= text.len() - length
            &&& cell.len() <= width
            &&& headings[c].len() <= width
            &&& text.subrange(at, at + width) == padded(headings[c], width as nat)
            &&& text.subrange(length + at, length + at + width) == repeated('-', width as nat)
            &&& text.subrange(line + at, line + at + width) == padded(cell, width as nat)
            &&& c > 0 ==> at >= 2 && text.subrange(at - 2, at) == "  "@ && text.subrange(
                line + at - 2,
                line + at,
            ) == "  "@
            &&& c == headings.len() - 1 ==> at + width == length - 1
            &&& text[line + length - 1] == '\n'
        }),
{
    let widths = column_widths(headings, rows);
    let length = (table_width(widths) + 1) as int;
    cell_in_text(headings, rows, 0, c);
    cell_in_text(headings, rows, 1, c);
    cell_in_text(headings, rows, i + 2, c);
    assert(0 * length == 0 && 1 * length == length) by (nonlinear_arith);
    columns_fit(headings, rows, c);
    bytes_outnumber_characters(headings[c]);
    reveal_strlit("-");
    if c < rows[i].len() {
        bytes_outnumber_characters(rows[i][c]);
        assert(crate::text::byte_len(rows[i][c]) <= widths[c]);
    } else {
        assert(column_widths(headings, rows)[c] >= 1);
    }
    if c == headings.len() - 1 {
        assert(widths.take(c) =~= widths.drop_last());
    }
}

proof fn cell_in_text(headings: Seq<Seq<char>>, rows: Seq<Seq<Seq<char>>>, k: int, c: int)
    requires
        rows_fit(headings, rows),
        0 <= k < rows.len() + 2,
        0 <= c < headings.len(),
    ensures
        ({
            let text = table_text(headings, rows);
            let widths = column_widths(headings, rows);
            let length = (table_width(widths) + 1) as int;
            let at = column_start(widths, c) as int;
            let width = widths[c] as int;
            let line = k * length;
            &&& text.len() == (rows.len() + 2) * length
            &&& at + width < length
            &&& 0 <= line <= text.len() - length
            &&& text.subrange(line + at, line + at + width) == line_cells(headings, rows, k)[c]
            &&& c > 0 ==> at >= 2 && text.subrange(line + at - 2, line + at) == "  "@
            &&& text[line + length - 1] == '\n'
        }),
{
    let text = table_text(headings, rows);
    let widths = column_widths(headings, rows);
    let length = table_width(widths) + 1;
    let n = rows.len();
    let lines = all_lines(headings, rows, n + 2);
    rows_are_stacked(headings, rows, n);
    assert(rows.take(n as int) =~= rows);
    assert forall|j: int| 0 <= j < lines.len() implies (#[trigger] lines[j]).len() == length by {
        lines_fill(headings, rows, j);
    }
    let at = column_start(widths, c) as int;
    let width = widths[c] as int;
    line_cell(headings, rows, k, c);
    stacked_line(lines, length, k);
    let line = k * length;
    let inner = text.subrange(line, line + length);
    assert(text.subrange(line + at, line + at + width) =~= inner.subrange(at, at + width));
    if c > 0 {
        assert(text.subrange(line + at - 2, line + at) =~= inner.subrange(at - 2, at));
    }
    assert(text[line + length - 1] == inner[length - 1]);
}

proof fn line_cell(headings: Seq<Seq<char>>, rows: Seq<Seq<Seq<char>>>, k: int, c: int)
    requires
        rows_fit(headings, rows),
        0 <= k < rows.len() + 2,
        0 <= c < headings.len(),
    ensures
        ({
            let widths = column_widths(headings, rows);
            let at = column_start(widths, c) as int;
            let width = widths[c] as int;
            let line = table_line(line_cells(headings, rows, k));
            &&& line.len() == table_width(widths) + 1
            &&& line.last() == '\n'
            &&& at + width < line.len()
            &&& line.subrange(at, at + width) == line_cells(headings, rows, k)[c]
            &&& c > 0 ==> at >= 2 && line.subrange(at - 2, at) == "  "@
        }),
{
    let widths = column_widths(headings, rows);
    let cells = line_cells(headings, rows, k);
    lines_fill(headings, rows, k);
    joined_width(cells, widths);
    joined_cell(cells, widths, c);
    reveal_strlit("\n");
    let at = column_start(widths, c) as int;
    let width = widths[c] as int;
    let line = table_line(cells);
    let inner = joined(cells, "  "@);
    assert(line.subrange(at, at + width) =~= inner.subrange(at, at + width));
    if c > 0 {
        assert(line.subrange(at - 2, at) =~= inner.subrange(at - 2, at));
    }
}

/// In a text of lines of the given length, `cell` stands in the line that starts at `line` where
/// `heading` stands in the first line: from `at` on, both filled up with spaces to one width.
pub open spec fn stands_at(
    text: Seq<char>,
    length: int,
    heading: Seq<char>,
    line: int,
    cell: Seq<char>,
    at: int,
    width: nat,
) -> bool {
    &&& 0 <= at
    &&& at + width < length
    &&& heading.len() <= width
    &&& cell.len() <= width
    &&& at == 0 || (at >= 2 && text.subrange(at - 2, at) == "  "@)
    &&& at + width == length - 1 || text.subrange(at + width, at + width + 2) == "  "@
    &&& text.subrange(at, at + width) == padded(heading, width)
    &&& text.subrange(line + at, line + at + width) == padded(cell, width)
}

/// In a text of `count` rows and two lines above them, all equally long, `cell` stands in row `i`
/// under `heading`.
pub open spec fn stands_under(
    text: Seq<char>,
    count: nat,
    heading: Seq<char>,
    i: int,
    cell: Seq<char>,
) -> bool {
    let length = text.len() as int / (count + 2) as int;
    exists|at: int, width: nat|
        #[trigger] stands_at(text, length, heading, (i + 2) * length, cell, at, width)
}

/// In a text of `count` rows and two lines above them, all equally long, the first line holds the
/// headings and nothing else, and every line is as long as it is.
pub open spec fn is_headed(text: Seq<char>, count: nat, headings: Seq<Seq<char>>) -> bool {
    let length = text.len() as int / (count + 2) as int;
    &&& text.len() == (count + 2) * length
    &&& exists|widths: Seq<nat>|
        widths.len() == headings.len() && #[trigger] table_line(padded_cells(headings, widths))
            == text.take(length)
}

/// In a table whose rows are complete, every cell stands under the heading of its column.
pub proof fn complete_rows_stand_under_headings(
    headings: Seq<Seq<char>>,
    rows: Seq<Seq<Seq<char>>>,
)
    requires
        headings.len() > 0,
        forall|i: int| 0 <= i < rows.len() ==> (#[trigger] rows[i]).len() == headings.len(),
    ensures
        is_headed(table_text(headings, rows), rows.len(), headings),
        forall|i: int, c: int|
            #![trigger rows[i][c]]
            0 <= i < rows.len() && 0 <= c < headings.len() ==> stands_under(
                table_text(headings, rows),
                rows.len(),
                headings[c],
                i,
                rows[i][c],
            ),
{
    let text = table_text(headings, rows);
    let widths = column_widths(headings, rows);
    let length = table_width(widths) + 1;
    let n = rows.len();
    let lines = all_lines(headings, rows, n + 2);
    rows_are_stacked(headings, rows, n);
    assert(rows.take(n as int) =~= rows);
    assert forall|k: int| 0 <= k < lines.len() implies (#[trigger] lines[k]).len() == length by {
        lines_fill(headings, rows, k);
    }
    stacked_line(lines, length, 0);
    assert(0 * length == 0) by (nonlinear_arith);
    assert(1 * length == length) by (nonlinear_arith);
    assert(text.len() as int / (n + 2) as int == length) by (nonlinear_arith)
        requires
            text.len() == (n + 2) * length,
    ;
    assert(text.take(length as int) =~= text.subrange(0, length as int));
    assert(table_line(padded_cells(headings, widths)) == text.take(length as int));
    assert forall|i: int, c: int|
        #![trigger rows[i][c]]
        0 <= i < rows.len() && 0 <= c < headings.len() implies stands_under(
        text,
        n,
        headings[c],
        i,
        rows[i][c],
    ) by {
        cells_stand_in_their_columns(headings, rows, i, c);
        if c < headings.len() - 1 {
            cells_stand_in_their_columns(headings, rows, i, c + 1);
            next_column(widths, c);
        }
        let at = column_start(widths, c) as int;
        let width = widths[c];
        assert(stands_at(
            text,
            length as int,
            headings[c],
            (i + 2) * length,
            rows[i][c],
            at,
            width,
        ));
    }
}

proof fn next_column(widths: Seq<nat>, c: int)
    requires
        0 <= c < widths.len() - 1,
    ensures
        column_start(widths, c + 1) == column_start(widths, c) + widths[c] + 2,
{
    assert(widths.take(c + 1).drop_last() =~= widths.take(c));
}

/// The rows of a table hold what their cells hold, and its widths are what they are.
pub proof fn rows_hold_their_cells(rows: Seq<Vec<String>>, widths: Seq<usize>)
    ensures
        rows_view(rows).len() == rows.len(),
        forall|i: int| 0 <= i < rows.len() ==> #[trigger] rows_view(rows)[i] == texts(rows[i]@),
        width_view(widths).len() == widths.len(),
        forall|i: int| 0 <= i < widths.len() ==> #[trigger] width_view(widths)[i] == widths[i],
{
}

} // verus!
