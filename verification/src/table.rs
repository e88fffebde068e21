//! Tables: a line of headings, a line of dashes, and a line for every row.

use vstd::prelude::*;
use crate::json::key_texts;
use crate::text::{byte_len, joined, padded, push_padded, push_repeated, repeated, texts, utf8_len};

verus! {

/// What the cells of a list of rows hold.
pub open spec fn rows_view(rows: Seq<Vec<String>>) -> Seq<Seq<Seq<char>>> {
    Seq::new(rows.len(), |i: int| texts(rows[i]@))
}

/// The width of column `c`: the longest text in it, heading included, in bytes.
pub open spec fn column_width(heading: Seq<char>, rows: Seq<Seq<Seq<char>>>, c: int) -> nat
    decreases rows.len(),
{
    if rows.len() == 0 {
        byte_len(heading)
    } else {
        let before = column_width(heading, rows.drop_last(), c);
        let row = rows.last();
        if c < row.len() && byte_len(row[c]) > before {
            byte_len(row[c])
        } else {
            before
        }
    }
}

/// The widths of all columns.
pub open spec fn column_widths(headings: Seq<Seq<char>>, rows: Seq<Seq<Seq<char>>>) -> Seq<nat> {
    Seq::new(headings.len(), |c: int| column_width(headings[c], rows, c))
}

/// The cell of `row` in column `c`, a dash where the row is too short.
pub open spec fn cell_at(row: Seq<Seq<char>>, c: int) -> Seq<char> {
    if c < row.len() {
        row[c]
    } else {
        "-"@
    }
}

/// The cells of a row, each filled up to the width of its column.
pub open spec fn padded_cells(row: Seq<Seq<char>>, widths: Seq<nat>) -> Seq<Seq<char>> {
    Seq::new(widths.len(), |c: int| padded(cell_at(row, c), widths[c]))
}

/// A run of dashes for every column.
pub open spec fn dashes(widths: Seq<nat>) -> Seq<Seq<char>> {
    Seq::new(widths.len(), |c: int| repeated('-', widths[c]))
}

/// Cells with two spaces between them, and the end of the line.
pub open spec fn table_line(cells: Seq<Seq<char>>) -> Seq<char> {
    joined(cells, "  "@) + "\n"@
}

/// A line for every row.
pub open spec fn row_lines(rows: Seq<Seq<Seq<char>>>, widths: Seq<nat>) -> Seq<char>
    decreases rows.len(),
{
    if rows.len() == 0 {
        Seq::empty()
    } else {
        row_lines(rows.drop_last(), widths) + table_line(padded_cells(rows.last(), widths))
    }
}

/// The whole table.
pub open spec fn table_text(headings: Seq<Seq<char>>, rows: Seq<Seq<Seq<char>>>) -> Seq<char> {
    let widths = column_widths(headings, rows);
    table_line(padded_cells(headings, widths)) + table_line(dashes(widths)) + row_lines(
        rows,
        widths,
    )
}

/// What a list of widths holds.
pub open spec fn width_view(widths: Seq<usize>) -> Seq<nat> {
    Seq::new(widths.len(), |i: int| widths[i] as nat)
}

/// The widths of all columns.
fn measure(headers: &[&str], rows: &Vec<Vec<String>>) -> (widths: Vec<usize>)
    ensures
        width_view(widths@) == column_widths(key_texts(headers@), rows_view(rows@)),
{
    let ghost headings = key_texts(headers@);
    let ghost all = rows_view(rows@);
    let mut widths: Vec<usize> = Vec::new();
    let mut h: usize = 0;
    while h < headers.len()
        invariant
            h <= headers@.len(),
            headings == key_texts(headers@),
            widths@.len() == h,
            forall|c: int| 0 <= c < h ==> (#[trigger] widths@[c]) as nat == byte_len(headings[c]),
        decreases headers.len() - h,
    {
        widths.push(utf8_len(headers[h]));
        h += 1;
    }
    let mut i: usize = 0;
    assert(width_view(widths@) =~= column_widths(headings, all.take(0)));
    while i < rows.len()
        invariant
            i <= rows@.len(),
            all == rows_view(rows@),
            widths@.len() == headings.len(),
            width_view(widths@) == column_widths(headings, all.take(i as int)),
        decreases rows.len() - i,
    {
        let row = &rows[i];
        let ghost before = all.take(i as int);
        let ghost after = all.take(i + 1);
        assert(after.drop_last() =~= before);
        assert(after.last() == texts(row@));
        let ghost start = widths@;
        assert forall|k: int| 0 <= k < headings.len() implies (#[trigger] start[k]) as nat
            == column_width(headings[k], before, k) by {
            assert(width_view(start)[k] == column_widths(headings, before)[k]);
        }
        let mut c: usize = 0;
        while c < row.len() && c < widths.len()
            invariant
                c <= row@.len(),
                c <= widths@.len() == headings.len() == start.len(),
                after.len() > 0,
                after.drop_last() == before,
                after.last() == texts(row@),
                forall|k: int|
                    0 <= k < headings.len() ==> (#[trigger] start[k]) as nat == column_width(
                        headings[k],
                        before,
                        k,
                    ),
                forall|k: int|
                    0 <= k < c ==> (#[trigger] widths@[k]) as nat == column_width(
                        headings[k],
                        after,
                        k,
                    ),
                forall|k: int| c <= k < widths@.len() ==> #[trigger] widths@[k] == start[k],
            decreases row.len() - c,
        {
            let n = utf8_len(row[c].as_str());
            assert(start[c as int] as nat == column_width(headings[c as int], before, c as int));
            if n > widths[c] {
                widths.set(c, n);
            }
            c += 1;
        }
        assert(width_view(widths@) =~= column_widths(headings, after)) by {
            assert forall|k: int| 0 <= k < widths@.len() implies (#[trigger] widths@[k]) as nat
                == column_width(headings[k], after, k) by {
                if k >= c {
                    assert(start[k] as nat == column_width(headings[k], before, k));
                }
            }
        }
        i += 1;
    }
    assert(all.take(rows@.len() as int) =~= all);
    widths
}

/// Appends a line of dashes.
fn push_dashes(widths: &Vec<usize>, out: &mut String)
    ensures
        final(out)@ == old(out)@ + table_line(dashes(width_view(widths@))),
{
    let ghost cells = dashes(width_view(widths@));
    let mut c: usize = 0;
    assert(out@ =~= old(out)@ + joined(cells.take(0), "  "@));
    while c < widths.len()
        invariant
            c <= widths@.len(),
            cells == dashes(width_view(widths@)),
            out@ == old(out)@ + joined(cells.take(c as int), "  "@),
        decreases widths.len() - c,
    {
        if c > 0 {
            out.append("  ");
        }
        push_repeated(out, '-', widths[c]);
        proof {
            let done = cells.take(c + 1);
            assert(done.drop_last() =~= cells.take(c as int));
            assert(done.last() == cells[c as int]);
            assert(out@ =~= old(out)@ + joined(done, "  "@));
        }
        c += 1;
    }
    assert(cells.take(widths@.len() as int) =~= cells);
    out.append("\n");
    assert(out@ =~= old(out)@ + table_line(cells));
}

/// Appends a line of headings.
fn push_headings(headers: &[&str], widths: &Vec<usize>, out: &mut String)
    requires
        widths@.len() == headers@.len(),
    ensures
        final(out)@ == old(out)@ + table_line(
            padded_cells(key_texts(headers@), width_view(widths@)),
        ),
{
    let ghost cells = padded_cells(key_texts(headers@), width_view(widths@));
    let mut c: usize = 0;
    assert(out@ =~= old(out)@ + joined(cells.take(0), "  "@));
    while c < widths.len()
        invariant
            c <= widths@.len() == headers@.len(),
            cells == padded_cells(key_texts(headers@), width_view(widths@)),
            out@ == old(out)@ + joined(cells.take(c as int), "  "@),
        decreases widths.len() - c,
    {
        if c > 0 {
            out.append("  ");
        }
        push_padded(out, headers[c], widths[c]);
        proof {
            let done = cells.take(c + 1);
            assert(done.drop_last() =~= cells.take(c as int));
            assert(done.last() == cells[c as int]);
            assert(out@ =~= old(out)@ + joined(done, "  "@));
        }
        c += 1;
    }
    assert(cells.take(widths@.len() as int) =~= cells);
    out.append("\n");
    assert(out@ =~= old(out)@ + table_line(cells));
}

/// Appends the line of a row.
fn push_row(row: &Vec<String>, widths: &Vec<usize>, out: &mut String)
    ensures
        final(out)@ == old(out)@ + table_line(padded_cells(texts(row@), width_view(widths@))),
{
    let ghost cells = padded_cells(texts(row@), width_view(widths@));
    let mut c: usize = 0;
    assert(out@ =~= old(out)@ + joined(cells.take(0), "  "@));
    while c < widths.len()
        invariant
            c <= widths@.len(),
            cells == padded_cells(texts(row@), width_view(widths@)),
            out@ == old(out)@ + joined(cells.take(c as int), "  "@),
        decreases widths.len() - c,
    {
        if c > 0 {
            out.append("  ");
        }
        if c < row.len() {
            push_padded(out, row[c].as_str(), widths[c]);
        } else {
            push_padded(out, "-", widths[c]);
        }
        proof {
            let done = cells.take(c + 1);
            assert(done.drop_last() =~= cells.take(c as int));
            assert(done.last() == cells[c as int]);
            assert(out@ =~= old(out)@ + joined(done, "  "@));
        }
        c += 1;
    }
    assert(cells.take(widths@.len() as int) =~= cells);
    out.append("\n");
    assert(out@ =~= old(out)@ + table_line(cells));
}

/// Appends a table.
pub fn print_table(headers: &[&str], rows: &Vec<Vec<String>>, out: &mut String)
    ensures
        final(out)@ == old(out)@ + table_text(key_texts(headers@), rows_view(rows@)),
{
    let ghost all = rows_view(rows@);
    let widths = measure(headers, rows);
    let ghost w = width_view(widths@);
    assert(w.len() == headers@.len());
    push_headings(headers, &widths, out);
    push_dashes(&widths, out);
    let ghost head = out@;
    let mut i: usize = 0;
    assert(out@ =~= head + row_lines(all.take(0), w));
    while i < rows.len()
        invariant
            i <= rows@.len(),
            all == rows_view(rows@),
            w == width_view(widths@),
            out@ == head + row_lines(all.take(i as int), w),
        decreases rows.len() - i,
    {
        push_row(&rows[i], &widths, out);
        proof {
            let done = all.take(i + 1);
            assert(done.drop_last() =~= all.take(i as int));
            assert(done.last() == texts(rows@[i as int]@));
            assert(out@ =~= head + row_lines(done, w));
        }
        i += 1;
    }
    assert(all.take(rows@.len() as int) =~= all);
    assert(out@ =~= old(out)@ + table_text(key_texts(headers@), all));
}

} // verus!
