//! Plain-text aligned table rendering for terminal output.
//!
//! Produces a clean, monospace, left-aligned table (not markdown). Column widths
//! are computed by Unicode scalar count, columns are separated by two spaces, and
//! the trailing padding of the final column is trimmed so lines do not carry
//! dangling whitespace. The output is deterministic, also for ragged rows.

use crate::lists::{take_next, take_none, take_whole};
use crate::text::{char_count, trim_end, trimmed_end, views, white};
use vstd::prelude::*;
use vstd::string::StringExecFns;

verus! {

/// The texts of the headers.
pub open spec fn texts(headers: Seq<&str>) -> Seq<Seq<char>> {
    headers.map_values(|h: &str| h@)
}

/// The texts of the cells of each row.
pub open spec fn cell_texts(rows: Seq<Vec<String>>) -> Seq<Seq<Seq<char>>> {
    rows.map_values(|r: Vec<String>| views(r@))
}

/// The cell of a row in column `i`; empty where the row is too short.
pub open spec fn cell(row: Seq<Seq<char>>, i: int) -> Seq<char> {
    if 0 <= i < row.len() {
        row[i]
    } else {
        Seq::empty()
    }
}

/// The width of column `i`: that of its header or of its widest cell.
pub open spec fn width(header: Seq<char>, rows: Seq<Seq<Seq<char>>>, i: int) -> nat
    decreases rows.len(),
{
    if rows.len() == 0 {
        header.len()
    } else {
        let w = width(header, rows.drop_last(), i);
        if cell(rows.last(), i).len() > w {
            cell(rows.last(), i).len()
        } else {
            w
        }
    }
}

pub open spec fn widths(headers: Seq<Seq<char>>, rows: Seq<Seq<Seq<char>>>) -> Seq<nat> {
    Seq::new(headers.len(), |i: int| width(headers[i], rows, i))
}

pub open spec fn spaces(n: nat) -> Seq<char> {
    Seq::new(n, |i: int| ' ')
}

/// A cell padded to the width of its column; a cell beyond the last column as it
/// is.
pub open spec fn padded(text: Seq<char>, widths: Seq<nat>, i: int) -> Seq<char> {
    if 0 <= i < widths.len() && widths[i] > text.len() {
        text + spaces((widths[i] - text.len()) as nat)
    } else {
        text
    }
}

/// The first `n` cells, two spaces apart.
pub open spec fn cells_line(row: Seq<Seq<char>>, widths: Seq<nat>, n: nat) -> Seq<char>
    decreases n,
{
    if n == 0 {
        Seq::empty()
    } else {
        let i = n - 1;
        let rest = cells_line(row, widths, i as nat);
        if i > 0 {
            rest + "  "@ + padded(cell(row, i), widths, i)
        } else {
            rest + padded(cell(row, i), widths, i)
        }
    }
}

/// One line of the table, without white space at its end.
pub open spec fn table_line(row: Seq<Seq<char>>, widths: Seq<nat>, n: nat) -> Seq<char> {
    trim_end(cells_line(row, widths, n)).push('\n')
}

/// A row has at least as many cells as there are columns.
pub open spec fn arity(row: Seq<Seq<char>>, columns: nat) -> nat {
    if row.len() > columns {
        row.len()
    } else {
        columns
    }
}

pub open spec fn row_lines(rows: Seq<Seq<Seq<char>>>, widths: Seq<nat>) -> Seq<char>
    decreases rows.len(),
{
    if rows.len() == 0 {
        Seq::empty()
    } else {
        row_lines(rows.drop_last(), widths) + table_line(rows.last(), widths, arity(rows.last(), widths.len()))
    }
}

/// The table: the headers, then the rows, or a note where there are none.
pub open spec fn table(headers: Seq<Seq<char>>, rows: Seq<Seq<Seq<char>>>) -> Seq<char> {
    let w = widths(headers, rows);
    let head = table_line(headers, w, headers.len());
    if rows.len() == 0 {
        head + "(no results)"@.push('\n')
    } else {
        head + row_lines(rows, w)
    }
}

/// The widths of the columns, as machine words.
pub open spec fn same_widths(exec: Seq<usize>, spec: Seq<nat>) -> bool {
    exec.len() == spec.len() && forall|i: int| 0 <= i < exec.len() ==> (#[trigger] exec[i]) == spec[i]
}

fn column_widths(headers: &[&str], rows: &[Vec<String>]) -> (r: Vec<usize>)
    ensures
        same_widths(r@, widths(texts(headers@), cell_texts(rows@))),
{
    let ghost heads = texts(headers@);
    let ghost cells = cell_texts(rows@);
    let mut out: Vec<usize> = Vec::new();
    let mut i: usize = 0;
    while i < headers.len()
        invariant
            i <= headers@.len(),
            heads == texts(headers@),
            cells == cell_texts(rows@),
            out@.len() == i,
            forall|j: int| 0 <= j < i ==> (#[trigger] out@[j]) == width(heads[j], cells, j),
        decreases headers@.len() - i,
    {
        let mut w: usize = char_count(headers[i]);
        let mut k: usize = 0;
        proof {
            take_none(cells);
        }
        while k < rows.len()
            invariant
                k <= rows@.len(),
                i < headers@.len(),
                heads == texts(headers@),
                cells == cell_texts(rows@),
                w == width(heads[i as int], cells.take(k as int), i as int),
            decreases rows@.len() - k,
        {
            proof {
                take_next(cells, k as int);
                assert(cells[k as int] == views(rows@[k as int]@));
            }
            let row = &rows[k];
            if i < row.len() {
                let n: usize = char_count(row[i].as_str());
                if n > w {
                    w = n;
                }
            }
            k += 1;
        }
        proof {
            take_whole(cells);
        }
        out.push(w);
        i += 1;
    }
    out
}

/// Appends one rendered, right-trimmed line (terminated by `\n`) to `out`.
///
/// Cells are left-aligned and padded to `widths`; cells with no corresponding
/// width entry (extra columns) are emitted unpadded.
fn push_line(out: &mut String, cells: &Vec<&str>, widths: &Vec<usize>, Ghost(w): Ghost<Seq<nat>>)
    requires
        same_widths(widths@, w),
    ensures
        final(out)@ == old(out)@ + table_line(texts(cells@), w, cells@.len()),
{
    let ghost row = texts(cells@);
    let mut line = String::new();
    let mut i: usize = 0;
    assert(line@ =~= Seq::<char>::empty());
    while i < cells.len()
        invariant
            i <= cells@.len(),
            row == texts(cells@),
            same_widths(widths@, w),
            line@ == cells_line(row, w, i as nat),
        decreases cells@.len() - i,
    {
        let ghost start = line@;
        if i > 0 {
            line.append("  ");
        }
        let ghost lead = line@;
        line.append(cells[i]);
        let n: usize = char_count(cells[i]);
        let ghost text = cells@[i as int]@;
        assert(row[i as int] == text);
        if i < widths.len() && widths[i] > n {
            let pad: usize = widths[i] - n;
            let mut k: usize = 0;
            assert(line@ =~= lead + (text + spaces(0)));
            while k < pad
                invariant
                    k <= pad,
                    line@ == lead + (text + spaces(k as nat)),
                decreases pad - k,
            {
                line.push(' ');
                k += 1;
                assert(line@ =~= lead + (text + spaces(k as nat)));
            }
            assert(padded(text, w, i as int) == text + spaces(pad as nat));
        } else {
            assert(padded(text, w, i as int) == text);
        }
        proof {
            assert(line@ =~= lead + padded(text, w, i as int));
            assert(cells_line(row, w, i as nat) == start);
            assert(line@ =~= cells_line(row, w, (i + 1) as nat));
        }
        i += 1;
    }
    let t = trimmed_end(line.as_str());
    let ghost before = out@;
    out.append(t.as_str());
    out.push('\n');
    assert(out@ =~= before + table_line(row, w, cells@.len()));
}

/// Render `rows` under `headers` as an aligned, left-justified text table.
///
/// Each column's width is the maximum of the header length and the widest cell
/// in that column, measured in Unicode scalar values, not bytes. Columns are
/// separated by two spaces. The trailing whitespace of every line is trimmed, so
/// the final column is never padded. The returned string ends with a trailing
/// newline.
///
/// If a row has fewer cells than there are headers, the missing cells are
/// treated as empty strings. Extra cells beyond the header count are ignored
/// for width purposes but still rendered.
///
/// When `rows` is empty, the header row is still printed, followed by a
/// `(no results)` note line.
pub fn render(headers: &[&str], rows: &[Vec<String>]) -> (r: String)
    ensures
        r@ == table(texts(headers@), cell_texts(rows@)),
{
    let ghost heads = texts(headers@);
    let ghost cells = cell_texts(rows@);
    let ghost w = widths(heads, cells);
    let column = column_widths(headers, rows);
    let mut out = String::new();
    let mut head: Vec<&str> = Vec::new();
    let mut i: usize = 0;
    while i < headers.len()
        invariant
            i <= headers@.len(),
            head@ =~= headers@.take(i as int),
        decreases headers@.len() - i,
    {
        head.push(headers[i]);
        i += 1;
    }
    proof {
        assert(head@ =~= headers@);
        assert(out@ =~= Seq::<char>::empty());
    }
    push_line(&mut out, &head, &column, Ghost(w));
    let ghost top = table_line(heads, w, heads.len());
    assert(out@ =~= top);
    if rows.len() == 0 {
        out.append("(no results)");
        out.push('\n');
        assert(out@ =~= top + "(no results)"@.push('\n'));
        return out;
    }
    let mut k: usize = 0;
    proof {
        take_none(cells);
        assert(out@ =~= top + row_lines(cells.take(0), w));
    }
    while k < rows.len()
        invariant
            k <= rows@.len(),
            cells == cell_texts(rows@),
            w.len() == headers@.len(),
            same_widths(column@, w),
            out@ == top + row_lines(cells.take(k as int), w),
        decreases rows@.len() - k,
    {
        let row = &rows[k];
        let n: usize = if row.len() > headers.len() {
            row.len()
        } else {
            headers.len()
        };
        let mut line: Vec<&str> = Vec::new();
        let mut j: usize = 0;
        while j < n
            invariant
                j <= n,
                line@.len() == j,
                n == (if row@.len() > headers@.len() {
                    row@.len()
                } else {
                    headers@.len()
                }),
                forall|c: int| 0 <= c < j ==> (#[trigger] line@[c])@ == cell(views(row@), c),
            decreases n - j,
        {
            if j < row.len() {
                line.push(row[j].as_str());
            } else {
                proof {
                    reveal_strlit("");
                    assert(""@ =~= Seq::<char>::empty());
                }
                line.push("");
            }
            j += 1;
        }
        let ghost before = out@;
        push_line(&mut out, &line, &column, Ghost(w));
        proof {
            take_next(cells, k as int);
            assert(cells[k as int] == views(row@));
            cells_line_agrees(texts(line@), views(row@), w, n as nat);
            assert(out@ =~= top + row_lines(cells.take(k as int + 1), w));
        }
        k += 1;
    }
    proof {
        take_whole(cells);
    }
    out
}

proof fn cells_line_agrees(a: Seq<Seq<char>>, b: Seq<Seq<char>>, widths: Seq<nat>, n: nat)
    requires
        forall|i: int| 0 <= i < n ==> cell(a, i) == #[trigger] cell(b, i),
    ensures
        cells_line(a, widths, n) == cells_line(b, widths, n),
    decreases n,
{
    if n > 0 {
        assert(cell(a, n - 1) == cell(b, n - 1));
        cells_line_agrees(a, b, widths, (n - 1) as nat);
    }
}

/// What is left when white space is taken off the end does not end in it.
pub proof fn trim_end_leaves_no_space(s: Seq<char>)
    ensures
        trim_end(s).len() > 0 ==> !white(trim_end(s).last()),
    decreases s.len(),
{
    if s.len() > 0 && white(s.last()) {
        trim_end_leaves_no_space(s.drop_last());
    }
}

/// No line of a table ends in white space.
pub proof fn lines_have_no_trailing_space(row: Seq<Seq<char>>, widths: Seq<nat>, n: nat)
    ensures
        table_line(row, widths, n).last() == '\n',
        ({
            let line = table_line(row, widths, n).drop_last();
            line.len() > 0 ==> !white(line.last())
        }),
{
    let t = trim_end(cells_line(row, widths, n));
    trim_end_leaves_no_space(cells_line(row, widths, n));
    assert(t.push('\n').drop_last() =~= t);
}

/// A table always ends with a newline.
pub proof fn table_ends_with_newline(headers: Seq<Seq<char>>, rows: Seq<Seq<Seq<char>>>)
    ensures
        table(headers, rows).len() > 0,
        table(headers, rows).last() == '\n',
{
    let w = widths(headers, rows);
    if rows.len() > 0 {
        let last = table_line(rows.last(), w, arity(rows.last(), w.len()));
        assert(last.last() == '\n');
    }
}

/// A column is at least as wide as its header and every cell in it.
pub proof fn columns_are_wide_enough(header: Seq<char>, rows: Seq<Seq<Seq<char>>>, i: int)
    ensures
        header.len() <= width(header, rows, i),
        forall|k: int| 0 <= k < rows.len() ==> cell(#[trigger] rows[k], i).len() <= width(header, rows, i),
    decreases rows.len(),
{
    if rows.len() > 0 {
        let rest = rows.drop_last();
        columns_are_wide_enough(header, rest, i);
        assert forall|k: int| 0 <= k < rows.len() implies cell(#[trigger] rows[k], i).len() <= width(header, rows, i) by {
            if k < rest.len() {
                assert(rest[k] == rows[k]);
            }
        }
    }
}

} // verus!
