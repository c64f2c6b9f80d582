//! What a table shows, and where.

use crate::output::table::{
    arity, cell, cells_line, padded, row_lines, table, table_line, width, widths,
};
use crate::text::{has, occurs_at, trim_end, white};
use vstd::prelude::*;

verus! {

/// A column is as wide as its header and as each of its cells.
pub proof fn columns_hold_their_cells(headers: Seq<Seq<char>>, rows: Seq<Seq<Seq<char>>>, k: int, i: int)
    requires
        0 <= i < headers.len(),
    ensures
        widths(headers, rows).len() == headers.len(),
        headers[i].len() <= widths(headers, rows)[i],
        0 <= k < rows.len() && i < rows[k].len() ==> rows[k][i].len() <= widths(headers, rows)[i],
    decreases rows.len(),
{
    if rows.len() > 0 {
        let rest = rows.drop_last();
        columns_hold_their_cells(headers, rest, k, i);
        assert(widths(headers, rest)[i] == width(headers[i], rest, i));
        if k == rows.len() - 1 {
            assert(rows.last() == rows[k]);
        } else if 0 <= k < rest.len() {
            assert(rest[k] == rows[k]);
        }
    }
    assert(widths(headers, rows)[i] == width(headers[i], rows, i));
}

/// A column is no wider than its header or one of its cells.
pub proof fn columns_are_no_wider(headers: Seq<Seq<char>>, rows: Seq<Seq<Seq<char>>>, i: int)
    requires
        0 <= i < headers.len(),
    ensures
        widths(headers, rows)[i] == headers[i].len() || exists|k: int|
            0 <= k < rows.len() && i < (#[trigger] rows[k]).len() && rows[k][i].len() == widths(headers, rows)[i],
    decreases rows.len(),
{
    assert(widths(headers, rows)[i] == width(headers[i], rows, i));
    if rows.len() > 0 {
        let rest = rows.drop_last();
        columns_are_no_wider(headers, rest, i);
        assert(widths(headers, rest)[i] == width(headers[i], rest, i));
        if cell(rows.last(), i).len() > width(headers[i], rest, i) {
            assert(rows[rows.len() - 1] == rows.last());
        } else if widths(headers, rest)[i] != headers[i].len() {
            let k = choose|k: int|
                0 <= k < rest.len() && i < (#[trigger] rest[k]).len() && rest[k][i].len() == widths(headers, rest)[i];
            assert(rows[k] == rest[k]);
        }
    }
}

/// Where a column starts: behind those before it, each with two spaces.
pub open spec fn starts(widths: Seq<nat>, i: int) -> int
    decreases i,
{
    if i <= 0 {
        0
    } else {
        starts(widths, i - 1) + widths[i - 1] + 2
    }
}

proof fn line_is_long(row: Seq<Seq<char>>, w: Seq<nat>, n: nat)
    requires
        0 < n <= w.len(),
        forall|i: int| 0 <= i < w.len() && i < row.len() ==> (#[trigger] row[i]).len() <= w[i],
    ensures
        cells_line(row, w, n).len() == starts(w, n as int) - 2,
    decreases n,
{
    reveal_strlit("  ");
    let i = n - 1;
    assert(padded(cell(row, i), w, i).len() == w[i]);
    if n > 1 {
        line_is_long(row, w, i as nat);
        assert(cells_line(row, w, n) == cells_line(row, w, i as nat) + "  "@ + padded(cell(row, i), w, i));
    } else {
        assert(cells_line(row, w, 0).len() == 0);
        assert(starts(w, 1) == starts(w, 0) + w[0] + 2);
    }
}

proof fn still_there(a: Seq<char>, b: Seq<char>, x: Seq<char>, k: int)
    requires
        occurs_at(a, x, k),
    ensures
        occurs_at(a + b, x, k),
{
    assert((a + b).subrange(k, k + x.len()) =~= a.subrange(k, k + x.len()));
}

/// A cell stands where its column starts.
proof fn cell_stands_in_its_column(row: Seq<Seq<char>>, w: Seq<nat>, n: nat, i: int)
    requires
        0 <= i < n <= w.len(),
        i < row.len(),
        forall|i: int| 0 <= i < w.len() && i < row.len() ==> (#[trigger] row[i]).len() <= w[i],
    ensures
        occurs_at(cells_line(row, w, n), row[i], starts(w, i)),
    decreases n,
{
    reveal_strlit("  ");
    let m = (n - 1) as nat;
    let line = cells_line(row, w, n);
    let rest = cells_line(row, w, m);
    let p = padded(cell(row, m as int), w, m as int);
    if i < m {
        cell_stands_in_its_column(row, w, m, i);
        still_there(rest, "  "@ + p, row[i], starts(w, i));
        assert(line =~= rest + ("  "@ + p));
    } else {
        if m > 0 {
            line_is_long(row, w, m);
        } else {
            assert(rest.len() == 0);
        }
        assert(line.subrange(starts(w, i), starts(w, i) + row[i].len()) =~= row[i]);
    }
}

proof fn any_cell_stands_in_the_line(row: Seq<Seq<char>>, w: Seq<nat>, n: nat, i: int) -> (k: int)
    requires
        0 <= i < n,
        i < row.len(),
    ensures
        occurs_at(cells_line(row, w, n), row[i], k),
    decreases n,
{
    let m = (n - 1) as nat;
    let line = cells_line(row, w, n);
    let rest = cells_line(row, w, m);
    let p = padded(cell(row, m as int), w, m as int);
    let gap = if m > 0 {
        "  "@
    } else {
        Seq::empty()
    };
    assert(line =~= rest + (gap + p));
    if i < m {
        let k = any_cell_stands_in_the_line(row, w, m, i);
        still_there(rest, gap + p, row[i], k);
        k
    } else {
        let k = (rest.len() + gap.len()) as int;
        assert(line.subrange(k, k + row[i].len()) =~= row[i]);
        k
    }
}

/// What ends in no white space is kept when white space at the end goes.
proof fn kept_by_the_end(s: Seq<char>, x: Seq<char>, k: int)
    requires
        occurs_at(s, x, k),
        x.len() > 0,
        !white(x.last()),
    ensures
        occurs_at(trim_end(s), x, k),
    decreases s.len(),
{
    assert(s[k + x.len() - 1] == s.subrange(k, k + x.len()).last());
    if s.len() > 0 && white(s.last()) {
        let rest = s.drop_last();
        assert(rest.subrange(k, k + x.len()) =~= s.subrange(k, k + x.len()));
        kept_by_the_end(rest, x, k);
    }
}

proof fn shown_in_row(rows: Seq<Seq<Seq<char>>>, w: Seq<nat>, k: int, x: Seq<char>)
    requires
        0 <= k < rows.len(),
        has(table_line(rows[k], w, arity(rows[k], w.len())), x),
    ensures
        has(row_lines(rows, w), x),
    decreases rows.len(),
{
    let rest = rows.drop_last();
    let last = table_line(rows.last(), w, arity(rows.last(), w.len()));
    let front = row_lines(rest, w);
    let all = row_lines(rows, w);
    if k == rows.len() - 1 {
        let i = choose|i: int| occurs_at(last, x, i);
        assert(all.subrange(front.len() + i, front.len() + i + x.len()) =~= last.subrange(i, i + x.len()));
        assert(occurs_at(all, x, front.len() + i));
    } else {
        assert(rest[k] == rows[k]);
        shown_in_row(rest, w, k, x);
        let i = choose|i: int| occurs_at(front, x, i);
        still_there(front, last, x, i);
    }
}

proof fn shown_in_line(row: Seq<Seq<char>>, w: Seq<nat>, n: nat, i: int)
    requires
        0 <= i < n,
        i < row.len(),
        row[i].len() > 0,
        !white(row[i].last()),
    ensures
        has(table_line(row, w, n), row[i]),
{
    let line = cells_line(row, w, n);
    let k = any_cell_stands_in_the_line(row, w, n, i);
    kept_by_the_end(line, row[i], k);
    still_there(trim_end(line), seq!['\n'], row[i], k);
    assert(trim_end(line) + seq!['\n'] =~= table_line(row, w, n));
    assert(occurs_at(table_line(row, w, n), row[i], k));
}

/// A table shows every cell of every row, also of those that are longer than the
/// headers.
pub proof fn every_cell_is_shown(headers: Seq<Seq<char>>, rows: Seq<Seq<Seq<char>>>, k: int, i: int)
    requires
        0 <= k < rows.len(),
        0 <= i < rows[k].len(),
        rows[k][i].len() > 0,
        !white(rows[k][i].last()),
    ensures
        has(table(headers, rows), rows[k][i]),
{
    let w = widths(headers, rows);
    shown_in_line(rows[k], w, arity(rows[k], w.len()), i);
    shown_in_row(rows, w, k, rows[k][i]);
    let head = table_line(headers, w, headers.len());
    let below = row_lines(rows, w);
    let all = table(headers, rows);
    let j = choose|j: int| occurs_at(below, rows[k][i], j);
    assert(all.subrange(head.len() + j, head.len() + j + rows[k][i].len()) =~= below.subrange(j, j + rows[k][i].len()));
    assert(occurs_at(all, rows[k][i], head.len() + j));
}

/// A table shows every header.
pub proof fn every_header_is_shown(headers: Seq<Seq<char>>, rows: Seq<Seq<Seq<char>>>, i: int)
    requires
        0 <= i < headers.len(),
        headers[i].len() > 0,
        !white(headers[i].last()),
    ensures
        has(table(headers, rows), headers[i]),
{
    let w = widths(headers, rows);
    shown_in_line(headers, w, headers.len(), i);
    let head = table_line(headers, w, headers.len());
    let k = choose|k: int| occurs_at(head, headers[i], k);
    if rows.len() == 0 {
        still_there(head, "(no results)"@.push('\n'), headers[i], k);
    } else {
        still_there(head, row_lines(rows, w), headers[i], k);
    }
    assert(occurs_at(table(headers, rows), headers[i], k));
}

/// The cells of a column stand below one another: each where the column starts.
pub proof fn columns_are_aligned(headers: Seq<Seq<char>>, rows: Seq<Seq<Seq<char>>>, k: int, i: int)
    requires
        0 <= k < rows.len(),
        0 <= i < headers.len(),
        i < rows[k].len(),
        headers[i].len() > 0,
        !white(headers[i].last()),
        rows[k][i].len() > 0,
        !white(rows[k][i].last()),
        rows[k].len() <= headers.len(),
    ensures
        ({
            let w = widths(headers, rows);
            &&& occurs_at(table_line(headers, w, headers.len()), headers[i], starts(w, i))
            &&& occurs_at(table_line(rows[k], w, arity(rows[k], w.len())), rows[k][i], starts(w, i))
        }),
{
    let w = widths(headers, rows);
    let n = headers.len();
    assert forall|j: int| 0 <= j < w.len() && j < headers.len() implies (#[trigger] headers[j]).len() <= w[j] by {
        columns_hold_their_cells(headers, rows, k, j);
    }
    assert forall|j: int| 0 <= j < w.len() && j < rows[k].len() implies (#[trigger] rows[k][j]).len() <= w[j] by {
        columns_hold_their_cells(headers, rows, k, j);
    }
    cell_stands_in_its_column(headers, w, n, i);
    cell_stands_in_its_column(rows[k], w, n, i);
    kept_by_the_end(cells_line(headers, w, n), headers[i], starts(w, i));
    kept_by_the_end(cells_line(rows[k], w, n), rows[k][i], starts(w, i));
    still_there(trim_end(cells_line(headers, w, n)), seq!['\n'], headers[i], starts(w, i));
    still_there(trim_end(cells_line(rows[k], w, n)), seq!['\n'], rows[k][i], starts(w, i));
    assert(trim_end(cells_line(headers, w, n)) + seq!['\n'] =~= table_line(headers, w, n));
    assert(trim_end(cells_line(rows[k], w, n)) + seq!['\n'] =~= table_line(rows[k], w, n));
}

} // verus!
