//! Markdown tables laid out in aligned columns.
//!
//! A table is a run of lines that start with `|`. Each line is cut at every `|` into
//! cells, which are trimmed; each column is then padded to the width of its widest cell.
use crate::text::{trim, trim_text};
use vstd::prelude::*;
use vstd::utf8::encode_utf8;

verus! {

/// The views of some strings.
pub open spec fn texts(v: Seq<String>) -> Seq<Seq<char>> {
    v.map_values(|x: String| x@)
}

/// Width of a text in bytes of UTF-8, as `str::len` gives it.
pub open spec fn byte_width(s: Seq<char>) -> int {
    encode_utf8(s).len() as usize as int
}

/// The pieces of `s` between the bars, the current piece having begun at `start`.
pub open spec fn split_from(s: Seq<char>, start: int, i: int) -> Seq<Seq<char>>
    decreases s.len() - i,
{
    if i >= s.len() {
        seq![s.subrange(start, s.len() as int)]
    } else if s[i] == '|' {
        seq![s.subrange(start, i)] + split_from(s, i + 1, i + 1)
    } else {
        split_from(s, start, i + 1)
    }
}

/// The cells of a table line: its pieces between bars, each trimmed.
pub open spec fn row_cells(line: Seq<char>) -> Seq<Seq<char>> {
    split_from(line, 0, 0).map_values(|x: Seq<char>| trim(x))
}

/// Column widths widened by one row; only the columns that the row has are kept.
pub open spec fn widen(maxes: Seq<int>, cells: Seq<Seq<char>>) -> Seq<int> {
    let n = if maxes.len() <= cells.len() { maxes.len() } else { cells.len() };
    Seq::new(
        n,
        |k: int|
            if maxes[k] >= byte_width(trim(cells[k])) {
                maxes[k]
            } else {
                byte_width(trim(cells[k]))
            },
    )
}

/// The largest number of cells in the first `n` rows.
pub open spec fn most_cells(rows: Seq<Seq<Seq<char>>>, n: int) -> int
    decreases n,
{
    if n <= 0 {
        0
    } else if most_cells(rows, n - 1) >= rows[n - 1].len() {
        most_cells(rows, n - 1)
    } else {
        rows[n - 1].len() as int
    }
}

/// Column widths after the first `n` rows, starting from zeros for every column.
pub open spec fn widths(rows: Seq<Seq<Seq<char>>>, n: int) -> Seq<int>
    decreases n,
{
    if n <= 0 {
        Seq::new(most_cells(rows, rows.len() as int) as nat, |k: int| 0int)
    } else {
        widen(widths(rows, n - 1), rows[n - 1])
    }
}

/// A cell padded to `width`: a space, the cell, spaces up to the width, a space. A
/// column of width 0 is left as it is.
pub open spec fn padded(cell: Seq<char>, width: int) -> Seq<char> {
    if width == 0 {
        cell
    } else {
        let pad = if width > byte_width(cell) { width - byte_width(cell) } else { 0 };
        seq![' '] + cell + Seq::new(pad as nat, |k: int| ' ') + seq![' ']
    }
}

/// Pieces joined with bars.
pub open spec fn join_bars(cells: Seq<Seq<char>>) -> Seq<char>
    decreases cells.len(),
{
    if cells.len() == 0 {
        Seq::empty()
    } else if cells.len() == 1 {
        cells[0]
    } else {
        join_bars(cells.drop_last()) + seq!['|'] + cells.last()
    }
}

/// A row laid out with the given column widths; the columns that either lacks are dropped.
pub open spec fn row_text(cells: Seq<Seq<char>>, widths: Seq<int>) -> Seq<char> {
    let n = if widths.len() <= cells.len() { widths.len() } else { cells.len() };
    join_bars(Seq::new(n, |k: int| padded(cells[k], widths[k])))
}

/// The lines of a table laid out in aligned columns.
pub open spec fn table_text(lines: Seq<Seq<char>>) -> Seq<Seq<char>> {
    let rows = lines.map_values(|l: Seq<char>| row_cells(l));
    let w = widths(rows, rows.len() as int);
    rows.map_values(|r: Seq<Seq<char>>| row_text(r, w))
}

/// Cuts a line at every `|` and trims the pieces.
pub fn split_row(line: &str) -> (r: Vec<String>)
    ensures
        texts(r@) == row_cells(line@),
{
    let n = line.unicode_len();
    let mut cells: Vec<String> = Vec::new();
    let mut start: usize = 0;
    let mut i: usize = 0;
    while i < n
        invariant
            n == line@.len(),
            start <= i <= n,
            split_from(line@, 0, 0).map_values(|x: Seq<char>| trim(x)) == texts(cells@)
                + split_from(line@, start as int, i as int).map_values(|x: Seq<char>| trim(x)),
        decreases n - i,
    {
        if line.get_char(i) == '|' {
            let piece = line.substring_char(start, i);
            let cell = String::from_str(trim_text(piece));
            let ghost before = cells@;
            cells.push(cell);
            proof {
                let rest = split_from(line@, i + 1, i + 1);
                assert(split_from(line@, start as int, i as int) == seq![
                    line@.subrange(start as int, i as int),
                ] + rest);
                assert((seq![line@.subrange(start as int, i as int)] + rest).map_values(
                    |x: Seq<char>| trim(x),
                ) =~= seq![cell@] + rest.map_values(|x: Seq<char>| trim(x)));
                assert(texts(cells@) =~= texts(before).push(cell@));
                assert(texts(before) + (seq![cell@] + rest.map_values(|x: Seq<char>| trim(x)))
                    =~= texts(cells@) + rest.map_values(|x: Seq<char>| trim(x)));
            }
            start = i + 1;
        }
        i = i + 1;
    }
    let piece = line.substring_char(start, n);
    let cell = String::from_str(trim_text(piece));
    let ghost before = cells@;
    cells.push(cell);
    proof {
        assert(seq![line@.subrange(start as int, n as int)].map_values(|x: Seq<char>| trim(x))
            =~= seq![cell@]);
        assert(texts(cells@) =~= texts(before).push(cell@));
        assert(texts(before) + seq![cell@] =~= texts(cells@));
    }
    cells
}

/// The values of some sizes.
pub open spec fn ints(v: Seq<usize>) -> Seq<int> {
    v.map_values(|x: usize| x as int)
}

/// The cells of some rows.
pub open spec fn rows_view(v: Seq<Vec<String>>) -> Seq<Seq<Seq<char>>> {
    v.map_values(|r: Vec<String>| texts(r@))
}

proof fn lemma_texts_push(v: Seq<String>, x: String)
    ensures
        texts(v.push(x)) == texts(v).push(x@),
{
    assert(texts(v.push(x)) =~= texts(v).push(x@));
}

proof fn lemma_ints_push(v: Seq<usize>, x: usize)
    ensures
        ints(v.push(x)) == ints(v).push(x as int),
{
    assert(ints(v.push(x)) =~= ints(v).push(x as int));
}

proof fn lemma_rows_push(v: Seq<Vec<String>>, x: Vec<String>)
    ensures
        rows_view(v.push(x)) == rows_view(v).push(texts(x@)),
{
    assert(rows_view(v.push(x)) =~= rows_view(v).push(texts(x@)));
}

/// Column widths widened by one row of cells.
pub fn copy_maxes(maxes: &Vec<usize>, segments: &Vec<String>) -> (r: Vec<usize>)
    ensures
        ints(r@) == widen(ints(maxes@), texts(segments@)),
{
    let n = if maxes.len() <= segments.len() { maxes.len() } else { segments.len() };
    let mut r: Vec<usize> = Vec::new();
    let mut k: usize = 0;
    while k < n
        invariant
            n <= maxes@.len(),
            n <= segments@.len(),
            n == maxes@.len() || n == segments@.len(),
            k <= n,
            r@.len() == k,
            forall|m: int|
                0 <= m < k ==> #[trigger] ints(r@)[m] == widen(ints(maxes@), texts(segments@))[m],
        decreases n - k,
    {
        let t = trim_text(segments[k].as_str());
        let w = t.len();
        assert(w as int == byte_width(trim(segments@[k as int]@)));
        let m = maxes[k];
        let ghost before = r@;
        if m >= w {
            r.push(m);
        } else {
            r.push(w);
        }
        proof {
            lemma_ints_push(before, r@[k as int]);
            assert(texts(segments@)[k as int] == segments@[k as int]@);
            assert(ints(maxes@)[k as int] == m as int);
            assert forall|j: int| 0 <= j < k + 1 implies #[trigger] ints(r@)[j] == widen(
                ints(maxes@),
                texts(segments@),
            )[j] by {
                if j < k {
                    assert(r@[j] == before[j]);
                    assert(ints(before)[j] == widen(ints(maxes@), texts(segments@))[j]);
                }
            }
        }
        k = k + 1;
    }
    assert(ints(r@) =~= widen(ints(maxes@), texts(segments@)));
    r
}

fn pad_cell(cell: &String, width: usize) -> (r: String)
    ensures
        r@ == padded(cell@, width as int),
{
    if width == 0 {
        return String::from_str(cell.as_str());
    }
    let w = cell.as_str().len();
    assert(w as int == byte_width(cell@));
    let pad = if width > w { width - w } else { 0 };
    let mut s = String::from_str(" ");
    s.append(cell.as_str());
    proof { reveal_strlit(" "); }
    let ghost head = s@;
    let mut k: usize = 0;
    while k < pad
        invariant
            k <= pad,
            s@ == head + Seq::new(k as nat, |j: int| ' '),
        decreases pad - k,
    {
        s.append(" ");
        proof { reveal_strlit(" "); }
        assert(s@ =~= head + Seq::new((k + 1) as nat, |j: int| ' '));
        k = k + 1;
    }
    s.append(" ");
    proof { reveal_strlit(" "); }
    assert(s@ =~= padded(cell@, width as int));
    s
}

fn layout_row(cells: &Vec<String>, widths: &Vec<usize>) -> (r: String)
    ensures
        r@ == row_text(texts(cells@), ints(widths@)),
{
    let n = if widths.len() <= cells.len() { widths.len() } else { cells.len() };
    let ghost all = Seq::new(n as nat, |k: int| padded(texts(cells@)[k], ints(widths@)[k]));
    let mut s = String::new();
    let mut k: usize = 0;
    while k < n
        invariant
            n <= widths@.len() && n <= cells@.len(),
            k <= n,
            all == Seq::new(n as nat, |j: int| padded(texts(cells@)[j], ints(widths@)[j])),
            s@ == join_bars(all.subrange(0, k as int)),
        decreases n - k,
    {
        if k > 0 {
            s.append("|");
            proof { reveal_strlit("|"); }
        }
        let cell = pad_cell(&cells[k], widths[k]);
        s.append(cell.as_str());
        proof {
            let next = all.subrange(0, k + 1);
            assert(next.drop_last() =~= all.subrange(0, k as int));
            assert(cell@ == all[k as int]);
            assert(s@ =~= join_bars(next));
        }
        k = k + 1;
    }
    assert(all.subrange(0, n as int) =~= all);
    s
}

/// Lays out the lines of one table in aligned columns.
pub fn format_table(lines: &Vec<String>) -> (r: Vec<String>)
    ensures
        texts(r@) == table_text(texts(lines@)),
{
    let ghost lv = texts(lines@);
    let ghost spec_rows = lv.map_values(|l: Seq<char>| row_cells(l));
    let mut rows: Vec<Vec<String>> = Vec::new();
    let mut i: usize = 0;
    while i < lines.len()
        invariant
            i <= lines@.len(),
            lv == texts(lines@),
            spec_rows == lv.map_values(|l: Seq<char>| row_cells(l)),
            rows_view(rows@) == spec_rows.subrange(0, i as int),
        decreases lines@.len() - i,
    {
        let row = split_row(lines[i].as_str());
        let ghost before = rows@;
        rows.push(row);
        proof {
            lemma_rows_push(before, row);
            assert(lv[i as int] == lines@[i as int]@);
            assert(spec_rows[i as int] == row_cells(lv[i as int]));
            assert(rows_view(rows@) =~= spec_rows.subrange(0, i + 1));
        }
        i = i + 1;
    }
    assert(spec_rows.subrange(0, i as int) =~= spec_rows);
    let mut most: usize = 0;
    let mut i: usize = 0;
    while i < rows.len()
        invariant
            i <= rows@.len(),
            rows_view(rows@) == spec_rows,
            most == most_cells(spec_rows, i as int),
        decreases rows@.len() - i,
    {
        assert(rows@[i as int]@.len() == spec_rows[i as int].len());
        if rows[i].len() > most {
            most = rows[i].len();
        }
        i = i + 1;
    }
    let mut maxes: Vec<usize> = Vec::new();
    let mut k: usize = 0;
    while k < most
        invariant
            k <= most,
            ints(maxes@) == Seq::new(k as nat, |j: int| 0int),
        decreases most - k,
    {
        let ghost before = maxes@;
        maxes.push(0);
        proof { lemma_ints_push(before, 0); }
        assert(ints(maxes@) =~= Seq::new((k + 1) as nat, |j: int| 0int));
        k = k + 1;
    }
    let mut i: usize = 0;
    while i < rows.len()
        invariant
            i <= rows@.len(),
            rows_view(rows@) == spec_rows,
            most == most_cells(spec_rows, spec_rows.len() as int),
            ints(maxes@) == widths(spec_rows, i as int),
        decreases rows@.len() - i,
    {
        assert(texts(rows@[i as int]@) == spec_rows[i as int]);
        maxes = copy_maxes(&maxes, &rows[i]);
        i = i + 1;
    }
    let ghost w = widths(spec_rows, spec_rows.len() as int);
    let mut out: Vec<String> = Vec::new();
    let mut i: usize = 0;
    while i < rows.len()
        invariant
            i <= rows@.len(),
            rows_view(rows@) == spec_rows,
            ints(maxes@) == w,
            texts(out@) == spec_rows.subrange(0, i as int).map_values(
                |r: Seq<Seq<char>>| row_text(r, w),
            ),
        decreases rows@.len() - i,
    {
        assert(texts(rows@[i as int]@) == spec_rows[i as int]);
        let line = layout_row(&rows[i], &maxes);
        let ghost before = out@;
        out.push(line);
        proof { lemma_texts_push(before, line); }
        assert(texts(out@) =~= spec_rows.subrange(0, i + 1).map_values(
            |r: Seq<Seq<char>>| row_text(r, w),
        ));
        i = i + 1;
    }
    assert(spec_rows.subrange(0, i as int) =~= spec_rows);
    out
}

/// A line of a table: it starts with a bar.
pub open spec fn starts_bar(l: Seq<char>) -> bool {
    l.len() > 0 && l[0] == '|'
}

/// The end of the run of table lines that begins at `i`.
pub open spec fn run_end(lines: Seq<Seq<char>>, i: int) -> int
    decreases lines.len() - i,
{
    if 0 <= i < lines.len() && starts_bar(lines[i]) {
        run_end(lines, i + 1)
    } else {
        i
    }
}

/// The lines from the `i`-th on, each table laid out and the other lines unchanged.
pub open spec fn pretty_from(lines: Seq<Seq<char>>, i: int) -> Seq<Seq<char>>
    decreases lines.len() - i,
{
    if i < 0 || i >= lines.len() {
        Seq::empty()
    } else if !starts_bar(lines[i]) {
        seq![lines[i]] + pretty_from(lines, i + 1)
    } else {
        let e = run_end(lines, i);
        if i < e <= lines.len() {
            table_text(lines.subrange(i, e)) + pretty_from(lines, e)
        } else {
            Seq::empty()
        }
    }
}

fn is_table_line(line: &str) -> (r: bool)
    ensures
        r == starts_bar(line@),
{
    line.unicode_len() > 0 && line.get_char(0) == '|'
}

proof fn lemma_run_end_bounds(lines: Seq<Seq<char>>, i: int)
    requires
        0 <= i <= lines.len(),
    ensures
        i <= run_end(lines, i) <= lines.len(),
    decreases lines.len() - i,
{
    if i < lines.len() && starts_bar(lines[i]) {
        lemma_run_end_bounds(lines, i + 1);
    }
}

/// Lays out every table of a document, leaving the other lines as they are.
pub fn prettify_lines(lines: &Vec<String>) -> (r: Vec<String>)
    ensures
        texts(r@) == pretty_from(texts(lines@), 0),
{
    let ghost lv = texts(lines@);
    let n = lines.len();
    let mut out: Vec<String> = Vec::new();
    let mut i: usize = 0;
    while i < n
        invariant
            n == lines@.len(),
            lv == texts(lines@),
            i <= n,
            pretty_from(lv, 0) == texts(out@) + pretty_from(lv, i as int),
        decreases n - i,
    {
        if !is_table_line(lines[i].as_str()) {
            let ghost before = out@;
            let line = String::from_str(lines[i].as_str());
            out.push(line);
            proof {
                lemma_texts_push(before, line);
                assert(lv[i as int] == lines@[i as int]@);
            }
            assert(texts(before) + (seq![lv[i as int]] + pretty_from(lv, i + 1)) =~= texts(out@)
                + pretty_from(lv, i + 1));
            i = i + 1;
        } else {
            let ghost start = i as int;
            let mut table: Vec<String> = Vec::new();
            while i < n && is_table_line(lines[i].as_str())
                invariant
                    n == lines@.len(),
                    lv == texts(lines@),
                    start < i <= n || (start == i && starts_bar(lv[start])),
                    0 <= start <= i,
                    run_end(lv, start) == run_end(lv, i as int),
                    texts(table@) == lv.subrange(start, i as int),
                decreases n - i,
            {
                let ghost before = table@;
                let line = String::from_str(lines[i].as_str());
                table.push(line);
                proof {
                    lemma_texts_push(before, line);
                    assert(lv[i as int] == lines@[i as int]@);
                    assert(line@ == lines@[i as int]@);
                    assert(lv.len() == n);
                    assert(lv.subrange(start, i + 1) =~= lv.subrange(start, i as int).push(
                        lv[i as int],
                    ));
                }
                assert(texts(table@) =~= lv.subrange(start, i + 1));
                i = i + 1;
            }
            let formatted = format_table(&table);
            let ghost before = out@;
            let mut k: usize = 0;
            while k < formatted.len()
                invariant
                    k <= formatted@.len(),
                    texts(out@) == texts(before) + texts(formatted@).subrange(0, k as int),
                decreases formatted@.len() - k,
            {
                let ghost prev = out@;
                let line = String::from_str(formatted[k].as_str());
                out.push(line);
                proof {
                    lemma_texts_push(prev, line);
                    assert(texts(formatted@)[k as int] == formatted@[k as int]@);
                }
                assert(texts(out@) =~= texts(before) + texts(formatted@).subrange(0, k + 1));
                k = k + 1;
            }
            proof {
                assert(texts(formatted@).subrange(0, k as int) =~= texts(formatted@));
                assert(run_end(lv, i as int) == i);
                assert(texts(before) + (texts(formatted@) + pretty_from(lv, i as int))
                    =~= texts(out@) + pretty_from(lv, i as int));
            }
        }
    }
    assert(texts(out@) + Seq::<Seq<char>>::empty() =~= texts(out@));
    out
}

} // verus!
