//! Turning query results into rows of text for sqllogictest files.

use vstd::prelude::*;
use crate::text::chars_of;
use crate::batch::{Batch, SpecBatch};
use crate::format::{FormatOptions, Formatter, format_spec};
use crate::scalar::SpecScalar;

verus! {

/// The characters of each string.
pub open spec fn string_views(v: Seq<String>) -> Seq<Seq<char>> {
    v.map_values(|x: String| x@)
}

/// The characters of each string slice.
pub open spec fn str_views(v: Seq<&str>) -> Seq<Seq<char>> {
    v.map_values(|x: &str| x@)
}

/// The characters of each string of each row.
pub open spec fn rows_view(v: Seq<Vec<String>>) -> Seq<Seq<Seq<char>>> {
    v.map_values(|r: Vec<String>| string_views(r@))
}

/// Position of the first `\n` in `s`, or the length of `s` when it has none.
pub open spec fn newline_index(s: Seq<char>) -> nat
    decreases s.len(),
{
    if s.len() == 0 {
        0
    } else if s[0] == '\n' {
        0
    } else {
        1 + newline_index(s.drop_first())
    }
}

/// A line without the `\r` of a `\r\n` ending.
pub open spec fn strip_cr(l: Seq<char>) -> Seq<char> {
    if l.len() > 0 && l[l.len() - 1] == '\r' {
        l.drop_last()
    } else {
        l
    }
}

/// The lines of `s`: split at each `\n` (a `\r` just before it belongs to the
/// line ending), where a final line ending does not start another line, and
/// an empty text has no lines.
pub open spec fn lines_of(s: Seq<char>) -> Seq<Seq<char>>
    decreases s.len(),
{
    if s.len() == 0 {
        Seq::empty()
    } else {
        let k = newline_index(s);
        if k >= s.len() {
            seq![s]
        } else {
            seq![strip_cr(s.take(k as int))] + lines_of(s.skip(k + 1 as int))
        }
    }
}

proof fn lemma_newline_index_at(s: Seq<char>, m: int)
    requires
        0 <= m <= s.len(),
        forall|j: int| 0 <= j < m ==> s[j] != '\n',
        m == s.len() || s[m] == '\n',
    ensures
        newline_index(s) == m,
    decreases m,
{
    if m > 0 {
        let s1 = s.drop_first();
        assert(s[0] != '\n');
        assert forall|j: int| 0 <= j < m - 1 implies s1[j] != '\n' by {
            assert(s1[j] == s[j + 1]);
        }
        if m < s.len() {
            assert(s1[m - 1] == s[m]);
        }
        lemma_newline_index_at(s1, m - 1);
    }
}

/// Splits `s` into its lines; see [`lines_of`].
pub fn str_lines(s: &str) -> (r: Vec<String>)
    ensures
        string_views(r@) == lines_of(s@),
{
    let v = chars_of(s);
    let n = v.len();
    let mut lines: Vec<String> = Vec::new();
    let mut start: usize = 0;
    let mut i: usize = 0;
    assert(s@.skip(0) =~= s@);
    assert(string_views(lines@) =~= Seq::<Seq<char>>::empty());
    while i < n
        invariant
            n == v@.len(),
            v@ == s@,
            start <= i <= n,
            forall|j: int| start <= j < i ==> s@[j] != '\n',
            lines_of(s@) == string_views(lines@) + lines_of(s@.skip(start as int)),
        decreases n - i,
    {
        if v[i] == '\n' {
            let ghost rest = s@.skip(start as int);
            proof {
                assert forall|j: int| 0 <= j < i - start implies rest[j] != '\n' by {
                    assert(rest[j] == s@[start + j]);
                }
                assert(rest[i - start] == s@[i as int]);
                lemma_newline_index_at(rest, i - start);
                assert(rest.take(i - start) =~= s@.subrange(start as int, i as int));
                assert(rest.skip(i - start + 1) =~= s@.skip(i + 1));
            }
            let mut end = i;
            if end > start && v[end - 1] == '\r' {
                end = end - 1;
                proof {
                    assert(s@.subrange(start as int, i as int).drop_last() =~= s@.subrange(start as int, end as int));
                }
            }
            let ghost before = lines@;
            lines.push(String::from_str(s.substring_char(start, end)));
            proof {
                assert(string_views(lines@) =~= string_views(before).push(s@.subrange(start as int, end as int)));
                assert(string_views(lines@) + lines_of(s@.skip(i + 1)) =~= string_views(before) + lines_of(rest));
            }
            start = i + 1;
        }
        i = i + 1;
    }
    if start < n {
        let ghost rest = s@.skip(start as int);
        proof {
            assert forall|j: int| 0 <= j < n - start implies rest[j] != '\n' by {
                assert(rest[j] == s@[start + j]);
            }
            lemma_newline_index_at(rest, n - start);
            assert(rest =~= s@.subrange(start as int, n as int));
        }
        let ghost before = lines@;
        lines.push(String::from_str(s.substring_char(start, n)));
        proof {
            assert(string_views(lines@) =~= string_views(before) + lines_of(rest));
        }
    } else {
        proof {
            assert(s@.skip(start as int) =~= Seq::<char>::empty());
            assert(string_views(lines@) + Seq::<Seq<char>>::empty() =~= string_views(lines@));
        }
    }
    lines
}

/// The largest number of lines among the columns.
pub open spec fn max_line_count(cols: Seq<Seq<char>>) -> nat
    decreases cols.len(),
{
    if cols.len() == 0 {
        0
    } else {
        let m = max_line_count(cols.drop_last());
        let c = lines_of(cols.last()).len();
        if c > m {
            c
        } else {
            m
        }
    }
}

/// Line `i` of a column, or `.` when the column has fewer lines.
pub open spec fn cell_line(col: Seq<char>, i: int) -> Seq<char> {
    if i < lines_of(col).len() {
        lines_of(col)[i]
    } else {
        seq!['.']
    }
}

/// The rows that a row of possibly multiline columns becomes: when some
/// column has more than one line, one row per line of the longest column,
/// whose `j`-th cell is that line of column `j` (or `.` where it has none);
/// otherwise none.
pub open spec fn expand_multiline(cols: Seq<Seq<char>>) -> Option<Seq<Seq<Seq<char>>>> {
    let m = max_line_count(cols);
    if m > 1 {
        Some(Seq::new(m, |i: int| Seq::new(cols.len(), |j: int| cell_line(cols[j], i))))
    } else {
        None
    }
}

/// Transforms a row with a potentially multiline column into multiple rows with
/// each column containing a single line.
///
/// Columns that don't have content for that row will instead have a '.'.
/// This allows for nicely formatted SLTs for queries that return multiline
/// results (like EXPLAIN).
pub fn transform_multiline_cols_to_rows(cols: &[&str]) -> (r: Option<Vec<Vec<String>>>)
    ensures
        match r {
            Some(rows) => expand_multiline(str_views(cols@)) == Some(rows_view(rows@)),
            None => expand_multiline(str_views(cols@)) is None,
        },
{
    let ghost views = str_views(cols@);
    let n = cols.len();
    let mut col_lines: Vec<Vec<String>> = Vec::new();
    let mut max: usize = 0;
    let mut j: usize = 0;
    assert(views.take(0) =~= Seq::<Seq<char>>::empty());
    while j < n
        invariant
            n == cols@.len(),
            views == str_views(cols@),
            j <= n,
            col_lines.len() == j,
            forall|k: int| 0 <= k < j ==> string_views(#[trigger] col_lines@[k]@) == lines_of(views[k]),
            max == max_line_count(views.take(j as int)),
            forall|k: int| 0 <= k < j ==> col_lines@[k]@.len() <= max,
        decreases n - j,
    {
        let ls = str_lines(cols[j]);
        proof {
            assert(views[j as int] == cols@[j as int]@);
            assert(views.take(j + 1).drop_last() =~= views.take(j as int));
            assert(string_views(ls@).len() == ls@.len());
        }
        if ls.len() > max {
            max = ls.len();
        }
        col_lines.push(ls);
        j = j + 1;
    }
    assert(views.take(n as int) =~= views);
    if max > 1 {
        let mut rows: Vec<Vec<String>> = Vec::new();
        let mut i: usize = 0;
        while i < max
            invariant
                n == cols@.len(),
                views == str_views(cols@),
                col_lines.len() == n,
                forall|k: int| 0 <= k < n ==> string_views(#[trigger] col_lines@[k]@) == lines_of(views[k]),
                max == max_line_count(views),
                i <= max,
                rows.len() == i,
                forall|a: int| 0 <= a < i ==> #[trigger] string_views(rows@[a]@) == Seq::new(n as nat, |b: int| cell_line(views[b], a)),
            decreases max - i,
        {
            let mut row: Vec<String> = Vec::new();
            let mut k: usize = 0;
            while k < n
                invariant
                    n == cols@.len(),
                    col_lines.len() == n,
                    forall|c: int| 0 <= c < n ==> string_views(#[trigger] col_lines@[c]@) == lines_of(views[c]),
                    k <= n,
                    row.len() == k,
                    forall|b: int| 0 <= b < k ==> #[trigger] row@[b]@ == cell_line(views[b], i as int),
                decreases n - k,
            {
                proof {
                    assert(string_views(col_lines@[k as int]@).len() == col_lines@[k as int]@.len());
                }
                if i < col_lines[k].len() {
                    proof {
                        assert(string_views(col_lines@[k as int]@)[i as int] == col_lines@[k as int]@[i as int]@);
                    }
                    row.push(col_lines[k][i].clone());
                } else {
                    let dot = String::from_str(".");
                    proof {
                        reveal_strlit(".");
                    }
                    row.push(dot);
                }
                k = k + 1;
            }
            proof {
                assert(string_views(row@) =~= Seq::new(n as nat, |b: int| cell_line(views[b], i as int)));
            }
            rows.push(row);
            i = i + 1;
        }
        proof {
            assert(rows_view(rows@) =~= Seq::new(max as nat, |a: int| Seq::new(n as nat, |b: int| cell_line(views[b], a))));
        }
        Some(rows)
    } else {
        None
    }
}

/// How a value is written in a sqllogictest row: NULL as `NULL`, the empty
/// string as `(empty)`.
pub open spec fn slt_text(v: SpecScalar) -> Seq<char> {
    format_spec("NULL"@, "(empty)"@, v)
}

/// The texts of row `r` of a batch, one per column.
pub open spec fn formatted_row(b: SpecBatch, r: int) -> Seq<Seq<char>> {
    Seq::new(b.columns.len(), |j: int| slt_text(b.columns[j][r]))
}

/// A row as it is written: expanded when it has multiline columns, as it is
/// otherwise.
pub open spec fn expand_or_keep(cols: Seq<Seq<char>>) -> Seq<Seq<Seq<char>>> {
    match expand_multiline(cols) {
        Some(rows) => rows,
        None => seq![cols],
    }
}

/// The written rows of the first `n` rows of a batch.
pub open spec fn batch_rows(b: SpecBatch, n: nat) -> Seq<Seq<Seq<char>>>
    decreases n,
{
    if n == 0 {
        Seq::empty()
    } else {
        batch_rows(b, (n - 1) as nat) + expand_or_keep(formatted_row(b, n - 1))
    }
}

/// The written rows of all batches, in order.
pub open spec fn batches_rows(bs: Seq<SpecBatch>) -> Seq<Seq<Seq<char>>>
    decreases bs.len(),
{
    if bs.len() == 0 {
        Seq::empty()
    } else {
        batches_rows(bs.drop_last()) + batch_rows(bs.last(), bs.last().num_rows)
    }
}

/// The models of a sequence of batches.
pub open spec fn batches_view(bs: Seq<Batch>) -> Seq<SpecBatch> {
    bs.map_values(|b: Batch| b@)
}

/// Converts batches to rows.
pub fn batches_to_rows(batches: Vec<Batch>) -> (r: Vec<Vec<String>>)
    ensures
        rows_view(r@) == batches_rows(batches_view(batches@)),
{
    let formatter = Formatter::new(FormatOptions { null: "NULL", empty_string: "(empty)" });
    let ghost bviews = batches_view(batches@);
    let mut rows: Vec<Vec<String>> = Vec::new();
    let mut bi: usize = 0;
    assert(bviews.take(0) =~= Seq::<SpecBatch>::empty());
    assert(rows_view(rows@) =~= Seq::<Seq<Seq<char>>>::empty());
    while bi < batches.len()
        invariant
            bi <= batches@.len(),
            bviews == batches_view(batches@),
            formatter.options.null@ == "NULL"@,
            formatter.options.empty_string@ == "(empty)"@,
            rows_view(rows@) == batches_rows(bviews.take(bi as int)),
        decreases batches@.len() - bi,
    {
        let batch = &batches[bi];
        let arrays = batch.arrays();
        let num_rows = batch.num_rows();
        let ghost b = batch@;
        let ghost rows_before = rows_view(rows@);
        let mut row_idx: usize = 0;
        assert(rows_view(rows@) =~= rows_before + batch_rows(b, 0));
        while row_idx < num_rows
            invariant
                num_rows == b.num_rows,
                arrays@.len() == b.columns.len(),
                forall|j: int| 0 <= j < arrays@.len() ==> #[trigger] arrays@[j].values_view() == b.columns[j],
                forall|j: int| 0 <= j < arrays@.len() ==> #[trigger] arrays@[j].values@.len() == num_rows,
                formatter.options.null@ == "NULL"@,
                formatter.options.empty_string@ == "(empty)"@,
                row_idx <= num_rows,
                rows_view(rows@) == rows_before + batch_rows(b, row_idx as nat),
            decreases num_rows - row_idx,
        {
            let mut col_strings: Vec<String> = Vec::new();
            let mut j: usize = 0;
            while j < arrays.len()
                invariant
                    arrays@.len() == b.columns.len(),
                    forall|k: int| 0 <= k < arrays@.len() ==> #[trigger] arrays@[k].values_view() == b.columns[k],
                    forall|k: int| 0 <= k < arrays@.len() ==> #[trigger] arrays@[k].values@.len() == num_rows,
                    formatter.options.null@ == "NULL"@,
                    formatter.options.empty_string@ == "(empty)"@,
                    row_idx < num_rows,
                    j <= arrays@.len(),
                    col_strings@.len() == j,
                    forall|k: int| 0 <= k < j ==> #[trigger] col_strings@[k]@ == slt_text(b.columns[k][row_idx as int]),
                decreases arrays@.len() - j,
            {
                let cell = &arrays[j].values[row_idx];
                proof {
                    assert(arrays@[j as int].values_view()[row_idx as int] == arrays@[j as int].values@[row_idx as int]@);
                }
                col_strings.push(formatter.format_value(cell));
                j = j + 1;
            }
            let mut col_refs: Vec<&str> = Vec::new();
            let mut k: usize = 0;
            while k < col_strings.len()
                invariant
                    k <= col_strings@.len(),
                    col_refs@.len() == k,
                    forall|c: int| 0 <= c < k ==> #[trigger] col_refs@[c]@ == col_strings@[c]@,
                decreases col_strings@.len() - k,
            {
                col_refs.push(col_strings[k].as_str());
                k = k + 1;
            }
            let ghost cells = formatted_row(b, row_idx as int);
            proof {
                assert(str_views(col_refs@) =~= cells);
                assert(string_views(col_strings@) =~= cells);
            }
            let expanded = transform_multiline_cols_to_rows(col_refs.as_slice());
            let ghost before = rows_view(rows@);
            match expanded {
                Some(new_rows) => {
                    let mut new_rows = new_rows;
                    let ghost added = rows_view(new_rows@);
                    rows.append(&mut new_rows);
                    proof {
                        assert(rows_view(rows@) =~= before + added);
                    }
                },
                None => {
                    rows.push(col_strings);
                    proof {
                        assert(rows_view(rows@) =~= before + seq![cells]);
                    }
                },
            }
            proof {
                assert(batch_rows(b, (row_idx + 1) as nat) == batch_rows(b, row_idx as nat) + expand_or_keep(cells));
                assert(rows_view(rows@) =~= rows_before + batch_rows(b, (row_idx + 1) as nat));
            }
            row_idx = row_idx + 1;
        }
        proof {
            assert(bviews.take(bi + 1).drop_last() =~= bviews.take(bi as int));
            assert(bviews.take(bi + 1).last() == b);
        }
        bi = bi + 1;
    }
    proof {
        assert(bviews.take(batches@.len() as int) =~= bviews);
    }
    rows
}

/// Lines joined back together, with a `\n` between each two.
pub open spec fn join_lines(ls: Seq<Seq<char>>) -> Seq<char>
    decreases ls.len(),
{
    if ls.len() == 0 {
        Seq::empty()
    } else if ls.len() == 1 {
        ls[0]
    } else {
        ls[0] + seq!['\n'] + join_lines(ls.drop_first())
    }
}

proof fn lemma_newline_index_props(s: Seq<char>)
    ensures
        newline_index(s) <= s.len(),
        newline_index(s) < s.len() ==> s[newline_index(s) as int] == '\n',
        forall|j: int| 0 <= j < newline_index(s) ==> s[j] != '\n',
    decreases s.len(),
{
    if s.len() > 0 && s[0] != '\n' {
        let s1 = s.drop_first();
        lemma_newline_index_props(s1);
        assert forall|j: int| 0 <= j < newline_index(s) implies s[j] != '\n' by {
            if j > 0 {
                assert(s[j] == s1[j - 1]);
            }
        }
        if newline_index(s) < s.len() {
            assert(s[newline_index(s) as int] == s1[newline_index(s1) as int]);
        }
    }
}

/// What splitting into lines does: no line holds a `\n`, and, for a text
/// without `\r`, the lines joined by `\n` give the text back, less a final
/// `\n`.
pub proof fn lemma_lines_of_splits_at_newlines(s: Seq<char>)
    ensures
        forall|i: int| 0 <= i < lines_of(s).len() ==> !(#[trigger] lines_of(s)[i]).contains('\n'),
        !s.contains('\r') ==> join_lines(lines_of(s)) == if s.len() > 0 && s.last() == '\n' {
            s.drop_last()
        } else {
            s
        },
    decreases s.len(),
{
    if s.len() > 0 {
        let k = newline_index(s);
        lemma_newline_index_props(s);
        if k >= s.len() {
            assert(!s.contains('\n'));
            assert(lines_of(s) =~= seq![s]);
        } else {
            let head = s.take(k as int);
            let rest = s.skip(k + 1 as int);
            lemma_lines_of_splits_at_newlines(rest);
            assert(!head.contains('\n')) by {
                if head.contains('\n') {
                    let j = choose|j: int| 0 <= j < head.len() && head[j] == '\n';
                    assert(s[j] == '\n');
                }
            }
            assert(!strip_cr(head).contains('\n')) by {
                if strip_cr(head).contains('\n') {
                    let j = choose|j: int| 0 <= j < strip_cr(head).len() && strip_cr(head)[j] == '\n';
                    assert(head[j] == '\n');
                }
            }
            let ls = lines_of(s);
            assert(ls == seq![strip_cr(head)] + lines_of(rest));
            assert forall|i: int| 0 <= i < ls.len() implies !(#[trigger] ls[i]).contains('\n') by {
                if i > 0 {
                    assert(ls[i] == lines_of(rest)[i - 1]);
                }
            }
            if !s.contains('\r') {
                if head.len() > 0 {
                    assert(head.contains(head[head.len() - 1]));
                    assert(head[head.len() - 1] == s[head.len() - 1]);
                    assert(s.contains(s[head.len() - 1]));
                }
                assert(strip_cr(head) == head);
                assert(!rest.contains('\r')) by {
                    if rest.contains('\r') {
                        let j = choose|j: int| 0 <= j < rest.len() && rest[j] == '\r';
                        assert(s[k + 1 + j] == '\r');
                    }
                }
                if rest.len() == 0 {
                    assert(lines_of(rest) =~= Seq::<Seq<char>>::empty());
                    assert(ls =~= seq![head]);
                    assert(s.drop_last() =~= head);
                } else {
                    assert(lines_of(rest).len() > 0);
                    assert(ls.drop_first() =~= lines_of(rest));
                    assert(ls.len() > 1);
                    assert(join_lines(ls) == head + seq!['\n'] + join_lines(lines_of(rest)));
                    assert(s.last() == rest.last());
                    if rest.last() == '\n' {
                        assert(s.drop_last() =~= head + seq!['\n'] + rest.drop_last());
                    } else {
                        assert(s =~= head + seq!['\n'] + rest);
                    }
                }
            }
        }
    }
}

/// How a value is written in sqllogictest rows: NULL as `NULL`, the empty
/// string as `(empty)`, any other string as it is, a boolean as `true` or
/// `false`, and an integer in decimal.
pub proof fn lemma_slt_text_values(v: SpecScalar)
    ensures
        v is Null ==> slt_text(v) == seq!['N', 'U', 'L', 'L'],
        v matches SpecScalar::Utf8(t) ==> slt_text(v) == if t.len() == 0 {
            seq!['(', 'e', 'm', 'p', 't', 'y', ')']
        } else {
            t
        },
        v matches SpecScalar::Boolean(b) ==> slt_text(v) == if b {
            seq!['t', 'r', 'u', 'e']
        } else {
            seq!['f', 'a', 'l', 's', 'e']
        },
        v matches SpecScalar::Int32(x) ==> slt_text(v) == crate::format::int_text(x as int),
        v matches SpecScalar::Int64(x) ==> slt_text(v) == crate::format::int_text(x as int),
{
    reveal_strlit("NULL");
    reveal_strlit("(empty)");
    assert("NULL"@ =~= seq!['N', 'U', 'L', 'L']);
    assert("(empty)"@ =~= seq!['(', 'e', 'm', 'p', 't', 'y', ')']);
}

proof fn lemma_single_line_counts(cols: Seq<Seq<char>>)
    requires
        forall|j: int| 0 <= j < cols.len() ==> !(#[trigger] cols[j]).contains('\n'),
    ensures
        max_line_count(cols) <= 1,
    decreases cols.len(),
{
    if cols.len() > 0 {
        let c = cols.last();
        assert(cols.drop_last().len() == cols.len() - 1);
        assert forall|j: int| 0 <= j < cols.drop_last().len() implies !(#[trigger] cols.drop_last()[j]).contains('\n') by {
            assert(cols.drop_last()[j] == cols[j]);
        }
        lemma_single_line_counts(cols.drop_last());
        assert(!c.contains('\n'));
        if c.len() > 0 {
            lemma_newline_index_props(c);
            if newline_index(c) < c.len() {
                assert(c.contains(c[newline_index(c) as int]));
            }
        }
    }
}

/// A row none of whose cells spans more than one line is not expanded: it
/// is written as it is.
pub proof fn lemma_single_line_rows_are_kept(cols: Seq<Seq<char>>)
    requires
        forall|j: int| 0 <= j < cols.len() ==> !(#[trigger] cols[j]).contains('\n'),
    ensures
        expand_multiline(cols) is None,
        expand_or_keep(cols) == seq![cols],
{
    lemma_single_line_counts(cols);
}

/// An expanded row becomes rows of single-line cells, one cell per column:
/// no written cell holds a `\n`.
pub proof fn lemma_expanded_cells_are_single_lines(cols: Seq<Seq<char>>)
    ensures
        forall|i: int| 0 <= i < expand_or_keep(cols).len() ==> (#[trigger] expand_or_keep(cols)[i]).len() == cols.len(),
        expand_multiline(cols) is Some ==> forall|i: int, j: int|
            0 <= i < expand_or_keep(cols).len() && 0 <= j < cols.len() ==> !(#[trigger] expand_or_keep(cols)[i][j]).contains('\n'),
{
    if expand_multiline(cols) is Some {
        let rows = expand_multiline(cols)->Some_0;
        assert forall|i: int, j: int| 0 <= i < rows.len() && 0 <= j < cols.len() implies !(#[trigger] rows[i][j]).contains('\n') by {
            assert(rows[i][j] == cell_line(cols[j], i));
            lemma_lines_of_splits_at_newlines(cols[j]);
            if i >= lines_of(cols[j]).len() {
                assert(!seq!['.'].contains('\n')) by {
                    if seq!['.'].contains('\n') {
                        let k = choose|k: int| 0 <= k < 1 && seq!['.'][k] == '\n';
                        assert(seq!['.'][k] == '.');
                    }
                }
            }
        }
    }
}

} // verus!
