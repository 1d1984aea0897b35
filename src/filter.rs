//! The filter engine: which rows of each source survive, and their shape.
//!
//! Rules are applied in a fixed order: the head and tail windows of each
//! source first, then the per-row content predicates, then column removal on
//! the rows that survived.
use vstd::prelude::*;
use crate::record::{FieldView, Record, field_is_empty};

verus! {

/// One row, as its sequence of field values.
pub type Row = Seq<FieldView>;

/// The skip and drop rules of a merge.
#[derive(Debug)]
pub struct Skip {
    /// Rows dropped from the head of each source; when the flag is set the
    /// first source keeps its head.
    pub head: (usize, bool),
    /// Rows dropped from the tail of each source; when the flag is set the
    /// last source keeps its tail.
    pub tail: (usize, bool),
    /// Drops any row whose length is not the longest one seen.
    pub non_max_length: bool,
    /// Drops any row with fewer fields than this.
    pub length_less_than: Option<usize>,
    /// Drops any row where a field at one of these (zero-based) indices is
    /// empty; an index past the row's end does not count.
    pub fields_is_empty: Option<Vec<usize>>,
    /// Removes these (zero-based) columns from every surviving row.
    pub columns: Option<Vec<usize>>,
}

/// The value of a [`Skip`] rule set.
pub struct SkipView {
    pub head: (usize, bool),
    pub tail: (usize, bool),
    pub non_max_length: bool,
    pub length_less_than: Option<usize>,
    pub fields_is_empty: Option<Seq<usize>>,
    pub columns: Option<Seq<usize>>,
}

/// The value of an optional list of indices.
pub open spec fn indices_view(v: Option<Vec<usize>>) -> Option<Seq<usize>> {
    match v {
        Some(v) => Some(v@),
        None => None,
    }
}

impl View for Skip {
    type V = SkipView;

    open spec fn view(&self) -> SkipView {
        SkipView {
            head: self.head,
            tail: self.tail,
            non_max_length: self.non_max_length,
            length_less_than: self.length_less_than,
            fields_is_empty: indices_view(self.fields_is_empty),
            columns: indices_view(self.columns),
        }
    }
}

/// The rows of each source, as values.
pub open spec fn rows_of(s: Seq<Record>) -> Seq<Row> {
    s.map_values(|r: Record| r@)
}

/// The rows of every source, as values.
pub open spec fn sources_view(v: Seq<Vec<Record>>) -> Seq<Seq<Row>> {
    v.map_values(|s: Vec<Record>| rows_of(s@))
}

/// The rows of a source that follow its header row, if it has one.
pub open spec fn body<T>(rows: Seq<T>, has_headers: bool) -> Seq<T> {
    if has_headers && rows.len() > 0 {
        rows.drop_first()
    } else {
        rows
    }
}

/// `rows` without its first `head` and its last `tail` elements.
pub open spec fn window<T>(rows: Seq<T>, head: int, tail: int) -> Seq<T> {
    let lo = if head < rows.len() { head } else { rows.len() as int };
    let hi = if rows.len() - tail > lo { rows.len() - tail } else { lo };
    rows.subrange(lo, hi)
}

/// How many head rows source `i` loses.
pub open spec fn head_count(skip: SkipView, i: int) -> int {
    if i == 0 && skip.head.1 { 0 } else { skip.head.0 as int }
}

/// How many tail rows source `i` of `n` loses.
pub open spec fn tail_count(skip: SkipView, i: int, n: int) -> int {
    if i == n - 1 && skip.tail.1 { 0 } else { skip.tail.0 as int }
}

/// The data rows of source `i` of `n` that the head and tail windows keep.
pub open spec fn windowed(src: Seq<Row>, skip: SkipView, has_headers: bool, i: int, n: int) -> Seq<Row> {
    window(body(src, has_headers), head_count(skip, i), tail_count(skip, i, n))
}

/// The largest length among `rows` (0 when there are none).
pub open spec fn max_len(rows: Seq<Row>) -> nat
    decreases rows.len(),
{
    if rows.len() == 0 {
        0
    } else {
        let m = max_len(rows.drop_last());
        if rows.last().len() > m { rows.last().len() } else { m }
    }
}

/// The largest length among the windowed rows of the first `k` sources.
pub open spec fn max_upto(srcs: Seq<Seq<Row>>, skip: SkipView, has_headers: bool, k: int) -> nat
    decreases k,
{
    if k <= 0 {
        0
    } else {
        let m = max_upto(srcs, skip, has_headers, k - 1);
        let w = max_len(windowed(srcs[k - 1], skip, has_headers, k - 1, srcs.len() as int));
        if w > m { w } else { m }
    }
}

/// The largest field count among all windowed rows of all sources.
pub open spec fn max_field_count(srcs: Seq<Seq<Row>>, skip: SkipView, has_headers: bool) -> nat {
    max_upto(srcs, skip, has_headers, srcs.len() as int)
}

/// Whether a field at one of the indices `idx` of `row` is empty.
pub open spec fn has_empty_at(row: Row, idx: Seq<usize>) -> bool {
    exists|k: int| 0 <= k < idx.len() && #[trigger] idx[k] < row.len() && field_is_empty(row[idx[k] as int])
}

/// Whether the content rules let `row` through, `max` being the largest field count.
pub open spec fn admits(skip: SkipView, max: nat, row: Row) -> bool {
    &&& (skip.length_less_than matches Some(t) ==> row.len() >= t)
    &&& (skip.fields_is_empty matches Some(idx) ==> !has_empty_at(row, idx))
    &&& (skip.non_max_length ==> row.len() == max)
}

/// `row` without the fields whose positions are in `cols`.
pub open spec fn drop_columns(row: Row, cols: Seq<usize>) -> Row
    decreases row.len(),
{
    if row.len() == 0 {
        row
    } else {
        let p = drop_columns(row.drop_last(), cols);
        if cols.contains((row.len() - 1) as usize) { p } else { p.push(row.last()) }
    }
}

/// The shape of a surviving row once the column rule is applied.
pub open spec fn shape(row: Row, skip: SkipView) -> Row {
    match skip.columns {
        Some(c) => drop_columns(row, c),
        None => row,
    }
}

/// The rows of `rows` that the content rules admit, each shaped, in order.
pub open spec fn admitted(rows: Seq<Row>, skip: SkipView, max: nat) -> Seq<Row>
    decreases rows.len(),
{
    if rows.len() == 0 {
        Seq::empty()
    } else {
        let p = admitted(rows.drop_last(), skip, max);
        if admits(skip, max, rows.last()) { p.push(shape(rows.last(), skip)) } else { p }
    }
}

/// What source `i` of `srcs` contributes to the merge.
pub open spec fn source_output(srcs: Seq<Seq<Row>>, skip: SkipView, has_headers: bool, max: nat, i: int) -> Seq<Row> {
    admitted(windowed(srcs[i], skip, has_headers, i, srcs.len() as int), skip, max)
}

/// The merged rows of the first `k` sources.
pub open spec fn merged_upto(srcs: Seq<Seq<Row>>, skip: SkipView, has_headers: bool, max: nat, k: int) -> Seq<Row>
    decreases k,
{
    if k <= 0 {
        Seq::empty()
    } else {
        merged_upto(srcs, skip, has_headers, max, k - 1) + source_output(srcs, skip, has_headers, max, k - 1)
    }
}

/// The data rows of a merge of `srcs`.
pub open spec fn merged_rows(srcs: Seq<Seq<Row>>, skip: SkipView, has_headers: bool) -> Seq<Row> {
    merged_upto(srcs, skip, has_headers, max_field_count(srcs, skip, has_headers), srcs.len() as int)
}

/// The first row of the first source at or after `k` that has one.
pub open spec fn first_row_from(srcs: Seq<Seq<Row>>, k: int) -> Option<Row>
    decreases srcs.len() - k,
{
    if k < 0 || k >= srcs.len() {
        None
    } else if srcs[k].len() > 0 {
        Some(srcs[k][0])
    } else {
        first_row_from(srcs, k + 1)
    }
}

/// The first row of the first source that has one.
pub open spec fn first_row(srcs: Seq<Seq<Row>>) -> Option<Row> {
    first_row_from(srcs, 0)
}

/// The header row of a merge of `srcs`: the first header seen, shaped.
pub open spec fn merged_header(srcs: Seq<Seq<Row>>, skip: SkipView, has_headers: bool) -> Option<Row> {
    if has_headers && (first_row(srcs) is Some) {
        Some(shape(first_row(srcs)->Some_0, skip))
    } else {
        None
    }
}

impl Skip {
    /// A rule set that keeps every row and every column.
    pub fn new() -> (r: Skip)
        ensures
            r.head == (0usize, false),
            r.tail == (0usize, false),
            !r.non_max_length,
            r.length_less_than is None,
            r.fields_is_empty is None,
            r.columns is None,
        r@.keeps_all(),
    {
        Skip {
            head: (0, false),
            tail: (0, false),
            non_max_length: false,
            length_less_than: None,
            fields_is_empty: None,
            columns: None,
        }
    }

}

impl SkipView {
    /// Whether no rule of this set drops a row or a column.
    pub open spec fn keeps_all(self) -> bool {
        &&& self.head.0 == 0
        &&& self.tail.0 == 0
        &&& !self.non_max_length
        &&& self.length_less_than is None
        &&& self.fields_is_empty is None
        &&& self.columns is None
    }
}

impl Skip {
    /// A copy of this rule set.
    pub fn duplicate(&self) -> (r: Skip)
        ensures
            r@ == self@,
    {
        let fields_is_empty = match &self.fields_is_empty {
            Some(v) => Some(copy_indices(v)),
            None => None,
        };
        let columns = match &self.columns {
            Some(v) => Some(copy_indices(v)),
            None => None,
        };
        Skip {
            head: self.head,
            tail: self.tail,
            non_max_length: self.non_max_length,
            length_less_than: self.length_less_than,
            fields_is_empty,
            columns,
        }
    }
}

/// A copy of a list of indices.
fn copy_indices(v: &Vec<usize>) -> (r: Vec<usize>)
    ensures
        r@ == v@,
{
    let r = v.clone();
    assert(r@ =~= v@);
    r
}

/// The bounds `(lo, hi)` of `window` on a sequence of length `len`.
fn window_bounds(len: usize, head: usize, tail: usize) -> (r: (usize, usize))
    ensures
        r.0 <= r.1 <= len,
        forall|s: Seq<Row>| s.len() == len ==> #[trigger] window(s, head as int, tail as int) == s.subrange(r.0 as int, r.1 as int),
{
    let lo = if head < len { head } else { len };
    let hi = if len - lo > tail { len - tail } else { lo };
    (lo, hi)
}

/// The bounds `(lo, hi)` such that source `i` of `n`, of `len` rows, keeps
/// the rows `lo..hi` through the head and tail windows.
pub fn window_of(len: usize, skip: &Skip, has_headers: bool, i: usize, n: usize) -> (r: (usize, usize))
    requires
        i < n,
    ensures
        r.0 <= r.1 <= len,
        forall|s: Seq<Row>| s.len() == len ==> #[trigger] windowed(s, skip@, has_headers, i as int, n as int) == s.subrange(r.0 as int, r.1 as int),
{
    let start: usize = if has_headers && len > 0 { 1 } else { 0 };
    let rest = len - start;
    let head = if i == 0 && skip.head.1 { 0 } else { skip.head.0 };
    let tail = if i == n - 1 && skip.tail.1 { 0 } else { skip.tail.0 };
    let lo = if head < rest { head } else { rest };
    let hi = if rest - lo > tail { rest - tail } else { lo };
    assert forall|s: Seq<Row>| s.len() == len implies #[trigger] windowed(s, skip@, has_headers, i as int, n as int) == s.subrange(start + lo, start + hi) by {
        let b = body(s, has_headers);
        assert(b =~= s.subrange(start as int, len as int));
        assert(window(b, head as int, tail as int) =~= s.subrange(start + lo, start + hi));
    }
    (start + lo, start + hi)
}

/// Whether `rec` has an empty field at one of the indices `idx`.
pub fn has_empty_field(rec: &Record, idx: &Vec<usize>) -> (r: bool)
    ensures
        r == has_empty_at(rec@, idx@),
{
    let mut k: usize = 0;
    while k < idx.len()
        invariant
            k <= idx@.len(),
            forall|m: int| 0 <= m < k ==> !(#[trigger] idx@[m] < rec@.len() && field_is_empty(rec@[idx@[m] as int])),
        decreases idx.len() - k,
    {
        if rec.is_empty_at(idx[k]) {
            assert(idx@[k as int] < rec@.len() && field_is_empty(rec@[idx@[k as int] as int]));
            return true;
        }
        k = k + 1;
    }
    false
}

/// Whether the content rules of `skip` admit `rec`, `max` being the largest field count.
pub fn admits_row(skip: &Skip, max: usize, rec: &Record) -> (r: bool)
    ensures
        r == admits(skip@, max as nat, rec@),
{
    let len = rec.len();
    if let Some(t) = skip.length_less_than {
        if len < t {
            return false;
        }
    }
    if let Some(idx) = &skip.fields_is_empty {
        if has_empty_field(rec, idx) {
            return false;
        }
    }
    if skip.non_max_length && len != max {
        return false;
    }
    true
}

/// `rec` shaped by the column rule of `skip`.
pub fn shape_row(skip: &Skip, rec: &Record) -> (r: Record)
    ensures
        r@ == shape(rec@, skip@),
{
    match &skip.columns {
        Some(cols) => rec.without_columns(cols),
        None => rec.duplicate(),
    }
}

/// The largest field count among the rows of `rows` from `lo` up to `hi`.
fn max_len_of(rows: &Vec<Record>, lo: usize, hi: usize) -> (r: usize)
    requires
        lo <= hi <= rows@.len(),
    ensures
        r == max_len(rows_of(rows@).subrange(lo as int, hi as int)),
{
    let ghost s = rows_of(rows@);
    let mut m: usize = 0;
    let mut j: usize = lo;
    while j < hi
        invariant
            lo <= j <= hi <= rows@.len(),
            s == rows_of(rows@),
            m == max_len(s.subrange(lo as int, j as int)),
        decreases hi - j,
    {
        assert(s.subrange(lo as int, j as int + 1).drop_last() == s.subrange(lo as int, j as int));
        let l = rows[j].len();
        if l > m {
            m = l;
        }
        j = j + 1;
    }
    m
}

/// The largest field count among the rows that the head and tail windows
/// keep, over all sources.
pub fn max_field_count_of(sources: &Vec<Vec<Record>>, skip: &Skip, has_headers: bool) -> (r: usize)
    ensures
        r == max_field_count(sources_view(sources@), skip@, has_headers),
{
    let ghost srcs = sources_view(sources@);
    let n = sources.len();
    let mut m: usize = 0;
    let mut k: usize = 0;
    while k < n
        invariant
            k <= n == sources@.len(),
            srcs == sources_view(sources@),
            m == max_upto(srcs, skip@, has_headers, k as int),
        decreases n - k,
    {
        let (lo, hi) = window_of(sources[k].len(), skip, has_headers, k, n);
        assert(srcs[k as int] == rows_of(sources@[k as int]@));
        let w = max_len_of(&sources[k], lo, hi);
        if w > m {
            m = w;
        }
        k = k + 1;
    }
    m
}

/// The header of a merge: the first row of the first source that has one,
/// shaped by the column rule, when headers are enabled.
pub fn merge_header(sources: &Vec<Vec<Record>>, skip: &Skip, has_headers: bool) -> (r: Option<Record>)
    ensures
        match r {
            Some(h) => merged_header(sources_view(sources@), skip@, has_headers) == Some(h@),
            None => merged_header(sources_view(sources@), skip@, has_headers) is None,
        },
{
    if !has_headers {
        return None;
    }
    let ghost srcs = sources_view(sources@);
    let mut k: usize = 0;
    while k < sources.len()
        invariant
            k <= sources@.len(),
            has_headers,
            srcs == sources_view(sources@),
            first_row(srcs) == first_row_from(srcs, k as int),
        decreases sources.len() - k,
    {
        assert(srcs[k as int] == rows_of(sources@[k as int]@));
        if sources[k].len() > 0 {
            assert(srcs[k as int][0] == sources@[k as int]@[0]@);
            assert(first_row(srcs) == Some(srcs[k as int][0]));
            return Some(shape_row(skip, &sources[k][0]));
        }
        k = k + 1;
    }
    None
}

/// The data rows of a merge of `sources` under `skip`.
pub fn merge_rows(sources: &Vec<Vec<Record>>, skip: &Skip, has_headers: bool) -> (r: Vec<Record>)
    ensures
        rows_of(r@) == merged_rows(sources_view(sources@), skip@, has_headers),
{
    let ghost srcs = sources_view(sources@);
    let max = max_field_count_of(sources, skip, has_headers);
    let n = sources.len();
    let mut out: Vec<Record> = Vec::new();
    let mut k: usize = 0;
    while k < n
        invariant
            k <= n == sources@.len(),
            srcs == sources_view(sources@),
            srcs.len() == n,
            max == max_field_count(srcs, skip@, has_headers),
            rows_of(out@) == merged_upto(srcs, skip@, has_headers, max as nat, k as int),
        decreases n - k,
    {
        let src = &sources[k];
        let ghost s = srcs[k as int];
        assert(s == rows_of(src@));
        let (lo, hi) = window_of(src.len(), skip, has_headers, k, n);
        let ghost before = rows_of(out@);
        let mut j: usize = lo;
        while j < hi
            invariant
                lo <= j <= hi <= src@.len(),
                s == rows_of(src@),
                rows_of(out@) == before + admitted(s.subrange(lo as int, j as int), skip@, max as nat),
            decreases hi - j,
        {
            let ghost done = s.subrange(lo as int, j as int);
            assert(s.subrange(lo as int, j as int + 1).drop_last() == done);
            assert(s.subrange(lo as int, j as int + 1).last() == src@[j as int]@);
            let rec = &src[j];
            if admits_row(skip, max, rec) {
                let shaped = shape_row(skip, rec);
                let ghost prev = rows_of(out@);
                out.push(shaped);
                assert(rows_of(out@) =~= prev.push(shaped@));
                assert(rows_of(out@) =~= before + admitted(s.subrange(lo as int, j as int + 1), skip@, max as nat));
            }
            j = j + 1;
        }
        assert(windowed(s, skip@, has_headers, k as int, n as int) == s.subrange(lo as int, hi as int));
        k = k + 1;
    }
    out
}

} // verus!
