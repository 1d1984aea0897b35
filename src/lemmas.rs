//! Facts about merges that relate several rules or several calls.
use vstd::prelude::*;
use crate::Trim;
use crate::filter::{
    Row, SkipView, admits, admitted, body, first_row, has_empty_at, max_field_count,
    max_upto, merged_rows, merged_upto, shape, source_output, windowed,
};
use crate::merger::{Newline, merge_of, prepared};
use crate::writer::{csv_line, csv_lines, csv_output};

verus! {

/// How many of `rows` the content rules admit.
pub open spec fn count_admitted(rows: Seq<Row>, skip: SkipView, max: nat) -> nat
    decreases rows.len(),
{
    if rows.len() == 0 {
        0
    } else {
        count_admitted(rows.drop_last(), skip, max) + if admits(skip, max, rows.last()) { 1nat } else { 0nat }
    }
}

/// The rows that each of the first `k` sources admits on its own, summed.
pub open spec fn admitted_total(srcs: Seq<Seq<Row>>, skip: SkipView, has_headers: bool, max: nat, k: int) -> nat
    decreases k,
{
    if k <= 0 {
        0
    } else {
        admitted_total(srcs, skip, has_headers, max, k - 1) + count_admitted(
            windowed(srcs[k - 1], skip, has_headers, k - 1, srcs.len() as int),
            skip,
            max,
        )
    }
}

proof fn lemma_admitted_len(rows: Seq<Row>, skip: SkipView, max: nat)
    ensures
        admitted(rows, skip, max).len() == count_admitted(rows, skip, max),
    decreases rows.len(),
{
    if rows.len() > 0 {
        lemma_admitted_len(rows.drop_last(), skip, max);
    }
}

proof fn lemma_merged_upto_len(srcs: Seq<Seq<Row>>, skip: SkipView, has_headers: bool, max: nat, k: int)
    ensures
        merged_upto(srcs, skip, has_headers, max, k).len() == admitted_total(srcs, skip, has_headers, max, k),
    decreases k,
{
    if k > 0 {
        lemma_merged_upto_len(srcs, skip, has_headers, max, k - 1);
        lemma_admitted_len(windowed(srcs[k - 1], skip, has_headers, k - 1, srcs.len() as int), skip, max);
    }
}

/// A merge keeps as many rows as the sources admit, each counted on its own
/// against the rules (the largest field count being that of the whole merge).
pub proof fn lemma_row_count_is_sum(srcs: Seq<Seq<Row>>, trim: Trim, has_headers: bool, skip: SkipView)
    ensures
        merge_of(srcs, trim, has_headers, skip).1.len() == ({
            let p = prepared(srcs, trim, has_headers);
            admitted_total(p, skip, has_headers, max_field_count(p, skip, has_headers), p.len() as int)
        }),
{
    let p = prepared(srcs, trim, has_headers);
    lemma_merged_upto_len(p, skip, has_headers, max_field_count(p, skip, has_headers), p.len() as int);
}

/// The data rows of the first `k` sources, one after the other.
pub open spec fn bodies_upto(srcs: Seq<Seq<Row>>, has_headers: bool, k: int) -> Seq<Row>
    decreases k,
{
    if k <= 0 {
        Seq::empty()
    } else {
        bodies_upto(srcs, has_headers, k - 1) + body(srcs[k - 1], has_headers)
    }
}

proof fn lemma_admitted_all(rows: Seq<Row>, skip: SkipView, max: nat)
    requires
        skip.keeps_all(),
    ensures
        admitted(rows, skip, max) == rows,
    decreases rows.len(),
{
    if rows.len() > 0 {
        lemma_admitted_all(rows.drop_last(), skip, max);
        assert(admitted(rows.drop_last(), skip, max).push(rows.last()) =~= rows);
    }
}

proof fn lemma_merged_upto_all(srcs: Seq<Seq<Row>>, skip: SkipView, has_headers: bool, max: nat, k: int)
    requires
        skip.keeps_all(),
        k <= srcs.len(),
    ensures
        merged_upto(srcs, skip, has_headers, max, k) == bodies_upto(srcs, has_headers, k),
    decreases k,
{
    if k > 0 {
        lemma_merged_upto_all(srcs, skip, has_headers, max, k - 1);
        let b = body(srcs[k - 1], has_headers);
        let w = windowed(srcs[k - 1], skip, has_headers, k - 1, srcs.len() as int);
        assert(w =~= b);
        lemma_admitted_all(w, skip, max);
    }
}

/// With no head or tail skipped and no other rule, a merge is the
/// concatenation of every source's rows; with headers, the first row of the
/// first source that has one becomes the header and each source's first row
/// is left out of the data.
pub proof fn lemma_no_rules_concatenates(srcs: Seq<Seq<Row>>, has_headers: bool, skip: SkipView)
    requires
        skip.keeps_all(),
    ensures
        merge_of(srcs, Trim::Preserve, has_headers, skip).1 == bodies_upto(srcs, has_headers, srcs.len() as int),
        merge_of(srcs, Trim::Preserve, has_headers, skip).0 == (if has_headers { first_row(srcs) } else { None }),
{
    let p = prepared(srcs, Trim::Preserve, has_headers);
    assert forall|i: int| 0 <= i < srcs.len() implies p[i] == srcs[i] by {
        assert(p[i] =~= srcs[i]);
    }
    assert(p =~= srcs);
    lemma_merged_upto_all(srcs, skip, has_headers, max_field_count(srcs, skip, has_headers), srcs.len() as int);
}

/// The rule set `skip` without its column rule.
pub open spec fn without_column_rule(skip: SkipView) -> SkipView {
    SkipView { columns: None, ..skip }
}

proof fn lemma_max_upto_columns(srcs: Seq<Seq<Row>>, skip: SkipView, has_headers: bool, k: int)
    ensures
        max_upto(srcs, skip, has_headers, k) == max_upto(srcs, without_column_rule(skip), has_headers, k),
    decreases k,
{
    if k > 0 {
        lemma_max_upto_columns(srcs, skip, has_headers, k - 1);
        assert(windowed(srcs[k - 1], skip, has_headers, k - 1, srcs.len() as int) == windowed(
            srcs[k - 1],
            without_column_rule(skip),
            has_headers,
            k - 1,
            srcs.len() as int,
        ));
    }
}

proof fn lemma_admitted_columns(rows: Seq<Row>, skip: SkipView, max: nat)
    ensures
        admitted(rows, skip, max) == admitted(rows, without_column_rule(skip), max).map_values(|r: Row| shape(r, skip)),
    decreases rows.len(),
{
    let s0 = without_column_rule(skip);
    if rows.len() > 0 {
        lemma_admitted_columns(rows.drop_last(), skip, max);
        assert(admits(skip, max, rows.last()) == admits(s0, max, rows.last()));
        assert(shape(rows.last(), s0) == rows.last());
        assert(admitted(rows, skip, max) =~= admitted(rows, s0, max).map_values(|r: Row| shape(r, skip)));
    } else {
        assert(admitted(rows, skip, max) =~= admitted(rows, s0, max).map_values(|r: Row| shape(r, skip)));
    }
}

proof fn lemma_merged_upto_columns(srcs: Seq<Seq<Row>>, skip: SkipView, has_headers: bool, max: nat, k: int)
    ensures
        merged_upto(srcs, skip, has_headers, max, k) == merged_upto(srcs, without_column_rule(skip), has_headers, max, k).map_values(
            |r: Row| shape(r, skip),
        ),
    decreases k,
{
    let s0 = without_column_rule(skip);
    if k > 0 {
        lemma_merged_upto_columns(srcs, skip, has_headers, max, k - 1);
        let w = windowed(srcs[k - 1], skip, has_headers, k - 1, srcs.len() as int);
        assert(w == windowed(srcs[k - 1], s0, has_headers, k - 1, srcs.len() as int));
        lemma_admitted_columns(w, skip, max);
        assert(merged_upto(srcs, skip, has_headers, max, k) =~= merged_upto(srcs, s0, has_headers, max, k).map_values(
            |r: Row| shape(r, skip),
        ));
    } else {
        assert(merged_upto(srcs, skip, has_headers, max, k) =~= merged_upto(srcs, s0, has_headers, max, k).map_values(
            |r: Row| shape(r, skip),
        ));
    }
}

/// The column rule never decides which rows survive: the rows a merge keeps
/// are those it keeps without that rule, in the same order, each with the
/// listed columns removed.
pub proof fn lemma_columns_keep_survivors(srcs: Seq<Seq<Row>>, trim: Trim, has_headers: bool, skip: SkipView)
    ensures
        merge_of(srcs, trim, has_headers, skip).1 == merge_of(srcs, trim, has_headers, without_column_rule(skip)).1.map_values(
            |r: Row| shape(r, skip),
        ),
        merge_of(srcs, trim, has_headers, skip).1.len() == merge_of(srcs, trim, has_headers, without_column_rule(skip)).1.len(),
{
    let p = prepared(srcs, trim, has_headers);
    lemma_max_upto_columns(p, skip, has_headers, p.len() as int);
    lemma_merged_upto_columns(p, skip, has_headers, max_field_count(p, skip, has_headers), p.len() as int);
}

proof fn lemma_csv_lines_concat(a: Seq<Row>, b: Seq<Row>, nl: Newline)
    ensures
        csv_lines(a + b, nl) == csv_lines(a, nl) + csv_lines(b, nl),
    decreases b.len(),
{
    if b.len() == 0 {
        assert(a + b =~= a);
        assert(csv_lines(a, nl) + csv_lines(b, nl) =~= csv_lines(a, nl));
    } else {
        assert((a + b).drop_last() =~= a + b.drop_last());
        lemma_csv_lines_concat(a, b.drop_last(), nl);
        assert(csv_lines(a + b, nl) =~= csv_lines(a, nl) + csv_lines(b, nl));
    }
}

/// Merging a single source with headers and writing CSV gives the lines of
/// its header and of its filtered rows, in order; with no rule and no
/// trimming, the lines of every row of the source, exactly.
pub proof fn lemma_single_source_round_trip(rows: Seq<Row>, trim: Trim, skip: SkipView, nl: Newline)
    requires
        rows.len() > 0,
    ensures
        ({
            let m = merge_of(seq![rows], trim, true, skip);
            let p = prepared(seq![rows], trim, true);
            csv_output(m.0, m.1, nl) == csv_lines(
                seq![shape(p[0][0], skip)] + source_output(p, skip, true, max_field_count(p, skip, true), 0),
                nl,
            )
        }),
        skip.keeps_all() && trim == Trim::Preserve ==> ({
            let m = merge_of(seq![rows], trim, true, skip);
            csv_output(m.0, m.1, nl) == csv_lines(rows, nl)
        }),
{
    let srcs = seq![rows];
    let p = prepared(srcs, trim, true);
    let max = max_field_count(p, skip, true);
    let h = shape(p[0][0], skip);
    assert(first_row(p) == Some(p[0][0]));
    let out = source_output(p, skip, true, max, 0);
    assert(merged_upto(p, skip, true, max, 0) == Seq::<Row>::empty());
    assert(merged_upto(p, skip, true, max, 1) =~= out);
    assert(csv_lines(seq![h], nl) =~= csv_line(h, nl)) by {
        assert(seq![h].drop_last() =~= Seq::<Row>::empty());
        assert(csv_lines(Seq::<Row>::empty(), nl) == Seq::<u8>::empty());
    }
    lemma_csv_lines_concat(seq![h], out, nl);
    if skip.keeps_all() && trim == Trim::Preserve {
        lemma_no_rules_concatenates(srcs, true, skip);
        assert(p[0] =~= rows);
        assert(p =~= srcs);
        assert(bodies_upto(srcs, true, 0) == Seq::<Row>::empty());
        assert(bodies_upto(srcs, true, 1) =~= rows.drop_first());
        assert(seq![rows[0]] + rows.drop_first() =~= rows);
        assert(h == rows[0]);
        assert(merged_rows(p, skip, true) == out);
    }
}

/// The empty-field rule ignores an index past a row's end: a row none of
/// whose listed indices is in range is never dropped by that rule.
pub proof fn lemma_fields_empty_out_of_range(row: Row, idx: Seq<usize>)
    requires
        forall|k: int| 0 <= k < idx.len() ==> idx[k] >= row.len(),
    ensures
        !has_empty_at(row, idx),
{
}

} // verus!
