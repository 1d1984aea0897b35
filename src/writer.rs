//! Serialization of merged records as CSV text, and of raw sources as bytes.
use vstd::prelude::*;
use vstd::utf8::encode_utf8;
use crate::filter::{Row, rows_of};
use crate::merger::Newline;
use crate::record::{Field, FieldView, Record};

verus! {

/// The bytes of a newline of the given style.
pub open spec fn newline_bytes(nl: Newline) -> Seq<u8> {
    match nl {
        Newline::Lf => seq![10u8],
        Newline::Crlf => seq![13u8, 10u8],
    }
}

/// The decimal digits of `n`, most significant first.
pub open spec fn decimal(n: nat) -> Seq<u8>
    decreases n,
{
    if n < 10 {
        seq![(48 + n) as u8]
    } else {
        decimal(n / 10).push((48 + n % 10) as u8)
    }
}

/// The decimal text of an integer, with a leading `-` when negative.
pub open spec fn int_text(i: i64) -> Seq<u8> {
    if i < 0 {
        seq![45u8] + decimal((-i) as nat)
    } else {
        decimal(i as nat)
    }
}

/// The text of a boolean.
pub open spec fn bool_text(b: bool) -> Seq<u8> {
    if b {
        seq![116u8, 114u8, 117u8, 101u8]
    } else {
        seq![102u8, 97u8, 108u8, 115u8, 101u8]
    }
}

/// The unquoted bytes of a field in CSV output.
pub open spec fn field_text(f: FieldView) -> Seq<u8> {
    match f {
        FieldView::Binary(b) => b,
        FieldView::String(s) => encode_utf8(s),
        FieldView::Int(i) => int_text(i),
        FieldView::Float(s) => encode_utf8(s),
        FieldView::Bool(b) => bool_text(b),
        FieldView::DateTime(s) => encode_utf8(s),
        FieldView::Error(s) => encode_utf8(s),
        FieldView::Empty => Seq::empty(),
    }
}

/// Bytes that force a field to be quoted: comma, double quote, CR and LF.
pub open spec fn is_special(b: u8) -> bool {
    b == 44u8 || b == 34u8 || b == 10u8 || b == 13u8
}

/// Whether a field must be quoted.
pub open spec fn needs_quotes(b: Seq<u8>) -> bool {
    exists|i: int| 0 <= i < b.len() && is_special(#[trigger] b[i])
}

/// `b` with each double quote doubled.
pub open spec fn escaped(b: Seq<u8>) -> Seq<u8>
    decreases b.len(),
{
    if b.len() == 0 {
        b
    } else if b.last() == 34u8 {
        escaped(b.drop_last()) + seq![34u8, 34u8]
    } else {
        escaped(b.drop_last()).push(b.last())
    }
}

/// A field as written: quoted and escaped when it must be, else as it is.
pub open spec fn quoted(b: Seq<u8>) -> Seq<u8> {
    if needs_quotes(b) {
        seq![34u8] + escaped(b) + seq![34u8]
    } else {
        b
    }
}

/// The fields of a row, each written, separated by commas.
pub open spec fn fields_joined(row: Row) -> Seq<u8>
    decreases row.len(),
{
    if row.len() == 0 {
        Seq::empty()
    } else if row.len() == 1 {
        quoted(field_text(row[0]))
    } else {
        fields_joined(row.drop_last()) + seq![44u8] + quoted(field_text(row.last()))
    }
}

/// A row as written: its fields joined by commas, except that a row of one
/// empty field is written as `""`, so that it does not read back as a blank
/// line.
pub open spec fn joined(row: Row) -> Seq<u8> {
    if row.len() == 1 && field_text(row[0]).len() == 0 {
        seq![34u8, 34u8]
    } else {
        fields_joined(row)
    }
}

/// One row as a line of CSV text.
pub open spec fn csv_line(row: Row, nl: Newline) -> Seq<u8> {
    joined(row) + newline_bytes(nl)
}

/// Rows as lines of CSV text, in order.
pub open spec fn csv_lines(rows: Seq<Row>, nl: Newline) -> Seq<u8>
    decreases rows.len(),
{
    if rows.len() == 0 {
        Seq::empty()
    } else {
        csv_lines(rows.drop_last(), nl) + csv_line(rows.last(), nl)
    }
}

/// A header line (when there is a header) followed by the lines of `rows`.
pub open spec fn csv_output(header: Option<Row>, rows: Seq<Row>, nl: Newline) -> Seq<u8> {
    match header {
        Some(h) => csv_line(h, nl) + csv_lines(rows, nl),
        None => csv_lines(rows, nl),
    }
}

/// Whether `b` ends with a line feed.
pub open spec fn ends_with_newline(b: Seq<u8>) -> bool {
    b.len() > 0 && b.last() == 10u8
}

/// One raw source as written: a newline is added to a non-empty source that
/// lacks one when `force` holds.
pub open spec fn raw_piece(b: Seq<u8>, force: bool, nl: Newline) -> Seq<u8> {
    if force && b.len() > 0 && !ends_with_newline(b) {
        b + newline_bytes(nl)
    } else {
        b
    }
}

/// Raw sources written one after the other.
pub open spec fn raw_concat(srcs: Seq<Seq<u8>>, force: bool, nl: Newline) -> Seq<u8>
    decreases srcs.len(),
{
    if srcs.len() == 0 {
        Seq::empty()
    } else {
        raw_concat(srcs.drop_last(), force, nl) + raw_piece(srcs.last(), force, nl)
    }
}

/// Appends the bytes of `b` to `out`.
pub fn push_all(out: &mut Vec<u8>, b: &[u8])
    ensures
        final(out)@ == old(out)@ + b@,
{
    let ghost start = out@;
    let mut i: usize = 0;
    while i < b.len()
        invariant
            i <= b@.len(),
            out@ == start + b@.subrange(0, i as int),
        decreases b.len() - i,
    {
        out.push(b[i]);
        assert(out@ =~= start + b@.subrange(0, i as int + 1));
        i = i + 1;
    }
    assert(b@.subrange(0, b@.len() as int) =~= b@);
}

/// Appends a newline of the given style.
pub fn push_newline(out: &mut Vec<u8>, nl: Newline)
    ensures
        final(out)@ == old(out)@ + newline_bytes(nl),
{
    match nl {
        Newline::Lf => {
            out.push(10u8);
        },
        Newline::Crlf => {
            out.push(13u8);
            out.push(10u8);
        },
    }
    assert(out@ =~= old(out)@ + newline_bytes(nl));
}

/// Appends the decimal digits of `n`.
fn push_decimal(out: &mut Vec<u8>, n: u64)
    ensures
        final(out)@ == old(out)@ + decimal(n as nat),
    decreases n,
{
    if n >= 10 {
        push_decimal(out, n / 10);
    }
    out.push((48 + n % 10) as u8);
    assert(out@ =~= old(out)@ + decimal(n as nat));
}

/// The unquoted bytes of a field in CSV output.
pub fn field_bytes(f: &Field) -> (r: Vec<u8>)
    ensures
        r@ == field_text(f@),
{
    let mut out: Vec<u8> = Vec::new();
    match f {
        Field::Binary(b) => push_all(&mut out, b.as_slice()),
        Field::String(s) => push_all(&mut out, s.as_str().as_bytes()),
        Field::Int(i) => {
            if *i < 0 {
                out.push(45u8);
                let m: u64 = (-(*i as i128)) as u64;
                push_decimal(&mut out, m);
            } else {
                push_decimal(&mut out, *i as u64);
            }
        },
        Field::Float(s) => push_all(&mut out, s.as_str().as_bytes()),
        Field::Bool(b) => {
            if *b {
                out.push(116u8);
                out.push(114u8);
                out.push(117u8);
                out.push(101u8);
            } else {
                out.push(102u8);
                out.push(97u8);
                out.push(108u8);
                out.push(115u8);
                out.push(101u8);
            }
        },
        Field::DateTime(s) => push_all(&mut out, s.as_str().as_bytes()),
        Field::Error(s) => push_all(&mut out, s.as_str().as_bytes()),
        Field::Empty => {},
    }
    assert(out@ =~= field_text(f@));
    out
}

/// Whether a field must be quoted.
fn must_quote(b: &[u8]) -> (r: bool)
    ensures
        r == needs_quotes(b@),
{
    let mut i: usize = 0;
    while i < b.len()
        invariant
            i <= b@.len(),
            forall|k: int| 0 <= k < i ==> !is_special(#[trigger] b@[k]),
        decreases b.len() - i,
    {
        let c = b[i];
        if c == 44u8 || c == 34u8 || c == 10u8 || c == 13u8 {
            assert(is_special(b@[i as int]));
            return true;
        }
        i = i + 1;
    }
    false
}

/// Appends a field, quoted and escaped when it must be.
fn push_quoted(out: &mut Vec<u8>, b: &[u8])
    ensures
        final(out)@ == old(out)@ + quoted(b@),
{
    if !must_quote(b) {
        push_all(out, b);
        return;
    }
    let ghost start = out@;
    out.push(34u8);
    let mut i: usize = 0;
    while i < b.len()
        invariant
            i <= b@.len(),
            out@ == start + seq![34u8] + escaped(b@.subrange(0, i as int)),
        decreases b.len() - i,
    {
        assert(b@.subrange(0, i as int + 1).drop_last() =~= b@.subrange(0, i as int));
        if b[i] == 34u8 {
            out.push(34u8);
            out.push(34u8);
        } else {
            out.push(b[i]);
        }
        assert(out@ =~= start + seq![34u8] + escaped(b@.subrange(0, i as int + 1)));
        i = i + 1;
    }
    out.push(34u8);
    assert(b@.subrange(0, b@.len() as int) =~= b@);
    assert(out@ =~= start + quoted(b@));
}

/// Appends one record as a line of CSV text.
pub fn write_row(out: &mut Vec<u8>, rec: &Record, nl: Newline)
    ensures
        final(out)@ == old(out)@ + csv_line(rec@, nl),
{
    let ghost start = out@;
    let n = rec.len();
    if n == 1 {
        let f = rec.get(0).unwrap();
        let b = field_bytes(&f);
        if b.len() == 0 {
            out.push(34u8);
            out.push(34u8);
            push_newline(out, nl);
            assert(out@ =~= start + csv_line(rec@, nl));
            return;
        }
    }
    let mut j: usize = 0;
    while j < n
        invariant
            j <= n == rec@.len(),
            n == 1 ==> field_text(rec@[0]).len() > 0,
            out@ == start + fields_joined(rec@.subrange(0, j as int)),
        decreases n - j,
    {
        let ghost sub = rec@.subrange(0, j as int + 1);
        assert(sub.drop_last() =~= rec@.subrange(0, j as int));
        assert(sub.last() == rec@[j as int]);
        if j > 0 {
            out.push(44u8);
        }
        let f = rec.get(j).unwrap();
        let b = field_bytes(&f);
        push_quoted(out, b.as_slice());
        if j == 0 {
            assert(sub.len() == 1 && sub[0] == rec@[0]);
        }
        assert(out@ =~= start + fields_joined(sub));
        j = j + 1;
    }
    assert(rec@.subrange(0, n as int) =~= rec@);
    assert(joined(rec@) == fields_joined(rec@));
    push_newline(out, nl);
    assert(out@ =~= start + csv_line(rec@, nl));
}

/// Writes an optional header and the records as CSV text.
pub fn write_csv(header: &Option<Record>, rows: &Vec<Record>, nl: Newline) -> (r: Vec<u8>)
    ensures
        r@ == csv_output(
            match header {
                Some(h) => Some(h@),
                None => None,
            },
            rows_of(rows@),
            nl,
        ),
{
    let mut out: Vec<u8> = Vec::new();
    if let Some(h) = header {
        write_row(&mut out, h, nl);
    }
    let ghost start = out@;
    let ghost rs = rows_of(rows@);
    let mut i: usize = 0;
    while i < rows.len()
        invariant
            i <= rows@.len(),
            rs == rows_of(rows@),
            out@ == start + csv_lines(rs.subrange(0, i as int), nl),
        decreases rows.len() - i,
    {
        assert(rs.subrange(0, i as int + 1).drop_last() =~= rs.subrange(0, i as int));
        write_row(&mut out, &rows[i], nl);
        assert(out@ =~= start + csv_lines(rs.subrange(0, i as int + 1), nl));
        i = i + 1;
    }
    assert(rs.subrange(0, rows@.len() as int) =~= rs);
    out
}

/// Writes raw sources one after the other, adding a newline after a source
/// that lacks one when `force` holds.
pub fn write_raw(srcs: &Vec<&Vec<u8>>, force: bool, nl: Newline) -> (r: Vec<u8>)
    ensures
        r@ == raw_concat(srcs@.map_values(|b: &Vec<u8>| b@), force, nl),
{
    let ghost ss = srcs@.map_values(|b: &Vec<u8>| b@);
    let mut out: Vec<u8> = Vec::new();
    let mut i: usize = 0;
    while i < srcs.len()
        invariant
            i <= srcs@.len(),
            ss == srcs@.map_values(|b: &Vec<u8>| b@),
            out@ == raw_concat(ss.subrange(0, i as int), force, nl),
        decreases srcs.len() - i,
    {
        assert(ss.subrange(0, i as int + 1).drop_last() =~= ss.subrange(0, i as int));
        let b: &Vec<u8> = srcs[i];
        push_all(&mut out, b.as_slice());
        let n = b.len();
        if force && n > 0 && b[n - 1] != 10u8 {
            push_newline(&mut out, nl);
        }
        assert(out@ =~= raw_concat(ss.subrange(0, i as int + 1), force, nl));
        i = i + 1;
    }
    assert(ss.subrange(0, srcs@.len() as int) =~= ss);
    out
}

} // verus!
