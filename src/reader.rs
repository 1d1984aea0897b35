//! Sources of a merge, and how each is decoded into records.
use vstd::prelude::*;
use vstd::string::StrSliceExecFns;
use crate::Trim;
use crate::filter::{Row, rows_of};
use crate::record::{Field, FieldView, Record, trim_row};

verus! {

/// Represents the file format of a source.
#[non_exhaustive]
#[derive(Debug, Clone, Copy, PartialEq, Eq, Structural)]
pub enum Format {
    Csv,
    Xlsx,
    Xls,
    Ods,
    Other,
}

/// The lower-case form of an ASCII letter; other characters are unchanged.
pub open spec fn ascii_lower(c: char) -> char {
    if 'A' <= c && c <= 'Z' { ((c as u8) + 32) as char } else { c }
}

/// Whether `ext` equals the lower-case `name`, ignoring ASCII case.
pub open spec fn ext_is(ext: Seq<char>, name: Seq<char>) -> bool {
    ext.len() == name.len() && forall|i: int| 0 <= i < ext.len() ==> ascii_lower(#[trigger] ext[i]) == name[i]
}

/// Whether `data` starts with `p`.
pub open spec fn starts_with(data: Seq<u8>, p: Seq<u8>) -> bool {
    p.len() <= data.len() && data.subrange(0, p.len() as int) == p
}

/// The signature of a zip archive, which holds xlsx and ods workbooks.
pub open spec fn zip_magic() -> Seq<u8> {
    seq![0x50u8, 0x4Bu8, 0x03u8, 0x04u8]
}

/// The signature of an OLE compound file, which holds xls workbooks.
pub open spec fn ole_magic() -> Seq<u8> {
    seq![0xD0u8, 0xCFu8, 0x11u8, 0xE0u8, 0xA1u8, 0xB1u8, 0x1Au8, 0xE1u8]
}

/// The format of a source from its content and its file extension: the
/// content decides between the two workbook containers, the extension tells
/// ods from xlsx inside a zip, and names CSV; anything else is `Other`.
pub open spec fn detected(ext: Seq<char>, data: Seq<u8>) -> Format {
    if starts_with(data, ole_magic()) {
        Format::Xls
    } else if starts_with(data, zip_magic()) {
        if ext_is(ext, "ods"@) { Format::Ods } else { Format::Xlsx }
    } else if ext_is(ext, "csv"@) {
        Format::Csv
    } else {
        Format::Other
    }
}

fn lower(c: char) -> (r: char)
    ensures
        r == ascii_lower(c),
{
    if 'A' <= c && c <= 'Z' {
        ((c as u8) + 32) as char
    } else {
        c
    }
}

/// Whether `ext` equals the lower-case `name`, ignoring ASCII case.
fn extension_is(ext: &str, name: &str) -> (r: bool)
    ensures
        r == ext_is(ext@, name@),
{
    let n = ext.unicode_len();
    if n != name.unicode_len() {
        return false;
    }
    let mut i: usize = 0;
    while i < n
        invariant
            n == ext@.len() == name@.len(),
            i <= n,
            forall|k: int| 0 <= k < i ==> ascii_lower(#[trigger] ext@[k]) == name@[k],
        decreases n - i,
    {
        if lower(ext.get_char(i)) != name.get_char(i) {
            return false;
        }
        i = i + 1;
    }
    true
}

/// Whether `data` starts with the bytes of `p`.
fn has_prefix(data: &[u8], p: &[u8]) -> (r: bool)
    ensures
        r == starts_with(data@, p@),
{
    if p.len() > data.len() {
        return false;
    }
    let mut i: usize = 0;
    while i < p.len()
        invariant
            p@.len() <= data@.len(),
            i <= p@.len(),
            forall|k: int| 0 <= k < i ==> data@[k] == p@[k],
        decreases p.len() - i,
    {
        if data[i] != p[i] {
            assert(data@.subrange(0, p@.len() as int)[i as int] != p@[i as int]);
            return false;
        }
        i = i + 1;
    }
    assert(data@.subrange(0, p@.len() as int) =~= p@);
    true
}

impl Format {
    /// Detects the format of a source from its file extension (without the
    /// dot) and its content; only the first few bytes of `data` are read.
    pub fn detect(ext: &str, data: &[u8]) -> (r: Format)
        ensures
            r == detected(ext@, data@),
    {
        let ole: [u8; 8] = [0xD0u8, 0xCFu8, 0x11u8, 0xE0u8, 0xA1u8, 0xB1u8, 0x1Au8, 0xE1u8];
        let zip: [u8; 4] = [0x50u8, 0x4Bu8, 0x03u8, 0x04u8];
        assert(ole@ =~= ole_magic());
        assert(zip@ =~= zip_magic());
        if has_prefix(data, ole.as_slice()) {
            Format::Xls
        } else if has_prefix(data, zip.as_slice()) {
            if extension_is(ext, "ods") { Format::Ods } else { Format::Xlsx }
        } else if extension_is(ext, "csv") {
            Format::Csv
        } else {
            Format::Other
        }
    }
}

/// What a source holds: CSV bytes, or the rows of a sheet as typed cells.
#[derive(Debug)]
enum Content {
    Bytes(Vec<u8>),
    Cells(Vec<Vec<Field>>),
}

/// The value of a source's content.
pub enum ContentView {
    Bytes(Seq<u8>),
    Cells(Seq<Row>),
}

/// One source of a merge, with its format.
#[derive(Debug)]
pub struct Reader {
    fmt: Format,
    content: Content,
}

/// The fields of a sheet row, as values.
pub open spec fn cells_view(row: Vec<Field>) -> Row {
    row@.map_values(|f: Field| f@)
}

impl View for Reader {
    type V = (Format, ContentView);

    closed spec fn view(&self) -> (Format, ContentView) {
        (self.fmt, match &self.content {
            Content::Bytes(b) => ContentView::Bytes(b@),
            Content::Cells(rows) => ContentView::Cells(rows@.map_values(|r: Vec<Field>| cells_view(r))),
        })
    }
}

/// The records of a CSV text, each as the bytes of its fields, as the csv
/// crate reads them with no header handling and rows of any length.
pub uninterp spec fn csv_rows(input: Seq<u8>) -> Seq<Seq<Seq<u8>>>;

/// The records of a CSV text, as rows of binary fields.
pub open spec fn csv_records(input: Seq<u8>) -> Seq<Row> {
    csv_rows(input).map_values(|r: Seq<Seq<u8>>| r.map_values(|b: Seq<u8>| FieldView::Binary(b)))
}

/// The rows that a source decodes to, its header row (if any) included.
pub open spec fn decoded(content: ContentView) -> Seq<Row> {
    match content {
        ContentView::Bytes(b) => csv_records(b),
        ContentView::Cells(rows) => rows,
    }
}

/// The rows of a source once whitespace trimming has been applied: the first
/// row is a header when `has_headers` holds.
pub open spec fn materialized(rows: Seq<Row>, trim: Trim, has_headers: bool) -> Seq<Row> {
    Seq::new(rows.len(), |i: int|
        if i == 0 && has_headers {
            if trim.trims_headers() { trim_row(rows[i]) } else { rows[i] }
        } else {
            if trim.trims_fields() { trim_row(rows[i]) } else { rows[i] }
        })
}

#[verifier::external_type_specification]
#[verifier::external_body]
pub struct ExCsvError(csv::Error);

/// Relies on csv's `ReaderBuilder` (no header row, flexible record lengths)
/// and `Reader::byte_records`: each record of `input` as its fields' bytes.
/// Reading a byte slice never fails: the slice raises no I/O error, and
/// flexible lengths turn off the only other error of a byte-record reader.
#[verifier::external_body]
fn read_csv_rows(input: &[u8]) -> (r: Result<Vec<Vec<Vec<u8>>>, csv::Error>)
    ensures
        r is Ok,
        r matches Ok(rows) ==> rows@.map_values(|row: Vec<Vec<u8>>| row@.map_values(|f: Vec<u8>| f@)) == csv_rows(input@),
{
    let mut rdr = csv::ReaderBuilder::new().has_headers(false).flexible(true).from_reader(input);
    let mut rows = Vec::new();
    for rec in rdr.byte_records() {
        rows.push(rec?.iter().map(|f| f.to_vec()).collect());
    }
    Ok(rows)
}

/// Turns decoded CSV rows into records, in order.
fn csv_rows_to_records(rows: Vec<Vec<Vec<u8>>>) -> (r: Vec<Record>)
    ensures
        rows_of(r@) == rows@.map_values(|row: Vec<Vec<u8>>| row@.map_values(|f: Vec<u8>| f@)).map_values(
            |r: Seq<Seq<u8>>| r.map_values(|b: Seq<u8>| FieldView::Binary(b)),
        ),
{
    let ghost orig = rows@;
    let ghost want = orig.map_values(|row: Vec<Vec<u8>>| row@.map_values(|f: Vec<u8>| f@)).map_values(
        |r: Seq<Seq<u8>>| r.map_values(|b: Seq<u8>| FieldView::Binary(b)),
    );
    let n = rows.len();
    let mut rows = rows;
    let mut rev: Vec<Record> = Vec::with_capacity(n);
    while rows.len() > 0
        invariant
            rows@ == orig.subrange(0, rows@.len() as int),
            rev@.len() + rows@.len() == n == orig.len(),
            want == orig.map_values(|row: Vec<Vec<u8>>| row@.map_values(|f: Vec<u8>| f@)).map_values(
                |r: Seq<Seq<u8>>| r.map_values(|b: Seq<u8>| FieldView::Binary(b)),
            ),
            forall|j: int| 0 <= j < rev@.len() ==> #[trigger] rev@[j]@ == want[n - 1 - j],
        decreases rows.len(),
    {
        let ghost k = rows@.len() - 1;
        assert(k == n - 1 - rev@.len());
        let row = rows.pop().unwrap();
        assert(row == orig[k]);
        let rec = Record::from_csv(row);
        assert(rec@ =~= want[k]);
        rev.push(rec);
    }
    let mut out: Vec<Record> = Vec::with_capacity(n);
    while rev.len() > 0
        invariant
            out@.len() + rev@.len() == n == want.len(),
            forall|j: int| 0 <= j < rev@.len() ==> #[trigger] rev@[j]@ == want[n - 1 - j],
            forall|j: int| 0 <= j < out@.len() ==> #[trigger] out@[j]@ == want[j],
        decreases rev.len(),
    {
        let rec = rev.pop().unwrap();
        out.push(rec);
    }
    assert(rows_of(out@) =~= want);
    out
}

/// Copies the rows of a sheet into records, in order.
fn cells_to_records(rows: &Vec<Vec<Field>>) -> (r: Vec<Record>)
    ensures
        rows_of(r@) == rows@.map_values(|r: Vec<Field>| cells_view(r)),
{
    let mut out: Vec<Record> = Vec::with_capacity(rows.len());
    let mut i: usize = 0;
    while i < rows.len()
        invariant
            i <= rows@.len(),
            out@.len() == i,
            forall|j: int| 0 <= j < i ==> #[trigger] out@[j]@ == cells_view(rows@[j]),
        decreases rows.len() - i,
    {
        let row = &rows[i];
        let mut cells: Vec<Field> = Vec::with_capacity(row.len());
        let mut k: usize = 0;
        while k < row.len()
            invariant
                k <= row@.len(),
                cells@.len() == k,
                forall|m: int| 0 <= m < k ==> #[trigger] cells@[m]@ == row@[m]@,
            decreases row.len() - k,
        {
            cells.push(row[k].duplicate());
            k = k + 1;
        }
        let rec = Record::from_cells(cells);
        assert(rec@ =~= cells_view(*row));
        out.push(rec);
        i = i + 1;
    }
    assert(rows_of(out@) =~= rows@.map_values(|r: Vec<Field>| cells_view(r)));
    out
}

/// Applies whitespace trimming to the decoded rows of one source.
pub fn materialize(rows: &Vec<Record>, trim: Trim, has_headers: bool) -> (r: Vec<Record>)
    ensures
        rows_of(r@) == materialized(rows_of(rows@), trim, has_headers),
{
    let trim_headers = trim.should_trim_headers();
    let trim_fields = trim.should_trim_fields();
    let mut out: Vec<Record> = Vec::with_capacity(rows.len());
    let mut i: usize = 0;
    while i < rows.len()
        invariant
            i <= rows@.len(),
            out@.len() == i,
            trim_headers == trim.trims_headers(),
            trim_fields == trim.trims_fields(),
            forall|j: int| 0 <= j < i ==> #[trigger] out@[j]@ == materialized(rows_of(rows@), trim, has_headers)[j],
        decreases rows.len() - i,
    {
        let is_header = i == 0 && has_headers;
        let rec = if (is_header && trim_headers) || (!is_header && trim_fields) {
            rows[i].trimmed()
        } else {
            rows[i].duplicate()
        };
        out.push(rec);
        i = i + 1;
    }
    assert(rows_of(out@) =~= materialized(rows_of(rows@), trim, has_headers));
    out
}

impl Reader {
    /// A source of CSV (or other text) bytes.
    pub fn from_bytes(data: Vec<u8>, fmt: Format) -> (r: Reader)
        ensures
            r@ == (fmt, ContentView::Bytes(data@)),
    {
        Reader { fmt, content: Content::Bytes(data) }
    }

    /// A source of sheet rows, as typed cells.
    pub fn from_cells(rows: Vec<Vec<Field>>, fmt: Format) -> (r: Reader)
        ensures
            r@ == (fmt, ContentView::Cells(rows@.map_values(|r: Vec<Field>| cells_view(r)))),
    {
        Reader { fmt, content: Content::Cells(rows) }
    }

    /// The format of this source.
    pub fn format(&self) -> (r: Format)
        ensures
            r == self@.0,
    {
        self.fmt
    }

    /// The bytes of this source, if it holds bytes.
    pub fn bytes(&self) -> (r: Option<&Vec<u8>>)
        ensures
            match self@.1 {
                ContentView::Bytes(b) => r is Some && r->Some_0@ == b,
                ContentView::Cells(_) => r is None,
            },
    {
        match &self.content {
            Content::Bytes(b) => Some(b),
            Content::Cells(_) => None,
        }
    }

    /// Decodes this source into its rows, the header row included: CSV bytes
    /// through the csv crate, sheet rows as they are.
    pub fn decode(&self) -> (r: Vec<Record>)
        ensures
            rows_of(r@) == decoded(self@.1),
    {
        match &self.content {
            Content::Bytes(b) => {
                match read_csv_rows(b.as_slice()) {
                    Ok(rows) => csv_rows_to_records(rows),
                    Err(_) => {
                        proof {
                            assert(false);
                        }
                        Vec::new()
                    },
                }
            },
            Content::Cells(rows) => cells_to_records(rows),
        }
    }
}

} // verus!
