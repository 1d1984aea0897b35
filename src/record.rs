//! The field and record model shared by CSV and typed-cell sources.
use vstd::prelude::*;
use vstd::string::{StrSliceExecFns, StringExecFns};
use crate::filter::drop_columns;

verus! {

/// One cell of a record.
///
/// Numbers that a sheet stores as floating point (`Float`, `DateTime`) and cell
/// error codes are held as the text that renders them.
#[derive(Debug, Clone, PartialEq, Eq)]
pub enum Field {
    Binary(Vec<u8>),
    String(String),
    Int(i64),
    Float(String),
    Bool(bool),
    DateTime(String),
    Error(String),
    Empty,
}

/// The mathematical value of a [`Field`].
pub enum FieldView {
    Binary(Seq<u8>),
    String(Seq<char>),
    Int(i64),
    Float(Seq<char>),
    Bool(bool),
    DateTime(Seq<char>),
    Error(Seq<char>),
    Empty,
}

/// A field is empty when it is `Empty` or holds zero bytes.
pub open spec fn field_is_empty(f: FieldView) -> bool {
    match f {
        FieldView::Empty => true,
        FieldView::Binary(b) => b.len() == 0,
        _ => false,
    }
}

impl View for Field {
    type V = FieldView;

    open spec fn view(&self) -> FieldView {
        match self {
            Field::Binary(b) => FieldView::Binary(b@),
            Field::String(s) => FieldView::String(s@),
            Field::Int(i) => FieldView::Int(*i),
            Field::Float(s) => FieldView::Float(s@),
            Field::Bool(b) => FieldView::Bool(*b),
            Field::DateTime(s) => FieldView::DateTime(s@),
            Field::Error(s) => FieldView::Error(s@),
            Field::Empty => FieldView::Empty,
        }
    }
}

/// ASCII whitespace: space, tab, line feed, form feed and carriage return.
pub open spec fn is_ascii_space(b: u8) -> bool {
    b == 0x20u8 || b == 0x09u8 || b == 0x0Au8 || b == 0x0Cu8 || b == 0x0Du8
}

/// `s` without its leading ASCII whitespace.
pub open spec fn trim_start(s: Seq<u8>) -> Seq<u8>
    decreases s.len(),
{
    if s.len() > 0 && is_ascii_space(s[0]) { trim_start(s.drop_first()) } else { s }
}

/// `s` without its trailing ASCII whitespace.
pub open spec fn trim_end(s: Seq<u8>) -> Seq<u8>
    decreases s.len(),
{
    if s.len() > 0 && is_ascii_space(s.last()) { trim_end(s.drop_last()) } else { s }
}

/// `s` without its leading and trailing ASCII whitespace.
pub open spec fn trim_bytes(s: Seq<u8>) -> Seq<u8> {
    trim_end(trim_start(s))
}

/// ASCII whitespace characters: space, tab, line feed, form feed and
/// carriage return.
pub open spec fn is_space_char(c: char) -> bool {
    c == ' ' || c == '\t' || c == '\n' || c == '\x0C' || c == '\r'
}

/// `s` without its leading ASCII whitespace.
pub open spec fn trim_start_chars(s: Seq<char>) -> Seq<char>
    decreases s.len(),
{
    if s.len() > 0 && is_space_char(s[0]) { trim_start_chars(s.drop_first()) } else { s }
}

/// `s` without its trailing ASCII whitespace.
pub open spec fn trim_end_chars(s: Seq<char>) -> Seq<char>
    decreases s.len(),
{
    if s.len() > 0 && is_space_char(s.last()) { trim_end_chars(s.drop_last()) } else { s }
}

/// `s` without its leading and trailing ASCII whitespace.
pub open spec fn trim_chars(s: Seq<char>) -> Seq<char> {
    trim_end_chars(trim_start_chars(s))
}

/// A field with the bytes of a binary field, or the text of a string field,
/// trimmed of ASCII whitespace; other fields unchanged.
pub open spec fn trim_field(f: FieldView) -> FieldView {
    match f {
        FieldView::Binary(b) => FieldView::Binary(trim_bytes(b)),
        FieldView::String(s) => FieldView::String(trim_chars(s)),
        _ => f,
    }
}

/// A row with each binary and string field trimmed.
pub open spec fn trim_row(row: Seq<FieldView>) -> Seq<FieldView> {
    row.map_values(|f: FieldView| trim_field(f))
}

fn is_space(b: u8) -> (r: bool)
    ensures
        r == is_ascii_space(b),
{
    b == 0x20u8 || b == 0x09u8 || b == 0x0Au8 || b == 0x0Cu8 || b == 0x0Du8
}

/// A copy of `b` without its leading and trailing ASCII whitespace.
pub fn trimmed_bytes(b: &[u8]) -> (r: Vec<u8>)
    ensures
        r@ == trim_bytes(b@),
{
    let n = b.len();
    let mut lo: usize = 0;
    assert(b@.subrange(0, n as int) == b@);
    while lo < n && is_space(b[lo])
        invariant
            lo <= n == b@.len(),
            trim_start(b@) == trim_start(b@.subrange(lo as int, n as int)),
        decreases n - lo,
    {
        assert(b@.subrange(lo as int, n as int).drop_first() == b@.subrange(lo as int + 1, n as int));
        lo = lo + 1;
    }
    let mut hi: usize = n;
    assert(trim_start(b@) == b@.subrange(lo as int, n as int));
    while hi > lo && is_space(b[hi - 1])
        invariant
            lo <= hi <= n == b@.len(),
            trim_bytes(b@) == trim_end(b@.subrange(lo as int, hi as int)),
        decreases hi - lo,
    {
        assert(b@.subrange(lo as int, hi as int).drop_last() == b@.subrange(lo as int, hi - 1));
        hi = hi - 1;
    }
    let mut r: Vec<u8> = Vec::with_capacity(hi - lo);
    let mut i: usize = lo;
    while i < hi
        invariant
            lo <= i <= hi <= n == b@.len(),
            r@ == b@.subrange(lo as int, i as int),
        decreases hi - i,
    {
        r.push(b[i]);
        i = i + 1;
    }
    r
}

fn is_space_char_exec(c: char) -> (r: bool)
    ensures
        r == is_space_char(c),
{
    c == ' ' || c == '\t' || c == '\n' || c == '\x0C' || c == '\r'
}

/// A copy of `s` without its leading and trailing ASCII whitespace.
pub fn trimmed_text(s: &str) -> (r: String)
    ensures
        r@ == trim_chars(s@),
{
    let n = s.unicode_len();
    let mut lo: usize = 0;
    assert(s@.subrange(0, n as int) == s@);
    while lo < n && is_space_char_exec(s.get_char(lo))
        invariant
            lo <= n == s@.len(),
            trim_start_chars(s@) == trim_start_chars(s@.subrange(lo as int, n as int)),
        decreases n - lo,
    {
        assert(s@.subrange(lo as int, n as int).drop_first() == s@.subrange(lo as int + 1, n as int));
        lo = lo + 1;
    }
    let mut hi: usize = n;
    assert(trim_start_chars(s@) == s@.subrange(lo as int, n as int));
    while hi > lo && is_space_char_exec(s.get_char(hi - 1))
        invariant
            lo <= hi <= n == s@.len(),
            trim_chars(s@) == trim_end_chars(s@.subrange(lo as int, hi as int)),
        decreases hi - lo,
    {
        assert(s@.subrange(lo as int, hi as int).drop_last() == s@.subrange(lo as int, hi - 1));
        hi = hi - 1;
    }
    String::from_str(s.substring_char(lo, hi))
}

/// Copies a byte string.
pub fn copy_bytes(b: &[u8]) -> (r: Vec<u8>)
    ensures
        r@ == b@,
{
    let mut r: Vec<u8> = Vec::with_capacity(b.len());
    let mut i: usize = 0;
    while i < b.len()
        invariant
            i <= b@.len(),
            r@ == b@.subrange(0, i as int),
        decreases b.len() - i,
    {
        r.push(b[i]);
        i = i + 1;
    }
    assert(r@ == b@);
    r
}

impl Field {
    /// Whether this field is empty: `Empty`, or `Binary` with no bytes.
    pub fn is_empty(&self) -> (r: bool)
        ensures
            r == field_is_empty(self@),
    {
        match self {
            Field::Empty => true,
            Field::Binary(b) => b.len() == 0,
            _ => false,
        }
    }

    /// This field trimmed of ASCII whitespace if it is binary or a string.
    pub fn trimmed(&self) -> (r: Field)
        ensures
            r@ == trim_field(self@),
    {
        match self {
            Field::Binary(b) => Field::Binary(trimmed_bytes(b.as_slice())),
            Field::String(s) => Field::String(trimmed_text(s.as_str())),
            _ => self.duplicate(),
        }
    }

    /// An owned copy of this field.
    pub fn duplicate(&self) -> (r: Field)
        ensures
            r@ == self@,
    {
        match self {
            Field::Binary(b) => Field::Binary(copy_bytes(b.as_slice())),
            Field::String(s) => Field::String(s.clone()),
            Field::Int(i) => Field::Int(*i),
            Field::Float(s) => Field::Float(s.clone()),
            Field::Bool(b) => Field::Bool(*b),
            Field::DateTime(s) => Field::DateTime(s.clone()),
            Field::Error(s) => Field::Error(s.clone()),
            Field::Empty => Field::Empty,
        }
    }
}

impl From<i64> for Field {
    fn from(v: i64) -> (r: Field) {
        Field::Int(v)
    }
}

impl vstd::std_specs::convert::FromSpecImpl<i64> for Field {
    open spec fn obeys_from_spec() -> bool {
        true
    }

    open spec fn from_spec(v: i64) -> Field {
        Field::Int(v)
    }
}

impl From<bool> for Field {
    fn from(v: bool) -> (r: Field) {
        Field::Bool(v)
    }
}

impl vstd::std_specs::convert::FromSpecImpl<bool> for Field {
    open spec fn obeys_from_spec() -> bool {
        true
    }

    open spec fn from_spec(v: bool) -> Field {
        Field::Bool(v)
    }
}

impl From<()> for Field {
    fn from(v: ()) -> (r: Field) {
        Field::Empty
    }
}

impl vstd::std_specs::convert::FromSpecImpl<()> for Field {
    open spec fn obeys_from_spec() -> bool {
        true
    }

    open spec fn from_spec(v: ()) -> Field {
        Field::Empty
    }
}

impl From<Vec<u8>> for Field {
    fn from(v: Vec<u8>) -> (r: Field) {
        Field::Binary(v)
    }
}

impl vstd::std_specs::convert::FromSpecImpl<Vec<u8>> for Field {
    open spec fn obeys_from_spec() -> bool {
        true
    }

    open spec fn from_spec(v: Vec<u8>) -> Field {
        Field::Binary(v)
    }
}

impl From<String> for Field {
    fn from(v: String) -> (r: Field) {
        Field::String(v)
    }
}

impl vstd::std_specs::convert::FromSpecImpl<String> for Field {
    open spec fn obeys_from_spec() -> bool {
        true
    }

    open spec fn from_spec(v: String) -> Field {
        Field::String(v)
    }
}

/// Whether `a` and `b` hold the same characters.
fn same_text(a: &str, b: &str) -> (r: bool)
    ensures
        r == (a@ == b@),
{
    let n = a.unicode_len();
    if n != b.unicode_len() {
        return false;
    }
    let mut i: usize = 0;
    while i < n
        invariant
            n == a@.len() == b@.len(),
            i <= n,
            forall|k: int| 0 <= k < i ==> a@[k] == b@[k],
        decreases n - i,
    {
        if a.get_char(i) != b.get_char(i) {
            return false;
        }
        i = i + 1;
    }
    assert(a@ =~= b@);
    true
}

/// Whether `a` and `b` hold the same bytes.
fn same_bytes(a: &[u8], b: &[u8]) -> (r: bool)
    ensures
        r == (a@ == b@),
{
    if a.len() != b.len() {
        return false;
    }
    let mut i: usize = 0;
    while i < a.len()
        invariant
            a@.len() == b@.len(),
            i <= a@.len(),
            forall|k: int| 0 <= k < i ==> a@[k] == b@[k],
        decreases a.len() - i,
    {
        if a[i] != b[i] {
            return false;
        }
        i = i + 1;
    }
    assert(a@ =~= b@);
    true
}

impl PartialEq<i64> for Field {
    fn eq(&self, other: &i64) -> (r: bool) {
        match self {
            Field::Int(v) => *v == *other,
            _ => false,
        }
    }
}

impl vstd::std_specs::cmp::PartialEqSpecImpl<i64> for Field {
    open spec fn obeys_eq_spec() -> bool {
        true
    }

    open spec fn eq_spec(&self, other: &i64) -> bool {
        self@ == FieldView::Int(*other)
    }
}

impl PartialEq<bool> for Field {
    fn eq(&self, other: &bool) -> (r: bool) {
        match self {
            Field::Bool(v) => *v == *other,
            _ => false,
        }
    }
}

impl vstd::std_specs::cmp::PartialEqSpecImpl<bool> for Field {
    open spec fn obeys_eq_spec() -> bool {
        true
    }

    open spec fn eq_spec(&self, other: &bool) -> bool {
        self@ == FieldView::Bool(*other)
    }
}

impl PartialEq<()> for Field {
    fn eq(&self, other: &()) -> (r: bool) {
        match self {
            Field::Empty => true,
            _ => false,
        }
    }
}

impl vstd::std_specs::cmp::PartialEqSpecImpl<()> for Field {
    open spec fn obeys_eq_spec() -> bool {
        true
    }

    open spec fn eq_spec(&self, other: &()) -> bool {
        self@ == FieldView::Empty
    }
}

impl<'a> PartialEq<&'a [u8]> for Field {
    fn eq(&self, other: &&'a [u8]) -> (r: bool) {
        match self {
            Field::Binary(v) => same_bytes(v.as_slice(), *other),
            _ => false,
        }
    }
}

impl<'a> vstd::std_specs::cmp::PartialEqSpecImpl<&'a [u8]> for Field {
    open spec fn obeys_eq_spec() -> bool {
        true
    }

    open spec fn eq_spec(&self, other: &&'a [u8]) -> bool {
        self@ == FieldView::Binary(other@)
    }
}

impl<'a> PartialEq<&'a str> for Field {
    fn eq(&self, other: &&'a str) -> (r: bool) {
        match self {
            Field::String(v) => same_text(v.as_str(), *other),
            _ => false,
        }
    }
}

impl<'a> vstd::std_specs::cmp::PartialEqSpecImpl<&'a str> for Field {
    open spec fn obeys_eq_spec() -> bool {
        true
    }

    open spec fn eq_spec(&self, other: &&'a str) -> bool {
        self@ == FieldView::String(other@)
    }
}

/// The storage behind a record: a CSV byte record, or a row of typed cells.
#[derive(Debug, Clone, PartialEq, Eq)]
enum RecordInner {
    Csv(Vec<Vec<u8>>),
    Xlsx(Vec<Field>),
}

/// A single CSV or sheet record.
#[derive(Debug, Clone, PartialEq, Eq)]
pub struct Record {
    inner: RecordInner,
}

/// The fields of a CSV record, each as binary.
pub open spec fn binary_fields(rec: Seq<Vec<u8>>) -> Seq<FieldView> {
    rec.map_values(|b: Vec<u8>| FieldView::Binary(b@))
}

impl View for Record {
    type V = Seq<FieldView>;

    closed spec fn view(&self) -> Seq<FieldView> {
        match &self.inner {
            RecordInner::Csv(r) => binary_fields(r@),
            RecordInner::Xlsx(r) => r@.map_values(|f: Field| f@),
        }
    }
}

impl Record {
    /// Whether this record came from a CSV source.
    pub closed spec fn spec_is_csv(&self) -> bool {
        self.inner is Csv
    }

    /// Builds a record from the fields of a CSV byte record.
    pub fn from_csv(fields: Vec<Vec<u8>>) -> (r: Record)
        ensures
            r@ == binary_fields(fields@),
            r.spec_is_csv(),
    {
        Record { inner: RecordInner::Csv(fields) }
    }

    /// Builds a record from a row of typed cells.
    pub fn from_cells(cells: Vec<Field>) -> (r: Record)
        ensures
            r@ == cells@.map_values(|f: Field| f@),
            !r.spec_is_csv(),
    {
        Record { inner: RecordInner::Xlsx(cells) }
    }

    /// Whether this record came from a CSV source.
    pub fn is_csv(&self) -> (r: bool)
        ensures
            r == self.spec_is_csv(),
    {
        match &self.inner {
            RecordInner::Csv(_) => true,
            RecordInner::Xlsx(_) => false,
        }
    }

    /// Returns the field at index `i`, or `None` if there is none.
    pub fn get(&self, i: usize) -> (r: Option<Field>)
        ensures
            i < self@.len() ==> r is Some && r->Some_0@ == self@[i as int],
            i >= self@.len() ==> r is None,
    {
        match &self.inner {
            RecordInner::Csv(rec) => {
                if i < rec.len() {
                    Some(Field::Binary(copy_bytes(rec[i].as_slice())))
                } else {
                    None
                }
            },
            RecordInner::Xlsx(rec) => {
                if i < rec.len() {
                    Some(rec[i].duplicate())
                } else {
                    None
                }
            },
        }
    }

    /// Returns all the fields of this record, in order.
    pub fn iter(&self) -> (r: Vec<Field>)
        ensures
            r@.map_values(|f: Field| f@) == self@,
    {
        let n = self.len();
        let mut out: Vec<Field> = Vec::with_capacity(n);
        let mut i: usize = 0;
        while i < n
            invariant
                n == self@.len(),
                i <= n,
                out@.len() == i,
                out@.map_values(|f: Field| f@) == self@.subrange(0, i as int),
            decreases n - i,
        {
            let f = self.get(i).unwrap();
            out.push(f);
            assert(out@.map_values(|f: Field| f@) =~= self@.subrange(0, i as int + 1));
            i = i + 1;
        }
        assert(self@.subrange(0, n as int) =~= self@);
        out
    }

    /// Returns the number of fields in this record.
    pub fn len(&self) -> (r: usize)
        ensures
            r == self@.len(),
    {
        match &self.inner {
            RecordInner::Csv(rec) => rec.len(),
            RecordInner::Xlsx(rec) => rec.len(),
        }
    }

    /// Returns true if this record has no fields.
    pub fn is_empty(&self) -> (r: bool)
        ensures
            r == (self@.len() == 0),
    {
        self.len() == 0
    }

    /// An owned copy of this record.
    pub fn duplicate(&self) -> (r: Record)
        ensures
            r@ == self@,
            r.spec_is_csv() == self.spec_is_csv(),
    {
        match &self.inner {
            RecordInner::Csv(rec) => {
                let mut out: Vec<Vec<u8>> = Vec::with_capacity(rec.len());
                let mut j: usize = 0;
                while j < rec.len()
                    invariant
                        j <= rec@.len(),
                        out@.len() == j,
                        binary_fields(out@) == binary_fields(rec@).subrange(0, j as int),
                    decreases rec.len() - j,
                {
                    out.push(copy_bytes(rec[j].as_slice()));
                    assert(binary_fields(out@) =~= binary_fields(rec@).subrange(0, j as int + 1));
                    j = j + 1;
                }
                assert(binary_fields(rec@).subrange(0, rec@.len() as int) =~= binary_fields(rec@));
                Record { inner: RecordInner::Csv(out) }
            },
            RecordInner::Xlsx(rec) => {
                let mut out: Vec<Field> = Vec::with_capacity(rec.len());
                let mut j: usize = 0;
                while j < rec.len()
                    invariant
                        j <= rec@.len(),
                        out@.len() == j,
                        out@.map_values(|f: Field| f@) == rec@.map_values(|f: Field| f@).subrange(0, j as int),
                    decreases rec.len() - j,
                {
                    out.push(rec[j].duplicate());
                    assert(out@.map_values(|f: Field| f@) =~= rec@.map_values(|f: Field| f@).subrange(0, j as int + 1));
                    j = j + 1;
                }
                assert(rec@.map_values(|f: Field| f@).subrange(0, rec@.len() as int) =~= rec@.map_values(|f: Field| f@));
                Record { inner: RecordInner::Xlsx(out) }
            },
        }
    }

    /// This record with each binary and string field trimmed of ASCII
    /// whitespace.
    pub fn trimmed(&self) -> (r: Record)
        ensures
            r@ == trim_row(self@),
            r.spec_is_csv() == self.spec_is_csv(),
    {
        match &self.inner {
            RecordInner::Csv(rec) => {
                let mut out: Vec<Vec<u8>> = Vec::with_capacity(rec.len());
                let mut j: usize = 0;
                while j < rec.len()
                    invariant
                        j <= rec@.len(),
                        out@.len() == j,
                        binary_fields(out@) == trim_row(binary_fields(rec@)).subrange(0, j as int),
                    decreases rec.len() - j,
                {
                    out.push(trimmed_bytes(rec[j].as_slice()));
                    assert(binary_fields(out@) =~= trim_row(binary_fields(rec@)).subrange(0, j as int + 1));
                    j = j + 1;
                }
                assert(trim_row(binary_fields(rec@)).subrange(0, rec@.len() as int) =~= trim_row(binary_fields(rec@)));
                Record { inner: RecordInner::Csv(out) }
            },
            RecordInner::Xlsx(rec) => {
                let mut out: Vec<Field> = Vec::with_capacity(rec.len());
                let mut j: usize = 0;
                while j < rec.len()
                    invariant
                        j <= rec@.len(),
                        out@.len() == j,
                        out@.map_values(|f: Field| f@) == trim_row(rec@.map_values(|f: Field| f@)).subrange(0, j as int),
                    decreases rec.len() - j,
                {
                    out.push(rec[j].trimmed());
                    assert(out@.map_values(|f: Field| f@) =~= trim_row(rec@.map_values(|f: Field| f@)).subrange(0, j as int + 1));
                    j = j + 1;
                }
                assert(trim_row(rec@.map_values(|f: Field| f@)).subrange(0, rec@.len() as int) =~= trim_row(rec@.map_values(|f: Field| f@)));
                Record { inner: RecordInner::Xlsx(out) }
            },
        }
    }

    /// Whether this record has a field at `i` and that field is empty.
    pub fn is_empty_at(&self, i: usize) -> (r: bool)
        ensures
            r == (i < self@.len() && field_is_empty(self@[i as int])),
    {
        match &self.inner {
            RecordInner::Csv(rec) => i < rec.len() && rec[i].len() == 0,
            RecordInner::Xlsx(rec) => i < rec.len() && rec[i].is_empty(),
        }
    }

    /// This record without the fields whose positions are in `cols`; the
    /// result keeps the source kind.
    pub fn without_columns(&self, cols: &Vec<usize>) -> (r: Record)
        ensures
            r@ == drop_columns(self@, cols@),
            r.spec_is_csv() == self.spec_is_csv(),
    {
        match &self.inner {
            RecordInner::Csv(rec) => {
                let mut out: Vec<Vec<u8>> = Vec::new();
                let mut j: usize = 0;
                while j < rec.len()
                    invariant
                        j <= rec@.len(),
                        self@ == binary_fields(rec@),
                        binary_fields(out@) == drop_columns(self@.subrange(0, j as int), cols@),
                    decreases rec.len() - j,
                {
                    assert(self@.subrange(0, j as int + 1).drop_last() == self@.subrange(0, j as int));
                    if !contains_index(cols, j) {
                        out.push(copy_bytes(rec[j].as_slice()));
                        assert(binary_fields(out@) =~= drop_columns(self@.subrange(0, j as int), cols@).push(self@[j as int]));
                    }
                    j = j + 1;
                }
                assert(self@.subrange(0, rec@.len() as int) == self@);
                Record { inner: RecordInner::Csv(out) }
            },
            RecordInner::Xlsx(rec) => {
                let mut out: Vec<Field> = Vec::new();
                let mut j: usize = 0;
                while j < rec.len()
                    invariant
                        j <= rec@.len(),
                        self@ == rec@.map_values(|f: Field| f@),
                        out@.map_values(|f: Field| f@) == drop_columns(self@.subrange(0, j as int), cols@),
                    decreases rec.len() - j,
                {
                    assert(self@.subrange(0, j as int + 1).drop_last() == self@.subrange(0, j as int));
                    if !contains_index(cols, j) {
                        out.push(rec[j].duplicate());
                        assert(out@.map_values(|f: Field| f@) =~= drop_columns(self@.subrange(0, j as int), cols@).push(self@[j as int]));
                    }
                    j = j + 1;
                }
                assert(self@.subrange(0, rec@.len() as int) == self@);
                Record { inner: RecordInner::Xlsx(out) }
            },
        }
    }
}

/// Whether `v` holds `j`.
pub fn contains_index(v: &Vec<usize>, j: usize) -> (r: bool)
    ensures
        r == v@.contains(j),
{
    let mut i: usize = 0;
    while i < v.len()
        invariant
            i <= v@.len(),
            forall|k: int| 0 <= k < i ==> v@[k] != j,
        decreases v.len() - i,
    {
        if v[i] == j {
            assert(v@[i as int] == j);
            return true;
        }
        i = i + 1;
    }
    false
}

} // verus!
