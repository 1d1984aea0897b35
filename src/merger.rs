//! Merger configuration and the merge run.
use vstd::prelude::*;
use crate::Trim;
use crate::filter::{
    Row, Skip, SkipView, merge_header, merge_rows, merged_header, merged_rows, rows_of,
    sources_view,
};
use crate::reader::{ContentView, Format as SourceFormat, Reader, decoded, materialize, materialized};
use crate::record::Record;
use crate::writer::{csv_output, raw_concat, write_csv, write_raw};

verus! {

/// The style of a newline, either unix-style `\n` or dos-style `\r\n`.
#[derive(Debug, Clone, Copy, PartialEq, Eq, Structural)]
pub enum Newline {
    /// Unix-style `\n`.
    Lf,
    /// Dos-style `\r\n`.
    Crlf,
}

/// The output format of a merge.
#[derive(Debug, Clone, Copy, PartialEq, Eq, Structural)]
pub enum Format {
    Csv,
    Xlsx,
    Bytes,
}

/// Why a merge failed.
#[derive(Debug, Clone, Copy, PartialEq, Eq, Structural)]
pub enum MergeError {
    /// A source could not be opened.
    SourceOpen,
    /// The source at this position is malformed (a workbook that does not
    /// decode).
    Decode(usize),
    /// The sink refused the output.
    Write,
    /// The configuration asks for what the merger cannot do.
    Config,
}

/// The value of a merger configuration.
pub struct ConfigView {
    pub capacity: usize,
    pub has_headers: bool,
    pub trim: Trim,
    pub skip: Option<SkipView>,
    pub newline: Newline,
    pub force_ending_newline: bool,
}

/// The rule set that keeps every row and every column.
pub open spec fn no_rules() -> SkipView {
    SkipView {
        head: (0usize, false),
        tail: (0usize, false),
        non_max_length: false,
        length_less_than: None,
        fields_is_empty: None,
        columns: None,
    }
}

/// The rules in force: those configured, or none.
pub open spec fn rules_of(skip: Option<SkipView>) -> SkipView {
    match skip {
        Some(s) => s,
        None => no_rules(),
    }
}

/// The default configuration.
pub open spec fn default_config() -> ConfigView {
    ConfigView {
        capacity: 8192,
        has_headers: true,
        trim: Trim::Preserve,
        skip: None,
        newline: Newline::Lf,
        force_ending_newline: false,
    }
}

/// The rows of every source once trimmed.
pub open spec fn prepared(srcs: Seq<Seq<Row>>, trim: Trim, has_headers: bool) -> Seq<Seq<Row>> {
    Seq::new(srcs.len(), |i: int| materialized(srcs[i], trim, has_headers))
}

/// The header and data rows of a merge of decoded sources.
pub open spec fn merge_of(srcs: Seq<Seq<Row>>, trim: Trim, has_headers: bool, skip: SkipView) -> (Option<Row>, Seq<Row>) {
    let p = prepared(srcs, trim, has_headers);
    (merged_header(p, skip, has_headers), merged_rows(p, skip, has_headers))
}

/// The rows that each source of a merger decodes to.
pub open spec fn decoded_sources(sources: Seq<(SourceFormat, ContentView)>) -> Seq<Seq<Row>> {
    sources.map_values(|s: (SourceFormat, ContentView)| decoded(s.1))
}

/// The bytes of the sources, when every source holds bytes.
pub open spec fn all_bytes(sources: Seq<(SourceFormat, ContentView)>) -> bool {
    forall|i: int| 0 <= i < sources.len() ==> (#[trigger] sources[i]).1 is Bytes
}

/// The bytes of each source that holds bytes.
pub open spec fn source_bytes(sources: Seq<(SourceFormat, ContentView)>) -> Seq<Seq<u8>> {
    sources.map_values(|s: (SourceFormat, ContentView)| s.1->Bytes_0)
}

/// The result of a merge: the captured header and the admitted rows.
#[derive(Debug)]
pub struct Merged {
    pub headers: Option<Record>,
    pub rows: Vec<Record>,
}

impl View for Merged {
    type V = (Option<Row>, Seq<Row>);

    open spec fn view(&self) -> (Option<Row>, Seq<Row>) {
        (
            match &self.headers {
                Some(h) => Some(h@),
                None => None,
            },
            rows_of(self.rows@),
        )
    }
}

impl Merged {
    /// The number of admitted data rows.
    pub fn row_count(&self) -> (r: usize)
        ensures
            r == self@.1.len(),
    {
        self.rows.len()
    }
}

/// Merges decoded sources: trims them, captures the header, and keeps the
/// rows that the rules admit, shaped by the column rule.
pub fn merge_decoded(sources: &Vec<Vec<Record>>, trim: Trim, has_headers: bool, skip: &Skip) -> (r: Merged)
    ensures
        r@ == merge_of(sources_view(sources@), trim, has_headers, skip@),
{
    let ghost srcs = sources_view(sources@);
    let mut ready: Vec<Vec<Record>> = Vec::with_capacity(sources.len());
    let mut i: usize = 0;
    while i < sources.len()
        invariant
            i <= sources@.len(),
            srcs == sources_view(sources@),
            ready@.len() == i,
            forall|j: int| 0 <= j < i ==> #[trigger] rows_of(ready@[j]@) == materialized(srcs[j], trim, has_headers),
        decreases sources.len() - i,
    {
        ready.push(materialize(&sources[i], trim, has_headers));
        i = i + 1;
    }
    assert(sources_view(ready@) =~= prepared(srcs, trim, has_headers));
    let headers = merge_header(&ready, skip, has_headers);
    let rows = merge_rows(&ready, skip, has_headers);
    Merged { headers, rows }
}

/// The state of one merge run.
#[derive(Debug)]
struct MergerState {
    has_headers: bool,
    trim: Trim,
    skip: Option<Skip>,
    newline: Newline,
    force_ending_newline: bool,
    capacity: usize,
}

/// The value of an optional rule set.
pub open spec fn skip_view(s: Option<Skip>) -> Option<SkipView> {
    match s {
        Some(s) => Some(s@),
        None => None,
    }
}

/// A copy of an optional rule set.
fn copy_skip(s: &Option<Skip>) -> (r: Option<Skip>)
    ensures
        skip_view(r) == skip_view(*s),
{
    match s {
        Some(s) => Some(s.duplicate()),
        None => None,
    }
}

/// A merger of CSV and sheet sources.
#[derive(Debug)]
pub struct Merger {
    /// The sources to merge.
    sources: Vec<Reader>,
    /// The configuration of the run.
    state: MergerState,
}

/// The value of a merger: its sources and its configuration.
pub struct MergerView {
    pub sources: Seq<(SourceFormat, ContentView)>,
    pub config: ConfigView,
}

impl View for Merger {
    type V = MergerView;

    closed spec fn view(&self) -> MergerView {
        MergerView {
            sources: self.sources@.map_values(|r: Reader| r@),
            config: ConfigView {
                capacity: self.state.capacity,
                has_headers: self.state.has_headers,
                trim: self.state.trim,
                skip: skip_view(self.state.skip),
                newline: self.state.newline,
                force_ending_newline: self.state.force_ending_newline,
            },
        }
    }
}

impl Merger {
    /// Creates a merger with the default configuration for the given sources.
    pub fn from_readers(readers: Vec<Reader>) -> (r: Merger)
        ensures
            r@.sources == readers@.map_values(|r: Reader| r@),
            r@.config == default_config(),
    {
        MergerBuilder::new().from_readers(readers)
    }

    /// Returns a builder for configuring a custom merger.
    pub fn builder() -> (r: MergerBuilder)
        ensures
            r@ == default_config(),
    {
        MergerBuilder::new()
    }

    /// Merges the sources into a header and admitted rows.
    pub fn merge(&self) -> (r: Merged)
        ensures
            r@ == merge_of(
                decoded_sources(self@.sources),
                self@.config.trim,
                self@.config.has_headers,
                rules_of(self@.config.skip),
            ),
    {
        let ghost srcs = self@.sources;
        let n = self.sources.len();
        let mut decoded_rows: Vec<Vec<Record>> = Vec::with_capacity(n);
        let mut i: usize = 0;
        while i < n
            invariant
                i <= n == self.sources@.len(),
                srcs == self@.sources,
                decoded_rows@.len() == i,
                forall|j: int| 0 <= j < i ==> #[trigger] rows_of(decoded_rows@[j]@) == decoded(srcs[j].1),
            decreases n - i,
        {
            assert(srcs[i as int] == self.sources@[i as int]@);
            decoded_rows.push(self.sources[i].decode());
            i = i + 1;
        }
        assert(sources_view(decoded_rows@) =~= decoded_sources(srcs));
        match &self.state.skip {
            Some(skip) => merge_decoded(&decoded_rows, self.state.trim, self.state.has_headers, skip),
            None => merge_decoded(&decoded_rows, self.state.trim, self.state.has_headers, &Skip::new()),
        }
    }

    /// Merges the sources and writes the result in the given format.
    ///
    /// CSV output is the header line (if any) and then one line per admitted
    /// row. Raw output is the bytes of every source in order, with a newline
    /// added after a source that lacks one when that is forced; it needs every
    /// source to hold bytes. Sheet output is not supported.
    pub fn into_bytes(self, format: Format) -> (r: Result<Vec<u8>, MergeError>)
        ensures
            format == Format::Csv ==> (r matches Ok(out) && ({
                let m = merge_of(
                    decoded_sources(self@.sources),
                    self@.config.trim,
                    self@.config.has_headers,
                    rules_of(self@.config.skip),
                );
                out@ == csv_output(m.0, m.1, self@.config.newline)
            })),
            format == Format::Bytes ==> match r {
                Ok(out) => all_bytes(self@.sources) && out@ == raw_concat(
                    source_bytes(self@.sources),
                    self@.config.force_ending_newline,
                    self@.config.newline,
                ),
                Err(e) => e == MergeError::Config && !all_bytes(self@.sources),
            },
            format == Format::Xlsx ==> r == Err::<Vec<u8>, MergeError>(MergeError::Config),
    {
        match format {
            Format::Csv => {
                let m = self.merge();
                let out = write_csv(&m.headers, &m.rows, self.state.newline);
                assert(out@ == csv_output(m@.0, m@.1, self@.config.newline));
                Ok(out)
            },
            Format::Bytes => {
                let ghost srcs = self@.sources;
                let mut parts: Vec<&Vec<u8>> = Vec::with_capacity(self.sources.len());
                let mut i: usize = 0;
                while i < self.sources.len()
                    invariant
                        i <= self.sources@.len(),
                        format == Format::Bytes,
                        srcs == self@.sources,
                        parts@.len() == i,
                        forall|j: int| 0 <= j < i ==> (#[trigger] srcs[j]).1 is Bytes && parts@[j]@ == srcs[j].1->Bytes_0,
                    decreases self.sources.len() - i,
                {
                    assert(srcs[i as int] == self.sources@[i as int]@);
                    match self.sources[i].bytes() {
                        Some(b) => parts.push(b),
                        None => {
                            return Err(MergeError::Config);
                        },
                    }
                    i = i + 1;
                }
                assert(parts@.map_values(|b: &Vec<u8>| b@) =~= source_bytes(srcs));
                Ok(write_raw(&parts, self.state.force_ending_newline, self.state.newline))
            },
            Format::Xlsx => Err(MergeError::Config),
        }
    }
}

/// A builder used for configuring a custom merger.
#[derive(Debug)]
pub struct MergerBuilder {
    /// The capacity of the read buffer, in bytes.
    capacity: usize,
    /// Whether data contains headers.
    has_headers: bool,
    /// The whitespace trim behaviour.
    trim: Trim,
    /// Various skip options.
    skip: Option<Skip>,
    /// Newline style.
    newline: Newline,
    /// Whether the presence of ending newline in each source should be forced.
    force_ending_newline: bool,
}

impl View for MergerBuilder {
    type V = ConfigView;

    closed spec fn view(&self) -> ConfigView {
        ConfigView {
            capacity: self.capacity,
            has_headers: self.has_headers,
            trim: self.trim,
            skip: skip_view(self.skip),
            newline: self.newline,
            force_ending_newline: self.force_ending_newline,
        }
    }
}

impl Default for MergerBuilder {
    fn default() -> (r: MergerBuilder)
        ensures
            r@ == default_config(),
    {
        MergerBuilder {
            capacity: 8192,
            has_headers: true,
            trim: Trim::Preserve,
            skip: None,
            newline: Newline::Lf,
            force_ending_newline: false,
        }
    }
}

impl MergerBuilder {
    /// Creates a new merger builder with the default configuration.
    pub fn new() -> (r: MergerBuilder)
        ensures
            r@ == default_config(),
    {
        MergerBuilder::default()
    }

    /// The capacity (in bytes) of the buffer used in reading sources.
    pub fn capacity(&self) -> (r: usize)
        ensures
            r == self@.capacity,
    {
        self.capacity
    }

    /// Sets the capacity (in bytes) of the buffer used in reading sources.
    pub fn buffer_capacity(&mut self, capacity: usize) -> (r: &mut Self)
        ensures
            r@ == (ConfigView { capacity, ..old(self)@ }),
            final(self)@ == final(r)@,
    {
        self.capacity = capacity;
        self
    }

    /// Whether to treat the first row of each source as a header row.
    pub fn has_headers(&mut self, has_headers: bool) -> (r: &mut Self)
        ensures
            r@ == (ConfigView { has_headers, ..old(self)@ }),
            final(self)@ == final(r)@,
    {
        self.has_headers = has_headers;
        self
    }

    /// Whether fields are trimmed of leading and trailing ASCII whitespace.
    pub fn trim(&mut self, trim: Trim) -> (r: &mut Self)
        ensures
            r@ == (ConfigView { trim, ..old(self)@ }),
            final(self)@ == final(r)@,
    {
        self.trim = trim;
        self
    }

    /// The rules so far, taken out of the builder.
    fn take_skip(&mut self) -> (r: Skip)
        ensures
            r@ == rules_of(old(self)@.skip),
            final(self)@ == (ConfigView { skip: None, ..old(self)@ }),
    {
        match self.skip.take() {
            Some(s) => s,
            None => Skip::new(),
        }
    }

    /// Skips a given number of rows from the head of each source. If
    /// `trailing_only` is set, the head of the first source is preserved.
    pub fn skip_head(&mut self, count: usize, trailing_only: bool) -> (r: &mut Self)
        ensures
            r@ == (ConfigView {
                skip: Some(SkipView { head: (count, trailing_only), ..rules_of(old(self)@.skip) }),
                ..old(self)@
            }),
            final(self)@ == final(r)@,
    {
        let mut skip = self.take_skip();
        skip.head = (count, trailing_only);
        self.skip = Some(skip);
        self
    }

    /// Skips a given number of rows from the tail of each source. If
    /// `leading_only` is set, the tail of the last source is preserved.
    pub fn skip_tail(&mut self, count: usize, leading_only: bool) -> (r: &mut Self)
        ensures
            r@ == (ConfigView {
                skip: Some(SkipView { tail: (count, leading_only), ..rules_of(old(self)@.skip) }),
                ..old(self)@
            }),
            final(self)@ == final(r)@,
    {
        let mut skip = self.take_skip();
        skip.tail = (count, leading_only);
        self.skip = Some(skip);
        self
    }

    /// Skips any row if its length is not the longest.
    pub fn skip_non_max_length(&mut self, yes: bool) -> (r: &mut Self)
        ensures
            r@ == (ConfigView {
                skip: Some(SkipView { non_max_length: yes, ..rules_of(old(self)@.skip) }),
                ..old(self)@
            }),
            final(self)@ == final(r)@,
    {
        let mut skip = self.take_skip();
        skip.non_max_length = yes;
        self.skip = Some(skip);
        self
    }

    /// Skips any row if its length is shorter than the given `threshold`.
    pub fn skip_length_less_than(&mut self, threshold: usize) -> (r: &mut Self)
        ensures
            r@ == (ConfigView {
                skip: Some(SkipView { length_less_than: Some(threshold), ..rules_of(old(self)@.skip) }),
                ..old(self)@
            }),
            final(self)@ == final(r)@,
    {
        let mut skip = self.take_skip();
        skip.length_less_than = Some(threshold);
        self.skip = Some(skip);
        self
    }

    /// Skips any row where a field at one of the given `indexes` is empty.
    ///
    /// Both `Field::Binary` with no bytes and `Field::Empty` are empty.
    pub fn skip_fields_empty(&mut self, indexes: Vec<usize>) -> (r: &mut Self)
        ensures
            r@ == (ConfigView {
                skip: Some(SkipView { fields_is_empty: Some(indexes@), ..rules_of(old(self)@.skip) }),
                ..old(self)@
            }),
            final(self)@ == final(r)@,
    {
        let mut skip = self.take_skip();
        skip.fields_is_empty = Some(indexes);
        self.skip = Some(skip);
        self
    }

    /// Removes the given columns from every row that is kept.
    pub fn drop_columns(&mut self, indexes: Vec<usize>) -> (r: &mut Self)
        ensures
            r@ == (ConfigView {
                skip: Some(SkipView { columns: Some(indexes@), ..rules_of(old(self)@.skip) }),
                ..old(self)@
            }),
            final(self)@ == final(r)@,
    {
        let mut skip = self.take_skip();
        skip.columns = Some(indexes);
        self.skip = Some(skip);
        self
    }

    /// Sets the style of newline when writing CSV.
    pub fn newline(&mut self, newline: Newline) -> (r: &mut Self)
        ensures
            r@ == (ConfigView { newline, ..old(self)@ }),
            final(self)@ == final(r)@,
    {
        self.newline = newline;
        self
    }

    /// Whether a newline is forced at the end of each raw source.
    pub fn force_ending_newline(&mut self, yes: bool) -> (r: &mut Self)
        ensures
            r@ == (ConfigView { force_ending_newline: yes, ..old(self)@ }),
            final(self)@ == final(r)@,
    {
        self.force_ending_newline = yes;
        self
    }

    /// Builds a merger from this configuration that reads the given sources.
    pub fn from_readers(&self, readers: Vec<Reader>) -> (r: Merger)
        ensures
            r@.sources == readers@.map_values(|r: Reader| r@),
            r@.config == self@,
    {
        let state = MergerState {
            has_headers: self.has_headers,
            trim: self.trim,
            skip: copy_skip(&self.skip),
            newline: self.newline,
            force_ending_newline: self.force_ending_newline,
            capacity: self.capacity,
        };
        Merger { sources: readers, state }
    }
}

} // verus!
