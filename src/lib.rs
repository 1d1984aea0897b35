//! Merges tabular sources (CSV bytes and typed-cell sheets) into one record
//! stream, with row and column filters and a CSV or raw-bytes writer.
use vstd::prelude::*;

pub mod command;
pub mod drop;
pub mod filter;
pub mod lemmas;
pub mod lev_distance;
pub mod merger;
pub mod reader;
pub mod record;
pub mod writer;
pub mod xlsx;

pub use crate::drop::Drop;
pub use crate::filter::Skip;
pub use crate::merger::{Format, MergeError, Merged, Merger, MergerBuilder, Newline};
pub use crate::reader::Reader;
pub use crate::record::{Field, Record};

verus! {

/// The whitespace preservation behaviour.
#[derive(Debug, Clone, Copy, PartialEq, Eq, Structural)]
#[non_exhaustive]
pub enum Trim {
    /// Preserves fields and headers.
    Preserve,
    /// Trim whitespace from headers.
    Headers,
    /// Trim whitespace from fields, but not headers.
    Fields,
    /// Trim whitespace from fields and headers.
    All,
}

impl Trim {
    pub open spec fn trims_fields(self) -> bool {
        self == Trim::Fields || self == Trim::All
    }

    pub open spec fn trims_headers(self) -> bool {
        self == Trim::Headers || self == Trim::All
    }

    /// Whether data fields are trimmed.
    pub fn should_trim_fields(&self) -> (r: bool)
        ensures
            r == self.trims_fields(),
    {
        *self == Trim::Fields || *self == Trim::All
    }

    /// Whether header fields are trimmed.
    pub fn should_trim_headers(&self) -> (r: bool)
        ensures
            r == self.trims_headers(),
    {
        *self == Trim::Headers || *self == Trim::All
    }
}

impl Default for Trim {
    fn default() -> (r: Trim)
        ensures
            r == Trim::Preserve,
    {
        Trim::Preserve
    }
}

} // verus!
