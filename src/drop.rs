//! A standalone description of column and row drop behaviour.
use vstd::prelude::*;

verus! {

/// The columns and rows drop behaviour.
#[derive(Debug, Clone, PartialEq, Eq)]
pub struct Drop {
    /// Drops a number of rows from the head of each source.
    head: usize,
    /// Drops a number of rows from the tail of each source.
    tail: usize,
    /// Drops any row if its length is not the longest.
    non_max_length: bool,
    /// Drops any row if its length is shorter than the given one.
    length_less_than: Option<usize>,
    /// Drops any row if its `nth` (zero-based) field is empty.
    fields_empty: Option<Vec<usize>>,
    /// Drops the given columns.
    columns: Option<Vec<usize>>,
}

/// The value of a [`Drop`].
pub struct DropView {
    pub head: usize,
    pub tail: usize,
    pub non_max_length: bool,
    pub length_less_than: Option<usize>,
    pub fields_empty: Option<Seq<usize>>,
    pub columns: Option<Seq<usize>>,
}

impl View for Drop {
    type V = DropView;

    closed spec fn view(&self) -> DropView {
        DropView {
            head: self.head,
            tail: self.tail,
            non_max_length: self.non_max_length,
            length_less_than: self.length_less_than,
            fields_empty: match self.fields_empty {
                Some(v) => Some(v@),
                None => None,
            },
            columns: match self.columns {
                Some(v) => Some(v@),
                None => None,
            },
        }
    }
}

/// The value of a [`Drop`] that drops nothing.
pub open spec fn drop_nothing() -> DropView {
    DropView {
        head: 0,
        tail: 0,
        non_max_length: false,
        length_less_than: None,
        fields_empty: None,
        columns: None,
    }
}

impl Default for Drop {
    fn default() -> (r: Drop)
        ensures
            r@ == drop_nothing(),
    {
        Drop {
            head: 0,
            tail: 0,
            non_max_length: false,
            length_less_than: None,
            fields_empty: None,
            columns: None,
        }
    }
}

impl Drop {
    /// Creates a new [`Drop`] that drops nothing.
    pub fn new() -> (r: Drop)
        ensures
            r@ == drop_nothing(),
    {
        Drop::default()
    }

    /// Drops a given number of rows from the head of each source.
    pub fn drop_head(self, count: usize) -> (r: Self)
        ensures
            r@ == (DropView { head: count, ..self@ }),
    {
        Drop { head: count, ..self }
    }

    /// Drops a given number of rows from the tail of each source.
    pub fn drop_tail(self, count: usize) -> (r: Self)
        ensures
            r@ == (DropView { tail: count, ..self@ }),
    {
        Drop { tail: count, ..self }
    }

    /// Drops any row if its length is not the longest.
    pub fn drop_non_max_length(self, yes: bool) -> (r: Self)
        ensures
            r@ == (DropView { non_max_length: yes, ..self@ }),
    {
        Drop { non_max_length: yes, ..self }
    }

    /// Drops any row if its length is shorter than the given `threshold`.
    pub fn drop_length_less_than(self, threshold: usize) -> (r: Self)
        ensures
            r@ == (DropView { length_less_than: Some(threshold), ..self@ }),
    {
        Drop { length_less_than: Some(threshold), ..self }
    }

    /// Drops any row where a field at one of the given `indexes` is empty.
    pub fn drop_fields_empty(self, indexes: Vec<usize>) -> (r: Self)
        ensures
            r@ == (DropView { fields_empty: Some(indexes@), ..self@ }),
    {
        Drop { fields_empty: Some(indexes), ..self }
    }

    /// Drops the given columns.
    pub fn drop_columns(self, indexes: Vec<usize>) -> (r: Self)
        ensures
            r@ == (DropView { columns: Some(indexes@), ..self@ }),
    {
        Drop { columns: Some(indexes), ..self }
    }
}

} // verus!
