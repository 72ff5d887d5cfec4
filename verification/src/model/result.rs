//! The result of a query: its records, the total count the instance
//! reported, and the errors of the parts that failed.

use vstd::prelude::*;
use crate::error::Error;
use crate::model::record::Record;

verus! {

/// The result of a query, which may hold errors of partial failures (a
/// related-record fetch that failed while the main query succeeded).
#[derive(Debug)]
pub struct QueryResult {
    /// The records read.
    pub records: Vec<Record>,
    /// The total count of matching records, from `X-Total-Count`, if given.
    pub total_count: Option<u64>,
    /// The errors of partial failures.
    pub errors: Vec<Error>,
}

impl QueryResult {
    /// A result holding only records.
    pub fn new(records: Vec<Record>) -> (r: Self)
        ensures
            r.records == records,
            r.total_count.is_none(),
            r.errors@.len() == 0,
    {
        QueryResult { records, total_count: None, errors: Vec::new() }
    }

    /// An empty result, whose total count is zero.
    pub fn empty() -> (r: Self)
        ensures
            r.records@.len() == 0,
            r.total_count == Some(0u64),
            r.errors@.len() == 0,
    {
        QueryResult { records: Vec::new(), total_count: Some(0), errors: Vec::new() }
    }

    /// Whether some part failed.
    pub fn has_errors(&self) -> (r: bool)
        ensures
            r == (self.errors@.len() > 0),
    {
        self.errors.len() > 0
    }

    /// Whether every part succeeded.
    pub fn is_ok(&self) -> (r: bool)
        ensures
            r == (self.errors@.len() == 0),
    {
        self.errors.len() == 0
    }

    /// The number of records.
    pub fn len(&self) -> (r: usize)
        ensures
            r == self.records@.len(),
    {
        self.records.len()
    }

    /// Whether there are no records.
    pub fn is_empty(&self) -> (r: bool)
        ensures
            r == (self.records@.len() == 0),
    {
        self.records.len() == 0
    }

    /// The first record, if any.
    pub fn first(&self) -> (r: Option<&Record>)
        ensures
            match r {
                Some(x) => self.records@.len() > 0 && *x == self.records@[0],
                None => self.records@.len() == 0,
            },
    {
        if self.records.len() > 0 {
            Some(&self.records[0])
        } else {
            None
        }
    }

    /// The records, in order.
    pub fn iter(&self) -> (r: &[Record])
        ensures
            r@ == self.records@,
    {
        self.records.as_slice()
    }

    /// The records, taken out of the result.
    pub fn into_records(self) -> (r: Vec<Record>)
        ensures
            r == self.records,
    {
        self.records
    }
}

} // verus!
