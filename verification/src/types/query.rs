use vstd::prelude::*;

verus! {

/// A condition on one tag: the key must carry the value.
#[derive(Debug, Clone)]
pub struct TagFilter {
    pub key: String,
    pub value: String,
}

/// A query for the points of a metric whose tags pass every filter,
/// between two timestamps.
#[derive(Debug, Clone)]
pub struct Query {
    pub metric: String,
    pub filters: Vec<TagFilter>,
    pub start: i64,
    pub end: i64,
}

} // verus!
