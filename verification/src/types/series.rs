use crate::types::tags::Tags;
use vstd::prelude::*;

verus! {

/// What a series is, as mathematical values: its id, its metric name and its
/// tags in key order.
pub struct SeriesView {
    pub id: u64,
    pub metric: Seq<char>,
    pub tags: Seq<(Seq<char>, Seq<char>)>,
}

/// A logical series: a metric name and a tag set, under the id the index gave it.
#[derive(Debug)]
pub struct Series {
    pub id: u64,
    pub metric: String,
    pub tags: Tags,
}

impl Series {
    pub open spec fn view(&self) -> SeriesView {
        SeriesView { id: self.id, metric: self.metric@, tags: self.tags.entries_view() }
    }
}

impl Clone for Series {
    fn clone(&self) -> (c: Self)
        ensures
            c@ == self@,
    {
        Series { id: self.id, metric: self.metric.clone(), tags: self.tags.clone() }
    }
}

} // verus!
