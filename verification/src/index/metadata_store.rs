use crate::types::series::{Series, SeriesView};
use dashmap::DashMap;
use vstd::prelude::*;

verus! {

/// What a map from series id to series holds, each series by its view.
pub uninterp spec fn series_by_id(m: DashMap<u64, Series>) -> Map<u64, SeriesView>;

/// `DashMap::new`: a map that holds nothing.
#[verifier::external_body]
pub(crate) fn series_map_new() -> (created: DashMap<u64, Series>)
    ensures
        series_by_id(created).dom().is_empty(),
{
    DashMap::new()
}

/// `DashMap::get`, with the entry copied out: the series stored under `id`, if any.
#[verifier::external_body]
pub(crate) fn series_map_get(m: &DashMap<u64, Series>, id: u64) -> (r: Option<Series>)
    ensures
        match r {
            Some(s) => series_by_id(*m).contains_key(id) && s@ == series_by_id(*m)[id],
            None => !series_by_id(*m).contains_key(id),
        },
{
    m.get(&id).map(|entry| entry.value().clone())
}

/// `DashMap::insert`: afterwards `id` maps to `s`, and every other entry is unchanged.
#[verifier::external_body]
pub(crate) fn series_map_insert(m: &mut DashMap<u64, Series>, id: u64, s: Series)
    ensures
        series_by_id(*final(m)) == series_by_id(*old(m)).insert(id, s@),
{
    m.insert(id, s);
}

/// Metadata of every known series, by id.
pub struct MetadataStore {
    series: DashMap<u64, Series>,
}

impl MetadataStore {
    /// The stored series, by id.
    pub closed spec fn view(&self) -> Map<u64, SeriesView> {
        series_by_id(self.series)
    }

    /// A store that holds no series.
    pub fn new() -> (s: Self)
        ensures
            s@.dom().is_empty(),
    {
        MetadataStore { series: series_map_new() }
    }

    /// Stores `series` under its id, replacing what was stored there.
    pub fn insert(&mut self, series: Series)
        ensures
            final(self)@ == old(self)@.insert(series.id, series@),
    {
        let id = series.id;
        series_map_insert(&mut self.series, id, series);
    }

    /// The series stored under `id`, if any.
    pub fn get(&self, id: u64) -> (r: Option<Series>)
        ensures
            match r {
                Some(s) => self@.contains_key(id) && s@ == self@[id],
                None => !self@.contains_key(id),
            },
    {
        series_map_get(&self.series, id)
    }
}

/// Reading a series back gives what the last insert under its id stored, and
/// an insert leaves every other id as it was.
pub proof fn law_metadata_read_after_write(before: Map<u64, SeriesView>, s: SeriesView, id: u64)
    ensures
        before.insert(s.id, s).contains_key(s.id),
        before.insert(s.id, s)[s.id] == s,
        id != s.id ==> (before.insert(s.id, s).contains_key(id) == before.contains_key(id)),
        id != s.id && before.contains_key(id) ==> before.insert(s.id, s)[id] == before[id],
{
}

/// The store after each of `stored` is inserted in turn into `m`.
pub open spec fn insert_all(m: Map<u64, SeriesView>, stored: Seq<SeriesView>) -> Map<u64, SeriesView>
    decreases stored.len(),
{
    if stored.len() == 0 {
        m
    } else {
        insert_all(m, stored.drop_last()).insert(stored.last().id, stored.last())
    }
}

/// The last of `stored` with the id `id`, if any.
pub open spec fn last_with_id(stored: Seq<SeriesView>, id: u64) -> Option<SeriesView>
    decreases stored.len(),
{
    if stored.len() == 0 {
        None
    } else if stored.last().id == id {
        Some(stored.last())
    } else {
        last_with_id(stored.drop_last(), id)
    }
}

/// From an empty store, after a sequence of inserts, reading an id gives the
/// series last stored under it, and nothing where none was stored.
pub proof fn law_metadata_reads_last_write(stored: Seq<SeriesView>, id: u64)
    ensures
        match last_with_id(stored, id) {
            Some(s) => insert_all(Map::empty(), stored).contains_key(id) && insert_all(
                Map::empty(),
                stored,
            )[id] == s,
            None => !insert_all(Map::empty(), stored).contains_key(id),
        },
    decreases stored.len(),
{
    if stored.len() > 0 {
        law_metadata_reads_last_write(stored.drop_last(), id);
    }
}

impl Default for MetadataStore {
    fn default() -> (s: Self)
        ensures
            s@.dom().is_empty(),
    {
        Self::new()
    }
}

} // verus!
