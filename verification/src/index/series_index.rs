use crate::index::metadata_store::{series_by_id, series_map_get, series_map_insert, series_map_new};
use crate::types::series::{Series, SeriesView};
use crate::types::tags::{lemma_tags_canonical, pair_view, Tags};
use dashmap::DashMap;
use vstd::prelude::*;

verus! {

/// The identity of a series as values: its metric name and its tags in key order.
pub type SeriesKeyView = (Seq<char>, Seq<(Seq<char>, Seq<char>)>);

/// The key a metric and a tag set are indexed under.
pub open spec fn series_key_of(metric: Seq<char>, tags: &Tags) -> SeriesKeyView {
    (metric, tags.entries_view())
}

/// The identity of a series: its metric name and its tags in key order.
#[derive(Debug, Clone, PartialEq, Eq, Hash)]
pub struct SeriesKey {
    pub metric: String,
    pub tags: Vec<(String, String)>,
}

impl SeriesKey {
    pub open spec fn view(&self) -> SeriesKeyView {
        (self.metric@, self.tags@.map_values(|p: (String, String)| pair_view(p)))
    }

    /// The key of `metric` with `tags`, the tags taken in key order.
    pub fn from_parts(metric: &str, tags: &Tags) -> (k: Self)
        ensures
            k@ == series_key_of(metric@, tags),
    {
        let entries = tags.entries();
        let n = entries.len();
        let mut pairs: Vec<(String, String)> = Vec::new();
        let mut i: usize = 0;
        while i < n
            invariant
                i <= n,
                n == entries@.len(),
                entries@.map_values(|p: (String, String)| pair_view(p)) == tags.entries_view(),
                pairs@.len() == i,
                forall|j: int|
                    0 <= j < i ==> pair_view(#[trigger] pairs@[j]) == pair_view(entries@[j]),
            decreases n - i,
        {
            let k = entries[i].0.clone();
            let v = entries[i].1.clone();
            pairs.push((k, v));
            i = i + 1;
        }
        let key = SeriesKey { metric: metric.to_string(), tags: pairs };
        assert(key@.1 =~= tags.entries_view());
        key
    }
}

impl<'a> From<(&'a str, &'a Tags)> for SeriesKey {
    /// The key of a metric with a tag set; see `SeriesKey::from_parts`.
    fn from(parts: (&'a str, &'a Tags)) -> (k: Self)
        ensures
            k@ == series_key_of(parts.0@, parts.1),
    {
        SeriesKey::from_parts(parts.0, parts.1)
    }
}

impl<'a> vstd::std_specs::convert::FromSpecImpl<(&'a str, &'a Tags)> for SeriesKey {
    /// Keys built from equal parts are equal by their views, not as Rust values,
    /// so no value-level description is claimed; `from` states the view.
    open spec fn obeys_from_spec() -> bool {
        false
    }

    open spec fn from_spec(parts: (&'a str, &'a Tags)) -> Self {
        arbitrary()
    }
}

/// What a map from series key to id holds, each key by its view.
pub uninterp spec fn series_key_ids(m: DashMap<SeriesKey, u64>) -> Map<SeriesKeyView, u64>;

/// `DashMap::new`: a map that holds nothing.
#[verifier::external_body]
fn key_ids_new() -> (created: DashMap<SeriesKey, u64>)
    ensures
        series_key_ids(created).dom().is_empty(),
{
    DashMap::new()
}

/// `DashMap::get`, with the entry copied out: the id stored under `key`, if any.
#[verifier::external_body]
fn key_ids_get(m: &DashMap<SeriesKey, u64>, key: &SeriesKey) -> (r: Option<u64>)
    ensures
        match r {
            Some(id) => series_key_ids(*m).contains_key(key@) && id == series_key_ids(*m)[key@],
            None => !series_key_ids(*m).contains_key(key@),
        },
{
    m.get(key).map(|entry| *entry.value())
}

/// `DashMap::insert`: afterwards `key` maps to `id`, and every other entry is unchanged.
#[verifier::external_body]
fn key_ids_insert(m: &mut DashMap<SeriesKey, u64>, key: SeriesKey, id: u64)
    ensures
        series_key_ids(*final(m)) == series_key_ids(*old(m)).insert(key@, id),
{
    m.insert(key, id);
}

/// Gives each distinct (metric, tags) its own series id, ids counting up from 1,
/// and keeps the series of each id.
pub struct SeriesIndex {
    next_id: u64,
    key_to_id: DashMap<SeriesKey, u64>,
    id_to_series: DashMap<u64, Series>,
}

impl SeriesIndex {
    /// The id of each known series key.
    pub closed spec fn ids(&self) -> Map<SeriesKeyView, u64> {
        series_key_ids(self.key_to_id)
    }

    /// The series of each id handed out.
    pub closed spec fn series(&self) -> Map<u64, SeriesView> {
        series_by_id(self.id_to_series)
    }

    /// The id the next new series gets.
    pub closed spec fn next_id(&self) -> u64 {
        self.next_id
    }

    /// Ids are handed out from 1 upward, one per key; every key's series is kept
    /// under its id, and every kept series is the one of its key.
    #[verifier::type_invariant]
    pub open spec fn wf(&self) -> bool {
        &&& 1 <= self.next_id()
        &&& self.ids().dom().finite()
        &&& self.ids().dom().len() + 1 == self.next_id()
        &&& forall|k: SeriesKeyView| #[trigger]
            self.ids().contains_key(k) ==> {
                &&& 1 <= self.ids()[k] < self.next_id()
                &&& self.series().contains_key(self.ids()[k])
                &&& self.series()[self.ids()[k]] == SeriesView {
                    id: self.ids()[k],
                    metric: k.0,
                    tags: k.1,
                }
            }
        &&& forall|id: u64| #[trigger]
            self.series().contains_key(id) ==> {
                &&& self.series()[id].id == id
                &&& self.ids().contains_key((self.series()[id].metric, self.series()[id].tags))
                &&& self.ids()[(self.series()[id].metric, self.series()[id].tags)] == id
            }
    }

    /// An index that knows no series; the first id it hands out is 1.
    pub fn new() -> (idx: Self)
        ensures
            idx.wf(),
            idx.ids().dom().is_empty(),
            idx.series().dom().is_empty(),
            idx.next_id() == 1,
    {
        SeriesIndex { next_id: 1, key_to_id: key_ids_new(), id_to_series: series_map_new() }
    }

    /// The id of the series of `metric` with `tags`. A series seen for the first
    /// time gets the next id, and is recorded under it.
    pub fn get_or_create(&mut self, metric: &str, tags: &Tags) -> (id: u64)
        requires
            old(self).next_id() < u64::MAX,
        ensures
            final(self).wf(),
            final(self).ids().contains_key(series_key_of(metric@, tags)),
            final(self).ids()[series_key_of(metric@, tags)] == id,
            forall|k: SeriesKeyView| #[trigger]
                old(self).ids().contains_key(k) ==> final(self).ids().contains_key(k)
                    && final(self).ids()[k] == old(self).ids()[k],
            forall|i: u64| #[trigger]
                old(self).series().contains_key(i) ==> final(self).series().contains_key(i)
                    && final(self).series()[i] == old(self).series()[i],
            ({
                let key = series_key_of(metric@, tags);
                if old(self).ids().contains_key(key) {
                    &&& id == old(self).ids()[key]
                    &&& final(self).ids() == old(self).ids()
                    &&& final(self).series() == old(self).series()
                    &&& final(self).next_id() == old(self).next_id()
                } else {
                    &&& id == old(self).next_id()
                    &&& final(self).ids() == old(self).ids().insert(key, id)
                    &&& final(self).series() == old(self).series().insert(
                        id,
                        SeriesView { id, metric: metric@, tags: tags.entries_view() },
                    )
                    &&& final(self).next_id() == old(self).next_id() + 1
                }
            }),
    {
        proof {
            use_type_invariant(&*self);
        }
        let key = SeriesKey::from_parts(metric, tags);
        match key_ids_get(&self.key_to_id, &key) {
            Some(id) => id,
            None => {
                let mut current = SeriesIndex::new();
                std::mem::swap(&mut current, self);
                let SeriesIndex { next_id, mut key_to_id, mut id_to_series } = current;
                let id = next_id;
                proof {
                    assert(!old(self).series().contains_key(id));
                }
                key_ids_insert(&mut key_to_id, key, id);
                let series = Series { id, metric: metric.to_string(), tags: tags.clone() };
                series_map_insert(&mut id_to_series, id, series);
                let next_id = id + 1;
                proof {
                    let ids = series_key_ids(key_to_id);
                    let ser = series_by_id(id_to_series);
                    let k0 = key@;
                    assert forall|k: SeriesKeyView| #[trigger]
                        ids.contains_key(k) implies {
                        &&& 1 <= ids[k] < next_id
                        &&& ser.contains_key(ids[k])
                        &&& ser[ids[k]] == SeriesView {
                            id: ids[k],
                            metric: k.0,
                            tags: k.1,
                        }
                    } by {
                        if k != k0 {
                            assert(old(self).ids().contains_key(k));
                        }
                    }
                    assert forall|i: u64| #[trigger]
                        ser.contains_key(i) implies {
                        &&& ser[i].id == i
                        &&& ids.contains_key((ser[i].metric, ser[i].tags))
                        &&& ids[(ser[i].metric, ser[i].tags)] == i
                    } by {
                        if i != id {
                            assert(old(self).series().contains_key(i));
                            let ki = (old(self).series()[i].metric, old(self).series()[i].tags);
                            assert(old(self).ids().contains_key(ki));
                        }
                    }
                    assert(ids.dom() == old(self).ids().dom().insert(k0));
                }
                *self = SeriesIndex { next_id, key_to_id, id_to_series };
                id
            },
        }
    }

    /// The id the next new series would get.
    pub fn next_series_id(&self) -> (n: u64)
        ensures
            n == self.next_id(),
    {
        self.next_id
    }

    /// The series recorded under `id`, if that id was handed out.
    pub fn get_series(&self, id: u64) -> (r: Option<Series>)
        ensures
            match r {
                Some(s) => self.series().contains_key(id) && s@ == self.series()[id],
                None => !self.series().contains_key(id),
            },
    {
        series_map_get(&self.id_to_series, id)
    }
}

impl Default for SeriesIndex {
    fn default() -> (idx: Self)
        ensures
            idx.wf(),
            idx.ids().dom().is_empty(),
            idx.series().dom().is_empty(),
            idx.next_id() == 1,
    {
        Self::new()
    }
}

/// Distinct series never share an id.
pub proof fn law_distinct_series_distinct_ids(idx: &SeriesIndex, a: SeriesKeyView, b: SeriesKeyView)
    requires
        idx.wf(),
        idx.ids().contains_key(a),
        idx.ids().contains_key(b),
        a != b,
    ensures
        idx.ids()[a] != idx.ids()[b],
{
    let ia = idx.ids()[a];
    let ib = idx.ids()[b];
    assert(idx.series()[ia].metric == a.0 && idx.series()[ia].tags == a.1);
    assert(idx.series()[ib].metric == b.0 && idx.series()[ib].tags == b.1);
}

/// Tag sets with the same keys and values name the same series, whatever order
/// their tags were inserted in.
pub proof fn law_equivalent_tags_same_series(metric: Seq<char>, a: &Tags, b: &Tags)
    requires
        a.wf(),
        b.wf(),
        a@ == b@,
    ensures
        series_key_of(metric, a) == series_key_of(metric, b),
{
    lemma_tags_canonical(a, b);
}

/// Ids are dense: from a fresh index, the `n`-th distinct series seen gets id
/// `n`, so the next new series gets the number of known series plus one.
pub proof fn law_ids_are_dense(idx: &SeriesIndex)
    requires
        idx.wf(),
    ensures
        idx.next_id() == idx.ids().dom().len() + 1,
{
}

/// Every id handed out is below the next one: ids grow with the order in which
/// series were first seen, and the next new series gets an id no series has.
pub proof fn law_ids_below_next(idx: &SeriesIndex, k: SeriesKeyView)
    requires
        idx.wf(),
        idx.ids().contains_key(k),
    ensures
        1 <= idx.ids()[k] < idx.next_id(),
        !idx.series().contains_key(idx.next_id()),
        !idx.series().contains_key(0),
{
    if idx.series().contains_key(0) {
        let s = idx.series()[0];
        assert(idx.ids().contains_key((s.metric, s.tags)));
    }
    if idx.series().contains_key(idx.next_id()) {
        let s = idx.series()[idx.next_id()];
        assert(idx.ids().contains_key((s.metric, s.tags)));
    }
}

/// A series is found under the id it was given, with the metric and tags it
/// was given for.
pub proof fn law_series_found_by_id(idx: &SeriesIndex, k: SeriesKeyView)
    requires
        idx.wf(),
        idx.ids().contains_key(k),
    ensures
        idx.series().contains_key(idx.ids()[k]),
        idx.series()[idx.ids()[k]].metric == k.0,
        idx.series()[idx.ids()[k]].tags == k.1,
{
}

} // verus!
