use dashmap::DashMap;
use vstd::prelude::*;

verus! {

/// The count recorded for `k`, zero where none is.
pub open spec fn count_at(m: Map<Seq<char>, usize>, k: Seq<char>) -> usize {
    if m.contains_key(k) {
        m[k]
    } else {
        0
    }
}

/// One more than `c`, wrapping to zero past `usize::MAX`.
pub open spec fn count_after(c: usize) -> usize {
    vstd::wrapping::usize_specs::wrapping_add(c, 1)
}

/// What a map from tag key to count holds.
pub uninterp spec fn tag_counts(m: DashMap<String, usize>) -> Map<Seq<char>, usize>;

/// `DashMap::new`: a map that holds nothing.
#[verifier::external_body]
fn counts_new() -> (created: DashMap<String, usize>)
    ensures
        tag_counts(created).dom().is_empty(),
{
    DashMap::new()
}

/// `DashMap::get`, with the entry copied out: the count under `key`, if any.
#[verifier::external_body]
fn counts_get(m: &DashMap<String, usize>, key: &str) -> (r: Option<usize>)
    ensures
        match r {
            Some(c) => tag_counts(*m).contains_key(key@) && c == tag_counts(*m)[key@],
            None => !tag_counts(*m).contains_key(key@),
        },
{
    m.get(key).map(|entry| *entry.value())
}

/// `DashMap::insert`: afterwards `key` maps to `count`, and every other entry is unchanged.
#[verifier::external_body]
fn counts_insert(m: &mut DashMap<String, usize>, key: String, count: usize)
    ensures
        tag_counts(*final(m)) == tag_counts(*old(m)).insert(key@, count),
{
    m.insert(key, count);
}

/// Counts, per tag key, how many tag values were recorded under it.
pub struct CardinalityTracker {
    counts: DashMap<String, usize>,
}

impl CardinalityTracker {
    /// The counts, by tag key.
    pub closed spec fn view(&self) -> Map<Seq<char>, usize> {
        tag_counts(self.counts)
    }

    /// A tracker with every count at zero.
    pub fn new() -> (t: Self)
        ensures
            t@.dom().is_empty(),
    {
        CardinalityTracker { counts: counts_new() }
    }

    /// Counts one more value under `key`.
    pub fn record_tag_value(&mut self, key: &str)
        ensures
            final(self)@ == old(self)@.insert(key@, count_after(count_at(old(self)@, key@))),
    {
        match counts_get(&self.counts, key) {
            Some(c) => counts_insert(&mut self.counts, key.to_string(), c.wrapping_add(1)),
            None => counts_insert(&mut self.counts, key.to_string(), 1),
        }
    }

    /// How many values were recorded under `key`.
    pub fn get_count(&self, key: &str) -> (c: usize)
        ensures
            c == count_at(self@, key@),
    {
        match counts_get(&self.counts, key) {
            Some(c) => c,
            None => 0,
        }
    }
}

impl Default for CardinalityTracker {
    fn default() -> (t: Self)
        ensures
            t@.dom().is_empty(),
    {
        Self::new()
    }
}

/// Recording a value under a key raises that key's count by one (wrapping past
/// `usize::MAX`) and leaves every other key's count as it was.
pub proof fn law_record_counts_one(m: Map<Seq<char>, usize>, key: Seq<char>, other: Seq<char>)
    ensures
        count_at(m.insert(key, count_after(count_at(m, key))), key) == count_after(count_at(m, key)),
        count_at(m, key) < usize::MAX ==> count_at(m.insert(key, count_after(count_at(m, key))), key)
            == count_at(m, key) + 1,
        other != key ==> count_at(m.insert(key, count_after(count_at(m, key))), other) == count_at(
            m,
            other,
        ),
{
}

/// How many times `k` occurs in `keys`.
pub open spec fn occurrences(keys: Seq<Seq<char>>, k: Seq<char>) -> nat
    decreases keys.len(),
{
    if keys.len() == 0 {
        0
    } else {
        occurrences(keys.drop_last(), k) + if keys.last() == k {
            1nat
        } else {
            0nat
        }
    }
}

/// The counts after `record_tag_value` is called with each of `keys` in turn.
pub open spec fn record_all(m: Map<Seq<char>, usize>, keys: Seq<Seq<char>>) -> Map<Seq<char>, usize>
    decreases keys.len(),
{
    if keys.len() == 0 {
        m
    } else {
        let before = record_all(m, keys.drop_last());
        before.insert(keys.last(), count_after(count_at(before, keys.last())))
    }
}

/// From a fresh tracker, the count of a key is the number of times it was
/// recorded (as long as that number fits in a `usize`).
pub proof fn law_count_is_occurrences(keys: Seq<Seq<char>>, k: Seq<char>)
    requires
        occurrences(keys, k) <= usize::MAX,
    ensures
        count_at(record_all(Map::empty(), keys), k) == occurrences(keys, k),
    decreases keys.len(),
{
    if keys.len() > 0 {
        law_count_is_occurrences(keys.drop_last(), k);
    }
}

} // verus!
