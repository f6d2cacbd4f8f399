use crate::types::tags::pair_view;
use dashmap::DashMap;
use std::collections::HashSet;
use vstd::prelude::*;

verus! {

broadcast use vstd::std_specs::hash::group_hash_axioms;

/// A tag pair as values: its key and its value.
pub type TagPairView = (Seq<char>, Seq<char>);

/// The posting lists, by tag pair.
pub type Postings = Map<TagPairView, Set<u64>>;

/// The ids stored under the pair `k`, the empty set where nothing is.
pub open spec fn postings_at(m: Postings, k: TagPairView) -> Set<u64> {
    if m.contains_key(k) {
        m[k]
    } else {
        Set::empty()
    }
}

/// The posting lists after `id` is added under each of `pairs` in turn.
pub open spec fn add_postings(m: Postings, pairs: Seq<TagPairView>, id: u64) -> Postings
    decreases pairs.len(),
{
    if pairs.len() == 0 {
        m
    } else {
        let before = add_postings(m, pairs.drop_last(), id);
        before.insert(pairs.last(), postings_at(before, pairs.last()).insert(id))
    }
}

/// The tag pairs of a list, as values.
pub open spec fn tag_pairs(tags: Seq<(String, String)>) -> Seq<TagPairView> {
    tags.map_values(|p: (String, String)| pair_view(p))
}

/// What a map from tag pair to posting list holds.
pub uninterp spec fn postings_of(m: DashMap<(String, String), HashSet<u64>>) -> Postings;

/// `DashMap::new`: a map that holds nothing.
#[verifier::external_body]
fn postings_new() -> (created: DashMap<(String, String), HashSet<u64>>)
    ensures
        postings_of(created).dom().is_empty(),
{
    DashMap::new()
}

/// `DashMap::get`, with the entry copied out: the posting list under `pair`, if any.
#[verifier::external_body]
fn postings_get(m: &DashMap<(String, String), HashSet<u64>>, pair: &(String, String)) -> (r:
    Option<HashSet<u64>>)
    ensures
        match r {
            Some(s) => postings_of(*m).contains_key(pair_view(*pair)) && s@ == postings_of(
                *m,
            )[pair_view(*pair)],
            None => !postings_of(*m).contains_key(pair_view(*pair)),
        },
{
    m.get(pair).map(|entry| entry.value().clone())
}

/// `DashMap::insert`: afterwards `pair` maps to `ids`, and every other entry is unchanged.
#[verifier::external_body]
fn postings_insert(
    m: &mut DashMap<(String, String), HashSet<u64>>,
    pair: (String, String),
    ids: HashSet<u64>,
)
    ensures
        postings_of(*final(m)) == postings_of(*old(m)).insert(pair_view(pair), ids@),
{
    m.insert(pair, ids);
}

/// Maps each tag pair (key, value) to the set of series that carry it (a posting list).
pub struct InvertedIndex {
    postings: DashMap<(String, String), HashSet<u64>>,
}

impl InvertedIndex {
    /// The posting lists, by tag pair.
    pub closed spec fn view(&self) -> Postings {
        postings_of(self.postings)
    }

    /// An index with no postings.
    pub fn new() -> (idx: Self)
        ensures
            idx@.dom().is_empty(),
    {
        InvertedIndex { postings: postings_new() }
    }

    /// Records that the series `series_id` carries each of `tags`.
    pub fn insert(&mut self, series_id: u64, tags: &[(String, String)])
        ensures
            final(self)@ == add_postings(old(self)@, tag_pairs(tags@), series_id),
            forall|k: TagPairView|
                #![trigger postings_at(final(self)@, k)]
                postings_at(final(self)@, k) == if tag_pairs(tags@).contains(k) {
                    postings_at(old(self)@, k).insert(series_id)
                } else {
                    postings_at(old(self)@, k)
                },
    {
        let ghost pairs = tag_pairs(tags@);
        let n = tags.len();
        let mut i: usize = 0;
        while i < n
            invariant
                i <= n,
                n == tags@.len(),
                pairs == tag_pairs(tags@),
                self@ == add_postings(old(self)@, pairs.take(i as int), series_id),
            decreases n - i,
        {
            let pair = (tags[i].0.clone(), tags[i].1.clone());
            let mut ids = match postings_get(&self.postings, &pair) {
                Some(ids) => ids,
                None => HashSet::new(),
            };
            ids.insert(series_id);
            postings_insert(&mut self.postings, pair, ids);
            proof {
                assert(pairs.take(i + 1).drop_last() =~= pairs.take(i as int));
                assert(pairs.take(i + 1).last() == pairs[i as int]);
            }
            i = i + 1;
        }
        proof {
            assert(pairs.take(n as int) =~= pairs);
            law_postings_exact(old(self)@, pairs, series_id);
        }
    }

    /// The series that carry the tag `key` with `value`.
    pub fn lookup(&self, key: &str, value: &str) -> (ids: HashSet<u64>)
        ensures
            ids@ == postings_at(self@, (key@, value@)),
    {
        let pair = (key.to_string(), value.to_string());
        match postings_get(&self.postings, &pair) {
            Some(ids) => ids,
            None => HashSet::new(),
        }
    }
}

impl Default for InvertedIndex {
    fn default() -> (idx: Self)
        ensures
            idx@.dom().is_empty(),
    {
        Self::new()
    }
}

/// Adding a series under some tag pairs adds it to exactly those pairs' lists:
/// every other pair's list is left as it was.
pub proof fn law_postings_exact(m: Postings, pairs: Seq<TagPairView>, id: u64)
    ensures
        forall|k: TagPairView|
            #![trigger postings_at(add_postings(m, pairs, id), k)]
            postings_at(add_postings(m, pairs, id), k) == if pairs.contains(k) {
                postings_at(m, k).insert(id)
            } else {
                postings_at(m, k)
            },
    decreases pairs.len(),
{
    if pairs.len() > 0 {
        let rest = pairs.drop_last();
        law_postings_exact(m, rest, id);
        assert forall|k: TagPairView| #![trigger postings_at(add_postings(m, pairs, id), k)]
            postings_at(add_postings(m, pairs, id), k) == if pairs.contains(k) {
                postings_at(m, k).insert(id)
            } else {
                postings_at(m, k)
            } by {
            let before = add_postings(m, rest, id);
            assert(postings_at(before, k) == if rest.contains(k) {
                postings_at(m, k).insert(id)
            } else {
                postings_at(m, k)
            });
            if k == pairs.last() {
                assert(pairs.contains(k)) by {
                    assert(pairs[pairs.len() - 1] == k);
                }
                if rest.contains(k) {
                    assert(postings_at(m, k).insert(id).insert(id) =~= postings_at(m, k).insert(
                        id,
                    ));
                }
            } else {
                if pairs.contains(k) {
                    let j = choose|j: int| 0 <= j < pairs.len() && pairs[j] == k;
                    assert(j < pairs.len() - 1);
                    assert(rest[j] == k);
                }
                if rest.contains(k) {
                    let j = choose|j: int| 0 <= j < rest.len() && rest[j] == k;
                    assert(pairs[j] == k);
                }
            }
        }
    }
}

/// After a series is recorded under some tag pairs, a lookup of any of those
/// pairs finds it, and no series is ever dropped from a list.
pub proof fn law_postings_grow(m: Postings, pairs: Seq<TagPairView>, id: u64)
    ensures
        forall|j: int|
            0 <= j < pairs.len() ==> #[trigger] postings_at(add_postings(m, pairs, id), pairs[j]).contains(
                id,
            ),
        forall|k: TagPairView, x: u64| #[trigger]
            postings_at(m, k).contains(x) ==> #[trigger] postings_at(
                add_postings(m, pairs, id),
                k,
            ).contains(x),
{
    law_postings_exact(m, pairs, id);
    assert forall|j: int| 0 <= j < pairs.len() implies #[trigger] postings_at(
        add_postings(m, pairs, id),
        pairs[j],
    ).contains(id) by {
        assert(pairs.contains(pairs[j]));
    }
}

/// Recording a series under the same pairs twice leaves the lists as recording
/// it once does.
pub proof fn law_postings_idempotent(m: Postings, pairs: Seq<TagPairView>, id: u64)
    ensures
        forall|k: TagPairView|
            #![trigger postings_at(add_postings(add_postings(m, pairs, id), pairs, id), k)]
            postings_at(add_postings(add_postings(m, pairs, id), pairs, id), k) == postings_at(
                add_postings(m, pairs, id),
                k,
            ),
{
    let once = add_postings(m, pairs, id);
    law_postings_exact(m, pairs, id);
    law_postings_exact(once, pairs, id);
    assert forall|k: TagPairView| #![trigger postings_at(add_postings(once, pairs, id), k)]
        postings_at(add_postings(once, pairs, id), k) == postings_at(once, k) by {
        if pairs.contains(k) {
            assert(postings_at(once, k).insert(id) =~= postings_at(once, k));
        }
    }
}

/// Recording a series under two lists of pairs one after the other is the same
/// as recording it under the two lists joined.
pub proof fn law_postings_concat(m: Postings, a: Seq<TagPairView>, b: Seq<TagPairView>, id: u64)
    ensures
        add_postings(add_postings(m, a, id), b, id) == add_postings(m, a + b, id),
    decreases b.len(),
{
    if b.len() == 0 {
        assert(a + b =~= a);
    } else {
        law_postings_concat(m, a, b.drop_last(), id);
        assert((a + b).drop_last() =~= a + b.drop_last());
        assert((a + b).last() == b.last());
    }
}

/// The posting lists after each `(id, pairs)` of `batches` is inserted in turn.
pub open spec fn insert_batches(m: Postings, batches: Seq<(u64, Seq<TagPairView>)>) -> Postings
    decreases batches.len(),
{
    if batches.len() == 0 {
        m
    } else {
        add_postings(insert_batches(m, batches.drop_last()), batches.last().1, batches.last().0)
    }
}

/// The ids of the batches whose pairs include `k`.
pub open spec fn ids_with_pair(batches: Seq<(u64, Seq<TagPairView>)>, k: TagPairView) -> Set<u64>
    decreases batches.len(),
{
    if batches.len() == 0 {
        Set::empty()
    } else if batches.last().1.contains(k) {
        ids_with_pair(batches.drop_last(), k).insert(batches.last().0)
    } else {
        ids_with_pair(batches.drop_last(), k)
    }
}

/// From an empty index, after a sequence of inserts, a lookup of a pair gives
/// exactly the ids inserted with that pair.
pub proof fn law_lookup_after_inserts(batches: Seq<(u64, Seq<TagPairView>)>, k: TagPairView)
    ensures
        postings_at(insert_batches(Map::empty(), batches), k) == ids_with_pair(batches, k),
    decreases batches.len(),
{
    if batches.len() == 0 {
        assert(postings_at(Map::empty(), k) =~= Set::<u64>::empty());
    } else {
        let rest = batches.drop_last();
        law_lookup_after_inserts(rest, k);
        law_postings_exact(insert_batches(Map::empty(), rest), batches.last().1, batches.last().0);
    }
}

} // verus!
