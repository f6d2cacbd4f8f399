use crate::types::order::{
    chars_lt, lemma_chars_lt_irreflexive, lemma_chars_lt_total, lemma_chars_lt_transitive,
    string_lt,
};
use vstd::prelude::*;

verus! {

/// A tag key and value, as character sequences.
pub open spec fn pair_view(p: (String, String)) -> (Seq<char>, Seq<char>) {
    (p.0@, p.1@)
}

/// Keys strictly increase along the sequence (so no key occurs twice).
pub open spec fn keys_increasing(s: Seq<(Seq<char>, Seq<char>)>) -> bool {
    forall|i: int, j: int| 0 <= i < j < s.len() ==> chars_lt(#[trigger] s[i].0, #[trigger] s[j].0)
}

/// The map from keys to values that a sequence of pairs describes.
pub open spec fn pairs_to_map(s: Seq<(Seq<char>, Seq<char>)>) -> Map<Seq<char>, Seq<char>> {
    Map::new(
        |k: Seq<char>| exists|i: int| 0 <= i < s.len() && #[trigger] s[i].0 == k,
        |k: Seq<char>| s[key_index(s, k)].1,
    )
}

/// A position at which `k` occurs as a key, if it occurs.
pub open spec fn key_index(s: Seq<(Seq<char>, Seq<char>)>, k: Seq<char>) -> int {
    choose|i: int| 0 <= i < s.len() && #[trigger] s[i].0 == k
}

/// In a sequence with increasing keys, each pair is what the map holds for its key.
pub proof fn lemma_pairs_to_map_at(s: Seq<(Seq<char>, Seq<char>)>, i: int)
    requires
        keys_increasing(s),
        0 <= i < s.len(),
    ensures
        pairs_to_map(s).contains_key(s[i].0),
        pairs_to_map(s)[s[i].0] == s[i].1,
{
    let k = s[i].0;
    assert(exists|j: int| 0 <= j < s.len() && #[trigger] s[j].0 == k);
    let j = key_index(s, k);
    if j < i {
        lemma_chars_lt_irreflexive(k);
        assert(chars_lt(s[j].0, s[i].0));
    } else if i < j {
        lemma_chars_lt_irreflexive(k);
        assert(chars_lt(s[i].0, s[j].0));
    }
}

/// Dropping the first pair of a sequence with increasing keys removes its key from the map.
proof fn lemma_pairs_to_map_drop_first(s: Seq<(Seq<char>, Seq<char>)>)
    requires
        keys_increasing(s),
        s.len() > 0,
    ensures
        keys_increasing(s.drop_first()),
        pairs_to_map(s.drop_first()) =~= pairs_to_map(s).remove(s[0].0),
{
    let t = s.drop_first();
    assert(keys_increasing(t)) by {
        assert forall|i: int, j: int| 0 <= i < j < t.len() implies chars_lt(
            #[trigger] t[i].0,
            #[trigger] t[j].0,
        ) by {
            assert(t[i] == s[i + 1]);
            assert(t[j] == s[j + 1]);
        }
    }
    let m = pairs_to_map(s);
    let mt = pairs_to_map(t);
    let mr = m.remove(s[0].0);
    assert forall|k: Seq<char>| #[trigger] mt.dom().contains(k) <==> mr.dom().contains(k) by {
        if mt.dom().contains(k) {
            let i = choose|i: int| 0 <= i < t.len() && #[trigger] t[i].0 == k;
            assert(t[i] == s[i + 1]);
            assert(chars_lt(s[0].0, s[i + 1].0));
            lemma_chars_lt_irreflexive(k);
            assert(m.contains_key(k));
        }
        if mr.dom().contains(k) {
            let i = choose|i: int| 0 <= i < s.len() && #[trigger] s[i].0 == k;
            assert(i != 0);
            assert(t[i - 1] == s[i]);
            assert(0 <= i - 1 < t.len() && t[i - 1].0 == k);
        }
    }
    assert forall|k: Seq<char>| #[trigger] mt.dom().contains(k) implies mt[k] == mr[k] by {
        let i = choose|i: int| 0 <= i < t.len() && #[trigger] t[i].0 == k;
        assert(t[i] == s[i + 1]);
        lemma_pairs_to_map_at(t, i);
        lemma_pairs_to_map_at(s, i + 1);
    }
    assert(mt =~= mr);
}

/// Two sequences with increasing keys that describe the same map are the same
/// sequence: the order of the pairs is canonical.
pub proof fn lemma_pairs_canonical(s1: Seq<(Seq<char>, Seq<char>)>, s2: Seq<(Seq<char>, Seq<char>)>)
    requires
        keys_increasing(s1),
        keys_increasing(s2),
        pairs_to_map(s1) == pairs_to_map(s2),
    ensures
        s1 == s2,
    decreases s1.len(),
{
    let m = pairs_to_map(s1);
    if s1.len() == 0 {
        if s2.len() > 0 {
            lemma_pairs_to_map_at(s2, 0);
        }
        assert(s1 =~= s2);
    } else {
        if s2.len() == 0 {
            lemma_pairs_to_map_at(s1, 0);
        }
        let k1 = s1[0].0;
        let k2 = s2[0].0;
        lemma_pairs_to_map_at(s1, 0);
        lemma_pairs_to_map_at(s2, 0);
        let j = choose|j: int| 0 <= j < s2.len() && #[trigger] s2[j].0 == k1;
        let q = choose|q: int| 0 <= q < s1.len() && #[trigger] s1[q].0 == k2;
        lemma_chars_lt_irreflexive(k1);
        if j > 0 {
            assert(chars_lt(s2[0].0, s2[j].0));
            if q > 0 {
                assert(chars_lt(s1[0].0, s1[q].0));
                lemma_chars_lt_transitive(k1, k2, k1);
            }
        }
        assert(k1 == k2);
        assert(s1[0] == s2[0]);
        lemma_pairs_to_map_drop_first(s1);
        lemma_pairs_to_map_drop_first(s2);
        lemma_pairs_canonical(s1.drop_first(), s2.drop_first());
        assert(s1 =~= s2) by {
            assert forall|i: int| 0 <= i < s1.len() implies s1[i] == s2[i] by {
                if i > 0 {
                    assert(s1[i] == s1.drop_first()[i - 1]);
                    assert(s2[i] == s2.drop_first()[i - 1]);
                }
            }
        }
    }
}

/// A canonical tag set: pairs of key and value, kept in increasing key order,
/// each key at most once. Two tag sets that hold the same keys and values
/// hold them in the same order (see `lemma_pairs_canonical`).
#[derive(Debug)]
pub struct Tags {
    entries: Vec<(String, String)>,
}

impl Tags {
    /// The pairs, in order, as character sequences.
    pub closed spec fn entries_view(&self) -> Seq<(Seq<char>, Seq<char>)> {
        self.entries@.map_values(|p: (String, String)| pair_view(p))
    }

    /// The tag set as a map from key to value.
    pub open spec fn view(&self) -> Map<Seq<char>, Seq<char>> {
        pairs_to_map(self.entries_view())
    }

    /// Keys are kept in strictly increasing order.
    #[verifier::type_invariant]
    pub closed spec fn wf(&self) -> bool {
        keys_increasing(self.entries_view())
    }

    /// An empty tag set.
    pub fn new() -> (t: Self)
        ensures
            t.wf(),
            t.entries_view() == Seq::<(Seq<char>, Seq<char>)>::empty(),
            t@ == Map::<Seq<char>, Seq<char>>::empty(),
    {
        let t = Tags { entries: Vec::new() };
        assert(t.entries_view() =~= Seq::<(Seq<char>, Seq<char>)>::empty());
        assert(t@ =~= Map::<Seq<char>, Seq<char>>::empty());
        t
    }

    /// Number of tags.
    pub fn len(&self) -> (n: usize)
        ensures
            n == self.entries_view().len(),
    {
        self.entries.len()
    }

    /// The tags in increasing key order.
    pub fn entries(&self) -> (r: &Vec<(String, String)>)
        ensures
            r@.map_values(|p: (String, String)| pair_view(p)) == self.entries_view(),
    {
        &self.entries
    }

    /// The value of `key`, if the set holds it.
    pub fn get(&self, key: &str) -> (v: Option<&String>)
        ensures
            match v {
                Some(v) => self@.contains_key(key@) && v@ == self@[key@],
                None => !self@.contains_key(key@),
            },
    {
        proof {
            use_type_invariant(self);
        }
        let ghost s = self.entries_view();
        let wanted = key.to_string();
        let n = self.entries.len();
        let mut i: usize = 0;
        while i < n
            invariant
                i <= n,
                n == self.entries@.len(),
                s == self.entries_view(),
                keys_increasing(s),
                wanted@ == key@,
                forall|j: int| 0 <= j < i ==> (#[trigger] s[j]).0 != key@,
            decreases n - i,
        {
            assert(s[i as int] == pair_view(self.entries@[i as int]));
            if self.entries[i].0 == wanted {
                proof {
                    lemma_pairs_to_map_at(s, i as int);
                }
                return Some(&self.entries[i].1);
            }
            i = i + 1;
        }
        None
    }

    /// Sets `key` to `value`, and returns the value the key had before, if any.
    pub fn insert(&mut self, key: String, value: String) -> (previous: Option<String>)
        ensures
            final(self).wf(),
            final(self)@ == old(self)@.insert(key@, value@),
            match previous {
                Some(v) => old(self)@.contains_key(key@) && v@ == old(self)@[key@],
                None => !old(self)@.contains_key(key@),
            },
    {
        proof {
            use_type_invariant(&*self);
        }
        let ghost s = self.entries_view();
        let mut entries: Vec<(String, String)> = Vec::new();
        std::mem::swap(&mut entries, &mut self.entries);
        assert(entries@.map_values(|p: (String, String)| pair_view(p)) == s);
        let n = entries.len();
        let mut i: usize = 0;
        while i < n && string_lt(&entries[i].0, &key)
            invariant
                i <= n,
                n == entries@.len(),
                entries@.map_values(|p: (String, String)| pair_view(p)) == s,
                keys_increasing(s),
                forall|j: int| 0 <= j < i ==> chars_lt(#[trigger] s[j].0, key@),
            decreases n - i,
        {
            assert(s[i as int] == pair_view(entries@[i as int]));
            i = i + 1;
        }
        proof {
            lemma_chars_lt_irreflexive(key@);
        }
        if i < n && entries[i].0 == key {
            assert(s[i as int].0 == key@);
            let previous = entries[i].1.clone();
            entries.set(i, (key, value));
            proof {
                let t = entries@.map_values(|p: (String, String)| pair_view(p));
                assert(t =~= s.update(i as int, (key@, value@)));
                assert(keys_increasing(t)) by {
                    assert forall|a: int, b: int| 0 <= a < b < t.len() implies chars_lt(
                        #[trigger] t[a].0,
                        #[trigger] t[b].0,
                    ) by {
                        assert(s[a].0 == t[a].0);
                        assert(s[b].0 == t[b].0);
                    }
                }
            }
            self.entries = entries;
            proof {
                lemma_pairs_to_map_at(s, i as int);
                self.lemma_view_update(s, i as int, key@, value@);
            }
            Some(previous)
        } else {
            proof {
                if i < n {
                    assert(s[i as int] == pair_view(entries@[i as int]));
                    assert(!chars_lt(s[i as int].0, key@));
                    lemma_chars_lt_total(s[i as int].0, key@);
                }
            }
            entries.insert(i, (key, value));
            proof {
                let t = entries@.map_values(|p: (String, String)| pair_view(p));
                assert(t =~= s.insert(i as int, (key@, value@)));
                assert forall|j: int| i <= j < s.len() implies chars_lt(key@, #[trigger] s[j].0) by {
                    if j > i {
                        assert(chars_lt(s[i as int].0, s[j].0));
                        lemma_chars_lt_transitive(key@, s[i as int].0, s[j].0);
                    }
                }
                assert(keys_increasing(t)) by {
                    assert forall|a: int, b: int| 0 <= a < b < t.len() implies chars_lt(
                        #[trigger] t[a].0,
                        #[trigger] t[b].0,
                    ) by {
                        if b < i {
                            assert(t[a] == s[a] && t[b] == s[b]);
                        } else if b == i {
                            assert(t[a] == s[a]);
                        } else if a < i {
                            assert(t[a] == s[a] && t[b] == s[b - 1]);
                            lemma_chars_lt_transitive(s[a].0, key@, s[b - 1].0);
                        } else if a == i {
                            assert(t[b] == s[b - 1]);
                        } else {
                            assert(t[a] == s[a - 1] && t[b] == s[b - 1]);
                        }
                    }
                }
                assert(!pairs_to_map(s).contains_key(key@)) by {
                    if pairs_to_map(s).contains_key(key@) {
                        let j = choose|j: int| 0 <= j < s.len() && #[trigger] s[j].0 == key@;
                        if j < i {
                            assert(chars_lt(s[j].0, key@));
                        } else {
                            assert(chars_lt(key@, s[j].0));
                        }
                    }
                }
            }
            self.entries = entries;
            proof {
                self.lemma_view_insert(s, i as int, key@, value@);
            }
            None
        }
    }

    proof fn lemma_view_update(
        &self,
        s: Seq<(Seq<char>, Seq<char>)>,
        i: int,
        k: Seq<char>,
        v: Seq<char>,
    )
        requires
            keys_increasing(s),
            0 <= i < s.len(),
            s[i].0 == k,
            self.entries_view() == s.update(i, (k, v)),
            keys_increasing(self.entries_view()),
        ensures
            self@ == pairs_to_map(s).insert(k, v),
    {
        let t = self.entries_view();
        let m = pairs_to_map(s);
        let mt = pairs_to_map(t);
        lemma_pairs_to_map_at(t, i);
        assert forall|key: Seq<char>| mt.contains_key(key) implies m.insert(k, v).contains_key(key)
            && mt[key] == m.insert(k, v)[key] by {
            let j = choose|j: int| 0 <= j < t.len() && #[trigger] t[j].0 == key;
            lemma_pairs_to_map_at(t, j);
            lemma_pairs_to_map_at(s, j);
        }
        assert forall|key: Seq<char>| m.insert(k, v).contains_key(key) implies mt.contains_key(
            key,
        ) by {
            if key != k {
                let j = choose|j: int| 0 <= j < s.len() && #[trigger] s[j].0 == key;
                lemma_pairs_to_map_at(t, j);
            }
        }
        assert(mt =~= m.insert(k, v));
    }

    proof fn lemma_view_insert(
        &self,
        s: Seq<(Seq<char>, Seq<char>)>,
        i: int,
        k: Seq<char>,
        v: Seq<char>,
    )
        requires
            keys_increasing(s),
            0 <= i <= s.len(),
            !pairs_to_map(s).contains_key(k),
            self.entries_view() == s.insert(i, (k, v)),
            keys_increasing(self.entries_view()),
        ensures
            self@ == pairs_to_map(s).insert(k, v),
    {
        let t = self.entries_view();
        let m = pairs_to_map(s);
        let mt = pairs_to_map(t);
        lemma_pairs_to_map_at(t, i);
        assert forall|key: Seq<char>| mt.contains_key(key) implies m.insert(k, v).contains_key(key)
            && mt[key] == m.insert(k, v)[key] by {
            let j = choose|j: int| 0 <= j < t.len() && #[trigger] t[j].0 == key;
            lemma_pairs_to_map_at(t, j);
            if j < i {
                lemma_pairs_to_map_at(s, j);
            } else if j > i {
                assert(t[j] == s[j - 1]);
                lemma_pairs_to_map_at(s, j - 1);
            }
        }
        assert forall|key: Seq<char>| m.insert(k, v).contains_key(key) implies mt.contains_key(
            key,
        ) by {
            if key != k {
                let j = choose|j: int| 0 <= j < s.len() && #[trigger] s[j].0 == key;
                if j < i {
                    assert(t[j] == s[j]);
                    lemma_pairs_to_map_at(t, j);
                } else {
                    assert(t[j + 1] == s[j]);
                    lemma_pairs_to_map_at(t, j + 1);
                }
            }
        }
        assert(mt =~= m.insert(k, v));
    }
}

/// Tag sets that hold the same keys and values hold them in the same order:
/// `host=a,region=us` and `region=us,host=a` give one and the same sequence.
pub proof fn lemma_tags_canonical(a: &Tags, b: &Tags)
    requires
        a.wf(),
        b.wf(),
        a@ == b@,
    ensures
        a.entries_view() == b.entries_view(),
{
    lemma_pairs_canonical(a.entries_view(), b.entries_view());
}

impl Clone for Tags {
    fn clone(&self) -> (c: Self)
        ensures
            c.entries_view() == self.entries_view(),
    {
        let mut entries: Vec<(String, String)> = Vec::new();
        let n = self.entries.len();
        let mut i: usize = 0;
        while i < n
            invariant
                i <= n,
                n == self.entries@.len(),
                entries@.len() == i,
                forall|j: int|
                    0 <= j < i ==> pair_view(#[trigger] entries@[j]) == pair_view(self.entries@[j]),
            decreases n - i,
        {
            let k = self.entries[i].0.clone();
            let v = self.entries[i].1.clone();
            entries.push((k, v));
            i = i + 1;
        }
        proof {
            use_type_invariant(self);
            assert(entries@.map_values(|p: (String, String)| pair_view(p)) =~= self.entries_view());
        }
        let c = Tags { entries };
        c
    }
}

} // verus!
