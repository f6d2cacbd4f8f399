use crate::errors::ChronosError;
use vstd::prelude::*;

verus! {

/// The JSON chunk codec.
#[derive(Debug, Clone, Copy, PartialEq, Eq, Structural)]
pub struct JsonCodec;

impl JsonCodec {
    /// The codec.
    pub fn new() -> (c: Self)
        ensures
            c == JsonCodec,
    {
        JsonCodec
    }

    /// The name the codec is registered under: `json`.
    pub fn name(&self) -> (n: &'static str)
        ensures
            n@ == "json"@,
    {
        "json"
    }
}

/// The names of a list of entries, in order.
pub open spec fn entry_names<C>(entries: Seq<(String, C)>) -> Seq<Seq<char>> {
    entries.map_values(|e: (String, C)| e.0@)
}

/// A position at which `name` occurs, if it does.
pub open spec fn name_index(names: Seq<Seq<char>>, name: Seq<char>) -> int {
    choose|i: int| 0 <= i < names.len() && names[i] == name
}

/// Codecs by name, each name at most once, in the order they were first
/// registered.
pub struct CodecTable<C> {
    entries: Vec<(String, C)>,
}

impl<C> CodecTable<C> {
    /// The registered names, in the order they were first registered.
    pub closed spec fn names(&self) -> Seq<Seq<char>> {
        entry_names(self.entries@)
    }

    /// The codec registered under each name.
    pub closed spec fn view(&self) -> Map<Seq<char>, C> {
        Map::new(
            |k: Seq<char>| self.names().contains(k),
            |k: Seq<char>| self.entries@[name_index(self.names(), k)].1,
        )
    }

    /// No name is registered twice.
    #[verifier::type_invariant]
    pub closed spec fn wf(&self) -> bool {
        self.names().no_duplicates()
    }

    /// The names listed are exactly the registered ones, each once.
    pub proof fn lemma_names(&self)
        requires
            self.wf(),
        ensures
            self.names().no_duplicates(),
            forall|k: Seq<char>| self@.contains_key(k) <==> self.names().contains(k),
    {
    }

    /// A table with no codecs.
    pub fn new() -> (t: Self)
        ensures
            t@.dom().is_empty(),
            t.names().len() == 0,
    {
        let entries: Vec<(String, C)> = Vec::new();
        assert(entry_names(entries@) =~= Seq::<Seq<char>>::empty());
        let t = CodecTable { entries };
        assert(t.names() =~= Seq::<Seq<char>>::empty());
        assert(t@.dom() =~= Set::<Seq<char>>::empty());
        t
    }

    /// Where `name` is registered, if it is.
    fn find(&self, name: &String) -> (r: Option<usize>)
        requires
            self.wf(),
        ensures
            match r {
                Some(i) => i < self.names().len() && self.names()[i as int] == name@,
                None => !self.names().contains(name@),
            },
    {
        let n = self.entries.len();
        let mut i: usize = 0;
        while i < n
            invariant
                i <= n,
                n == self.entries@.len(),
                forall|j: int| 0 <= j < i ==> self.names()[j] != name@,
            decreases n - i,
        {
            if self.entries[i].0 == *name {
                return Some(i);
            }
            i = i + 1;
        }
        None
    }

    /// Registers `codec` under `name`, replacing what was registered there.
    pub fn register(&mut self, name: String, codec: C)
        ensures
            final(self).wf(),
            final(self)@ == old(self)@.insert(name@, codec),
            old(self).names().contains(name@) ==> final(self).names() == old(self).names(),
            !old(self).names().contains(name@) ==> final(self).names() == old(self).names().push(
                name@,
            ),
    {
        proof {
            use_type_invariant(&*self);
        }
        let ghost old_names = self.names();
        let ghost old_view = self@;
        let found = self.find(&name);
        let mut entries: Vec<(String, C)> = Vec::new();
        std::mem::swap(&mut entries, &mut self.entries);
        assert(entry_names(entries@) == old_names);
        match found {
            Some(i) => {
                let ghost k = name@;
                entries.set(i, (name, codec));
                assert(entry_names(entries@) =~= old_names);
                self.entries = entries;
                proof {
                    assert(self.names() =~= old_names);
                    assert forall|j: int| 0 <= j < old_names.len() && old_names[j] == k implies j
                        == i by {}
                    assert(self@ =~= old_view.insert(k, codec));
                }
            },
            None => {
                let ghost k = name@;
                entries.push((name, codec));
                proof {
                    assert(entry_names(entries@) =~= old_names.push(k));
                    assert forall|j: int| 0 <= j < old_names.len() implies old_names[j] != k by {
                        assert(old_names.contains(old_names[j]));
                    }
                    assert(old_names.push(k).no_duplicates()) by {
                        let t = old_names.push(k);
                        assert forall|a: int, b: int| 0 <= a < t.len() && 0 <= b < t.len() && a
                            != b implies t[a] != t[b] by {
                            if a < old_names.len() && b < old_names.len() {
                                assert(t[a] == old_names[a] && t[b] == old_names[b]);
                            }
                        }
                    }
                }
                self.entries = entries;
                proof {
                    assert(self.names() =~= old_names.push(k));
                    assert forall|x: Seq<char>| #[trigger] self@.contains_key(x) implies x == k
                        || old_view.contains_key(x) by {
                        if x != k {
                            let j = choose|j: int| 0 <= j < self.names().len() && self.names()[j]
                                == x;
                            assert(j < old_names.len());
                            assert(old_names[j] == x);
                        }
                    }
                    assert forall|x: Seq<char>| #[trigger] old_view.contains_key(x) implies self@[x]
                        == old_view[x] by {
                        let j = name_index(old_names, x);
                        let j2 = name_index(self.names(), x);
                        assert(self.names()[j] == x);
                        assert(j2 == j);
                    }
                    assert(self.names()[old_names.len() as int] == k);
                    let jk = name_index(self.names(), k);
                    assert(self.names().contains(k));
                    if jk < old_names.len() {
                        assert(old_names[jk] == k);
                    }
                    assert(jk == old_names.len());
                    assert(self@[k] == codec);
                    assert forall|x: Seq<char>| #[trigger] old_view.contains_key(x) implies
                        self@.contains_key(x) by {
                        let j = name_index(old_names, x);
                        assert(self.names()[j] == x);
                    }
                    assert(self@ =~= old_view.insert(k, codec));
                }
            },
        }
    }

    /// The codec registered under `name`; `CodecNotFound(name)` where none is.
    pub fn get(&self, name: &str) -> (r: Result<&C, ChronosError>)
        ensures
            match r {
                Ok(c) => self@.contains_key(name@) && *c == self@[name@],
                Err(e) => !self@.contains_key(name@) && (e matches ChronosError::CodecNotFound(s)
                    && s@ == name@),
            },
    {
        proof {
            use_type_invariant(self);
        }
        let key = name.to_string();
        match self.find(&key) {
            Some(i) => {
                proof {
                    let j = name_index(self.names(), name@);
                    assert(self.names()[i as int] == name@);
                    assert(j == i);
                }
                Ok(&self.entries[i].1)
            },
            None => Err(ChronosError::CodecNotFound(key)),
        }
    }

    /// Whether a codec is registered under `name`.
    pub fn contains(&self, name: &str) -> (b: bool)
        ensures
            b == self@.contains_key(name@),
    {
        proof {
            use_type_invariant(self);
        }
        let key = name.to_string();
        self.find(&key).is_some()
    }

    /// The registered names, in the order they were first registered.
    pub fn list(&self) -> (names: Vec<String>)
        ensures
            names@.map_values(|s: String| s@) == self.names(),
    {
        let mut names: Vec<String> = Vec::new();
        let n = self.entries.len();
        let mut i: usize = 0;
        while i < n
            invariant
                i <= n,
                n == self.entries@.len(),
                names@.len() == i,
                forall|j: int| 0 <= j < i ==> (#[trigger] names@[j])@ == self.names()[j],
            decreases n - i,
        {
            names.push(self.entries[i].0.clone());
            i = i + 1;
        }
        assert(names@.map_values(|s: String| s@) =~= self.names());
        names
    }
}

} // verus!
