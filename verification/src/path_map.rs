//! A table keyed by path strings, kept in insertion order.
//!
//! It stands for the `HashMap<String, _>` tables of the server: inserting a
//! key that is already present replaces its value in place, so every key
//! occurs once, and the table can be walked in a fixed order.

use vstd::prelude::*;

verus! {

/// The map that a list of distinct-keyed entries denotes; a later entry wins.
pub open spec fn entries_map<V: View>(s: Seq<(String, V)>) -> Map<Seq<char>, V::V>
    decreases s.len(),
{
    if s.len() == 0 {
        Map::empty()
    } else {
        entries_map(s.drop_last()).insert(s.last().0@, s.last().1@)
    }
}

/// No key occurs twice.
pub open spec fn keys_distinct<V>(s: Seq<(String, V)>) -> bool {
    forall|i: int, j: int| 0 <= i < j < s.len() ==> s[i].0@ != s[j].0@
}

/// A key is in the denoted map exactly when some entry carries it.
pub proof fn lemma_entries_map_dom<V: View>(s: Seq<(String, V)>, k: Seq<char>)
    ensures
        entries_map(s).contains_key(k) <==> exists|i: int| 0 <= i < s.len() && s[i].0@ == k,
    decreases s.len(),
{
    if s.len() > 0 {
        lemma_entries_map_dom(s.drop_last(), k);
        if entries_map(s).contains_key(k) && s.last().0@ != k {
            let i = choose|i: int| 0 <= i < s.len() - 1 && s.drop_last()[i].0@ == k;
            assert(s[i].0@ == k);
        }
        if exists|i: int| 0 <= i < s.len() && s[i].0@ == k {
            let i = choose|i: int| 0 <= i < s.len() && s[i].0@ == k;
            if i < s.len() - 1 {
                assert(s.drop_last()[i].0@ == k);
            }
        }
    }
}

/// With distinct keys, each entry's value is what the map holds for its key.
pub proof fn lemma_entries_map_value<V: View>(s: Seq<(String, V)>, i: int)
    requires
        keys_distinct(s),
        0 <= i < s.len(),
    ensures
        entries_map(s).contains_key(s[i].0@),
        entries_map(s)[s[i].0@] == s[i].1@,
    decreases s.len(),
{
    if i < s.len() - 1 {
        assert(s.drop_last()[i] == s[i]);
        lemma_entries_map_value(s.drop_last(), i);
    }
}

/// Replacing the value of an entry replaces it in the map.
pub proof fn lemma_entries_map_update<V: View>(s: Seq<(String, V)>, i: int, v: V)
    requires
        keys_distinct(s),
        0 <= i < s.len(),
    ensures
        entries_map(s.update(i, (s[i].0, v))) == entries_map(s).insert(s[i].0@, v@),
    decreases s.len(),
{
    let t = s.update(i, (s[i].0, v));
    if i == s.len() - 1 {
        assert(t.drop_last() =~= s.drop_last());
        assert(entries_map(t) =~= entries_map(s).insert(s[i].0@, v@));
    } else {
        assert(t.drop_last() =~= s.drop_last().update(i, (s[i].0, v)));
        assert(s.drop_last()[i] == s[i]);
        lemma_entries_map_update(s.drop_last(), i, v);
        assert(s[i].0@ != s.last().0@);
        assert(entries_map(t) =~= entries_map(s).insert(s[i].0@, v@));
    }
}

/// A table from path strings to values, with each key once.
pub struct PathMap<V> {
    entries: Vec<(String, V)>,
}

impl<V: View> View for PathMap<V> {
    type V = Map<Seq<char>, V::V>;

    closed spec fn view(&self) -> Map<Seq<char>, V::V> {
        entries_map(self.entries@)
    }
}

impl<V> PathMap<V> {
    /// The table is well formed: no key occurs twice. Every table is.
    #[verifier::type_invariant]
    pub closed spec fn wf(&self) -> bool {
        keys_distinct(self.entries@)
    }
}

impl<V: View> PathMap<V> {
    /// The number of entries.
    pub closed spec fn spec_len(&self) -> nat {
        self.entries@.len()
    }

    /// The key of the `i`-th entry in table order.
    pub closed spec fn key_at(&self, i: int) -> Seq<char> {
        self.entries@[i].0@
    }

    /// The keys in table order.
    pub closed spec fn key_seq(&self) -> Seq<Seq<char>> {
        Seq::new(self.entries@.len(), |i: int| self.entries@[i].0@)
    }

    /// The keys of a well-formed table are distinct and are exactly its domain.
    pub proof fn lemma_keys(&self)
        requires
            self.wf(),
        ensures
            self.key_seq().len() == self.spec_len(),
            self.key_seq().no_duplicates(),
            forall|k: Seq<char>| self@.contains_key(k) <==> self.key_seq().contains(k),
    {
        assert forall|k: Seq<char>| self@.contains_key(k) <==> self.key_seq().contains(k) by {
            lemma_entries_map_dom(self.entries@, k);
            if self.key_seq().contains(k) {
                let i = choose|i: int| 0 <= i < self.key_seq().len() && self.key_seq()[i] == k;
                assert(self.entries@[i].0@ == k);
            }
            if self@.contains_key(k) {
                let i = choose|i: int| 0 <= i < self.entries@.len() && self.entries@[i].0@ == k;
                assert(self.key_seq()[i] == k);
            }
        }
    }

    /// An empty table.
    pub fn new() -> (r: Self)
        ensures
            r.wf(),
            r@ == Map::<Seq<char>, V::V>::empty(),
            r.spec_len() == 0,
    {
        PathMap { entries: Vec::new() }
    }

    /// The number of entries.
    pub fn len(&self) -> (r: usize)
        ensures
            r == self.spec_len(),
    {
        self.entries.len()
    }

    /// The key of the `i`-th entry.
    pub fn key(&self, i: usize) -> (r: &String)
        requires
            i < self.spec_len(),
        ensures
            r@ == self.key_at(i as int),
            r@ == self.key_seq()[i as int],
    {
        &self.entries[i].0
    }

    /// The value of the `i`-th entry.
    pub fn value(&self, i: usize) -> (r: &V)
        requires
            i < self.spec_len(),
        ensures
            self@.contains_key(self.key_seq()[i as int]),
            r@ == self@[self.key_seq()[i as int]],
    {
        proof {
            use_type_invariant(self);
            lemma_entries_map_value(self.entries@, i as int);
        }
        &self.entries[i].1
    }

    /// Where `k` stands in the table, if it is there.
    fn position(&self, k: &str) -> (r: Option<usize>)
        ensures
            match r {
                Some(i) => i < self.entries@.len() && self.entries@[i as int].0@ == k@,
                None => !self@.contains_key(k@),
            },
    {
        let mut i: usize = 0;
        while i < self.entries.len()
            invariant
                i <= self.entries@.len(),
                forall|j: int| 0 <= j < i ==> self.entries@[j].0@ != k@,
            decreases self.entries@.len() - i,
        {
            if str_equal(self.entries[i].0.as_str(), k) {
                return Some(i);
            }
            i = i + 1;
        }
        proof {
            use_type_invariant(self);
            lemma_entries_map_dom(self.entries@, k@);
        }
        None
    }

    /// The value stored for `k`, if any.
    pub fn get(&self, k: &str) -> (r: Option<&V>)
        ensures
            match r {
                Some(v) => self@.contains_key(k@) && v@ == self@[k@],
                None => !self@.contains_key(k@),
            },
    {
        match self.position(k) {
            Some(i) => {
                proof {
                    use_type_invariant(self);
                    lemma_entries_map_value(self.entries@, i as int);
                }
                Some(&self.entries[i].1)
            },
            None => None,
        }
    }

    /// Whether `after` is `self` with `v` stored under `k`: the contents
    /// gain or replace that one entry, a key already held keeps its place,
    /// and a new key comes last.
    pub open spec fn stored_as(&self, after: Self, k: Seq<char>, v: V::V) -> bool {
        &&& after@ == self@.insert(k, v)
        &&& after.key_seq() == if self@.contains_key(k) { self.key_seq() } else { self.key_seq().push(k) }
    }

    /// Stores `v` under `k`, replacing any value stored there before.
    pub fn insert(&mut self, k: String, v: V)
        ensures
            final(self).wf(),
            old(self).stored_as(*final(self), k@, v@),
    {
        proof {
            use_type_invariant(&*self);
        }
        let ghost before = *self;
        let pos = self.position(k.as_str());
        let mut entries: Vec<(String, V)> = Vec::new();
        std::mem::swap(&mut entries, &mut self.entries);
        let ghost s = entries@;
        assert(s == before.entries@);
        match pos {
            Some(i) => {
                proof {
                    lemma_entries_map_update(s, i as int, v);
                }
                let key = entries[i].0.clone();
                entries.set(i, (key, v));
                assert(entries@ =~= s.update(i as int, (s[i as int].0, v)));
                proof {
                    lemma_entries_map_dom(s, k@);
                }
            },
            None => {
                proof {
                    lemma_entries_map_dom(s, k@);
                }
                entries.push((k, v));
                assert(entries@.drop_last() =~= s);
            },
        }
        self.entries = entries;
        assert(self.key_seq() =~= if before@.contains_key(k@) {
            before.key_seq()
        } else {
            before.key_seq().push(k@)
        });
    }
}

/// After storing `v` under `k` in a table, looking `k` up gives `v`, every
/// other key gives what it gave before, and the table grows by one entry
/// exactly when `k` was not held.
pub proof fn law_lookup_after_insert<V: View>(before: PathMap<V>, after: PathMap<V>, k: Seq<char>, v: V::V, other: Seq<char>)
    requires
        before.wf(),
        after.wf(),
        before.stored_as(after, k, v),
        other != k,
    ensures
        after@.contains_key(k),
        after@[k] == v,
        after@.contains_key(other) == before@.contains_key(other),
        before@.contains_key(other) ==> after@[other] == before@[other],
        after.spec_len() == before.spec_len() + if before@.contains_key(k) { 0int } else { 1int },
{
    before.lemma_keys();
    after.lemma_keys();
}

/// Whether two strings hold the same characters.
pub fn str_equal(a: &str, b: &str) -> (r: bool)
    ensures
        r == (a@ == b@),
{
    let av = crate::text::chars_of(a);
    let bv = crate::text::chars_of(b);
    crate::text::chars_equal(&av, &bv)
}

} // verus!
