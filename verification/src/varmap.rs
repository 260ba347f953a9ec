//! Maps keyed by strings, kept as association lists: the template context,
//! the export data of a stack run, and the options of query anchors.
use vstd::prelude::*;

verus! {

/// The map that an association list with distinct keys stands for.
pub open spec fn map_of<W>(s: Seq<(Seq<char>, W)>) -> Map<Seq<char>, W>
    decreases s.len(),
{
    if s.len() == 0 {
        Map::empty()
    } else {
        map_of(s.drop_last()).insert(s.last().0, s.last().1)
    }
}

/// No key occurs twice in `s`.
pub open spec fn keys_distinct<W>(s: Seq<(Seq<char>, W)>) -> bool {
    forall|i: int, j: int| 0 <= i < j < s.len() ==> #[trigger] s[i].0 != #[trigger] s[j].0
}

pub proof fn lemma_map_of_dom<W>(s: Seq<(Seq<char>, W)>, k: Seq<char>)
    ensures
        map_of(s).contains_key(k) <==> exists|i: int| 0 <= i < s.len() && #[trigger] s[i].0 == k,
    decreases s.len(),
{
    if s.len() > 0 {
        lemma_map_of_dom(s.drop_last(), k);
        if map_of(s.drop_last()).contains_key(k) {
            let i = choose|i: int| 0 <= i < s.drop_last().len() && #[trigger] s.drop_last()[i].0 == k;
            assert(s[i].0 == k);
        }
        if exists|i: int| 0 <= i < s.len() && #[trigger] s[i].0 == k {
            let i = choose|i: int| 0 <= i < s.len() && #[trigger] s[i].0 == k;
            if i < s.len() - 1 {
                assert(s.drop_last()[i].0 == k);
            }
        }
    }
}

pub proof fn lemma_map_of_val<W>(s: Seq<(Seq<char>, W)>, i: int)
    requires
        keys_distinct(s),
        0 <= i < s.len(),
    ensures
        map_of(s).contains_key(s[i].0),
        map_of(s)[s[i].0] == s[i].1,
    decreases s.len(),
{
    if i < s.len() - 1 {
        assert(s.drop_last()[i] == s[i]);
        assert(keys_distinct(s.drop_last()));
        lemma_map_of_val(s.drop_last(), i);
        assert(s[i].0 != s.last().0);
    }
}

/// Lookup facts of an association list with distinct keys.
pub proof fn lemma_pairs_of<W>(s: Seq<(Seq<char>, W)>)
    requires
        keys_distinct(s),
    ensures
        forall|i: int| 0 <= i < s.len() ==> {
            &&& #[trigger] map_of(s).contains_key(s[i].0)
            &&& map_of(s)[s[i].0] == s[i].1
        },
        forall|k: Seq<char>| map_of(s).contains_key(k) ==> exists|i: int|
            0 <= i < s.len() && #[trigger] s[i].0 == k,
{
    assert forall|i: int| 0 <= i < s.len() implies {
        &&& #[trigger] map_of(s).contains_key(s[i].0)
        &&& map_of(s)[s[i].0] == s[i].1
    } by {
        lemma_map_of_val(s, i);
    }
    assert forall|k: Seq<char>| map_of(s).contains_key(k) implies exists|i: int|
        0 <= i < s.len() && #[trigger] s[i].0 == k by {
        lemma_map_of_dom(s, k);
    }
}

/// A map from names to values, kept as an association list whose keys are
/// distinct, in the order in which they were first inserted.
pub struct AssocMap<V: View> {
    entries: Vec<(String, V)>,
}

/// A map from variable names to string values.
pub type VarMap = AssocMap<String>;

impl<V: View> AssocMap<V> {
    /// The entries, as plain values, in the order they are stored.
    pub closed spec fn pairs(&self) -> Seq<(Seq<char>, V::V)> {
        self.entries@.map_values(|e: (String, V)| (e.0@, e.1@))
    }

    #[verifier::type_invariant]
    spec fn inv(&self) -> bool {
        keys_distinct(self.pairs())
    }

    /// An empty map.
    pub fn new() -> (m: Self)
        ensures
            m@ == Map::<Seq<char>, V::V>::empty(),
            m.pairs().len() == 0,
    {
        let m = AssocMap { entries: Vec::new() };
        assert(m.pairs() =~= Seq::<(Seq<char>, V::V)>::empty());
        m
    }

    /// The number of entries, and what the stored entries say of the map.
    pub fn len(&self) -> (n: usize)
        ensures
            n == self.pairs().len(),
            keys_distinct(self.pairs()),
            forall|i: int| 0 <= i < self.pairs().len() ==> {
                &&& #[trigger] self@.contains_key(self.pairs()[i].0)
                &&& self@[self.pairs()[i].0] == self.pairs()[i].1
            },
            forall|k: Seq<char>| self@.contains_key(k) ==> exists|i: int|
                0 <= i < self.pairs().len() && #[trigger] self.pairs()[i].0 == k,
    {
        proof {
            use_type_invariant(self);
            lemma_pairs_of(self.pairs());
        }
        self.entries.len()
    }

    /// The key and value stored at position `i`.
    pub fn entry(&self, i: usize) -> (e: (&String, &V))
        requires
            i < self.pairs().len(),
        ensures
            (e.0@, e.1@) == self.pairs()[i as int],
    {
        let e = &self.entries[i];
        (&e.0, &e.1)
    }

    /// The position of `key`, if it is stored.
    fn position(&self, key: &String) -> (r: Option<usize>)
        ensures
            match r {
                Some(i) => i < self.pairs().len() && self.pairs()[i as int].0 == key@,
                None => !self@.contains_key(key@),
            },
    {
        proof {
            use_type_invariant(self);
            lemma_map_of_dom(self.pairs(), key@);
        }
        let mut i: usize = 0;
        while i < self.entries.len()
            invariant
                i <= self.entries@.len(),
                self.pairs().len() == self.entries@.len(),
                forall|j: int| 0 <= j < i ==> #[trigger] self.pairs()[j].0 != key@,
            decreases self.entries@.len() - i,
        {
            if self.entries[i].0 == *key {
                return Some(i);
            }
            i = i + 1;
        }
        None
    }

    /// Whether `key` is mapped.
    pub fn contains_key(&self, key: &str) -> (b: bool)
        ensures
            b == self@.contains_key(key@),
    {
        let k = key.to_owned();
        proof {
            use_type_invariant(self);
            lemma_pairs_of(self.pairs());
        }
        self.position(&k).is_some()
    }

    /// The value of `key`, if it is mapped.
    pub fn get(&self, key: &str) -> (r: Option<&V>)
        ensures
            match r {
                Some(v) => self@.contains_key(key@) && self@[key@] == v@,
                None => !self@.contains_key(key@),
            },
    {
        let k = key.to_owned();
        proof {
            use_type_invariant(self);
            lemma_pairs_of(self.pairs());
        }
        match self.position(&k) {
            Some(i) => {
                proof {
                    lemma_map_of_val(self.pairs(), i as int);
                }
                assert(self.pairs()[i as int] == (self.entries@[i as int].0@, self.entries@[i as int].1@));
                Some(&self.entries[i].1)
            },
            None => None,
        }
    }

    /// Map `key` to `value`, replacing what it was mapped to.
    pub fn insert(&mut self, key: String, value: V)
        ensures
            final(self)@ == old(self)@.insert(key@, value@),
    {
        proof {
            use_type_invariant(&*self);
            lemma_map_of_dom(self.pairs(), key@);
        }
        let ghost old_pairs = self.pairs();
        match self.position(&key) {
            Some(i) => {
                let ghost k = key@;
                let ghost v = value@;
                let mut entries: Vec<(String, V)> = Vec::new();
                std::mem::swap(&mut entries, &mut self.entries);
                entries.set(i, (key, value));
                proof {
                    let s2 = entries@.map_values(|e: (String, V)| (e.0@, e.1@));
                    assert(s2 =~= old_pairs.update(i as int, (k, v)));
                    assert forall|a: int, b: int| 0 <= a < b < s2.len() implies
                        #[trigger] s2[a].0 != #[trigger] s2[b].0 by {
                        assert(s2[a].0 == old_pairs[a].0);
                        assert(s2[b].0 == old_pairs[b].0);
                    }
                }
                self.entries = entries;
                proof {
                    let s2 = self.pairs();
                    assert(s2 =~= old_pairs.update(i as int, (k, v)));
                    assert forall|q: Seq<char>| #[trigger] map_of(s2).contains_key(q)
                        <==> map_of(old_pairs).insert(k, v).contains_key(q) by {
                        lemma_map_of_dom(s2, q);
                        lemma_map_of_dom(old_pairs, q);
                        if exists|j: int| 0 <= j < old_pairs.len() && #[trigger] old_pairs[j].0 == q {
                            let j = choose|j: int| 0 <= j < old_pairs.len() && #[trigger] old_pairs[j].0 == q;
                            assert(s2[j].0 == q);
                        }
                    }
                    assert forall|q: Seq<char>| #[trigger] map_of(s2).contains_key(q) implies
                        map_of(s2)[q] == map_of(old_pairs).insert(k, v)[q] by {
                        lemma_map_of_dom(s2, q);
                        let j = choose|j: int| 0 <= j < s2.len() && #[trigger] s2[j].0 == q;
                        lemma_map_of_val(s2, j);
                        if j != i {
                            assert(old_pairs[j] == s2[j]);
                            lemma_map_of_val(old_pairs, j);
                        }
                    }
                    assert(map_of(s2) =~= map_of(old_pairs).insert(k, v));
                }
            },
            None => {
                let ghost k = key@;
                let ghost v = value@;
                let mut entries: Vec<(String, V)> = Vec::new();
                std::mem::swap(&mut entries, &mut self.entries);
                entries.push((key, value));
                proof {
                    let s2 = entries@.map_values(|e: (String, V)| (e.0@, e.1@));
                    assert(s2 =~= old_pairs.push((k, v)));
                    assert forall|a: int, b: int| 0 <= a < b < s2.len() implies
                        #[trigger] s2[a].0 != #[trigger] s2[b].0 by {
                        if b == s2.len() - 1 {
                            assert(old_pairs[a].0 == s2[a].0);
                        }
                    }
                }
                self.entries = entries;
                proof {
                    let s2 = self.pairs();
                    assert(s2 =~= old_pairs.push((k, v)));
                    assert(s2.drop_last() =~= old_pairs);
                    assert forall|a: int, b: int| 0 <= a < b < s2.len() implies
                        #[trigger] s2[a].0 != #[trigger] s2[b].0 by {
                        if b == s2.len() - 1 {
                            assert(old_pairs[a].0 == s2[a].0);
                        }
                    }
                }
            },
        }
    }

    /// Map `key` to `value` only where `key` is not mapped yet.
    pub fn insert_if_absent(&mut self, key: String, value: V)
        ensures
            final(self)@ == if old(self)@.contains_key(key@) {
                old(self)@
            } else {
                old(self)@.insert(key@, value@)
            },
    {
        if !self.contains_key(key.as_str()) {
            self.insert(key, value);
        }
    }

}

impl AssocMap<String> {
    /// A copy of this map.
    pub fn duplicate(&self) -> (m: Self)
        ensures
            m@ == self@,
            m.pairs() == self.pairs(),
    {
        let mut entries: Vec<(String, String)> = Vec::new();
        let mut i: usize = 0;
        proof {
            use_type_invariant(self);
        }
        while i < self.entries.len()
            invariant
                i <= self.entries@.len(),
                keys_distinct(self.pairs()),
                entries@.map_values(|e: (String, String)| (e.0@, e.1@)) =~= self.pairs().subrange(0, i as int),
            decreases self.entries@.len() - i,
        {
            let k = self.entries[i].0.clone();
            let v = self.entries[i].1.clone();
            let ghost before = entries@;
            entries.push((k, v));
            proof {
                assert(entries@ =~= before.push((k, v)));
                assert(self.pairs()[i as int] == (self.entries@[i as int].0@, self.entries@[i as int].1@));
                assert(entries@.map_values(|e: (String, String)| (e.0@, e.1@)) =~=
                    before.map_values(|e: (String, String)| (e.0@, e.1@)).push((k@, v@)));
                assert(self.pairs().subrange(0, i + 1) =~= self.pairs().subrange(0, i as int).push(self.pairs()[i as int]));
            }
            i = i + 1;
        }
        let m = AssocMap { entries };
        assert(m.pairs() =~= self.pairs());
        m
    }
}


impl<V: View> View for AssocMap<V> {
    type V = Map<Seq<char>, V::V>;

    open spec fn view(&self) -> Map<Seq<char>, V::V> {
        map_of(self.pairs())
    }
}

} // verus!
