//! A map from strings to strings, kept as a list of pairs with distinct keys.
use vstd::prelude::*;

verus! {

/// The map that a list of pairs denotes: later pairs win.
pub open spec fn map_of(s: Seq<(String, String)>) -> Map<Seq<char>, Seq<char>>
    decreases s.len(),
{
    if s.len() == 0 {
        Map::empty()
    } else {
        map_of(s.drop_last()).insert(s.last().0@, s.last().1@)
    }
}

/// No two pairs have the same key.
pub open spec fn keys_distinct(s: Seq<(String, String)>) -> bool {
    forall|i: int, j: int|
        0 <= i < s.len() && 0 <= j < s.len() && i != j ==> #[trigger] s[i].0@ != #[trigger] s[j].0@
}

/// With distinct keys, the map holds exactly the keys of the pairs, each with
/// its own value.
proof fn lemma_map_of(s: Seq<(String, String)>)
    requires
        keys_distinct(s),
    ensures
        forall|k: Seq<char>|
            #[trigger] map_of(s).contains_key(k) <==> exists|i: int| 0 <= i < s.len() && s[i].0@ == k,
        forall|i: int| 0 <= i < s.len() ==> #[trigger] map_of(s)[s[i].0@] == s[i].1@,
    decreases s.len(),
{
    if s.len() > 0 {
        let p = s.drop_last();
        assert(keys_distinct(p));
        lemma_map_of(p);
        assert(map_of(s) == map_of(p).insert(s.last().0@, s.last().1@));
        assert forall|k: Seq<char>|
            #[trigger] map_of(s).contains_key(k) <==> exists|i: int| 0 <= i < s.len() && s[i].0@ == k by {
            if map_of(s).contains_key(k) && k != s.last().0@ {
                assert(map_of(p).contains_key(k));
                let i = choose|i: int| 0 <= i < p.len() && p[i].0@ == k;
                assert(s[i] == p[i]);
            }
            if exists|i: int| 0 <= i < s.len() && s[i].0@ == k {
                let i = choose|i: int| 0 <= i < s.len() && s[i].0@ == k;
                if i < s.len() - 1 {
                    assert(p[i] == s[i]);
                    assert(map_of(p).contains_key(k));
                }
            }
        }
        assert forall|i: int| 0 <= i < s.len() implies #[trigger] map_of(s)[s[i].0@] == s[i].1@ by {
            if i < s.len() - 1 {
                assert(p[i] == s[i]);
                assert(s[i].0@ != s[s.len() - 1].0@);
            }
        }
    }
}

/// A string map with distinct keys, seen as a `Map` of character sequences.
#[derive(Debug)]
pub struct StringMap {
    entries: Vec<(String, String)>,
}

impl View for StringMap {
    type V = Map<Seq<char>, Seq<char>>;

    closed spec fn view(&self) -> Map<Seq<char>, Seq<char>> {
        map_of(self.entries@)
    }
}

impl StringMap {
    #[verifier::type_invariant]
    spec fn wf(self) -> bool {
        keys_distinct(self.entries@)
    }

    /// An empty map.
    pub fn new() -> (m: Self)
        ensures
            m@ == Map::<Seq<char>, Seq<char>>::empty(),
    {
        StringMap { entries: Vec::new() }
    }

    /// The position of `key` among the pairs, if it is there.
    fn position(&self, key: &String) -> (r: Option<usize>)
        ensures
            match r {
                Some(i) => i < self.entries@.len() && self.entries@[i as int].0@ == key@,
                None => forall|i: int| 0 <= i < self.entries@.len() ==> self.entries@[i].0@ != key@,
            },
    {
        let mut i: usize = 0;
        while i < self.entries.len()
            invariant
                i <= self.entries@.len(),
                forall|j: int| 0 <= j < i ==> self.entries@[j].0@ != key@,
            decreases self.entries@.len() - i,
        {
            if self.entries[i].0 == *key {
                return Some(i);
            }
            i = i + 1;
        }
        None
    }

    /// Sets `key` to `value`, replacing any earlier value.
    pub fn set(&mut self, key: &str, value: &str)
        ensures
            final(self)@ == old(self)@.insert(key@, value@),
            old(self)@.dom().finite(),
    {
        proof {
            use_type_invariant(&*self);
            lemma_map_len(self.entries@);
        }
        let k = String::from_str(key);
        let v = String::from_str(value);
        let ghost before = self.entries@;
        proof { lemma_map_of(before); }
        match self.position(&k) {
            Some(i) => {
                let mut entries: Vec<(String, String)> = Vec::new();
                std::mem::swap(&mut entries, &mut self.entries);
                entries.set(i, (k, v));
                let ghost after = entries@;
                assert(keys_distinct(after)) by {
                    assert forall|a: int, b: int|
                        0 <= a < after.len() && 0 <= b < after.len() && a != b
                        implies #[trigger] after[a].0@ != #[trigger] after[b].0@ by {
                        if a != i && b != i {
                            assert(after[a] == before[a] && after[b] == before[b]);
                        } else if a == i {
                            assert(after[b] == before[b]);
                        } else {
                            assert(after[a] == before[a]);
                        }
                    }
                }
                proof {
                    lemma_map_of(after);
                    assert forall|q: Seq<char>| #[trigger] map_of(after).contains_key(q)
                        <==> map_of(before).insert(key@, value@).contains_key(q) by {
                        if exists|j: int| 0 <= j < before.len() && before[j].0@ == q {
                            let j = choose|j: int| 0 <= j < before.len() && before[j].0@ == q;
                            if j != i {
                                assert(after[j] == before[j]);
                            } else {
                                assert(after[j].0@ == q);
                            }
                        }
                        if exists|j: int| 0 <= j < after.len() && after[j].0@ == q {
                            let j = choose|j: int| 0 <= j < after.len() && after[j].0@ == q;
                            if j != i {
                                assert(after[j] == before[j]);
                            }
                        }
                    }
                    assert forall|q: Seq<char>| #[trigger] map_of(after).contains_key(q)
                        implies map_of(after)[q] == map_of(before).insert(key@, value@)[q] by {
                        let j = choose|j: int| 0 <= j < after.len() && after[j].0@ == q;
                        if j != i {
                            assert(after[j] == before[j]);
                        }
                    }
                    assert(map_of(after) =~= map_of(before).insert(key@, value@));
                }
                self.entries = entries;
            },
            None => {
                let mut entries: Vec<(String, String)> = Vec::new();
                std::mem::swap(&mut entries, &mut self.entries);
                entries.push((k, v));
                let ghost after = entries@;
                assert(after.drop_last() =~= before);
                assert(keys_distinct(after)) by {
                    assert forall|a: int, b: int|
                        0 <= a < after.len() && 0 <= b < after.len() && a != b
                        implies #[trigger] after[a].0@ != #[trigger] after[b].0@ by {
                        if a < before.len() && b < before.len() {
                            assert(after[a] == before[a] && after[b] == before[b]);
                        } else if a < before.len() {
                            assert(after[a] == before[a]);
                        } else {
                            assert(after[b] == before[b]);
                        }
                    }
                }
                self.entries = entries;
            },
        }
    }

    /// The value of `key`, if it has one.
    pub fn get(&self, key: &str) -> (r: Option<&String>)
        ensures
            match r {
                Some(v) => self@.contains_key(key@) && v@ == self@[key@],
                None => !self@.contains_key(key@),
            },
    {
        proof { use_type_invariant(self); lemma_map_of(self.entries@); }
        let k = String::from_str(key);
        match self.position(&k) {
            Some(i) => Some(&self.entries[i].1),
            None => None,
        }
    }

    /// Removes `key`, giving back its value if it had one.
    pub fn remove(&mut self, key: &str) -> (r: Option<String>)
        ensures
            final(self)@ == old(self)@.remove(key@),
            match r {
                Some(v) => old(self)@.contains_key(key@) && v@ == old(self)@[key@],
                None => !old(self)@.contains_key(key@),
            },
    {
        proof { use_type_invariant(&*self); }
        let k = String::from_str(key);
        let ghost before = self.entries@;
        proof { lemma_map_of(before); }
        match self.position(&k) {
            Some(i) => {
                let mut entries: Vec<(String, String)> = Vec::new();
                std::mem::swap(&mut entries, &mut self.entries);
                let (_, v) = entries.remove(i);
                let ghost after = entries@;
                assert(keys_distinct(after)) by {
                    assert forall|a: int, b: int|
                        0 <= a < after.len() && 0 <= b < after.len() && a != b
                        implies #[trigger] after[a].0@ != #[trigger] after[b].0@ by {
                        let a2 = if a < i { a } else { a + 1 };
                        let b2 = if b < i { b } else { b + 1 };
                        assert(after[a] == before[a2] && after[b] == before[b2]);
                    }
                }
                proof {
                    lemma_map_of(after);
                    assert forall|q: Seq<char>| #[trigger] map_of(after).contains_key(q)
                        <==> map_of(before).remove(key@).contains_key(q) by {
                        if exists|j: int| 0 <= j < before.len() && before[j].0@ == q {
                            let j = choose|j: int| 0 <= j < before.len() && before[j].0@ == q;
                            if j < i {
                                assert(after[j] == before[j]);
                            } else if j > i {
                                assert(after[j - 1] == before[j]);
                            }
                        }
                        if exists|j: int| 0 <= j < after.len() && after[j].0@ == q {
                            let j = choose|j: int| 0 <= j < after.len() && after[j].0@ == q;
                            let j2 = if j < i { j } else { j + 1 };
                            assert(after[j] == before[j2]);
                        }
                    }
                    assert forall|q: Seq<char>| #[trigger] map_of(after).contains_key(q)
                        implies map_of(after)[q] == map_of(before).remove(key@)[q] by {
                        let j = choose|j: int| 0 <= j < after.len() && after[j].0@ == q;
                        let j2 = if j < i { j } else { j + 1 };
                        assert(after[j] == before[j2]);
                    }
                    assert(map_of(after) =~= map_of(before).remove(key@));
                }
                self.entries = entries;
                Some(v)
            },
            None => {
                proof { assert(map_of(before).remove(key@) =~= map_of(before)); }
                None
            },
        }
    }

    /// Removes every key.
    pub fn clear(&mut self)
        ensures
            final(self)@ == Map::<Seq<char>, Seq<char>>::empty(),
    {
        self.entries = Vec::new();
    }

    /// The number of keys.
    pub fn len(&self) -> (n: usize)
        ensures
            n == self@.len(),
            self@.dom().finite(),
    {
        proof {
            use_type_invariant(self);
            lemma_map_len(self.entries@);
        }
        self.entries.len()
    }
}

/// With distinct keys, the map has as many keys as there are pairs.
proof fn lemma_map_len(s: Seq<(String, String)>)
    requires
        keys_distinct(s),
    ensures
        map_of(s).dom().finite(),
        map_of(s).len() == s.len(),
    decreases s.len(),
{
    if s.len() > 0 {
        let p = s.drop_last();
        assert(keys_distinct(p));
        lemma_map_len(p);
        lemma_map_of(p);
        assert forall|i: int| 0 <= i < p.len() implies p[i].0@ != s.last().0@ by {
            assert(p[i] == s[i]);
        }
        assert(!map_of(p).contains_key(s.last().0@));
    }
}

} // verus!
