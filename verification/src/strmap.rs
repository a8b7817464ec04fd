//! A map from strings to strings, kept as a list of entries with distinct keys.

use vstd::prelude::*;
use crate::text::same_text;

verus! {

/// Whether no two entries of `s` share a key.
pub open spec fn unique_keys(s: Seq<(Seq<char>, Seq<char>)>) -> bool {
    forall|i: int, j: int| 0 <= i < s.len() && 0 <= j < s.len() && i != j ==> s[i].0 != s[j].0
}

/// The map that a list of entries denotes: a later entry overrides an earlier one.
pub open spec fn map_of(s: Seq<(Seq<char>, Seq<char>)>) -> Map<Seq<char>, Seq<char>>
    decreases s.len(),
{
    if s.len() == 0 {
        Map::empty()
    } else {
        map_of(s.drop_last()).insert(s.last().0, s.last().1)
    }
}

/// The keys of `map_of(s)` are those of the entries, and each entry's value is the key's value.
pub proof fn lemma_map_of_entries(s: Seq<(Seq<char>, Seq<char>)>)
    requires
        unique_keys(s),
    ensures
        forall|k: Seq<char>| #[trigger] map_of(s).contains_key(k) <==> exists|i: int| 0 <= i < s.len() && s[i].0 == k,
        forall|i: int| 0 <= i < s.len() ==> #[trigger] map_of(s)[s[i].0] == s[i].1,
    decreases s.len(),
{
    if s.len() > 0 {
        let t = s.drop_last();
        assert(unique_keys(t));
        lemma_map_of_entries(t);
        assert forall|k: Seq<char>| #[trigger] map_of(s).contains_key(k) <==> exists|i: int| 0 <= i < s.len() && s[i].0 == k by {
            if map_of(s).contains_key(k) {
                if k == s.last().0 {
                    assert(s[s.len() - 1].0 == k);
                } else {
                    assert(map_of(t).contains_key(k));
                    let i = choose|i: int| 0 <= i < t.len() && t[i].0 == k;
                    assert(s[i] == t[i]);
                    assert(s[i].0 == k);
                }
            }
            if exists|i: int| 0 <= i < s.len() && s[i].0 == k {
                let i = choose|i: int| 0 <= i < s.len() && s[i].0 == k;
                if i < s.len() - 1 {
                    assert(t[i].0 == k);
                    assert(map_of(t).contains_key(k));
                }
            }
        }
        assert forall|i: int| 0 <= i < s.len() implies #[trigger] map_of(s)[s[i].0] == s[i].1 by {
            if i < s.len() - 1 {
                assert(t[i] == s[i]);
                assert(s[i].0 != s[s.len() - 1].0);
                assert(map_of(t)[t[i].0] == t[i].1);
                assert(map_of(s) == map_of(t).insert(s.last().0, s.last().1));
            } else {
                assert(map_of(s) == map_of(t).insert(s.last().0, s.last().1));
            }
        }
    }
}

/// Replacing the value of one entry replaces the value of its key in the map.
pub proof fn lemma_map_of_update(s: Seq<(Seq<char>, Seq<char>)>, j: int, v: Seq<char>)
    requires
        unique_keys(s),
        0 <= j < s.len(),
    ensures
        map_of(s.update(j, (s[j].0, v))) == map_of(s).insert(s[j].0, v),
    decreases s.len(),
{
    let u = s.update(j, (s[j].0, v));
    let t = s.drop_last();
    if j == s.len() - 1 {
        assert(u.drop_last() =~= t);
        assert(map_of(u) =~= map_of(s).insert(s[j].0, v));
    } else {
        assert(unique_keys(t));
        lemma_map_of_update(t, j, v);
        assert(u.drop_last() =~= t.update(j, (t[j].0, v)));
        assert(s[j].0 != s.last().0);
        assert(map_of(u) =~= map_of(s).insert(s[j].0, v));
    }
}

/// A map from strings to strings (the role of `HashMap<String, String>`).
#[derive(Debug)]
pub struct StrMap {
    entries: Vec<(String, String)>,
}

impl StrMap {
    /// The entries, as character sequences, in the order they were first inserted.
    pub closed spec fn entries(&self) -> Seq<(Seq<char>, Seq<char>)> {
        self.entries@.map_values(|e: (String, String)| (e.0@, e.1@))
    }

    #[verifier::type_invariant]
    spec fn keys_distinct(&self) -> bool {
        unique_keys(self.entries())
    }

    /// An empty map.
    pub fn new() -> (m: Self)
        ensures
            m@ == Map::<Seq<char>, Seq<char>>::empty(),
            m.entries().len() == 0,
    {
        let m = StrMap { entries: Vec::new() };
        assert(m.entries() =~= Seq::empty());
        m
    }

    /// A copy of the map, with its entries in the same order.
    pub fn copy(&self) -> (r: Self)
        ensures
            r@ == self@,
            r.entries() == self.entries(),
    {
        proof {
            use_type_invariant(self);
        }
        let mut entries: Vec<(String, String)> = Vec::new();
        let mut i: usize = 0;
        while i < self.entries.len()
            invariant
                i <= self.entries@.len(),
                entries@.map_values(|e: (String, String)| (e.0@, e.1@)) =~= self.entries().take(i as int),
            decreases self.entries@.len() - i,
        {
            let k = self.entries[i].0.clone();
            let v = self.entries[i].1.clone();
            let ghost before = entries@.map_values(|e: (String, String)| (e.0@, e.1@));
            entries.push((k, v));
            proof {
                assert(self.entries()[i as int] == (self.entries@[i as int].0@, self.entries@[i as int].1@));
                assert(entries@.map_values(|e: (String, String)| (e.0@, e.1@)) =~= before.push(self.entries()[i as int]));
                assert(self.entries().take(i + 1) =~= self.entries().take(i as int).push(self.entries()[i as int]));
            }
            i = i + 1;
        }
        assert(self.entries().take(self.entries@.len() as int) =~= self.entries());
        StrMap { entries }
    }

    /// Number of entries (which is the number of keys).
    pub fn len(&self) -> (n: usize)
        ensures
            n == self.entries().len(),
    {
        self.entries.len()
    }

    /// The `i`th entry.
    pub fn entry(&self, i: usize) -> (e: (&String, &String))
        requires
            i < self.entries().len(),
        ensures
            e.0@ == self.entries()[i as int].0,
            e.1@ == self.entries()[i as int].1,
    {
        (&self.entries[i].0, &self.entries[i].1)
    }

    /// Where `key` stands among the entries.
    fn position(&self, key: &str) -> (r: Option<usize>)
        ensures
            match r {
                Some(i) => i < self.entries().len() && self.entries()[i as int].0 == key@,
                None => forall|i: int| 0 <= i < self.entries().len() ==> self.entries()[i].0 != key@,
            },
    {
        let mut i: usize = 0;
        while i < self.entries.len()
            invariant
                i <= self.entries@.len(),
                forall|j: int| 0 <= j < i ==> self.entries()[j].0 != key@,
            decreases self.entries@.len() - i,
        {
            if same_text(self.entries[i].0.as_str(), key) {
                return Some(i);
            }
            i = i + 1;
        }
        None
    }

    /// The value of `key`, if it has one.
    pub fn get(&self, key: &str) -> (r: Option<&String>)
        ensures
            r is Some <==> self@.contains_key(key@),
            r matches Some(v) ==> v@ == self@[key@],
    {
        proof {
            use_type_invariant(self);
            lemma_map_of_entries(self.entries());
        }
        match self.position(key) {
            Some(i) => Some(&self.entries[i].1),
            None => None,
        }
    }

    /// Whether `key` has a value.
    pub fn contains_key(&self, key: &str) -> (r: bool)
        ensures
            r == self@.contains_key(key@),
    {
        self.get(key).is_some()
    }

    /// Sets the value of `key`, replacing any earlier value.
    pub fn insert(&mut self, key: String, value: String)
        ensures
            final(self)@ == old(self)@.insert(key@, value@),
    {
        proof {
            use_type_invariant(&*self);
            lemma_map_of_entries(self.entries());
        }
        let ghost old_entries = self.entries();
        match self.position(key.as_str()) {
            Some(i) => {
                let mut entries: Vec<(String, String)> = Vec::new();
                std::mem::swap(&mut entries, &mut self.entries);
                entries.set(i, (key, value));
                proof {
                    lemma_map_of_update(old_entries, i as int, value@);
                    assert(entries@.map_values(|e: (String, String)| (e.0@, e.1@)) =~= old_entries.update(
                        i as int,
                        (old_entries[i as int].0, value@),
                    ));
                }
                self.entries = entries;
            },
            None => {
                let mut entries: Vec<(String, String)> = Vec::new();
                std::mem::swap(&mut entries, &mut self.entries);
                entries.push((key, value));
                proof {
                    let ne = entries@.map_values(|e: (String, String)| (e.0@, e.1@));
                    assert(ne =~= old_entries.push((key@, value@)));
                    assert(ne.drop_last() =~= old_entries);
                }
                self.entries = entries;
            },
        }
    }
}

impl View for StrMap {
    type V = Map<Seq<char>, Seq<char>>;

    open spec fn view(&self) -> Map<Seq<char>, Seq<char>> {
        map_of(self.entries())
    }
}

} // verus!
