//! A map from strings to strings, kept as a list of entries whose keys are
//! pairwise different.

use vstd::prelude::*;
use vstd::string::*;

verus! {

/// Whether no two entries of `e` have the same key.
pub open spec fn distinct_keys(e: Seq<(String, String)>) -> bool {
    forall|i: int, j: int| 0 <= i < j < e.len() ==> (#[trigger] e[i]).0@ != (#[trigger] e[j]).0@
}

/// Whether some entry of `e` has the key `k`.
pub open spec fn has_key(e: Seq<(String, String)>, k: Seq<char>) -> bool {
    exists|i: int| 0 <= i < e.len() && (#[trigger] e[i]).0@ == k
}

/// The index of an entry of `e` with the key `k`.
pub open spec fn index_of(e: Seq<(String, String)>, k: Seq<char>) -> int {
    choose|i: int| 0 <= i < e.len() && (#[trigger] e[i]).0@ == k
}

/// The map that the entries `e` stand for.
pub open spec fn map_of(e: Seq<(String, String)>) -> Map<Seq<char>, Seq<char>> {
    Map::new(|k: Seq<char>| has_key(e, k), |k: Seq<char>| e[index_of(e, k)].1@)
}

pub proof fn lemma_map_of_entry(e: Seq<(String, String)>, i: int)
    requires
        distinct_keys(e),
        0 <= i < e.len(),
    ensures
        map_of(e).dom().contains(e[i].0@),
        map_of(e)[e[i].0@] == e[i].1@,
        index_of(e, e[i].0@) == i,
{
    let k = e[i].0@;
    let j = index_of(e, k);
    assert(0 <= j < e.len() && e[j].0@ == k);
    if j < i {
        assert(e[j].0@ != e[i].0@);
    } else if i < j {
        assert(e[i].0@ != e[j].0@);
    }
}

pub proof fn lemma_map_of_push(e: Seq<(String, String)>, entry: (String, String))
    requires
        distinct_keys(e),
        !has_key(e, entry.0@),
    ensures
        distinct_keys(e.push(entry)),
        map_of(e.push(entry)) == map_of(e).insert(entry.0@, entry.1@),
{
    let f = e.push(entry);
    assert forall|i: int, j: int| 0 <= i < j < f.len() implies (#[trigger] f[i]).0@ != (
    #[trigger] f[j]).0@ by {
        if j == e.len() {
            assert(f[i] == e[i]);
        } else {
            assert(f[i] == e[i] && f[j] == e[j]);
        }
    }
    assert forall|k: Seq<char>| has_key(f, k) <==> (has_key(e, k) || k == entry.0@) by {
        if has_key(e, k) {
            let i = index_of(e, k);
            assert(f[i].0@ == k);
        }
        if k == entry.0@ {
            assert(f[e.len() as int].0@ == k);
        }
        if has_key(f, k) {
            let i = index_of(f, k);
            if i < e.len() {
                assert(e[i].0@ == k);
            }
        }
    }
    assert forall|k: Seq<char>| has_key(f, k) implies #[trigger] map_of(f)[k] == map_of(e).insert(
        entry.0@,
        entry.1@,
    )[k] by {
        let i = index_of(f, k);
        lemma_map_of_entry(f, i);
        if i < e.len() {
            assert(f[i] == e[i]);
            lemma_map_of_entry(e, i);
        }
    }
    assert(map_of(f) =~= map_of(e).insert(entry.0@, entry.1@));
}

pub proof fn lemma_map_of_update(e: Seq<(String, String)>, i: int, entry: (String, String))
    requires
        distinct_keys(e),
        0 <= i < e.len(),
        entry.0@ == e[i].0@,
    ensures
        distinct_keys(e.update(i, entry)),
        map_of(e.update(i, entry)) == map_of(e).insert(entry.0@, entry.1@),
{
    let f = e.update(i, entry);
    assert forall|a: int, b: int| 0 <= a < b < f.len() implies (#[trigger] f[a]).0@ != (
    #[trigger] f[b]).0@ by {
        assert(f[a].0@ == e[a].0@ && f[b].0@ == e[b].0@);
    }
    assert forall|k: Seq<char>| has_key(f, k) <==> has_key(e, k) by {
        if has_key(e, k) {
            let j = index_of(e, k);
            assert(f[j].0@ == k);
        }
        if has_key(f, k) {
            let j = index_of(f, k);
            assert(e[j].0@ == k);
        }
    }
    lemma_map_of_entry(e, i);
    assert forall|k: Seq<char>| has_key(f, k) implies #[trigger] map_of(f)[k] == map_of(e).insert(
        entry.0@,
        entry.1@,
    )[k] by {
        let j = index_of(f, k);
        lemma_map_of_entry(f, j);
        if j != i {
            assert(f[j] == e[j]);
            lemma_map_of_entry(e, j);
        }
    }
    assert(map_of(f) =~= map_of(e).insert(entry.0@, entry.1@));
}

pub proof fn lemma_map_of_remove(e: Seq<(String, String)>, i: int)
    requires
        distinct_keys(e),
        0 <= i < e.len(),
    ensures
        distinct_keys(e.remove(i)),
        map_of(e.remove(i)) == map_of(e).remove(e[i].0@),
{
    let f = e.remove(i);
    let key = e[i].0@;
    assert forall|a: int, b: int| 0 <= a < b < f.len() implies (#[trigger] f[a]).0@ != (
    #[trigger] f[b]).0@ by {
        let a2 = if a < i { a } else { a + 1 };
        let b2 = if b < i { b } else { b + 1 };
        assert(f[a] == e[a2] && f[b] == e[b2]);
    }
    assert forall|k: Seq<char>| has_key(f, k) <==> (has_key(e, k) && k != key) by {
        if has_key(e, k) && k != key {
            let j = index_of(e, k);
            let j2 = if j < i { j } else { j - 1 };
            assert(f[j2] == e[j]);
        }
        if has_key(f, k) {
            let j = index_of(f, k);
            let j2 = if j < i { j } else { j + 1 };
            assert(f[j] == e[j2]);
            assert(e[j2].0@ == k);
            if j2 < i {
                assert(e[j2].0@ != e[i].0@);
            } else {
                assert(e[i].0@ != e[j2].0@);
            }
        }
    }
    assert forall|k: Seq<char>| has_key(f, k) implies #[trigger] map_of(f)[k] == map_of(e).remove(
        key,
    )[k] by {
        let j = index_of(f, k);
        lemma_map_of_entry(f, j);
        let j2 = if j < i { j } else { j + 1 };
        assert(f[j] == e[j2]);
        lemma_map_of_entry(e, j2);
    }
    assert(map_of(f) =~= map_of(e).remove(key));
}

pub proof fn lemma_map_of_same(e: Seq<(String, String)>, f: Seq<(String, String)>)
    requires
        distinct_keys(e),
        e.len() == f.len(),
        forall|i: int| 0 <= i < e.len() ==> (#[trigger] e[i]).0@ == f[i].0@ && e[i].1@ == f[i].1@,
    ensures
        distinct_keys(f),
        map_of(f) == map_of(e),
{
    assert forall|a: int, b: int| 0 <= a < b < f.len() implies (#[trigger] f[a]).0@ != (
    #[trigger] f[b]).0@ by {
        assert(e[a].0@ == f[a].0@ && e[b].0@ == f[b].0@);
    }
    assert forall|k: Seq<char>| has_key(f, k) <==> has_key(e, k) by {
        if has_key(e, k) {
            let j = index_of(e, k);
            assert(e[j].0@ == f[j].0@);
        }
        if has_key(f, k) {
            let j = index_of(f, k);
            assert(e[j].0@ == f[j].0@);
        }
    }
    assert forall|k: Seq<char>| has_key(f, k) implies #[trigger] map_of(f)[k] == map_of(e)[k] by {
        let j = index_of(f, k);
        lemma_map_of_entry(f, j);
        assert(e[j].0@ == f[j].0@);
        lemma_map_of_entry(e, j);
    }
    assert(map_of(f) =~= map_of(e));
}

/// A map from strings to strings. Inserting a key that is present replaces
/// its value.
#[derive(Debug)]
pub struct StringMap {
    entries: Vec<(String, String)>,
}

impl View for StringMap {
    type V = Map<Seq<char>, Seq<char>>;

    closed spec fn view(&self) -> Map<Seq<char>, Seq<char>> {
        map_of(self.entries@)
    }
}

impl Clone for StringMap {
    fn clone(&self) -> (r: StringMap)
        ensures
            r@ == self@,
    {
        proof {
            use_type_invariant(self);
        }
        let mut entries: Vec<(String, String)> = Vec::new();
        let mut i: usize = 0;
        while i < self.entries.len()
            invariant
                i <= self.entries@.len(),
                entries@.len() == i,
                forall|j: int|
                    0 <= j < i ==> (#[trigger] self.entries@[j]).0@ == entries@[j].0@
                        && self.entries@[j].1@ == entries@[j].1@,
            decreases self.entries@.len() - i,
        {
            entries.push((self.entries[i].0.clone(), self.entries[i].1.clone()));
            i += 1;
        }
        proof {
            lemma_map_of_same(self.entries@, entries@);
        }
        StringMap { entries }
    }
}

impl StringMap {
    #[verifier::type_invariant]
    spec fn well_formed(self) -> bool {
        distinct_keys(self.entries@)
    }

    /// The number of entries.
    pub closed spec fn spec_len(&self) -> nat {
        self.entries@.len()
    }

    /// An empty map.
    pub fn new() -> (m: StringMap)
        ensures
            m@ == Map::<Seq<char>, Seq<char>>::empty(),
            m.spec_len() == 0,
    {
        let m = StringMap { entries: Vec::new() };
        proof {
            assert(m@ =~= Map::<Seq<char>, Seq<char>>::empty());
        }
        m
    }

    /// The number of entries.
    pub fn len(&self) -> (n: usize)
        ensures
            n == self.spec_len(),
    {
        self.entries.len()
    }

    /// Whether the map holds no entry.
    pub fn is_empty(&self) -> (b: bool)
        ensures
            b == (self.spec_len() == 0),
            b == (self@ == Map::<Seq<char>, Seq<char>>::empty()),
    {
        proof {
            use_type_invariant(self);
            if self.entries@.len() > 0 {
                lemma_map_of_entry(self.entries@, 0);
            } else {
                assert(self@ =~= Map::<Seq<char>, Seq<char>>::empty());
            }
        }
        self.entries.len() == 0
    }

    fn position(&self, key: &str) -> (r: Option<usize>)
        ensures
            match r {
                Some(i) => i < self.entries@.len() && self.entries@[i as int].0@ == key@,
                None => !has_key(self.entries@, key@),
            },
    {
        let mut i: usize = 0;
        while i < self.entries.len()
            invariant
                i <= self.entries@.len(),
                forall|j: int| 0 <= j < i ==> (#[trigger] self.entries@[j]).0@ != key@,
            decreases self.entries@.len() - i,
        {
            if str_equal(self.entries[i].0.as_str(), key) {
                return Some(i);
            }
            i += 1;
        }
        None
    }

    /// The value stored under `key`, where there is one.
    pub fn get(&self, key: &str) -> (r: Option<&String>)
        ensures
            match r {
                Some(v) => self@.dom().contains(key@) && self@[key@] == v@,
                None => !self@.dom().contains(key@),
            },
    {
        match self.position(key) {
            Some(i) => {
                proof {
                    use_type_invariant(self);
                    lemma_map_of_entry(self.entries@, i as int);
                }
                Some(&self.entries[i].1)
            },
            None => None,
        }
    }

    /// Whether a value is stored under `key`.
    pub fn contains_key(&self, key: &str) -> (b: bool)
        ensures
            b == self@.dom().contains(key@),
    {
        self.get(key).is_some()
    }

    /// Stores `value` under `key` and returns the value that it replaces,
    /// where there was one.
    pub fn insert(&mut self, key: String, value: String) -> (r: Option<String>)
        ensures
            final(self)@ == old(self)@.insert(key@, value@),
            match r {
                Some(v) => old(self)@.dom().contains(key@) && old(self)@[key@] == v@,
                None => !old(self)@.dom().contains(key@),
            },
    {
        let mut taken = StringMap { entries: Vec::new() };
        std::mem::swap(self, &mut taken);
        proof {
            use_type_invariant(&taken);
        }
        let found = taken.position(key.as_str());
        let mut entries = taken.entries;
        let ghost before = entries@;
        let r = match found {
            Some(i) => {
                proof {
                    lemma_map_of_entry(before, i as int);
                    lemma_map_of_update(before, i as int, (key, value));
                }
                let mut entry = (key, value);
                std::mem::swap(&mut entries[i], &mut entry);
                proof {
                    assert(entries@ =~= before.update(i as int, (key, value)));
                }
                Some(entry.1)
            },
            None => {
                proof {
                    lemma_map_of_push(before, (key, value));
                }
                entries.push((key, value));
                None
            },
        };
        *self = StringMap { entries };
        r
    }

    /// Takes out what is stored under `key` and returns it, where there was
    /// something.
    pub fn remove(&mut self, key: &str) -> (r: Option<String>)
        ensures
            final(self)@ == old(self)@.remove(key@),
            match r {
                Some(v) => old(self)@.dom().contains(key@) && old(self)@[key@] == v@,
                None => !old(self)@.dom().contains(key@),
            },
    {
        let mut taken = StringMap { entries: Vec::new() };
        std::mem::swap(self, &mut taken);
        proof {
            use_type_invariant(&taken);
        }
        let found = taken.position(key);
        let mut entries = taken.entries;
        let ghost before = entries@;
        let r = match found {
            Some(i) => {
                proof {
                    lemma_map_of_entry(before, i as int);
                    lemma_map_of_remove(before, i as int);
                }
                let entry = entries.remove(i);
                Some(entry.1)
            },
            None => {
                proof {
                    assert(map_of(before).remove(key@) =~= map_of(before));
                }
                None
            },
        };
        *self = StringMap { entries };
        r
    }
}

/// Whether `a` and `b` hold the same characters.
pub fn str_equal(a: &str, b: &str) -> (r: bool)
    ensures
        r == (a@ == b@),
{
    let x = crate::text::chars_of(a);
    let y = crate::text::chars_of(b);
    if x.len() != y.len() {
        return false;
    }
    let mut i: usize = 0;
    while i < x.len()
        invariant
            x@ == a@,
            y@ == b@,
            x.len() == y.len(),
            i <= x.len(),
            forall|j: int| 0 <= j < i ==> x@[j] == y@[j],
        decreases x.len() - i,
    {
        if x[i] != y[i] {
            proof {
                assert(a@[i as int] != b@[i as int]);
            }
            return false;
        }
        i += 1;
    }
    proof {
        assert(x@ =~= y@);
    }
    true
}

} // verus!
