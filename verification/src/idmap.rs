//! A small map keyed by [`ServiceId`]: entries kept in insertion order,
//! no key twice. Its value is the map from each id's text to its entry.

use vstd::prelude::*;

use crate::config::ServiceId;

verus! {

/// No two entries of `s` share an id.
pub open spec fn keys_distinct<V>(s: Seq<(ServiceId, V)>) -> bool {
    forall|i: int, j: int| 0 <= i < s.len() && 0 <= j < s.len() && i != j ==> (#[trigger] s[i]).0@
        != (#[trigger] s[j]).0@
}

/// Some entry of `s` has the id `k`.
pub open spec fn has_key<V>(s: Seq<(ServiceId, V)>, k: Seq<char>) -> bool {
    exists|i: int| 0 <= i < s.len() && (#[trigger] s[i]).0@ == k
}

/// The map an entry sequence stands for.
pub open spec fn map_of<V>(s: Seq<(ServiceId, V)>) -> Map<Seq<char>, V> {
    Map::new(
        |k: Seq<char>| has_key(s, k),
        |k: Seq<char>| s[choose|i: int| 0 <= i < s.len() && (#[trigger] s[i]).0@ == k].1,
    )
}

/// An entry of a sequence with distinct ids is exactly what the map holds
/// for its id.
pub proof fn lemma_entry<V>(s: Seq<(ServiceId, V)>, i: int)
    requires
        keys_distinct(s),
        0 <= i < s.len(),
    ensures
        map_of(s).contains_key(s[i].0@),
        map_of(s)[s[i].0@] == s[i].1,
{
    let k = s[i].0@;
    assert(has_key(s, k));
    let j = choose|j: int| 0 <= j < s.len() && (#[trigger] s[j]).0@ == k;
    assert(j == i);
}

pub proof fn lemma_push<V>(s: Seq<(ServiceId, V)>, e: (ServiceId, V))
    requires
        keys_distinct(s),
        !has_key(s, e.0@),
    ensures
        keys_distinct(s.push(e)),
        map_of(s.push(e)) =~= map_of(s).insert(e.0@, e.1),
{
    let t = s.push(e);
    assert(keys_distinct(t)) by {
        assert forall|i: int, j: int|
            0 <= i < t.len() && 0 <= j < t.len() && i != j implies (#[trigger] t[i]).0@ != (
        #[trigger] t[j]).0@ by {
            if i == s.len() {
                assert(t[j] == s[j]);
            } else if j == s.len() {
                assert(t[i] == s[i]);
            }
        }
    }
    assert forall|k: Seq<char>| #[trigger] map_of(t).contains_key(k) == map_of(s).insert(
        e.0@,
        e.1,
    ).contains_key(k) by {
        if has_key(s, k) {
            let i = choose|i: int| 0 <= i < s.len() && (#[trigger] s[i]).0@ == k;
            assert(t[i] == s[i]);
        }
        if k == e.0@ {
            assert(t[s.len() as int] == e);
        }
    }
    assert forall|k: Seq<char>| #[trigger] map_of(t).contains_key(k) implies map_of(t)[k] == map_of(
        s,
    ).insert(e.0@, e.1)[k] by {
        if k == e.0@ {
            lemma_entry(t, s.len() as int);
        } else {
            let i = choose|i: int| 0 <= i < t.len() && (#[trigger] t[i]).0@ == k;
            assert(i < s.len());
            assert(t[i] == s[i]);
            lemma_entry(t, i);
            lemma_entry(s, i);
        }
    }
}

pub proof fn lemma_update<V>(s: Seq<(ServiceId, V)>, i: int, e: (ServiceId, V))
    requires
        keys_distinct(s),
        0 <= i < s.len(),
        s[i].0@ == e.0@,
    ensures
        keys_distinct(s.update(i, e)),
        map_of(s.update(i, e)) =~= map_of(s).insert(e.0@, e.1),
{
    let t = s.update(i, e);
    assert(keys_distinct(t)) by {
        assert forall|a: int, b: int|
            0 <= a < t.len() && 0 <= b < t.len() && a != b implies (#[trigger] t[a]).0@ != (
        #[trigger] t[b]).0@ by {
            assert(t[a].0@ == s[a].0@);
            assert(t[b].0@ == s[b].0@);
        }
    }
    assert forall|k: Seq<char>| #[trigger] map_of(t).contains_key(k) == map_of(s).insert(
        e.0@,
        e.1,
    ).contains_key(k) by {
        if has_key(s, k) {
            let j = choose|j: int| 0 <= j < s.len() && (#[trigger] s[j]).0@ == k;
            assert(t[j].0@ == k);
        }
        if has_key(t, k) {
            let j = choose|j: int| 0 <= j < t.len() && (#[trigger] t[j]).0@ == k;
            assert(s[j].0@ == k);
        }
        if k == e.0@ {
            assert(t[i].0@ == k);
        }
    }
    assert forall|k: Seq<char>| #[trigger] map_of(t).contains_key(k) implies map_of(t)[k] == map_of(
        s,
    ).insert(e.0@, e.1)[k] by {
        let j = choose|j: int| 0 <= j < t.len() && (#[trigger] t[j]).0@ == k;
        lemma_entry(t, j);
        if j != i {
            assert(t[j] == s[j]);
            lemma_entry(s, j);
        }
    }
}

pub proof fn lemma_remove<V>(s: Seq<(ServiceId, V)>, i: int)
    requires
        keys_distinct(s),
        0 <= i < s.len(),
    ensures
        keys_distinct(s.remove(i)),
        map_of(s.remove(i)) =~= map_of(s).remove(s[i].0@),
{
    let t = s.remove(i);
    let gone = s[i].0@;
    assert forall|a: int| 0 <= a < t.len() implies #[trigger] t[a] == s[if a < i { a } else { a + 1 }] by {
    }
    assert(keys_distinct(t)) by {
        assert forall|a: int, b: int|
            0 <= a < t.len() && 0 <= b < t.len() && a != b implies (#[trigger] t[a]).0@ != (
        #[trigger] t[b]).0@ by {
            let a2 = if a < i { a } else { a + 1 };
            let b2 = if b < i { b } else { b + 1 };
            assert(t[a] == s[a2]);
            assert(t[b] == s[b2]);
        }
    }
    assert forall|k: Seq<char>| #[trigger] map_of(t).contains_key(k) == map_of(s).remove(
        gone,
    ).contains_key(k) by {
        if has_key(t, k) {
            let a = choose|a: int| 0 <= a < t.len() && (#[trigger] t[a]).0@ == k;
            let a2 = if a < i { a } else { a + 1 };
            assert(t[a] == s[a2]);
            assert(a2 != i);
        }
        if has_key(s, k) && k != gone {
            let a = choose|a: int| 0 <= a < s.len() && (#[trigger] s[a]).0@ == k;
            assert(a != i);
            let a1 = if a < i { a } else { a - 1 };
            assert(t[a1] == s[a]);
        }
    }
    assert forall|k: Seq<char>| #[trigger] map_of(t).contains_key(k) implies map_of(t)[k] == map_of(
        s,
    ).remove(gone)[k] by {
        let a = choose|a: int| 0 <= a < t.len() && (#[trigger] t[a]).0@ == k;
        let a2 = if a < i { a } else { a + 1 };
        assert(t[a] == s[a2]);
        lemma_entry(t, a);
        lemma_entry(s, a2);
    }
}

/// A map keyed by service id, in insertion order.
#[derive(Debug)]
pub struct IdMap<V> {
    entries: Vec<(ServiceId, V)>,
}

impl<V> View for IdMap<V> {
    type V = Map<Seq<char>, V>;

    open spec fn view(&self) -> Map<Seq<char>, V> {
        map_of(self.entries())
    }
}

impl<V> IdMap<V> {
    #[verifier::type_invariant]
    spec fn well_formed(self) -> bool {
        keys_distinct(self.entries@)
    }

    /// The entries, in insertion order.
    pub closed spec fn entries(self) -> Seq<(ServiceId, V)> {
        self.entries@
    }

    /// The ids, in insertion order.
    pub open spec fn key_seq(self) -> Seq<Seq<char>> {
        self.entries().map_values(|e: (ServiceId, V)| e.0@)
    }

    /// An empty map.
    pub fn new() -> (m: Self)
        ensures
            m@ == Map::<Seq<char>, V>::empty(),
            m.entries().len() == 0,
    {
        let m = IdMap { entries: Vec::new() };
        assert(m@ =~= Map::<Seq<char>, V>::empty());
        m
    }

    /// The number of entries; also states that no id occurs twice among
    /// the entries and that each entry is what the map holds for its id.
    pub fn len(&self) -> (n: usize)
        ensures
            n == self.entries().len(),
            n == self@.len(),
            keys_distinct(self.entries()),
            forall|k: Seq<char>| self@.contains_key(k) <==> has_key(self.entries(), k),
            forall|i: int|
                0 <= i < self.entries().len() ==> self@.contains_key(
                    (#[trigger] self.entries()[i]).0@,
                ) && self@[self.entries()[i].0@] == self.entries()[i].1,
    {
        proof {
            use_type_invariant(self);
            self.lemma_len();
            assert forall|i: int| 0 <= i < self.entries().len() implies self@.contains_key(
                (#[trigger] self.entries()[i]).0@,
            ) && self@[self.entries()[i].0@] == self.entries()[i].1 by {
                lemma_entry(self.entries(), i);
            }
        }
        self.entries.len()
    }

    /// There are no entries.
    pub fn is_empty(&self) -> (b: bool)
        ensures
            b <==> self@ == Map::<Seq<char>, V>::empty(),
    {
        proof {
            use_type_invariant(self);
            self.lemma_len();
            if self.entries().len() > 0 {
                lemma_entry(self.entries(), 0);
                assert(self@.contains_key(self.entries()[0].0@));
            } else {
                assert(self@ =~= Map::<Seq<char>, V>::empty());
            }
        }
        self.entries.len() == 0
    }

    proof fn lemma_len(&self)
        requires
            keys_distinct(self.entries()),
        ensures
            self@.dom().finite(),
            self@.len() == self.entries().len(),
        decreases self.entries().len(),
    {
        let s = self.entries();
        let keys = s.map_values(|e: (ServiceId, V)| e.0@);
        assert(keys.no_duplicates()) by {
            assert forall|i: int, j: int|
                0 <= i < keys.len() && 0 <= j < keys.len() && i != j implies keys[i] != keys[j] by {
                assert(keys[i] == s[i].0@);
                assert(keys[j] == s[j].0@);
            }
        }
        assert(self@.dom() =~= keys.to_set()) by {
            assert forall|k: Seq<char>| self@.dom().contains(k) <==> keys.to_set().contains(k) by {
                if has_key(s, k) {
                    let i = choose|i: int| 0 <= i < s.len() && (#[trigger] s[i]).0@ == k;
                    assert(keys[i] == k);
                }
                if keys.contains(k) {
                    let i = choose|i: int| 0 <= i < keys.len() && keys[i] == k;
                    assert(s[i].0@ == k);
                }
            }
        }
        keys.unique_seq_to_set();
    }

    fn find(&self, id: &ServiceId) -> (r: Option<usize>)
        ensures
            r matches Some(i) ==> i < self.entries().len() && self.entries()[i as int].0@ == id@,
            r is None ==> !has_key(self.entries(), id@),
    {
        let mut i: usize = 0;
        while i < self.entries.len()
            invariant
                i <= self.entries@.len(),
                forall|j: int| 0 <= j < i ==> (#[trigger] self.entries@[j]).0@ != id@,
            decreases self.entries@.len() - i,
        {
            if self.entries[i].0 == *id {
                return Some(i);
            }
            i = i + 1;
        }
        None
    }

    /// The entry for `id`, if any.
    pub fn get(&self, id: &ServiceId) -> (r: Option<&V>)
        ensures
            r is Some <==> self@.contains_key(id@),
            r matches Some(v) ==> *v == self@[id@],
    {
        proof {
            use_type_invariant(self);
        }
        match self.find(id) {
            Some(i) => {
                proof {
                    lemma_entry(self.entries(), i as int);
                }
                Some(&self.entries[i].1)
            },
            None => None,
        }
    }

    /// Whether `id` has an entry.
    pub fn contains_key(&self, id: &ServiceId) -> (b: bool)
        ensures
            b == self@.contains_key(id@),
    {
        self.find(id).is_some()
    }

    /// Sets `id`'s entry to `value`: an existing entry keeps its place, a
    /// new one goes last.
    pub fn insert(&mut self, id: ServiceId, value: V)
        ensures
            final(self)@ == old(self)@.insert(id@, value),
    {
        proof {
            use_type_invariant(&*self);
        }
        let found = self.find(&id);
        let mut entries: Vec<(ServiceId, V)> = Vec::new();
        std::mem::swap(&mut entries, &mut self.entries);
        match found {
            Some(i) => {
                proof {
                    lemma_update(entries@, i as int, (id, value));
                }
                entries.set(i, (id, value));
            },
            None => {
                proof {
                    lemma_push(entries@, (id, value));
                }
                entries.push((id, value));
            },
        }
        self.entries = entries;
    }

    /// Drops `id`'s entry, if any; the others keep their order.
    pub fn remove(&mut self, id: &ServiceId)
        ensures
            final(self)@ == old(self)@.remove(id@),
    {
        proof {
            use_type_invariant(&*self);
        }
        match self.find(id) {
            Some(i) => {
                let mut entries: Vec<(ServiceId, V)> = Vec::new();
                std::mem::swap(&mut entries, &mut self.entries);
                proof {
                    lemma_remove(entries@, i as int);
                }
                entries.remove(i);
                self.entries = entries;
            },
            None => {
                assert(self@ =~= self@.remove(id@));
            },
        }
    }

    /// The id of the `i`-th entry.
    pub fn key_at(&self, i: usize) -> (k: &ServiceId)
        requires
            i < self.entries().len(),
        ensures
            *k == self.entries()[i as int].0,
    {
        &self.entries[i].0
    }

    /// The value of the `i`-th entry.
    pub fn value_at(&self, i: usize) -> (v: &V)
        requires
            i < self.entries().len(),
        ensures
            *v == self.entries()[i as int].1,
    {
        &self.entries[i].1
    }
}

} // verus!

verus! {

/// Inserting an entry with a new id anywhere in the sequence adds that id
/// to the map.
pub proof fn lemma_insert_at<V>(s: Seq<(ServiceId, V)>, p: int, e: (ServiceId, V))
    requires
        keys_distinct(s),
        !has_key(s, e.0@),
        0 <= p <= s.len(),
    ensures
        keys_distinct(s.insert(p, e)),
        map_of(s.insert(p, e)) =~= map_of(s).insert(e.0@, e.1),
{
    let t = s.insert(p, e);
    assert forall|a: int| 0 <= a < t.len() implies #[trigger] t[a] == (if a < p {
        s[a]
    } else if a == p {
        e
    } else {
        s[a - 1]
    }) by {}
    assert(keys_distinct(t)) by {
        assert forall|a: int, b: int|
            0 <= a < t.len() && 0 <= b < t.len() && a != b implies (#[trigger] t[a]).0@ != (
        #[trigger] t[b]).0@ by {
            if a == p {
                let b2 = if b < p { b } else { b - 1 };
                assert(t[b] == s[b2]);
            } else if b == p {
                let a2 = if a < p { a } else { a - 1 };
                assert(t[a] == s[a2]);
            } else {
                let a2 = if a < p { a } else { a - 1 };
                let b2 = if b < p { b } else { b - 1 };
                assert(t[a] == s[a2]);
                assert(t[b] == s[b2]);
            }
        }
    }
    assert forall|k: Seq<char>| #[trigger] map_of(t).contains_key(k) == map_of(s).insert(
        e.0@,
        e.1,
    ).contains_key(k) by {
        if has_key(s, k) {
            let a = choose|a: int| 0 <= a < s.len() && (#[trigger] s[a]).0@ == k;
            let a1 = if a < p { a } else { a + 1 };
            assert(t[a1] == s[a]);
        }
        if has_key(t, k) && k != e.0@ {
            let a = choose|a: int| 0 <= a < t.len() && (#[trigger] t[a]).0@ == k;
            assert(a != p);
            let a2 = if a < p { a } else { a - 1 };
            assert(t[a] == s[a2]);
        }
        if k == e.0@ {
            assert(t[p] == e);
        }
    }
    assert forall|k: Seq<char>| #[trigger] map_of(t).contains_key(k) implies map_of(t)[k] == map_of(
        s,
    ).insert(e.0@, e.1)[k] by {
        let a = choose|a: int| 0 <= a < t.len() && (#[trigger] t[a]).0@ == k;
        lemma_entry(t, a);
        if a != p {
            let a2 = if a < p { a } else { a - 1 };
            assert(t[a] == s[a2]);
            lemma_entry(s, a2);
        }
    }
}

} // verus!
