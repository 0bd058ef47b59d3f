//! Operations on a [`SeenRing`]: membership, and touch-or-append with
//! eviction of the oldest ids beyond [`SEEN_RING_CAPACITY`].

use vstd::prelude::*;

use crate::state::{SeenRing, SEEN_RING_CAPACITY};

verus! {

/// The ids of `ring`, oldest first.
pub open spec fn ring_ids(ring: SeenRing) -> Seq<Seq<char>> {
    ring.0@.map_values(|s: String| s@)
}

/// `s` with the first occurrence of `x` taken out (unchanged when `x`
/// does not occur).
pub open spec fn without_first(s: Seq<Seq<char>>, x: Seq<char>) -> Seq<Seq<char>>
    decreases s.len(),
{
    if s.len() == 0 {
        s
    } else if s[0] == x {
        s.skip(1)
    } else {
        seq![s[0]] + without_first(s.skip(1), x)
    }
}

/// The newest [`SEEN_RING_CAPACITY`] ids of `s`.
pub open spec fn keep_newest(s: Seq<Seq<char>>) -> Seq<Seq<char>> {
    if s.len() > SEEN_RING_CAPACITY {
        s.skip(s.len() - SEEN_RING_CAPACITY)
    } else {
        s
    }
}

/// The ring after inserting `x`: an existing `x` is moved to the back, a
/// new one appended, and the oldest ids beyond capacity dropped.
pub open spec fn inserted(s: Seq<Seq<char>>, x: Seq<char>) -> Seq<Seq<char>> {
    keep_newest(without_first(s, x).push(x))
}

/// `ids` with every repeat after its first occurrence dropped.
pub open spec fn first_occurrences(ids: Seq<Seq<char>>) -> Seq<Seq<char>>
    decreases ids.len(),
{
    if ids.len() == 0 {
        ids
    } else if ids.drop_last().contains(ids.last()) {
        first_occurrences(ids.drop_last())
    } else {
        first_occurrences(ids.drop_last()).push(ids.last())
    }
}

/// The ring after inserting each of `ids` in turn.
pub open spec fn inserted_all(s: Seq<Seq<char>>, ids: Seq<Seq<char>>) -> Seq<Seq<char>>
    decreases ids.len(),
{
    if ids.len() == 0 {
        s
    } else {
        inserted(inserted_all(s, ids.drop_last()), ids.last())
    }
}

proof fn lemma_without_first_at(s: Seq<Seq<char>>, x: Seq<char>, p: int)
    requires
        0 <= p < s.len(),
        s[p] == x,
        forall|j: int| 0 <= j < p ==> s[j] != x,
    ensures
        without_first(s, x) == s.remove(p),
    decreases s.len(),
{
    if p == 0 {
        assert(s.skip(1) =~= s.remove(0));
    } else {
        let t = s.skip(1);
        assert forall|j: int| 0 <= j < p - 1 implies t[j] != x by {
            assert(t[j] == s[j + 1]);
        }
        lemma_without_first_at(t, x, p - 1);
        assert(seq![s[0]] + t.remove(p - 1) =~= s.remove(p));
    }
}

proof fn lemma_without_first_absent(s: Seq<Seq<char>>, x: Seq<char>)
    requires
        !s.contains(x),
    ensures
        without_first(s, x) == s,
    decreases s.len(),
{
    if s.len() > 0 {
        let t = s.skip(1);
        assert(s[0] != x) by {
            assert(s.contains(s[0]));
        }
        assert(!t.contains(x)) by {
            if t.contains(x) {
                let j = choose|j: int| 0 <= j < t.len() && t[j] == x;
                assert(s[j + 1] == x);
            }
        }
        lemma_without_first_absent(t, x);
        assert(seq![s[0]] + t =~= s);
    }
}

proof fn lemma_without_first_no_duplicates(s: Seq<Seq<char>>, x: Seq<char>)
    requires
        s.no_duplicates(),
    ensures
        without_first(s, x).no_duplicates(),
        !without_first(s, x).contains(x),
        forall|y: Seq<char>| y != x ==> (without_first(s, x).contains(y) <==> s.contains(y)),
    decreases s.len(),
{
    if s.len() > 0 {
        let t = s.skip(1);
        assert(t.no_duplicates()) by {
            assert forall|a: int, b: int| 0 <= a < t.len() && 0 <= b < t.len() && a != b implies t[a] != t[b] by {
                assert(t[a] == s[a + 1] && t[b] == s[b + 1]);
            }
        }
        assert forall|y: Seq<char>| #[trigger] t.contains(y) <==> (s.contains(y) && y != s[0]) by {
            if t.contains(y) {
                let j = choose|j: int| 0 <= j < t.len() && t[j] == y;
                assert(s[j + 1] == y);
            }
            if s.contains(y) && y != s[0] {
                let j = choose|j: int| 0 <= j < s.len() && s[j] == y;
                assert(t[j - 1] == y);
            }
        }
        if s[0] == x {
            assert(without_first(s, x) == t);
            assert(!t.contains(x));
        } else {
            lemma_without_first_no_duplicates(t, x);
            let w = without_first(t, x);
            let r = seq![s[0]] + w;
            assert(without_first(s, x) == r);
            assert forall|y: Seq<char>| #[trigger] r.contains(y) <==> (y == s[0] || w.contains(y)) by {
                if r.contains(y) {
                    let j = choose|j: int| 0 <= j < r.len() && r[j] == y;
                    if j > 0 {
                        assert(w[j - 1] == y);
                    }
                }
                if w.contains(y) {
                    let j = choose|j: int| 0 <= j < w.len() && w[j] == y;
                    assert(r[j + 1] == y);
                }
                if y == s[0] {
                    assert(r[0] == y);
                }
            }
            assert(s.contains(s[0])) by {
                assert(s[0] == s[0]);
            }
            assert(!t.contains(s[0]));
            assert(!w.contains(s[0]));
            assert forall|y: Seq<char>| y != x implies (#[trigger] r.contains(y) <==> s.contains(y)) by {
                if y != s[0] {
                    assert(w.contains(y) <==> t.contains(y));
                }
            }
            assert forall|a: int, b: int| 0 <= a < r.len() && 0 <= b < r.len() && a != b implies r[a] != r[b] by {
                if a > 0 && b > 0 {
                    assert(r[a] == w[a - 1] && r[b] == w[b - 1]);
                } else if a == 0 {
                    assert(r[b] == w[b - 1]);
                    assert(w.contains(w[b - 1]));
                } else {
                    assert(r[a] == w[a - 1]);
                    assert(w.contains(w[a - 1]));
                }
            }
        }
    }
}

/// Taking `x` out of a ring without repeats shortens it by one exactly
/// when `x` is in it.
proof fn lemma_without_first_len(s: Seq<Seq<char>>, x: Seq<char>)
    requires
        s.no_duplicates(),
    ensures
        without_first(s, x).len() == (if s.contains(x) {
            s.len() - 1
        } else {
            s.len() as int
        }),
{
    if s.contains(x) {
        let p = choose|p: int| 0 <= p < s.len() && s[p] == x;
        assert forall|j: int| 0 <= j < p implies s[j] != x by {}
        lemma_without_first_at(s, x, p);
    } else {
        lemma_without_first_absent(s, x);
    }
}

/// Inserting `x` into a ring without repeats keeps `x`, grows the ring
/// by at most one, and, while there is room for one more id, keeps every
/// id already there.
proof fn lemma_inserted_members(s: Seq<Seq<char>>, x: Seq<char>)
    requires
        s.no_duplicates(),
    ensures
        inserted(s, x).no_duplicates(),
        inserted(s, x).contains(x),
        inserted(s, x).len() <= s.len() + 1,
        s.len() + 1 <= SEEN_RING_CAPACITY ==> forall|y: Seq<char>| s.contains(y) ==> #[trigger] inserted(s, x).contains(y),
{
    lemma_inserted_keeps_ring_valid(s, x);
    lemma_without_first_len(s, x);
    lemma_without_first_no_duplicates(s, x);
    let w = without_first(s, x);
    let p = w.push(x);
    let k = inserted(s, x);
    assert(k.len() >= 1) by {
        if p.len() > SEEN_RING_CAPACITY {
            assert(k.len() == SEEN_RING_CAPACITY);
        }
    }
    assert(k[k.len() - 1] == x);
    if s.len() + 1 <= SEEN_RING_CAPACITY {
        assert(k == p);
        assert forall|y: Seq<char>| s.contains(y) implies #[trigger] k.contains(y) by {
            if y == x {
                assert(k[k.len() - 1] == x);
            } else {
                assert(w.contains(y));
                let j = choose|j: int| 0 <= j < w.len() && w[j] == y;
                assert(p[j] == y);
            }
        }
    }
}

/// Inserting `ids` into a ring without repeats that has room for all of
/// them keeps every id already there and adds every one of `ids`.
pub proof fn lemma_inserted_all_members(s: Seq<Seq<char>>, ids: Seq<Seq<char>>)
    requires
        s.no_duplicates(),
        s.len() + ids.len() <= SEEN_RING_CAPACITY,
    ensures
        inserted_all(s, ids).no_duplicates(),
        inserted_all(s, ids).len() <= s.len() + ids.len(),
        forall|y: Seq<char>| (s.contains(y) || ids.contains(y)) ==> #[trigger] inserted_all(s, ids).contains(y),
    decreases ids.len(),
{
    if ids.len() > 0 {
        let front = ids.drop_last();
        lemma_inserted_all_members(s, front);
        let t = inserted_all(s, front);
        lemma_inserted_members(t, ids.last());
        assert forall|y: Seq<char>| (s.contains(y) || ids.contains(y)) implies #[trigger] inserted_all(
            s,
            ids,
        ).contains(y) by {
            if y != ids.last() {
                if ids.contains(y) {
                    let j = choose|j: int| 0 <= j < ids.len() && ids[j] == y;
                    assert(front[j] == y);
                }
                assert(t.contains(y));
            }
        }
    }
}

/// `first_occurrences` keeps exactly the ids of `ids`, never more of them.
pub proof fn lemma_first_occurrences_members(ids: Seq<Seq<char>>)
    ensures
        first_occurrences(ids).len() <= ids.len(),
        forall|y: Seq<char>| #[trigger] first_occurrences(ids).contains(y) <==> ids.contains(y),
    decreases ids.len(),
{
    if ids.len() > 0 {
        let front = ids.drop_last();
        lemma_first_occurrences_members(front);
        let f = first_occurrences(ids);
        assert forall|y: Seq<char>| #[trigger] f.contains(y) <==> ids.contains(y) by {
            if ids.contains(y) {
                let j = choose|j: int| 0 <= j < ids.len() && ids[j] == y;
                if j < front.len() {
                    assert(front[j] == y);
                    assert(first_occurrences(front).contains(y));
                    if !front.contains(ids.last()) {
                        let k = choose|k: int| 0 <= k < first_occurrences(front).len() && first_occurrences(front)[k] == y;
                        assert(f[k] == y);
                    }
                } else {
                    if front.contains(ids.last()) {
                        assert(first_occurrences(front).contains(y));
                    } else {
                        assert(f[f.len() - 1] == y);
                    }
                }
            }
            if f.contains(y) {
                let k = choose|k: int| 0 <= k < f.len() && f[k] == y;
                if front.contains(ids.last()) {
                    assert(first_occurrences(front).contains(y));
                } else if k < f.len() - 1 {
                    assert(first_occurrences(front)[k] == y);
                    assert(first_occurrences(front).contains(y));
                } else {
                    assert(ids[ids.len() - 1] == y);
                }
                if first_occurrences(front).contains(y) {
                    assert(front.contains(y));
                    let j = choose|j: int| 0 <= j < front.len() && front[j] == y;
                    assert(ids[j] == y);
                }
            }
        }
    }
}

/// Inserting into a ring without repeats keeps it without repeats, at
/// most [`SEEN_RING_CAPACITY`] long, with the inserted id newest.
pub proof fn lemma_inserted_keeps_ring_valid(s: Seq<Seq<char>>, x: Seq<char>)
    requires
        s.no_duplicates(),
    ensures
        inserted(s, x).no_duplicates(),
        inserted(s, x).len() <= SEEN_RING_CAPACITY,
        inserted(s, x).last() == x,
{
    lemma_without_first_no_duplicates(s, x);
    let w = without_first(s, x);
    let p = w.push(x);
    assert(p.no_duplicates()) by {
        assert forall|a: int, b: int| 0 <= a < p.len() && 0 <= b < p.len() && a != b implies p[a] != p[b] by {
            if a < w.len() && b < w.len() {
                assert(p[a] == w[a] && p[b] == w[b]);
            } else if a == w.len() {
                assert(p[b] == w[b]);
                assert(w.contains(w[b]));
            } else {
                assert(p[a] == w[a]);
                assert(w.contains(w[a]));
            }
        }
    }
    let k = keep_newest(p);
    if p.len() > SEEN_RING_CAPACITY {
        assert forall|a: int, b: int| 0 <= a < k.len() && 0 <= b < k.len() && a != b implies k[a] != k[b] by {
            let off = p.len() - SEEN_RING_CAPACITY;
            assert(k[a] == p[a + off] && k[b] == p[b + off]);
        }
    }
}

/// Whether `id` is in `ring`.
pub fn contains(ring: &SeenRing, id: &str) -> (b: bool)
    ensures
        b == ring_ids(*ring).contains(id@),
{
    let target = String::from_str(id);
    let ghost ids = ring_ids(*ring);
    let mut i: usize = 0;
    while i < ring.0.len()
        invariant
            ids == ring_ids(*ring),
            target@ == id@,
            i <= ring.0@.len(),
            forall|j: int| 0 <= j < i ==> ids[j] != id@,
        decreases ring.0@.len() - i,
    {
        if ring.0[i] == target {
            assert(ids[i as int] == id@);
            return true;
        }
        i = i + 1;
    }
    assert(!ids.contains(id@)) by {
        if ids.contains(id@) {
            let j = choose|j: int| 0 <= j < ids.len() && ids[j] == id@;
            assert(ids[j] != id@);
        }
    }
    false
}

/// Inserts `id` into `ring`: an id already present is moved to the back,
/// a new one appended at the back; then the oldest ids are evicted until
/// at most [`SEEN_RING_CAPACITY`] remain.
pub fn insert(ring: &mut SeenRing, id: &str)
    ensures
        ring_ids(*final(ring)) == inserted(ring_ids(*old(ring)), id@),
        final(ring).0@.len() <= SEEN_RING_CAPACITY,
{
    let target = String::from_str(id);
    let ghost s = ring_ids(*ring);
    match position(ring, &target) {
        Some(p) => {
            proof {
                lemma_without_first_at(s, id@, p as int);
            }
            let ghost before = ring.0@;
            ring.0.remove(p);
            assert(ring_ids(*ring) =~= s.remove(p as int)) by {
                assert(ring.0@ =~= before.remove(p as int));
            }
        },
        None => {
            proof {
                lemma_without_first_absent(s, id@);
            }
        },
    }
    let ghost w = ring_ids(*ring);
    ring.0.push_back(target);
    let ghost t = w.push(id@);
    assert(ring_ids(*ring) =~= t);
    evict_oldest(ring, Ghost(t));
}

/// The index of the first `target` in `ring`, if any.
fn position(ring: &SeenRing, target: &String) -> (r: Option<usize>)
    ensures
        r matches Some(p) ==> p < ring_ids(*ring).len() && ring_ids(*ring)[p as int] == target@ && forall|j: int|
            0 <= j < p ==> ring_ids(*ring)[j] != target@,
        r is None ==> !ring_ids(*ring).contains(target@),
{
    let ghost s = ring_ids(*ring);
    let mut i: usize = 0;
    while i < ring.0.len()
        invariant
            s == ring_ids(*ring),
            i <= ring.0@.len(),
            forall|j: int| 0 <= j < i ==> s[j] != target@,
        decreases ring.0@.len() - i,
    {
        if ring.0[i] == *target {
            return Some(i);
        }
        i = i + 1;
    }
    assert(!s.contains(target@)) by {
        if s.contains(target@) {
            let j = choose|j: int| 0 <= j < s.len() && s[j] == target@;
            assert(s[j] != target@);
        }
    }
    None
}

/// Drops the oldest ids of `ring` (whose ids are `t`) until at most
/// [`SEEN_RING_CAPACITY`] remain.
fn evict_oldest(ring: &mut SeenRing, Ghost(t): Ghost<Seq<Seq<char>>>)
    requires
        ring_ids(*old(ring)) == t,
    ensures
        ring_ids(*final(ring)) == keep_newest(t),
        final(ring).0@.len() <= SEEN_RING_CAPACITY,
{
    let ghost mut k: int = 0;
    while ring.0.len() > SEEN_RING_CAPACITY
        invariant
            0 <= k <= t.len(),
            ring.0@.len() == t.len() - k,
            ring_ids(*ring) == t.skip(k),
            k == 0 || t.len() - k >= SEEN_RING_CAPACITY,
        decreases ring.0@.len(),
    {
        let ghost before = ring.0@;
        ring.0.pop_front();
        proof {
            assert(ring.0@ =~= before.skip(1));
            assert(before.map_values(|s: String| s@) == t.skip(k));
            assert(ring_ids(*ring) =~= before.map_values(|s: String| s@).skip(1));
            assert(t.skip(k + 1) =~= t.skip(k).skip(1));
            k = k + 1;
        }
    }
    assert(ring_ids(*ring) =~= keep_newest(t));
}

/// Inserts each of `ids` in order, a repeated id only at its first
/// occurrence.
pub fn insert_all(ring: &mut SeenRing, ids: &[&str])
    ensures
        ring_ids(*final(ring)) == inserted_all(
            ring_ids(*old(ring)),
            first_occurrences(ids@.map_values(|s: &str| s@)),
        ),
        final(ring).0@.len() <= SEEN_RING_CAPACITY || (ids@.len() == 0 && *final(ring) == *old(ring)),
{
    let ghost all = ids@.map_values(|s: &str| s@);
    let ghost start = ring_ids(*ring);
    let mut i: usize = 0;
    while i < ids.len()
        invariant
            all == ids@.map_values(|s: &str| s@),
            i <= ids@.len(),
            ring_ids(*ring) == inserted_all(start, first_occurrences(all.take(i as int))),
            i > 0 ==> ring.0@.len() <= SEEN_RING_CAPACITY,
            i == 0 ==> *ring == *old(ring),
        decreases ids@.len() - i,
    {
        let id = ids[i];
        let mut repeated = false;
        let mut j: usize = 0;
        while j < i
            invariant
                all == ids@.map_values(|s: &str| s@),
                i < ids@.len(),
                j <= i,
                id@ == all[i as int],
                repeated == exists|a: int| 0 <= a < j && all[a] == all[i as int],
            decreases i - j,
        {
            let a = String::from_str(ids[j]);
            let b = String::from_str(id);
            let same = a == b;
            proof {
                assert(all[j as int] == ids@[j as int]@);
                if same {
                    assert(0 <= j < j + 1 && all[j as int] == all[i as int]);
                } else {
                    assert forall|x: int| 0 <= x < j + 1 && all[x] == all[i as int] implies 0 <= x < j by {}
                }
            }
            if same {
                repeated = true;
            }
            j = j + 1;
        }
        proof {
            let pre = all.take(i as int);
            let next = all.take(i + 1);
            assert(next.drop_last() =~= pre);
            assert(next.last() == all[i as int]);
            assert(repeated == pre.contains(all[i as int])) by {
                if repeated {
                    let a = choose|a: int| 0 <= a < i && all[a] == all[i as int];
                    assert(pre[a] == all[i as int]);
                }
                if pre.contains(all[i as int]) {
                    let a = choose|a: int| 0 <= a < pre.len() && pre[a] == all[i as int];
                    assert(all[a] == all[i as int]);
                }
            }
            if !repeated {
                let f = first_occurrences(pre).push(all[i as int]);
                assert(f.drop_last() =~= first_occurrences(pre));
            }
        }
        if !repeated {
            insert(ring, id);
        }
        i = i + 1;
    }
    assert(all.take(ids@.len() as int) =~= all);
}

} // verus!
