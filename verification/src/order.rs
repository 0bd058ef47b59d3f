//! Lexicographic order on identifier text (the order `String`'s `Ord`
//! gives for these ASCII identifiers), and sorting ids by it.

use vstd::prelude::*;

use crate::config::ServiceId;

verus! {

/// `a` sorts strictly before `b`: lexicographic order on characters, a
/// proper prefix first.
pub open spec fn seq_lt(a: Seq<char>, b: Seq<char>) -> bool
    decreases a.len(),
{
    if b.len() == 0 {
        false
    } else if a.len() == 0 {
        true
    } else if a[0] != b[0] {
        a[0] < b[0]
    } else {
        seq_lt(a.drop_first(), b.drop_first())
    }
}

/// `s` is in strictly increasing order.
pub open spec fn sorted_strict(s: Seq<Seq<char>>) -> bool {
    forall|i: int, j: int| 0 <= i < j < s.len() ==> seq_lt(#[trigger] s[i], #[trigger] s[j])
}

/// Nothing sorts before itself.
pub proof fn lemma_lt_irreflexive(a: Seq<char>)
    ensures
        !seq_lt(a, a),
    decreases a.len(),
{
    if a.len() > 0 {
        lemma_lt_irreflexive(a.drop_first());
    }
}

/// The order is transitive.
pub proof fn lemma_lt_transitive(a: Seq<char>, b: Seq<char>, c: Seq<char>)
    requires
        seq_lt(a, b),
        seq_lt(b, c),
    ensures
        seq_lt(a, c),
    decreases a.len(),
{
    if a.len() > 0 && b.len() > 0 && c.len() > 0 && a[0] == b[0] && b[0] == c[0] {
        lemma_lt_transitive(a.drop_first(), b.drop_first(), c.drop_first());
    }
}

/// Two different texts are ordered one way or the other.
pub proof fn lemma_lt_total(a: Seq<char>, b: Seq<char>)
    requires
        a != b,
    ensures
        seq_lt(a, b) || seq_lt(b, a),
    decreases a.len(),
{
    if a.len() > 0 && b.len() > 0 && a[0] == b[0] {
        if a.drop_first() == b.drop_first() {
            assert(a =~= seq![a[0]] + a.drop_first());
            assert(b =~= seq![b[0]] + b.drop_first());
        }
        lemma_lt_total(a.drop_first(), b.drop_first());
    } else if a.len() > 0 && b.len() > 0 {
    } else if a.len() == 0 && b.len() == 0 {
        assert(a =~= b);
    }
}

proof fn lemma_lt_common_prefix(a: Seq<char>, b: Seq<char>, i: int)
    requires
        0 <= i <= a.len(),
        i <= b.len(),
        forall|j: int| 0 <= j < i ==> a[j] == b[j],
    ensures
        seq_lt(a, b) == seq_lt(a.skip(i), b.skip(i)),
    decreases i,
{
    if i > 0 {
        assert(a.drop_first().skip(i - 1) =~= a.skip(i));
        assert(b.drop_first().skip(i - 1) =~= b.skip(i));
        lemma_lt_common_prefix(a.drop_first(), b.drop_first(), i - 1);
    } else {
        assert(a.skip(0) =~= a);
        assert(b.skip(0) =~= b);
    }
}

/// Whether `a` sorts strictly before `b`.
pub fn id_lt(a: &ServiceId, b: &ServiceId) -> (r: bool)
    ensures
        r == seq_lt(a@, b@),
{
    let x = crate::text::to_chars(a.as_str());
    let y = crate::text::to_chars(b.as_str());
    let mut i: usize = 0;
    while i < x.len() && i < y.len()
        invariant
            x@ == a@,
            y@ == b@,
            i <= x@.len(),
            i <= y@.len(),
            forall|j: int| 0 <= j < i ==> x@[j] == y@[j],
        decreases x.len() - i,
    {
        if x[i] != y[i] {
            proof {
                lemma_lt_common_prefix(x@, y@, i as int);
                assert(x@.skip(i as int)[0] == x@[i as int]);
                assert(y@.skip(i as int)[0] == y@[i as int]);
            }
            return x[i] < y[i];
        }
        i = i + 1;
    }
    proof {
        lemma_lt_common_prefix(x@, y@, i as int);
    }
    i < y.len()
}

/// The texts of `ids`, in order.
pub open spec fn id_texts(ids: Seq<ServiceId>) -> Seq<Seq<char>> {
    ids.map_values(|id: ServiceId| id@)
}

/// `ids` in strictly increasing order. Requires the ids to be distinct;
/// the result holds exactly the same ids.
pub fn sort_ids(ids: Vec<ServiceId>) -> (out: Vec<ServiceId>)
    requires
        id_texts(ids@).no_duplicates(),
    ensures
        sorted_strict(id_texts(out@)),
        id_texts(out@).to_set() == id_texts(ids@).to_set(),
        out@.len() == ids@.len(),
{
    let mut out: Vec<ServiceId> = Vec::new();
    let mut i: usize = 0;
    while i < ids.len()
        invariant
            i <= ids@.len(),
            id_texts(ids@).no_duplicates(),
            sorted_strict(id_texts(out@)),
            id_texts(out@).to_set() == id_texts(ids@).take(i as int).to_set(),
            out@.len() == i,
        decreases ids.len() - i,
    {
        let x = ids[i].clone();
        let ghost xs = id_texts(out@);
        let ghost key = x@;
        assert(id_texts(ids@).take(i + 1) =~= id_texts(ids@).take(i as int).push(key));
        assert(!xs.contains(key)) by {
            if xs.contains(key) {
                let j = choose|j: int| 0 <= j < xs.len() && xs[j] == key;
                assert(xs.to_set().contains(key));
                assert(id_texts(ids@).take(i as int).to_set().contains(key));
                let k = choose|k: int|
                    0 <= k < id_texts(ids@).take(i as int).len() && id_texts(ids@).take(
                        i as int,
                    )[k] == key;
                assert(id_texts(ids@)[k] == id_texts(ids@)[i as int]);
            }
        }
        let mut p: usize = 0;
        while p < out.len() && !id_lt(&x, &out[p])
            invariant
                p <= out@.len(),
                xs == id_texts(out@),
                !xs.contains(key),
                key == x@,
                forall|j: int| 0 <= j < p ==> seq_lt(#[trigger] xs[j], key),
            decreases out.len() - p,
        {
            proof {
                assert(xs[p as int] != key);
                lemma_lt_total(key, xs[p as int]);
            }
            p = p + 1;
        }
        out.insert(p, x);
        proof {
            let ys = id_texts(out@);
            assert(ys =~= xs.insert(p as int, key));
            assert forall|a: int, b: int| 0 <= a < b < ys.len() implies seq_lt(
                #[trigger] ys[a],
                #[trigger] ys[b],
            ) by {
                if b < p {
                    assert(ys[a] == xs[a] && ys[b] == xs[b]);
                } else if b == p {
                    assert(ys[a] == xs[a]);
                } else if a == p {
                    assert(ys[b] == xs[b - 1]);
                    if b - 1 > p {
                        assert(seq_lt(xs[p as int], xs[b - 1]));
                        lemma_lt_transitive(key, xs[p as int], xs[b - 1]);
                    }
                } else if a < p {
                    assert(ys[a] == xs[a] && ys[b] == xs[b - 1]);
                } else {
                    assert(ys[a] == xs[a - 1] && ys[b] == xs[b - 1]);
                }
            }
            assert(ys.to_set() =~= xs.to_set().insert(key)) by {
                assert forall|k: Seq<char>| ys.to_set().contains(k) <==> xs.to_set().insert(
                    key,
                ).contains(k) by {
                    if ys.contains(k) {
                        let a = choose|a: int| 0 <= a < ys.len() && ys[a] == k;
                        if a < p {
                            assert(xs[a] == k);
                        } else if a > p {
                            assert(xs[a - 1] == k);
                        }
                    }
                    if xs.contains(k) {
                        let a = choose|a: int| 0 <= a < xs.len() && xs[a] == k;
                        if a < p {
                            assert(ys[a] == k);
                        } else {
                            assert(ys[a + 1] == k);
                        }
                    }
                    if k == key {
                        assert(ys[p as int] == k);
                    }
                }
            }
            id_texts(ids@).take(i as int).lemma_push_to_set_commute(key);
        }
        i = i + 1;
    }
    assert(id_texts(ids@).take(ids@.len() as int) =~= id_texts(ids@));
    out
}

} // verus!
