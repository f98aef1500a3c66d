//! Filtering sequences, and maps whose values are sequences, with the
//! facts the membership proofs rest on.

use vstd::prelude::*;

verus! {

broadcast use vstd::seq_lib::group_filter_ensures;

/// Filtering by two predicates that agree on every element gives the same
/// sequence.
pub proof fn lemma_filter_agree<A>(s: Seq<A>, p: spec_fn(A) -> bool, q: spec_fn(A) -> bool)
    requires
        forall|i: int| 0 <= i < s.len() ==> p(#[trigger] s[i]) == q(s[i]),
    ensures
        s.filter(p) == s.filter(q),
    decreases s.len(),
{
    reveal(Seq::filter);
    if s.len() > 0 {
        let d = s.drop_last();
        assert forall|i: int| 0 <= i < d.len() implies p(#[trigger] d[i]) == q(d[i]) by {
            assert(d[i] == s[i]);
        }
        lemma_filter_agree(d, p, q);
        assert(s.last() == s[s.len() - 1]);
    }
}

/// Filtering by a predicate that every element satisfies changes nothing.
pub proof fn lemma_filter_all<A>(s: Seq<A>, p: spec_fn(A) -> bool)
    requires
        forall|i: int| 0 <= i < s.len() ==> p(#[trigger] s[i]),
    ensures
        s.filter(p) == s,
    decreases s.len(),
{
    reveal(Seq::filter);
    if s.len() > 0 {
        let d = s.drop_last();
        assert forall|i: int| 0 <= i < d.len() implies p(#[trigger] d[i]) by {
            assert(d[i] == s[i]);
        }
        lemma_filter_all(d, p);
        assert(s.last() == s[s.len() - 1]);
        assert(d.push(s.last()) =~= s);
    }
}

/// Filtering twice is filtering once by both predicates.
pub proof fn lemma_filter_twice<A>(s: Seq<A>, p: spec_fn(A) -> bool, q: spec_fn(A) -> bool)
    ensures
        s.filter(p).filter(q) == s.filter(|x: A| p(x) && q(x)),
    decreases s.len(),
{
    reveal(Seq::filter);
    if s.len() > 0 {
        let d = s.drop_last();
        lemma_filter_twice(d, p, q);
        d.lemma_filter_push(s.last(), p);
        d.filter(p).lemma_filter_push(s.last(), q);
    }
}

/// Each list filtered by `keep` (which sees the list's key), with the lists
/// that become empty dropped.
pub open spec fn drop_entries<A>(x: Map<Seq<char>, Seq<A>>, keep: spec_fn(Seq<char>, A) -> bool) -> Map<
    Seq<char>,
    Seq<A>,
> {
    Map::new(
        |k: Seq<char>| x.contains_key(k) && x[k].filter(|a: A| keep(k, a)).len() > 0,
        |k: Seq<char>| x[k].filter(|a: A| keep(k, a)),
    )
}

/// No list of the map is empty.
pub open spec fn lists_nonempty<A>(x: Map<Seq<char>, Seq<A>>) -> bool {
    forall|k: Seq<char>| #[trigger] x.contains_key(k) ==> x[k].len() > 0
}

/// The lists of `drop_entries` are never empty.
pub proof fn lemma_drop_nonempty<A>(x: Map<Seq<char>, Seq<A>>, keep: spec_fn(Seq<char>, A) -> bool)
    ensures
        lists_nonempty(drop_entries(x, keep)),
{
}

/// Dropping by two predicates in turn is dropping by both at once.
pub proof fn lemma_drop_twice<A>(
    x: Map<Seq<char>, Seq<A>>,
    k1: spec_fn(Seq<char>, A) -> bool,
    k2: spec_fn(Seq<char>, A) -> bool,
)
    ensures
        drop_entries(drop_entries(x, k1), k2) == drop_entries(x, |k: Seq<char>, a: A| k1(k, a) && k2(k, a)),
{
    let y = drop_entries(x, k1);
    let lhs = drop_entries(y, k2);
    let k12 = |k: Seq<char>, a: A| k1(k, a) && k2(k, a);
    let rhs = drop_entries(x, k12);
    assert forall|k: Seq<char>| #[trigger] x.contains_key(k) implies x[k].filter(|a: A| k1(k, a)).filter(
        |a: A| k2(k, a),
    ) == x[k].filter(|a: A| k12(k, a)) by {
        lemma_filter_twice(x[k], |a: A| k1(k, a), |a: A| k2(k, a));
        lemma_filter_agree(
            x[k],
            |a: A| (|a: A| k1(k, a))(a) && (|a: A| k2(k, a))(a),
            |a: A| k12(k, a),
        );
    }
    assert forall|k: Seq<char>| #[trigger] lhs.contains_key(k) <==> rhs.contains_key(k) by {
        if x.contains_key(k) {
            let f1 = x[k].filter(|a: A| k1(k, a));
            if f1.len() == 0 {
                f1.lemma_filter_len(|a: A| k2(k, a));
            }
        }
    }
    assert forall|k: Seq<char>| #[trigger] lhs.contains_key(k) implies lhs[k] == rhs[k] by {}
    assert(lhs =~= rhs);
}

/// Dropping by predicates that agree on every listed element gives the same
/// map.
pub proof fn lemma_drop_agree<A>(
    x: Map<Seq<char>, Seq<A>>,
    k1: spec_fn(Seq<char>, A) -> bool,
    k2: spec_fn(Seq<char>, A) -> bool,
)
    requires
        forall|k: Seq<char>, i: int|
            x.contains_key(k) && 0 <= i < x[k].len() ==> k1(k, #[trigger] x[k][i]) == k2(k, x[k][i]),
    ensures
        drop_entries(x, k1) == drop_entries(x, k2),
{
    assert forall|k: Seq<char>| #[trigger] x.contains_key(k) implies x[k].filter(|a: A| k1(k, a))
        == x[k].filter(|a: A| k2(k, a)) by {
        assert forall|i: int| 0 <= i < x[k].len() implies (|a: A| k1(k, a))(#[trigger] x[k][i]) == (
        |a: A| k2(k, a))(x[k][i]) by {}
        lemma_filter_agree(x[k], |a: A| k1(k, a), |a: A| k2(k, a));
    }
    assert(drop_entries(x, k1) =~= drop_entries(x, k2));
}

/// Dropping nothing from non-empty lists changes nothing.
pub proof fn lemma_drop_none<A>(x: Map<Seq<char>, Seq<A>>, keep: spec_fn(Seq<char>, A) -> bool)
    requires
        lists_nonempty(x),
        forall|k: Seq<char>, i: int| x.contains_key(k) && 0 <= i < x[k].len() ==> keep(k, #[trigger] x[k][i]),
    ensures
        drop_entries(x, keep) == x,
{
    assert forall|k: Seq<char>| #[trigger] x.contains_key(k) implies x[k].filter(|a: A| keep(k, a)) == x[k] by {
        assert forall|i: int| 0 <= i < x[k].len() implies (|a: A| keep(k, a))(#[trigger] x[k][i]) by {}
        lemma_filter_all(x[k], |a: A| keep(k, a));
    }
    assert(drop_entries(x, keep) =~= x);
}

/// Filtering the list of one key, and dropping it if it empties, is
/// dropping by a predicate that keeps everything under the other keys.
pub proof fn lemma_drop_one<A>(
    x: Map<Seq<char>, Seq<A>>,
    key: Seq<char>,
    p: spec_fn(A) -> bool,
    keep: spec_fn(Seq<char>, A) -> bool,
)
    requires
        lists_nonempty(x),
        forall|a: A| #[trigger] keep(key, a) == p(a),
        forall|k: Seq<char>, a: A| k != key ==> #[trigger] keep(k, a),
    ensures
        (if x.contains_key(key) {
            let f = x[key].filter(p);
            if f.len() == 0 {
                x.remove(key)
            } else {
                x.insert(key, f)
            }
        } else {
            x
        }) == drop_entries(x, keep),
{
    let d = drop_entries(x, keep);
    assert forall|k: Seq<char>| #[trigger] x.contains_key(k) && k != key implies x[k].filter(
        |a: A| keep(k, a),
    ) == x[k] by {
        assert forall|i: int| 0 <= i < x[k].len() implies (|a: A| keep(k, a))(#[trigger] x[k][i]) by {}
        lemma_filter_all(x[k], |a: A| keep(k, a));
    }
    if x.contains_key(key) {
        lemma_filter_agree(x[key], |a: A| keep(key, a), p);
        let f = x[key].filter(p);
        if f.len() == 0 {
            assert(x.remove(key) =~= d);
        } else {
            assert(x.insert(key, f) =~= d);
        }
    } else {
        assert(x =~= d);
    }
}

} // verus!
