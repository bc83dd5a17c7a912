//! Facts about filtered sequences, as the stores need them.

use vstd::prelude::*;

verus! {

/// Filtering keeps everything when every item passes.
pub proof fn lemma_filter_keeps_all<T>(s: Seq<T>, p: spec_fn(T) -> bool)
    requires
        forall|j: int| 0 <= j < s.len() ==> p(#[trigger] s[j]),
    ensures
        s.filter(p) == s,
    decreases s.len(),
{
    reveal(Seq::filter);
    if s.len() > 0 {
        lemma_filter_keeps_all(s.drop_last(), p);
        assert(s.drop_last().push(s.last()) =~= s);
    }
}

/// Where filtering leaves nothing, no item passes.
pub proof fn lemma_filter_empty<T>(s: Seq<T>, p: spec_fn(T) -> bool)
    requires
        s.filter(p).len() == 0,
    ensures
        forall|j: int| 0 <= j < s.len() ==> !p(#[trigger] s[j]),
    decreases s.len(),
{
    reveal(Seq::filter);
    if s.len() > 0 {
        lemma_filter_empty(s.drop_last(), p);
        assert forall|j: int| 0 <= j < s.len() implies !p(#[trigger] s[j]) by {
            if j < s.len() - 1 {
                assert(s.drop_last()[j] == s[j]);
            }
        }
    }
}

/// Filtering removes exactly the one item that does not pass.
pub proof fn lemma_filter_removes_one<T>(s: Seq<T>, p: spec_fn(T) -> bool, i: int)
    requires
        0 <= i < s.len(),
        !p(s[i]),
        forall|j: int| 0 <= j < s.len() && j != i ==> p(#[trigger] s[j]),
    ensures
        s.filter(p) == s.remove(i),
    decreases s.len(),
{
    reveal(Seq::filter);
    if i == s.len() - 1 {
        lemma_filter_keeps_all(s.drop_last(), p);
        assert(s.remove(i) =~= s.drop_last());
    } else {
        lemma_filter_removes_one(s.drop_last(), p, i);
        assert(s.drop_last().remove(i).push(s.last()) =~= s.remove(i));
    }
}

/// Whether `at` lists, in rising order, the places in `full` of the items
/// of `sub`.
pub open spec fn picks<T>(sub: Seq<T>, full: Seq<T>, at: Seq<int>) -> bool {
    &&& at.len() == sub.len()
    &&& forall|j: int| 0 <= j < sub.len() ==> 0 <= #[trigger] at[j] < full.len() && sub[j] == full[at[j]]
    &&& forall|j: int, k: int| 0 <= j < k < sub.len() ==> #[trigger] at[j] < #[trigger] at[k]
}

/// A filtered sequence holds items of the sequence it was made from, in
/// their order.
pub proof fn lemma_filter_picks<T>(s: Seq<T>, p: spec_fn(T) -> bool) -> (at: Seq<int>)
    ensures
        picks(s.filter(p), s, at),
        forall|j: int| 0 <= j < at.len() ==> p(#[trigger] s[at[j]]),
    decreases s.len(),
{
    reveal(Seq::filter);
    if s.len() == 0 {
        Seq::empty()
    } else {
        let before = lemma_filter_picks(s.drop_last(), p);
        if p(s.last()) {
            let at = before.push(s.len() - 1);
            assert forall|j: int| 0 <= j < s.filter(p).len() implies 0 <= #[trigger] at[j] < s.len()
                && s.filter(p)[j] == s[at[j]] by {
                if j < before.len() {
                    assert(at[j] == before[j]);
                    assert(s.drop_last().filter(p)[j] == s.drop_last()[before[j]]);
                }
            }
            assert forall|j: int, k: int| 0 <= j < k < s.filter(p).len() implies #[trigger] at[j]
                < #[trigger] at[k] by {
                if k < before.len() {
                    assert(at[j] == before[j] && at[k] == before[k]);
                } else {
                    assert(at[j] == before[j]);
                }
            }
            assert forall|j: int| 0 <= j < at.len() implies p(#[trigger] s[at[j]]) by {
                if j < before.len() {
                    assert(at[j] == before[j]);
                    assert(s.drop_last()[before[j]] == s[before[j]]);
                }
            }
            at
        } else {
            assert forall|j: int| 0 <= j < before.len() implies p(#[trigger] s[before[j]]) by {
                assert(s.drop_last()[before[j]] == s[before[j]]);
            }
            before
        }
    }
}

/// An item passes the filter and is in the sequence exactly when it is in
/// the filtered sequence.
pub proof fn lemma_filter_members<T>(s: Seq<T>, p: spec_fn(T) -> bool, x: T)
    ensures
        s.filter(p).contains(x) <==> s.contains(x) && p(x),
    decreases s.len(),
{
    reveal(Seq::filter);
    if s.len() > 0 {
        lemma_filter_members(s.drop_last(), p, x);
        let rest = s.drop_last();
        if s.filter(p).contains(x) {
            let j = choose|j: int| 0 <= j < s.filter(p).len() && s.filter(p)[j] == x;
            if p(s.last()) && j == rest.filter(p).len() {
                assert(s[s.len() - 1] == x);
            } else {
                assert(rest.filter(p)[j] == x);
                assert(rest.contains(x));
                let i = choose|i: int| 0 <= i < rest.len() && rest[i] == x;
                assert(s[i] == x);
            }
        }
        if s.contains(x) && p(x) {
            let i = choose|i: int| 0 <= i < s.len() && s[i] == x;
            if i == s.len() - 1 {
                assert(s.filter(p)[rest.filter(p).len() as int] == x);
            } else {
                assert(rest[i] == x);
                assert(rest.contains(x));
                let j = choose|j: int| 0 <= j < rest.filter(p).len() && rest.filter(p)[j] == x;
                assert(s.filter(p)[j] == x);
            }
        }
    }
}

/// Whether every earlier item stands in the relation to every later one.
pub open spec fn paired<T>(s: Seq<T>, rel: spec_fn(T, T) -> bool) -> bool {
    forall|a: int, b: int| 0 <= a < b < s.len() ==> #[trigger] rel(s[a], s[b])
}

/// An item put in where it stands in the relation to its neighbours on
/// both sides keeps the items paired.
pub proof fn lemma_insert_keeps_paired<T>(s: Seq<T>, k: int, x: T, rel: spec_fn(T, T) -> bool)
    requires
        0 <= k <= s.len(),
        paired(s, rel),
        forall|a: int| 0 <= a < k ==> #[trigger] rel(s[a], x),
        forall|b: int| k <= b < s.len() ==> #[trigger] rel(x, s[b]),
    ensures
        paired(s.insert(k, x), rel),
{
    let after = s.insert(k, x);
    assert forall|a: int, b: int| 0 <= a < b < after.len() implies #[trigger] rel(
        after[a],
        after[b],
    ) by {
        if b < k {
            assert(rel(s[a], s[b]));
        } else if b == k {
            assert(rel(s[a], x));
        } else if a < k {
            assert(rel(s[a], s[b - 1]));
        } else if a == k {
            assert(rel(x, s[b - 1]));
        } else {
            assert(rel(s[a - 1], s[b - 1]));
        }
    }
}

/// Taking an item out keeps the items paired.
pub proof fn lemma_remove_keeps_paired<T>(s: Seq<T>, k: int, rel: spec_fn(T, T) -> bool)
    requires
        0 <= k < s.len(),
        paired(s, rel),
    ensures
        paired(s.remove(k), rel),
{
    let after = s.remove(k);
    assert forall|a: int, b: int| 0 <= a < b < after.len() implies #[trigger] rel(
        after[a],
        after[b],
    ) by {
        let a0 = if a < k { a } else { a + 1 };
        let b0 = if b < k { b } else { b + 1 };
        assert(rel(s[a0], s[b0]));
    }
}

} // verus!
