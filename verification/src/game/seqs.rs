//! First matches, counts and filters on sequences.
use vstd::prelude::*;

verus! {

/// Index of the first element of `s` at or after `from` that satisfies
/// `pred`, if there is one.
pub open spec fn first_from<A>(s: Seq<A>, pred: spec_fn(A) -> bool, from: int) -> Option<int>
    decreases s.len() - from,
{
    if from < 0 || from >= s.len() {
        None
    } else if pred(s[from]) {
        Some(from)
    } else {
        first_from(s, pred, from + 1)
    }
}

/// Index of the first element of `s` that satisfies `pred`, if there is one.
pub open spec fn first_index<A>(s: Seq<A>, pred: spec_fn(A) -> bool) -> Option<int> {
    first_from(s, pred, 0)
}

/// Number of elements of `s` that satisfy `pred`.
pub open spec fn count<A>(s: Seq<A>, pred: spec_fn(A) -> bool) -> nat
    decreases s.len(),
{
    if s.len() == 0 {
        0
    } else {
        count(s.drop_last(), pred) + if pred(s.last()) {
            1nat
        } else {
            0nat
        }
    }
}

/// The elements of `s` that satisfy `pred`, in their order.
pub open spec fn keep<A>(s: Seq<A>, pred: spec_fn(A) -> bool) -> Seq<A>
    decreases s.len(),
{
    if s.len() == 0 {
        s
    } else if pred(s.last()) {
        keep(s.drop_last(), pred).push(s.last())
    } else {
        keep(s.drop_last(), pred)
    }
}

pub proof fn lemma_first_from<A>(s: Seq<A>, pred: spec_fn(A) -> bool, from: int)
    requires
        0 <= from,
    ensures
        match first_from(s, pred, from) {
            Some(i) => from <= i < s.len() && pred(s[i]) && forall|j: int|
                from <= j < i ==> !pred(#[trigger] s[j]),
            None => forall|j: int| from <= j < s.len() ==> !pred(#[trigger] s[j]),
        },
    decreases s.len() - from,
{
    if from < s.len() && !pred(s[from]) {
        lemma_first_from(s, pred, from + 1);
    }
}

/// `first_index` finds the first match, and finds none only where none is.
pub proof fn lemma_first_index<A>(s: Seq<A>, pred: spec_fn(A) -> bool)
    ensures
        match first_index(s, pred) {
            Some(i) => 0 <= i < s.len() && pred(s[i]) && forall|j: int|
                0 <= j < i ==> !pred(#[trigger] s[j]),
            None => forall|j: int| 0 <= j < s.len() ==> !pred(#[trigger] s[j]),
        },
{
    lemma_first_from(s, pred, 0);
}

pub proof fn lemma_count_push<A>(s: Seq<A>, pred: spec_fn(A) -> bool, a: A)
    ensures
        count(s.push(a), pred) == count(s, pred) + if pred(a) {
            1nat
        } else {
            0nat
        },
{
    assert(s.push(a).drop_last() =~= s);
}

pub proof fn lemma_count_bounds<A>(s: Seq<A>, pred: spec_fn(A) -> bool)
    ensures
        count(s, pred) <= s.len(),
        count(s, pred) == 0 <==> forall|j: int| 0 <= j < s.len() ==> !pred(#[trigger] s[j]),
    decreases s.len(),
{
    if s.len() > 0 {
        lemma_count_bounds(s.drop_last(), pred);
        if count(s, pred) == 0 {
            assert forall|j: int| 0 <= j < s.len() implies !pred(#[trigger] s[j]) by {
                if j < s.len() - 1 {
                    assert(s.drop_last()[j] == s[j]);
                }
            }
        } else if forall|j: int| 0 <= j < s.len() ==> !pred(#[trigger] s[j]) {
            assert forall|j: int| 0 <= j < s.drop_last().len() implies !pred(
                #[trigger] s.drop_last()[j],
            ) by {
                assert(s.drop_last()[j] == s[j]);
            }
        }
    }
}

/// Counting over the first `n + 1` elements adds the `n`-th to the count
/// over the first `n`.
pub proof fn lemma_count_take<A>(s: Seq<A>, pred: spec_fn(A) -> bool, n: int)
    requires
        0 <= n < s.len(),
    ensures
        count(s.take(n + 1), pred) == count(s.take(n), pred) + if pred(s[n]) {
            1nat
        } else {
            0nat
        },
{
    assert(s.take(n + 1).drop_last() =~= s.take(n));
}

/// Two sequences whose elements agree on `pred` place by place count the
/// same.
pub proof fn lemma_count_alike<A>(s: Seq<A>, t: Seq<A>, pred: spec_fn(A) -> bool)
    requires
        s.len() == t.len(),
        forall|j: int| 0 <= j < s.len() ==> pred(#[trigger] s[j]) == pred(t[j]),
    ensures
        count(s, pred) == count(t, pred),
    decreases s.len(),
{
    if s.len() > 0 {
        assert forall|j: int| 0 <= j < s.drop_last().len() implies pred(
            #[trigger] s.drop_last()[j],
        ) == pred(t.drop_last()[j]) by {
            assert(s.drop_last()[j] == s[j] && t.drop_last()[j] == t[j]);
        }
        lemma_count_alike(s.drop_last(), t.drop_last(), pred);
    }
}

/// A predicate that holds only where another holds counts no more than it.
pub proof fn lemma_count_implies<A>(s: Seq<A>, p: spec_fn(A) -> bool, q: spec_fn(A) -> bool)
    requires
        forall|j: int| 0 <= j < s.len() ==> p(#[trigger] s[j]) ==> q(s[j]),
    ensures
        count(s, p) <= count(s, q),
    decreases s.len(),
{
    if s.len() > 0 {
        assert forall|j: int| 0 <= j < s.drop_last().len() && p(
            #[trigger] s.drop_last()[j],
        ) implies q(s.drop_last()[j]) by {
            assert(s.drop_last()[j] == s[j]);
        }
        lemma_count_implies(s.drop_last(), p, q);
    }
}

/// Where no element satisfies both `p` and `q`, and `either` holds exactly
/// where one of them does, `either` counts what the two count together.
pub proof fn lemma_count_disjoint<A>(
    s: Seq<A>,
    p: spec_fn(A) -> bool,
    q: spec_fn(A) -> bool,
    either: spec_fn(A) -> bool,
)
    requires
        forall|j: int| 0 <= j < s.len() ==> !(p(#[trigger] s[j]) && q(s[j])),
        forall|j: int| 0 <= j < s.len() ==> either(#[trigger] s[j]) == (p(s[j]) || q(s[j])),
    ensures
        count(s, either) == count(s, p) + count(s, q),
    decreases s.len(),
{
    if s.len() > 0 {
        let front = s.drop_last();
        assert forall|j: int| 0 <= j < front.len() implies !(p(#[trigger] front[j]) && q(front[j])) by {
            assert(front[j] == s[j]);
        }
        assert forall|j: int| 0 <= j < front.len() implies either(#[trigger] front[j]) == (p(
            front[j],
        ) || q(front[j])) by {
            assert(front[j] == s[j]);
        }
        lemma_count_disjoint(front, p, q, either);
    }
}

/// Every element that `keep` keeps satisfies `pred` and comes from `s`, and
/// `keep` keeps as many as `count` counts.
pub proof fn lemma_keep<A>(s: Seq<A>, pred: spec_fn(A) -> bool)
    ensures
        keep(s, pred).len() == count(s, pred),
        forall|k: int|
            0 <= k < keep(s, pred).len() ==> pred(#[trigger] keep(s, pred)[k]) && s.contains(
                keep(s, pred)[k],
            ),
    decreases s.len(),
{
    if s.len() > 0 {
        lemma_keep(s.drop_last(), pred);
        let inner = keep(s.drop_last(), pred);
        assert forall|k: int| 0 <= k < keep(s, pred).len() implies pred(
            #[trigger] keep(s, pred)[k],
        ) && s.contains(keep(s, pred)[k]) by {
            if k < inner.len() {
                let w = choose|w: int| 0 <= w < s.drop_last().len() && s.drop_last()[w] == inner[k];
                assert(s[w] == inner[k]);
            } else {
                assert(keep(s, pred)[k] == s.last());
            }
        }
    }
}

/// Where every element satisfies `pred`, `keep` keeps the whole sequence.
pub proof fn lemma_keep_all<A>(s: Seq<A>, pred: spec_fn(A) -> bool)
    requires
        forall|j: int| 0 <= j < s.len() ==> pred(#[trigger] s[j]),
    ensures
        keep(s, pred) == s,
    decreases s.len(),
{
    if s.len() > 0 {
        assert forall|j: int| 0 <= j < s.drop_last().len() implies pred(
            #[trigger] s.drop_last()[j],
        ) by {
            assert(s.drop_last()[j] == s[j]);
        }
        lemma_keep_all(s.drop_last(), pred);
    }
}

/// Taking out an element that does not satisfy `pred` changes nothing of
/// what `keep` keeps.
pub proof fn lemma_keep_remove<A>(s: Seq<A>, pred: spec_fn(A) -> bool, i: int)
    requires
        0 <= i < s.len(),
        !pred(s[i]),
    ensures
        keep(s.remove(i), pred) == keep(s, pred),
    decreases s.len(),
{
    if i == s.len() - 1 {
        assert(s.remove(i) =~= s.drop_last());
    } else {
        lemma_keep_remove(s.drop_last(), pred, i);
        assert(s.remove(i).drop_last() =~= s.drop_last().remove(i));
    }
}

} // verus!
