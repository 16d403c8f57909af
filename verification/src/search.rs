//! First matches, filters and prefixes of sequences.

use vstd::prelude::*;

verus! {

/// The first element of `s` that satisfies `p`.
pub open spec fn first_match<T>(s: Seq<T>, p: spec_fn(T) -> bool) -> Option<T>
    decreases s.len(),
{
    if s.len() == 0 {
        None
    } else if p(s[0]) {
        Some(s[0])
    } else {
        first_match(s.drop_first(), p)
    }
}

/// A match at `i` with none before it is the first match.
pub proof fn first_match_at<T>(s: Seq<T>, p: spec_fn(T) -> bool, i: int)
    requires
        0 <= i < s.len(),
        p(s[i]),
        forall|j: int| 0 <= j < i ==> !p(#[trigger] s[j]),
    ensures
        first_match(s, p) == Some(s[i]),
    decreases s.len(),
{
    if i > 0 {
        assert(!p(s[0]));
        let rest = s.drop_first();
        assert forall|j: int| 0 <= j < i - 1 implies !p(#[trigger] rest[j]) by {
            assert(rest[j] == s[j + 1]);
        }
        first_match_at(rest, p, i - 1);
    }
}

/// Where nothing matches there is no first match.
pub proof fn first_match_none<T>(s: Seq<T>, p: spec_fn(T) -> bool)
    requires
        forall|j: int| 0 <= j < s.len() ==> !p(#[trigger] s[j]),
    ensures
        first_match(s, p) is None,
    decreases s.len(),
{
    if s.len() > 0 {
        assert(!p(s[0]));
        let rest = s.drop_first();
        assert forall|j: int| 0 <= j < rest.len() implies !p(#[trigger] rest[j]) by {
            assert(rest[j] == s[j + 1]);
        }
        first_match_none(rest, p);
    }
}

/// A first match is an element of the sequence and satisfies the predicate;
/// without one, no element does.
pub proof fn first_match_meaning<T>(s: Seq<T>, p: spec_fn(T) -> bool)
    ensures
        first_match(s, p) matches Some(t) ==> s.contains(t) && p(t),
        first_match(s, p) is None ==> forall|j: int| 0 <= j < s.len() ==> !p(#[trigger] s[j]),
    decreases s.len(),
{
    if s.len() > 0 {
        let rest = s.drop_first();
        first_match_meaning(rest, p);
        if p(s[0]) {
            assert(s.contains(s[0]));
        } else {
            if first_match(rest, p) is Some {
                let t = first_match(rest, p)->0;
                let k = choose|k: int| 0 <= k < rest.len() && rest[k] == t;
                assert(s[k + 1] == t);
            } else {
                assert forall|j: int| 0 <= j < s.len() implies !p(#[trigger] s[j]) by {
                    if j > 0 {
                        assert(rest[j - 1] == s[j]);
                    }
                }
            }
        }
    }
}

/// The elements of `s` that satisfy `p`, in order, when one more element is
/// looked at.
pub proof fn filter_step<T>(s: Seq<T>, p: spec_fn(T) -> bool, i: int)
    requires
        0 <= i < s.len(),
    ensures
        s.take(i + 1).filter(p) == if p(s[i]) {
            s.take(i).filter(p).push(s[i])
        } else {
            s.take(i).filter(p)
        },
{
    reveal(Seq::filter);
    assert(s.take(i + 1).drop_last() =~= s.take(i));
}

/// The place of the first element of `s` that satisfies `p`.
pub open spec fn first_index<T>(s: Seq<T>, p: spec_fn(T) -> bool) -> Option<int>
    decreases s.len(),
{
    if s.len() == 0 {
        None
    } else if p(s[0]) {
        Some(0)
    } else {
        match first_index(s.drop_first(), p) {
            Some(i) => Some(i + 1),
            None => None,
        }
    }
}

/// A match at `i` with none before it is the first one.
pub proof fn first_index_at<T>(s: Seq<T>, p: spec_fn(T) -> bool, i: int)
    requires
        0 <= i < s.len(),
        p(s[i]),
        forall|j: int| 0 <= j < i ==> !p(#[trigger] s[j]),
    ensures
        first_index(s, p) == Some(i),
        first_match(s, p) == Some(s[i]),
    decreases s.len(),
{
    first_match_at(s, p, i);
    if i > 0 {
        assert(!p(s[0]));
        let rest = s.drop_first();
        assert forall|j: int| 0 <= j < i - 1 implies !p(#[trigger] rest[j]) by {
            assert(rest[j] == s[j + 1]);
        }
        first_index_at(rest, p, i - 1);
    }
}

/// Where nothing matches there is no place of a first match.
pub proof fn first_index_none<T>(s: Seq<T>, p: spec_fn(T) -> bool)
    requires
        forall|j: int| 0 <= j < s.len() ==> !p(#[trigger] s[j]),
    ensures
        first_index(s, p) is None,
        first_match(s, p) is None,
    decreases s.len(),
{
    first_match_none(s, p);
    if s.len() > 0 {
        assert(!p(s[0]));
        let rest = s.drop_first();
        assert forall|j: int| 0 <= j < rest.len() implies !p(#[trigger] rest[j]) by {
            assert(rest[j] == s[j + 1]);
        }
        first_index_none(rest, p);
    }
}

/// The place of a first match is in the sequence, holds a match, and has none
/// before it.
pub proof fn first_index_meaning<T>(s: Seq<T>, p: spec_fn(T) -> bool)
    ensures
        first_index(s, p) matches Some(i) ==> {
            &&& 0 <= i < s.len()
            &&& p(s[i])
            &&& first_match(s, p) == Some(s[i])
            &&& forall|j: int| 0 <= j < i ==> !p(#[trigger] s[j])
        },
        first_index(s, p) is None ==> {
            &&& first_match(s, p) is None
            &&& forall|j: int| 0 <= j < s.len() ==> !p(#[trigger] s[j])
        },
    decreases s.len(),
{
    if s.len() > 0 && !p(s[0]) {
        let rest = s.drop_first();
        first_index_meaning(rest, p);
        let end = match first_index(rest, p) {
            Some(i) => i + 1,
            None => s.len() as int,
        };
        assert forall|j: int| 0 <= j < end implies !p(#[trigger] s[j]) by {
            if j > 0 {
                assert(rest[j - 1] == s[j]);
            }
        }
    }
}

/// What satisfies `p` and what does not make up all of `s`.
pub proof fn filter_splits<T>(s: Seq<T>, p: spec_fn(T) -> bool)
    ensures
        s.filter(p).to_multiset().add(s.filter(|t: T| !p(t)).to_multiset()) == s.to_multiset(),
    decreases s.len(),
{
    broadcast use {
        vstd::seq_lib::group_to_multiset_ensures,
        vstd::multiset::group_multiset_axioms,
        vstd::multiset::group_multiset_properties,
    };

    reveal(Seq::filter);
    let q = |t: T| !p(t);
    if s.len() == 0 {
        assert(s.filter(p) =~= s && s.filter(q) =~= s);
        assert(s.to_multiset().add(s.to_multiset()) =~= s.to_multiset());
    } else {
        let rest = s.drop_last();
        filter_splits(rest, p);
        assert(s =~= rest.push(s.last()));
        assert(s.to_multiset() == rest.to_multiset().insert(s.last()));
        if p(s.last()) {
            assert(s.filter(p) == rest.filter(p).push(s.last()));
            assert(s.filter(q) == rest.filter(q));
        } else {
            assert(s.filter(p) == rest.filter(p));
            assert(s.filter(q) == rest.filter(q).push(s.last()));
        }
        assert(s.filter(p).to_multiset().add(s.filter(q).to_multiset()) =~= rest.filter(
            p,
        ).to_multiset().add(rest.filter(q).to_multiset()).insert(s.last()));
    }
}

/// What is left after everything that satisfies `p` was taken out holds nothing
/// that does.
pub proof fn filtered_out_is_gone<T>(s: Seq<T>, p: spec_fn(T) -> bool)
    ensures
        s.filter(|t: T| !p(t)).filter(p) == Seq::<T>::empty(),
    decreases s.len(),
{
    reveal(Seq::filter);
    if s.len() > 0 {
        filtered_out_is_gone(s.drop_last(), p);
        let q = |t: T| !p(t);
        let rest = s.drop_last().filter(q);
        if q(s.last()) {
            assert(s.filter(q).drop_last() =~= rest);
        }
    }
}

/// Two predicates that agree select the same elements.
pub proof fn same_filter<T>(s: Seq<T>, p: spec_fn(T) -> bool, q: spec_fn(T) -> bool)
    requires
        forall|i: int| 0 <= i < s.len() ==> p(#[trigger] s[i]) == q(s[i]),
    ensures
        s.filter(p) == s.filter(q),
    decreases s.len(),
{
    reveal(Seq::filter);
    if s.len() > 0 {
        let fewer = s.drop_last();
        assert forall|i: int| 0 <= i < fewer.len() implies p(#[trigger] fewer[i]) == q(
            fewer[i],
        ) by {
            assert(fewer[i] == s[i]);
        }
        same_filter(fewer, p, q);
        assert(p(s[s.len() - 1]) == q(s[s.len() - 1]));
    }
}

/// A sequence in which everything satisfies `p` stays whole.
pub proof fn filter_of_matches<T>(s: Seq<T>, p: spec_fn(T) -> bool)
    requires
        forall|i: int| 0 <= i < s.len() ==> p(#[trigger] s[i]),
    ensures
        s.filter(p) == s,
    decreases s.len(),
{
    reveal(Seq::filter);
    if s.len() > 0 {
        let fewer = s.drop_last();
        assert forall|i: int| 0 <= i < fewer.len() implies p(#[trigger] fewer[i]) by {
            assert(fewer[i] == s[i]);
        }
        filter_of_matches(fewer, p);
        assert(p(s[s.len() - 1]));
        assert(fewer.push(s.last()) =~= s);
    } else {
        assert(s.filter(p) =~= s);
    }
}

/// What satisfies `p` is an element of the whole, and the other way round.
pub proof fn filter_membership<T>(s: Seq<T>, p: spec_fn(T) -> bool, t: T)
    ensures
        s.filter(p).contains(t) <==> s.contains(t) && p(t),
    decreases s.len(),
{
    reveal(Seq::filter);
    if s.len() > 0 {
        let rest = s.drop_last();
        filter_membership(rest, p, t);
        let f = rest.filter(p);
        if s.contains(t) {
            let i = choose|i: int| 0 <= i < s.len() && s[i] == t;
            if i < rest.len() {
                assert(rest[i] == t);
            }
        }
        if rest.contains(t) {
            let i = choose|i: int| 0 <= i < rest.len() && rest[i] == t;
            assert(s[i] == t);
        }
        if p(s.last()) {
            assert(f.push(s.last())[f.len() as int] == s.last());
            if f.contains(t) {
                let i = choose|i: int| 0 <= i < f.len() && f[i] == t;
                assert(f.push(s.last())[i] == t);
            }
            if f.push(s.last()).contains(t) {
                let i = choose|i: int| 0 <= i < f.len() + 1 && f.push(s.last())[i] == t;
                if i < f.len() {
                    assert(f[i] == t);
                }
            }
        }
    }
}

/// Taking one element more adds that element, and nothing else.
pub proof fn take_one_more<T>(s: Seq<T>, i: int)
    requires
        0 <= i < s.len(),
    ensures
        forall|x: T| #[trigger]
            s.take(i + 1).contains(x) <==> s.take(i).contains(x) || x == s[i],
{
    let few = s.take(i);
    let more = s.take(i + 1);
    assert forall|x: T| #[trigger] more.contains(x) <==> few.contains(x) || x == s[i] by {
        if few.contains(x) {
            let k = choose|k: int| 0 <= k < few.len() && few[k] == x;
            assert(more[k] == x);
        }
        if more.contains(x) {
            let k = choose|k: int| 0 <= k < more.len() && more[k] == x;
            if k < i {
                assert(few[k] == x);
            }
        }
        assert(more[i] == s[i]);
    }
}

/// What satisfies a predicate is no more than there is.
pub proof fn filter_is_not_longer<T>(s: Seq<T>, p: spec_fn(T) -> bool)
    ensures
        s.filter(p).len() <= s.len(),
    decreases s.len(),
{
    reveal(Seq::filter);
    if s.len() > 0 {
        filter_is_not_longer(s.drop_last(), p);
    }
}

/// Where two sequences match at the same places, their first matches are at the same place.
pub proof fn same_first_index<T>(s: Seq<T>, t: Seq<T>, p: spec_fn(T) -> bool)
    requires
        s.len() == t.len(),
        forall|i: int| 0 <= i < s.len() ==> p(#[trigger] s[i]) == p(t[i]),
    ensures
        first_index(s, p) == first_index(t, p),
{
    first_index_meaning(s, p);
    match first_index(s, p) {
        Some(i) => {
            assert(p(s[i]));
            assert forall|j: int| 0 <= j < i implies !p(#[trigger] t[j]) by {
                assert(!p(s[j]));
            }
            first_index_at(t, p, i);
        },
        None => {
            assert forall|j: int| 0 <= j < t.len() implies !p(#[trigger] t[j]) by {
                assert(!p(s[j]));
            }
            first_index_none(t, p);
        },
    }
}

/// What is in two sequences is in one of them.
pub proof fn concat_contains<T>(a: Seq<T>, b: Seq<T>, t: T)
    ensures
        (a + b).contains(t) <==> a.contains(t) || b.contains(t),
{
    let all = a + b;
    if all.contains(t) {
        let i = choose|i: int| 0 <= i < all.len() && all[i] == t;
        if i < a.len() {
            assert(a[i] == t);
        } else {
            assert(b[i - a.len()] == t);
        }
    }
    if a.contains(t) {
        let i = choose|i: int| 0 <= i < a.len() && a[i] == t;
        assert(all[i] == t);
    }
    if b.contains(t) {
        let i = choose|i: int| 0 <= i < b.len() && b[i] == t;
        assert(all[a.len() + i] == t);
    }
}

/// A filter keeps the order of what it keeps.
pub proof fn filter_keeps_order<T>(s: Seq<T>, p: spec_fn(T) -> bool, i: int, j: int)
    requires
        0 <= i < j < s.len(),
        p(s[i]),
        p(s[j]),
    ensures
        exists|a: int, b: int|
            0 <= a < b < s.filter(p).len() && #[trigger] s.filter(p)[a] == s[i]
                && #[trigger] s.filter(p)[b] == s[j],
    decreases s.len(),
{
    reveal(Seq::filter);
    let rest = s.drop_last();
    let kept = rest.filter(p);
    if j < s.len() - 1 {
        filter_keeps_order(rest, p, i, j);
        let (a, b) = choose|a: int, b: int|
            0 <= a < b < kept.len() && #[trigger] kept[a] == rest[i] && #[trigger] kept[b]
                == rest[j];
        assert(s.filter(p)[a] == s[i] && s.filter(p)[b] == s[j]);
    } else {
        assert(rest[i] == s[i]);
        assert(rest.contains(s[i]));
        filter_membership(rest, p, s[i]);
        let a = choose|a: int| 0 <= a < kept.len() && kept[a] == s[i];
        let b = kept.len() as int;
        assert(s.filter(p)[a] == s[i] && s.filter(p)[b] == s[j]);
    }
}

} // verus!
