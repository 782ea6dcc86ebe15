//! Facts about sequences that the graph's invariants rest on: rows that are
//! told apart by a key, and the first row that meets a condition.

use vstd::prelude::*;

verus! {

/// No two elements of `s` have the same key.
pub open spec fn distinct_by<A, K>(s: Seq<A>, key: spec_fn(A) -> K) -> bool {
    forall|i: int, j: int|
        0 <= i < j < s.len() ==> key(#[trigger] s[i]) != key(#[trigger] s[j])
}

/// Some element of `s` has the key `k`.
pub open spec fn has_key<A, K>(s: Seq<A>, key: spec_fn(A) -> K, k: K) -> bool {
    exists|i: int| 0 <= i < s.len() && key(#[trigger] s[i]) == k
}

/// The first element of `s` that meets `p`, if there is one.
pub open spec fn first_where<A>(s: Seq<A>, p: spec_fn(A) -> bool) -> Option<A>
    decreases s.len(),
{
    if s.len() == 0 {
        None
    } else if p(s[0]) {
        Some(s[0])
    } else {
        first_where(s.drop_first(), p)
    }
}

/// `first_where` finds nothing exactly when no element meets `p`; what it
/// finds is an element of `s`, meets `p`, and has no element that meets `p`
/// before it.
pub proof fn lemma_first_where<A>(s: Seq<A>, p: spec_fn(A) -> bool)
    ensures
        first_where(s, p) is None <==> forall|i: int| 0 <= i < s.len() ==> !p(#[trigger] s[i]),
        first_where(s, p) matches Some(x) ==> exists|i: int|
            0 <= i < s.len() && #[trigger] s[i] == x && p(x) && forall|k: int|
                0 <= k < i ==> !p(#[trigger] s[k]),
    decreases s.len(),
{
    if s.len() == 0 {
    } else if p(s[0]) {
        assert(s[0] == first_where(s, p)->Some_0);
    } else {
        let t = s.drop_first();
        lemma_first_where(t, p);
        assert forall|i: int| 0 <= i < t.len() implies t[i] == s[i + 1] by {}
        if first_where(s, p) is None {
            assert forall|i: int| 0 <= i < s.len() implies !p(#[trigger] s[i]) by {
                if i > 0 {
                    assert(t[i - 1] == s[i]);
                }
            }
        } else {
            let x = first_where(s, p)->Some_0;
            let i = choose|i: int|
                0 <= i < t.len() && #[trigger] t[i] == x && p(x) && forall|k: int|
                    0 <= k < i ==> !p(#[trigger] t[k]);
            assert(s[i + 1] == x);
            assert forall|k: int| 0 <= k < i + 1 implies !p(#[trigger] s[k]) by {
                if k > 0 {
                    assert(t[k - 1] == s[k]);
                }
            }
            assert(exists|j: int|
                0 <= j < s.len() && #[trigger] s[j] == x && p(x) && forall|k: int|
                    0 <= k < j ==> !p(#[trigger] s[k]));
        }
        if forall|i: int| 0 <= i < s.len() ==> !p(#[trigger] s[i]) {
            assert forall|i: int| 0 <= i < t.len() implies !p(#[trigger] t[i]) by {
                assert(t[i] == s[i + 1]);
            }
        }
    }
}

/// Where `p` selects exactly the elements with the key `k`, the sequence has
/// the key exactly if `first_where` finds an element.
pub proof fn lemma_first_where_by_key<A, K>(
    s: Seq<A>,
    p: spec_fn(A) -> bool,
    key: spec_fn(A) -> K,
    k: K,
)
    requires
        forall|x: A| #[trigger] p(x) <==> key(x) == k,
    ensures
        has_key(s, key, k) <==> first_where(s, p) is Some,
{
    lemma_first_where(s, p);
    if has_key(s, key, k) {
        let i = choose|i: int| 0 <= i < s.len() && key(#[trigger] s[i]) == k;
        assert(p(s[i]));
    }
    if first_where(s, p) is Some {
        let i = choose|i: int|
            0 <= i < s.len() && #[trigger] s[i] == first_where(s, p)->Some_0 && p(s[i]);
        assert(key(s[i]) == k);
    }
}

/// What `first_where` finds meets `p` and is an element of the sequence:
/// the sequence has each of its keys.
pub proof fn lemma_found_has_key<A, K>(s: Seq<A>, p: spec_fn(A) -> bool, key: spec_fn(A) -> K)
    ensures
        first_where(s, p) matches Some(x) ==> p(x) && s.contains(x) && has_key(s, key, key(x)),
{
    lemma_first_where(s, p);
    if first_where(s, p) is Some {
        let x = first_where(s, p)->Some_0;
        let i = choose|i: int| 0 <= i < s.len() && #[trigger] s[i] == x && p(x);
        assert(key(s[i]) == key(x));
    }
}

/// Skipping an element that does not meet `p` changes nothing for
/// `first_where`.
pub proof fn lemma_first_where_skip<A>(s: Seq<A>, p: spec_fn(A) -> bool, i: int)
    requires
        0 <= i < s.len(),
        !p(s[i]),
    ensures
        first_where(s.skip(i), p) == first_where(s.skip(i + 1), p),
{
    assert(s.skip(i).drop_first() =~= s.skip(i + 1));
}

/// Every element of a filtered sequence is an element of the unfiltered one
/// that meets the condition, and the other way round.
pub proof fn lemma_filter_members<A>(s: Seq<A>, p: spec_fn(A) -> bool)
    ensures
        forall|x: A| #[trigger] s.filter(p).contains(x) <==> s.contains(x) && p(x),
{
    assert forall|x: A| #[trigger] s.filter(p).contains(x) <==> s.contains(x) && p(x) by {
        if s.filter(p).contains(x) {
            s.lemma_filter_contains_rev(p, x);
            let k = choose|k: int| 0 <= k < s.filter(p).len() && s.filter(p)[k] == x;
            s.lemma_filter_pred(p, k);
        }
        if s.contains(x) && p(x) {
            let k = choose|k: int| 0 <= k < s.len() && s[k] == x;
            s.lemma_filter_contains(p, k);
        }
    }
}

/// Filtering keeps the keys apart.
pub proof fn lemma_filter_distinct_by<A, K>(s: Seq<A>, p: spec_fn(A) -> bool, key: spec_fn(A) -> K)
    requires
        distinct_by(s, key),
    ensures
        distinct_by(s.filter(p), key),
    decreases s.len(),
{
    reveal(Seq::filter);
    if s.len() > 0 {
        let rest = s.drop_last();
        assert forall|i: int, j: int| 0 <= i < j < rest.len() implies key(#[trigger] rest[i])
            != key(#[trigger] rest[j]) by {
            assert(rest[i] == s[i] && rest[j] == s[j]);
        }
        lemma_filter_distinct_by(rest, p, key);
        if p(s.last()) {
            let f = rest.filter(p);
            lemma_filter_members(rest, p);
            assert forall|i: int, j: int| 0 <= i < j < f.push(s.last()).len() implies key(
                #[trigger] f.push(s.last())[i],
            ) != key(#[trigger] f.push(s.last())[j]) by {
                if j == f.len() {
                    assert(f.contains(f[i]));
                    let k = choose|k: int| 0 <= k < rest.len() && rest[k] == f[i];
                    assert(s[k] == f[i]);
                    assert(s[s.len() - 1] == s.last());
                } else {
                    assert(f.push(s.last())[i] == f[i] && f.push(s.last())[j] == f[j]);
                }
            }
        }
    }
}

/// A key is found in a filtered sequence exactly when an element of the
/// unfiltered one has it and meets the condition.
pub proof fn lemma_filter_has_key<A, K>(
    s: Seq<A>,
    p: spec_fn(A) -> bool,
    key: spec_fn(A) -> K,
    k: K,
)
    ensures
        has_key(s.filter(p), key, k) <==> exists|i: int|
            0 <= i < s.len() && key(#[trigger] s[i]) == k && p(s[i]),
{
    lemma_filter_members(s, p);
    let f = s.filter(p);
    if has_key(f, key, k) {
        let i = choose|i: int| 0 <= i < f.len() && key(#[trigger] f[i]) == k;
        assert(f.contains(f[i]));
        let j = choose|j: int| 0 <= j < s.len() && s[j] == f[i];
        assert(key(s[j]) == k && p(s[j]));
    }
    if exists|i: int| 0 <= i < s.len() && key(#[trigger] s[i]) == k && p(s[i]) {
        let i = choose|i: int| 0 <= i < s.len() && key(#[trigger] s[i]) == k && p(s[i]);
        assert(s.contains(s[i]));
        assert(f.contains(s[i]));
        let j = choose|j: int| 0 <= j < f.len() && f[j] == s[i];
        assert(key(f[j]) == k);
    }
}

/// Appending an element with a new key keeps the keys apart.
pub proof fn lemma_push_distinct_by<A, K>(s: Seq<A>, x: A, key: spec_fn(A) -> K)
    requires
        distinct_by(s, key),
        !has_key(s, key, key(x)),
    ensures
        distinct_by(s.push(x), key),
{
    assert forall|i: int, j: int| 0 <= i < j < s.push(x).len() implies key(
        #[trigger] s.push(x)[i],
    ) != key(#[trigger] s.push(x)[j]) by {
        assert(s.push(x)[i] == s[i]);
        if j < s.len() {
            assert(s.push(x)[j] == s[j]);
        }
    }
}

/// A key is found after appending exactly when it was found before or is
/// the key of the new element.
pub proof fn lemma_push_has_key<A, K>(s: Seq<A>, x: A, key: spec_fn(A) -> K, k: K)
    ensures
        has_key(s.push(x), key, k) <==> has_key(s, key, k) || key(x) == k,
{
    let t = s.push(x);
    if has_key(t, key, k) {
        let i = choose|i: int| 0 <= i < t.len() && key(#[trigger] t[i]) == k;
        if i < s.len() {
            assert(t[i] == s[i]);
        }
    }
    if has_key(s, key, k) {
        let i = choose|i: int| 0 <= i < s.len() && key(#[trigger] s[i]) == k;
        assert(t[i] == s[i]);
    }
    if key(x) == k {
        assert(t[s.len() as int] == x);
    }
}

/// The greatest key in `s`, or zero where no key is above zero.
pub open spec fn top_key<A>(s: Seq<A>, key: spec_fn(A) -> i32) -> int
    decreases s.len(),
{
    if s.len() == 0 {
        0
    } else {
        let rest = top_key(s.drop_last(), key);
        let last = key(s.last()) as int;
        if last > rest {
            last
        } else {
            rest
        }
    }
}

/// No key is above `top_key`, which is itself no more than a key can be.
pub proof fn lemma_top_key<A>(s: Seq<A>, key: spec_fn(A) -> i32)
    ensures
        0 <= top_key(s, key) <= i32::MAX,
        forall|i: int| 0 <= i < s.len() ==> key(#[trigger] s[i]) <= top_key(s, key),
    decreases s.len(),
{
    if s.len() > 0 {
        lemma_top_key(s.drop_last(), key);
        assert forall|i: int| 0 <= i < s.len() implies key(#[trigger] s[i]) <= top_key(s, key) by {
            if i < s.len() - 1 {
                assert(s.drop_last()[i] == s[i]);
            }
        }
    }
}

/// A key above `top_key` is a new key.
pub proof fn lemma_above_top_is_new<A>(s: Seq<A>, key: spec_fn(A) -> i32, k: i32)
    requires
        k > top_key(s, key),
    ensures
        !has_key(s, key, k),
{
    lemma_top_key(s, key);
}

/// Rows that change without changing their key keep the keys apart, and
/// keep every key that was there.
pub proof fn lemma_same_keys<A, K>(s: Seq<A>, t: Seq<A>, key: spec_fn(A) -> K)
    requires
        s.len() == t.len(),
        forall|i: int| 0 <= i < s.len() ==> key(#[trigger] t[i]) == key(s[i]),
    ensures
        distinct_by(s, key) ==> distinct_by(t, key),
        forall|k: K| has_key(s, key, k) <==> #[trigger] has_key(t, key, k),
{
    if distinct_by(s, key) {
        assert forall|i: int, j: int| 0 <= i < j < t.len() implies key(#[trigger] t[i]) != key(
            #[trigger] t[j],
        ) by {
            assert(key(s[i]) != key(s[j]));
        }
    }
    assert forall|k: K| has_key(s, key, k) <==> #[trigger] has_key(t, key, k) by {
        if has_key(s, key, k) {
            let i = choose|i: int| 0 <= i < s.len() && key(#[trigger] s[i]) == k;
            assert(key(t[i]) == k);
        }
        if has_key(t, key, k) {
            let i = choose|i: int| 0 <= i < t.len() && key(#[trigger] t[i]) == k;
            assert(key(s[i]) == k);
        }
    }
}

} // verus!
