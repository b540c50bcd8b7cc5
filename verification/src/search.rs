//! First position in a sequence where a predicate holds.

use vstd::prelude::*;

verus! {

/// `i` is the first position of `s` where `p` holds.
pub open spec fn is_first<T>(s: Seq<T>, p: spec_fn(T) -> bool, i: int) -> bool {
    0 <= i < s.len() && p(s[i]) && forall|j: int| 0 <= j < i ==> !p(#[trigger] s[j])
}

/// First position of `s` where `p` holds, if any.
pub open spec fn first_index<T>(s: Seq<T>, p: spec_fn(T) -> bool) -> Option<int> {
    if exists|i: int| 0 <= i < s.len() && p(#[trigger] s[i]) {
        Some(choose|i: int| is_first(s, p, i))
    } else {
        None
    }
}

/// The first position is unique.
pub proof fn lemma_first_index_is<T>(s: Seq<T>, p: spec_fn(T) -> bool, i: int)
    requires
        is_first(s, p, i),
    ensures
        first_index(s, p) == Some(i),
{
    assert(p(s[i]));
    let k = choose|k: int| is_first(s, p, k);
    assert(is_first(s, p, k));
    if k < i {
        assert(!p(s[k]));
    } else if k > i {
        assert(!p(s[i]));
    }
}

/// What `first_index` returns is the first position.
pub proof fn lemma_first_index_some<T>(s: Seq<T>, p: spec_fn(T) -> bool)
    ensures
        first_index(s, p) matches Some(i) ==> is_first(s, p, i),
{
    if exists|i: int| 0 <= i < s.len() && p(#[trigger] s[i]) {
        let i = choose|i: int| 0 <= i < s.len() && p(#[trigger] s[i]);
        lemma_first_exists(s, p, i);
    }
}

proof fn lemma_first_exists<T>(s: Seq<T>, p: spec_fn(T) -> bool, i: int)
    requires
        0 <= i < s.len(),
        p(s[i]),
    ensures
        exists|k: int| is_first(s, p, k),
    decreases i,
{
    if exists|j: int| 0 <= j < i && p(#[trigger] s[j]) {
        let j = choose|j: int| 0 <= j < i && p(#[trigger] s[j]);
        lemma_first_exists(s, p, j);
    } else {
        assert(is_first(s, p, i));
    }
}

/// No position satisfies `p`.
pub proof fn lemma_first_index_none<T>(s: Seq<T>, p: spec_fn(T) -> bool)
    requires
        forall|j: int| 0 <= j < s.len() ==> !p(#[trigger] s[j]),
    ensures
        first_index(s, p) is None,
{
}

/// There is a first position where `p` holds exactly when filtering `s`
/// by `p` keeps something.
pub proof fn lemma_first_index_iff_filter<T>(s: Seq<T>, p: spec_fn(T) -> bool)
    ensures
        first_index(s, p) is Some <==> s.filter(p).len() > 0,
{
    if exists|i: int| 0 <= i < s.len() && p(#[trigger] s[i]) {
        let i = choose|i: int| 0 <= i < s.len() && p(#[trigger] s[i]);
        s.lemma_filter_contains(p, i);
        lemma_first_index_some(s, p);
    } else {
        assert(s.all(|x: T| !p(x)));
        s.lemma_all_neg_filter_empty(p);
    }
}

/// `i` is the last position of `s` where `p` holds.
pub open spec fn is_last<T>(s: Seq<T>, p: spec_fn(T) -> bool, i: int) -> bool {
    0 <= i < s.len() && p(s[i]) && forall|j: int| i < j < s.len() ==> !p(#[trigger] s[j])
}

/// Last position of `s` where `p` holds, if any.
pub open spec fn last_index<T>(s: Seq<T>, p: spec_fn(T) -> bool) -> Option<int> {
    if exists|i: int| 0 <= i < s.len() && p(#[trigger] s[i]) {
        Some(choose|i: int| is_last(s, p, i))
    } else {
        None
    }
}

/// The last position is unique.
pub proof fn lemma_last_index_is<T>(s: Seq<T>, p: spec_fn(T) -> bool, i: int)
    requires
        is_last(s, p, i),
    ensures
        last_index(s, p) == Some(i),
{
    assert(p(s[i]));
    let k = choose|k: int| is_last(s, p, k);
    assert(is_last(s, p, k));
    if k < i {
        assert(!p(s[i]));
    } else if k > i {
        assert(!p(s[k]));
    }
}

/// What `last_index` returns is the last position.
pub proof fn lemma_last_index_some<T>(s: Seq<T>, p: spec_fn(T) -> bool)
    ensures
        last_index(s, p) matches Some(i) ==> is_last(s, p, i),
{
    if exists|i: int| 0 <= i < s.len() && p(#[trigger] s[i]) {
        let i = choose|i: int| 0 <= i < s.len() && p(#[trigger] s[i]);
        lemma_last_exists(s, p, i);
    }
}

proof fn lemma_last_exists<T>(s: Seq<T>, p: spec_fn(T) -> bool, i: int)
    requires
        0 <= i < s.len(),
        p(s[i]),
    ensures
        exists|k: int| is_last(s, p, k),
    decreases s.len() - i,
{
    if exists|j: int| i < j < s.len() && p(#[trigger] s[j]) {
        let j = choose|j: int| i < j < s.len() && p(#[trigger] s[j]);
        lemma_last_exists(s, p, j);
    } else {
        assert(is_last(s, p, i));
    }
}

/// No position satisfies `p`: there is no last one.
pub proof fn lemma_last_index_none<T>(s: Seq<T>, p: spec_fn(T) -> bool)
    requires
        forall|j: int| 0 <= j < s.len() ==> !p(#[trigger] s[j]),
    ensures
        last_index(s, p) is None,
{
}

} // verus!
