//! Fuzzy ranking of picker items (model ids, paths) against a query.
//!
//! Lower scores are better. A query is lowercased and split into words; an
//! item is kept when every word matches its lowercased text, and items are
//! ordered by total score, then byte length, then text.

use vstd::prelude::*;
use vstd::relations::{sorted_by, total_ordering};
use crate::order::{
    chars_le, chars_le_exec, lemma_chars_le_antisymmetric, lemma_chars_le_reflexive, lemma_chars_le_total,
    lemma_chars_le_transitive,
};
use crate::text::{
    chars_of, lemma_words_bounds, string_of_all, string_views, to_lowercase, trim_str, words_of, views,
    byte_len, byte_len_prefix, find, find_exec, find_from, occurs_at, spec_to_lowercase,
    starts_with, starts_with_exec, trim, words,
};

verus! {

/// Characters after which a match counts as the start of a token.
pub open spec fn is_sep(c: char) -> bool {
    c == '/' || c == '-' || c == '_' || c == '.' || c == ' '
}

/// The first index at or after `from` where `h` holds `c`.
pub open spec fn next_match(h: Seq<char>, c: char, from: int) -> Option<int>
    decreases h.len() - from,
{
    if from < 0 || from >= h.len() {
        None
    } else if h[from] == c {
        Some(from)
    } else {
        next_match(h, c, from + 1)
    }
}

/// Greedy left-to-right positions at which the characters of `n` are found
/// in `h`, each after the previous one; `None` when `n` is no subsequence.
pub open spec fn match_positions(h: Seq<char>, n: Seq<char>) -> Option<Seq<int>>
    decreases n.len(),
{
    if n.len() == 0 {
        Some(seq![])
    } else {
        match match_positions(h, n.drop_last()) {
            None => None,
            Some(ps) => {
                let from = if ps.len() == 0 {
                    0
                } else {
                    ps.last() + 1
                };
                match next_match(h, n.last(), from) {
                    None => None,
                    Some(j) => Some(ps.push(j)),
                }
            },
        }
    }
}

/// Score of a subsequence match: 40, minus 3 when the first match starts a
/// token, plus every gap between consecutive matches, minus 2 for each
/// adjacent pair.
pub open spec fn subseq_score(h: Seq<char>, ps: Seq<int>) -> int
    decreases ps.len(),
{
    if ps.len() == 0 {
        40
    } else if ps.len() == 1 {
        40 - (if ps[0] == 0 || is_sep(h[ps[0] - 1]) {
            3int
        } else {
            0int
        })
    } else {
        let g = ps.last() - ps[ps.len() - 2] - 1;
        subseq_score(h, ps.drop_last()) + g - (if g == 0 {
            2int
        } else {
            0int
        })
    }
}

/// Score of `n` against one haystack `h`: 0 when equal, 1 for a prefix,
/// 10 plus the byte offset (less 5 after a separator) for a substring, else
/// the subsequence score; `None` when `n` is not a subsequence of `h`.
pub open spec fn fuzzy_one(h: Seq<char>, n: Seq<char>) -> Option<int> {
    if h == n {
        Some(0)
    } else if starts_with(h, n) {
        Some(1)
    } else {
        match find(h, n) {
            Some(i) => Some(
                10 + byte_len(h.take(i)) - (if i > 0 && is_sep(h[i - 1]) {
                    5int
                } else {
                    0int
                }),
            ),
            None => match match_positions(h, n) {
                Some(ps) => Some(subseq_score(h, ps)),
                None => None,
            },
        }
    }
}

/// The text after the last `/` (all of it when there is none).
pub open spec fn last_segment(s: Seq<char>) -> Seq<char>
    decreases s.len(),
{
    if s.len() == 0 {
        s
    } else if s.last() == '/' {
        seq![]
    } else {
        last_segment(s.drop_last()).push(s.last())
    }
}

/// Score of `n` against `h`, preferring a match on the last path segment;
/// a match found only on the whole text costs 20 more.
pub open spec fn fuzzy(h: Seq<char>, n: Seq<char>) -> Option<int> {
    if n.len() == 0 || h == n {
        Some(0)
    } else {
        match fuzzy_one(last_segment(h), n) {
            Some(s) => Some(s),
            None => match fuzzy_one(h, n) {
                Some(s) => Some(s + 20),
                None => None,
            },
        }
    }
}

/// Sum of the scores of every word; `None` when some word does not match.
pub open spec fn total_score(h: Seq<char>, toks: Seq<Seq<char>>) -> Option<int>
    decreases toks.len(),
{
    if toks.len() == 0 {
        Some(0)
    } else {
        match total_score(h, toks.drop_last()) {
            None => None,
            Some(a) => match fuzzy(h, toks.last()) {
                None => None,
                Some(b) => Some(a + b),
            },
        }
    }
}

/// Sort key of a kept item: total score, byte length, text.
pub type RankKey = (int, nat, Seq<char>);

/// The kept items with their sort keys, in input order.
pub open spec fn ranked(items: Seq<Seq<char>>, toks: Seq<Seq<char>>) -> Seq<RankKey>
    decreases items.len(),
{
    if items.len() == 0 {
        seq![]
    } else {
        let prev = ranked(items.drop_last(), toks);
        let it = items.last();
        match total_score(spec_to_lowercase(it), toks) {
            Some(t) => prev.push((t, byte_len(it), it)),
            None => prev,
        }
    }
}

/// Order of sort keys: by score, then byte length, then text.
pub open spec fn rank_le(x: RankKey, y: RankKey) -> bool {
    x.0 < y.0 || (x.0 == y.0 && (x.1 < y.1 || (x.1 == y.1 && chars_le(x.2, y.2))))
}

/// The first `n` elements (all when there are fewer).
pub open spec fn take_at_most<A>(s: Seq<A>, n: nat) -> Seq<A> {
    if s.len() <= n {
        s
    } else {
        s.take(n as int)
    }
}

/// What `rank_and_filter` returns: with an empty (trimmed, lowercased)
/// query the first `cap` items; otherwise the best `cap` kept items.
pub open spec fn rank_result(items: Seq<Seq<char>>, query: Seq<char>, cap: nat) -> Seq<Seq<char>> {
    let q = spec_to_lowercase(trim(query));
    if q.len() == 0 {
        take_at_most(items, cap)
    } else {
        take_at_most(ranked(items, words(q)).sort_by(|x: RankKey, y: RankKey| rank_le(x, y)), cap).map_values(
            |k: RankKey| k.2,
        )
    }
}

/// Size limit under which the score arithmetic cannot overflow: the
/// lowercased query and every lowercased item are below 2^32 characters.
pub open spec fn rank_within_bounds(items: Seq<Seq<char>>, query: Seq<char>) -> bool {
    &&& spec_to_lowercase(trim(query)).len() <= 0x1_0000_0000
    &&& forall|i: int| 0 <= i < items.len() ==> #[trigger] spec_to_lowercase(items[i]).len() <= 0x1_0000_0000
}

/// The ranking order on (score, length, text) keys is a total order.
pub proof fn lemma_rank_le_total_ordering()
    ensures
        total_ordering(|x: RankKey, y: RankKey| rank_le(x, y)),
{
    let r = |x: RankKey, y: RankKey| rank_le(x, y);
    assert forall|x: RankKey| #[trigger] r(x, x) by {
        lemma_chars_le_reflexive(x.2);
    }
    assert forall|x: RankKey, y: RankKey| #[trigger] r(x, y) && #[trigger] r(y, x) implies x == y by {
        if x.0 == y.0 && x.1 == y.1 {
            lemma_chars_le_antisymmetric(x.2, y.2);
        }
    }
    assert forall|x: RankKey, y: RankKey, z: RankKey| #[trigger] r(x, y) && #[trigger] r(y, z) implies r(
        x,
        z,
    ) by {
        if x.0 == y.0 && y.0 == z.0 && x.1 == y.1 && y.1 == z.1 {
            lemma_chars_le_transitive(x.2, y.2, z.2);
        }
    }
    assert forall|x: RankKey, y: RankKey| #[trigger] r(x, y) || #[trigger] r(y, x) by {
        lemma_chars_le_total(x.2, y.2);
    }
}

/// Executable `last_segment`: the index just after the last `/`.
fn last_segment_start(v: &Vec<char>) -> (r: usize)
    ensures
        r <= v@.len(),
        v@.skip(r as int) == last_segment(v@),
{
    let mut i = v.len();
    proof {
        assert(v@.take(v@.len() as int) =~= v@);
        assert(v@ + v@.skip(v@.len() as int) =~= v@);
    }
    while i > 0 && v[i - 1] != '/'
        invariant
            i <= v@.len(),
            last_segment(v@) == last_segment(v@.take(i as int)) + v@.skip(i as int),
        decreases i,
    {
        proof {
            let t = v@.take(i as int);
            assert(t.drop_last() =~= v@.take(i - 1));
            assert(t.last() == v@[i - 1]);
            assert(v@.skip(i - 1) =~= seq![v@[i - 1]] + v@.skip(i as int));
            assert(last_segment(v@.take(i - 1)).push(v@[i - 1]) + v@.skip(i as int) =~= last_segment(
                v@.take(i - 1),
            ) + v@.skip(i - 1));
        }
        i -= 1;
    }
    proof {
        if i > 0 {
            assert(v@.take(i as int).last() == '/');
        }
        assert(last_segment(v@.take(i as int)) =~= seq![]) by {
            if i == 0 {
                assert(v@.take(0) =~= Seq::<char>::empty());
            }
        }
        assert(seq![] + v@.skip(i as int) =~= v@.skip(i as int));
    }
    i
}

/// Subsequence matching of `n` in `h` (the last stage of `fuzzy_one`).
fn subseq_score_exec(h: &Vec<char>, n: &Vec<char>) -> (r: Option<i128>)
    requires
        h@.len() <= 0x1_0000_0000,
        n@.len() <= 0x1_0000_0000,
    ensures
        r matches Some(s) ==> match_positions(h@, n@) matches Some(ps) && s == subseq_score(h@, ps),
        r is None ==> match_positions(h@, n@) is None,
{
    let mut hi: usize = 0;
    let mut score: i128 = 40;
    let mut gaps: i128 = 0;
    let mut prev: Option<usize> = None;
    let mut k: usize = 0;
    let ghost mut ps: Seq<int> = seq![];
    proof {
        assert(n@.take(0) =~= Seq::<char>::empty());
    }
    while k < n.len()
        invariant
            k <= n@.len() <= 0x1_0000_0000,
            h@.len() <= 0x1_0000_0000,
            match_positions(h@, n@.take(k as int)) == Some(ps),
            ps.len() == k,
            forall|j: int| 0 <= j < k ==> 0 <= #[trigger] ps[j] < h@.len(),
            hi <= h@.len(),
            k == 0 ==> hi == 0 && prev is None,
            k > 0 ==> hi == ps.last() + 1 && prev == Some(ps.last() as usize),
            score + gaps == subseq_score(h@, ps),
            40 - 3 - 2 * k <= score <= 40,
            0 <= gaps <= hi,
        decreases n@.len() - k,
    {
        let nc = n[k];
        let from = hi;
        while hi < h.len() && h[hi] != nc
            invariant
                from <= hi <= h@.len(),
                next_match(h@, nc, from as int) == next_match(h@, nc, hi as int),
            decreases h@.len() - hi,
        {
            hi += 1;
        }
        let found = hi < h.len();
        proof {
            assert(n@.take(k + 1).drop_last() =~= n@.take(k as int));
            assert(n@.take(k + 1).last() == nc);
        }
        if !found {
            proof {
                assert(next_match(h@, nc, hi as int) is None);
                assert(match_positions(h@, n@.take(k + 1)) is None);
                assert forall|m: int| k + 1 <= m <= n@.len() implies match_positions(
                    h@,
                    #[trigger] n@.take(m),
                ) is None by {
                    lemma_match_positions_none_extends(h@, n@, k + 1, m);
                }
                assert(n@.take(n@.len() as int) =~= n@);
            }
            return None;
        }
        proof {
            assert(next_match(h@, nc, hi as int) == Some(hi as int));
        }
        match prev {
            Some(p) => {
                let gap = (hi - p) as i128 - 1;
                gaps = gaps + gap;
                if gap == 0 {
                    score = score - 2;
                }
            },
            None => {
                if hi == 0 || is_sep_exec(h[hi - 1]) {
                    score = score - 3;
                }
            },
        }
        proof {
            let ps2 = ps.push(hi as int);
            assert(ps2.drop_last() =~= ps);
            ps = ps2;
        }
        prev = Some(hi);
        hi += 1;
        k += 1;
    }
    proof {
        assert(n@.take(n@.len() as int) =~= n@);
    }
    Some(score + gaps)
}

proof fn lemma_match_positions_none_extends(h: Seq<char>, n: Seq<char>, k: int, m: int)
    requires
        0 <= k <= m <= n.len(),
        match_positions(h, n.take(k)) is None,
    ensures
        match_positions(h, n.take(m)) is None,
    decreases m - k,
{
    if m > k {
        lemma_match_positions_none_extends(h, n, k, m - 1);
        assert(n.take(m).drop_last() =~= n.take(m - 1));
    }
}

fn is_sep_exec(c: char) -> (r: bool)
    ensures
        r == is_sep(c),
{
    c == '/' || c == '-' || c == '_' || c == '.' || c == ' '
}

/// `fuzzy_one` on character vectors.
fn fuzzy_one_exec(h: &Vec<char>, n: &Vec<char>) -> (r: Option<i128>)
    requires
        h@.len() <= 0x1_0000_0000,
        n@.len() <= 0x1_0000_0000,
    ensures
        r matches Some(s) ==> fuzzy_one(h@, n@) == Some(s as int),
        r is None ==> fuzzy_one(h@, n@) is None,
{
    if h.len() == n.len() && starts_with_exec(h, n) {
        proof {
            assert(h@.take(n@.len() as int) =~= h@);
        }
        return Some(0);
    }
    proof {
        if h@ == n@ {
            assert(h@.take(n@.len() as int) =~= h@);
        }
    }
    if starts_with_exec(h, n) {
        return Some(1);
    }
    match find_exec(h, n) {
        Some(i) => {
            let pos = byte_len_prefix(h, i);
            let mut score: i128 = 10 + pos as i128;
            if i > 0 && is_sep_exec(h[i - 1]) {
                score = score - 5;
            }
            Some(score)
        },
        None => subseq_score_exec(h, n),
    }
}

/// `fuzzy` on character vectors.
fn fuzzy_exec(h: &Vec<char>, n: &Vec<char>) -> (r: Option<i128>)
    requires
        h@.len() <= 0x1_0000_0000,
        n@.len() <= 0x1_0000_0000,
    ensures
        r matches Some(s) ==> fuzzy(h@, n@) == Some(s as int),
        r is None ==> fuzzy(h@, n@) is None,
        r matches Some(s) ==> -2 * n@.len() - 3 <= s <= 60 + 4 * h@.len(),
{
    if n.len() == 0 {
        return Some(0);
    }
    if h.len() == n.len() && starts_with_exec(h, n) {
        proof {
            assert(h@.take(n@.len() as int) =~= h@);
        }
        return Some(0);
    }
    proof {
        if h@ == n@ {
            assert(h@.take(n@.len() as int) =~= h@);
        }
    }
    let start = last_segment_start(h);
    let base = slice_vec(h, start);
    match fuzzy_one_exec(&base, n) {
        Some(s) => {
            proof {
                lemma_fuzzy_one_bounds(base@, n@);
            }
            Some(s)
        },
        None => match fuzzy_one_exec(h, n) {
            Some(s) => {
                proof {
                    lemma_fuzzy_one_bounds(h@, n@);
                }
                Some(s + 20)
            },
            None => None,
        },
    }
}

proof fn lemma_subseq_score_bounds(h: Seq<char>, ps: Seq<int>)
    requires
        forall|j: int| 0 <= j < ps.len() ==> 0 <= #[trigger] ps[j] < h.len(),
        forall|a: int, b: int| 0 <= a < b < ps.len() ==> ps[a] < ps[b],
    ensures
        40 - 3 - 2 * ps.len() <= subseq_score(h, ps) <= 40 + h.len(),
        ps.len() > 0 ==> subseq_score(h, ps) <= 40 + ps.last() - (ps.len() - 1),
    decreases ps.len(),
{
    if ps.len() > 1 {
        lemma_subseq_score_bounds(h, ps.drop_last());
    }
}

proof fn lemma_match_positions_shape(h: Seq<char>, n: Seq<char>)
    requires
        match_positions(h, n) is Some,
    ensures
        ({
            let ps = match_positions(h, n)->0;
            &&& ps.len() == n.len()
            &&& forall|j: int| 0 <= j < ps.len() ==> 0 <= #[trigger] ps[j] < h.len()
            &&& forall|a: int, b: int| 0 <= a < b < ps.len() ==> ps[a] < ps[b]
        }),
    decreases n.len(),
{
    if n.len() > 0 {
        lemma_match_positions_shape(h, n.drop_last());
        let ps = match_positions(h, n.drop_last())->0;
        let from = if ps.len() == 0 {
            0
        } else {
            ps.last() + 1
        };
        lemma_next_match_range(h, n.last(), from);
    }
}

proof fn lemma_next_match_range(h: Seq<char>, c: char, from: int)
    ensures
        next_match(h, c, from) matches Some(j) ==> from <= j < h.len() && 0 <= j,
    decreases h.len() - from,
{
    if 0 <= from < h.len() && h[from] != c {
        lemma_next_match_range(h, c, from + 1);
    }
}

proof fn lemma_fuzzy_one_bounds(h: Seq<char>, n: Seq<char>)
    requires
        h.len() <= 0x1_0000_0000,
        n.len() <= 0x1_0000_0000,
    ensures
        fuzzy_one(h, n) matches Some(s) ==> -2 * n.len() - 3 <= s <= 40 + 4 * h.len(),
{
    if h != n && !starts_with(h, n) {
        match find(h, n) {
            Some(i) => {
                lemma_find_range(h, n, 0);
                lemma_byte_len_le(h.take(i));
            },
            None => {
                if match_positions(h, n) is Some {
                    lemma_match_positions_shape(h, n);
                    lemma_subseq_score_bounds(h, match_positions(h, n)->0);
                }
            },
        }
    }
}

proof fn lemma_find_range(h: Seq<char>, p: Seq<char>, i: int)
    requires
        0 <= i,
    ensures
        find_from(h, p, i) matches Some(j) ==> i <= j <= h.len(),
    decreases h.len() + 1 - i,
{
    if i + p.len() <= h.len() && !occurs_at(h, p, i) {
        lemma_find_range(h, p, i + 1);
    }
}

proof fn lemma_byte_len_le(s: Seq<char>)
    ensures
        byte_len(s) <= 4 * s.len(),
    decreases s.len(),
{
    if s.len() > 0 {
        lemma_byte_len_le(s.drop_last());
    }
}

/// Copies `v[start..]`.
fn slice_vec(v: &Vec<char>, start: usize) -> (r: Vec<char>)
    requires
        start <= v@.len(),
    ensures
        r@ == v@.skip(start as int),
{
    let mut r: Vec<char> = Vec::new();
    let mut i = start;
    while i < v.len()
        invariant
            start <= i <= v@.len(),
            r@ == v@.subrange(start as int, i as int),
        decreases v@.len() - i,
    {
        r.push(v[i]);
        proof {
            assert(v@.subrange(start as int, i + 1) =~= v@.subrange(start as int, i as int).push(
                v@[i as int],
            ));
        }
        i += 1;
    }
    proof {
        assert(v@.subrange(start as int, v@.len() as int) =~= v@.skip(start as int));
    }
    r
}

proof fn lemma_rank_le_transitive(x: RankKey, y: RankKey, z: RankKey)
    requires
        rank_le(x, y),
        rank_le(y, z),
    ensures
        rank_le(x, z),
{
    if x.0 == y.0 && y.0 == z.0 && x.1 == y.1 && y.1 == z.1 {
        lemma_chars_le_transitive(x.2, y.2, z.2);
    }
}

proof fn lemma_rank_le_total(x: RankKey, y: RankKey)
    ensures
        rank_le(x, y) || rank_le(y, x),
{
    lemma_chars_le_total(x.2, y.2);
}

/// A kept item during ranking.
struct Ranked {
    score: i128,
    blen: u128,
    text: Vec<char>,
}

impl Ranked {
    spec fn key(&self) -> RankKey {
        (self.score as int, self.blen as nat, self.text@)
    }
}

spec fn keys(s: Seq<Ranked>) -> Seq<RankKey> {
    s.map_values(|e: Ranked| e.key())
}

/// Keys in nondecreasing `rank_le` order.
pub open spec fn rank_sorted(s: Seq<RankKey>) -> bool {
    forall|a: int, b: int| 0 <= a < b < s.len() ==> #[trigger] rank_le(s[a], s[b])
}

fn rank_le_exec(a: &Ranked, b: &Ranked) -> (r: bool)
    ensures
        r == rank_le(a.key(), b.key()),
{
    if a.score != b.score {
        a.score < b.score
    } else if a.blen != b.blen {
        a.blen < b.blen
    } else {
        chars_le_exec(&a.text, &b.text)
    }
}

/// Inserts `e` after every element that orders at or before it.
fn insert_sorted(v: &mut Vec<Ranked>, e: Ranked)
    requires
        rank_sorted(keys(old(v)@)),
    ensures
        rank_sorted(keys(final(v)@)),
        keys(final(v)@).to_multiset() == keys(old(v)@).to_multiset().insert(e.key()),
{
    broadcast use vstd::seq_lib::group_to_multiset_ensures;

    let ghost k0 = keys(v@);
    let mut p: usize = 0;
    while p < v.len() && rank_le_exec(&v[p], &e)
        invariant
            p <= v@.len(),
            k0 == keys(v@),
            forall|a: int| 0 <= a < p ==> rank_le(#[trigger] k0[a], e.key()),
        decreases v@.len() - p,
    {
        p += 1;
    }
    let ghost ek = e.key();
    proof {
        if p < v@.len() {
            lemma_rank_le_total(k0[p as int], ek);
        }
    }
    v.insert(p, e);
    proof {
        let k1 = keys(v@);
        assert(k1 =~= k0.insert(p as int, ek));
        assert forall|a: int, b: int| 0 <= a < b < k1.len() implies #[trigger] rank_le(
            k1[a],
            k1[b],
        ) by {
            if b < p {
                assert(rank_le(k0[a], k0[b]));
            } else if b == p {
            } else if a < p {
                assert(rank_le(k0[a], ek));
                assert(rank_le(ek, k0[p as int]));
                if p < b - 1 {
                    assert(rank_le(k0[p as int], k0[b - 1]));
                    lemma_rank_le_transitive(ek, k0[p as int], k0[b - 1]);
                }
                lemma_rank_le_transitive(k0[a], ek, k0[b - 1]);
            } else if a == p {
                if p < b - 1 {
                    assert(rank_le(k0[p as int], k0[b - 1]));
                    lemma_rank_le_transitive(ek, k0[p as int], k0[b - 1]);
                }
            } else {
                assert(rank_le(k0[a - 1], k0[b - 1]));
            }
        }
    }
}

proof fn lemma_total_score_none_extends(h: Seq<char>, toks: Seq<Seq<char>>, k: int, m: int)
    requires
        0 <= k <= m <= toks.len(),
        total_score(h, toks.take(k)) is None,
    ensures
        total_score(h, toks.take(m)) is None,
    decreases m - k,
{
    if m > k {
        lemma_total_score_none_extends(h, toks, k, m - 1);
        assert(toks.take(m).drop_last() =~= toks.take(m - 1));
    }
}

/// Total score of `h` against every word; `None` when one fails to match.
fn total_score_exec(h: &Vec<char>, toks: &Vec<Vec<char>>, qlen: Ghost<nat>) -> (r: Option<i128>)
    requires
        h@.len() <= 0x1_0000_0000,
        toks@.len() <= 0x1_0000_0000,
        forall|i: int| 0 <= i < toks@.len() ==> #[trigger] toks@[i]@.len() <= 0x1_0000_0000,
    ensures
        r matches Some(t) ==> total_score(h@, views(toks@)) == Some(t as int),
        r is None ==> total_score(h@, views(toks@)) is None,
{
    let ghost tv = views(toks@);
    let mut total: i128 = 0;
    let mut ok = true;
    let mut t: usize = 0;
    proof {
        assert(tv.take(0) =~= Seq::<Seq<char>>::empty());
    }
    while t < toks.len() && ok
        invariant
            t <= toks@.len() <= 0x1_0000_0000,
            h@.len() <= 0x1_0000_0000,
            forall|i: int| 0 <= i < toks@.len() ==> #[trigger] toks@[i]@.len() <= 0x1_0000_0000,
            tv == views(toks@),
            ok ==> total_score(h@, tv.take(t as int)) == Some(total as int),
            !ok ==> total_score(h@, tv.take(t as int)) is None,
            ok ==> -0x8_0000_0000 * t <= total <= 0x8_0000_0000 * t,
        decreases toks@.len() - t,
    {
        proof {
            assert(tv.take(t + 1).drop_last() =~= tv.take(t as int));
            assert(tv.take(t + 1).last() == toks@[t as int]@);
        }
        proof {
            assert(toks@[t as int]@.len() <= 0x1_0000_0000);
        }
        match fuzzy_exec(h, &toks[t]) {
            None => {
                ok = false;
            },
            Some(s) => {
                total = total + s;
            },
        }
        t += 1;
    }
    if !ok {
        proof {
            lemma_total_score_none_extends(h@, tv, t as int, tv.len() as int);
            assert(tv.take(tv.len() as int) =~= tv);
        }
        return None;
    }
    proof {
        assert(tv.take(tv.len() as int) =~= tv);
    }
    Some(total)
}

/// Ranks `items` against `query` and keeps the best `cap`: an empty query
/// keeps the first `cap` items in order; otherwise an item is kept when
/// every query word fuzzily matches its lowercased text.
pub fn rank_and_filter(items: &[String], query: &str, cap: usize) -> (r: Vec<String>)
    requires
        rank_within_bounds(string_views(items@), query@),
    ensures
        string_views(r@) == rank_result(string_views(items@), query@, cap as nat),
{
    broadcast use vstd::seq_lib::group_to_multiset_ensures;

    let ghost iv = string_views(items@);
    let t = trim_str(query);
    let q = to_lowercase(t.as_str());
    let qv = chars_of(q.as_str());
    let mut out: Vec<String> = Vec::new();
    if qv.len() == 0 {
        let n = if items.len() < cap {
            items.len()
        } else {
            cap
        };
        let mut j: usize = 0;
        while j < n
            invariant
                j <= n <= items@.len(),
                n == (if items@.len() < cap { items@.len() } else { cap as nat }),
                iv == string_views(items@),
                string_views(out@) == iv.take(j as int),
            decreases n - j,
        {
            let ghost old_out = out@;
            out.push(items[j].clone());
            proof {
                assert(out@ =~= old_out.push(items@[j as int]));
                assert(string_views(out@) =~= string_views(old_out).push(items@[j as int]@));
                assert(iv.take(j + 1) =~= iv.take(j as int).push(iv[j as int]));
            }
            j += 1;
        }
        proof {
            if items@.len() <= cap {
                assert(iv.take(n as int) =~= iv);
            }
        }
        return out;
    }
    let toks = words_of(&qv);
    let ghost tv = words(qv@);
    proof {
        lemma_words_bounds(qv@);
        assert forall|i: int| 0 <= i < toks@.len() implies #[trigger] toks@[i]@.len() <= 0x1_0000_0000 by {
            assert(views(toks@)[i] == toks@[i]@);
        }
    }
    let mut kept: Vec<Ranked> = Vec::new();
    let mut i: usize = 0;
    proof {
        assert(iv.take(0) =~= Seq::<Seq<char>>::empty());
    }
    while i < items.len()
        invariant
            i <= items@.len(),
            iv == string_views(items@),
            rank_within_bounds(iv, query@),
            tv == views(toks@),
            toks@.len() <= 0x1_0000_0000,
            forall|k: int| 0 <= k < toks@.len() ==> #[trigger] toks@[k]@.len() <= 0x1_0000_0000,
            rank_sorted(keys(kept@)),
            keys(kept@).to_multiset() == ranked(iv.take(i as int), tv).to_multiset(),
        decreases items@.len() - i,
    {
        let item = &items[i];
        let lower = to_lowercase(item.as_str());
        let lv = chars_of(lower.as_str());
        proof {
            assert(iv[i as int] == item@);
            assert(spec_to_lowercase(iv[i as int]).len() <= 0x1_0000_0000);
            assert(iv.take(i + 1).drop_last() =~= iv.take(i as int));
            assert(iv.take(i + 1).last() == item@);
        }
        match total_score_exec(&lv, &toks, Ghost(0)) {
            Some(total) => {
                let text = chars_of(item.as_str());
                let blen = byte_len_prefix(&text, text.len());
                proof {
                    assert(text@.take(text@.len() as int) =~= text@);
                }
                let e = Ranked { score: total, blen, text };
                proof {
                    assert(lv@ == spec_to_lowercase(item@));
                    assert(total_score(spec_to_lowercase(item@), tv) == Some(total as int));
                    assert(ranked(iv.take(i + 1), tv) == ranked(iv.take(i as int), tv).push(e.key()));
                }
                let ghost ek = e.key();
                let ghost before = keys(kept@);
                insert_sorted(&mut kept, e);
                proof {
                    assert(keys(kept@).to_multiset() == before.to_multiset().insert(ek));
                    vstd::seq_lib::to_multiset_build(ranked(iv.take(i as int), tv), ek);
                    assert(ranked(iv.take(i as int), tv).push(ek).to_multiset() == ranked(
                        iv.take(i as int),
                        tv,
                    ).to_multiset().insert(ek));
                }
            },
            None => {
                proof {
                    assert(ranked(iv.take(i + 1), tv) == ranked(iv.take(i as int), tv));
                }
            },
        }
        i += 1;
    }
    proof {
        assert(iv.take(items@.len() as int) =~= iv);
        let leq = |x: RankKey, y: RankKey| rank_le(x, y);
        lemma_rank_le_total_ordering();
        assert(sorted_by(keys(kept@), leq)) by {
            assert forall|a: int, b: int| 0 <= a < b < keys(kept@).len() implies #[trigger] leq(
                keys(kept@)[a],
                keys(kept@)[b],
            ) by {
                assert(rank_le(keys(kept@)[a], keys(kept@)[b]));
            }
        }
        ranked(iv, tv).lemma_sort_by_ensures(leq);
        vstd::seq_lib::lemma_sorted_unique(keys(kept@), ranked(iv, tv).sort_by(leq), leq);
    }
    let n = if kept.len() < cap {
        kept.len()
    } else {
        cap
    };
    let ghost ks = keys(kept@);
    let mut j: usize = 0;
    while j < n
        invariant
            j <= n <= kept@.len(),
            ks == keys(kept@),
            string_views(out@) == ks.take(j as int).map_values(|k: RankKey| k.2),
        decreases n - j,
    {
        let ghost old_out = out@;
        let sj = string_of_all(&kept[j].text);
        out.push(sj);
        proof {
            assert(string_views(out@) =~= string_views(old_out).push(sj@));
            assert(ks[j as int].2 == sj@);
            assert(ks.take(j + 1).map_values(|k: RankKey| k.2) =~= ks.take(j as int).map_values(
                |k: RankKey| k.2,
            ).push(ks[j as int].2));
        }
        j += 1;
    }
    proof {
        if kept@.len() <= cap {
            assert(ks.take(n as int) =~= ks);
        }
    }
    out
}

/// Score of a (lowercased) `needle` against one (lowercased) `haystack`;
/// lower is better, `None` when the needle is not a subsequence.
pub fn fuzzy_score_one(haystack: &str, needle: &str) -> (r: Option<i32>)
    requires
        haystack@.len() <= 0x1000_0000,
        needle@.len() <= 0x1000_0000,
    ensures
        r matches Some(s) ==> fuzzy_one(haystack@, needle@) == Some(s as int),
        r is None ==> fuzzy_one(haystack@, needle@) is None,
{
    let h = chars_of(haystack);
    let n = chars_of(needle);
    match fuzzy_one_exec(&h, &n) {
        Some(s) => {
            proof {
                lemma_fuzzy_one_bounds(h@, n@);
            }
            Some(s as i32)
        },
        None => None,
    }
}

/// Score of a (lowercased) `needle` against a (lowercased) `haystack`,
/// preferring a match on the final `/` segment (model id).
pub fn fuzzy_score(haystack: &str, needle: &str) -> (r: Option<i32>)
    requires
        haystack@.len() <= 0x1000_0000,
        needle@.len() <= 0x1000_0000,
    ensures
        r matches Some(s) ==> fuzzy(haystack@, needle@) == Some(s as int),
        r is None ==> fuzzy(haystack@, needle@) is None,
{
    let h = chars_of(haystack);
    let n = chars_of(needle);
    match fuzzy_exec(&h, &n) {
        Some(s) => Some(s as i32),
        None => None,
    }
}

/// `rank_and_filter` for inputs of any size: `None` exactly when the
/// lowercased query or some lowercased item reaches 2^32 characters.
pub fn rank_and_filter_checked(items: &[String], query: &str, cap: usize) -> (r: Option<
    Vec<String>,
>)
    ensures
        r is Some <==> rank_within_bounds(string_views(items@), query@),
        r matches Some(v) ==> string_views(v@) == rank_result(string_views(items@), query@, cap as nat),
{
    let ghost iv = string_views(items@);
    let t = trim_str(query);
    let q = to_lowercase(t.as_str());
    let qv = chars_of(q.as_str());
    if qv.len() as u64 > 0x1_0000_0000u64 {
        return None;
    }
    let mut i: usize = 0;
    while i < items.len()
        invariant
            i <= items@.len(),
            iv == string_views(items@),
            forall|k: int| 0 <= k < i ==> #[trigger] spec_to_lowercase(iv[k]).len() <= 0x1_0000_0000,
        decreases items@.len() - i,
    {
        let lower = to_lowercase(items[i].as_str());
        let lv = chars_of(lower.as_str());
        proof {
            assert(iv[i as int] == items@[i as int]@);
        }
        if lv.len() as u64 > 0x1_0000_0000u64 {
            return None;
        }
        i += 1;
    }
    Some(rank_and_filter(items, query, cap))
}

proof fn lemma_ranked_members(items: Seq<Seq<char>>, toks: Seq<Seq<char>>, k: RankKey)
    requires
        ranked(items, toks).contains(k),
    ensures
        items.contains(k.2),
        total_score(spec_to_lowercase(k.2), toks) == Some(k.0),
    decreases items.len(),
{
    let prev = ranked(items.drop_last(), toks);
    let it = items.last();
    if prev.contains(k) {
        lemma_ranked_members(items.drop_last(), toks, k);
        let j = choose|j: int| 0 <= j < items.drop_last().len() && items.drop_last()[j] == k.2;
        assert(items[j] == k.2);
    } else {
        match total_score(spec_to_lowercase(it), toks) {
            Some(t) => {
                let i = choose|i: int| 0 <= i < prev.push((t, byte_len(it), it)).len() && prev.push((t, byte_len(it), it))[i] == k;
                if i < prev.len() {
                    assert(prev.contains(k));
                }
                assert(items[items.len() - 1] == it);
            },
            None => {},
        }
    }
}

/// What ranking returns is at most `cap` of the items; with a query, every
/// one of them matches every word of it.
pub proof fn lemma_rank_result_sound(items: Seq<Seq<char>>, query: Seq<char>, cap: nat)
    ensures
        rank_result(items, query, cap).len() <= cap,
        forall|i: int| 0 <= i < rank_result(items, query, cap).len() ==> items.contains(
            #[trigger] rank_result(items, query, cap)[i],
        ),
        spec_to_lowercase(trim(query)).len() > 0 ==> forall|i: int|
            0 <= i < rank_result(items, query, cap).len() ==> (#[trigger] total_score(
                spec_to_lowercase(rank_result(items, query, cap)[i]),
                words(spec_to_lowercase(trim(query))),
            )) is Some,
{
    let q = spec_to_lowercase(trim(query));
    let r = rank_result(items, query, cap);
    if q.len() == 0 {
        assert forall|i: int| 0 <= i < r.len() implies items.contains(#[trigger] r[i]) by {
            assert(r[i] == items[i]);
        }
    } else {
        let toks = words(q);
        let leq = |x: RankKey, y: RankKey| rank_le(x, y);
        let base = ranked(items, toks);
        let s = base.sort_by(leq);
        lemma_rank_le_total_ordering();
        base.lemma_sort_by_ensures(leq);
        let t = take_at_most(s, cap);
        assert(r == t.map_values(|k: RankKey| k.2));
        assert forall|i: int| 0 <= i < r.len() implies items.contains(#[trigger] r[i]) && total_score(
            spec_to_lowercase(r[i]),
            toks,
        ) is Some by {
            let k = t[i];
            assert(k == s[i]);
            assert(s.contains(k));
            if !base.contains(k) {
                assert(!s.contains(k));
            }
            lemma_ranked_members(items, toks, k);
        }
    }
}

} // verus!
