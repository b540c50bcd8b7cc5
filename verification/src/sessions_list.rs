//! The `/sessions` listing: saved sessions, newest first.

use vstd::prelude::*;
use vstd::relations::{sorted_by, total_ordering};
use crate::beads::opt_seq;
use crate::order::{chars_le, chars_le_exec, chars_lt, lemma_chars_le_antisymmetric, lemma_chars_le_reflexive, lemma_chars_le_total, lemma_chars_le_transitive};
use crate::sessions_panel::{short_id, short_id_of, summary_views, SessionSummary, SummaryView};
use crate::text::{chars_of, decimal, push_decimal};

verus! {

/// Sort key of a listed session: its id and position.
pub type IdKey = (Seq<char>, int);

/// Newest first: ids in descending order; equal ids keep their order.
pub open spec fn newest_first(a: IdKey, b: IdKey) -> bool {
    chars_lt(b.0, a.0) || (a.0 == b.0 && a.1 <= b.1)
}

proof fn lemma_lt_facts(a: Seq<char>, b: Seq<char>)
    ensures
        chars_lt(a, b) || a == b || chars_lt(b, a),
        !(chars_lt(a, b) && chars_lt(b, a)),
{
    lemma_chars_le_total(a, b);
    if chars_lt(a, b) && chars_lt(b, a) {
        lemma_chars_le_antisymmetric(a, b);
    }
}

proof fn lemma_lt_trans(a: Seq<char>, b: Seq<char>, c: Seq<char>)
    requires
        chars_lt(a, b),
        chars_lt(b, c),
    ensures
        chars_lt(a, c),
{
    lemma_chars_le_transitive(a, b, c);
    if a == c {
        lemma_chars_le_antisymmetric(a, b);
    }
}

/// `newest_first` is a total order.
pub proof fn lemma_newest_first_total()
    ensures
        total_ordering(|a: IdKey, b: IdKey| newest_first(a, b)),
{
    let r = |a: IdKey, b: IdKey| newest_first(a, b);
    assert forall|x: IdKey| #[trigger] r(x, x) by {}
    assert forall|x: IdKey, y: IdKey| #[trigger] r(x, y) && #[trigger] r(y, x) implies x == y by {
        lemma_lt_facts(x.0, y.0);
    }
    assert forall|x: IdKey, y: IdKey, z: IdKey| #[trigger] r(x, y) && #[trigger] r(y, z) implies r(x, z) by {
        lemma_lt_facts(x.0, y.0);
        lemma_lt_facts(y.0, z.0);
        lemma_lt_facts(x.0, z.0);
        if chars_lt(y.0, x.0) && chars_lt(z.0, y.0) {
            lemma_lt_trans(z.0, y.0, x.0);
        }
    }
    assert forall|x: IdKey, y: IdKey| #[trigger] r(x, y) || #[trigger] r(y, x) by {
        lemma_lt_facts(x.0, y.0);
    }
}

/// The sessions' sort keys.
pub open spec fn id_keys(s: Seq<SummaryView>) -> Seq<IdKey> {
    Seq::new(s.len(), |i: int| (s[i].id, i))
}

/// The sessions newest first.
pub open spec fn by_newest(s: Seq<SummaryView>) -> Seq<SummaryView> {
    id_keys(s).sort_by(|a: IdKey, b: IdKey| newest_first(a, b)).map_values(|k: IdKey| s[k.1])
}

fn lt_exec(a: &Vec<char>, b: &Vec<char>) -> (r: bool)
    ensures
        r == chars_lt(a@, b@),
{
    let ab = chars_le_exec(a, b);
    let ba = chars_le_exec(b, a);
    proof {
        if ab && ba {
            lemma_chars_le_antisymmetric(a@, b@);
        }
        if a@ == b@ {
            lemma_chars_le_reflexive(a@);
        }
    }
    ab && !ba
}

spec fn keys_at(ids: Seq<Vec<char>>, idx: Seq<usize>) -> Seq<IdKey> {
    idx.map_values(|i: usize| (ids[i as int]@, i as int))
}

/// Positions of the ids, newest first.
fn newest_positions(ids: &Vec<Vec<char>>) -> (r: Vec<usize>)
    ensures
        keys_at(ids@, r@) == Seq::new(ids.len() as nat, |i: int| (ids@[i]@, i)).sort_by(
            |a: IdKey, b: IdKey| newest_first(a, b),
        ),
        forall|j: int| 0 <= j < r.len() ==> r@[j] < ids.len(),
        r.len() == ids.len(),
{
    broadcast use vstd::seq_lib::group_to_multiset_ensures;

    let ghost all = Seq::new(ids.len() as nat, |i: int| (ids@[i]@, i));
    let ghost leq = |a: IdKey, b: IdKey| newest_first(a, b);
    let mut idx: Vec<usize> = Vec::new();
    let mut n: usize = 0;
    proof {
        assert(keys_at(ids@, idx@) =~= all.take(0));
    }
    while n < ids.len()
        invariant
            n <= ids.len(),
            all == Seq::new(ids.len() as nat, |i: int| (ids@[i]@, i)),
            leq == (|a: IdKey, b: IdKey| newest_first(a, b)),
            idx.len() == n,
            forall|j: int| 0 <= j < idx.len() ==> idx@[j] < n,
            sorted_by(keys_at(ids@, idx@), leq),
            keys_at(ids@, idx@).to_multiset() == all.take(n as int).to_multiset(),
        decreases ids.len() - n,
    {
        let ghost k0 = keys_at(ids@, idx@);
        let ghost nk = (ids@[n as int]@, n as int);
        let mut p: usize = 0;
        while p < idx.len() && (lt_exec(&ids[n], &ids[idx[p]]) || !lt_exec(&ids[idx[p]], &ids[n]))
            invariant
                p <= idx.len(),
                idx.len() == n,
                n < ids.len(),
                k0 == keys_at(ids@, idx@),
                nk == (ids@[n as int]@, n as int),
                forall|j: int| 0 <= j < idx.len() ==> idx@[j] < n,
                forall|a: int| 0 <= a < p ==> newest_first(#[trigger] k0[a], nk),
            decreases idx.len() - p,
        {
            proof {
                lemma_lt_facts(ids@[n as int]@, ids@[idx@[p as int] as int]@);
            }
            p += 1;
        }
        proof {
            lemma_newest_first_total();
            if p < idx.len() {
                lemma_lt_facts(ids@[n as int]@, ids@[idx@[p as int] as int]@);
                assert(!newest_first(k0[p as int], nk));
                assert(leq(k0[p as int], nk) || leq(nk, k0[p as int]));
            }
        }
        let ghost old_idx = idx@;
        idx.insert(p, n);
        proof {
            let k1 = keys_at(ids@, idx@);
            assert(k1 =~= k0.insert(p as int, nk));
            assert(all.take(n + 1) =~= all.take(n as int).push(nk));
            vstd::seq_lib::to_multiset_build(all.take(n as int), nk);
            vstd::seq_lib::to_multiset_insert(k0, p as int, nk);
            assert forall|a: int, b: int| 0 <= a < b < k1.len() implies #[trigger] leq(k1[a], k1[b]) by {
                if b < p {
                    assert(leq(k0[a], k0[b]));
                } else if b == p {
                    assert(newest_first(k0[a], nk));
                } else if a < p {
                    assert(leq(k0[a], nk));
                    if p < b - 1 {
                        assert(leq(k0[p as int], k0[b - 1]));
                    }
                } else if a == p {
                    if p < b - 1 {
                        assert(leq(k0[p as int], k0[b - 1]));
                    }
                } else {
                    assert(leq(k0[a - 1], k0[b - 1]));
                }
            }
            assert forall|j: int| 0 <= j < idx.len() implies idx@[j] < n + 1 by {
                if j < p {
                    assert(idx@[j] == old_idx[j]);
                } else if j > p {
                    assert(idx@[j] == old_idx[j - 1]);
                }
            }
        }
        n += 1;
    }
    proof {
        assert(all.take(ids.len() as int) =~= all);
        lemma_newest_first_total();
        all.lemma_sort_by_ensures(leq);
        vstd::seq_lib::lemma_sorted_unique(keys_at(ids@, idx@), all.sort_by(leq), leq);
    }
    idx
}

/// One listed session: short id, message count, model, title, and the
/// session it was forked from (with its branch label).
pub open spec fn session_entry(s: SummaryView) -> Seq<char> {
    "  "@ + short_id_of(s.id) + "  "@ + decimal(s.message_count) + " msgs  "@ + s.model + "  \u{2014} "@ + match s.title {
        Some(t) => t,
        None => "(untitled)"@,
    } + fork_note(s.parent_id, s.branch_label) + "\n"@
}

/// The entries of several sessions.
pub open spec fn session_entries(s: Seq<SummaryView>) -> Seq<char>
    decreases s.len(),
{
    if s.len() == 0 {
        seq![]
    } else {
        session_entries(s.drop_last()) + session_entry(s.last())
    }
}

/// The `/sessions` text: the 20 newest sessions and how to resume or fork.
pub open spec fn sessions_text(s: Seq<SummaryView>) -> Seq<char> {
    if s.len() == 0 {
        "No saved sessions."@
    } else {
        let n = by_newest(s);
        "Sessions (newest first):\n"@ + session_entries(if n.len() > 20 { n.take(20) } else { n })
            + "Resume: rs-agent -r <id> \u{b7} rs-agent -r latest \u{b7} Fork: /fork [label]"@
    }
}

/// The fork note of a session.
pub open spec fn fork_note(parent: Option<Seq<char>>, label: Option<Seq<char>>) -> Seq<char> {
    match (parent, label) {
        (Some(p), Some(l)) => " \u{21a9}"@ + short_id_of(p) + " ["@ + l + "]"@,
        (Some(p), None) => " \u{21a9}"@ + short_id_of(p),
        _ => seq![],
    }
}

fn push_fork_note(out: &mut String, parent: &Option<String>, label: &Option<String>)
    ensures
        final(out)@ == old(out)@ + fork_note(opt_seq(*parent), opt_seq(*label)),
{
    match (parent, label) {
        (Some(p), Some(l)) => {
            out.append(" \u{21a9}");
            out.append(short_id(p.as_str()).as_str());
            out.append(" [");
            out.append(l.as_str());
            out.append("]");
        },
        (Some(p), None) => {
            out.append(" \u{21a9}");
            out.append(short_id(p.as_str()).as_str());
        },
        _ => {},
    }
}

fn push_entry(out: &mut String, s: &SessionSummary)
    ensures
        final(out)@ == old(out)@ + session_entry(s@),
{
    let ghost start = out@;
    out.append("  ");
    out.append(short_id(s.id.as_str()).as_str());
    out.append("  ");
    push_decimal(out, s.message_count as u64);
    out.append(" msgs  ");
    out.append(s.model.as_str());
    out.append("  \u{2014} ");
    match &s.title {
        Some(t) => out.append(t.as_str()),
        None => out.append("(untitled)"),
    }
    let ghost mid = out@;
    push_fork_note(out, &s.parent_id, &s.branch_label);
    out.append("\n");
    proof {
        assert(out@ =~= mid + fork_note(opt_seq(s.parent_id), opt_seq(s.branch_label)) + "\n"@);
    }
}

/// The `/sessions` text for the saved sessions.
pub fn sessions_listing(summaries: &Vec<SessionSummary>) -> (r: String)
    ensures
        r@ == sessions_text(summary_views(summaries@)),
{
    if summaries.len() == 0 {
        return "No saved sessions.".to_string();
    }
    let ghost sv = summary_views(summaries@);
    let mut ids: Vec<Vec<char>> = Vec::new();
    let mut i: usize = 0;
    while i < summaries.len()
        invariant
            i <= summaries.len(),
            ids.len() == i,
            sv == summary_views(summaries@),
            forall|j: int| 0 <= j < i ==> (#[trigger] ids@[j])@ == sv[j].id,
        decreases summaries.len() - i,
    {
        let ghost before = ids@;
        ids.push(chars_of(summaries[i].id.as_str()));
        proof {
            assert forall|j: int| 0 <= j < i + 1 implies (#[trigger] ids@[j])@ == sv[j].id by {
                if j < i {
                    assert(ids@[j] == before[j]);
                }
            }
        }
        i += 1;
    }
    let idx = newest_positions(&ids);
    let ghost all = Seq::new(ids.len() as nat, |i: int| (ids@[i]@, i));
    proof {
        assert(all =~= id_keys(sv));
        lemma_newest_first_total();
    }
    let ghost sorted = id_keys(sv).sort_by(|a: IdKey, b: IdKey| newest_first(a, b));
    let ghost order = by_newest(sv);
    let n = if idx.len() > 20 {
        20
    } else {
        idx.len()
    };
    let ghost shown = if order.len() > 20 {
        order.take(20)
    } else {
        order
    };
    let mut out = "Sessions (newest first):\n".to_string();
    let ghost head = out@;
    let mut j: usize = 0;
    proof {
        assert(shown.take(0) =~= Seq::<SummaryView>::empty());
    }
    while j < n
        invariant
            j <= n <= idx.len(),
            n == shown.len(),
            idx.len() == summaries.len(),
            forall|q: int| 0 <= q < idx.len() ==> idx@[q] < summaries.len(),
            sv == summary_views(summaries@),
            keys_at(ids@, idx@) == sorted,
            order == sorted.map_values(|k: IdKey| sv[k.1]),
            shown == (if order.len() > 20 {
                order.take(20)
            } else {
                order
            }),
            out@ == head + session_entries(shown.take(j as int)),
        decreases n - j,
    {
        push_entry(&mut out, &summaries[idx[j]]);
        proof {
            assert(sorted[j as int].1 == idx@[j as int]);
            assert(shown[j as int] == sv[idx@[j as int] as int]);
            assert(sv[idx@[j as int] as int] == summaries@[idx@[j as int] as int]@);
            assert(shown.take(j + 1).drop_last() =~= shown.take(j as int));
        }
        j += 1;
    }
    proof {
        assert(shown.take(n as int) =~= shown);
    }
    out.append("Resume: rs-agent -r <id> \u{b7} rs-agent -r latest \u{b7} Fork: /fork [label]");
    out
}

/// Newest first: the listing keeps every session once and puts ids in
/// descending order.
pub proof fn lemma_by_newest_descending(s: Seq<SummaryView>)
    ensures
        by_newest(s).len() == s.len(),
        forall|i: int, j: int|
            0 <= i < j < by_newest(s).len() ==> chars_le(#[trigger] by_newest(s)[j].id, #[trigger] by_newest(s)[i].id),
{
    let leq = |a: IdKey, b: IdKey| newest_first(a, b);
    let ks = id_keys(s);
    lemma_newest_first_total();
    ks.lemma_sort_by_ensures(leq);
    let t = ks.sort_by(leq);
    vstd::seq_lib::to_multiset_len(ks);
    vstd::seq_lib::to_multiset_len(t);
    assert forall|i: int| 0 <= i < t.len() implies 0 <= (#[trigger] t[i]).1 < s.len() && t[i].0 == s[t[i].1].id by {
        assert(t.contains(t[i]));
        if !ks.contains(t[i]) {
            assert(!t.contains(t[i]));
        }
        let k = choose|k: int| 0 <= k < ks.len() && ks[k] == t[i];
        assert(ks[k] == (s[k].id, k));
    }
    let r = by_newest(s);
    assert forall|i: int, j: int| 0 <= i < j < r.len() implies chars_le(#[trigger] r[j].id, #[trigger] r[i].id) by {
        assert(leq(t[i], t[j]));
        assert(r[i] == s[t[i].1]);
        assert(r[j] == s[t[j].1]);
        if r[i].id == r[j].id {
            lemma_chars_le_reflexive(r[i].id);
        }
    }
}

} // verus!
