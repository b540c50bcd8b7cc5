//! The summary of a directory attached to a message for `#dir` tokens.

use vstd::prelude::*;
use vstd::relations::{sorted_by, total_ordering};
use crate::order::{chars_le, chars_le_exec, lemma_chars_le_total_ordering};
use crate::text::{chars_of, string_views};

verus! {

/// Names in lexicographic order (`sort` on strings).
pub open spec fn sorted_names(names: Seq<Seq<char>>) -> Seq<Seq<char>> {
    names.sort_by(|a: Seq<char>, b: Seq<char>| chars_le(a, b))
}

/// Insert `x` after every element ordered at or before it.
fn insert_sorted(v: &mut Vec<String>, x: String)
    requires
        sorted_by(string_views(old(v)@), |a: Seq<char>, b: Seq<char>| chars_le(a, b)),
    ensures
        sorted_by(string_views(final(v)@), |a: Seq<char>, b: Seq<char>| chars_le(a, b)),
        string_views(final(v)@).to_multiset() == string_views(old(v)@).to_multiset().insert(x@),
{
    broadcast use vstd::seq_lib::group_to_multiset_ensures;

    let ghost leq = |a: Seq<char>, b: Seq<char>| chars_le(a, b);
    let ghost k0 = string_views(v@);
    let xv = chars_of(x.as_str());
    let mut p: usize = 0;
    while p < v.len() && chars_le_exec(&chars_of(v[p].as_str()), &xv)
        invariant
            p <= v.len(),
            k0 == string_views(v@),
            xv@ == x@,
            forall|a: int| 0 <= a < p ==> chars_le(#[trigger] k0[a], x@),
        decreases v.len() - p,
    {
        proof {
            assert(k0[p as int] == v@[p as int]@);
        }
        p += 1;
    }
    proof {
        lemma_chars_le_total_ordering();
        if p < v.len() {
            assert(k0[p as int] == v@[p as int]@);
            assert(!chars_le(k0[p as int], x@));
            assert(leq(k0[p as int], x@) || leq(x@, k0[p as int]));
        }
    }
    let ghost xs = x@;
    v.insert(p, x);
    proof {
        let k1 = string_views(v@);
        assert(k1 =~= k0.insert(p as int, xs));
        vstd::seq_lib::to_multiset_insert(k0, p as int, xs);
        assert forall|a: int, b: int| 0 <= a < b < k1.len() implies #[trigger] leq(k1[a], k1[b]) by {
            if b < p {
                assert(leq(k0[a], k0[b]));
            } else if b == p {
                assert(chars_le(k0[a], xs));
            } else if a < p {
                assert(leq(k0[a], xs));
                assert(leq(xs, k0[p as int]));
                if p < b - 1 {
                    assert(leq(k0[p as int], k0[b - 1]));
                }
            } else if a == p {
                if p < b - 1 {
                    assert(leq(k0[p as int], k0[b - 1]));
                }
            } else {
                assert(leq(k0[a - 1], k0[b - 1]));
            }
        }
    }
}

/// The names in lexicographic order.
pub fn sort_names(names: Vec<String>) -> (r: Vec<String>)
    ensures
        string_views(r@) == sorted_names(string_views(names@)),
{
    broadcast use vstd::seq_lib::group_to_multiset_ensures;

    let ghost nv = string_views(names@);
    let ghost leq = |a: Seq<char>, b: Seq<char>| chars_le(a, b);
    let mut out: Vec<String> = Vec::new();
    proof {
        assert(string_views(out@) =~= Seq::<Seq<char>>::empty());
    }
    let mut i: usize = 0;
    let n = names.len();
    let src = names;
    while i < n
        invariant
            i <= n,
            n == src.len(),
            nv == string_views(src@),
            sorted_by(string_views(out@), |a: Seq<char>, b: Seq<char>| chars_le(a, b)),
            string_views(out@).to_multiset() == nv.take(i as int).to_multiset(),
        decreases n - i,
    {
        let x = src[i].clone();
        proof {
            assert(nv[i as int] == src@[i as int]@);
            assert(nv.take(i + 1) =~= nv.take(i as int).push(x@));
            vstd::seq_lib::to_multiset_build(nv.take(i as int), x@);
        }
        insert_sorted(&mut out, x);
        i += 1;
    }
    proof {
        assert(nv.take(n as int) =~= nv);
        lemma_chars_le_total_ordering();
        nv.lemma_sort_by_ensures(leq);
        vstd::seq_lib::lemma_sorted_unique(string_views(out@), nv.sort_by(leq), leq);
    }
    out
}

/// Most entries listed.
pub open spec fn max_entries() -> nat {
    40
}

/// Lines of the listed names, each ended by a newline.
pub open spec fn name_lines(names: Seq<Seq<char>>) -> Seq<char>
    decreases names.len(),
{
    if names.len() == 0 {
        seq![]
    } else {
        name_lines(names.drop_last()) + names.last() + "\n"@
    }
}

/// The summary block: `<dir path="…">`, the first 40 names in order (a
/// `...` line when there were more), `</dir>`.
pub open spec fn dir_block(path: Seq<char>, names: Seq<Seq<char>>) -> Seq<char> {
    let s = sorted_names(names);
    let shown = if s.len() > max_entries() {
        s.take(max_entries() as int)
    } else {
        s
    };
    "<dir path=\""@ + path + "\">\n"@ + name_lines(shown) + (if s.len() > max_entries() {
        "...\n"@
    } else {
        seq![]
    }) + "</dir>"@
}

/// The summary block of a directory's entry names (directories already
/// marked with a trailing `/`).
pub fn dir_summary(path: &str, names: Vec<String>) -> (r: String)
    ensures
        r@ == dir_block(path@, string_views(names@)),
{
    let sorted = sort_names(names);
    let ghost s = string_views(sorted@);
    let more = sorted.len() > 40;
    let n = if more {
        40
    } else {
        sorted.len()
    };
    let mut out = "<dir path=\"".to_string();
    out.append(path);
    out.append("\">\n");
    let ghost head = out@;
    let mut i: usize = 0;
    proof {
        assert(s.take(0) =~= Seq::<Seq<char>>::empty());
        assert(out@ =~= head + name_lines(s.take(0)));
    }
    while i < n
        invariant
            i <= n <= sorted.len(),
            s == string_views(sorted@),
            out@ == head + name_lines(s.take(i as int)),
        decreases n - i,
    {
        out.append(sorted[i].as_str());
        out.append("\n");
        proof {
            assert(s.take(i + 1).drop_last() =~= s.take(i as int));
            assert(s.take(i + 1).last() == sorted@[i as int]@);
        }
        i += 1;
    }
    if more {
        out.append("...\n");
    }
    out.append("</dir>");
    proof {
        if !more {
            assert(s.take(n as int) =~= s);
        }
    }
    out
}

} // verus!
