//! Filterable help overlay: key bindings and slash commands, grouped.

use vstd::prelude::*;
use vstd::relations::{sorted_by, total_ordering};
use crate::keys::{binding_or_empty, KeyMap};
use crate::order::{chars_le, chars_le_exec, chars_lt, lemma_chars_le_antisymmetric, lemma_chars_le_reflexive, lemma_chars_le_total, lemma_chars_le_transitive};
use crate::text::{chars_of, contains, contains_exec, spec_to_lowercase, to_lowercase, trim, trim_str};

verus! {

/// Help overlay state: the filter text and the selected line.
#[derive(Debug, Clone)]
pub struct HelpOverlay {
    pub query: String,
    pub selection: usize,
}

impl Default for HelpOverlay {
    fn default() -> (r: Self)
        ensures
            r.query@.len() == 0,
            r.selection == 0,
    {
        HelpOverlay { query: String::new(), selection: 0 }
    }
}

/// One help line: keys, what they do, and their group.
#[derive(Debug, Clone)]
pub struct HelpEntry {
    pub keys: String,
    pub desc: String,
    pub group: &'static str,
}

/// Value of a help line.
pub struct EntryView {
    pub keys: Seq<char>,
    pub desc: Seq<char>,
    pub group: Seq<char>,
}

impl View for HelpEntry {
    type V = EntryView;

    open spec fn view(&self) -> EntryView {
        EntryView { keys: self.keys@, desc: self.desc@, group: self.group@ }
    }
}

/// Views of a list of help lines.
pub open spec fn entry_views(s: Seq<HelpEntry>) -> Seq<EntryView> {
    s.map_values(|e: HelpEntry| e@)
}

/// Keys of the four permission answers, `once/path/always/deny`.
pub open spec fn perm_keys(m: Map<Seq<char>, Seq<char>>) -> Seq<char> {
    binding_or_empty(m, "perm_once"@) + "/"@ + binding_or_empty(m, "perm_path"@) + "/"@
        + binding_or_empty(m, "perm_always"@) + "/"@ + binding_or_empty(m, "perm_deny"@)
}

/// The help lines in listing order, keys taken from the key map.
pub open spec fn listed_entries(m: Map<Seq<char>, Seq<char>>) -> Seq<EntryView> {
    seq![
        EntryView { keys: "^C"@, desc: "quit"@, group: "global"@ },
        EntryView { keys: binding_or_empty(m, "insert"@), desc: "enter insert mode"@, group: "normal"@ },
        EntryView { keys: "Esc"@, desc: "normal mode / abort / dismiss overlay"@, group: "global"@ },
        EntryView { keys: binding_or_empty(m, "toggle_thinking"@), desc: "toggle thinking block"@, group: "normal"@ },
        EntryView { keys: binding_or_empty(m, "expand_tool"@), desc: "expand/collapse last tool"@, group: "normal"@ },
        EntryView { keys: binding_or_empty(m, "toggle_tree"@), desc: "toggle call tree panel"@, group: "normal"@ },
        EntryView { keys: binding_or_empty(m, "jump_bottom"@), desc: "jump to bottom"@, group: "normal"@ },
        EntryView { keys: perm_keys(m), desc: "permission once / path / always / deny"@, group: "permission"@ },
        EntryView { keys: "?"@, desc: "this help (filterable)"@, group: "global"@ },
        EntryView { keys: "^K"@, desc: "command palette"@, group: "global"@ },
        EntryView { keys: "^P"@, desc: "cycle provider/model"@, group: "global"@ },
        EntryView { keys: "@ / #"@, desc: "file / directory picker"@, group: "insert"@ },
        EntryView { keys: "/help"@, desc: "list slash commands"@, group: "slash"@ },
        EntryView { keys: "/keys"@, desc: "keybind cheat sheet"@, group: "slash"@ },
        EntryView { keys: "/theme"@, desc: "switch theme dark|light|forest"@, group: "slash"@ },
        EntryView { keys: "/settings"@, desc: "settings modal"@, group: "slash"@ },
        EntryView { keys: "/tree"@, desc: "Deep Context call tree"@, group: "slash"@ },
        EntryView { keys: "/timeline"@, desc: "session timeline / fork"@, group: "slash"@ },
        EntryView { keys: binding_or_empty(m, "toggle_sessions"@), desc: "toggle sessions panel"@, group: "normal"@ },
        EntryView { keys: binding_or_empty(m, "toggle_city"@), desc: "toggle city cockpit (wish/spawn/watch)"@, group: "normal"@ },
        EntryView { keys: "/fleet"@, desc: "city cockpit panel (alias /city)"@, group: "slash"@ },
        EntryView { keys: "w/u/d"@, desc: "city: wish / spawn / stop (panel open)"@, group: "city"@ },
        EntryView { keys: "f/a/o/s/b"@, desc: "seat detail: follow/attach/open/steer/abort"@, group: "city"@ },
        EntryView { keys: "/model /provider"@, desc: "model / provider pickers"@, group: "slash"@ },
        EntryView { keys: "/goal"@, desc: "set / pause / clear auto-continue goal"@, group: "slash"@ },
    ]
}

/// Sort key of a help line: group, keys, then listing position.
pub type HelpKey = (Seq<char>, Seq<char>, int);

/// Order by group, then keys (lexicographic), then listing position.
pub open spec fn help_le(a: HelpKey, b: HelpKey) -> bool {
    chars_lt(a.0, b.0) || (a.0 == b.0 && (chars_lt(a.1, b.1) || (a.1 == b.1 && a.2 <= b.2)))
}

/// Sort keys of the help lines.
pub open spec fn help_keys(s: Seq<EntryView>) -> Seq<HelpKey> {
    Seq::new(s.len(), |i: int| (s[i].group, s[i].keys, i))
}

/// The help lines sorted by group, then keys; lines with equal group and
/// keys keep their listing order.
pub open spec fn help_order(s: Seq<EntryView>) -> Seq<EntryView> {
    help_keys(s).sort_by(|a: HelpKey, b: HelpKey| help_le(a, b)).map_values(|k: HelpKey| s[k.2])
}

fn perm_keys_exec(keys: &KeyMap) -> (r: String)
    ensures
        r@ == perm_keys(keys@),
{
    let mut s = keys.binding("perm_once").to_string();
    s.append("/");
    s.append(keys.binding("perm_path"));
    s.append("/");
    s.append(keys.binding("perm_always"));
    s.append("/");
    s.append(keys.binding("perm_deny"));
    s
}

fn push_entry(e: &mut Vec<HelpEntry>, keys: String, desc: &str, group: &'static str)
    ensures
        entry_views(final(e)@) == entry_views(old(e)@).push(EntryView { keys: keys@, desc: desc@, group: group@ }),
{
    let ghost before = e@;
    let item = HelpEntry { keys, desc: desc.to_string(), group };
    e.push(item);
    proof {
        assert(entry_views(e@) =~= entry_views(before).push(item@));
    }
}

fn listed(keys: &KeyMap) -> (r: Vec<HelpEntry>)
    ensures
        entry_views(r@) == listed_entries(keys@),
{
    let mut e: Vec<HelpEntry> = Vec::new();
    proof {
        assert(entry_views(e@) =~= Seq::<EntryView>::empty());
    }
    push_entry(&mut e, "^C".to_string(), "quit", "global");
    push_entry(&mut e, keys.binding("insert").to_string(), "enter insert mode", "normal");
    push_entry(&mut e, "Esc".to_string(), "normal mode / abort / dismiss overlay", "global");
    push_entry(&mut e, keys.binding("toggle_thinking").to_string(), "toggle thinking block", "normal");
    push_entry(&mut e, keys.binding("expand_tool").to_string(), "expand/collapse last tool", "normal");
    push_entry(&mut e, keys.binding("toggle_tree").to_string(), "toggle call tree panel", "normal");
    push_entry(&mut e, keys.binding("jump_bottom").to_string(), "jump to bottom", "normal");
    push_entry(&mut e, perm_keys_exec(keys), "permission once / path / always / deny", "permission");
    push_entry(&mut e, "?".to_string(), "this help (filterable)", "global");
    push_entry(&mut e, "^K".to_string(), "command palette", "global");
    push_entry(&mut e, "^P".to_string(), "cycle provider/model", "global");
    push_entry(&mut e, "@ / #".to_string(), "file / directory picker", "insert");
    push_entry(&mut e, "/help".to_string(), "list slash commands", "slash");
    push_entry(&mut e, "/keys".to_string(), "keybind cheat sheet", "slash");
    push_entry(&mut e, "/theme".to_string(), "switch theme dark|light|forest", "slash");
    push_entry(&mut e, "/settings".to_string(), "settings modal", "slash");
    push_entry(&mut e, "/tree".to_string(), "Deep Context call tree", "slash");
    push_entry(&mut e, "/timeline".to_string(), "session timeline / fork", "slash");
    push_entry(&mut e, keys.binding("toggle_sessions").to_string(), "toggle sessions panel", "normal");
    push_entry(&mut e, keys.binding("toggle_city").to_string(), "toggle city cockpit (wish/spawn/watch)", "normal");
    push_entry(&mut e, "/fleet".to_string(), "city cockpit panel (alias /city)", "slash");
    push_entry(&mut e, "w/u/d".to_string(), "city: wish / spawn / stop (panel open)", "city");
    push_entry(&mut e, "f/a/o/s/b".to_string(), "seat detail: follow/attach/open/steer/abort", "city");
    push_entry(&mut e, "/model /provider".to_string(), "model / provider pickers", "slash");
    push_entry(&mut e, "/goal".to_string(), "set / pause / clear auto-continue goal", "slash");
    proof {
        assert(entry_views(e@) =~= listed_entries(keys@));
    }
    e
}

proof fn lemma_lt_or(a: Seq<char>, b: Seq<char>)
    ensures
        chars_lt(a, b) || a == b || chars_lt(b, a),
        !(chars_lt(a, b) && chars_lt(b, a)),
        !(chars_lt(a, b) && a == b),
{
    lemma_chars_le_total(a, b);
    if chars_lt(a, b) && chars_lt(b, a) {
        lemma_chars_le_antisymmetric(a, b);
    }
}

proof fn lemma_lt_trans(a: Seq<char>, b: Seq<char>, c: Seq<char>)
    requires
        chars_lt(a, b),
        chars_lt(b, c),
    ensures
        chars_lt(a, c),
{
    lemma_chars_le_transitive(a, b, c);
    if a == c {
        lemma_chars_le_antisymmetric(a, b);
    }
}

/// `help_le` is a total order.
pub proof fn lemma_help_le_total_ordering()
    ensures
        total_ordering(|a: HelpKey, b: HelpKey| help_le(a, b)),
{
    let r = |a: HelpKey, b: HelpKey| help_le(a, b);
    assert forall|x: HelpKey| #[trigger] r(x, x) by {}
    assert forall|x: HelpKey, y: HelpKey| #[trigger] r(x, y) && #[trigger] r(y, x) implies x == y by {
        lemma_lt_or(x.0, y.0);
        lemma_lt_or(x.1, y.1);
    }
    assert forall|x: HelpKey, y: HelpKey, z: HelpKey| #[trigger] r(x, y) && #[trigger] r(y, z) implies r(x, z) by {
        lemma_lt_or(x.0, y.0);
        lemma_lt_or(y.0, z.0);
        lemma_lt_or(x.0, z.0);
        lemma_lt_or(x.1, y.1);
        lemma_lt_or(y.1, z.1);
        if chars_lt(x.0, y.0) && chars_lt(y.0, z.0) {
            lemma_lt_trans(x.0, y.0, z.0);
        }
        if x.0 == y.0 && y.0 == z.0 && chars_lt(x.1, y.1) && chars_lt(y.1, z.1) {
            lemma_lt_trans(x.1, y.1, z.1);
        }
    }
    assert forall|x: HelpKey, y: HelpKey| #[trigger] r(x, y) || #[trigger] r(y, x) by {
        lemma_lt_or(x.0, y.0);
        lemma_lt_or(x.1, y.1);
    }
}

fn lt_exec(a: &Vec<char>, b: &Vec<char>) -> (r: bool)
    ensures
        r == chars_lt(a@, b@),
{
    let ab = chars_le_exec(a, b);
    let ba = chars_le_exec(b, a);
    proof {
        if ab && ba {
            lemma_chars_le_antisymmetric(a@, b@);
        }
        if a@ == b@ {
            lemma_chars_le_reflexive(a@);
        }
    }
    ab && !ba
}

fn help_le_exec(g: &Vec<Vec<char>>, k: &Vec<Vec<char>>, i: usize, j: usize) -> (r: bool)
    requires
        i < g.len(),
        j < g.len(),
        g.len() == k.len(),
    ensures
        r == help_le((g@[i as int]@, k@[i as int]@, i as int), (g@[j as int]@, k@[j as int]@, j as int)),
{
    let glt = lt_exec(&g[i], &g[j]);
    let ggt = lt_exec(&g[j], &g[i]);
    let klt = lt_exec(&k[i], &k[j]);
    let kgt = lt_exec(&k[j], &k[i]);
    proof {
        lemma_lt_or(g@[i as int]@, g@[j as int]@);
        lemma_lt_or(k@[i as int]@, k@[j as int]@);
    }
    glt || (!ggt && (klt || (!kgt && i <= j)))
}

/// Sort keys of the listed positions `idx`.
spec fn keys_at(g: Seq<Vec<char>>, k: Seq<Vec<char>>, idx: Seq<usize>) -> Seq<HelpKey> {
    idx.map_values(|i: usize| (g[i as int]@, k[i as int]@, i as int))
}

/// Listing positions `0..n` in help order.
fn sorted_positions(g: &Vec<Vec<char>>, k: &Vec<Vec<char>>) -> (r: Vec<usize>)
    requires
        g.len() == k.len(),
    ensures
        keys_at(g@, k@, r@) == Seq::new(g.len() as nat, |i: int| (g@[i]@, k@[i]@, i)).sort_by(
            |a: HelpKey, b: HelpKey| help_le(a, b),
        ),
        forall|j: int| 0 <= j < r.len() ==> r@[j] < g.len(),
        r.len() == g.len(),
{
    broadcast use vstd::seq_lib::group_to_multiset_ensures;

    let ghost all = Seq::new(g.len() as nat, |i: int| (g@[i]@, k@[i]@, i));
    let ghost leq = |a: HelpKey, b: HelpKey| help_le(a, b);
    let mut idx: Vec<usize> = Vec::new();
    let mut n: usize = 0;
    proof {
        assert(keys_at(g@, k@, idx@) =~= all.take(0));
    }
    while n < g.len()
        invariant
            n <= g.len(),
            g.len() == k.len(),
            all == Seq::new(g.len() as nat, |i: int| (g@[i]@, k@[i]@, i)),
            leq == (|a: HelpKey, b: HelpKey| help_le(a, b)),
            idx.len() == n,
            forall|j: int| 0 <= j < idx.len() ==> idx@[j] < n,
            sorted_by(keys_at(g@, k@, idx@), leq),
            keys_at(g@, k@, idx@).to_multiset() == all.take(n as int).to_multiset(),
        decreases g.len() - n,
    {
        let ghost k0 = keys_at(g@, k@, idx@);
        let ghost nk = (g@[n as int]@, k@[n as int]@, n as int);
        let mut p: usize = 0;
        while p < idx.len() && help_le_exec(g, k, idx[p], n)
            invariant
                p <= idx.len(),
                idx.len() == n,
                n < g.len(),
                g.len() == k.len(),
                k0 == keys_at(g@, k@, idx@),
                nk == (g@[n as int]@, k@[n as int]@, n as int),
                forall|j: int| 0 <= j < idx.len() ==> idx@[j] < n,
                forall|a: int| 0 <= a < p ==> help_le(#[trigger] k0[a], nk),
            decreases idx.len() - p,
        {
            p += 1;
        }
        proof {
            lemma_help_le_total_ordering();
        }
        let ghost old_idx = idx@;
        idx.insert(p, n);
        proof {
            let k1 = keys_at(g@, k@, idx@);
            assert(k1 =~= k0.insert(p as int, nk));
            assert(all.take(n + 1) =~= all.take(n as int).push(nk));
            vstd::seq_lib::to_multiset_build(all.take(n as int), nk);
            vstd::seq_lib::to_multiset_insert(k0, p as int, nk);
            if p < k0.len() {
                assert(!help_le(k0[p as int], nk));
                assert(leq(k0[p as int], nk) || leq(nk, k0[p as int]));
                assert(leq(nk, k0[p as int]));
            }
            assert forall|a: int, b: int| 0 <= a < b < k1.len() implies #[trigger] leq(k1[a], k1[b]) by {
                if b < p {
                    assert(leq(k0[a], k0[b]));
                } else if b == p {
                    assert(help_le(k0[a], nk));
                } else if a < p {
                    assert(leq(k0[a], nk));
                    assert(leq(nk, k0[p as int]));
                    if p < b - 1 {
                        assert(leq(k0[p as int], k0[b - 1]));
                    }
                } else if a == p {
                    if p < b - 1 {
                        assert(leq(k0[p as int], k0[b - 1]));
                    }
                } else {
                    assert(leq(k0[a - 1], k0[b - 1]));
                }
            }
            assert forall|j: int| 0 <= j < idx.len() implies idx@[j] < n + 1 by {
                if j < p {
                    assert(idx@[j] == old_idx[j]);
                } else if j > p {
                    assert(idx@[j] == old_idx[j - 1]);
                }
            }
        }
        n += 1;
    }
    proof {
        assert(all.take(g.len() as int) =~= all);
        lemma_help_le_total_ordering();
        all.lemma_sort_by_ensures(leq);
        vstd::seq_lib::lemma_sorted_unique(keys_at(g@, k@, idx@), all.sort_by(leq), leq);
    }
    idx
}

impl HelpEntry {
    /// A copy with the same value.
    pub fn copy(&self) -> (r: HelpEntry)
        ensures
            r@ == self@,
    {
        HelpEntry { keys: self.keys.clone(), desc: self.desc.clone(), group: self.group }
    }
}

/// Help lines for the key map, sorted by group, then keys.
pub fn build_entries(keys: &KeyMap) -> (r: Vec<HelpEntry>)
    ensures
        entry_views(r@) == help_order(listed_entries(keys@)),
{
    let raw = listed(keys);
    let ghost ev = entry_views(raw@);
    let mut g: Vec<Vec<char>> = Vec::new();
    let mut k: Vec<Vec<char>> = Vec::new();
    let mut i: usize = 0;
    while i < raw.len()
        invariant
            i <= raw.len(),
            g.len() == i,
            k.len() == i,
            ev == entry_views(raw@),
            forall|j: int| 0 <= j < i ==> (#[trigger] g@[j])@ == ev[j].group && k@[j]@ == ev[j].keys,
        decreases raw.len() - i,
    {
        let gi = chars_of(raw[i].group);
        let ki = chars_of(raw[i].keys.as_str());
        proof {
            assert(ev[i as int] == raw@[i as int]@);
        }
        let ghost g0 = g@;
        let ghost k0 = k@;
        g.push(gi);
        k.push(ki);
        proof {
            assert forall|j: int| 0 <= j < i + 1 implies (#[trigger] g@[j])@ == ev[j].group && k@[j]@ == ev[j].keys by {
                if j < i {
                    assert(g@[j] == g0[j]);
                    assert(k@[j] == k0[j]);
                }
            }
        }
        i += 1;
    }
    let idx = sorted_positions(&g, &k);
    let ghost all = Seq::new(g.len() as nat, |i: int| (g@[i]@, k@[i]@, i));
    proof {
        assert(all =~= help_keys(ev));
        lemma_help_le_total_ordering();
    }
    let ghost sorted = help_keys(ev).sort_by(|a: HelpKey, b: HelpKey| help_le(a, b));
    let ghost target = help_order(ev);
    let mut out: Vec<HelpEntry> = Vec::new();
    let mut j: usize = 0;
    while j < idx.len()
        invariant
            j <= idx.len(),
            idx.len() == raw.len(),
            forall|q: int| 0 <= q < idx.len() ==> idx@[q] < raw.len(),
            ev == entry_views(raw@),
            keys_at(g@, k@, idx@) == sorted,
            target == sorted.map_values(|kk: HelpKey| ev[kk.2]),
            entry_views(out@) == target.take(j as int),
        decreases idx.len() - j,
    {
        let e = raw[idx[j]].copy();
        let ghost before = out@;
        out.push(e);
        proof {
            assert(sorted[j as int].2 == idx@[j as int]);
            assert(target[j as int] == ev[idx@[j as int] as int]);
            assert(entry_views(out@) =~= entry_views(before).push(e@));
            assert(entry_views(out@) =~= target.take(j + 1));
        }
        j += 1;
    }
    proof {
        assert(target.take(idx.len() as int) =~= target);
    }
    out
}

/// Whether a help line matches a (trimmed, lowercased) filter: in its
/// lowercased keys or description, or in its group.
pub open spec fn entry_matches(e: EntryView, q: Seq<char>) -> bool {
    contains(spec_to_lowercase(e.keys), q) || contains(spec_to_lowercase(e.desc), q) || contains(e.group, q)
}

/// The filter as it is matched: trimmed, then lowercased.
pub open spec fn help_query(query: Seq<char>) -> Seq<char> {
    spec_to_lowercase(trim(query))
}

/// Predicate form of `entry_matches`.
pub open spec fn matches_query(q: Seq<char>) -> spec_fn(EntryView) -> bool {
    |e: EntryView| entry_matches(e, q)
}

/// The help lines shown for a filter: all of them when it is blank.
pub open spec fn filtered_entries(entries: Seq<EntryView>, query: Seq<char>) -> Seq<EntryView> {
    let q = help_query(query);
    if q.len() == 0 {
        entries
    } else {
        entries.filter(matches_query(q))
    }
}

/// The help lines matching `query`, in order.
pub fn filtered<'a>(entries: &'a [HelpEntry], query: &str) -> (r: Vec<&'a HelpEntry>)
    ensures
        r@.map_values(|e: &HelpEntry| e@) == filtered_entries(entries@.map_values(|e: HelpEntry| e@), query@),
{
    let ghost ev = entries@.map_values(|e: HelpEntry| e@);
    let t = trim_str(query);
    let ql = to_lowercase(t.as_str());
    let q = chars_of(ql.as_str());
    let ghost pred = matches_query(q@);
    let mut out: Vec<&'a HelpEntry> = Vec::new();
    let mut i: usize = 0;
    proof {
        assert(ev.take(0).filter(pred) =~= Seq::<EntryView>::empty());
        assert(ev.take(0) =~= Seq::<EntryView>::empty());
        assert(out@.map_values(|e: &HelpEntry| e@) =~= Seq::<EntryView>::empty());
    }
    while i < entries.len()
        invariant
            i <= entries.len(),
            ev == entries@.map_values(|e: HelpEntry| e@),
            pred == matches_query(q@),
            out@.map_values(|e: &HelpEntry| e@) == (if q@.len() == 0 {
                ev.take(i as int)
            } else {
                ev.take(i as int).filter(pred)
            }),
        decreases entries.len() - i,
    {
        let e = &entries[i];
        let keep = if q.len() == 0 {
            true
        } else {
            let kl = to_lowercase(e.keys.as_str());
            let dl = to_lowercase(e.desc.as_str());
            contains_exec(&chars_of(kl.as_str()), &q) || contains_exec(&chars_of(dl.as_str()), &q)
                || contains_exec(&chars_of(e.group), &q)
        };
        proof {
            assert(ev[i as int] == e@);
            assert(ev.take(i + 1) =~= ev.take(i as int).push(e@));
            ev.take(i as int).lemma_filter_push(e@, pred);
        }
        let ghost before = out@;
        if keep {
            out.push(e);
            proof {
                assert(out@.map_values(|e: &HelpEntry| e@) =~= before.map_values(|e: &HelpEntry| e@).push(
                    e@,
                ));
            }
        }
        i += 1;
    }
    proof {
        assert(ev.take(entries.len() as int) =~= ev);
    }
    out
}

/// Help lines come grouped: groups in lexicographic order, and within a
/// group keys in lexicographic order.
pub proof fn lemma_help_order_grouped(es: Seq<EntryView>)
    ensures
        help_order(es).len() == es.len(),
        forall|i: int, j: int|
            0 <= i < j < help_order(es).len() ==> chars_le(#[trigger] help_order(es)[i].group, #[trigger] help_order(es)[j].group)
                && (help_order(es)[i].group == help_order(es)[j].group ==> chars_le(help_order(es)[i].keys, help_order(es)[j].keys)),
{
    let leq = |a: HelpKey, b: HelpKey| help_le(a, b);
    let ks = help_keys(es);
    lemma_help_le_total_ordering();
    ks.lemma_sort_by_ensures(leq);
    let s = ks.sort_by(leq);
    vstd::seq_lib::to_multiset_len(ks);
    vstd::seq_lib::to_multiset_len(s);
    assert(s.len() == ks.len());
    assert forall|i: int| 0 <= i < s.len() implies 0 <= (#[trigger] s[i]).2 < es.len() && s[i].0 == es[s[i].2].group && s[i].1 == es[s[i].2].keys by {
        assert(s.contains(s[i]));
        if !ks.contains(s[i]) {
            assert(!s.contains(s[i]));
        }
        let k = choose|k: int| 0 <= k < ks.len() && ks[k] == s[i];
        assert(ks[k] == (es[k].group, es[k].keys, k));
    }
    let r = help_order(es);
    assert forall|i: int, j: int| 0 <= i < j < r.len() implies chars_le(#[trigger] r[i].group, #[trigger] r[j].group)
        && (r[i].group == r[j].group ==> chars_le(r[i].keys, r[j].keys)) by {
        assert(leq(s[i], s[j]));
        assert(r[i] == es[s[i].2]);
        assert(r[j] == es[s[j].2]);
        if r[i].group == r[j].group {
            lemma_chars_le_reflexive(r[i].group);
            if r[i].keys == r[j].keys {
                lemma_chars_le_reflexive(r[i].keys);
            }
        }
    }
}

} // verus!
