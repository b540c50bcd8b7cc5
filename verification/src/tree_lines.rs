//! Text of the call-tree side panel: the turn bar, styled tree lines, and
//! the node list.

use vstd::prelude::*;
use crate::tree_view::{node_icon, CallTreeNode, NodeStatus};
use crate::text::{decimal, push_decimal, 
    chars_of, contains, contains_exec, ellipsize, ellipsized, spec_to_lowercase, starts_with, starts_with_exec,
    string_of_all, take_chars, take_str, to_lowercase, trim, trim_bounds, trim_start, views,
};

verus! {

/// Breadcrumb separators.
pub open spec fn crumb_sep(c: char) -> bool {
    c == '>' || c == '/' || c == '|'
}

/// The pieces of `s` between separators (one more than there are
/// separators).
pub open spec fn crumb_pieces(s: Seq<char>) -> Seq<Seq<char>>
    decreases s.len(),
{
    if s.len() == 0 {
        seq![seq![]]
    } else {
        let p = crumb_pieces(s.drop_last());
        if crumb_sep(s.last()) {
            p.push(seq![])
        } else {
            p.update(p.len() - 1, p.last().push(s.last()))
        }
    }
}

proof fn lemma_crumb_pieces_nonempty(s: Seq<char>)
    ensures
        crumb_pieces(s).len() >= 1,
    decreases s.len(),
{
    if s.len() > 0 {
        lemma_crumb_pieces_nonempty(s.drop_last());
    }
}

/// A breadcrumb part that is shown: not blank and not `idle`.
pub open spec fn shown_part() -> spec_fn(Seq<char>) -> bool {
    |p: Seq<char>| p.len() > 0 && p != "idle"@
}

/// The turn bar's parts: the trimmed pieces of the breadcrumb, blanks and
/// `idle` dropped.
pub open spec fn turn_parts(breadcrumb: Seq<char>) -> Seq<Seq<char>> {
    crumb_pieces(breadcrumb).map_values(|p: Seq<char>| trim(p)).filter(shown_part())
}

/// The turn bar's labels: `[part]` cut to 16 characters, the last one
/// (the active turn) marked `[part*]`.
pub open spec fn turn_labels(parts: Seq<Seq<char>>) -> Seq<Seq<char>> {
    Seq::new(
        parts.len(),
        |i: int|
            if i + 1 == parts.len() {
                "["@ + ellipsized(parts[i], 16) + "*]"@
            } else {
                "["@ + ellipsized(parts[i], 16) + "]"@
            },
    )
}

/// Labels of the turn bar for a breadcrumb such as `root > llm_1 > agent_2`
/// (empty when idle).
pub fn turn_bar_parts(breadcrumb: &str) -> (r: Vec<String>)
    ensures
        crate::text::string_views(r@) == turn_labels(turn_parts(breadcrumb@)),
{
    let v = chars_of(breadcrumb);
    let mut pieces: Vec<Vec<char>> = Vec::new();
    pieces.push(Vec::new());
    let mut i: usize = 0;
    proof {
        assert(v@.take(0) =~= Seq::<char>::empty());
        assert(views(pieces@) =~= crumb_pieces(v@.take(0)));
    }
    while i < v.len()
        invariant
            i <= v.len(),
            v@ == breadcrumb@,
            views(pieces@) == crumb_pieces(v@.take(i as int)),
            pieces.len() >= 1,
        decreases v.len() - i,
    {
        let c = v[i];
        proof {
            assert(v@.take(i + 1).drop_last() =~= v@.take(i as int));
            assert(v@.take(i + 1).last() == c);
            lemma_crumb_pieces_nonempty(v@.take(i as int));
        }
        let ghost before = views(pieces@);
        if c == '>' || c == '/' || c == '|' {
            pieces.push(Vec::new());
            proof {
                assert(views(pieces@) =~= before.push(Seq::<char>::empty()));
            }
        } else {
            let mut last = pieces.pop().unwrap();
            last.push(c);
            let ghost lv = last@;
            pieces.push(last);
            proof {
                assert(views(pieces@) =~= before.update(before.len() - 1, lv));
            }
        }
        i += 1;
    }
    proof {
        assert(v@.take(v.len() as int) =~= v@);
    }
    let ghost trimmed = views(pieces@).map_values(|p: Seq<char>| trim(p));
    let mut kept: Vec<String> = Vec::new();
    let mut j: usize = 0;
    proof {
        assert(trimmed.take(0).filter(shown_part()) =~= Seq::<Seq<char>>::empty());
    }
    while j < pieces.len()
        invariant
            j <= pieces.len(),
            trimmed == views(pieces@).map_values(|p: Seq<char>| trim(p)),
            crate::text::string_views(kept@) == trimmed.take(j as int).filter(shown_part()),
        decreases pieces.len() - j,
    {
        let (lo, hi) = trim_bounds(&pieces[j]);
        let t = crate::text::string_of(&pieces[j], lo, hi);
        let is_idle = crate::text::str_eq(t.as_str(), "idle");
        proof {
            assert(trimmed[j as int] == t@);
            assert(trimmed.take(j + 1) =~= trimmed.take(j as int).push(t@));
            trimmed.take(j as int).lemma_filter_push(t@, shown_part());
        }
        let ghost before = kept@;
        if lo < hi && !is_idle {
            kept.push(t);
            proof {
                assert(crate::text::string_views(kept@) =~= crate::text::string_views(before).push(t@));
            }
        }
        j += 1;
    }
    proof {
        assert(trimmed.take(pieces.len() as int) =~= trimmed);
    }
    let ghost parts = crate::text::string_views(kept@);
    let mut out: Vec<String> = Vec::new();
    let mut k: usize = 0;
    while k < kept.len()
        invariant
            k <= kept.len(),
            parts == crate::text::string_views(kept@),
            crate::text::string_views(out@) == turn_labels(parts).take(k as int),
        decreases kept.len() - k,
    {
        let mut s = "[".to_string();
        s.append(ellipsize(kept[k].as_str(), 16).as_str());
        if k + 1 == kept.len() {
            s.append("*]");
        } else {
            s.append("]");
        }
        let ghost before = out@;
        out.push(s);
        proof {
            assert(crate::text::string_views(out@) =~= crate::text::string_views(before).push(s@));
            assert(crate::text::string_views(out@) =~= turn_labels(parts).take(k + 1));
        }
        k += 1;
    }
    proof {
        assert(turn_labels(parts).take(kept.len() as int) =~= turn_labels(parts));
    }
    out
}

/// How a line of a text call tree is shown.
#[derive(Debug, Clone, Copy, PartialEq, Eq, Structural)]
pub enum TreeTone {
    Blocked,
    Working,
    Done,
    Idle,
    Branch,
    Plain,
}

/// The tone of a tree line, from its lowercased text: failures, then
/// activity, then completion, then idleness; otherwise a bare branch line
/// or a plain one.
pub open spec fn tree_tone(line: Seq<char>) -> TreeTone {
    let l = spec_to_lowercase(line);
    if contains(l, "error"@) || contains(l, "fail"@) || contains(l, "blocked"@) {
        TreeTone::Blocked
    } else if contains(l, "run"@) || contains(l, "active"@) || contains(l, "working"@) || contains(
        l,
        "\u{2026}"@,
    ) || contains(l, "..."@) {
        TreeTone::Working
    } else if contains(l, "done"@) || contains(l, "ok"@) || contains(l, "complete"@) || contains(
        l,
        "success"@,
    ) {
        TreeTone::Done
    } else if contains(l, "idle"@) || contains(l, "wait"@) {
        TreeTone::Idle
    } else if starts_with(trim_start(line), "\u{251c}"@) || starts_with(trim_start(line), "\u{2514}"@)
        || starts_with(trim_start(line), "\u{2502}"@) {
        TreeTone::Branch
    } else {
        TreeTone::Plain
    }
}

/// Glyph of each tone (none for a bare branch line).
pub open spec fn tone_icon(t: TreeTone) -> Seq<char> {
    match t {
        TreeTone::Blocked => "\u{d7}"@,
        TreeTone::Working => "\u{25d0}"@,
        TreeTone::Done => "\u{2713}"@,
        TreeTone::Idle => "\u{25cb}"@,
        TreeTone::Branch => seq![],
        TreeTone::Plain => "\u{b7}"@,
    }
}

fn has(l: &Vec<char>, lit: &str) -> (r: bool)
    ensures
        r == contains(l@, lit@),
{
    let p = chars_of(lit);
    contains_exec(l, &p)
}

/// The tone, glyph and shown text (first 120 characters) of a tree line.
pub fn tree_line_style(line: &str) -> (r: (TreeTone, &'static str, String))
    ensures
        r.0 == tree_tone(line@),
        r.1@ == tone_icon(r.0),
        r.2@ == take_chars(line@, 120),
{
    let lower = to_lowercase(line);
    let l = chars_of(lower.as_str());
    let v = chars_of(line);
    let (lo, hi) = trim_bounds(&v);
    let ts = crate::text::sub_vec(&v, lo, v.len());
    let tone = if has(&l, "error") || has(&l, "fail") || has(&l, "blocked") {
        TreeTone::Blocked
    } else if has(&l, "run") || has(&l, "active") || has(&l, "working") || has(&l, "\u{2026}") || has(
        &l,
        "...",
    ) {
        TreeTone::Working
    } else if has(&l, "done") || has(&l, "ok") || has(&l, "complete") || has(&l, "success") {
        TreeTone::Done
    } else if has(&l, "idle") || has(&l, "wait") {
        TreeTone::Idle
    } else if starts_with_exec(&ts, &chars_of("\u{251c}")) || starts_with_exec(&ts, &chars_of("\u{2514}"))
        || starts_with_exec(&ts, &chars_of("\u{2502}")) {
        TreeTone::Branch
    } else {
        TreeTone::Plain
    };
    let icon = match tone {
        TreeTone::Blocked => "\u{d7}",
        TreeTone::Working => "\u{25d0}",
        TreeTone::Done => "\u{2713}",
        TreeTone::Idle => "\u{25cb}",
        TreeTone::Branch => "",
        TreeTone::Plain => "\u{b7}",
    };
    proof {
        reveal_strlit("");
    }
    (tone, icon, take_str(line, 120))
}

/// A line of the node list.
#[derive(Debug, Clone)]
pub enum NodeLine {
    /// A node, shown in its status's color.
    Node { text: String, status: NodeStatus },
    /// How many children a collapsed node hides.
    More { text: String },
}

/// Value of a node-list line.
pub enum NodeLineView {
    Node(Seq<char>, NodeStatus),
    More(Seq<char>),
}

/// Views of node-list lines.
pub open spec fn node_line_views(s: Seq<NodeLine>) -> Seq<NodeLineView> {
    s.map_values(
        |l: NodeLine|
            match l {
                NodeLine::Node { text, status } => NodeLineView::Node(text@, status),
                NodeLine::More { text } => NodeLineView::More(text@),
            },
    )
}

/// Timing and token notes of a node.
pub open spec fn node_meta(ms: Option<u64>, tok: Option<u64>) -> Seq<char> {
    match (ms, tok) {
        (Some(m), Some(t)) => "  "@ + decimal(m as nat) + "ms \u{b7} "@ + decimal(t as nat) + "tok"@,
        (Some(m), None) => "  "@ + decimal(m as nat) + "ms"@,
        (None, Some(t)) => "  "@ + decimal(t as nat) + "tok"@,
        (None, None) => seq![],
    }
}

/// The text of a node's line: indent, expander, status glyph, label, child
/// count and notes, cut to `max` characters.
pub open spec fn node_text(n: CallTreeNode, ind: Seq<char>, max: nat) -> Seq<char> {
    let kids = n.children@.len();
    let count = if kids == 0 {
        seq![]
    } else {
        " \u{d7}"@ + decimal(kids)
    };
    let expand = if kids == 0 {
        " "@
    } else if n.expanded {
        "\u{25be}"@
    } else {
        "\u{25b8}"@
    };
    ellipsized(
        ind + expand + " "@ + node_icon(n.status) + " "@ + n.label@ + count + node_meta(
            n.duration_ms,
            n.tokens,
        ),
        max,
    )
}

/// The lines of a forest indented by `ind` (two more spaces per level):
/// each node (a childless node whose status differs from the filter is
/// skipped), then its children when it is expanded, or a note of how many
/// it hides.
pub open spec fn walk(nodes: Seq<CallTreeNode>, ind: Seq<char>, max: nat, filter: Option<NodeStatus>) -> Seq<NodeLineView>
    decreases nodes,
{
    if nodes.len() == 0 {
        seq![]
    } else {
        let n = nodes.last();
        proof {
            assert(decreases_to!(nodes => nodes.drop_last()));
            assert(decreases_to!(nodes => n));
        }
        let before = walk(nodes.drop_last(), ind, max, filter);
        let skip = match filter {
            Some(f) => n.status != f && n.children@.len() == 0,
            None => false,
        };
        if skip {
            before
        } else {
            let below = if n.expanded {
                walk(n.children@, ind + "  "@, max, filter)
            } else if n.children@.len() > 0 {
                seq![NodeLineView::More(ind + "  \u{25b8} "@ + decimal(n.children@.len()) + " more"@)]
            } else {
                seq![]
            };
            before + seq![NodeLineView::Node(node_text(n, ind, max), n.status)] + below
        }
    }
}

fn push_meta(t: &mut String, ms: Option<u64>, tok: Option<u64>)
    ensures
        final(t)@ == old(t)@ + node_meta(ms, tok),
{
    match (ms, tok) {
        (Some(m), Some(k)) => {
            t.append("  ");
            push_decimal(t, m);
            t.append("ms \u{b7} ");
            push_decimal(t, k);
            t.append("tok");
        },
        (Some(m), None) => {
            t.append("  ");
            push_decimal(t, m);
            t.append("ms");
        },
        (None, Some(k)) => {
            t.append("  ");
            push_decimal(t, k);
            t.append("tok");
        },
        (None, None) => {},
    }
}

fn node_line_text(n: &CallTreeNode, ind: &str, max: usize) -> (r: String)
    ensures
        r@ == node_text(*n, ind@, max as nat),
{
    let kids = n.children.len();
    let mut t = ind.to_string();
    if kids == 0 {
        t.append(" ");
    } else if n.expanded {
        t.append("\u{25be}");
    } else {
        t.append("\u{25b8}");
    }
    t.append(" ");
    t.append(n.status.icon());
    t.append(" ");
    t.append(n.label.as_str());
    if kids > 0 {
        t.append(" \u{d7}");
        push_decimal(&mut t, kids as u64);
    }
    push_meta(&mut t, n.duration_ms, n.tokens);
    ellipsize(t.as_str(), max)
}

fn walk_exec(nodes: &Vec<CallTreeNode>, ind: &str, max: usize, filter: Option<NodeStatus>, out: &mut Vec<NodeLine>)
    ensures
        node_line_views(final(out)@) == node_line_views(old(out)@) + walk(nodes@, ind@, max as nat, filter),
    decreases nodes@,
{
    let ghost start = node_line_views(out@);
    let mut i: usize = 0;
    proof {
        assert(nodes@.take(0) =~= Seq::<CallTreeNode>::empty());
        assert(node_line_views(out@) =~= start + walk(nodes@.take(0), ind@, max as nat, filter));
    }
    while i < nodes.len()
        invariant
            i <= nodes.len(),
            node_line_views(out@) == start + walk(nodes@.take(i as int), ind@, max as nat, filter),
        decreases nodes.len() - i,
    {
        let n = &nodes[i];
        proof {
            assert(nodes@.take(i + 1).drop_last() =~= nodes@.take(i as int));
            assert(nodes@.take(i + 1).last() == *n);
        }
        let skip = match filter {
            Some(f) => n.status != f && n.children.len() == 0,
            None => false,
        };
        if !skip {
            let text = node_line_text(n, ind, max);
            let ghost before = node_line_views(out@);
            out.push(NodeLine::Node { text, status: n.status });
            proof {
                assert(node_line_views(out@) =~= before.push(NodeLineView::Node(text@, n.status)));
            }
            if n.expanded {
                let mut child_ind = ind.to_string();
                child_ind.append("  ");
                proof {
                    assert(decreases_to!(nodes@ => nodes@[i as int]));
                }
                walk_exec(&n.children, child_ind.as_str(), max, filter, out);
            } else if n.children.len() > 0 {
                let mut t = ind.to_string();
                t.append("  \u{25b8} ");
                push_decimal(&mut t, n.children.len() as u64);
                t.append(" more");
                let ghost before2 = node_line_views(out@);
                out.push(NodeLine::More { text: t });
                proof {
                    assert(node_line_views(out@) =~= before2.push(NodeLineView::More(t@)));
                }
            }
        }
        proof {
            let ghost w = walk(nodes@.take(i + 1), ind@, max as nat, filter);
            assert(node_line_views(out@) =~= start + w);
        }
        i += 1;
    }
    proof {
        assert(nodes@.take(nodes.len() as int) =~= nodes@);
    }
}

/// The lines of the call-tree panel for the forest, cut to `max_width`
/// characters; with a filter, childless nodes of another status are left
/// out (an empty result is drawn as a placeholder).
pub fn node_lines(nodes: &Vec<CallTreeNode>, max_width: usize, filter: Option<NodeStatus>) -> (r: Vec<NodeLine>)
    ensures
        node_line_views(r@) == walk(nodes@, seq![], max_width as nat, filter),
{
    let mut out: Vec<NodeLine> = Vec::new();
    proof {
        assert(node_line_views(out@) =~= Seq::<NodeLineView>::empty());
    }
    let empty = "";
    proof {
        reveal_strlit("");
        assert(empty@ =~= Seq::<char>::empty());
    }
    walk_exec(nodes, empty, max_width, filter, &mut out);
    proof {
        assert(Seq::<NodeLineView>::empty() + walk(nodes@, seq![], max_width as nat, filter) =~= walk(
            nodes@,
            seq![],
            max_width as nat,
            filter,
        ));
    }
    out
}

/// Every node line fits the width.
pub open spec fn node_lines_fit(ls: Seq<NodeLineView>, max: nat) -> bool {
    forall|i: int|
        0 <= i < ls.len() ==> match #[trigger] ls[i] {
            NodeLineView::Node(t, _) => t.len() <= max,
            NodeLineView::More(_) => true,
        }
}

proof fn lemma_ellipsized_len(s: Seq<char>, max: nat)
    ensures
        ellipsized(s, max).len() <= max,
{
}

/// No node line of the call-tree panel is wider than the panel.
pub proof fn lemma_node_lines_fit(nodes: Seq<CallTreeNode>, ind: Seq<char>, max: nat, filter: Option<NodeStatus>)
    ensures
        node_lines_fit(walk(nodes, ind, max, filter), max),
    decreases nodes,
{
    if nodes.len() > 0 {
        let n = nodes.last();
        assert(decreases_to!(nodes => nodes.drop_last()));
        assert(decreases_to!(nodes => n));
        lemma_node_lines_fit(nodes.drop_last(), ind, max, filter);
        if n.expanded {
            lemma_node_lines_fit(n.children@, ind + "  "@, max, filter);
        }
        lemma_ellipsized_len(
            ind + (if n.children@.len() == 0 {
                " "@
            } else if n.expanded {
                "\u{25be}"@
            } else {
                "\u{25b8}"@
            }) + " "@ + crate::tree_view::node_icon(n.status) + " "@ + n.label@ + (if n.children@.len() == 0 {
                seq![]
            } else {
                " \u{d7}"@ + decimal(n.children@.len())
            }) + node_meta(n.duration_ms, n.tokens),
            max,
        );
        let w = walk(nodes, ind, max, filter);
        let before = walk(nodes.drop_last(), ind, max, filter);
        assert forall|i: int| 0 <= i < w.len() implies match #[trigger] w[i] {
            NodeLineView::Node(t, _) => t.len() <= max,
            NodeLineView::More(_) => true,
        } by {
            if i < before.len() {
                assert(w[i] == before[i]);
            }
        }
    }
}


/// The rows of the timeline panel: a hint when there are no entries, else
/// one row per entry, `› @N summary` for the selected one and `  @N
/// summary` for the others; the flag marks the selected row.
pub open spec fn timeline_rows_of(entries: Seq<(usize, Seq<char>)>, selection: int) -> Seq<(bool, Seq<char>)> {
    if entries.len() == 0 {
        seq![(false, "(empty \u{2014} send a message)"@)]
    } else {
        Seq::new(
            entries.len(),
            |i: int|
                (
                    i == selection,
                    seq![
                        if i == selection {
                            '\u{203a}'
                        } else {
                            ' '
                        },
                        ' ',
                        '@',
                    ] + decimal(entries[i].0 as nat) + seq![' '] + entries[i].1,
                ),
        )
    }
}

/// The rows of the timeline panel.
pub fn timeline_rows(entries: &Vec<(usize, String)>, selection: usize) -> (r: Vec<(bool, String)>)
    ensures
        r@.map_values(|p: (bool, String)| (p.0, p.1@)) == timeline_rows_of(
            entries@.map_values(|e: (usize, String)| (e.0, e.1@)),
            selection as int,
        ),
{
    let ghost ev = entries@.map_values(|e: (usize, String)| (e.0, e.1@));
    let mut out: Vec<(bool, String)> = Vec::new();
    if entries.len() == 0 {
        out.push((false, "(empty \u{2014} send a message)".to_string()));
        proof {
            assert(out@.map_values(|p: (bool, String)| (p.0, p.1@)) =~= timeline_rows_of(ev, selection as int));
        }
        return out;
    }
    let ghost target = timeline_rows_of(ev, selection as int);
    let mut i: usize = 0;
    while i < entries.len()
        invariant
            i <= entries.len(),
            entries.len() > 0,
            ev == entries@.map_values(|e: (usize, String)| (e.0, e.1@)),
            target == timeline_rows_of(ev, selection as int),
            out@.map_values(|p: (bool, String)| (p.0, p.1@)) == target.take(i as int),
        decreases entries.len() - i,
    {
        let on = i == selection;
        let mut line = String::new();
        if on {
            line.push('\u{203a}');
        } else {
            line.push(' ');
        }
        line.push(' ');
        line.push('@');
        push_decimal(&mut line, entries[i].0 as u64);
        line.push(' ');
        line.append(entries[i].1.as_str());
        let ghost before = out@;
        out.push((on, line));
        proof {
            assert(ev[i as int] == (entries@[i as int].0, entries@[i as int].1@));
            assert(line@ =~= target[i as int].1);
            assert(target[i as int] == (on, line@));
            assert(out@.map_values(|p: (bool, String)| (p.0, p.1@)) =~= before.map_values(
                |p: (bool, String)| (p.0, p.1@),
            ).push((on, line@)));
            assert(target.take(i + 1) =~= target.take(i as int).push(target[i as int]));
        }
        i += 1;
    }
    proof {
        assert(target.take(entries.len() as int) =~= target);
    }
    out
}

} // verus!

