//! Structured call tree: node status, the text-tree parser and the side
//! panel mode.

use vstd::prelude::*;
use crate::text::{
    chars_of, contains, contains_exec, decimal, is_whitespace, is_ws, lines, lines_of, push_decimal,
    spec_to_lowercase, string_of, string_of_all, sub_vec, to_lowercase, trim, trim_bounds, views,
};

verus! {

/// Status of a call-tree node.
#[derive(Debug, Clone, Copy, PartialEq, Eq, Structural, Default)]
pub enum NodeStatus {
    #[default]
    Idle,
    Running,
    Success,
    Fail,
    Wait,
}

/// Status read from free text (already lowercased): failure words first,
/// then running, waiting and completion words.
pub open spec fn status_of_lower(l: Seq<char>) -> NodeStatus {
    if contains(l, "fail"@) || contains(l, "error"@) {
        NodeStatus::Fail
    } else if contains(l, "run"@) || contains(l, "active"@) || contains(l, "\u{2026}"@) || contains(
        l,
        "..."@,
    ) {
        NodeStatus::Running
    } else if contains(l, "wait"@) || contains(l, "block"@) {
        NodeStatus::Wait
    } else if contains(l, "ok"@) || contains(l, "done"@) || contains(l, "complete"@) {
        NodeStatus::Success
    } else {
        NodeStatus::Idle
    }
}

/// Status of a node label.
pub open spec fn status_of_text(s: Seq<char>) -> NodeStatus {
    status_of_lower(spec_to_lowercase(s))
}

/// What a node's label says of its status, read in lowercase: a failure
/// word wins, then a running word, then a waiting word, then a finished
/// word (`ok`, `done`, `complete`); a label with none of them is idle.
pub proof fn lemma_status_words(s: Seq<char>)
    ensures
        ({
            let l = spec_to_lowercase(s);
            let no_fail = !contains(l, "fail"@) && !contains(l, "error"@);
            let no_run = no_fail && !contains(l, "run"@) && !contains(l, "active"@) && !contains(l, "\u{2026}"@)
                && !contains(l, "..."@);
            let no_wait = no_run && !contains(l, "wait"@) && !contains(l, "block"@);
            &&& contains(l, "fail"@) ==> status_of_text(s) == NodeStatus::Fail
            &&& contains(l, "error"@) ==> status_of_text(s) == NodeStatus::Fail
            &&& no_fail && contains(l, "run"@) ==> status_of_text(s) == NodeStatus::Running
            &&& no_fail && contains(l, "active"@) ==> status_of_text(s) == NodeStatus::Running
            &&& no_fail && contains(l, "\u{2026}"@) ==> status_of_text(s) == NodeStatus::Running
            &&& no_fail && contains(l, "..."@) ==> status_of_text(s) == NodeStatus::Running
            &&& no_run && contains(l, "wait"@) ==> status_of_text(s) == NodeStatus::Wait
            &&& no_run && contains(l, "block"@) ==> status_of_text(s) == NodeStatus::Wait
            &&& no_wait && contains(l, "ok"@) ==> status_of_text(s) == NodeStatus::Success
            &&& no_wait && contains(l, "done"@) ==> status_of_text(s) == NodeStatus::Success
            &&& no_wait && contains(l, "complete"@) ==> status_of_text(s) == NodeStatus::Success
            &&& no_wait && !contains(l, "ok"@) && !contains(l, "done"@) && !contains(l, "complete"@)
                ==> status_of_text(s) == NodeStatus::Idle
        }),
{
}

fn has(l: &Vec<char>, lit: &str) -> (r: bool)
    ensures
        r == contains(l@, lit@),
{
    let p = chars_of(lit);
    contains_exec(l, &p)
}

fn status_from_lower(l: &Vec<char>) -> (r: NodeStatus)
    ensures
        r == status_of_lower(l@),
{
    if has(l, "fail") || has(l, "error") {
        NodeStatus::Fail
    } else if has(l, "run") || has(l, "active") || has(l, "\u{2026}") || has(l, "...") {
        NodeStatus::Running
    } else if has(l, "wait") || has(l, "block") {
        NodeStatus::Wait
    } else if has(l, "ok") || has(l, "done") || has(l, "complete") {
        NodeStatus::Success
    } else {
        NodeStatus::Idle
    }
}

impl NodeStatus {
    /// Status read from free text.
    pub fn from_text(s: &str) -> (r: NodeStatus)
        ensures
            r == status_of_text(s@),
    {
        let l = to_lowercase(s);
        let v = chars_of(l.as_str());
        status_from_lower(&v)
    }

    /// Glyph of the status.
    pub fn icon(self) -> (r: &'static str)
        ensures
            r@ == node_icon(self),
    {
        match self {
            NodeStatus::Fail => "\u{d7}",
            NodeStatus::Running => "\u{25d0}",
            NodeStatus::Success => "\u{2713}",
            NodeStatus::Wait => "\u{25cb}",
            NodeStatus::Idle => "\u{b7}",
        }
    }
}

/// Glyph of each status.
pub open spec fn node_icon(s: NodeStatus) -> Seq<char> {
    match s {
        NodeStatus::Fail => "\u{d7}"@,
        NodeStatus::Running => "\u{25d0}"@,
        NodeStatus::Success => "\u{2713}"@,
        NodeStatus::Wait => "\u{25cb}"@,
        NodeStatus::Idle => "\u{b7}"@,
    }
}

/// One node of the call tree.
#[derive(Debug)]
pub struct CallTreeNode {
    pub id: String,
    pub kind: String,
    pub label: String,
    pub status: NodeStatus,
    pub duration_ms: Option<u64>,
    pub tokens: Option<u64>,
    pub children: Vec<CallTreeNode>,
    pub expanded: bool,
}

/// Mathematical value of a call-tree node.
#[verifier::ext_equal]
pub struct NodeSpec {
    pub id: Seq<char>,
    pub kind: Seq<char>,
    pub label: Seq<char>,
    pub status: NodeStatus,
    pub duration_ms: Option<u64>,
    pub tokens: Option<u64>,
    pub children: Seq<NodeSpec>,
    pub expanded: bool,
}

impl CallTreeNode {
    /// The node's value.
    pub open spec fn spec_node(&self) -> NodeSpec
        decreases self,
    {
        NodeSpec {
            id: self.id@,
            kind: self.kind@,
            label: self.label@,
            status: self.status,
            duration_ms: self.duration_ms,
            tokens: self.tokens,
            children: node_specs(self.children@),
            expanded: self.expanded,
        }
    }

    /// Number of direct children.
    pub fn child_count(&self) -> (r: usize)
        ensures
            r == self.children@.len(),
    {
        self.children.len()
    }
}

/// Values of a sequence of nodes.
pub open spec fn node_specs(s: Seq<CallTreeNode>) -> Seq<NodeSpec>
    decreases s,
{
    if s.len() == 0 {
        seq![]
    } else {
        proof {
            assert(decreases_to!(s => s.drop_last()));
        }
        node_specs(s.drop_last()).push(s.last().spec_node())
    }
}

/// Box-drawing characters used by text trees.
pub open spec fn is_box(c: char) -> bool {
    c == '\u{2502}' || c == '\u{251c}' || c == '\u{2514}' || c == '\u{2500}'
}

/// Number of leading whitespace or box-drawing characters (the indent).
pub open spec fn lead_count(s: Seq<char>) -> nat
    decreases s.len(),
{
    if s.len() > 0 && (is_ws(s[0]) || is_box(s[0])) {
        1 + lead_count(s.drop_first())
    } else {
        0
    }
}

/// The text with leading box-drawing characters and spaces removed.
pub open spec fn strip_tree_prefix(s: Seq<char>) -> Seq<char>
    decreases s.len(),
{
    if s.len() > 0 && (is_box(s[0]) || s[0] == ' ') {
        strip_tree_prefix(s.drop_first())
    } else {
        s
    }
}

/// Text of a text-tree line: the line without its indent and tree
/// characters (a line whose text is empty makes no node).
pub open spec fn line_label(raw: Seq<char>) -> Seq<char> {
    strip_tree_prefix(trim(raw))
}

/// Node kind read from the (lowercased) label.
pub open spec fn kind_of(label: Seq<char>) -> Seq<char> {
    let l = spec_to_lowercase(label);
    if contains(l, "llm"@) {
        "llm"@
    } else if contains(l, "agent"@) {
        "agent"@
    } else if contains(l, "repl"@) {
        "repl"@
    } else {
        "node"@
    }
}

/// The node for line number `i` (before its children are attached). Its
/// label is the line with its indent kept (only trailing whitespace goes);
/// kind and status are read from the text after the indent.
pub open spec fn line_node(i: nat, raw: Seq<char>) -> NodeSpec {
    let text = line_label(raw);
    NodeSpec {
        id: "n"@ + decimal(i),
        kind: kind_of(text),
        label: crate::text::trim_end(raw),
        status: status_of_text(text),
        duration_ms: None,
        tokens: None,
        children: seq![],
        expanded: lead_count(raw) < 6,
    }
}

/// The lines with a nonempty label, each with its indent and node.
pub open spec fn tree_entries(ls: Seq<Seq<char>>) -> Seq<(nat, NodeSpec)>
    decreases ls.len(),
{
    if ls.len() == 0 {
        seq![]
    } else {
        let prev = tree_entries(ls.drop_last());
        let raw = ls.last();
        if line_label(raw).len() > 0 {
            prev.push((lead_count(raw), line_node((ls.len() - 1) as nat, raw)))
        } else {
            prev
        }
    }
}

/// End of the run of entries after the first that are indented deeper
/// than the first.
pub open spec fn run_end(es: Seq<(nat, NodeSpec)>, j: int) -> int
    decreases es.len() - j,
{
    if j < 1 || j >= es.len() || es[j].0 <= es[0].0 {
        j
    } else {
        run_end(es, j + 1)
    }
}

/// The run of deeper entries starting at `j` ends within the entries;
/// every entry in it is deeper than the first, and the entry that ends it
/// (if any) is not.
pub proof fn lemma_run_end_range(es: Seq<(nat, NodeSpec)>, j: int)
    requires
        1 <= j <= es.len(),
    ensures
        j <= run_end(es, j) <= es.len(),
        forall|m: int| j <= m < run_end(es, j) ==> #[trigger] es[m].0 > es[0].0,
        run_end(es, j) < es.len() ==> es[run_end(es, j)].0 <= es[0].0,
    decreases es.len() - j,
{
    if j < es.len() && es[j].0 > es[0].0 {
        lemma_run_end_range(es, j + 1);
    }
}

/// The forest of entries: each entry's children are the following entries
/// indented deeper than it, up to the next entry that is not. Equivalently
/// the parent of an entry is the nearest earlier entry with a smaller indent.
pub open spec fn forest(es: Seq<(nat, NodeSpec)>) -> Seq<NodeSpec>
    decreases es.len(),
{
    if es.len() == 0 {
        seq![]
    } else {
        let k = run_end(es, 1);
        proof {
            lemma_run_end_range(es, 1);
        }
        let e = es[0].1;
        seq![
            NodeSpec {
                id: e.id,
                kind: e.kind,
                label: e.label,
                status: e.status,
                duration_ms: e.duration_ms,
                tokens: e.tokens,
                children: forest(es.subrange(1, k)),
                expanded: e.expanded,
            },
        ] + forest(es.subrange(k, es.len() as int))
    }
}

/// What `parse_text_tree` returns: the forest of labelled lines, or one
/// `root` node labelled with the first line (or `(empty)`) when no line
/// has a label.
pub open spec fn parsed_tree(text: Seq<char>) -> Seq<NodeSpec> {
    let ls = lines(text);
    let es = tree_entries(ls);
    if es.len() > 0 {
        forest(es)
    } else {
        seq![
            NodeSpec {
                id: "root"@,
                kind: "root"@,
                label: if ls.len() > 0 {
                    ls[0]
                } else {
                    "(empty)"@
                },
                status: NodeStatus::Idle,
                duration_ms: None,
                tokens: None,
                children: seq![],
                expanded: true,
            },
        ]
    }
}

/// Parsing always gives at least one root: the first labelled line's node,
/// or a placeholder root when no line has a label.
pub proof fn lemma_parsed_tree_has_root(text: Seq<char>)
    ensures
        parsed_tree(text).len() >= 1,
{
    let es = tree_entries(lines(text));
    if es.len() > 0 {
        lemma_run_end_range(es, 1);
        assert(forest(es).len() >= 1);
    }
}

/// A labelled line waiting to be placed in the tree.
struct Entry {
    indent: usize,
    id: String,
    kind: String,
    label: String,
    status: NodeStatus,
    expanded: bool,
}

impl Entry {
    spec fn spec_entry(&self) -> (nat, NodeSpec) {
        (
            self.indent as nat,
            NodeSpec {
                id: self.id@,
                kind: self.kind@,
                label: self.label@,
                status: self.status,
                duration_ms: None,
                tokens: None,
                children: seq![],
                expanded: self.expanded,
            },
        )
    }
}

spec fn entry_specs(s: Seq<Entry>) -> Seq<(nat, NodeSpec)> {
    s.map_values(|e: Entry| e.spec_entry())
}

fn is_box_exec(c: char) -> (r: bool)
    ensures
        r == is_box(c),
{
    c == '\u{2502}' || c == '\u{251c}' || c == '\u{2514}' || c == '\u{2500}'
}

fn lead_count_exec(v: &Vec<char>) -> (r: usize)
    ensures
        r as nat == lead_count(v@),
{
    let mut i: usize = 0;
    proof {
        assert(v@.skip(0) =~= v@);
    }
    while i < v.len() && (is_whitespace(v[i]) || is_box_exec(v[i]))
        invariant
            i <= v@.len(),
            lead_count(v@) == i + lead_count(v@.skip(i as int)),
        decreases v@.len() - i,
    {
        proof {
            assert(v@.skip(i as int).drop_first() =~= v@.skip(i + 1));
        }
        i += 1;
    }
    i
}

fn line_label_exec(raw: &Vec<char>) -> (r: Vec<char>)
    ensures
        r@ == line_label(raw@),
{
    let (lo, hi) = trim_bounds(raw);
    let t = sub_vec(raw, lo, hi);
    let mut j: usize = 0;
    proof {
        assert(t@.skip(0) =~= t@);
    }
    while j < t.len() && (is_box_exec(t[j]) || t[j] == ' ')
        invariant
            j <= t@.len(),
            strip_tree_prefix(t@) == strip_tree_prefix(t@.skip(j as int)),
        decreases t@.len() - j,
    {
        proof {
            assert(t@.skip(j as int).drop_first() =~= t@.skip(j + 1));
        }
        j += 1;
    }
    let r = sub_vec(&t, j, t.len());
    proof {
        assert(t@.subrange(j as int, t@.len() as int) =~= t@.skip(j as int));
    }
    r
}

fn kind_exec(label: &Vec<char>) -> (r: String)
    ensures
        r@ == kind_of(label@),
{
    let ls = string_of_all(label);
    let lower = to_lowercase(ls.as_str());
    let l = chars_of(lower.as_str());
    if has(&l, "llm") {
        String::from_str("llm")
    } else if has(&l, "agent") {
        String::from_str("agent")
    } else if has(&l, "repl") {
        String::from_str("repl")
    } else {
        String::from_str("node")
    }
}

fn entry_of(i: usize, raw: &Vec<char>, label: Vec<char>) -> (r: Entry)
    requires
        label@ == line_label(raw@),
        label@.len() > 0,
    ensures
        r.spec_entry() == (lead_count(raw@), line_node(i as nat, raw@)),
{
    let indent = lead_count_exec(raw);
    let kind = kind_exec(&label);
    let text = string_of_all(&label);
    let lower = to_lowercase(text.as_str());
    let lv = chars_of(lower.as_str());
    let status = status_from_lower(&lv);
    let mut id = String::from_str("n");
    push_decimal(&mut id, i as u64);
    let mut hi: usize = raw.len();
    proof {
        assert(raw@.take(hi as int) =~= raw@);
    }
    while hi > 0 && crate::text::is_whitespace(raw[hi - 1])
        invariant
            hi <= raw@.len(),
            crate::text::trim_end(raw@) == crate::text::trim_end(raw@.take(hi as int)),
        decreases hi,
    {
        proof {
            assert(raw@.take(hi as int).drop_last() =~= raw@.take(hi - 1));
        }
        hi -= 1;
    }
    let shown = crate::text::string_of(raw, 0, hi);
    proof {
        assert(raw@.subrange(0, hi as int) =~= raw@.take(hi as int));
    }
    Entry { indent, id, kind, label: shown, status, expanded: indent < 6 }
}

fn node_of(e: &Entry, children: Vec<CallTreeNode>) -> (r: CallTreeNode)
    ensures
        r.spec_node() == (NodeSpec {
            id: e.spec_entry().1.id,
            kind: e.spec_entry().1.kind,
            label: e.spec_entry().1.label,
            status: e.spec_entry().1.status,
            duration_ms: None,
            tokens: None,
            children: node_specs(children@),
            expanded: e.spec_entry().1.expanded,
        }),
{
    CallTreeNode {
        id: e.id.clone(),
        kind: e.kind.clone(),
        label: e.label.clone(),
        status: e.status,
        duration_ms: None,
        tokens: None,
        children,
        expanded: e.expanded,
    }
}

proof fn lemma_run_end_shift(es: Seq<(nat, NodeSpec)>, i: int, k: int, hi: int)
    requires
        0 <= i < k <= hi <= es.len(),
        forall|m: int| i < m < k ==> #[trigger] es[m].0 > es[i].0,
        k == hi || es[k].0 <= es[i].0,
    ensures
        run_end(es.subrange(i, hi), 1) == k - i,
{
    let s = es.subrange(i, hi);
    lemma_run_end_range(s, 1);
    let r = run_end(s, 1);
    if r < k - i {
        assert(s[r].0 == es[i + r].0);
        assert(s[0].0 == es[i].0);
    } else if r > k - i {
        assert(s[k - i].0 == es[k].0);
        assert(s[k - i].0 > s[0].0);
    }
}

fn build_forest(es: &Vec<Entry>, lo: usize, hi: usize) -> (r: Vec<CallTreeNode>)
    requires
        lo <= hi <= es@.len(),
    ensures
        node_specs(r@) == forest(entry_specs(es@).subrange(lo as int, hi as int)),
    decreases hi - lo,
{
    let ghost all = entry_specs(es@);
    let mut out: Vec<CallTreeNode> = Vec::new();
    let mut i = lo;
    while i < hi
        invariant
            lo <= i <= hi <= es@.len(),
            all == entry_specs(es@),
            forest(all.subrange(lo as int, hi as int)) == node_specs(out@) + forest(
                all.subrange(i as int, hi as int),
            ),
        decreases hi - i,
    {
        let mut k = i + 1;
        while k < hi && es[k].indent > es[i].indent
            invariant
                i < k <= hi <= es@.len(),
                all == entry_specs(es@),
                forall|m: int| i < m < k ==> #[trigger] all[m].0 > all[i as int].0,
            decreases hi - k,
        {
            proof {
                assert(all[k as int].0 == es@[k as int].indent);
                assert(all[i as int].0 == es@[i as int].indent);
            }
            k += 1;
        }
        proof {
            if k < hi {
                assert(all[k as int].0 == es@[k as int].indent);
                assert(all[i as int].0 == es@[i as int].indent);
            }
            lemma_run_end_shift(all, i as int, k as int, hi as int);
        }
        let children = build_forest(es, i + 1, k);
        let node = node_of(&es[i], children);
        let ghost old_out = out@;
        out.push(node);
        proof {
            let s = all.subrange(i as int, hi as int);
            assert(s.subrange(1, k - i) =~= all.subrange(i + 1, k as int));
            assert(s.subrange(k - i, s.len() as int) =~= all.subrange(k as int, hi as int));
            assert(s[0] == all[i as int]);
            assert(node_specs(out@) =~= node_specs(old_out).push(node.spec_node())) by {
                assert(out@.drop_last() =~= old_out);
            }
            assert(forest(s) =~= seq![node.spec_node()] + forest(all.subrange(k as int, hi as int)));
            assert(node_specs(out@) + forest(all.subrange(k as int, hi as int)) =~= node_specs(
                old_out,
            ) + forest(s));
        }
        i = k;
    }
    proof {
        assert(forest(all.subrange(hi as int, hi as int)) =~= Seq::<NodeSpec>::empty()) by {
            assert(all.subrange(hi as int, hi as int).len() == 0);
        }
        assert(node_specs(out@) + Seq::<NodeSpec>::empty() =~= node_specs(out@));
    }
    out
}

/// Parses an indented text tree (as printed with box-drawing characters)
/// into call-tree nodes; see `parsed_tree`.
pub fn parse_text_tree(text: &str) -> (r: Vec<CallTreeNode>)
    ensures
        node_specs(r@) == parsed_tree(text@),
{
    let v = chars_of(text);
    let ls = lines_of(&v);
    let ghost lv = views(ls@);
    let mut es: Vec<Entry> = Vec::new();
    let mut i: usize = 0;
    proof {
        assert(lv.take(0) =~= Seq::<Seq<char>>::empty());
    }
    while i < ls.len()
        invariant
            i <= ls@.len(),
            lv == views(ls@),
            entry_specs(es@) == tree_entries(lv.take(i as int)),
        decreases ls@.len() - i,
    {
        let raw = &ls[i];
        let label = line_label_exec(raw);
        proof {
            assert(lv[i as int] == raw@);
            assert(lv.take(i + 1).drop_last() =~= lv.take(i as int));
            assert(lv.take(i + 1).last() == raw@);
        }
        if label.len() > 0 {
            let e = entry_of(i, raw, label);
            let ghost old_es = entry_specs(es@);
            let ghost ek = e.spec_entry();
            es.push(e);
            proof {
                assert(entry_specs(es@) =~= old_es.push(ek));
            }
        }
        i += 1;
    }
    proof {
        assert(lv.take(ls@.len() as int) =~= lv);
        assert(entry_specs(es@).subrange(0, es@.len() as int) =~= entry_specs(es@));
    }
    if es.len() > 0 {
        build_forest(&es, 0, es.len())
    } else {
        let label = if ls.len() > 0 {
            string_of_all(&ls[0])
        } else {
            String::from_str("(empty)")
        };
        let mut out: Vec<CallTreeNode> = Vec::new();
        let root = CallTreeNode {
            id: String::from_str("root"),
            kind: String::from_str("root"),
            label,
            status: NodeStatus::Idle,
            duration_ms: None,
            tokens: None,
            children: Vec::new(),
            expanded: true,
        };
        out.push(root);
        proof {
            assert(node_specs(root.children@) =~= Seq::<NodeSpec>::empty());
            assert(node_specs(out@) =~= seq![root.spec_node()]) by {
                assert(out@.drop_last() =~= Seq::<CallTreeNode>::empty());
            }
        }
        out
    }
}

/// Which view the side panel shows.
#[derive(Debug, Clone, Copy, PartialEq, Eq, Structural)]
pub enum SidePanelMode {
    Tree,
    Timeline,
}

impl SidePanelMode {
    /// The other mode.
    pub fn toggle(self) -> (r: SidePanelMode)
        ensures
            r != self,
            self == SidePanelMode::Tree ==> r == SidePanelMode::Timeline,
            self == SidePanelMode::Timeline ==> r == SidePanelMode::Tree,
    {
        match self {
            SidePanelMode::Tree => SidePanelMode::Timeline,
            SidePanelMode::Timeline => SidePanelMode::Tree,
        }
    }

    /// Panel title.
    pub fn label(self) -> (r: &'static str)
        ensures
            r@ == (match self {
                SidePanelMode::Tree => "Tree"@,
                SidePanelMode::Timeline => "Timeline"@,
            }),
    {
        match self {
            SidePanelMode::Tree => "Tree",
            SidePanelMode::Timeline => "Timeline",
        }
    }
}

} // verus!
