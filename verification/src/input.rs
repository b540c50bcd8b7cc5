//! The chat input: history navigation, slash-command splitting, which
//! tools run without asking in auto mode, and the model cycle.

use vstd::prelude::*;
use crate::beads::opt_seq;
use crate::search::{first_index, is_first};
use crate::text::{contains, contains_exec, decimal, parse_usize, parse_usize_exec, push_decimal, spec_to_lowercase, take_chars, take_str, to_lowercase, chars_of, is_whitespace, is_ws, string_of, string_views, trim, trim_str};

verus! {

/// The input line with its history and the history position being shown.
#[derive(Debug, Clone)]
pub struct InputHistory {
    pub entries: Vec<String>,
    pub index: Option<usize>,
    pub input: String,
}

/// Value of the input history.
pub struct HistoryView {
    pub entries: Seq<Seq<char>>,
    pub index: Option<int>,
    pub input: Seq<char>,
}

impl View for InputHistory {
    type V = HistoryView;

    open spec fn view(&self) -> HistoryView {
        HistoryView {
            entries: string_views(self.entries@),
            index: match self.index {
                Some(i) => Some(i as int),
                None => None,
            },
            input: self.input@,
        }
    }
}

/// One step back (older): only when there is history and the input is
/// empty or already showing history; from the newest entry downwards,
/// stopping at the oldest.
pub open spec fn history_back(h: HistoryView) -> HistoryView {
    if h.entries.len() == 0 || (h.input.len() > 0 && h.index is None) {
        h
    } else {
        let i = match h.index {
            None => h.entries.len() - 1,
            Some(j) => if j == 0 {
                0
            } else {
                j - 1
            },
        };
        HistoryView { index: Some(i), input: h.entries[i], ..h }
    }
}

/// One step forward (newer); past the newest entry the input is cleared
/// and history left.
pub open spec fn history_forward(h: HistoryView) -> HistoryView {
    match h.index {
        Some(i) => if i + 1 < h.entries.len() {
            HistoryView { index: Some(i + 1), input: h.entries[i + 1], ..h }
        } else {
            HistoryView { index: None, input: seq![], ..h }
        },
        None => h,
    }
}

impl InputHistory {
    /// Show the previous (older) history entry.
    pub fn history_up(&mut self)
        requires
            old(self).index matches Some(i) ==> i <= old(self).entries.len(),
        ensures
            final(self)@ == history_back(old(self)@),
    {
        if self.entries.len() == 0 {
            return;
        }
        if !self.input.as_str().is_empty() && self.index.is_none() {
            return;
        }
        let new_idx = match self.index {
            None => self.entries.len() - 1,
            Some(0) => 0,
            Some(i) => i - 1,
        };
        self.index = Some(new_idx);
        self.input = self.entries[new_idx].clone();
    }

    /// Show the next (newer) history entry, or leave history.
    pub fn history_down(&mut self)
        requires
            old(self).index matches Some(i) ==> i < usize::MAX,
        ensures
            final(self)@ == history_forward(old(self)@),
    {
        match self.index {
            Some(i) => {
                if i + 1 < self.entries.len() {
                    self.index = Some(i + 1);
                    self.input = self.entries[i + 1].clone();
                } else {
                    self.index = None;
                    self.input = String::new();
                }
            },
            None => {},
        }
    }
}

/// From empty input, stepping back and then forward leaves history with an
/// empty input again.
pub proof fn lemma_back_then_forward(h: HistoryView)
    requires
        h.entries.len() > 0,
        h.input.len() == 0,
        h.index is None,
    ensures
        history_forward(history_back(h)) == (HistoryView { index: None, input: seq![], ..h }),
{
}

/// Tools that run without asking in auto mode: file tools and read-only
/// built-ins.
pub open spec fn auto_allowed(auto_mode: bool, tool: Seq<char>) -> bool {
    auto_mode && (tool == "read"@ || tool == "grep"@ || tool == "ls"@ || tool == "find"@ || tool
        == "webfetch"@ || tool == "websearch"@ || tool == "write"@ || tool == "edit"@)
}

/// Whether `tool_name` runs without a permission prompt.
pub fn auto_allow(auto_mode: bool, tool_name: &str) -> (r: bool)
    ensures
        r == auto_allowed(auto_mode, tool_name@),
{
    if !auto_mode {
        return false;
    }
    crate::text::str_eq(tool_name, "read") || crate::text::str_eq(tool_name, "grep")
        || crate::text::str_eq(tool_name, "ls") || crate::text::str_eq(tool_name, "find")
        || crate::text::str_eq(tool_name, "webfetch") || crate::text::str_eq(tool_name, "websearch")
        || crate::text::str_eq(tool_name, "write") || crate::text::str_eq(tool_name, "edit")
}

/// Whitespace characters.
pub open spec fn ws_pred() -> spec_fn(char) -> bool {
    |c: char| is_ws(c)
}

/// A slash command split into its name and argument: the trimmed text must
/// start with `/`; the name runs to the first whitespace, the argument is
/// the trimmed rest.
pub open spec fn slash_parts(text: Seq<char>) -> Option<(Seq<char>, Seq<char>)> {
    let t = trim(text);
    if t.len() == 0 || t[0] != '/' {
        None
    } else {
        match first_index(t, ws_pred()) {
            Some(i) => Some((t.take(i), trim(t.skip(i + 1)))),
            None => Some((t, seq![])),
        }
    }
}

/// Split a slash command into name and argument.
pub fn split_slash_command(text: &str) -> (r: Option<(String, String)>)
    ensures
        (match slash_parts(text@) {
            Some((c, a)) => r matches Some(p) && p.0@ == c && p.1@ == a,
            None => r is None,
        }),
{
    let t = trim_str(text);
    let v = chars_of(t.as_str());
    if v.len() == 0 || v[0] != '/' {
        return None;
    }
    let mut i: usize = 0;
    while i < v.len() && !is_whitespace(v[i])
        invariant
            i <= v.len(),
            v@ == trim(text@),
            forall|j: int| 0 <= j < i ==> !ws_pred()(#[trigger] v@[j]),
        decreases v.len() - i,
    {
        i += 1;
    }
    if i < v.len() {
        proof {
            crate::search::lemma_first_index_is(v@, ws_pred(), i as int);
        }
        let cmd = string_of(&v, 0, i);
        let rest = string_of(&v, i + 1, v.len());
        let arg = trim_str(rest.as_str());
        proof {
            assert(v@.subrange(0, i as int) =~= v@.take(i as int));
            assert(v@.subrange(i + 1, v@.len() as int) =~= v@.skip(i + 1));
        }
        Some((cmd, arg))
    } else {
        proof {
            crate::search::lemma_first_index_none(v@, ws_pred());
        }
        Some((t, String::new()))
    }
}

/// Entries equal to `d`.
pub open spec fn equals(d: Seq<char>) -> spec_fn(Seq<char>) -> bool {
    |x: Seq<char>| x == d
}

/// Note a model in the cycle and return its position.
pub fn note_cycle_entry(cycle: &mut Vec<String>, display: &str) -> (r: usize)
    ensures
        string_views(final(cycle)@) == (if string_views(old(cycle)@).contains(display@) {
            string_views(old(cycle)@)
        } else {
            string_views(old(cycle)@).push(display@)
        }),
        first_index(string_views(final(cycle)@), equals(display@)) == Some(r as int),
{
    let ghost cv = string_views(cycle@);
    let mut i: usize = 0;
    while i < cycle.len()
        invariant
            i <= cycle.len(),
            cv == string_views(cycle@),
            cv.len() == cycle.len(),
            forall|j: int| 0 <= j < i ==> !equals(display@)(#[trigger] cv[j]),
        decreases cycle.len() - i,
    {
        if crate::text::str_eq(cycle[i].as_str(), display) {
            proof {
                crate::search::lemma_first_index_is(cv, equals(display@), i as int);
                assert(cv.contains(display@));
            }
            return i;
        }
        i += 1;
    }
    proof {
        if cv.contains(display@) {
            let k = choose|k: int| 0 <= k < cv.len() && cv[k] == display@;
            assert(equals(display@)(cv[k]));
        }
    }
    let n = cycle.len();
    cycle.push(display.to_string());
    proof {
        let nv = string_views(cycle@);
        assert(nv =~= cv.push(display@));
        assert forall|j: int| 0 <= j < n implies !equals(display@)(#[trigger] nv[j]) by {
            assert(nv[j] == cv[j]);
        }
        crate::search::lemma_first_index_is(nv, equals(display@), n as int);
    }
    n
}

/// The next position in a non-empty model cycle.
pub fn next_cycle_index(cur: usize, len: usize) -> (r: usize)
    requires
        len > 0,
        cur < usize::MAX,
    ensures
        r == (cur + 1) % (len as int),
{
    (cur + 1) % len
}

/// `n` right-aligned in three columns (`{:>3}`).
pub open spec fn pad3(n: nat) -> Seq<char> {
    let d = decimal(n);
    if d.len() < 3 {
        Seq::new((3 - d.len()) as nat, |i: int| ' ') + d
    } else {
        d
    }
}

/// Newlines shown as ` ⏎ `.
pub open spec fn nl_marked(s: Seq<char>) -> Seq<char>
    decreases s.len(),
{
    if s.len() == 0 {
        seq![]
    } else {
        nl_marked(s.drop_last()) + if s.last() == '\n' {
            " \u{23ce} "@
        } else {
            seq![s.last()]
        }
    }
}

/// One history row: number (from 1), then the first 100 characters.
pub open spec fn history_row(entries: Seq<Seq<char>>, i: int) -> Seq<char> {
    "  "@ + pad3((i + 1) as nat) + "  "@ + nl_marked(take_chars(entries[i], 100)) + "\n"@
}

/// The rows of the entries at the given positions.
pub open spec fn history_rows(entries: Seq<Seq<char>>, idxs: Seq<int>) -> Seq<char>
    decreases idxs.len(),
{
    if idxs.len() == 0 {
        seq![]
    } else {
        history_rows(entries, idxs.drop_last()) + history_row(entries, idxs.last())
    }
}

/// Positions of entries whose lowercased text contains `q`.
pub open spec fn history_matches(entries: Seq<Seq<char>>, q: Seq<char>) -> Seq<int> {
    Seq::new(entries.len(), |i: int| i).filter(|i: int| contains(spec_to_lowercase(entries[i]), q))
}

/// How `/history` answers.
pub enum HistoryReply {
    /// Show this text.
    Show(String),
    /// Load entry `index` into the input and show `status`.
    Load { index: usize, status: String },
}

/// Value of a `/history` answer.
pub enum ReplyView {
    Show(Seq<char>),
    Load(int, Seq<char>),
}

/// View of a `/history` answer.
pub open spec fn reply_view(r: HistoryReply) -> ReplyView {
    match r {
        HistoryReply::Show(t) => ReplyView::Show(t@),
        HistoryReply::Load { index, status } => ReplyView::Load(index as int, status@),
    }
}

/// The `/history` answer: with no argument, the last 20 entries; with a
/// number `n`, entry `n` is loaded (when it exists); otherwise the first 20
/// entries containing the argument (ignoring case).
pub open spec fn history_answer(entries: Seq<Seq<char>>, arg: Seq<char>) -> ReplyView {
    let total = entries.len() as int;
    if arg.len() == 0 {
        if total == 0 {
            ReplyView::Show("No input history yet."@)
        } else {
            let start = if total > 20 {
                total - 20
            } else {
                0
            };
            ReplyView::Show(
                "Input history (most recent, newest last):\n"@ + history_rows(
                    entries,
                    Seq::new((total - start) as nat, |k: int| start + k),
                ) + "\n/history <query> to search \u{b7} /history <n> to edit that entry"@,
            )
        }
    } else {
        match parse_usize(arg) {
            Some(n) => if 1 <= n <= total {
                ReplyView::Load(
                    n - 1,
                    "history #"@ + decimal(n as nat) + " loaded into input \u{2014} edit & Enter"@,
                )
            } else {
                ReplyView::Show(
                    "No history entry #"@ + decimal(n as nat) + " (have "@ + decimal(total as nat)
                        + ")."@,
                )
            },
            None => {
                let m = history_matches(entries, spec_to_lowercase(arg));
                if m.len() == 0 {
                    ReplyView::Show("No history matches for `"@ + arg + "`."@)
                } else {
                    ReplyView::Show(
                        "History matches for `"@ + arg + "`:\n"@ + history_rows(
                            entries,
                            if m.len() > 20 {
                                m.take(20)
                            } else {
                                m
                            },
                        ) + "\n/history <n> to edit an entry"@,
                    )
                }
            },
        }
    }
}

fn push_pad3(out: &mut String, n: u64)
    ensures
        final(out)@ == old(out)@ + pad3(n as nat),
{
    let mut d = String::new();
    push_decimal(&mut d, n);
    let dl = chars_of(d.as_str()).len();
    let mut k: usize = dl;
    let ghost start = out@;
    while k < 3
        invariant
            dl <= k <= 3 || (dl >= 3 && k == dl),
            dl == decimal(n as nat).len(),
            out@ == start + Seq::new((k - dl) as nat, |i: int| ' '),
        decreases 3 - k,
    {
        let ghost before = out@;
        out.push(' ');
        proof {
            assert(out@ =~= start + Seq::new((k + 1 - dl) as nat, |i: int| ' '));
        }
        k += 1;
    }
    out.append(d.as_str());
    proof {
        if dl >= 3 {
            assert(out@ =~= start + decimal(n as nat));
        } else {
            assert(out@ =~= start + (Seq::new((3 - dl) as nat, |i: int| ' ') + decimal(n as nat)));
        }
    }
}

fn push_nl_marked(out: &mut String, s: &str)
    ensures
        final(out)@ == old(out)@ + nl_marked(s@),
{
    let v = chars_of(s);
    let ghost start = out@;
    let mut i: usize = 0;
    proof {
        assert(v@.take(0) =~= Seq::<char>::empty());
        assert(out@ =~= start + nl_marked(v@.take(0)));
    }
    while i < v.len()
        invariant
            i <= v.len(),
            v@ == s@,
            out@ == start + nl_marked(v@.take(i as int)),
        decreases v.len() - i,
    {
        let c = v[i];
        proof {
            assert(v@.take(i + 1).drop_last() =~= v@.take(i as int));
            assert(v@.take(i + 1).last() == c);
        }
        if c == '\n' {
            out.append(" \u{23ce} ");
        } else {
            out.push(c);
        }
        proof {
            assert(out@ =~= start + nl_marked(v@.take(i + 1)));
        }
        i += 1;
    }
    proof {
        assert(v@.take(v.len() as int) =~= v@);
    }
}

fn push_history_row(out: &mut String, entries: &Vec<String>, i: usize)
    requires
        i < entries.len(),
    ensures
        final(out)@ == old(out)@ + history_row(string_views(entries@), i as int),
{
    out.append("  ");
    push_pad3(out, i as u64 + 1);
    out.append("  ");
    let preview = take_str(entries[i].as_str(), 100);
    push_nl_marked(out, preview.as_str());
    out.append("\n");
    proof {
        assert(string_views(entries@)[i as int] == entries@[i as int]@);
    }
}

/// Rows of a list of positions appended to `out`.
fn push_history_rows(out: &mut String, entries: &Vec<String>, idxs: &Vec<usize>)
    requires
        forall|j: int| 0 <= j < idxs.len() ==> idxs@[j] < entries.len(),
    ensures
        final(out)@ == old(out)@ + history_rows(
            string_views(entries@),
            idxs@.map_values(|i: usize| i as int),
        ),
{
    let ghost start = out@;
    let ghost iv = idxs@.map_values(|i: usize| i as int);
    let mut j: usize = 0;
    proof {
        assert(iv.take(0) =~= Seq::<int>::empty());
        assert(out@ =~= start + history_rows(string_views(entries@), iv.take(0)));
    }
    while j < idxs.len()
        invariant
            j <= idxs.len(),
            iv == idxs@.map_values(|i: usize| i as int),
            forall|q: int| 0 <= q < idxs.len() ==> idxs@[q] < entries.len(),
            out@ == start + history_rows(string_views(entries@), iv.take(j as int)),
        decreases idxs.len() - j,
    {
        push_history_row(out, entries, idxs[j]);
        proof {
            assert(iv.take(j + 1).drop_last() =~= iv.take(j as int));
            assert(iv.take(j + 1).last() == idxs@[j as int] as int);
            assert(out@ =~= start + history_rows(string_views(entries@), iv.take(j + 1)));
        }
        j += 1;
    }
    proof {
        assert(iv.take(idxs.len() as int) =~= iv);
    }
}

/// Positions of entries whose lowercased text contains `q` (lowercased
/// already).
fn matching_positions(entries: &Vec<String>, q: &Vec<char>) -> (r: Vec<usize>)
    ensures
        r@.map_values(|i: usize| i as int) == history_matches(string_views(entries@), q@),
        forall|j: int| 0 <= j < r.len() ==> r@[j] < entries.len(),
{
    let ghost ev = string_views(entries@);
    let ghost all = Seq::new(ev.len(), |i: int| i);
    let ghost pred = |i: int| contains(spec_to_lowercase(ev[i]), q@);
    let mut out: Vec<usize> = Vec::new();
    let mut i: usize = 0;
    proof {
        assert(all.take(0).filter(pred) =~= Seq::<int>::empty());
        assert(out@.map_values(|i: usize| i as int) =~= Seq::<int>::empty());
    }
    while i < entries.len()
        invariant
            i <= entries.len(),
            ev == string_views(entries@),
            all == Seq::new(ev.len(), |i: int| i),
            pred == (|i: int| contains(spec_to_lowercase(ev[i]), q@)),
            out@.map_values(|i: usize| i as int) == all.take(i as int).filter(pred),
            forall|j: int| 0 <= j < out.len() ==> out@[j] < i,
        decreases entries.len() - i,
    {
        let low = to_lowercase(entries[i].as_str());
        let hit = contains_exec(&chars_of(low.as_str()), q);
        proof {
            assert(all.take(i + 1) =~= all.take(i as int).push(i as int));
            all.take(i as int).lemma_filter_push(i as int, pred);
            assert(ev[i as int] == entries@[i as int]@);
        }
        let ghost before = out@;
        if hit {
            out.push(i);
            proof {
                assert(out@.map_values(|i: usize| i as int) =~= before.map_values(|i: usize| i as int).push(
                    i as int,
                ));
            }
        }
        i += 1;
    }
    proof {
        assert(all.take(entries.len() as int) =~= all);
    }
    out
}

/// Answer `/history <arg>` (the argument already trimmed).
pub fn history_command(entries: &Vec<String>, arg: &str) -> (r: HistoryReply)
    ensures
        reply_view(r) == history_answer(string_views(entries@), arg@),
{
    let total = entries.len();
    if arg.is_empty() {
        if total == 0 {
            return HistoryReply::Show("No input history yet.".to_string());
        }
        let start = if total > 20 {
            total - 20
        } else {
            0
        };
        let mut idxs: Vec<usize> = Vec::new();
        let mut k: usize = start;
        while k < total
            invariant
                start <= k <= total,
                total == entries.len(),
                idxs.len() == k - start,
                idxs@.map_values(|i: usize| i as int) == Seq::new((k - start) as nat, |q: int| start + q),
                forall|j: int| 0 <= j < idxs.len() ==> idxs@[j] < total,
            decreases total - k,
        {
            let ghost before = idxs@;
            idxs.push(k);
            proof {
                let a = idxs@.map_values(|i: usize| i as int);
                let b = Seq::new((k + 1 - start) as nat, |q: int| start + q);
                assert(a.len() == b.len());
                assert forall|q: int| 0 <= q < a.len() implies a[q] == b[q] by {
                    if q < a.len() - 1 {
                        assert(idxs@[q] == before[q]);
                        assert(before.map_values(|i: usize| i as int)[q] == start + q);
                    }
                }
                assert(a =~= b);
            }
            k += 1;
        }
        let mut out = "Input history (most recent, newest last):\n".to_string();
        push_history_rows(&mut out, entries, &idxs);
        out.append("\n/history <query> to search \u{b7} /history <n> to edit that entry");
        return HistoryReply::Show(out);
    }
    match parse_usize_exec(arg) {
        Some(n) => {
            if 1 <= n && n <= total {
                let mut st = "history #".to_string();
                push_decimal(&mut st, n as u64);
                st.append(" loaded into input \u{2014} edit & Enter");
                HistoryReply::Load { index: n - 1, status: st }
            } else {
                let mut t = "No history entry #".to_string();
                push_decimal(&mut t, n as u64);
                t.append(" (have ");
                push_decimal(&mut t, total as u64);
                t.append(").");
                HistoryReply::Show(t)
            }
        },
        None => {
            let low = to_lowercase(arg);
            let q = chars_of(low.as_str());
            let m = matching_positions(entries, &q);
            if m.len() == 0 {
                let mut t = "No history matches for `".to_string();
                t.append(arg);
                t.append("`.");
                return HistoryReply::Show(t);
            }
            let mut shown = m;
            let ghost mv = shown@.map_values(|i: usize| i as int);
            shown.truncate(20);
            proof {
                if mv.len() > 20 {
                    assert(shown@.map_values(|i: usize| i as int) =~= mv.take(20));
                } else {
                    assert(shown@.map_values(|i: usize| i as int) =~= mv);
                }
            }
            let mut t = "History matches for `".to_string();
            t.append(arg);
            t.append("`:\n");
            push_history_rows(&mut t, entries, &shown);
            t.append("\n/history <n> to edit an entry");
            HistoryReply::Show(t)
        },
    }
}

} // verus!
