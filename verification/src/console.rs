//! The tool-output console: cleaning streamed terminal text, capping a
//! panel's buffer, routing output to its tab, and cycling tabs.

use vstd::prelude::*;
use crate::search::last_index;
use crate::text::{decimal, push_decimal, string_views, byte_len, byte_len_prefix, chars_of, string_of, string_of_all, utf8_width};
use crate::text::{ellipsize, ellipsized, lines, lines_of, views};

verus! {

/// Where the cleaner is within an escape sequence.
#[derive(Debug, Clone, Copy, PartialEq, Eq, Structural)]
pub enum EscState {
    /// Plain text.
    Text,
    /// Just after an ESC.
    Escape,
    /// Inside `ESC [`, up to a letter.
    Csi,
    /// Inside `ESC ]`, up to BEL or a newline.
    Osc,
}

/// What a plain-text character becomes: ESC starts a sequence; CR and
/// other control characters (and DEL) vanish; a tab becomes four spaces;
/// newlines and printable characters stay.
pub open spec fn text_step(c: char) -> (EscState, Seq<char>) {
    if c == '\u{1b}' {
        (EscState::Escape, seq![])
    } else if c == '\r' {
        (EscState::Text, seq![])
    } else if c == '\t' {
        (EscState::Text, "    "@)
    } else if c == '\n' || (c >= ' ' && c != '\u{7f}') {
        (EscState::Text, seq![c])
    } else {
        (EscState::Text, seq![])
    }
}

/// Whether `c` is an ASCII letter.
pub open spec fn ascii_letter(c: char) -> bool {
    ('a' <= c <= 'z') || ('A' <= c <= 'Z')
}

/// One character through the cleaner: after ESC, `[` opens a CSI sequence
/// and `]` an OSC sequence, anything else is read as plain text; a CSI
/// sequence ends at a letter, an OSC one at BEL or a newline; nothing of a
/// sequence is kept.
pub open spec fn esc_step(st: EscState, c: char) -> (EscState, Seq<char>) {
    match st {
        EscState::Text => text_step(c),
        EscState::Escape => if c == '[' {
            (EscState::Csi, seq![])
        } else if c == ']' {
            (EscState::Osc, seq![])
        } else {
            text_step(c)
        },
        EscState::Csi => if ascii_letter(c) || c == 'm' {
            (EscState::Text, seq![])
        } else {
            (EscState::Csi, seq![])
        },
        EscState::Osc => if c == '\u{7}' || c == '\n' {
            (EscState::Text, seq![])
        } else {
            (EscState::Osc, seq![])
        },
    }
}

/// The cleaner run over `s` from plain text: final state and output.
pub open spec fn esc_run(s: Seq<char>) -> (EscState, Seq<char>)
    decreases s.len(),
{
    if s.len() == 0 {
        (EscState::Text, seq![])
    } else {
        let (st, out) = esc_run(s.drop_last());
        let (st2, o) = esc_step(st, s.last());
        (st2, out + o)
    }
}

/// Terminal text with escape sequences and control characters removed.
pub open spec fn sanitized(s: Seq<char>) -> Seq<char> {
    esc_run(s).1
}

/// Strip ANSI escape sequences and control characters so the console never
/// paints a half-read escape; tabs become four spaces.
pub fn sanitize_console_text(s: &str) -> (r: String)
    ensures
        r@ == sanitized(s@),
{
    let v = chars_of(s);
    let mut out: Vec<char> = Vec::new();
    let mut st = EscState::Text;
    let mut i: usize = 0;
    proof {
        assert(v@.take(0) =~= Seq::<char>::empty());
    }
    while i < v.len()
        invariant
            i <= v.len(),
            v@ == s@,
            (st, out@) == esc_run(v@.take(i as int)),
        decreases v.len() - i,
    {
        let c = v[i];
        proof {
            assert(v@.take(i + 1).drop_last() =~= v@.take(i as int));
            assert(v@.take(i + 1).last() == c);
        }
        let ghost before = out@;
        let ghost st0 = st;
        let in_text = match st {
            EscState::Text => true,
            EscState::Escape => c != '[' && c != ']',
            _ => false,
        };
        if in_text {
            if c == '\u{1b}' {
                st = EscState::Escape;
            } else if c == '\r' {
                st = EscState::Text;
            } else if c == '\t' {
                out.push(' ');
                out.push(' ');
                out.push(' ');
                out.push(' ');
                st = EscState::Text;
            } else if c == '\n' || (c >= ' ' && c != '\u{7f}') {
                out.push(c);
                st = EscState::Text;
            } else {
                st = EscState::Text;
            }
        } else {
            match st {
                EscState::Escape => {
                    st = if c == '[' {
                        EscState::Csi
                    } else {
                        EscState::Osc
                    };
                },
                EscState::Csi => {
                    if ('a' <= c && c <= 'z') || ('A' <= c && c <= 'Z') || c == 'm' {
                        st = EscState::Text;
                    }
                },
                EscState::Osc => {
                    if c == '\u{7}' || c == '\n' {
                        st = EscState::Text;
                    }
                },
                EscState::Text => {},
            }
        }
        proof {
            reveal_strlit("    ");
            let (s2, o) = esc_step(st0, c);
            assert(out@ =~= before + o);
            assert(st == s2);
        }
        i += 1;
    }
    proof {
        assert(v@.take(v.len() as int) =~= v@);
    }
    string_of_all(&out)
}

/// A character the console can paint: a newline or a printable character.
pub open spec fn paintable(c: char) -> bool {
    c == '\n' || (c >= ' ' && c != '\u{7f}')
}

/// Cleaned text holds only paintable characters (no escape, carriage
/// return, tab or other control character survives).
pub proof fn lemma_sanitized_paintable(s: Seq<char>)
    ensures
        forall|i: int| 0 <= i < sanitized(s).len() ==> paintable(#[trigger] sanitized(s)[i]),
    decreases s.len(),
{
    reveal_strlit("    ");
    if s.len() > 0 {
        lemma_sanitized_paintable(s.drop_last());
        let (st, out) = esc_run(s.drop_last());
        let (st2, o) = esc_step(st, s.last());
        assert(forall|i: int| 0 <= i < o.len() ==> paintable(#[trigger] o[i]));
        assert forall|i: int| 0 <= i < sanitized(s).len() implies paintable(#[trigger] sanitized(s)[i]) by {
            if i < out.len() {
                assert(sanitized(s)[i] == out[i]);
                assert(sanitized(s.drop_last())[i] == out[i]);
            } else {
                assert(sanitized(s)[i] == o[i - out.len()]);
            }
        }
    }
}

/// Text made of paintable characters only passes through unchanged.
pub proof fn lemma_sanitized_plain(s: Seq<char>)
    requires
        forall|i: int| 0 <= i < s.len() ==> paintable(#[trigger] s[i]),
    ensures
        sanitized(s) == s,
        esc_run(s).0 == EscState::Text,
    decreases s.len(),
{
    if s.len() > 0 {
        assert forall|i: int| 0 <= i < s.drop_last().len() implies paintable(#[trigger] s.drop_last()[i]) by {
            assert(s.drop_last()[i] == s[i]);
        }
        lemma_sanitized_plain(s.drop_last());
        assert(paintable(s.last()));
        assert(s.last() != '\u{1b}');
        assert(s.drop_last().push(s.last()) =~= s);
        assert(sanitized(s) =~= s.drop_last() + seq![s.last()]);
    } else {
        assert(sanitized(s) =~= s);
    }
}

/// The first character position at or after `i` where the text before it
/// is at least `b` bytes long (a character boundary at or after byte `b`).
pub open spec fn boundary_from(s: Seq<char>, b: nat, i: nat) -> nat
    decreases s.len() - i,
{
    if i >= s.len() || byte_len(s.take(i as int)) >= b {
        i
    } else {
        boundary_from(s, b, i + 1)
    }
}

/// Position of the first newline at or after `i`.
pub open spec fn next_newline(s: Seq<char>, i: int) -> Option<int>
    decreases s.len() - i,
{
    if i < 0 || i >= s.len() {
        None
    } else if s[i] == '\n' {
        Some(i)
    } else {
        next_newline(s, i + 1)
    }
}

/// Where an over-full panel is cut: at the first character boundary that
/// leaves at most `cap` bytes, moved past the next newline when there is
/// one.
pub open spec fn panel_cut(s: Seq<char>, cap: nat) -> int {
    let start = boundary_from(s, (byte_len(s) - cap) as nat, 0);
    match next_newline(s, start as int) {
        Some(j) => j + 1,
        None => start as int,
    }
}

/// A panel buffer capped to about `cap` bytes, dropping from the front.
pub open spec fn trimmed_panel(s: Seq<char>, cap: nat) -> Seq<char> {
    if byte_len(s) <= cap {
        s
    } else {
        s.subrange(panel_cut(s, cap), s.len() as int)
    }
}

proof fn lemma_boundary_range(s: Seq<char>, b: nat, i: nat)
    requires
        i <= s.len(),
    ensures
        i <= boundary_from(s, b, i) <= s.len(),
        byte_len(s.take(boundary_from(s, b, i) as int)) >= b || boundary_from(s, b, i) == s.len(),
    decreases s.len() - i,
{
    if !(i >= s.len() || byte_len(s.take(i as int)) >= b) {
        lemma_boundary_range(s, b, i + 1);
    }
}

proof fn lemma_next_newline_range(s: Seq<char>, i: int)
    ensures
        next_newline(s, i) matches Some(j) ==> i <= j < s.len() && s[j] == '\n',
    decreases s.len() - i,
{
    if !(i < 0 || i >= s.len()) && s[i] != '\n' {
        lemma_next_newline_range(s, i + 1);
    }
}

/// Cap a panel buffer to about `cap` bytes without splitting a character,
/// preferring to cut just after a newline.
pub fn trim_panel_utf8(panel: &mut String, cap: usize)
    ensures
        final(panel)@ == trimmed_panel(old(panel)@, cap as nat),
{
    let v = chars_of(panel.as_str());
    let total = byte_len_prefix(&v, v.len());
    proof {
        assert(v@.take(v@.len() as int) =~= v@);
    }
    if total <= cap as u128 {
        return;
    }
    let b: u128 = total - cap as u128;
    let ghost s = v@;
    let mut i: usize = 0;
    let mut acc: u128 = 0;
    while i < v.len() && acc < b
        invariant
            i <= v.len(),
            s == v@,
            acc as nat == byte_len(s.take(i as int)),
            acc <= 4 * i,
            boundary_from(s, b as nat, 0) == boundary_from(s, b as nat, i as nat),
        decreases v.len() - i,
    {
        let u = v[i] as u32;
        let w: u128 = if u < 0x80 {
            1
        } else if u < 0x800 {
            2
        } else if u < 0x10000 {
            3
        } else {
            4
        };
        proof {
            assert(s.take(i + 1).drop_last() =~= s.take(i as int));
            assert(s.take(i + 1).last() == s[i as int]);
        }
        acc = acc + w;
        i += 1;
    }
    let start = i;
    proof {
        assert(boundary_from(s, b as nat, start as nat) == start);
    }
    let mut j: usize = start;
    while j < v.len() && v[j] != '\n'
        invariant
            start <= j <= v.len(),
            s == v@,
            next_newline(s, start as int) == next_newline(s, j as int),
        decreases v.len() - j,
    {
        j += 1;
    }
    let cut = if j < v.len() {
        j + 1
    } else {
        start
    };
    *panel = string_of(&v, cut, v.len());
}

proof fn lemma_byte_len_split(s: Seq<char>, k: int)
    requires
        0 <= k <= s.len(),
    ensures
        byte_len(s) == byte_len(s.take(k)) + byte_len(s.subrange(k, s.len() as int)),
    decreases s.len(),
{
    if s.len() == 0 {
        assert(s.take(k) =~= s);
    } else if k == s.len() {
        assert(s.take(k) =~= s);
        assert(s.subrange(k, s.len() as int) =~= Seq::<char>::empty());
    } else {
        let t = s.drop_last();
        lemma_byte_len_split(t, k);
        assert(t.take(k) =~= s.take(k));
        let r = s.subrange(k, s.len() as int);
        assert(r.drop_last() =~= t.subrange(k, t.len() as int));
        assert(r.last() == s.last());
    }
}

/// After trimming, a panel holds at most `cap` bytes, and what it holds is
/// the end of what it held.
pub proof fn lemma_trimmed_panel_fits(s: Seq<char>, cap: nat)
    ensures
        byte_len(trimmed_panel(s, cap)) <= cap,
        exists|k: int| 0 <= k <= s.len() && trimmed_panel(s, cap) == #[trigger] s.subrange(k, s.len() as int),
{
    if byte_len(s) <= cap {
        assert(s.subrange(0, s.len() as int) =~= s);
    } else {
        let b = (byte_len(s) - cap) as nat;
        let start = boundary_from(s, b, 0);
        lemma_boundary_range(s, b, 0);
        lemma_next_newline_range(s, start as int);
        let cut = panel_cut(s, cap);
        assert(start <= cut <= s.len());
        lemma_byte_len_split(s, cut);
        lemma_byte_len_split(s.take(cut), start as int);
        assert(s.take(cut).take(start as int) =~= s.take(start as int));
        if start == s.len() {
            assert(s.take(start as int) =~= s);
        }
    }
}

/// A console tab: the output of one tool call.
#[derive(Debug, Clone)]
pub struct ToolOutputTab {
    pub id: String,
    pub name: String,
    pub label: String,
    pub buffer: String,
    pub done: bool,
}

/// Value of a console tab.
pub struct TabView {
    pub id: Seq<char>,
    pub name: Seq<char>,
    pub label: Seq<char>,
    pub buffer: Seq<char>,
    pub done: bool,
}

impl View for ToolOutputTab {
    type V = TabView;

    open spec fn view(&self) -> TabView {
        TabView { id: self.id@, name: self.name@, label: self.label@, buffer: self.buffer@, done: self.done }
    }
}

/// Views of a list of tabs.
pub open spec fn tab_views(s: Seq<ToolOutputTab>) -> Seq<TabView> {
    s.map_values(|t: ToolOutputTab| t@)
}

/// Tabs of the tool `name` that are still running.
pub open spec fn open_tab_named(name: Seq<char>) -> spec_fn(TabView) -> bool {
    |t: TabView| t.name == name && !t.done
}

/// Tabs of the tool `name`.
pub open spec fn tab_named(name: Seq<char>) -> spec_fn(TabView) -> bool {
    |t: TabView| t.name == name
}

/// The tab that output of tool `name` goes to: its last running tab, else
/// its last tab.
pub open spec fn output_tab(tabs: Seq<TabView>, name: Seq<char>) -> Option<int> {
    match last_index(tabs, open_tab_named(name)) {
        Some(i) => Some(i),
        None => last_index(tabs, tab_named(name)),
    }
}

/// Most bytes a console buffer keeps.
pub open spec fn console_cap() -> nat {
    16_000
}

/// The tab that output of tool `name` goes to.
pub fn output_tab_for(tabs: &Vec<ToolOutputTab>, name: &str) -> (r: Option<usize>)
    ensures
        (match output_tab(tab_views(tabs@), name@) {
            Some(i) => r == Some(i as usize),
            None => r is None,
        }),
        r matches Some(i) ==> i < tabs.len(),
        output_tab(tab_views(tabs@), name@) matches Some(i) ==> 0 <= i < tabs.len(),
{
    let ghost tv = tab_views(tabs@);
    let mut i: usize = tabs.len();
    while i > 0
        invariant
            i <= tabs.len(),
            tv == tab_views(tabs@),
            tv.len() == tabs.len(),
            forall|j: int| i <= j < tv.len() ==> !open_tab_named(name@)(#[trigger] tv[j]),
        decreases i,
    {
        let t = &tabs[i - 1];
        if crate::text::str_eq(t.name.as_str(), name) && !t.done {
            proof {
                crate::search::lemma_last_index_is(tv, open_tab_named(name@), i - 1);
            }
            return Some(i - 1);
        }
        i -= 1;
    }
    proof {
        crate::search::lemma_last_index_none(tv, open_tab_named(name@));
    }
    let mut k: usize = tabs.len();
    while k > 0
        invariant
            k <= tabs.len(),
            tv == tab_views(tabs@),
            tv.len() == tabs.len(),
            forall|j: int| k <= j < tv.len() ==> !tab_named(name@)(#[trigger] tv[j]),
            crate::search::last_index(tv, open_tab_named(name@)) is None,
        decreases k,
    {
        if crate::text::str_eq(tabs[k - 1].name.as_str(), name) {
            proof {
                crate::search::lemma_last_index_is(tv, tab_named(name@), k - 1);
            }
            return Some(k - 1);
        }
        k -= 1;
    }
    proof {
        crate::search::lemma_last_index_none(tv, tab_named(name@));
    }
    None
}

/// Route a chunk of output of tool `name`: appended to its tab (see
/// `output_tab`), or to the shared `fallback` buffer when it has none;
/// the buffer written is then capped to `console_cap()` bytes. Returns
/// the tab written to.
pub fn append_tool_tab_output(
    tabs: &mut Vec<ToolOutputTab>,
    fallback: &mut String,
    name: &str,
    chunk: &str,
) -> (r: Option<usize>)
    ensures
        (match output_tab(tab_views(old(tabs)@), name@) {
            Some(i) => {
                &&& r == Some(i as usize)
                &&& tab_views(final(tabs)@) == tab_views(old(tabs)@).update(
                    i,
                    TabView {
                        buffer: trimmed_panel(tab_views(old(tabs)@)[i].buffer + chunk@, console_cap()),
                        ..tab_views(old(tabs)@)[i]
                    },
                )
                &&& final(fallback)@ == old(fallback)@
            },
            None => {
                &&& r is None
                &&& final(tabs)@ == old(tabs)@
                &&& final(fallback)@ == trimmed_panel(old(fallback)@ + chunk@, console_cap())
            },
        }),
{
    match output_tab_for(tabs, name) {
        Some(idx) => {
            let ghost tv0 = tab_views(tabs@);
            let t = tabs.remove(idx);
            assert(t@ == tv0[idx as int]);
            let mut buf = t.buffer;
            buf.append(chunk);
            trim_panel_utf8(&mut buf, 16_000);
            let nt = ToolOutputTab { id: t.id, name: t.name, label: t.label, buffer: buf, done: t.done };
            tabs.insert(idx, nt);
            proof {
                assert(nt@ == TabView { buffer: trimmed_panel(tv0[idx as int].buffer + chunk@, console_cap()), ..tv0[idx as int] });
                assert(tab_views(tabs@) =~= tv0.update(idx as int, nt@));
            }
            Some(idx)
        },
        None => {
            fallback.append(chunk);
            trim_panel_utf8(fallback, 16_000);
            None
        },
    }
}

/// Status text of the selected console tab: `console <n>/<count> · <label>`.
pub open spec fn tab_status(idx: int, count: int, label: Seq<char>) -> Seq<char> {
    "console "@ + decimal((idx + 1) as nat) + "/"@ + decimal(count as nat) + " \u{b7} "@ + label
}

/// Select the tab `delta` steps from `cur` (wrapping) and describe it;
/// `None` when there are no tabs.
pub fn cycle_tool_output_tab(tabs: &Vec<ToolOutputTab>, cur: usize, delta: i32) -> (r: Option<(usize, String)>)
    requires
        tabs.len() <= i32::MAX,
        cur <= i32::MAX,
        i32::MIN <= cur + delta <= i32::MAX,
    ensures
        tabs.len() == 0 ==> r is None,
        tabs.len() > 0 ==> ({
            let idx = (cur + delta) % (tabs.len() as int);
            r matches Some(p) && p.0 == idx && p.1@ == tab_status(idx, tabs.len() as int, tabs@[idx].label@)
        }),
{
    if tabs.len() == 0 {
        return None;
    }
    let n = tabs.len() as i64;
    let idx = crate::focus::rem_euclid(cur as i64 + delta as i64, n) as usize;
    let mut s = "console ".to_string();
    push_decimal(&mut s, idx as u64 + 1);
    s.append("/");
    push_decimal(&mut s, tabs.len() as u64);
    s.append(" \u{b7} ");
    s.append(tabs[idx].label.as_str());
    Some((idx, s))
}

/// Tools whose output streams to the console.
pub open spec fn streams_to_console(name: Seq<char>) -> bool {
    name == "repl"@ || name == "bash"@ || name == "task"@
}

/// A console tool opens a tab labelled `<name>#<n>` (`n` counting tabs
/// from 1); other tools open none.
pub fn open_tool_tab(tabs: &mut Vec<ToolOutputTab>, id: &str, name: &str) -> (r: bool)
    requires
        old(tabs)@.len() < usize::MAX,
    ensures
        r == streams_to_console(name@),
        r ==> tab_views(final(tabs)@) == tab_views(old(tabs)@).push(
            TabView {
                id: id@,
                name: name@,
                label: name@ + "#"@ + decimal((old(tabs)@.len() + 1) as nat),
                buffer: seq![],
                done: false,
            },
        ),
        !r ==> final(tabs)@ == old(tabs)@,
{
    let console = crate::text::str_eq(name, "repl") || crate::text::str_eq(name, "bash")
        || crate::text::str_eq(name, "task");
    if !console {
        return false;
    }
    let mut label = name.to_string();
    label.append("#");
    push_decimal(&mut label, (tabs.len() + 1) as u64);
    let t = ToolOutputTab { id: id.to_string(), name: name.to_string(), label, buffer: String::new(), done: false };
    let ghost before = tabs@;
    tabs.push(t);
    proof {
        assert(t@.buffer =~= Seq::<char>::empty());
        assert(tab_views(tabs@) =~= tab_views(before).push(t@));
    }
    true
}


/// At most this many tabs are named in the console title.
pub const TITLE_TABS: usize = 6;

/// One tab in the console title: a check mark when done (else a dot)
/// before its label, bracketed when it is the tab shown.
pub open spec fn tab_chip(t: TabView, on: bool) -> Seq<char> {
    let state = if t.done {
        seq!['\u{2713}']
    } else {
        seq!['\u{25cf}']
    };
    if on {
        seq!['['] + state + t.label + seq![']']
    } else {
        seq![' '] + state + t.label + seq![' ']
    }
}

/// The chips of the first `n` tabs.
pub open spec fn tab_chips(tabs: Seq<TabView>, cur: int, n: nat) -> Seq<char>
    decreases n,
{
    if n == 0 {
        seq![]
    } else {
        tab_chips(tabs, cur, (n - 1) as nat) + tab_chip(tabs[n - 1], n - 1 == cur)
    }
}

/// The console title: `Console`, or with tabs `Console · Tab ` and the
/// chips of the first six tabs, then an ellipsis when there are more.
pub open spec fn console_title_text(tabs: Seq<TabView>, cur: int) -> Seq<char> {
    if tabs.len() == 0 {
        "Console"@
    } else {
        "Console \u{b7} Tab "@ + tab_chips(
            tabs,
            cur,
            if tabs.len() < TITLE_TABS {
                tabs.len()
            } else {
                TITLE_TABS as nat
            },
        ) + if tabs.len() > TITLE_TABS {
            seq!['\u{2026}']
        } else {
            seq![]
        }
    }
}

/// What the console shows: the shown tab's output when it has any, else
/// the shared console text.
pub open spec fn console_body(tabs: Seq<TabView>, cur: int, panel: Seq<char>) -> Seq<char> {
    if 0 <= cur < tabs.len() && tabs[cur].buffer.len() > 0 {
        tabs[cur].buffer
    } else {
        panel
    }
}

/// Columns inside the console border: two fewer than the area, at least 8.
pub open spec fn console_inner_width(width: u16) -> nat {
    if width >= 10 {
        (width - 2) as nat
    } else {
        8
    }
}

/// Rows inside the console border: two fewer than the area, at least 1.
pub open spec fn console_rows(height: u16) -> nat {
    if height >= 3 {
        (height - 2) as nat
    } else {
        1
    }
}

/// The console as drawn in an area: its title cut to two columns less than
/// the inner width, and the last lines of its text that fit, each cut to
/// the inner width.
pub open spec fn console_view(
    tabs: Seq<TabView>,
    cur: int,
    panel: Seq<char>,
    width: u16,
    height: u16,
) -> (Seq<char>, Seq<Seq<char>>) {
    let w = console_inner_width(width);
    let ls = lines(console_body(tabs, cur, panel));
    let rows = console_rows(height);
    let start = if ls.len() > rows {
        ls.len() - rows
    } else {
        0
    };
    (
        ellipsized(console_title_text(tabs, cur), if w >= 2 {
            (w - 2) as nat
        } else {
            0
        }),
        ls.skip(start).map_values(|l: Seq<char>| ellipsized(l, w)),
    )
}

/// Appends one tab's chip to the title.
fn push_chip(out: &mut String, t: &ToolOutputTab, on: bool)
    ensures
        final(out)@ == old(out)@ + tab_chip(t@, on),
{
    let ghost start = out@;
    if on {
        out.push('[');
    } else {
        out.push(' ');
    }
    if t.done {
        out.push('\u{2713}');
    } else {
        out.push('\u{25cf}');
    }
    out.append(t.label.as_str());
    if on {
        out.push(']');
    } else {
        out.push(' ');
    }
    proof {
        assert(out@ =~= start + tab_chip(t@, on));
    }
}

/// The console title and the lines it shows in an area `width` by
/// `height` (see `console_view`).
pub fn console_panel(
    tabs: &Vec<ToolOutputTab>,
    cur: usize,
    panel: &str,
    width: u16,
    height: u16,
) -> (r: (String, Vec<String>))
    ensures
        (r.0@, string_views(r.1@)) == console_view(tab_views(tabs@), cur as int, panel@, width, height),
{
    let ghost tv = tab_views(tabs@);
    let w: usize = if width >= 10 {
        (width - 2) as usize
    } else {
        8
    };
    let rows: usize = if height >= 3 {
        (height - 2) as usize
    } else {
        1
    };
    let mut title = String::new();
    if tabs.len() == 0 {
        title.append("Console");
    } else {
        title.append("Console \u{b7} Tab ");
        let n = if tabs.len() < TITLE_TABS {
            tabs.len()
        } else {
            TITLE_TABS
        };
        let ghost head = title@;
        let mut i: usize = 0;
        while i < n
            invariant
                i <= n <= tabs.len(),
                n == (if tabs.len() < TITLE_TABS {
                    tabs.len()
                } else {
                    TITLE_TABS
                }),
                tv == tab_views(tabs@),
                title@ == head + tab_chips(tv, cur as int, i as nat),
            decreases n - i,
        {
            push_chip(&mut title, &tabs[i], i == cur);
            proof {
                assert(tv[i as int] == tabs@[i as int]@);
                assert(title@ =~= head + tab_chips(tv, cur as int, (i + 1) as nat));
            }
            i += 1;
        }
        if tabs.len() > TITLE_TABS {
            title.push('\u{2026}');
        }
    }
    let shown = ellipsize(title.as_str(), if w >= 2 {
        w - 2
    } else {
        0
    });
    let body: &str = if cur < tabs.len() && !tabs[cur].buffer.as_str().is_empty() {
        tabs[cur].buffer.as_str()
    } else {
        panel
    };
    let v = chars_of(body);
    let ls = lines_of(&v);
    let start = if ls.len() > rows {
        ls.len() - rows
    } else {
        0
    };
    let ghost all = lines(body@);
    let mut out: Vec<String> = Vec::new();
    let mut k: usize = start;
    while k < ls.len()
        invariant
            start <= k <= ls.len(),
            views(ls@) == all,
            string_views(out@) == all.subrange(start as int, k as int).map_values(
                |l: Seq<char>| ellipsized(l, w as nat),
            ),
        decreases ls.len() - k,
    {
        let line = string_of_all(&ls[k]);
        let c = ellipsize(line.as_str(), w);
        let ghost before = out@;
        out.push(c);
        proof {
            assert(views(ls@)[k as int] == ls@[k as int]@);
            assert(string_views(out@) =~= string_views(before).push(c@));
            assert(all.subrange(start as int, k + 1) =~= all.subrange(start as int, k as int).push(
                all[k as int],
            ));
            assert(string_views(out@) =~= all.subrange(start as int, k + 1).map_values(
                |l: Seq<char>| ellipsized(l, w as nat),
            ));
        }
        k += 1;
    }
    proof {
        assert(all.subrange(start as int, all.len() as int) =~= all.skip(start as int));
        if cur < tabs.len() {
            assert(tv[cur as int] == tabs@[cur as int]@);
        }
    }
    (shown, out)
}


/// The console never draws past its border: the title fits two columns
/// inside the inner width, no more lines are shown than there are rows,
/// and no line is wider than the inner width.
pub proof fn lemma_console_fits(tabs: Seq<TabView>, cur: int, panel: Seq<char>, width: u16, height: u16)
    ensures
        ({
            let (title, shown) = console_view(tabs, cur, panel, width, height);
            &&& title.len() + 2 <= console_inner_width(width)
            &&& shown.len() <= console_rows(height)
            &&& forall|i: int| 0 <= i < shown.len() ==> #[trigger] shown[i].len() <= console_inner_width(width)
        }),
{
}

} // verus!

