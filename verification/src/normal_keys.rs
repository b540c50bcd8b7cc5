//! Normal-mode keys of the chat: what a key does, and the transcript and
//! side-panel changes it makes.

use vstd::prelude::*;
use crate::helpers::{chat_views, ChatMessage, ChatRowView, ToolBlockView};
use crate::keys::{binding_matches_any_case, KeyInput, KeyInputCode, KeyMap};
use crate::search::last_index;
use crate::tree_view::SidePanelMode;
use crate::overlay_keys::{pop_char, popped};
use crate::text::{string_views, trim, trim_str};

verus! {

/// What a normal-mode key does.
#[derive(Debug, Clone, Copy, PartialEq, Eq, Structural)]
pub enum NormalAction {
    NextTab,
    PrevTab,
    FleetUp,
    FleetDown,
    FleetActivate,
    FleetToggleExpanded,
    EnterInsert,
    Quit,
    ToggleThinking,
    ToggleTool,
    ToggleTree,
    TimelineClose,
    TimelineUp,
    TimelineDown,
    TimelineFork,
    JumpBottom,
    FilePicker,
    DirPicker,
    ScrollUp,
    ScrollDown,
    PageUp,
    PageDown,
    Nothing,
}

/// Which panels are open when the key arrives.
#[derive(Debug, Clone, Copy, PartialEq, Eq, Structural)]
pub struct NormalContext {
    pub has_tool_tabs: bool,
    pub fleet_panel: bool,
    pub timeline_panel: bool,
}

/// Tab / Shift+Tab cycle console tabs when there are any; with the city
/// panel shown, arrows, Enter and `x` drive it; then the bindings for
/// insert, quit, thinking, tool and tree; with the timeline shown, Esc,
/// arrows / `k` `j` and Enter drive it; then jump-to-bottom, `@` / `#`
/// pickers and scrolling.
pub open spec fn normal_action_of(m: Map<Seq<char>, Seq<char>>, k: KeyInput, c: NormalContext) -> NormalAction {
    if k.code == KeyInputCode::Tab && c.has_tool_tabs {
        NormalAction::NextTab
    } else if k.code == KeyInputCode::BackTab && c.has_tool_tabs {
        NormalAction::PrevTab
    } else if c.fleet_panel && k.code == KeyInputCode::Up {
        NormalAction::FleetUp
    } else if c.fleet_panel && k.code == KeyInputCode::Down {
        NormalAction::FleetDown
    } else if c.fleet_panel && k.code == KeyInputCode::Enter {
        NormalAction::FleetActivate
    } else if c.fleet_panel && k.code == KeyInputCode::Char('x') {
        NormalAction::FleetToggleExpanded
    } else if binding_matches_any_case(m, "insert"@, k) {
        NormalAction::EnterInsert
    } else if binding_matches_any_case(m, "quit"@, k) {
        NormalAction::Quit
    } else if binding_matches_any_case(m, "toggle_thinking"@, k) {
        NormalAction::ToggleThinking
    } else if binding_matches_any_case(m, "expand_tool"@, k) {
        NormalAction::ToggleTool
    } else if binding_matches_any_case(m, "toggle_tree"@, k) {
        NormalAction::ToggleTree
    } else if c.timeline_panel && k.code == KeyInputCode::Esc {
        NormalAction::TimelineClose
    } else if c.timeline_panel && (k.code == KeyInputCode::Up || k.code == KeyInputCode::Char('k')) {
        NormalAction::TimelineUp
    } else if c.timeline_panel && (k.code == KeyInputCode::Down || k.code == KeyInputCode::Char('j')) {
        NormalAction::TimelineDown
    } else if c.timeline_panel && k.code == KeyInputCode::Enter {
        NormalAction::TimelineFork
    } else if binding_matches_any_case(m, "jump_bottom"@, k) {
        NormalAction::JumpBottom
    } else if k.code == KeyInputCode::Char('@') {
        NormalAction::FilePicker
    } else if k.code == KeyInputCode::Char('#') {
        NormalAction::DirPicker
    } else if k.code == KeyInputCode::Up {
        NormalAction::ScrollUp
    } else if k.code == KeyInputCode::Down {
        NormalAction::ScrollDown
    } else if k.code == KeyInputCode::PageUp {
        NormalAction::PageUp
    } else if k.code == KeyInputCode::PageDown {
        NormalAction::PageDown
    } else {
        NormalAction::Nothing
    }
}

/// Decide what a normal-mode key does.
pub fn normal_action(keys: &KeyMap, key: KeyInput, ctx: NormalContext) -> (r: NormalAction)
    ensures
        r == normal_action_of(keys@, key, ctx),
{
    let code = key.code;
    if code == KeyInputCode::Tab && ctx.has_tool_tabs {
        return NormalAction::NextTab;
    }
    if code == KeyInputCode::BackTab && ctx.has_tool_tabs {
        return NormalAction::PrevTab;
    }
    if ctx.fleet_panel {
        if code == KeyInputCode::Up {
            return NormalAction::FleetUp;
        }
        if code == KeyInputCode::Down {
            return NormalAction::FleetDown;
        }
        if code == KeyInputCode::Enter {
            return NormalAction::FleetActivate;
        }
        if code == KeyInputCode::Char('x') {
            return NormalAction::FleetToggleExpanded;
        }
    }
    if keys.key_matches("insert", key) {
        return NormalAction::EnterInsert;
    }
    if keys.key_matches("quit", key) {
        return NormalAction::Quit;
    }
    if keys.key_matches("toggle_thinking", key) {
        return NormalAction::ToggleThinking;
    }
    if keys.key_matches("expand_tool", key) {
        return NormalAction::ToggleTool;
    }
    if keys.key_matches("toggle_tree", key) {
        return NormalAction::ToggleTree;
    }
    if ctx.timeline_panel {
        if code == KeyInputCode::Esc {
            return NormalAction::TimelineClose;
        }
        if code == KeyInputCode::Up || code == KeyInputCode::Char('k') {
            return NormalAction::TimelineUp;
        }
        if code == KeyInputCode::Down || code == KeyInputCode::Char('j') {
            return NormalAction::TimelineDown;
        }
        if code == KeyInputCode::Enter {
            return NormalAction::TimelineFork;
        }
    }
    if keys.key_matches("jump_bottom", key) {
        return NormalAction::JumpBottom;
    }
    if code == KeyInputCode::Char('@') {
        return NormalAction::FilePicker;
    }
    if code == KeyInputCode::Char('#') {
        return NormalAction::DirPicker;
    }
    if code == KeyInputCode::Up {
        NormalAction::ScrollUp
    } else if code == KeyInputCode::Down {
        NormalAction::ScrollDown
    } else if code == KeyInputCode::PageUp {
        NormalAction::PageUp
    } else if code == KeyInputCode::PageDown {
        NormalAction::PageDown
    } else {
        NormalAction::Nothing
    }
}

/// Assistant rows with some thinking.
pub open spec fn has_thinking() -> spec_fn(ChatRowView) -> bool {
    |m: ChatRowView| m.role == "assistant"@ && (m.thinking matches Some(t) && t.len() > 0)
}

/// Rows with tool blocks.
pub open spec fn has_tools() -> spec_fn(ChatRowView) -> bool {
    |m: ChatRowView| m.tool_blocks.len() > 0
}

/// Show or hide the thinking of the last assistant row that has some.
pub open spec fn thinking_toggled(rows: Seq<ChatRowView>) -> Seq<ChatRowView> {
    match last_index(rows, has_thinking()) {
        Some(i) => rows.update(i, ChatRowView { show_thinking: !rows[i].show_thinking, ..rows[i] }),
        None => rows,
    }
}

/// Expand or collapse the last tool block of the last row that has one.
pub open spec fn tool_toggled(rows: Seq<ChatRowView>) -> Seq<ChatRowView> {
    match last_index(rows, has_tools()) {
        Some(i) => {
            let bs = rows[i].tool_blocks;
            let b = bs.last();
            rows.update(
                i,
                ChatRowView { tool_blocks: bs.update(bs.len() - 1, ToolBlockView { expanded: !b.expanded, ..b }), ..rows[i] },
            )
        },
        None => rows,
    }
}

fn last_with_thinking(messages: &Vec<ChatMessage>) -> (r: Option<usize>)
    ensures
        (match last_index(chat_views(messages@), has_thinking()) {
            Some(i) => r == Some(i as usize),
            None => r is None,
        }),
        last_index(chat_views(messages@), has_thinking()) matches Some(i) ==> 0 <= i < messages.len(),
{
    let ghost cv = chat_views(messages@);
    let mut k: usize = messages.len();
    while k > 0
        invariant
            k <= messages.len(),
            cv == chat_views(messages@),
            cv.len() == messages.len(),
            forall|j: int| k <= j < cv.len() ==> !has_thinking()(#[trigger] cv[j]),
        decreases k,
    {
        let m = &messages[k - 1];
        let hit = crate::text::str_eq(m.role.as_str(), "assistant") && match &m.thinking {
            Some(t) => !t.as_str().is_empty(),
            None => false,
        };
        proof {
            assert(cv[k - 1] == m@);
        }
        if hit {
            proof {
                crate::search::lemma_last_index_is(cv, has_thinking(), k - 1);
            }
            return Some(k - 1);
        }
        k -= 1;
    }
    proof {
        crate::search::lemma_last_index_none(cv, has_thinking());
    }
    None
}

/// Toggle the thinking of the last assistant row that has some.
pub fn toggle_last_thinking(messages: &mut Vec<ChatMessage>)
    ensures
        chat_views(final(messages)@) == thinking_toggled(chat_views(old(messages)@)),
{
    match last_with_thinking(messages) {
        Some(i) => {
            let ghost cv = chat_views(messages@);
            let mut m = messages.remove(i);
            m.show_thinking = !m.show_thinking;
            let ghost mv = m@;
            messages.insert(i, m);
            proof {
                assert(chat_views(messages@) =~= cv.update(i as int, mv));
            }
        },
        None => {},
    }
}

fn last_with_tools(messages: &Vec<ChatMessage>) -> (r: Option<usize>)
    ensures
        (match last_index(chat_views(messages@), has_tools()) {
            Some(i) => r == Some(i as usize),
            None => r is None,
        }),
        last_index(chat_views(messages@), has_tools()) matches Some(i) ==> 0 <= i < messages.len(),
{
    let ghost cv = chat_views(messages@);
    let mut k: usize = messages.len();
    while k > 0
        invariant
            k <= messages.len(),
            cv == chat_views(messages@),
            cv.len() == messages.len(),
            forall|j: int| k <= j < cv.len() ==> !has_tools()(#[trigger] cv[j]),
        decreases k,
    {
        proof {
            assert(cv[k - 1] == messages@[k - 1]@);
        }
        if messages[k - 1].tool_blocks.len() > 0 {
            proof {
                crate::search::lemma_last_index_is(cv, has_tools(), k - 1);
            }
            return Some(k - 1);
        }
        k -= 1;
    }
    proof {
        crate::search::lemma_last_index_none(cv, has_tools());
    }
    None
}

/// Toggle the last tool block of the last row that has one.
pub fn toggle_last_tool(messages: &mut Vec<ChatMessage>)
    ensures
        chat_views(final(messages)@) == tool_toggled(chat_views(old(messages)@)),
{
    match last_with_tools(messages) {
        Some(i) => {
            let ghost cv = chat_views(messages@);
            proof {
                crate::search::lemma_last_index_some(cv, has_tools());
                assert(has_tools()(cv[i as int]));
                assert(cv[i as int] == messages@[i as int]@);
            }
            let mut m = messages.remove(i);
            let n = m.tool_blocks.len();
            assert(n > 0);
            let ghost bv = m@.tool_blocks;
            let mut b = m.tool_blocks.remove(n - 1);
            b.expanded = !b.expanded;
            let ghost b2 = b@;
            m.tool_blocks.insert(n - 1, b);
            proof {
                assert(m@.tool_blocks =~= bv.update(n - 1, b2));
            }
            let ghost mv = m@;
            messages.insert(i, m);
            proof {
                assert(chat_views(messages@) =~= cv.update(i as int, mv));
            }
        },
        None => {},
    }
}

/// Side panels: tree, timeline and city, and the tree panel's mode.
#[derive(Debug, Clone, Copy, PartialEq, Eq, Structural)]
pub struct SidePanels {
    pub tree: bool,
    pub timeline: bool,
    pub fleet: bool,
    pub mode: SidePanelMode,
}

/// The tree key: with the tree shown (and the city not), it switches the
/// tree panel between tree and timeline; otherwise it shows the tree panel
/// alone, in tree mode.
pub open spec fn tree_toggled(p: SidePanels) -> SidePanels {
    if p.tree && !p.fleet {
        SidePanels {
            mode: if p.mode == SidePanelMode::Tree {
                SidePanelMode::Timeline
            } else {
                SidePanelMode::Tree
            },
            ..p
        }
    } else {
        SidePanels { fleet: false, timeline: false, tree: true, mode: SidePanelMode::Tree }
    }
}

/// Apply the tree key.
pub fn toggle_tree(p: SidePanels) -> (r: SidePanels)
    ensures
        r == tree_toggled(p),
{
    if p.tree && !p.fleet {
        SidePanels { mode: p.mode.toggle(), ..p }
    } else {
        SidePanels { fleet: false, timeline: false, tree: true, mode: SidePanelMode::Tree }
    }
}

/// Pressing the tree key twice over the tree panel comes back to where it
/// started; from any other state it opens the tree panel in tree mode.
pub proof fn lemma_tree_toggle_twice(p: SidePanels)
    ensures
        p.tree && !p.fleet ==> tree_toggled(tree_toggled(p)) == p,
        !(p.tree && !p.fleet) ==> tree_toggled(p).tree && !tree_toggled(p).fleet && tree_toggled(p).mode
            == SidePanelMode::Tree,
{
}

/// Toggling the same thinking twice restores the transcript.
pub proof fn lemma_thinking_toggle_twice(rows: Seq<ChatRowView>)
    ensures
        thinking_toggled(thinking_toggled(rows)) == rows,
{
    let t = thinking_toggled(rows);
    crate::search::lemma_last_index_some(rows, has_thinking());
    match last_index(rows, has_thinking()) {
        Some(i) => {
            assert forall|j: int| 0 <= j < t.len() implies #[trigger] has_thinking()(t[j]) == has_thinking()(rows[j]) by {}
            assert(crate::search::is_last(t, has_thinking(), i));
            crate::search::lemma_last_index_is(t, has_thinking(), i);
            assert(thinking_toggled(t) =~= rows);
        },
        None => {
            assert forall|j: int| 0 <= j < rows.len() implies !has_thinking()(#[trigger] rows[j]) by {
                if has_thinking()(rows[j]) {
                    assert(exists|k: int| 0 <= k < rows.len() && has_thinking()(#[trigger] rows[k]));
                }
            }
        },
    }
}

/// What the file / directory / completion picker is choosing.
#[derive(Debug, Clone, Copy, PartialEq, Eq, Structural)]
pub enum PickerMode {
    File,
    Dir,
    Skill,
    Prompt,
    Model,
    Provider,
}

/// The open picker: filter, selection, results, the input before it, and
/// what it picks.
#[derive(Debug, Clone)]
pub struct PickerState {
    pub query: String,
    pub selection: usize,
    pub results: Vec<String>,
    pub prefix: String,
    pub mode: PickerMode,
}

/// What a picker key does.
#[derive(Debug, Clone, PartialEq, Eq)]
pub enum PickerOutcome {
    /// Still open.
    Stay,
    /// The filter changed: recompute the results.
    Refilter,
    /// Closed, leaving this input.
    Close { input: String },
    /// Closed with a model or provider row chosen.
    Choose { row: String },
    /// Closed with nothing chosen (no result under the selection).
    CloseEmpty,
}

/// Value of a picker outcome: code (0 stay, 1 refilter, 2 close with
/// input, 3 choose, 4 close empty) and its text.
pub open spec fn picker_outcome_view(o: PickerOutcome) -> (int, Seq<char>) {
    match o {
        PickerOutcome::Stay => (0, seq![]),
        PickerOutcome::Refilter => (1, seq![]),
        PickerOutcome::Close { input } => (2, input@),
        PickerOutcome::Choose { row } => (3, row@),
        PickerOutcome::CloseEmpty => (4, seq![]),
    }
}

/// The input after choosing `row`: files, skills and prompts are appended
/// to the input before the picker, directories as `#dir`, each with a
/// trailing space.
pub open spec fn chosen_input(mode: PickerMode, prefix: Seq<char>, row: Seq<char>) -> Seq<char> {
    if mode == PickerMode::Dir {
        prefix + "#"@ + row + " "@
    } else {
        prefix + row + " "@
    }
}

/// The picker after a key: arrows move the selection (kept on the
/// results); Enter / Tab choose the selected row; Esc, or Backspace on an
/// empty filter, close and restore the input; Backspace and characters edit
/// the filter.
pub open spec fn picker_after(q: Seq<char>, sel: int, results: Seq<Seq<char>>, prefix: Seq<char>, mode: PickerMode, k: KeyInput) -> (Seq<char>, int, (int, Seq<char>)) {
    match k.code {
        KeyInputCode::Up => (q, if sel > 0 { sel - 1 } else { 0 }, (0, seq![])),
        KeyInputCode::Down => {
            let max = if results.len() > 0 { results.len() - 1 } else { 0 };
            let s = if sel < usize::MAX { sel + 1 } else { sel };
            (q, if s < max { s } else { max }, (0, seq![]))
        },
        KeyInputCode::Enter | KeyInputCode::Tab => if 0 <= sel < results.len() {
            if mode == PickerMode::Model || mode == PickerMode::Provider {
                (q, sel, (3, results[sel]))
            } else {
                (q, sel, (2, chosen_input(mode, prefix, results[sel])))
            }
        } else {
            (q, sel, (4, seq![]))
        },
        KeyInputCode::Esc => (q, sel, (2, prefix)),
        KeyInputCode::Backspace => if q.len() > 0 {
            (popped(q), sel, (1, seq![]))
        } else {
            (q, sel, (2, prefix))
        },
        KeyInputCode::Char(c) => (q.push(c), sel, (1, seq![])),
        _ => (q, sel, (0, seq![])),
    }
}

/// Handle a key in the picker.
pub fn picker_key(p: &mut PickerState, key: KeyInput) -> (r: PickerOutcome)
    ensures
        ({
            let a = picker_after(old(p).query@, old(p).selection as int, string_views(old(p).results@), old(p).prefix@, old(p).mode, key);
            &&& final(p).query@ == a.0
            &&& final(p).selection as int == a.1
            &&& picker_outcome_view(r) == a.2
            &&& final(p).results@ == old(p).results@
            &&& final(p).prefix@ == old(p).prefix@
            &&& final(p).mode == old(p).mode
        }),
{
    match key.code {
        KeyInputCode::Up => {
            p.selection = if p.selection > 0 {
                p.selection - 1
            } else {
                0
            };
            PickerOutcome::Stay
        },
        KeyInputCode::Down => {
            let max = if p.results.len() > 0 {
                p.results.len() - 1
            } else {
                0
            };
            let s = if p.selection < usize::MAX {
                p.selection + 1
            } else {
                p.selection
            };
            p.selection = if s < max {
                s
            } else {
                max
            };
            PickerOutcome::Stay
        },
        KeyInputCode::Enter | KeyInputCode::Tab => {
            if p.selection < p.results.len() {
                let row = p.results[p.selection].clone();
                proof {
                    assert(string_views(p.results@)[p.selection as int] == row@);
                }
                if p.mode == PickerMode::Model || p.mode == PickerMode::Provider {
                    PickerOutcome::Choose { row }
                } else {
                    let mut input = p.prefix.clone();
                    if p.mode == PickerMode::Dir {
                        input.append("#");
                    }
                    input.append(row.as_str());
                    input.append(" ");
                    PickerOutcome::Close { input }
                }
            } else {
                PickerOutcome::CloseEmpty
            }
        },
        KeyInputCode::Esc => PickerOutcome::Close { input: p.prefix.clone() },
        KeyInputCode::Backspace => {
            if !p.query.as_str().is_empty() {
                pop_char(&mut p.query);
                PickerOutcome::Refilter
            } else {
                PickerOutcome::Close { input: p.prefix.clone() }
            }
        },
        KeyInputCode::Char(c) => {
            p.query.push(c);
            PickerOutcome::Refilter
        },
        _ => PickerOutcome::Stay,
    }
}

/// What an insert-mode key does (with no picker open).
#[derive(Debug, Clone, Copy, PartialEq, Eq, Structural)]
pub enum InsertAction {
    /// Submit the (non-blank) input.
    Submit,
    FilePicker,
    DirPicker,
    Complete,
    HistoryUp,
    HistoryDown,
    Type(char),
    Erase,
    /// Back to normal mode.
    Leave,
    Nothing,
}

/// Enter submits non-blank input; `@` / `#` open pickers; Tab completes;
/// arrows walk the history; other characters type; Backspace erases; Esc
/// leaves insert mode.
pub open spec fn insert_action_of(k: KeyInput, input_blank: bool) -> InsertAction {
    match k.code {
        KeyInputCode::Enter => if input_blank { InsertAction::Nothing } else { InsertAction::Submit },
        KeyInputCode::Char(c) => if c == '@' {
            InsertAction::FilePicker
        } else if c == '#' {
            InsertAction::DirPicker
        } else {
            InsertAction::Type(c)
        },
        KeyInputCode::Tab => InsertAction::Complete,
        KeyInputCode::Up => InsertAction::HistoryUp,
        KeyInputCode::Down => InsertAction::HistoryDown,
        KeyInputCode::Backspace => InsertAction::Erase,
        KeyInputCode::Esc => InsertAction::Leave,
        _ => InsertAction::Nothing,
    }
}

/// Decide what an insert-mode key does.
pub fn insert_action(key: KeyInput, input: &str) -> (r: InsertAction)
    ensures
        r == insert_action_of(key, trim(input@).len() == 0),
{
    let blank = trim_str(input).as_str().is_empty();
    match key.code {
        KeyInputCode::Enter => if blank { InsertAction::Nothing } else { InsertAction::Submit },
        KeyInputCode::Char(c) => if c == '@' {
            InsertAction::FilePicker
        } else if c == '#' {
            InsertAction::DirPicker
        } else {
            InsertAction::Type(c)
        },
        KeyInputCode::Tab => InsertAction::Complete,
        KeyInputCode::Up => InsertAction::HistoryUp,
        KeyInputCode::Down => InsertAction::HistoryDown,
        KeyInputCode::Backspace => InsertAction::Erase,
        KeyInputCode::Esc => InsertAction::Leave,
        _ => InsertAction::Nothing,
    }
}

/// The history after submitting `text`: appended unless it repeats the
/// last entry.
pub open spec fn remembered(h: Seq<Seq<char>>, text: Seq<char>) -> Seq<Seq<char>> {
    if h.len() > 0 && h.last() == text {
        h
    } else {
        h.push(text)
    }
}

/// Record a submitted input in the history.
pub fn remember_input(history: &mut Vec<String>, text: &str)
    ensures
        string_views(final(history)@) == remembered(string_views(old(history)@), text@),
{
    let same = history.len() > 0 && crate::text::str_eq(history[history.len() - 1].as_str(), text);
    if !same {
        let ghost before = history@;
        history.push(text.to_string());
        proof {
            assert(string_views(history@) =~= string_views(before).push(text@));
        }
    }
}

} // verus!
