//! The chat's state while the agent works a turn, and how each agent event
//! moves it: one step from state and event to the next state and the
//! outside work to do (publish the lifecycle, send `continue`, clear the
//! input, start the tool clock, tell the language server of a save).

use vstd::prelude::*;
use crate::agent_events::{
    after_text_delta, after_thinking_delta, after_tool_block, append_text_delta, append_thinking_delta,
    append_to_last, chunk_of, console_chunk, error_action, error_reply, goal_reply,
    goal_update, push_tool_block, result_block, status_action,
    status_reply, strip_exit_header, tool_result_block, without_exit_header, ErrorAction, GoalReply,
    StatusAction,
};
use crate::beads::Lifecycle;
use crate::chat_view::InputMode;
use crate::console::{
    append_tool_tab_output, open_tool_tab, output_tab, sanitized, streams_to_console, tab_views,
    trimmed_panel, console_cap, TabView, ToolOutputTab,
};
use crate::helpers::{chat_views, opt_view, ChatMessage, ChatRowView};
use crate::slash_state::{system_message, system_row};
use crate::text::{contains, contains_exec, chars_of, decimal, lines, str_eq, string_views, take_chars, take_str};

verus! {

/// What the chat shows and tracks while the agent works.
pub struct TurnState {
    pub messages: Vec<ChatMessage>,
    pub status: String,
    pub follow_bottom: bool,
    pub input_mode: InputMode,
    /// The tool running now, by name.
    pub tool_in_progress: Option<String>,
    pub tool_output_tabs: Vec<ToolOutputTab>,
    pub tool_output_tab: usize,
    /// Console output of tools that have no tab.
    pub repl_panel: String,
    pub show_repl_panel: bool,
    pub pending_kitty_images: Vec<String>,
    pub provider_auto_continues: u8,
    pub unseen_done: bool,
    pub near_limit: bool,
    pub queued_steers: usize,
    pub token_used: usize,
    pub token_limit: usize,
    pub session_input_tokens: usize,
    pub session_output_tokens: usize,
    pub goal_indicator: String,
    pub session_id: String,
    pub session_title: Option<String>,
    pub lsp_summary: String,
}

/// Value of the turn state.
pub struct TurnView {
    pub messages: Seq<ChatRowView>,
    pub status: Seq<char>,
    pub follow_bottom: bool,
    pub input_mode: InputMode,
    pub tool_in_progress: Option<Seq<char>>,
    pub tabs: Seq<TabView>,
    pub tab: usize,
    pub repl_panel: Seq<char>,
    pub show_repl_panel: bool,
    pub images: Seq<Seq<char>>,
    pub continues: u8,
    pub unseen_done: bool,
    pub near_limit: bool,
    pub queued_steers: usize,
    pub token_used: usize,
    pub token_limit: usize,
    pub input_tokens: usize,
    pub output_tokens: usize,
    pub goal_indicator: Seq<char>,
    pub session_id: Seq<char>,
    pub session_title: Option<Seq<char>>,
    pub lsp_summary: Seq<char>,
}

impl View for TurnState {
    type V = TurnView;

    open spec fn view(&self) -> TurnView {
        TurnView {
            messages: chat_views(self.messages@),
            status: self.status@,
            follow_bottom: self.follow_bottom,
            input_mode: self.input_mode,
            tool_in_progress: opt_view(self.tool_in_progress),
            tabs: tab_views(self.tool_output_tabs@),
            tab: self.tool_output_tab,
            repl_panel: self.repl_panel@,
            show_repl_panel: self.show_repl_panel,
            images: string_views(self.pending_kitty_images@),
            continues: self.provider_auto_continues,
            unseen_done: self.unseen_done,
            near_limit: self.near_limit,
            queued_steers: self.queued_steers,
            token_used: self.token_used,
            token_limit: self.token_limit,
            input_tokens: self.session_input_tokens,
            output_tokens: self.session_output_tokens,
            goal_indicator: self.goal_indicator@,
            session_id: self.session_id@,
            session_title: opt_view(self.session_title),
            lsp_summary: self.lsp_summary@,
        }
    }
}

/// An event from the agent, with what the chat reads of it.
pub enum TurnEvent {
    TextDelta { text: String },
    ThinkingDelta { thinking: String },
    ToolUseStart { id: String, name: String },
    /// A finished tool call; `images` are the image files its output names
    /// that exist (see `kitty::find_image_paths`).
    ToolResult { id: String, name: String, content: String, is_error: bool, images: Vec<String> },
    Error { message: String },
    TurnEnd,
    Done,
    GoalUpdate { summary: String },
    ToolUseDelta,
    ReplOutput { stream: String, text: String },
    ToolOutput { name: String, stream: String, text: String },
    ContextWarning { used: usize, limit: usize },
    TokenUpdate { used: usize, limit: usize, input_tokens: usize, output_tokens: usize },
    Compacting,
    Compacted,
    Status { message: String },
    Aborted,
    TitleUpdate { title: String },
    SessionMeta { id: String, title: Option<String> },
    LspUpdate { summary: String },
}

/// Value of an agent event.
pub enum TurnEventView {
    TextDelta { text: Seq<char> },
    ThinkingDelta { thinking: Seq<char> },
    ToolUseStart { id: Seq<char>, name: Seq<char> },
    ToolResult { id: Seq<char>, name: Seq<char>, content: Seq<char>, is_error: bool, images: Seq<Seq<char>> },
    Error { message: Seq<char> },
    TurnEnd,
    Done,
    GoalUpdate { summary: Seq<char> },
    ToolUseDelta,
    ReplOutput { stream: Seq<char>, text: Seq<char> },
    ToolOutput { name: Seq<char>, stream: Seq<char>, text: Seq<char> },
    ContextWarning { used: usize, limit: usize },
    TokenUpdate { used: usize, limit: usize, input_tokens: usize, output_tokens: usize },
    Compacting,
    Compacted,
    Status { message: Seq<char> },
    Aborted,
    TitleUpdate { title: Seq<char> },
    SessionMeta { id: Seq<char>, title: Option<Seq<char>> },
    LspUpdate { summary: Seq<char> },
}

impl View for TurnEvent {
    type V = TurnEventView;

    open spec fn view(&self) -> TurnEventView {
        match self {
            TurnEvent::TextDelta { text } => TurnEventView::TextDelta { text: text@ },
            TurnEvent::ThinkingDelta { thinking } => TurnEventView::ThinkingDelta { thinking: thinking@ },
            TurnEvent::ToolUseStart { id, name } => TurnEventView::ToolUseStart { id: id@, name: name@ },
            TurnEvent::ToolResult { id, name, content, is_error, images } => TurnEventView::ToolResult {
                id: id@,
                name: name@,
                content: content@,
                is_error: *is_error,
                images: string_views(images@),
            },
            TurnEvent::Error { message } => TurnEventView::Error { message: message@ },
            TurnEvent::TurnEnd => TurnEventView::TurnEnd,
            TurnEvent::Done => TurnEventView::Done,
            TurnEvent::GoalUpdate { summary } => TurnEventView::GoalUpdate { summary: summary@ },
            TurnEvent::ToolUseDelta => TurnEventView::ToolUseDelta,
            TurnEvent::ReplOutput { stream, text } => TurnEventView::ReplOutput { stream: stream@, text: text@ },
            TurnEvent::ToolOutput { name, stream, text } => TurnEventView::ToolOutput {
                name: name@,
                stream: stream@,
                text: text@,
            },
            TurnEvent::ContextWarning { used, limit } => TurnEventView::ContextWarning { used: *used, limit: *limit },
            TurnEvent::TokenUpdate { used, limit, input_tokens, output_tokens } => TurnEventView::TokenUpdate {
                used: *used,
                limit: *limit,
                input_tokens: *input_tokens,
                output_tokens: *output_tokens,
            },
            TurnEvent::Compacting => TurnEventView::Compacting,
            TurnEvent::Compacted => TurnEventView::Compacted,
            TurnEvent::Status { message } => TurnEventView::Status { message: message@ },
            TurnEvent::Aborted => TurnEventView::Aborted,
            TurnEvent::TitleUpdate { title } => TurnEventView::TitleUpdate { title: title@ },
            TurnEvent::SessionMeta { id, title } => TurnEventView::SessionMeta { id: id@, title: opt_view(*title) },
            TurnEvent::LspUpdate { summary } => TurnEventView::LspUpdate { summary: summary@ },
        }
    }
}

/// The outside work an event asks for.
pub struct TurnEffects {
    /// Publish this lifecycle with this detail.
    pub publish: Option<(Lifecycle, String)>,
    /// Send `continue` to the agent.
    pub submit_continue: bool,
    /// Clear the input line.
    pub clear_input: bool,
    /// A tool started: note the time.
    pub tool_started: bool,
    /// A tool that writes files finished with this output: tell the
    /// language server of the file it saved.
    pub saved_from: Option<String>,
}

/// Value of the outside work.
pub struct EffectsView {
    pub publish: Option<(Lifecycle, Seq<char>)>,
    pub submit_continue: bool,
    pub clear_input: bool,
    pub tool_started: bool,
    pub saved_from: Option<Seq<char>>,
}

impl View for TurnEffects {
    type V = EffectsView;

    open spec fn view(&self) -> EffectsView {
        EffectsView {
            publish: match self.publish {
                Some(p) => Some((p.0, p.1@)),
                None => None,
            },
            submit_continue: self.submit_continue,
            clear_input: self.clear_input,
            tool_started: self.tool_started,
            saved_from: opt_view(self.saved_from),
        }
    }
}

/// No outside work.
pub open spec fn no_effects() -> EffectsView {
    EffectsView { publish: None, submit_continue: false, clear_input: false, tool_started: false, saved_from: None }
}

/// Only publishing a lifecycle.
pub open spec fn publishing(life: Lifecycle, detail: Seq<char>) -> EffectsView {
    EffectsView { publish: Some((life, detail)), ..no_effects() }
}

fn effects() -> (r: TurnEffects)
    ensures
        r@ == no_effects(),
{
    TurnEffects { publish: None, submit_continue: false, clear_input: false, tool_started: false, saved_from: None }
}

fn publish(life: Lifecycle, detail: &str) -> (r: TurnEffects)
    ensures
        r@ == publishing(life, detail@),
{
    TurnEffects {
        publish: Some((life, detail.to_string())),
        submit_continue: false,
        clear_input: false,
        tool_started: false,
        saved_from: None,
    }
}

/// The state with `text` posted as a system row, followed to the bottom.
pub open spec fn with_system(s: TurnView, text: Seq<char>) -> TurnView {
    TurnView { messages: s.messages.push(system_row(text)), follow_bottom: true, ..s }
}

/// The state with no tool running and the input given back (or waiting).
pub open spec fn settled(s: TurnView, mode: InputMode) -> TurnView {
    TurnView { input_mode: mode, tool_in_progress: None, ..s }
}

/// The last row's text with `suffix` added, when there is a row.
pub open spec fn suffixed_last(ms: Seq<ChatRowView>, suffix: Seq<char>) -> Seq<ChatRowView> {
    if ms.len() == 0 {
        ms
    } else {
        ms.update(ms.len() - 1, ChatRowView { text: ms.last().text + suffix, ..ms.last() })
    }
}

/// A title, or none when it is empty.
pub open spec fn nonempty_title(t: Option<Seq<char>>) -> Option<Seq<char>> {
    match t {
        Some(s) => if s.len() == 0 {
            None
        } else {
            Some(s)
        },
        None => None,
    }
}

/// Tabs with id `id`.
pub open spec fn tab_with_id(id: Seq<char>) -> spec_fn(TabView) -> bool {
    |t: TabView| t.id == id
}

/// The console tabs when the tool call `id` finishes: its first tab is
/// marked done and, when still empty, shows the first 4000 characters of
/// the result.
pub open spec fn finished_tabs(tabs: Seq<TabView>, id: Seq<char>, content: Seq<char>) -> Seq<TabView> {
    match crate::search::first_index(tabs, tab_with_id(id)) {
        Some(i) => tabs.update(
            i,
            TabView {
                done: true,
                buffer: if content.len() > 0 && tabs[i].buffer.len() == 0 {
                    take_chars(content, 4000)
                } else {
                    tabs[i].buffer
                },
                ..tabs[i]
            },
        ),
        None => tabs,
    }
}

/// The pending images with each of `imgs` added, unless already there.
pub open spec fn add_images(pending: Seq<Seq<char>>, imgs: Seq<Seq<char>>) -> Seq<Seq<char>>
    decreases imgs.len(),
{
    if imgs.len() == 0 {
        pending
    } else {
        let p = add_images(pending, imgs.drop_last());
        if p.contains(imgs.last()) {
            p
        } else {
            p.push(imgs.last())
        }
    }
}

/// Tools that write files.
pub open spec fn writes_files(name: Seq<char>) -> bool {
    name == "write"@ || name == "edit"@ || name == "apply_patch"@
}

/// Output of tool `name` as the console takes it: appended to its tab (see
/// `output_tab`), which is then shown, or to the shared buffer; either is
/// capped; the console is shown.
pub open spec fn with_console_output(s: TurnView, name: Seq<char>, chunk: Seq<char>) -> TurnView {
    match output_tab(s.tabs, name) {
        Some(i) => TurnView {
            tabs: s.tabs.update(i, TabView { buffer: trimmed_panel(s.tabs[i].buffer + chunk, console_cap()), ..s.tabs[i] }),
            tab: i as usize,
            show_repl_panel: true,
            ..s
        },
        None => TurnView {
            repl_panel: trimmed_panel(s.repl_panel + chunk, console_cap()),
            show_repl_panel: true,
            ..s
        },
    }
}

/// The console chunk for streamed output.
pub open spec fn stream_chunk(stream: Seq<char>, text: Seq<char>) -> Seq<char> {
    chunk_of(lines(sanitized(text)), stream == "stderr"@)
}

/// The state after the agent starts tool `name` (call `id`).
pub open spec fn after_tool_start(s: TurnView, id: Seq<char>, name: Seq<char>) -> TurnView {
    let s1 = TurnView { status: "using "@ + name + "..."@, follow_bottom: true, ..s };
    let s2 = if streams_to_console(name) {
        TurnView {
            tabs: s1.tabs.push(
                TabView { id, name, label: name + "#"@ + decimal((s1.tabs.len() + 1) as nat), buffer: seq![], done: false },
            ),
            tab: s1.tabs.len() as usize,
            show_repl_panel: true,
            ..s1
        }
    } else {
        s1
    };
    TurnView { tool_in_progress: Some(name), ..s2 }
}

/// The state after tool call `id` of `name` finishes with `content`.
pub open spec fn after_tool_result(
    s: TurnView,
    id: Seq<char>,
    name: Seq<char>,
    content: Seq<char>,
    is_error: bool,
    images: Seq<Seq<char>>,
    marker: Seq<char>,
) -> TurnView {
    let full = without_exit_header(content);
    let s1 = TurnView {
        tool_in_progress: None,
        tabs: finished_tabs(s.tabs, id, content),
        images: add_images(s.images, images),
        messages: after_tool_block(s.messages, result_block(name, full, marker, is_error)),
        follow_bottom: true,
        ..s
    };
    if is_error && contains(full, "STUCK:"@) {
        TurnView { status: "STUCK"@, ..s1 }
    } else {
        s1
    }
}

/// The state after an agent error (see `error_reply`).
pub open spec fn after_error(s: TurnView, message: Seq<char>) -> TurnView {
    let r = error_reply(message, s.continues);
    if r.0 == 0 {
        TurnView { status: "thinking..."@, continues: r.1 as u8, ..settled(with_system(s, r.2), InputMode::Waiting) }
    } else if r.0 == 1 {
        TurnView { status: "recover"@, continues: 0, ..settled(with_system(s, r.2), InputMode::Insert) }
    } else {
        TurnView { messages: suffixed_last(s.messages, r.2), status: "error"@, ..settled(s, InputMode::Insert) }
    }
}

/// The state after a status message (see `status_reply`): shown in the
/// status line in every case.
pub open spec fn after_status(s: TurnView, message: Seq<char>) -> TurnView {
    let r = status_reply(message, s.continues);
    let s1 = if r.0 == 1 {
        settled(s, InputMode::Waiting)
    } else if r.0 == 2 {
        TurnView { continues: r.1 as u8, ..settled(with_system(s, r.2), InputMode::Waiting) }
    } else if r.0 == 3 {
        TurnView { continues: 0, ..settled(with_system(s, r.2), InputMode::Insert) }
    } else {
        s
    };
    TurnView { status: message, ..s1 }
}

/// The state after a goal update (see `goal_reply`).
pub open spec fn after_goal(s: TurnView, summary: Seq<char>) -> TurnView {
    let g = goal_reply(summary);
    if g.0 == 0 {
        with_system(s, g.1)
    } else if g.0 == 1 {
        TurnView { goal_indicator: seq![], ..s }
    } else if g.0 == 2 {
        TurnView { goal_indicator: g.1, ..with_system(s, g.2) }
    } else {
        TurnView { goal_indicator: g.1, ..s }
    }
}

/// The state after an agent event; `marker` is the line that marks output
/// spilled to a file.
pub open spec fn turn_next(s: TurnView, e: TurnEventView, marker: Seq<char>) -> TurnView {
    match e {
        TurnEventView::TextDelta { text } => TurnView {
            messages: after_text_delta(s.messages, text),
            follow_bottom: true,
            ..s
        },
        TurnEventView::ThinkingDelta { thinking } => TurnView {
            messages: after_thinking_delta(s.messages, thinking),
            status: "thinking..."@,
            follow_bottom: true,
            ..s
        },
        TurnEventView::ToolUseStart { id, name } => after_tool_start(s, id, name),
        TurnEventView::ToolResult { id, name, content, is_error, images } => after_tool_result(
            s,
            id,
            name,
            content,
            is_error,
            images,
            marker,
        ),
        TurnEventView::Error { message } => after_error(s, message),
        TurnEventView::TurnEnd => TurnView { status: "ready"@, unseen_done: true, ..s },
        TurnEventView::Done => TurnView {
            continues: 0,
            status: "ready"@,
            unseen_done: true,
            near_limit: false,
            queued_steers: 0,
            ..settled(s, InputMode::Insert)
        },
        TurnEventView::GoalUpdate { summary } => after_goal(s, summary),
        TurnEventView::ToolUseDelta => s,
        TurnEventView::ReplOutput { stream, text } => with_console_output(s, "repl"@, stream_chunk(stream, text)),
        TurnEventView::ToolOutput { name, stream, text } => with_console_output(s, name, stream_chunk(stream, text)),
        TurnEventView::ContextWarning { used, limit } => TurnView {
            token_used: used,
            token_limit: limit,
            near_limit: true,
            ..s
        },
        TurnEventView::TokenUpdate { used, limit, input_tokens, output_tokens } => TurnView {
            token_used: used,
            token_limit: limit,
            input_tokens,
            output_tokens,
            ..s
        },
        TurnEventView::Compacting => TurnView { status: "compacting..."@, ..s },
        TurnEventView::Compacted => TurnView { status: "compacted"@, near_limit: false, ..s },
        TurnEventView::Status { message } => after_status(s, message),
        TurnEventView::Aborted => TurnView {
            messages: suffixed_last(s.messages, "\n\u{2298} aborted"@),
            status: "aborted"@,
            ..settled(s, InputMode::Insert)
        },
        TurnEventView::TitleUpdate { title } => TurnView {
            session_title: if title.len() == 0 {
                None
            } else {
                Some(title)
            },
            ..s
        },
        TurnEventView::SessionMeta { id, title } => TurnView {
            session_id: id,
            session_title: nonempty_title(title),
            input_tokens: 0,
            output_tokens: 0,
            ..s
        },
        TurnEventView::LspUpdate { summary } => TurnView { lsp_summary: summary, ..s },
    }
}

/// The outside work an agent event asks for: thinking and tools publish
/// that the agent works, a turn's end and done publish that it is done
/// (done also clears the input), an automatic continue sends `continue`,
/// a started tool starts its clock, and a tool that writes files asks to
/// tell the language server of the save.
pub open spec fn turn_effects(s: TurnView, e: TurnEventView) -> EffectsView {
    match e {
        TurnEventView::ThinkingDelta { .. } => publishing(Lifecycle::Working, "thinking"@),
        TurnEventView::ToolUseStart { name, .. } => EffectsView {
            tool_started: true,
            ..publishing(Lifecycle::Working, "tool:"@ + name)
        },
        TurnEventView::ToolResult { name, content, .. } => EffectsView {
            saved_from: if writes_files(name) {
                Some(without_exit_header(content))
            } else {
                None
            },
            ..no_effects()
        },
        TurnEventView::Error { message } => EffectsView {
            submit_continue: error_reply(message, s.continues).0 == 0,
            ..no_effects()
        },
        TurnEventView::TurnEnd => publishing(Lifecycle::Done, "turn end"@),
        TurnEventView::Done => EffectsView { clear_input: true, ..publishing(Lifecycle::Done, "ready"@) },
        TurnEventView::Status { message } => EffectsView {
            submit_continue: status_reply(message, s.continues).0 == 2,
            ..no_effects()
        },
        _ => no_effects(),
    }
}

fn finish_tab(tabs: &mut Vec<ToolOutputTab>, id: &str, content: &str)
    ensures
        tab_views(final(tabs)@) == finished_tabs(tab_views(old(tabs)@), id@, content@),
{
    let ghost tv = tab_views(tabs@);
    let mut i: usize = 0;
    while i < tabs.len()
        invariant
            i <= tabs.len(),
            tv == tab_views(tabs@),
            tv == tab_views(old(tabs)@),
            tv.len() == tabs.len(),
            forall|j: int| 0 <= j < i ==> !tab_with_id(id@)(#[trigger] tv[j]),
        decreases tabs.len() - i,
    {
        if str_eq(tabs[i].id.as_str(), id) {
            proof {
                crate::search::lemma_first_index_is(tv, tab_with_id(id@), i as int);
            }
            let t = tabs.remove(i);
            assert(t@ == tv[i as int]);
            let buffer = if !content.is_empty() && t.buffer.as_str().is_empty() {
                take_str(content, 4000)
            } else {
                t.buffer
            };
            let nt = ToolOutputTab { id: t.id, name: t.name, label: t.label, buffer, done: true };
            proof {
                assert(content@.len() == 0 ==> content@ =~= Seq::<char>::empty());
                assert(nt@ == TabView {
                    done: true,
                    buffer: if content@.len() > 0 && tv[i as int].buffer.len() == 0 {
                        take_chars(content@, 4000)
                    } else {
                        tv[i as int].buffer
                    },
                    ..tv[i as int]
                });
            }
            tabs.insert(i, nt);
            proof {
                assert(tab_views(tabs@) =~= tv.update(i as int, nt@));
                assert(crate::search::first_index(tv, tab_with_id(id@)) == Some(i as int));
                assert(finished_tabs(tv, id@, content@) == tv.update(i as int, nt@));
            }
            return;
        }
        i += 1;
    }
    proof {
        crate::search::lemma_first_index_none(tv, tab_with_id(id@));
    }
}

fn has_image(pending: &Vec<String>, img: &str) -> (r: bool)
    ensures
        r == string_views(pending@).contains(img@),
{
    let ghost pv = string_views(pending@);
    let mut i: usize = 0;
    while i < pending.len()
        invariant
            i <= pending.len(),
            pv == string_views(pending@),
            forall|j: int| 0 <= j < i ==> pv[j] != img@,
        decreases pending.len() - i,
    {
        if str_eq(pending[i].as_str(), img) {
            proof {
                assert(pv[i as int] == img@);
            }
            return true;
        }
        i += 1;
    }
    false
}

fn add_new_images(pending: &mut Vec<String>, imgs: &Vec<String>)
    ensures
        string_views(final(pending)@) == add_images(string_views(old(pending)@), string_views(imgs@)),
{
    let ghost p0 = string_views(pending@);
    let ghost iv = string_views(imgs@);
    let mut i: usize = 0;
    proof {
        assert(iv.take(0) =~= Seq::<Seq<char>>::empty());
    }
    while i < imgs.len()
        invariant
            i <= imgs.len(),
            iv == string_views(imgs@),
            string_views(pending@) == add_images(p0, iv.take(i as int)),
        decreases imgs.len() - i,
    {
        proof {
            assert(iv.take(i + 1).drop_last() =~= iv.take(i as int));
            assert(iv.take(i + 1).last() == iv[i as int]);
        }
        if !has_image(pending, imgs[i].as_str()) {
            let ghost before = string_views(pending@);
            pending.push(imgs[i].clone());
            proof {
                assert(string_views(pending@) =~= before.push(iv[i as int]));
            }
        }
        i += 1;
    }
    proof {
        assert(iv.take(imgs.len() as int) =~= iv);
    }
}

impl TurnState {
    fn push_system(&mut self, text: String)
        ensures
            final(self)@ == with_system(old(self)@, text@),
    {
        let m = system_message(text);
        let ghost before = self@;
        self.messages.push(m);
        self.follow_bottom = true;
        proof {
            assert(chat_views(self.messages@) =~= before.messages.push(system_row(text@)));
        }
    }

    fn on_tool_start(&mut self, id: String, name: String) -> (fx: TurnEffects)
        requires
            old(self).tool_output_tabs@.len() < usize::MAX,
        ensures
            final(self)@ == after_tool_start(old(self)@, id@, name@),
            fx@ == turn_effects(old(self)@, TurnEventView::ToolUseStart { id: id@, name: name@ }),
    {
        let ghost s = self@;
        let mut st = "using ".to_string();
        st.append(name.as_str());
        st.append("...");
        self.status = st;
        self.follow_bottom = true;
        let opened = open_tool_tab(&mut self.tool_output_tabs, id.as_str(), name.as_str());
        proof {
            assert(tab_views(self.tool_output_tabs@).len() == self.tool_output_tabs@.len());
        }
        if opened {
            self.tool_output_tab = self.tool_output_tabs.len() - 1;
            self.show_repl_panel = true;
        }
        let mut d = "tool:".to_string();
        d.append(name.as_str());
        self.tool_in_progress = Some(name);
        let mut fx = publish(Lifecycle::Working, d.as_str());
        fx.tool_started = true;
        proof {
            assert(self@ == after_tool_start(s, id@, name@));
        }
        fx
    }

    fn on_tool_result(&mut self, id: String, name: String, content: String, is_error: bool, images: Vec<String>, marker: &str) -> (fx: TurnEffects)
        ensures
            final(self)@ == after_tool_result(old(self)@, id@, name@, content@, is_error, string_views(images@), marker@),
            fx@ == turn_effects(
                old(self)@,
                TurnEventView::ToolResult { id: id@, name: name@, content: content@, is_error, images: string_views(images@) },
            ),
    {
        let ghost s = self@;
        self.tool_in_progress = None;
        finish_tab(&mut self.tool_output_tabs, id.as_str(), content.as_str());
        let full = strip_exit_header(content.as_str());
        add_new_images(&mut self.pending_kitty_images, &images);
        let writes = str_eq(name.as_str(), "write") || str_eq(name.as_str(), "edit") || str_eq(name.as_str(), "apply_patch");
        let saved = if writes {
            Some(full.clone())
        } else {
            None
        };
        let stuck = is_error && contains_exec(&chars_of(full.as_str()), &chars_of("STUCK:"));
        let block = tool_result_block(name.as_str(), full.as_str(), marker, is_error);
        push_tool_block(&mut self.messages, block);
        self.follow_bottom = true;
        if stuck {
            self.status = "STUCK".to_string();
        }
        let mut fx = effects();
        fx.saved_from = saved;
        proof {
            assert(self@ == after_tool_result(s, id@, name@, content@, is_error, string_views(images@), marker@));
        }
        fx
    }
}

impl TurnState {
    fn on_error(&mut self, message: String) -> (fx: TurnEffects)
        ensures
            final(self)@ == after_error(old(self)@, message@),
            fx@ == turn_effects(old(self)@, TurnEventView::Error { message: message@ }),
    {
        let ghost s = self@;
        let a = error_action(message.as_str(), self.provider_auto_continues);
        let mut fx = effects();
        match a {
            ErrorAction::AutoContinue { attempt, notice } => {
                self.provider_auto_continues = attempt;
                self.push_system(notice);
                self.status = "thinking...".to_string();
                self.tool_in_progress = None;
                self.input_mode = InputMode::Waiting;
                fx.submit_continue = true;
            },
            ErrorAction::GiveUp { notice } => {
                self.provider_auto_continues = 0;
                self.push_system(notice);
                self.status = "recover".to_string();
                self.input_mode = InputMode::Insert;
                self.tool_in_progress = None;
            },
            ErrorAction::Inline { suffix } => {
                append_to_last(&mut self.messages, suffix.as_str());
                self.status = "error".to_string();
                self.input_mode = InputMode::Insert;
                self.tool_in_progress = None;
            },
        }
        proof {
            assert(self@ == after_error(s, message@));
        }
        fx
    }

    fn on_status(&mut self, message: String) -> (fx: TurnEffects)
        ensures
            final(self)@ == after_status(old(self)@, message@),
            fx@ == turn_effects(old(self)@, TurnEventView::Status { message: message@ }),
    {
        let ghost s = self@;
        let a = status_action(message.as_str(), self.provider_auto_continues);
        let mut fx = effects();
        match a {
            StatusAction::Show => {},
            StatusAction::Wait => {
                self.input_mode = InputMode::Waiting;
                self.tool_in_progress = None;
            },
            StatusAction::AutoContinue { attempt, notice } => {
                self.provider_auto_continues = attempt;
                self.push_system(notice);
                self.input_mode = InputMode::Waiting;
                self.tool_in_progress = None;
                fx.submit_continue = true;
            },
            StatusAction::GiveUp { notice } => {
                self.provider_auto_continues = 0;
                self.push_system(notice);
                self.input_mode = InputMode::Insert;
                self.tool_in_progress = None;
            },
        }
        self.status = message;
        proof {
            assert(self@ == after_status(s, message@));
        }
        fx
    }

    fn on_goal(&mut self, summary: String)
        ensures
            final(self)@ == after_goal(old(self)@, summary@),
    {
        let ghost s = self@;
        match goal_update(summary.as_str()) {
            GoalReply::Report(t) => self.push_system(t),
            GoalReply::Clear => {
                self.goal_indicator = String::new();
            },
            GoalReply::Achieved { indicator, notice } => {
                self.push_system(notice);
                self.goal_indicator = indicator;
            },
            GoalReply::Indicator(t) => {
                self.goal_indicator = t;
            },
        }
        proof {
            assert(self@ == after_goal(s, summary@));
        }
    }

    fn on_console(&mut self, name: &str, stream: &str, text: &str)
        ensures
            final(self)@ == with_console_output(old(self)@, name@, stream_chunk(stream@, text@)),
    {
        let ghost s = self@;
        let chunk = console_chunk(text, str_eq(stream, "stderr"));
        match append_tool_tab_output(&mut self.tool_output_tabs, &mut self.repl_panel, name, chunk.as_str()) {
            Some(i) => {
                self.tool_output_tab = i;
            },
            None => {},
        }
        self.show_repl_panel = true;
        proof {
            assert(self@ == with_console_output(s, name@, stream_chunk(stream@, text@)));
        }
    }

    fn suffix_last(&mut self, suffix: &str)
        ensures
            final(self)@ == (TurnView { messages: suffixed_last(old(self)@.messages, suffix@), ..old(self)@ }),
    {
        append_to_last(&mut self.messages, suffix);
    }

    /// Take one agent event: the state moves as `turn_next` says and the
    /// outside work `turn_effects` names is returned. `marker` is the line
    /// that marks tool output spilled to a file.
    #[verifier::spinoff_prover]
    #[verifier::rlimit(80)]
    pub fn on_event(&mut self, ev: TurnEvent, marker: &str) -> (fx: TurnEffects)
        requires
            old(self).tool_output_tabs@.len() < usize::MAX,
        ensures
            final(self)@ == turn_next(old(self)@, ev@, marker@),
            fx@ == turn_effects(old(self)@, ev@),
    {
        let ghost s = self@;
        match ev {
            TurnEvent::TextDelta { text } => {
                append_text_delta(&mut self.messages, text.as_str());
                self.follow_bottom = true;
                effects()
            },
            TurnEvent::ThinkingDelta { thinking } => {
                append_thinking_delta(&mut self.messages, thinking.as_str());
                self.status = "thinking...".to_string();
                self.follow_bottom = true;
                publish(Lifecycle::Working, "thinking")
            },
            TurnEvent::ToolUseStart { id, name } => self.on_tool_start(id, name),
            TurnEvent::ToolResult { id, name, content, is_error, images } => self.on_tool_result(
                id,
                name,
                content,
                is_error,
                images,
                marker,
            ),
            TurnEvent::Error { message } => self.on_error(message),
            TurnEvent::TurnEnd => {
                self.status = "ready".to_string();
                self.unseen_done = true;
                publish(Lifecycle::Done, "turn end")
            },
            TurnEvent::Done => {
                self.provider_auto_continues = 0;
                self.status = "ready".to_string();
                self.unseen_done = true;
                self.input_mode = InputMode::Insert;
                self.near_limit = false;
                self.queued_steers = 0;
                self.tool_in_progress = None;
                let mut fx = publish(Lifecycle::Done, "ready");
                fx.clear_input = true;
                fx
            },
            TurnEvent::GoalUpdate { summary } => {
                self.on_goal(summary);
                effects()
            },
            TurnEvent::ToolUseDelta => effects(),
            TurnEvent::ReplOutput { stream, text } => {
                self.on_console("repl", stream.as_str(), text.as_str());
                effects()
            },
            TurnEvent::ToolOutput { name, stream, text } => {
                self.on_console(name.as_str(), stream.as_str(), text.as_str());
                effects()
            },
            TurnEvent::ContextWarning { used, limit } => {
                self.token_used = used;
                self.token_limit = limit;
                self.near_limit = true;
                effects()
            },
            TurnEvent::TokenUpdate { used, limit, input_tokens, output_tokens } => {
                self.token_used = used;
                self.token_limit = limit;
                self.session_input_tokens = input_tokens;
                self.session_output_tokens = output_tokens;
                effects()
            },
            TurnEvent::Compacting => {
                self.status = "compacting...".to_string();
                effects()
            },
            TurnEvent::Compacted => {
                self.status = "compacted".to_string();
                self.near_limit = false;
                effects()
            },
            TurnEvent::Status { message } => self.on_status(message),
            TurnEvent::Aborted => {
                self.suffix_last("\n\u{2298} aborted");
                self.status = "aborted".to_string();
                self.input_mode = InputMode::Insert;
                self.tool_in_progress = None;
                effects()
            },
            TurnEvent::TitleUpdate { title } => {
                self.session_title = if title.as_str().is_empty() {
                    None
                } else {
                    Some(title)
                };
                effects()
            },
            TurnEvent::SessionMeta { id, title } => {
                self.session_id = id;
                self.session_title = match title {
                    Some(t) => if t.as_str().is_empty() {
                        None
                    } else {
                        Some(t)
                    },
                    None => None,
                };
                self.session_input_tokens = 0;
                self.session_output_tokens = 0;
                effects()
            },
            TurnEvent::LspUpdate { summary } => {
                self.lsp_summary = summary;
                effects()
            },
        }
    }
}

/// Automatic continues stay within three over any event, and an event
/// asks to send `continue` only when it counts one more.
pub proof fn lemma_turn_continues_bounded(s: TurnView, e: TurnEventView, marker: Seq<char>)
    requires
        s.continues <= 3,
    ensures
        turn_next(s, e, marker).continues <= 3,
        turn_effects(s, e).submit_continue ==> turn_next(s, e, marker).continues == s.continues + 1,
{
    crate::agent_events::lemma_auto_continue_bounded(
        match e {
            TurnEventView::Error { message } => message,
            TurnEventView::Status { message } => message,
            _ => seq![],
        },
        s.continues,
    );
}

} // verus!
