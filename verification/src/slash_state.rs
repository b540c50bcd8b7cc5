//! What a slash command does to the chat's state: the reply it posts, the
//! flags and fields it changes, and the work it hands to the session or
//! the front end.

use vstd::prelude::*;
use crate::helpers::{chat_views, opt_view, ChatMessage, ChatRowView, ToolBlockView};
use crate::input::{history_answer, history_command, reply_view, HistoryReply, ReplyView};
use crate::keys::KeyMap;
use crate::slash::{context_arg, context_setting, help_command_text, help_text, keys_command_text, keys_text};
use crate::slash_args::RouteCmd;
use crate::slash_command::{command_of, command_view, parse_slash_command, SlashCommand};
use crate::text::{decimal, push_decimal, string_views};
use crate::theme::{theme_name_text, ThemeName};

verus! {

/// The chat state slash commands read and change.
pub struct SlashState {
    /// The transcript; replies are posted as system rows.
    pub messages: Vec<ChatMessage>,
    pub keys: KeyMap,
    pub input_history: Vec<String>,
    pub input: String,
    pub history_index: Option<usize>,
    pub theme: ThemeName,
    pub context_enabled: bool,
    pub session_title: Option<String>,
    pub show_timeline: bool,
    pub show_repl: bool,
    /// Tool runs in the console.
    pub output_runs: usize,
    pub goal_indicator: String,
    pub status: String,
}

/// Value of the chat state.
pub struct SlashView {
    pub messages: Seq<ChatRowView>,
    pub keys: Map<Seq<char>, Seq<char>>,
    pub input_history: Seq<Seq<char>>,
    pub input: Seq<char>,
    pub history_index: Option<usize>,
    pub theme: ThemeName,
    pub context_enabled: bool,
    pub session_title: Option<Seq<char>>,
    pub show_timeline: bool,
    pub show_repl: bool,
    pub output_runs: usize,
    pub goal_indicator: Seq<char>,
    pub status: Seq<char>,
}

impl View for SlashState {
    type V = SlashView;

    open spec fn view(&self) -> SlashView {
        SlashView {
            messages: chat_views(self.messages@),
            keys: self.keys@,
            input_history: string_views(self.input_history@),
            input: self.input@,
            history_index: self.history_index,
            theme: self.theme,
            context_enabled: self.context_enabled,
            session_title: opt_view(self.session_title),
            show_timeline: self.show_timeline,
            show_repl: self.show_repl,
            output_runs: self.output_runs,
            goal_indicator: self.goal_indicator@,
            status: self.status@,
        }
    }
}

/// Work a command leaves to the session or the front end.
#[derive(Clone, Debug, PartialEq, Eq)]
pub enum SlashAction<S> {
    /// Nothing more.
    Done,
    /// The command works on stores, providers or workers outside this
    /// library: the front end carries it out as a whole.
    Delegate,
    OpenSettings,
    /// Set the theme this setting names (the host terminal decides `auto`).
    SetTheme(S),
    /// Tell the session its new title.
    SetTitle(S),
    /// Tell the session to clear its goal.
    GoalClear,
    HandoffRequest,
    Detach,
    /// Rebuild the system prompt and send it to the session.
    RebuildPrompt,
    /// List the project context files and commands.
    ListContext,
    /// Write an export in this format.
    Export(S),
    Compact,
    NewSession,
    Fork { at: Option<usize>, label: Option<S> },
    RequestTimeline,
    /// Queue this image when it is a readable image file.
    QueueImage(S),
}

/// The characters an action holds.
pub open spec fn action_view(a: SlashAction<String>) -> SlashAction<Seq<char>> {
    match a {
        SlashAction::Done => SlashAction::Done,
        SlashAction::Delegate => SlashAction::Delegate,
        SlashAction::OpenSettings => SlashAction::OpenSettings,
        SlashAction::SetTheme(s) => SlashAction::SetTheme(s@),
        SlashAction::SetTitle(s) => SlashAction::SetTitle(s@),
        SlashAction::GoalClear => SlashAction::GoalClear,
        SlashAction::HandoffRequest => SlashAction::HandoffRequest,
        SlashAction::Detach => SlashAction::Detach,
        SlashAction::RebuildPrompt => SlashAction::RebuildPrompt,
        SlashAction::ListContext => SlashAction::ListContext,
        SlashAction::Export(s) => SlashAction::Export(s@),
        SlashAction::Compact => SlashAction::Compact,
        SlashAction::NewSession => SlashAction::NewSession,
        SlashAction::Fork { at, label } => SlashAction::Fork { at, label: opt_view(label) },
        SlashAction::RequestTimeline => SlashAction::RequestTimeline,
        SlashAction::QueueImage(s) => SlashAction::QueueImage(s@),
    }
}

/// A system row holding `text`.
pub open spec fn system_row(text: Seq<char>) -> ChatRowView {
    ChatRowView { role: "system"@, text, thinking: None, show_thinking: false, tool_blocks: seq![] }
}

/// The state with `text` posted as a system row.
pub open spec fn with_note(st: SlashView, text: Seq<char>) -> SlashView {
    SlashView { messages: st.messages.push(system_row(text)), ..st }
}

/// The transcript kept by `/clear`: the first row when it is a system row.
pub open spec fn kept_banner(ms: Seq<ChatRowView>) -> Seq<ChatRowView> {
    if ms.len() > 0 && ms[0].role == "system"@ {
        seq![ms[0]]
    } else {
        seq![]
    }
}

/// `on` or `off`.
pub open spec fn on_off(b: bool) -> Seq<char> {
    if b {
        "on"@
    } else {
        "off"@
    }
}

/// `shown` or `hidden`.
pub open spec fn shown_hidden(b: bool) -> Seq<char> {
    if b {
        "shown"@
    } else {
        "hidden"@
    }
}

/// What a command does to the state, and the work it leaves.
pub open spec fn slash_outcome(st: SlashView, cmd: SlashCommand<Seq<char>, Seq<Seq<char>>>) -> (
    SlashView,
    SlashAction<Seq<char>>,
) {
    match cmd {
        SlashCommand::Help => (with_note(st, help_command_text(st.keys)), SlashAction::Done),
        SlashCommand::Keys => (with_note(st, keys_command_text(st.keys)), SlashAction::Done),
        SlashCommand::Theme(None) => (
            with_note(st, "Current theme: "@ + theme_name_text(st.theme) + "\nUsage: /theme dark|light|forest|auto"@),
            SlashAction::Done,
        ),
        SlashCommand::Theme(Some(a)) => (st, SlashAction::SetTheme(a)),
        SlashCommand::Settings => (st, SlashAction::OpenSettings),
        SlashCommand::Route(RouteCmd::Usage) => (with_note(st, "Usage: /route <seat> [reason]"@), SlashAction::Done),
        SlashCommand::History(a) => match history_answer(st.input_history, a) {
            ReplyView::Show(t) => (with_note(st, t), SlashAction::Done),
            ReplyView::Load(i, status) => (
                SlashView { input: st.input_history[i], history_index: None, status, ..st },
                SlashAction::Done,
            ),
        },
        SlashCommand::Rename(None) => (
            with_note(
                st,
                "Current title: "@ + (match st.session_title {
                    Some(t) => t,
                    None => "(untitled)"@,
                }) + "\nUsage: /rename <title>"@,
            ),
            SlashAction::Done,
        ),
        SlashCommand::Rename(Some(a)) => (
            with_note(SlashView { session_title: Some(a), ..st }, "Session renamed to \""@ + a + "\""@),
            SlashAction::SetTitle(a),
        ),
        SlashCommand::Clear => (
            with_note(
                SlashView { messages: kept_banner(st.messages), goal_indicator: seq![], ..st },
                "Chat cleared (session kept). Use /new for a fresh session."@,
            ),
            SlashAction::GoalClear,
        ),
        SlashCommand::Handoff => (
            with_note(st, "Requesting handoff \u{2014} agent will write notes then end the turn."@),
            SlashAction::HandoffRequest,
        ),
        SlashCommand::Detach => (st, SlashAction::Detach),
        SlashCommand::Context(a) => match context_setting(a, st.context_enabled) {
            Some(b) => (
                with_note(
                    SlashView { context_enabled: b, ..st },
                    "Project context inclusion: "@ + on_off(b) + ". System prompt rebuilt."@,
                ),
                SlashAction::RebuildPrompt,
            ),
            None => (st, SlashAction::ListContext),
        },
        SlashCommand::Export(f) => (st, SlashAction::Export(f)),
        SlashCommand::ExportRefused(m) => (with_note(st, m), SlashAction::Done),
        SlashCommand::Compact => (SlashView { status: "compacting..."@, ..st }, SlashAction::Compact),
        SlashCommand::New => (
            with_note(SlashView { goal_indicator: seq![], ..st }, "Starting new session\u{2026}"@),
            SlashAction::NewSession,
        ),
        SlashCommand::Fork { at, label } => (
            with_note(
                st,
                match at {
                    Some(n) => "Forking session at API message @"@ + decimal(n as nat) + "\u{2026}"@,
                    None => "Forking session\u{2026}"@,
                },
            ),
            SlashAction::Fork { at, label },
        ),
        SlashCommand::Timeline => if st.show_timeline {
            (with_note(SlashView { show_timeline: false, ..st }, "Timeline panel hidden."@), SlashAction::Done)
        } else {
            (
                with_note(
                    SlashView { show_timeline: true, ..st },
                    "Timeline panel: j/k or \u{2191}/\u{2193} select \u{b7} Enter fork at @N \u{b7} Esc closes \u{b7} /fork @N [label]"@,
                ),
                SlashAction::RequestTimeline,
            )
        },
        SlashCommand::Image(None) => (
            with_note(
                st,
                "Usage: /image <path.png|jpg|\u{2026}>\nQueues a Kitty graphics render after the next draw (Kitty/WezTerm/Ghostty, or RS_AGENT_KITTY=1)."@,
            ),
            SlashAction::Done,
        ),
        SlashCommand::Image(Some(p)) => (st, SlashAction::QueueImage(p)),
        SlashCommand::Output => (
            with_note(
                SlashView { show_repl: !st.show_repl, ..st },
                "Bottom console "@ + shown_hidden(!st.show_repl) + " \u{2014} "@ + decimal(st.output_runs as nat)
                    + " run(s). Tab / \u{2191}\u{2193} switch while waiting."@,
            ),
            SlashAction::Done,
        ),
        SlashCommand::Unknown(c) => (with_note(st, "Unknown command: "@ + c + " (try /help)"@), SlashAction::Done),
        _ => (st, SlashAction::Delegate),
    }
}

/// A system chat row holding `text`.
pub(crate) fn system_message(text: String) -> (r: ChatMessage)
    ensures
        r@ == system_row(text@),
{
    let m = ChatMessage {
        role: "system".to_string(),
        text,
        thinking: None,
        show_thinking: false,
        tool_blocks: Vec::new(),
    };
    proof {
        assert(m@.tool_blocks =~= Seq::<ToolBlockView>::empty());
    }
    m
}

impl SlashState {
    /// Post `text` as a system row.
    fn note(&mut self, text: String)
        ensures
            final(self)@ == with_note(old(self)@, text@),
    {
        let ghost before = chat_views(self.messages@);
        let m = system_message(text);
        let ghost mv = m@;
        self.messages.push(m);
        proof {
            assert(chat_views(self.messages@) =~= before.push(mv));
        }
    }

    /// Carry out a slash command: change the state as `slash_outcome` says
    /// and return the work it leaves.
    #[verifier::spinoff_prover]
    #[verifier::rlimit(60)]
    pub fn slash_step(&mut self, cmd: &SlashCommand<String, Vec<String>>) -> (r: SlashAction<String>)
        ensures
            final(self)@ == slash_outcome(old(self)@, command_view(*cmd)).0,
            action_view(r) == slash_outcome(old(self)@, command_view(*cmd)).1,
    {
        match cmd {
            SlashCommand::Help => {
                let t = help_text(&self.keys);
                self.note(t);
                SlashAction::Done
            },
            SlashCommand::Keys => {
                let t = keys_text(&self.keys);
                self.note(t);
                SlashAction::Done
            },
            SlashCommand::Theme(None) => {
                let mut t = "Current theme: ".to_string();
                t.append(self.theme.as_str());
                t.append("\nUsage: /theme dark|light|forest|auto");
                self.note(t);
                SlashAction::Done
            },
            SlashCommand::Theme(Some(a)) => SlashAction::SetTheme(a.clone()),
            SlashCommand::Settings => SlashAction::OpenSettings,
            SlashCommand::Route(RouteCmd::Usage) => {
                self.note("Usage: /route <seat> [reason]".to_string());
                SlashAction::Done
            },
            SlashCommand::History(a) => {
                match history_command(&self.input_history, a.as_str()) {
                    HistoryReply::Show(t) => {
                        self.note(t);
                    },
                    HistoryReply::Load { index, status } => {
                        self.input = self.input_history[index].clone();
                        self.history_index = None;
                        self.status = status;
                    },
                }
                SlashAction::Done
            },
            SlashCommand::Rename(None) => {
                let mut t = "Current title: ".to_string();
                match &self.session_title {
                    Some(s) => t.append(s.as_str()),
                    None => t.append("(untitled)"),
                }
                t.append("\nUsage: /rename <title>");
                self.note(t);
                SlashAction::Done
            },
            SlashCommand::Rename(Some(a)) => {
                self.session_title = Some(a.clone());
                let mut t = "Session renamed to \"".to_string();
                t.append(a.as_str());
                t.append("\"");
                self.note(t);
                SlashAction::SetTitle(a.clone())
            },
            SlashCommand::Clear => {
                let ghost before = chat_views(self.messages@);
                let keep = self.messages.len() > 0 && crate::text::str_eq(self.messages[0].role.as_str(), "system");
                let mut kept: Vec<ChatMessage> = Vec::new();
                if keep {
                    let first = self.messages.remove(0);
                    proof {
                        assert(first@ == before[0]);
                    }
                    kept.push(first);
                }
                proof {
                    assert(chat_views(kept@) =~= kept_banner(before));
                }
                self.messages = kept;
                self.goal_indicator = String::new();
                self.note("Chat cleared (session kept). Use /new for a fresh session.".to_string());
                SlashAction::GoalClear
            },
            SlashCommand::Handoff => {
                self.note("Requesting handoff \u{2014} agent will write notes then end the turn.".to_string());
                SlashAction::HandoffRequest
            },
            SlashCommand::Detach => SlashAction::Detach,
            SlashCommand::Context(a) => match context_arg(a.as_str(), self.context_enabled) {
                Some(b) => {
                    self.context_enabled = b;
                    let mut t = "Project context inclusion: ".to_string();
                    t.append(if b {
                        "on"
                    } else {
                        "off"
                    });
                    t.append(". System prompt rebuilt.");
                    self.note(t);
                    SlashAction::RebuildPrompt
                },
                None => SlashAction::ListContext,
            },
            SlashCommand::Export(f) => SlashAction::Export(f.clone()),
            SlashCommand::ExportRefused(m) => {
                self.note(m.clone());
                SlashAction::Done
            },
            SlashCommand::Compact => {
                self.status = "compacting...".to_string();
                SlashAction::Compact
            },
            SlashCommand::New => {
                self.goal_indicator = String::new();
                self.note("Starting new session\u{2026}".to_string());
                SlashAction::NewSession
            },
            SlashCommand::Fork { at, label } => {
                let t = match at {
                    Some(n) => {
                        let mut t = "Forking session at API message @".to_string();
                        push_decimal(&mut t, *n as u64);
                        t.append("\u{2026}");
                        t
                    },
                    None => "Forking session\u{2026}".to_string(),
                };
                self.note(t);
                SlashAction::Fork { at: *at, label: label.clone() }
            },
            SlashCommand::Timeline => {
                if self.show_timeline {
                    self.show_timeline = false;
                    self.note("Timeline panel hidden.".to_string());
                    SlashAction::Done
                } else {
                    self.show_timeline = true;
                    self.note(
                        "Timeline panel: j/k or \u{2191}/\u{2193} select \u{b7} Enter fork at @N \u{b7} Esc closes \u{b7} /fork @N [label]".to_string(),
                    );
                    SlashAction::RequestTimeline
                }
            },
            SlashCommand::Image(None) => {
                self.note(
                    "Usage: /image <path.png|jpg|\u{2026}>\nQueues a Kitty graphics render after the next draw (Kitty/WezTerm/Ghostty, or RS_AGENT_KITTY=1).".to_string(),
                );
                SlashAction::Done
            },
            SlashCommand::Image(Some(p)) => SlashAction::QueueImage(p.clone()),
            SlashCommand::Output => {
                self.show_repl = !self.show_repl;
                let mut t = "Bottom console ".to_string();
                t.append(if self.show_repl {
                    "shown"
                } else {
                    "hidden"
                });
                t.append(" \u{2014} ");
                push_decimal(&mut t, self.output_runs as u64);
                t.append(" run(s). Tab / \u{2191}\u{2193} switch while waiting.");
                self.note(t);
                SlashAction::Done
            },
            SlashCommand::Unknown(c) => {
                let mut t = "Unknown command: ".to_string();
                t.append(c.as_str());
                t.append(" (try /help)");
                self.note(t);
                SlashAction::Done
            },
            _ => SlashAction::Delegate,
        }
    }
}


impl SlashState {
    /// Handle a line of input as a slash command: `None` (and no change)
    /// when it is not one; else the command read from it and the work it
    /// leaves, the state changed as `slash_outcome` says.
    pub fn handle_slash(&mut self, text: &str) -> (r: Option<(SlashCommand<String, Vec<String>>, SlashAction<String>)>)
        ensures
            match command_of(text@) {
                None => r is None && final(self)@ == old(self)@,
                Some(c) => r matches Some(p) && command_view(p.0) == c && action_view(p.1) == slash_outcome(
                    old(self)@,
                    c,
                ).1 && final(self)@ == slash_outcome(old(self)@, c).0,
            },
    {
        match parse_slash_command(text) {
            None => None,
            Some(c) => {
                let a = self.slash_step(&c);
                Some((c, a))
            },
        }
    }
}

} // verus!

