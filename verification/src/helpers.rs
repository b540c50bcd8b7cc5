//! Free helpers of the chat app: transcript conversion, fork arguments and
//! saved-file detection.

use vstd::prelude::*;
use crate::beads::{LogKind, ParsedLogLine};
use crate::kitty::{unwrap_token, unwrap_token_exec};
use crate::text::{
    chars_of, contains, contains_exec, parse_usize, parse_usize_exec, push_decimal, string_of,
    string_of_all, string_views, take_chars, take_str, trim, trim_bounds, views, words, words_of,
};

verus! {

/// Role of a provider message.
#[derive(Debug, Clone, Copy, PartialEq, Eq, Structural)]
pub enum Role {
    System,
    User,
    Assistant,
    Tool,
}

/// Kind of a content block.
#[derive(Debug, Clone, Copy, PartialEq, Eq, Structural)]
pub enum ContentType {
    Text,
    ToolUse,
    ToolResult,
    Thinking,
    Image,
}

/// One content block of a provider message; a tool call's input is held as
/// its JSON text.
pub struct ContentBlock {
    pub content_type: ContentType,
    pub text: Option<String>,
    pub name: Option<String>,
    pub thinking: Option<String>,
    pub input: Option<String>,
}

/// A provider message.
pub struct Message {
    pub role: Role,
    pub content: Vec<ContentBlock>,
}

/// Value of an optional string.
pub open spec fn opt_view(o: Option<String>) -> Option<Seq<char>> {
    match o {
        Some(s) => Some(s@),
        None => None,
    }
}

/// Value of a content block.
pub struct BlockSpec {
    pub content_type: ContentType,
    pub text: Option<Seq<char>>,
    pub name: Option<Seq<char>>,
    pub thinking: Option<Seq<char>>,
    pub input: Option<Seq<char>>,
}

impl ContentBlock {
    pub open spec fn spec_block(&self) -> BlockSpec {
        BlockSpec {
            content_type: self.content_type,
            text: opt_view(self.text),
            name: opt_view(self.name),
            thinking: opt_view(self.thinking),
            input: opt_view(self.input),
        }
    }
}

/// Value of a message: its role and blocks.
pub open spec fn message_spec(m: Message) -> (Role, Seq<BlockSpec>) {
    (m.role, m.content@.map_values(|b: ContentBlock| b.spec_block()))
}

/// A collapsible tool result under a chat message.
pub struct ToolBlock {
    pub name: String,
    pub preview: String,
    pub full: String,
    pub expanded: bool,
    pub is_error: bool,
}

/// A transcript row of the chat view.
pub struct ChatMessage {
    pub role: String,
    pub text: String,
    pub thinking: Option<String>,
    pub show_thinking: bool,
    pub tool_blocks: Vec<ToolBlock>,
}

/// Value of a tool block.
pub struct ToolBlockView {
    pub name: Seq<char>,
    pub preview: Seq<char>,
    pub full: Seq<char>,
    pub expanded: bool,
    pub is_error: bool,
}

impl View for ToolBlock {
    type V = ToolBlockView;

    open spec fn view(&self) -> ToolBlockView {
        ToolBlockView {
            name: self.name@,
            preview: self.preview@,
            full: self.full@,
            expanded: self.expanded,
            is_error: self.is_error,
        }
    }
}

/// Value of a chat row with its tool blocks.
pub struct ChatRowView {
    pub role: Seq<char>,
    pub text: Seq<char>,
    pub thinking: Option<Seq<char>>,
    pub show_thinking: bool,
    pub tool_blocks: Seq<ToolBlockView>,
}

impl View for ChatMessage {
    type V = ChatRowView;

    open spec fn view(&self) -> ChatRowView {
        ChatRowView {
            role: self.role@,
            text: self.text@,
            thinking: opt_view(self.thinking),
            show_thinking: self.show_thinking,
            tool_blocks: self.tool_blocks@.map_values(|b: ToolBlock| b@),
        }
    }
}

/// Views of chat rows.
pub open spec fn chat_views(s: Seq<ChatMessage>) -> Seq<ChatRowView> {
    s.map_values(|m: ChatMessage| m@)
}

/// Value of a chat row built from history (no tool blocks).
pub struct ChatSpec {
    pub role: Seq<char>,
    pub text: Seq<char>,
    pub thinking: Option<Seq<char>>,
    pub show_thinking: bool,
}

/// Value of a chat row; `None` when it carries tool blocks.
pub open spec fn chat_spec(c: ChatMessage) -> Option<ChatSpec> {
    if c.tool_blocks@.len() == 0 {
        Some(ChatSpec { role: c.role@, text: c.text@, thinking: opt_view(c.thinking), show_thinking: c.show_thinking })
    } else {
        None
    }
}

/// Name of a role.
pub open spec fn role_name(r: Role) -> Seq<char> {
    match r {
        Role::System => "system"@,
        Role::User => "user"@,
        Role::Assistant => "assistant"@,
        Role::Tool => "tool"@,
    }
}

/// Each newline replaced by a space.
pub open spec fn newlines_to_spaces(s: Seq<char>) -> Seq<char> {
    s.map_values(|c: char| if c == '\n' { ' ' } else { c })
}

/// One-line preview of a message: the first block's text, else its name,
/// else its thinking, else nothing; at most 48 characters, newlines as
/// spaces.
pub open spec fn message_preview(blocks: Seq<BlockSpec>) -> Seq<char> {
    let p = if blocks.len() == 0 {
        seq![]
    } else {
        let b = blocks[0];
        match b.text {
            Some(t) => t,
            None => match b.name {
                Some(n) => n,
                None => match b.thinking {
                    Some(t) => t,
                    None => seq![],
                },
            },
        }
    };
    newlines_to_spaces(take_chars(p, 48))
}

/// `"<role>: <preview>"`.
pub open spec fn summary_line(m: (Role, Seq<BlockSpec>)) -> Seq<char> {
    role_name(m.0) + ": "@ + message_preview(m.1)
}

fn role_str(r: Role) -> (s: &'static str)
    ensures
        s@ == role_name(r),
{
    match r {
        Role::System => "system",
        Role::User => "user",
        Role::Assistant => "assistant",
        Role::Tool => "tool",
    }
}

pub(crate) fn replace_newlines(s: &str) -> (r: String)
    ensures
        r@ == newlines_to_spaces(s@),
{
    let v = chars_of(s);
    let mut out = String::new();
    let mut i: usize = 0;
    while i < v.len()
        invariant
            i <= v@.len(),
            out@ == newlines_to_spaces(v@.take(i as int)),
        decreases v@.len() - i,
    {
        let c = v[i];
        out.push(if c == '\n' { ' ' } else { c });
        proof {
            assert(newlines_to_spaces(v@.take(i + 1)) =~= newlines_to_spaces(v@.take(i as int)).push(
                if c == '\n' { ' ' } else { c },
            ));
        }
        i += 1;
    }
    proof {
        assert(v@.take(v@.len() as int) =~= v@);
    }
    out
}

fn message_preview_exec(m: &Message) -> (r: String)
    ensures
        r@ == message_preview(message_spec(*m).1),
{
    let ghost bs = message_spec(*m).1;
    let p: &str = if m.content.len() == 0 {
        proof {
            reveal_strlit("");
        }
        ""
    } else {
        let b = &m.content[0];
        proof {
            assert(bs[0] == b.spec_block());
        }
        match &b.text {
            Some(t) => t.as_str(),
            None => match &b.name {
                Some(n) => n.as_str(),
                None => match &b.thinking {
                    Some(t) => t.as_str(),
                    None => {
                        proof {
                            reveal_strlit("");
                        }
                        ""
                    },
                },
            },
        }
    };
    let t = take_str(p, 48);
    replace_newlines(t.as_str())
}

/// `(index, "<role>: <preview>")` for each message, for the fork picker.
pub fn summarize_api_messages(messages: &[Message]) -> (r: Vec<(usize, String)>)
    ensures
        r@.len() == messages@.len(),
        forall|i: int| 0 <= i < r@.len() ==> (#[trigger] r@[i]).0 == i && r@[i].1@ == summary_line(
            message_spec(messages@[i]),
        ),
{
    let mut out: Vec<(usize, String)> = Vec::new();
    let mut i: usize = 0;
    while i < messages.len()
        invariant
            i <= messages@.len(),
            out@.len() == i,
            forall|k: int| 0 <= k < i ==> (#[trigger] out@[k]).0 == k && out@[k].1@ == summary_line(
                message_spec(messages@[k]),
            ),
        decreases messages@.len() - i,
    {
        let m = &messages[i];
        let mut line = String::from_str(role_str(m.role));
        line.append(": ");
        let p = message_preview_exec(m);
        line.append(p.as_str());
        out.push((i, line));
        i += 1;
    }
    out
}

/// The text of a block, or nothing.
pub open spec fn text_or_empty(b: BlockSpec) -> Seq<char> {
    match b.text {
        Some(t) => t,
        None => seq![],
    }
}

/// What one block adds to an assistant row's text: its text, or a tool
/// line `\n🛠 <name> <first 120 chars of input>\n`.
pub open spec fn assistant_piece(b: BlockSpec) -> Seq<char> {
    match b.content_type {
        ContentType::Text => text_or_empty(b),
        ContentType::ToolUse => "\n\u{1f6e0} "@ + (match b.name {
            Some(n) => n,
            None => "tool"@,
        }) + " "@ + take_chars(
            match b.input {
                Some(i) => i,
                None => seq![],
            },
            120,
        ) + "\n"@,
        _ => seq![],
    }
}

/// Text of an assistant row: the pieces of all blocks in order.
pub open spec fn assistant_text(bs: Seq<BlockSpec>) -> Seq<char>
    decreases bs.len(),
{
    if bs.len() == 0 {
        seq![]
    } else {
        assistant_text(bs.drop_last()) + assistant_piece(bs.last())
    }
}

/// Thinking of an assistant row: that of the last thinking block that has
/// some.
pub open spec fn assistant_thinking(bs: Seq<BlockSpec>) -> Option<Seq<char>>
    decreases bs.len(),
{
    if bs.len() == 0 {
        None
    } else {
        let b = bs.last();
        if b.content_type == ContentType::Thinking && b.thinking is Some {
            b.thinking
        } else {
            assistant_thinking(bs.drop_last())
        }
    }
}

/// The chat row a message becomes, if any: user rows with text; assistant
/// rows with text or nonempty thinking (shown when nonempty); tool rows
/// `✅ [<name>] <first 200 chars of result>` when the result is nonempty;
/// system messages never.
pub open spec fn chat_of(m: (Role, Seq<BlockSpec>)) -> Option<ChatSpec> {
    let bs = m.1;
    match m.0 {
        Role::User => {
            let t = if bs.len() > 0 {
                text_or_empty(bs[0])
            } else {
                seq![]
            };
            if t.len() > 0 {
                Some(ChatSpec { role: "user"@, text: t, thinking: None, show_thinking: false })
            } else {
                None
            }
        },
        Role::Assistant => {
            let text = assistant_text(bs);
            let th = assistant_thinking(bs);
            let shown = match th {
                Some(t) => t.len() > 0,
                None => false,
            };
            if text.len() > 0 || shown {
                Some(ChatSpec { role: "assistant"@, text: text, thinking: th, show_thinking: shown })
            } else {
                None
            }
        },
        Role::Tool => {
            let name = if bs.len() > 0 && bs[0].name is Some {
                bs[0].name->0
            } else {
                "tool"@
            };
            let preview = take_chars(
                if bs.len() > 0 {
                    text_or_empty(bs[0])
                } else {
                    seq![]
                },
                200,
            );
            if preview.len() > 0 {
                Some(
                    ChatSpec {
                        role: "tool"@,
                        text: "\u{2705} ["@ + name + "] "@ + preview,
                        thinking: None,
                        show_thinking: false,
                    },
                )
            } else {
                None
            }
        },
        Role::System => None,
    }
}

/// The chat rows of a history, in order.
pub open spec fn chat_rows(ms: Seq<(Role, Seq<BlockSpec>)>) -> Seq<ChatSpec>
    decreases ms.len(),
{
    if ms.len() == 0 {
        seq![]
    } else {
        match chat_of(ms.last()) {
            Some(c) => chat_rows(ms.drop_last()).push(c),
            None => chat_rows(ms.drop_last()),
        }
    }
}

fn copy_str(s: &str) -> (r: String)
    ensures
        r@ == s@,
{
    let v = chars_of(s);
    string_of_all(&v)
}

fn row(role: &str, text: String, thinking: Option<String>, show: bool) -> (r: ChatMessage)
    ensures
        chat_spec(r) == Some(ChatSpec { role: role@, text: text@, thinking: opt_view(thinking), show_thinking: show }),
{
    ChatMessage { role: copy_str(role), text, thinking, show_thinking: show, tool_blocks: Vec::new() }
}

fn chat_of_exec(m: &Message) -> (r: Option<ChatMessage>)
    ensures
        match r {
            Some(c) => chat_of(message_spec(*m)) == chat_spec(c) && chat_spec(c) is Some,
            None => chat_of(message_spec(*m)) is None,
        },
{
    let ghost bs = message_spec(*m).1;
    match m.role {
        Role::User => {
            let t: &str = if m.content.len() > 0 {
                proof {
                    assert(bs[0] == m.content@[0].spec_block());
                }
                match &m.content[0].text {
                    Some(t) => t.as_str(),
                    None => {
                        proof {
                            reveal_strlit("");
                        }
                        ""
                    },
                }
            } else {
                proof {
                    reveal_strlit("");
                }
                ""
            };
            if t.is_empty() {
                None
            } else {
                Some(row("user", copy_str(t), None, false))
            }
        },
        Role::Assistant => {
            let mut text = String::new();
            let mut thinking: Option<String> = None;
            let mut i: usize = 0;
            proof {
                assert(bs.take(0) =~= Seq::<BlockSpec>::empty());
            }
            while i < m.content.len()
                invariant
                    i <= m.content@.len(),
                    bs == message_spec(*m).1,
                    text@ == assistant_text(bs.take(i as int)),
                    opt_view(thinking) == assistant_thinking(bs.take(i as int)),
                decreases m.content@.len() - i,
            {
                let c = &m.content[i];
                proof {
                    assert(bs[i as int] == c.spec_block());
                    assert(bs.take(i + 1).drop_last() =~= bs.take(i as int));
                    assert(bs.take(i + 1).last() == c.spec_block());
                }
                let ghost before = text@;
                match c.content_type {
                    ContentType::Text => {
                        match &c.text {
                            Some(t) => {
                                text.append(t.as_str());
                            },
                            None => {
                                proof {
                                    assert(before + Seq::<char>::empty() =~= before);
                                }
                            },
                        }
                    },
                    ContentType::ToolUse => {
                        let name: &str = match &c.name {
                            Some(n) => n.as_str(),
                            None => "tool",
                        };
                        let input: &str = match &c.input {
                            Some(v) => v.as_str(),
                            None => {
                                proof {
                                    reveal_strlit("");
                                }
                                ""
                            },
                        };
                        let preview = take_str(input, 120);
                        text.append("\n\u{1f6e0} ");
                        text.append(name);
                        text.append(" ");
                        text.append(preview.as_str());
                        text.append("\n");
                    },
                    ContentType::Thinking => {
                        match &c.thinking {
                            Some(t) => {
                                thinking = Some(copy_str(t.as_str()));
                            },
                            None => {},
                        }
                        proof {
                            assert(before + Seq::<char>::empty() =~= before);
                        }
                    },
                    _ => {
                        proof {
                            assert(before + Seq::<char>::empty() =~= before);
                        }
                    },
                }
                i += 1;
            }
            proof {
                assert(bs.take(m.content@.len() as int) =~= bs);
            }
            let shown = match &thinking {
                Some(t) => !t.as_str().is_empty(),
                None => false,
            };
            if !text.as_str().is_empty() || shown {
                Some(row("assistant", text, thinking, shown))
            } else {
                None
            }
        },
        Role::Tool => {
            let name: &str = if m.content.len() > 0 {
                proof {
                    assert(bs[0] == m.content@[0].spec_block());
                }
                match &m.content[0].name {
                    Some(n) => n.as_str(),
                    None => "tool",
                }
            } else {
                "tool"
            };
            let result: &str = if m.content.len() > 0 {
                match &m.content[0].text {
                    Some(t) => t.as_str(),
                    None => {
                        proof {
                            reveal_strlit("");
                        }
                        ""
                    },
                }
            } else {
                proof {
                    reveal_strlit("");
                }
                ""
            };
            let preview = take_str(result, 200);
            if preview.as_str().is_empty() {
                None
            } else {
                let mut t = String::from_str("\u{2705} [");
                t.append(name);
                t.append("] ");
                t.append(preview.as_str());
                Some(row("tool", t, None, false))
            }
        },
        Role::System => None,
    }
}

/// Chat rows for a restored history (see `chat_rows`).
pub fn api_messages_to_chat(messages: &[Message]) -> (r: Vec<ChatMessage>)
    ensures
        r@.len() == chat_rows(messages@.map_values(|m: Message| message_spec(m))).len(),
        forall|i: int| 0 <= i < r@.len() ==> chat_spec(#[trigger] r@[i]) == Some(
            chat_rows(messages@.map_values(|m: Message| message_spec(m)))[i],
        ),
{
    let ghost ms = messages@.map_values(|m: Message| message_spec(m));
    let mut out: Vec<ChatMessage> = Vec::new();
    let mut i: usize = 0;
    proof {
        assert(ms.take(0) =~= Seq::<(Role, Seq<BlockSpec>)>::empty());
    }
    while i < messages.len()
        invariant
            i <= messages@.len(),
            ms == messages@.map_values(|m: Message| message_spec(m)),
            out@.len() == chat_rows(ms.take(i as int)).len(),
            forall|k: int| 0 <= k < out@.len() ==> chat_spec(#[trigger] out@[k]) == Some(
                chat_rows(ms.take(i as int))[k],
            ),
        decreases messages@.len() - i,
    {
        proof {
            assert(ms.take(i + 1).drop_last() =~= ms.take(i as int));
            assert(ms.take(i + 1).last() == message_spec(messages@[i as int]));
        }
        let ghost prev = chat_rows(ms.take(i as int));
        match chat_of_exec(&messages[i]) {
            Some(c) => {
                let ghost cs = chat_spec(c);
                let ghost old_out = out@;
                out.push(c);
                proof {
                    assert(chat_rows(ms.take(i + 1)) == prev.push(cs->0));
                    assert forall|k: int| 0 <= k < out@.len() implies chat_spec(#[trigger] out@[k])
                        == Some(chat_rows(ms.take(i + 1))[k]) by {
                        if k < old_out.len() {
                            assert(out@[k] == old_out[k]);
                        }
                    }
                }
            },
            None => {
                proof {
                    assert(chat_rows(ms.take(i + 1)) == prev);
                }
            },
        }
        i += 1;
    }
    proof {
        assert(ms.take(messages@.len() as int) =~= ms);
    }
    out
}

/// Words joined by single spaces.
pub open spec fn join_space(ws: Seq<Seq<char>>) -> Seq<char>
    decreases ws.len(),
{
    if ws.len() == 0 {
        seq![]
    } else if ws.len() == 1 {
        ws[0]
    } else {
        join_space(ws.drop_last()) + " "@ + ws.last()
    }
}

/// `/fork [@N] [label…]`: with a leading `@N` the turn and the remaining
/// words as label (if any); otherwise the whole trimmed text as label;
/// nothing for an empty argument.
pub open spec fn fork_args(arg: Seq<char>) -> (Option<usize>, Option<Seq<char>>) {
    let a = trim(arg);
    if a.len() == 0 {
        (None, None)
    } else {
        let ws = words(a);
        let first = if ws.len() > 0 {
            ws[0]
        } else {
            seq![]
        };
        if first.len() > 0 && first[0] == '@' && parse_usize(first.drop_first()) is Some {
            let l = join_space(ws.drop_first());
            (parse_usize(first.drop_first()), if l.len() == 0 {
                None
            } else {
                Some(l)
            })
        } else {
            (None, Some(a))
        }
    }
}

/// Parse `/fork [@N] [label…]` into (at, label).
pub fn parse_fork_args(arg: &str) -> (r: (Option<usize>, Option<String>))
    ensures
        (r.0, opt_view(r.1)) == fork_args(arg@),
{
    let t = trim_str_local(arg);
    if t.len() == 0 {
        return (None, None);
    }
    let ws = words_of(&t);
    let ghost wv = views(ws@);
    if ws.len() > 0 && ws[0].len() > 0 && ws[0][0] == '@' {
        let first = &ws[0];
        let rest_v = crate::text::sub_vec(first, 1, first.len());
        let rest = string_of_all(&rest_v);
        proof {
            assert(wv[0] == first@);
            assert(rest_v@ =~= first@.drop_first());
        }
        match parse_usize_exec(rest.as_str()) {
            Some(n) => {
                let mut label = String::new();
                let mut k: usize = 1;
                proof {
                    assert(wv.drop_first().take(0) =~= Seq::<Seq<char>>::empty());
                }
                while k < ws.len()
                    invariant
                        1 <= k <= ws@.len(),
                        wv == views(ws@),
                        label@ == join_space(wv.drop_first().take(k - 1)),
                    decreases ws@.len() - k,
                {
                    let ghost d = wv.drop_first();
                    proof {
                        assert(d.take(k as int).drop_last() =~= d.take(k - 1));
                        assert(d.take(k as int).last() == ws@[k as int]@);
                    }
                    if k > 1 {
                        label.append(" ");
                    }
                    let w = string_of_all(&ws[k]);
                    label.append(w.as_str());
                    proof {
                        if k == 1 {
                            assert(d.take(1) =~= seq![ws@[1]@]);
                            assert(label@ =~= ws@[1]@);
                        }
                    }
                    k += 1;
                }
                proof {
                    assert(wv.drop_first().take(ws@.len() - 1) =~= wv.drop_first());
                }
                if label.as_str().is_empty() {
                    (Some(n), None)
                } else {
                    (Some(n), Some(label))
                }
            },
            None => (None, Some(string_of_all(&t))),
        }
    } else {
        proof {
            if ws@.len() > 0 {
                assert(wv[0] == ws@[0]@);
            }
        }
        (None, Some(string_of_all(&t)))
    }
}

fn trim_str_local(s: &str) -> (r: Vec<char>)
    ensures
        r@ == trim(s@),
{
    let v = chars_of(s);
    let (lo, hi) = trim_bounds(&v);
    crate::text::sub_vec(&v, lo, hi)
}

/// Cleaned tokens that look like paths (contain `/` or `.`), in order.
pub open spec fn path_like_tokens(toks: Seq<Seq<char>>) -> Seq<Seq<char>>
    decreases toks.len(),
{
    if toks.len() == 0 {
        seq![]
    } else {
        let prev = path_like_tokens(toks.drop_last());
        let c = unwrap_token(toks.last());
        if contains(c, "/"@) || contains(c, "."@) {
            prev.push(c)
        } else {
            prev
        }
    }
}

/// Path-looking tokens of a tool result, before checking which exist.
pub fn saved_path_candidates(tool_result: &str) -> (r: Vec<String>)
    ensures
        string_views(r@) == path_like_tokens(words(tool_result@)),
{
    let v = chars_of(tool_result);
    let toks = words_of(&v);
    let ghost tv = views(toks@);
    let slash = chars_of("/");
    let dot = chars_of(".");
    let mut out: Vec<String> = Vec::new();
    let mut i: usize = 0;
    proof {
        assert(tv.take(0) =~= Seq::<Seq<char>>::empty());
    }
    while i < toks.len()
        invariant
            i <= toks@.len(),
            tv == views(toks@),
            slash@ == "/"@,
            dot@ == "."@,
            string_views(out@) == path_like_tokens(tv.take(i as int)),
        decreases toks@.len() - i,
    {
        let c = unwrap_token_exec(&toks[i]);
        proof {
            assert(tv.take(i + 1).drop_last() =~= tv.take(i as int));
            assert(tv.take(i + 1).last() == toks@[i as int]@);
        }
        if contains_exec(&c, &slash) || contains_exec(&c, &dot) {
            let ghost old_out = string_views(out@);
            out.push(string_of_all(&c));
            proof {
                assert(string_views(out@) =~= old_out.push(c@));
            }
        }
        i += 1;
    }
    proof {
        assert(tv.take(toks@.len() as int) =~= tv);
    }
    out
}

/// The first element whose flag is set.
pub open spec fn first_kept(s: Seq<Seq<char>>, keep: Seq<bool>) -> Option<Seq<char>>
    decreases s.len(),
{
    if s.len() == 0 || keep.len() == 0 {
        None
    } else if keep[0] {
        Some(s[0])
    } else {
        first_kept(s.drop_first(), keep.drop_first())
    }
}

/// The first candidate that names an existing file (`exists[i]` for
/// `candidates[i]`).
pub fn extract_saved_file_path(candidates: &[String], exists: &[bool]) -> (r: Option<String>)
    requires
        candidates@.len() == exists@.len(),
    ensures
        opt_view(r) == first_kept(string_views(candidates@), exists@),
{
    let ghost cv = string_views(candidates@);
    let mut i: usize = 0;
    proof {
        assert(cv.skip(0) =~= cv);
        assert(exists@.skip(0) =~= exists@);
    }
    while i < candidates.len()
        invariant
            i <= candidates@.len() == exists@.len(),
            cv == string_views(candidates@),
            first_kept(cv, exists@) == first_kept(cv.skip(i as int), exists@.skip(i as int)),
        decreases candidates@.len() - i,
    {
        proof {
            assert(cv.skip(i as int).drop_first() =~= cv.skip(i + 1));
            assert(exists@.skip(i as int).drop_first() =~= exists@.skip(i + 1));
        }
        if exists[i] {
            return Some(candidates[i].clone());
        }
        i += 1;
    }
    None
}

/// Glyph of a seat log line in the chat view.
pub open spec fn log_glyph(k: LogKind) -> Seq<char> {
    match k {
        LogKind::Tool => "\u{2699}"@,
        LogKind::ToolResult => "\u{21b3}"@,
        LogKind::Say => "\u{1f4ac}"@,
        LogKind::Heartbeat => "\u{2665}"@,
        LogKind::Claimed => "\u{25b6}"@,
        LogKind::Closed => "\u{2713}"@,
        LogKind::Session => "\u{25c9}"@,
        LogKind::Error => "\u{2717}"@,
        LogKind::Status => "\u{b7}"@,
        LogKind::Raw => "\u{b7}"@,
    }
}

/// Chat role of a seat log line: what the seat said is the assistant's,
/// tool lines are the tool's, the rest is the system's.
pub open spec fn log_role(k: LogKind) -> Seq<char> {
    match k {
        LogKind::Say => "assistant"@,
        LogKind::Tool | LogKind::ToolResult => "tool"@,
        _ => "system"@,
    }
}

/// Chat text of a seat log line: glyph, `[<timestamp>] ` when there is
/// one, then the body.
pub open spec fn log_chat_text(k: LogKind, ts: Option<Seq<char>>, body: Seq<char>) -> Seq<char> {
    log_glyph(k) + " "@ + match ts {
        Some(t) => "["@ + t + "] "@,
        None => seq![],
    } + body
}

fn log_glyph_str(k: LogKind) -> (r: &'static str)
    ensures
        r@ == log_glyph(k),
{
    match k {
        LogKind::Tool => "\u{2699}",
        LogKind::ToolResult => "\u{21b3}",
        LogKind::Say => "\u{1f4ac}",
        LogKind::Heartbeat => "\u{2665}",
        LogKind::Claimed => "\u{25b6}",
        LogKind::Closed => "\u{2713}",
        LogKind::Session => "\u{25c9}",
        LogKind::Error => "\u{2717}",
        LogKind::Status => "\u{b7}",
        LogKind::Raw => "\u{b7}",
    }
}

/// The chat row for a followed seat's log line.
pub fn fleet_log_message(line: &ParsedLogLine) -> (r: ChatMessage)
    ensures
        chat_spec(r) == Some(
            ChatSpec {
                role: log_role(line.kind),
                text: log_chat_text(line.kind, opt_view(line.timestamp), line.body@),
                thinking: None,
                show_thinking: false,
            },
        ),
{
    let role = match line.kind {
        LogKind::Say => "assistant",
        LogKind::Tool | LogKind::ToolResult => "tool",
        _ => "system",
    };
    let mut text = log_glyph_str(line.kind).to_string();
    text.append(" ");
    match &line.timestamp {
        Some(t) => {
            text.append("[");
            text.append(t.as_str());
            text.append("] ");
        },
        None => {},
    }
    text.append(line.body.as_str());
    proof {
        assert(text@ =~= log_chat_text(line.kind, opt_view(line.timestamp), line.body@));
        assert(role@ == log_role(line.kind));
    }
    let r = ChatMessage { role: role.to_string(), text, thinking: None, show_thinking: false, tool_blocks: Vec::new() };
    proof {
        assert(r.tool_blocks@.len() == 0);
    }
    r
}

} // verus!
