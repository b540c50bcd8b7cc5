//! What the chat view draws for each message, in order: the role header,
//! the thinking block, the tool blocks, the reply text or a placeholder,
//! and a blank separator. Markdown, colours and wrapping are applied to
//! these pieces when they are drawn.

use vstd::prelude::*;
use crate::geometry::{max_int, sat_sub};
use crate::agent_events::{after_text_delta, empty_assistant};
use crate::helpers::{chat_views, ChatMessage, ChatRowView, ToolBlock, ToolBlockView};
use crate::text::{str_eq, take_chars, take_str};

verus! {

/// The colour a role is drawn in.
#[derive(Clone, Copy, Debug, PartialEq, Eq, Structural)]
pub enum RoleTone {
    System,
    User,
    Assistant,
    Tool,
    Other,
}

/// The rail character, label and colour of a role: a heavy rail for the
/// user and the agent, a light one otherwise.
pub open spec fn role_style_of(role: Seq<char>) -> (char, Seq<char>, RoleTone) {
    if role == "system"@ {
        ('\u{2502}', "system"@, RoleTone::System)
    } else if role == "user"@ {
        ('\u{2503}', "you"@, RoleTone::User)
    } else if role == "assistant"@ {
        ('\u{2503}', "agent"@, RoleTone::Assistant)
    } else if role == "tool"@ {
        ('\u{2502}', "tool"@, RoleTone::Tool)
    } else {
        ('\u{2502}', seq![], RoleTone::Other)
    }
}

/// The rail character, label and colour of a role.
pub fn role_style(role: &str) -> (r: (char, &'static str, RoleTone))
    ensures
        (r.0, r.1@, r.2) == role_style_of(role@),
{
    if str_eq(role, "system") {
        ('\u{2502}', "system", RoleTone::System)
    } else if str_eq(role, "user") {
        ('\u{2503}', "you", RoleTone::User)
    } else if str_eq(role, "assistant") {
        ('\u{2503}', "agent", RoleTone::Assistant)
    } else if str_eq(role, "tool") {
        ('\u{2502}', "tool", RoleTone::Tool)
    } else {
        proof {
            reveal_strlit("");
        }
        ('\u{2502}', "", RoleTone::Other)
    }
}

/// One piece of a message in the chat view.
#[derive(Clone, Debug, PartialEq, Eq)]
pub enum ChatPiece<S> {
    /// The rail and label line over a user or system message.
    RoleHeader,
    /// Thinking shown in full (a clickable header, then this text).
    ThinkingOpen(S),
    /// Thinking folded to a clickable preview of this text.
    ThinkingClosed(S),
    /// A tool block shown in full: its index, name, output and whether it
    /// failed.
    ToolOpen { index: usize, name: S, full: S, error: bool },
    /// A tool block folded to a one-line preview.
    ToolClosed { index: usize, name: S, preview: S, error: bool },
    /// The reply text.
    Text(S),
    /// The agent is still working on an empty reply.
    Pending,
    /// The blank line after every message.
    Blank,
}

/// The characters a piece holds.
pub open spec fn piece_view(p: ChatPiece<String>) -> ChatPiece<Seq<char>> {
    match p {
        ChatPiece::RoleHeader => ChatPiece::RoleHeader,
        ChatPiece::ThinkingOpen(s) => ChatPiece::ThinkingOpen(s@),
        ChatPiece::ThinkingClosed(s) => ChatPiece::ThinkingClosed(s@),
        ChatPiece::ToolOpen { index, name, full, error } => ChatPiece::ToolOpen {
            index,
            name: name@,
            full: full@,
            error,
        },
        ChatPiece::ToolClosed { index, name, preview, error } => ChatPiece::ToolClosed {
            index,
            name: name@,
            preview: preview@,
            error,
        },
        ChatPiece::Text(s) => ChatPiece::Text(s@),
        ChatPiece::Pending => ChatPiece::Pending,
        ChatPiece::Blank => ChatPiece::Blank,
    }
}

/// Characters of folded thinking shown on a line `width` wide: 14 fewer,
/// at least 8.
pub open spec fn thinking_budget(width: nat) -> nat {
    max_int(sat_sub(width as int, 14), 8) as nat
}

/// Characters of a folded tool preview: what is left of the line after
/// the icon and a space, the name, three separating columns and ` …` (7
/// columns besides the name), at
/// least 8.
pub open spec fn tool_budget(width: nat, name: Seq<char>) -> nat {
    max_int(sat_sub(width as int, name.len() as int + 7), 8) as nat
}

/// The piece of a tool block.
pub open spec fn tool_piece(index: int, b: ToolBlockView, width: nat) -> ChatPiece<Seq<char>> {
    if b.expanded {
        ChatPiece::ToolOpen { index: index as usize, name: b.name, full: b.full, error: b.is_error }
    } else {
        ChatPiece::ToolClosed {
            index: index as usize,
            name: b.name,
            preview: take_chars(b.preview, tool_budget(width, b.name)),
            error: b.is_error,
        }
    }
}

/// Whether a message has thinking to show.
pub open spec fn has_thinking(m: ChatRowView) -> bool {
    m.thinking is Some && m.thinking->0.len() > 0
}

/// The role header of a message: only user and system messages have one.
pub open spec fn header_pieces(m: ChatRowView) -> Seq<ChatPiece<Seq<char>>> {
    if m.role == "user"@ || m.role == "system"@ {
        seq![ChatPiece::RoleHeader]
    } else {
        seq![]
    }
}

/// The thinking of a message, open or folded, when it has any.
pub open spec fn thinking_pieces(m: ChatRowView, width: nat) -> Seq<ChatPiece<Seq<char>>> {
    if has_thinking(m) {
        if m.show_thinking {
            seq![ChatPiece::ThinkingOpen(m.thinking->0)]
        } else {
            seq![ChatPiece::ThinkingClosed(take_chars(m.thinking->0, thinking_budget(width)))]
        }
    } else {
        seq![]
    }
}

/// The tool blocks of a message, in order.
pub open spec fn tool_pieces(m: ChatRowView, width: nat) -> Seq<ChatPiece<Seq<char>>> {
    Seq::new(m.tool_blocks.len(), |i: int| tool_piece(i, m.tool_blocks[i], width))
}

/// The reply text, or the placeholder while the agent works on an empty
/// reply with no thinking and no tool blocks yet.
pub open spec fn body_pieces(m: ChatRowView, waiting: bool) -> Seq<ChatPiece<Seq<char>>> {
    if m.text.len() > 0 {
        seq![ChatPiece::Text(m.text)]
    } else if m.role == "assistant"@ && !has_thinking(m) && m.tool_blocks.len() == 0 && waiting {
        seq![ChatPiece::Pending]
    } else {
        seq![]
    }
}

/// The pieces of one message on a line `width` wide; `waiting` says the
/// agent is working.
pub open spec fn message_pieces_of(m: ChatRowView, waiting: bool, width: nat) -> Seq<ChatPiece<Seq<char>>> {
    header_pieces(m) + thinking_pieces(m, width) + tool_pieces(m, width) + body_pieces(m, waiting)
        + seq![ChatPiece::Blank]
}

/// The piece of one tool block.
fn tool_block_piece(index: usize, b: &ToolBlock, width: usize) -> (r: ChatPiece<String>)
    ensures
        piece_view(r) == tool_piece(index as int, b@, width as nat),
{
    if b.expanded {
        ChatPiece::ToolOpen { index, name: b.name.clone(), full: b.full.clone(), error: b.is_error }
    } else {
        let name_len = crate::text::chars_of(b.name.as_str()).len();
        let fixed: usize = if name_len <= usize::MAX - 7 {
            name_len + 7
        } else {
            usize::MAX
        };
        let room: usize = if width > fixed {
            width - fixed
        } else {
            0
        };
        let budget: usize = if room > 8 {
            room
        } else {
            8
        };
        ChatPiece::ToolClosed {
            index,
            name: b.name.clone(),
            preview: take_str(b.preview.as_str(), budget),
            error: b.is_error,
        }
    }
}

/// The pieces of one message on a line `width` wide (see
/// `message_pieces_of`).
pub fn message_pieces(m: &ChatMessage, waiting: bool, width: usize) -> (r: Vec<ChatPiece<String>>)
    ensures
        r@.map_values(|p: ChatPiece<String>| piece_view(p)) == message_pieces_of(m@, waiting, width as nat),
{
    let ghost mv = m@;
    let ghost target = message_pieces_of(mv, waiting, width as nat);
    let mut out: Vec<ChatPiece<String>> = Vec::new();
    let role = m.role.as_str();
    if str_eq(role, "user") || str_eq(role, "system") {
        out.push(ChatPiece::RoleHeader);
    }
    let thinking_shown = match &m.thinking {
        Some(t) => !t.as_str().is_empty(),
        None => false,
    };
    if thinking_shown {
        let t = m.thinking.as_ref().unwrap();
        if m.show_thinking {
            out.push(ChatPiece::ThinkingOpen(t.clone()));
        } else {
            let budget: usize = if width > 22 {
                width - 14
            } else {
                8
            };
            out.push(ChatPiece::ThinkingClosed(take_str(t.as_str(), budget)));
        }
    }
    let ghost lead = out@.map_values(|p: ChatPiece<String>| piece_view(p));
    proof {
        assert(thinking_shown == has_thinking(mv));
        assert(lead =~= header_pieces(mv) + thinking_pieces(mv, width as nat));
    }
    let ghost tools = tool_pieces(mv, width as nat);
    let mut i: usize = 0;
    while i < m.tool_blocks.len()
        invariant
            i <= m.tool_blocks.len(),
            mv == m@,
            tools == tool_pieces(mv, width as nat),
            out@.map_values(|p: ChatPiece<String>| piece_view(p)) == lead + tools.take(i as int),
        decreases m.tool_blocks.len() - i,
    {
        let ghost before = out@;
        let piece = tool_block_piece(i, &m.tool_blocks[i], width);
        out.push(piece);
        proof {
            assert(mv.tool_blocks[i as int] == m.tool_blocks@[i as int]@);
            assert(out@.map_values(|p: ChatPiece<String>| piece_view(p)) =~= before.map_values(
                |p: ChatPiece<String>| piece_view(p),
            ).push(piece_view(piece)));
            assert(tools.take(i + 1) =~= tools.take(i as int).push(tools[i as int]));
        }
        i += 1;
    }
    proof {
        assert(tools.take(m.tool_blocks.len() as int) =~= tools);
    }
    let ghost mid = out@.map_values(|p: ChatPiece<String>| piece_view(p));
    if !m.text.as_str().is_empty() {
        out.push(ChatPiece::Text(m.text.clone()));
    } else if str_eq(role, "assistant") && !thinking_shown && m.tool_blocks.len() == 0 && waiting {
        out.push(ChatPiece::Pending);
    }
    proof {
        assert(out@.map_values(|p: ChatPiece<String>| piece_view(p)) =~= mid + body_pieces(mv, waiting));
    }
    out.push(ChatPiece::Blank);
    proof {
        assert(out@.map_values(|p: ChatPiece<String>| piece_view(p)) =~= target);
    }
    out
}


/// The row of a message the user sent.
pub open spec fn user_row(text: Seq<char>) -> ChatRowView {
    ChatRowView { role: "user"@, text, thinking: None, show_thinking: false, tool_blocks: seq![] }
}

/// Start a turn: the user's message, then an empty reply from the agent
/// for the stream to fill.
pub fn begin_turn(messages: &mut Vec<ChatMessage>, text: String)
    ensures
        chat_views(final(messages)@) == chat_views(old(messages)@) + seq![user_row(text@), empty_assistant(false)],
{
    let ghost before = chat_views(messages@);
    let user = ChatMessage {
        role: "user".to_string(),
        text,
        thinking: None,
        show_thinking: false,
        tool_blocks: Vec::new(),
    };
    let agent = ChatMessage {
        role: "assistant".to_string(),
        text: String::new(),
        thinking: None,
        show_thinking: false,
        tool_blocks: Vec::new(),
    };
    proof {
        assert(user@.tool_blocks =~= Seq::<ToolBlockView>::empty());
        assert(agent@.tool_blocks =~= Seq::<ToolBlockView>::empty());
        assert(agent@.text =~= Seq::<char>::empty());
        assert(user@ == user_row(user.text@));
        assert(agent@ == empty_assistant(false));
    }
    let ghost uv = user@;
    let ghost av = agent@;
    messages.push(user);
    messages.push(agent);
    proof {
        assert(chat_views(messages@) =~= before + seq![uv, av]);
    }
}

/// From the moment a turn starts until its first reply text streams in,
/// the reply shows the working placeholder (while the agent works); once
/// text has streamed in, the reply shows that text instead.
pub proof fn lemma_pending_until_text(rows: Seq<ChatRowView>, sent: Seq<char>, delta: Seq<char>, width: nat)
    ensures
        message_pieces_of((rows + seq![user_row(sent), empty_assistant(false)]).last(), true, width)
            == seq![ChatPiece::<Seq<char>>::Pending, ChatPiece::Blank],
        delta.len() > 0 ==> ({
            let last = after_text_delta(rows + seq![user_row(sent), empty_assistant(false)], delta).last();
            &&& last.text == delta
            &&& message_pieces_of(last, true, width) == seq![ChatPiece::Text(delta), ChatPiece::Blank]
        }),
{
    reveal_strlit("assistant");
    reveal_strlit("user");
    reveal_strlit("system");
    let turn = rows + seq![user_row(sent), empty_assistant(false)];
    assert(turn.last() == empty_assistant(false));
    let e = empty_assistant(false);
    assert(tool_pieces(e, width) =~= Seq::<ChatPiece<Seq<char>>>::empty());
    assert("assistant"@[0] != "user"@[0]);
    assert("assistant"@[0] != "system"@[0]);
    assert(header_pieces(e) =~= Seq::<ChatPiece<Seq<char>>>::empty());
    assert(thinking_pieces(e, width) =~= Seq::<ChatPiece<Seq<char>>>::empty());
    assert(body_pieces(e, true) =~= seq![ChatPiece::<Seq<char>>::Pending]);
    assert(message_pieces_of(e, true, width) =~= seq![ChatPiece::<Seq<char>>::Pending, ChatPiece::Blank]);
    if delta.len() > 0 {
        let last = after_text_delta(turn, delta).last();
        assert(last.text =~= delta);
        assert(tool_pieces(last, width) =~= Seq::<ChatPiece<Seq<char>>>::empty());
        assert(header_pieces(last) =~= Seq::<ChatPiece<Seq<char>>>::empty());
        assert(thinking_pieces(last, width) =~= Seq::<ChatPiece<Seq<char>>>::empty());
        assert(message_pieces_of(last, true, width) =~= seq![ChatPiece::Text(delta), ChatPiece::Blank]);
    }
}

} // verus!

