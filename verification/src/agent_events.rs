//! What the chat view does with agent events: console chunks, provider
//! errors and retries, goal updates, tool-result previews, and streamed
//! text and thinking.

use vstd::prelude::*;
use crate::console::{sanitize_console_text, sanitized};
use crate::helpers::{chat_views, ChatMessage, ChatRowView, ToolBlock, ToolBlockView};
use crate::search::{first_index, last_index};
use crate::text::{
    chars_of, contains, contains_exec, decimal, lines, lines_of, push_decimal, spec_to_lowercase, starts_with,
    starts_with_exec, string_of, string_of_all, take_chars, take_str, to_lowercase, trim_start, trim_bounds, views,
};

verus! {

/// Console text for lines of output: each line, prefixed by `! ` when it
/// came from stderr, and ended by a newline.
pub open spec fn chunk_of(ls: Seq<Seq<char>>, stderr: bool) -> Seq<char>
    decreases ls.len(),
{
    if ls.len() == 0 {
        seq![]
    } else {
        chunk_of(ls.drop_last(), stderr) + (if stderr {
            "! "@
        } else {
            seq![]
        }) + ls.last() + "\n"@
    }
}

/// The console chunk for streamed tool output: cleaned of escapes, split
/// into lines, stderr lines marked.
pub fn console_chunk(text: &str, stderr: bool) -> (r: String)
    ensures
        r@ == chunk_of(lines(sanitized(text@)), stderr),
{
    let cleaned = sanitize_console_text(text);
    let v = chars_of(cleaned.as_str());
    let ls = lines_of(&v);
    let ghost lv = views(ls@);
    let mut out = String::new();
    let mut i: usize = 0;
    proof {
        assert(lv.take(0) =~= Seq::<Seq<char>>::empty());
    }
    while i < ls.len()
        invariant
            i <= ls.len(),
            lv == views(ls@),
            lv == lines(sanitized(text@)),
            out@ == chunk_of(lv.take(i as int), stderr),
        decreases ls.len() - i,
    {
        if stderr {
            out.append("! ");
        }
        let l = string_of_all(&ls[i]);
        out.append(l.as_str());
        out.append("\n");
        proof {
            assert(lv.take(i + 1).drop_last() =~= lv.take(i as int));
            assert(lv.take(i + 1).last() == ls@[i as int]@);
            assert(out@ =~= chunk_of(lv.take(i + 1), stderr));
        }
        i += 1;
    }
    proof {
        assert(lv.take(ls.len() as int) =~= lv);
    }
    out
}

/// Whether an error message reads as a transport failure.
pub open spec fn transport_error(msg: Seq<char>) -> bool {
    let l = spec_to_lowercase(msg);
    contains(l, "stream error"@) || contains(l, "error sending request"@) || contains(l, "timed out"@)
        || contains(l, "timeout"@) || contains(l, "connection"@)
}

/// Whether an error message says the provider's own retries ran out.
pub open spec fn retries_exhausted(msg: Seq<char>) -> bool {
    contains(spec_to_lowercase(msg), "auto-retry exhausted"@)
}

/// Most automatic `continue`s after provider hiccups.
pub open spec fn max_auto_continues() -> u8 {
    3
}

/// What the chat does with an agent error.
pub enum ErrorAction {
    /// Post `notice`, count this as automatic continue number `attempt`,
    /// and send `continue` (status `thinking...`).
    AutoContinue { attempt: u8, notice: String },
    /// Post `notice`, reset the count, and hand control back (status
    /// `recover`).
    GiveUp { notice: String },
    /// Append `suffix` to the last message (status `error`).
    Inline { suffix: String },
}

/// Value of an error action: variant, attempt and text.
pub open spec fn error_action_view(a: ErrorAction) -> (int, int, Seq<char>) {
    match a {
        ErrorAction::AutoContinue { attempt, notice } => (0, attempt as int, notice@),
        ErrorAction::GiveUp { notice } => (1, 0, notice@),
        ErrorAction::Inline { suffix } => (2, 0, suffix@),
    }
}

/// A transport failure is retried automatically up to three times (unless
/// the provider already gave up), then handed back; other errors are shown
/// inline.
pub open spec fn error_reply(msg: Seq<char>, continues: u8) -> (int, int, Seq<char>) {
    if transport_error(msg) && !retries_exhausted(msg) && continues < max_auto_continues() {
        let n = continues + 1;
        (0, n, "Provider hiccup: "@ + msg + "\nAuto-continuing ("@ + decimal(n as nat) + "/3)\u{2026}"@)
    } else if transport_error(msg) {
        (
            1,
            0,
            "Provider hiccup: "@ + msg
                + "\nAuto-retry exhausted \u{2014} type continue or /handoff (session stayed open)."@,
        )
    } else {
        (2, 0, "\n\u{274c} Error: "@ + msg)
    }
}

fn has_text(l: &Vec<char>, lit: &str) -> (r: bool)
    ensures
        r == contains(l@, lit@),
{
    let p = chars_of(lit);
    contains_exec(l, &p)
}

/// Decide what to do with an agent error, given how many automatic
/// continues were already made.
pub fn error_action(message: &str, continues: u8) -> (r: ErrorAction)
    ensures
        error_action_view(r) == error_reply(message@, continues),
{
    let lower = to_lowercase(message);
    let l = chars_of(lower.as_str());
    let transport = has_text(&l, "stream error") || has_text(&l, "error sending request") || has_text(
        &l,
        "timed out",
    ) || has_text(&l, "timeout") || has_text(&l, "connection");
    let exhausted = has_text(&l, "auto-retry exhausted");
    if transport && !exhausted && continues < 3 {
        let n = continues + 1;
        let mut t = "Provider hiccup: ".to_string();
        t.append(message);
        t.append("\nAuto-continuing (");
        push_decimal(&mut t, n as u64);
        t.append("/3)\u{2026}");
        ErrorAction::AutoContinue { attempt: n, notice: t }
    } else if transport {
        let mut t = "Provider hiccup: ".to_string();
        t.append(message);
        t.append("\nAuto-retry exhausted \u{2014} type continue or /handoff (session stayed open).");
        ErrorAction::GiveUp { notice: t }
    } else {
        let mut t = "\n\u{274c} Error: ".to_string();
        t.append(message);
        ErrorAction::Inline { suffix: t }
    }
}

/// `s` with every leading copy of `p` removed (`str::trim_start_matches`).
pub open spec fn strip_prefixes(s: Seq<char>, p: Seq<char>) -> Seq<char>
    decreases s.len(),
{
    if p.len() > 0 && starts_with(s, p) {
        strip_prefixes(s.skip(p.len() as int), p)
    } else {
        s
    }
}

/// What a goal update does to the chat.
pub enum GoalReply {
    /// Post this status report.
    Report(String),
    /// Clear the goal indicator.
    Clear,
    /// Set the indicator and post a notice.
    Achieved { indicator: String, notice: String },
    /// Set the indicator.
    Indicator(String),
}

/// Value of a goal reply.
pub open spec fn goal_reply_view(g: GoalReply) -> (int, Seq<char>, Seq<char>) {
    match g {
        GoalReply::Report(t) => (0, t@, seq![]),
        GoalReply::Clear => (1, seq![], seq![]),
        GoalReply::Achieved { indicator, notice } => (2, indicator@, notice@),
        GoalReply::Indicator(t) => (3, t@, seq![]),
    }
}

/// A `STATUS` report is posted; an empty summary clears the indicator;
/// otherwise the indicator names the goal's state.
pub open spec fn goal_reply(summary: Seq<char>) -> (int, Seq<char>, Seq<char>) {
    if starts_with(summary, "STATUS\n"@) {
        (0, strip_prefixes(summary, "STATUS\n"@), seq![])
    } else if summary.len() == 0 {
        (1, seq![], seq![])
    } else if starts_with(summary, "achieved"@) {
        (2, "\u{25ce} goal achieved"@, "\u{25ce} "@ + summary)
    } else if starts_with(summary, "paused"@) {
        (3, "\u{25ce} /goal paused"@, seq![])
    } else if starts_with(summary, "active"@) {
        (3, "\u{25ce} /goal active"@, seq![])
    } else {
        (3, "\u{25ce} /goal "@ + summary, seq![])
    }
}

/// React to a goal update.
pub fn goal_update(summary: &str) -> (r: GoalReply)
    ensures
        goal_reply_view(r) == goal_reply(summary@),
{
    let v = chars_of(summary);
    let status = chars_of("STATUS\n");
    if starts_with_exec(&v, &status) {
        let mut i: usize = 0;
        let mut more = true;
        proof {
            reveal_strlit("STATUS\n");
            assert(v@.skip(0) =~= v@);
        }
        while more
            invariant
                i <= v.len(),
                status@ == "STATUS\n"@,
                status@.len() == 7,
                strip_prefixes(v@, status@) == strip_prefixes(v@.skip(i as int), status@),
                !more ==> strip_prefixes(v@.skip(i as int), status@) == v@.skip(i as int),
            decreases v.len() - i + (if more {
                1int
            } else {
                0int
            }),
        {
            let rest = crate::text::sub_vec(&v, i, v.len());
            proof {
                assert(rest@ =~= v@.skip(i as int));
            }
            if starts_with_exec(&rest, &status) {
                proof {
                    assert(v@.skip(i as int).skip(7) =~= v@.skip(i + 7));
                }
                i += 7;
            } else {
                more = false;
            }
        }
        proof {
            assert(v@.skip(i as int) =~= v@.subrange(i as int, v@.len() as int));
        }
        return GoalReply::Report(string_of(&v, i, v.len()));
    }
    if v.len() == 0 {
        return GoalReply::Clear;
    }
    if starts_with_exec(&v, &chars_of("achieved")) {
        let mut n = "\u{25ce} ".to_string();
        n.append(summary);
        return GoalReply::Achieved { indicator: "\u{25ce} goal achieved".to_string(), notice: n };
    }
    if starts_with_exec(&v, &chars_of("paused")) {
        return GoalReply::Indicator("\u{25ce} /goal paused".to_string());
    }
    if starts_with_exec(&v, &chars_of("active")) {
        return GoalReply::Indicator("\u{25ce} /goal active".to_string());
    }
    let mut t = "\u{25ce} /goal ".to_string();
    t.append(summary);
    GoalReply::Indicator(t)
}

/// Tool output without a leading `Exit code: …` line (kept whole when
/// that line is all there is).
pub open spec fn without_exit_header(full: Seq<char>) -> Seq<char> {
    if starts_with(full, "Exit code: "@) {
        match first_index(full, newline_pred()) {
            Some(i) => full.skip(i + 1),
            None => full,
        }
    } else {
        full
    }
}

/// Newline characters.
pub open spec fn newline_pred() -> spec_fn(char) -> bool {
    |c: char| c == '\n'
}

/// Drop a leading `Exit code: …` line.
pub fn strip_exit_header(full: &str) -> (r: String)
    ensures
        r@ == without_exit_header(full@),
{
    let v = chars_of(full);
    if !starts_with_exec(&v, &chars_of("Exit code: ")) {
        return full.to_string();
    }
    let mut i: usize = 0;
    while i < v.len() && v[i] != '\n'
        invariant
            i <= v.len(),
            v@ == full@,
            forall|j: int| 0 <= j < i ==> !newline_pred()(#[trigger] v@[j]),
        decreases v.len() - i,
    {
        i += 1;
    }
    if i < v.len() {
        proof {
            crate::search::lemma_first_index_is(v@, newline_pred(), i as int);
            assert(v@.subrange(i + 1, v@.len() as int) =~= v@.skip(i + 1));
        }
        string_of(&v, i + 1, v.len())
    } else {
        proof {
            crate::search::lemma_first_index_none(v@, newline_pred());
        }
        full.to_string()
    }
}

/// Lines that report a diagnostic (`error …` / `warn …` after indentation).
pub open spec fn diag_line() -> spec_fn(Seq<char>) -> bool {
    |l: Seq<char>| starts_with(trim_start(l), "error "@) || starts_with(trim_start(l), "warn "@)
}

/// Lines that carry the spill marker.
pub open spec fn marker_line(marker: Seq<char>) -> spec_fn(Seq<char>) -> bool {
    |l: Seq<char>| contains(l, marker)
}

/// Lines that report an exit code.
pub open spec fn exit_line() -> spec_fn(Seq<char>) -> bool {
    |l: Seq<char>| starts_with(l, "Exit code:"@)
}

/// Tools whose output streams to the console.
pub open spec fn console_tool(name: Seq<char>) -> bool {
    name == "bash"@ || name == "repl"@ || name == "task"@
}

/// Tools that write files.
pub open spec fn file_tool(name: Seq<char>) -> bool {
    name == "write"@ || name == "edit"@ || name == "apply_patch"@
}

/// The line found by a search, or a fallback.
pub open spec fn line_or(ls: Seq<Seq<char>>, found: Option<int>, fallback: Seq<char>) -> Seq<char> {
    match found {
        Some(i) => ls[i],
        None => fallback,
    }
}

/// One-line preview of a tool result in the chat: the first diagnostic,
/// the spill notice, the console's exit line, a written file's first line,
/// or the first 100 characters.
pub open spec fn result_preview_text(name: Seq<char>, full: Seq<char>, marker: Seq<char>) -> Seq<char> {
    let ls = lines(full);
    if contains(full, "<diagnostics"@) {
        "\u{26a0} "@ + take_chars(line_or(ls, first_index(ls, diag_line()), "LSP diagnostics"@), 90)
    } else if contains(full, marker) {
        "\u{2026} "@ + take_chars(line_or(ls, first_index(ls, marker_line(marker)), "full output spilled"@), 90)
    } else if console_tool(name) {
        "\u{2197} console \u{b7} "@ + line_or(ls, last_index(ls, exit_line()), "done"@)
    } else if file_tool(name) {
        take_chars(line_or(ls, if ls.len() > 0 { Some(0int) } else { None }, seq![]), 80)
    } else {
        take_chars(full, 100)
    }
}

fn is_diag_line(l: &Vec<char>) -> (r: bool)
    ensures
        r == diag_line()(l@),
{
    let (lo, hi) = trim_bounds(l);
    let t = crate::text::sub_vec(l, lo, l.len());
    starts_with_exec(&t, &chars_of("error ")) || starts_with_exec(&t, &chars_of("warn "))
}

/// The chat preview of a tool result; `marker` is the notice that output
/// was spilled to a file.
pub fn result_preview(name: &str, full: &str, marker: &str) -> (r: String)
    ensures
        r@ == result_preview_text(name@, full@, marker@),
{
    let v = chars_of(full);
    let ls = lines_of(&v);
    let ghost lv = views(ls@);
    if has_text(&v, "<diagnostics") {
        let mut i: usize = 0;
        while i < ls.len() && !is_diag_line(&ls[i])
            invariant
                i <= ls.len(),
                lv == views(ls@),
                forall|j: int| 0 <= j < i ==> !diag_line()(#[trigger] lv[j]),
            decreases ls.len() - i,
        {
            i += 1;
        }
        let line = if i < ls.len() {
            proof {
                crate::search::lemma_first_index_is(lv, diag_line(), i as int);
            }
            string_of_all(&ls[i])
        } else {
            proof {
                crate::search::lemma_first_index_none(lv, diag_line());
            }
            "LSP diagnostics".to_string()
        };
        let mut t = "\u{26a0} ".to_string();
        t.append(take_str(line.as_str(), 90).as_str());
        return t;
    }
    let m = chars_of(marker);
    if contains_exec(&v, &m) {
        let mut i: usize = 0;
        while i < ls.len() && !contains_exec(&ls[i], &m)
            invariant
                i <= ls.len(),
                lv == views(ls@),
                m@ == marker@,
                forall|j: int| 0 <= j < i ==> !marker_line(marker@)(#[trigger] lv[j]),
            decreases ls.len() - i,
        {
            i += 1;
        }
        let line = if i < ls.len() {
            proof {
                crate::search::lemma_first_index_is(lv, marker_line(marker@), i as int);
            }
            string_of_all(&ls[i])
        } else {
            proof {
                crate::search::lemma_first_index_none(lv, marker_line(marker@));
            }
            "full output spilled".to_string()
        };
        let mut t = "\u{2026} ".to_string();
        t.append(take_str(line.as_str(), 90).as_str());
        return t;
    }
    let nv = chars_of(name);
    let is_console = crate::text::str_eq(name, "bash") || crate::text::str_eq(name, "repl") || crate::text::str_eq(
        name,
        "task",
    );
    if is_console {
        let exit = chars_of("Exit code:");
        let mut k: usize = ls.len();
        while k > 0 && !starts_with_exec(&ls[k - 1], &exit)
            invariant
                k <= ls.len(),
                lv == views(ls@),
                exit@ == "Exit code:"@,
                forall|j: int| k <= j < lv.len() ==> !exit_line()(#[trigger] lv[j]),
            decreases k,
        {
            k -= 1;
        }
        let line = if k > 0 {
            proof {
                crate::search::lemma_last_index_is(lv, exit_line(), k - 1);
            }
            string_of_all(&ls[k - 1])
        } else {
            proof {
                crate::search::lemma_last_index_none(lv, exit_line());
            }
            "done".to_string()
        };
        let mut t = "\u{2197} console \u{b7} ".to_string();
        t.append(line.as_str());
        return t;
    }
    let is_file = crate::text::str_eq(name, "write") || crate::text::str_eq(name, "edit") || crate::text::str_eq(
        name,
        "apply_patch",
    );
    if is_file {
        let head = if ls.len() > 0 {
            string_of_all(&ls[0])
        } else {
            String::new()
        };
        return take_str(head.as_str(), 80);
    }
    take_str(full, 100)
}

/// An empty assistant row.
pub open spec fn empty_assistant(show_thinking: bool) -> ChatRowView {
    ChatRowView { role: "assistant"@, text: seq![], thinking: None, show_thinking, tool_blocks: seq![] }
}

/// The rows with an assistant row last: unchanged when the last row is the
/// assistant's, else with an empty one appended.
pub open spec fn with_assistant_last(rows: Seq<ChatRowView>, show_thinking: bool) -> Seq<ChatRowView> {
    if rows.len() > 0 && rows.last().role == "assistant"@ {
        rows
    } else {
        rows.push(empty_assistant(show_thinking))
    }
}

/// Streamed text goes to the assistant's (possibly new) last row.
pub open spec fn after_text_delta(rows: Seq<ChatRowView>, text: Seq<char>) -> Seq<ChatRowView> {
    let b = with_assistant_last(rows, false);
    let last = b.last();
    b.update(b.len() - 1, ChatRowView { text: last.text + text, ..last })
}

/// Streamed thinking goes to the assistant's last row; it is shown when it
/// first appears (a later hide is respected).
pub open spec fn after_thinking_delta(rows: Seq<ChatRowView>, thinking: Seq<char>) -> Seq<ChatRowView> {
    let b = with_assistant_last(rows, true);
    let last = b.last();
    let prev = match last.thinking {
        Some(t) => t,
        None => seq![],
    };
    b.update(
        b.len() - 1,
        ChatRowView {
            thinking: Some(prev + thinking),
            show_thinking: if prev.len() == 0 {
                true
            } else {
                last.show_thinking
            },
            ..last
        },
    )
}

/// A tool block goes under the assistant's last row.
pub open spec fn after_tool_block(rows: Seq<ChatRowView>, block: ToolBlockView) -> Seq<ChatRowView> {
    let b = with_assistant_last(rows, false);
    let last = b.last();
    b.update(b.len() - 1, ChatRowView { tool_blocks: last.tool_blocks.push(block), ..last })
}

/// Make sure the last row is the assistant's.
fn ensure_assistant_last(messages: &mut Vec<ChatMessage>, show_thinking: bool)
    ensures
        chat_views(final(messages)@) == with_assistant_last(chat_views(old(messages)@), show_thinking),
{
    let is_assistant = messages.len() > 0 && crate::text::str_eq(messages[messages.len() - 1].role.as_str(), "assistant");
    if !is_assistant {
        let ghost before = messages@;
        let m = ChatMessage {
            role: "assistant".to_string(),
            text: String::new(),
            thinking: None,
            show_thinking,
            tool_blocks: Vec::new(),
        };
        messages.push(m);
        proof {
            assert(m@.tool_blocks =~= Seq::<ToolBlockView>::empty());
            assert(m@ == empty_assistant(show_thinking));
            assert(chat_views(messages@) =~= chat_views(before).push(m@));
        }
    }
}

/// Append streamed text.
pub fn append_text_delta(messages: &mut Vec<ChatMessage>, text: &str)
    ensures
        chat_views(final(messages)@) == after_text_delta(chat_views(old(messages)@), text@),
{
    ensure_assistant_last(messages, false);
    let ghost b = chat_views(messages@);
    let mut last = messages.pop().unwrap();
    last.text.append(text);
    let ghost lv = last@;
    messages.push(last);
    proof {
        assert(chat_views(messages@) =~= b.update(b.len() - 1, lv));
    }
}

/// Append streamed thinking.
pub fn append_thinking_delta(messages: &mut Vec<ChatMessage>, thinking: &str)
    ensures
        chat_views(final(messages)@) == after_thinking_delta(chat_views(old(messages)@), thinking@),
{
    ensure_assistant_last(messages, true);
    let ghost b = chat_views(messages@);
    let mut last = messages.pop().unwrap();
    let prev = match last.thinking {
        Some(t) => t,
        None => String::new(),
    };
    let was_empty = prev.as_str().is_empty();
    let mut t = prev;
    t.append(thinking);
    last.thinking = Some(t);
    if was_empty {
        last.show_thinking = true;
    }
    let ghost lv = last@;
    messages.push(last);
    proof {
        assert(chat_views(messages@) =~= b.update(b.len() - 1, lv));
    }
}

/// Add a tool block under the assistant's row.
pub fn push_tool_block(messages: &mut Vec<ChatMessage>, block: ToolBlock)
    ensures
        chat_views(final(messages)@) == after_tool_block(chat_views(old(messages)@), block@),
{
    ensure_assistant_last(messages, false);
    let ghost b = chat_views(messages@);
    let mut last = messages.pop().unwrap();
    let ghost tb = last@.tool_blocks;
    let ghost bv = block@;
    last.tool_blocks.push(block);
    proof {
        assert(last@.tool_blocks =~= tb.push(bv));
    }
    let ghost lv = last@;
    messages.push(last);
    proof {
        assert(chat_views(messages@) =~= b.update(b.len() - 1, lv));
    }
}

/// Append `suffix` to the last row's text, if there is a row.
pub fn append_to_last(messages: &mut Vec<ChatMessage>, suffix: &str)
    ensures
        chat_views(final(messages)@) == (if old(messages)@.len() == 0 {
            chat_views(old(messages)@)
        } else {
            let last = chat_views(old(messages)@).last();
            chat_views(old(messages)@).update(
                old(messages)@.len() - 1,
                ChatRowView { text: last.text + suffix@, ..last },
            )
        }),
{
    if messages.len() == 0 {
        return;
    }
    let ghost b = chat_views(messages@);
    let mut last = messages.pop().unwrap();
    last.text.append(suffix);
    let ghost lv = last@;
    messages.push(last);
    proof {
        assert(chat_views(messages@) =~= b.update(b.len() - 1, lv));
    }
}

/// The tool block for a finished tool call: its preview, whether it opens
/// expanded (diagnostics, spilled output or an error) and whether it is
/// shown as an error (an error or diagnostics).
pub open spec fn result_block(name: Seq<char>, full: Seq<char>, marker: Seq<char>, is_error: bool) -> ToolBlockView {
    let diag = contains(full, "<diagnostics"@);
    ToolBlockView {
        name,
        preview: result_preview_text(name, full, marker),
        full,
        expanded: diag || contains(full, marker) || is_error,
        is_error: is_error || diag,
    }
}

/// Build the tool block for a finished tool call.
pub fn tool_result_block(name: &str, full: &str, marker: &str, is_error: bool) -> (r: ToolBlock)
    ensures
        r@ == result_block(name@, full@, marker@, is_error),
{
    let v = chars_of(full);
    let diag = has_text(&v, "<diagnostics");
    let spill = contains_exec(&v, &chars_of(marker));
    ToolBlock {
        name: name.to_string(),
        preview: result_preview(name, full, marker),
        full: full.to_string(),
        expanded: diag || spill || is_error,
        is_error: is_error || diag,
    }
}

/// Streamed text never lands anywhere but the last row, which is then the
/// assistant's and ends with the text; earlier rows are untouched.
pub proof fn lemma_text_delta_appends(rows: Seq<ChatRowView>, text: Seq<char>)
    ensures
        ({
            let r = after_text_delta(rows, text);
            &&& r.last().role == "assistant"@
            &&& r.last().text.len() >= text.len()
            &&& r.last().text.skip(r.last().text.len() - text.len()) == text
            &&& r.len() == rows.len() || r.len() == rows.len() + 1
            &&& forall|i: int| 0 <= i < rows.len() - 1 ==> r[i] == rows[i]
        }),
{
    let r = after_text_delta(rows, text);
    let b = with_assistant_last(rows, false);
    assert(r.last().text == b.last().text + text);
    assert((b.last().text + text).skip(b.last().text.len() as int) =~= text);
}

/// What the chat does with an agent status message (besides showing it).
pub enum StatusAction {
    /// Nothing more.
    Show,
    /// Wait for the agent (it is recovering).
    Wait,
    /// Post `notice`, count automatic continue number `attempt`, and send
    /// `continue`.
    AutoContinue { attempt: u8, notice: String },
    /// Post `notice`, reset the count, and hand control back.
    GiveUp { notice: String },
}

/// Value of a status action: variant, attempt and text.
pub open spec fn status_action_view(a: StatusAction) -> (int, int, Seq<char>) {
    match a {
        StatusAction::Show => (0, 0, seq![]),
        StatusAction::Wait => (1, 0, seq![]),
        StatusAction::AutoContinue { attempt, notice } => (2, attempt as int, notice@),
        StatusAction::GiveUp { notice } => (3, 0, notice@),
    }
}

/// A failed stream whose session is ready is continued automatically up
/// to three times, then handed back; a stream that is recovering is waited
/// for.
pub open spec fn status_reply(msg: Seq<char>, continues: u8) -> (int, int, Seq<char>) {
    if contains(msg, "stream failed"@) || contains(msg, "recovering"@) {
        if contains(msg, "stream failed"@) && contains(msg, "session ready"@) {
            if continues < max_auto_continues() {
                let n = continues + 1;
                (2, n, "stream failed \u{2014} auto-continuing ("@ + decimal(n as nat) + "/3)\u{2026}"@)
            } else {
                (3, 0, "stream failed \u{2014} auto-retry exhausted; type continue or /handoff"@)
            }
        } else {
            (1, 0, seq![])
        }
    } else {
        (0, 0, seq![])
    }
}

/// Decide what to do with an agent status message.
pub fn status_action(message: &str, continues: u8) -> (r: StatusAction)
    ensures
        status_action_view(r) == status_reply(message@, continues),
{
    let v = chars_of(message);
    let failed = has_text(&v, "stream failed");
    if !(failed || has_text(&v, "recovering")) {
        return StatusAction::Show;
    }
    if failed && has_text(&v, "session ready") {
        if continues < 3 {
            let n = continues + 1;
            let mut t = "stream failed \u{2014} auto-continuing (".to_string();
            push_decimal(&mut t, n as u64);
            t.append("/3)\u{2026}");
            StatusAction::AutoContinue { attempt: n, notice: t }
        } else {
            StatusAction::GiveUp {
                notice: "stream failed \u{2014} auto-retry exhausted; type continue or /handoff".to_string(),
            }
        }
    } else {
        StatusAction::Wait
    }
}

/// Automatic continues never exceed three: an attempt is only granted
/// below the limit and counts one more.
pub proof fn lemma_auto_continue_bounded(msg: Seq<char>, continues: u8)
    ensures
        error_reply(msg, continues).0 == 0 ==> error_reply(msg, continues).1 == continues + 1 <= 3,
        status_reply(msg, continues).0 == 2 ==> status_reply(msg, continues).1 == continues + 1 <= 3,
        continues >= 3 ==> error_reply(msg, continues).0 != 0 && status_reply(msg, continues).0 != 2,
{
}


/// A streamed text delta as the chat takes it: appended to the agent's
/// last row, and the view follows the bottom again.
pub fn on_text_delta(messages: &mut Vec<ChatMessage>, follow_bottom: &mut bool, text: &str)
    ensures
        chat_views(final(messages)@) == after_text_delta(chat_views(old(messages)@), text@),
        *final(follow_bottom),
{
    append_text_delta(messages, text);
    *follow_bottom = true;
}

} // verus!

