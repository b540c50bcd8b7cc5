//! The chat pane's own decisions: which handler a key goes to, where a
//! click lands, how far the transcript scrolls, and pasted text.

use vstd::prelude::*;
use crate::keys::{KeyInput, KeyInputCode};
use crate::search::{first_index, is_first};
use crate::text::{chars_of, string_of_all};

verus! {

/// Mode of the input line.
#[derive(Debug, Clone, Copy, PartialEq, Eq, Structural)]
pub enum InputMode {
    Normal,
    Insert,
    Waiting,
    ApiKey,
    Question,
}

/// Where a key press goes.
#[derive(Debug, Clone, Copy, PartialEq, Eq, Structural)]
pub enum KeyRoute {
    Exit,
    DismissOverlays,
    OpenPalette,
    HelpKey,
    SettingsKey,
    PaletteKey,
    PermissionKey,
    QuestionKey,
    CycleModel,
    OpenHelp,
    WaitingKey,
    NormalKey,
    InsertKey,
    ApiKeyInput,
}

/// What is open or pending when a key arrives.
#[derive(Debug, Clone, Copy, PartialEq, Eq, Structural)]
pub struct Overlays {
    pub help: bool,
    pub settings: bool,
    pub palette: bool,
    pub permission: bool,
    pub question: bool,
}

/// Whether the key is `c` with Control held (and so on).
pub open spec fn ctrl_char(k: KeyInput, c: char) -> bool {
    k.code == KeyInputCode::Char(c) && k.ctrl
}

/// Ctrl+C quits and Ctrl+K toggles the palette whatever is open; otherwise
/// the topmost overlay or prompt takes the key (help, settings, palette,
/// permission, question); then Ctrl+P cycles models, `?` in normal mode
/// opens help, and the input mode decides.
pub open spec fn key_route(k: KeyInput, o: Overlays, mode: InputMode) -> KeyRoute {
    if ctrl_char(k, 'c') {
        KeyRoute::Exit
    } else if ctrl_char(k, 'k') {
        if o.palette {
            KeyRoute::DismissOverlays
        } else {
            KeyRoute::OpenPalette
        }
    } else if o.help {
        KeyRoute::HelpKey
    } else if o.settings {
        KeyRoute::SettingsKey
    } else if o.palette {
        KeyRoute::PaletteKey
    } else if o.permission {
        KeyRoute::PermissionKey
    } else if o.question {
        KeyRoute::QuestionKey
    } else if ctrl_char(k, 'p') {
        KeyRoute::CycleModel
    } else if k.code == KeyInputCode::Char('?') && mode == InputMode::Normal {
        KeyRoute::OpenHelp
    } else {
        match mode {
            InputMode::Waiting => KeyRoute::WaitingKey,
            InputMode::Normal => KeyRoute::NormalKey,
            InputMode::Insert => KeyRoute::InsertKey,
            InputMode::ApiKey => KeyRoute::ApiKeyInput,
            InputMode::Question => KeyRoute::QuestionKey,
        }
    }
}

fn is_ctrl_char(k: KeyInput, c: char) -> (r: bool)
    ensures
        r == ctrl_char(k, c),
{
    match k.code {
        KeyInputCode::Char(x) => x == c && k.ctrl,
        _ => false,
    }
}

/// Route a key press.
pub fn route_key(key: KeyInput, overlays: Overlays, mode: InputMode) -> (r: KeyRoute)
    ensures
        r == key_route(key, overlays, mode),
{
    if is_ctrl_char(key, 'c') {
        return KeyRoute::Exit;
    }
    if is_ctrl_char(key, 'k') {
        return if overlays.palette {
            KeyRoute::DismissOverlays
        } else {
            KeyRoute::OpenPalette
        };
    }
    if overlays.help {
        return KeyRoute::HelpKey;
    }
    if overlays.settings {
        return KeyRoute::SettingsKey;
    }
    if overlays.palette {
        return KeyRoute::PaletteKey;
    }
    if overlays.permission {
        return KeyRoute::PermissionKey;
    }
    if overlays.question {
        return KeyRoute::QuestionKey;
    }
    if is_ctrl_char(key, 'p') {
        return KeyRoute::CycleModel;
    }
    let question_mark = match key.code {
        KeyInputCode::Char(x) => x == '?',
        _ => false,
    };
    if question_mark && mode == InputMode::Normal {
        return KeyRoute::OpenHelp;
    }
    match mode {
        InputMode::Waiting => KeyRoute::WaitingKey,
        InputMode::Normal => KeyRoute::NormalKey,
        InputMode::Insert => KeyRoute::InsertKey,
        InputMode::ApiKey => KeyRoute::ApiKeyInput,
        InputMode::Question => KeyRoute::QuestionKey,
    }
}

/// Ctrl+C quits whatever is open and whatever the input mode.
pub proof fn lemma_ctrl_c_always_exits(o: Overlays, mode: InputMode, alt: bool)
    ensures
        key_route(KeyInput { code: KeyInputCode::Char('c'), ctrl: true, alt }, o, mode) == KeyRoute::Exit,
{
}

/// While the permission prompt is up and no help, settings or palette
/// overlay covers it, every key but Ctrl+C and Ctrl+K goes to the prompt.
pub proof fn lemma_permission_prompt_takes_keys(k: KeyInput, o: Overlays, mode: InputMode)
    requires
        o.permission,
        !o.help && !o.settings && !o.palette,
        !ctrl_char(k, 'c'),
        !ctrl_char(k, 'k'),
    ensures
        key_route(k, o, mode) == KeyRoute::PermissionKey,
{
}

/// `a - b`, or 0.
pub open spec fn sat_sub(a: int, b: int) -> int {
    if a > b {
        a - b
    } else {
        0
    }
}

/// Scroll offset after drawing `total` lines in `height` rows: pinned to
/// the bottom when following (or when the old offset runs past the end),
/// else kept.
pub open spec fn scroll_after(follow: bool, offset: int, height: int, total: int) -> int {
    if follow || offset + height > total {
        sat_sub(total, height)
    } else {
        offset
    }
}

/// New scroll offset and first drawn line.
pub fn chat_scroll(follow_bottom: bool, offset: usize, inner_height: usize, total: usize) -> (r: (usize, usize))
    requires
        offset + inner_height <= usize::MAX,
    ensures
        r.0 == scroll_after(follow_bottom, offset as int, inner_height as int, total as int),
        r.1 == (if r.0 < sat_sub(total as int, inner_height as int) {
            r.0 as int
        } else {
            sat_sub(total as int, inner_height as int)
        }),
{
    let bottom = if total > inner_height {
        total - inner_height
    } else {
        0
    };
    let off = if follow_bottom || offset + inner_height > total {
        bottom
    } else {
        offset
    };
    let start = if off < bottom {
        off
    } else {
        bottom
    };
    (off, start)
}

/// The first drawn line never shows past the end: the drawn window starts
/// at most `height` lines before the end (when there are that many).
pub proof fn lemma_scroll_window(follow: bool, offset: int, height: int, total: int)
    requires
        0 <= offset,
        0 <= height,
        0 <= total,
    ensures
        ({
            let off = scroll_after(follow, offset, height, total);
            let start = if off < sat_sub(total, height) {
                off
            } else {
                sat_sub(total, height)
            };
            &&& 0 <= start <= sat_sub(total, height)
            &&& follow ==> start == sat_sub(total, height)
        }),
{
}

/// Where a click on a transcript line lands.
#[derive(Debug, Clone, Copy, PartialEq, Eq, Structural)]
pub enum ClickTarget {
    /// Toggle the thinking of message `msg`.
    Thinking { msg: usize },
    /// Toggle tool block `tool` of message `msg`.
    Tool { msg: usize, tool: usize },
    Nothing,
}

/// Thinking headers on line `line`.
pub open spec fn thinking_on(line: usize) -> spec_fn((usize, usize)) -> bool {
    |t: (usize, usize)| t.0 == line
}

/// Tool headers on line `line`.
pub open spec fn tool_on(line: usize) -> spec_fn((usize, usize, usize)) -> bool {
    |t: (usize, usize, usize)| t.0 == line
}

/// A click on a transcript line toggles the first thinking header drawn
/// there, else the first tool header, else nothing.
pub open spec fn click_on(
    thinking: Seq<(usize, usize)>,
    tools: Seq<(usize, usize, usize)>,
    line: usize,
) -> ClickTarget {
    match first_index(thinking, thinking_on(line)) {
        Some(i) => ClickTarget::Thinking { msg: thinking[i].1 },
        None => match first_index(tools, tool_on(line)) {
            Some(j) => ClickTarget::Tool { msg: tools[j].1, tool: tools[j].2 },
            None => ClickTarget::Nothing,
        },
    }
}

/// What a click on transcript line `line` toggles.
pub fn click_target(thinking: &Vec<(usize, usize)>, tools: &Vec<(usize, usize, usize)>, line: usize) -> (r:
    ClickTarget)
    ensures
        r == click_on(thinking@, tools@, line),
{
    let mut i: usize = 0;
    while i < thinking.len()
        invariant
            i <= thinking.len(),
            forall|j: int| 0 <= j < i ==> !thinking_on(line)(#[trigger] thinking@[j]),
        decreases thinking.len() - i,
    {
        if thinking[i].0 == line {
            proof {
                crate::search::lemma_first_index_is(thinking@, thinking_on(line), i as int);
            }
            return ClickTarget::Thinking { msg: thinking[i].1 };
        }
        i += 1;
    }
    proof {
        crate::search::lemma_first_index_none(thinking@, thinking_on(line));
    }
    let mut k: usize = 0;
    while k < tools.len()
        invariant
            k <= tools.len(),
            first_index(thinking@, thinking_on(line)) is None,
            forall|j: int| 0 <= j < k ==> !tool_on(line)(#[trigger] tools@[j]),
        decreases tools.len() - k,
    {
        if tools[k].0 == line {
            proof {
                crate::search::lemma_first_index_is(tools@, tool_on(line), k as int);
            }
            return ClickTarget::Tool { msg: tools[k].1, tool: tools[k].2 };
        }
        k += 1;
    }
    proof {
        crate::search::lemma_first_index_none(tools@, tool_on(line));
    }
    ClickTarget::Nothing
}

/// Pasted text without line breaks.
pub open spec fn without_breaks(s: Seq<char>) -> Seq<char> {
    s.filter(|c: char| c != '\n' && c != '\r')
}

/// Drop `\n` and `\r` from pasted text.
pub fn strip_line_breaks(text: &str) -> (r: String)
    ensures
        r@ == without_breaks(text@),
{
    let v = chars_of(text);
    let ghost pred = |c: char| c != '\n' && c != '\r';
    let mut out: Vec<char> = Vec::new();
    let mut i: usize = 0;
    proof {
        assert(v@.take(0).filter(pred) =~= Seq::<char>::empty());
    }
    while i < v.len()
        invariant
            i <= v.len(),
            v@ == text@,
            pred == (|c: char| c != '\n' && c != '\r'),
            out@ == v@.take(i as int).filter(pred),
        decreases v.len() - i,
    {
        let c = v[i];
        proof {
            assert(v@.take(i + 1) =~= v@.take(i as int).push(c));
            v@.take(i as int).lemma_filter_push(c, pred);
        }
        if c != '\n' && c != '\r' {
            out.push(c);
        }
        i += 1;
    }
    proof {
        assert(v@.take(v.len() as int) =~= v@);
    }
    string_of_all(&out)
}

} // verus!
