//! The header line: session state, provider and model, mode and session
//! notes on the left, token count and cost on the right, fitted to the
//! terminal's width.

use vstd::prelude::*;
use crate::status::{state_icon, state_label, SessionUiState};
use crate::text::{chars_of, decimal, ellipsize, ellipsized, push_decimal};
use crate::chat_view::InputMode;
use crate::keys::{binding_or_empty, hint_text, KeyMap};
use crate::wrap::{text_of, SpanView};

verus! {

/// How a header piece is drawn.
#[derive(Debug, Clone, Copy, PartialEq, Eq, Structural)]
pub enum HeaderTone {
    /// The state chip, in the state's color.
    Chip(SessionUiState),
    /// Separators and the session id.
    Dim,
    /// Provider and model, the title, a cut-down left side.
    Subtext,
    /// Mode and goal.
    Accent,
    /// Depth and token count.
    Faint,
    /// The deep-context marker.
    Deep,
    /// Approval mode and attach notes.
    Warn,
    /// Padding.
    Plain,
}

/// A piece of the header: text and tone.
#[derive(Debug, Clone)]
pub struct HeaderSpan {
    pub text: String,
    pub tone: HeaderTone,
}

/// Views of header pieces.
pub open spec fn header_views(s: Seq<HeaderSpan>) -> Seq<SpanView<HeaderTone>> {
    s.map_values(|h: HeaderSpan| (h.text@, h.tone))
}

/// What the header shows.
#[derive(Debug, Clone)]
pub struct HeaderInfo {
    pub state: SessionUiState,
    pub provider: String,
    pub model: String,
    pub mode: String,
    pub depth: u32,
    pub deep: bool,
    pub yolo: String,
    pub session_short: String,
    pub title: Option<String>,
    pub goal: String,
    pub attach: String,
    pub tokens: String,
    pub cost: String,
}

/// `n` spaces.
pub open spec fn spaces(n: nat) -> Seq<char> {
    Seq::new(n, |i: int| ' ')
}

/// One piece when `show`, else none.
pub open spec fn piece_if(show: bool, text: Seq<char>, tone: HeaderTone) -> Seq<SpanView<HeaderTone>> {
    if show {
        seq![(text, tone)]
    } else {
        seq![]
    }
}

/// The left side: state chip, `provider/model`, mode, then the depth (when
/// nested), deep marker, approval mode, session id, quoted title (cut to 28
/// characters), goal and attach notes, each only when there is one.
pub open spec fn header_left(h: HeaderInfo) -> Seq<SpanView<HeaderTone>> {
    let title = match h.title {
        Some(t) => t@,
        None => seq![],
    };
    seq![
        (state_icon(h.state) + " "@, HeaderTone::Chip(h.state)),
        (state_label(h.state), HeaderTone::Chip(h.state)),
        (" \u{b7} "@, HeaderTone::Dim),
        (h.provider@ + "/"@ + h.model@, HeaderTone::Subtext),
        (" \u{b7} "@, HeaderTone::Dim),
        (h.mode@, HeaderTone::Accent),
    ] + piece_if(h.depth > 0, " d"@ + decimal(h.depth as nat), HeaderTone::Faint) + piece_if(
        h.deep,
        " [D]"@,
        HeaderTone::Deep,
    ) + piece_if(h.yolo@.len() > 0, " "@ + h.yolo@, HeaderTone::Warn) + seq![
        (" "@ + h.session_short@, HeaderTone::Dim),
    ] + piece_if(title.len() > 0, " \""@ + ellipsized(title, 28) + "\""@, HeaderTone::Subtext) + piece_if(
        h.goal@.len() > 0,
        " "@ + h.goal@,
        HeaderTone::Accent,
    ) + piece_if(h.attach@.len() > 0, " "@ + h.attach@, HeaderTone::Warn)
}

/// `a - b`, or 0.
pub open spec fn sat(a: int, b: int) -> nat {
    if a > b {
        (a - b) as nat
    } else {
        0
    }
}

/// The header fitted to `max` columns: the left side padded so the right
/// side (tokens, then cost) ends at the edge; when both do not fit, the
/// left side is cut (with an ellipsis) to leave room for the right one.
pub open spec fn header_line(h: HeaderInfo, max: nat) -> Seq<SpanView<HeaderTone>> {
    let left = header_left(h);
    let lw = text_of(left).len();
    let rw = h.tokens@.len() + h.cost@.len();
    let pad = sat(sat(max as int, lw as int) as int, rw as int);
    let body = if pad > 0 {
        left.push((spaces(pad), HeaderTone::Plain))
    } else if lw + rw > max {
        let cut = ellipsized(text_of(left), sat(sat(max as int, rw as int) as int, 1));
        let gap = sat(sat(max as int, cut.len() as int) as int, rw as int);
        seq![(cut, HeaderTone::Subtext)] + piece_if(gap > 0, spaces(gap), HeaderTone::Plain)
    } else {
        left
    };
    body + piece_if(h.tokens@.len() > 0, h.tokens@, HeaderTone::Faint) + piece_if(
        h.cost@.len() > 0,
        h.cost@,
        HeaderTone::Dim,
    )
}

fn push_span(out: &mut Vec<HeaderSpan>, text: String, tone: HeaderTone)
    ensures
        header_views(final(out)@) == header_views(old(out)@).push((text@, tone)),
{
    let ghost before = out@;
    out.push(HeaderSpan { text, tone });
    proof {
        assert(header_views(out@) =~= header_views(before).push((text@, tone)));
    }
}

fn cat(a: &str, b: &str) -> (r: String)
    ensures
        r@ == a@ + b@,
{
    let mut s = a.to_string();
    s.append(b);
    s
}

fn spaces_exec(n: usize) -> (r: String)
    ensures
        r@ == spaces(n as nat),
{
    let mut s = String::new();
    let mut i: usize = 0;
    while i < n
        invariant
            i <= n,
            s@ == spaces(i as nat),
        decreases n - i,
    {
        s.push(' ');
        proof {
            assert(s@ =~= spaces((i + 1) as nat));
        }
        i += 1;
    }
    s
}

fn text_width(v: &Vec<HeaderSpan>) -> (r: (String, usize))
    ensures
        r.0@ == text_of(header_views(v@)),
        r.1 == r.0@.len(),
{
    let ghost hv = header_views(v@);
    let mut s = String::new();
    let mut i: usize = 0;
    proof {
        assert(hv.take(0) =~= Seq::<SpanView<HeaderTone>>::empty());
    }
    while i < v.len()
        invariant
            i <= v.len(),
            hv == header_views(v@),
            s@ == text_of(hv.take(i as int)),
        decreases v.len() - i,
    {
        s.append(v[i].text.as_str());
        proof {
            assert(hv.take(i + 1).drop_last() =~= hv.take(i as int));
            assert(hv.take(i + 1).last() == hv[i as int]);
        }
        i += 1;
    }
    proof {
        assert(hv.take(v.len() as int) =~= hv);
    }
    let n = chars_of(s.as_str()).len();
    (s, n)
}

/// The left side of the header.
pub fn header_left_spans(h: &HeaderInfo) -> (r: Vec<HeaderSpan>)
    ensures
        header_views(r@) == header_left(*h),
{
    let mut out: Vec<HeaderSpan> = Vec::new();
    let ghost e = header_views(out@);
    push_span(&mut out, cat(h.state.icon(), " "), HeaderTone::Chip(h.state));
    push_span(&mut out, h.state.label().to_string(), HeaderTone::Chip(h.state));
    push_span(&mut out, " \u{b7} ".to_string(), HeaderTone::Dim);
    let mut pm = cat(h.provider.as_str(), "/");
    pm.append(h.model.as_str());
    push_span(&mut out, pm, HeaderTone::Subtext);
    push_span(&mut out, " \u{b7} ".to_string(), HeaderTone::Dim);
    push_span(&mut out, h.mode.clone(), HeaderTone::Accent);
    let ghost a = header_views(out@);
    if h.depth > 0 {
        let mut d = " d".to_string();
        push_decimal(&mut d, h.depth as u64);
        push_span(&mut out, d, HeaderTone::Faint);
    }
    let ghost b = header_views(out@);
    if h.deep {
        push_span(&mut out, " [D]".to_string(), HeaderTone::Deep);
    }
    let ghost c = header_views(out@);
    if !h.yolo.as_str().is_empty() {
        push_span(&mut out, cat(" ", h.yolo.as_str()), HeaderTone::Warn);
    }
    push_span(&mut out, cat(" ", h.session_short.as_str()), HeaderTone::Dim);
    let ghost d = header_views(out@);
    match &h.title {
        Some(t) => {
            if !t.as_str().is_empty() {
                let mut q = " \"".to_string();
                q.append(ellipsize(t.as_str(), 28).as_str());
                q.append("\"");
                push_span(&mut out, q, HeaderTone::Subtext);
            }
        },
        None => {},
    }
    let ghost f = header_views(out@);
    if !h.goal.as_str().is_empty() {
        push_span(&mut out, cat(" ", h.goal.as_str()), HeaderTone::Accent);
    }
    let ghost g = header_views(out@);
    if !h.attach.as_str().is_empty() {
        push_span(&mut out, cat(" ", h.attach.as_str()), HeaderTone::Warn);
    }
    proof {
        assert(header_views(out@) =~= header_left(*h));
    }
    out
}

/// The header line's pieces for `max_width` columns.
pub fn header_spans(h: &HeaderInfo, max_width: usize) -> (r: Vec<HeaderSpan>)
    ensures
        header_views(r@) == header_line(*h, max_width as nat),
{
    let left = header_left_spans(h);
    let (plain, lw) = text_width(&left);
    let rw1 = chars_of(h.tokens.as_str()).len();
    let rw2 = chars_of(h.cost.as_str()).len();
    let rw: u128 = rw1 as u128 + rw2 as u128;
    let a = if max_width > lw {
        max_width - lw
    } else {
        0
    };
    let pad: usize = if a as u128 > rw {
        (a as u128 - rw) as usize
    } else {
        0
    };
    let mut out = left;
    if pad > 0 {
        push_span(&mut out, spaces_exec(pad), HeaderTone::Plain);
    } else if lw as u128 + rw > max_width as u128 {
        let b: usize = if max_width as u128 > rw {
            (max_width as u128 - rw) as usize
        } else {
            0
        };
        let budget = if b > 1 {
            b - 1
        } else {
            0
        };
        let cut = ellipsize(plain.as_str(), budget);
        let cw = chars_of(cut.as_str()).len();
        let c = if max_width > cw {
            max_width - cw
        } else {
            0
        };
        let gap: usize = if c as u128 > rw {
            (c as u128 - rw) as usize
        } else {
            0
        };
        out = Vec::new();
        proof {
            assert(header_views(out@) =~= Seq::<SpanView<HeaderTone>>::empty());
        }
        push_span(&mut out, cut, HeaderTone::Subtext);
        if gap > 0 {
            push_span(&mut out, spaces_exec(gap), HeaderTone::Plain);
        }
    }
    let ghost body = header_views(out@);
    if !h.tokens.as_str().is_empty() {
        push_span(&mut out, h.tokens.clone(), HeaderTone::Faint);
    }
    let ghost bt = header_views(out@);
    if !h.cost.as_str().is_empty() {
        push_span(&mut out, h.cost.clone(), HeaderTone::Dim);
    }
    proof {
        assert(header_views(out@) =~= header_line(*h, max_width as nat));
    }
    out
}

proof fn lemma_text_concat(a: Seq<SpanView<HeaderTone>>, b: Seq<SpanView<HeaderTone>>)
    ensures
        text_of(a + b) == text_of(a) + text_of(b),
    decreases b.len(),
{
    if b.len() == 0 {
        assert(a + b =~= a);
        assert(text_of(a) + text_of(b) =~= text_of(a));
    } else {
        lemma_text_concat(a, b.drop_last());
        assert((a + b).drop_last() =~= a + b.drop_last());
        assert((a + b).last() == b.last());
    }
}

proof fn lemma_piece_len(show: bool, t: Seq<char>, tone: HeaderTone)
    ensures
        text_of(piece_if(show, t, tone)).len() == if show {
            t.len()
        } else {
            0
        },
{
    let e = Seq::<SpanView<HeaderTone>>::empty();
    assert(text_of(e) == Seq::<char>::empty());
    if show {
        assert(seq![(t, tone)].drop_last() =~= e);
        assert(text_of(seq![(t, tone)]) == text_of(e) + t);
        assert(Seq::<char>::empty() + t =~= t);
    }
}

/// Whenever the token count and cost fit, the header is exactly as wide
/// as the terminal: padded when the left side is short, cut when it is
/// long.
pub proof fn lemma_header_fills_width(h: HeaderInfo, max: nat)
    requires
        h.tokens@.len() + h.cost@.len() < max,
    ensures
        text_of(header_line(h, max)).len() == max,
{
    let left = header_left(h);
    let lw = text_of(left).len();
    let rw = h.tokens@.len() + h.cost@.len();
    let pad = sat(sat(max as int, lw as int) as int, rw as int);
    let tail = piece_if(h.tokens@.len() > 0, h.tokens@, HeaderTone::Faint) + piece_if(
        h.cost@.len() > 0,
        h.cost@,
        HeaderTone::Dim,
    );
    lemma_text_concat(
        piece_if(h.tokens@.len() > 0, h.tokens@, HeaderTone::Faint),
        piece_if(h.cost@.len() > 0, h.cost@, HeaderTone::Dim),
    );
    lemma_piece_len(h.tokens@.len() > 0, h.tokens@, HeaderTone::Faint);
    lemma_piece_len(h.cost@.len() > 0, h.cost@, HeaderTone::Dim);
    assert(text_of(tail).len() == rw);
    let body = if pad > 0 {
        left.push((spaces(pad), HeaderTone::Plain))
    } else if lw + rw > max {
        let cut = ellipsized(text_of(left), sat(sat(max as int, rw as int) as int, 1));
        let gap = sat(sat(max as int, cut.len() as int) as int, rw as int);
        seq![(cut, HeaderTone::Subtext)] + piece_if(gap > 0, spaces(gap), HeaderTone::Plain)
    } else {
        left
    };
    assert(header_line(h, max) == body + tail);
    lemma_text_concat(body, tail);
    if pad > 0 {
        assert(left.push((spaces(pad), HeaderTone::Plain)).drop_last() =~= left);
        assert(text_of(left.push((spaces(pad), HeaderTone::Plain))) == text_of(left) + spaces(pad));
    } else if lw + rw > max {
        let cut = ellipsized(text_of(left), sat(sat(max as int, rw as int) as int, 1));
        let gap = sat(sat(max as int, cut.len() as int) as int, rw as int);
        lemma_text_concat(seq![(cut, HeaderTone::Subtext)], piece_if(gap > 0, spaces(gap), HeaderTone::Plain));
        lemma_piece_len(gap > 0, spaces(gap), HeaderTone::Plain);
        lemma_piece_len(true, cut, HeaderTone::Subtext);
        assert(piece_if(true, cut, HeaderTone::Subtext) == seq![(cut, HeaderTone::Subtext)]);
        assert(cut.len() <= sat(sat(max as int, rw as int) as int, 1));
    } else {
        assert(lw + rw == max);
    }
}

/// How a footer piece is drawn.
#[derive(Debug, Clone, Copy, PartialEq, Eq, Structural)]
pub enum FooterTone {
    Hints,
    Plain,
    Status,
    Spinner,
}

/// The footer: the contextual hints, then the status (unless empty or
/// `ready`), then the spinner (when there is one).
pub open spec fn footer_of(hints: Seq<char>, status: Seq<char>, spinner: Seq<char>) -> Seq<(Seq<char>, FooterTone)> {
    seq![(hints, FooterTone::Hints)] + (if status.len() > 0 && status != "ready"@ {
        seq![("  "@, FooterTone::Plain), (status, FooterTone::Status)]
    } else {
        seq![]
    }) + (if spinner.len() > 0 {
        seq![(spinner, FooterTone::Spinner)]
    } else {
        seq![]
    })
}

/// The footer's pieces.
pub fn footer_spans(hints: &str, status: &str, spinner: &str) -> (r: Vec<(String, FooterTone)>)
    ensures
        r@.map_values(|p: (String, FooterTone)| (p.0@, p.1)) == footer_of(hints@, status@, spinner@),
{
    let mut out: Vec<(String, FooterTone)> = Vec::new();
    out.push((hints.to_string(), FooterTone::Hints));
    if !status.is_empty() && !crate::text::str_eq(status, "ready") {
        out.push(("  ".to_string(), FooterTone::Plain));
        out.push((status.to_string(), FooterTone::Status));
    }
    if !spinner.is_empty() {
        out.push((spinner.to_string(), FooterTone::Spinner));
    }
    proof {
        assert(out@.map_values(|p: (String, FooterTone)| (p.0@, p.1)) =~= footer_of(hints@, status@, spinner@));
    }
    out
}

/// Approval mode shown in the header: `YOLO` when every tool is approved,
/// `AUTO` in auto mode, `ASK` while a permission prompt is up, else none.
pub open spec fn approval_text(approved: bool, auto_mode: bool, asking: bool) -> Seq<char> {
    if approved {
        "YOLO"@
    } else if auto_mode {
        "AUTO"@
    } else if asking {
        "ASK"@
    } else {
        seq![]
    }
}

/// The header's approval note.
pub fn approval_label(approved: bool, auto_mode: bool, asking: bool) -> (r: &'static str)
    ensures
        r@ == approval_text(approved, auto_mode, asking),
{
    proof {
        reveal_strlit("");
    }
    if approved {
        "YOLO"
    } else if auto_mode {
        "AUTO"
    } else if asking {
        "ASK"
    } else {
        ""
    }
}

/// How the chat is connected to a fleet seat.
#[derive(Debug, Clone, Copy, PartialEq, Eq, Structural)]
pub enum AttachPhase {
    Follow,
    Attaching,
    Attached,
    Inspect,
}

/// The header's note for a seat the chat is connected to.
pub open spec fn attach_text(phase: AttachPhase, seat: Seq<char>) -> Seq<char> {
    (match phase {
        AttachPhase::Follow => "FOLLOW "@,
        AttachPhase::Attaching => "ATTACHING "@,
        AttachPhase::Attached => "ATTACHED "@,
        AttachPhase::Inspect => "INSPECT "@,
    }) + seat
}

/// The header's note for a seat the chat follows, attaches to or inspects.
pub fn attach_label(phase: AttachPhase, seat: &str) -> (r: String)
    ensures
        r@ == attach_text(phase, seat@),
{
    let mut s = match phase {
        AttachPhase::Follow => "FOLLOW ".to_string(),
        AttachPhase::Attaching => "ATTACHING ".to_string(),
        AttachPhase::Attached => "ATTACHED ".to_string(),
        AttachPhase::Inspect => "INSPECT ".to_string(),
    };
    s.append(seat);
    s
}

/// What the footer's hints depend on.
#[derive(Debug, Clone, Copy, PartialEq, Eq, Structural)]
pub struct FooterContext {
    pub mode: InputMode,
    pub permission_pending: bool,
    pub queued_steers: u32,
    pub tabs: usize,
    pub tab: usize,
    pub ready_beads: usize,
}

/// The footer's key hints: while working, abort / console / steer (with
/// queued steers and the console tab when there are several); when
/// answering, answer / cancel; with a permission prompt, its four keys; in
/// normal mode the key hint line; otherwise the basic keys. Then the count
/// of ready beads (when any) and the language-server summary (when any).
pub open spec fn footer_hints_of(m: Map<Seq<char>, Seq<char>>, c: FooterContext, lsp: Seq<char>) -> Seq<char> {
    footer_base(m, c) + (if c.ready_beads > 0 {
        " \u{b7} beads:"@ + decimal(c.ready_beads as nat) + " ready"@
    } else {
        seq![]
    }) + (if lsp.len() > 0 {
        " "@ + lsp
    } else {
        seq![]
    })
}

/// The footer's hints for the mode and prompts.
pub open spec fn footer_base(m: Map<Seq<char>, Seq<char>>, c: FooterContext) -> Seq<char> {
    if c.mode == InputMode::Waiting {
        " Esc abort \u{b7} Tab console \u{b7} Enter steer"@ + (if c.queued_steers > 0 {
            " \u{b7} queued:"@ + decimal(c.queued_steers as nat)
        } else {
            seq![]
        }) + (if c.tabs > 1 {
            " \u{b7} out:"@ + decimal((c.tab + 1) as nat) + "/"@ + decimal(c.tabs as nat)
        } else {
            seq![]
        })
    } else if c.mode == InputMode::Question {
        " Enter answer \u{b7} Esc cancel"@
    } else if c.permission_pending {
        " ["@ + binding_or_empty(m, "perm_once"@) + "] once \u{b7} ["@ + binding_or_empty(m, "perm_path"@)
            + "] path \u{b7} ["@ + binding_or_empty(m, "perm_always"@) + "] always \u{b7} ["@ + binding_or_empty(
            m,
            "perm_deny"@,
        ) + "] deny"@
    } else if c.mode == InputMode::Normal {
        hint_text(m)
    } else {
        " ^C quit \u{b7} "@ + binding_or_empty(m, "insert"@) + " insert \u{b7} /help \u{b7} /keys"@
    }
}

fn footer_base_exec(keys: &KeyMap, c: FooterContext) -> (r: String)
    requires
        c.tab < usize::MAX,
    ensures
        r@ == footer_base(keys@, c),
{
    if c.mode == InputMode::Waiting {
        let mut t = " Esc abort \u{b7} Tab console \u{b7} Enter steer".to_string();
        if c.queued_steers > 0 {
            t.append(" \u{b7} queued:");
            push_decimal(&mut t, c.queued_steers as u64);
        }
        if c.tabs > 1 {
            t.append(" \u{b7} out:");
            push_decimal(&mut t, (c.tab + 1) as u64);
            t.append("/");
            push_decimal(&mut t, c.tabs as u64);
        }
        t
    } else if c.mode == InputMode::Question {
        " Enter answer \u{b7} Esc cancel".to_string()
    } else if c.permission_pending {
        let mut t = " [".to_string();
        t.append(keys.binding("perm_once"));
        t.append("] once \u{b7} [");
        t.append(keys.binding("perm_path"));
        t.append("] path \u{b7} [");
        t.append(keys.binding("perm_always"));
        t.append("] always \u{b7} [");
        t.append(keys.binding("perm_deny"));
        t.append("] deny");
        t
    } else if c.mode == InputMode::Normal {
        keys.hint_line()
    } else {
        let mut t = " ^C quit \u{b7} ".to_string();
        t.append(keys.binding("insert"));
        t.append(" insert \u{b7} /help \u{b7} /keys");
        t
    }
}

/// The footer's key hints.
pub fn footer_hints(keys: &KeyMap, c: FooterContext, lsp: &str) -> (r: String)
    requires
        c.tab < usize::MAX,
    ensures
        r@ == footer_hints_of(keys@, c, lsp@),
{
    let mut h = footer_base_exec(keys, c);
    if c.ready_beads > 0 {
        h.append(" \u{b7} beads:");
        push_decimal(&mut h, c.ready_beads as u64);
        h.append(" ready");
    }
    if !lsp.is_empty() {
        h.append(" ");
        h.append(lsp);
    }
    h
}

/// Glyph of the tool spinner after `elapsed_ms` milliseconds: a quarter
/// turn every 120 ms.
pub open spec fn spinner_glyph(elapsed_ms: u128) -> char {
    let k = (elapsed_ms / 120) % 4;
    if k == 0 {
        '\u{25d0}'
    } else if k == 1 {
        '\u{25d3}'
    } else if k == 2 {
        '\u{25d1}'
    } else {
        '\u{25d2}'
    }
}

/// The spinner glyph for the time a tool has run.
pub fn spinner_frame(elapsed_ms: u128) -> (r: char)
    ensures
        r == spinner_glyph(elapsed_ms),
{
    let k = (elapsed_ms / 120) % 4;
    if k == 0 {
        '\u{25d0}'
    } else if k == 1 {
        '\u{25d3}'
    } else if k == 2 {
        '\u{25d1}'
    } else {
        '\u{25d2}'
    }
}

} // verus!
