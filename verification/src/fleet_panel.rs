//! City cockpit state: worker seats and the wish → ready → doing flow,
//! board selection, the inspector and its log.

use vstd::prelude::*;
use vstd::multiset::Multiset;
use crate::beads::{
    copy_opt, opt_seq, Bead, BeadKind, BeadStatus, Lifecycle, LogKind, ParsedLogLine, SeatCaste,
    SeatStatus, SeatView,
};
use crate::search::first_index;
use crate::text::{
    chars_of, contains, contains_exec, spec_to_lowercase, starts_with, starts_with_exec, str_eq,
    string_of_all, string_views, to_lowercase,
};

verus! {

/// How much a seat needs attention.
#[derive(Debug, Clone, Copy, PartialEq, Eq, Structural)]
pub enum SeatAttention {
    Blocked,
    Done,
    Working,
    Idle,
    Unknown,
}

/// Attention of a seat from its (lowercased) state text, lifecycle,
/// human-wait flag and current bead.
pub open spec fn attention_of(s: SeatView) -> SeatAttention {
    let st = spec_to_lowercase(s.state);
    let life = match s.lifecycle {
        Some(l) => l,
        None => Lifecycle::Unknown,
    };
    if contains(st, "error"@) || contains(st, "stuck"@) || contains(st, "paused"@) || life
        == Lifecycle::Blocked || s.awaiting_human == Some(true) {
        SeatAttention::Blocked
    } else if contains(st, "done"@) || life == Lifecycle::Done {
        SeatAttention::Done
    } else if contains(st, "running"@) || contains(st, "working"@) || contains(st, "tool"@) || life
        == Lifecycle::Working || s.last_bead is Some {
        SeatAttention::Working
    } else if contains(st, "idle"@) || life == Lifecycle::Idle {
        SeatAttention::Idle
    } else {
        SeatAttention::Unknown
    }
}

/// What a seat's report says of the attention it needs, its state read in
/// lowercase: it is blocked exactly when the state speaks of an error, of
/// being stuck or paused, or the seat reports a blocked lifecycle or waits
/// on a human; otherwise done on `done` or a done lifecycle; otherwise
/// working on `running`, `working` or `tool`, a working lifecycle or a
/// bead in hand; otherwise idle on `idle` or an idle lifecycle; otherwise
/// unknown.
pub proof fn lemma_attention_words(s: SeatView)
    ensures
        ({
            let st = spec_to_lowercase(s.state);
            let blocked = contains(st, "error"@) || contains(st, "stuck"@) || contains(st, "paused"@)
                || s.lifecycle == Some(Lifecycle::Blocked) || s.awaiting_human == Some(true);
            let done = contains(st, "done"@) || s.lifecycle == Some(Lifecycle::Done);
            let working = contains(st, "running"@) || contains(st, "working"@) || contains(st, "tool"@)
                || s.lifecycle == Some(Lifecycle::Working) || s.last_bead is Some;
            let idle = contains(st, "idle"@) || s.lifecycle == Some(Lifecycle::Idle);
            &&& (attention_of(s) == SeatAttention::Blocked <==> blocked)
            &&& (contains(st, "stuck"@) ==> attention_of(s) == SeatAttention::Blocked)
            &&& (!blocked && done ==> attention_of(s) == SeatAttention::Done)
            &&& (!blocked && !done && working ==> attention_of(s) == SeatAttention::Working)
            &&& (!blocked && !done && !working && idle ==> attention_of(s) == SeatAttention::Idle)
            &&& (!blocked && !done && !working && !idle ==> attention_of(s) == SeatAttention::Unknown)
        }),
{
}

/// Attention rank (lower first).
pub open spec fn attention_priority(a: SeatAttention) -> u8 {
    match a {
        SeatAttention::Blocked => 0,
        SeatAttention::Done => 1,
        SeatAttention::Working => 2,
        SeatAttention::Idle => 3,
        SeatAttention::Unknown => 4,
    }
}

/// The board ranks blocked seats first, then done, working, idle, and
/// unknown ones last.
pub proof fn lemma_attention_rank_order()
    ensures
        attention_priority(SeatAttention::Blocked) < attention_priority(SeatAttention::Done),
        attention_priority(SeatAttention::Done) < attention_priority(SeatAttention::Working),
        attention_priority(SeatAttention::Working) < attention_priority(SeatAttention::Idle),
        attention_priority(SeatAttention::Idle) < attention_priority(SeatAttention::Unknown),
{
}

/// Glyph of each attention level.
pub open spec fn attention_icon(a: SeatAttention) -> Seq<char> {
    match a {
        SeatAttention::Blocked => "\u{25cf}"@,
        SeatAttention::Done => "\u{2713}"@,
        SeatAttention::Working => "\u{25d0}"@,
        SeatAttention::Idle => "\u{25cb}"@,
        SeatAttention::Unknown => "\u{b7}"@,
    }
}

fn has(l: &Vec<char>, lit: &str) -> (r: bool)
    ensures
        r == contains(l@, lit@),
{
    let p = chars_of(lit);
    contains_exec(l, &p)
}

impl SeatAttention {
    /// Attention of a seat.
    pub fn from_status(s: &SeatStatus) -> (r: SeatAttention)
        ensures
            r == attention_of(s@),
    {
        let lower = to_lowercase(s.state.as_str());
        let st = chars_of(lower.as_str());
        let life = match s.lifecycle {
            Some(l) => l,
            None => Lifecycle::Unknown,
        };
        let awaiting = match s.awaiting_human {
            Some(b) => b,
            None => false,
        };
        if has(&st, "error") || has(&st, "stuck") || has(&st, "paused") || life == Lifecycle::Blocked
            || awaiting {
            return SeatAttention::Blocked;
        }
        if has(&st, "done") || life == Lifecycle::Done {
            return SeatAttention::Done;
        }
        if has(&st, "running") || has(&st, "working") || has(&st, "tool") || life == Lifecycle::Working
            || s.last_bead.is_some() {
            return SeatAttention::Working;
        }
        if has(&st, "idle") || life == Lifecycle::Idle {
            return SeatAttention::Idle;
        }
        SeatAttention::Unknown
    }

    /// Attention rank (lower first).
    pub fn priority(self) -> (r: u8)
        ensures
            r == attention_priority(self),
    {
        match self {
            SeatAttention::Blocked => 0,
            SeatAttention::Done => 1,
            SeatAttention::Working => 2,
            SeatAttention::Idle => 3,
            SeatAttention::Unknown => 4,
        }
    }

    /// Glyph of the attention level.
    pub fn icon(self) -> (r: &'static str)
        ensures
            r@ == attention_icon(self),
    {
        match self {
            SeatAttention::Blocked => "\u{25cf}",
            SeatAttention::Done => "\u{2713}",
            SeatAttention::Working => "\u{25d0}",
            SeatAttention::Idle => "\u{25cb}",
            SeatAttention::Unknown => "\u{b7}",
        }
    }
}

/// Stage of a flow item.
#[derive(Debug, Clone, Copy, PartialEq, Eq, Structural)]
pub enum FlowStage {
    Wish,
    Ready,
    Doing,
    Done,
}

/// Tag of each stage.
pub open spec fn stage_tag(s: FlowStage) -> Seq<char> {
    match s {
        FlowStage::Wish => "wish"@,
        FlowStage::Ready => "ready"@,
        FlowStage::Doing => "doing"@,
        FlowStage::Done => "done"@,
    }
}

impl FlowStage {
    /// Tag of the stage.
    pub fn tag(self) -> (r: &'static str)
        ensures
            r@ == stage_tag(self),
    {
        match self {
            FlowStage::Wish => "wish",
            FlowStage::Ready => "ready",
            FlowStage::Doing => "doing",
            FlowStage::Done => "done",
        }
    }
}

/// One item of the flow list.
#[derive(Debug, Clone)]
pub struct FlowItem {
    pub id: String,
    pub title: String,
    pub stage: FlowStage,
    pub kind: BeadKind,
}

/// Value of a flow item.
pub struct FlowView {
    pub id: Seq<char>,
    pub title: Seq<char>,
    pub stage: FlowStage,
    pub kind: BeadKind,
}

impl View for FlowItem {
    type V = FlowView;

    open spec fn view(&self) -> FlowView {
        FlowView { id: self.id@, title: self.title@, stage: self.stage, kind: self.kind }
    }
}

impl FlowItem {
    /// A copy with the same value.
    pub fn copy(&self) -> (r: FlowItem)
        ensures
            r@ == self@,
    {
        FlowItem { id: self.id.clone(), title: self.title.clone(), stage: self.stage, kind: self.kind }
    }
}

/// Board section.
#[derive(Debug, Clone, Copy, PartialEq, Eq, Structural)]
pub enum BoardSection {
    Workers,
    Flow,
}

/// Selectable board row.
#[derive(Debug, Clone)]
pub enum BoardRow {
    Worker { seat: SeatStatus },
    Flow { item: FlowItem },
}

/// Value of a board row.
pub enum RowView {
    Worker(SeatView),
    Flow(FlowView),
}

impl View for BoardRow {
    type V = RowView;

    open spec fn view(&self) -> RowView {
        match self {
            BoardRow::Worker { seat } => RowView::Worker(seat@),
            BoardRow::Flow { item } => RowView::Flow(item@),
        }
    }
}

/// Selection key of a row: `w:<seat>` or `f:<bead id>`.
pub open spec fn row_key(r: RowView) -> Seq<char> {
    match r {
        RowView::Worker(s) => "w:"@ + s.seat,
        RowView::Flow(f) => "f:"@ + f.id,
    }
}

impl BoardRow {
    /// Selection key of the row.
    pub fn key(&self) -> (r: String)
        ensures
            r@ == row_key(self@),
    {
        match self {
            BoardRow::Worker { seat } => {
                let mut s = String::from_str("w:");
                s.append(seat.seat.as_str());
                s
            },
            BoardRow::Flow { item } => {
                let mut s = String::from_str("f:");
                s.append(item.id.as_str());
                s
            },
        }
    }

    /// A copy with the same value.
    pub fn copy(&self) -> (r: BoardRow)
        ensures
            r@ == self@,
    {
        match self {
            BoardRow::Worker { seat } => BoardRow::Worker { seat: seat.copy() },
            BoardRow::Flow { item } => BoardRow::Flow { item: item.copy() },
        }
    }
}

/// Badge letter of each caste.
pub open spec fn caste_letter(c: SeatCaste) -> Seq<char> {
    match c {
        SeatCaste::Crew => "C"@,
        SeatCaste::Fleet => "F"@,
        SeatCaste::Review => "R"@,
        SeatCaste::Marshal => "M"@,
        SeatCaste::Seneschal => "S"@,
        SeatCaste::Role => "O"@,
        SeatCaste::Any => "\u{b7}"@,
    }
}

/// Badge letter of a seat's caste.
pub fn caste_badge(caste: SeatCaste) -> (r: &'static str)
    ensures
        r@ == caste_letter(caste),
{
    match caste {
        SeatCaste::Crew => "C",
        SeatCaste::Fleet => "F",
        SeatCaste::Review => "R",
        SeatCaste::Marshal => "M",
        SeatCaste::Seneschal => "S",
        SeatCaste::Role => "O",
        SeatCaste::Any => "\u{b7}",
    }
}

/// A bead is a wish when its notes carry `label:wish` or its lowercased
/// title starts with `wish:` or `wish `.
pub open spec fn is_wish(notes: Seq<char>, title: Seq<char>) -> bool {
    contains(notes, "label:wish"@) || starts_with(spec_to_lowercase(title), "wish:"@) || starts_with(
        spec_to_lowercase(title),
        "wish "@,
    )
}

/// Whether a bead is a wish.
pub fn is_wish_bead(b: &Bead) -> (r: bool)
    ensures
        r == is_wish(b.notes@, b.title@),
{
    let n = chars_of(b.notes.as_str());
    let lower = to_lowercase(b.title.as_str());
    let t = chars_of(lower.as_str());
    let p1 = chars_of("wish:");
    let p2 = chars_of("wish ");
    has(&n, "label:wish") || starts_with_exec(&t, &p1) || starts_with_exec(&t, &p2)
}

/// Short tag of each log kind.
pub open spec fn log_kind_tag(k: LogKind) -> Seq<char> {
    match k {
        LogKind::Tool => "tool"@,
        LogKind::ToolResult => "result"@,
        LogKind::Say => "say"@,
        LogKind::Heartbeat => "hb"@,
        LogKind::Claimed => "claim"@,
        LogKind::Closed => "close"@,
        LogKind::Session => "sess"@,
        LogKind::Error => "err"@,
        LogKind::Status => "stat"@,
        LogKind::Raw => "log"@,
    }
}

/// `[<kind>] <body>`, preceded by `<timestamp> ` when there is one.
pub open spec fn log_line_text(kind: LogKind, ts: Option<Seq<char>>, body: Seq<char>) -> Seq<char> {
    let t = match ts {
        Some(t) => t,
        None => seq![],
    };
    if t.len() == 0 {
        "["@ + log_kind_tag(kind) + "] "@ + body
    } else {
        t + " ["@ + log_kind_tag(kind) + "] "@ + body
    }
}

fn log_kind_str(k: LogKind) -> (r: &'static str)
    ensures
        r@ == log_kind_tag(k),
{
    match k {
        LogKind::Tool => "tool",
        LogKind::ToolResult => "result",
        LogKind::Say => "say",
        LogKind::Heartbeat => "hb",
        LogKind::Claimed => "claim",
        LogKind::Closed => "close",
        LogKind::Session => "sess",
        LogKind::Error => "err",
        LogKind::Status => "stat",
        LogKind::Raw => "log",
    }
}

/// Inspector text of a parsed log line.
pub fn format_parsed_log(line: &ParsedLogLine) -> (r: String)
    ensures
        r@ == log_line_text(line.kind, opt_seq(line.timestamp), line.body@),
{
    let kind = log_kind_str(line.kind);
    let empty_ts = match &line.timestamp {
        Some(t) => t.as_str().is_empty(),
        None => true,
    };
    let mut s = String::new();
    if !empty_ts {
        match &line.timestamp {
            Some(t) => {
                s.append(t.as_str());
            },
            None => {},
        }
        s.append(" [");
    } else {
        s.append("[");
    }
    s.append(kind);
    s.append("] ");
    s.append(line.body.as_str());
    s
}

/// Short name of each bead status.
pub fn _bead_status_short(st: BeadStatus) -> (r: &'static str)
    ensures
        r@ == (match st {
            BeadStatus::Open => "open"@,
            BeadStatus::Claimed => "claim"@,
            BeadStatus::Blocked => "block"@,
            BeadStatus::Gated => "gate"@,
            BeadStatus::Closed => "done"@,
        }),
{
    match st {
        BeadStatus::Open => "open",
        BeadStatus::Claimed => "claim",
        BeadStatus::Blocked => "block",
        BeadStatus::Gated => "gate",
        BeadStatus::Closed => "done",
    }
}

/// Row kinds of the list-style city board.
#[derive(Debug, Clone)]
pub enum CityRow {
    Header { title: String },
    Action { id: &'static str, label: String },
    Worker { seat: SeatStatus },
    Wish { bead: Bead },
    Ready { bead: Bead },
    Hint { text: String },
}

impl CityRow {
    /// Whether the row can be selected.
    pub fn selectable(&self) -> (r: bool)
        ensures
            r == (self is Worker || self is Wish || self is Ready || self is Action),
    {
        match self {
            CityRow::Worker { .. } | CityRow::Wish { .. } | CityRow::Ready { .. } | CityRow::Action {
                ..
            } => true,
            _ => false,
        }
    }
}

/// Views of a list of seats.
pub open spec fn seat_views(s: Seq<SeatStatus>) -> Seq<SeatView> {
    s.map_values(|x: SeatStatus| x@)
}

/// Views of a list of flow items.
pub open spec fn flow_views(s: Seq<FlowItem>) -> Seq<FlowView> {
    s.map_values(|x: FlowItem| x@)
}

/// Views of a list of board rows.
pub open spec fn row_views(s: Seq<BoardRow>) -> Seq<RowView> {
    s.map_values(|x: BoardRow| x@)
}

/// View of an optional seat.
pub open spec fn opt_seat(o: Option<SeatStatus>) -> Option<SeatView> {
    match o {
        Some(s) => Some(s@),
        None => None,
    }
}

/// Seats whose attention rank is `k`.
pub open spec fn has_priority(k: u8) -> spec_fn(SeatView) -> bool {
    |s: SeatView| attention_priority(attention_of(s)) == k
}

/// Seats ordered by attention rank, keeping the given order within a rank
/// (a stable sort by rank).
pub open spec fn by_attention(s: Seq<SeatView>) -> Seq<SeatView> {
    s.filter(has_priority(0)) + s.filter(has_priority(1)) + s.filter(has_priority(2)) + s.filter(
        has_priority(3),
    ) + s.filter(has_priority(4))
}

/// The seats of ranks below `k`, rank by rank.
pub open spec fn ranks_below(s: Seq<SeatView>, k: nat) -> Seq<SeatView>
    decreases k,
{
    if k == 0 {
        seq![]
    } else {
        ranks_below(s, (k - 1) as nat) + s.filter(has_priority((k - 1) as u8))
    }
}

proof fn lemma_ranks_below_all(s: Seq<SeatView>)
    ensures
        ranks_below(s, 5) == by_attention(s),
{
    reveal_with_fuel(ranks_below, 6);
    assert(ranks_below(s, 5) =~= by_attention(s));
}

/// Seats sorted by attention rank, stable.
pub fn sort_by_attention(seats: &Vec<SeatStatus>) -> (r: Vec<SeatStatus>)
    ensures
        seat_views(r@) == by_attention(seat_views(seats@)),
{
    let ghost sv = seat_views(seats@);
    let mut out: Vec<SeatStatus> = Vec::new();
    let mut k: u8 = 0;
    proof {
        assert(seat_views(out@) =~= ranks_below(sv, 0));
    }
    while k < 5
        invariant
            k <= 5,
            sv == seat_views(seats@),
            seat_views(out@) == ranks_below(sv, k as nat),
        decreases 5 - k,
    {
        let mut i: usize = 0;
        proof {
            assert(sv.take(0).filter(has_priority(k)) =~= Seq::<SeatView>::empty());
            assert(seat_views(out@) =~= ranks_below(sv, k as nat) + sv.take(0).filter(has_priority(k)));
        }
        while i < seats.len()
            invariant
                k < 5,
                i <= seats.len(),
                sv == seat_views(seats@),
                seat_views(out@) == ranks_below(sv, k as nat) + sv.take(i as int).filter(has_priority(k)),
            decreases seats.len() - i,
        {
            let p = SeatAttention::from_status(&seats[i]).priority();
            proof {
                assert(sv.take(i + 1) =~= sv.take(i as int).push(sv[i as int]));
                sv.take(i as int).lemma_filter_push(sv[i as int], has_priority(k));
            }
            if p == k {
                let c = seats[i].copy();
                let ghost before = out@;
                out.push(c);
                proof {
                    assert(seat_views(out@) =~= seat_views(before).push(c@));
                }
            }
            i += 1;
        }
        proof {
            assert(sv.take(seats.len() as int) =~= sv);
        }
        k += 1;
    }
    proof {
        lemma_ranks_below_all(sv);
    }
    out
}

/// Ids of the flow items, in order.
pub open spec fn flow_ids(f: Seq<FlowView>) -> Seq<Seq<char>> {
    f.map_values(|x: FlowView| x.id)
}

/// Flow item for a bead at a stage.
pub open spec fn bead_item(b: Bead, stage: FlowStage) -> FlowView {
    FlowView { id: b.id@, title: b.title@, stage, kind: b.kind }
}

/// Append the bead unless its id is already in the flow.
pub open spec fn add_bead(acc: Seq<FlowView>, b: Bead, stage: FlowStage) -> Seq<FlowView> {
    if flow_ids(acc).contains(b.id@) {
        acc
    } else {
        acc.push(bead_item(b, stage))
    }
}

/// Append each bead in turn, skipping ids already present.
pub open spec fn add_beads(acc: Seq<FlowView>, bs: Seq<Bead>, stage: FlowStage) -> Seq<FlowView>
    decreases bs.len(),
{
    if bs.len() == 0 {
        acc
    } else {
        add_bead(add_beads(acc, bs.drop_last(), stage), bs.last(), stage)
    }
}

/// Whether a bead is a wish.
pub open spec fn wish_bead(b: Bead) -> bool {
    is_wish(b.notes@, b.title@)
}

/// Predicate form of `wish_bead`.
pub open spec fn wish_pred() -> spec_fn(Bead) -> bool {
    |b: Bead| wish_bead(b)
}

/// The open beads that are wishes.
pub open spec fn wishes(open: Seq<Bead>) -> Seq<Bead> {
    open.filter(wish_pred())
}

/// All beads, or only the wishes among them.
pub open spec fn chosen(bs: Seq<Bead>, wish_only: bool) -> Seq<Bead> {
    if wish_only {
        wishes(bs)
    } else {
        bs
    }
}

/// Every item with id `id` moved to the doing stage.
pub open spec fn mark_doing(acc: Seq<FlowView>, id: Seq<char>) -> Seq<FlowView> {
    acc.map_values(
        |f: FlowView|
            if f.id == id {
                FlowView { id: f.id, title: f.title, stage: FlowStage::Doing, kind: f.kind }
            } else {
                f
            },
    )
}

/// A seat's current bead joins the flow as doing: a new item (titled by
/// the seat's last title, else by the id) or, when present, the existing
/// item moves to doing.
pub open spec fn add_doing_one(acc: Seq<FlowView>, s: SeatView) -> Seq<FlowView> {
    match s.last_bead {
        Some(bid) => if flow_ids(acc).contains(bid) {
            mark_doing(acc, bid)
        } else {
            acc.push(
                FlowView {
                    id: bid,
                    title: match s.last_title {
                        Some(t) => t,
                        None => bid,
                    },
                    stage: FlowStage::Doing,
                    kind: BeadKind::Implement,
                },
            )
        },
        None => acc,
    }
}

/// `add_doing_one` for each seat in turn.
pub open spec fn add_doing(acc: Seq<FlowView>, seats: Seq<SeatView>) -> Seq<FlowView>
    decreases seats.len(),
{
    if seats.len() == 0 {
        acc
    } else {
        add_doing_one(add_doing(acc, seats.drop_last()), seats.last())
    }
}

/// Most flow items shown.
pub open spec fn flow_cap() -> nat {
    14
}

/// The flow: wishes among the open beads, then ready beads, then the seats'
/// current beads, each id once, cut to `flow_cap()` items.
pub open spec fn flow_of(open: Seq<Bead>, ready: Seq<Bead>, seats: Seq<SeatView>) -> Seq<FlowView> {
    let all = add_doing(add_beads(add_beads(seq![], wishes(open), FlowStage::Wish), ready, FlowStage::Ready), seats);
    if all.len() <= flow_cap() {
        all
    } else {
        all.take(flow_cap() as int)
    }
}

/// Whether some flow item has id `id`.
fn flow_has(flow: &Vec<FlowItem>, id: &String) -> (r: bool)
    ensures
        r == flow_ids(flow_views(flow@)).contains(id@),
{
    let ghost ids = flow_ids(flow_views(flow@));
    let mut i: usize = 0;
    while i < flow.len()
        invariant
            i <= flow.len(),
            ids == flow_ids(flow_views(flow@)),
            ids.len() == flow.len(),
            forall|j: int| 0 <= j < i ==> ids[j] != id@,
        decreases flow.len() - i,
    {
        if str_eq(flow[i].id.as_str(), id.as_str()) {
            assert(ids[i as int] == id@);
            return true;
        }
        i += 1;
    }
    false
}

/// `add_bead` on a vector.
fn push_bead(flow: &mut Vec<FlowItem>, b: &Bead, stage: FlowStage)
    ensures
        flow_views(final(flow)@) == add_bead(flow_views(old(flow)@), *b, stage),
{
    if !flow_has(flow, &b.id) {
        let item = FlowItem { id: b.id.clone(), title: b.title.clone(), stage, kind: b.kind };
        let ghost before = flow@;
        flow.push(item);
        proof {
            assert(flow_views(flow@) =~= flow_views(before).push(bead_item(*b, stage)));
        }
    }
}

/// `add_beads` on a vector, over all of `bs` or its wishes only.
fn push_beads(flow: &mut Vec<FlowItem>, bs: &Vec<Bead>, stage: FlowStage, wish_only: bool)
    ensures
        flow_views(final(flow)@) == add_beads(flow_views(old(flow)@), chosen(bs@, wish_only), stage),
{
    let ghost start = flow_views(flow@);
    let mut i: usize = 0;
    proof {
        assert(bs@.take(0).filter(wish_pred()) =~= Seq::<Bead>::empty());
        assert(bs@.take(0) =~= Seq::<Bead>::empty());
    }
    while i < bs.len()
        invariant
            i <= bs.len(),
            flow_views(flow@) == add_beads(start, chosen(bs@.take(i as int), wish_only), stage),
        decreases bs.len() - i,
    {
        let b = &bs[i];
        let keep = !wish_only || is_wish_bead(b);
        proof {
            let t = bs@.take(i as int);
            assert(bs@.take(i + 1) =~= t.push(*b));
            t.lemma_filter_push(*b, wish_pred());
            let f = chosen(t, wish_only);
            assert(f.push(*b).drop_last() =~= f);
        }
        if keep {
            push_bead(flow, b, stage);
        }
        i += 1;
    }
    proof {
        assert(bs@.take(bs.len() as int) =~= bs@);
    }
}

/// `mark_doing` on a vector.
fn mark_doing_exec(flow: &Vec<FlowItem>, id: &String) -> (r: Vec<FlowItem>)
    ensures
        flow_views(r@) == mark_doing(flow_views(flow@), id@),
{
    let ghost target = mark_doing(flow_views(flow@), id@);
    let mut out: Vec<FlowItem> = Vec::new();
    let mut i: usize = 0;
    while i < flow.len()
        invariant
            i <= flow.len(),
            target == mark_doing(flow_views(flow@), id@),
            target.len() == flow.len(),
            flow_views(out@) == target.take(i as int),
        decreases flow.len() - i,
    {
        let f = &flow[i];
        let stage = if str_eq(f.id.as_str(), id.as_str()) {
            FlowStage::Doing
        } else {
            f.stage
        };
        let item = FlowItem { id: f.id.clone(), title: f.title.clone(), stage, kind: f.kind };
        let ghost before = out@;
        out.push(item);
        proof {
            assert(flow_views(flow@)[i as int] == f@);
            assert(target[i as int] == item@);
            assert(flow_views(out@) =~= flow_views(before).push(item@));
            assert(flow_views(out@) =~= target.take(i + 1));
        }
        i += 1;
    }
    proof {
        assert(target.take(flow.len() as int) =~= target);
    }
    out
}

/// `add_doing` on a vector.
fn push_doing(flow: Vec<FlowItem>, seats: &Vec<SeatStatus>) -> (r: Vec<FlowItem>)
    ensures
        flow_views(r@) == add_doing(flow_views(flow@), seat_views(seats@)),
{
    let ghost start = flow_views(flow@);
    let ghost sv = seat_views(seats@);
    let mut cur = flow;
    let mut i: usize = 0;
    proof {
        assert(sv.take(0) =~= Seq::<SeatView>::empty());
    }
    while i < seats.len()
        invariant
            i <= seats.len(),
            sv == seat_views(seats@),
            flow_views(cur@) == add_doing(start, sv.take(i as int)),
        decreases seats.len() - i,
    {
        let s = &seats[i];
        proof {
            assert(sv.take(i + 1).drop_last() =~= sv.take(i as int));
            assert(sv.take(i + 1).last() == s@);
        }
        match &s.last_bead {
            Some(bid) => {
                if flow_has(&cur, bid) {
                    cur = mark_doing_exec(&cur, bid);
                } else {
                    let title = match &s.last_title {
                        Some(t) => t.clone(),
                        None => bid.clone(),
                    };
                    let item = FlowItem {
                        id: bid.clone(),
                        title,
                        stage: FlowStage::Doing,
                        kind: BeadKind::Implement,
                    };
                    let ghost before = cur@;
                    cur.push(item);
                    proof {
                        assert(flow_views(cur@) =~= flow_views(before).push(item@));
                    }
                }
            },
            None => {},
        }
        i += 1;
    }
    proof {
        assert(sv.take(seats.len() as int) =~= sv);
    }
    cur
}

/// The flow list for the given open and ready beads and (sorted) seats.
pub fn build_flow(open: &Vec<Bead>, ready: &Vec<Bead>, seats: &Vec<SeatStatus>) -> (r: Vec<FlowItem>)
    ensures
        flow_views(r@) == flow_of(open@, ready@, seat_views(seats@)),
{
    let mut flow: Vec<FlowItem> = Vec::new();
    proof {
        assert(flow_views(flow@) =~= Seq::<FlowView>::empty());
    }
    push_beads(&mut flow, open, FlowStage::Wish, true);
    push_beads(&mut flow, ready, FlowStage::Ready, false);
    let mut flow = push_doing(flow, seats);
    let ghost all = flow_views(flow@);
    flow.truncate(14);
    proof {
        if all.len() <= 14 {
            assert(flow_views(flow@) =~= all);
        } else {
            assert(flow_views(flow@) =~= all.take(14));
        }
    }
    flow
}

/// Board rows: one per seat, then one per flow item.
pub open spec fn rows_of(seats: Seq<SeatView>, flow: Seq<FlowView>) -> Seq<RowView> {
    seats.map_values(|s: SeatView| RowView::Worker(s)) + flow.map_values(|f: FlowView| RowView::Flow(f))
}

/// Board rows for the seats and flow.
pub fn build_rows(seats: &Vec<SeatStatus>, flow: &Vec<FlowItem>) -> (r: Vec<BoardRow>)
    ensures
        row_views(r@) == rows_of(seat_views(seats@), flow_views(flow@)),
{
    let ghost target = rows_of(seat_views(seats@), flow_views(flow@));
    let mut rows: Vec<BoardRow> = Vec::new();
    let mut i: usize = 0;
    while i < seats.len()
        invariant
            i <= seats.len(),
            target == rows_of(seat_views(seats@), flow_views(flow@)),
            row_views(rows@) == target.take(i as int),
        decreases seats.len() - i,
    {
        let ghost before = rows@;
        let row = BoardRow::Worker { seat: seats[i].copy() };
        rows.push(row);
        proof {
            assert(row_views(rows@) =~= row_views(before).push(row@));
            assert(row_views(rows@) =~= target.take(i + 1));
        }
        i += 1;
    }
    let mut j: usize = 0;
    while j < flow.len()
        invariant
            j <= flow.len(),
            target == rows_of(seat_views(seats@), flow_views(flow@)),
            target.len() == seats.len() + flow.len(),
            row_views(rows@) == target.take(seats.len() + j),
        decreases flow.len() - j,
    {
        let ghost before = rows@;
        let row = BoardRow::Flow { item: flow[j].copy() };
        rows.push(row);
        proof {
            assert(target[seats.len() + j] == row@);
            assert(row_views(rows@) =~= row_views(before).push(row@));
            assert(row_views(rows@) =~= target.take(seats.len() + j + 1));
        }
        j += 1;
    }
    proof {
        assert(target.take(seats.len() + flow.len()) =~= target);
    }
    rows
}

/// Rows whose selection key is `k`.
pub open spec fn keyed(k: Seq<char>) -> spec_fn(RowView) -> bool {
    |r: RowView| row_key(r) == k
}

/// Seats named `name`.
pub open spec fn named(name: Seq<char>) -> spec_fn(SeatView) -> bool {
    |s: SeatView| s.seat == name
}

/// Seats whose current bead is `id`.
pub open spec fn on_bead(id: Seq<char>) -> spec_fn(SeatView) -> bool {
    |s: SeatView| s.last_bead == Some(id)
}

/// Seats that are blocked.
pub open spec fn blocked_pred() -> spec_fn(SeatView) -> bool {
    |s: SeatView| attention_of(s) == SeatAttention::Blocked
}

/// Position of the first row with key `k`.
fn row_with_key(rows: &Vec<BoardRow>, k: &String) -> (r: Option<usize>)
    ensures
        r matches Some(i) ==> first_index(row_views(rows@), keyed(k@)) == Some(i as int),
        r is None ==> first_index(row_views(rows@), keyed(k@)) is None,
{
    let ghost rv = row_views(rows@);
    let mut i: usize = 0;
    while i < rows.len()
        invariant
            i <= rows.len(),
            rv == row_views(rows@),
            rv.len() == rows.len(),
            forall|j: int| 0 <= j < i ==> !keyed(k@)(#[trigger] rv[j]),
        decreases rows.len() - i,
    {
        let rk = rows[i].key();
        if str_eq(rk.as_str(), k.as_str()) {
            proof {
                crate::search::lemma_first_index_is(rv, keyed(k@), i as int);
            }
            return Some(i);
        }
        i += 1;
    }
    proof {
        crate::search::lemma_first_index_none(rv, keyed(k@));
    }
    None
}

/// Position of the first seat with the given name.
fn seat_with_name(seats: &Vec<SeatStatus>, name: &str) -> (r: Option<usize>)
    ensures
        r matches Some(i) ==> first_index(seat_views(seats@), named(name@)) == Some(i as int),
        r is None ==> first_index(seat_views(seats@), named(name@)) is None,
{
    let ghost sv = seat_views(seats@);
    let mut i: usize = 0;
    while i < seats.len()
        invariant
            i <= seats.len(),
            sv == seat_views(seats@),
            sv.len() == seats.len(),
            forall|j: int| 0 <= j < i ==> !named(name@)(#[trigger] sv[j]),
        decreases seats.len() - i,
    {
        if str_eq(seats[i].seat.as_str(), name) {
            proof {
                crate::search::lemma_first_index_is(sv, named(name@), i as int);
            }
            return Some(i);
        }
        i += 1;
    }
    proof {
        crate::search::lemma_first_index_none(sv, named(name@));
    }
    None
}

/// Position of the first seat working on bead `id`.
fn seat_on_bead(seats: &Vec<SeatStatus>, id: &str) -> (r: Option<usize>)
    ensures
        r matches Some(i) ==> first_index(seat_views(seats@), on_bead(id@)) == Some(i as int),
        r is None ==> first_index(seat_views(seats@), on_bead(id@)) is None,
{
    let ghost sv = seat_views(seats@);
    let mut i: usize = 0;
    while i < seats.len()
        invariant
            i <= seats.len(),
            sv == seat_views(seats@),
            sv.len() == seats.len(),
            forall|j: int| 0 <= j < i ==> !on_bead(id@)(#[trigger] sv[j]),
        decreases seats.len() - i,
    {
        let hit = match &seats[i].last_bead {
            Some(b) => str_eq(b.as_str(), id),
            None => false,
        };
        if hit {
            proof {
                crate::search::lemma_first_index_is(sv, on_bead(id@), i as int);
            }
            return Some(i);
        }
        i += 1;
    }
    proof {
        crate::search::lemma_first_index_none(sv, on_bead(id@));
    }
    None
}

/// Cockpit state: seats, flow, board selection and inspector.
#[derive(Debug)]
pub struct CityPanelState {
    pub seats: Vec<SeatStatus>,
    pub board_rows: Vec<BoardRow>,
    pub selection: usize,
    pub selected_seat: Option<String>,
    pub selected_flow_id: Option<String>,
    pub flow: Vec<FlowItem>,
    pub wish_text: String,
    pub steer_text: String,
    pub spawn_fleet_n: String,
    pub spawn_crew_n: String,
    pub spawn_focus_fleet: bool,
    pub log_lines: Vec<String>,
    pub log_scroll: usize,
    pub detail_seat: Option<SeatStatus>,
    pub status_line: String,
    pub expanded: bool,
}

/// Value of the cockpit state.
pub struct CityView {
    pub seats: Seq<SeatView>,
    pub board_rows: Seq<RowView>,
    pub selection: int,
    pub selected_seat: Option<Seq<char>>,
    pub selected_flow_id: Option<Seq<char>>,
    pub flow: Seq<FlowView>,
    pub wish_text: Seq<char>,
    pub steer_text: Seq<char>,
    pub spawn_fleet_n: Seq<char>,
    pub spawn_crew_n: Seq<char>,
    pub spawn_focus_fleet: bool,
    pub log_lines: Seq<Seq<char>>,
    pub log_scroll: int,
    pub detail_seat: Option<SeatView>,
    pub status_line: Seq<char>,
    pub expanded: bool,
}

impl View for CityPanelState {
    type V = CityView;

    open spec fn view(&self) -> CityView {
        CityView {
            seats: seat_views(self.seats@),
            board_rows: row_views(self.board_rows@),
            selection: self.selection as int,
            selected_seat: opt_seq(self.selected_seat),
            selected_flow_id: opt_seq(self.selected_flow_id),
            flow: flow_views(self.flow@),
            wish_text: self.wish_text@,
            steer_text: self.steer_text@,
            spawn_fleet_n: self.spawn_fleet_n@,
            spawn_crew_n: self.spawn_crew_n@,
            spawn_focus_fleet: self.spawn_focus_fleet,
            log_lines: string_views(self.log_lines@),
            log_scroll: self.log_scroll as int,
            detail_seat: opt_seat(self.detail_seat),
            status_line: self.status_line@,
            expanded: self.expanded,
        }
    }
}

/// The initial cockpit: empty, two fleet workers and no crew proposed for
/// spawning, the fleet field focused.
pub open spec fn initial_city() -> CityView {
    CityView {
        seats: seq![],
        board_rows: seq![],
        selection: 0,
        selected_seat: None,
        selected_flow_id: None,
        flow: seq![],
        wish_text: seq![],
        steer_text: seq![],
        spawn_fleet_n: "2"@,
        spawn_crew_n: "0"@,
        spawn_focus_fleet: true,
        log_lines: seq![],
        log_scroll: 0,
        detail_seat: None,
        status_line: seq![],
        expanded: false,
    }
}

impl Default for CityPanelState {
    fn default() -> (r: Self)
        ensures
            r@ == initial_city(),
    {
        let r = CityPanelState {
            seats: Vec::new(),
            board_rows: Vec::new(),
            selection: 0,
            selected_seat: None,
            selected_flow_id: None,
            flow: Vec::new(),
            wish_text: String::new(),
            steer_text: String::new(),
            spawn_fleet_n: String::from_str("2"),
            spawn_crew_n: String::from_str("0"),
            spawn_focus_fleet: true,
            log_lines: Vec::new(),
            log_scroll: 0,
            detail_seat: None,
            status_line: String::new(),
            expanded: false,
        };
        proof {
            assert(r@.seats =~= initial_city().seats);
            assert(r@.board_rows =~= initial_city().board_rows);
            assert(r@.flow =~= initial_city().flow);
            assert(r@.log_lines =~= initial_city().log_lines);
            assert(r@.wish_text =~= initial_city().wish_text);
            assert(r@.steer_text =~= initial_city().steer_text);
            assert(r@.status_line =~= initial_city().status_line);
        }
        r
    }
}

/// Key of the selected row before a refresh, when the selection is on a row.
pub open spec fn prev_key(v: CityView) -> Option<Seq<char>> {
    if 0 <= v.selection < v.board_rows.len() {
        Some(row_key(v.board_rows[v.selection]))
    } else {
        None
    }
}

/// Selection after the rows are rebuilt: the first row with the previous
/// key when there is one, else the old position; then kept inside the rows
/// (0 when there are none).
pub open spec fn reselected(old_sel: int, prev: Option<Seq<char>>, rows: Seq<RowView>) -> int {
    let s = match prev {
        Some(k) => match first_index(rows, keyed(k)) {
            Some(i) => i,
            None => old_sel,
        },
        None => old_sel,
    };
    if s >= rows.len() {
        if rows.len() == 0 {
            0
        } else {
            rows.len() - 1
        }
    } else {
        s
    }
}

/// Inspector seat after a refresh: with a seat selected, the freshly read
/// status if any, else the first listed seat of that name, else none.
pub open spec fn refreshed_detail(
    v: CityView,
    seats: Seq<SeatView>,
    read: Option<SeatView>,
) -> Option<SeatView> {
    match v.selected_seat {
        Some(name) => match read {
            Some(r) => Some(r),
            None => match first_index(seats, named(name)) {
                Some(i) => Some(seats[i]),
                None => None,
            },
        },
        None => v.detail_seat,
    }
}

/// The cockpit after a refresh with listed seats, open and ready beads,
/// and the status read for the selected seat.
pub open spec fn refreshed(
    v: CityView,
    listed: Seq<SeatView>,
    open: Seq<Bead>,
    ready: Seq<Bead>,
    read: Option<SeatView>,
) -> CityView {
    let seats = by_attention(listed);
    let flow = flow_of(open, ready, seats);
    let rows = rows_of(seats, flow);
    CityView {
        seats,
        board_rows: rows,
        selection: reselected(v.selection, prev_key(v), rows),
        flow,
        detail_seat: refreshed_detail(v, seats, read),
        ..v
    }
}

impl CityPanelState {
    /// Rebuild seats, flow and board rows from the listed seats and the open
    /// and ready beads; keep the selection on the same row; refresh the
    /// inspector seat from `read`, the status read for the selected seat.
    pub fn refresh(
        &mut self,
        listed: &Vec<SeatStatus>,
        open: &Vec<Bead>,
        ready: &Vec<Bead>,
        read: Option<SeatStatus>,
    )
        ensures
            final(self)@ == refreshed(old(self)@, seat_views(listed@), open@, ready@, opt_seat(read)),
    {
        let ghost v0 = self@;
        let ghost listed_v = seat_views(listed@);
        let prev = if self.selection < self.board_rows.len() {
            Some(self.board_rows[self.selection].key())
        } else {
            None
        };
        let sorted = sort_by_attention(listed);
        let flow = build_flow(open, ready, &sorted);
        let rows = build_rows(&sorted, &flow);
        self.seats = sorted;
        self.flow = flow;
        self.board_rows = rows;
        match prev {
            Some(k) => match row_with_key(&self.board_rows, &k) {
                Some(i) => {
                    self.selection = i;
                },
                None => {},
            },
            None => {},
        }
        if self.selection >= self.board_rows.len() {
            self.selection = if self.board_rows.len() == 0 {
                0
            } else {
                self.board_rows.len() - 1
            };
        }
        proof {
            assert(self.selection == reselected(v0.selection, prev_key(v0), rows_of(by_attention(listed_v), flow_of(open@, ready@, by_attention(listed_v)))));
        }
        match &self.selected_seat {
            Some(name) => {
                proof {
                    crate::search::lemma_first_index_some(seat_views(self.seats@), named(name@));
                }
                let d = match read {
                    Some(r) => Some(r),
                    None => match seat_with_name(&self.seats, name.as_str()) {
                        Some(i) => Some(self.seats[i].copy()),
                        None => None,
                    },
                };
                self.detail_seat = d;
            },
            None => {},
        }
        proof {
            let t = refreshed(v0, listed_v, open@, ready@, opt_seat(read));
            assert(self@.detail_seat == t.detail_seat);
            assert(self@ == t);
        }
    }
}

/// The inspector switched to seat `seat` named `name`; its log is cleared
/// when the selected seat changes.
pub open spec fn seat_chosen(v: CityView, name: Seq<char>, seat: SeatView) -> CityView {
    let keep = v.selected_seat == Some(name);
    CityView {
        log_lines: if keep {
            v.log_lines
        } else {
            seq![]
        },
        log_scroll: if keep {
            v.log_scroll
        } else {
            0
        },
        selected_seat: Some(name),
        detail_seat: Some(seat),
        ..v
    }
}

/// Status line for a selected flow item: `<stage> · <title>`.
pub open spec fn flow_status(item: FlowView) -> Seq<char> {
    stage_tag(item.stage) + " \u{b7} "@ + item.title
}

/// The state after the row under the selection is applied: a worker row
/// selects its seat; a flow row selects its bead, the first seat working on
/// it (if any), and shows the item in the status line.
pub open spec fn applied(v: CityView) -> CityView {
    if 0 <= v.selection < v.board_rows.len() {
        match v.board_rows[v.selection] {
            RowView::Worker(seat) => CityView { selected_flow_id: None, ..seat_chosen(v, seat.seat, seat) },
            RowView::Flow(item) => {
                let v1 = CityView { selected_flow_id: Some(item.id), ..v };
                let v2 = match first_index(v.seats, on_bead(item.id)) {
                    Some(i) => seat_chosen(v1, v.seats[i].seat, v.seats[i]),
                    None => v1,
                };
                CityView { status_line: flow_status(item), ..v2 }
            },
        }
    } else {
        v
    }
}

/// Worker rows of the seat named `name`.
pub open spec fn worker_named(name: Seq<char>) -> spec_fn(RowView) -> bool {
    |r: RowView|
        match r {
            RowView::Worker(s) => s.seat == name,
            RowView::Flow(_) => false,
        }
}

/// Log lines after one more line: at most the last `log_cap()` are kept.
pub open spec fn log_after_push(lines: Seq<Seq<char>>, line: Seq<char>) -> Seq<Seq<char>> {
    let all = lines.push(line);
    if all.len() > log_cap() {
        all.subrange(all.len() - log_cap(), all.len() as int)
    } else {
        all
    }
}

/// Most log lines kept in the inspector.
pub open spec fn log_cap() -> int {
    400
}

/// Log scroll offset after scrolling by `delta` (negative: further back,
/// up to the last line; positive: towards the newest, down to 0).
pub open spec fn scrolled(scroll: int, len: int, delta: int) -> int {
    let max = if len == 0 {
        0
    } else {
        len - 1
    };
    if delta < 0 {
        let a = scroll - delta;
        let b = if a < max {
            a
        } else {
            max
        };
        if b < 0 {
            0
        } else {
            b
        }
    } else if scroll >= delta {
        scroll - delta
    } else {
        0
    }
}

/// Euclidean remainder of `x` by a positive `n`.
fn rem_euclid_isize(x: isize, n: isize) -> (r: isize)
    requires
        n > 0,
    ensures
        r == x % n,
        0 <= r < n,
{
    if x >= 0 {
        x % n
    } else {
        let y: isize = -(x + 1);
        let m: isize = y % n;
        proof {
            let q = y / n;
            vstd::arithmetic::div_mod::lemma_fundamental_div_mod(y as int, n as int);
            assert(x == (-q - 1) * n + (n - 1 - m)) by (nonlinear_arith)
                requires
                    y == -(x + 1),
                    y == n * q + m,
            ;
            vstd::arithmetic::div_mod::lemma_fundamental_div_mod_converse(
                x as int,
                n as int,
                -q - 1,
                (n - 1 - m) as int,
            );
        }
        n - 1 - m
    }
}

impl CityPanelState {
    /// Apply the row under the selection to the inspector.
    pub fn apply_selection(&mut self)
        ensures
            final(self)@ == applied(old(self)@),
    {
        let ghost v0 = self@;
        if self.selection < self.board_rows.len() {
            let row = self.board_rows[self.selection].copy();
            match row {
                BoardRow::Worker { seat } => {
                    let name = seat.seat.clone();
                    let same = match &self.selected_seat {
                        Some(cur) => str_eq(cur.as_str(), name.as_str()),
                        None => false,
                    };
                    if !same {
                        self.log_lines = Vec::new();
                        self.log_scroll = 0;
                    }
                    self.selected_seat = Some(name);
                    self.selected_flow_id = None;
                    self.detail_seat = Some(seat);
                    proof {
                        let t = applied(v0);
                        assert(self@.log_lines =~= t.log_lines);
                        assert(self@ == t);
                    }
                },
                BoardRow::Flow { item } => {
                    self.selected_flow_id = Some(item.id.clone());
                    let ghost v1 = self@;
                    proof {
                        crate::search::lemma_first_index_some(v0.seats, on_bead(item.id@));
                    }
                    match seat_on_bead(&self.seats, item.id.as_str()) {
                        Some(i) => {
                            let w = self.seats[i].copy();
                            let same = match &self.selected_seat {
                                Some(cur) => str_eq(cur.as_str(), w.seat.as_str()),
                                None => false,
                            };
                            if !same {
                                self.log_lines = Vec::new();
                                self.log_scroll = 0;
                            }
                            self.selected_seat = Some(w.seat.clone());
                            self.detail_seat = Some(w);
                            proof {
                                let t2 = seat_chosen(v1, v0.seats[i as int].seat, v0.seats[i as int]);
                                assert(self@.log_lines =~= t2.log_lines);
                                assert(self@ == t2);
                            }
                        },
                        None => {},
                    }
                    let mut line = String::from_str(item.stage.tag());
                    line.append(" \u{b7} ");
                    line.append(item.title.as_str());
                    self.status_line = line;
                    proof {
                        let t = applied(v0);
                        assert(self@.status_line =~= t.status_line);
                        assert(self@ == t);
                    }
                },
            }
        }
    }

    /// Move the selection by `delta` rows, wrapping around, and apply it.
    pub fn move_sel(&mut self, delta: isize)
        requires
            old(self).board_rows.len() <= isize::MAX,
            old(self).selection <= isize::MAX,
            isize::MIN <= old(self).selection + delta <= isize::MAX,
        ensures
            final(self)@ == (if old(self)@.board_rows.len() == 0 {
                old(self)@
            } else {
                applied(
                    CityView {
                        selection: (old(self)@.selection + delta) % (old(self)@.board_rows.len() as int),
                        ..old(self)@
                    },
                )
            }),
    {
        if self.board_rows.len() == 0 {
            return;
        }
        let n = self.board_rows.len() as isize;
        let cur = self.selection as isize;
        let ghost v0 = self@;
        let r = rem_euclid_isize(cur + delta, n);
        self.selection = r as usize;
        proof {
            assert(self@ == CityView { selection: (v0.selection + delta) % (v0.board_rows.len() as int), ..v0 });
        }
        self.apply_selection();
    }

    /// Select the worker row of `seat`; when the seat has no row, show it
    /// in the inspector with `read`, the status read for it, and an empty log.
    pub fn select_seat(&mut self, seat: &str, read: Option<SeatStatus>)
        ensures
            final(self)@ == (match first_index(old(self)@.board_rows, worker_named(seat@)) {
                Some(i) => applied(CityView { selection: i, ..old(self)@ }),
                None => CityView {
                    selected_seat: Some(seat@),
                    detail_seat: opt_seat(read),
                    log_lines: seq![],
                    ..old(self)@
                },
            }),
    {
        let ghost v0 = self@;
        let ghost rv = row_views(self.board_rows@);
        let mut i: usize = 0;
        while i < self.board_rows.len()
            invariant
                i <= self.board_rows.len(),
                rv == row_views(self.board_rows@),
                rv.len() == self.board_rows.len(),
                v0 == self@,
                v0 == old(self)@,
                forall|j: int| 0 <= j < i ==> !worker_named(seat@)(#[trigger] rv[j]),
            decreases self.board_rows.len() - i,
        {
            let hit = match &self.board_rows[i] {
                BoardRow::Worker { seat: s } => str_eq(s.seat.as_str(), seat),
                BoardRow::Flow { .. } => false,
            };
            if hit {
                proof {
                    crate::search::lemma_first_index_is(rv, worker_named(seat@), i as int);
                }
                self.selection = i;
                proof {
                    assert(self@ == CityView { selection: i as int, ..v0 });
                }
                self.apply_selection();
                return;
            }
            i += 1;
        }
        proof {
            crate::search::lemma_first_index_none(rv, worker_named(seat@));
        }
        self.selected_seat = Some(seat.to_string());
        self.detail_seat = read;
        self.log_lines = Vec::new();
        proof {
            let t = CityView {
                selected_seat: Some(seat@),
                detail_seat: opt_seat(read),
                log_lines: seq![],
                ..v0
            };
            assert(self@.log_lines =~= t.log_lines);
            assert(self@ == t);
        }
    }

    /// Whether a seat is selected.
    pub fn has_selection(&self) -> (r: bool)
        ensures
            r == self.selected_seat is Some,
    {
        self.selected_seat.is_some()
    }

    /// Number of blocked seats.
    pub fn blocked_count(&self) -> (r: usize)
        ensures
            r == self@.seats.filter(blocked_pred()).len(),
    {
        let ghost sv = self@.seats;
        let mut n: usize = 0;
        let mut i: usize = 0;
        proof {
            assert(sv.take(0).filter(blocked_pred()) =~= Seq::<SeatView>::empty());
        }
        while i < self.seats.len()
            invariant
                i <= self.seats.len(),
                sv == self@.seats,
                n == sv.take(i as int).filter(blocked_pred()).len(),
                n <= i,
            decreases self.seats.len() - i,
        {
            let a = SeatAttention::from_status(&self.seats[i]);
            proof {
                assert(sv.take(i + 1) =~= sv.take(i as int).push(sv[i as int]));
                sv.take(i as int).lemma_filter_push(sv[i as int], blocked_pred());
            }
            if a == SeatAttention::Blocked {
                n += 1;
            }
            i += 1;
        }
        proof {
            assert(sv.take(self.seats.len() as int) =~= sv);
        }
        n
    }

    /// Name of the first blocked seat.
    pub fn first_blocked_seat(&self) -> (r: Option<&str>)
        ensures
            (match first_index(self@.seats, blocked_pred()) {
                Some(i) => r matches Some(s) && s@ == self@.seats[i].seat,
                None => r is None,
            }),
    {
        let ghost sv = self@.seats;
        let mut i: usize = 0;
        while i < self.seats.len()
            invariant
                i <= self.seats.len(),
                sv == self@.seats,
                sv.len() == self.seats.len(),
                forall|j: int| 0 <= j < i ==> !blocked_pred()(#[trigger] sv[j]),
            decreases self.seats.len() - i,
        {
            if SeatAttention::from_status(&self.seats[i]) == SeatAttention::Blocked {
                proof {
                    crate::search::lemma_first_index_is(sv, blocked_pred(), i as int);
                }
                return Some(self.seats[i].seat.as_str());
            }
            i += 1;
        }
        proof {
            crate::search::lemma_first_index_none(sv, blocked_pred());
        }
        None
    }

    /// Replace the log with the formatted lines, scrolled to the newest.
    pub fn set_log_from_parsed(&mut self, lines: &[ParsedLogLine])
        ensures
            final(self)@ == (CityView {
                log_lines: lines@.map_values(
                    |l: ParsedLogLine| log_line_text(l.kind, opt_seq(l.timestamp), l.body@),
                ),
                log_scroll: 0,
                ..old(self)@
            }),
    {
        let ghost v0 = self@;
        let ghost target = lines@.map_values(
            |l: ParsedLogLine| log_line_text(l.kind, opt_seq(l.timestamp), l.body@),
        );
        let mut out: Vec<String> = Vec::new();
        let mut i: usize = 0;
        while i < lines.len()
            invariant
                i <= lines.len(),
                target == lines@.map_values(
                    |l: ParsedLogLine| log_line_text(l.kind, opt_seq(l.timestamp), l.body@),
                ),
                string_views(out@) == target.take(i as int),
            decreases lines.len() - i,
        {
            let t = format_parsed_log(&lines[i]);
            let ghost before = out@;
            out.push(t);
            proof {
                assert(string_views(out@) =~= string_views(before).push(t@));
                assert(string_views(out@) =~= target.take(i + 1));
            }
            i += 1;
        }
        proof {
            assert(target.take(lines.len() as int) =~= target);
        }
        self.log_lines = out;
        self.log_scroll = 0;
        proof {
            assert(self@ == (CityView { log_lines: target, log_scroll: 0, ..v0 }));
        }
    }

    /// Append a formatted line to the log, keeping the last `log_cap()`.
    pub fn push_log_line(&mut self, line: &ParsedLogLine)
        ensures
            final(self)@ == (CityView {
                log_lines: log_after_push(
                    old(self)@.log_lines,
                    log_line_text(line.kind, opt_seq(line.timestamp), line.body@),
                ),
                ..old(self)@
            }),
    {
        let ghost v0 = self@;
        let t = format_parsed_log(line);
        let ghost tv = t@;
        let ghost before = self.log_lines@;
        self.log_lines.push(t);
        proof {
            assert(string_views(self.log_lines@) =~= string_views(before).push(tv));
        }
        if self.log_lines.len() > 400 {
            let drain = self.log_lines.len() - 400;
            let ghost all = self.log_lines@;
            let tail = self.log_lines.split_off(drain);
            self.log_lines = tail;
            proof {
                assert(string_views(self.log_lines@) =~= string_views(all).subrange(
                    drain as int,
                    all.len() as int,
                ));
            }
        }
        proof {
            let t2 = CityView { log_lines: log_after_push(v0.log_lines, tv), ..v0 };
            assert(self@.log_lines =~= t2.log_lines);
            assert(self@ == t2);
        }
    }

    /// Scroll the log by `delta` lines.
    pub fn log_scroll_by(&mut self, delta: isize)
        requires
            delta < 0 ==> old(self).log_scroll - delta <= isize::MAX,
            delta < 0 ==> old(self).log_lines.len() <= isize::MAX,
        ensures
            final(self)@ == (CityView {
                log_scroll: scrolled(
                    old(self)@.log_scroll,
                    old(self)@.log_lines.len() as int,
                    delta as int,
                ),
                ..old(self)@
            }),
    {
        let max: usize = if self.log_lines.len() == 0 {
            0
        } else {
            self.log_lines.len() - 1
        };
        if delta < 0 {
            let a: isize = self.log_scroll as isize - delta;
            let m: isize = max as isize;
            let b: isize = if a < m {
                a
            } else {
                m
            };
            self.log_scroll = if b < 0 {
                0
            } else {
                b as usize
            };
        } else {
            let d = delta as usize;
            self.log_scroll = if self.log_scroll >= d {
                self.log_scroll - d
            } else {
                0
            };
        }
    }
}

/// The five rank groups' multisets added up.
spec fn rank_groups(s: Seq<SeatView>) -> Multiset<SeatView> {
    s.filter(has_priority(0)).to_multiset().add(s.filter(has_priority(1)).to_multiset()).add(
        s.filter(has_priority(2)).to_multiset(),
    ).add(s.filter(has_priority(3)).to_multiset()).add(s.filter(has_priority(4)).to_multiset())
}

proof fn lemma_rank_groups(s: Seq<SeatView>)
    ensures
        rank_groups(s) == s.to_multiset(),
    decreases s.len(),
{
    broadcast use vstd::multiset::group_multiset_axioms;
    if s.len() == 0 {
        assert(s.filter(has_priority(0)) =~= Seq::<SeatView>::empty());
        assert(s.filter(has_priority(1)) =~= Seq::<SeatView>::empty());
        assert(s.filter(has_priority(2)) =~= Seq::<SeatView>::empty());
        assert(s.filter(has_priority(3)) =~= Seq::<SeatView>::empty());
        assert(s.filter(has_priority(4)) =~= Seq::<SeatView>::empty());
        vstd::seq_lib::to_multiset_len(s);
        vstd::seq_lib::to_multiset_len(s.filter(has_priority(0)));
        vstd::seq_lib::to_multiset_len(s.filter(has_priority(1)));
        vstd::seq_lib::to_multiset_len(s.filter(has_priority(2)));
        vstd::seq_lib::to_multiset_len(s.filter(has_priority(3)));
        vstd::seq_lib::to_multiset_len(s.filter(has_priority(4)));
        assert(rank_groups(s) =~= s.to_multiset());
    } else {
        let t = s.drop_last();
        let x = s.last();
        assert(s =~= t.push(x));
        lemma_rank_groups(t);
        vstd::seq_lib::to_multiset_build(t, x);
        t.lemma_filter_push(x, has_priority(0));
        t.lemma_filter_push(x, has_priority(1));
        t.lemma_filter_push(x, has_priority(2));
        t.lemma_filter_push(x, has_priority(3));
        t.lemma_filter_push(x, has_priority(4));
        let k = attention_priority(attention_of(x));
        assert(k <= 4);
        vstd::seq_lib::to_multiset_build(t.filter(has_priority(k)), x);
        assert(rank_groups(s) =~= rank_groups(t).insert(x));
    }
}

/// Ordering the seats by attention neither loses nor adds a seat, and puts
/// them in non-decreasing attention rank.
pub proof fn lemma_by_attention_sorted(s: Seq<SeatView>)
    ensures
        by_attention(s).to_multiset() == s.to_multiset(),
        forall|i: int, j: int|
            0 <= i <= j < by_attention(s).len() ==> attention_priority(
                attention_of(#[trigger] by_attention(s)[i]),
            ) <= attention_priority(attention_of(#[trigger] by_attention(s)[j])),
{
    let f0 = s.filter(has_priority(0));
    let f1 = s.filter(has_priority(1));
    let f2 = s.filter(has_priority(2));
    let f3 = s.filter(has_priority(3));
    let f4 = s.filter(has_priority(4));
    vstd::seq_lib::lemma_multiset_commutative(f0, f1);
    vstd::seq_lib::lemma_multiset_commutative(f0 + f1, f2);
    vstd::seq_lib::lemma_multiset_commutative(f0 + f1 + f2, f3);
    vstd::seq_lib::lemma_multiset_commutative(f0 + f1 + f2 + f3, f4);
    lemma_rank_groups(s);
    let r = by_attention(s);
    assert forall|i: int| 0 <= i < r.len() implies attention_priority(attention_of(#[trigger] r[i]))
        == (if i < f0.len() {
        0u8
    } else if i < f0.len() + f1.len() {
        1
    } else if i < f0.len() + f1.len() + f2.len() {
        2
    } else if i < f0.len() + f1.len() + f2.len() + f3.len() {
        3
    } else {
        4
    }) by {
        if i < f0.len() {
            s.lemma_filter_pred(has_priority(0), i);
        } else if i < f0.len() + f1.len() {
            s.lemma_filter_pred(has_priority(1), i - f0.len());
        } else if i < f0.len() + f1.len() + f2.len() {
            s.lemma_filter_pred(has_priority(2), i - f0.len() - f1.len());
        } else if i < f0.len() + f1.len() + f2.len() + f3.len() {
            s.lemma_filter_pred(has_priority(3), i - f0.len() - f1.len() - f2.len());
        } else {
            s.lemma_filter_pred(has_priority(4), i - f0.len() - f1.len() - f2.len() - f3.len());
        }
    }
}

proof fn lemma_add_bead_distinct(acc: Seq<FlowView>, b: Bead, stage: FlowStage)
    requires
        flow_ids(acc).no_duplicates(),
    ensures
        flow_ids(add_bead(acc, b, stage)).no_duplicates(),
{
    if !flow_ids(acc).contains(b.id@) {
        assert(flow_ids(acc.push(bead_item(b, stage))) =~= flow_ids(acc).push(b.id@));
    }
}

proof fn lemma_add_beads_distinct(acc: Seq<FlowView>, bs: Seq<Bead>, stage: FlowStage)
    requires
        flow_ids(acc).no_duplicates(),
    ensures
        flow_ids(add_beads(acc, bs, stage)).no_duplicates(),
    decreases bs.len(),
{
    if bs.len() > 0 {
        lemma_add_beads_distinct(acc, bs.drop_last(), stage);
        lemma_add_bead_distinct(add_beads(acc, bs.drop_last(), stage), bs.last(), stage);
    }
}

proof fn lemma_add_doing_distinct(acc: Seq<FlowView>, seats: Seq<SeatView>)
    requires
        flow_ids(acc).no_duplicates(),
    ensures
        flow_ids(add_doing(acc, seats)).no_duplicates(),
    decreases seats.len(),
{
    if seats.len() > 0 {
        lemma_add_doing_distinct(acc, seats.drop_last());
        let a = add_doing(acc, seats.drop_last());
        let s = seats.last();
        match s.last_bead {
            Some(bid) => {
                if flow_ids(a).contains(bid) {
                    assert(flow_ids(mark_doing(a, bid)) =~= flow_ids(a));
                } else {
                    let t = match s.last_title {
                        Some(t) => t,
                        None => bid,
                    };
                    let item = FlowView { id: bid, title: t, stage: FlowStage::Doing, kind: BeadKind::Implement };
                    assert(flow_ids(a.push(item)) =~= flow_ids(a).push(bid));
                }
            },
            None => {},
        }
    }
}

/// After a refresh: the board lists every seat and then every flow item;
/// the flow holds at most `flow_cap()` items, no id twice; the selection
/// lies on a row (0 when there are none) and, when the previously selected
/// row's key is still on the board, stays on the first row with that key.
pub proof fn lemma_refresh_shape(
    v: CityView,
    listed: Seq<SeatView>,
    open: Seq<Bead>,
    ready: Seq<Bead>,
    read: Option<SeatView>,
)
    requires
        v.selection >= 0,
    ensures
        ({
            let r = refreshed(v, listed, open, ready, read);
            &&& r.board_rows.len() == r.seats.len() + r.flow.len()
            &&& r.flow.len() <= flow_cap()
            &&& flow_ids(r.flow).no_duplicates()
            &&& (if r.board_rows.len() == 0 {
                r.selection == 0
            } else {
                0 <= r.selection < r.board_rows.len()
            })
            &&& (match prev_key(v) {
                Some(k) => (exists|i: int|
                    0 <= i < r.board_rows.len() && row_key(#[trigger] r.board_rows[i]) == k) ==> row_key(
                    r.board_rows[r.selection],
                ) == k,
                None => true,
            })
        }),
{
    let r = refreshed(v, listed, open, ready, read);
    let seats = by_attention(listed);
    let w = add_beads(seq![], wishes(open), FlowStage::Wish);
    assert(flow_ids(Seq::<FlowView>::empty()) =~= Seq::<Seq<char>>::empty());
    lemma_add_beads_distinct(seq![], wishes(open), FlowStage::Wish);
    lemma_add_beads_distinct(w, ready, FlowStage::Ready);
    let all = add_doing(add_beads(w, ready, FlowStage::Ready), seats);
    lemma_add_doing_distinct(add_beads(w, ready, FlowStage::Ready), seats);
    if all.len() > flow_cap() {
        let t = all.take(flow_cap() as int);
        assert(flow_ids(t) =~= flow_ids(all).take(flow_cap() as int));
        assert forall|i: int, j: int|
            0 <= i < j < flow_ids(t).len() implies flow_ids(t)[i] != flow_ids(t)[j] by {
            assert(flow_ids(t)[i] == flow_ids(all)[i]);
            assert(flow_ids(t)[j] == flow_ids(all)[j]);
        }
    }
    match prev_key(v) {
        Some(k) => {
            crate::search::lemma_first_index_some(r.board_rows, keyed(k));
            if exists|i: int| 0 <= i < r.board_rows.len() && row_key(#[trigger] r.board_rows[i]) == k {
                let i = choose|i: int| 0 <= i < r.board_rows.len() && row_key(#[trigger] r.board_rows[i]) == k;
                assert(keyed(k)(r.board_rows[i]));
            }
        },
        None => {},
    }
}

/// After moving the selection over a non-empty board, it lies on a row.
pub proof fn lemma_move_sel_in_range(v: CityView, delta: int)
    requires
        v.board_rows.len() > 0,
    ensures
        ({
            let m = applied(CityView { selection: (v.selection + delta) % (v.board_rows.len() as int), ..v });
            &&& 0 <= m.selection < m.board_rows.len()
            &&& m.board_rows == v.board_rows
        }),
{
}

/// The inspector log never holds more than `log_cap()` lines after a push,
/// and its last line is the one pushed.
pub proof fn lemma_log_push_bounded(lines: Seq<Seq<char>>, line: Seq<char>)
    ensures
        log_after_push(lines, line).len() <= log_cap(),
        log_after_push(lines, line).last() == line,
        lines.len() < log_cap() ==> log_after_push(lines, line) == lines.push(line),
{
}

/// Scrolling keeps the offset between 0 and the last line (once it was).
pub proof fn lemma_scroll_bounded(scroll: int, len: int, delta: int)
    requires
        0 <= scroll,
        0 <= len,
        len == 0 ==> scroll == 0,
        len > 0 ==> scroll < len,
    ensures
        0 <= scrolled(scroll, len, delta),
        len == 0 ==> scrolled(scroll, len, delta) == 0,
        len > 0 ==> scrolled(scroll, len, delta) < len,
{
}


/// The ids and titles of the flow items at `stage`, in flow order.
pub open spec fn stage_items(flow: Seq<FlowView>, stage: FlowStage) -> Seq<(Seq<char>, Seq<char>)> {
    flow.filter(|f: FlowView| f.stage == stage).map_values(|f: FlowView| (f.id, f.title))
}

impl CityPanelState {
    /// The ids and titles of the flow items at one stage (the board
    /// snapshot lists wishes and ready beads this way).
    pub fn flow_at_stage(&self, stage: FlowStage) -> (r: Vec<(String, String)>)
        ensures
            r@.map_values(|p: (String, String)| (p.0@, p.1@)) == stage_items(self@.flow, stage),
    {
        let ghost fv = self@.flow;
        let ghost pred = |f: FlowView| f.stage == stage;
        let mut out: Vec<(String, String)> = Vec::new();
        let mut i: usize = 0;
        proof {
            assert(fv.take(0).filter(pred) =~= Seq::<FlowView>::empty());
        }
        while i < self.flow.len()
            invariant
                i <= self.flow.len(),
                fv == self@.flow,
                fv == flow_views(self.flow@),
                pred == (|f: FlowView| f.stage == stage),
                out@.map_values(|p: (String, String)| (p.0@, p.1@)) == fv.take(i as int).filter(pred).map_values(
                    |f: FlowView| (f.id, f.title),
                ),
            decreases self.flow.len() - i,
        {
            let f = &self.flow[i];
            proof {
                assert(fv[i as int] == f@);
                assert(fv.take(i + 1) =~= fv.take(i as int).push(f@));
                fv.take(i as int).lemma_filter_push(f@, pred);
            }
            let ghost before = out@;
            if f.stage == stage {
                out.push((f.id.clone(), f.title.clone()));
                proof {
                    assert(out@.map_values(|p: (String, String)| (p.0@, p.1@)) =~= before.map_values(
                        |p: (String, String)| (p.0@, p.1@),
                    ).push((f@.id, f@.title)));
                    assert(fv.take(i + 1).filter(pred) =~= fv.take(i as int).filter(pred).push(f@));
                    assert(fv.take(i + 1).filter(pred).map_values(|f: FlowView| (f.id, f.title))
                        =~= fv.take(i as int).filter(pred).map_values(|f: FlowView| (f.id, f.title)).push(
                        (f@.id, f@.title),
                    ));
                }
            } else {
                proof {
                    assert(fv.take(i + 1).filter(pred) =~= fv.take(i as int).filter(pred));
                }
            }
            i += 1;
        }
        proof {
            assert(fv.take(self.flow.len() as int) =~= fv);
        }
        out
    }
}

/// A city panel names a first blocked seat exactly when its count of
/// blocked seats is not zero.
pub proof fn lemma_first_blocked_iff_count(v: CityView)
    ensures
        first_index(v.seats, blocked_pred()) is None <==> v.seats.filter(blocked_pred()).len() == 0,
{
    crate::search::lemma_first_index_iff_filter(v.seats, blocked_pred());
}

} // verus!

