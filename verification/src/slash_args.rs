//! Arguments of the slash commands that take sub-commands: each argument
//! text is read into a typed command, and the command says exactly what the
//! text asked for.

use vstd::prelude::*;
use crate::helpers::{join_space, opt_view};
use crate::input::ws_pred;
use crate::search::{first_index, lemma_first_index_is, lemma_first_index_none};
use crate::text::{
    chars_of, is_whitespace, spec_to_lowercase, starts_with, starts_with_exec, str_eq,
    string_of, string_of_all, to_lowercase, trim, trim_str, views, words, words_of,
};

verus! {

/// `str::strip_prefix`.
pub open spec fn strip_prefix(s: Seq<char>, p: Seq<char>) -> Option<Seq<char>> {
    if starts_with(s, p) {
        Some(s.skip(p.len() as int))
    } else {
        None
    }
}

/// `str::strip_prefix` on string slices.
pub fn strip_prefix_str(s: &str, p: &str) -> (r: Option<String>)
    ensures
        opt_view(r) == strip_prefix(s@, p@),
{
    let sv = chars_of(s);
    let pv = chars_of(p);
    if starts_with_exec(&sv, &pv) {
        let rest = string_of(&sv, pv.len(), sv.len());
        proof {
            assert(sv@.subrange(pv@.len() as int, sv@.len() as int) =~= sv@.skip(pv@.len() as int));
        }
        Some(rest)
    } else {
        None
    }
}

/// `splitn(2, char::is_whitespace)`: the text before the first whitespace
/// character, and the text after it when there is one.
pub open spec fn split_ws(s: Seq<char>) -> (Seq<char>, Option<Seq<char>>) {
    match first_index(s, ws_pred()) {
        Some(i) => (s.take(i), Some(s.skip(i + 1))),
        None => (s, None),
    }
}

/// Splits at the first whitespace character.
pub fn split_ws_str(s: &str) -> (r: (String, Option<String>))
    ensures
        r.0@ == split_ws(s@).0,
        opt_view(r.1) == split_ws(s@).1,
{
    let v = chars_of(s);
    let mut i: usize = 0;
    while i < v.len() && !is_whitespace(v[i])
        invariant
            i <= v.len(),
            v@ == s@,
            forall|j: int| 0 <= j < i ==> !ws_pred()(#[trigger] v@[j]),
        decreases v.len() - i,
    {
        i += 1;
    }
    if i < v.len() {
        proof {
            lemma_first_index_is(v@, ws_pred(), i as int);
            assert(v@.subrange(0, i as int) =~= v@.take(i as int));
            assert(v@.subrange(i + 1, v@.len() as int) =~= v@.skip(i + 1));
        }
        (string_of(&v, 0, i), Some(string_of(&v, i + 1, v.len())))
    } else {
        proof {
            lemma_first_index_none(v@, ws_pred());
        }
        (string_of_all(&v), None)
    }
}

/// The `n`-th whitespace-separated word, if there is one.
pub open spec fn word_at(s: Seq<char>, n: int) -> Option<Seq<char>> {
    if 0 <= n < words(s).len() {
        Some(words(s)[n])
    } else {
        None
    }
}

/// The `n`-th word of a string slice, if there is one.
pub fn word_at_str(s: &str, n: usize) -> (r: Option<String>)
    ensures
        opt_view(r) == word_at(s@, n as int),
{
    let v = chars_of(s);
    let ws = words_of(&v);
    if n < ws.len() {
        proof {
            assert(views(ws@)[n as int] == ws@[n as int]@);
        }
        Some(string_of_all(&ws[n]))
    } else {
        None
    }
}

/// The words of a string slice, each as a `String`.
pub fn words_str(s: &str) -> (r: Vec<String>)
    ensures
        r@.len() == words(s@).len(),
        forall|i: int| 0 <= i < r@.len() ==> #[trigger] r@[i]@ == words(s@)[i],
{
    let v = chars_of(s);
    let ws = words_of(&v);
    let mut out: Vec<String> = Vec::new();
    let mut i: usize = 0;
    while i < ws.len()
        invariant
            i <= ws.len(),
            views(ws@) == words(s@),
            v@ == s@,
            out@.len() == i,
            forall|j: int| 0 <= j < i ==> #[trigger] out@[j]@ == words(s@)[j],
        decreases ws.len() - i,
    {
        proof {
            assert(views(ws@)[i as int] == ws@[i as int]@);
        }
        out.push(string_of_all(&ws[i]));
        i += 1;
    }
    out
}

/// The seat operations that `/seat …` names take a seat by.
#[derive(Clone, Copy, Debug, PartialEq, Eq, Structural)]
pub enum SeatVerb {
    Follow,
    Attach,
    Open,
    Logs,
}

/// A seat operation, as `/seat <op> …` and `/fleet <op> …` read it.
#[derive(Clone, Debug, PartialEq, Eq)]
pub enum SeatOp<S> {
    /// Show the city board (no argument, `status` or `board`).
    Board,
    Detach,
    Abort,
    /// The operation on the named seat.
    Target(SeatVerb, S),
    /// The operation was named without a seat: answer with its usage line.
    NeedSeat(SeatVerb),
    /// Steer the attached seat with this text (casing kept).
    Steer(S),
    /// Nothing matched: answer with the usage text.
    Usage,
}

/// The character sequences a seat operation holds.
pub open spec fn seat_op_view(o: SeatOp<String>) -> SeatOp<Seq<char>> {
    match o {
        SeatOp::Board => SeatOp::Board,
        SeatOp::Detach => SeatOp::Detach,
        SeatOp::Abort => SeatOp::Abort,
        SeatOp::Target(v, s) => SeatOp::Target(v, s@),
        SeatOp::NeedSeat(v) => SeatOp::NeedSeat(v),
        SeatOp::Steer(s) => SeatOp::Steer(s@),
        SeatOp::Usage => SeatOp::Usage,
    }
}

/// The seat an operation names: the second word of the (trimmed) text as
/// typed, or else the trimmed rest of the lowercased text.
pub open spec fn seat_named(raw: Seq<char>, rest: Seq<char>) -> Seq<char> {
    match word_at(raw, 1) {
        Some(w) => w,
        None => trim(rest),
    }
}

/// An operation on a seat, or its usage when no seat is named.
pub open spec fn target_op(v: SeatVerb, seat: Seq<char>) -> SeatOp<Seq<char>> {
    if seat.len() == 0 {
        SeatOp::NeedSeat(v)
    } else {
        SeatOp::Target(v, seat)
    }
}

/// The seat operation that a text asks for. The verb is matched on the
/// trimmed, lowercased text; seat names and steer text keep their casing.
pub open spec fn seat_op_of(arg: Seq<char>) -> SeatOp<Seq<char>> {
    let raw = trim(arg);
    let lower = spec_to_lowercase(raw);
    if lower.len() == 0 || lower == "status"@ || lower == "board"@ {
        SeatOp::Board
    } else if lower == "detach"@ {
        SeatOp::Detach
    } else if strip_prefix(lower, "follow "@) is Some {
        target_op(SeatVerb::Follow, seat_named(raw, strip_prefix(lower, "follow "@)->0))
    } else if strip_prefix(lower, "attach "@) is Some {
        target_op(SeatVerb::Attach, seat_named(raw, strip_prefix(lower, "attach "@)->0))
    } else if strip_prefix(lower, "open "@) is Some {
        target_op(SeatVerb::Open, seat_named(raw, strip_prefix(lower, "open "@)->0))
    } else if strip_prefix(lower, "inspect "@) is Some {
        target_op(SeatVerb::Open, seat_named(raw, strip_prefix(lower, "inspect "@)->0))
    } else if strip_prefix(lower, "steer "@) is Some {
        SeatOp::Steer(
            match split_ws(raw).1 {
                Some(after) => trim(after),
                None => trim(strip_prefix(lower, "steer "@)->0),
            },
        )
    } else if lower == "abort"@ {
        SeatOp::Abort
    } else if strip_prefix(lower, "logs "@) is Some {
        target_op(SeatVerb::Logs, seat_named(raw, strip_prefix(lower, "logs "@)->0))
    } else if strip_prefix(lower, "log "@) is Some {
        target_op(SeatVerb::Logs, seat_named(raw, strip_prefix(lower, "log "@)->0))
    } else {
        SeatOp::Usage
    }
}

/// The seat named after an operation word (see `seat_named`).
fn seat_after(raw: &str, rest: &str) -> (r: String)
    ensures
        r@ == seat_named(raw@, rest@),
{
    match word_at_str(raw, 1) {
        Some(w) => w,
        None => trim_str(rest),
    }
}

/// An operation on a seat, or its usage when no seat is named.
fn make_target(v: SeatVerb, seat: String) -> (r: SeatOp<String>)
    ensures
        seat_op_view(r) == target_op(v, seat@),
{
    if seat.as_str().is_empty() {
        SeatOp::NeedSeat(v)
    } else {
        SeatOp::Target(v, seat)
    }
}

/// Reads a seat operation from the text after `/seat` or `/fleet`.
pub fn seat_op(arg: &str) -> (r: SeatOp<String>)
    ensures
        seat_op_view(r) == seat_op_of(arg@),
{
    let raw = trim_str(arg);
    let lower = to_lowercase(raw.as_str());
    let l = lower.as_str();
    if l.is_empty() || str_eq(l, "status") || str_eq(l, "board") {
        return SeatOp::Board;
    }
    if str_eq(l, "detach") {
        return SeatOp::Detach;
    }
    if let Some(rest) = strip_prefix_str(l, "follow ") {
        return make_target(SeatVerb::Follow, seat_after(raw.as_str(), rest.as_str()));
    }
    if let Some(rest) = strip_prefix_str(l, "attach ") {
        return make_target(SeatVerb::Attach, seat_after(raw.as_str(), rest.as_str()));
    }
    if let Some(rest) = strip_prefix_str(l, "open ") {
        return make_target(SeatVerb::Open, seat_after(raw.as_str(), rest.as_str()));
    }
    if let Some(rest) = strip_prefix_str(l, "inspect ") {
        return make_target(SeatVerb::Open, seat_after(raw.as_str(), rest.as_str()));
    }
    if let Some(rest) = strip_prefix_str(l, "steer ") {
        let (_, after) = split_ws_str(raw.as_str());
        return match after {
            Some(a) => SeatOp::Steer(trim_str(a.as_str())),
            None => SeatOp::Steer(trim_str(rest.as_str())),
        };
    }
    if str_eq(l, "abort") {
        return SeatOp::Abort;
    }
    if let Some(rest) = strip_prefix_str(l, "logs ") {
        return make_target(SeatVerb::Logs, seat_after(raw.as_str(), rest.as_str()));
    }
    if let Some(rest) = strip_prefix_str(l, "log ") {
        return make_target(SeatVerb::Logs, seat_after(raw.as_str(), rest.as_str()));
    }
    SeatOp::Usage
}

/// Whether `/seat <arg>` names a seat operation rather than a change to the
/// bound seat: no argument, one of `status`, `board`, `detach`, `abort`, or
/// an operation word followed by a space (matched case-insensitively on the
/// trimmed text).
pub open spec fn names_seat_op(arg: Seq<char>) -> bool {
    let lower = spec_to_lowercase(trim(arg));
    ||| lower.len() == 0
    ||| lower == "status"@
    ||| lower == "board"@
    ||| lower == "detach"@
    ||| lower == "abort"@
    ||| starts_with(lower, "follow "@)
    ||| starts_with(lower, "attach "@)
    ||| starts_with(lower, "open "@)
    ||| starts_with(lower, "inspect "@)
    ||| starts_with(lower, "steer "@)
    ||| starts_with(lower, "logs "@)
    ||| starts_with(lower, "log "@)
}

/// Whether `/seat <arg>` is a seat operation.
pub fn is_seat_op(arg: &str) -> (r: bool)
    ensures
        r == names_seat_op(arg@),
{
    let raw = trim_str(arg);
    let lower = to_lowercase(raw.as_str());
    let l = lower.as_str();
    l.is_empty() || str_eq(l, "status") || str_eq(l, "board") || str_eq(l, "detach") || str_eq(
        l,
        "abort",
    ) || crate::text::str_starts_with(l, "follow ") || crate::text::str_starts_with(l, "attach ")
        || crate::text::str_starts_with(l, "open ") || crate::text::str_starts_with(l, "inspect ")
        || crate::text::str_starts_with(l, "steer ") || crate::text::str_starts_with(l, "logs ")
        || crate::text::str_starts_with(l, "log ")
}


/// `/route <seat> [reason]`.
#[derive(Clone, Debug, PartialEq, Eq)]
pub enum RouteCmd<S> {
    /// Route control to `to`, giving `reason`.
    Route { to: S, reason: S },
    /// No seat was named.
    Usage,
}

/// The character sequences a route command holds.
pub open spec fn route_view(c: RouteCmd<String>) -> RouteCmd<Seq<char>> {
    match c {
        RouteCmd::Route { to, reason } => RouteCmd::Route { to: to@, reason: reason@ },
        RouteCmd::Usage => RouteCmd::Usage,
    }
}

/// `/route`: the first word is the seat; the other words, joined by
/// spaces, are the reason, which defaults to `routed from TUI`.
pub open spec fn route_of(arg: Seq<char>) -> RouteCmd<Seq<char>> {
    let w = words(arg);
    if w.len() == 0 {
        RouteCmd::Usage
    } else {
        let reason = join_space(w.skip(1));
        RouteCmd::Route {
            to: w[0],
            reason: if reason.len() == 0 {
                "routed from TUI"@
            } else {
                reason
            },
        }
    }
}

/// Reads the argument of `/route`.
pub fn route_command(arg: &str) -> (r: RouteCmd<String>)
    ensures
        route_view(r) == route_of(arg@),
{
    let ws = words_str(arg);
    if ws.len() == 0 {
        return RouteCmd::Usage;
    }
    let ghost w = words(arg@);
    let mut reason = String::new();
    let mut i: usize = 1;
    while i < ws.len()
        invariant
            1 <= i <= ws.len(),
            ws@.len() == w.len(),
            forall|j: int| 0 <= j < ws@.len() ==> #[trigger] ws@[j]@ == w[j],
            reason@ == join_space(w.subrange(1, i as int)),
        decreases ws.len() - i,
    {
        proof {
            assert(w.subrange(1, i + 1).drop_last() =~= w.subrange(1, i as int));
            reveal_strlit(" ");
        }
        if i > 1 {
            reason.push(' ');
        }
        reason.append(ws[i].as_str());
        proof {
            if i == 1 {
                assert(reason@ =~= join_space(w.subrange(1, 2)));
            } else {
                assert(reason@ =~= join_space(w.subrange(1, i + 1)));
            }
        }
        i += 1;
    }
    proof {
        assert(w.subrange(1, w.len() as int) =~= w.skip(1));
    }
    let to = ws[0].clone();
    if reason.as_str().is_empty() {
        RouteCmd::Route { to, reason: "routed from TUI".to_string() }
    } else {
        RouteCmd::Route { to, reason }
    }
}

/// `/mail …`.
#[derive(Clone, Debug, PartialEq, Eq)]
pub enum MailCmd<S> {
    /// Show the inbox of the bound seat.
    Inbox,
    /// Acknowledge the message with this id.
    Ack(S),
    /// Send `body` to `to`.
    Send { to: S, body: S },
    /// `send` without a recipient or a body.
    SendUsage,
    Usage,
}

/// The character sequences a mail command holds.
pub open spec fn mail_view(c: MailCmd<String>) -> MailCmd<Seq<char>> {
    match c {
        MailCmd::Inbox => MailCmd::Inbox,
        MailCmd::Ack(s) => MailCmd::Ack(s@),
        MailCmd::Send { to, body } => MailCmd::Send { to: to@, body: body@ },
        MailCmd::SendUsage => MailCmd::SendUsage,
        MailCmd::Usage => MailCmd::Usage,
    }
}

/// The text after the first whitespace, or nothing.
pub open spec fn after_ws(s: Seq<char>) -> Seq<char> {
    match split_ws(s).1 {
        Some(b) => b,
        None => seq![],
    }
}

/// `/mail`: on the trimmed argument, nothing, `inbox` or `read` show the
/// inbox; `ack <id>` acknowledges; `send <to> <body…>` sends (the recipient
/// runs to the first whitespace, both parts trimmed).
pub open spec fn mail_of(arg: Seq<char>) -> MailCmd<Seq<char>> {
    let rest = trim(arg);
    if rest.len() == 0 || rest == "inbox"@ || rest == "read"@ {
        MailCmd::Inbox
    } else if strip_prefix(rest, "ack "@) is Some {
        MailCmd::Ack(trim(strip_prefix(rest, "ack "@)->0))
    } else if strip_prefix(rest, "send "@) is Some {
        let s = strip_prefix(rest, "send "@)->0;
        let to = trim(split_ws(s).0);
        let body = trim(after_ws(s));
        if to.len() == 0 || body.len() == 0 {
            MailCmd::SendUsage
        } else {
            MailCmd::Send { to, body }
        }
    } else {
        MailCmd::Usage
    }
}

/// The text after the first whitespace of a string slice, or nothing.
fn after_ws_str(s: &str) -> (r: String)
    ensures
        r@ == after_ws(s@),
{
    let (_, b) = split_ws_str(s);
    match b {
        Some(b) => b,
        None => String::new(),
    }
}

/// Reads the argument of `/mail`.
pub fn mail_command(arg: &str) -> (r: MailCmd<String>)
    ensures
        mail_view(r) == mail_of(arg@),
{
    let rest = trim_str(arg);
    let t = rest.as_str();
    if t.is_empty() || str_eq(t, "inbox") || str_eq(t, "read") {
        return MailCmd::Inbox;
    }
    if let Some(id) = strip_prefix_str(t, "ack ") {
        return MailCmd::Ack(trim_str(id.as_str()));
    }
    if let Some(s) = strip_prefix_str(t, "send ") {
        let (head, _) = split_ws_str(s.as_str());
        let to = trim_str(head.as_str());
        let body = trim_str(after_ws_str(s.as_str()).as_str());
        if to.as_str().is_empty() || body.as_str().is_empty() {
            return MailCmd::SendUsage;
        }
        return MailCmd::Send { to, body };
    }
    MailCmd::Usage
}

/// `/moot …`.
#[derive(Clone, Debug, PartialEq, Eq)]
pub enum MootCmd<S> {
    List,
    /// Open a moot on this topic.
    Open(S),
    /// Append `text` to moot `id`.
    Append { id: S, text: S },
    /// Close moot `id`, with a summary when one was given.
    Close { id: S, summary: Option<S> },
    /// Show moot `id`.
    Show(S),
    Usage,
}

/// The character sequences a moot command holds.
pub open spec fn moot_view(c: MootCmd<String>) -> MootCmd<Seq<char>> {
    match c {
        MootCmd::List => MootCmd::List,
        MootCmd::Open(s) => MootCmd::Open(s@),
        MootCmd::Append { id, text } => MootCmd::Append { id: id@, text: text@ },
        MootCmd::Close { id, summary } => MootCmd::Close { id: id@, summary: opt_view(summary) },
        MootCmd::Show(s) => MootCmd::Show(s@),
        MootCmd::Usage => MootCmd::Usage,
    }
}

/// `/moot`: on the trimmed argument, nothing or `list` lists; `open
/// <topic>`, `append <id> <text>`, `close <id> [summary]` and `show <id>`
/// name a moot. The id runs to the first whitespace; topic, text, summary
/// and the shown id are trimmed.
pub open spec fn moot_of(arg: Seq<char>) -> MootCmd<Seq<char>> {
    let rest = trim(arg);
    if rest.len() == 0 || rest == "list"@ {
        MootCmd::List
    } else if strip_prefix(rest, "open "@) is Some {
        MootCmd::Open(trim(strip_prefix(rest, "open "@)->0))
    } else if strip_prefix(rest, "append "@) is Some {
        let s = strip_prefix(rest, "append "@)->0;
        MootCmd::Append { id: split_ws(s).0, text: trim(after_ws(s)) }
    } else if strip_prefix(rest, "close "@) is Some {
        let s = strip_prefix(rest, "close "@)->0;
        MootCmd::Close {
            id: split_ws(s).0,
            summary: match split_ws(s).1 {
                Some(b) => Some(trim(b)),
                None => None,
            },
        }
    } else if strip_prefix(rest, "show "@) is Some {
        MootCmd::Show(trim(strip_prefix(rest, "show "@)->0))
    } else {
        MootCmd::Usage
    }
}

/// Reads the argument of `/moot`.
pub fn moot_command(arg: &str) -> (r: MootCmd<String>)
    ensures
        moot_view(r) == moot_of(arg@),
{
    let rest = trim_str(arg);
    let t = rest.as_str();
    if t.is_empty() || str_eq(t, "list") {
        return MootCmd::List;
    }
    if let Some(topic) = strip_prefix_str(t, "open ") {
        return MootCmd::Open(trim_str(topic.as_str()));
    }
    if let Some(s) = strip_prefix_str(t, "append ") {
        let (id, _) = split_ws_str(s.as_str());
        let text = trim_str(after_ws_str(s.as_str()).as_str());
        return MootCmd::Append { id, text };
    }
    if let Some(s) = strip_prefix_str(t, "close ") {
        let (id, summary) = split_ws_str(s.as_str());
        let summary = match summary {
            Some(b) => Some(trim_str(b.as_str())),
            None => None,
        };
        return MootCmd::Close { id, summary };
    }
    if let Some(id) = strip_prefix_str(t, "show ") {
        return MootCmd::Show(trim_str(id.as_str()));
    }
    MootCmd::Usage
}

/// `/marshal …`.
#[derive(Clone, Debug, PartialEq, Eq)]
pub enum MarshalCmd<S> {
    /// Run one marshal pass.
    Run,
    /// Assign `bead` to `seat`.
    Assign { bead: S, seat: S },
    /// `assign` without a bead or a seat.
    AssignUsage,
    Usage,
}

/// The character sequences a marshal command holds.
pub open spec fn marshal_view(c: MarshalCmd<String>) -> MarshalCmd<Seq<char>> {
    match c {
        MarshalCmd::Run => MarshalCmd::Run,
        MarshalCmd::Assign { bead, seat } => MarshalCmd::Assign { bead: bead@, seat: seat@ },
        MarshalCmd::AssignUsage => MarshalCmd::AssignUsage,
        MarshalCmd::Usage => MarshalCmd::Usage,
    }
}

/// A word of the text, or nothing when there are fewer words.
pub open spec fn word_or_empty(s: Seq<char>, n: int) -> Seq<char> {
    match word_at(s, n) {
        Some(w) => w,
        None => seq![],
    }
}

/// `/marshal`: no argument runs a pass; `assign <bead> <seat>` (the first
/// two words after `assign `) assigns.
pub open spec fn marshal_of(arg: Seq<char>) -> MarshalCmd<Seq<char>> {
    let rest = trim(arg);
    if rest.len() == 0 {
        MarshalCmd::Run
    } else if strip_prefix(rest, "assign "@) is Some {
        let s = strip_prefix(rest, "assign "@)->0;
        let bead = word_or_empty(s, 0);
        let seat = word_or_empty(s, 1);
        if bead.len() == 0 || seat.len() == 0 {
            MarshalCmd::AssignUsage
        } else {
            MarshalCmd::Assign { bead, seat }
        }
    } else {
        MarshalCmd::Usage
    }
}

/// A word of a string slice, or the empty string.
fn word_or_empty_str(s: &str, n: usize) -> (r: String)
    ensures
        r@ == word_or_empty(s@, n as int),
{
    match word_at_str(s, n) {
        Some(w) => w,
        None => String::new(),
    }
}

/// Reads the argument of `/marshal`.
pub fn marshal_command(arg: &str) -> (r: MarshalCmd<String>)
    ensures
        marshal_view(r) == marshal_of(arg@),
{
    let rest = trim_str(arg);
    let t = rest.as_str();
    if t.is_empty() {
        return MarshalCmd::Run;
    }
    if let Some(s) = strip_prefix_str(t, "assign ") {
        let bead = word_or_empty_str(s.as_str(), 0);
        let seat = word_or_empty_str(s.as_str(), 1);
        if bead.as_str().is_empty() || seat.as_str().is_empty() {
            return MarshalCmd::AssignUsage;
        }
        return MarshalCmd::Assign { bead, seat };
    }
    MarshalCmd::Usage
}


/// `/brain …`.
#[derive(Clone, Debug, PartialEq, Eq)]
pub enum BrainCmd<S> {
    /// Remember this fact.
    Remember(S),
    /// `remember` without a fact.
    RememberUsage,
    /// Falsify the facts this query finds.
    Falsify(S),
    /// Show the ledger.
    Ledger,
    /// Show the recent facts.
    Facts,
}

/// The character sequences a brain command holds.
pub open spec fn brain_view(c: BrainCmd<String>) -> BrainCmd<Seq<char>> {
    match c {
        BrainCmd::Remember(s) => BrainCmd::Remember(s@),
        BrainCmd::RememberUsage => BrainCmd::RememberUsage,
        BrainCmd::Falsify(s) => BrainCmd::Falsify(s@),
        BrainCmd::Ledger => BrainCmd::Ledger,
        BrainCmd::Facts => BrainCmd::Facts,
    }
}

/// The fact after `remember ` or, failing that, after `remember`.
pub open spec fn remembered(rest: Seq<char>) -> Option<Seq<char>> {
    if strip_prefix(rest, "remember "@) is Some {
        strip_prefix(rest, "remember "@)
    } else {
        strip_prefix(rest, "remember"@)
    }
}

/// `/brain`: on the trimmed argument, `remember <fact>` remembers the
/// trimmed fact, `falsify <query>` falsifies, `ledger` shows the ledger,
/// and anything else shows the facts.
pub open spec fn brain_of(arg: Seq<char>) -> BrainCmd<Seq<char>> {
    let rest = trim(arg);
    if remembered(rest) is Some {
        let fact = trim(remembered(rest)->0);
        if fact.len() == 0 {
            BrainCmd::RememberUsage
        } else {
            BrainCmd::Remember(fact)
        }
    } else if strip_prefix(rest, "falsify "@) is Some {
        BrainCmd::Falsify(trim(strip_prefix(rest, "falsify "@)->0))
    } else if rest == "ledger"@ {
        BrainCmd::Ledger
    } else {
        BrainCmd::Facts
    }
}

/// Reads the argument of `/brain`.
pub fn brain_command(arg: &str) -> (r: BrainCmd<String>)
    ensures
        brain_view(r) == brain_of(arg@),
{
    let rest = trim_str(arg);
    let t = rest.as_str();
    let fact = match strip_prefix_str(t, "remember ") {
        Some(f) => Some(f),
        None => strip_prefix_str(t, "remember"),
    };
    if let Some(f) = fact {
        let fact = trim_str(f.as_str());
        if fact.as_str().is_empty() {
            return BrainCmd::RememberUsage;
        }
        return BrainCmd::Remember(fact);
    }
    if let Some(q) = strip_prefix_str(t, "falsify ") {
        return BrainCmd::Falsify(trim_str(q.as_str()));
    }
    if str_eq(t, "ledger") {
        return BrainCmd::Ledger;
    }
    BrainCmd::Facts
}

/// `/lsp …`.
#[derive(Clone, Copy, Debug, PartialEq, Eq, Structural)]
pub enum LspCmd {
    Start,
    Stop,
    Status,
    Usage,
}

/// `/lsp`: the first word names the action, `status` when there is none.
pub open spec fn lsp_of(arg: Seq<char>) -> LspCmd {
    let sub = match word_at(arg, 0) {
        Some(w) => w,
        None => "status"@,
    };
    if sub == "start"@ {
        LspCmd::Start
    } else if sub == "stop"@ {
        LspCmd::Stop
    } else if sub == "status"@ || sub.len() == 0 {
        LspCmd::Status
    } else {
        LspCmd::Usage
    }
}

/// Reads the argument of `/lsp`.
pub fn lsp_command(arg: &str) -> (r: LspCmd)
    ensures
        r == lsp_of(arg@),
{
    let sub = match word_at_str(arg, 0) {
        Some(w) => w,
        None => "status".to_string(),
    };
    let s = sub.as_str();
    if str_eq(s, "start") {
        LspCmd::Start
    } else if str_eq(s, "stop") {
        LspCmd::Stop
    } else if str_eq(s, "status") || s.is_empty() {
        LspCmd::Status
    } else {
        LspCmd::Usage
    }
}

/// `/trust …`.
#[derive(Clone, Copy, Debug, PartialEq, Eq, Structural)]
pub enum TrustCmd {
    List,
    Reset,
    Usage,
}

/// `/trust`: the text before the first whitespace, trimmed, is `list` (or
/// nothing) to list, `reset` or `clear` to clear.
pub open spec fn trust_of(arg: Seq<char>) -> TrustCmd {
    let sub = trim(split_ws(arg).0);
    if sub == "list"@ || sub.len() == 0 {
        TrustCmd::List
    } else if sub == "reset"@ || sub == "clear"@ {
        TrustCmd::Reset
    } else {
        TrustCmd::Usage
    }
}

/// Reads the argument of `/trust`.
pub fn trust_command(arg: &str) -> (r: TrustCmd)
    ensures
        r == trust_of(arg@),
{
    let (head, _) = split_ws_str(arg);
    let sub = trim_str(head.as_str());
    let s = sub.as_str();
    if str_eq(s, "list") || s.is_empty() {
        TrustCmd::List
    } else if str_eq(s, "reset") || str_eq(s, "clear") {
        TrustCmd::Reset
    } else {
        TrustCmd::Usage
    }
}

/// `/prompt <name> [args]`: the name runs to the first whitespace, the
/// arguments are the rest; both trimmed.
pub open spec fn prompt_parts(arg: Seq<char>) -> (Seq<char>, Seq<char>) {
    (trim(split_ws(arg).0), trim(after_ws(arg)))
}

/// Reads the argument of `/prompt` into template name and arguments.
pub fn prompt_args(arg: &str) -> (r: (String, String))
    ensures
        (r.0@, r.1@) == prompt_parts(arg@),
{
    let (head, _) = split_ws_str(arg);
    let name = trim_str(head.as_str());
    let args = trim_str(after_ws_str(arg).as_str());
    (name, args)
}

/// `/city`: `board`, `status` or `text` (trimmed, any case) shows the
/// board as text; anything else toggles the panel.
pub open spec fn city_shows_board(arg: Seq<char>) -> bool {
    let raw = spec_to_lowercase(trim(arg));
    raw == "board"@ || raw == "status"@ || raw == "text"@
}

/// Whether `/city <arg>` shows the board rather than toggling the panel.
pub fn city_command(arg: &str) -> (r: bool)
    ensures
        r == city_shows_board(arg@),
{
    let t = trim_str(arg);
    let raw = to_lowercase(t.as_str());
    let s = raw.as_str();
    str_eq(s, "board") || str_eq(s, "status") || str_eq(s, "text")
}


/// `/fleet …`.
#[derive(Clone, Debug, PartialEq, Eq)]
pub enum FleetCmd<S> {
    /// Toggle the city panel.
    Panel,
    /// Show the city board as text.
    Status,
    /// Bring seats down: all of them, or those the (lowercased) list names.
    Down(Option<S>),
    /// Bring up the default pair of fleet seats.
    UpDefault,
    /// Bring up the seats this list (as typed) names.
    Up(S),
    /// Any other text is a seat operation.
    Seat(SeatOp<S>),
}

/// The character sequences a fleet command holds.
pub open spec fn fleet_view(c: FleetCmd<String>) -> FleetCmd<Seq<char>> {
    match c {
        FleetCmd::Panel => FleetCmd::Panel,
        FleetCmd::Status => FleetCmd::Status,
        FleetCmd::Down(o) => FleetCmd::Down(opt_view(o)),
        FleetCmd::UpDefault => FleetCmd::UpDefault,
        FleetCmd::Up(s) => FleetCmd::Up(s@),
        FleetCmd::Seat(op) => FleetCmd::Seat(seat_op_view(op)),
    }
}

/// The text after `up ` in the lowercased argument, or nothing when it is
/// exactly `up`.
pub open spec fn up_rest(lower: Seq<char>) -> Option<Seq<char>> {
    if strip_prefix(lower, "up "@) is Some {
        strip_prefix(lower, "up "@)
    } else if lower == "up"@ {
        Some(seq![])
    } else {
        None
    }
}

/// `/fleet`: matched on the trimmed, lowercased argument. Nothing or
/// `panel` toggles the panel, `status` shows the board, `down [seats]`
/// brings seats down, `up [seats]` brings them up (the list as typed, after
/// the first word; the default pair when none is given), and anything else
/// is a seat operation.
pub open spec fn fleet_of(arg: Seq<char>) -> FleetCmd<Seq<char>> {
    let raw = trim(arg);
    let lower = spec_to_lowercase(raw);
    if lower.len() == 0 || lower == "panel"@ {
        FleetCmd::Panel
    } else if lower == "status"@ {
        FleetCmd::Status
    } else if lower == "down"@ {
        FleetCmd::Down(None)
    } else if strip_prefix(lower, "down "@) is Some {
        FleetCmd::Down(strip_prefix(lower, "down "@))
    } else if up_rest(lower) is Some {
        if trim(up_rest(lower)->0).len() == 0 {
            FleetCmd::UpDefault
        } else {
            let after = match split_ws(raw).1 {
                Some(r) => trim(r),
                None => seq![],
            };
            FleetCmd::Up(
                if after.len() == 0 {
                    "Fleet-1,Fleet-2"@
                } else {
                    after
                },
            )
        }
    } else {
        FleetCmd::Seat(seat_op_of(raw))
    }
}

/// Reads the argument of `/fleet`.
pub fn fleet_command(arg: &str) -> (r: FleetCmd<String>)
    ensures
        fleet_view(r) == fleet_of(arg@),
{
    let raw = trim_str(arg);
    let lower = to_lowercase(raw.as_str());
    let l = lower.as_str();
    if l.is_empty() || str_eq(l, "panel") {
        return FleetCmd::Panel;
    }
    if str_eq(l, "status") {
        return FleetCmd::Status;
    }
    if str_eq(l, "down") {
        return FleetCmd::Down(None);
    }
    if let Some(rest) = strip_prefix_str(l, "down ") {
        return FleetCmd::Down(Some(rest));
    }
    let up = match strip_prefix_str(l, "up ") {
        Some(rest) => Some(rest),
        None => if str_eq(l, "up") {
            Some(String::new())
        } else {
            None
        },
    };
    if let Some(rest) = up {
        let rt = trim_str(rest.as_str());
        if rt.as_str().is_empty() {
            return FleetCmd::UpDefault;
        }
        let (_, after) = split_ws_str(raw.as_str());
        let after = match after {
            Some(a) => trim_str(a.as_str()),
            None => String::new(),
        };
        if after.as_str().is_empty() {
            return FleetCmd::Up("Fleet-1,Fleet-2".to_string());
        }
        return FleetCmd::Up(after);
    }
    FleetCmd::Seat(seat_op(raw.as_str()))
}

/// `/skill-pack …`; `L` holds the list of skill names.
#[derive(Clone, Debug, PartialEq, Eq)]
pub enum SkillPackCmd<S, L> {
    /// Export these skills (all when the list is empty) into `out`.
    Export { names: L, out: S },
    /// Import this pack.
    Import(S),
    /// `import` without a path.
    ImportUsage,
    Usage,
}

/// The character sequences a skill-pack command holds.
pub open spec fn skill_pack_view(c: SkillPackCmd<String, Vec<String>>) -> SkillPackCmd<
    Seq<char>,
    Seq<Seq<char>>,
> {
    match c {
        SkillPackCmd::Export { names, out } => SkillPackCmd::Export {
            names: crate::text::string_views(names@),
            out: out@,
        },
        SkillPackCmd::Import(s) => SkillPackCmd::Import(s@),
        SkillPackCmd::ImportUsage => SkillPackCmd::ImportUsage,
        SkillPackCmd::Usage => SkillPackCmd::Usage,
    }
}

/// `/skill-pack`: on the words of the argument, `export [names…]` writes
/// `skills-pack.zip`, or `<first name>-skills.zip` when names are given;
/// `import <path>` reads the pack at the second word.
pub open spec fn skill_pack_of(arg: Seq<char>) -> SkillPackCmd<Seq<char>, Seq<Seq<char>>> {
    let w = words(arg);
    let sub = word_or_empty(arg, 0);
    if sub == "export"@ {
        let names = w.skip(1);
        SkillPackCmd::Export {
            names,
            out: if names.len() == 0 {
                "skills-pack.zip"@
            } else {
                names[0] + "-skills.zip"@
            },
        }
    } else if sub == "import"@ {
        let path = word_or_empty(arg, 1);
        if path.len() == 0 {
            SkillPackCmd::ImportUsage
        } else {
            SkillPackCmd::Import(path)
        }
    } else {
        SkillPackCmd::Usage
    }
}

/// Reads the argument of `/skill-pack`.
pub fn skill_pack_command(arg: &str) -> (r: SkillPackCmd<String, Vec<String>>)
    ensures
        skill_pack_view(r) == skill_pack_of(arg@),
{
    let ws = words_str(arg);
    let ghost w = words(arg@);
    let sub = word_or_empty_str(arg, 0);
    let s = sub.as_str();
    if str_eq(s, "export") {
        proof {
            reveal_strlit("export");
            assert(sub@.len() > 0);
            assert(w.len() > 0);
            assert(w.subrange(1, 1) =~= Seq::<Seq<char>>::empty());
        }
        let mut names: Vec<String> = Vec::new();
        let mut i: usize = 1;
        while i < ws.len()
            invariant
                1 <= i <= ws.len(),
                ws@.len() == w.len(),
                forall|j: int| 0 <= j < ws@.len() ==> #[trigger] ws@[j]@ == w[j],
                crate::text::string_views(names@) == w.subrange(1, i as int),
            decreases ws.len() - i,
        {
            let ghost before = names@;
            let c = ws[i].clone();
            names.push(c);
            proof {
                assert(c@ == w[i as int]);
                assert(crate::text::string_views(names@) =~= crate::text::string_views(before).push(
                    c@,
                ));
                assert(w.subrange(1, i + 1) =~= w.subrange(1, i as int).push(w[i as int]));
            }
            i += 1;
        }
        proof {
            assert(w.subrange(1, w.len() as int) =~= w.skip(1));
        }
        let out = if names.len() == 0 {
            "skills-pack.zip".to_string()
        } else {
            let mut o = names[0].clone();
            o.append("-skills.zip");
            o
        };
        return SkillPackCmd::Export { names, out };
    }
    if str_eq(s, "import") {
        let path = word_or_empty_str(arg, 1);
        if path.as_str().is_empty() {
            return SkillPackCmd::ImportUsage;
        }
        return SkillPackCmd::Import(path);
    }
    SkillPackCmd::Usage
}

} // verus!

