//! Chrome geometry of the chat shell: header, chat (with an optional side
//! panel), optional console, input and footer.

use vstd::prelude::*;
use crate::geometry::Rect;
use ratatui::layout::{Constraint, Direction, Layout};

verus! {

/// A size rule for one area of a split.
#[derive(Debug, Clone, Copy, PartialEq, Eq, Structural)]
pub enum LayoutConstraint {
    Length(u16),
    Min(u16),
    Percentage(u16),
}

/// A rectangle of a split of `area`: the whole of `area` across the split,
/// and within it along the split (rows when `vertical`, else columns).
pub open spec fn split_part(area: Rect, vertical: bool, p: Rect) -> bool {
    if vertical {
        p.x == area.x && p.width == area.width && area.y <= p.y && p.y + p.height <= area.y + area.height
    } else {
        p.y == area.y && p.height == area.height && area.x <= p.x && p.x + p.width <= area.x + area.width
    }
}

/// Every rectangle of `parts` is a part of a split of `area`.
pub open spec fn split_parts(area: Rect, vertical: bool, parts: Seq<Rect>) -> bool {
    forall|i: int| 0 <= i < parts.len() ==> split_part(area, vertical, #[trigger] parts[i])
}

/// For a split by exactly two percentages that make up the whole, the
/// part with the larger (or equal) share is the first: it is at least as
/// long along the split as the second.
pub open spec fn percent_pair_ordered(vertical: bool, constraints: Seq<LayoutConstraint>, parts: Seq<Rect>) -> bool {
    constraints.len() == 2 && parts.len() == 2 ==> match (constraints[0], constraints[1]) {
        (LayoutConstraint::Percentage(a), LayoutConstraint::Percentage(b)) => a + b == 100 && a >= b ==> if vertical {
            parts[0].height >= parts[1].height
        } else {
            parts[0].width >= parts[1].width
        },
        _ => true,
    }
}

/// Calls `ratatui::layout::Layout::split` on `area` with the given direction
/// and constraints. The solver gives one rectangle per constraint; each
/// spans `area` across the split (`changes_to_rects` copies that side of
/// the area) and lies within it along the split (the solver's required
/// constraints keep every boundary between the area's start and end).
/// Two percentages that make up the whole are met as they stand (their
/// strong constraints outweigh the weak growth ones of the default
/// `Flex::Start` layout), so the boundary between the parts falls at the
/// first share, rounded half away from zero: the part with the larger
/// share is not the shorter one.
/// Where else within the area each one lies is left unstated (ratatui documents
/// its result as possibly indeterminate for conflicting constraints, and
/// its solver's hash maps are seeded per process).
#[verifier::external_body]
fn split_area(area: Rect, vertical: bool, constraints: &Vec<LayoutConstraint>) -> (r: Vec<Rect>)
    ensures
        r@.len() == constraints@.len(),
        split_parts(area, vertical, r@),
        percent_pair_ordered(vertical, constraints@, r@),
{
    let cs: Vec<Constraint> = constraints.iter().map(|c| match *c {
        LayoutConstraint::Length(n) => Constraint::Length(n),
        LayoutConstraint::Min(n) => Constraint::Min(n),
        LayoutConstraint::Percentage(n) => Constraint::Percentage(n),
    }).collect();
    let dir = if vertical { Direction::Vertical } else { Direction::Horizontal };
    let a = ratatui::layout::Rect { x: area.x, y: area.y, width: area.width, height: area.height };
    let parts = Layout::default().direction(dir).constraints(cs).split(a);
    parts.iter().map(|p| Rect { x: p.x, y: p.y, width: p.width, height: p.height }).collect()
}

/// Which optional areas are shown, and their sizes.
#[derive(Debug, Clone, Copy, PartialEq, Eq, Structural)]
pub struct LayoutOpts {
    pub show_repl: bool,
    pub show_side: bool,
    /// Side panel width, percent of the chat row.
    pub side_pct: u16,
    /// Console height, rows.
    pub repl_height: u16,
}

/// The areas of the shell.
#[derive(Debug, Clone, Copy, PartialEq, Eq, Structural)]
pub struct ViewRects {
    pub header: Rect,
    pub chat: Rect,
    pub side: Option<Rect>,
    pub repl: Option<Rect>,
    pub input: Rect,
    pub footer: Rect,
    pub full: Rect,
}

/// `v` kept within `lo..=hi`.
pub open spec fn clamp16(v: u16, lo: u16, hi: u16) -> u16 {
    if v < lo {
        lo
    } else if v > hi {
        hi
    } else {
        v
    }
}

/// Rows of the shell: header (1), chat (at least 3), the console (4 to 14
/// rows) when shown, input (3) and footer (1).
pub open spec fn row_constraints(opts: LayoutOpts) -> Seq<LayoutConstraint> {
    seq![LayoutConstraint::Length(1), LayoutConstraint::Min(3)] + (if opts.show_repl {
        seq![LayoutConstraint::Length(clamp16(opts.repl_height, 4, 14))]
    } else {
        seq![]
    }) + seq![LayoutConstraint::Length(3), LayoutConstraint::Length(1)]
}

/// Columns of the chat row when the side panel shows: the panel takes 22
/// to 48 percent.
pub open spec fn side_constraints(opts: LayoutOpts) -> Seq<LayoutConstraint> {
    let pct = clamp16(opts.side_pct, 22, 48);
    seq![LayoutConstraint::Percentage((100 - pct) as u16), LayoutConstraint::Percentage(pct)]
}

/// The shell's areas from the row split and, when the side panel shows,
/// the split of the chat row.
pub open spec fn assembled(area: Rect, opts: LayoutOpts, rows: Seq<Rect>, cols: Seq<Rect>) -> ViewRects {
    let k: int = if opts.show_repl {
        1
    } else {
        0
    };
    ViewRects {
        header: rows[0],
        chat: if opts.show_side {
            cols[0]
        } else {
            rows[1]
        },
        side: if opts.show_side {
            Some(cols[1])
        } else {
            None
        },
        repl: if opts.show_repl {
            Some(rows[2])
        } else {
            None
        },
        input: rows[2 + k],
        footer: rows[3 + k],
        full: area,
    }
}

/// The shell's areas for some row split of `area` by the row constraints
/// and, when the side panel shows, some column split of the chat row.
pub open spec fn view_from_splits(area: Rect, opts: LayoutOpts, r: ViewRects) -> bool {
    exists|rows: Seq<Rect>, cols: Seq<Rect>|
        #![trigger assembled(area, opts, rows, cols)]
        rows.len() == row_constraints(opts).len() && split_parts(area, true, rows) && (opts.show_side ==> cols.len()
            == 2 && split_parts(rows[1], false, cols) && percent_pair_ordered(false, side_constraints(opts), cols)) && r
            == assembled(area, opts, rows, cols)
}

/// `inner` lies within `outer`.
pub open spec fn rect_within(inner: Rect, outer: Rect) -> bool {
    outer.x <= inner.x && inner.x + inner.width <= outer.x + outer.width && outer.y <= inner.y && inner.y
        + inner.height <= outer.y + outer.height
}

/// Every area of the shell lies within the whole.
pub open spec fn view_within(r: ViewRects, area: Rect) -> bool {
    &&& rect_within(r.header, area)
    &&& rect_within(r.chat, area)
    &&& (r.side matches Some(s) ==> rect_within(s, area))
    &&& (r.repl matches Some(c) ==> rect_within(c, area))
    &&& rect_within(r.input, area)
    &&& rect_within(r.footer, area)
}

/// The areas made from splits of `area` lie within it.
pub proof fn lemma_view_within(area: Rect, opts: LayoutOpts, r: ViewRects)
    requires
        view_from_splits(area, opts, r),
    ensures
        view_within(r, area),
{
    let (rows, cols) = choose|rows: Seq<Rect>, cols: Seq<Rect>|
        rows.len() == row_constraints(opts).len() && split_parts(area, true, rows) && (opts.show_side ==> cols.len()
            == 2 && split_parts(rows[1], false, cols) && percent_pair_ordered(false, side_constraints(opts), cols)) && r
            == assembled(area, opts, rows, cols);
    let n = row_constraints(opts).len();
    assert(n == if opts.show_repl { 5int } else { 4int });
    assert(split_part(area, true, rows[0]));
    assert(split_part(area, true, rows[1]));
    assert(split_part(area, true, rows[2]));
    assert(split_part(area, true, rows[3]));
    if opts.show_repl {
        assert(split_part(area, true, rows[4]));
    }
    if opts.show_side {
        assert(split_part(rows[1], false, cols[0]));
        assert(split_part(rows[1], false, cols[1]));
    }
}

fn clamp_u16(v: u16, lo: u16, hi: u16) -> (r: u16)
    requires
        lo <= hi,
    ensures
        r == clamp16(v, lo, hi),
{
    if v < lo {
        lo
    } else if v > hi {
        hi
    } else {
        v
    }
}

/// The row constraints for the options.
pub fn view_constraints(opts: LayoutOpts) -> (r: Vec<LayoutConstraint>)
    ensures
        r@ == row_constraints(opts),
{
    let mut c: Vec<LayoutConstraint> = Vec::new();
    c.push(LayoutConstraint::Length(1));
    c.push(LayoutConstraint::Min(3));
    if opts.show_repl {
        c.push(LayoutConstraint::Length(clamp_u16(opts.repl_height, 4, 14)));
    }
    c.push(LayoutConstraint::Length(3));
    c.push(LayoutConstraint::Length(1));
    proof {
        assert(c@ =~= row_constraints(opts));
    }
    c
}

/// The chat row's column constraints for the options.
pub fn side_split_constraints(opts: LayoutOpts) -> (r: Vec<LayoutConstraint>)
    ensures
        r@ == side_constraints(opts),
{
    let pct = clamp_u16(opts.side_pct, 22, 48);
    let mut c: Vec<LayoutConstraint> = Vec::new();
    c.push(LayoutConstraint::Percentage(100 - pct));
    c.push(LayoutConstraint::Percentage(pct));
    proof {
        assert(c@ =~= side_constraints(opts));
    }
    c
}

/// Name the areas, given the row split and (when the side panel shows) the
/// split of the chat row.
pub fn assemble_view(area: Rect, opts: LayoutOpts, rows: &Vec<Rect>, cols: &Vec<Rect>) -> (r: ViewRects)
    requires
        rows@.len() == row_constraints(opts).len(),
        opts.show_side ==> cols@.len() == 2,
    ensures
        r == assembled(area, opts, rows@, cols@),
{
    let k: usize = if opts.show_repl {
        1
    } else {
        0
    };
    let (chat, side) = if opts.show_side {
        (cols[0], Some(cols[1]))
    } else {
        (rows[1], None)
    };
    ViewRects {
        header: rows[0],
        chat,
        side,
        repl: if opts.show_repl {
            Some(rows[2])
        } else {
            None
        },
        input: rows[2 + k],
        footer: rows[3 + k],
        full: area,
    }
}

/// Compute the shell's areas: the areas `assemble_view` names from ratatui's
/// row split of `area` and, when the side panel shows, its column split of
/// the chat row.
pub fn compute_view(area: Rect, opts: LayoutOpts) -> (r: ViewRects)
    ensures
        view_from_splits(area, opts, r),
        view_within(r, area),
        opts.show_side ==> (r.side matches Some(s) && s.width <= r.chat.width),
{
    let rc = view_constraints(opts);
    let rows = split_area(area, true, &rc);
    let cols = if opts.show_side {
        let sc = side_split_constraints(opts);
        split_area(rows[1], false, &sc)
    } else {
        Vec::new()
    };
    let r = assemble_view(area, opts, &rows, &cols);
    proof {
        assert(r == assembled(area, opts, rows@, cols@));
        lemma_view_within(area, opts, r);
        if opts.show_side {
            lemma_side_not_wider_than_chat(area, opts, r);
        }
    }
    r
}

/// With the side panel shown, the chat keeps the larger share of the chat
/// row: the side panel is never wider than the chat area (its share is at
/// most 48 percent), and both share the chat row's height.
pub proof fn lemma_side_not_wider_than_chat(area: Rect, opts: LayoutOpts, r: ViewRects)
    requires
        view_from_splits(area, opts, r),
        opts.show_side,
    ensures
        r.side matches Some(s) && s.width <= r.chat.width && s.height == r.chat.height && s.y == r.chat.y,
{
    let (rows, cols) = choose|rows: Seq<Rect>, cols: Seq<Rect>|
        rows.len() == row_constraints(opts).len() && split_parts(area, true, rows) && (opts.show_side ==> cols.len()
            == 2 && split_parts(rows[1], false, cols) && percent_pair_ordered(false, side_constraints(opts), cols)) && r
            == assembled(area, opts, rows, cols);
    let pct = clamp16(opts.side_pct, 22, 48);
    assert(side_constraints(opts)[0] == LayoutConstraint::Percentage((100 - pct) as u16));
    assert(side_constraints(opts)[1] == LayoutConstraint::Percentage(pct));
    assert(split_part(rows[1], false, cols[0]));
    assert(split_part(rows[1], false, cols[1]));
}

/// The shell's rows, top to bottom: a header of one row, the chat (at
/// least three rows), the console (4 to 14 rows, its asked height within
/// that) when shown, the input of three rows and a footer of one; the side
/// panel takes its asked share of the chat row, kept within 22 to 48
/// percent, and the chat the rest.
pub proof fn lemma_shell_constraints(opts: LayoutOpts)
    ensures
        row_constraints(opts).len() == if opts.show_repl { 5int } else { 4int },
        row_constraints(opts)[0] == LayoutConstraint::Length(1),
        row_constraints(opts)[1] == LayoutConstraint::Min(3),
        row_constraints(opts)[row_constraints(opts).len() - 2] == LayoutConstraint::Length(3),
        row_constraints(opts)[row_constraints(opts).len() - 1] == LayoutConstraint::Length(1),
        opts.show_repl ==> (row_constraints(opts)[2] matches LayoutConstraint::Length(h) && 4 <= h <= 14 && (4
            <= opts.repl_height <= 14 ==> h == opts.repl_height)),
        side_constraints(opts).len() == 2,
        side_constraints(opts)[1] matches LayoutConstraint::Percentage(p) && 22 <= p <= 48 && (22 <= opts.side_pct
            <= 48 ==> p == opts.side_pct) && side_constraints(opts)[0] == LayoutConstraint::Percentage((100 - p) as u16),
{
}

/// The shell's areas from a row split and a column split: the header is
/// the first row, the footer the last, the input the one before it, the
/// console the third when shown; the chat is the second row, or the first
/// column of it when the side panel shows, the panel being the second.
pub proof fn lemma_assembled_areas(area: Rect, opts: LayoutOpts, rows: Seq<Rect>, cols: Seq<Rect>)
    requires
        rows.len() == row_constraints(opts).len(),
        opts.show_side ==> cols.len() == 2,
    ensures
        ({
            let r = assembled(area, opts, rows, cols);
            &&& r.header == rows[0]
            &&& r.footer == rows.last()
            &&& r.input == rows[rows.len() - 2]
            &&& r.full == area
            &&& (opts.show_repl ==> r.repl == Some(rows[2]))
            &&& (!opts.show_repl ==> r.repl is None)
            &&& (opts.show_side ==> r.chat == cols[0] && r.side == Some(cols[1]))
            &&& (!opts.show_side ==> r.chat == rows[1] && r.side is None)
        }),
{
}

} // verus!
