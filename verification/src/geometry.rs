//! Screen rectangles and the chrome geometry that does not need a layout
//! solver: centred modals and the toast corner.

use vstd::prelude::*;

verus! {

/// A screen rectangle in terminal cells.
#[derive(Debug, Clone, Copy, PartialEq, Eq, Structural, Default)]
pub struct Rect {
    pub x: u16,
    pub y: u16,
    pub width: u16,
    pub height: u16,
}

/// `a - b`, or 0 when `b > a`.
pub open spec fn sat_sub(a: int, b: int) -> int {
    if a > b {
        a - b
    } else {
        0
    }
}

/// Smaller of two integers.
pub open spec fn min_int(a: int, b: int) -> int {
    if a < b {
        a
    } else {
        b
    }
}

/// Larger of two integers.
pub open spec fn max_int(a: int, b: int) -> int {
    if a > b {
        a
    } else {
        b
    }
}

/// Size of a centred modal, clamped to the area: the requested size, but at
/// most the area less a one-cell margin on each side (that cap is never
/// below 10 × 3) and never more than the area itself.
pub open spec fn modal_size(area: Rect, width: int, height: int) -> (int, int) {
    (
        min_int(min_int(width, max_int(sat_sub(area.width as int, 2), 10)), area.width as int),
        min_int(min_int(height, max_int(sat_sub(area.height as int, 2), 3)), area.height as int),
    )
}

/// The centred modal rectangle.
pub open spec fn centered(area: Rect, width: int, height: int) -> (int, int, int, int) {
    let (w, h) = modal_size(area, width, height);
    (area.x + sat_sub(area.width as int, w) / 2, area.y + sat_sub(area.height as int, h) / 2, w, h)
}

/// A rectangle of `width` × `height` centred in `area`, clamped to it.
pub fn centered_rect(area: Rect, width: u16, height: u16) -> (r: Rect)
    requires
        centered(area, width as int, height as int).0 <= u16::MAX,
        centered(area, width as int, height as int).1 <= u16::MAX,
    ensures
        (r.x as int, r.y as int, r.width as int, r.height as int) == centered(area, width as int, height as int),
{
    let aw: u16 = if area.width > 2 {
        area.width - 2
    } else {
        0
    };
    let ah: u16 = if area.height > 2 {
        area.height - 2
    } else {
        0
    };
    let cap_w: u16 = if aw > 10 {
        aw
    } else {
        10
    };
    let cap_h: u16 = if ah > 3 {
        ah
    } else {
        3
    };
    let w0: u16 = if width < cap_w {
        width
    } else {
        cap_w
    };
    let h0: u16 = if height < cap_h {
        height
    } else {
        cap_h
    };
    let w: u16 = if w0 < area.width {
        w0
    } else {
        area.width
    };
    let h: u16 = if h0 < area.height {
        h0
    } else {
        area.height
    };
    let dx: u16 = if area.width > w {
        area.width - w
    } else {
        0
    };
    let dy: u16 = if area.height > h {
        area.height - h
    } else {
        0
    };
    Rect { x: area.x + dx / 2, y: area.y + dy / 2, width: w, height: h }
}

/// Width of the toast: the full width, kept between 18 and 42 cells.
pub open spec fn toast_width(full: Rect) -> int {
    max_int(min_int(full.width as int, 42), 18)
}

/// The toast rectangle: four rows high, one row below the top, with one
/// free column at the right edge.
pub open spec fn toast_rect(full: Rect) -> (int, int, int, int) {
    let w = toast_width(full);
    (
        full.x + sat_sub(full.width as int, w + 1),
        min_int(full.y + 1, u16::MAX as int),
        w,
        4,
    )
}

/// Top-right rectangle for a toast.
pub fn toast_area(full: Rect) -> (r: Rect)
    requires
        toast_rect(full).0 <= u16::MAX,
    ensures
        (r.x as int, r.y as int, r.width as int, r.height as int) == toast_rect(full),
{
    let a: u16 = if full.width < 42 {
        full.width
    } else {
        42
    };
    let width: u16 = if a > 18 {
        a
    } else {
        18
    };
    let dx: u16 = if full.width > width + 1 {
        full.width - (width + 1)
    } else {
        0
    };
    let y: u16 = if full.y < u16::MAX {
        full.y + 1
    } else {
        u16::MAX
    };
    Rect { x: full.x + dx, y, width, height: 4 }
}

/// A centred modal stays inside its area and is no larger than asked.
pub proof fn lemma_centered_inside(area: Rect, width: int, height: int)
    requires
        width >= 0,
        height >= 0,
    ensures
        ({
            let (x, y, w, h) = centered(area, width, height);
            &&& area.x <= x && x + w <= area.x + area.width
            &&& area.y <= y && y + h <= area.y + area.height
            &&& w <= width && h <= height
        }),
{
}

/// On a screen at least 18 cells wide the toast fits across it; wider
/// than 42 cells, it leaves the last column free.
pub proof fn lemma_toast_inside(full: Rect)
    requires
        full.width >= 18,
    ensures
        ({
            let (x, y, w, h) = toast_rect(full);
            &&& full.x <= x
            &&& x + w <= full.x + full.width
            &&& full.width > 42 ==> x + w < full.x + full.width
        }),
{
}

} // verus!
