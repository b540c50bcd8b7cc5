//! Mouse hit rectangles registered while drawing; the last one registered
//! over a cell wins.

use vstd::prelude::*;
use crate::geometry::Rect;

verus! {

/// What a click lands on.
#[derive(Debug, Clone, Copy, PartialEq, Eq, Structural)]
pub enum HitTarget {
    Thinking { msg_idx: usize },
    Tool { msg_idx: usize, tool_idx: usize },
    Toast,
    Help,
    FleetRow { index: usize },
    SessionRow { index: usize },
    OutputTab { index: usize },
    ModalDismiss,
    PaletteItem { index: usize },
}

/// A target and the cells it covers.
#[derive(Debug, Clone, Copy, PartialEq, Eq, Structural)]
pub struct HitRect {
    pub rect: Rect,
    pub target: HitTarget,
}

/// `a + b`, saturating at `u16::MAX`.
pub open spec fn sat_add16(a: u16, b: u16) -> int {
    if a as int + b as int > u16::MAX {
        u16::MAX as int
    } else {
        a + b
    }
}

/// Whether the cell (`col`, `row`) lies in `r` (its far edges saturate at
/// the screen's largest coordinate).
pub open spec fn covers(r: Rect, col: u16, row: u16) -> bool {
    r.x <= col < sat_add16(r.x, r.width) && r.y <= row < sat_add16(r.y, r.height)
}

/// Position of the last registered rectangle covering the cell.
pub open spec fn last_hit(hits: Seq<HitRect>, col: u16, row: u16) -> Option<int>
    decreases hits.len(),
{
    if hits.len() == 0 {
        None
    } else if covers(hits.last().rect, col, row) {
        Some(hits.len() - 1)
    } else {
        last_hit(hits.drop_last(), col, row)
    }
}

/// Rectangles registered in one drawing pass.
#[derive(Debug, Default, Clone)]
pub struct HitMap {
    pub hits: Vec<HitRect>,
}

impl HitMap {
    /// Forget every rectangle.
    pub fn clear(&mut self)
        ensures
            final(self).hits@ == Seq::<HitRect>::empty(),
    {
        self.hits.clear();
    }

    /// Register `rect` for `target`; empty rectangles are ignored.
    pub fn push(&mut self, rect: Rect, target: HitTarget)
        ensures
            final(self).hits@ == (if rect.width > 0 && rect.height > 0 {
                old(self).hits@.push(HitRect { rect, target })
            } else {
                old(self).hits@
            }),
    {
        if rect.width > 0 && rect.height > 0 {
            self.hits.push(HitRect { rect, target });
        }
    }

    /// The target of the last rectangle registered over the cell.
    pub fn hit_at(&self, col: u16, row: u16) -> (r: Option<&HitTarget>)
        ensures
            (match last_hit(self.hits@, col, row) {
                Some(i) => r matches Some(t) && *t == self.hits@[i].target,
                None => r is None,
            }),
    {
        let mut i: usize = self.hits.len();
        proof {
            assert(self.hits@.take(i as int) =~= self.hits@);
        }
        while i > 0
            invariant
                i <= self.hits.len(),
                last_hit(self.hits@, col, row) == last_hit(self.hits@.take(i as int), col, row),
            decreases i,
        {
            let h = &self.hits[i - 1];
            let right: u16 = if h.rect.x as u32 + h.rect.width as u32 > 65535 {
                u16::MAX
            } else {
                h.rect.x + h.rect.width
            };
            let bottom: u16 = if h.rect.y as u32 + h.rect.height as u32 > 65535 {
                u16::MAX
            } else {
                h.rect.y + h.rect.height
            };
            proof {
                assert(self.hits@.take(i as int).last() == *h);
                assert(self.hits@.take(i as int).drop_last() =~= self.hits@.take(i - 1));
                lemma_last_hit_range(self.hits@.take(i - 1), col, row);
            }
            if col >= h.rect.x && col < right && row >= h.rect.y && row < bottom {
                return Some(&h.target);
            }
            i -= 1;
        }
        None
    }

    /// Register one line of chat content, one row high, at screen
    /// coordinates.
    pub fn push_line(&mut self, x: u16, y: u16, width: u16, target: HitTarget)
        ensures
            final(self).hits@ == (if width > 0 {
                old(self).hits@.push(HitRect { rect: Rect { x, y, width, height: 1 }, target })
            } else {
                old(self).hits@
            }),
    {
        self.push(Rect { x, y, width, height: 1 }, target);
    }
}

proof fn lemma_last_hit_range(hits: Seq<HitRect>, col: u16, row: u16)
    ensures
        last_hit(hits, col, row) matches Some(i) ==> 0 <= i < hits.len(),
    decreases hits.len(),
{
    if hits.len() > 0 {
        lemma_last_hit_range(hits.drop_last(), col, row);
    }
}

/// Last wins: right after a non-empty rectangle is registered, every cell
/// it covers hits its target; other cells hit what they hit before.
pub proof fn lemma_push_last_wins(hits: Seq<HitRect>, h: HitRect, col: u16, row: u16)
    requires
        h.rect.width > 0,
        h.rect.height > 0,
    ensures
        covers(h.rect, col, row) ==> last_hit(hits.push(h), col, row) == Some(hits.len() as int),
        !covers(h.rect, col, row) ==> last_hit(hits.push(h), col, row) == last_hit(hits, col, row),
{
    assert(hits.push(h).drop_last() =~= hits);
}

/// A cleared map hits nothing.
pub proof fn lemma_cleared_hits_nothing(col: u16, row: u16)
    ensures
        last_hit(Seq::<HitRect>::empty(), col, row) is None,
{
}

} // verus!
