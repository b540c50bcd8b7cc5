//! Wish intake: a human wish becomes a bead draft (a design bead, or a
//! task), labelled as a wish and queued as ready or for triage.

use vstd::prelude::*;
use crate::beads::{bead_kind_name, Bead, BeadKind};
use crate::text::{chars_of, decimal, push_decimal, take_chars, take_str, trim, trim_str};

verus! {

/// A bead to be added to the store for a wish.
#[derive(Debug, Clone)]
pub struct WishDraft {
    pub title: String,
    pub notes: String,
    pub priority: u32,
    pub kind: BeadKind,
}

/// Longest wish text kept whole in the title, in characters.
pub open spec fn title_max() -> nat {
    72
}

/// Title of a wish: `Wish: <text>`, the text cut to 69 characters and an
/// ellipsis when it is longer than 72.
pub open spec fn wish_title(text: Seq<char>) -> Seq<char> {
    if text.len() > title_max() {
        "Wish: "@ + text.take(69) + "\u{2026}"@
    } else {
        "Wish: "@ + text
    }
}

/// Notes of a wish: the wish label, how it is queued, then the text.
pub open spec fn wish_notes(text: Seq<char>, auto_ready: bool) -> Seq<char> {
    "label:wish\nauto:"@ + (if auto_ready {
        "ready"@
    } else {
        "triage"@
    }) + "\n\n"@ + text
}

/// The error for a blank wish.
pub open spec fn empty_wish_error() -> Seq<char> {
    "wish text must not be empty"@
}

/// Draft a wish bead from `text` (trimmed): a design bead, or a task when
/// `as_task`; priority 50 when it goes straight to ready, else 80.
pub fn create_wish(text: &str, as_task: bool, auto_ready: bool) -> (r: Result<WishDraft, String>)
    ensures
        trim(text@).len() == 0 <==> r is Err,
        r matches Err(e) ==> e@ == empty_wish_error(),
        r matches Ok(d) ==> {
            &&& d.title@ == wish_title(trim(text@))
            &&& d.notes@ == wish_notes(trim(text@), auto_ready)
            &&& d.priority == (if auto_ready {
                50u32
            } else {
                80u32
            })
            &&& d.kind == (if as_task {
                BeadKind::Task
            } else {
                BeadKind::Design
            })
        },
{
    let t = trim_str(text);
    let n = chars_of(t.as_str()).len();
    if n == 0 {
        return Err("wish text must not be empty".to_string());
    }
    let kind = if as_task {
        BeadKind::Task
    } else {
        BeadKind::Design
    };
    let mut title = "Wish: ".to_string();
    if n > 72 {
        let head = take_str(t.as_str(), 69);
        title.append(head.as_str());
        title.append("\u{2026}");
        proof {
            assert(head@ == t@.take(69));
        }
    } else {
        title.append(t.as_str());
    }
    let mut notes = "label:wish\nauto:".to_string();
    notes.append(
        if auto_ready {
            "ready"
        } else {
            "triage"
        },
    );
    notes.append("\n\n");
    notes.append(t.as_str());
    let priority: u32 = if auto_ready {
        50
    } else {
        80
    };
    Ok(WishDraft { title, notes, priority, kind })
}

/// Confirmation text for a created wish bead.
pub open spec fn created_text(b: Bead) -> Seq<char> {
    "Wish accepted as "@ + b.id@ + " ["@ + bead_kind_name(b.kind) + "] priority="@ + decimal(
        b.priority as nat,
    ) + " \u{2014} "@ + b.title@ + "\nNotes preview: "@ + take_chars(b.notes@, 120)
}

/// Confirmation text for a created wish bead: id, kind, priority, title
/// and the first 120 characters of its notes.
pub fn format_created(b: &Bead) -> (r: String)
    ensures
        r@ == created_text(*b),
{
    let mut s = "Wish accepted as ".to_string();
    s.append(b.id.as_str());
    s.append(" [");
    s.append(b.kind.as_str());
    s.append("] priority=");
    push_decimal(&mut s, b.priority as u64);
    s.append(" \u{2014} ");
    s.append(b.title.as_str());
    s.append("\nNotes preview: ");
    let preview = take_str(b.notes.as_str(), 120);
    s.append(preview.as_str());
    s
}

} // verus!
