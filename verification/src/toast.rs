//! Attention toasts: a session is blocked on the user, or finished.

use vstd::prelude::*;
use crate::status::{state_icon, SessionUiState};
use std::time::Instant;

verus! {

/// `std::time::Instant`, carried through as an opaque moment.
#[verifier::external_type_specification]
#[verifier::external_body]
pub struct ExInstant(std::time::Instant);

/// Calls `Instant::now`; nothing is stated of the moment it returns.
#[verifier::external_body]
pub(crate) fn now() -> (r: Instant) {
    Instant::now()
}

/// Calls `Instant::elapsed` and gives the duration in whole nanoseconds
/// (`Duration::as_nanos`); it depends on the clock, so nothing is stated.
#[verifier::external_body]
fn elapsed_nanos(t: &Instant) -> (r: u128) {
    t.elapsed().as_nanos()
}

/// What a toast reports.
#[derive(Debug, Clone, Copy, PartialEq, Eq, Structural)]
pub enum ToastKind {
    NeedsAttention,
    Finished,
}

/// A toast: kind, text, when it was raised and how many seconds it shows.
#[derive(Debug)]
pub struct Toast {
    pub kind: ToastKind,
    pub title: String,
    pub body: String,
    pub created: Instant,
    pub ttl_secs: u64,
}

/// Nanoseconds in a second.
pub open spec fn nanos_per_sec() -> int {
    1_000_000_000
}

/// A toast that shows for `ttl_secs` seconds has outlived its time once
/// `elapsed` nanoseconds have passed since it was raised.
pub open spec fn outlived(ttl_secs: u64, elapsed: u128) -> bool {
    elapsed >= ttl_secs * nanos_per_sec()
}

impl Toast {
    /// A session needs attention: shown for 8 seconds from now.
    pub fn blocked(title: &str, body: &str) -> (r: Toast)
        ensures
            r.kind == ToastKind::NeedsAttention,
            r.title@ == title@,
            r.body@ == body@,
            r.ttl_secs == 8,
    {
        Toast {
            kind: ToastKind::NeedsAttention,
            title: title.to_string(),
            body: body.to_string(),
            created: now(),
            ttl_secs: 8,
        }
    }

    /// A session finished: shown for 5 seconds from now.
    pub fn finished(title: &str, body: &str) -> (r: Toast)
        ensures
            r.kind == ToastKind::Finished,
            r.title@ == title@,
            r.body@ == body@,
            r.ttl_secs == 5,
    {
        Toast {
            kind: ToastKind::Finished,
            title: title.to_string(),
            body: body.to_string(),
            created: now(),
            ttl_secs: 5,
        }
    }

    /// Whether the toast has outlived its time, `elapsed_nanos` after it
    /// was raised.
    pub fn expired_after(&self, elapsed_nanos: u128) -> (r: bool)
        ensures
            r == (elapsed_nanos >= self.ttl_secs * nanos_per_sec()),
    {
        elapsed_nanos >= self.ttl_secs as u128 * 1_000_000_000u128
    }

    /// Whether the toast has outlived its time by the clock: `expired_after`
    /// applied to the nanoseconds the clock says have passed since it was
    /// raised. The reading is the clock's, so only that form is stated; a
    /// toast with no time to show is always expired.
    pub fn expired(&self) -> (r: bool)
        ensures
            exists|elapsed: u128| r == #[trigger] outlived(self.ttl_secs, elapsed),
            self.ttl_secs == 0 ==> r,
    {
        let e = elapsed_nanos(&self.created);
        let r = self.expired_after(e);
        proof {
            assert(r == outlived(self.ttl_secs, e));
        }
        r
    }

    /// Glyph of the toast: that of a blocked or a finished session.
    pub fn icon(&self) -> (r: &'static str)
        ensures
            r@ == (match self.kind {
                ToastKind::NeedsAttention => state_icon(SessionUiState::Blocked),
                ToastKind::Finished => state_icon(SessionUiState::Done),
            }),
    {
        match self.kind {
            ToastKind::NeedsAttention => SessionUiState::Blocked.icon(),
            ToastKind::Finished => SessionUiState::Done.icon(),
        }
    }
}

} // verus!
