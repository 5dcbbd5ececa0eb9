//! Toast notifications shown at the top of the workspace. Errors remain
//! until dismissed; other levels expire after a fixed time.

use vstd::prelude::*;

verus! {

/// Severity determines the visual style.
#[derive(Debug, Clone, Copy, PartialEq, Eq, Structural)]
pub enum ToastLevel {
    Info,
    Success,
    Warning,
    Error,
}

/// A single toast notification; `created_at` is in Unix milliseconds.
#[derive(Debug, Clone)]
pub struct Toast {
    pub id: u64,
    pub level: ToastLevel,
    pub message: String,
    pub created_at: u64,
}

/// Default display duration in milliseconds.
pub const DEFAULT_DURATION_MS: u64 = 4000;

/// The source of toast ids; each toast takes the next one.
#[derive(Debug)]
pub struct ToastIds {
    pub next: u64,
}

impl ToastIds {
    /// Ids start at 1.
    pub fn new() -> (res: Self)
        ensures
            res.next == 1,
    {
        ToastIds { next: 1 }
    }

    /// Takes the next id (wrapping after `u64::MAX`).
    pub fn take(&mut self) -> (id: u64)
        ensures
            id == old(self).next,
            final(self).next == next_toast_id(old(self).next),
    {
        let id = self.next;
        self.next = self.next.wrapping_add(1);
        id
    }
}

/// The id that follows `id`.
pub open spec fn next_toast_id(id: u64) -> u64 {
    if id == u64::MAX { 0 } else { (id + 1) as u64 }
}

/// Law: two toasts made one after the other never share an id.
pub proof fn law_consecutive_ids_differ(id: u64)
    ensures
        next_toast_id(id) != id,
{
}

/// Whether a toast of `level` created at `created_at` has expired at `now`:
/// never for errors, otherwise once `DEFAULT_DURATION_MS` have passed.
pub open spec fn expired_at(level: ToastLevel, created_at: u64, now: u64) -> bool {
    level != ToastLevel::Error && now >= created_at && now - created_at >= DEFAULT_DURATION_MS
}

/// `SystemTime` of std.
#[verifier::external_type_specification]
#[verifier::external_body]
pub struct ExSystemTime(std::time::SystemTime);

/// `SystemTime::now`: the current wall-clock time. Nothing is stated of it.
#[verifier::external_body]
fn system_now() -> std::time::SystemTime {
    std::time::SystemTime::now()
}

/// `SystemTime::duration_since(UNIX_EPOCH)`, in whole milliseconds; zero
/// for a time before the epoch (the error case), truncated to 64 bits.
/// Nothing is stated of the value.
#[verifier::external_body]
fn unix_millis(t: std::time::SystemTime) -> u64 {
    match t.duration_since(std::time::UNIX_EPOCH) {
        Ok(d) => d.as_millis() as u64,
        Err(_) => 0,
    }
}

/// The current Unix time in milliseconds.
pub fn now_millis() -> u64 {
    let t = system_now();
    unix_millis(t)
}

impl Toast {
    /// A toast with the next id, created at `created_at`.
    pub fn at(ids: &mut ToastIds, level: ToastLevel, message: String, created_at: u64) -> (t: Self)
        ensures
            t.id == old(ids).next,
            final(ids).next == next_toast_id(old(ids).next),
            t.level == level,
            t.message == message,
            t.created_at == created_at,
    {
        let id = ids.take();
        Toast { id, level, message, created_at }
    }

    /// A toast with the next id, created now.
    pub fn new(ids: &mut ToastIds, level: ToastLevel, message: String) -> (t: Self)
        ensures
            t.id == old(ids).next,
            final(ids).next == next_toast_id(old(ids).next),
            t.level == level,
            t.message == message,
    {
        let now = now_millis();
        Toast::at(ids, level, message, now)
    }

    /// Whether this toast has exceeded its display duration at `now`.
    pub fn is_expired_at(&self, now: u64) -> (res: bool)
        ensures
            res == expired_at(self.level, self.created_at, now),
    {
        if self.level == ToastLevel::Error {
            return false;
        }
        now >= self.created_at && now - self.created_at >= DEFAULT_DURATION_MS
    }

    /// Whether this toast has exceeded its display duration now. An error
    /// toast never expires; for other levels the answer rests on the clock.
    pub fn is_expired(&self) -> (res: bool)
        ensures
            self.level == ToastLevel::Error ==> !res,
            res ==> exists|now: u64| expired_at(self.level, self.created_at, now),
    {
        let now = now_millis();
        self.is_expired_at(now)
    }
}

} // verus!
