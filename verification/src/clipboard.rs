//! When the clipboard is emptied again after a copy. Times are nanoseconds on one clock.
use vstd::prelude::*;

verus! {

/// How long a copied text stays in the clipboard: 30 seconds.
pub const CLIPBOARD_TIMEOUT: u128 = 30_000_000_000;

/// The time since `since`, or none where the clock reads earlier than that.
pub open spec fn elapsed(since: u128, now: u128) -> int {
    if now >= since {
        now - since
    } else {
        0
    }
}

/// The time since `since`, or none where the clock reads earlier than that.
pub fn time_since(since: u128, now: u128) -> (time: u128)
    ensures
        time == elapsed(since, now),
{
    if now >= since {
        now - since
    } else {
        0
    }
}

/// Remembers when something was copied.
pub struct ClipboardTimer {
    pub set_at: Option<u128>,
    pub timeout: u128,
}

impl ClipboardTimer {
    /// A timer with nothing to clear.
    pub open spec fn idle() -> ClipboardTimer {
        ClipboardTimer { set_at: None, timeout: CLIPBOARD_TIMEOUT }
    }

    /// Whether the clipboard is due to be emptied.
    pub open spec fn due(self, now: u128) -> bool {
        self.set_at matches Some(at) && elapsed(at, now) >= self.timeout
    }

    pub fn new() -> (timer: Self)
        ensures
            timer == ClipboardTimer::idle(),
    {
        ClipboardTimer { set_at: None, timeout: CLIPBOARD_TIMEOUT }
    }

    /// Starts the countdown, or starts it over.
    pub fn arm(&mut self, now: u128)
        ensures
            *final(self) == (ClipboardTimer { set_at: Some(now), ..*old(self) }),
    {
        self.set_at = Some(now);
    }

    /// Whether the countdown has run out.
    pub fn should_clear(&self, now: u128) -> (clear: bool)
        ensures
            clear == self.due(now),
    {
        match self.set_at {
            Some(at) => time_since(at, now) >= self.timeout,
            None => false,
        }
    }

    /// Stops the countdown.
    pub fn reset(&mut self)
        ensures
            *final(self) == (ClipboardTimer { set_at: None, ..*old(self) }),
    {
        self.set_at = None;
    }

    /// The timer after it was looked at: stopped where it was due.
    pub open spec fn ticked(self, now: u128) -> ClipboardTimer {
        if self.due(now) {
            ClipboardTimer { set_at: None, ..self }
        } else {
            self
        }
    }
}

/// How often the clipboard is emptied when the timer is looked at at these times in turn.
pub open spec fn times_cleared(timer: ClipboardTimer, looks: Seq<u128>) -> nat
    decreases looks.len(),
{
    if looks.len() == 0 {
        0
    } else {
        (if timer.due(looks[0]) {
            1nat
        } else {
            0nat
        }) + times_cleared(timer.ticked(looks[0]), looks.skip(1))
    }
}

/// A copied text is cleared at the first look that comes the timeout after the copy or later,
/// never before and never again.
pub proof fn law_cleared_once(timer: ClipboardTimer, copied_at: u128, looks: Seq<u128>)
    requires
        timer.set_at == Some(copied_at),
        timer.timeout > 0,
    ensures
        times_cleared(timer, looks) == (if exists|i: int|
            0 <= i < looks.len() && #[trigger] looks[i] >= copied_at + timer.timeout {
            1nat
        } else {
            0nat
        }),
    decreases looks.len(),
{
    if looks.len() > 0 {
        let rest = looks.skip(1);
        assert forall|i: int| 0 < i < looks.len() implies looks[i] == #[trigger] rest[i - 1] by {}
        if timer.due(looks[0]) {
            law_idle_clears_nothing(timer.ticked(looks[0]), rest);
            assert(looks[0] >= copied_at + timer.timeout);
        } else {
            law_cleared_once(timer, copied_at, rest);
            assert(looks[0] < copied_at + timer.timeout);
            if exists|i: int|
                0 <= i < looks.len() && #[trigger] looks[i] >= copied_at + timer.timeout {
                let i = choose|i: int|
                    0 <= i < looks.len() && #[trigger] looks[i] >= copied_at + timer.timeout;
                assert(rest[i - 1] == looks[i]);
            } else {
                assert forall|i: int| 0 <= i < rest.len() implies #[trigger] rest[i] < copied_at
                    + timer.timeout by {
                    assert(looks[i + 1] == rest[i]);
                }
            }
        }
    }
}

/// A timer that counts nothing down never clears the clipboard.
pub proof fn law_idle_clears_nothing(timer: ClipboardTimer, looks: Seq<u128>)
    requires
        timer.set_at is None,
    ensures
        times_cleared(timer, looks) == 0,
    decreases looks.len(),
{
    if looks.len() > 0 {
        law_idle_clears_nothing(timer, looks.skip(1));
    }
}

/// The clipboard is due exactly from 30 seconds after the copy on.
pub proof fn law_due_after_thirty_seconds(copied_at: u128, now: u128)
    ensures
        (ClipboardTimer { set_at: Some(copied_at), ..ClipboardTimer::idle() }).due(now) <==> now
            >= copied_at + 30_000_000_000,
        ClipboardTimer::idle().set_at is None,
        ClipboardTimer::idle().timeout == 30_000_000_000,
        !ClipboardTimer::idle().due(now),
{
}

/// Looking at a timer stops it where it is due, and never changes the timeout.
pub proof fn law_look_stops_a_due_timer(timer: ClipboardTimer, now: u128)
    ensures
        timer.due(now) ==> timer.ticked(now).set_at is None,
        !timer.due(now) ==> timer.ticked(now).set_at == timer.set_at,
        timer.ticked(now).timeout == timer.timeout,
{
}

} // verus!
