//! The idle timer: it starts counting when a tool call begins, fires once
//! the wait has lasted the threshold, and tracks whether the popup shows.

use vstd::prelude::*;
use std::time::{Duration, Instant};

verus! {

/// A point on the monotonic clock (`std::time::Instant`), carried as is.
#[verifier::external_type_specification]
#[verifier::external_body]
pub struct ExInstant(Instant);

/// `std::time::Instant::now`: the current time; nothing is promised of it.
pub assume_specification[ Instant::now ]() -> Instant;

/// `std::time::Instant::elapsed`: the time since the instant; it depends on
/// the clock, so nothing is promised of it.
pub assume_specification[ Instant::elapsed ](instant: &Instant) -> Duration;

/// `std::time::Duration::as_millis`: the whole milliseconds of a duration.
/// The duration comes from the clock; all that is stated is the bound that
/// a duration's range gives (at most `u64::MAX` seconds and less than one
/// more second).
pub assume_specification[ Duration::as_millis ](duration: &Duration) -> (r: u128)
    ensures
        r <= max_reading_ms(),
;

/// The most milliseconds a `Duration` holds: `u64::MAX` seconds and 999
/// milliseconds.
pub open spec fn max_reading_ms() -> nat {
    18446744073709551615999
}

/// The whole seconds in `ms` milliseconds, as `Duration::as_secs` counts
/// them.
pub open spec fn whole_secs(ms: nat) -> u64 {
    (ms / 1000) as u64
}

/// The phases of the timer.
#[derive(Debug, Clone, Copy, PartialEq, Eq, Structural)]
pub enum State {
    Idle,
    Counting,
    Triggered,
    Showing,
}

/// What the status request reports.
#[derive(Debug)]
pub struct TimerStatus {
    pub elapsed_ms: u64,
    pub popup_visible: bool,
    pub mode: String,
}

/// The timer: its phase, when it started counting, and the threshold.
pub struct Timer {
    state: State,
    started_at: Option<Instant>,
    threshold_secs: u64,
    /// The clock reading, in milliseconds since the start, that the last
    /// threshold check of a counting timer went by.
    reading_ms: Ghost<nat>,
}

/// The timer as the contracts see it.
pub struct TimerView {
    pub state: State,
    /// When the timer last started counting, if it has a start time.
    pub started_at: Option<Instant>,
    pub threshold_secs: u64,
}

/// The name of a phase in the status report.
pub open spec fn mode_name(state: State) -> Seq<char> {
    match state {
        State::Idle => "idle"@,
        State::Counting => "counting"@,
        State::Triggered => "triggered"@,
        State::Showing => "showing"@,
    }
}

/// Whether a start time is recorded.
pub open spec fn has_start(v: TimerView) -> bool {
    v.started_at is Some
}

/// The timer after `start` at the instant `at`: counting from then.
pub open spec fn started(v: TimerView, at: Instant) -> TimerView {
    TimerView { state: State::Counting, started_at: Some(at), threshold_secs: v.threshold_secs }
}

/// `new` is `old` restarted at some instant: counting, with a start time and
/// the same threshold.
pub open spec fn restarted(old: TimerView, new: TimerView) -> bool {
    new.started_at is Some && new == started(old, new.started_at->0)
}

/// The timer after `show`.
pub open spec fn shown(v: TimerView) -> TimerView {
    TimerView { state: State::Showing, ..v }
}

/// The timer after `hide`: idle, with no start time.
pub open spec fn hidden(v: TimerView) -> TimerView {
    TimerView { state: State::Idle, started_at: None, threshold_secs: v.threshold_secs }
}

/// Whether a threshold check with `elapsed_secs` seconds since the start
/// fires: only while counting, once the wait has reached the threshold.
pub open spec fn fires(v: TimerView, elapsed_secs: u64) -> bool {
    v.state == State::Counting && has_start(v) && elapsed_secs >= v.threshold_secs
}

/// The timer after a threshold check with `elapsed_secs` seconds elapsed.
pub open spec fn checked(v: TimerView, elapsed_secs: u64) -> TimerView {
    if fires(v, elapsed_secs) { TimerView { state: State::Triggered, ..v } } else { v }
}

/// The phases and the start time agree: idle means no start time, and a
/// counting or triggered timer has one.
pub open spec fn consistent(v: TimerView) -> bool {
    &&& v.state == State::Idle ==> !has_start(v)
    &&& (v.state == State::Counting || v.state == State::Triggered) ==> has_start(v)
}

/// The elapsed time that the status reports: zero without a start time.
pub open spec fn reported_elapsed(v: TimerView, elapsed_ms: u64) -> u64 {
    if has_start(v) { elapsed_ms } else { 0 }
}

/// Whether the status reports the popup as visible.
pub open spec fn reported_visible(v: TimerView) -> bool {
    v.state == State::Showing
}

/// Every operation keeps the phase and the start time in agreement.
pub proof fn lemma_operations_keep_consistency(v: TimerView, at: Instant, elapsed_secs: u64)
    requires
        consistent(v),
    ensures
        consistent(started(v, at)),
        consistent(shown(v)),
        consistent(hidden(v)),
        consistent(checked(v, elapsed_secs)),
{
}

/// After `hide`, whatever came before, the status reports an idle timer
/// with nothing elapsed and no popup.
pub proof fn lemma_hidden_reports_idle(v: TimerView, elapsed_ms: u64)
    ensures
        reported_elapsed(hidden(v), elapsed_ms) == 0,
        !reported_visible(hidden(v)),
        mode_name(hidden(v).state) == "idle"@,
{
}

/// The threshold fires at most once per start: after it fired, further
/// checks do not fire until the timer is started again.
pub proof fn lemma_fires_once(v: TimerView, first_secs: u64, later_secs: u64)
    requires
        fires(v, first_secs),
    ensures
        !fires(checked(v, first_secs), later_secs),
        checked(checked(v, first_secs), later_secs) == checked(v, first_secs),
{
}

/// Only a counting timer can fire, and a started one fires once the wait
/// reaches its threshold.
pub proof fn lemma_fires_only_when_counting(v: TimerView, at: Instant, elapsed_secs: u64)
    requires
        consistent(v),
    ensures
        fires(v, elapsed_secs) <==> (v.state == State::Counting && elapsed_secs >= v.threshold_secs),
        fires(started(v, at), elapsed_secs) <==> elapsed_secs >= v.threshold_secs,
        v.state == State::Counting && v.threshold_secs == 0 ==> fires(v, elapsed_secs),
{
}

/// The threshold, counted in whole seconds, and the status, counted in
/// milliseconds, agree: at a reading of `ms` milliseconds a started,
/// counting timer fires exactly when the status at that reading reports at
/// least the threshold's worth of milliseconds; one second short of it
/// (anything under `threshold * 1000` ms) it does not.
pub proof fn lemma_threshold_in_milliseconds(v: TimerView, ms: nat)
    requires
        consistent(v),
        v.state == State::Counting,
        ms <= u64::MAX,
    ensures
        fires(v, whole_secs(ms)) <==> reported_elapsed(v, ms as u64) >= v.threshold_secs * 1000,
{
    let t = v.threshold_secs as int;
    let m = ms as int;
    assert((m / 1000 >= t) <==> (m >= t * 1000)) by (nonlinear_arith)
        requires
            m >= 0,
            t >= 0,
    ;
    assert(whole_secs(ms) == ms / 1000);
}

/// The status names tell the phases apart.
pub proof fn lemma_mode_names_distinct(a: State, b: State)
    ensures
        mode_name(a) == mode_name(b) <==> a == b,
{
    reveal_strlit("idle");
    reveal_strlit("counting");
    reveal_strlit("triggered");
    reveal_strlit("showing");
    if a != b {
        assert(mode_name(a)[0] != mode_name(b)[0] || mode_name(a).len() != mode_name(b).len());
    }
}

impl View for Timer {
    type V = TimerView;

    closed spec fn view(&self) -> TimerView {
        TimerView { state: self.state, started_at: self.started_at, threshold_secs: self.threshold_secs }
    }
}

impl Timer {
    #[verifier::type_invariant]
    spec fn phase_matches_start(&self) -> bool {
        consistent(self@) && self.reading_ms@ <= max_reading_ms()
    }

    /// The milliseconds since the start that the last threshold check of a
    /// counting timer measured (`Instant::elapsed`, `Duration::as_millis`).
    pub closed spec fn last_reading_ms(&self) -> nat {
        self.reading_ms@
    }

    /// An idle timer with the given threshold.
    pub fn new(threshold_secs: u64) -> (r: Self)
        ensures
            r@ == (TimerView { state: State::Idle, started_at: None, threshold_secs }),
    {
        Timer { state: State::Idle, started_at: None, threshold_secs, reading_ms: Ghost(0) }
    }

    /// Starts (or restarts) counting from now; the instant comes from the
    /// clock.
    pub fn start(&mut self)
        ensures
            restarted(old(self)@, final(self)@),
            final(self).last_reading_ms() == old(self).last_reading_ms(),
    {
        proof {
            use_type_invariant(&*self);
        }
        let now = Instant::now();
        *self = Timer {
            state: State::Counting,
            started_at: Some(now),
            threshold_secs: self.threshold_secs,
            reading_ms: self.reading_ms,
        };
    }

    /// Whether the wait has reached the threshold; if so the timer moves
    /// from counting to triggered. The elapsed time comes from the clock: a
    /// counting timer reads the milliseconds since its start, records the
    /// reading, and fires exactly when the whole seconds in it reach the
    /// threshold; any other timer does not fire.
    pub fn check_threshold(&mut self) -> (r: bool)
        ensures
            old(self)@.state == State::Counting ==> {
                &&& r == fires(old(self)@, whole_secs(final(self).last_reading_ms()))
                &&& final(self)@ == checked(old(self)@, whole_secs(final(self).last_reading_ms()))
            },
            old(self)@.state != State::Counting ==> final(self).last_reading_ms() == old(self).last_reading_ms(),
            consistent(old(self)@),
            old(self)@.state == State::Counting && old(self)@.threshold_secs == 0 ==> r,
            r ==> old(self)@.state == State::Counting && final(self)@ == (TimerView { state: State::Triggered, ..old(self)@ }),
            !r ==> final(self)@ == old(self)@,
    {
        proof {
            use_type_invariant(&*self);
        }
        if self.state != State::Counting {
            return false;
        }
        let ms: u128 = match &self.started_at {
            Some(start) => start.elapsed().as_millis(),
            None => return false,
        };
        let secs: u64 = (ms / 1000) as u64;
        let r = self.check_threshold_at(secs);
        self.reading_ms = Ghost(ms as nat);
        r
    }

    /// The threshold check for a wait of `elapsed_secs` seconds.
    pub fn check_threshold_at(&mut self, elapsed_secs: u64) -> (r: bool)
        ensures
            r == fires(old(self)@, elapsed_secs),
            final(self)@ == checked(old(self)@, elapsed_secs),
            final(self).last_reading_ms() == old(self).last_reading_ms(),
    {
        proof {
            use_type_invariant(&*self);
        }
        if self.state == State::Counting && self.started_at.is_some() && elapsed_secs >= self.threshold_secs {
            self.state = State::Triggered;
            true
        } else {
            false
        }
    }

    /// Marks the popup as showing.
    pub fn show(&mut self)
        ensures
            final(self)@ == shown(old(self)@),
            final(self).last_reading_ms() == old(self).last_reading_ms(),
    {
        proof {
            use_type_invariant(&*self);
        }
        self.state = State::Showing;
    }

    /// Back to idle, forgetting the start time.
    pub fn mark_hidden(&mut self)
        ensures
            final(self)@ == hidden(old(self)@),
            final(self).last_reading_ms() == old(self).last_reading_ms(),
    {
        proof {
            use_type_invariant(&*self);
        }
        *self = Timer {
            state: State::Idle,
            started_at: None,
            threshold_secs: self.threshold_secs,
            reading_ms: self.reading_ms,
        };
    }

    /// The status report; the elapsed time comes from the clock and is zero
    /// when no start time is recorded.
    pub fn status(&self) -> (r: TimerStatus)
        ensures
            !has_start(self@) ==> r.elapsed_ms == 0,
            r.popup_visible == reported_visible(self@),
            r.mode@ == mode_name(self@.state),
    {
        let elapsed_ms: u64 = match &self.started_at {
            Some(start) => start.elapsed().as_millis() as u64,
            None => 0,
        };
        self.status_at(elapsed_ms)
    }

    /// The status report when `elapsed_ms` milliseconds have passed since
    /// the start.
    pub fn status_at(&self, elapsed_ms: u64) -> (r: TimerStatus)
        ensures
            r.elapsed_ms == reported_elapsed(self@, elapsed_ms),
            r.popup_visible == reported_visible(self@),
            r.mode@ == mode_name(self@.state),
    {
        let mode = match self.state {
            State::Idle => "idle",
            State::Counting => "counting",
            State::Triggered => "triggered",
            State::Showing => "showing",
        };
        TimerStatus {
            elapsed_ms: if self.started_at.is_some() { elapsed_ms } else { 0 },
            popup_visible: self.state == State::Showing,
            mode: String::from_str(mode),
        }
    }

    /// The current phase.
    pub fn state(&self) -> (r: State)
        ensures
            r == self@.state,
    {
        self.state
    }
}

} // verus!
