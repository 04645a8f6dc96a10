//! The decisions behind the local HTTP API (`127.0.0.1:19840`): what a
//! timer-start, show or hide request does to the timer and to the popup.
//! Serving the requests and driving the window stay with the application.

use vstd::prelude::*;
use crate::text::str_equal;
use crate::timer::{fires, restarted, shown, whole_secs, State, Timer};

verus! {

/// The query of the show and hide requests: `?reason=...`.
#[derive(Debug)]
pub struct ReasonQuery {
    pub reason: Option<String>,
}

/// How the popup is hidden.
#[derive(Debug, PartialEq, Eq, Structural)]
pub enum HidePlan {
    /// Hide the window now.
    Immediate,
    /// Wait while the user has the popup focused (ten minutes at most),
    /// then wait `delay_ms` more, then hide it.
    AfterFocusLost { delay_ms: u64 },
}

/// The longest the fade-out waits for the user to leave the popup.
pub open spec fn max_focus_wait_ms() -> u64 {
    600_000
}

/// Whether the reason says that the agent finished its work.
pub open spec fn is_complete_reason(reason: Option<String>) -> bool {
    reason matches Some(r) && r@ == "complete"@
}

/// The plan for a hide request: a request whose reason is `complete` fades
/// out after the configured delay; any other hides at once.
pub fn hide_plan(query: &ReasonQuery, fade_out_delay_ms: u64) -> (r: HidePlan)
    ensures
        is_complete_reason(query.reason) ==> r == (HidePlan::AfterFocusLost { delay_ms: fade_out_delay_ms }),
        !is_complete_reason(query.reason) ==> r == HidePlan::Immediate,
{
    match &query.reason {
        Some(r) => {
            if str_equal(r.as_str(), "complete") {
                HidePlan::AfterFocusLost { delay_ms: fade_out_delay_ms }
            } else {
                HidePlan::Immediate
            }
        },
        None => HidePlan::Immediate,
    }
}

/// Whether the fade-out keeps waiting, given how long it has waited and
/// whether the window reported being focused (`None` when it could not
/// tell): only while the popup is focused and for ten minutes at most.
pub fn keep_waiting_for_focus(waited_ms: u64, focused: Option<bool>) -> (r: bool)
    ensures
        r == (waited_ms < max_focus_wait_ms() && focused == Some(true)),
{
    if waited_ms >= 600_000 {
        return false;
    }
    match focused {
        Some(true) => true,
        _ => false,
    }
}

/// The timer-start request: when the timer has been counting for the
/// threshold, the popup is shown; otherwise the timer starts counting
/// afresh. Returns whether the popup is to be shown.
pub fn timer_start_request(timer: &mut Timer) -> (show_popup: bool)
    ensures
        old(timer)@.state == State::Counting ==> show_popup == fires(old(timer)@, whole_secs(final(timer).last_reading_ms())),
        old(timer)@.state != State::Counting ==> !show_popup,
        old(timer)@.state == State::Counting && old(timer)@.threshold_secs == 0 ==> show_popup,
        show_popup ==> old(timer)@.state == State::Counting && final(timer)@ == shown(old(timer)@),
        !show_popup ==> restarted(old(timer)@, final(timer)@),
{
    let show_popup = timer.check_threshold();
    if show_popup {
        timer.show();
    } else {
        timer.start();
    }
    show_popup
}

/// The timer-start request when `elapsed_secs` seconds have passed since
/// the timer started counting.
pub fn timer_start_request_at(timer: &mut Timer, elapsed_secs: u64) -> (show_popup: bool)
    ensures
        show_popup == fires(old(timer)@, elapsed_secs),
        show_popup ==> final(timer)@ == shown(old(timer)@),
        !show_popup ==> restarted(old(timer)@, final(timer)@),
{
    let show_popup = timer.check_threshold_at(elapsed_secs);
    if show_popup {
        timer.show();
    } else {
        timer.start();
    }
    show_popup
}

} // verus!
