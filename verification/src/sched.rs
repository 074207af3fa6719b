//! The polling scheduler's decisions. The long-lived tasks themselves live
//! outside the library: they sleep, fetch and get cancelled. What to do
//! next — poll at once, or sleep until a given instant, and with which
//! check state — is computed here.

use vstd::prelude::*;

use crate::domain::DomainError;
use crate::feeds::CheckState;
use crate::model::Timestamp;
use crate::store::FeedCheck;

verus! {

/// How long the session sweeper sleeps between sweeps, in milliseconds:
/// one hour.
pub const SESSION_CLEANUP_INTERVAL_MS: u64 = 3_600_000;

/// One step of a polling task: optionally sleep until `wait_until`
/// (cancellation permitting), then poll with `state`.
#[derive(Debug, PartialEq, Eq)]
pub struct PollPlan {
    pub wait_until: Option<Timestamp>,
    pub state: CheckState,
}

/// The plan on task entry, from the feed's latest stored check. A feed
/// never checked is polled immediately with a bare `now`; a feed whose next
/// check time has passed is polled immediately (the check was missed); and
/// otherwise the task sleeps until the scheduled time. Either way a stored
/// prior check rides along as the check state.
pub fn plan_initial_poll(last_check: Option<FeedCheck>, now: Timestamp) -> (r: PollPlan)
    ensures
        match last_check {
            Option::None => r == (PollPlan { wait_until: None, state: CheckState::NoCheck(now) }),
            Option::Some(c) => r.state == CheckState::Check(c) && r.wait_until == (if c.next_check_time.millis > now.millis {
                Some(c.next_check_time)
            } else {
                Option::<Timestamp>::None
            }),
        },
{
    match last_check {
        None => PollPlan { wait_until: None, state: CheckState::NoCheck(now) },
        Some(c) => {
            let wait_until = if c.next_check_time.millis > now.millis {
                Some(c.next_check_time)
            } else {
                None
            };
            PollPlan { wait_until, state: CheckState::Check(c) }
        },
    }
}

/// The plan after one poll. A successful check schedules the next poll at
/// the check's own next check time and becomes the new check state; a
/// failure keeps the previous state and retries after the default
/// interval, anchored at `now`.
pub fn plan_after_poll(
    previous: CheckState,
    result: Result<FeedCheck, DomainError>,
    now: Timestamp,
    default_interval_ms: u64,
) -> (r: PollPlan)
    ensures
        match result {
            Ok(c) => r.state == CheckState::Check(c) && r.wait_until == Some(c.next_check_time),
            Err(_) => r.state == previous && (r.wait_until matches Some(t) && t.millis
                == Timestamp::spec_plus_millis(now, default_interval_ms)),
        },
{
    match result {
        Ok(c) => {
            let wait_until = Some(c.next_check_time);
            PollPlan { wait_until, state: CheckState::Check(c) }
        },
        Err(_) => {
            let retry = now.plus_millis(default_interval_ms);
            PollPlan { wait_until: Some(retry), state: previous }
        },
    }
}

/// When the session sweeper wakes next: one cleanup interval after `now`.
pub fn plan_next_sweep(now: Timestamp) -> (r: Timestamp)
    ensures
        r.millis == Timestamp::spec_plus_millis(now, SESSION_CLEANUP_INTERVAL_MS),
{
    now.plus_millis(SESSION_CLEANUP_INTERVAL_MS)
}

} // verus!
