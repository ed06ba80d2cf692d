//! Pacing of the calls to an external API: a minimum interval between two
//! requests. Times are milliseconds on a monotonic clock read by the caller.

use vstd::prelude::*;
use crate::retry::Delay;

verus! {

/// Keeps the time of the last request and the minimum interval between two.
pub struct RateLimiter {
    min_interval: Delay,
    last_request: Option<u128>,
}

/// Model of a limiter: the interval, and the time of the last request (none
/// before the first one).
pub struct RateLimiterView {
    pub min_interval: u128,
    pub last_request: Option<u128>,
}

impl View for RateLimiter {
    type V = RateLimiterView;

    closed spec fn view(&self) -> RateLimiterView {
        RateLimiterView { min_interval: self.min_interval.millis, last_request: self.last_request }
    }
}

/// How long a request at `now` must wait: the rest of the interval since the
/// last request, nothing for the first request or once the interval elapsed.
pub open spec fn wait_spec(l: RateLimiterView, now: u128) -> u128 {
    match l.last_request {
        None => 0,
        Some(last) => {
            let elapsed: int = if now >= last { now - last } else { 0 };
            if elapsed < l.min_interval { (l.min_interval - elapsed) as u128 } else { 0 }
        },
    }
}

impl RateLimiter {
    /// A limiter with the minimum interval between two requests; the first
    /// request is immediate.
    pub fn new(min_interval: Delay) -> (res: Self)
        ensures
            res@.min_interval == min_interval.millis,
            res@.last_request is None,
    {
        Self { min_interval, last_request: None }
    }

    /// How long a request at `now` has to wait.
    pub fn wait_needed(&self, now: u128) -> (res: Delay)
        ensures
            res.millis == wait_spec(self@, now),
    {
        match self.last_request {
            None => Delay::zero(),
            Some(last) => {
                let elapsed = if now >= last { now - last } else { 0 };
                if elapsed < self.min_interval.millis {
                    Delay { millis: self.min_interval.millis - elapsed }
                } else {
                    Delay::zero()
                }
            },
        }
    }

    /// Records a request made at `now`.
    pub fn record(&mut self, now: u128)
        ensures
            final(self)@.last_request == Some(now),
            final(self)@.min_interval == old(self)@.min_interval,
    {
        self.last_request = Some(now);
    }
}

/// The first request never waits; a request that waits as told starts at
/// least one interval after the previous one.
pub proof fn law_rate_limit_spacing(l: RateLimiterView, now: u128)
    ensures
        l.last_request is None ==> wait_spec(l, now) == 0,
        l.last_request matches Some(last) ==> (now >= last ==> now + wait_spec(l, now) >= last + l.min_interval),
{
}

} // verus!
