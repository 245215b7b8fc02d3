//! Per-session deadline tracking with a fixed-interval retransmission
//! policy and a bounded retry count. The clock is a collaborator: callers
//! hand in the current time as a plain number.

use vstd::prelude::*;

verus! {

/// `a + b`, stopping at the top of the clock's range.
pub open spec fn sat_add(a: u64, b: u64) -> u64 {
    if a + b > u64::MAX {
        u64::MAX
    } else {
        (a + b) as u64
    }
}

pub fn sat_add_exec(a: u64, b: u64) -> (r: u64)
    ensures
        r == sat_add(a, b),
{
    if a > u64::MAX - b {
        u64::MAX
    } else {
        a + b
    }
}

/// Deadline and retry bookkeeping for one session. The interval is fixed
/// (no exponential backoff) and the retry count bounded: a deliberate
/// simplicity/robustness tradeoff, both knobs configurable.
pub struct RetransmissionTimer {
    /// The retransmission interval.
    pub timeout: u64,
    /// How many retransmissions are allowed before the transfer fails.
    pub max_retries: u32,
    /// The pending deadline, if the timer is armed.
    pub deadline: Option<u64>,
    /// Expiries handled since the last fresh arming.
    pub retries: u32,
}

impl RetransmissionTimer {
    /// The timer is armed and its deadline has passed.
    pub open spec fn spec_expired(self, now: u64) -> bool {
        match self.deadline {
            Some(d) => now >= d,
            None => false,
        }
    }

    pub fn new(timeout: u64, max_retries: u32) -> (r: RetransmissionTimer)
        ensures
            r.timeout == timeout,
            r.max_retries == max_retries,
            r.deadline is None,
            r.retries == 0,
    {
        RetransmissionTimer { timeout, max_retries, deadline: None, retries: 0 }
    }

    /// Arms a fresh deadline and clears the retry count: the peer has made
    /// progress.
    pub fn arm(&mut self, now: u64)
        ensures
            final(self).deadline == Some(sat_add(now, old(self).timeout)),
            final(self).retries == 0,
            final(self).timeout == old(self).timeout,
            final(self).max_retries == old(self).max_retries,
    {
        self.deadline = Some(sat_add_exec(now, self.timeout));
        self.retries = 0;
    }

    /// Rearms the deadline after a retransmission, keeping the retry count.
    pub fn rearm(&mut self, now: u64)
        ensures
            final(self).deadline == Some(sat_add(now, old(self).timeout)),
            final(self).retries == old(self).retries,
            final(self).timeout == old(self).timeout,
            final(self).max_retries == old(self).max_retries,
    {
        self.deadline = Some(sat_add_exec(now, self.timeout));
    }

    /// Disarms the timer: the transfer reached a terminal state.
    pub fn cancel(&mut self)
        ensures
            final(self).deadline is None,
            final(self).retries == old(self).retries,
            final(self).timeout == old(self).timeout,
            final(self).max_retries == old(self).max_retries,
    {
        self.deadline = None;
    }

    /// Whether the armed deadline has passed.
    pub fn expired(&self, now: u64) -> (r: bool)
        ensures
            r == self.spec_expired(now),
    {
        match self.deadline {
            Some(d) => now >= d,
            None => false,
        }
    }

    /// Counts one handled expiry.
    pub fn record_retry(&mut self)
        requires
            old(self).retries < old(self).max_retries,
        ensures
            final(self).retries == old(self).retries + 1,
            final(self).deadline == old(self).deadline,
            final(self).timeout == old(self).timeout,
            final(self).max_retries == old(self).max_retries,
    {
        self.retries = self.retries + 1;
    }
}

} // verus!
