//! The liveness decision: a monitor polls the time of the last completed
//! write at a fixed interval and ends the process once that time lies further
//! back than the timeout.
//!
//! Times are whole time units on one clock. The monitor itself sleeps, reads
//! the shared time and the clock, and ends the process; what it decides at
//! each poll is decided here.

use vstd::prelude::*;

verus! {

/// What the monitor does after a poll.
#[derive(Clone, Copy, Debug, PartialEq, Eq, Structural)]
pub enum WatchdogAction {
    /// The last write is recent enough: sleep for the given number of time
    /// units and poll again.
    SleepFor(u64),
    /// No write has completed within the timeout: end the process.
    Terminate,
}

/// The two parameters of the monitor.
#[derive(Clone, Copy, Debug, PartialEq, Eq, Structural)]
pub struct LivenessWatchdog {
    poll_interval: u64,
    timeout: u64,
}

/// The monitor as two integers.
pub struct WatchdogView {
    pub poll_interval: int,
    pub timeout: int,
}

impl WatchdogView {
    /// The timeout exceeds the poll interval.
    pub open spec fn wf(self) -> bool {
        0 <= self.poll_interval < self.timeout
    }

    /// At time `now` the last write, at time `last`, lies further back than
    /// the timeout.
    pub open spec fn stale(self, last: int, now: int) -> bool {
        now - last > self.timeout
    }

    /// The time of poll number `k`, counting from 0, of a monitor started at
    /// time `start`: it sleeps before each poll.
    pub open spec fn poll_time(self, start: int, k: nat) -> int {
        start + (k + 1) * self.poll_interval
    }

    /// Some poll of a monitor started at `start` finds a write at `last`
    /// stale and comes no later than `by`.
    pub open spec fn detects_by(self, start: int, last: int, by: int) -> bool {
        exists|k: nat| self.stale(last, self.poll_time(start, k)) && self.poll_time(start, k) <= by
    }
}

impl View for LivenessWatchdog {
    type V = WatchdogView;

    closed spec fn view(&self) -> WatchdogView {
        WatchdogView { poll_interval: self.poll_interval as int, timeout: self.timeout as int }
    }
}

impl LivenessWatchdog {
    /// What every monitor holds: its view is well-formed.
    #[verifier::type_invariant]
    pub closed spec fn well_formed(&self) -> bool {
        self@.wf()
    }

    /// A monitor that polls every `poll_interval` time units and allows
    /// `timeout` time units without a write; `None` unless the timeout
    /// exceeds the poll interval.
    pub fn new(poll_interval: u64, timeout: u64) -> (r: Option<LivenessWatchdog>)
        ensures
            r is Some <==> poll_interval < timeout,
            r matches Some(w) ==> w@ == (WatchdogView {
                poll_interval: poll_interval as int,
                timeout: timeout as int,
            }),
    {
        if poll_interval < timeout {
            Some(LivenessWatchdog { poll_interval, timeout })
        } else {
            None
        }
    }

    /// The time between polls.
    pub fn poll_interval(&self) -> (r: u64)
        ensures
            r == self@.poll_interval,
    {
        self.poll_interval
    }

    /// The time without a write that is allowed.
    pub fn timeout(&self) -> (r: u64)
        ensures
            r == self@.timeout,
    {
        self.timeout
    }

    /// Whether at time `now` the last write, at time `last`, lies further
    /// back than the timeout.
    pub fn is_stale(&self, last: u64, now: u64) -> (r: bool)
        ensures
            r == self@.stale(last as int, now as int),
    {
        now > last && now - last > self.timeout
    }

    /// The decision of one poll at time `now`, the last write having
    /// completed at time `last`.
    pub fn poll(&self, last: u64, now: u64) -> (r: WatchdogAction)
        ensures
            self@.stale(last as int, now as int) ==> r == WatchdogAction::Terminate,
            !self@.stale(last as int, now as int) ==> r == WatchdogAction::SleepFor(
                self@.poll_interval as u64,
            ),
    {
        if self.is_stale(last, now) {
            WatchdogAction::Terminate
        } else {
            WatchdogAction::SleepFor(self.poll_interval)
        }
    }
}

/// While writes complete at least every `period` time units and `period` is
/// within the timeout, no poll finds the last write stale.
pub proof fn lemma_regular_writes_keep_alive(w: WatchdogView, period: int, last: int, now: int)
    requires
        period <= w.timeout,
        now - last <= period,
    ensures
        !w.stale(last, now),
{
}

/// Once writes have stopped at time `last`, a monitor that was started no
/// later and polls at a positive interval finds this out: at a poll that
/// comes after the timeout has run out and at most one poll interval later.
pub proof fn lemma_silence_is_detected(w: WatchdogView, start: int, last: int)
    requires
        w.wf(),
        w.poll_interval >= 1,
        start <= last,
    ensures
        w.detects_by(start, last, last + w.timeout + w.poll_interval),
{
    let deadline = last + w.timeout;
    // The first poll strictly after the deadline.
    let k: nat = ((deadline - start) / w.poll_interval) as nat;
    vstd::arithmetic::div_mod::lemma_fundamental_div_mod(deadline - start, w.poll_interval);
    vstd::arithmetic::div_mod::lemma_mod_bound(deadline - start, w.poll_interval);
    vstd::arithmetic::div_mod::lemma_div_pos_is_pos(deadline - start, w.poll_interval);
    assert((k + 1) * w.poll_interval == w.poll_interval * ((deadline - start) / w.poll_interval)
        + w.poll_interval) by (nonlinear_arith)
        requires
            k == (deadline - start) / w.poll_interval,
    ;
    assert(w.stale(last, w.poll_time(start, k)));
    assert(w.poll_time(start, k) <= last + w.timeout + w.poll_interval);
}

} // verus!
