//! The progress relay: decision logic for the task that bridges a
//! download's fractional progress into an external step-reporting sink.
//!
//! One relay accompanies one download attempt. The host runs the loop:
//! it watches a last-value-wins progress channel and a shutdown signal,
//! and feeds whichever arrives into [`ProgressRelay::step`]; the relay
//! says what to forward and when to stop. It stops itself on natural
//! completion (a value of one hundred percent or more) or on the
//! shutdown signal — the latter never aborts the transfer itself, it
//! only ends the reporting. The relay never blocks the producer: being
//! fed only the most recent value is expected.
//!
//! Progress values are carried in hundredths of a percent (`10000`
//! means one hundred percent), so the crate holds no floating point;
//! the host divides by one hundred when its sink wants percentages.

use vstd::prelude::*;

verus! {

/// One hundred percent, in hundredths of a percent.
pub const RELAY_FULL: u32 = 10000;

/// What the host observed while watching the channel and the signal.
#[derive(Clone, Copy, Debug, PartialEq, Eq, Structural)]
pub enum RelayEvent {
    /// The shutdown signal fired.
    Shutdown,
    /// The progress channel holds a new value, in hundredths of a
    /// percent (monotonically non-decreasing by convention, not
    /// enforced).
    Progress(u32),
}

/// What the relay decided.
#[derive(Clone, Copy, Debug, PartialEq, Eq, Structural)]
pub enum RelayAction {
    /// Report to the sink: the raw value, and the normalized fraction
    /// rounded to the nearest unit (`0` or `1` for in-convention
    /// values). `last` says the relay is done after this report.
    Forward { raw: u32, rounded_unit: u32, last: bool },
    /// Stop without reporting: the shutdown signal ended the relay.
    Stop,
}

/// The relay's state: whether it has terminated.
#[derive(Clone, Copy, Debug, PartialEq, Eq, Structural)]
pub struct ProgressRelay {
    pub done: bool,
}

impl ProgressRelay {
    /// A fresh relay for one download attempt.
    pub fn new() -> (r: ProgressRelay)
        ensures
            !r.done,
    {
        ProgressRelay { done: false }
    }

    /// Consumes one observation. A shutdown stops the relay at once,
    /// without a report and without touching the transfer; a progress
    /// value is forwarded with its rounded normalized fraction, and a
    /// value of one hundred percent or more completes the relay.
    pub fn step(&mut self, ev: RelayEvent) -> (a: RelayAction)
        requires
            !old(self).done,
        ensures
            ev is Shutdown ==> a == RelayAction::Stop && final(self).done,
            ev matches RelayEvent::Progress(v) ==> {
                &&& a == (RelayAction::Forward {
                    raw: v,
                    rounded_unit: ((v + 5000) / 10000) as u32,
                    last: v >= RELAY_FULL,
                })
                &&& final(self).done == (v >= RELAY_FULL)
            },
    {
        match ev {
            RelayEvent::Shutdown => {
                self.done = true;
                RelayAction::Stop
            },
            RelayEvent::Progress(v) => {
                let rounded_unit = ((v as u64 + 5000) / 10000) as u32;
                let last = v >= RELAY_FULL;
                self.done = last;
                RelayAction::Forward { raw: v, rounded_unit, last }
            },
        }
    }
}

} // verus!
