//! The shutdown lifecycle: a one-way state machine from serving traffic to
//! a full stop.
//!
//! The server runtime waits for termination signals and drives the
//! coordinator with the events below; the coordinator decides what each
//! event means. New connections are accepted only while running; a
//! termination signal starts draining, in-flight requests are allowed to
//! finish, and the machine stops once they have (or once the grace period
//! runs out, abandoning whatever is still in flight). There is no way back
//! from a later phase to an earlier one.

use vstd::prelude::*;

verus! {

/// The phases of the server's life, in the only order they can occur.
#[derive(Debug, Clone, Copy, PartialEq, Eq, Structural)]
pub enum LifecyclePhase {
    /// Accepting new connections; background tasks ticking.
    Running,
    /// No new connections; in-flight requests finishing.
    Draining,
    /// Done; background tasks are abandoned at process exit.
    Stopped,
}

/// Where a phase stands in the one-way order.
pub open spec fn spec_phase_rank(p: LifecyclePhase) -> int {
    match p {
        LifecyclePhase::Running => 0,
        LifecyclePhase::Draining => 1,
        LifecyclePhase::Stopped => 2,
    }
}

/// Tracks the current phase and how many requests are in flight.
pub struct LifecycleCoordinator {
    pub phase: LifecyclePhase,
    pub in_flight: u64,
}

impl LifecycleCoordinator {
    /// A freshly started server: running, nothing in flight.
    pub fn new() -> (c: LifecycleCoordinator)
        ensures
            c.phase == LifecyclePhase::Running,
            c.in_flight == 0,
    {
        LifecycleCoordinator { phase: LifecyclePhase::Running, in_flight: 0 }
    }

    /// Whether a new connection may be accepted: only while running.
    pub fn accepting(&self) -> (r: bool)
        ensures
            r == (self.phase == LifecyclePhase::Running),
    {
        match self.phase {
            LifecyclePhase::Running => true,
            _ => false,
        }
    }

    /// Admit one request, if the server is still running and the in-flight
    /// counter has room. Refused requests change nothing.
    pub fn request_started(&mut self) -> (accepted: bool)
        ensures
            accepted == (old(self).phase == LifecyclePhase::Running && old(self).in_flight
                < u64::MAX),
            accepted ==> final(self).phase == old(self).phase && final(self).in_flight == old(
                self,
            ).in_flight + 1,
            !accepted ==> *final(self) == *old(self),
            spec_phase_rank(final(self).phase) >= spec_phase_rank(old(self).phase),
    {
        match self.phase {
            LifecyclePhase::Running => {
                if self.in_flight < u64::MAX {
                    self.in_flight = self.in_flight + 1;
                    true
                } else {
                    false
                }
            },
            _ => false,
        }
    }

    /// One request finished. While draining, the last one to finish stops
    /// the machine.
    pub fn request_finished(&mut self)
        requires
            old(self).in_flight >= 1,
        ensures
            final(self).in_flight == old(self).in_flight - 1,
            final(self).phase == (if old(self).phase == LifecyclePhase::Draining && old(
                self,
            ).in_flight == 1 {
                LifecyclePhase::Stopped
            } else {
                old(self).phase
            }),
            spec_phase_rank(final(self).phase) >= spec_phase_rank(old(self).phase),
    {
        self.in_flight = self.in_flight - 1;
        if self.in_flight == 0 {
            match self.phase {
                LifecyclePhase::Draining => {
                    self.phase = LifecyclePhase::Stopped;
                },
                _ => {},
            }
        }
    }

    /// A termination signal arrived. A running server stops accepting new
    /// connections and drains; with nothing in flight it stops at once.
    /// Later phases are unmoved: shutdown is one-way.
    pub fn on_termination_signal(&mut self)
        ensures
            final(self).in_flight == old(self).in_flight,
            final(self).phase == (if old(self).phase == LifecyclePhase::Running {
                if old(self).in_flight == 0 {
                    LifecyclePhase::Stopped
                } else {
                    LifecyclePhase::Draining
                }
            } else {
                old(self).phase
            }),
            spec_phase_rank(final(self).phase) >= spec_phase_rank(old(self).phase),
    {
        match self.phase {
            LifecyclePhase::Running => {
                if self.in_flight == 0 {
                    self.phase = LifecyclePhase::Stopped;
                } else {
                    self.phase = LifecyclePhase::Draining;
                }
            },
            _ => {},
        }
    }

    /// The grace period ran out while draining: stop, abandoning whatever
    /// is still in flight. Other phases are unmoved.
    pub fn on_grace_elapsed(&mut self)
        ensures
            final(self).in_flight == old(self).in_flight,
            final(self).phase == (if old(self).phase == LifecyclePhase::Draining {
                LifecyclePhase::Stopped
            } else {
                old(self).phase
            }),
            spec_phase_rank(final(self).phase) >= spec_phase_rank(old(self).phase),
    {
        match self.phase {
            LifecyclePhase::Draining => {
                self.phase = LifecyclePhase::Stopped;
            },
            _ => {},
        }
    }
}

} // verus!
