//! The liveness probe: before a matched connection is committed to a
//! session, the sentinel is written to it and must come back within the
//! time allowed.
//!
//! A connection may have died while it waited. The probe is what keeps a
//! dead connection out of a relay that would never carry traffic.

use vstd::prelude::*;
use crate::error::ServiceError;
use crate::session::IoEvent;
use crate::wire::{PROBE_TIMEOUT_SECS, SENTINEL};

verus! {

/// Where a probe stands.
#[derive(Clone, Copy, Debug, PartialEq, Eq, Structural)]
pub enum ProbePhase {
    /// The sentinel is being written.
    Sending,
    /// The echo is awaited.
    Awaiting,
    /// The sentinel came back: the connection is usable.
    Alive,
    /// The probe failed: the connection is to be closed.
    Dead(ServiceError),
}

/// What a probe asks for.
#[derive(Clone, Copy, Debug, PartialEq, Eq, Structural)]
pub enum ProbeAction {
    /// Write the one byte to the connection.
    Write { byte: u8 },
    /// Wait for one byte from the connection, for at most so many seconds.
    ReadWithin { secs: u64 },
    /// The connection passed; nothing more to do.
    Keep,
    /// Close the connection. It does not go back to the waiting pool and is
    /// not probed again.
    Discard { error: ServiceError },
}

/// The error an operation that did not go through stands for: running out of
/// time is a timeout, everything else an I/O error.
pub open spec fn probe_error(event: IoEvent) -> ServiceError {
    match event {
        IoEvent::TimedOut => ServiceError::ProbeTimeout,
        _ => ServiceError::ProbeIOError,
    }
}

impl ProbePhase {
    /// The operation that is outstanding in a phase.
    pub open spec fn pending(self) -> ProbeAction {
        match self {
            ProbePhase::Sending => ProbeAction::Write { byte: SENTINEL },
            ProbePhase::Awaiting => ProbeAction::ReadWithin { secs: PROBE_TIMEOUT_SECS },
            ProbePhase::Alive => ProbeAction::Keep,
            ProbePhase::Dead(error) => ProbeAction::Discard { error },
        }
    }

    /// The phase that follows when the outstanding operation ends in `event`.
    /// Only the sentinel itself is an echo: any other byte in its place is a
    /// failed exchange, an I/O error. Once the probe has settled, nothing
    /// changes its mind.
    pub open spec fn next(self, event: IoEvent) -> ProbePhase {
        match self {
            ProbePhase::Sending => match event {
                IoEvent::Wrote => ProbePhase::Awaiting,
                _ => ProbePhase::Dead(probe_error(event)),
            },
            ProbePhase::Awaiting => match event {
                IoEvent::Received(byte) => if byte == SENTINEL {
                    ProbePhase::Alive
                } else {
                    ProbePhase::Dead(ServiceError::ProbeIOError)
                },
                _ => ProbePhase::Dead(probe_error(event)),
            },
            settled => settled,
        }
    }

    /// What the probe found, once it has settled.
    pub open spec fn verdict(self) -> Option<Result<(), ServiceError>> {
        match self {
            ProbePhase::Alive => Some(Ok(())),
            ProbePhase::Dead(error) => Some(Err(error)),
            _ => None,
        }
    }
}

/// The probe of one connection.
pub struct Probe {
    phase: ProbePhase,
}

impl View for Probe {
    type V = ProbePhase;

    closed spec fn view(&self) -> ProbePhase {
        self.phase
    }
}

impl Probe {
    /// A new probe, about to write the sentinel.
    pub fn start() -> (p: Probe)
        ensures
            p@ == ProbePhase::Sending,
    {
        Probe { phase: ProbePhase::Sending }
    }

    /// The operation the probe is waiting for.
    pub fn pending(&self) -> (a: ProbeAction)
        ensures
            a == self@.pending(),
    {
        match self.phase {
            ProbePhase::Sending => ProbeAction::Write { byte: SENTINEL },
            ProbePhase::Awaiting => ProbeAction::ReadWithin { secs: PROBE_TIMEOUT_SECS },
            ProbePhase::Alive => ProbeAction::Keep,
            ProbePhase::Dead(error) => ProbeAction::Discard { error },
        }
    }

    /// Takes in how the outstanding operation ended and names the next one.
    pub fn advance(&mut self, event: IoEvent) -> (a: ProbeAction)
        ensures
            final(self)@ == old(self)@.next(event),
            a == final(self)@.pending(),
    {
        let failure: ServiceError = match event {
            IoEvent::TimedOut => ServiceError::ProbeTimeout,
            _ => ServiceError::ProbeIOError,
        };
        let next: ProbePhase = match self.phase {
            ProbePhase::Sending => match event {
                IoEvent::Wrote => ProbePhase::Awaiting,
                _ => ProbePhase::Dead(failure),
            },
            ProbePhase::Awaiting => match event {
                IoEvent::Received(byte) => if byte == SENTINEL {
                    ProbePhase::Alive
                } else {
                    ProbePhase::Dead(ServiceError::ProbeIOError)
                },
                _ => ProbePhase::Dead(failure),
            },
            settled => settled,
        };
        self.phase = next;
        self.pending()
    }

    /// What the probe found: nothing while it runs, then that the connection
    /// is alive, or the error it is dropped for.
    pub fn verdict(&self) -> (v: Option<Result<(), ServiceError>>)
        ensures
            v == self@.verdict(),
    {
        match self.phase {
            ProbePhase::Alive => Some(Ok(())),
            ProbePhase::Dead(error) => Some(Err(error)),
            _ => None,
        }
    }
}

/// The phase a new probe reaches after its operations ended in `events`, one
/// after the other.
pub open spec fn probe_after(events: Seq<IoEvent>) -> ProbePhase
    decreases events.len(),
{
    if events.len() == 0 {
        ProbePhase::Sending
    } else {
        probe_after(events.drop_last()).next(events.last())
    }
}

/// Where a probe stands, read off the first two outcomes alone.
pub open spec fn probe_outcome(events: Seq<IoEvent>) -> ProbePhase {
    if events.len() == 0 {
        ProbePhase::Sending
    } else if events[0] != IoEvent::Wrote {
        ProbePhase::Dead(probe_error(events[0]))
    } else if events.len() == 1 {
        ProbePhase::Awaiting
    } else if events[1] == IoEvent::Received(SENTINEL) {
        ProbePhase::Alive
    } else {
        ProbePhase::Dead(probe_error(events[1]))
    }
}

/// A probe is settled by its first two operations: the write, and the wait
/// for the echo. Whatever is reported after that changes nothing.
pub proof fn lemma_probe_settles(events: Seq<IoEvent>)
    ensures
        probe_after(events) == probe_outcome(events),
    decreases events.len(),
{
    if events.len() > 0 {
        let before = events.drop_last();
        lemma_probe_settles(before);
        if before.len() > 0 {
            assert(before[0] == events[0]);
        }
        if before.len() > 1 {
            assert(before[1] == events[1]);
        }
    }
}

/// A connection passes only by echoing the sentinel: it is found alive
/// exactly if the sentinel was written to it and the next thing to happen,
/// within the time allowed, was the sentinel arriving from it.
pub proof fn lemma_alive_only_by_echo(events: Seq<IoEvent>)
    ensures
        probe_after(events) is Alive <==> events.len() >= 2 && events[0] == IoEvent::Wrote
            && events[1] == IoEvent::Received(SENTINEL),
{
    lemma_probe_settles(events);
}

/// A connection that lets the time allowed for the echo run out is dropped
/// for a timeout, whatever it does afterwards.
pub proof fn lemma_silence_is_timeout(events: Seq<IoEvent>)
    requires
        events.len() >= 2,
        events[0] == IoEvent::Wrote,
        events[1] == IoEvent::TimedOut,
    ensures
        probe_after(events) == ProbePhase::Dead(ServiceError::ProbeTimeout),
        probe_after(events).pending() == (ProbeAction::Discard {
            error: ServiceError::ProbeTimeout,
        }),
{
    lemma_probe_settles(events);
}

} // verus!
