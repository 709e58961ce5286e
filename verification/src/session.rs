//! A session: the handshake that tells each peer its role, then the relay
//! that forwards payload bytes between the two in strict alternation.
//!
//! The session is a state machine. In every phase exactly one I/O operation
//! is outstanding; the owner of the two connections performs it and reports
//! how it ended, and the session names the next one. Any failure closes the
//! session for good.

use vstd::prelude::*;
use crate::error::ServiceError;
use crate::wire::SENTINEL;

verus! {

/// The side of a session a connection is on. The connection that registered
/// first is `First`; it sends the first payload byte of every round.
#[derive(Clone, Copy, Debug, PartialEq, Eq, Structural)]
pub enum Role {
    First,
    Second,
}

impl Role {
    /// The byte that tells a peer its role.
    pub open spec fn spec_byte(self) -> u8 {
        match self {
            Role::First => 0,
            Role::Second => 1,
        }
    }

    /// The opposite side.
    pub open spec fn spec_other(self) -> Role {
        match self {
            Role::First => Role::Second,
            Role::Second => Role::First,
        }
    }

    /// The role a role byte stands for, if it stands for one.
    pub open spec fn spec_from_byte(byte: u8) -> Option<Role> {
        if byte == 0 {
            Some(Role::First)
        } else if byte == 1 {
            Some(Role::Second)
        } else {
            None
        }
    }

    #[verifier::when_used_as_spec(spec_byte)]
    pub fn byte(self) -> (b: u8)
        ensures
            b == self.spec_byte(),
    {
        match self {
            Role::First => 0,
            Role::Second => 1,
        }
    }

    #[verifier::when_used_as_spec(spec_other)]
    pub fn other(self) -> (r: Role)
        ensures
            r == self.spec_other(),
    {
        match self {
            Role::First => Role::Second,
            Role::Second => Role::First,
        }
    }

    #[verifier::when_used_as_spec(spec_from_byte)]
    pub fn from_byte(byte: u8) -> (r: Option<Role>)
        ensures
            r == Role::spec_from_byte(byte),
    {
        if byte == 0 {
            Some(Role::First)
        } else if byte == 1 {
            Some(Role::Second)
        } else {
            None
        }
    }
}

/// How an I/O operation ended.
#[derive(Clone, Copy, Debug, PartialEq, Eq, Structural)]
pub enum IoEvent {
    /// The byte was written.
    Wrote,
    /// This byte was read.
    Received(u8),
    /// The operation ran out of time.
    TimedOut,
    /// The operation failed: the peer closed, the connection was reset, or
    /// the network gave up.
    Failed,
}

/// The I/O operation a session asks for.
#[derive(Clone, Copy, Debug, PartialEq, Eq, Structural)]
pub enum Action {
    /// Write the one byte to the connection of that role.
    Write { to: Role, byte: u8 },
    /// Block until one byte arrives from the connection of that role.
    Read { from: Role },
    /// Close both connections; the session is over.
    Close,
}

impl Action {
    /// The connection an operation works on.
    pub open spec fn touches(self) -> Option<Role> {
        match self {
            Action::Write { to, .. } => Some(to),
            Action::Read { from } => Some(from),
            Action::Close => None,
        }
    }

    /// Whether `event` is the operation having gone through.
    pub open spec fn done_by(self, event: IoEvent) -> bool {
        match (self, event) {
            (Action::Write { .. }, IoEvent::Wrote) => true,
            (Action::Read { .. }, IoEvent::Received(_)) => true,
            _ => false,
        }
    }
}

/// Where a session stands.
#[derive(Clone, Copy, Debug, PartialEq, Eq, Structural)]
pub enum Phase {
    /// The role byte of the first connection is being written.
    AssigningFirst,
    /// The role byte of the second connection is being written.
    AssigningSecond,
    /// The sentinel is being written to the first connection.
    AnnouncingFirst,
    /// The sentinel is being written to the second connection.
    AnnouncingSecond,
    /// A payload byte is awaited from that side.
    Reading(Role),
    /// The payload byte is being written to that side.
    Forwarding { to: Role, byte: u8 },
    /// An operation failed. Both connections are closed and stay so.
    Closed,
}

impl Phase {
    /// The operation that is outstanding in a phase.
    pub open spec fn pending(self) -> Action {
        match self {
            Phase::AssigningFirst => Action::Write {
                to: Role::First,
                byte: Role::First.spec_byte(),
            },
            Phase::AssigningSecond => Action::Write {
                to: Role::Second,
                byte: Role::Second.spec_byte(),
            },
            Phase::AnnouncingFirst => Action::Write { to: Role::First, byte: SENTINEL },
            Phase::AnnouncingSecond => Action::Write { to: Role::Second, byte: SENTINEL },
            Phase::Reading(from) => Action::Read { from },
            Phase::Forwarding { to, byte } => Action::Write { to, byte },
            Phase::Closed => Action::Close,
        }
    }

    /// The phase that follows when the outstanding operation ends in `event`.
    /// A write that went through moves the handshake on, or hands the turn
    /// to the side just written to; a byte that arrived is forwarded to the
    /// other side; everything else closes the session.
    pub open spec fn next(self, event: IoEvent) -> Phase {
        match (self, event) {
            (Phase::AssigningFirst, IoEvent::Wrote) => Phase::AssigningSecond,
            (Phase::AssigningSecond, IoEvent::Wrote) => Phase::AnnouncingFirst,
            (Phase::AnnouncingFirst, IoEvent::Wrote) => Phase::AnnouncingSecond,
            (Phase::AnnouncingSecond, IoEvent::Wrote) => Phase::Reading(Role::First),
            (Phase::Reading(from), IoEvent::Received(byte)) => Phase::Forwarding {
                to: from.spec_other(),
                byte,
            },
            (Phase::Forwarding { to, .. }, IoEvent::Wrote) => Phase::Reading(to),
            _ => Phase::Closed,
        }
    }

    /// Whether payload bytes may move in this phase.
    pub open spec fn relaying(self) -> bool {
        self is Reading || self is Forwarding
    }
}

/// A session between two connections that both passed the liveness probe.
pub struct Session {
    phase: Phase,
}

impl View for Session {
    type V = Phase;

    closed spec fn view(&self) -> Phase {
        self.phase
    }
}

impl Session {
    /// A new session, about to tell the first connection its role.
    pub fn start() -> (s: Session)
        ensures
            s@ == Phase::AssigningFirst,
    {
        Session { phase: Phase::AssigningFirst }
    }

    /// The phase the session is in.
    pub fn phase(&self) -> (p: Phase)
        ensures
            p == self@,
    {
        self.phase
    }

    /// The operation the session is waiting for.
    pub fn pending(&self) -> (a: Action)
        ensures
            a == self@.pending(),
    {
        match self.phase {
            Phase::AssigningFirst => Action::Write { to: Role::First, byte: Role::First.byte() },
            Phase::AssigningSecond => Action::Write {
                to: Role::Second,
                byte: Role::Second.byte(),
            },
            Phase::AnnouncingFirst => Action::Write { to: Role::First, byte: SENTINEL },
            Phase::AnnouncingSecond => Action::Write { to: Role::Second, byte: SENTINEL },
            Phase::Reading(from) => Action::Read { from },
            Phase::Forwarding { to, byte } => Action::Write { to, byte },
            Phase::Closed => Action::Close,
        }
    }

    /// Takes in how the outstanding operation ended and names the next one.
    pub fn advance(&mut self, event: IoEvent) -> (a: Action)
        ensures
            final(self)@ == old(self)@.next(event),
            a == final(self)@.pending(),
    {
        let next: Phase = match (self.phase, event) {
            (Phase::AssigningFirst, IoEvent::Wrote) => Phase::AssigningSecond,
            (Phase::AssigningSecond, IoEvent::Wrote) => Phase::AnnouncingFirst,
            (Phase::AnnouncingFirst, IoEvent::Wrote) => Phase::AnnouncingSecond,
            (Phase::AnnouncingSecond, IoEvent::Wrote) => Phase::Reading(Role::First),
            (Phase::Reading(from), IoEvent::Received(byte)) => Phase::Forwarding {
                to: from.other(),
                byte,
            },
            (Phase::Forwarding { to, .. }, IoEvent::Wrote) => Phase::Reading(to),
            _ => Phase::Closed,
        };
        self.phase = next;
        self.pending()
    }

    /// Whether the session is over.
    pub fn is_closed(&self) -> (c: bool)
        ensures
            c == (self@ is Closed),
    {
        match self.phase {
            Phase::Closed => true,
            _ => false,
        }
    }

    /// Why the session ended, once it has.
    pub fn error(&self) -> (e: Option<ServiceError>)
        ensures
            e == if self@ is Closed {
                Some(ServiceError::RelayIOError)
            } else {
                None::<ServiceError>
            },
    {
        match self.phase {
            Phase::Closed => Some(ServiceError::RelayIOError),
            _ => None,
        }
    }
}

} // verus!
