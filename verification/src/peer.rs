//! The other end of the wire: what a client does to be paired and to take
//! part in a session.
//!
//! A peer introduces itself by its identifier, echoes every probe while it
//! waits, learns its role, waits for the start signal, and then exchanges
//! payload bytes with its partner in turns. Like the session, it is a state
//! machine with one operation outstanding at a time; besides the socket it
//! talks to the local player, who chooses the bytes to send and is handed
//! the bytes that arrive.

use vstd::prelude::*;
use crate::session::Role;
use crate::wire::SENTINEL;

verus! {

/// How an operation of a peer ended.
#[derive(Clone, Copy, Debug, PartialEq, Eq, Structural)]
pub enum PeerEvent {
    /// The bytes were written to the socket.
    Wrote,
    /// This byte was read from the socket.
    Received(u8),
    /// The local player chose this byte to send.
    Chosen(u8),
    /// The local player took what was handed over.
    Handed,
    /// The operation failed, or the local player is gone.
    Failed,
}

/// The operation a peer asks for.
#[derive(Clone, Copy, Debug, PartialEq, Eq, Structural)]
pub enum PeerAction {
    /// Write the identifier to the socket, as its four bytes.
    Introduce { id: u32 },
    /// Write the one byte to the socket.
    Send { byte: u8 },
    /// Block until one byte arrives from the socket.
    Receive,
    /// Tell the local player that the session began, and in which role.
    Announce { role: Role },
    /// Wait for the local player to choose a byte.
    AwaitChoice,
    /// Hand the partner's byte to the local player.
    Deliver { byte: u8 },
    /// Close the socket; the peer is done.
    Close,
}

/// Where a peer stands.
#[derive(Clone, Copy, Debug, PartialEq, Eq, Structural)]
pub enum PeerPhase {
    /// The identifier is being written.
    Introducing { id: u32 },
    /// Waiting for a partner: a probe or the role byte is awaited.
    Waiting,
    /// A probe is being echoed.
    Echoing,
    /// The role is known; the start signal is awaited.
    Assigned(Role),
    /// The local player is being told that the session began.
    Announcing(Role),
    /// It is this peer's turn: the local player's byte is awaited.
    Choosing,
    /// The local player's byte is being written.
    Sending(u8),
    /// It is the partner's turn: its byte is awaited.
    Listening,
    /// The partner's byte is being handed to the local player.
    Delivering(u8),
    /// Something failed, or the service broke the protocol.
    Closed,
}

impl PeerPhase {
    /// The operation that is outstanding in a phase.
    pub open spec fn pending(self) -> PeerAction {
        match self {
            PeerPhase::Introducing { id } => PeerAction::Introduce { id },
            PeerPhase::Waiting => PeerAction::Receive,
            PeerPhase::Echoing => PeerAction::Send { byte: SENTINEL },
            PeerPhase::Assigned(_) => PeerAction::Receive,
            PeerPhase::Announcing(role) => PeerAction::Announce { role },
            PeerPhase::Choosing => PeerAction::AwaitChoice,
            PeerPhase::Sending(byte) => PeerAction::Send { byte },
            PeerPhase::Listening => PeerAction::Receive,
            PeerPhase::Delivering(byte) => PeerAction::Deliver { byte },
            PeerPhase::Closed => PeerAction::Close,
        }
    }

    /// The phase that follows when the outstanding operation ends in `event`.
    /// While waiting, the sentinel is a probe and is echoed, and a role byte
    /// ends the wait. After the start signal the first role chooses and
    /// sends, then listens; the second listens first. Payload bytes are taken
    /// as they are, whatever their value. Anything out of place closes the
    /// peer.
    pub open spec fn next(self, event: PeerEvent) -> PeerPhase {
        match (self, event) {
            (PeerPhase::Introducing { .. }, PeerEvent::Wrote) => PeerPhase::Waiting,
            (PeerPhase::Waiting, PeerEvent::Received(byte)) => if byte == SENTINEL {
                PeerPhase::Echoing
            } else {
                match Role::spec_from_byte(byte) {
                    Some(role) => PeerPhase::Assigned(role),
                    None => PeerPhase::Closed,
                }
            },
            (PeerPhase::Echoing, PeerEvent::Wrote) => PeerPhase::Waiting,
            (PeerPhase::Assigned(role), PeerEvent::Received(byte)) => if byte == SENTINEL {
                PeerPhase::Announcing(role)
            } else {
                PeerPhase::Closed
            },
            (PeerPhase::Announcing(role), PeerEvent::Handed) => match role {
                Role::First => PeerPhase::Choosing,
                Role::Second => PeerPhase::Listening,
            },
            (PeerPhase::Choosing, PeerEvent::Chosen(byte)) => PeerPhase::Sending(byte),
            (PeerPhase::Sending(_), PeerEvent::Wrote) => PeerPhase::Listening,
            (PeerPhase::Listening, PeerEvent::Received(byte)) => PeerPhase::Delivering(byte),
            (PeerPhase::Delivering(_), PeerEvent::Handed) => PeerPhase::Choosing,
            _ => PeerPhase::Closed,
        }
    }

    /// Whether the session has begun for this peer.
    pub open spec fn playing(self) -> bool {
        self is Choosing || self is Sending || self is Listening || self is Delivering
    }
}

/// One client of the service.
pub struct Peer {
    phase: PeerPhase,
}

impl View for Peer {
    type V = PeerPhase;

    closed spec fn view(&self) -> PeerPhase {
        self.phase
    }
}

impl Peer {
    /// A peer that has just connected and is about to give its identifier.
    pub fn connect(id: u32) -> (p: Peer)
        ensures
            p@ == (PeerPhase::Introducing { id }),
    {
        Peer { phase: PeerPhase::Introducing { id } }
    }

    /// The phase the peer is in.
    pub fn phase(&self) -> (p: PeerPhase)
        ensures
            p == self@,
    {
        self.phase
    }

    /// The operation the peer is waiting for.
    pub fn pending(&self) -> (a: PeerAction)
        ensures
            a == self@.pending(),
    {
        match self.phase {
            PeerPhase::Introducing { id } => PeerAction::Introduce { id },
            PeerPhase::Waiting => PeerAction::Receive,
            PeerPhase::Echoing => PeerAction::Send { byte: SENTINEL },
            PeerPhase::Assigned(_) => PeerAction::Receive,
            PeerPhase::Announcing(role) => PeerAction::Announce { role },
            PeerPhase::Choosing => PeerAction::AwaitChoice,
            PeerPhase::Sending(byte) => PeerAction::Send { byte },
            PeerPhase::Listening => PeerAction::Receive,
            PeerPhase::Delivering(byte) => PeerAction::Deliver { byte },
            PeerPhase::Closed => PeerAction::Close,
        }
    }

    /// Takes in how the outstanding operation ended and names the next one.
    pub fn advance(&mut self, event: PeerEvent) -> (a: PeerAction)
        ensures
            final(self)@ == old(self)@.next(event),
            a == final(self)@.pending(),
    {
        let next: PeerPhase = match (self.phase, event) {
            (PeerPhase::Introducing { .. }, PeerEvent::Wrote) => PeerPhase::Waiting,
            (PeerPhase::Waiting, PeerEvent::Received(byte)) => if byte == SENTINEL {
                PeerPhase::Echoing
            } else {
                match Role::from_byte(byte) {
                    Some(role) => PeerPhase::Assigned(role),
                    None => PeerPhase::Closed,
                }
            },
            (PeerPhase::Echoing, PeerEvent::Wrote) => PeerPhase::Waiting,
            (PeerPhase::Assigned(role), PeerEvent::Received(byte)) => if byte == SENTINEL {
                PeerPhase::Announcing(role)
            } else {
                PeerPhase::Closed
            },
            (PeerPhase::Announcing(role), PeerEvent::Handed) => match role {
                Role::First => PeerPhase::Choosing,
                Role::Second => PeerPhase::Listening,
            },
            (PeerPhase::Choosing, PeerEvent::Chosen(byte)) => PeerPhase::Sending(byte),
            (PeerPhase::Sending(_), PeerEvent::Wrote) => PeerPhase::Listening,
            (PeerPhase::Listening, PeerEvent::Received(byte)) => PeerPhase::Delivering(byte),
            (PeerPhase::Delivering(_), PeerEvent::Handed) => PeerPhase::Choosing,
            _ => PeerPhase::Closed,
        };
        self.phase = next;
        self.pending()
    }

    /// Whether the peer is done.
    pub fn is_closed(&self) -> (c: bool)
        ensures
            c == (self@ is Closed),
    {
        match self.phase {
            PeerPhase::Closed => true,
            _ => false,
        }
    }
}

/// The phase a peer with identifier `id` reaches after its operations ended
/// in `events`, one after the other.
pub open spec fn peer_after(id: u32, events: Seq<PeerEvent>) -> PeerPhase
    decreases events.len(),
{
    if events.len() == 0 {
        PeerPhase::Introducing { id }
    } else {
        peer_after(id, events.drop_last()).next(events.last())
    }
}

/// One more outcome moves the peer one phase on.
pub proof fn lemma_peer_step(id: u32, events: Seq<PeerEvent>, event: PeerEvent)
    ensures
        peer_after(id, events.push(event)) == peer_after(id, events).next(event),
{
    assert(events.push(event).drop_last() =~= events);
}

/// A peer whose connection is lost gives up at once: whatever it was doing,
/// a failed operation closes it, and a closed peer stays closed.
pub proof fn lemma_lost_connection_closes_peer(phase: PeerPhase, event: PeerEvent)
    ensures
        phase.next(PeerEvent::Failed) is Closed,
        PeerPhase::Closed.next(event) is Closed,
        PeerPhase::Closed.pending() == PeerAction::Close,
{
}

/// What happens to a peer that is probed `probes` times while it waits: it
/// writes its identifier, then, so many times, reads the sentinel and writes
/// its echo.
pub open spec fn waiting_through(probes: nat) -> Seq<PeerEvent>
    decreases probes,
{
    if probes == 0 {
        seq![PeerEvent::Wrote]
    } else {
        waiting_through((probes - 1) as nat).push(PeerEvent::Received(SENTINEL)).push(
            PeerEvent::Wrote,
        )
    }
}

/// A peer answers every probe, however many come: each time the sentinel
/// arrives while it waits, the next thing it does is to write the sentinel
/// back, and then it waits again.
pub proof fn lemma_peer_echoes_every_probe(id: u32, probes: nat)
    ensures
        peer_after(id, waiting_through(probes)) == PeerPhase::Waiting,
        peer_after(id, waiting_through(probes).push(PeerEvent::Received(SENTINEL))).pending() == (
        PeerAction::Send { byte: SENTINEL }),
    decreases probes,
{
    let run = waiting_through(probes);
    if probes == 0 {
        assert(run =~= Seq::<PeerEvent>::empty().push(PeerEvent::Wrote));
        lemma_peer_step(id, Seq::empty(), PeerEvent::Wrote);
    } else {
        let before = waiting_through((probes - 1) as nat);
        lemma_peer_echoes_every_probe(id, (probes - 1) as nat);
        lemma_peer_step(id, before, PeerEvent::Received(SENTINEL));
        lemma_peer_step(id, before.push(PeerEvent::Received(SENTINEL)), PeerEvent::Wrote);
    }
    lemma_peer_step(id, run, PeerEvent::Received(SENTINEL));
}

/// A peer takes the role it is told and the turn that goes with it. After
/// any number of probes, the role byte and then the sentinel start the
/// session for it: in the first role the local player is asked for a byte,
/// in the second the peer listens for its partner's.
pub proof fn lemma_peer_joins_in_its_role(id: u32, probes: nat, role: Role)
    ensures
        ({
            let told = waiting_through(probes).push(PeerEvent::Received(role.spec_byte())).push(
                PeerEvent::Received(SENTINEL),
            );
            &&& peer_after(id, told).pending() == (PeerAction::Announce { role })
            &&& peer_after(id, told.push(PeerEvent::Handed)).pending() == match role {
                Role::First => PeerAction::AwaitChoice,
                Role::Second => PeerAction::Receive,
            }
            &&& peer_after(id, told.push(PeerEvent::Handed)).playing()
        }),
{
    lemma_peer_echoes_every_probe(id, probes);
    let run = waiting_through(probes);
    let assigned = run.push(PeerEvent::Received(role.spec_byte()));
    let told = assigned.push(PeerEvent::Received(SENTINEL));
    lemma_peer_step(id, run, PeerEvent::Received(role.spec_byte()));
    lemma_peer_step(id, assigned, PeerEvent::Received(SENTINEL));
    lemma_peer_step(id, told, PeerEvent::Handed);
}

} // verus!
