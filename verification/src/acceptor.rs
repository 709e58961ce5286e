//! The acceptor: what becomes of each newly accepted connection.
//!
//! A connection is taken in by its identifier, waits in the pairing table
//! until a partner arrives, and is then probed together with that partner.
//! The acceptor owns the table; it is the only place that changes it.
//!
//! When one of a matched pair fails its probe and the other passes, the one
//! that passed goes back to the waiting pool under the same identifier, as
//! if it had just arrived. The one that failed is handed back to be closed.

use vstd::prelude::*;
use crate::error::ServiceError;
use crate::table::{registration, table_after, PairingTable, Registration};
use crate::wire::{be_value, lemma_be_value_fits, lemma_encode_decode, read_identifier};

verus! {

/// What becomes of a newly accepted connection.
#[derive(Debug, PartialEq, Eq)]
pub enum Admission<C> {
    /// The identifier did not arrive in full. The connection is handed back
    /// to be closed; it never entered the table.
    Rejected { conn: C, error: ServiceError },
    /// The connection waits in the table for a partner.
    Waiting,
    /// The connection met a partner under `id`. Both have left the table and
    /// are handed back to be probed; `first` registered first.
    Matched { id: u32, first: C, second: C },
}

/// What becomes of a matched pair once both have been probed.
#[derive(Debug, PartialEq, Eq)]
pub enum Settlement<C> {
    /// Both are alive: a session begins, `first` in the first role.
    Established { first: C, second: C },
    /// One failed and is handed back to be closed. The other registered
    /// again, with the result given.
    Requeued { dropped: C, error: ServiceError, survivor: Registration<C> },
    /// Both failed and are handed back to be closed.
    Dropped { first: C, first_error: ServiceError, second: C, second_error: ServiceError },
}

/// What becomes of `conn` when `received` is all that arrived of its
/// identifier.
pub open spec fn admission<C>(table: Map<u32, C>, conn: C, received: Seq<u8>) -> Admission<C> {
    if received.len() != 4 {
        Admission::Rejected { conn, error: ServiceError::HandshakeIncomplete }
    } else {
        let id = be_value(received) as u32;
        match registration(table, id, conn) {
            Registration::Waiting => Admission::Waiting,
            Registration::Paired { first, second } => Admission::Matched { id, first, second },
        }
    }
}

/// The table after `conn` was taken in, or rejected.
pub open spec fn table_after_admission<C>(
    table: Map<u32, C>,
    conn: C,
    received: Seq<u8>,
) -> Map<u32, C> {
    if received.len() != 4 {
        table
    } else {
        table_after(table, be_value(received) as u32, conn)
    }
}

/// What becomes of the pair matched under `id`, given what the two probes
/// found.
pub open spec fn settlement<C>(
    table: Map<u32, C>,
    id: u32,
    first: C,
    second: C,
    first_probe: Result<(), ServiceError>,
    second_probe: Result<(), ServiceError>,
) -> Settlement<C> {
    match (first_probe, second_probe) {
        (Ok(_), Ok(_)) => Settlement::Established { first, second },
        (Ok(_), Err(error)) => Settlement::Requeued {
            dropped: second,
            error,
            survivor: registration(table, id, first),
        },
        (Err(error), Ok(_)) => Settlement::Requeued {
            dropped: first,
            error,
            survivor: registration(table, id, second),
        },
        (Err(first_error), Err(second_error)) => Settlement::Dropped {
            first,
            first_error,
            second,
            second_error,
        },
    }
}

/// The table after the pair matched under `id` was settled.
pub open spec fn table_after_settlement<C>(
    table: Map<u32, C>,
    id: u32,
    first: C,
    second: C,
    first_probe: Result<(), ServiceError>,
    second_probe: Result<(), ServiceError>,
) -> Map<u32, C> {
    match (first_probe, second_probe) {
        (Ok(_), Err(_)) => table_after(table, id, first),
        (Err(_), Ok(_)) => table_after(table, id, second),
        _ => table,
    }
}

/// What the acceptor is told.
#[derive(Debug, PartialEq, Eq)]
pub enum Event<C> {
    /// A connection was accepted; `received` is all that arrived of its
    /// identifier before its stream ended or failed.
    Arrived { conn: C, received: Vec<u8> },
    /// The pair matched under `id` has been probed, with these findings.
    Probed {
        id: u32,
        first: C,
        second: C,
        first_probe: Result<(), ServiceError>,
        second_probe: Result<(), ServiceError>,
    },
}

/// What the acceptor asks for in answer. Every connection it hands out
/// belongs to whoever carries the order out.
#[derive(Debug, PartialEq, Eq)]
pub enum Order<C> {
    /// Close the connection; `error` is why.
    Close { conn: C, error: ServiceError },
    /// Probe both connections, then report what was found.
    Probe { id: u32, first: C, second: C },
    /// Run a session between the two, `first` in the first role.
    Relay { first: C, second: C },
}

/// The orders that follow from what became of a new connection.
pub open spec fn orders_on_admission<C>(a: Admission<C>) -> Seq<Order<C>> {
    match a {
        Admission::Rejected { conn, error } => seq![Order::Close { conn, error }],
        Admission::Waiting => Seq::empty(),
        Admission::Matched { id, first, second } => seq![Order::Probe { id, first, second }],
    }
}

/// The orders that follow from what became of a probed pair. A survivor
/// that met a new partner on registering again is probed together with it.
pub open spec fn orders_on_settlement<C>(id: u32, s: Settlement<C>) -> Seq<Order<C>> {
    match s {
        Settlement::Established { first, second } => seq![Order::Relay { first, second }],
        Settlement::Requeued { dropped, error, survivor } => match survivor {
            Registration::Waiting => seq![Order::Close { conn: dropped, error }],
            Registration::Paired { first, second } => seq![
                Order::Close { conn: dropped, error },
                Order::Probe { id, first, second },
            ],
        },
        Settlement::Dropped { first, first_error, second, second_error } => seq![
            Order::Close { conn: first, error: first_error },
            Order::Close { conn: second, error: second_error },
        ],
    }
}

/// The orders the acceptor gives on an event.
pub open spec fn orders<C>(table: Map<u32, C>, event: Event<C>) -> Seq<Order<C>> {
    match event {
        Event::Arrived { conn, received } => orders_on_admission(
            admission(table, conn, received@),
        ),
        Event::Probed { id, first, second, first_probe, second_probe } => orders_on_settlement(
            id,
            settlement(table, id, first, second, first_probe, second_probe),
        ),
    }
}

/// The table after an event.
pub open spec fn table_after_event<C>(table: Map<u32, C>, event: Event<C>) -> Map<u32, C> {
    match event {
        Event::Arrived { conn, received } => table_after_admission(table, conn, received@),
        Event::Probed { id, first, second, first_probe, second_probe } => table_after_settlement(
            table,
            id,
            first,
            second,
            first_probe,
            second_probe,
        ),
    }
}

/// The acceptor's state: the pairing table.
pub struct Acceptor<C> {
    table: PairingTable<C>,
}

impl<C> View for Acceptor<C> {
    type V = Map<u32, C>;

    closed spec fn view(&self) -> Map<u32, C> {
        self.table@
    }
}

impl<C> Acceptor<C> {
    /// An acceptor with nobody waiting.
    pub fn new() -> (a: Self)
        ensures
            a@ == Map::<u32, C>::empty(),
    {
        Acceptor { table: PairingTable::new() }
    }

    /// Takes in a newly accepted connection, given the bytes that arrived
    /// before its stream ended or failed. Fewer than the four bytes of an
    /// identifier: the connection is rejected and the table stays as it is.
    /// Otherwise the connection registers under the identifier, and either
    /// waits or leaves the table at once together with its partner.
    pub fn accept(&mut self, conn: C, received: &[u8]) -> (a: Admission<C>)
        ensures
            a == admission(old(self)@, conn, received@),
            final(self)@ == table_after_admission(old(self)@, conn, received@),
    {
        match read_identifier(received) {
            Err(error) => Admission::Rejected { conn, error },
            Ok(id) => match self.table.register(id, conn) {
                Registration::Waiting => Admission::Waiting,
                Registration::Paired { first, second } => Admission::Matched { id, first, second },
            },
        }
    }

    /// Settles a matched pair once both have been probed. A session begins
    /// only if both are alive. A connection whose probe failed is handed
    /// back to be closed, in every case. If exactly one is alive, it
    /// registers again under `id`.
    pub fn settle(
        &mut self,
        id: u32,
        first: C,
        second: C,
        first_probe: Result<(), ServiceError>,
        second_probe: Result<(), ServiceError>,
    ) -> (s: Settlement<C>)
        ensures
            s == settlement(old(self)@, id, first, second, first_probe, second_probe),
            final(self)@ == table_after_settlement(
                old(self)@,
                id,
                first,
                second,
                first_probe,
                second_probe,
            ),
    {
        match (first_probe, second_probe) {
            (Ok(_), Ok(_)) => Settlement::Established { first, second },
            (Ok(_), Err(error)) => {
                let survivor = self.table.register(id, first);
                Settlement::Requeued { dropped: second, error, survivor }
            },
            (Err(error), Ok(_)) => {
                let survivor = self.table.register(id, second);
                Settlement::Requeued { dropped: first, error, survivor }
            },
            (Err(first_error), Err(second_error)) => Settlement::Dropped {
                first,
                first_error,
                second,
                second_error,
            },
        }
    }

    /// Takes in one event and says what is to be done about it: which
    /// connections to close, which pair to probe, which session to run.
    pub fn handle(&mut self, event: Event<C>) -> (todo: Vec<Order<C>>)
        ensures
            todo@ == orders(old(self)@, event),
            final(self)@ == table_after_event(old(self)@, event),
    {
        let mut todo: Vec<Order<C>> = Vec::new();
        match event {
            Event::Arrived { conn, received } => match self.accept(conn, received.as_slice()) {
                Admission::Rejected { conn, error } => {
                    todo.push(Order::Close { conn, error });
                },
                Admission::Waiting => {},
                Admission::Matched { id, first, second } => {
                    todo.push(Order::Probe { id, first, second });
                },
            },
            Event::Probed { id, first, second, first_probe, second_probe } => match self.settle(
                id,
                first,
                second,
                first_probe,
                second_probe,
            ) {
                Settlement::Established { first, second } => {
                    todo.push(Order::Relay { first, second });
                },
                Settlement::Requeued { dropped, error, survivor } => {
                    todo.push(Order::Close { conn: dropped, error });
                    match survivor {
                        Registration::Waiting => {},
                        Registration::Paired { first, second } => {
                            todo.push(Order::Probe { id, first, second });
                        },
                    }
                },
                Settlement::Dropped { first, first_error, second, second_error } => {
                    todo.push(Order::Close { conn: first, error: first_error });
                    todo.push(Order::Close { conn: second, error: second_error });
                },
            },
        }
        assert(todo@ =~= orders(old(self)@, event));
        todo
    }

    /// Whether a connection waits under `id`.
    pub fn is_waiting(&self, id: u32) -> (w: bool)
        ensures
            w == self@.contains_key(id),
    {
        self.table.is_waiting(id)
    }

    /// How many connections wait, over all identifiers.
    pub fn waiting_count(&self) -> (n: usize)
        ensures
            n == self@.len(),
    {
        self.table.waiting_count()
    }
}

/// A connection that fails its probe is excluded. No session is ordered
/// unless both probes passed. The connection that failed is ordered closed,
/// with the error its probe found, and is never put back in the table. Its
/// partner, if alive, goes back to the waiting pool under the same
/// identifier, and is closed too if not.
pub proof fn lemma_failed_probe_excludes<C>(
    table: Map<u32, C>,
    id: u32,
    first: C,
    second: C,
    first_probe: Result<(), ServiceError>,
    second_probe: Result<(), ServiceError>,
)
    ensures
        ({
            let event = Event::Probed { id, first, second, first_probe, second_probe };
            let todo = orders(table, event);
            let after = table_after_event(table, event);
            &&& (exists|i: int| 0 <= i < todo.len() && #[trigger] todo[i] is Relay) <==> (
            first_probe is Ok && second_probe is Ok)
            &&& first_probe is Ok && second_probe is Ok ==> todo == seq![
                Order::Relay { first, second },
            ] && after == table
            &&& first_probe matches Err(error) ==> todo[0] == (Order::Close { conn: first, error })
            &&& second_probe matches Err(error) ==> todo.contains(
                Order::Close { conn: second, error },
            )
            &&& first_probe is Err && second_probe is Err ==> after == table
            &&& first_probe is Err && second_probe is Ok ==> after == table_after(table, id, second)
            &&& first_probe is Ok && second_probe is Err ==> after == table_after(table, id, first)
        }),
{
    let event = Event::Probed { id, first, second, first_probe, second_probe };
    let todo = orders(table, event);
    if first_probe is Ok && second_probe is Ok {
        assert(todo[0] is Relay);
    }
    if let Err(error) = second_probe {
        if first_probe is Err {
            assert(todo[1] == Order::Close { conn: second, error });
        } else {
            assert(todo[0] == Order::Close { conn: second, error });
        }
    }
}

/// Two connections that present the same identifier, one after the other
/// with nobody waiting under it before, are matched: the first waits, the
/// second meets it, and the two are ordered probed in the order in which
/// they arrived. The table is then as it was.
pub proof fn lemma_same_identifier_matches<C>(
    table: Map<u32, C>,
    first: C,
    second: C,
    received: Seq<u8>,
)
    requires
        received.len() == 4,
        !table.contains_key(be_value(received) as u32),
    ensures
        admission(table, first, received) == Admission::<C>::Waiting,
        admission(table_after_admission(table, first, received), second, received) == (
        Admission::Matched { id: be_value(received) as u32, first, second }),
        orders_on_admission(
            admission(table_after_admission(table, first, received), second, received),
        ) == seq![Order::Probe { id: be_value(received) as u32, first, second }],
        table_after_admission(table_after_admission(table, first, received), second, received)
            == table,
{
    let id = be_value(received) as u32;
    assert(table.insert(id, first).remove(id) =~= table);
}

/// Connections that present different identifiers do not meet: each of two
/// that arrive under different identifiers, nobody waiting under either,
/// waits under its own.
pub proof fn lemma_different_identifiers_wait<C>(
    table: Map<u32, C>,
    one: C,
    other: C,
    received_one: Seq<u8>,
    received_other: Seq<u8>,
)
    requires
        received_one.len() == 4,
        received_other.len() == 4,
        received_one != received_other,
        !table.contains_key(be_value(received_one) as u32),
        !table.contains_key(be_value(received_other) as u32),
    ensures
        be_value(received_one) != be_value(received_other),
        admission(table, one, received_one) == Admission::<C>::Waiting,
        admission(table_after_admission(table, one, received_one), other, received_other)
            == Admission::<C>::Waiting,
{
    lemma_encode_decode(received_one);
    lemma_encode_decode(received_other);
    lemma_be_value_fits(received_one);
    lemma_be_value_fits(received_other);
}

} // verus!
