//! The identifier reader: collects the four bytes of an identifier from a
//! stream that may deliver them in pieces.

use vstd::prelude::*;
use crate::error::ServiceError;
use crate::wire::{be_value, read_identifier, IDENTIFIER_LEN};

verus! {

/// The bytes of an identifier that have arrived so far.
pub struct IdentifierReader {
    received: Vec<u8>,
}

impl View for IdentifierReader {
    type V = Seq<u8>;

    closed spec fn view(&self) -> Seq<u8> {
        self.received@
    }
}

/// The bytes a reader holds after one more piece arrived: it takes what it
/// still lacks and leaves the rest of the piece alone.
pub open spec fn fed(held: Seq<u8>, piece: Seq<u8>) -> Seq<u8> {
    held + piece.take(taken(held, piece))
}

/// How many bytes of a piece a reader takes.
pub open spec fn taken(held: Seq<u8>, piece: Seq<u8>) -> int {
    if held.len() >= 4 {
        0
    } else if piece.len() <= 4 - held.len() {
        piece.len() as int
    } else {
        4 - held.len()
    }
}

impl IdentifierReader {
    #[verifier::type_invariant]
    spec fn bounded(self) -> bool {
        self.received@.len() <= 4
    }

    /// A reader that has seen nothing yet.
    pub fn new() -> (r: Self)
        ensures
            r@ == Seq::<u8>::empty(),
    {
        IdentifierReader { received: Vec::new() }
    }

    /// How many bytes are still missing. The next read asks for no more.
    pub fn wanted(&self) -> (n: usize)
        ensures
            self@.len() <= 4,
            n == 4 - self@.len(),
    {
        proof {
            use_type_invariant(self);
        }
        IDENTIFIER_LEN - self.received.len()
    }

    /// Takes in the bytes of one read, as many of them as are still missing,
    /// and says how many it took.
    pub fn feed(&mut self, piece: &[u8]) -> (used: usize)
        ensures
            used == taken(old(self)@, piece@),
            final(self)@ == fed(old(self)@, piece@),
    {
        proof {
            use_type_invariant(&*self);
        }
        let ghost before = self.received@;
        let mut held: Vec<u8> = Vec::new();
        std::mem::swap(&mut held, &mut self.received);
        let missing: usize = IDENTIFIER_LEN - held.len();
        let used: usize = if piece.len() <= missing {
            piece.len()
        } else {
            missing
        };
        let mut i: usize = 0;
        while i < used
            invariant
                i <= used,
                used <= piece@.len(),
                before.len() + used <= 4,
                held@ == before + piece@.take(i as int),
            decreases used - i,
        {
            held.push(piece[i]);
            i += 1;
            assert(piece@.take(i as int) =~= piece@.take(i - 1).push(piece@[i - 1]));
            assert(held@ =~= before + piece@.take(i as int));
        }
        self.received = held;
        used
    }

    /// The identifier, if all four bytes have arrived. If the stream ended
    /// or failed before that, the handshake is incomplete.
    pub fn identifier(&self) -> (r: Result<u32, ServiceError>)
        ensures
            self@.len() == 4 ==> r == Ok::<u32, ServiceError>(be_value(self@) as u32),
            self@.len() != 4 ==> r == Err::<u32, ServiceError>(ServiceError::HandshakeIncomplete),
    {
        read_identifier(self.received.as_slice())
    }

    /// The bytes that have arrived, in order.
    pub fn received(&self) -> (bytes: &[u8])
        ensures
            bytes@ == self@,
    {
        self.received.as_slice()
    }
}

/// The bytes a new reader holds after `pieces` arrived, one read after the
/// other.
pub open spec fn collected(pieces: Seq<Seq<u8>>) -> Seq<u8>
    decreases pieces.len(),
{
    if pieces.len() == 0 {
        Seq::empty()
    } else {
        fed(collected(pieces.drop_last()), pieces.last())
    }
}

/// All the bytes of `pieces`, end to end.
pub open spec fn joined(pieces: Seq<Seq<u8>>) -> Seq<u8>
    decreases pieces.len(),
{
    if pieces.len() == 0 {
        Seq::empty()
    } else {
        joined(pieces.drop_last()) + pieces.last()
    }
}

/// How the stream cuts its bytes into reads does not matter. A reader holds
/// the first four bytes of all that arrived, or all of it while that is
/// less; so the identifier it gives is the same however the four bytes were
/// split.
pub proof fn lemma_split_does_not_matter(pieces: Seq<Seq<u8>>)
    ensures
        collected(pieces).len() <= 4,
        joined(pieces).len() <= 4 ==> collected(pieces) == joined(pieces),
        joined(pieces).len() >= 4 ==> collected(pieces) == joined(pieces).take(4),
    decreases pieces.len(),
{
    if pieces.len() > 0 {
        let before = pieces.drop_last();
        let piece = pieces.last();
        lemma_split_does_not_matter(before);
        let held = collected(before);
        let all = joined(pieces);
        if joined(before).len() >= 4 {
            assert(piece.take(0) =~= Seq::<u8>::empty());
            assert(all.take(4) =~= joined(before).take(4));
            assert(collected(pieces) =~= held);
        } else if all.len() <= 4 {
            assert(piece.take(piece.len() as int) =~= piece);
        } else {
            assert(collected(pieces) =~= all.take(4));
        }
    }
}

} // verus!
