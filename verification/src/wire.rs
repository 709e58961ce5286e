//! Constants of the wire protocol and the framing of the identifier.

use vstd::prelude::*;
use crate::error::ServiceError;

verus! {

/// The reserved byte: it probes a waiting connection, and it announces that a
/// pairing is complete.
pub const SENTINEL: u8 = 255;

/// Number of bytes of an identifier on the wire.
pub const IDENTIFIER_LEN: usize = 4;

/// The port the service listens on unless told otherwise.
pub const DEFAULT_PORT: u16 = 3333;

/// How long a probed connection has to echo the sentinel, in seconds.
pub const PROBE_TIMEOUT_SECS: u64 = 5;

/// The number that four bytes denote, most significant byte first.
pub open spec fn be_value(bytes: Seq<u8>) -> int
    recommends
        bytes.len() == 4,
{
    bytes[0] as int * 0x100_0000 + bytes[1] as int * 0x1_0000 + bytes[2] as int * 0x100
        + bytes[3] as int
}

/// The four bytes that denote `id`, most significant byte first.
pub open spec fn be_bytes(id: u32) -> Seq<u8> {
    seq![
        (id as int / 0x100_0000) as u8,
        (id as int / 0x1_0000 % 0x100) as u8,
        (id as int / 0x100 % 0x100) as u8,
        (id as int % 0x100) as u8,
    ]
}

/// Four bytes always denote a number that fits an identifier.
pub proof fn lemma_be_value_fits(bytes: Seq<u8>)
    requires
        bytes.len() == 4,
    ensures
        0 <= be_value(bytes) <= u32::MAX,
{
}

/// Decoding what was encoded gives the identifier back.
pub proof fn lemma_decode_encode(id: u32)
    ensures
        be_bytes(id).len() == 4,
        be_value(be_bytes(id)) == id,
{
    let v = id as int;
    let high = v / 0x100;
    let mid = high / 0x100;
    let top = mid / 0x100;
    assert(v == high * 0x100 + v % 0x100);
    assert(high == mid * 0x100 + high % 0x100);
    assert(mid == top * 0x100 + mid % 0x100);
    assert(mid == v / 0x1_0000);
    assert(top == v / 0x100_0000);
    assert(0 <= top < 0x100);
}

/// Encoding what was decoded gives the four bytes back.
pub proof fn lemma_encode_decode(bytes: Seq<u8>)
    requires
        bytes.len() == 4,
    ensures
        be_bytes(be_value(bytes) as u32) == bytes,
{
    let b0 = bytes[0] as int;
    let b1 = bytes[1] as int;
    let b2 = bytes[2] as int;
    let b3 = bytes[3] as int;
    let v = be_value(bytes);
    let high = b0 * 0x1_0000 + b1 * 0x100 + b2;
    let mid = b0 * 0x100 + b1;
    assert(v == high * 0x100 + b3);
    assert(v % 0x100 == b3 && v / 0x100 == high);
    assert(high == mid * 0x100 + b2);
    assert(high % 0x100 == b2 && high / 0x100 == mid);
    assert(v / 0x1_0000 == mid);
    assert(mid % 0x100 == b1 && mid / 0x100 == b0);
    assert(v / 0x100_0000 == b0);
    assert(be_bytes(v as u32) =~= bytes);
}

/// Different identifiers never share their four bytes.
pub proof fn lemma_encoding_injective(a: u32, b: u32)
    requires
        be_bytes(a) == be_bytes(b),
    ensures
        a == b,
{
    lemma_decode_encode(a);
    lemma_decode_encode(b);
}

/// Reads an identifier from its four bytes.
pub fn decode_identifier(bytes: &[u8; 4]) -> (id: u32)
    ensures
        id == be_value(bytes@),
{
    let b0: u32 = bytes[0] as u32;
    let b1: u32 = bytes[1] as u32;
    let b2: u32 = bytes[2] as u32;
    let b3: u32 = bytes[3] as u32;
    b0 * 0x100_0000 + b1 * 0x1_0000 + b2 * 0x100 + b3
}

/// Writes an identifier as the four bytes a client sends after connecting.
pub fn encode_identifier(id: u32) -> (bytes: [u8; 4])
    ensures
        bytes@ == be_bytes(id),
{
    let bytes: [u8; 4] = [
        (id / 0x100_0000) as u8,
        (id / 0x1_0000 % 0x100) as u8,
        (id / 0x100 % 0x100) as u8,
        (id % 0x100) as u8,
    ];
    assert(bytes@ =~= be_bytes(id));
    bytes
}

/// The identifier of a newly accepted connection, from the bytes that arrived
/// before the stream ended or failed. Exactly four bytes make an identifier;
/// anything else leaves the handshake incomplete.
pub fn read_identifier(received: &[u8]) -> (r: Result<u32, ServiceError>)
    ensures
        received@.len() == 4 ==> r == Ok::<u32, ServiceError>(be_value(received@) as u32),
        received@.len() != 4 ==> r == Err::<u32, ServiceError>(ServiceError::HandshakeIncomplete),
{
    if received.len() != IDENTIFIER_LEN {
        return Err(ServiceError::HandshakeIncomplete);
    }
    let bytes: [u8; 4] = [received[0], received[1], received[2], received[3]];
    assert(bytes@ =~= received@);
    Ok(decode_identifier(&bytes))
}

} // verus!
