use chess_lobby::error::ServiceError;
use chess_lobby::reader::IdentifierReader;

#[test]
fn new_reader_wants_four_bytes() {
    let reader = IdentifierReader::new();
    assert_eq!(reader.wanted(), 4);
    assert_eq!(reader.received(), &[] as &[u8]);
    assert_eq!(reader.identifier(), Err(ServiceError::HandshakeIncomplete));
}

#[test]
fn four_bytes_at_once() {
    let mut reader = IdentifierReader::new();
    assert_eq!(reader.feed(&[0, 0, 0, 42]), 4);
    assert_eq!(reader.wanted(), 0);
    assert_eq!(reader.received(), &[0, 0, 0, 42]);
    assert_eq!(reader.identifier(), Ok(42));
}

#[test]
fn one_byte_at_a_time() {
    let mut reader = IdentifierReader::new();
    assert_eq!(reader.feed(&[0x12]), 1);
    assert_eq!(reader.wanted(), 3);
    assert_eq!(reader.identifier(), Err(ServiceError::HandshakeIncomplete));
    assert_eq!(reader.feed(&[0x34]), 1);
    assert_eq!(reader.wanted(), 2);
    assert_eq!(reader.feed(&[0x56]), 1);
    assert_eq!(reader.wanted(), 1);
    assert_eq!(reader.identifier(), Err(ServiceError::HandshakeIncomplete));
    assert_eq!(reader.feed(&[0x78]), 1);
    assert_eq!(reader.wanted(), 0);
    assert_eq!(reader.identifier(), Ok(0x1234_5678));
}

#[test]
fn every_split_gives_the_same_identifier() {
    let bytes: [u8; 4] = [0xDE, 0xAD, 0xBE, 0xEF];
    for cut_one in 0..=4usize {
        for cut_two in cut_one..=4usize {
            let mut reader = IdentifierReader::new();
            reader.feed(&bytes[..cut_one]);
            reader.feed(&bytes[cut_one..cut_two]);
            reader.feed(&bytes[cut_two..]);
            assert_eq!(reader.identifier(), Ok(0xDEAD_BEEF));
        }
    }
}

#[test]
fn reader_takes_no_more_than_it_lacks() {
    let mut reader = IdentifierReader::new();
    assert_eq!(reader.feed(&[1, 2]), 2);
    // The echo of a probe may already be in flight behind the identifier.
    assert_eq!(reader.feed(&[3, 4, 0xFF, 0xFF]), 2);
    assert_eq!(reader.received(), &[1, 2, 3, 4]);
    assert_eq!(reader.identifier(), Ok(0x0102_0304));
    assert_eq!(reader.feed(&[9]), 0);
    assert_eq!(reader.received(), &[1, 2, 3, 4]);
}

#[test]
fn empty_piece_changes_nothing() {
    let mut reader = IdentifierReader::new();
    reader.feed(&[7]);
    assert_eq!(reader.feed(&[]), 0);
    assert_eq!(reader.wanted(), 3);
    assert_eq!(reader.received(), &[7]);
}

#[test]
fn stream_that_ends_early_leaves_handshake_incomplete() {
    let mut reader = IdentifierReader::new();
    reader.feed(&[0, 0, 42]);
    assert_eq!(reader.wanted(), 1);
    assert_eq!(reader.identifier(), Err(ServiceError::HandshakeIncomplete));
}
