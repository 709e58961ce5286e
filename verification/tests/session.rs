use chess_lobby::error::ServiceError;
use chess_lobby::session::{Action, IoEvent, Phase, Role, Session};

fn established() -> Session {
    let mut session = Session::start();
    session.advance(IoEvent::Wrote);
    session.advance(IoEvent::Wrote);
    session.advance(IoEvent::Wrote);
    session.advance(IoEvent::Wrote);
    session
}

#[test]
fn role_bytes() {
    assert_eq!(Role::First.byte(), 0x00);
    assert_eq!(Role::Second.byte(), 0x01);
    assert_eq!(Role::First.other(), Role::Second);
    assert_eq!(Role::Second.other(), Role::First);
    assert_eq!(Role::from_byte(0), Some(Role::First));
    assert_eq!(Role::from_byte(1), Some(Role::Second));
    assert_eq!(Role::from_byte(2), None);
    assert_eq!(Role::from_byte(255), None);
}

#[test]
fn handshake_assigns_roles_then_announces() {
    let mut session = Session::start();
    assert_eq!(session.phase(), Phase::AssigningFirst);
    assert_eq!(session.pending(), Action::Write { to: Role::First, byte: 0x00 });
    assert_eq!(session.advance(IoEvent::Wrote), Action::Write { to: Role::Second, byte: 0x01 });
    assert_eq!(session.advance(IoEvent::Wrote), Action::Write { to: Role::First, byte: 0xFF });
    assert_eq!(session.advance(IoEvent::Wrote), Action::Write { to: Role::Second, byte: 0xFF });
    assert_eq!(session.advance(IoEvent::Wrote), Action::Read { from: Role::First });
    assert_eq!(session.phase(), Phase::Reading(Role::First));
    assert!(!session.is_closed());
    assert_eq!(session.error(), None);
}

#[test]
fn relay_scenario_forty_two() {
    // Both peers gave identifier 42 and echoed the probe; A is first, B second.
    let mut session = Session::start();
    let mut to_a: Vec<u8> = Vec::new();
    let mut to_b: Vec<u8> = Vec::new();
    let mut action = session.pending();
    for _ in 0..4 {
        match action {
            Action::Write { to: Role::First, byte } => to_a.push(byte),
            Action::Write { to: Role::Second, byte } => to_b.push(byte),
            other => panic!("handshake asked for {:?}", other),
        }
        action = session.advance(IoEvent::Wrote);
    }
    assert_eq!(to_a, vec![0x00, 0xFF]);
    assert_eq!(to_b, vec![0x01, 0xFF]);

    // A sends 0x05; B receives 0x05.
    assert_eq!(action, Action::Read { from: Role::First });
    action = session.advance(IoEvent::Received(0x05));
    assert_eq!(action, Action::Write { to: Role::Second, byte: 0x05 });
    action = session.advance(IoEvent::Wrote);

    // B sends 0x09; A receives 0x09.
    assert_eq!(action, Action::Read { from: Role::Second });
    action = session.advance(IoEvent::Received(0x09));
    assert_eq!(action, Action::Write { to: Role::First, byte: 0x09 });
    action = session.advance(IoEvent::Wrote);
    assert_eq!(action, Action::Read { from: Role::First });
}

#[test]
fn relay_alternates_strictly() {
    let mut session = established();
    assert_eq!(session.pending(), Action::Read { from: Role::First });
    assert_eq!(
        session.advance(IoEvent::Received(0x2A)),
        Action::Write { to: Role::Second, byte: 0x2A }
    );
    // The first side is not read again before the second side has answered.
    assert_eq!(session.advance(IoEvent::Wrote), Action::Read { from: Role::Second });
    assert_eq!(
        session.advance(IoEvent::Received(0x17)),
        Action::Write { to: Role::First, byte: 0x17 }
    );
    assert_eq!(session.advance(IoEvent::Wrote), Action::Read { from: Role::First });
}

#[test]
fn every_byte_value_passes_unchanged_both_ways() {
    let mut session = established();
    for value in 0..=255u8 {
        assert_eq!(session.pending(), Action::Read { from: Role::First });
        assert_eq!(
            session.advance(IoEvent::Received(value)),
            Action::Write { to: Role::Second, byte: value }
        );
        assert_eq!(session.advance(IoEvent::Wrote), Action::Read { from: Role::Second });
        let reply: u8 = 255 - value;
        assert_eq!(
            session.advance(IoEvent::Received(reply)),
            Action::Write { to: Role::First, byte: reply }
        );
        session.advance(IoEvent::Wrote);
    }
    assert!(!session.is_closed());
}

#[test]
fn sentinel_is_ordinary_payload_once_relaying() {
    let mut session = established();
    assert_eq!(
        session.advance(IoEvent::Received(0xFF)),
        Action::Write { to: Role::Second, byte: 0xFF }
    );
    assert_eq!(session.advance(IoEvent::Wrote), Action::Read { from: Role::Second });
}

#[test]
fn failed_read_closes_the_session() {
    let mut session = established();
    assert_eq!(session.advance(IoEvent::Failed), Action::Close);
    assert!(session.is_closed());
    assert_eq!(session.phase(), Phase::Closed);
    assert_eq!(session.error(), Some(ServiceError::RelayIOError));
}

#[test]
fn failed_forward_closes_the_session() {
    let mut session = established();
    session.advance(IoEvent::Received(1));
    assert_eq!(session.advance(IoEvent::Failed), Action::Close);
    assert!(session.is_closed());
}

#[test]
fn timeout_closes_the_session() {
    let mut session = established();
    assert_eq!(session.advance(IoEvent::TimedOut), Action::Close);
    assert_eq!(session.error(), Some(ServiceError::RelayIOError));
}

#[test]
fn failed_handshake_write_closes_the_session() {
    for writes_before in 0..4usize {
        let mut session = Session::start();
        for _ in 0..writes_before {
            session.advance(IoEvent::Wrote);
        }
        assert_eq!(session.advance(IoEvent::Failed), Action::Close);
        assert!(session.is_closed());
    }
}

#[test]
fn outcome_that_does_not_fit_closes_the_session() {
    let mut writing = Session::start();
    assert_eq!(writing.advance(IoEvent::Received(0)), Action::Close);
    let mut reading = established();
    assert_eq!(reading.advance(IoEvent::Wrote), Action::Close);
}

#[test]
fn closed_session_stays_closed() {
    let mut session = established();
    session.advance(IoEvent::Failed);
    assert_eq!(session.advance(IoEvent::Wrote), Action::Close);
    assert_eq!(session.advance(IoEvent::Received(7)), Action::Close);
    assert_eq!(session.advance(IoEvent::Failed), Action::Close);
    assert!(session.is_closed());
}

#[test]
fn dead_side_is_noticed_within_a_round() {
    // The first side dies while the session waits for the second side's
    // reply: the reply still arrives, and forwarding it is what fails.
    let mut session = established();
    session.advance(IoEvent::Received(3));
    session.advance(IoEvent::Wrote);
    assert_eq!(session.pending(), Action::Read { from: Role::Second });
    assert_eq!(
        session.advance(IoEvent::Received(4)),
        Action::Write { to: Role::First, byte: 4 }
    );
    assert_eq!(session.advance(IoEvent::Failed), Action::Close);
}
