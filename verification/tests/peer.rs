use chess_lobby::peer::{Peer, PeerAction, PeerEvent, PeerPhase};
use chess_lobby::session::Role;

fn joined(role: Role) -> Peer {
    let mut peer = Peer::connect(42);
    peer.advance(PeerEvent::Wrote);
    peer.advance(PeerEvent::Received(0xFF));
    peer.advance(PeerEvent::Wrote);
    peer.advance(PeerEvent::Received(role.byte()));
    peer.advance(PeerEvent::Received(0xFF));
    peer.advance(PeerEvent::Handed);
    peer
}

#[test]
fn peer_introduces_itself() {
    let mut peer = Peer::connect(42);
    assert_eq!(peer.phase(), PeerPhase::Introducing { id: 42 });
    assert_eq!(peer.pending(), PeerAction::Introduce { id: 42 });
    assert_eq!(peer.advance(PeerEvent::Wrote), PeerAction::Receive);
    assert_eq!(peer.phase(), PeerPhase::Waiting);
}

#[test]
fn peer_echoes_the_probe() {
    let mut peer = Peer::connect(1);
    peer.advance(PeerEvent::Wrote);
    assert_eq!(peer.advance(PeerEvent::Received(0xFF)), PeerAction::Send { byte: 0xFF });
    assert_eq!(peer.advance(PeerEvent::Wrote), PeerAction::Receive);
    assert_eq!(peer.phase(), PeerPhase::Waiting);
}

#[test]
fn peer_echoes_every_probe() {
    let mut peer = Peer::connect(1);
    peer.advance(PeerEvent::Wrote);
    for _ in 0..5 {
        assert_eq!(peer.advance(PeerEvent::Received(0xFF)), PeerAction::Send { byte: 0xFF });
        assert_eq!(peer.advance(PeerEvent::Wrote), PeerAction::Receive);
    }
    assert_eq!(peer.phase(), PeerPhase::Waiting);
}

#[test]
fn peer_learns_its_role_then_waits_for_the_start() {
    let mut peer = Peer::connect(1);
    peer.advance(PeerEvent::Wrote);
    peer.advance(PeerEvent::Received(0xFF));
    peer.advance(PeerEvent::Wrote);
    assert_eq!(peer.advance(PeerEvent::Received(0x01)), PeerAction::Receive);
    assert_eq!(peer.phase(), PeerPhase::Assigned(Role::Second));
    assert_eq!(
        peer.advance(PeerEvent::Received(0xFF)),
        PeerAction::Announce { role: Role::Second }
    );
}

#[test]
fn first_role_moves_first() {
    let mut peer = joined(Role::First);
    assert_eq!(peer.pending(), PeerAction::AwaitChoice);
    assert_eq!(peer.advance(PeerEvent::Chosen(0x05)), PeerAction::Send { byte: 0x05 });
    assert_eq!(peer.advance(PeerEvent::Wrote), PeerAction::Receive);
    assert_eq!(peer.advance(PeerEvent::Received(0x09)), PeerAction::Deliver { byte: 0x09 });
    assert_eq!(peer.advance(PeerEvent::Handed), PeerAction::AwaitChoice);
}

#[test]
fn second_role_listens_first() {
    let mut peer = joined(Role::Second);
    assert_eq!(peer.pending(), PeerAction::Receive);
    assert_eq!(peer.phase(), PeerPhase::Listening);
    assert_eq!(peer.advance(PeerEvent::Received(0x05)), PeerAction::Deliver { byte: 0x05 });
    assert_eq!(peer.advance(PeerEvent::Handed), PeerAction::AwaitChoice);
    assert_eq!(peer.advance(PeerEvent::Chosen(0x09)), PeerAction::Send { byte: 0x09 });
    assert_eq!(peer.advance(PeerEvent::Wrote), PeerAction::Receive);
}

#[test]
fn payload_may_be_any_byte() {
    let mut peer = joined(Role::Second);
    assert_eq!(peer.advance(PeerEvent::Received(0xFF)), PeerAction::Deliver { byte: 0xFF });
    peer.advance(PeerEvent::Handed);
    assert_eq!(peer.advance(PeerEvent::Chosen(0x00)), PeerAction::Send { byte: 0x00 });
}

#[test]
fn unknown_role_byte_closes_the_peer() {
    let mut peer = Peer::connect(1);
    peer.advance(PeerEvent::Wrote);
    assert_eq!(peer.advance(PeerEvent::Received(0x02)), PeerAction::Close);
    assert!(peer.is_closed());
}

#[test]
fn missing_start_signal_closes_the_peer() {
    let mut peer = Peer::connect(1);
    peer.advance(PeerEvent::Wrote);
    peer.advance(PeerEvent::Received(0x00));
    assert_eq!(peer.advance(PeerEvent::Received(0x05)), PeerAction::Close);
    assert!(peer.is_closed());
}

#[test]
fn peer_failure_closes_the_peer() {
    let mut introducing = Peer::connect(1);
    assert_eq!(introducing.advance(PeerEvent::Failed), PeerAction::Close);
    let mut listening = joined(Role::Second);
    assert_eq!(listening.advance(PeerEvent::Failed), PeerAction::Close);
    let mut choosing = joined(Role::First);
    assert_eq!(choosing.advance(PeerEvent::Failed), PeerAction::Close);
    assert_eq!(choosing.advance(PeerEvent::Chosen(1)), PeerAction::Close);
    assert!(choosing.is_closed());
}
