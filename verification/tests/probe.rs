use chess_lobby::error::ServiceError;
use chess_lobby::probe::{Probe, ProbeAction};
use chess_lobby::session::IoEvent;

#[test]
fn probe_writes_the_sentinel_first() {
    let probe = Probe::start();
    assert_eq!(probe.pending(), ProbeAction::Write { byte: 255 });
    assert_eq!(probe.verdict(), None);
}

#[test]
fn probe_waits_five_seconds_for_the_echo() {
    let mut probe = Probe::start();
    assert_eq!(probe.advance(IoEvent::Wrote), ProbeAction::ReadWithin { secs: 5 });
    assert_eq!(probe.verdict(), None);
}

#[test]
fn echo_of_the_sentinel_passes() {
    let mut probe = Probe::start();
    probe.advance(IoEvent::Wrote);
    assert_eq!(probe.advance(IoEvent::Received(0xFF)), ProbeAction::Keep);
    assert_eq!(probe.verdict(), Some(Ok(())));
}

#[test]
fn silence_is_a_timeout() {
    let mut probe = Probe::start();
    probe.advance(IoEvent::Wrote);
    assert_eq!(
        probe.advance(IoEvent::TimedOut),
        ProbeAction::Discard { error: ServiceError::ProbeTimeout }
    );
    assert_eq!(probe.verdict(), Some(Err(ServiceError::ProbeTimeout)));
}

#[test]
fn failed_read_is_an_io_error() {
    let mut probe = Probe::start();
    probe.advance(IoEvent::Wrote);
    assert_eq!(
        probe.advance(IoEvent::Failed),
        ProbeAction::Discard { error: ServiceError::ProbeIOError }
    );
    assert_eq!(probe.verdict(), Some(Err(ServiceError::ProbeIOError)));
}

#[test]
fn failed_write_is_an_io_error() {
    let mut probe = Probe::start();
    assert_eq!(
        probe.advance(IoEvent::Failed),
        ProbeAction::Discard { error: ServiceError::ProbeIOError }
    );
    assert_eq!(probe.verdict(), Some(Err(ServiceError::ProbeIOError)));
}

#[test]
fn write_that_times_out_is_a_timeout() {
    let mut probe = Probe::start();
    assert_eq!(
        probe.advance(IoEvent::TimedOut),
        ProbeAction::Discard { error: ServiceError::ProbeTimeout }
    );
}

#[test]
fn any_other_byte_is_no_echo() {
    for byte in 0..=254u8 {
        let mut probe = Probe::start();
        probe.advance(IoEvent::Wrote);
        assert_eq!(
            probe.advance(IoEvent::Received(byte)),
            ProbeAction::Discard { error: ServiceError::ProbeIOError }
        );
    }
}

#[test]
fn settled_probe_does_not_change_its_mind() {
    let mut dead = Probe::start();
    dead.advance(IoEvent::Wrote);
    dead.advance(IoEvent::TimedOut);
    assert_eq!(
        dead.advance(IoEvent::Received(0xFF)),
        ProbeAction::Discard { error: ServiceError::ProbeTimeout }
    );
    assert_eq!(dead.verdict(), Some(Err(ServiceError::ProbeTimeout)));

    let mut alive = Probe::start();
    alive.advance(IoEvent::Wrote);
    alive.advance(IoEvent::Received(0xFF));
    assert_eq!(alive.advance(IoEvent::Failed), ProbeAction::Keep);
    assert_eq!(alive.verdict(), Some(Ok(())));
}
