//! What a session does over a whole run: the bytes it reads from each side
//! and the bytes it delivers to each side, for every sequence of outcomes
//! that the two connections can produce.

use vstd::prelude::*;
use crate::session::{Action, IoEvent, Phase, Role};
use crate::wire::SENTINEL;

verus! {

/// The phase a new session reaches after its operations ended in `events`,
/// one after the other.
pub open spec fn phase_after(events: Seq<IoEvent>) -> Phase
    decreases events.len(),
{
    if events.len() == 0 {
        Phase::AssigningFirst
    } else {
        phase_after(events.drop_last()).next(events.last())
    }
}

/// The operation the session asks for after the first `i` of `events`.
pub open spec fn asked(events: Seq<IoEvent>, i: int) -> Action
    recommends
        0 <= i <= events.len(),
{
    phase_after(events.take(i)).pending()
}

/// The bytes delivered to `role` during the run, in order: every byte whose
/// write to that side went through.
pub open spec fn told(events: Seq<IoEvent>, role: Role) -> Seq<u8>
    decreases events.len(),
{
    if events.len() == 0 {
        Seq::empty()
    } else {
        let before = events.drop_last();
        match (phase_after(before).pending(), events.last()) {
            (Action::Write { to, byte }, IoEvent::Wrote) => if to == role {
                told(before, role).push(byte)
            } else {
                told(before, role)
            },
            _ => told(before, role),
        }
    }
}

/// The bytes read from `role` during the run, in order.
pub open spec fn heard(events: Seq<IoEvent>, role: Role) -> Seq<u8>
    decreases events.len(),
{
    if events.len() == 0 {
        Seq::empty()
    } else {
        let before = events.drop_last();
        match (phase_after(before).pending(), events.last()) {
            (Action::Read { from }, IoEvent::Received(byte)) => if from == role {
                heard(before, role).push(byte)
            } else {
                heard(before, role)
            },
            _ => heard(before, role),
        }
    }
}

/// Everything `role` is to be told once all that its partner sent has been
/// relayed: its role byte, the sentinel, then the partner's bytes.
pub open spec fn owed(events: Seq<IoEvent>, role: Role) -> Seq<u8> {
    seq![role.spec_byte(), SENTINEL] + heard(events, role.spec_other())
}

/// What holds of a run whatever phase it is in.
spec fn orderly(events: Seq<IoEvent>) -> bool {
    let heard_first = heard(events, Role::First).len();
    let heard_second = heard(events, Role::Second).len();
    &&& told(events, Role::First).is_prefix_of(owed(events, Role::First))
    &&& told(events, Role::Second).is_prefix_of(owed(events, Role::Second))
    &&& heard_second <= heard_first <= heard_second + 1
    &&& heard_first >= 1 ==> told(events, Role::First).len() >= heard_first + 1
    &&& heard_first >= 1 ==> told(events, Role::Second).len() >= 2
    &&& heard_second >= 1 ==> told(events, Role::Second).len() >= heard_second + 2
}

/// What holds of a run in the phase it has reached.
spec fn ledger(events: Seq<IoEvent>) -> bool {
    let told_first = told(events, Role::First);
    let told_second = told(events, Role::Second);
    let heard_first = heard(events, Role::First);
    let heard_second = heard(events, Role::Second);
    match phase_after(events) {
        Phase::AssigningFirst => {
            &&& told_first == Seq::<u8>::empty()
            &&& told_second == Seq::<u8>::empty()
            &&& heard_first.len() == 0
            &&& heard_second.len() == 0
        },
        Phase::AssigningSecond => {
            &&& told_first == seq![0u8]
            &&& told_second == Seq::<u8>::empty()
            &&& heard_first.len() == 0
            &&& heard_second.len() == 0
        },
        Phase::AnnouncingFirst => {
            &&& told_first == seq![0u8]
            &&& told_second == seq![1u8]
            &&& heard_first.len() == 0
            &&& heard_second.len() == 0
        },
        Phase::AnnouncingSecond => {
            &&& told_first == seq![0u8, SENTINEL]
            &&& told_second == seq![1u8]
            &&& heard_first.len() == 0
            &&& heard_second.len() == 0
        },
        Phase::Reading(Role::First) => {
            &&& told_first == owed(events, Role::First)
            &&& told_second == owed(events, Role::Second)
            &&& heard_first.len() == heard_second.len()
        },
        Phase::Forwarding { to: Role::Second, byte } => {
            &&& told_first == owed(events, Role::First)
            &&& told_second.push(byte) == owed(events, Role::Second)
            &&& heard_first.len() == heard_second.len() + 1
        },
        Phase::Reading(Role::Second) => {
            &&& told_first == owed(events, Role::First)
            &&& told_second == owed(events, Role::Second)
            &&& heard_first.len() == heard_second.len() + 1
        },
        Phase::Forwarding { to: Role::First, byte } => {
            &&& told_first.push(byte) == owed(events, Role::First)
            &&& told_second == owed(events, Role::Second)
            &&& heard_first.len() == heard_second.len()
        },
        Phase::Closed => orderly(events),
    }
}

proof fn lemma_ledger(events: Seq<IoEvent>)
    ensures
        ledger(events),
        orderly(events),
    decreases events.len(),
{
    let first = Role::First;
    let second = Role::Second;
    if events.len() == 0 {
        assert(told(events, first) =~= Seq::<u8>::empty());
        assert(told(events, second) =~= Seq::<u8>::empty());
    } else {
        let before = events.drop_last();
        lemma_ledger(before);
        let event = events.last();
        let was = phase_after(before);
        assert(heard(before, first).len() == 0 ==> owed(before, second) =~= seq![1u8, SENTINEL]);
        assert(heard(before, second).len() == 0 ==> owed(before, first) =~= seq![0u8, SENTINEL]);
        match (was, event) {
            (Phase::AssigningFirst, IoEvent::Wrote) => {
                assert(told(events, first) =~= seq![0u8]);
            },
            (Phase::AssigningSecond, IoEvent::Wrote) => {
                assert(told(events, second) =~= seq![1u8]);
            },
            (Phase::AnnouncingFirst, IoEvent::Wrote) => {
                assert(told(events, first) =~= seq![0u8, SENTINEL]);
            },
            (Phase::AnnouncingSecond, IoEvent::Wrote) => {
                assert(told(events, second) =~= seq![1u8, SENTINEL]);
                assert(owed(events, first) =~= seq![0u8, SENTINEL]);
                assert(owed(events, second) =~= seq![1u8, SENTINEL]);
            },
            (Phase::Reading(from), IoEvent::Received(byte)) => {
                let to = from.spec_other();
                assert(owed(events, to) =~= owed(before, to).push(byte));
                assert(owed(events, from) =~= owed(before, from));
            },
            (Phase::Forwarding { to, byte }, IoEvent::Wrote) => {
                assert(owed(events, first) =~= owed(before, first));
                assert(owed(events, second) =~= owed(before, second));
            },
            _ => {
                assert(phase_after(events) == Phase::Closed);
                assert(told(events, first) == told(before, first));
                assert(told(events, second) == told(before, second));
                assert(heard(events, first) == heard(before, first));
                assert(heard(events, second) == heard(before, second));
            },
        }
    }
}

/// The first `i + 1` outcomes lead to the phase that follows, on the
/// outcome at `i`, the phase the first `i` lead to.
pub proof fn lemma_phase_step(events: Seq<IoEvent>, i: int)
    requires
        0 <= i < events.len(),
    ensures
        phase_after(events.take(i + 1)) == phase_after(events.take(i)).next(events[i]),
{
    assert(events.take(i + 1).drop_last() =~= events.take(i));
}

/// A closed session stays closed, whatever is reported to it.
pub proof fn lemma_closed_is_final(events: Seq<IoEvent>, i: int)
    requires
        0 <= i <= events.len(),
        phase_after(events.take(i)) is Closed,
    ensures
        phase_after(events) is Closed,
    decreases events.len() - i,
{
    if i < events.len() {
        lemma_phase_step(events, i);
        lemma_closed_is_final(events, i + 1);
    } else {
        assert(events.take(i) =~= events);
    }
}

/// Fidelity and order. Whatever the two connections do, each side is told
/// its role byte, then the sentinel, then the bytes read from its partner,
/// unchanged and in the order they were read, and nothing else: what a side
/// has been told is always the beginning of that sequence.
pub proof fn lemma_told_what_partner_sent(events: Seq<IoEvent>, role: Role)
    ensures
        told(events, role).is_prefix_of(
            seq![role.spec_byte(), SENTINEL] + heard(events, role.spec_other()),
        ),
{
    lemma_ledger(events);
}

/// The handshake comes first. When a session is relaying, each side has been
/// told its own role byte and then the sentinel, and the two role bytes
/// differ.
pub proof fn lemma_handshake_precedes_payload(events: Seq<IoEvent>)
    requires
        phase_after(events).relaying(),
    ensures
        told(events, Role::First).len() >= 2,
        told(events, Role::Second).len() >= 2,
        told(events, Role::First)[0] == 0,
        told(events, Role::Second)[0] == 1,
        told(events, Role::First)[1] == SENTINEL,
        told(events, Role::Second)[1] == SENTINEL,
{
    lemma_ledger(events);
}

/// No payload byte is read from either side before both sides have been told
/// their role byte and the sentinel.
pub proof fn lemma_nothing_heard_before_handshake(events: Seq<IoEvent>, role: Role)
    requires
        heard(events, role).len() >= 1,
    ensures
        told(events, Role::First).len() >= 2,
        told(events, Role::Second).len() >= 2,
        told(events, Role::First).take(2) == seq![0u8, SENTINEL],
        told(events, Role::Second).take(2) == seq![1u8, SENTINEL],
{
    lemma_ledger(events);
    assert(told(events, Role::First).take(2) =~= seq![0u8, SENTINEL]);
    assert(told(events, Role::Second).take(2) =~= seq![1u8, SENTINEL]);
}

/// A session that waits for a payload byte owes nothing: every byte read so
/// far has reached the other side.
pub proof fn lemma_reading_owes_nothing(events: Seq<IoEvent>)
    requires
        phase_after(events) is Reading,
    ensures
        told(events, Role::First) == owed(events, Role::First),
        told(events, Role::Second) == owed(events, Role::Second),
{
    lemma_ledger(events);
}

/// Strict alternation. The two sides are read in turn, starting with the
/// first: the first side is never more than one byte ahead, and the second
/// never ahead at all. The first side's byte number `n` is read only after
/// its partner's reply number `n - 1` has been delivered to it, and the
/// second side's byte number `n` only after the first side's byte number `n`
/// has been delivered to it.
pub proof fn lemma_strict_alternation(events: Seq<IoEvent>)
    ensures
        heard(events, Role::Second).len() <= heard(events, Role::First).len(),
        heard(events, Role::First).len() <= heard(events, Role::Second).len() + 1,
        heard(events, Role::First).len() >= 1 ==> told(events, Role::First).len() >= 2 + (heard(
            events,
            Role::First,
        ).len() - 1),
        heard(events, Role::Second).len() >= 1 ==> told(events, Role::Second).len() >= 2 + heard(
            events,
            Role::Second,
        ).len(),
        phase_after(events) == Phase::Reading(Role::First) ==> heard(events, Role::First).len()
            == heard(events, Role::Second).len(),
        phase_after(events) == Phase::Reading(Role::Second) ==> heard(events, Role::First).len()
            == heard(events, Role::Second).len() + 1,
{
    lemma_ledger(events);
}

/// A byte that arrives is forwarded at once, unchanged, to the other side,
/// and once it is written the turn passes to the side that received it.
pub proof fn lemma_round_trip(events: Seq<IoEvent>, i: int, from: Role, byte: u8)
    requires
        0 <= i < events.len(),
        asked(events, i) == (Action::Read { from }),
        events[i] == IoEvent::Received(byte),
    ensures
        asked(events, i + 1) == (Action::Write { to: from.spec_other(), byte }),
        i + 1 < events.len() && events[i + 1] == IoEvent::Wrote ==> asked(events, i + 2) == (
        Action::Read { from: from.spec_other() }),
{
    lemma_phase_step(events, i);
    if i + 1 < events.len() {
        lemma_phase_step(events, i + 1);
    }
}

/// Any operation that does not go through ends the session: the next thing
/// asked for is to close both connections, and so is everything after it.
pub proof fn lemma_failure_closes(events: Seq<IoEvent>, i: int)
    requires
        0 <= i < events.len(),
        !asked(events, i).done_by(events[i]),
    ensures
        forall|j: int| i < j <= events.len() ==> asked(events, j) == Action::Close,
{
    lemma_phase_step(events, i);
    assert forall|j: int| i < j <= events.len() implies asked(events, j) == Action::Close by {
        let run = events.take(j);
        assert(run.take(i + 1) =~= events.take(i + 1));
        lemma_closed_is_final(run, i + 1);
    }
}

/// A dead connection ends the session within one round. If from some point
/// on no operation on one side goes through, then three operations later at
/// the latest the session is closed: at most two operations on the healthy
/// side come before one on the dead side.
pub proof fn lemma_dead_side_ends_session(events: Seq<IoEvent>, dead: Role, since: int)
    requires
        0 <= since,
        since + 3 <= events.len(),
        forall|j: int|
            since <= j < events.len() && asked(events, j).touches() == Some(dead) ==> !asked(
                events,
                j,
            ).done_by(events[j]),
    ensures
        phase_after(events) is Closed,
{
    lemma_phase_step(events, since);
    lemma_phase_step(events, since + 1);
    lemma_phase_step(events, since + 2);
    let p0 = phase_after(events.take(since));
    let p1 = phase_after(events.take(since + 1));
    let p2 = phase_after(events.take(since + 2));
    assert(asked(events, since) == p0.pending());
    assert(asked(events, since + 1) == p1.pending());
    assert(asked(events, since + 2) == p2.pending());
    assert(phase_after(events.take(since + 3)) is Closed);
    lemma_closed_is_final(events, since + 3);
}

} // verus!
