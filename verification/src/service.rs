//! The service as a whole, taken one arrival at a time: a connection is
//! taken in, and if it meets a partner the two are probed and settled before
//! the next connection is looked at.
//!
//! This is the acceptor's own rules run in sequence. What it shows is what
//! they add up to: which sessions begin, and which connections are closed,
//! over any sequence of arrivals.

use vstd::prelude::*;
use crate::acceptor::{
    admission, settlement, table_after_admission, table_after_settlement, Admission, Settlement,
};
use crate::error::ServiceError;
use crate::table::{under, Registration};
use crate::wire::{be_bytes, lemma_decode_encode};

verus! {

/// What the service has come to.
pub struct Course<C> {
    /// The connections that wait, by identifier.
    pub table: Map<u32, C>,
    /// The sessions begun so far, each as (first, second), oldest first.
    pub sessions: Seq<(C, C)>,
    /// The connections closed so far, oldest first.
    pub closed: Seq<C>,
}

/// The session a settlement begins, if it begins one.
pub open spec fn begun_by<C>(settled: Settlement<C>) -> Seq<(C, C)> {
    match settled {
        Settlement::Established { first, second } => seq![(first, second)],
        _ => Seq::empty(),
    }
}

/// The connections a settlement hands back to be closed.
pub open spec fn closed_by<C>(settled: Settlement<C>) -> Seq<C> {
    match settled {
        Settlement::Established { .. } => Seq::empty(),
        Settlement::Requeued { dropped, .. } => seq![dropped],
        Settlement::Dropped { first, second, .. } => seq![first, second],
    }
}

/// The course after one more connection arrives and gives `id` in full.
/// `finding` says what a probe of each connection finds, every time it is
/// probed.
pub open spec fn after_arrival<C>(
    course: Course<C>,
    id: u32,
    conn: C,
    finding: spec_fn(C) -> Result<(), ServiceError>,
) -> Course<C> {
    let table = table_after_admission(course.table, conn, be_bytes(id));
    match admission(course.table, conn, be_bytes(id)) {
        Admission::Matched { id, first, second } => {
            let settled = settlement(table, id, first, second, finding(first), finding(second));
            Course {
                table: table_after_settlement(
                    table,
                    id,
                    first,
                    second,
                    finding(first),
                    finding(second),
                ),
                sessions: course.sessions + begun_by(settled),
                closed: course.closed + closed_by(settled),
            }
        },
        Admission::Waiting => Course { table, ..course },
        Admission::Rejected { conn, .. } => Course { closed: course.closed.push(conn), ..course },
    }
}

/// The course of a service that starts with nobody waiting and sees
/// `arrivals`, an identifier and a connection each, in turn.
pub open spec fn after_arrivals<C>(
    arrivals: Seq<(u32, C)>,
    finding: spec_fn(C) -> Result<(), ServiceError>,
) -> Course<C>
    decreases arrivals.len(),
{
    if arrivals.len() == 0 {
        Course { table: Map::empty(), sessions: Seq::empty(), closed: Seq::empty() }
    } else {
        after_arrival(
            after_arrivals(arrivals.drop_last(), finding),
            arrivals.last().0,
            arrivals.last().1,
            finding,
        )
    }
}

/// In this course a survivor always waits alone: the pair it came from had
/// just emptied the slot of its identifier, so on registering again it
/// meets nobody, and no second round of probes is called for.
pub proof fn lemma_survivor_waits_alone<C>(
    course: Course<C>,
    id: u32,
    conn: C,
    finding: spec_fn(C) -> Result<(), ServiceError>,
)
    requires
        admission(course.table, conn, be_bytes(id)) is Matched,
    ensures
        ({
            let first = course.table[id];
            let table = table_after_admission(course.table, conn, be_bytes(id));
            let settled = settlement(table, id, first, conn, finding(first), finding(conn));
            &&& admission(course.table, conn, be_bytes(id)) == (Admission::Matched {
                id,
                first,
                second: conn,
            })
            &&& settled matches Settlement::Requeued { survivor, .. } ==> survivor
                == Registration::<C>::Waiting
        }),
{
    lemma_decode_encode(id);
}

/// How many of `conns` a probe finds alive.
pub open spec fn alive_among<C>(
    conns: Seq<C>,
    finding: spec_fn(C) -> Result<(), ServiceError>,
) -> nat
    decreases conns.len(),
{
    if conns.len() == 0 {
        0
    } else if finding(conns.last()) is Ok {
        alive_among(conns.drop_last(), finding) + 1
    } else {
        alive_among(conns.drop_last(), finding)
    }
}

/// Where every connection of a course came from.
spec fn accounted<C>(
    arrivals: Seq<(u32, C)>,
    finding: spec_fn(C) -> Result<(), ServiceError>,
) -> bool {
    let course = after_arrivals(arrivals, finding);
    &&& forall|id: u32| #[trigger]
        course.table.contains_key(id) ==> exists|i: int|
            0 <= i < arrivals.len() && #[trigger] arrivals[i] == (id, course.table[id])
    &&& forall|k: int|
        0 <= k < course.sessions.len() ==> {
            &&& finding((#[trigger] course.sessions[k]).0) is Ok
            &&& finding(course.sessions[k].1) is Ok
            &&& exists|i: int, j: int|
                0 <= i < j < arrivals.len() && (#[trigger] arrivals[i]).0 == (
                #[trigger] arrivals[j]).0 && course.sessions[k] == (arrivals[i].1, arrivals[j].1)
        }
    &&& forall|k: int| 0 <= k < course.closed.len() ==> finding(#[trigger] course.closed[k]) is Err
}

proof fn lemma_accounted<C>(
    arrivals: Seq<(u32, C)>,
    finding: spec_fn(C) -> Result<(), ServiceError>,
)
    ensures
        accounted(arrivals, finding),
    decreases arrivals.len(),
{
    if arrivals.len() > 0 {
        let before = arrivals.drop_last();
        let j = arrivals.len() - 1;
        let (id, conn) = arrivals[j];
        lemma_accounted(before, finding);
        lemma_decode_encode(id);
        let was = after_arrivals(before, finding);
        let course = after_arrivals(arrivals, finding);
        assert forall|x: u32| #[trigger] course.table.contains_key(x) implies exists|i: int|
            0 <= i < arrivals.len() && #[trigger] arrivals[i] == (x, course.table[x]) by {
            if was.table.contains_key(x) && was.table[x] == course.table[x] {
                let i = choose|i: int|
                    0 <= i < before.len() && #[trigger] before[i] == (x, was.table[x]);
                assert(arrivals[i] == before[i]);
            } else {
                assert(x == id);
                if course.table[x] == conn {
                    assert(arrivals[j] == (x, course.table[x]));
                } else {
                    assert(was.table.contains_key(id) && course.table[x] == was.table[id]);
                }
            }
        }
        assert forall|k: int| 0 <= k < course.sessions.len() implies {
            &&& finding((#[trigger] course.sessions[k]).0) is Ok
            &&& finding(course.sessions[k].1) is Ok
            &&& exists|a: int, b: int|
                0 <= a < b < arrivals.len() && (#[trigger] arrivals[a]).0 == (
                #[trigger] arrivals[b]).0 && course.sessions[k] == (arrivals[a].1, arrivals[b].1)
        } by {
            if k < was.sessions.len() {
                assert(course.sessions[k] == was.sessions[k]);
                let (a, b) = choose|a: int, b: int|
                    0 <= a < b < before.len() && (#[trigger] before[a]).0 == (
                    #[trigger] before[b]).0 && was.sessions[k] == (before[a].1, before[b].1);
                assert(arrivals[a] == before[a]);
                assert(arrivals[b] == before[b]);
            } else {
                let first = was.table[id];
                let i = choose|i: int| 0 <= i < before.len() && #[trigger] before[i] == (id, first);
                assert(arrivals[i] == before[i]);
                assert(course.sessions[k] == (arrivals[i].1, arrivals[j].1));
            }
        }
        assert forall|k: int| 0 <= k < course.closed.len() implies finding(
            #[trigger] course.closed[k],
        ) is Err by {
            if k < was.closed.len() {
                assert(course.closed[k] == was.closed[k]);
            }
        }
    }
}

/// Sessions join live peers of one identifier. Every session that begins,
/// over any arrivals, is between two of them that gave the same identifier,
/// the first of which arrived earlier, and both of which passed their
/// probe.
pub proof fn lemma_sessions_join_live_peers<C>(
    arrivals: Seq<(u32, C)>,
    finding: spec_fn(C) -> Result<(), ServiceError>,
    k: int,
)
    requires
        0 <= k < after_arrivals(arrivals, finding).sessions.len(),
    ensures
        finding(after_arrivals(arrivals, finding).sessions[k].0) is Ok,
        finding(after_arrivals(arrivals, finding).sessions[k].1) is Ok,
        exists|i: int, j: int|
            0 <= i < j < arrivals.len() && (#[trigger] arrivals[i]).0 == (#[trigger] arrivals[j]).0
                && after_arrivals(arrivals, finding).sessions[k] == (arrivals[i].1, arrivals[j].1),
{
    lemma_accounted(arrivals, finding);
}

/// A connection that fails its probe is never placed in a session, and only
/// such connections are closed: one that would pass its probe is in a
/// session or waits.
pub proof fn lemma_only_the_dead_are_closed<C>(
    arrivals: Seq<(u32, C)>,
    finding: spec_fn(C) -> Result<(), ServiceError>,
    conn: C,
)
    ensures
        finding(conn) is Err ==> forall|k: int|
            0 <= k < after_arrivals(arrivals, finding).sessions.len() ==> conn != (
            #[trigger] after_arrivals(arrivals, finding).sessions[k]).0 && conn
                != after_arrivals(arrivals, finding).sessions[k].1,
        finding(conn) is Ok ==> !after_arrivals(arrivals, finding).closed.contains(conn),
{
    lemma_accounted(arrivals, finding);
}

/// Live connections pair off two by two. When `conns` arrive under one
/// identifier, every two of them that pass their probe end up in a session,
/// whatever dead connections arrive among them: the sessions are half as
/// many as the live arrivals, rounded down, and a live connection is left
/// waiting exactly if their number is odd. If all are alive, that is half
/// of all arrivals.
pub proof fn lemma_live_connections_pair_off<C>(
    id: u32,
    conns: Seq<C>,
    finding: spec_fn(C) -> Result<(), ServiceError>,
)
    ensures
        ({
            let course = after_arrivals(under(id, conns), finding);
            let alive = alive_among(conns, finding);
            let live_waits = course.table.contains_key(id) && finding(course.table[id]) is Ok;
            &&& course.sessions.len() == alive / 2
            &&& live_waits <==> alive % 2 == 1
            &&& alive == conns.len() ==> course.sessions.len() == conns.len() / 2
            &&& alive == conns.len() ==> course.closed.len() == 0
            &&& forall|x: u32| x != id ==> !course.table.contains_key(x)
        }),
    decreases conns.len(),
{
    let arrivals = under(id, conns);
    if conns.len() > 0 {
        let before = conns.drop_last();
        assert(arrivals.drop_last() =~= under(id, before));
        assert(arrivals.last() == (id, conns.last()));
        lemma_live_connections_pair_off(id, before, finding);
        lemma_decode_encode(id);
        lemma_alive_at_most_all(before, finding);
        let was = after_arrivals(under(id, before), finding);
        let course = after_arrivals(arrivals, finding);
        assert(course == after_arrival(was, id, conns.last(), finding));
        if alive_among(conns, finding) == conns.len() {
            assert(alive_among(before, finding) == before.len());
            if was.table.contains_key(id) {
                lemma_accounted(under(id, before), finding);
                let i = choose|i: int|
                    0 <= i < before.len() && #[trigger] under(id, before)[i] == (
                        id,
                        was.table[id],
                    );
                lemma_all_alive(before, finding, i);
            }
        }
    }
}

/// Where as many are alive as there are, each one is.
proof fn lemma_all_alive<C>(
    conns: Seq<C>,
    finding: spec_fn(C) -> Result<(), ServiceError>,
    i: int,
)
    requires
        alive_among(conns, finding) == conns.len(),
        0 <= i < conns.len(),
    ensures
        finding(conns[i]) is Ok,
    decreases conns.len(),
{
    lemma_alive_at_most_all(conns.drop_last(), finding);
    if i < conns.len() - 1 {
        lemma_all_alive(conns.drop_last(), finding, i);
    }
}

/// No more connections are alive than there are.
proof fn lemma_alive_at_most_all<C>(
    conns: Seq<C>,
    finding: spec_fn(C) -> Result<(), ServiceError>,
)
    ensures
        alive_among(conns, finding) <= conns.len(),
    decreases conns.len(),
{
    if conns.len() > 0 {
        lemma_alive_at_most_all(conns.drop_last(), finding);
    }
}

} // verus!
