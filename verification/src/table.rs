//! The pairing table: for each identifier, the connection that waits under
//! it for a partner.
//!
//! At most one connection waits under an identifier. The second one to
//! register takes the first out of the table, and the two leave together.

use std::collections::HashMap;
use vstd::prelude::*;

verus! {

broadcast use vstd::std_specs::hash::group_hash_axioms;

/// What a registration led to.
#[derive(Debug, PartialEq, Eq)]
pub enum Registration<C> {
    /// No partner yet: the connection now waits in the table.
    Waiting,
    /// A partner was waiting. Both have left the table: `first` registered
    /// first, `second` is the connection just registered.
    Paired { first: C, second: C },
}

/// The table after `conn` registers under `id`.
pub open spec fn table_after<C>(table: Map<u32, C>, id: u32, conn: C) -> Map<u32, C> {
    if table.contains_key(id) {
        table.remove(id)
    } else {
        table.insert(id, conn)
    }
}

/// What registering `conn` under `id` leads to.
pub open spec fn registration<C>(table: Map<u32, C>, id: u32, conn: C) -> Registration<C> {
    if table.contains_key(id) {
        Registration::Paired { first: table[id], second: conn }
    } else {
        Registration::Waiting
    }
}

/// The waiting connections, by identifier.
pub struct PairingTable<C> {
    waiting: HashMap<u32, C>,
}

impl<C> View for PairingTable<C> {
    type V = Map<u32, C>;

    closed spec fn view(&self) -> Map<u32, C> {
        self.waiting@
    }
}

impl<C> PairingTable<C> {
    /// The connections that wait under `id`, oldest first: none or one.
    pub open spec fn waiting_under(&self, id: u32) -> Seq<C> {
        if self@.contains_key(id) {
            seq![self@[id]]
        } else {
            Seq::empty()
        }
    }

    /// An empty table.
    pub fn new() -> (t: Self)
        ensures
            t@ == Map::<u32, C>::empty(),
    {
        PairingTable { waiting: HashMap::new() }
    }

    /// Registers `conn` under `id`. If nobody waits under `id`, `conn` does
    /// from now on. If somebody does, that connection leaves the table and
    /// is handed back together with `conn`; the table then holds neither.
    /// Entries under other identifiers are not touched.
    pub fn register(&mut self, id: u32, conn: C) -> (r: Registration<C>)
        ensures
            r == registration(old(self)@, id, conn),
            final(self)@ == table_after(old(self)@, id, conn),
    {
        match self.waiting.remove(&id) {
            Some(first) => Registration::Paired { first, second: conn },
            None => {
                self.waiting.insert(id, conn);
                Registration::Waiting
            },
        }
    }

    /// Whether a connection waits under `id`.
    pub fn is_waiting(&self, id: u32) -> (w: bool)
        ensures
            w == self@.contains_key(id),
    {
        self.waiting.contains_key(&id)
    }

    /// How many connections wait, over all identifiers.
    pub fn waiting_count(&self) -> (n: usize)
        ensures
            n == self@.len(),
    {
        self.waiting.len()
    }
}

/// The table after each of `arrivals`, an identifier and a connection, has
/// registered in turn.
pub open spec fn table_after_all<C>(table: Map<u32, C>, arrivals: Seq<(u32, C)>) -> Map<u32, C>
    decreases arrivals.len(),
{
    if arrivals.len() == 0 {
        table
    } else {
        table_after(
            table_after_all(table, arrivals.drop_last()),
            arrivals.last().0,
            arrivals.last().1,
        )
    }
}

/// The pairs that form while `arrivals` register in turn, in the order in
/// which they form, each as (first, second).
pub open spec fn pairs_formed<C>(table: Map<u32, C>, arrivals: Seq<(u32, C)>) -> Seq<(C, C)>
    decreases arrivals.len(),
{
    if arrivals.len() == 0 {
        Seq::empty()
    } else {
        let before = arrivals.drop_last();
        let (id, conn) = arrivals.last();
        match registration(table_after_all(table, before), id, conn) {
            Registration::Paired { first, second } => pairs_formed(table, before).push(
                (first, second),
            ),
            Registration::Waiting => pairs_formed(table, before),
        }
    }
}

/// Every connection that waits in a table filled from empty registered
/// under the identifier it waits under.
proof fn lemma_waiting_came_under_its_identifier<C>(arrivals: Seq<(u32, C)>, id: u32)
    requires
        table_after_all(Map::<u32, C>::empty(), arrivals).contains_key(id),
    ensures
        exists|i: int|
            0 <= i < arrivals.len() && #[trigger] arrivals[i] == (
                id,
                table_after_all(Map::<u32, C>::empty(), arrivals)[id],
            ),
    decreases arrivals.len(),
{
    if arrivals.len() > 0 {
        let before = arrivals.drop_last();
        let last = arrivals.len() - 1;
        let table = table_after_all(Map::<u32, C>::empty(), before);
        if arrivals[last].0 == id {
            assert(arrivals[last] == (id, table_after_all(Map::<u32, C>::empty(), arrivals)[id]));
        } else {
            lemma_waiting_came_under_its_identifier(before, id);
            let i = choose|i: int| 0 <= i < before.len() && #[trigger] before[i] == (id, table[id]);
            assert(arrivals[i] == before[i]);
        }
    }
}

/// Only connections that gave the same identifier are paired. Each pair that
/// forms, from an empty table on, is made of two of the arrivals, the first
/// of which came earlier, and both registered under one identifier.
pub proof fn lemma_pairs_share_identifier<C>(arrivals: Seq<(u32, C)>, k: int)
    requires
        0 <= k < pairs_formed(Map::<u32, C>::empty(), arrivals).len(),
    ensures
        exists|i: int, j: int|
            0 <= i < j < arrivals.len() && (#[trigger] arrivals[i]).0 == (#[trigger] arrivals[j]).0
                && pairs_formed(Map::<u32, C>::empty(), arrivals)[k] == (
                arrivals[i].1,
                arrivals[j].1,
            ),
    decreases arrivals.len(),
{
    let empty = Map::<u32, C>::empty();
    let pairs = pairs_formed(empty, arrivals);
    if arrivals.len() > 0 {
        let before = arrivals.drop_last();
        let j = arrivals.len() - 1;
        let (id, conn) = arrivals[j];
        let table = table_after_all(empty, before);
        if k < pairs_formed(empty, before).len() {
            lemma_pairs_share_identifier(before, k);
            let (a, b) = choose|a: int, b: int|
                0 <= a < b < before.len() && (#[trigger] before[a]).0 == (#[trigger] before[b]).0
                    && pairs_formed(empty, before)[k] == (before[a].1, before[b].1);
            assert(arrivals[a] == before[a]);
            assert(arrivals[b] == before[b]);
        } else {
            lemma_waiting_came_under_its_identifier(before, id);
            let i = choose|i: int| 0 <= i < before.len() && #[trigger] before[i] == (id, table[id]);
            assert(arrivals[i] == before[i]);
            assert(pairs[k] == (arrivals[i].1, arrivals[j].1));
        }
    }
}

/// Connections that gave different identifiers are never paired with each
/// other, in whatever order they arrive. Told apart by being pairwise
/// distinct, no arrival under one identifier shares a pair with an arrival
/// under another.
pub proof fn lemma_never_paired_across_identifiers<C>(
    arrivals: Seq<(u32, C)>,
    x: int,
    y: int,
    k: int,
)
    requires
        forall|a: int, b: int|
            0 <= a < b < arrivals.len() ==> (#[trigger] arrivals[a]).1 != (
            #[trigger] arrivals[b]).1,
        0 <= x < arrivals.len(),
        0 <= y < arrivals.len(),
        arrivals[x].0 != arrivals[y].0,
        0 <= k < pairs_formed(Map::<u32, C>::empty(), arrivals).len(),
    ensures
        pairs_formed(Map::<u32, C>::empty(), arrivals)[k] != (arrivals[x].1, arrivals[y].1),
{
    lemma_pairs_share_identifier(arrivals, k);
    let (i, j) = choose|i: int, j: int|
        0 <= i < j < arrivals.len() && (#[trigger] arrivals[i]).0 == (#[trigger] arrivals[j]).0
            && pairs_formed(Map::<u32, C>::empty(), arrivals)[k] == (arrivals[i].1, arrivals[j].1);
    if pairs_formed(Map::<u32, C>::empty(), arrivals)[k] == (arrivals[x].1, arrivals[y].1) {
        assert(i == x) by {
            if i < x {
                assert(arrivals[i].1 != arrivals[x].1);
            } else if x < i {
                assert(arrivals[x].1 != arrivals[i].1);
            }
        }
        assert(j == y) by {
            if j < y {
                assert(arrivals[j].1 != arrivals[y].1);
            } else if y < j {
                assert(arrivals[y].1 != arrivals[j].1);
            }
        }
    }
}

/// Each of `conns` together with the one identifier `id`.
pub open spec fn under<C>(id: u32, conns: Seq<C>) -> Seq<(u32, C)> {
    conns.map(|i: int, conn: C| (id, conn))
}

/// Connections pair off two by two. When `conns` register under one
/// identifier, with `held` already waiting under it (none or one), then
/// half of them all, rounded down, pairs form; a connection is left waiting
/// exactly if their number is odd, and then it is the last to arrive.
/// Nothing changes under any other identifier.
pub proof fn lemma_pairs_off_two_by_two<C>(table: Map<u32, C>, id: u32, conns: Seq<C>)
    ensures
        ({
            let held: int = if table.contains_key(id) { 1 } else { 0 };
            let after = table_after_all(table, under(id, conns));
            &&& pairs_formed(table, under(id, conns)).len() == (conns.len() + held) / 2
            &&& after.contains_key(id) == ((conns.len() + held) % 2 == 1)
            &&& after.contains_key(id) && conns.len() > 0 ==> after[id] == conns.last()
            &&& after.remove(id) == table.remove(id)
        }),
    decreases conns.len(),
{
    let arrivals = under(id, conns);
    if conns.len() == 0 {
        assert(table_after_all(table, arrivals) == table);
    } else {
        let before = conns.drop_last();
        assert(arrivals.drop_last() =~= under(id, before));
        assert(arrivals.last() == (id, conns.last()));
        lemma_pairs_off_two_by_two(table, id, before);
        let mid = table_after_all(table, under(id, before));
        let after = table_after_all(table, arrivals);
        assert(after == table_after(mid, id, conns.last()));
        assert(after.remove(id) =~= mid.remove(id));
    }
}

/// A pair that forms when `conns` register under one identifier, nobody
/// waiting there before, is made of two arrivals next to each other: pair
/// number `k` is arrival `2k` as first and arrival `2k + 1` as second.
pub proof fn lemma_pairs_in_arrival_order<C>(table: Map<u32, C>, id: u32, conns: Seq<C>, k: int)
    requires
        !table.contains_key(id),
        0 <= k,
        2 * k + 1 < conns.len(),
    ensures
        k < pairs_formed(table, under(id, conns)).len(),
        pairs_formed(table, under(id, conns))[k] == (conns[2 * k], conns[2 * k + 1]),
    decreases conns.len(),
{
    let arrivals = under(id, conns);
    let before = conns.drop_last();
    assert(arrivals.drop_last() =~= under(id, before));
    assert(arrivals.last() == (id, conns.last()));
    lemma_pairs_off_two_by_two(table, id, before);
    lemma_pairs_off_two_by_two(table, id, conns);
    if 2 * k + 1 < before.len() {
        lemma_pairs_in_arrival_order(table, id, before, k);
    } else {
        assert(before.len() == 2 * k + 1);
        assert(before.last() == conns[2 * k]);
    }
}

} // verus!
