//! The server's table of sessions: one entry per endpoint that has been heard
//! from and has not fallen silent for too long.

use std::collections::HashMap;
use vstd::prelude::*;
use vstd::std_specs::hash::*;
use vstd::seq_lib::lemma_seq_contains_after_push;
use vstd::std_specs::iter::IteratorSpec;
use crate::clock::{elapsed, elapsed_between, NANOS_PER_MILLI};
use crate::common::{Integrator, Motion, Pilot, Ship, Vec2, SPAWN_X, SPAWN_Y, ZERO};
use crate::wire::InputMessage;

verus! {

broadcast use group_hash_axioms;

/// One session: a pilot and the time at which its endpoint was last heard.
#[derive(Clone, Copy, Debug, PartialEq, Eq)]
pub struct Client {
    /// Clock reading at the last valid input from the endpoint.
    pub last_message: u64,
    pub pilot: Pilot,
}

impl Client {
    /// The session of an endpoint that is heard for the first time at `now`:
    /// a forward-Euler pilot with no control held and a freshly spawned craft.
    pub open spec fn joined(now: u64) -> Client {
        Client {
            last_message: now,
            pilot: Pilot::fresh(Integrator::ForwardEuler).with_spawned_ship(),
        }
    }

    /// This session after `input` arrived at `now`: the flags are those of
    /// the input, the craft is untouched.
    pub open spec fn heard(self, input: InputMessage, now: u64) -> Client {
        Client {
            last_message: now,
            pilot: self.pilot.with_flags(input.turn_left, input.turn_right, input.throttle),
        }
    }

    /// This session after a tick whose integrator returned `next`.
    pub open spec fn stepped(self, next: Motion) -> Client {
        Client { last_message: self.last_message, pilot: self.pilot.stepped(next) }
    }

    /// Whole milliseconds for which the endpoint has been silent at `now`.
    pub open spec fn silence_ms(self, now: u64) -> nat {
        elapsed_between(self.last_message, now) / (NANOS_PER_MILLI as nat)
    }

    /// Whether the session is to be evicted at `now`: its silence exceeds
    /// the timeout.
    pub open spec fn timed_out(self, now: u64, timeout_ms: u64) -> bool {
        self.silence_ms(now) > timeout_ms
    }

    /// Computes [`Client::timed_out`].
    pub fn is_timed_out(&self, now: u64, timeout_ms: u64) -> (out: bool)
        ensures
            out == self.timed_out(now, timeout_ms),
    {
        elapsed(self.last_message, now) / NANOS_PER_MILLI > timeout_ms
    }
}

/// The table as contracts see it after an input from `from` arrived at `now`.
pub open spec fn after_input(
    table: Map<u64, Client>,
    from: u64,
    input: InputMessage,
    now: u64,
) -> Map<u64, Client> {
    if table.contains_key(from) {
        table.insert(from, table[from].heard(input, now))
    } else {
        table.insert(from, Client::joined(now))
    }
}

/// The table as contracts see it after one tick of the craft of `endpoint`.
pub open spec fn after_step(table: Map<u64, Client>, endpoint: u64, next: Motion) -> Map<
    u64,
    Client,
> {
    if table.contains_key(endpoint) {
        table.insert(endpoint, table[endpoint].stepped(next))
    } else {
        table
    }
}

/// The endpoints of `table` whose sessions are timed out at `now`.
pub open spec fn timed_out_endpoints(table: Map<u64, Client>, now: u64, timeout_ms: u64) -> Set<
    u64,
> {
    Set::new(|e: u64| table.contains_key(e) && table[e].timed_out(now, timeout_ms))
}

/// The table as contracts see it after the eviction at `now`.
pub open spec fn after_eviction(table: Map<u64, Client>, now: u64, timeout_ms: u64) -> Map<
    u64,
    Client,
> {
    table.remove_keys(timed_out_endpoints(table, now, timeout_ms))
}

/// The craft of the sessions of `table`, in the order in which `order` names
/// their endpoints. An endpoint without a session, or whose pilot has no
/// craft, contributes nothing.
pub open spec fn ships_along(table: Map<u64, Client>, order: Seq<u64>) -> Seq<Ship>
    decreases order.len(),
{
    if order.len() == 0 {
        Seq::empty()
    } else {
        let front = ships_along(table, order.drop_last());
        let e = order.last();
        if table.contains_key(e) && table[e].pilot.ship is Some {
            front.push(table[e].pilot.ship->Some_0)
        } else {
            front
        }
    }
}

/// First contact creates exactly one session: the table grows by one
/// entry, that of the new endpoint, whose craft stands at the spawn point
/// at rest; every session that was there stays as it was.
pub proof fn lemma_first_contact(table: Map<u64, Client>, from: u64, input: InputMessage, now: u64)
    requires
        table.dom().finite(),
        !table.contains_key(from),
    ensures
        after_input(table, from, input, now).dom() == table.dom().insert(from),
        after_input(table, from, input, now).len() == table.len() + 1,
        after_input(table, from, input, now)[from].last_message == now,
        after_input(table, from, input, now)[from].pilot.ship == Some(Ship::spawned()),
        Ship::spawned().position == (Vec2 { x: SPAWN_X, y: SPAWN_Y }),
        Ship::spawned().velocity == (Vec2 { x: ZERO, y: ZERO }),
        forall|e: u64| #[trigger]
            table.contains_key(e) ==> after_input(table, from, input, now)[e] == table[e],
{
    assert(after_input(table, from, input, now).dom() =~= table.dom().insert(from));
}

/// An input from an endpoint that has a session creates nothing: the table
/// keeps its endpoints, the session takes the flags and the time, its craft
/// and every other session stay as they were.
pub proof fn lemma_later_contact(table: Map<u64, Client>, from: u64, input: InputMessage, now: u64)
    requires
        table.contains_key(from),
    ensures
        after_input(table, from, input, now).dom() == table.dom(),
        after_input(table, from, input, now)[from].last_message == now,
        after_input(table, from, input, now)[from].pilot.ship == table[from].pilot.ship,
        after_input(table, from, input, now)[from].pilot.integrator
            == table[from].pilot.integrator,
        after_input(table, from, input, now)[from].pilot.up_is_pressed == input.throttle,
        after_input(table, from, input, now)[from].pilot.left_is_pressed == input.turn_left,
        after_input(table, from, input, now)[from].pilot.right_is_pressed == input.turn_right,
        forall|e: u64| #[trigger]
            table.contains_key(e) && e != from ==> after_input(table, from, input, now)[e]
                == table[e],
{
    assert(after_input(table, from, input, now).dom() =~= table.dom());
}

/// The time at which a session was last heard changes only when an input
/// from its endpoint arrives, and then it becomes the time of arrival: it
/// does not go back unless the clock does. Ticks and evictions leave it as
/// it is.
pub proof fn lemma_last_message(
    table: Map<u64, Client>,
    e: u64,
    from: u64,
    input: InputMessage,
    now: u64,
    next: Motion,
    timeout_ms: u64,
)
    requires
        table.contains_key(e),
    ensures
        after_input(table, from, input, now)[e].last_message == (if e == from {
            now
        } else {
            table[e].last_message
        }),
        now >= table[e].last_message ==> after_input(table, from, input, now)[e].last_message
            >= table[e].last_message,
        after_step(table, from, next)[e].last_message == table[e].last_message,
        after_eviction(table, now, timeout_ms).contains_key(e) ==> after_eviction(
            table,
            now,
            timeout_ms,
        )[e].last_message == table[e].last_message,
{
}

/// Eviction removes exactly the sessions that are timed out: such a session
/// is gone, any other is there and unchanged, and none is added.
pub proof fn lemma_eviction(table: Map<u64, Client>, now: u64, timeout_ms: u64, e: u64)
    ensures
        after_eviction(table, now, timeout_ms).contains_key(e) <==> table.contains_key(e)
            && !table[e].timed_out(now, timeout_ms),
        after_eviction(table, now, timeout_ms).contains_key(e) ==> after_eviction(
            table,
            now,
            timeout_ms,
        )[e] == table[e],
{
}

/// Every craft listed along `order` is the craft of a session that `order`
/// names; there are no more craft than names.
pub proof fn lemma_ships_along_members(table: Map<u64, Client>, order: Seq<u64>, i: int)
    requires
        0 <= i < ships_along(table, order).len(),
    ensures
        ships_along(table, order).len() <= order.len(),
        exists|k: int|
            0 <= k < order.len() && table.contains_key(#[trigger] order[k])
                && table[order[k]].pilot.ship == Some(ships_along(table, order)[i]),
    decreases order.len(),
{
    let front = order.drop_last();
    let e = order.last();
    lemma_ships_along_len(table, front);
    if i < ships_along(table, front).len() {
        lemma_ships_along_members(table, front, i);
        let k = choose|k: int|
            0 <= k < front.len() && table.contains_key(#[trigger] front[k])
                && table[front[k]].pilot.ship == Some(ships_along(table, front)[i]);
        assert(order[k] == front[k]);
    } else {
        assert(order[order.len() - 1] == e);
    }
}

/// There are no more craft along `order` than `order` has names.
pub proof fn lemma_ships_along_len(table: Map<u64, Client>, order: Seq<u64>)
    ensures
        ships_along(table, order).len() <= order.len(),
    decreases order.len(),
{
    if order.len() > 0 {
        lemma_ships_along_len(table, order.drop_last());
    }
}

/// The craft listed along `order` depend only on the sessions that `order`
/// names.
pub proof fn lemma_ships_along_local(a: Map<u64, Client>, b: Map<u64, Client>, order: Seq<u64>)
    requires
        forall|k: int|
            0 <= k < order.len() ==> (a.contains_key(#[trigger] order[k]) <==> b.contains_key(
                order[k],
            )),
        forall|k: int|
            0 <= k < order.len() && a.contains_key(#[trigger] order[k]) ==> a[order[k]]
                == b[order[k]],
    ensures
        ships_along(a, order) == ships_along(b, order),
    decreases order.len(),
{
    if order.len() > 0 {
        let front = order.drop_last();
        assert forall|k: int| 0 <= k < front.len() implies (a.contains_key(#[trigger] front[k])
            <==> b.contains_key(front[k])) && (a.contains_key(front[k]) ==> a[front[k]]
            == b[front[k]]) by {
            assert(front[k] == order[k]);
        }
        lemma_ships_along_local(a, b, front);
        assert(order.last() == order[order.len() - 1]);
    }
}

/// A session that is timed out when the eviction runs is afterwards in
/// neither the table nor any list of the endpoints that remain, and the
/// craft listed for those endpoints are the same as if the session had
/// never been.
pub proof fn lemma_evicted_absent(
    table: Map<u64, Client>,
    now: u64,
    timeout_ms: u64,
    e: u64,
    recipients: Seq<u64>,
)
    requires
        table.contains_key(e),
        table[e].timed_out(now, timeout_ms),
        recipients.to_set() == after_eviction(table, now, timeout_ms).dom(),
    ensures
        !after_eviction(table, now, timeout_ms).contains_key(e),
        !recipients.contains(e),
        ships_along(after_eviction(table, now, timeout_ms), recipients) == ships_along(
            table.remove(e),
            recipients,
        ),
{
    let after = after_eviction(table, now, timeout_ms);
    assert(!recipients.to_set().contains(e));
    assert forall|k: int| 0 <= k < recipients.len() implies after.contains_key(
        #[trigger] recipients[k],
    ) by {
        assert(recipients.to_set().contains(recipients[k]));
    }
    lemma_ships_along_local(after, table.remove(e), recipients);
}

/// Sessions by endpoint identity.
pub struct SessionTable {
    clients: HashMap<u64, Client>,
}

impl View for SessionTable {
    type V = Map<u64, Client>;

    closed spec fn view(&self) -> Map<u64, Client> {
        self.clients@
    }
}

impl SessionTable {
    /// A table without sessions.
    pub fn new() -> (table: Self)
        ensures
            table@ == Map::<u64, Client>::empty(),
    {
        SessionTable { clients: HashMap::new() }
    }

    /// A table holds finitely many sessions.
    pub proof fn lemma_finite(self)
        ensures
            self@.dom().finite(),
    {
    }

    /// The number of sessions.
    pub fn len(&self) -> (n: usize)
        ensures
            n == self@.len(),
            self@.dom().finite(),
    {
        self.clients.len()
    }

    /// The session of `endpoint`, if it has one.
    pub fn get(&self, endpoint: u64) -> (found: Option<Client>)
        ensures
            found == (if self@.contains_key(endpoint) {
                Some(self@[endpoint])
            } else {
                None
            }),
    {
        match self.clients.get(&endpoint) {
            Some(client) => Some(*client),
            None => None,
        }
    }

    /// Takes in an input that arrived from `from` at `now`. An endpoint that
    /// has a session gets its flags and its time updated; any other gets a
    /// new session with a freshly spawned craft. Says whether a session was
    /// created. No other session changes.
    pub fn hear(&mut self, from: u64, input: InputMessage, now: u64) -> (created: bool)
        ensures
            final(self)@ == after_input(old(self)@, from, input, now),
            created == !old(self)@.contains_key(from),
    {
        match self.get(from) {
            Some(mut client) => {
                client.pilot.set_flags(input.turn_left, input.turn_right, input.throttle);
                client.last_message = now;
                self.clients.insert(from, client);
                false
            },
            None => {
                let mut pilot = Pilot::new(Integrator::ForwardEuler);
                let _ = pilot.spawn();
                self.clients.insert(from, Client { last_message: now, pilot });
                true
            },
        }
    }

    /// Completes one tick of the craft of `endpoint` with what the
    /// integrator returned, and says whether there was a craft to move.
    /// No other session changes.
    pub fn step(&mut self, endpoint: u64, next: Motion) -> (moved: bool)
        ensures
            final(self)@ == after_step(old(self)@, endpoint, next),
            moved == (old(self)@.contains_key(endpoint) && old(
                self,
            )@[endpoint].pilot.ship is Some),
    {
        match self.get(endpoint) {
            Some(mut client) => {
                let moved = client.pilot.step(next);
                self.clients.insert(endpoint, client);
                moved
            },
            None => {
                assert(self@ =~= after_step(old(self)@, endpoint, next));
                false
            },
        }
    }

    /// The endpoints that have a session, each once, in the order in which
    /// the table happens to be walked.
    pub fn endpoints(&self) -> (order: Vec<u64>)
        ensures
            order@.no_duplicates(),
            order@.to_set() == self@.dom(),
            order@.len() == self@.len(),
    {
        let mut order: Vec<u64> = Vec::new();
        let keys = self.clients.keys();
        let ghost walked = keys.remaining().unref();
        for e in it: keys
            invariant
                it.seq().unref() == walked,
                order@ == walked.take(it.index()),
        {
            order.push(*e);
            assert(order@ =~= walked.take(it.index() + 1));
        }
        assert(order@ =~= walked);
        order
    }

    /// The craft of the sessions whose endpoints `order` names, in that order.
    pub fn ships_along(&self, order: &Vec<u64>) -> (ships: Vec<Ship>)
        ensures
            ships@ == ships_along(self@, order@),
    {
        let mut ships: Vec<Ship> = Vec::new();
        let mut i: usize = 0;
        while i < order.len()
            invariant
                i <= order.len(),
                ships@ == ships_along(self@, order@.take(i as int)),
            decreases order.len() - i,
        {
            match self.get(order[i]) {
                Some(client) => match client.pilot.ship {
                    Some(ship) => {
                        ships.push(ship);
                    },
                    None => {},
                },
                None => {},
            }
            assert(order@.take(i + 1).drop_last() =~= order@.take(i as int));
            i = i + 1;
        }
        assert(order@.take(order.len() as int) =~= order@);
        ships
    }

    /// Removes the sessions that are timed out at `now` and returns their
    /// endpoints, each once. Every other session stays as it is.
    pub fn evict(&mut self, now: u64, timeout_ms: u64) -> (gone: Vec<u64>)
        ensures
            final(self)@ == after_eviction(old(self)@, now, timeout_ms),
            gone@.no_duplicates(),
            gone@.to_set() == timed_out_endpoints(old(self)@, now, timeout_ms),
    {
        let order = self.endpoints();
        let ghost before = self@;
        let mut gone: Vec<u64> = Vec::new();
        let mut i: usize = 0;
        while i < order.len()
            invariant
                i <= order.len(),
                before == old(self)@,
                order@.no_duplicates(),
                order@.to_set() == before.dom(),
                gone@.no_duplicates(),
                forall|e: u64| #[trigger]
                    gone@.contains(e) <==> order@.take(i as int).contains(e) && before[e].timed_out(
                        now,
                        timeout_ms,
                    ),
                self@ == before.remove_keys(gone@.to_set()),
            decreases order.len() - i,
        {
            let e: u64 = order[i];
            let ghost seen = order@.take(i as int);
            let ghost gone_before = gone@;
            assert(order@.contains(e));
            assert(before.dom().contains(e));
            assert(!seen.contains(e));
            assert(order@.take(i + 1) =~= seen.push(e));
            match self.clients.get(&e) {
                Some(client) => {
                    if client.is_timed_out(now, timeout_ms) {
                        self.clients.remove(&e);
                        gone.push(e);
                        proof {
                            gone_before.lemma_push_to_set_commute(e);
                            assert(self@ =~= before.remove_keys(gone@.to_set()));
                        }
                    }
                },
                None => {},
            }
            assert forall|x: u64| #[trigger]
                gone@.contains(x) <==> seen.push(e).contains(x) && before[x].timed_out(
                    now,
                    timeout_ms,
                ) by {
                lemma_seq_contains_after_push(seen, e, x);
                if gone@ != gone_before {
                    lemma_seq_contains_after_push(gone_before, e, x);
                }
            }
            i = i + 1;
        }
        assert(order@.take(order.len() as int) =~= order@);
        assert(gone@.to_set() =~= timed_out_endpoints(before, now, timeout_ms));
        gone
    }
}

} // verus!
