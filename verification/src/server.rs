//! The server's side of one loop iteration: what it does with a datagram,
//! how many ticks it owes, and when and to whom it sends a snapshot.
//!
//! The caller reads the socket, runs the integrator for each tick that
//! [`Server::frame`] releases and completes it with [`Server::step`], and
//! sends what [`Server::begin_broadcast`] plans.

use vstd::prelude::*;
use crate::clock::{interval_passed, is_due, precise_time_ns, FixedClock};
use crate::common::{Motion, Ship};
use crate::sessions::{
    after_eviction,
    after_input,
    after_step,
    lemma_first_contact,
    ships_along,
    timed_out_endpoints,
    Client,
    SessionTable,
};
use crate::settings::Settings;
use crate::wire::{decode_input, parse_input, DecodeError};

verus! {

/// What became of a datagram that the server received.
#[derive(Clone, Copy, Debug, PartialEq, Eq, Structural)]
pub enum Reception {
    /// It is no input message; nothing changed.
    Dropped(DecodeError),
    /// Its endpoint had a session, which took the input.
    Updated,
    /// Its endpoint had none and got one, with a freshly spawned craft.
    Created,
}

/// What one loop iteration found.
#[derive(Clone, Copy, Debug, PartialEq, Eq)]
pub struct Frame {
    /// The clock reading of the iteration.
    pub now: u64,
    /// What became of the datagram, if one had arrived.
    pub reception: Option<Reception>,
    /// The ticks that the simulation has to run now.
    pub ticks: u64,
}

/// A snapshot that is due: the endpoints to send it to, and the craft to
/// describe in it.
#[derive(Debug, PartialEq, Eq)]
pub struct Broadcast {
    /// The clock reading that the snapshot carries.
    pub timestamp: u64,
    /// The endpoints whose sessions were evicted just before.
    pub evicted: Vec<u64>,
    /// The endpoints that remain, each once.
    pub recipients: Vec<u64>,
    /// The craft of the sessions that remain, in the order of `recipients`.
    pub ships: Vec<Ship>,
}

/// The state that the server keeps between loop iterations.
pub struct Server {
    pub sessions: SessionTable,
    pub clock: FixedClock,
    /// Clock reading at the last snapshot, or at the start.
    pub prev_message_sent: u64,
    pub message_interval_ms: u64,
    pub client_timeout_ms: u64,
}

impl Server {
    /// Whether `self` and `other` differ at most in their sessions.
    pub open spec fn same_timing(self, other: Server) -> bool {
        &&& self.clock == other.clock
        &&& self.prev_message_sent == other.prev_message_sent
        &&& self.message_interval_ms == other.message_interval_ms
        &&& self.client_timeout_ms == other.client_timeout_ms
    }

    /// What [`Server::receive`] answers to a datagram from `from`.
    pub open spec fn reception(self, from: u64, datagram: Seq<u8>) -> Reception {
        match parse_input(datagram) {
            Err(e) => Reception::Dropped(e),
            Ok(_) => if self.sessions@.contains_key(from) {
                Reception::Updated
            } else {
                Reception::Created
            },
        }
    }

    /// The sessions after a datagram from `from` arrived at `now`.
    pub open spec fn sessions_after(self, now: u64, from: u64, datagram: Seq<u8>) -> Map<
        u64,
        Client,
    > {
        match parse_input(datagram) {
            Err(_) => self.sessions@,
            Ok(input) => after_input(self.sessions@, from, input, now),
        }
    }

    /// Whether a snapshot is due at `now`.
    pub open spec fn broadcast_due(self, now: u64) -> bool {
        interval_passed(self.prev_message_sent, now, self.message_interval_ms)
    }

    /// A server without sessions that starts at the clock reading `now`.
    pub fn new(now: u64, settings: &Settings) -> (server: Self)
        ensures
            server.sessions@ == Map::<u64, Client>::empty(),
            server.clock == (FixedClock { previous: now, accumulator: 0 }),
            server.prev_message_sent == now,
            server.message_interval_ms == settings.message_interval_ms,
            server.client_timeout_ms == settings.client_timeout_ms,
    {
        Server {
            sessions: SessionTable::new(),
            clock: FixedClock::new(now),
            prev_message_sent: now,
            message_interval_ms: settings.message_interval_ms,
            client_timeout_ms: settings.client_timeout_ms,
        }
    }

    /// [`Server::new`] at the reading that the wall clock gives when the call
    /// is made.
    pub fn start(settings: &Settings) -> (server: Self)
        ensures
            server.sessions@ == Map::<u64, Client>::empty(),
            server.clock == (FixedClock { previous: server.prev_message_sent, accumulator: 0 }),
            server.message_interval_ms == settings.message_interval_ms,
            server.client_timeout_ms == settings.client_timeout_ms,
    {
        let now: u64 = precise_time_ns();
        Server::new(now, settings)
    }

    /// Takes in a datagram that arrived from `from` at `now`. One that is no
    /// input message is dropped and leaves the server as it was. An input
    /// from an endpoint with a session updates that session's flags and
    /// time; an input from any other endpoint creates its session.
    pub fn receive(&mut self, now: u64, from: u64, datagram: &[u8]) -> (r: Reception)
        ensures
            r == old(self).reception(from, datagram@),
            final(self).sessions@ == old(self).sessions_after(now, from, datagram@),
            final(self).same_timing(*old(self)),
    {
        match decode_input(datagram) {
            Err(e) => Reception::Dropped(e),
            Ok(input) => {
                if self.sessions.hear(from, input, now) {
                    Reception::Created
                } else {
                    Reception::Updated
                }
            },
        }
    }

    /// One loop iteration up to the ticks: accounts for the clock reading
    /// `now`, takes in the datagram if one arrived, and says how many ticks
    /// are to be run.
    pub fn frame(&mut self, now: u64, arrival: Option<(u64, &[u8])>) -> (frame: Frame)
        ensures
            frame.now == now,
            frame.ticks == old(self).clock.ticks_due(now),
            final(self).clock == old(self).clock.advanced(now),
            final(self).prev_message_sent == old(self).prev_message_sent,
            final(self).message_interval_ms == old(self).message_interval_ms,
            final(self).client_timeout_ms == old(self).client_timeout_ms,
            match arrival {
                Some((from, datagram)) => {
                    &&& frame.reception == Some(old(self).reception(from, datagram@))
                    &&& final(self).sessions@ == old(self).sessions_after(now, from, datagram@)
                },
                None => {
                    &&& frame.reception is None
                    &&& final(self).sessions@ == old(self).sessions@
                },
            },
    {
        let ticks: u64 = self.clock.advance(now);
        let reception = match arrival {
            Some((from, datagram)) => Some(self.receive(now, from, datagram)),
            None => None,
        };
        Frame { now, reception, ticks }
    }

    /// [`Server::frame`] at the reading that the wall clock gives when the
    /// call is made.
    pub fn frame_now(&mut self, arrival: Option<(u64, &[u8])>) -> (frame: Frame)
        ensures
            frame.ticks == old(self).clock.ticks_due(frame.now),
            final(self).clock == old(self).clock.advanced(frame.now),
            final(self).prev_message_sent == old(self).prev_message_sent,
            final(self).message_interval_ms == old(self).message_interval_ms,
            final(self).client_timeout_ms == old(self).client_timeout_ms,
            match arrival {
                Some((from, datagram)) => {
                    &&& frame.reception == Some(old(self).reception(from, datagram@))
                    &&& final(self).sessions@ == old(self).sessions_after(
                        frame.now,
                        from,
                        datagram@,
                    )
                },
                None => {
                    &&& frame.reception is None
                    &&& final(self).sessions@ == old(self).sessions@
                },
            },
    {
        let now: u64 = precise_time_ns();
        self.frame(now, arrival)
    }

    /// Completes one tick of the craft of `endpoint` with what the
    /// integrator returned, and says whether there was a craft to move.
    pub fn step(&mut self, endpoint: u64, next: Motion) -> (moved: bool)
        ensures
            final(self).sessions@ == after_step(old(self).sessions@, endpoint, next),
            moved == (old(self).sessions@.contains_key(endpoint) && old(
                self,
            ).sessions@[endpoint].pilot.ship is Some),
            final(self).same_timing(*old(self)),
    {
        self.sessions.step(endpoint, next)
    }

    /// The end of a loop iteration. While no snapshot is due, nothing
    /// happens. When one is due, the sessions that are timed out at `now` are
    /// evicted first, and the plan names the endpoints that remain and
    /// their craft; the next snapshot is then due one interval after `now`.
    pub fn begin_broadcast(&mut self, now: u64) -> (plan: Option<Broadcast>)
        ensures
            final(self).clock == old(self).clock,
            final(self).message_interval_ms == old(self).message_interval_ms,
            final(self).client_timeout_ms == old(self).client_timeout_ms,
            !old(self).broadcast_due(now) ==> {
                &&& plan is None
                &&& final(self).sessions@ == old(self).sessions@
                &&& final(self).prev_message_sent == old(self).prev_message_sent
            },
            old(self).broadcast_due(now) ==> {
                &&& plan is Some
                &&& final(self).prev_message_sent == now
                &&& final(self).sessions@ == after_eviction(
                    old(self).sessions@,
                    now,
                    old(self).client_timeout_ms,
                )
                &&& plan->Some_0.timestamp == now
                &&& plan->Some_0.evicted@.no_duplicates()
                &&& plan->Some_0.evicted@.to_set() == timed_out_endpoints(
                    old(self).sessions@,
                    now,
                    old(self).client_timeout_ms,
                )
                &&& plan->Some_0.recipients@.no_duplicates()
                &&& plan->Some_0.recipients@.to_set() == final(self).sessions@.dom()
                &&& plan->Some_0.ships@ == ships_along(
                    final(self).sessions@,
                    plan->Some_0.recipients@,
                )
            },
    {
        if !is_due(self.prev_message_sent, now, self.message_interval_ms) {
            return None;
        }
        let evicted = self.sessions.evict(now, self.client_timeout_ms);
        let recipients = self.sessions.endpoints();
        let ships = self.sessions.ships_along(&recipients);
        self.prev_message_sent = now;
        Some(Broadcast { timestamp: now, evicted, recipients, ships })
    }
}

/// A datagram that is no input message is dropped: the server answers
/// with the reason and its sessions stay as they were.
pub proof fn lemma_malformed_dropped(server: Server, now: u64, from: u64, datagram: Seq<u8>)
    requires
        parse_input(datagram) is Err,
    ensures
        server.reception(from, datagram) == Reception::Dropped(parse_input(datagram)->Err_0),
        server.sessions_after(now, from, datagram) == server.sessions@,
{
}

/// An input datagram from an endpoint without a session creates exactly one
/// session, that of the endpoint, with a craft at the spawn point at rest.
pub proof fn lemma_session_creation(server: Server, now: u64, from: u64, datagram: Seq<u8>)
    requires
        parse_input(datagram) is Ok,
        !server.sessions@.contains_key(from),
    ensures
        server.reception(from, datagram) == Reception::Created,
        server.sessions_after(now, from, datagram).len() == server.sessions@.len() + 1,
        server.sessions_after(now, from, datagram).dom() == server.sessions@.dom().insert(from),
        server.sessions_after(now, from, datagram)[from] == Client::joined(now),
        Client::joined(now).pilot.ship == Some(Ship::spawned()),
        forall|e: u64| #[trigger]
            server.sessions@.contains_key(e) ==> server.sessions_after(now, from, datagram)[e]
                == server.sessions@[e],
{
    server.sessions.lemma_finite();
    lemma_first_contact(server.sessions@, from, parse_input(datagram)->Ok_0, now);
}

} // verus!
