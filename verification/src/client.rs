//! The client's side: local players and their keys, the cadence at which
//! their input is sent, and the store of remote craft that snapshots fill.
//!
//! Where the remote craft are at a later moment is for the caller to
//! compute: position plus velocity times the milliseconds that
//! [`Predictor::since_message`] counts, and likewise for the heading. The
//! store is only read for that, never changed.

use vstd::prelude::*;
use crate::clock::{elapsed, elapsed_between, interval_passed, is_due, precise_time_ns};
use crate::common::{Integrator, Pilot, Ship};
use crate::settings::Settings;
use crate::wire::{
    decode_snapshot,
    encode_input,
    input_bytes,
    parse_snapshot,
    CraftRecord,
    DecodeError,
    InputMessage,
};

verus! {

/// A pilot at this machine, with the codes of the three keys that steer it.
#[derive(Clone, Copy, Debug, PartialEq, Eq)]
pub struct LocalPlayer {
    pub pilot: Pilot,
    pub left_key: u32,
    pub right_key: u32,
    pub up_key: u32,
}

impl LocalPlayer {
    /// Whether `key` is one of this player's keys.
    pub open spec fn handles(self, key: u32) -> bool {
        key == self.left_key || key == self.right_key || key == self.up_key
    }

    /// This player after `key` went down (`pressed`) or up. Where one code
    /// serves two controls, the first of left, right, up takes it.
    pub open spec fn after_key(self, key: u32, pressed: bool) -> LocalPlayer {
        if key == self.left_key {
            LocalPlayer { pilot: Pilot { left_is_pressed: pressed, ..self.pilot }, ..self }
        } else if key == self.right_key {
            LocalPlayer { pilot: Pilot { right_is_pressed: pressed, ..self.pilot }, ..self }
        } else if key == self.up_key {
            LocalPlayer { pilot: Pilot { up_is_pressed: pressed, ..self.pilot }, ..self }
        } else {
            self
        }
    }

    /// The input message that tells the server which controls are held.
    pub open spec fn input_spec(self) -> InputMessage {
        InputMessage {
            throttle: self.pilot.up_is_pressed,
            turn_left: self.pilot.left_is_pressed,
            turn_right: self.pilot.right_is_pressed,
        }
    }

    pub fn new(left_key: u32, right_key: u32, up_key: u32, integrator: Integrator) -> (player: Self)
        ensures
            player == (LocalPlayer { pilot: Pilot::fresh(integrator), left_key, right_key, up_key }),
    {
        LocalPlayer { pilot: Pilot::new(integrator), left_key, right_key, up_key }
    }

    /// Gives the player's pilot its craft; fails, and changes nothing, if it
    /// has one.
    pub fn spawn(&mut self) -> (outcome: Result<(), ()>)
        ensures
            final(self).left_key == old(self).left_key,
            final(self).right_key == old(self).right_key,
            final(self).up_key == old(self).up_key,
            old(self).pilot.ship is None ==> outcome is Ok && final(self).pilot == old(
                self,
            ).pilot.with_spawned_ship(),
            old(self).pilot.ship is Some ==> outcome is Err && final(self).pilot == old(
                self,
            ).pilot,
    {
        self.pilot.spawn()
    }

    /// Takes in a key event and says whether the key is one of this
    /// player's.
    pub fn on_key(&mut self, key: u32, pressed: bool) -> (handled: bool)
        ensures
            handled == old(self).handles(key),
            *final(self) == old(self).after_key(key, pressed),
    {
        if key == self.left_key {
            self.pilot.left_is_pressed = pressed;
            true
        } else if key == self.right_key {
            self.pilot.right_is_pressed = pressed;
            true
        } else if key == self.up_key {
            self.pilot.up_is_pressed = pressed;
            true
        } else {
            false
        }
    }

    /// Computes [`LocalPlayer::input_spec`].
    pub fn input(&self) -> (message: InputMessage)
        ensures
            message == self.input_spec(),
    {
        InputMessage {
            throttle: self.pilot.up_is_pressed,
            turn_left: self.pilot.left_is_pressed,
            turn_right: self.pilot.right_is_pressed,
        }
    }
}

/// A key that went down or up.
#[derive(Clone, Copy, Debug, PartialEq, Eq, Structural)]
pub struct KeyChange {
    pub key: u32,
    pub pressed: bool,
}

/// Whether player `i` is the first of `players` that handles `key`.
pub open spec fn is_first_handler(players: Seq<LocalPlayer>, key: u32, i: int) -> bool {
    &&& 0 <= i < players.len()
    &&& players[i].handles(key)
    &&& forall|j: int| 0 <= j < i ==> !(#[trigger] players[j]).handles(key)
}

/// Whether one of `players` handles `key`.
pub open spec fn handled_by_any(players: Seq<LocalPlayer>, key: u32) -> bool {
    exists|i: int| 0 <= i < players.len() && (#[trigger] players[i]).handles(key)
}

/// The players after a key event: the first that handles the key takes it,
/// every other stays as it is.
pub open spec fn dispatched(players: Seq<LocalPlayer>, key: u32, pressed: bool) -> Seq<
    LocalPlayer,
> {
    Seq::new(
        players.len(),
        |i: int|
            if is_first_handler(players, key, i) {
                players[i].after_key(key, pressed)
            } else {
                players[i]
            },
    )
}

/// The players after a queue of key events, taken in order.
pub open spec fn after_changes(players: Seq<LocalPlayer>, changes: Seq<KeyChange>) -> Seq<
    LocalPlayer,
>
    decreases changes.len(),
{
    if changes.len() == 0 {
        players
    } else {
        dispatched(
            after_changes(players, changes.drop_last()),
            changes.last().key,
            changes.last().pressed,
        )
    }
}

/// The keys of a queue that went down and that none of `players` handles,
/// in the order of the queue.
pub open spec fn unhandled_presses(players: Seq<LocalPlayer>, changes: Seq<KeyChange>) -> Seq<u32>
    decreases changes.len(),
{
    if changes.len() == 0 {
        Seq::empty()
    } else {
        let front = unhandled_presses(players, changes.drop_last());
        if changes.last().pressed && !handled_by_any(players, changes.last().key) {
            front.push(changes.last().key)
        } else {
            front
        }
    }
}

/// Whether two lists of players have the same keys, player by player.
pub open spec fn same_keys(a: Seq<LocalPlayer>, b: Seq<LocalPlayer>) -> bool {
    &&& a.len() == b.len()
    &&& forall|i: int|
        0 <= i < a.len() ==> (#[trigger] a[i]).left_key == b[i].left_key && a[i].right_key
            == b[i].right_key && a[i].up_key == b[i].up_key
}

/// Players with the same keys handle the same keys.
proof fn lemma_same_keys_handle_alike(a: Seq<LocalPlayer>, b: Seq<LocalPlayer>, key: u32)
    requires
        same_keys(a, b),
    ensures
        handled_by_any(a, key) == handled_by_any(b, key),
{
    if handled_by_any(a, key) {
        let i = choose|i: int| 0 <= i < a.len() && (#[trigger] a[i]).handles(key);
        assert(b[i].handles(key));
    }
    if handled_by_any(b, key) {
        let i = choose|i: int| 0 <= i < b.len() && (#[trigger] b[i]).handles(key);
        assert(a[i].handles(key));
    }
}

/// Hands a key event to the first player that handles the key, and says
/// whether there is one. Every other player stays as it is, and no player's
/// keys change.
pub fn dispatch_key(players: &mut Vec<LocalPlayer>, key: u32, pressed: bool) -> (handled: bool)
    ensures
        final(players)@ == dispatched(old(players)@, key, pressed),
        handled == handled_by_any(old(players)@, key),
        same_keys(old(players)@, final(players)@),
{
    let mut i: usize = 0;
    while i < players.len()
        invariant
            i <= players.len(),
            players@ == old(players)@,
            forall|j: int| 0 <= j < i ==> !(#[trigger] players@[j]).handles(key),
        decreases players.len() - i,
    {
        let mut player = players[i];
        if player.on_key(key, pressed) {
            players.set(i, player);
            assert(is_first_handler(old(players)@, key, i as int));
            assert(old(players)@[i as int].handles(key));
            assert(players@ =~= dispatched(old(players)@, key, pressed));
            return true;
        }
        i = i + 1;
    }
    assert(players@ =~= dispatched(old(players)@, key, pressed));
    false
}

/// Takes in the key events that were queued since the last call, in order,
/// and returns the keys that went down and that no player handles.
pub fn drain_keys(players: &mut Vec<LocalPlayer>, changes: &Vec<KeyChange>) -> (unhandled: Vec<u32>)
    ensures
        final(players)@ == after_changes(old(players)@, changes@),
        unhandled@ == unhandled_presses(old(players)@, changes@),
        same_keys(old(players)@, final(players)@),
{
    let mut unhandled: Vec<u32> = Vec::new();
    let mut i: usize = 0;
    assert(changes@.take(0) =~= Seq::<KeyChange>::empty());
    while i < changes.len()
        invariant
            i <= changes.len(),
            players@ == after_changes(old(players)@, changes@.take(i as int)),
            unhandled@ == unhandled_presses(old(players)@, changes@.take(i as int)),
            same_keys(old(players)@, players@),
        decreases changes.len() - i,
    {
        let change = changes[i];
        let ghost before = players@;
        let handled = dispatch_key(players, change.key, change.pressed);
        if !handled && change.pressed {
            unhandled.push(change.key);
        }
        proof {
            lemma_same_keys_handle_alike(old(players)@, before, change.key);
            assert(changes@.take(i + 1).drop_last() =~= changes@.take(i as int));
            assert(changes@.take(i + 1).last() == change);
        }
        i = i + 1;
    }
    assert(changes@.take(changes.len() as int) =~= changes@);
    unhandled
}

/// The datagrams that tell the server what each of `players` holds, in
/// their order.
pub fn input_datagrams(players: &Vec<LocalPlayer>) -> (out: Vec<Vec<u8>>)
    ensures
        out@.len() == players@.len(),
        forall|i: int|
            0 <= i < players@.len() ==> (#[trigger] out@[i])@ == input_bytes(
                players@[i].input_spec(),
            ),
{
    let mut out: Vec<Vec<u8>> = Vec::new();
    let mut i: usize = 0;
    while i < players.len()
        invariant
            i <= players.len(),
            out@.len() == i,
            forall|j: int|
                0 <= j < i ==> (#[trigger] out@[j])@ == input_bytes(players@[j].input_spec()),
        decreases players.len() - i,
    {
        let message = players[i].input();
        out.push(encode_input(&message));
        i = i + 1;
    }
    out
}

/// The craft that a client keeps for the records of a snapshot.
pub open spec fn ships_of(records: Seq<CraftRecord>) -> Seq<Ship> {
    Seq::new(records.len(), |i: int| records[i].as_ship())
}

/// What one loop iteration of the client found.
#[derive(Debug, PartialEq, Eq)]
pub struct ClientFrame {
    /// The clock reading of the iteration.
    pub now: u64,
    /// The datagrams to send to the server; none unless a send was due.
    pub outgoing: Vec<Vec<u8>>,
    /// What became of the datagram, if one had arrived.
    pub reception: Option<Result<(), DecodeError>>,
}

/// The state that the client keeps between loop iterations.
#[derive(Debug, PartialEq, Eq)]
pub struct Predictor {
    /// The craft of the last snapshot, as they were when it was made.
    pub remote_ships: Vec<Ship>,
    /// Clock reading at which the last snapshot arrived; zero before the first.
    pub last_message_timestamp: u64,
    /// Clock reading at the last send of input, or at the start.
    pub prev_message_sent: u64,
    pub message_interval_ms: u64,
}

impl Predictor {
    /// Whether a send of input is due at `now`.
    pub open spec fn send_due(self, now: u64) -> bool {
        interval_passed(self.prev_message_sent, now, self.message_interval_ms)
    }

    /// A client that knows no remote craft and starts at the clock reading `now`.
    pub fn new(now: u64, settings: &Settings) -> (predictor: Self)
        ensures
            predictor.remote_ships@ == Seq::<Ship>::empty(),
            predictor.last_message_timestamp == 0,
            predictor.prev_message_sent == now,
            predictor.message_interval_ms == settings.message_interval_ms,
    {
        Predictor {
            remote_ships: Vec::new(),
            last_message_timestamp: 0,
            prev_message_sent: now,
            message_interval_ms: settings.message_interval_ms,
        }
    }

    /// [`Predictor::new`] at the reading that the wall clock gives when the
    /// call is made.
    pub fn start(settings: &Settings) -> (predictor: Self)
        ensures
            predictor.remote_ships@ == Seq::<Ship>::empty(),
            predictor.last_message_timestamp == 0,
            predictor.message_interval_ms == settings.message_interval_ms,
    {
        let now: u64 = precise_time_ns();
        Predictor::new(now, settings)
    }

    /// Takes in a datagram that arrived at `now`. A snapshot replaces all
    /// remote craft and sets the time of receipt; anything else is dropped
    /// and changes nothing.
    pub fn receive(&mut self, now: u64, datagram: &[u8]) -> (r: Result<(), DecodeError>)
        ensures
            final(self).prev_message_sent == old(self).prev_message_sent,
            final(self).message_interval_ms == old(self).message_interval_ms,
            match parse_snapshot(datagram@) {
                Ok(snapshot) => {
                    &&& r == Ok::<(), DecodeError>(())
                    &&& final(self).remote_ships@ == ships_of(snapshot.ships)
                    &&& final(self).last_message_timestamp == now
                },
                Err(e) => {
                    &&& r == Err::<(), DecodeError>(e)
                    &&& final(self).remote_ships@ == old(self).remote_ships@
                    &&& final(self).last_message_timestamp == old(self).last_message_timestamp
                },
            },
    {
        match decode_snapshot(datagram) {
            Err(e) => Err(e),
            Ok(snapshot) => {
                let mut ships: Vec<Ship> = Vec::new();
                let mut i: usize = 0;
                while i < snapshot.ships.len()
                    invariant
                        i <= snapshot.ships.len(),
                        ships@.len() == i,
                        forall|j: int| 0 <= j < i ==> ships@[j] == snapshot.ships@[j].as_ship(),
                    decreases snapshot.ships.len() - i,
                {
                    ships.push(snapshot.ships[i].ship());
                    i = i + 1;
                }
                assert(ships@ =~= ships_of(snapshot@.ships));
                self.remote_ships = ships;
                self.last_message_timestamp = now;
                Ok(())
            },
        }
    }

    /// Nanoseconds from the receipt of the last snapshot to `now`.
    pub fn since_message(&self, now: u64) -> (ns: u64)
        ensures
            ns == elapsed_between(self.last_message_timestamp, now),
    {
        elapsed(self.last_message_timestamp, now)
    }

    /// [`Predictor::since_message`] at the reading that the wall clock gives
    /// when the call is made. The store stays as it is.
    pub fn since_message_now(&self) -> (ns: u64)
        ensures
            ns <= u64::MAX - self.last_message_timestamp,
    {
        let now: u64 = precise_time_ns();
        self.since_message(now)
    }

    /// One loop iteration after drawing: if a send is due at `now`, the
    /// input of every player goes out and the next send is due one interval
    /// later; then the datagram, if one arrived, is taken in.
    pub fn frame(&mut self, now: u64, players: &Vec<LocalPlayer>, arrival: Option<&[u8]>) -> (frame:
        ClientFrame)
        ensures
            frame.now == now,
            final(self).message_interval_ms == old(self).message_interval_ms,
            old(self).send_due(now) ==> {
                &&& final(self).prev_message_sent == now
                &&& frame.outgoing@.len() == players@.len()
                &&& forall|i: int|
                    0 <= i < players@.len() ==> (#[trigger] frame.outgoing@[i])@ == input_bytes(
                        players@[i].input_spec(),
                    )
            },
            !old(self).send_due(now) ==> {
                &&& final(self).prev_message_sent == old(self).prev_message_sent
                &&& frame.outgoing@.len() == 0
            },
            match arrival {
                None => {
                    &&& frame.reception is None
                    &&& final(self).remote_ships@ == old(self).remote_ships@
                    &&& final(self).last_message_timestamp == old(self).last_message_timestamp
                },
                Some(datagram) => match parse_snapshot(datagram@) {
                    Ok(snapshot) => {
                        &&& frame.reception == Some(Ok::<(), DecodeError>(()))
                        &&& final(self).remote_ships@ == ships_of(snapshot.ships)
                        &&& final(self).last_message_timestamp == now
                    },
                    Err(e) => {
                        &&& frame.reception == Some(Err::<(), DecodeError>(e))
                        &&& final(self).remote_ships@ == old(self).remote_ships@
                        &&& final(self).last_message_timestamp == old(
                            self,
                        ).last_message_timestamp
                    },
                },
            },
    {
        let outgoing = if is_due(self.prev_message_sent, now, self.message_interval_ms) {
            self.prev_message_sent = now;
            input_datagrams(players)
        } else {
            Vec::new()
        };
        let reception = match arrival {
            Some(datagram) => Some(self.receive(now, datagram)),
            None => None,
        };
        ClientFrame { now, outgoing, reception }
    }

    /// [`Predictor::frame`] at the reading that the wall clock gives when
    /// the call is made.
    pub fn frame_now(&mut self, players: &Vec<LocalPlayer>, arrival: Option<&[u8]>) -> (frame:
        ClientFrame)
        ensures
            final(self).message_interval_ms == old(self).message_interval_ms,
            old(self).send_due(frame.now) ==> {
                &&& final(self).prev_message_sent == frame.now
                &&& frame.outgoing@.len() == players@.len()
                &&& forall|i: int|
                    0 <= i < players@.len() ==> (#[trigger] frame.outgoing@[i])@ == input_bytes(
                        players@[i].input_spec(),
                    )
            },
            !old(self).send_due(frame.now) ==> {
                &&& final(self).prev_message_sent == old(self).prev_message_sent
                &&& frame.outgoing@.len() == 0
            },
            match arrival {
                None => {
                    &&& frame.reception is None
                    &&& final(self).remote_ships@ == old(self).remote_ships@
                    &&& final(self).last_message_timestamp == old(self).last_message_timestamp
                },
                Some(datagram) => match parse_snapshot(datagram@) {
                    Ok(snapshot) => {
                        &&& frame.reception == Some(Ok::<(), DecodeError>(()))
                        &&& final(self).remote_ships@ == ships_of(snapshot.ships)
                        &&& final(self).last_message_timestamp == frame.now
                    },
                    Err(e) => {
                        &&& frame.reception == Some(Err::<(), DecodeError>(e))
                        &&& final(self).remote_ships@ == old(self).remote_ships@
                        &&& final(self).last_message_timestamp == old(
                            self,
                        ).last_message_timestamp
                    },
                },
            },
    {
        let now: u64 = precise_time_ns();
        self.frame(now, players, arrival)
    }
}

} // verus!
