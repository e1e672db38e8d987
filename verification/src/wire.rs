//! The two datagrams of the protocol, as functions on bytes.
//!
//! An input datagram is two bytes: the tag [`INPUT_TAG`] and a flags byte,
//! in which throttle counts 1, turn-left 2 and turn-right 4.
//!
//! A snapshot datagram is the tag [`SNAPSHOT_TAG`], the timestamp (8 bytes),
//! the number of craft records (2 bytes), and then the records, 28 bytes
//! each: identifier, x, y, dx, dy, angle and angular rate, 4 bytes each.
//! All integers are little-endian. A snapshot holds at most [`MAX_RECORDS`]
//! records, so that it fits one datagram of [`MAX_DATAGRAM_LEN`] bytes.
//!
//! Each byte string is the encoding of at most one message, and the decoders
//! accept exactly the strings that the encoders produce.

use vstd::prelude::*;
use vstd::bytes::*;
use vstd::slice::*;
use crate::common::{Ship, Vec2, SPAWN_X, SPAWN_Y, ZERO};

verus! {

/// First byte of an input datagram.
pub const INPUT_TAG: u8 = 1;

/// First byte of a snapshot datagram.
pub const SNAPSHOT_TAG: u8 = 2;

/// Length of an input datagram.
pub const INPUT_LEN: usize = 2;

/// Length of a snapshot datagram without its records.
pub const SNAPSHOT_HEADER_LEN: usize = 11;

/// Length of one craft record.
pub const RECORD_LEN: usize = 28;

/// Largest payload of one datagram.
pub const MAX_DATAGRAM_LEN: usize = 65507;

/// Largest number of craft records for which a snapshot fits one datagram.
pub const MAX_RECORDS: usize = 2339;

/// What a client tells the server: which controls are held.
#[derive(Clone, Copy, Debug, PartialEq, Eq, Structural)]
pub struct InputMessage {
    pub throttle: bool,
    pub turn_left: bool,
    pub turn_right: bool,
}

/// One craft in a snapshot. The scalars are held as the bits of their
/// single-precision encoding; `dx` and `dy` are the displacement over the
/// last tick, `angular_rate` the change of `angle` over the last tick.
#[derive(Clone, Copy, Debug, PartialEq, Eq, Structural)]
pub struct CraftRecord {
    pub id: u32,
    pub x: u32,
    pub y: u32,
    pub dx: u32,
    pub dy: u32,
    pub angle: u32,
    pub angular_rate: u32,
}

/// What the server tells every client: all craft, in full.
#[derive(Debug, PartialEq, Eq)]
pub struct Snapshot {
    /// The server's clock when the snapshot was made.
    pub timestamp: u64,
    pub ships: Vec<CraftRecord>,
}

/// A snapshot as contracts see it.
pub struct SnapshotView {
    pub timestamp: u64,
    pub ships: Seq<CraftRecord>,
}

impl View for Snapshot {
    type V = SnapshotView;

    open spec fn view(&self) -> SnapshotView {
        SnapshotView { timestamp: self.timestamp, ships: self.ships@ }
    }
}

impl CraftRecord {
    /// The record that describes `ship`, given its displacement and its
    /// change of heading over the last tick. The identifier is zero: craft
    /// are not told apart on the wire.
    pub open spec fn describing(ship: Ship, displacement: Vec2, turn: u32) -> CraftRecord {
        CraftRecord {
            id: 0,
            x: ship.position.x,
            y: ship.position.y,
            dx: displacement.x,
            dy: displacement.y,
            angle: ship.rotation,
            angular_rate: turn,
        }
    }

    /// The craft that a client keeps for this record: position, heading and
    /// the two rates are the record's, the rest is as in a spawned craft.
    pub open spec fn as_ship(self) -> Ship {
        Ship {
            rotation: self.angle,
            rotational_velocity: self.angular_rate,
            position: Vec2 { x: self.x, y: self.y },
            velocity: Vec2 { x: self.dx, y: self.dy },
            prev_position: Vec2 { x: SPAWN_X, y: SPAWN_Y },
            prev_rotation: ZERO,
        }
    }

    /// Computes [`CraftRecord::describing`].
    pub fn of(ship: &Ship, displacement: Vec2, turn: u32) -> (record: CraftRecord)
        ensures
            record == CraftRecord::describing(*ship, displacement, turn),
    {
        CraftRecord {
            id: 0,
            x: ship.position.x,
            y: ship.position.y,
            dx: displacement.x,
            dy: displacement.y,
            angle: ship.rotation,
            angular_rate: turn,
        }
    }

    /// Computes [`CraftRecord::as_ship`].
    pub fn ship(&self) -> (ship: Ship)
        ensures
            ship == self.as_ship(),
    {
        let mut ship = Ship::new();
        ship.rotation = self.angle;
        ship.rotational_velocity = self.angular_rate;
        ship.position = Vec2 { x: self.x, y: self.y };
        ship.velocity = Vec2 { x: self.dx, y: self.dy };
        ship
    }
}

/// Why a datagram is not a message.
#[derive(Clone, Copy, Debug, PartialEq, Eq, Structural)]
pub enum DecodeError {
    /// The datagram ends before the message does.
    Truncated,
    /// The first byte is not the tag of the expected message.
    UnknownTag,
    /// The flags byte of an input has a bit set that stands for no control.
    BadFlags,
    /// A snapshot announces more records than one datagram can hold.
    Oversized,
    /// The datagram goes on after the message has ended.
    TrailingBytes,
}

/// Why a message has no datagram.
#[derive(Clone, Copy, Debug, PartialEq, Eq, Structural)]
pub enum EncodeError {
    /// The snapshot holds more than [`MAX_RECORDS`] records.
    TooManyRecords,
}

/// The flags byte of an input.
pub open spec fn flags_byte(m: InputMessage) -> u8 {
    ((if m.throttle {
        1int
    } else {
        0int
    }) + (if m.turn_left {
        2int
    } else {
        0int
    }) + (if m.turn_right {
        4int
    } else {
        0int
    })) as u8
}

/// The datagram of an input.
pub open spec fn input_bytes(m: InputMessage) -> Seq<u8> {
    seq![INPUT_TAG, flags_byte(m)]
}

/// The input that a datagram holds, or why it holds none.
pub open spec fn parse_input(b: Seq<u8>) -> Result<InputMessage, DecodeError> {
    if b.len() < 1 {
        Err(DecodeError::Truncated)
    } else if b[0] != INPUT_TAG {
        Err(DecodeError::UnknownTag)
    } else if b.len() < INPUT_LEN {
        Err(DecodeError::Truncated)
    } else if b.len() > INPUT_LEN {
        Err(DecodeError::TrailingBytes)
    } else if b[1] >= 8 {
        Err(DecodeError::BadFlags)
    } else {
        Ok(
            InputMessage {
                throttle: b[1] % 2 == 1,
                turn_left: (b[1] / 2) % 2 == 1,
                turn_right: b[1] / 4 == 1,
            },
        )
    }
}

/// The 28 bytes of one craft record.
pub open spec fn record_bytes(r: CraftRecord) -> Seq<u8> {
    spec_u32_to_le_bytes(r.id) + spec_u32_to_le_bytes(r.x) + spec_u32_to_le_bytes(r.y)
        + spec_u32_to_le_bytes(r.dx) + spec_u32_to_le_bytes(r.dy) + spec_u32_to_le_bytes(r.angle)
        + spec_u32_to_le_bytes(r.angular_rate)
}

/// The bytes of a list of records: one record after the other.
pub open spec fn records_bytes(rs: Seq<CraftRecord>) -> Seq<u8>
    decreases rs.len(),
{
    if rs.len() == 0 {
        Seq::empty()
    } else {
        records_bytes(rs.drop_last()) + record_bytes(rs.last())
    }
}

/// The datagram of a snapshot of at most [`MAX_RECORDS`] records.
pub open spec fn snapshot_bytes(s: SnapshotView) -> Seq<u8> {
    seq![SNAPSHOT_TAG] + spec_u64_to_le_bytes(s.timestamp) + spec_u16_to_le_bytes(
        s.ships.len() as u16,
    ) + records_bytes(s.ships)
}

/// The four bytes of `b` from `at` on, read as an integer.
pub open spec fn word_at(b: Seq<u8>, at: int) -> u32 {
    spec_u32_from_le_bytes(b.subrange(at, at + 4))
}

/// The record that the 28 bytes of `b` from `at` on hold.
pub open spec fn record_at(b: Seq<u8>, at: int) -> CraftRecord {
    CraftRecord {
        id: word_at(b, at),
        x: word_at(b, at + 4),
        y: word_at(b, at + 8),
        dx: word_at(b, at + 12),
        dy: word_at(b, at + 16),
        angle: word_at(b, at + 20),
        angular_rate: word_at(b, at + 24),
    }
}

/// The number of records that the header of a snapshot datagram announces.
pub open spec fn announced_records(b: Seq<u8>) -> nat {
    spec_u16_from_le_bytes(b.subrange(9, 11)) as nat
}

/// The snapshot that a datagram holds, or why it holds none.
pub open spec fn parse_snapshot(b: Seq<u8>) -> Result<SnapshotView, DecodeError> {
    if b.len() < 1 {
        Err(DecodeError::Truncated)
    } else if b[0] != SNAPSHOT_TAG {
        Err(DecodeError::UnknownTag)
    } else if b.len() < SNAPSHOT_HEADER_LEN {
        Err(DecodeError::Truncated)
    } else if announced_records(b) > MAX_RECORDS {
        Err(DecodeError::Oversized)
    } else if b.len() < SNAPSHOT_HEADER_LEN + RECORD_LEN * announced_records(b) {
        Err(DecodeError::Truncated)
    } else if b.len() > SNAPSHOT_HEADER_LEN + RECORD_LEN * announced_records(b) {
        Err(DecodeError::TrailingBytes)
    } else {
        Ok(
            SnapshotView {
                timestamp: spec_u64_from_le_bytes(b.subrange(1, 9)),
                ships: Seq::new(
                    announced_records(b),
                    |i: int| record_at(b, SNAPSHOT_HEADER_LEN + RECORD_LEN * i),
                ),
            },
        )
    }
}

/// Decoding the datagram of an input gives the input back.
pub proof fn lemma_input_round_trip(m: InputMessage)
    ensures
        parse_input(input_bytes(m)) == Ok::<InputMessage, DecodeError>(m),
{
}

/// A datagram that decodes to an input is the datagram of that input.
pub proof fn lemma_input_canonical(b: Seq<u8>)
    requires
        parse_input(b) is Ok,
    ensures
        input_bytes(parse_input(b)->Ok_0) == b,
{
    assert(input_bytes(parse_input(b)->Ok_0) =~= b);
}

/// A record's bytes are 28, and they hold the record.
pub proof fn lemma_record_round_trip(r: CraftRecord)
    ensures
        record_bytes(r).len() == RECORD_LEN,
        record_at(record_bytes(r), 0) == r,
{
    lemma_auto_spec_u32_to_from_le_bytes();
    let rb = record_bytes(r);
    assert(rb.subrange(0, 4) =~= spec_u32_to_le_bytes(r.id));
    assert(rb.subrange(4, 8) =~= spec_u32_to_le_bytes(r.x));
    assert(rb.subrange(8, 12) =~= spec_u32_to_le_bytes(r.y));
    assert(rb.subrange(12, 16) =~= spec_u32_to_le_bytes(r.dx));
    assert(rb.subrange(16, 20) =~= spec_u32_to_le_bytes(r.dy));
    assert(rb.subrange(20, 24) =~= spec_u32_to_le_bytes(r.angle));
    assert(rb.subrange(24, 28) =~= spec_u32_to_le_bytes(r.angular_rate));
}

/// The bytes of the record read at `at` are the bytes found there.
pub proof fn lemma_record_canonical(b: Seq<u8>, at: int)
    requires
        0 <= at,
        at + RECORD_LEN <= b.len(),
    ensures
        record_bytes(record_at(b, at)) == b.subrange(at, at + RECORD_LEN),
{
    lemma_auto_spec_u32_to_from_le_bytes();
    assert(spec_u32_to_le_bytes(word_at(b, at)) == b.subrange(at, at + 4));
    assert(spec_u32_to_le_bytes(word_at(b, at + 4)) == b.subrange(at + 4, at + 8));
    assert(spec_u32_to_le_bytes(word_at(b, at + 8)) == b.subrange(at + 8, at + 12));
    assert(spec_u32_to_le_bytes(word_at(b, at + 12)) == b.subrange(at + 12, at + 16));
    assert(spec_u32_to_le_bytes(word_at(b, at + 16)) == b.subrange(at + 16, at + 20));
    assert(spec_u32_to_le_bytes(word_at(b, at + 20)) == b.subrange(at + 20, at + 24));
    assert(spec_u32_to_le_bytes(word_at(b, at + 24)) == b.subrange(at + 24, at + 28));
    assert(record_bytes(record_at(b, at)) =~= b.subrange(at, at + RECORD_LEN));
}

/// Reading a record depends only on the 28 bytes read.
proof fn lemma_record_at_window(b: Seq<u8>, at: int, window: Seq<u8>)
    requires
        0 <= at,
        at + RECORD_LEN <= b.len(),
        b.subrange(at, at + RECORD_LEN) == window,
    ensures
        record_at(b, at) == record_at(window, 0),
{
    assert(b.subrange(at, at + 4) =~= window.subrange(0, 4));
    assert(b.subrange(at + 4, at + 8) =~= window.subrange(4, 8));
    assert(b.subrange(at + 8, at + 12) =~= window.subrange(8, 12));
    assert(b.subrange(at + 12, at + 16) =~= window.subrange(12, 16));
    assert(b.subrange(at + 16, at + 20) =~= window.subrange(16, 20));
    assert(b.subrange(at + 20, at + 24) =~= window.subrange(20, 24));
    assert(b.subrange(at + 24, at + 28) =~= window.subrange(24, 28));
}

/// A list of records takes 28 bytes for each.
pub proof fn lemma_records_len(rs: Seq<CraftRecord>)
    ensures
        records_bytes(rs).len() == RECORD_LEN * rs.len(),
    decreases rs.len(),
{
    if rs.len() > 0 {
        lemma_records_len(rs.drop_last());
        lemma_record_round_trip(rs.last());
    }
}

/// In the bytes of a list of records, record `i` stands at byte `28 * i`.
pub proof fn lemma_records_window(rs: Seq<CraftRecord>, i: int)
    requires
        0 <= i < rs.len(),
    ensures
        RECORD_LEN * i + RECORD_LEN <= records_bytes(rs).len(),
        records_bytes(rs).subrange(RECORD_LEN * i, RECORD_LEN * i + RECORD_LEN) == record_bytes(
            rs[i],
        ),
    decreases rs.len(),
{
    let front = rs.drop_last();
    lemma_records_len(rs);
    lemma_records_len(front);
    lemma_record_round_trip(rs.last());
    if i == rs.len() - 1 {
        assert(records_bytes(rs).subrange(RECORD_LEN * i, RECORD_LEN * i + RECORD_LEN)
            =~= record_bytes(rs[i]));
    } else {
        lemma_records_window(front, i);
        assert(records_bytes(rs).subrange(RECORD_LEN * i, RECORD_LEN * i + RECORD_LEN)
            =~= records_bytes(front).subrange(RECORD_LEN * i, RECORD_LEN * i + RECORD_LEN));
    }
}

/// The records read one after the other from `at` on encode to the bytes
/// that were read.
proof fn lemma_records_canonical(b: Seq<u8>, at: int, n: nat)
    requires
        0 <= at,
        at + RECORD_LEN * n <= b.len(),
    ensures
        records_bytes(Seq::new(n, |i: int| record_at(b, at + RECORD_LEN * i))) == b.subrange(
            at,
            at + RECORD_LEN * n,
        ),
    decreases n,
{
    let rs = Seq::new(n, |i: int| record_at(b, at + RECORD_LEN * i));
    if n == 0 {
        assert(records_bytes(rs) =~= b.subrange(at, at + RECORD_LEN * n));
    } else {
        let m = (n - 1) as nat;
        let front = Seq::new(m, |i: int| record_at(b, at + RECORD_LEN * i));
        assert(rs.drop_last() =~= front);
        lemma_records_canonical(b, at, m);
        lemma_record_canonical(b, at + RECORD_LEN * m);
        assert(records_bytes(rs) =~= b.subrange(at, at + RECORD_LEN * n));
    }
}

/// Decoding the datagram of a snapshot gives the snapshot back: the
/// timestamp and every field of every record, bit for bit.
pub proof fn lemma_snapshot_round_trip(s: SnapshotView)
    requires
        s.ships.len() <= MAX_RECORDS,
    ensures
        snapshot_bytes(s).len() == SNAPSHOT_HEADER_LEN + RECORD_LEN * s.ships.len(),
        snapshot_bytes(s).len() <= MAX_DATAGRAM_LEN,
        parse_snapshot(snapshot_bytes(s)) == Ok::<SnapshotView, DecodeError>(s),
{
    lemma_auto_spec_u16_to_from_le_bytes();
    lemma_auto_spec_u64_to_from_le_bytes();
    lemma_records_len(s.ships);
    let b = snapshot_bytes(s);
    let n = s.ships.len();
    assert(b.subrange(1, 9) =~= spec_u64_to_le_bytes(s.timestamp));
    assert(b.subrange(9, 11) =~= spec_u16_to_le_bytes(n as u16));
    assert(announced_records(b) == n);
    let parsed = Seq::new(n, |i: int| record_at(b, SNAPSHOT_HEADER_LEN + RECORD_LEN * i));
    assert forall|i: int| 0 <= i < n implies parsed[i] == s.ships[i] by {
        let at = SNAPSHOT_HEADER_LEN + RECORD_LEN * i;
        lemma_records_window(s.ships, i);
        lemma_record_round_trip(s.ships[i]);
        assert(b.subrange(at, at + RECORD_LEN) =~= records_bytes(s.ships).subrange(
            RECORD_LEN * i,
            RECORD_LEN * i + RECORD_LEN,
        ));
        lemma_record_at_window(b, at, record_bytes(s.ships[i]));
    }
    assert(parsed =~= s.ships);
}

/// A datagram that decodes to a snapshot is the datagram of that snapshot.
pub proof fn lemma_snapshot_canonical(b: Seq<u8>)
    requires
        parse_snapshot(b) is Ok,
    ensures
        parse_snapshot(b)->Ok_0.ships.len() <= MAX_RECORDS,
        snapshot_bytes(parse_snapshot(b)->Ok_0) == b,
{
    lemma_auto_spec_u16_to_from_le_bytes();
    lemma_auto_spec_u64_to_from_le_bytes();
    let s = parse_snapshot(b)->Ok_0;
    let n = announced_records(b);
    lemma_records_canonical(b, SNAPSHOT_HEADER_LEN as int, n);
    assert(s.ships.len() as u16 == spec_u16_from_le_bytes(b.subrange(9, 11)));
    assert(spec_u64_to_le_bytes(s.timestamp) == b.subrange(1, 9));
    assert(spec_u16_to_le_bytes(s.ships.len() as u16) == b.subrange(9, 11));
    assert(snapshot_bytes(s) =~= b);
}

/// Two snapshots with the same datagram are the same snapshot.
pub proof fn lemma_snapshot_bytes_injective(s: SnapshotView, t: SnapshotView)
    requires
        s.ships.len() <= MAX_RECORDS,
        t.ships.len() <= MAX_RECORDS,
        snapshot_bytes(s) == snapshot_bytes(t),
    ensures
        s == t,
{
    lemma_snapshot_round_trip(s);
    lemma_snapshot_round_trip(t);
}

/// Encodes an input.
pub fn encode_input(m: &InputMessage) -> (out: Vec<u8>)
    ensures
        out@ == input_bytes(*m),
        parse_input(out@) == Ok::<InputMessage, DecodeError>(*m),
{
    let mut flags: u8 = 0;
    if m.throttle {
        flags = flags + 1;
    }
    if m.turn_left {
        flags = flags + 2;
    }
    if m.turn_right {
        flags = flags + 4;
    }
    let mut out: Vec<u8> = Vec::new();
    out.push(INPUT_TAG);
    out.push(flags);
    assert(out@ =~= input_bytes(*m));
    out
}

/// Decodes an input datagram. Whatever the bytes are, the call returns.
pub fn decode_input(b: &[u8]) -> (r: Result<InputMessage, DecodeError>)
    ensures
        r == parse_input(b@),
        r is Ok ==> b@ == input_bytes(r->Ok_0),
{
    if b.len() < 1 {
        return Err(DecodeError::Truncated);
    }
    if b[0] != INPUT_TAG {
        return Err(DecodeError::UnknownTag);
    }
    if b.len() < INPUT_LEN {
        return Err(DecodeError::Truncated);
    }
    if b.len() > INPUT_LEN {
        return Err(DecodeError::TrailingBytes);
    }
    let flags: u8 = b[1];
    if flags >= 8 {
        return Err(DecodeError::BadFlags);
    }
    proof {
        lemma_input_canonical(b@);
    }
    Ok(
        InputMessage {
            throttle: flags % 2 == 1,
            turn_left: (flags / 2) % 2 == 1,
            turn_right: flags / 4 == 1,
        },
    )
}

/// Appends the 28 bytes of a record.
fn push_record(out: &mut Vec<u8>, r: &CraftRecord)
    ensures
        final(out)@ == old(out)@ + record_bytes(*r),
{
    let mut id = u32_to_le_bytes(r.id);
    let mut x = u32_to_le_bytes(r.x);
    let mut y = u32_to_le_bytes(r.y);
    let mut dx = u32_to_le_bytes(r.dx);
    let mut dy = u32_to_le_bytes(r.dy);
    let mut angle = u32_to_le_bytes(r.angle);
    let mut angular_rate = u32_to_le_bytes(r.angular_rate);
    out.append(&mut id);
    out.append(&mut x);
    out.append(&mut y);
    out.append(&mut dx);
    out.append(&mut dy);
    out.append(&mut angle);
    out.append(&mut angular_rate);
    assert(out@ =~= old(out)@ + record_bytes(*r));
}

/// Reads the record that stands at `at`.
fn read_record(b: &[u8], at: usize) -> (r: CraftRecord)
    requires
        at + RECORD_LEN <= b.len(),
    ensures
        r == record_at(b@, at as int),
{
    CraftRecord {
        id: u32_from_le_bytes(slice_subrange(b, at, at + 4)),
        x: u32_from_le_bytes(slice_subrange(b, at + 4, at + 8)),
        y: u32_from_le_bytes(slice_subrange(b, at + 8, at + 12)),
        dx: u32_from_le_bytes(slice_subrange(b, at + 12, at + 16)),
        dy: u32_from_le_bytes(slice_subrange(b, at + 16, at + 20)),
        angle: u32_from_le_bytes(slice_subrange(b, at + 20, at + 24)),
        angular_rate: u32_from_le_bytes(slice_subrange(b, at + 24, at + 28)),
    }
}

/// Encodes a snapshot, unless it holds more records than one datagram takes.
pub fn encode_snapshot(s: &Snapshot) -> (r: Result<Vec<u8>, EncodeError>)
    ensures
        s.ships.len() > MAX_RECORDS ==> r == Err::<Vec<u8>, EncodeError>(
            EncodeError::TooManyRecords,
        ),
        s.ships.len() <= MAX_RECORDS ==> r is Ok && r->Ok_0@ == snapshot_bytes(s@)
            && r->Ok_0@.len() <= MAX_DATAGRAM_LEN && parse_snapshot(r->Ok_0@) == Ok::<
            SnapshotView,
            DecodeError,
        >(s@),
{
    let n: usize = s.ships.len();
    if n > MAX_RECORDS {
        return Err(EncodeError::TooManyRecords);
    }
    let mut out: Vec<u8> = Vec::new();
    out.push(SNAPSHOT_TAG);
    let mut timestamp = u64_to_le_bytes(s.timestamp);
    let mut count = u16_to_le_bytes(n as u16);
    out.append(&mut timestamp);
    out.append(&mut count);
    let ghost header = out@;
    assert(header =~= seq![SNAPSHOT_TAG] + spec_u64_to_le_bytes(s.timestamp)
        + spec_u16_to_le_bytes(n as u16));
    let mut i: usize = 0;
    assert(s.ships@.take(0) =~= Seq::<CraftRecord>::empty());
    assert(out@ =~= header + records_bytes(s.ships@.take(0)));
    while i < n
        invariant
            i <= n,
            n == s.ships.len(),
            out@ == header + records_bytes(s.ships@.take(i as int)),
        decreases n - i,
    {
        push_record(&mut out, &s.ships[i]);
        proof {
            let next = s.ships@.take(i + 1);
            assert(next.drop_last() =~= s.ships@.take(i as int));
            assert(next.last() == s.ships@[i as int]);
            assert(out@ =~= header + records_bytes(next));
        }
        i = i + 1;
    }
    proof {
        assert(s.ships@.take(n as int) =~= s.ships@);
        lemma_snapshot_round_trip(s@);
    }
    Ok(out)
}

/// Decodes a snapshot datagram. Whatever the bytes are, the call returns.
pub fn decode_snapshot(b: &[u8]) -> (r: Result<Snapshot, DecodeError>)
    ensures
        match r {
            Ok(s) => parse_snapshot(b@) == Ok::<SnapshotView, DecodeError>(s@) && b@
                == snapshot_bytes(s@),
            Err(e) => parse_snapshot(b@) == Err::<SnapshotView, DecodeError>(e),
        },
{
    if b.len() < 1 {
        return Err(DecodeError::Truncated);
    }
    if b[0] != SNAPSHOT_TAG {
        return Err(DecodeError::UnknownTag);
    }
    if b.len() < SNAPSHOT_HEADER_LEN {
        return Err(DecodeError::Truncated);
    }
    let timestamp: u64 = u64_from_le_bytes(slice_subrange(b, 1, 9));
    let announced: u16 = u16_from_le_bytes(slice_subrange(b, 9, 11));
    let n: usize = announced as usize;
    if n > MAX_RECORDS {
        return Err(DecodeError::Oversized);
    }
    let total: usize = SNAPSHOT_HEADER_LEN + RECORD_LEN * n;
    if b.len() < total {
        return Err(DecodeError::Truncated);
    }
    if b.len() > total {
        return Err(DecodeError::TrailingBytes);
    }
    let mut ships: Vec<CraftRecord> = Vec::new();
    let mut i: usize = 0;
    while i < n
        invariant
            i <= n,
            n <= MAX_RECORDS,
            b@.len() == SNAPSHOT_HEADER_LEN + RECORD_LEN * n,
            ships@.len() == i,
            forall|k: int|
                0 <= k < i ==> ships@[k] == record_at(b@, SNAPSHOT_HEADER_LEN + RECORD_LEN * k),
        decreases n - i,
    {
        let record = read_record(b, SNAPSHOT_HEADER_LEN + RECORD_LEN * i);
        ships.push(record);
        i = i + 1;
    }
    let snapshot = Snapshot { timestamp, ships };
    proof {
        assert(snapshot@.ships =~= Seq::new(
            announced_records(b@),
            |k: int| record_at(b@, SNAPSHOT_HEADER_LEN + RECORD_LEN * k),
        ));
        lemma_snapshot_canonical(b@);
    }
    Ok(snapshot)
}

} // verus!
