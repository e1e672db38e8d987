use netships::clock::FixedClock;
use netships::common::{Motion, Ship, Vec2};
use netships::server::{Broadcast, Frame, Reception, Server};
use netships::settings::Settings;
use netships::wire::{
    decode_snapshot, encode_input, encode_snapshot, CraftRecord, DecodeError, InputMessage,
    Snapshot,
};

const MS: u64 = 1_000_000;

fn settings() -> Settings {
    Settings {
        rotation_speed: 0.05f32.to_bits(),
        drag: 0.01f32.to_bits(),
        acceleration: 0.002f32.to_bits(),
        print_fps: false,
        fullscreen: false,
        message_interval_ms: 50,
        client_timeout_ms: 1000,
    }
}

fn held(throttle: bool, turn_left: bool, turn_right: bool) -> Vec<u8> {
    encode_input(&InputMessage { throttle, turn_left, turn_right })
}

fn sorted(mut v: Vec<u64>) -> Vec<u64> {
    v.sort();
    v
}

fn motion(x: f32) -> Motion {
    Motion {
        rotation: 0.5f32.to_bits(),
        position: Vec2 { x: x.to_bits(), y: 0.0f32.to_bits() },
        velocity: Vec2 { x: 1.0f32.to_bits(), y: 0.0f32.to_bits() },
    }
}

#[test]
fn new_server_has_no_sessions() {
    let server = Server::new(123, &settings());
    assert_eq!(server.sessions.len(), 0);
    assert_eq!(server.clock, FixedClock { previous: 123, accumulator: 0 });
    assert_eq!(server.prev_message_sent, 123);
    assert_eq!(server.message_interval_ms, 50);
    assert_eq!(server.client_timeout_ms, 1000);
}

#[test]
fn input_from_an_unseen_endpoint_creates_its_session() {
    let mut server = Server::new(0, &settings());
    let r = server.receive(7 * MS, 99, &held(true, false, false));
    assert_eq!(r, Reception::Created);
    assert_eq!(server.sessions.len(), 1);
    let client = server.sessions.get(99).unwrap();
    assert_eq!(client.last_message, 7 * MS);
    assert_eq!(client.pilot.ship, Some(Ship::new()));
}

#[test]
fn input_from_a_known_endpoint_updates_its_session() {
    let mut server = Server::new(0, &settings());
    server.receive(7 * MS, 99, &held(false, false, false));
    let r = server.receive(8 * MS, 99, &held(true, true, false));
    assert_eq!(r, Reception::Updated);
    assert_eq!(server.sessions.len(), 1);
    let client = server.sessions.get(99).unwrap();
    assert_eq!(client.last_message, 8 * MS);
    assert!(client.pilot.up_is_pressed && client.pilot.left_is_pressed);
    assert!(!client.pilot.right_is_pressed);
}

#[test]
fn malformed_datagrams_are_dropped_and_change_nothing() {
    let mut server = Server::new(0, &settings());
    server.receive(MS, 1, &held(true, false, false));
    server.receive(2 * MS, 1, &held(true, false, true));
    let before = server.sessions.get(1);
    let snapshot = encode_snapshot(&Snapshot { timestamp: 1, ships: vec![] }).unwrap();
    let cases: Vec<(Vec<u8>, DecodeError)> = vec![
        (vec![], DecodeError::Truncated),
        (vec![1], DecodeError::Truncated),
        (vec![1, 8], DecodeError::BadFlags),
        (vec![1, 0, 0], DecodeError::TrailingBytes),
        (vec![0xde, 0xad, 0xbe, 0xef], DecodeError::UnknownTag),
        (snapshot, DecodeError::UnknownTag),
    ];
    for (bytes, why) in cases {
        for from in [1u64, 2] {
            assert_eq!(server.receive(3 * MS, from, &bytes), Reception::Dropped(why));
            assert_eq!(server.sessions.len(), 1);
            assert_eq!(server.sessions.get(1), before);
            assert_eq!(server.sessions.get(2), None);
        }
    }
    assert_eq!(server.prev_message_sent, 0);
    assert_eq!(server.clock, FixedClock::new(0));
}

#[test]
fn frame_accounts_for_the_clock_and_the_datagram() {
    let mut server = Server::new(0, &settings());
    let bytes = held(false, true, false);
    let frame = server.frame(3 * MS + 5, Some((4, &bytes[..])));
    assert_eq!(frame, Frame { now: 3 * MS + 5, reception: Some(Reception::Created), ticks: 3 });
    assert_eq!(server.clock, FixedClock { previous: 3 * MS + 5, accumulator: 5 });
    assert_eq!(server.sessions.get(4).unwrap().last_message, 3 * MS + 5);
    let frame = server.frame(3 * MS + 10, None);
    assert_eq!(frame, Frame { now: 3 * MS + 10, reception: None, ticks: 0 });
    assert_eq!(server.sessions.len(), 1);
    let frame = server.frame(4 * MS, Some((4, &[9u8, 9, 9][..])));
    assert_eq!(frame.reception, Some(Reception::Dropped(DecodeError::UnknownTag)));
    assert_eq!(frame.ticks, 1);
}

#[test]
fn frame_now_reads_a_clock_that_does_not_stand_at_the_start() {
    let mut server = Server::new(0, &settings());
    let frame = server.frame_now(None);
    assert!(frame.now > 1_500_000_000 * 1_000_000_000);
    assert_eq!(frame.ticks, frame.now / 1_000_000);
    assert_eq!(server.clock.previous, frame.now);
    assert_eq!(server.clock.accumulator, frame.now % 1_000_000);
    assert_eq!(frame.reception, None);
}

#[test]
fn step_moves_the_ship_of_a_session() {
    let mut server = Server::new(0, &settings());
    server.receive(MS, 1, &held(true, false, false));
    assert!(server.step(1, motion(2.0)));
    assert!(!server.step(2, motion(2.0)));
    let ship = server.sessions.get(1).unwrap().pilot.ship.unwrap();
    assert_eq!(f32::from_bits(ship.position.x), 2.0);
    assert_eq!(ship.prev_position, Ship::new().position);
}

#[test]
fn no_broadcast_before_the_interval_has_passed() {
    let mut server = Server::new(10, &settings());
    server.receive(MS, 1, &held(true, false, false));
    assert_eq!(server.begin_broadcast(10 + 50 * MS - 1), None);
    assert_eq!(server.prev_message_sent, 10);
    assert_eq!(server.sessions.len(), 1);
}

#[test]
fn broadcast_is_due_from_the_interval_on_and_then_one_interval_later() {
    let mut server = Server::new(10, &settings());
    let plan = server.begin_broadcast(10 + 50 * MS).unwrap();
    assert_eq!(
        plan,
        Broadcast { timestamp: 10 + 50 * MS, evicted: vec![], recipients: vec![], ships: vec![] }
    );
    assert_eq!(server.prev_message_sent, 10 + 50 * MS);
    assert_eq!(server.begin_broadcast(10 + 100 * MS - 1), None);
    assert!(server.begin_broadcast(10 + 100 * MS).is_some());
}

#[test]
fn broadcast_names_every_session_and_its_ship() {
    let mut server = Server::new(0, &settings());
    for e in [1u64, 2, 3] {
        server.receive(e * MS, e, &held(false, false, false));
        server.step(e, motion(e as f32));
    }
    let plan = server.begin_broadcast(60 * MS).unwrap();
    assert_eq!(plan.timestamp, 60 * MS);
    assert!(plan.evicted.is_empty());
    assert_eq!(sorted(plan.recipients.clone()), vec![1, 2, 3]);
    assert_eq!(plan.ships.len(), 3);
    for (e, ship) in plan.recipients.iter().zip(plan.ships.iter()) {
        assert_eq!(Some(*ship), server.sessions.get(*e).unwrap().pilot.ship);
        assert_eq!(f32::from_bits(ship.position.x), *e as f32);
    }
}

#[test]
fn timed_out_session_is_in_neither_the_table_nor_the_snapshot() {
    let mut server = Server::new(0, &settings());
    server.receive(0, 1, &held(false, false, false));
    server.step(1, motion(1.0));
    server.receive(1500 * MS, 2, &held(false, false, false));
    server.step(2, motion(2.0));
    let plan = server.begin_broadcast(2000 * MS).unwrap();
    assert_eq!(plan.evicted, vec![1]);
    assert_eq!(plan.recipients, vec![2]);
    assert_eq!(server.sessions.len(), 1);
    assert_eq!(server.sessions.get(1), None);

    let records: Vec<CraftRecord> = plan
        .ships
        .iter()
        .map(|s| {
            let dx = f32::from_bits(s.position.x) - f32::from_bits(s.prev_position.x);
            let dy = f32::from_bits(s.position.y) - f32::from_bits(s.prev_position.y);
            let turn = f32::from_bits(s.rotation) - f32::from_bits(s.prev_rotation);
            CraftRecord::of(s, Vec2 { x: dx.to_bits(), y: dy.to_bits() }, turn.to_bits())
        })
        .collect();
    let bytes = encode_snapshot(&Snapshot { timestamp: plan.timestamp, ships: records }).unwrap();
    let seen = decode_snapshot(&bytes).unwrap();
    assert_eq!(seen.timestamp, 2000 * MS);
    assert_eq!(seen.ships.len(), 1);
    assert_eq!(f32::from_bits(seen.ships[0].x), 2.0);
    assert_eq!(f32::from_bits(seen.ships[0].dx), 2.0 - 0.3);
    assert_eq!(f32::from_bits(seen.ships[0].angular_rate), 0.5);
}

#[test]
fn eviction_waits_for_the_broadcast() {
    let mut server = Server::new(0, &settings());
    server.receive(0, 1, &held(false, false, false));
    assert!(server.begin_broadcast(50 * MS).is_some());
    // Silent for far longer than the timeout, but no snapshot is due.
    assert_eq!(server.begin_broadcast(50 * MS + 49 * MS), None);
    server.frame(50 * MS + 49 * MS, None);
    assert_eq!(server.sessions.len(), 1);
    let mut late = Server::new(0, &settings());
    late.receive(0, 1, &held(false, false, false));
    late.frame(5000 * MS, None);
    assert_eq!(late.sessions.len(), 1);
    let plan = late.begin_broadcast(5000 * MS).unwrap();
    assert_eq!(plan.evicted, vec![1]);
    assert_eq!(late.sessions.len(), 0);
}

#[test]
fn a_session_heard_in_time_is_kept() {
    let mut server = Server::new(0, &settings());
    server.receive(0, 1, &held(false, false, false));
    server.receive(900 * MS, 1, &held(true, false, false));
    let plan = server.begin_broadcast(1900 * MS).unwrap();
    assert!(plan.evicted.is_empty());
    assert_eq!(plan.recipients, vec![1]);
    let plan = server.begin_broadcast(1901 * MS + 50 * MS).unwrap();
    assert_eq!(plan.evicted, vec![1]);
    assert!(plan.recipients.is_empty());
    assert!(plan.ships.is_empty());
}

#[test]
fn ticks_do_not_depend_on_how_often_the_loop_runs() {
    let mut often = Server::new(0, &settings());
    let mut seldom = Server::new(0, &settings());
    let mut ticks_often: u64 = 0;
    let mut now: u64 = 0;
    for gap in [1u64, 999_999, 1, 2_345_678, 654_321, 7_000_000] {
        now += gap;
        ticks_often += often.frame(now, None).ticks;
    }
    let ticks_seldom = seldom.frame(now, None).ticks;
    assert_eq!(now, 11 * MS);
    assert_eq!(ticks_often, 11);
    assert_eq!(ticks_seldom, 11);
    assert_eq!(often.clock, seldom.clock);
}

#[test]
fn started_server_has_no_sessions_and_a_clock_at_the_wall_clock() {
    let server = Server::start(&settings());
    assert_eq!(server.sessions.len(), 0);
    assert!(server.prev_message_sent > 1_500_000_000 * 1_000_000_000);
    assert_eq!(
        server.clock,
        FixedClock { previous: server.prev_message_sent, accumulator: 0 }
    );
    assert_eq!(server.message_interval_ms, 50);
    assert_eq!(server.client_timeout_ms, 1000);
}
