use netships::common::{Integrator, Motion, Pilot, Ship, Vec2};
use netships::sessions::{Client, SessionTable};
use netships::wire::InputMessage;

const MS: u64 = 1_000_000;

fn input(throttle: bool, turn_left: bool, turn_right: bool) -> InputMessage {
    InputMessage { throttle, turn_left, turn_right }
}

fn sorted(mut v: Vec<u64>) -> Vec<u64> {
    v.sort();
    v
}

fn motion(x: f32) -> Motion {
    Motion {
        rotation: x.to_bits(),
        position: Vec2 { x: x.to_bits(), y: (2.0 * x).to_bits() },
        velocity: Vec2 { x: 1.0f32.to_bits(), y: 0.0f32.to_bits() },
    }
}

#[test]
fn new_table_is_empty() {
    let table = SessionTable::new();
    assert_eq!(table.len(), 0);
    assert_eq!(table.get(1), None);
    assert!(table.endpoints().is_empty());
}

#[test]
fn first_input_creates_one_session_with_a_spawned_ship() {
    let mut table = SessionTable::new();
    assert!(table.hear(42, input(true, true, false), 1000));
    assert_eq!(table.len(), 1);
    let mut pilot = Pilot::new(Integrator::ForwardEuler);
    pilot.spawn().unwrap();
    assert_eq!(table.get(42), Some(Client { last_message: 1000, pilot }));
    let ship = table.get(42).unwrap().pilot.ship.unwrap();
    assert_eq!(f32::from_bits(ship.position.x), 0.3);
    assert_eq!(f32::from_bits(ship.position.y), 0.1);
    assert_eq!(f32::from_bits(ship.velocity.x), 0.0);
    assert_eq!(f32::from_bits(ship.velocity.y), 0.0);
}

#[test]
fn first_input_leaves_the_flags_clear() {
    let mut table = SessionTable::new();
    table.hear(42, input(true, true, true), 1000);
    let pilot = table.get(42).unwrap().pilot;
    assert!(!pilot.up_is_pressed && !pilot.left_is_pressed && !pilot.right_is_pressed);
}

#[test]
fn later_input_updates_flags_and_time_only() {
    let mut table = SessionTable::new();
    table.hear(42, input(false, false, false), 1000);
    table.step(42, motion(3.0));
    let ship = table.get(42).unwrap().pilot.ship;
    assert!(!table.hear(42, input(true, false, true), 2000));
    assert_eq!(table.len(), 1);
    let client = table.get(42).unwrap();
    assert_eq!(client.last_message, 2000);
    assert!(client.pilot.up_is_pressed);
    assert!(!client.pilot.left_is_pressed);
    assert!(client.pilot.right_is_pressed);
    assert_eq!(client.pilot.ship, ship);
    assert_eq!(client.pilot.integrator, Integrator::ForwardEuler);
}

#[test]
fn input_of_one_endpoint_leaves_the_others_alone() {
    let mut table = SessionTable::new();
    table.hear(1, input(false, false, false), 10);
    table.hear(2, input(false, false, false), 20);
    table.hear(1, input(true, false, false), 30);
    let other = table.get(2).unwrap();
    table.hear(1, input(false, true, false), 40);
    table.hear(3, input(false, true, false), 50);
    assert_eq!(table.get(2), Some(other));
    assert_eq!(table.len(), 3);
    assert_eq!(sorted(table.endpoints()), vec![1, 2, 3]);
}

#[test]
fn step_moves_the_ship_of_one_session() {
    let mut table = SessionTable::new();
    table.hear(1, input(false, false, false), 10);
    table.hear(2, input(false, false, false), 20);
    let untouched = table.get(2).unwrap();
    assert!(table.step(1, motion(4.0)));
    let client = table.get(1).unwrap();
    let mut expected = Ship::new();
    expected.step(motion(4.0));
    assert_eq!(client.pilot.ship, Some(expected));
    assert_eq!(client.last_message, 10);
    assert_eq!(table.get(2), Some(untouched));
}

#[test]
fn step_of_an_unknown_endpoint_does_nothing() {
    let mut table = SessionTable::new();
    table.hear(1, input(false, false, false), 10);
    let before = table.get(1);
    assert!(!table.step(9, motion(4.0)));
    assert_eq!(table.len(), 1);
    assert_eq!(table.get(1), before);
    assert_eq!(table.get(9), None);
}

#[test]
fn timed_out_is_silence_beyond_the_timeout() {
    let client = Client { last_message: 5 * MS, pilot: Pilot::new(Integrator::Verlet) };
    assert!(!client.is_timed_out(5 * MS, 0));
    assert!(!client.is_timed_out(5 * MS + 1000 * MS, 1000));
    assert!(!client.is_timed_out(5 * MS + 1001 * MS - 1, 1000));
    assert!(client.is_timed_out(5 * MS + 1001 * MS, 1000));
    assert!(client.is_timed_out(6 * MS, 0));
    assert!(!client.is_timed_out(0, 0));
}

#[test]
fn evict_removes_the_silent_sessions_only() {
    let mut table = SessionTable::new();
    table.hear(1, input(false, false, false), 0);
    table.hear(2, input(false, false, false), 4000 * MS);
    table.hear(3, input(false, false, false), 100 * MS);
    table.hear(4, input(false, false, false), 4999 * MS);
    let kept2 = table.get(2);
    let kept4 = table.get(4);
    let gone = table.evict(5000 * MS, 1000);
    assert_eq!(sorted(gone), vec![1, 3]);
    assert_eq!(table.len(), 2);
    assert_eq!(sorted(table.endpoints()), vec![2, 4]);
    assert_eq!(table.get(1), None);
    assert_eq!(table.get(3), None);
    assert_eq!(table.get(2), kept2);
    assert_eq!(table.get(4), kept4);
}

#[test]
fn evict_keeps_a_session_whose_silence_equals_the_timeout() {
    let mut table = SessionTable::new();
    table.hear(1, input(false, false, false), 0);
    assert!(table.evict(1000 * MS + MS - 1, 1000).is_empty());
    assert_eq!(table.len(), 1);
    assert_eq!(table.evict(1001 * MS, 1000), vec![1]);
    assert_eq!(table.len(), 0);
}

#[test]
fn evict_on_an_empty_table_does_nothing() {
    let mut table = SessionTable::new();
    assert!(table.evict(u64::MAX, 0).is_empty());
    assert_eq!(table.len(), 0);
}

#[test]
fn evicted_endpoint_gets_a_new_session_on_its_next_input() {
    let mut table = SessionTable::new();
    table.hear(1, input(false, false, false), 0);
    table.step(1, motion(8.0));
    table.evict(5000 * MS, 1000);
    assert!(table.hear(1, input(true, false, false), 6000 * MS));
    let client = table.get(1).unwrap();
    assert_eq!(client.pilot.ship, Some(Ship::new()));
    assert_eq!(client.last_message, 6000 * MS);
}

#[test]
fn endpoints_names_every_session_once() {
    let mut table = SessionTable::new();
    for e in [5u64, 900, 17, 0, u64::MAX] {
        table.hear(e, input(false, false, false), 1);
        table.hear(e, input(true, false, false), 2);
    }
    assert_eq!(sorted(table.endpoints()), vec![0, 5, 17, 900, u64::MAX]);
    assert_eq!(table.len(), 5);
}

#[test]
fn ships_along_follows_the_given_order() {
    let mut table = SessionTable::new();
    for e in [1u64, 2, 3] {
        table.hear(e, input(false, false, false), 1);
        table.step(e, motion(e as f32));
    }
    let ships = table.ships_along(&vec![3, 1, 2]);
    let xs: Vec<f32> = ships.iter().map(|s| f32::from_bits(s.position.x)).collect();
    assert_eq!(xs, vec![3.0, 1.0, 2.0]);
}

#[test]
fn ships_along_skips_endpoints_without_a_session() {
    let mut table = SessionTable::new();
    table.hear(1, input(false, false, false), 1);
    table.step(1, motion(1.0));
    let ships = table.ships_along(&vec![7, 1, 8, 1]);
    assert_eq!(ships.len(), 2);
    assert_eq!(ships[0], ships[1]);
    assert_eq!(f32::from_bits(ships[0].position.x), 1.0);
    assert!(table.ships_along(&vec![]).is_empty());
}
