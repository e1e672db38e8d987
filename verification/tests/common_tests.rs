use netships::common::{Integrator, Motion, Pilot, Ship, Vec2, SPAWN_X, SPAWN_Y, ZERO};

#[test]
fn spawn_constants_are_the_bits_of_the_spawn_point() {
    assert_eq!(SPAWN_X, 0.3f32.to_bits());
    assert_eq!(SPAWN_Y, 0.1f32.to_bits());
    assert_eq!(ZERO, 0.0f32.to_bits());
}

#[test]
fn new_ship_stands_at_the_spawn_point_at_rest() {
    let ship = Ship::new();
    assert_eq!(f32::from_bits(ship.position.x), 0.3f32);
    assert_eq!(f32::from_bits(ship.position.y), 0.1f32);
    assert_eq!(f32::from_bits(ship.velocity.x), 0.0f32);
    assert_eq!(f32::from_bits(ship.velocity.y), 0.0f32);
    assert_eq!(f32::from_bits(ship.rotation), 0.0f32);
    assert_eq!(f32::from_bits(ship.rotational_velocity), 0.0f32);
    assert_eq!(ship.prev_position, ship.position);
    assert_eq!(ship.prev_rotation, ship.rotation);
}

#[test]
fn new_pilot_has_no_ship_and_no_key_pressed() {
    let pilot = Pilot::new(Integrator::Verlet);
    assert_eq!(
        pilot,
        Pilot {
            ship: None,
            left_is_pressed: false,
            right_is_pressed: false,
            up_is_pressed: false,
            integrator: Integrator::Verlet,
        }
    );
    assert_eq!(*pilot.ship(), None);
}

#[test]
fn spawn_gives_a_ship_once() {
    let mut pilot = Pilot::new(Integrator::ForwardEuler);
    assert_eq!(pilot.spawn(), Ok(()));
    assert_eq!(*pilot.ship(), Some(Ship::new()));
    assert_eq!(pilot.integrator, Integrator::ForwardEuler);
}

#[test]
fn second_spawn_fails_and_changes_nothing() {
    let mut pilot = Pilot::new(Integrator::ForwardEuler);
    pilot.spawn().unwrap();
    pilot.set_flags(true, false, true);
    let moved = pilot.step(Motion {
        rotation: 1.0f32.to_bits(),
        position: Vec2 { x: 2.0f32.to_bits(), y: 3.0f32.to_bits() },
        velocity: Vec2 { x: 4.0f32.to_bits(), y: 5.0f32.to_bits() },
    });
    assert!(moved);
    let before = pilot;
    assert_eq!(pilot.spawn(), Err(()));
    assert_eq!(pilot, before);
}

#[test]
fn set_flags_touches_only_the_flags() {
    let mut pilot = Pilot::new(Integrator::Verlet);
    pilot.spawn().unwrap();
    pilot.set_flags(true, false, true);
    assert!(pilot.left_is_pressed);
    assert!(!pilot.right_is_pressed);
    assert!(pilot.up_is_pressed);
    assert_eq!(pilot.ship, Some(Ship::new()));
    assert_eq!(pilot.integrator, Integrator::Verlet);
}

#[test]
fn step_moves_the_old_state_to_the_prev_fields() {
    let mut ship = Ship::new();
    ship.rotational_velocity = 9.0f32.to_bits();
    let next = Motion {
        rotation: 0.25f32.to_bits(),
        position: Vec2 { x: 1.5f32.to_bits(), y: (-2.0f32).to_bits() },
        velocity: Vec2 { x: 0.5f32.to_bits(), y: 0.125f32.to_bits() },
    };
    ship.step(next);
    assert_eq!(
        ship,
        Ship {
            rotation: 0.25f32.to_bits(),
            rotational_velocity: 9.0f32.to_bits(),
            position: Vec2 { x: 1.5f32.to_bits(), y: (-2.0f32).to_bits() },
            velocity: Vec2 { x: 0.5f32.to_bits(), y: 0.125f32.to_bits() },
            prev_position: Vec2 { x: SPAWN_X, y: SPAWN_Y },
            prev_rotation: ZERO,
        }
    );
    let again = Motion {
        rotation: 0.5f32.to_bits(),
        position: Vec2 { x: 2.0f32.to_bits(), y: (-1.875f32).to_bits() },
        velocity: next.velocity,
    };
    ship.step(again);
    assert_eq!(ship.prev_position, next.position);
    assert_eq!(ship.prev_rotation, next.rotation);
    assert_eq!(ship.position, again.position);
}

#[test]
fn step_of_a_pilot_without_ship_does_nothing() {
    let mut pilot = Pilot::new(Integrator::ForwardEuler);
    let before = pilot;
    let moved = pilot.step(Motion {
        rotation: 1,
        position: Vec2 { x: 2, y: 3 },
        velocity: Vec2 { x: 4, y: 5 },
    });
    assert!(!moved);
    assert_eq!(pilot, before);
}

fn bits(v: (f32, f32)) -> Vec2 {
    Vec2 { x: v.0.to_bits(), y: v.1.to_bits() }
}

fn floats(v: Vec2) -> (f32, f32) {
    (f32::from_bits(v.x), f32::from_bits(v.y))
}

#[test]
fn forward_euler_without_thrust_and_drag_moves_by_its_velocity_each_tick() {
    let mut ship = Ship::new();
    ship.position = bits((0.5, -1.0));
    ship.velocity = bits((0.25, 0.125));
    for _ in 0..8 {
        let v = floats(ship.velocity);
        let p = floats(ship.position);
        let velocity = ((v.0 + 0.0) * 1.0, (v.1 + 0.0) * 1.0);
        let position = (p.0 + velocity.0, p.1 + velocity.1);
        ship.step(Motion { rotation: ship.rotation, position: bits(position), velocity: bits(velocity) });
    }
    assert_eq!(floats(ship.position), (0.5 + 8.0 * 0.25, -1.0 + 8.0 * 0.125));
    assert_eq!(floats(ship.prev_position), (0.5 + 7.0 * 0.25, -1.0 + 7.0 * 0.125));
    assert_eq!(floats(ship.velocity), (0.25, 0.125));
}

#[test]
fn verlet_without_acceleration_and_drag_keeps_its_first_displacement() {
    let mut ship = Ship::new();
    ship.prev_position = bits((1.0, 1.0));
    ship.position = bits((1.5, 0.75));
    for _ in 0..6 {
        let p = floats(ship.position);
        let q = floats(ship.prev_position);
        let position = (p.0 + p.0 - q.0 + 0.0 - (p.0 - q.0) * 0.0, p.1 + p.1 - q.1 + 0.0 - (p.1 - q.1) * 0.0);
        ship.step(Motion { rotation: ship.rotation, position: bits(position), velocity: ship.velocity });
    }
    // Six ticks after position_1 = (1.5, 0.75): position_0 + 7 * (position_1 - position_0).
    assert_eq!(floats(ship.position), (1.0 + 7.0 * 0.5, 1.0 + 7.0 * -0.25));
    assert_eq!(floats(ship.prev_position), (1.0 + 6.0 * 0.5, 1.0 + 6.0 * -0.25));
}
