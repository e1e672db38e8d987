//! The craft and its pilot: the state that the server keeps per session and
//! that the client keeps per remote craft.

use vstd::prelude::*;

verus! {

/// Bits of the abscissa at which a craft is spawned (three tenths).
pub const SPAWN_X: u32 = 0x3e99_999a;

/// Bits of the ordinate at which a craft is spawned (one tenth).
pub const SPAWN_Y: u32 = 0x3dcc_cccd;

/// Bits of zero.
pub const ZERO: u32 = 0;

/// The numerical scheme that advances a craft. It is chosen when the pilot is
/// created and stays with it.
#[derive(Clone, Copy, Debug, PartialEq, Eq, Structural)]
pub enum Integrator {
    ForwardEuler,
    Verlet,
}

/// A pair of scalars, each held as the bits of its single-precision encoding.
#[derive(Clone, Copy, Debug, PartialEq, Eq, Structural)]
pub struct Vec2 {
    pub x: u32,
    pub y: u32,
}

/// Kinematic state of one craft. Every scalar is held as the bits of its
/// single-precision encoding.
#[derive(Clone, Copy, Debug, PartialEq, Eq, Structural)]
pub struct Ship {
    pub rotation: u32,
    pub rotational_velocity: u32,
    pub position: Vec2,
    pub velocity: Vec2,
    /// `position` as it was when the last tick began.
    pub prev_position: Vec2,
    /// `rotation` as it was when the last tick began.
    pub prev_rotation: u32,
}

/// What an integrator hands back for one tick of one craft.
#[derive(Clone, Copy, Debug, PartialEq, Eq, Structural)]
pub struct Motion {
    pub rotation: u32,
    pub position: Vec2,
    pub velocity: Vec2,
}

/// One controller: its input flags, its integrator and, once spawned, its craft.
#[derive(Clone, Copy, Debug, PartialEq, Eq)]
pub struct Pilot {
    pub ship: Option<Ship>,
    pub left_is_pressed: bool,
    pub right_is_pressed: bool,
    pub up_is_pressed: bool,
    pub integrator: Integrator,
}

impl Ship {
    /// The state in which every craft is spawned: at rest, heading zero.
    pub open spec fn spawned() -> Ship {
        Ship {
            rotation: ZERO,
            rotational_velocity: ZERO,
            position: Vec2 { x: SPAWN_X, y: SPAWN_Y },
            velocity: Vec2 { x: ZERO, y: ZERO },
            prev_position: Vec2 { x: SPAWN_X, y: SPAWN_Y },
            prev_rotation: ZERO,
        }
    }

    /// The craft after a tick whose integrator returned `next`: the state
    /// from before the tick moves to the `prev_` fields, and `next` takes
    /// its place.
    pub open spec fn stepped(self, next: Motion) -> Ship {
        Ship {
            rotation: next.rotation,
            rotational_velocity: self.rotational_velocity,
            position: next.position,
            velocity: next.velocity,
            prev_position: self.position,
            prev_rotation: self.rotation,
        }
    }

    /// A freshly spawned craft.
    pub fn new() -> (ship: Ship)
        ensures
            ship == Ship::spawned(),
    {
        Ship {
            rotation: ZERO,
            rotational_velocity: ZERO,
            position: Vec2 { x: SPAWN_X, y: SPAWN_Y },
            velocity: Vec2 { x: ZERO, y: ZERO },
            prev_position: Vec2 { x: SPAWN_X, y: SPAWN_Y },
            prev_rotation: ZERO,
        }
    }

    /// Completes one tick with what the integrator computed from the state
    /// before the call.
    pub fn step(&mut self, next: Motion)
        ensures
            *final(self) == old(self).stepped(next),
    {
        self.prev_position = self.position;
        self.prev_rotation = self.rotation;
        self.rotation = next.rotation;
        self.position = next.position;
        self.velocity = next.velocity;
    }
}

impl Pilot {
    /// The pilot that `new` returns: no craft yet, no key pressed.
    pub open spec fn fresh(integrator: Integrator) -> Pilot {
        Pilot {
            ship: None,
            left_is_pressed: false,
            right_is_pressed: false,
            up_is_pressed: false,
            integrator,
        }
    }

    /// This pilot with a freshly spawned craft.
    pub open spec fn with_spawned_ship(self) -> Pilot {
        Pilot { ship: Some(Ship::spawned()), ..self }
    }

    /// This pilot with the three input flags replaced.
    pub open spec fn with_flags(self, left: bool, right: bool, up: bool) -> Pilot {
        Pilot { left_is_pressed: left, right_is_pressed: right, up_is_pressed: up, ..self }
    }

    /// This pilot after a tick whose integrator returned `next`. A pilot
    /// without a craft is not touched by a tick.
    pub open spec fn stepped(self, next: Motion) -> Pilot {
        match self.ship {
            Some(ship) => Pilot { ship: Some(ship.stepped(next)), ..self },
            None => self,
        }
    }

    pub fn new(integrator: Integrator) -> (pilot: Self)
        ensures
            pilot == Pilot::fresh(integrator),
    {
        Pilot {
            ship: None,
            left_is_pressed: false,
            right_is_pressed: false,
            up_is_pressed: false,
            integrator,
        }
    }

    /// Gives the pilot its craft. A pilot that has one already keeps it, and
    /// the call fails.
    pub fn spawn(&mut self) -> (outcome: Result<(), ()>)
        ensures
            old(self).ship is None ==> outcome is Ok && *final(self) == old(
                self,
            ).with_spawned_ship(),
            old(self).ship is Some ==> outcome is Err && *final(self) == *old(self),
    {
        match self.ship {
            None => {
                self.ship = Some(Ship::new());
                Ok(())
            },
            _ => Err(()),
        }
    }

    pub fn ship(&self) -> (ship: &Option<Ship>)
        ensures
            *ship == self.ship,
    {
        &self.ship
    }

    /// Replaces the three input flags.
    pub fn set_flags(&mut self, left: bool, right: bool, up: bool)
        ensures
            *final(self) == old(self).with_flags(left, right, up),
    {
        self.left_is_pressed = left;
        self.right_is_pressed = right;
        self.up_is_pressed = up;
    }

    /// Completes one tick of this pilot's craft, if it has one, and says
    /// whether it has.
    pub fn step(&mut self, next: Motion) -> (moved: bool)
        ensures
            *final(self) == old(self).stepped(next),
            moved == (old(self).ship is Some),
    {
        match self.ship {
            Some(mut ship) => {
                ship.step(next);
                self.ship = Some(ship);
                true
            },
            None => false,
        }
    }
}

} // verus!
