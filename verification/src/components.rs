//! Components and process-wide resources of the entity world.

use vstd::prelude::*;
use crate::math::V2;

verus! {

/// Weapon/skin class tag carried by the local player and its bullets.
pub const CLASS_CHIBA: u64 = 0;

/// Upward velocity given by a jump, in fixed-point units.
pub const JUMP_VEL: i64 = 500;

/// Horizontal walking speed, in fixed-point units.
pub const WALK_VEL: i64 = 500;

/// Horizontal bullet speed, in fixed-point units.
pub const BULLET_VEL: i64 = 1000;

/// Side of a bullet's square bounding box, in fixed-point units.
pub const BULLET_SIZE: i64 = 1000;

/// Muzzle offset used when the shooter faces left, in fixed-point units.
/// (The rightward offset is the shooter's own width instead.)
pub const BULLET_LEFT_OFFSET: i64 = -1000;

/// Facing direction: the sign says whether the entity looks right (+) or
/// left (-).
#[derive(Clone, Copy, PartialEq, Eq, Structural, Debug)]
pub struct Dir {
    pub facing: i64,
}

/// Marks a controllable character and carries its identity and class.
#[derive(Clone, Copy, PartialEq, Eq, Structural, Debug)]
pub struct Player {
    pub id: u64,
    pub class: u64,
}

/// Marks a projectile and carries its weapon/skin class.
#[derive(Clone, Copy, PartialEq, Eq, Structural, Debug)]
pub struct Bullet {
    pub class: u64,
}

/// The latest decoded local input intent. `update` means an actual input
/// event occurred this tick; stale input must not re-trigger movement.
#[derive(Clone, Copy, PartialEq, Eq, Structural, Debug)]
pub struct Action {
    pub update: bool,
    pub jump: bool,
    pub right: bool,
    pub left: bool,
    pub take: bool,
}

impl Action {
    /// The inert action: no event, no flags.
    pub open spec fn inert_spec() -> Action {
        Action { update: false, jump: false, right: false, left: false, take: false }
    }

    pub fn inert() -> (r: Action)
        ensures
            r == Action::inert_spec(),
    {
        Action { update: false, jump: false, right: false, left: false, take: false }
    }

    /// Reset to the inert action, as the Input step does at the end of
    /// every tick.
    pub fn clear(&mut self)
        ensures
            *final(self) == Action::inert_spec(),
    {
        *self = Action::inert();
    }
}

/// The local player's identity: unset until login, then set once and read
/// thereafter.
#[derive(Clone, Copy, PartialEq, Eq, Structural, Debug)]
pub struct User {
    pub player: Option<Player>,
}

impl User {
    pub fn unset() -> (r: User)
        ensures
            r == (User { player: None::<Player> }),
    {
        User { player: None }
    }

    pub fn set(&mut self, p: Player)
        ensures
            *final(self) == (User { player: Some(p) }),
    {
        self.player = Some(p);
    }
}

/// One terrain block as the server describes it: a static axis-aligned
/// box.
#[derive(Clone, Copy, PartialEq, Eq, Structural, Debug)]
pub struct Terrain {
    pub pos: V2,
    pub size: V2,
}

/// The per-tick outbound broadcast of the local player's post-input
/// state, together with the raw action that produced it.
#[derive(Clone, Copy, PartialEq, Eq, Structural, Debug)]
pub struct SendAction {
    pub player: Player,
    pub pos: V2,
    pub vel: V2,
    pub acc: V2,
    pub dir: Dir,
    pub action: Action,
}

} // verus!
