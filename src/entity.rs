//! Bullets, enemies, and the sound cues that the simulation asks for.

use vstd::prelude::*;
use crate::geometry::{Vector2, Viewport, speed_ok, moved, bounced, advance, bounce};

verus! {

/// Lifetime of a fresh bullet, in tenths; it loses one tenth per tick.
pub const BULLET_LIFETIME: i64 = 200;

/// A projectile. Its lifetime is counted in tenths and it is removed once
/// the lifetime is no longer positive.
#[derive(Clone, Copy, Debug, PartialEq, Eq, Structural)]
pub struct Bullet {
    pub position: Vector2,
    pub velocity: Vector2,
    pub lifetime: i64,
}

/// A drifting enemy. It is removed once flagged dead.
#[derive(Clone, Copy, Debug, PartialEq, Eq, Structural)]
pub struct Enemy {
    pub position: Vector2,
    pub velocity: Vector2,
    pub is_dead: bool,
}

/// A one-shot sound effect requested by the simulation.
#[derive(Clone, Copy, Debug, PartialEq, Eq, Structural)]
pub enum Cue {
    Shoot,
    Pop,
    Die,
    WaveStart,
}

impl Bullet {
    /// The velocity is within the speed limit and the lifetime can still
    /// lose a tenth.
    pub open spec fn wf(self) -> bool {
        speed_ok(self.velocity) && self.lifetime > i64::MIN
    }

    /// Still alive: kept by the cleanup pass.
    pub open spec fn live(self) -> bool {
        self.lifetime > 0
    }

    /// The bullet after one tick of motion: moved, turned back at the edges,
    /// one tenth older.
    pub open spec fn stepped(self, dt: u32, view: Viewport) -> Bullet {
        let p = moved(self.position, self.velocity, dt);
        Bullet { position: p, velocity: bounced(p, self.velocity, view), lifetime: (self.lifetime - 1) as i64 }
    }

    /// Advances the bullet by one tick.
    pub fn step(&mut self, dt: u32, view: Viewport)
        requires
            old(self).wf(),
        ensures
            *final(self) == old(self).stepped(dt, view),
            speed_ok(final(self).velocity),
    {
        let p = advance(self.position, self.velocity, dt);
        self.velocity = bounce(p, self.velocity, view);
        self.position = p;
        self.lifetime = self.lifetime - 1;
    }
}

impl Enemy {
    pub open spec fn wf(self) -> bool {
        speed_ok(self.velocity)
    }

    /// The enemy after one tick of motion: moved and turned back at the edges.
    pub open spec fn stepped(self, dt: u32, view: Viewport) -> Enemy {
        let p = moved(self.position, self.velocity, dt);
        Enemy { position: p, velocity: bounced(p, self.velocity, view), is_dead: self.is_dead }
    }

    /// Advances the enemy by one tick.
    pub fn step(&mut self, dt: u32, view: Viewport)
        requires
            old(self).wf(),
        ensures
            *final(self) == old(self).stepped(dt, view),
            final(self).wf(),
    {
        let p = advance(self.position, self.velocity, dt);
        self.velocity = bounce(p, self.velocity, view);
        self.position = p;
    }
}

} // verus!
