//! Explosions, as the simulation announces them to whoever draws them.

use crate::common::Vec2;
use vstd::prelude::*;

verus! {

/// A burst of particles to be shown.
#[derive(Clone, Copy, Debug, PartialEq, Eq, Structural)]
pub struct Explosion {
    /// How many particles fly off.
    pub count: u32,
    /// Where the burst starts.
    pub position: Vec2,
    /// How fast the particles fly, in pixels per second.
    pub speed: u32,
    /// How far the starting points are scattered, in coordinate units.
    pub spread: u32,
    /// The size of one particle.
    pub size: Vec2,
}

/// The side of a particle.
pub const PARTICLE_SIDE: i64 = 10_000_000;

/// The burst of `count` particles at `position` that every hit of the
/// game shows, but for its number and speed.
pub open spec fn burst(count: u32, position: Vec2, speed: u32) -> Explosion {
    Explosion {
        count,
        position,
        speed,
        spread: 0,
        size: Vec2 { x: PARTICLE_SIDE, y: PARTICLE_SIDE },
    }
}

/// An alien bullet runs into the lazer or into a bunker.
pub open spec fn bullet_burst(position: Vec2) -> Explosion {
    burst(10, position, 150)
}

/// An alien bullet strikes the player.
pub open spec fn player_burst(position: Vec2) -> Explosion {
    burst(100, position, 1000)
}

/// The lazer runs into a bunker.
pub open spec fn bunker_burst(position: Vec2) -> Explosion {
    burst(5, position, 50)
}

/// The lazer strikes an alien.
pub open spec fn alien_burst(position: Vec2) -> Explosion {
    burst(10, position, 500)
}

/// Announces one more explosion.
pub fn spawn_explosion(
    explosions: &mut Vec<Explosion>,
    count: u32,
    position: Vec2,
    speed: u32,
    spread: u32,
    size: Vec2,
)
    ensures
        final(explosions)@ == old(explosions)@.push(
            (Explosion { count, position, speed, spread, size }),
        ),
{
    explosions.push(Explosion { count, position, speed, spread, size });
}

} // verus!
