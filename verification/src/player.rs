//! The player's ship: steering, respawning and the blink that shows a
//! respawn.

use crate::common::{
    exec_shifted, shifted, Direction3, Vec2, MAGNITUDE_FULL, PLAYER_SPAWN_COUNTER, PLAYER_SPEED,
    SCENE_HEIGHT, SCENE_WIDTH,
};
use vstd::prelude::*;

verus! {

/// A move intent: negative to the left, positive to the right, in
/// thousandths of the full speed.
#[derive(Clone, Copy, Debug, PartialEq, Eq, Structural)]
pub struct PlayerEvent(pub i32);

#[derive(Clone, Copy, Debug, PartialEq, Eq, Structural)]
pub struct Player {
    pub position: Vec2,
    /// Where the last move intent pointed.
    pub direction: Direction3,
    /// The ticks for which the ship still blinks.
    pub spawn_counter: u8,
}

/// Where the ship stands at the start of a life.
pub open spec fn start_position() -> Vec2 {
    Vec2 { x: 0, y: (-SCENE_HEIGHT) as i64 }
}

/// The direction a move intent asks for.
pub open spec fn direction_of(magnitude: i32) -> Direction3 {
    if magnitude < 0 {
        Direction3::Left
    } else if magnitude > 0 {
        Direction3::Right
    } else {
        Direction3::Neutral
    }
}

/// How far a move intent carries the ship in `delta` time units.
pub open spec fn reach(magnitude: i32, delta: u32) -> int {
    let size: int = if magnitude < 0 {
        -magnitude
    } else {
        magnitude as int
    };
    (PLAYER_SPEED * size * delta) / (MAGNITUDE_FULL as int)
}

/// The ship after one move intent. It moves only while it has not passed
/// the side of the scene it is heading for.
pub open spec fn steered(player: Player, magnitude: i32, delta: u32) -> Player {
    let x = player.position.x;
    let moves = (magnitude < 0 && x > -SCENE_WIDTH) || (magnitude > 0 && x < SCENE_WIDTH);
    Player {
        position: Vec2 {
            x: if moves {
                shifted(x, reach(magnitude, delta), magnitude > 0) as i64
            } else {
                x
            },
            y: player.position.y,
        },
        direction: direction_of(magnitude),
        spawn_counter: player.spawn_counter,
    }
}

/// The ship after the move intents of one tick, taken in order. Without
/// any it stands still.
pub open spec fn steered_all(player: Player, events: Seq<PlayerEvent>, delta: u32) -> Player
    decreases events.len(),
{
    if events.len() == 0 {
        Player { direction: Direction3::Neutral, ..player }
    } else {
        steered(steered_all(player, events.drop_last(), delta), events.last().0, delta)
    }
}

impl Player {
    /// A ship at the start position that does not blink.
    pub fn new() -> (player: Player)
        ensures
            player.position == start_position(),
            player.direction == Direction3::Neutral,
            player.spawn_counter == 0,
    {
        Player {
            position: Vec2 { x: 0, y: -SCENE_HEIGHT },
            direction: Direction3::Neutral,
            spawn_counter: 0,
        }
    }

    /// Arms the spawn sequence: the ship blinks for the next
    /// `PLAYER_SPAWN_COUNTER` ticks.
    pub fn arm_spawn(&mut self)
        ensures
            final(self).position == old(self).position,
            final(self).direction == old(self).direction,
            final(self).spawn_counter == PLAYER_SPAWN_COUNTER,
    {
        self.spawn_counter = PLAYER_SPAWN_COUNTER;
    }

    /// Puts the ship back to the start position and arms the spawn
    /// sequence.
    pub fn respawn(&mut self)
        ensures
            final(self).position == start_position(),
            final(self).direction == Direction3::Neutral,
            final(self).spawn_counter == PLAYER_SPAWN_COUNTER,
    {
        self.position = Vec2 { x: 0, y: -SCENE_HEIGHT };
        self.direction = Direction3::Neutral;
        self.spawn_counter = PLAYER_SPAWN_COUNTER;
    }

    /// Applies one move intent.
    pub fn steer(&mut self, magnitude: i32, delta: u32)
        ensures
            *final(self) == steered(*old(self), magnitude, delta),
    {
        let x = self.position.x;
        if magnitude < 0 {
            self.direction = Direction3::Left;
        } else if magnitude > 0 {
            self.direction = Direction3::Right;
        } else {
            self.direction = Direction3::Neutral;
        }
        if (magnitude < 0 && x > -SCENE_WIDTH) || (magnitude > 0 && x < SCENE_WIDTH) {
            let size: u128 = if magnitude < 0 {
                (-(magnitude as i64)) as u128
            } else {
                magnitude as u128
            };
            assert(0 <= PLAYER_SPEED * size * delta <= 500 * 0x8000_0000 * 0xffff_ffff)
                by (nonlinear_arith)
                requires
                    0 <= size <= 0x8000_0000,
                    0 <= delta <= 0xffff_ffff,
                    PLAYER_SPEED == 500,
            ;
            assert(PLAYER_SPEED * size * delta == (PLAYER_SPEED * size) * delta)
                by (nonlinear_arith);
            let far: u128 = ((PLAYER_SPEED as u128) * size * (delta as u128)) / (
            MAGNITUDE_FULL as u128);
            self.position.x = exec_shifted(x, far as u64, magnitude > 0);
        }
    }
}

/// Steers the ship by the move intents of one tick, in order.
pub fn update_system(player: &mut Player, events: &Vec<PlayerEvent>, delta: u32)
    ensures
        *final(player) == steered_all(*old(player), events@, delta),
{
    player.direction = Direction3::Neutral;
    let mut i: usize = 0;
    while i < events.len()
        invariant
            i <= events.len(),
            *player == steered_all(*old(player), events@.take(i as int), delta),
        decreases events.len() - i,
    {
        proof {
            assert(events@.take(i + 1).drop_last() =~= events@.take(i as int));
        }
        let PlayerEvent(magnitude) = events[i];
        player.steer(magnitude, delta);
        i += 1;
    }
    proof {
        assert(events@.take(events.len() as int) =~= events@);
    }
}

/// Counts one tick of the spawn sequence. Returns whether the ship is to
/// be shown during this tick: always once the sequence has run out, and
/// on every other tick before that.
pub fn blink_update_system(player: &mut Player) -> (visible: bool)
    ensures
        final(player).position == old(player).position,
        final(player).direction == old(player).direction,
        final(player).spawn_counter == if old(player).spawn_counter > 0 {
            old(player).spawn_counter - 1
        } else {
            0
        },
        visible == (final(player).spawn_counter % 2 == 0),
{
    if player.spawn_counter > 0 {
        player.spawn_counter = player.spawn_counter - 1;
    }
    player.spawn_counter % 2 == 0
}

/// Steering leaves the height and the spawn sequence alone.
pub proof fn lemma_steering_keeps_height(player: Player, events: Seq<PlayerEvent>, delta: u32)
    ensures
        steered_all(player, events, delta).position.y == player.position.y,
        steered_all(player, events, delta).spawn_counter == player.spawn_counter,
    decreases events.len(),
{
    if events.len() > 0 {
        lemma_steering_keeps_height(player, events.drop_last(), delta);
    }
}

} // verus!
