//! The player's single shot.

use crate::common::{
    exec_shifted, exec_travel, shifted, travel, Vec2, LAZER_SPEED, PLAYER_HEIGHT, SCENE_HEIGHT,
};
use crate::player::Player;
use vstd::prelude::*;

verus! {

/// A fire intent.
#[derive(Clone, Copy, Debug, PartialEq, Eq, Structural)]
pub struct FireLazerEvent;

/// The shot is at rest, about to leave the ship, or in flight at a
/// position. There is one shot for the whole game: it is never made anew,
/// only its state is rewritten.
#[derive(Clone, Copy, Debug, PartialEq, Eq, Structural)]
pub enum Lazer {
    Fire,
    Fired(Vec2),
    Idle,
}

/// The point above the ship from which a shot starts.
pub open spec fn muzzle(player: Player) -> Vec2 {
    Vec2 { x: player.position.x, y: shifted(player.position.y, PLAYER_HEIGHT as int, true) as i64 }
}

/// The shot after a fire intent: it leaves only if it was at rest.
pub open spec fn triggered(lazer: Lazer) -> Lazer {
    match lazer {
        Lazer::Idle => Lazer::Fire,
        _ => lazer,
    }
}

/// The shot after the fire intents of one tick.
pub open spec fn triggered_by(lazer: Lazer, events: Seq<FireLazerEvent>) -> Lazer {
    if events.len() > 0 {
        triggered(lazer)
    } else {
        lazer
    }
}

/// The shot after one tick: a shot about to leave starts at the muzzle, a
/// shot in flight rises, and one that has passed the top comes to rest.
pub open spec fn flown(lazer: Lazer, player: Player, delta: u32) -> Lazer {
    match lazer {
        Lazer::Fire => Lazer::Fired(muzzle(player)),
        Lazer::Fired(at) => if at.y > SCENE_HEIGHT {
            Lazer::Idle
        } else {
            Lazer::Fired(
                Vec2 { x: at.x, y: shifted(at.y, travel(LAZER_SPEED, delta), true) as i64 },
            )
        },
        Lazer::Idle => Lazer::Idle,
    }
}

impl Lazer {
    /// Takes a fire intent. It counts only while the shot is at rest.
    pub fn fire(&mut self)
        ensures
            *final(self) == triggered(*old(self)),
            !(*old(self) is Idle) ==> *final(self) == *old(self),
            *old(self) is Idle ==> *final(self) is Fire,
    {
        match *self {
            Lazer::Idle => {
                *self = Lazer::Fire;
            },
            _ => {},
        }
    }
}

/// Takes the fire intents of one tick.
pub fn fire_system(lazer: &mut Lazer, events: &Vec<FireLazerEvent>)
    ensures
        *final(lazer) == triggered_by(*old(lazer), events@),
{
    if events.len() > 0 {
        lazer.fire();
    }
}

/// Moves the shot by one tick.
pub fn update_system(lazer: &mut Lazer, player: &Player, delta: u32)
    ensures
        *final(lazer) == flown(*old(lazer), *player, delta),
{
    match *lazer {
        Lazer::Fire => {
            let y = exec_shifted(player.position.y, PLAYER_HEIGHT as u64, true);
            *lazer = Lazer::Fired(Vec2 { x: player.position.x, y });
        },
        Lazer::Fired(at) => {
            if at.y > SCENE_HEIGHT {
                *lazer = Lazer::Idle;
            } else {
                let y = exec_shifted(at.y, exec_travel(LAZER_SPEED, delta), true);
                *lazer = Lazer::Fired(Vec2 { x: at.x, y });
            }
        },
        Lazer::Idle => {},
    }
}

/// A fire intent changes nothing unless the shot is at rest, and any
/// number of intents in one tick counts as one.
pub proof fn lemma_fire_once(lazer: Lazer)
    ensures
        !(lazer is Idle) ==> triggered(lazer) == lazer,
        triggered(triggered(lazer)) == triggered(lazer),
        !(triggered(lazer) is Idle),
{
}

/// A shot that has left the ship is in flight after the same tick's
/// update, so that a shot fired in a tick can hit in that tick.
pub proof fn lemma_fire_then_fly(lazer: Lazer, player: Player, delta: u32)
    requires
        lazer is Idle,
    ensures
        flown(triggered(lazer), player, delta) == Lazer::Fired(muzzle(player)),
{
}

} // verus!
