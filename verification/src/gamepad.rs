//! From the buttons and sticks of the gamepads to the intents of the
//! player.

use crate::common::LEFT_STICK_HYSTERESIS;
use crate::game_state::{GameState, GameStateEvent, Store};
use crate::keyboard_input::{allows_fire, awaits_play};
use crate::lazer::FireLazerEvent;
use crate::player::PlayerEvent;
use vstd::prelude::*;

verus! {

/// What the game reads of one gamepad, as it is in one tick.
#[derive(Clone, Copy, Debug, PartialEq, Eq, Structural)]
pub struct Gamepad {
    /// The south button went down in this tick.
    pub south: bool,
    /// The north button went down in this tick.
    pub north: bool,
    /// How far the left stick is pushed sideways, in thousandths of its
    /// way: negative to the left, positive to the right.
    pub left_stick_x: i32,
}

/// The stick is pushed further than it drifts by itself.
pub open spec fn deflected(x: i32) -> bool {
    x > LEFT_STICK_HYSTERESIS || x < -LEFT_STICK_HYSTERESIS
}

/// The move intents that one gamepad sends.
pub open spec fn pad_moves(pad: Gamepad) -> Seq<PlayerEvent> {
    if deflected(pad.left_stick_x) {
        seq![PlayerEvent(pad.left_stick_x)]
    } else {
        Seq::empty()
    }
}

/// The requests to the state machine that one gamepad sends.
pub open spec fn pad_requests(pad: Gamepad, state: GameState) -> Seq<GameStateEvent> {
    let play = if pad.south && awaits_play(state) {
        seq![GameStateEvent::PressPlay]
    } else {
        Seq::empty()
    };
    let info = if pad.north {
        seq![GameStateEvent::Info]
    } else {
        Seq::empty()
    };
    play + info
}

/// The fire intents that one gamepad sends.
pub open spec fn pad_fires(pad: Gamepad, state: GameState) -> Seq<FireLazerEvent> {
    if pad.south && allows_fire(state) {
        seq![FireLazerEvent]
    } else {
        Seq::empty()
    }
}

/// The move intents of all gamepads, in their order.
pub open spec fn all_moves(pads: Seq<Gamepad>) -> Seq<PlayerEvent>
    decreases pads.len(),
{
    if pads.len() == 0 {
        Seq::empty()
    } else {
        all_moves(pads.drop_last()) + pad_moves(pads.last())
    }
}

/// The requests of all gamepads, in their order.
pub open spec fn all_requests(pads: Seq<Gamepad>, state: GameState) -> Seq<GameStateEvent>
    decreases pads.len(),
{
    if pads.len() == 0 {
        Seq::empty()
    } else {
        all_requests(pads.drop_last(), state) + pad_requests(pads.last(), state)
    }
}

/// The fire intents of all gamepads, in their order.
pub open spec fn all_fires(pads: Seq<Gamepad>, state: GameState) -> Seq<FireLazerEvent>
    decreases pads.len(),
{
    if pads.len() == 0 {
        Seq::empty()
    } else {
        all_fires(pads.drop_last(), state) + pad_fires(pads.last(), state)
    }
}

/// Sends the intents that the gamepads stand for in the current mode.
pub fn update_system(
    fire_lazer_ew: &mut Vec<FireLazerEvent>,
    game_state_ew: &mut Vec<GameStateEvent>,
    player_ew: &mut Vec<PlayerEvent>,
    gamepads: &Vec<Gamepad>,
    store: &Store,
)
    ensures
        final(fire_lazer_ew)@ == old(fire_lazer_ew)@ + all_fires(gamepads@, store.game_state),
        final(game_state_ew)@ == old(game_state_ew)@ + all_requests(gamepads@, store.game_state),
        final(player_ew)@ == old(player_ew)@ + all_moves(gamepads@),
{
    let mut i: usize = 0;
    while i < gamepads.len()
        invariant
            i <= gamepads@.len(),
            fire_lazer_ew@ == old(fire_lazer_ew)@ + all_fires(
                gamepads@.take(i as int),
                store.game_state,
            ),
            game_state_ew@ == old(game_state_ew)@ + all_requests(
                gamepads@.take(i as int),
                store.game_state,
            ),
            player_ew@ == old(player_ew)@ + all_moves(gamepads@.take(i as int)),
        decreases gamepads@.len() - i,
    {
        proof {
            assert(gamepads@.take(i + 1).drop_last() =~= gamepads@.take(i as int));
        }
        let pad = gamepads[i];
        if pad.south {
            match store.game_state {
                GameState::InsertCoin | GameState::LeaderBoard => {
                    game_state_ew.push(GameStateEvent::PressPlay);
                },
                GameState::PlayerSpawn(_) | GameState::Play => {
                    fire_lazer_ew.push(FireLazerEvent);
                },
                _ => {},
            }
        }
        if pad.north {
            game_state_ew.push(GameStateEvent::Info);
        }
        // beyond the hysteresis, to avoid drift
        if pad.left_stick_x > LEFT_STICK_HYSTERESIS || pad.left_stick_x < -LEFT_STICK_HYSTERESIS {
            player_ew.push(PlayerEvent(pad.left_stick_x));
        }
        proof {
            assert(fire_lazer_ew@ =~= old(fire_lazer_ew)@ + all_fires(
                gamepads@.take(i + 1),
                store.game_state,
            ));
            assert(game_state_ew@ =~= old(game_state_ew)@ + all_requests(
                gamepads@.take(i + 1),
                store.game_state,
            ));
            assert(player_ew@ =~= old(player_ew)@ + all_moves(gamepads@.take(i + 1)));
        }
        i += 1;
    }
    proof {
        assert(gamepads@.take(gamepads@.len() as int) =~= gamepads@);
    }
}

} // verus!
