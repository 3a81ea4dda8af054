//! From the keys that are down to the intents of the player.

use crate::common::{MAGNITUDE_FULL, PLAYER_SLOW};
use crate::game_state::{GameState, GameStateEvent, Store};
use crate::lazer::FireLazerEvent;
use crate::player::PlayerEvent;
use vstd::prelude::*;

verus! {

/// The keys the game reads, as they are in one tick.
#[derive(Clone, Copy, Debug, PartialEq, Eq, Structural)]
pub struct Keyboard {
    /// The left shift key is down.
    pub shift_left: bool,
    /// The key A is down.
    pub key_a: bool,
    /// The left arrow is down.
    pub arrow_left: bool,
    /// The key D is down.
    pub key_d: bool,
    /// The right arrow is down.
    pub arrow_right: bool,
    /// The up arrow is down.
    pub arrow_up: bool,
    /// The key I went down in this tick.
    pub key_i: bool,
    /// The enter key went down in this tick.
    pub enter: bool,
    /// The space bar went down in this tick.
    pub space: bool,
}

/// The magnitude of a move: slow while the shift key is down.
pub open spec fn move_magnitude(keyboard: Keyboard) -> i32 {
    if keyboard.shift_left {
        PLAYER_SLOW
    } else {
        MAGNITUDE_FULL
    }
}

/// The move intents of one tick: one to the left, one to the right, each
/// if a key for it is down.
pub open spec fn move_intents(keyboard: Keyboard) -> Seq<PlayerEvent> {
    let left = if keyboard.key_a || keyboard.arrow_left {
        seq![PlayerEvent((-move_magnitude(keyboard)) as i32)]
    } else {
        Seq::empty()
    };
    let right = if keyboard.key_d || keyboard.arrow_right {
        seq![PlayerEvent(move_magnitude(keyboard))]
    } else {
        Seq::empty()
    };
    left + right
}

/// The mode lets the player start a game.
pub open spec fn awaits_play(state: GameState) -> bool {
    state is InsertCoin || state is LeaderBoard
}

/// The mode lets the player shoot.
pub open spec fn allows_fire(state: GameState) -> bool {
    state is PlayerSpawn || state is Play
}

/// The requests to the state machine of one tick.
pub open spec fn requests(keyboard: Keyboard, state: GameState) -> Seq<GameStateEvent> {
    let info = if keyboard.key_i {
        seq![GameStateEvent::Info]
    } else {
        Seq::empty()
    };
    let play = if awaits_play(state) && keyboard.enter {
        seq![GameStateEvent::PressPlay]
    } else {
        Seq::empty()
    };
    info + play
}

/// The fire intents of one tick.
pub open spec fn fire_intents(keyboard: Keyboard, state: GameState) -> Seq<FireLazerEvent> {
    if allows_fire(state) && (keyboard.space || keyboard.arrow_up) {
        seq![FireLazerEvent]
    } else {
        Seq::empty()
    }
}

/// Sends the intents that the keys stand for in the current mode.
pub fn update_system(
    fire_lazer_ew: &mut Vec<FireLazerEvent>,
    game_state_ew: &mut Vec<GameStateEvent>,
    player_ew: &mut Vec<PlayerEvent>,
    store: &Store,
    keyboard_input: &Keyboard,
)
    ensures
        final(fire_lazer_ew)@ == old(fire_lazer_ew)@ + fire_intents(
            *keyboard_input,
            store.game_state,
        ),
        final(game_state_ew)@ == old(game_state_ew)@ + requests(*keyboard_input, store.game_state),
        final(player_ew)@ == old(player_ew)@ + move_intents(*keyboard_input),
{
    // slow or fast
    let speed: i32 = if keyboard_input.shift_left {
        PLAYER_SLOW
    } else {
        MAGNITUDE_FULL
    };
    if keyboard_input.key_a || keyboard_input.arrow_left {
        player_ew.push(PlayerEvent(-speed));
    }
    if keyboard_input.key_d || keyboard_input.arrow_right {
        player_ew.push(PlayerEvent(speed));
    }
    if keyboard_input.key_i {
        game_state_ew.push(GameStateEvent::Info);
    }
    match store.game_state {
        GameState::InsertCoin | GameState::LeaderBoard => {
            if keyboard_input.enter {
                game_state_ew.push(GameStateEvent::PressPlay);
            }
        },
        GameState::PlayerSpawn(_) | GameState::Play => {
            if keyboard_input.space || keyboard_input.arrow_up {
                fire_lazer_ew.push(FireLazerEvent);
            }
        },
        _ => {},
    }
    assert(fire_lazer_ew@ =~= old(fire_lazer_ew)@ + fire_intents(
        *keyboard_input,
        store.game_state,
    ));
    assert(game_state_ew@ =~= old(game_state_ew)@ + requests(*keyboard_input, store.game_state));
    assert(player_ew@ =~= old(player_ew)@ + move_intents(*keyboard_input));
}

} // verus!
