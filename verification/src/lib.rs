//! The simulation core of an arcade shooter: shared game state, the swarm of
//! aliens, the projectiles, the bunkers, the collision pass and the state
//! machine that drives a game from the attract screens through play.

pub mod common;
pub mod timer;
pub mod particle;
pub mod bunker;
pub mod player;
pub mod lazer;
pub mod alien;
pub mod game_state;
pub mod hit_detection;
pub mod keyboard_input;
pub mod gamepad;
pub mod world;
