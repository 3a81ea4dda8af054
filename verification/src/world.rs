//! The whole game in one value, and the tick that runs its subsystems in
//! their fixed order: the intents of the player, the ship and its shot,
//! the swarm and its bullets, the collision pass, the state machine.

use crate::alien::{
    cooled, drop_result, fallen_all, grid, lemma_grid_uniform,
    lemma_march_keeps_uniform, may_drop, swarm_moved, uniform, Alien, AlienBullet, AlienResource,
};
use crate::bunker::{all_standing, cells_from, layout, lemma_layout_whole, Bunker};
use crate::common::{
    travel, ALIENS_SPEED_KILL, ALIENS_SPEED_MAX, ALIENS_SPEED_START, ALIENS_TOTAL,
    BUNKER_MAX_DAMAGE, NR_LIVES, SCORE_ALIEN,
};
use crate::game_state::{
    advanced, after_events, aliens_after, bullets_after, bunkers_after, effect_within, in_wave,
    initial_store, lemma_events_keep_counters, lemma_new_wave_needs_play, player_after,
    player_after_events, reset_store,
    resource_after, state_transition_system, GameState, GameStateEvent, StateTransitionTimer,
    Store, TransitionEffect,
};
use crate::hit_detection::{
    aliens_from, bullets_from, collided, lemma_collided, PlaySoundEvent, Scene,
};
use crate::lazer::{fire_system, flown, triggered_by, FireLazerEvent, Lazer};
use crate::particle::Explosion;
use crate::player::{blink_update_system, steered_all, Player, PlayerEvent};
use crate::timer::{elapsed_after, expires_within, Timer};
use vstd::prelude::*;

verus! {

/// All the state of a game.
pub struct World {
    pub store: Store,
    pub timer: StateTransitionTimer,
    pub player: Player,
    pub lazer: Lazer,
    pub aliens: Vec<Alien>,
    pub alien_resource: AlienResource,
    pub alien_bullets: Vec<AlienBullet>,
    pub bunkers: Vec<Bunker>,
}

/// A game as a value of plain data.
pub struct Frame {
    pub store: Store,
    pub timer: Timer,
    pub player: Player,
    pub lazer: Lazer,
    pub aliens: Seq<Alien>,
    pub alien_resource: AlienResource,
    pub alien_bullets: Seq<AlienBullet>,
    pub bunkers: Seq<Bunker>,
}

/// What the player asks for in one tick. The intents are taken as they
/// come: it is for those who send them to hold back what the current
/// mode does not allow, as the keyboard and gamepad systems do.
pub struct Intents {
    pub fire: Vec<FireLazerEvent>,
    pub moves: Vec<PlayerEvent>,
    /// Requests to the state machine.
    pub requests: Vec<GameStateEvent>,
}

/// What one tick hands to those who show and play the game.
pub struct Outcome {
    /// The events that went to the state machine: the requests of the
    /// player, then what the collision pass had to tell.
    pub events: Vec<GameStateEvent>,
    pub sounds: Vec<PlaySoundEvent>,
    pub explosions: Vec<Explosion>,
    /// The setup that the state machine ran.
    pub effect: Option<TransitionEffect>,
    /// The alien that dropped a bullet, by its place in the swarm as it
    /// was when it dropped it.
    pub shooter: Option<usize>,
    /// Whether the ship is to be shown.
    pub visible: bool,
}

impl View for World {
    type V = Frame;

    open spec fn view(&self) -> Frame {
        Frame {
            store: self.store,
            timer: self.timer.0,
            player: self.player,
            lazer: self.lazer,
            aliens: self.aliens@,
            alien_resource: self.alien_resource,
            alien_bullets: self.alien_bullets@,
            bunkers: self.bunkers@,
        }
    }
}

impl Frame {
    /// The timer is within its period, the shared state is sound, the
    /// living and the killed make up one wave, the swarm heads one way
    /// and no cell shows more damage than it can.
    pub open spec fn wf(self) -> bool {
        &&& self.timer.wf()
        &&& self.store.wf()
        &&& self.store.aliens_killed + self.aliens.len() == ALIENS_TOTAL
        &&& uniform(self.aliens)
        &&& all_standing(self.bunkers)
    }
}

/// The game before the first tick.
pub open spec fn initial_frame() -> Frame {
    Frame {
        store: initial_store(),
        timer: Timer { duration: crate::common::STATE_TRANSITION_START, elapsed: 0 },
        player: Player {
            position: crate::player::start_position(),
            direction: crate::common::Direction3::Neutral,
            spawn_counter: 0,
        },
        lazer: Lazer::Idle,
        aliens: grid(),
        alien_resource: crate::alien::fresh_resource(),
        alien_bullets: Seq::empty(),
        bunkers: layout(),
    }
}

/// The scene that the collision pass of a tick finds: the shot has
/// taken the fire intents and flown, from a ship that has taken the move
/// intents; the bullets have fallen; the swarm has marched, and
/// `shooter` has dropped a bullet, if there is one. The requests of the
/// player are the first events of the tick.
pub open spec fn scene_of(
    frame: Frame,
    delta: u32,
    fire: Seq<FireLazerEvent>,
    moves: Seq<PlayerEvent>,
    requests: Seq<GameStateEvent>,
    shooter: Option<usize>,
) -> Scene {
    let player = steered_all(frame.player, moves, delta);
    let aliens = swarm_moved(
        frame.aliens,
        travel(frame.store.alien_speed, delta),
        frame.store.game_state is Play,
    );
    Scene {
        store: frame.store,
        lazer: flown(triggered_by(frame.lazer, fire), player, delta),
        player,
        aliens,
        bunkers: frame.bunkers,
        bullets: drop_result(
            aliens,
            cooled(frame.alien_resource, delta),
            fallen_all(frame.alien_bullets, delta),
            shooter,
        ).1,
        events: requests,
        sounds: Seq::empty(),
        explosions: Seq::empty(),
    }
}

/// The ship after one tick of its spawn sequence.
pub open spec fn blinked(player: Player) -> Player {
    Player {
        spawn_counter: if player.spawn_counter > 0 {
            (player.spawn_counter - 1) as u8
        } else {
            0
        },
        ..player
    }
}

/// The game after one tick in which `shooter` dropped a bullet, if there
/// is one: the collision pass has run on the scene it found, the state
/// machine has taken the events of the tick and `delta` time units, the
/// setup it asked for has been run, and the spawn sequence of the ship
/// has gone on by one.
pub open spec fn stepped(
    frame: Frame,
    delta: u32,
    fire: Seq<FireLazerEvent>,
    moves: Seq<PlayerEvent>,
    requests: Seq<GameStateEvent>,
    shooter: Option<usize>,
) -> Frame {
    let found = scene_of(frame, delta, fire, moves, requests, shooter);
    let scene = collided(found);
    let asked = after_events(scene.store, scene.events);
    let effect = effect_within(asked, frame.timer, delta);
    Frame {
        store: advanced(asked, frame.timer, delta),
        timer: Timer {
            duration: frame.timer.duration,
            elapsed: elapsed_after(frame.timer.duration, frame.timer.elapsed, delta) as u32,
        },
        player: blinked(
            player_after(effect, player_after_events(scene.player, scene.store, scene.events)),
        ),
        lazer: scene.lazer,
        aliens: aliens_after(effect, scene.aliens),
        alien_resource: resource_after(
            effect,
            drop_result(
                found.aliens,
                cooled(frame.alien_resource, delta),
                fallen_all(frame.alien_bullets, delta),
                shooter,
            ).0,
        ),
        alien_bullets: bullets_after(effect, scene.bullets),
        bunkers: bunkers_after(effect, scene.bunkers),
    }
}

impl World {
    /// See [`Frame::wf`].
    pub open spec fn wf(&self) -> bool {
        self@.wf()
    }

    /// A game before its first tick: on the attract screens, with a full
    /// swarm and whole bunkers.
    pub fn new() -> (world: World)
        ensures
            world@ == initial_frame(),
            world.wf(),
    {
        let (store, timer) = crate::game_state::setup();
        let (aliens, alien_resource) = crate::alien::setup();
        let bunkers = crate::bunker::setup();
        proof {
            lemma_grid_uniform();
            lemma_layout_whole();
        }
        World {
            store,
            timer,
            player: Player::new(),
            lazer: Lazer::Idle,
            aliens,
            alien_resource,
            alien_bullets: Vec::new(),
            bunkers,
        }
    }

    /// The game can take a tick of `delta` time units with the given fire
    /// intents: it is sound; the score has room for one more alien,
    /// unless the shot is at rest and stays there; and the number of the
    /// wave has room for one more wave, unless no game is on or the timer
    /// does not expire in this tick.
    pub open spec fn ready(&self, delta: u32, fire: Seq<FireLazerEvent>) -> bool {
        &&& self.wf()
        &&& !(self.lazer is Idle) || fire.len() > 0 ==> self.store.score + SCORE_ALIEN <= u32::MAX
        &&& in_wave(self.store.game_state) && expires_within(
            self.timer.0.duration,
            self.timer.0.elapsed,
            delta,
        ) ==> self.store.wave < u8::MAX
    }

    /// Tells whether the game can take a tick of `delta` time units with
    /// the given intents.
    pub fn can_tick(&self, delta: u32, intents: &Intents) -> (ok: bool)
        ensures
            ok == self.ready(delta, intents.fire@),
    {
        if !(self.timer.0.elapsed < self.timer.0.duration) {
            return false;
        }
        if self.store.aliens_killed > ALIENS_TOTAL || self.store.alien_speed > ALIENS_SPEED_MAX
            + ALIENS_SPEED_KILL * (self.store.aliens_killed as u32) {
            return false;
        }
        if self.aliens.len() != (ALIENS_TOTAL - self.store.aliens_killed) as usize {
            return false;
        }
        let at_rest = match self.lazer {
            Lazer::Idle => intents.fire.len() == 0,
            _ => false,
        };
        if !at_rest && self.store.score > u32::MAX - SCORE_ALIEN {
            return false;
        }
        let game_on = match self.store.game_state {
            GameState::Play | GameState::NewWave => true,
            _ => false,
        };
        let expires = self.timer.0.elapsed as u64 + delta as u64 >= self.timer.0.duration as u64;
        if game_on && expires && self.store.wave == u8::MAX {
            return false;
        }
        let mut i: usize = 1;
        while i < self.aliens.len()
            invariant
                1 <= i,
                forall|j: int|
                    0 <= j < i && j < self.aliens@.len() ==> (#[trigger] self.aliens@[j]).direction
                        == self.aliens@[0].direction,
            decreases self.aliens@.len() - i,
        {
            if self.aliens[i].direction != self.aliens[0].direction {
                return false;
            }
            i += 1;
        }
        let mut k: usize = 0;
        while k < self.bunkers.len()
            invariant
                k <= self.bunkers@.len(),
                forall|j: int|
                    0 <= j < k ==> (#[trigger] self.bunkers@[j]).damage <= BUNKER_MAX_DAMAGE,
            decreases self.bunkers@.len() - k,
        {
            if self.bunkers[k].damage > BUNKER_MAX_DAMAGE {
                return false;
            }
            k += 1;
        }
        true
    }

    /// Runs one tick of `delta` time units with the given intents.
    pub fn tick(&mut self, delta: u32, intents: &Intents) -> (outcome: Outcome)
        requires
            old(self).ready(delta, intents.fire@),
        ensures
            final(self).wf(),
            final(self)@ == stepped(
                old(self)@,
                delta,
                intents.fire@,
                intents.moves@,
                intents.requests@,
                outcome.shooter,
            ),
            outcome.shooter matches Some(k) ==> may_drop(
                scene_of(
                    old(self)@,
                    delta,
                    intents.fire@,
                    intents.moves@,
                    intents.requests@,
                    outcome.shooter,
                ).aliens,
                cooled(old(self).alien_resource, delta),
                k as int,
            ),
            outcome.events@ == collided(
                scene_of(
                    old(self)@,
                    delta,
                    intents.fire@,
                    intents.moves@,
                    intents.requests@,
                    outcome.shooter,
                ),
            ).events,
            outcome.sounds@ == collided(
                scene_of(
                    old(self)@,
                    delta,
                    intents.fire@,
                    intents.moves@,
                    intents.requests@,
                    outcome.shooter,
                ),
            ).sounds,
            outcome.explosions@ == collided(
                scene_of(
                    old(self)@,
                    delta,
                    intents.fire@,
                    intents.moves@,
                    intents.requests@,
                    outcome.shooter,
                ),
            ).explosions,
            outcome.effect == effect_within(
                after_events(
                    collided(
                        scene_of(
                            old(self)@,
                            delta,
                            intents.fire@,
                            intents.moves@,
                            intents.requests@,
                            outcome.shooter,
                        ),
                    ).store,
                    outcome.events@,
                ),
                old(self).timer.0,
                delta,
            ),
            outcome.visible == (final(self).player.spawn_counter % 2 == 0),
    {
        // the intents of the player, the ship and its shot
        fire_system(&mut self.lazer, &intents.fire);
        crate::player::update_system(&mut self.player, &intents.moves, delta);
        crate::lazer::update_system(&mut self.lazer, &self.player, delta);
        // the swarm and its bullets
        crate::alien::bullet_update_system(&mut self.alien_bullets, delta);
        let shooter = crate::alien::update_system(
            delta,
            &mut self.alien_resource,
            &self.store,
            &mut self.alien_bullets,
            &mut self.aliens,
        );
        // the collision pass
        let mut events: Vec<GameStateEvent> = Vec::new();
        let mut i: usize = 0;
        while i < intents.requests.len()
            invariant
                i <= intents.requests@.len(),
                events@ == intents.requests@.take(i as int),
            decreases intents.requests@.len() - i,
        {
            events.push(intents.requests[i]);
            i += 1;
        }
        assert(events@ =~= intents.requests@);
        let mut sounds: Vec<PlaySoundEvent> = Vec::new();
        let mut explosions: Vec<Explosion> = Vec::new();
        let ghost found = scene_of(
            old(self)@,
            delta,
            intents.fire@,
            intents.moves@,
            intents.requests@,
            shooter,
        );
        proof {
            lemma_collided(found);
        }
        crate::hit_detection::update_system(
            &mut self.store,
            &mut explosions,
            &mut events,
            &mut sounds,
            &mut self.aliens,
            &mut self.lazer,
            &mut self.bunkers,
            &mut self.alien_bullets,
            &self.player,
        );
        // the state machine
        let ghost scene = collided(found);
        proof {
            lemma_events_keep_counters(scene.store, scene.events);
            lemma_new_wave_needs_play(scene.store, scene.events);
            lemma_grid_uniform();
            lemma_layout_whole();
        }
        let effect = state_transition_system(
            delta,
            &mut self.store,
            &mut self.timer,
            &events,
            &mut self.aliens,
            &mut self.alien_bullets,
            &mut self.alien_resource,
            &mut self.bunkers,
            &mut self.player,
        );
        let visible = blink_update_system(&mut self.player);
        Outcome { events, sounds, explosions, effect, shooter, visible }
    }
}

/// The round trip of a game. Whatever has been played before, the tick
/// in which the state machine runs the full reset leaves the score at
/// zero, all lives, the first wave, no kills, the starting speed, a
/// full swarm and whole bunkers.
pub proof fn lemma_full_reset_restores(
    frame: Frame,
    delta: u32,
    fire: Seq<FireLazerEvent>,
    moves: Seq<PlayerEvent>,
    requests: Seq<GameStateEvent>,
    shooter: Option<usize>,
)
    requires
        effect_within(
            after_events(
                collided(scene_of(frame, delta, fire, moves, requests, shooter)).store,
                collided(scene_of(frame, delta, fire, moves, requests, shooter)).events,
            ),
            frame.timer,
            delta,
        ) == Some(TransitionEffect::FullReset),
    ensures
        ({
            let after = stepped(frame, delta, fire, moves, requests, shooter);
            &&& after.store == (Store { game_state: GameState::Play, ..reset_store() })
            &&& after.store.score == 0
            &&& after.store.lives == NR_LIVES
            &&& after.store.wave == 1
            &&& after.store.aliens_killed == 0
            &&& after.store.alien_speed == ALIENS_SPEED_START
            &&& after.aliens == grid()
            &&& after.alien_bullets == Seq::<AlienBullet>::empty()
            &&& after.bunkers == layout()
            &&& after.alien_resource == crate::alien::fresh_resource()
        }),
{
}

/// The invariants of a game hold at every tick boundary: a tick leads
/// from a sound game to a sound game. In particular no more aliens are
/// ever counted as killed than a wave has, and the swarm heads one way.
pub proof fn lemma_tick_keeps_wf(
    frame: Frame,
    delta: u32,
    fire: Seq<FireLazerEvent>,
    moves: Seq<PlayerEvent>,
    requests: Seq<GameStateEvent>,
    shooter: Option<usize>,
)
    requires
        frame.wf(),
    ensures
        stepped(frame, delta, fire, moves, requests, shooter).wf(),
        stepped(frame, delta, fire, moves, requests, shooter).store.aliens_killed <= ALIENS_TOTAL,
        uniform(stepped(frame, delta, fire, moves, requests, shooter).aliens),
{
    let found = scene_of(frame, delta, fire, moves, requests, shooter);
    lemma_march_keeps_uniform(
        frame.aliens,
        travel(frame.store.alien_speed, delta),
        frame.store.game_state is Play,
    );
    lemma_collided(found);
    let scene = collided(found);
    lemma_events_keep_counters(scene.store, scene.events);
    lemma_grid_uniform();
    lemma_layout_whole();
}

/// What is destroyed stays gone. The collision pass of a tick finds
/// the swarm and the bunkers as the tick before left them, and no
/// bullets but those that were left and one that may have been dropped.
/// It leaves what it found, without what was shot or used up. The next
/// tick starts from what it left, unless the state machine has set the
/// game up anew. This holds of every game, sound or not.
pub proof fn lemma_destroyed_stay_gone(
    frame: Frame,
    delta: u32,
    fire: Seq<FireLazerEvent>,
    moves: Seq<PlayerEvent>,
    requests: Seq<GameStateEvent>,
    shooter: Option<usize>,
)
    ensures
        ({
            let found = scene_of(frame, delta, fire, moves, requests, shooter);
            let scene = collided(found);
            let after = stepped(frame, delta, fire, moves, requests, shooter);
            let effect = effect_within(after_events(scene.store, scene.events), frame.timer, delta);
            &&& found.aliens.len() == frame.aliens.len()
            &&& found.bunkers == frame.bunkers
            &&& found.bullets.len() <= frame.alien_bullets.len() + 1
            &&& scene.aliens == found.aliens || exists|a: int|
                0 <= a < found.aliens.len() && scene.aliens == #[trigger] found.aliens.remove(a)
            &&& aliens_from(scene.aliens, found.aliens)
            &&& bullets_from(scene.bullets, found.bullets)
            &&& cells_from(scene.bunkers, found.bunkers)
            &&& scene.bullets.len() <= found.bullets.len()
            &&& scene.bunkers.len() <= found.bunkers.len()
            &&& effect is None ==> after.aliens == scene.aliens && after.alien_bullets
                == scene.bullets && after.bunkers == scene.bunkers
        }),
{
    let found = scene_of(frame, delta, fire, moves, requests, shooter);
    lemma_march_keeps_uniform(
        frame.aliens,
        travel(frame.store.alien_speed, delta),
        frame.store.game_state is Play,
    );
    crate::alien::lemma_fallen_all_len(frame.alien_bullets, delta);
    lemma_collided(found);
}

} // verus!
