//! The shared game state and the machine that leads a game through its
//! life: the attract screens, the start, play, the change of waves and the
//! end.

use crate::alien::{
    fresh_resource, grid, lemma_grid_uniform, Alien, AlienBullet, AlienResource,
};
use crate::bunker::{layout, lemma_layout_whole, Bunker};
use crate::common::{
    Direction3, ALIENS_SPEED_KILL, ALIENS_SPEED_MAX, ALIENS_SPEED_START, ALIENS_SPEED_WAVE,
    ALIENS_TOTAL, BUNKER_CELLS, NR_LIVES, PLAYER_SPAWN_COUNTER, STATE_TRANSITION_START,
};
use crate::player::Player;
use crate::timer::{elapsed_after, expires_within, Timer};
use vstd::prelude::*;

verus! {

/// The mode the game is in. `PlayerSpawn` carries the ticks that are left
/// until play goes on.
#[derive(Clone, Copy, Debug, PartialEq, Eq, Structural)]
pub enum GameState {
    GameOver,
    InsertCoin,
    LeaderBoard,
    Start,
    PlayerSpawn(u8),
    Play,
    NewWave,
}

/// What the other subsystems tell the state machine.
#[derive(Clone, Copy, Debug, PartialEq, Eq, Structural)]
pub enum GameStateEvent {
    LooseLife,
    NewWave,
    PressPlay,
    Info,
}

/// The setup that a transition asks of the rest of the game.
#[derive(Clone, Copy, Debug, PartialEq, Eq, Structural)]
pub enum TransitionEffect {
    /// A new game: a fresh swarm, whole bunkers, and the ship's spawn
    /// sequence armed.
    FullReset,
    /// A new wave: a fresh swarm; the bunkers stay as they are.
    NewWave,
}

#[derive(Clone, Copy, Debug, PartialEq, Eq, Structural)]
pub struct Store {
    pub score: u32,
    pub aliens_killed: u8,
    /// In pixels per second.
    pub alien_speed: u32,
    pub wave: u8,
    pub lives: u8,
    pub game_state: GameState,
}

/// The timer that drives the state machine.
#[derive(Clone, Copy, Debug, PartialEq, Eq, Structural)]
pub struct StateTransitionTimer(pub Timer);

/// The state before the first game.
pub open spec fn initial_store() -> Store {
    Store {
        score: 0,
        aliens_killed: 0,
        alien_speed: ALIENS_SPEED_START,
        wave: 1,
        lives: 0,
        game_state: GameState::InsertCoin,
    }
}

/// The state at the start of a game, but for the mode.
pub open spec fn reset_store() -> Store {
    Store { lives: NR_LIVES, ..initial_store() }
}

/// The speed of the swarm at the start of the next wave.
pub open spec fn next_wave_speed(speed: u32) -> u32 {
    if speed + ALIENS_SPEED_WAVE < ALIENS_SPEED_MAX {
        (speed + ALIENS_SPEED_WAVE) as u32
    } else {
        ALIENS_SPEED_MAX
    }
}

/// The state after one event. `PressPlay` counts on the attract screens
/// that wait for it, `LooseLife` and `NewWave` while a game is on, `Info`
/// never; elsewhere an event changes nothing.
pub open spec fn after_event(store: Store, event: GameStateEvent) -> Store {
    match (event, store.game_state) {
        (GameStateEvent::PressPlay, GameState::InsertCoin)
        | (GameStateEvent::PressPlay, GameState::LeaderBoard) => Store {
            game_state: GameState::Start,
            ..store
        },
        (GameStateEvent::LooseLife, GameState::Play)
        | (GameStateEvent::LooseLife, GameState::PlayerSpawn(_)) => if store.lives <= 1 {
            Store { lives: 0, game_state: GameState::GameOver, ..store }
        } else {
            Store {
                lives: (store.lives - 1) as u8,
                game_state: GameState::PlayerSpawn(PLAYER_SPAWN_COUNTER),
                ..store
            }
        },
        (GameStateEvent::NewWave, GameState::Play) => Store {
            game_state: GameState::NewWave,
            ..store
        },
        _ => store,
    }
}

/// The event costs a life and leaves one to go on with.
pub open spec fn respawns(store: Store, event: GameStateEvent) -> bool {
    &&& event is LooseLife
    &&& store.game_state is Play || store.game_state is PlayerSpawn
    &&& store.lives > 1
}

/// The state after the events of one tick, taken in order.
pub open spec fn after_events(store: Store, events: Seq<GameStateEvent>) -> Store
    decreases events.len(),
{
    if events.len() == 0 {
        store
    } else {
        after_event(after_events(store, events.drop_last()), events.last())
    }
}

/// The ship as the events of one tick leave it: put back to the start
/// with every life that is lost while one is left.
pub open spec fn player_after_events(
    player: Player,
    store: Store,
    events: Seq<GameStateEvent>,
) -> Player
    decreases events.len(),
{
    if events.len() == 0 {
        player
    } else if respawns(after_events(store, events.drop_last()), events.last()) {
        Player {
            position: crate::player::start_position(),
            direction: crate::common::Direction3::Neutral,
            spawn_counter: PLAYER_SPAWN_COUNTER,
        }
    } else {
        player_after_events(player, store, events.drop_last())
    }
}

/// The state after one tick of the spawn countdown.
pub open spec fn counted_down(store: Store) -> Store {
    match store.game_state {
        GameState::PlayerSpawn(n) => Store {
            game_state: if n <= 1 {
                GameState::Play
            } else {
                GameState::PlayerSpawn((n - 1) as u8)
            },
            ..store
        },
        _ => store,
    }
}

/// The state after the timer has come to the end of a period.
pub open spec fn after_expiry(store: Store) -> Store {
    match store.game_state {
        GameState::GameOver => Store { game_state: GameState::InsertCoin, ..store },
        GameState::InsertCoin => Store { game_state: GameState::LeaderBoard, ..store },
        GameState::LeaderBoard => Store { game_state: GameState::GameOver, ..store },
        GameState::Start => Store { game_state: GameState::Play, ..reset_store() },
        GameState::NewWave => Store {
            wave: (store.wave + 1) as u8,
            aliens_killed: 0,
            alien_speed: next_wave_speed(store.alien_speed),
            game_state: GameState::Play,
            ..store
        },
        GameState::Play => store,
        GameState::PlayerSpawn(_) => store,
    }
}

/// The setup that goes with leaving `state` when the timer expires.
pub open spec fn effect_of(state: GameState) -> Option<TransitionEffect> {
    match state {
        GameState::Start => Some(TransitionEffect::FullReset),
        GameState::NewWave => Some(TransitionEffect::NewWave),
        _ => None,
    }
}

/// The state after `delta` time units on a timer that shows `timer`: the
/// spawn countdown goes on by one, and if the timer expires the
/// transition is made.
pub open spec fn advanced(store: Store, timer: Timer, delta: u32) -> Store {
    if expires_within(timer.duration, timer.elapsed, delta) {
        after_expiry(counted_down(store))
    } else {
        counted_down(store)
    }
}

/// The setup that `delta` time units on a timer that shows `timer` ask
/// for.
pub open spec fn effect_within(store: Store, timer: Timer, delta: u32) -> Option<
    TransitionEffect,
> {
    if expires_within(timer.duration, timer.elapsed, delta) {
        effect_of(store.game_state)
    } else {
        None
    }
}

impl Default for Store {
    fn default() -> (store: Self)
        ensures
            store == initial_store(),
    {
        Store {
            score: 0,
            aliens_killed: 0,
            alien_speed: ALIENS_SPEED_START,
            wave: 1,
            lives: 0,
            game_state: GameState::InsertCoin,
        }
    }
}

impl Store {
    /// No more aliens are counted as killed than a wave has, and the swarm
    /// is no faster than the kills of this wave can have made it.
    pub open spec fn wf(&self) -> bool {
        &&& self.aliens_killed <= ALIENS_TOTAL
        &&& self.alien_speed <= ALIENS_SPEED_MAX + ALIENS_SPEED_KILL * self.aliens_killed
    }

    /// Puts score, lives, wave, kills and speed back to what they are at
    /// the start of a game.
    pub fn reset(&mut self)
        ensures
            *final(self) == reset_store(),
            final(self).score == 0,
            final(self).lives == NR_LIVES,
            final(self).wave == 1,
            final(self).aliens_killed == 0,
            final(self).alien_speed == ALIENS_SPEED_START,
            final(self).wf(),
    {
        *self = Store {
            score: 0,
            aliens_killed: 0,
            alien_speed: ALIENS_SPEED_START,
            wave: 1,
            lives: NR_LIVES,
            game_state: GameState::InsertCoin,
        };
    }

    /// Takes one event. Returns whether the ship is to respawn.
    pub fn on_event(&mut self, event: GameStateEvent) -> (respawn: bool)
        ensures
            *final(self) == after_event(*old(self), event),
            respawn == respawns(*old(self), event),
    {
        match event {
            GameStateEvent::PressPlay => {
                match self.game_state {
                    GameState::InsertCoin | GameState::LeaderBoard => {
                        self.game_state = GameState::Start;
                    },
                    _ => {},
                }
                false
            },
            GameStateEvent::LooseLife => {
                match self.game_state {
                    GameState::Play | GameState::PlayerSpawn(_) => {
                        if self.lives <= 1 {
                            self.lives = 0;
                            self.game_state = GameState::GameOver;
                            false
                        } else {
                            self.lives = self.lives - 1;
                            self.game_state = GameState::PlayerSpawn(PLAYER_SPAWN_COUNTER);
                            true
                        }
                    },
                    _ => false,
                }
            },
            GameStateEvent::NewWave => {
                match self.game_state {
                    GameState::Play => {
                        self.game_state = GameState::NewWave;
                    },
                    _ => {},
                }
                false
            },
            GameStateEvent::Info => false,
        }
    }
}

/// Builds the state before the first game and the timer of the state
/// machine.
pub fn setup() -> (r: (Store, StateTransitionTimer))
    ensures
        r.0 == initial_store(),
        r.1.0.wf(),
        r.1.0.duration == STATE_TRANSITION_START,
        r.1.0.elapsed == 0,
{
    (Store::default(), StateTransitionTimer(Timer::new(STATE_TRANSITION_START)))
}

/// Removes every item.
pub fn cleanup_state<T>(items: &mut Vec<T>)
    ensures
        final(items)@ == Seq::<T>::empty(),
{
    items.clear();
}

/// Lets `delta` time units pass on the state machine. Returns the setup
/// that the rest of the game has to run, if the timer expired on a mode
/// that asks for one.
pub fn advance(store: &mut Store, timer: &mut StateTransitionTimer, delta: u32) -> (effect: Option<
    TransitionEffect,
>)
    requires
        old(timer).0.wf(),
        old(store).game_state is NewWave && expires_within(
            old(timer).0.duration,
            old(timer).0.elapsed,
            delta,
        ) ==> old(store).wave < u8::MAX,
    ensures
        final(timer).0.wf(),
        final(timer).0.duration == old(timer).0.duration,
        final(timer).0.elapsed == elapsed_after(
            old(timer).0.duration,
            old(timer).0.elapsed,
            delta,
        ),
        *final(store) == advanced(*old(store), old(timer).0, delta),
        effect == effect_within(*old(store), old(timer).0, delta),
        old(store).wf() ==> final(store).wf(),
{
    let mut inner = timer.0;
    let finished = inner.tick(delta);
    *timer = StateTransitionTimer(inner);
    match store.game_state {
        GameState::PlayerSpawn(n) => {
            if n <= 1 {
                store.game_state = GameState::Play;
            } else {
                store.game_state = GameState::PlayerSpawn(n - 1);
            }
        },
        _ => {},
    }
    if !finished {
        return None;
    }
    match store.game_state {
        GameState::GameOver => {
            store.game_state = GameState::InsertCoin;
            None
        },
        GameState::InsertCoin => {
            store.game_state = GameState::LeaderBoard;
            None
        },
        GameState::LeaderBoard => {
            store.game_state = GameState::GameOver;
            None
        },
        GameState::Start => {
            store.reset();
            store.game_state = GameState::Play;
            Some(TransitionEffect::FullReset)
        },
        GameState::NewWave => {
            store.wave = store.wave + 1;
            store.aliens_killed = 0;
            store.alien_speed = if store.alien_speed < ALIENS_SPEED_MAX - ALIENS_SPEED_WAVE {
                store.alien_speed + ALIENS_SPEED_WAVE
            } else {
                ALIENS_SPEED_MAX
            };
            store.game_state = GameState::Play;
            Some(TransitionEffect::NewWave)
        },
        GameState::Play => None,
        GameState::PlayerSpawn(_) => None,
    }
}

/// The swarm after the setup that `effect` asks for.
pub open spec fn aliens_after(effect: Option<TransitionEffect>, aliens: Seq<Alien>) -> Seq<Alien> {
    match effect {
        Some(_) => grid(),
        None => aliens,
    }
}

/// The bullets after the setup that `effect` asks for.
pub open spec fn bullets_after(effect: Option<TransitionEffect>, bullets: Seq<AlienBullet>) -> Seq<
    AlienBullet,
> {
    match effect {
        Some(_) => Seq::empty(),
        None => bullets,
    }
}

/// What the swarm shares after the setup that `effect` asks for.
pub open spec fn resource_after(
    effect: Option<TransitionEffect>,
    resource: AlienResource,
) -> AlienResource {
    match effect {
        Some(_) => fresh_resource(),
        None => resource,
    }
}

/// The bunkers after the setup that `effect` asks for.
pub open spec fn bunkers_after(effect: Option<TransitionEffect>, bunkers: Seq<Bunker>) -> Seq<
    Bunker,
> {
    match effect {
        Some(TransitionEffect::FullReset) => layout(),
        _ => bunkers,
    }
}

/// The ship after the setup that `effect` asks for.
pub open spec fn player_after(effect: Option<TransitionEffect>, player: Player) -> Player {
    match effect {
        Some(TransitionEffect::FullReset) => Player {
            spawn_counter: PLAYER_SPAWN_COUNTER,
            ..player
        },
        _ => player,
    }
}

/// Runs the state machine for one tick: takes the events of the tick in
/// order, lets `delta` time units pass, and runs the setup that a
/// transition asks for. The tick in which a life is lost is the first of
/// the spawn countdown.
pub fn state_transition_system(
    delta: u32,
    store: &mut Store,
    timer: &mut StateTransitionTimer,
    events: &Vec<GameStateEvent>,
    aliens: &mut Vec<Alien>,
    alien_bullets: &mut Vec<AlienBullet>,
    alien_resource: &mut AlienResource,
    bunkers: &mut Vec<Bunker>,
    player: &mut Player,
) -> (effect: Option<TransitionEffect>)
    requires
        old(timer).0.wf(),
        after_events(*old(store), events@).game_state is NewWave && expires_within(
            old(timer).0.duration,
            old(timer).0.elapsed,
            delta,
        ) ==> old(store).wave < u8::MAX,
    ensures
        final(timer).0.wf(),
        final(timer).0.duration == old(timer).0.duration,
        final(timer).0.elapsed == elapsed_after(
            old(timer).0.duration,
            old(timer).0.elapsed,
            delta,
        ),
        *final(store) == advanced(after_events(*old(store), events@), old(timer).0, delta),
        effect == effect_within(after_events(*old(store), events@), old(timer).0, delta),
        final(aliens)@ == aliens_after(effect, old(aliens)@),
        final(alien_bullets)@ == bullets_after(effect, old(alien_bullets)@),
        *final(alien_resource) == resource_after(effect, *old(alien_resource)),
        final(bunkers)@ == bunkers_after(effect, old(bunkers)@),
        *final(player) == player_after(
            effect,
            player_after_events(*old(player), *old(store), events@),
        ),
        old(store).wf() ==> final(store).wf(),
{
    let mut i: usize = 0;
    while i < events.len()
        invariant
            i <= events@.len(),
            *store == after_events(*old(store), events@.take(i as int)),
            *player == player_after_events(*old(player), *old(store), events@.take(i as int)),
            store.wave == old(store).wave,
            old(store).wf() ==> store.wf(),
        decreases events@.len() - i,
    {
        proof {
            assert(events@.take(i + 1).drop_last() =~= events@.take(i as int));
        }
        if store.on_event(events[i]) {
            player.respawn();
        }
        i += 1;
    }
    proof {
        assert(events@.take(events@.len() as int) =~= events@);
    }
    let effect = advance(store, timer, delta);
    match effect {
        Some(TransitionEffect::FullReset) => {
            crate::alien::reset(aliens, alien_bullets, alien_resource);
            crate::bunker::reset(bunkers);
            player.arm_spawn();
        },
        Some(TransitionEffect::NewWave) => {
            crate::alien::reset(aliens, alien_bullets, alien_resource);
        },
        None => {},
    }
    effect
}

/// A game is on: it is being played or between two waves.
pub open spec fn in_wave(state: GameState) -> bool {
    state is Play || state is NewWave
}

/// Events lead to the change of waves only from play: outside a game no
/// events make one be on.
pub proof fn lemma_new_wave_needs_play(store: Store, events: Seq<GameStateEvent>)
    ensures
        in_wave(after_events(store, events).game_state) ==> in_wave(store.game_state),
    decreases events.len(),
{
    if events.len() > 0 {
        lemma_new_wave_needs_play(store, events.drop_last());
    }
}

/// Events never touch the score, the wave, the kills or the speed, and
/// never add a life.
pub proof fn lemma_events_keep_counters(store: Store, events: Seq<GameStateEvent>)
    ensures
        after_events(store, events).score == store.score,
        after_events(store, events).wave == store.wave,
        after_events(store, events).aliens_killed == store.aliens_killed,
        after_events(store, events).alien_speed == store.alien_speed,
        after_events(store, events).lives <= store.lives,
    decreases events.len(),
{
    if events.len() > 0 {
        lemma_events_keep_counters(store, events.drop_last());
    }
}

/// The full reset restores the shared state whatever was played before:
/// the transition out of `Start` leaves the score at zero, all lives, the
/// first wave, no kills and the starting speed, in `Play`.
pub proof fn lemma_start_resets(store: Store, timer: Timer, delta: u32)
    requires
        store.game_state is Start,
        expires_within(timer.duration, timer.elapsed, delta),
    ensures
        advanced(store, timer, delta) == (Store { game_state: GameState::Play, ..reset_store() }),
        advanced(store, timer, delta).score == 0,
        advanced(store, timer, delta).lives == NR_LIVES,
        advanced(store, timer, delta).wave == 1,
        advanced(store, timer, delta).aliens_killed == 0,
        advanced(store, timer, delta).alien_speed == ALIENS_SPEED_START,
        effect_within(store, timer, delta) == Some(TransitionEffect::FullReset),
{
}

/// While a game is being played the timer changes nothing: only events
/// lead out of `Play`.
pub proof fn lemma_play_waits_for_events(store: Store, timer: Timer, delta: u32)
    requires
        store.game_state is Play,
    ensures
        advanced(store, timer, delta) == store,
        effect_within(store, timer, delta) is None,
{
}

/// The spawn countdown takes as many ticks as it shows, whatever the
/// timer does meanwhile.
pub proof fn lemma_spawn_countdown(store: Store, timer: Timer, delta: u32, n: u8)
    requires
        store.game_state == GameState::PlayerSpawn(n),
    ensures
        n > 1 ==> advanced(store, timer, delta) == (Store {
            game_state: GameState::PlayerSpawn((n - 1) as u8),
            ..store
        }),
        n <= 1 ==> advanced(store, timer, delta) == (Store { game_state: GameState::Play, ..store }),
{
}

/// The start screen ignores every event: it is left by the timer only.
pub proof fn lemma_start_ignores_events(
    store: Store,
    events: Seq<GameStateEvent>,
    player: Player,
)
    requires
        store.game_state is Start,
    ensures
        after_events(store, events) == store,
        player_after_events(player, store, events) == player,
    decreases events.len(),
{
    if events.len() > 0 {
        lemma_start_ignores_events(store, events.drop_last(), player);
    }
}

/// The full reset. When the timer expires on the start screen, then
/// whatever the events of the tick are and whatever was played before,
/// the state machine leaves a game in play with no score, all lives,
/// the first wave, no kills and the starting speed; a full swarm that
/// heads to the right; no bullets; all cells of all bunkers, undamaged;
/// and a ship whose spawn sequence is armed.
pub proof fn lemma_full_reset(
    store: Store,
    timer: Timer,
    delta: u32,
    events: Seq<GameStateEvent>,
    aliens: Seq<Alien>,
    bullets: Seq<AlienBullet>,
    resource: AlienResource,
    bunkers: Seq<Bunker>,
    player: Player,
)
    requires
        store.game_state is Start,
        expires_within(timer.duration, timer.elapsed, delta),
    ensures
        ({
            let asked = after_events(store, events);
            let effect = effect_within(asked, timer, delta);
            let after = advanced(asked, timer, delta);
            let swarm = aliens_after(effect, aliens);
            let cells = bunkers_after(effect, bunkers);
            &&& effect == Some(TransitionEffect::FullReset)
            &&& after == (Store { game_state: GameState::Play, ..reset_store() })
            &&& after.game_state is Play
            &&& after.score == 0
            &&& after.lives == NR_LIVES
            &&& after.wave == 1
            &&& after.aliens_killed == 0
            &&& after.alien_speed == ALIENS_SPEED_START
            &&& swarm == grid()
            &&& swarm.len() == ALIENS_TOTAL
            &&& forall|i: int|
                0 <= i < swarm.len() ==> (#[trigger] swarm[i]).direction == Direction3::Right
            &&& bullets_after(effect, bullets) == Seq::<AlienBullet>::empty()
            &&& resource_after(effect, resource) == fresh_resource()
            &&& cells == layout()
            &&& cells.len() == BUNKER_CELLS
            &&& forall|i: int| 0 <= i < cells.len() ==> (#[trigger] cells[i]).damage == 0
            &&& player_after(effect, player_after_events(player, store, events)).spawn_counter
                == PLAYER_SPAWN_COUNTER
        }),
{
    lemma_start_ignores_events(store, events, player);
    lemma_grid_uniform();
    lemma_layout_whole();
}

/// The reset undoes every play: two full resets, from any two games,
/// leave the same shared state, the same swarm, the same bullets and
/// the same bunkers.
pub proof fn lemma_resets_agree(
    one: Store,
    other: Store,
    timer: Timer,
    other_timer: Timer,
    delta: u32,
    other_delta: u32,
    events: Seq<GameStateEvent>,
    other_events: Seq<GameStateEvent>,
    aliens: Seq<Alien>,
    other_aliens: Seq<Alien>,
    bullets: Seq<AlienBullet>,
    other_bullets: Seq<AlienBullet>,
    bunkers: Seq<Bunker>,
    other_bunkers: Seq<Bunker>,
)
    requires
        one.game_state is Start,
        other.game_state is Start,
        expires_within(timer.duration, timer.elapsed, delta),
        expires_within(other_timer.duration, other_timer.elapsed, other_delta),
    ensures
        ({
            let effect = effect_within(after_events(one, events), timer, delta);
            let other_effect = effect_within(
                after_events(other, other_events),
                other_timer,
                other_delta,
            );
            &&& advanced(after_events(one, events), timer, delta) == advanced(
                after_events(other, other_events),
                other_timer,
                other_delta,
            )
            &&& aliens_after(effect, aliens) == aliens_after(other_effect, other_aliens)
            &&& bullets_after(effect, bullets) == bullets_after(other_effect, other_bullets)
            &&& bunkers_after(effect, bunkers) == bunkers_after(other_effect, other_bunkers)
        }),
{
    let player = Player {
        position: crate::player::start_position(),
        direction: Direction3::Neutral,
        spawn_counter: 0,
    };
    lemma_start_ignores_events(one, events, player);
    lemma_start_ignores_events(other, other_events, player);
}

/// The living and the killed stay one wave through the state machine,
/// in every mode and whether the timer expires or not. After either
/// move into play that the timer makes, no alien counts as killed and
/// the swarm is full, so that the next wave can come to its end again.
pub proof fn lemma_machine_keeps_counts(
    store: Store,
    timer: Timer,
    delta: u32,
    events: Seq<GameStateEvent>,
    aliens: Seq<Alien>,
)
    requires
        store.aliens_killed + aliens.len() == ALIENS_TOTAL,
    ensures
        ({
            let asked = after_events(store, events);
            let effect = effect_within(asked, timer, delta);
            let after = advanced(asked, timer, delta);
            let swarm = aliens_after(effect, aliens);
            &&& after.aliens_killed <= ALIENS_TOTAL
            &&& after.aliens_killed + swarm.len() == ALIENS_TOTAL
            &&& effect is Some ==> after.aliens_killed == 0 && swarm.len() == ALIENS_TOTAL
                && after.game_state is Play
            &&& effect is None ==> after.aliens_killed == store.aliens_killed && swarm == aliens
        }),
{
    lemma_events_keep_counters(store, events);
    lemma_grid_uniform();
}

/// A request to play does not wait for the timer: on the screens that
/// wait for it, it leads to the start screen at once. The timer is
/// taken after the events of a tick, so that where it expires in the
/// same tick, the start screen is left for play in that tick, with the
/// full reset.
pub proof fn lemma_press_play(store: Store, timer: Timer, delta: u32)
    requires
        store.game_state is InsertCoin || store.game_state is LeaderBoard,
    ensures
        ({
            let asked = after_events(store, seq![GameStateEvent::PressPlay]);
            &&& asked == (Store { game_state: GameState::Start, ..store })
            &&& !expires_within(timer.duration, timer.elapsed, delta) ==> advanced(
                asked,
                timer,
                delta,
            ) == asked && effect_within(asked, timer, delta) is None
            &&& expires_within(timer.duration, timer.elapsed, delta) ==> advanced(
                asked,
                timer,
                delta,
            ) == (Store { game_state: GameState::Play, ..reset_store() }) && effect_within(
                asked,
                timer,
                delta,
            ) == Some(TransitionEffect::FullReset)
        }),
{
    let events = seq![GameStateEvent::PressPlay];
    assert(events.drop_last() =~= Seq::<GameStateEvent>::empty());
    assert(after_events(store, events.drop_last()) == store);
}

} // verus!
