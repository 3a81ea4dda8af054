use bevy_space::alien::{Alien, AlienBullet, AlienResource};
use bevy_space::bunker::{setup as bunker_setup, Bunker};
use bevy_space::common::{Direction3, Vec2, ALIENS_TOTAL, PX};
use bevy_space::game_state::{
    GameState, GameStateEvent, StateTransitionTimer, Store, TransitionEffect,
};
use bevy_space::hit_detection::PlaySoundEvent;
use bevy_space::lazer::{FireLazerEvent, Lazer};
use bevy_space::player::PlayerEvent;
use bevy_space::timer::Timer;
use bevy_space::world::{Intents, World};

fn nothing() -> Intents {
    Intents { fire: Vec::new(), moves: Vec::new(), requests: Vec::new() }
}

fn asking(request: GameStateEvent) -> Intents {
    Intents { requests: vec![request], ..nothing() }
}

fn firing() -> Intents {
    Intents { fire: vec![FireLazerEvent], ..nothing() }
}

fn sound(world: &World) -> bool {
    let first = world.aliens.first().map(|a| a.direction);
    world.store.aliens_killed as usize + world.aliens.len() == ALIENS_TOTAL as usize
        && world.store.aliens_killed <= ALIENS_TOTAL
        && world.aliens.iter().all(|a| Some(a.direction) == first)
        && world.bunkers.iter().all(|b| b.damage <= 2)
        && world.timer.0.elapsed < world.timer.0.duration
}

fn started() -> World {
    let mut world = World::new();
    world.tick(1, &asking(GameStateEvent::PressPlay));
    assert_eq!(world.store.game_state, GameState::Start);
    let outcome = world.tick(2_000_000, &nothing());
    assert_eq!(outcome.effect, Some(TransitionEffect::FullReset));
    assert_eq!(world.store.game_state, GameState::Play);
    world
}

#[test]
fn new_world_waits_for_a_coin() {
    let world = World::new();
    assert_eq!(world.store, Store::default());
    assert_eq!(world.timer, StateTransitionTimer(Timer { duration: 2_000_000, elapsed: 0 }));
    assert_eq!(world.lazer, Lazer::Idle);
    assert_eq!(world.aliens.len(), 55);
    assert_eq!(world.bunkers.len(), 120);
    assert!(world.alien_bullets.is_empty());
    assert_eq!(world.player.position, Vec2 { x: 0, y: -490 * PX });
    assert!(sound(&world));
}

#[test]
fn attract_screens_cycle_while_the_swarm_marches() {
    let mut world = World::new();
    let mut seen = Vec::new();
    for _ in 0..60 {
        let outcome = world.tick(100_000, &nothing());
        assert_eq!(outcome.effect, None);
        assert!(sound(&world));
        if seen.last() != Some(&world.store.game_state) {
            seen.push(world.store.game_state);
        }
    }
    assert_eq!(
        seen,
        vec![
            GameState::InsertCoin,
            GameState::LeaderBoard,
            GameState::GameOver,
            GameState::InsertCoin
        ]
    );
    assert!(world.aliens.iter().all(|a| a.position.y >= 150 * PX));
    assert_eq!(world.aliens[0].position.x, -440 * PX + 60 * 3 * PX);
    assert_eq!(world.bunkers, bunker_setup());
}

#[test]
fn press_play_starts_a_game() {
    let world = started();
    assert_eq!(world.store.lives, 3);
    assert_eq!(world.store.score, 0);
    assert_eq!(world.store.wave, 1);
    assert_eq!(world.player.spawn_counter, 19);
    assert_eq!(world.aliens[0].position, Vec2 { x: -440 * PX, y: 390 * PX });
    assert!(sound(&world));
}

#[test]
fn shot_fired_in_a_tick_flies_in_that_tick() {
    let mut world = started();
    world.player.position.x = 124 * PX;
    world.tick(10_000, &firing());
    assert_eq!(world.lazer, Lazer::Fired(Vec2 { x: 124 * PX, y: -440 * PX }));
    world.tick(10_000, &firing());
    assert_eq!(world.lazer, Lazer::Fired(Vec2 { x: 124 * PX, y: -427_500_000 }));
}

#[test]
fn shot_from_under_a_bunker_hits_it_at_once() {
    let mut world = started();
    let outcome = world.tick(10_000, &firing());
    assert_eq!(world.lazer, Lazer::Idle);
    assert_eq!(outcome.explosions.len(), 1);
    assert_eq!(outcome.explosions[0].count, 5);
    assert_eq!(outcome.explosions[0].position, Vec2 { x: 0, y: -440 * PX });
    assert_eq!(world.bunkers.iter().filter(|b| b.damage == 1).count(), 1);
    assert_eq!(world.bunkers[48 + 18 + 2].damage, 1);
}

#[test]
fn ship_moves_before_the_shot_leaves() {
    let mut world = started();
    world.player.position.x = 74 * PX;
    let intents = Intents { moves: vec![PlayerEvent(1000)], ..firing() };
    world.tick(100_000, &intents);
    assert_eq!(world.player.position.x, 124 * PX);
    assert_eq!(world.lazer, Lazer::Fired(Vec2 { x: 124 * PX, y: -440 * PX }));
}

#[test]
fn shot_through_the_gap_kills_the_lowest_alien_of_its_column() {
    let mut world = started();
    world.aliens.retain(|a| a.position.x == 40 * PX);
    world.store.aliens_killed = 50;
    world.store.alien_speed = 130;
    world.bunkers.clear();
    world.player.position.x = 40 * PX;
    world.alien_resource = AlienResource { bullet_spawn_timer: 0, bullet_interval: u32::MAX };
    let mut outcome = world.tick(0, &firing());
    let mut ticks = 0;
    while outcome.sounds.is_empty() {
        outcome = world.tick(0, &nothing());
        world.lazer = match world.lazer {
            Lazer::Fired(at) => Lazer::Fired(Vec2 { x: at.x, y: at.y + 10 * PX }),
            other => other,
        };
        ticks += 1;
        assert!(ticks < 100);
    }
    assert_eq!(outcome.sounds, vec![PlaySoundEvent::AlienHit]);
    assert_eq!(world.aliens.len(), 4);
    assert!(world.aliens.iter().all(|a| a.position.y > 150 * PX));
    assert_eq!(world.store.score, 10);
    assert_eq!(world.store.aliens_killed, 51);
    assert_eq!(world.store.alien_speed, 132);
    assert_eq!(world.lazer, Lazer::Idle);
    assert_eq!(outcome.explosions.len(), 1);
    assert!(sound(&world));
}

#[test]
fn last_kill_leads_to_the_next_wave() {
    let mut world = started();
    world.aliens = vec![Alien { position: Vec2 { x: 0, y: 0 }, direction: Direction3::Right }];
    world.store.aliens_killed = 54;
    world.store.alien_speed = 138;
    world.store.score = 540;
    world.lazer = Lazer::Fired(Vec2 { x: 0, y: 0 });
    world.timer = StateTransitionTimer(Timer { duration: 2_000_000, elapsed: 0 });
    let outcome = world.tick(0, &nothing());
    assert_eq!(outcome.events, vec![GameStateEvent::NewWave]);
    assert_eq!(world.store.game_state, GameState::NewWave);
    assert_eq!(world.store.aliens_killed, 55);
    assert!(world.aliens.is_empty());
    assert!(sound(&world));
    let outcome = world.tick(1_999_999, &nothing());
    assert_eq!(outcome.effect, None);
    assert!(outcome.events.is_empty());
    let outcome = world.tick(1, &nothing());
    assert_eq!(outcome.effect, Some(TransitionEffect::NewWave));
    assert_eq!(world.store.game_state, GameState::Play);
    assert_eq!(world.store.wave, 2);
    assert_eq!(world.store.aliens_killed, 0);
    assert_eq!(world.store.alien_speed, 100);
    assert_eq!(world.store.score, 550);
    assert_eq!(world.aliens.len(), 55);
    assert!(sound(&world));
}

#[test]
fn bullet_on_the_ship_costs_a_life_and_respawns_it() {
    let mut world = started();
    world.player.position.x = 100 * PX;
    world.alien_bullets = vec![AlienBullet { position: Vec2 { x: 100 * PX, y: -480 * PX } }];
    world.lazer = Lazer::Fired(Vec2 { x: 300 * PX, y: 0 });
    let outcome = world.tick(0, &nothing());
    assert_eq!(outcome.events, vec![GameStateEvent::LooseLife]);
    assert_eq!(world.store.lives, 2);
    assert_eq!(world.store.game_state, GameState::PlayerSpawn(19));
    assert_eq!(world.lazer, Lazer::Idle);
    assert!(world.alien_bullets.is_empty());
    assert_eq!(world.player.position, Vec2 { x: 0, y: -490 * PX });
    assert_eq!(world.player.spawn_counter, 19);
    assert!(!outcome.visible);
    assert_eq!(outcome.explosions.len(), 1);
    assert_eq!(outcome.explosions[0].count, 100);
}

#[test]
fn three_lost_lives_end_the_game() {
    let mut world = started();
    for lives in [2u8, 1, 0] {
        world.alien_bullets = vec![AlienBullet { position: world.player.position }];
        world.tick(0, &nothing());
        assert_eq!(world.store.lives, lives);
    }
    assert_eq!(world.store.game_state, GameState::GameOver);
    world.tick(1, &asking(GameStateEvent::PressPlay));
    assert_eq!(world.store.game_state, GameState::GameOver);
    world.alien_bullets = vec![AlienBullet { position: world.player.position }];
    let outcome = world.tick(1, &nothing());
    assert_eq!(outcome.events, vec![GameStateEvent::LooseLife]);
    assert_eq!(world.store.lives, 0);
    assert_eq!(world.store.game_state, GameState::GameOver);
}

#[test]
fn reset_after_play_restores_the_game() {
    let mut world = started();
    world.store.score = 1_230;
    world.store.wave = 4;
    world.store.lives = 1;
    world.store.aliens_killed = 53;
    world.store.alien_speed = 190;
    world.aliens.truncate(2);
    world.bunkers = vec![Bunker { position: Vec2 { x: 0, y: 0 }, damage: 2 }];
    world.alien_bullets = vec![AlienBullet { position: world.player.position }];
    world.timer = StateTransitionTimer(Timer { duration: 2_000_000, elapsed: 0 });
    world.tick(0, &nothing());
    assert_eq!(world.store.game_state, GameState::GameOver);
    world.tick(2_000_000, &nothing());
    assert_eq!(world.store.game_state, GameState::InsertCoin);
    world.tick(0, &asking(GameStateEvent::PressPlay));
    let outcome = world.tick(2_000_000, &nothing());
    assert_eq!(outcome.effect, Some(TransitionEffect::FullReset));
    let fresh = World::new();
    assert_eq!(
        world.store,
        Store {
            score: 0,
            aliens_killed: 0,
            alien_speed: 30,
            wave: 1,
            lives: 3,
            game_state: GameState::Play
        }
    );
    assert_eq!(world.aliens, fresh.aliens);
    assert_eq!(world.bunkers, fresh.bunkers);
    assert!(world.alien_bullets.is_empty());
    assert_eq!(world.alien_resource, fresh.alien_resource);
}

#[test]
fn long_game_stays_sound() {
    let mut world = started();
    let mut kills = 0;
    for step in 0..3_000u32 {
        let intents = Intents {
            fire: vec![FireLazerEvent],
            moves: vec![PlayerEvent(if (step / 200) % 2 == 0 { 1000 } else { -1000 })],
            requests: if step % 500 == 0 { vec![GameStateEvent::PressPlay] } else { Vec::new() },
        };
        let before = world.store.aliens_killed;
        let outcome = world.tick(16_667, &intents);
        assert!(sound(&world));
        if world.store.aliens_killed == before + 1 {
            kills += 1;
        }
        let waves = outcome.events.iter().filter(|e| **e == GameStateEvent::NewWave).count();
        let full = world.store.aliens_killed == ALIENS_TOTAL && before + 1 == ALIENS_TOTAL;
        assert_eq!(waves, if full { 1 } else { 0 });
        if let Some(k) = outcome.shooter {
            assert!(k < 55);
        }
        assert_eq!(outcome.visible, world.player.spawn_counter % 2 == 0);
    }
    assert!(kills > 0);
}

#[test]
fn attract_screens_go_on_at_the_last_wave() {
    let mut world = World::new();
    world.store.wave = u8::MAX;
    world.store.score = u32::MAX;
    assert!(world.can_tick(2_000_000, &nothing()));
    world.tick(2_000_000, &nothing());
    assert_eq!(world.store.game_state, GameState::LeaderBoard);
    assert!(world.can_tick(1, &asking(GameStateEvent::PressPlay)));
    world.tick(1, &asking(GameStateEvent::PressPlay));
    assert!(world.can_tick(2_000_000, &nothing()));
    let outcome = world.tick(2_000_000, &nothing());
    assert_eq!(outcome.effect, Some(TransitionEffect::FullReset));
    assert_eq!(world.store.wave, 1);
    assert_eq!(world.store.score, 0);
}

#[test]
fn last_wave_cannot_take_the_tick_that_may_end_it() {
    let mut world = started();
    world.store.wave = u8::MAX;
    world.timer = StateTransitionTimer(Timer { duration: 2_000_000, elapsed: 0 });
    assert!(world.can_tick(1_999_999, &nothing()));
    assert!(!world.can_tick(2_000_000, &nothing()));
    world.store.wave = u8::MAX - 1;
    assert!(world.can_tick(2_000_000, &nothing()));
}

#[test]
fn full_score_can_tick_while_the_shot_rests() {
    let mut world = started();
    world.store.score = u32::MAX - 9;
    assert!(world.can_tick(1, &nothing()));
    assert!(!world.can_tick(1, &firing()));
    world.lazer = Lazer::Fired(Vec2 { x: 0, y: 0 });
    assert!(!world.can_tick(1, &nothing()));
    world.store.score = u32::MAX - 10;
    assert!(world.can_tick(1, &firing()));
    world.lazer = Lazer::Idle;
    world.store.score = u32::MAX;
    world.alien_bullets = vec![AlienBullet { position: world.player.position }];
    let outcome = world.tick(1, &nothing());
    assert_eq!(outcome.events, vec![GameStateEvent::LooseLife]);
    assert_eq!(world.store.score, u32::MAX);
}

#[test]
fn unsound_world_cannot_tick() {
    let mut world = World::new();
    world.aliens.pop();
    assert!(!world.can_tick(1, &nothing()));
    let mut world = World::new();
    world.aliens[7].direction = Direction3::Left;
    assert!(!world.can_tick(1, &nothing()));
    let mut world = World::new();
    world.bunkers[3].damage = 3;
    assert!(!world.can_tick(1, &nothing()));
    let mut world = World::new();
    world.timer = StateTransitionTimer(Timer { duration: 5, elapsed: 5 });
    assert!(!world.can_tick(1, &nothing()));
    let mut world = World::new();
    world.store.alien_speed = 101;
    assert!(!world.can_tick(1, &nothing()));
}
