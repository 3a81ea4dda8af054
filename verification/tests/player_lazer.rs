use bevy_space::bunker::{hit_bunker, reset as bunker_reset, setup as bunker_setup, Bunker};
use bevy_space::common::{Direction3, Vec2, PX};
use bevy_space::lazer::{fire_system, update_system as lazer_update, FireLazerEvent, Lazer};
use bevy_space::particle::{spawn_explosion, Explosion};
use bevy_space::player::{
    blink_update_system, update_system as player_update, Player, PlayerEvent,
};

fn ship(x: i64) -> Player {
    Player { position: Vec2 { x, y: -490 * PX }, direction: Direction3::Neutral, spawn_counter: 0 }
}

#[test]
fn new_ship_stands_at_the_start() {
    assert_eq!(Player::new(), ship(0));
}

#[test]
fn ship_moves_by_speed_magnitude_and_time() {
    let mut p = ship(0);
    player_update(&mut p, &vec![PlayerEvent(1000)], 100_000);
    assert_eq!(p.position, Vec2 { x: 50 * PX, y: -490 * PX });
    assert_eq!(p.direction, Direction3::Right);
    player_update(&mut p, &vec![PlayerEvent(-200)], 100_000);
    assert_eq!(p.position, Vec2 { x: 40 * PX, y: -490 * PX });
    assert_eq!(p.direction, Direction3::Left);
    player_update(&mut p, &vec![PlayerEvent(-1)], 1);
    assert_eq!(p.position.x, 40 * PX);
    player_update(&mut p, &vec![PlayerEvent(-3)], 1);
    assert_eq!(p.position.x, 40 * PX - 1);
}

#[test]
fn ship_without_intent_stands_still() {
    let mut p = Player { direction: Direction3::Left, ..ship(5) };
    player_update(&mut p, &Vec::new(), 100_000);
    assert_eq!(p, ship(5));
    player_update(&mut p, &vec![PlayerEvent(0)], 100_000);
    assert_eq!(p, ship(5));
}

#[test]
fn left_and_right_in_one_tick_cancel() {
    let mut p = ship(0);
    player_update(&mut p, &vec![PlayerEvent(-1000), PlayerEvent(1000)], 100_000);
    assert_eq!(p.position.x, 0);
    assert_eq!(p.direction, Direction3::Right);
}

#[test]
fn ship_stops_once_it_has_passed_the_side() {
    let mut p = ship(619 * PX);
    player_update(&mut p, &vec![PlayerEvent(1000)], 100_000);
    assert_eq!(p.position.x, 669 * PX);
    player_update(&mut p, &vec![PlayerEvent(1000)], 100_000);
    assert_eq!(p.position.x, 669 * PX);
    assert_eq!(p.direction, Direction3::Right);
    player_update(&mut p, &vec![PlayerEvent(-1000)], 100_000);
    assert_eq!(p.position.x, 619 * PX);
    let mut q = ship(-620 * PX);
    player_update(&mut q, &vec![PlayerEvent(-1000)], 100_000);
    assert_eq!(q.position.x, -620 * PX);
}

#[test]
fn strongest_intent_and_longest_tick() {
    let mut p = ship(0);
    player_update(&mut p, &vec![PlayerEvent(i32::MIN)], u32::MAX);
    assert_eq!(p.position.x, -4_611_686_017_353_646_080);
}

#[test]
fn respawn_puts_the_ship_back_and_arms_the_blink() {
    let mut p = Player { spawn_counter: 3, direction: Direction3::Left, ..ship(77) };
    p.respawn();
    assert_eq!(p, Player { spawn_counter: 20, ..ship(0) });
    let mut q = ship(77);
    q.arm_spawn();
    assert_eq!(q, Player { spawn_counter: 20, ..ship(77) });
}

#[test]
fn ship_blinks_while_it_spawns() {
    let mut p = Player { spawn_counter: 3, ..ship(0) };
    assert!(blink_update_system(&mut p));
    assert_eq!(p.spawn_counter, 2);
    assert!(!blink_update_system(&mut p));
    assert!(blink_update_system(&mut p));
    assert_eq!(p.spawn_counter, 0);
    assert!(blink_update_system(&mut p));
    assert_eq!(p.spawn_counter, 0);
}

#[test]
fn fire_intent_counts_only_at_rest() {
    let mut lazer = Lazer::Idle;
    lazer.fire();
    assert_eq!(lazer, Lazer::Fire);
    lazer.fire();
    assert_eq!(lazer, Lazer::Fire);
    let flying = Lazer::Fired(Vec2 { x: 1, y: 2 });
    let mut lazer = flying;
    lazer.fire();
    assert_eq!(lazer, flying);
}

#[test]
fn several_fire_intents_count_as_one() {
    let mut lazer = Lazer::Idle;
    fire_system(&mut lazer, &Vec::new());
    assert_eq!(lazer, Lazer::Idle);
    fire_system(&mut lazer, &vec![FireLazerEvent, FireLazerEvent]);
    assert_eq!(lazer, Lazer::Fire);
}

#[test]
fn shot_starts_at_the_muzzle_and_rises() {
    let p = ship(33 * PX);
    let mut lazer = Lazer::Fire;
    lazer_update(&mut lazer, &p, 100_000);
    assert_eq!(lazer, Lazer::Fired(Vec2 { x: 33 * PX, y: -440 * PX }));
    lazer_update(&mut lazer, &ship(0), 100_000);
    assert_eq!(lazer, Lazer::Fired(Vec2 { x: 33 * PX, y: -315 * PX }));
}

#[test]
fn shot_comes_to_rest_past_the_top() {
    let p = ship(0);
    let mut lazer = Lazer::Fired(Vec2 { x: 0, y: 490 * PX });
    lazer_update(&mut lazer, &p, 8_000);
    assert_eq!(lazer, Lazer::Fired(Vec2 { x: 0, y: 500 * PX }));
    lazer_update(&mut lazer, &p, 8_000);
    assert_eq!(lazer, Lazer::Idle);
    lazer_update(&mut lazer, &p, 8_000);
    assert_eq!(lazer, Lazer::Idle);
}

#[test]
fn bunkers_are_five_grids_of_four_by_six() {
    let bunkers = bunker_setup();
    assert_eq!(bunkers.len(), 120);
    assert!(bunkers.iter().all(|b| b.damage == 0));
    assert_eq!(bunkers[0].position, Vec2 { x: -536 * PX, y: -390 * PX });
    assert_eq!(bunkers[1].position, Vec2 { x: -520 * PX, y: -390 * PX });
    assert_eq!(bunkers[5].position, Vec2 { x: -456 * PX, y: -390 * PX });
    assert_eq!(bunkers[6].position, Vec2 { x: -536 * PX, y: -406 * PX });
    assert_eq!(bunkers[23].position, Vec2 { x: -456 * PX, y: -438 * PX });
    assert_eq!(bunkers[24].position, Vec2 { x: -288 * PX, y: -390 * PX });
    assert_eq!(bunkers[48 + 2].position, Vec2 { x: -8 * PX, y: -390 * PX });
    assert_eq!(bunkers[119].position, Vec2 { x: 536 * PX, y: -438 * PX });
}

#[test]
fn bunker_reset_repairs_everything() {
    let mut bunkers = bunker_setup();
    hit_bunker(&mut bunkers, 3);
    hit_bunker(&mut bunkers, 3);
    hit_bunker(&mut bunkers, 7);
    assert_eq!(bunkers[3].damage, 2);
    assert_eq!(bunkers[7].damage, 1);
    hit_bunker(&mut bunkers, 3);
    assert_eq!(bunkers.len(), 119);
    assert_eq!(bunkers[6].damage, 1);
    bunker_reset(&mut bunkers);
    assert_eq!(bunkers, bunker_setup());
}

#[test]
fn hit_removes_a_cell_that_shows_all_it_can() {
    let cell = |x: i64, damage: u8| Bunker { position: Vec2 { x, y: 0 }, damage };
    let mut bunkers = vec![cell(0, 0), cell(1, 2), cell(2, 1)];
    hit_bunker(&mut bunkers, 1);
    assert_eq!(bunkers, vec![cell(0, 0), cell(2, 1)]);
    hit_bunker(&mut bunkers, 1);
    assert_eq!(bunkers, vec![cell(0, 0), cell(2, 2)]);
}

#[test]
fn explosion_is_announced_as_given() {
    let mut explosions = Vec::new();
    let at = Vec2 { x: 1, y: 2 };
    let size = Vec2 { x: 3, y: 4 };
    spawn_explosion(&mut explosions, 5, at, 6, 7, size);
    assert_eq!(explosions, vec![Explosion { count: 5, position: at, speed: 6, spread: 7, size }]);
}
