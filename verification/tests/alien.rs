use bevy_space::alien::{
    animate_update_system, bullet_update_system, drop_bullet, drop_bullets, drop_odds, front_row,
    march, pick_shooter, reset, setup, setup_borrowed, update_system, Alien, AlienBullet,
    AlienResource, Animation, AnimationIndices, AnimationTimer,
};
use bevy_space::common::{
    Direction3, Vec2, ALIENS_TOTAL, ALIEN_BULLET_INTERVAL, PX, SCENE_HEIGHT, SCENE_WIDTH,
};
use bevy_space::game_state::{GameState, Store};
use bevy_space::timer::Timer;

fn px(x: i64, y: i64) -> Vec2 {
    Vec2 { x: x * PX, y: y * PX }
}

fn heading(x: i64, y: i64, direction: Direction3) -> Alien {
    Alien { position: px(x, y), direction }
}

fn playing(speed: u32) -> Store {
    Store {
        score: 0,
        aliens_killed: 0,
        alien_speed: speed,
        wave: 1,
        lives: 3,
        game_state: GameState::Play,
    }
}

fn ready() -> AlienResource {
    AlienResource { bullet_spawn_timer: 250_001, bullet_interval: 250_000 }
}

#[test]
fn grid_has_five_rows_of_eleven() {
    let (aliens, resource) = setup();
    assert_eq!(aliens.len(), 55);
    assert_eq!(aliens[0], heading(-440, 390, Direction3::Right));
    assert_eq!(aliens[1], heading(-360, 390, Direction3::Right));
    assert_eq!(aliens[10], heading(360, 390, Direction3::Right));
    assert_eq!(aliens[11], heading(-440, 330, Direction3::Right));
    assert_eq!(aliens[54], heading(360, 150, Direction3::Right));
    assert!(aliens.iter().all(|a| a.direction == Direction3::Right));
    assert_eq!(
        resource,
        AlienResource { bullet_spawn_timer: 0, bullet_interval: ALIEN_BULLET_INTERVAL }
    );
}

#[test]
fn setup_borrowed_adds_to_what_is_there() {
    let mut aliens = vec![heading(1, 2, Direction3::Left)];
    setup_borrowed(&mut aliens);
    assert_eq!(aliens.len(), 56);
    assert_eq!(aliens[0], heading(1, 2, Direction3::Left));
    assert_eq!(aliens[1], heading(-440, 390, Direction3::Right));
    assert_eq!(aliens[55], heading(360, 150, Direction3::Right));
}

#[test]
fn reset_restores_a_full_swarm() {
    let mut aliens = vec![heading(1, 2, Direction3::Left)];
    let mut bullets = vec![AlienBullet { position: px(0, 0) }];
    let mut resource = AlienResource { bullet_spawn_timer: 77, bullet_interval: 5 };
    reset(&mut aliens, &mut bullets, &mut resource);
    let (fresh, fresh_resource) = setup();
    assert_eq!(aliens, fresh);
    assert!(bullets.is_empty());
    assert_eq!(resource, fresh_resource);
}

#[test]
fn swarm_marches_by_speed_times_time() {
    let mut aliens = vec![heading(0, 100, Direction3::Right), heading(80, 100, Direction3::Right)];
    march(&mut aliens, 30, 1_000_000, true);
    assert_eq!(
        aliens,
        vec![heading(30, 100, Direction3::Right), heading(110, 100, Direction3::Right)]
    );
    march(&mut aliens, 32, 500_000, true);
    assert_eq!(
        aliens,
        vec![heading(46, 100, Direction3::Right), heading(126, 100, Direction3::Right)]
    );
}

#[test]
fn swarm_heading_left_marches_left() {
    let mut aliens = vec![heading(0, 100, Direction3::Left)];
    march(&mut aliens, 30, 16_667, true);
    assert_eq!(aliens[0].position, Vec2 { x: -500_010, y: 100 * PX });
    assert_eq!(aliens[0].direction, Direction3::Left);
}

#[test]
fn neutral_alien_stands_still() {
    let mut aliens = vec![heading(700, 100, Direction3::Neutral)];
    march(&mut aliens, 30, 1_000_000, true);
    assert_eq!(aliens, vec![heading(700, 100, Direction3::Neutral)]);
}

#[test]
fn one_column_past_the_left_side_turns_the_whole_swarm() {
    let mut aliens = vec![
        heading(-619, 300, Direction3::Left),
        heading(-619, 240, Direction3::Left),
        heading(-219, 300, Direction3::Left),
        heading(181, 240, Direction3::Left),
    ];
    march(&mut aliens, 30, 100_000, true);
    assert_eq!(
        aliens,
        vec![
            heading(-622, 260, Direction3::Right),
            heading(-622, 200, Direction3::Right),
            heading(-222, 260, Direction3::Right),
            heading(178, 200, Direction3::Right),
        ]
    );
}

#[test]
fn swarm_turns_at_the_right_side() {
    let mut aliens = vec![heading(0, 300, Direction3::Right), heading(619, 300, Direction3::Right)];
    march(&mut aliens, 30, 100_000, true);
    assert!(aliens.iter().all(|a| a.direction == Direction3::Left));
    assert_eq!(aliens[0].position, px(3, 260));
    assert_eq!(aliens[1].position, px(622, 260));
}

#[test]
fn swarm_on_the_side_has_not_passed_it() {
    let mut aliens = vec![heading(617, 300, Direction3::Right)];
    march(&mut aliens, 30, 100_000, true);
    assert_eq!(aliens, vec![heading(620, 300, Direction3::Right)]);
    let mut left = vec![heading(-617, 300, Direction3::Left)];
    march(&mut left, 30, 100_000, true);
    assert_eq!(left, vec![heading(-620, 300, Direction3::Left)]);
}

#[test]
fn swarm_does_not_descend_outside_play() {
    let mut aliens = vec![heading(619, 300, Direction3::Right), heading(0, 240, Direction3::Right)];
    march(&mut aliens, 30, 100_000, false);
    assert_eq!(
        aliens,
        vec![heading(622, 300, Direction3::Left), heading(3, 240, Direction3::Left)]
    );
}

#[test]
fn swarm_stops_descending_at_the_floor() {
    let mut aliens =
        vec![heading(619, 300, Direction3::Right), heading(0, -390, Direction3::Right)];
    march(&mut aliens, 30, 100_000, true);
    assert_eq!(
        aliens,
        vec![heading(622, 300, Direction3::Left), heading(3, -390, Direction3::Left)]
    );
    let mut above = vec![heading(619, 300, Direction3::Right)];
    above.push(Alien { position: Vec2 { x: 0, y: -390 * PX + 1 }, direction: Direction3::Right });
    march(&mut above, 30, 100_000, true);
    assert_eq!(above[0].position, px(622, 260));
    assert_eq!(above[1].position, Vec2 { x: 3 * PX, y: -430 * PX + 1 });
}

#[test]
fn turned_swarm_marches_back_without_turning_again() {
    let mut aliens = vec![heading(619, 300, Direction3::Right)];
    march(&mut aliens, 30, 100_000, true);
    assert_eq!(aliens, vec![heading(622, 260, Direction3::Left)]);
    march(&mut aliens, 30, 100_000, true);
    assert_eq!(aliens, vec![heading(619, 260, Direction3::Left)]);
}

#[test]
fn empty_swarm_stays_empty() {
    let mut aliens: Vec<Alien> = Vec::new();
    march(&mut aliens, 30, 100_000, true);
    assert!(aliens.is_empty());
    let mut bullets = Vec::new();
    let mut resource = ready();
    assert_eq!(drop_bullets(&aliens, &mut resource, &mut bullets), None);
    assert!(bullets.is_empty());
    assert_eq!(resource, ready());
}

#[test]
fn march_stops_at_the_end_of_the_range() {
    let mut aliens = vec![Alien {
        position: Vec2 { x: i64::MAX - 5, y: 0 },
        direction: Direction3::Right,
    }];
    march(&mut aliens, u32::MAX, u32::MAX, false);
    assert_eq!(aliens[0].position.x, i64::MAX);
    assert_eq!(aliens[0].direction, Direction3::Left);
}

#[test]
fn swarm_that_is_not_ready_drops_nothing() {
    let (aliens, _) = setup();
    let mut bullets = Vec::new();
    let mut resource = AlienResource { bullet_spawn_timer: 250_000, bullet_interval: 250_000 };
    for _ in 0..50 {
        assert_eq!(drop_bullets(&aliens, &mut resource, &mut bullets), None);
    }
    assert!(bullets.is_empty());
    assert_eq!(resource.bullet_spawn_timer, 250_000);
}

#[test]
fn single_column_always_drops_from_its_front() {
    let aliens = vec![
        heading(100, 300, Direction3::Right),
        heading(100, 180, Direction3::Right),
        heading(100, 240, Direction3::Right),
    ];
    let mut bullets = Vec::new();
    let mut resource = ready();
    assert_eq!(drop_bullets(&aliens, &mut resource, &mut bullets), Some(1));
    assert_eq!(bullets, vec![AlienBullet { position: px(100, 180) }]);
    assert_eq!(resource, AlienResource { bullet_spawn_timer: 0, bullet_interval: 250_000 });
    assert_eq!(drop_bullets(&aliens, &mut resource, &mut bullets), None);
    assert_eq!(bullets.len(), 1);
}

#[test]
fn column_is_the_whole_pixel_towards_zero() {
    let aliens = vec![
        Alien { position: Vec2 { x: -999_999, y: 10 }, direction: Direction3::Right },
        Alien { position: Vec2 { x: 999_999, y: 5 }, direction: Direction3::Right },
    ];
    let mut bullets = Vec::new();
    let mut resource = ready();
    assert_eq!(drop_bullets(&aliens, &mut resource, &mut bullets), Some(1));
    assert_eq!(bullets, vec![AlienBullet { position: Vec2 { x: 999_999, y: 5 } }]);
}

#[test]
fn equally_low_aliens_of_a_column_are_both_in_front() {
    let aliens = vec![
        Alien { position: Vec2 { x: 5 * PX + 1, y: 7 }, direction: Direction3::Right },
        Alien { position: Vec2 { x: 5 * PX + 2, y: 7 }, direction: Direction3::Right },
    ];
    let mut bullets = Vec::new();
    let mut resource = ready();
    assert_eq!(drop_bullets(&aliens, &mut resource, &mut bullets), Some(0));
    assert_eq!(bullets, vec![AlienBullet { position: Vec2 { x: 5 * PX + 1, y: 7 } }]);
}

#[test]
fn only_front_aliens_drop_and_one_per_tick_at_most() {
    let (aliens, _) = setup();
    let mut drops = 0;
    let mut quiet = 0;
    for _ in 0..400 {
        let mut bullets = Vec::new();
        let mut resource = ready();
        match drop_bullets(&aliens, &mut resource, &mut bullets) {
            Some(k) => {
                drops += 1;
                assert!(k >= 44);
                assert_eq!(bullets, vec![AlienBullet { position: aliens[k].position }]);
                assert_eq!(resource.bullet_spawn_timer, 0);
            }
            None => {
                quiet += 1;
                assert!(bullets.is_empty());
                assert_eq!(resource, ready());
            }
        }
    }
    assert!(drops > 0);
    assert!(quiet > 0);
}

#[test]
fn chance_to_drop_takes_the_roll_and_the_interval() {
    let mut bullets = Vec::new();
    let mut resource = ready();
    drop_bullet(&mut resource, &mut bullets, px(1, 2), false);
    assert!(bullets.is_empty());
    assert_eq!(resource, ready());
    drop_bullet(&mut resource, &mut bullets, px(1, 2), true);
    assert_eq!(bullets, vec![AlienBullet { position: px(1, 2) }]);
    assert_eq!(resource.bullet_spawn_timer, 0);
    drop_bullet(&mut resource, &mut bullets, px(3, 4), true);
    assert_eq!(bullets.len(), 1);
}

#[test]
fn update_marches_then_drops_from_where_the_alien_stands() {
    let mut aliens = vec![heading(0, 100, Direction3::Right)];
    let mut bullets = Vec::new();
    let mut resource = AlienResource { bullet_spawn_timer: 200_000, bullet_interval: 250_000 };
    let store = playing(30);
    assert_eq!(update_system(50_000, &mut resource, &store, &mut bullets, &mut aliens), None);
    assert_eq!(resource.bullet_spawn_timer, 250_000);
    assert_eq!(aliens[0].position, Vec2 { x: 1_500_000, y: 100 * PX });
    assert_eq!(update_system(1, &mut resource, &store, &mut bullets, &mut aliens), Some(0));
    assert_eq!(aliens[0].position, Vec2 { x: 1_500_030, y: 100 * PX });
    assert_eq!(bullets, vec![AlienBullet { position: Vec2 { x: 1_500_030, y: 100 * PX } }]);
    assert_eq!(resource.bullet_spawn_timer, 0);
}

#[test]
fn time_since_the_last_bullet_stops_at_the_end_of_its_range() {
    let mut aliens: Vec<Alien> = Vec::new();
    let mut bullets = Vec::new();
    let mut resource = AlienResource { bullet_spawn_timer: u32::MAX - 1, bullet_interval: 5 };
    update_system(7, &mut resource, &playing(30), &mut bullets, &mut aliens);
    assert_eq!(resource.bullet_spawn_timer, u32::MAX);
}

#[test]
fn update_keeps_the_swarm_heading_one_way() {
    let (mut aliens, mut resource) = setup();
    let mut bullets = Vec::new();
    let store = playing(100);
    for _ in 0..400 {
        update_system(100_000, &mut resource, &store, &mut bullets, &mut aliens);
        let first = aliens[0].direction;
        assert!(aliens.iter().all(|a| a.direction == first));
        assert_eq!(aliens.len(), ALIENS_TOTAL as usize);
    }
    assert!(aliens.iter().any(|a| a.position.y != 390 * PX));
}

#[test]
fn bullets_fall_and_leave_at_the_bottom() {
    let mut bullets = vec![
        AlienBullet { position: px(1, 100) },
        AlienBullet { position: Vec2 { x: 2, y: -SCENE_HEIGHT - 1 } },
        AlienBullet { position: Vec2 { x: 3, y: -SCENE_HEIGHT } },
    ];
    bullet_update_system(&mut bullets, 100_000);
    assert_eq!(
        bullets,
        vec![
            AlienBullet { position: px(1, 70) },
            AlienBullet { position: Vec2 { x: 3, y: -SCENE_HEIGHT - 30 * PX } },
        ]
    );
    bullet_update_system(&mut bullets, 0);
    assert_eq!(bullets, vec![AlienBullet { position: px(1, 70) }]);
}

#[test]
fn scene_is_as_wide_as_the_swarm_needs() {
    assert_eq!(SCENE_WIDTH, 620 * PX);
    assert_eq!(SCENE_HEIGHT, 490 * PX);
}

#[test]
fn animation_shows_the_next_picture_when_its_timer_expires() {
    let indices = AnimationIndices { first: 0, last: 3 };
    let timer = AnimationTimer(Timer::new(50_000));
    let mut animations = vec![
        Animation { indices, timer, index: 0 },
        Animation { indices, timer, index: 3 },
        Animation { indices, timer: AnimationTimer(Timer::new(80_000)), index: 1 },
    ];
    animate_update_system(60_000, &mut animations);
    assert_eq!(animations[0].index, 1);
    assert_eq!(animations[0].timer.0.elapsed, 10_000);
    assert_eq!(animations[1].index, 0);
    assert_eq!(animations[2].index, 1);
    assert_eq!(animations[2].timer.0.elapsed, 60_000);
    animate_update_system(20_000, &mut animations);
    assert_eq!(animations[0].index, 1);
    assert_eq!(animations[2].index, 2);
    assert_eq!(animations[2].timer.0.elapsed, 0);
}

#[test]
fn front_row_of_the_grid_is_its_bottom_row() {
    let (aliens, _) = setup();
    let fronts = front_row(&aliens);
    assert_eq!(fronts.len(), 55);
    for (i, front) in fronts.iter().enumerate() {
        assert_eq!(*front, i >= 44);
    }
    assert!(front_row(&Vec::new()).is_empty());
}

#[test]
fn front_row_follows_the_gaps_of_the_swarm() {
    let aliens = vec![
        heading(0, 300, Direction3::Right),
        heading(80, 300, Direction3::Right),
        heading(0, 240, Direction3::Right),
        heading(160, 300, Direction3::Right),
        heading(160, 300, Direction3::Right),
    ];
    assert_eq!(front_row(&aliens), vec![false, true, true, true, true]);
}

#[test]
fn odds_are_one_in_the_number_of_columns() {
    let (mut aliens, _) = setup();
    assert_eq!(drop_odds(&aliens), (1, 11));
    aliens.retain(|a| a.position.x != 40 * PX && a.position.x != -440 * PX);
    assert_eq!(drop_odds(&aliens), (1, 9));
    aliens.truncate(1);
    assert_eq!(drop_odds(&aliens), (1, 1));
    assert_eq!(drop_odds(&Vec::new()), (1, 0));
    march(&mut aliens, 30, 16_667, false);
    assert_eq!(drop_odds(&aliens), (1, 1));
}

#[test]
fn first_front_alien_with_a_winning_draw_drops() {
    let (aliens, _) = setup();
    let mut draws = vec![false; 55];
    draws[3] = true;
    draws[47] = true;
    draws[50] = true;
    let mut bullets = vec![AlienBullet { position: px(1, 1) }];
    let mut resource = ready();
    assert_eq!(pick_shooter(&aliens, &mut resource, &mut bullets, &draws), Some(47));
    assert_eq!(
        bullets,
        vec![AlienBullet { position: px(1, 1) }, AlienBullet { position: px(-200, 150) }]
    );
    assert_eq!(resource, AlienResource { bullet_spawn_timer: 0, bullet_interval: 250_000 });
    assert_eq!(pick_shooter(&aliens, &mut resource, &mut bullets, &draws), None);
    assert_eq!(bullets.len(), 2);
}

#[test]
fn nobody_drops_without_a_winning_draw_at_the_front() {
    let (aliens, _) = setup();
    let mut draws = vec![true; 55];
    for draw in draws.iter_mut().skip(44) {
        *draw = false;
    }
    let mut bullets = Vec::new();
    let mut resource = ready();
    assert_eq!(pick_shooter(&aliens, &mut resource, &mut bullets, &draws), None);
    assert!(bullets.is_empty());
    assert_eq!(resource, ready());
    assert_eq!(pick_shooter(&aliens, &mut resource, &mut bullets, &vec![false; 55]), None);
    assert_eq!(pick_shooter(&Vec::new(), &mut resource, &mut bullets, &Vec::new()), None);
}

#[test]
fn winning_draws_count_only_for_a_ready_swarm() {
    let (aliens, _) = setup();
    let mut bullets = Vec::new();
    let mut resource = AlienResource { bullet_spawn_timer: 250_000, bullet_interval: 250_000 };
    assert_eq!(pick_shooter(&aliens, &mut resource, &mut bullets, &vec![true; 55]), None);
    assert!(bullets.is_empty());
    assert_eq!(resource.bullet_spawn_timer, 250_000);
    resource.bullet_spawn_timer = 250_001;
    assert_eq!(pick_shooter(&aliens, &mut resource, &mut bullets, &vec![true; 55]), Some(44));
    assert_eq!(bullets, vec![AlienBullet { position: px(-440, 150) }]);
}

#[test]
fn drops_come_about_once_in_a_ready_tick() {
    let (aliens, _) = setup();
    let mut drops = 0;
    for _ in 0..2_000 {
        let mut bullets = Vec::new();
        let mut resource = ready();
        if drop_bullets(&aliens, &mut resource, &mut bullets).is_some() {
            drops += 1;
        }
    }
    // each of 11 front aliens wins with a chance of 1 in 11, so that a
    // tick stays quiet with a chance of (10/11)^11, about 0.35
    assert!(drops > 1_100 && drops < 1_500);
}
