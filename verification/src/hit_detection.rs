//! The collision pass: what hits what in one tick, and what follows.
//!
//! The pass runs after everything has moved. It takes the alien bullets
//! one by one, in order, and then the shot of the player. Each projectile
//! is tested against its possible targets in a fixed order and stops at
//! the first it hits, so that nothing is hit twice by one projectile.

use crate::alien::{uniform, Alien, AlienBullet};
use crate::bunker::{
    after_hit, all_standing, cells_from, hit_bunker, lemma_cells_from_chain,
    lemma_cells_from_self, lemma_hit_keeps_cells, lemma_hit_keeps_standing, Bunker,
};
use crate::common::{
    alien_box, bunker_box, exec_in_rect, in_rect, lazer_box, player_box, Vec2, ALIENS_SPEED_KILL,
    ALIENS_TOTAL, ALIEN_DEPTH, ALIEN_WIDTH, BUNKER_DEPTH, BUNKER_WIDTH, LAZER_DEPTH, LAZER_WIDTH,
    PLAYER_DEPTH, PLAYER_WIDTH, SCORE_ALIEN,
};
use crate::game_state::{GameState, GameStateEvent, Store};
use crate::lazer::Lazer;
use crate::particle::{
    alien_burst, bullet_burst, bunker_burst, player_burst, spawn_explosion, Explosion,
    PARTICLE_SIDE,
};
use crate::player::Player;
use vstd::prelude::*;

verus! {

/// A sound to be played.
#[derive(Clone, Copy, Debug, PartialEq, Eq, Structural)]
pub enum PlaySoundEvent {
    AlienHit,
}

/// All that a collision pass reads and writes.
pub struct Scene {
    pub store: Store,
    pub lazer: Lazer,
    pub player: Player,
    pub aliens: Seq<Alien>,
    pub bunkers: Seq<Bunker>,
    pub bullets: Seq<AlienBullet>,
    /// The events sent to the state machine so far.
    pub events: Seq<GameStateEvent>,
    /// The sounds asked for so far.
    pub sounds: Seq<PlaySoundEvent>,
    /// The explosions announced so far.
    pub explosions: Seq<Explosion>,
}

/// The index of the first cell from `from` on whose rectangle holds
/// `point`, or the number of cells if there is none.
pub open spec fn first_bunker_from(bunkers: Seq<Bunker>, point: Vec2, from: int) -> int
    decreases bunkers.len() - from,
{
    if from >= bunkers.len() {
        bunkers.len() as int
    } else if in_rect(point, bunkers[from].position, bunker_box()) {
        from
    } else {
        first_bunker_from(bunkers, point, from + 1)
    }
}

/// The index of the first cell whose rectangle holds `point`, or the
/// number of cells if there is none.
pub open spec fn first_bunker(bunkers: Seq<Bunker>, point: Vec2) -> int {
    first_bunker_from(bunkers, point, 0)
}

/// The index of the first alien from `from` on whose rectangle holds
/// `point`, or the number of aliens if there is none.
pub open spec fn first_alien_from(aliens: Seq<Alien>, point: Vec2, from: int) -> int
    decreases aliens.len() - from,
{
    if from >= aliens.len() {
        aliens.len() as int
    } else if in_rect(point, aliens[from].position, alien_box()) {
        from
    } else {
        first_alien_from(aliens, point, from + 1)
    }
}

/// The index of the first alien whose rectangle holds `point`, or the
/// number of aliens if there is none.
pub open spec fn first_alien(aliens: Seq<Alien>, point: Vec2) -> int {
    first_alien_from(aliens, point, 0)
}

/// The bullet runs into the shot in flight.
pub open spec fn meets_lazer(scene: Scene, bullet: AlienBullet) -> bool {
    scene.lazer matches Lazer::Fired(at) && in_rect(bullet.position, at, lazer_box())
}

/// The bullet strikes the ship.
pub open spec fn meets_player(scene: Scene, bullet: AlienBullet) -> bool {
    in_rect(bullet.position, scene.player.position, player_box())
}

/// The scene after one bullet has been taken. The bullet is tested
/// against the shot in flight, then the ship, then the bunker cells in
/// their order, and is gone with the first it hits:
/// - with the shot, which comes to rest;
/// - with a life of the player, and the shot comes to rest;
/// - with a hit on the first cell that holds it, which counts only while
///   a game is being played.
/// A bullet that hits nothing stays.
pub open spec fn bullet_taken(scene: Scene, bullet: AlienBullet) -> Scene {
    let at = bullet.position;
    if meets_lazer(scene, bullet) {
        Scene { lazer: Lazer::Idle, explosions: scene.explosions.push(bullet_burst(at)), ..scene }
    } else if meets_player(scene, bullet) {
        Scene {
            lazer: Lazer::Idle,
            events: scene.events.push(GameStateEvent::LooseLife),
            explosions: scene.explosions.push(player_burst(at)),
            ..scene
        }
    } else {
        let k = first_bunker(scene.bunkers, at);
        if k < scene.bunkers.len() {
            Scene {
                bunkers: if scene.store.game_state is Play {
                    after_hit(scene.bunkers, k)
                } else {
                    scene.bunkers
                },
                explosions: scene.explosions.push(bullet_burst(at)),
                ..scene
            }
        } else {
            Scene { bullets: scene.bullets.push(bullet), ..scene }
        }
    }
}

/// The scene after the given bullets have been taken in order, starting
/// from a scene that holds the bullets that stayed so far.
pub open spec fn bullets_taken(scene: Scene, bullets: Seq<AlienBullet>) -> Scene
    decreases bullets.len(),
{
    if bullets.len() == 0 {
        scene
    } else {
        bullet_taken(bullets_taken(scene, bullets.drop_last()), bullets.last())
    }
}

/// The shared state after an alien has been shot.
pub open spec fn scored(store: Store) -> Store {
    Store {
        aliens_killed: (store.aliens_killed + 1) as u8,
        alien_speed: (store.alien_speed + ALIENS_SPEED_KILL) as u32,
        score: (store.score + SCORE_ALIEN) as u32,
        ..store
    }
}

/// The scene after the shot of the player has been taken. Only a shot in
/// flight hits. It is tested against the bunker cells in their order,
/// then the aliens in their order, and comes to rest with the first it
/// hits: a cell takes a hit; an alien is gone, counted and paid for, and
/// when it was the last of the wave the state machine is told so.
pub open spec fn lazer_taken(scene: Scene) -> Scene {
    match scene.lazer {
        Lazer::Fired(at) => {
            let b = first_bunker(scene.bunkers, at);
            let a = first_alien(scene.aliens, at);
            if b < scene.bunkers.len() {
                Scene {
                    lazer: Lazer::Idle,
                    bunkers: after_hit(scene.bunkers, b),
                    explosions: scene.explosions.push(bunker_burst(at)),
                    ..scene
                }
            } else if a < scene.aliens.len() {
                Scene {
                    lazer: Lazer::Idle,
                    aliens: scene.aliens.remove(a),
                    store: scored(scene.store),
                    sounds: scene.sounds.push(PlaySoundEvent::AlienHit),
                    explosions: scene.explosions.push(alien_burst(at)),
                    events: if scored(scene.store).aliens_killed == ALIENS_TOTAL {
                        scene.events.push(GameStateEvent::NewWave)
                    } else {
                        scene.events
                    },
                    ..scene
                }
            } else {
                scene
            }
        },
        _ => scene,
    }
}

/// The scene after a whole collision pass.
pub open spec fn collided(scene: Scene) -> Scene {
    lazer_taken(bullets_taken(Scene { bullets: Seq::empty(), ..scene }, scene.bullets))
}

/// The aliens that are alive and those counted as killed make up no more
/// than one wave.
pub open spec fn counts_fit(scene: Scene) -> bool {
    scene.store.aliens_killed + scene.aliens.len() <= ALIENS_TOTAL
}

fn find_bunker(bunkers: &Vec<Bunker>, point: Vec2) -> (k: usize)
    ensures
        k == first_bunker(bunkers@, point),
        k <= bunkers@.len(),
{
    let size = Vec2 { x: BUNKER_WIDTH, y: BUNKER_DEPTH };
    let mut i: usize = 0;
    while i < bunkers.len()
        invariant
            i <= bunkers@.len(),
            size == bunker_box(),
            first_bunker(bunkers@, point) == first_bunker_from(bunkers@, point, i as int),
        decreases bunkers@.len() - i,
    {
        if exec_in_rect(point, bunkers[i].position, size) {
            return i;
        }
        i += 1;
    }
    i
}

fn find_alien(aliens: &Vec<Alien>, point: Vec2) -> (k: usize)
    ensures
        k == first_alien(aliens@, point),
        k <= aliens@.len(),
{
    let size = Vec2 { x: ALIEN_WIDTH, y: ALIEN_DEPTH };
    let mut i: usize = 0;
    while i < aliens.len()
        invariant
            i <= aliens@.len(),
            size == alien_box(),
            first_alien(aliens@, point) == first_alien_from(aliens@, point, i as int),
        decreases aliens@.len() - i,
    {
        if exec_in_rect(point, aliens[i].position, size) {
            return i;
        }
        i += 1;
    }
    i
}

fn small_burst(explosions: &mut Vec<Explosion>, count: u32, position: Vec2, speed: u32)
    ensures
        final(explosions)@ == old(explosions)@.push(crate::particle::burst(count, position, speed)),
{
    spawn_explosion(
        explosions,
        count,
        position,
        speed,
        0,
        Vec2 { x: PARTICLE_SIDE, y: PARTICLE_SIDE },
    );
}

/// Runs the collision pass of one tick.
pub fn update_system(
    store: &mut Store,
    explosions: &mut Vec<Explosion>,
    game_state_ew: &mut Vec<GameStateEvent>,
    play_sound_ew: &mut Vec<PlaySoundEvent>,
    aliens: &mut Vec<Alien>,
    lazer: &mut Lazer,
    bunkers: &mut Vec<Bunker>,
    alien_bullets: &mut Vec<AlienBullet>,
    player: &Player,
)
    requires
        old(store).aliens_killed + old(aliens)@.len() <= ALIENS_TOTAL,
        *old(lazer) is Fired ==> old(store).score + SCORE_ALIEN <= u32::MAX,
        *old(lazer) is Fired ==> old(store).alien_speed + ALIENS_SPEED_KILL <= u32::MAX,
    ensures
        (Scene {
            store: *final(store),
            lazer: *final(lazer),
            player: *player,
            aliens: final(aliens)@,
            bunkers: final(bunkers)@,
            bullets: final(alien_bullets)@,
            events: final(game_state_ew)@,
            sounds: final(play_sound_ew)@,
            explosions: final(explosions)@,
        }) == collided(
            (Scene {
                store: *old(store),
                lazer: *old(lazer),
                player: *player,
                aliens: old(aliens)@,
                bunkers: old(bunkers)@,
                bullets: old(alien_bullets)@,
                events: old(game_state_ew)@,
                sounds: old(play_sound_ew)@,
                explosions: old(explosions)@,
            }),
        ),
        old(store).wf() ==> final(store).wf(),
        final(store).aliens_killed <= ALIENS_TOTAL,
        final(store).aliens_killed + final(aliens)@.len() == old(store).aliens_killed + old(
            aliens,
        )@.len(),
{
    let ghost start = Scene {
        store: *store,
        lazer: *lazer,
        player: *player,
        aliens: aliens@,
        bunkers: bunkers@,
        bullets: Seq::empty(),
        events: game_state_ew@,
        sounds: play_sound_ew@,
        explosions: explosions@,
    };
    let ghost all = alien_bullets@;
    let playing = match store.game_state {
        GameState::Play => true,
        _ => false,
    };
    let mut kept: Vec<AlienBullet> = Vec::new();
    let mut i: usize = 0;
    while i < alien_bullets.len()
        invariant
            i <= alien_bullets@.len(),
            alien_bullets@ == all,
            playing == (store.game_state is Play),
            *lazer is Fired ==> *old(lazer) is Fired,
            (Scene {
                store: *store,
                lazer: *lazer,
                player: *player,
                aliens: aliens@,
                bunkers: bunkers@,
                bullets: kept@,
                events: game_state_ew@,
                sounds: play_sound_ew@,
                explosions: explosions@,
            }) == bullets_taken(start, all.take(i as int)),
        decreases alien_bullets@.len() - i,
    {
        proof {
            assert(all.take(i + 1).drop_last() =~= all.take(i as int));
        }
        let bullet = alien_bullets[i];
        let at = bullet.position;
        let on_lazer = match *lazer {
            Lazer::Fired(shot) => exec_in_rect(at, shot, Vec2 { x: LAZER_WIDTH, y: LAZER_DEPTH }),
            _ => false,
        };
        if on_lazer {
            *lazer = Lazer::Idle;
            small_burst(explosions, 10, at, 150);
        } else if exec_in_rect(at, player.position, Vec2 { x: PLAYER_WIDTH, y: PLAYER_DEPTH }) {
            game_state_ew.push(GameStateEvent::LooseLife);
            // a shot still in flight must not score after the ship is hit
            *lazer = Lazer::Idle;
            small_burst(explosions, 100, at, 1000);
        } else {
            let k = find_bunker(bunkers, at);
            if k < bunkers.len() {
                if playing {
                    hit_bunker(bunkers, k);
                }
                small_burst(explosions, 10, at, 150);
            } else {
                kept.push(bullet);
            }
        }
        i += 1;
    }
    proof {
        assert(all.take(all.len() as int) =~= all);
    }
    *alien_bullets = kept;

    match *lazer {
        Lazer::Fired(shot) => {
            let b = find_bunker(bunkers, shot);
            if b < bunkers.len() {
                hit_bunker(bunkers, b);
                *lazer = Lazer::Idle;
                small_burst(explosions, 5, shot, 50);
            } else {
                let a = find_alien(aliens, shot);
                if a < aliens.len() {
                    play_sound_ew.push(PlaySoundEvent::AlienHit);
                    aliens.remove(a);
                    *lazer = Lazer::Idle;
                    store.aliens_killed = store.aliens_killed + 1;
                    store.alien_speed = store.alien_speed + ALIENS_SPEED_KILL;
                    store.score = store.score + SCORE_ALIEN;
                    small_burst(explosions, 10, shot, 500);
                    if store.aliens_killed == ALIENS_TOTAL {
                        game_state_ew.push(GameStateEvent::NewWave);
                    }
                }
            }
        },
        _ => {},
    }
}

/// How many of the events tell of the end of a wave.
pub open spec fn new_waves(events: Seq<GameStateEvent>) -> nat
    decreases events.len(),
{
    if events.len() == 0 {
        0
    } else {
        new_waves(events.drop_last()) + if events.last() is NewWave {
            1nat
        } else {
            0nat
        }
    }
}

/// How many of the events tell of a lost life.
pub open spec fn lost_lives(events: Seq<GameStateEvent>) -> nat
    decreases events.len(),
{
    if events.len() == 0 {
        0
    } else {
        lost_lives(events.drop_last()) + if events.last() is LooseLife {
            1nat
        } else {
            0nat
        }
    }
}

/// The first cell that holds a point is a cell that holds it, and no
/// cell before it does.
pub proof fn lemma_first_bunker(bunkers: Seq<Bunker>, point: Vec2, from: int)
    requires
        0 <= from <= bunkers.len(),
    ensures
        from <= first_bunker_from(bunkers, point, from) <= bunkers.len(),
        first_bunker_from(bunkers, point, from) < bunkers.len() ==> in_rect(
            point,
            bunkers[first_bunker_from(bunkers, point, from)].position,
            bunker_box(),
        ),
        forall|j: int|
            from <= j < first_bunker_from(bunkers, point, from) ==> !in_rect(
                point,
                (#[trigger] bunkers[j]).position,
                bunker_box(),
            ),
    decreases bunkers.len() - from,
{
    if from < bunkers.len() && !in_rect(point, bunkers[from].position, bunker_box()) {
        lemma_first_bunker(bunkers, point, from + 1);
    }
}

/// The first alien that holds a point is an alien that holds it, and no
/// alien before it does.
pub proof fn lemma_first_alien(aliens: Seq<Alien>, point: Vec2, from: int)
    requires
        0 <= from <= aliens.len(),
    ensures
        from <= first_alien_from(aliens, point, from) <= aliens.len(),
        first_alien_from(aliens, point, from) < aliens.len() ==> in_rect(
            point,
            aliens[first_alien_from(aliens, point, from)].position,
            alien_box(),
        ),
        forall|j: int|
            from <= j < first_alien_from(aliens, point, from) ==> !in_rect(
                point,
                (#[trigger] aliens[j]).position,
                alien_box(),
            ),
    decreases aliens.len() - from,
{
    if from < aliens.len() && !in_rect(point, aliens[from].position, alien_box()) {
        lemma_first_alien(aliens, point, from + 1);
    }
}

/// The bullet costs a life: it strikes the ship without running into the
/// shot first.
pub open spec fn strikes(scene: Scene, bullet: AlienBullet) -> bool {
    !meets_lazer(scene, bullet) && meets_player(scene, bullet)
}

/// Every bullet of `part` is a bullet of `whole`.
pub open spec fn bullets_from(part: Seq<AlienBullet>, whole: Seq<AlienBullet>) -> bool {
    forall|i: int| 0 <= i < part.len() ==> whole.contains(#[trigger] part[i])
}

/// Every alien of `part` is an alien of `whole`.
pub open spec fn aliens_from(part: Seq<Alien>, whole: Seq<Alien>) -> bool {
    forall|i: int| 0 <= i < part.len() ==> whole.contains(#[trigger] part[i])
}

/// How many of the bullets lie in the rectangle of a ship at `player`.
pub open spec fn over_ship(bullets: Seq<AlienBullet>, player: Vec2) -> nat
    decreases bullets.len(),
{
    if bullets.len() == 0 {
        0
    } else {
        over_ship(bullets.drop_last(), player) + if in_rect(
            bullets.last().position,
            player,
            player_box(),
        ) {
            1nat
        } else {
            0nat
        }
    }
}

/// One bullet has one effect at most: it stays, or it is gone with one
/// explosion. It leaves ship, aliens and score alone, never sets the
/// shot off, never ends a wave, makes no cell and repairs none. A
/// bullet that strikes the ship is gone with one lost life and brings
/// the shot to rest, whatever state it was in, and damages no cell; no
/// other bullet costs a life.
pub proof fn lemma_bullet_taken(scene: Scene, bullet: AlienBullet)
    ensures
        ({
            let r = bullet_taken(scene, bullet);
            &&& r.store == scene.store
            &&& r.player == scene.player
            &&& r.aliens == scene.aliens
            &&& r.sounds == scene.sounds
            &&& r.lazer == scene.lazer || r.lazer is Idle
            &&& r.bullets == scene.bullets.push(bullet) && r.explosions == scene.explosions
                || r.bullets == scene.bullets && r.explosions.len() == scene.explosions.len() + 1
            &&& new_waves(r.events) == new_waves(scene.events)
            &&& lost_lives(r.events) == lost_lives(scene.events) + if strikes(scene, bullet) {
                1nat
            } else {
                0nat
            }
            &&& strikes(scene, bullet) ==> r.lazer is Idle && r.bunkers == scene.bunkers
                && r.bullets == scene.bullets && r.events == scene.events.push(
                GameStateEvent::LooseLife,
            )
            &&& !strikes(scene, bullet) ==> r.events == scene.events
            &&& r.bunkers.len() <= scene.bunkers.len()
            &&& cells_from(r.bunkers, scene.bunkers)
            &&& all_standing(scene.bunkers) ==> all_standing(r.bunkers)
        }),
{
    let r = bullet_taken(scene, bullet);
    let k = first_bunker(scene.bunkers, bullet.position);
    lemma_first_bunker(scene.bunkers, bullet.position, 0);
    if k < scene.bunkers.len() {
        lemma_hit_keeps_cells(scene.bunkers, k);
        if all_standing(scene.bunkers) {
            lemma_hit_keeps_standing(scene.bunkers, k);
        }
    }
    lemma_cells_from_self(scene.bunkers);
    assert(scene.events.push(GameStateEvent::LooseLife).drop_last() =~= scene.events);
}

/// What holds of one bullet holds of all of them: every bullet stays or
/// is gone with one explosion, every bullet that stays is one of those
/// that came, and every life lost is the strike of one bullet.
pub proof fn lemma_bullets_taken(scene: Scene, bullets: Seq<AlienBullet>)
    ensures
        ({
            let r = bullets_taken(scene, bullets);
            &&& r.store == scene.store
            &&& r.player == scene.player
            &&& r.aliens == scene.aliens
            &&& r.sounds == scene.sounds
            &&& r.lazer == scene.lazer || r.lazer is Idle
            &&& scene.bullets.len() <= r.bullets.len()
            &&& scene.explosions.len() <= r.explosions.len()
            &&& (r.bullets.len() - scene.bullets.len()) + (r.explosions.len()
                - scene.explosions.len()) == bullets.len()
            &&& bullets_from(r.bullets, scene.bullets + bullets)
            &&& new_waves(r.events) == new_waves(scene.events)
            &&& lost_lives(scene.events) <= lost_lives(r.events) <= lost_lives(scene.events)
                + bullets.len()
            &&& r.bunkers.len() <= scene.bunkers.len()
            &&& cells_from(r.bunkers, scene.bunkers)
            &&& all_standing(scene.bunkers) ==> all_standing(r.bunkers)
        }),
    decreases bullets.len(),
{
    let r = bullets_taken(scene, bullets);
    let all = scene.bullets + bullets;
    if bullets.len() > 0 {
        let before = bullets_taken(scene, bullets.drop_last());
        let seen = scene.bullets + bullets.drop_last();
        lemma_bullets_taken(scene, bullets.drop_last());
        lemma_bullet_taken(before, bullets.last());
        lemma_cells_from_chain(r.bunkers, before.bunkers, scene.bunkers);
        assert forall|i: int| 0 <= i < r.bullets.len() implies all.contains(
            #[trigger] r.bullets[i],
        ) by {
            if i < before.bullets.len() {
                assert(seen.contains(before.bullets[i]));
                let j = choose|j: int| 0 <= j < seen.len() && seen[j] == before.bullets[i];
                assert(all[j] == r.bullets[i]);
            } else {
                assert(all[all.len() - 1] == r.bullets[i]);
            }
        }
    } else {
        lemma_cells_from_self(scene.bunkers);
        assert forall|i: int| 0 <= i < r.bullets.len() implies all.contains(
            #[trigger] r.bullets[i],
        ) by {
            assert(all[i] == r.bullets[i]);
        }
    }
}

/// The lives that a pass over the bullets costs, where no bullet over
/// the ship lies in the rectangle of a shot in flight: one for each
/// bullet over the ship. Each of these bullets is gone, and the first
/// of them brings the shot to rest.
pub proof fn lemma_bullets_over_ship(scene: Scene, bullets: Seq<AlienBullet>)
    requires
        forall|i: int|
            0 <= i < bullets.len() && meets_player(scene, #[trigger] bullets[i]) ==> !meets_lazer(
                scene,
                bullets[i],
            ),
    ensures
        ({
            let r = bullets_taken(scene, bullets);
            let n = over_ship(bullets, scene.player.position);
            &&& lost_lives(r.events) == lost_lives(scene.events) + n
            &&& r.bullets.len() + n <= scene.bullets.len() + bullets.len()
            &&& n > 0 ==> r.lazer is Idle
        }),
    decreases bullets.len(),
{
    if bullets.len() > 0 {
        let rest = bullets.drop_last();
        let before = bullets_taken(scene, rest);
        assert forall|i: int| 0 <= i < rest.len() && meets_player(scene, #[trigger] rest[i])
            implies !meets_lazer(scene, rest[i]) by {
            assert(rest[i] == bullets[i]);
        }
        lemma_bullets_over_ship(scene, rest);
        lemma_bullets_taken(scene, rest);
        lemma_bullet_taken(before, bullets.last());
        assert(bullets.last() == bullets[bullets.len() - 1]);
    }
}

/// A swarm that heads one way still does so when one of its members is
/// gone.
pub proof fn lemma_remove_keeps_uniform(aliens: Seq<Alien>, k: int)
    requires
        uniform(aliens),
        0 <= k < aliens.len(),
    ensures
        uniform(aliens.remove(k)),
{
    let rest = aliens.remove(k);
    assert forall|i: int, j: int| 0 <= i < rest.len() && 0 <= j < rest.len() implies (
    #[trigger] rest[i]).direction == (#[trigger] rest[j]).direction by {
        let a = if i < k {
            i
        } else {
            i + 1
        };
        let b = if j < k {
            j
        } else {
            j + 1
        };
        assert(rest[i] == aliens[a] && rest[j] == aliens[b]);
    }
}

/// The shot has one effect at most: it comes to rest with one explosion,
/// on a cell or on an alien, or nothing changes. An alien that is shot
/// is gone and counted; every other alien stays as it is. The end of
/// the wave is told with the kill that makes the count full, and with
/// no other.
pub proof fn lemma_lazer_taken(scene: Scene)
    ensures
        ({
            let r = lazer_taken(scene);
            &&& r.player == scene.player
            &&& r.bullets == scene.bullets
            &&& r.lazer == scene.lazer || r.lazer is Idle
            &&& r.aliens == scene.aliens || (exists|a: int|
                0 <= a < scene.aliens.len() && r.aliens == #[trigger] scene.aliens.remove(a)
                    && r.store == scored(scene.store))
            &&& r.aliens == scene.aliens ==> r.store == scene.store && r.events == scene.events
            &&& aliens_from(r.aliens, scene.aliens)
            &&& lost_lives(r.events) == lost_lives(scene.events)
            &&& r.explosions.len() <= scene.explosions.len() + 1
            &&& r.bunkers.len() <= scene.bunkers.len()
            &&& cells_from(r.bunkers, scene.bunkers)
            &&& uniform(scene.aliens) ==> uniform(r.aliens)
            &&& all_standing(scene.bunkers) ==> all_standing(r.bunkers)
            &&& scene.store.aliens_killed < ALIENS_TOTAL ==> {
                &&& r.store.aliens_killed == scene.store.aliens_killed || r.store.aliens_killed
                    == scene.store.aliens_killed + 1
                &&& r.store.aliens_killed + r.aliens.len() == scene.store.aliens_killed
                    + scene.aliens.len()
                &&& new_waves(r.events) == new_waves(scene.events) + if r.store.aliens_killed
                    == ALIENS_TOTAL {
                    1nat
                } else {
                    0nat
                }
            }
            &&& counts_fit(scene) ==> {
                &&& counts_fit(r)
                &&& r.store.aliens_killed <= ALIENS_TOTAL
                &&& r.store.aliens_killed == scene.store.aliens_killed || r.store.aliens_killed
                    == scene.store.aliens_killed + 1
                &&& r.store.aliens_killed + r.aliens.len() == scene.store.aliens_killed
                    + scene.aliens.len()
                &&& new_waves(r.events) == new_waves(scene.events) + if r.store.aliens_killed
                    == ALIENS_TOTAL && scene.store.aliens_killed < ALIENS_TOTAL {
                    1nat
                } else {
                    0nat
                }
                &&& scene.store.wf() ==> r.store.wf()
            }
        }),
{
    let r = lazer_taken(scene);
    lemma_cells_from_self(scene.bunkers);
    assert(aliens_from(scene.aliens, scene.aliens)) by {
        assert forall|i: int| 0 <= i < scene.aliens.len() implies scene.aliens.contains(
            #[trigger] scene.aliens[i],
        ) by {}
    }
    match scene.lazer {
        Lazer::Fired(at) => {
            let b = first_bunker(scene.bunkers, at);
            let a = first_alien(scene.aliens, at);
            lemma_first_bunker(scene.bunkers, at, 0);
            lemma_first_alien(scene.aliens, at, 0);
            if b < scene.bunkers.len() {
                lemma_hit_keeps_cells(scene.bunkers, b);
                if all_standing(scene.bunkers) {
                    lemma_hit_keeps_standing(scene.bunkers, b);
                }
            } else if a < scene.aliens.len() {
                if uniform(scene.aliens) {
                    lemma_remove_keeps_uniform(scene.aliens, a);
                }
                assert(scene.events.push(GameStateEvent::NewWave).drop_last() =~= scene.events);
                assert(r.aliens == scene.aliens.remove(a));
                assert(r.aliens.len() != scene.aliens.len());
                assert forall|i: int| 0 <= i < r.aliens.len() implies scene.aliens.contains(
                    #[trigger] r.aliens[i],
                ) by {
                    let j = if i < a {
                        i
                    } else {
                        i + 1
                    };
                    assert(scene.aliens[j] == r.aliens[i]);
                }
            }
        },
        _ => {},
    }
}

/// The laws of a collision pass, whatever the scene. Nothing is made
/// and nothing comes back: the aliens, bullets and cells that the pass
/// leaves are aliens, bullets and cells that it found, the cells where
/// they were and no less damaged; the aliens are those it found, or
/// those less the one that was shot. The ship is only read, and the
/// shot keeps its place or comes to rest. While the count of the killed
/// is below the size of a wave, it rises by one at most, and the end of
/// the wave is told exactly once in the pass whose kill makes the count
/// full, and in no other; a pass in which no alien is shot tells of no
/// end. Where the living and the killed make up no more than a wave,
/// they still do so after the pass, and their sum is what it was.
pub proof fn lemma_collided(scene: Scene)
    ensures
        ({
            let r = collided(scene);
            &&& r.player == scene.player
            &&& r.lazer == scene.lazer || r.lazer is Idle
            &&& r.aliens == scene.aliens || (exists|a: int|
                0 <= a < scene.aliens.len() && r.aliens == #[trigger] scene.aliens.remove(a)
                    && r.store == scored(scene.store))
            &&& r.aliens == scene.aliens ==> r.store == scene.store && new_waves(r.events)
                == new_waves(scene.events)
            &&& aliens_from(r.aliens, scene.aliens)
            &&& bullets_from(r.bullets, scene.bullets)
            &&& cells_from(r.bunkers, scene.bunkers)
            &&& r.bullets.len() <= scene.bullets.len()
            &&& r.bunkers.len() <= scene.bunkers.len()
            &&& lost_lives(scene.events) <= lost_lives(r.events) <= lost_lives(scene.events)
                + scene.bullets.len()
            &&& uniform(scene.aliens) ==> uniform(r.aliens)
            &&& all_standing(scene.bunkers) ==> all_standing(r.bunkers)
            &&& scene.store.aliens_killed < ALIENS_TOTAL ==> {
                &&& r.store.aliens_killed == scene.store.aliens_killed || r.store.aliens_killed
                    == scene.store.aliens_killed + 1
                &&& r.store.aliens_killed + r.aliens.len() == scene.store.aliens_killed
                    + scene.aliens.len()
                &&& new_waves(r.events) == new_waves(scene.events) + if r.store.aliens_killed
                    == ALIENS_TOTAL {
                    1nat
                } else {
                    0nat
                }
            }
            &&& counts_fit(scene) ==> {
                &&& counts_fit(r)
                &&& r.store.aliens_killed <= ALIENS_TOTAL
                &&& r.store.aliens_killed == scene.store.aliens_killed || r.store.aliens_killed
                    == scene.store.aliens_killed + 1
                &&& r.store.aliens_killed + r.aliens.len() == scene.store.aliens_killed
                    + scene.aliens.len()
                &&& new_waves(r.events) == new_waves(scene.events) + if r.store.aliens_killed
                    == ALIENS_TOTAL && scene.store.aliens_killed < ALIENS_TOTAL {
                    1nat
                } else {
                    0nat
                }
                &&& scene.store.wf() ==> r.store.wf()
            }
        }),
{
    let cleared = Scene { bullets: Seq::empty(), ..scene };
    let taken = bullets_taken(cleared, scene.bullets);
    lemma_bullets_taken(cleared, scene.bullets);
    lemma_lazer_taken(taken);
    lemma_cells_from_chain(collided(scene).bunkers, taken.bunkers, scene.bunkers);
    assert(cleared.bullets + scene.bullets =~= scene.bullets);
}

/// A bullet on the ship costs one life. In a pass in which no bullet
/// over the ship lies in the rectangle of a shot in flight, the lives
/// lost are as many as the bullets over the ship, and each of these
/// bullets is gone. If there is one, the shot is at rest after the
/// pass, whatever state it was in, no alien is shot, and score, kills
/// and speed are what they were.
pub proof fn lemma_strikes_cost_lives(scene: Scene)
    requires
        forall|i: int|
            0 <= i < scene.bullets.len() && meets_player(scene, #[trigger] scene.bullets[i])
                ==> !meets_lazer(scene, scene.bullets[i]),
    ensures
        ({
            let r = collided(scene);
            let n = over_ship(scene.bullets, scene.player.position);
            &&& lost_lives(r.events) == lost_lives(scene.events) + n
            &&& r.bullets.len() + n <= scene.bullets.len()
            &&& n > 0 ==> r.lazer is Idle && r.aliens == scene.aliens && r.store == scene.store
                && r.sounds == scene.sounds
        }),
{
    let cleared = Scene { bullets: Seq::empty(), ..scene };
    lemma_bullets_over_ship(cleared, scene.bullets);
    lemma_bullets_taken(cleared, scene.bullets);
    lemma_lazer_taken(bullets_taken(cleared, scene.bullets));
}

/// A shot at rest stays at rest through a pass, and then no alien is
/// shot and no cell is hit by it.
pub proof fn lemma_idle_lazer_hits_nothing(scene: Scene)
    requires
        !(scene.lazer is Fired),
    ensures
        collided(scene).aliens == scene.aliens,
        collided(scene).store == scene.store,
        collided(scene).sounds == scene.sounds,
        !(collided(scene).lazer is Fired),
{
    let cleared = Scene { bullets: Seq::empty(), ..scene };
    lemma_bullets_taken(cleared, scene.bullets);
}

} // verus!
