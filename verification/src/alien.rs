//! The swarm of aliens and the bullets it drops.

use crate::common::{
    exec_shifted, exec_travel, shifted, travel, Direction3, Vec2, ALIENS_COL, ALIENS_FLOOR,
    ALIENS_ROW_SPACE, ALIENS_SPACE, ALIENS_TOP, ALIENS_TOTAL, ALIEN_BULLET_INTERVAL,
    ALIEN_BULLET_SPEED, ALIEN_DEPTH, PX, SCENE_HEIGHT, SCENE_WIDTH,
};
use crate::game_state::{GameState, Store};
use crate::timer::{elapsed_after, expires_within, Timer};
use rand::Rng;
use std::collections::HashMap;
use vstd::prelude::*;

verus! {

/// One member of the swarm.
#[derive(Clone, Copy, Debug, PartialEq, Eq, Structural)]
pub struct Alien {
    pub position: Vec2,
    /// The direction of the whole swarm, kept with each of its members.
    pub direction: Direction3,
}

/// The first and the last picture of an animation.
#[derive(Clone, Copy, Debug, PartialEq, Eq, Structural)]
pub struct AnimationIndices {
    pub first: usize,
    pub last: usize,
}

/// The timer that paces an animation.
#[derive(Clone, Copy, Debug, PartialEq, Eq, Structural)]
pub struct AnimationTimer(pub Timer);

/// An animation as it runs: its range, its pace and the picture it shows.
#[derive(Clone, Copy, Debug, PartialEq, Eq, Structural)]
pub struct Animation {
    pub indices: AnimationIndices,
    pub timer: AnimationTimer,
    pub index: usize,
}

/// A bullet that an alien has dropped.
#[derive(Clone, Copy, Debug, PartialEq, Eq, Structural)]
pub struct AlienBullet {
    pub position: Vec2,
}

/// What the swarm shares when it drops bullets.
#[derive(Clone, Copy, Debug, PartialEq, Eq, Structural)]
pub struct AlienResource {
    /// The time since the last bullet was dropped; it stops at the end of
    /// its range.
    pub bullet_spawn_timer: u32,
    /// The time that has to pass between two bullets.
    pub bullet_interval: u32,
}

impl Animation {
    /// The timer is within its period and the picture within the range.
    pub open spec fn wf(&self) -> bool {
        &&& self.timer.0.wf()
        &&& self.indices.first <= self.index <= self.indices.last
    }
}

/// An animation after `delta` time units: when its timer comes to the end
/// of a period it shows the next picture, and the first after the last.
pub open spec fn animated(a: Animation, delta: u32) -> Animation {
    Animation {
        indices: a.indices,
        timer: AnimationTimer(
            Timer {
                duration: a.timer.0.duration,
                elapsed: elapsed_after(a.timer.0.duration, a.timer.0.elapsed, delta) as u32,
            },
        ),
        index: if expires_within(a.timer.0.duration, a.timer.0.elapsed, delta) {
            if a.index == a.indices.last {
                a.indices.first
            } else {
                (a.index + 1) as usize
            }
        } else {
            a.index
        },
    }
}

/// Every animation is well formed.
pub open spec fn all_animations_wf(animations: Seq<Animation>) -> bool {
    forall|i: int| 0 <= i < animations.len() ==> (#[trigger] animations[i]).wf()
}

/// Advances every animation by `delta` time units.
pub fn animate_update_system(delta: u32, animations: &mut Vec<Animation>)
    requires
        all_animations_wf(old(animations)@),
    ensures
        final(animations)@.len() == old(animations)@.len(),
        forall|i: int|
            0 <= i < old(animations)@.len() ==> final(animations)@[i] == animated(
                #[trigger] old(animations)@[i],
                delta,
            ),
        all_animations_wf(final(animations)@),
{
    let mut i: usize = 0;
    while i < animations.len()
        invariant
            i <= animations@.len(),
            animations@.len() == old(animations)@.len(),
            forall|j: int|
                0 <= j < i ==> animations@[j] == animated(#[trigger] old(animations)@[j], delta),
            forall|j: int| 0 <= j < i ==> (#[trigger] animations@[j]).wf(),
            forall|j: int| i <= j < animations@.len() ==> animations@[j] == old(animations)@[j],
            all_animations_wf(old(animations)@),
        decreases animations@.len() - i,
    {
        let mut a = animations[i];
        let mut timer = a.timer.0;
        if timer.tick(delta) {
            a.index = if a.index == a.indices.last {
                a.indices.first
            } else {
                a.index + 1
            };
        }
        a.timer = AnimationTimer(timer);
        animations[i] = a;
        i += 1;
    }
}

/// A bullet after `delta` time units of falling.
pub open spec fn fallen(bullet: AlienBullet, delta: u32) -> AlienBullet {
    AlienBullet {
        position: Vec2 {
            x: bullet.position.x,
            y: shifted(bullet.position.y, travel(ALIEN_BULLET_SPEED, delta), false) as i64,
        },
    }
}

/// A bullet that has left the scene at the bottom.
pub open spec fn is_below(bullet: AlienBullet) -> bool {
    bullet.position.y < -SCENE_HEIGHT
}

/// The bullets after `delta` time units: those that have left the scene
/// at the bottom are gone, the others have fallen and keep their order.
pub open spec fn fallen_all(bullets: Seq<AlienBullet>, delta: u32) -> Seq<AlienBullet>
    decreases bullets.len(),
{
    if bullets.len() == 0 {
        Seq::empty()
    } else if is_below(bullets.last()) {
        fallen_all(bullets.drop_last(), delta)
    } else {
        fallen_all(bullets.drop_last(), delta).push(fallen(bullets.last(), delta))
    }
}

/// Moves the bullets by one tick.
pub fn bullet_update_system(bullets: &mut Vec<AlienBullet>, delta: u32)
    ensures
        final(bullets)@ == fallen_all(old(bullets)@, delta),
{
    let distance = exec_travel(ALIEN_BULLET_SPEED, delta);
    let mut kept: Vec<AlienBullet> = Vec::new();
    let mut i: usize = 0;
    while i < bullets.len()
        invariant
            i <= bullets@.len(),
            bullets@ == old(bullets)@,
            distance == travel(ALIEN_BULLET_SPEED, delta),
            kept@ == fallen_all(bullets@.take(i as int), delta),
        decreases bullets@.len() - i,
    {
        proof {
            assert(bullets@.take(i + 1).drop_last() =~= bullets@.take(i as int));
        }
        let bullet = bullets[i];
        if !(bullet.position.y < -SCENE_HEIGHT) {
            let y = exec_shifted(bullet.position.y, distance, false);
            kept.push(AlienBullet { position: Vec2 { x: bullet.position.x, y } });
        }
        i += 1;
    }
    proof {
        assert(bullets@.take(bullets@.len() as int) =~= bullets@);
    }
    *bullets = kept;
}

/// The alien in row `row` and column `col` of a fresh grid. The columns
/// lie `ALIENS_SPACE` apart around the middle of the scene, the rows go
/// down from `ALIENS_TOP`, and the swarm heads to the right.
pub open spec fn grid_alien(row: int, col: int) -> Alien {
    Alien {
        position: Vec2 {
            x: ((2 * col - ALIENS_COL) * (ALIENS_SPACE / 2)) as i64,
            y: (ALIENS_TOP - row * ALIENS_ROW_SPACE) as i64,
        },
        direction: Direction3::Right,
    }
}

/// A full grid of aliens, row by row from the top.
pub open spec fn grid() -> Seq<Alien> {
    Seq::new(
        ALIENS_TOTAL as nat,
        |i: int| grid_alien(i / (ALIENS_COL as int), i % (ALIENS_COL as int)),
    )
}

/// The shared state of a swarm that has not dropped a bullet yet.
pub open spec fn fresh_resource() -> AlienResource {
    AlienResource { bullet_spawn_timer: 0, bullet_interval: ALIEN_BULLET_INTERVAL }
}

/// Adds a full grid of aliens to the swarm.
pub fn setup_borrowed(aliens: &mut Vec<Alien>)
    ensures
        final(aliens)@ == old(aliens)@ + grid(),
{
    let ghost before = aliens@;
    let mut i: usize = 0;
    while i < ALIENS_TOTAL as usize
        invariant
            i <= ALIENS_TOTAL,
            aliens@.len() == before.len() + i,
            forall|j: int| 0 <= j < before.len() ==> aliens@[j] == before[j],
            forall|k: int|
                before.len() <= k < aliens@.len() ==> aliens@[k] == grid_alien(
                    (k - before.len()) / (ALIENS_COL as int),
                    (k - before.len()) % (ALIENS_COL as int),
                ),
        decreases ALIENS_TOTAL - i,
    {
        let row: i64 = (i / ALIENS_COL) as i64;
        let col: i64 = (i % ALIENS_COL) as i64;
        aliens.push(
            Alien {
                position: Vec2 {
                    x: (2 * col - ALIENS_COL as i64) * (ALIENS_SPACE / 2),
                    y: ALIENS_TOP - row * ALIENS_ROW_SPACE,
                },
                direction: Direction3::Right,
            },
        );
        i += 1;
    }
}

/// Builds a full grid of aliens and the state they share.
pub fn setup() -> (r: (Vec<Alien>, AlienResource))
    ensures
        r.0@ == grid(),
        r.1 == fresh_resource(),
{
    let mut aliens: Vec<Alien> = Vec::new();
    setup_borrowed(&mut aliens);
    (aliens, AlienResource { bullet_spawn_timer: 0, bullet_interval: ALIEN_BULLET_INTERVAL })
}

/// Removes all aliens and bullets, then builds a full grid again, with
/// the swarm heading to the right and the time between bullets as at the
/// start.
pub fn reset(
    aliens: &mut Vec<Alien>,
    alien_bullets: &mut Vec<AlienBullet>,
    alien_resource: &mut AlienResource,
)
    ensures
        final(aliens)@ == grid(),
        final(alien_bullets)@ == Seq::<AlienBullet>::empty(),
        *final(alien_resource) == fresh_resource(),
{
    aliens.clear();
    alien_bullets.clear();
    setup_borrowed(aliens);
    *alien_resource = AlienResource {
        bullet_spawn_timer: 0,
        bullet_interval: ALIEN_BULLET_INTERVAL,
    };
}

/// An alien after the swarm has marched `distance` in its direction.
pub open spec fn marched(alien: Alien, distance: int) -> Alien {
    Alien {
        position: Vec2 {
            x: match alien.direction {
                Direction3::Left => shifted(alien.position.x, distance, false) as i64,
                Direction3::Right => shifted(alien.position.x, distance, true) as i64,
                Direction3::Neutral => alien.position.x,
            },
            y: alien.position.y,
        },
        direction: alien.direction,
    }
}

/// The alien has passed the side of the scene that it is heading for.
pub open spec fn crossed(alien: Alien) -> bool {
    ||| alien.direction is Left && alien.position.x < -SCENE_WIDTH
    ||| alien.direction is Right && alien.position.x > SCENE_WIDTH
}

/// The whole swarm after a march.
pub open spec fn marched_all(aliens: Seq<Alien>, distance: int) -> Seq<Alien> {
    Seq::new(aliens.len(), |i: int| marched(aliens[i], distance))
}

/// The direction that the swarm takes up after a march, if it turns. The
/// swarm turns when any of its members has passed the side it is heading
/// for. Should the members disagree on where they are heading, the last
/// of those that have passed a side decides.
pub open spec fn turn(aliens: Seq<Alien>) -> Option<Direction3>
    decreases aliens.len(),
{
    if aliens.len() == 0 {
        None
    } else if crossed(aliens.last()) {
        Some(aliens.last().direction.reversed())
    } else {
        turn(aliens.drop_last())
    }
}

/// No alien has come down to the line at which the swarm stops
/// descending.
pub open spec fn all_above_floor(aliens: Seq<Alien>) -> bool {
    forall|i: int| 0 <= i < aliens.len() ==> (#[trigger] aliens[i]).position.y > ALIENS_FLOOR
}

/// An alien after the swarm has turned to `direction`, one row further
/// down if the swarm descends.
pub open spec fn turned(alien: Alien, direction: Direction3, descends: bool) -> Alien {
    Alien {
        position: Vec2 {
            x: alien.position.x,
            y: if descends {
                shifted(alien.position.y, ALIEN_DEPTH as int, false) as i64
            } else {
                alien.position.y
            },
        },
        direction,
    }
}

/// The swarm after one tick: every alien has marched `distance` in its
/// direction; if that took any of them past the side, all of them turn,
/// and step down one row if a game is being played (`playing`) and none
/// of them has come down to the floor.
pub open spec fn swarm_moved(aliens: Seq<Alien>, distance: int, playing: bool) -> Seq<Alien> {
    let gone = marched_all(aliens, distance);
    match turn(gone) {
        None => gone,
        Some(direction) => Seq::new(
            gone.len(),
            |i: int| turned(gone[i], direction, playing && all_above_floor(aliens)),
        ),
    }
}

/// The column that a horizontal position falls in: its whole pixels.
pub open spec fn column_of(x: i64) -> i64 {
    if x >= 0 {
        (x / PX) as i64
    } else {
        (-((-x) / (PX as int))) as i64
    }
}

/// The columns that hold an alien.
pub open spec fn columns(aliens: Seq<Alien>) -> Set<i64> {
    Set::new(
        |c: i64| exists|j: int| 0 <= j < aliens.len() && column_of(#[trigger] aliens[j].position.x) == c,
    )
}

/// Alien `i` is the lowest of its column, or one of the lowest. Only
/// these drop bullets.
pub open spec fn is_front(aliens: Seq<Alien>, i: int) -> bool {
    forall|j: int|
        0 <= j < aliens.len() && column_of(#[trigger] aliens[j].position.x) == column_of(
            aliens[i].position.x,
        ) ==> aliens[i].position.y <= aliens[j].position.y
}

/// What the swarm shares after `delta` more time units without a bullet.
pub open spec fn cooled(resource: AlienResource, delta: u32) -> AlienResource {
    AlienResource {
        bullet_spawn_timer: if resource.bullet_spawn_timer + delta > u32::MAX {
            u32::MAX
        } else {
            (resource.bullet_spawn_timer + delta) as u32
        },
        bullet_interval: resource.bullet_interval,
    }
}

/// Enough time has passed since the last bullet.
pub open spec fn ready(resource: AlienResource) -> bool {
    resource.bullet_spawn_timer > resource.bullet_interval
}

/// What the swarm shares right after a bullet has been dropped.
pub open spec fn spent(resource: AlienResource) -> AlienResource {
    AlienResource { bullet_spawn_timer: 0, bullet_interval: resource.bullet_interval }
}

/// What the swarm shares, and its bullets, after an alien at `position`
/// has had its chance to drop one: it does so if the swarm is ready and
/// the roll came out in its favour.
pub open spec fn dropped(
    resource: AlienResource,
    bullets: Seq<AlienBullet>,
    position: Vec2,
    roll: bool,
) -> (AlienResource, Seq<AlienBullet>) {
    if ready(resource) && roll {
        (spent(resource), bullets.push(AlienBullet { position }))
    } else {
        (resource, bullets)
    }
}

/// Alien `k` may drop a bullet: the swarm is ready and the alien stands
/// at the front of its column.
pub open spec fn may_drop(aliens: Seq<Alien>, resource: AlienResource, k: int) -> bool {
    &&& ready(resource)
    &&& 0 <= k < aliens.len()
    &&& is_front(aliens, k)
}

/// What the swarm shares, and its bullets, after one tick of dropping in
/// which `shooter` dropped a bullet, or nobody did.
pub open spec fn drop_result(
    aliens: Seq<Alien>,
    resource: AlienResource,
    bullets: Seq<AlienBullet>,
    shooter: Option<usize>,
) -> (AlienResource, Seq<AlienBullet>) {
    match shooter {
        Some(k) => (
            spent(resource),
            bullets.push(AlienBullet { position: aliens[k as int].position }),
        ),
        None => (resource, bullets),
    }
}

/// Draws a bool from `rand::thread_rng()` with `Rng::gen_ratio`, which
/// is true with a chance of `numerator` in `denominator`. The outside
/// code promises no more of a single draw than that it is true where the
/// two are equal and false where the numerator is zero, and it panics
/// unless the numerator is at most the denominator and the denominator
/// is not zero.
#[verifier::external_body]
fn roll(numerator: u32, denominator: u32) -> (hit: bool)
    requires
        numerator <= denominator,
        denominator != 0,
    ensures
        numerator == denominator ==> hit,
        numerator == 0 ==> !hit,
{
    rand::thread_rng().gen_ratio(numerator, denominator)
}

fn exec_column_of(x: i64) -> (c: i64)
    ensures
        c == column_of(x),
{
    x / PX
}

/// An alien gets its chance to drop a bullet from `position`, with the
/// roll it made.
pub fn drop_bullet(
    alien_resource: &mut AlienResource,
    alien_bullets: &mut Vec<AlienBullet>,
    position: Vec2,
    roll: bool,
)
    ensures
        (*final(alien_resource), final(alien_bullets)@) == dropped(
            *old(alien_resource),
            old(alien_bullets)@,
            position,
            roll,
        ),
{
    if alien_resource.bullet_spawn_timer > alien_resource.bullet_interval && roll {
        alien_resource.bullet_spawn_timer = 0;
        alien_bullets.push(AlienBullet { position });
    }
}

/// Moves the swarm by one tick of `delta` time units at `speed` pixels
/// per second.
pub fn march(aliens: &mut Vec<Alien>, speed: u32, delta: u32, playing: bool)
    ensures
        final(aliens)@ == swarm_moved(old(aliens)@, travel(speed, delta), playing),
        final(aliens)@.len() == old(aliens)@.len(),
        uniform(old(aliens)@) ==> uniform(final(aliens)@),
{
    proof {
        lemma_march_keeps_uniform(aliens@, travel(speed, delta), playing);
    }
    let distance = exec_travel(speed, delta);
    let ghost before = aliens@;
    let ghost gone = marched_all(before, distance as int);
    let mut new_direction: Option<Direction3> = None;
    let mut above = true;
    let mut i: usize = 0;
    while i < aliens.len()
        invariant
            i <= aliens@.len(),
            aliens@.len() == before.len(),
            gone == marched_all(before, distance as int),
            forall|j: int| 0 <= j < i ==> aliens@[j] == gone[j],
            forall|j: int| i <= j < aliens@.len() ==> aliens@[j] == before[j],
            new_direction == turn(gone.take(i as int)),
            above == all_above_floor(before.take(i as int)),
        decreases aliens@.len() - i,
    {
        proof {
            assert(gone.take(i + 1).drop_last() =~= gone.take(i as int));
            assert forall|j: int| 0 <= j < i implies #[trigger] before.take(i + 1)[j]
                == before.take(i as int)[j] by {}
            assert(before.take(i + 1)[i as int] == before[i as int]);
        }
        let mut alien = aliens[i];
        if alien.position.y <= ALIENS_FLOOR {
            above = false;
        }
        match alien.direction {
            Direction3::Left => {
                alien.position.x = exec_shifted(alien.position.x, distance, false);
                if alien.position.x < -SCENE_WIDTH {
                    new_direction = Some(Direction3::Right);
                }
            },
            Direction3::Right => {
                alien.position.x = exec_shifted(alien.position.x, distance, true);
                if alien.position.x > SCENE_WIDTH {
                    new_direction = Some(Direction3::Left);
                }
            },
            Direction3::Neutral => {},
        }
        aliens[i] = alien;
        i += 1;
    }
    proof {
        assert(gone.take(gone.len() as int) =~= gone);
        assert(before.take(before.len() as int) =~= before);
        assert(aliens@ =~= gone);
    }
    // set new direction for all aliens
    if let Some(direction) = new_direction {
        let descends = playing && above;
        let mut k: usize = 0;
        while k < aliens.len()
            invariant
                k <= aliens@.len(),
                aliens@.len() == gone.len(),
                forall|j: int| 0 <= j < k ==> aliens@[j] == turned(gone[j], direction, descends),
                forall|j: int| k <= j < aliens@.len() ==> aliens@[j] == gone[j],
            decreases aliens@.len() - k,
        {
            let mut alien = aliens[k];
            alien.direction = direction;
            if descends {
                alien.position.y = exec_shifted(alien.position.y, ALIEN_DEPTH as u64, false);
            }
            aliens[k] = alien;
            k += 1;
        }
    }
}

/// For each column that holds an alien, the height of its lowest.
fn lowest_by_column(aliens: &Vec<Alien>) -> (lowest: HashMap<i64, i64>)
    ensures
        lowest@.dom() == columns(aliens@),
        forall|i: int|
            0 <= i < aliens@.len() ==> lowest@.contains_key(
                column_of(#[trigger] aliens@[i].position.x),
            ),
        forall|i: int|
            0 <= i < aliens@.len() ==> (is_front(aliens@, i) <==> lowest@[column_of(
                #[trigger] aliens@[i].position.x,
            )] == aliens@[i].position.y),
{
    broadcast use vstd::std_specs::hash::group_hash_axioms;

    let mut lowest: HashMap<i64, i64> = HashMap::new();
    let mut i: usize = 0;
    while i < aliens.len()
        invariant
            i <= aliens@.len(),
            forall|j: int|
                0 <= j < i ==> lowest@.contains_key(column_of(#[trigger] aliens@[j].position.x))
                    && lowest@[column_of(aliens@[j].position.x)] <= aliens@[j].position.y,
            forall|c: i64|
                #[trigger] lowest@.contains_key(c) ==> exists|j: int|
                    0 <= j < i && column_of(#[trigger] aliens@[j].position.x) == c
                        && aliens@[j].position.y == lowest@[c],
        decreases aliens@.len() - i,
    {
        let x = aliens[i].position.x;
        let y = aliens[i].position.y;
        let col = exec_column_of(x);
        let lower = match lowest.get(&col) {
            Some(low) => y < *low,
            None => true,
        };
        if lower {
            lowest.insert(col, y);
        }
        i += 1;
    }
    proof {
        // every key is the column of an alien, and every such column is a key
        assert(lowest@.dom() =~= columns(aliens@));
        // an alien is as low as the lowest of its column exactly when none
        // of the column is lower
        assert forall|i: int| 0 <= i < aliens@.len() implies (is_front(aliens@, i)
            <==> lowest@[column_of(#[trigger] aliens@[i].position.x)]
            == aliens@[i].position.y) by {
            let c = column_of(aliens@[i].position.x);
            let j = choose|j: int|
                0 <= j < aliens@.len() && column_of(#[trigger] aliens@[j].position.x) == c
                    && aliens@[j].position.y == lowest@[c];
            assert(is_front(aliens@, i) ==> aliens@[i].position.y <= aliens@[j].position.y);
        }
    }
    lowest
}

/// Tells of each alien whether it stands at the front of its column.
pub fn front_row(aliens: &Vec<Alien>) -> (fronts: Vec<bool>)
    ensures
        fronts@.len() == aliens@.len(),
        forall|i: int| 0 <= i < aliens@.len() ==> #[trigger] fronts@[i] == is_front(aliens@, i),
{
    broadcast use vstd::std_specs::hash::group_hash_axioms;

    let lowest = lowest_by_column(aliens);
    let mut fronts: Vec<bool> = Vec::new();
    let mut i: usize = 0;
    while i < aliens.len()
        invariant
            i <= aliens@.len(),
            fronts@.len() == i,
            forall|j: int|
                0 <= j < aliens@.len() ==> lowest@.contains_key(
                    column_of(#[trigger] aliens@[j].position.x),
                ),
            forall|j: int|
                0 <= j < aliens@.len() ==> (is_front(aliens@, j) <==> lowest@[column_of(
                    #[trigger] aliens@[j].position.x,
                )] == aliens@[j].position.y),
            forall|j: int| 0 <= j < i ==> #[trigger] fronts@[j] == is_front(aliens@, j),
        decreases aliens@.len() - i,
    {
        let alien = aliens[i];
        let col = exec_column_of(alien.position.x);
        let front = match lowest.get(&col) {
            Some(low) => *low == alien.position.y,
            None => false,
        };
        fronts.push(front);
        i += 1;
    }
    fronts
}

/// The number of columns that hold an alien, as far as 32 bits count.
pub open spec fn column_count(aliens: Seq<Alien>) -> u32 {
    if columns(aliens).len() > u32::MAX {
        u32::MAX
    } else {
        columns(aliens).len() as u32
    }
}

/// The odds of a single draw: an alien at the front drops a bullet with
/// a chance of one in the number of columns that hold an alien, so that
/// a ready swarm drops about one bullet in a tick, however many columns
/// are left.
pub fn drop_odds(aliens: &Vec<Alien>) -> (odds: (u32, u32))
    ensures
        odds.0 == 1,
        odds.1 == column_count(aliens@),
        aliens@.len() > 0 ==> odds.1 >= 1,
{
    broadcast use vstd::std_specs::hash::group_hash_axioms;

    let lowest = lowest_by_column(aliens);
    let count = lowest.len();
    proof {
        if aliens@.len() > 0 {
            assert(columns(aliens@).contains(column_of(aliens@[0].position.x)));
            assert(columns(aliens@).finite());
        }
    }
    if count > u32::MAX as usize {
        (1, u32::MAX)
    } else {
        (1, count as u32)
    }
}

/// The first alien from `from` on that stands at the front of its column
/// and has won its draw, or the number of aliens if there is none.
pub open spec fn first_winner_from(aliens: Seq<Alien>, draws: Seq<bool>, from: int) -> int
    decreases aliens.len() - from,
{
    if from >= aliens.len() {
        aliens.len() as int
    } else if is_front(aliens, from) && draws[from] {
        from
    } else {
        first_winner_from(aliens, draws, from + 1)
    }
}

/// The alien that drops a bullet in a tick in which the aliens have
/// drawn `draws`, one draw each: the first at the front of its column
/// with a winning draw, if the swarm is ready.
pub open spec fn picked(aliens: Seq<Alien>, resource: AlienResource, draws: Seq<bool>) -> Option<
    usize,
> {
    let k = first_winner_from(aliens, draws, 0);
    if ready(resource) && k < aliens.len() {
        Some(k as usize)
    } else {
        None
    }
}

/// The first winner is at the front of its column and has won its draw,
/// and nobody before it is both.
pub proof fn lemma_first_winner(aliens: Seq<Alien>, draws: Seq<bool>, from: int)
    requires
        0 <= from <= aliens.len(),
    ensures
        from <= first_winner_from(aliens, draws, from) <= aliens.len(),
        first_winner_from(aliens, draws, from) < aliens.len() ==> is_front(
            aliens,
            first_winner_from(aliens, draws, from),
        ) && draws[first_winner_from(aliens, draws, from)],
        forall|j: int|
            from <= j < first_winner_from(aliens, draws, from) ==> !(is_front(aliens, j)
                && #[trigger] draws[j]),
    decreases aliens.len() - from,
{
    if from < aliens.len() && !(is_front(aliens, from) && draws[from]) {
        lemma_first_winner(aliens, draws, from + 1);
    }
}

/// Where every draw is won, the first alien at the front drops, and a
/// swarm that is not empty has one.
pub proof fn lemma_sure_draws(aliens: Seq<Alien>, draws: Seq<bool>)
    requires
        aliens.len() > 0,
        draws.len() == aliens.len(),
        forall|j: int| 0 <= j < draws.len() ==> #[trigger] draws[j],
    ensures
        0 <= first_winner_from(aliens, draws, 0) < aliens.len(),
        is_front(aliens, first_winner_from(aliens, draws, 0)),
        forall|j: int|
            0 <= j < first_winner_from(aliens, draws, 0) ==> !is_front(aliens, j),
{
    lemma_first_winner(aliens, draws, 0);
    lemma_front_exists(aliens, 0);
    let k = first_winner_from(aliens, draws, 0);
    assert forall|j: int| 0 <= j < k implies !is_front(aliens, j) by {
        assert(draws[j]);
    }
    if k >= aliens.len() {
        let w = choose|w: int|
            0 <= w < aliens.len() && column_of(#[trigger] aliens[w].position.x) == column_of(
                aliens[0].position.x,
            ) && is_front(aliens, w);
        assert(draws[w]);
    }
}

/// Lets the alien drop a bullet that the draws of a tick pick: the
/// first at the front of its column with a winning draw, if the swarm
/// is ready. The bullet starts where the alien stands, and the interval
/// between two bullets starts anew. Returns the alien that dropped.
pub fn pick_shooter(
    aliens: &Vec<Alien>,
    alien_resource: &mut AlienResource,
    alien_bullets: &mut Vec<AlienBullet>,
    draws: &Vec<bool>,
) -> (shooter: Option<usize>)
    requires
        draws@.len() == aliens@.len(),
    ensures
        shooter == picked(aliens@, *old(alien_resource), draws@),
        shooter matches Some(k) ==> may_drop(aliens@, *old(alien_resource), k as int),
        (*final(alien_resource), final(alien_bullets)@) == drop_result(
            aliens@,
            *old(alien_resource),
            old(alien_bullets)@,
            shooter,
        ),
{
    proof {
        lemma_first_winner(aliens@, draws@, 0);
    }
    if !(alien_resource.bullet_spawn_timer > alien_resource.bullet_interval) {
        return None;
    }
    let fronts = front_row(aliens);
    let mut i: usize = 0;
    while i < aliens.len()
        invariant
            i <= aliens@.len(),
            draws@.len() == aliens@.len(),
            fronts@.len() == aliens@.len(),
            forall|j: int| 0 <= j < aliens@.len() ==> #[trigger] fronts@[j] == is_front(aliens@, j),
            first_winner_from(aliens@, draws@, 0) == first_winner_from(aliens@, draws@, i as int),
            *alien_resource == *old(alien_resource),
            alien_bullets@ == old(alien_bullets)@,
            ready(*alien_resource),
        decreases aliens@.len() - i,
    {
        if fronts[i] && draws[i] {
            drop_bullet(alien_resource, alien_bullets, aliens[i].position, true);
            return Some(i);
        }
        i += 1;
    }
    None
}

/// Lets the aliens at the front of their columns drop bullets. The
/// swarm is ready when more than its interval has passed since the last
/// bullet. Then every alien draws once, at the odds of [`drop_odds`],
/// and [`pick_shooter`] lets the alien drop that the draws pick. Returns
/// the alien that dropped a bullet, if one did. In a swarm of one column
/// that is the first alien at the front, whenever the swarm is ready.
pub fn drop_bullets(
    aliens: &Vec<Alien>,
    alien_resource: &mut AlienResource,
    alien_bullets: &mut Vec<AlienBullet>,
) -> (shooter: Option<usize>)
    ensures
        exists|draws: Seq<bool>|
            draws.len() == aliens@.len() && shooter == #[trigger] picked(
                aliens@,
                *old(alien_resource),
                draws,
            ),
        shooter matches Some(k) ==> may_drop(aliens@, *old(alien_resource), k as int),
        (*final(alien_resource), final(alien_bullets)@) == drop_result(
            aliens@,
            *old(alien_resource),
            old(alien_bullets)@,
            shooter,
        ),
        ready(*old(alien_resource)) && aliens@.len() > 0 && column_count(aliens@) == 1
            ==> shooter is Some,
        column_count(aliens@) == 1 ==> (shooter matches Some(k) ==> forall|j: int|
            0 <= j < k ==> !is_front(aliens@, j)),
{
    let rolling = alien_resource.bullet_spawn_timer > alien_resource.bullet_interval
        && aliens.len() > 0;
    let odds = drop_odds(aliens);
    let mut draws: Vec<bool> = Vec::new();
    let mut i: usize = 0;
    while i < aliens.len()
        invariant
            i <= aliens@.len(),
            draws@.len() == i,
            odds.0 == 1,
            aliens@.len() > 0 ==> odds.1 >= 1,
            rolling ==> aliens@.len() > 0,
            rolling && odds.1 == 1 ==> forall|j: int| 0 <= j < i ==> #[trigger] draws@[j],
        decreases aliens@.len() - i,
    {
        let won = if rolling {
            roll(odds.0, odds.1)
        } else {
            false
        };
        draws.push(won);
        i += 1;
    }
    proof {
        if rolling && odds.1 == 1 {
            lemma_sure_draws(aliens@, draws@);
        }
        assert(aliens@.len() <= usize::MAX);
    }
    pick_shooter(aliens, alien_resource, alien_bullets, &draws)
}

/// Moves the swarm and lets it drop bullets, for one tick. Returns the
/// alien that dropped a bullet, if one did.
pub fn update_system(
    delta: u32,
    alien_resource: &mut AlienResource,
    store: &Store,
    alien_bullets: &mut Vec<AlienBullet>,
    aliens: &mut Vec<Alien>,
) -> (shooter: Option<usize>)
    ensures
        final(aliens)@ == swarm_moved(
            old(aliens)@,
            travel(store.alien_speed, delta),
            store.game_state is Play,
        ),
        shooter matches Some(k) ==> may_drop(
            final(aliens)@,
            cooled(*old(alien_resource), delta),
            k as int,
        ),
        (*final(alien_resource), final(alien_bullets)@) == drop_result(
            final(aliens)@,
            cooled(*old(alien_resource), delta),
            old(alien_bullets)@,
            shooter,
        ),
        exists|draws: Seq<bool>|
            draws.len() == final(aliens)@.len() && shooter == #[trigger] picked(
                final(aliens)@,
                cooled(*old(alien_resource), delta),
                draws,
            ),
        ready(cooled(*old(alien_resource), delta)) && final(aliens)@.len() > 0 && column_count(
            final(aliens)@,
        ) == 1 ==> shooter is Some,
        column_count(final(aliens)@) == 1 ==> (shooter matches Some(k) ==> forall|j: int|
            0 <= j < k ==> !is_front(final(aliens)@, j)),
        uniform(old(aliens)@) ==> uniform(final(aliens)@),
        final(aliens)@.len() == old(aliens)@.len(),
{
    let playing = match store.game_state {
        GameState::Play => true,
        _ => false,
    };
    march(aliens, store.alien_speed, delta, playing);
    alien_resource.bullet_spawn_timer = if alien_resource.bullet_spawn_timer > u32::MAX - delta {
        u32::MAX
    } else {
        alien_resource.bullet_spawn_timer + delta
    };
    drop_bullets(aliens, alien_resource, alien_bullets)
}

/// Every column that holds an alien has one at its front.
pub proof fn lemma_front_exists(aliens: Seq<Alien>, i: int)
    requires
        0 <= i < aliens.len(),
    ensures
        exists|k: int|
            0 <= k < aliens.len() && column_of(#[trigger] aliens[k].position.x) == column_of(
                aliens[i].position.x,
            ) && is_front(aliens, k),
{
    let c = column_of(aliens[i].position.x);
    assert(in_column(aliens, i, c));
    let k = lowest_of_column(aliens, c, aliens.len() as int);
    assert forall|j: int|
        0 <= j < aliens.len() && column_of(#[trigger] aliens[j].position.x) == column_of(
            aliens[k].position.x,
        ) implies aliens[k].position.y <= aliens[j].position.y by {
        assert(in_column(aliens, j, c));
    }
}

/// Alien `j` stands in column `c`.
spec fn in_column(aliens: Seq<Alien>, j: int, c: i64) -> bool {
    column_of(aliens[j].position.x) == c
}

/// Picks a lowest among those of the first `n` aliens that stand in
/// column `c`.
proof fn lowest_of_column(aliens: Seq<Alien>, c: i64, n: int) -> (k: int)
    requires
        0 <= n <= aliens.len(),
        exists|m: int| 0 <= m < n && #[trigger] in_column(aliens, m, c),
    ensures
        0 <= k < n,
        in_column(aliens, k, c),
        forall|j: int|
            0 <= j < n && #[trigger] in_column(aliens, j, c) ==> aliens[k].position.y
                <= aliens[j].position.y,
    decreases n,
{
    let last = n - 1;
    if exists|m: int| 0 <= m < n - 1 && #[trigger] in_column(aliens, m, c) {
        let before = lowest_of_column(aliens, c, n - 1);
        if in_column(aliens, last, c) && aliens[last].position.y < aliens[before].position.y {
            last
        } else {
            before
        }
    } else {
        last
    }
}

/// In a swarm that heads one way, the swarm turns exactly when one of
/// its members has passed the side, and then to the opposite direction.
pub proof fn lemma_turn_is_swarm_wide(aliens: Seq<Alien>)
    requires
        uniform(aliens),
    ensures
        turn(aliens) is Some <==> exists|i: int| 0 <= i < aliens.len() && crossed(#[trigger] aliens[i]),
        turn(aliens) is Some ==> turn(aliens) == Some(aliens[0].direction.reversed()),
    decreases aliens.len(),
{
    if aliens.len() > 0 {
        let rest = aliens.drop_last();
        assert(uniform(rest)) by {
            assert forall|i: int, j: int| 0 <= i < rest.len() && 0 <= j < rest.len() implies (
            #[trigger] rest[i]).direction == (#[trigger] rest[j]).direction by {
                assert(rest[i] == aliens[i] && rest[j] == aliens[j]);
            }
        }
        lemma_turn_is_swarm_wide(rest);
        if !crossed(aliens.last()) {
            // a member that has passed the side is one of the rest
            if turn(rest) is Some {
                let i = choose|i: int| 0 <= i < rest.len() && crossed(#[trigger] rest[i]);
                assert(crossed(aliens[i]));
            }
            if exists|i: int| 0 <= i < aliens.len() && crossed(#[trigger] aliens[i]) {
                let i = choose|i: int| 0 <= i < aliens.len() && crossed(#[trigger] aliens[i]);
                assert(crossed(rest[i]));
            }
        }
    }
}

/// No partial turn: when one member of a swarm that heads one way has
/// passed the side after the march, every member heads the opposite way
/// after the tick, wherever it stands; and when none has, every member
/// heads on as before.
pub proof fn lemma_one_crossing_turns_all(aliens: Seq<Alien>, distance: int, playing: bool)
    requires
        uniform(aliens),
        aliens.len() > 0,
    ensures
        (exists|i: int| 0 <= i < aliens.len() && crossed(marched(#[trigger] aliens[i], distance)))
            ==> forall|j: int|
            0 <= j < aliens.len() ==> (#[trigger] swarm_moved(aliens, distance, playing)[j]).direction
                == aliens[0].direction.reversed(),
        !(exists|i: int| 0 <= i < aliens.len() && crossed(marched(#[trigger] aliens[i], distance)))
            ==> forall|j: int|
            0 <= j < aliens.len() ==> (#[trigger] swarm_moved(aliens, distance, playing)[j]).direction
                == aliens[0].direction,
{
    let gone = marched_all(aliens, distance);
    assert(uniform(gone)) by {
        assert forall|i: int, j: int| 0 <= i < gone.len() && 0 <= j < gone.len() implies (
        #[trigger] gone[i]).direction == (#[trigger] gone[j]).direction by {
            assert(aliens[i].direction == aliens[j].direction);
        }
    }
    lemma_turn_is_swarm_wide(gone);
    if exists|i: int| 0 <= i < aliens.len() && crossed(marched(#[trigger] aliens[i], distance)) {
        let i = choose|i: int|
            0 <= i < aliens.len() && crossed(marched(#[trigger] aliens[i], distance));
        assert(crossed(gone[i]));
    } else {
        if turn(gone) is Some {
            let i = choose|i: int| 0 <= i < gone.len() && crossed(#[trigger] gone[i]);
            assert(crossed(marched(aliens[i], distance)));
        }
        assert forall|j: int| 0 <= j < aliens.len() implies (#[trigger] swarm_moved(
            aliens,
            distance,
            playing,
        )[j]).direction == aliens[0].direction by {
            assert(aliens[j].direction == aliens[0].direction);
        }
    }
}

/// After a tick the swarm still heads one way: where it turns, all of
/// its members turn.
pub proof fn lemma_march_keeps_uniform(aliens: Seq<Alien>, distance: int, playing: bool)
    ensures
        uniform(aliens) ==> uniform(swarm_moved(aliens, distance, playing)),
        turn(marched_all(aliens, distance)) is Some ==> uniform(
            swarm_moved(aliens, distance, playing),
        ),
        swarm_moved(aliens, distance, playing).len() == aliens.len(),
{
    let gone = marched_all(aliens, distance);
    let after = swarm_moved(aliens, distance, playing);
    if uniform(aliens) && turn(gone) is None {
        assert forall|i: int, j: int| 0 <= i < after.len() && 0 <= j < after.len() implies (
        #[trigger] after[i]).direction == (#[trigger] after[j]).direction by {
            assert(aliens[i].direction == aliens[j].direction);
        }
    }
}

/// All aliens of the swarm head the same way.
pub open spec fn uniform(aliens: Seq<Alien>) -> bool {
    forall|i: int, j: int|
        0 <= i < aliens.len() && 0 <= j < aliens.len() ==> (#[trigger] aliens[i]).direction == (
        #[trigger] aliens[j]).direction
}

/// A fresh grid is full and heads one way.
pub proof fn lemma_grid_uniform()
    ensures
        grid().len() == ALIENS_TOTAL,
        uniform(grid()),
        forall|i: int| 0 <= i < grid().len() ==> (#[trigger] grid()[i]).direction == Direction3::Right,
{
}

/// Bullets only ever leave through the bottom: after a tick there are no
/// more of them than before.
pub proof fn lemma_fallen_all_len(bullets: Seq<AlienBullet>, delta: u32)
    ensures
        fallen_all(bullets, delta).len() <= bullets.len(),
    decreases bullets.len(),
{
    if bullets.len() > 0 {
        lemma_fallen_all_len(bullets.drop_last(), delta);
    }
}

} // verus!
