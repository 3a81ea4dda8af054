//! Units, constants and small geometric helpers shared by every subsystem.
//!
//! Positions are fixed-point integers: one pixel is [`PX`] coordinate units.
//! Time is counted in microseconds: one second is [`SECOND`] time units.
//! Speeds are whole pixels per second, so that a speed multiplied by a time
//! is a distance in coordinate units with nothing rounded.

use vstd::prelude::*;

verus! {

/// Coordinate units in one pixel.
pub const PX: i64 = 1_000_000;

/// Time units in one second.
pub const SECOND: u32 = 1_000_000;

// vintage television format
pub const RES_Y: i64 = 1_080_000_000;

pub const RES_X: i64 = 1_440_000_000;

/// A move intent of this magnitude asks for full speed.
pub const MAGNITUDE_FULL: i32 = 1000;

/// Stick deflections up to this magnitude are taken for drift.
pub const LEFT_STICK_HYSTERESIS: i32 = 10;

// Game mechanics related
pub const PLAYER_SPEED: u32 = 500;

/// The magnitude of a slow move, a fifth of the full one.
pub const PLAYER_SLOW: i32 = 200;

pub const PLAYER_WIDTH: i64 = 64_000_000;

pub const PLAYER_DEPTH: i64 = 40_000_000;

pub const PLAYER_HEIGHT: i64 = 50_000_000;

pub const PLAYER_SPAWN_COUNTER: u8 = 20;

pub const PLAYER_SPAWN_DURATION: u32 = 100_000;

pub const LAZER_SPEED: u32 = 1250;

pub const LAZER_WIDTH: i64 = 16_000_000;

pub const LAZER_DEPTH: i64 = 32_000_000;

pub const SCENE_WIDTH: i64 = 620_000_000;

pub const SCENE_HEIGHT: i64 = 490_000_000;

pub const ALIENS_COL: usize = 11;

pub const ALIENS_ROW: usize = 5;

pub const ALIENS_TOTAL: u8 = 55;

/// Horizontal distance between two neighbours of the grid.
pub const ALIENS_SPACE: i64 = 80_000_000;

/// Vertical distance between two rows of the grid, three quarters of
/// [`ALIENS_SPACE`].
pub const ALIENS_ROW_SPACE: i64 = 60_000_000;

/// The height of the top row of a fresh grid.
pub const ALIENS_TOP: i64 = 390_000_000;

pub const ALIEN_WIDTH: i64 = 64_000_000;

pub const ALIEN_DEPTH: i64 = 40_000_000;

pub const ALIEN_BULLET_SPEED: u32 = 300;

pub const ALIEN_BULLET_INTERVAL: u32 = 250_000;

pub const BUNKERS: usize = 5;

pub const BUNKER_ROWS: usize = 4;

pub const BUNKER_COLS: usize = 6;

/// The cells of one bunker.
pub const BUNKER_CELLS_EACH: usize = 24;

/// The cells of all bunkers.
pub const BUNKER_CELLS: usize = 120;

pub const BUNKER_SPACE: i64 = 124_000_000;

pub const BUNKERS_Y: i64 = 100_000_000;

pub const BUNKER_WIDTH: i64 = 16_000_000;

pub const BUNKER_DEPTH: i64 = 16_000_000;

/// The last damage level a bunker cell can show; one more hit removes it.
pub const BUNKER_MAX_DAMAGE: u8 = 2;

/// Once an alien is this low the swarm stops descending.
pub const ALIENS_FLOOR: i64 = -390_000_000;

pub const ALIENS_SPEED_START: u32 = 30;

pub const ALIENS_SPEED_KILL: u32 = 2;

pub const ALIENS_SPEED_WAVE: u32 = 10;

pub const ALIENS_SPEED_MAX: u32 = 100;

pub const STATE_TRANSITION_MENU: u32 = 6_000_000;

pub const STATE_TRANSITION_START: u32 = 2_000_000;

pub const STATE_TRANSITION_NEW_WAVE: u32 = 1_500_000;

pub const STATE_TRANSITION_SPAWN: u32 = 250_000;

// Game logic related
pub const SCORE_ALIEN: u32 = 10;

pub const NR_LIVES: u8 = 3;

#[derive(Clone, Copy, Debug, PartialEq, Eq, Structural)]
pub enum Direction3 {
    Left,
    Right,
    Neutral,
}

impl Default for Direction3 {
    fn default() -> (d: Self)
        ensures
            d == Direction3::Neutral,
    {
        Direction3::Neutral
    }
}

impl Direction3 {
    /// The direction a swarm takes up after it has touched the side it was
    /// heading for.
    pub open spec fn reversed(self) -> Direction3 {
        match self {
            Direction3::Left => Direction3::Right,
            Direction3::Right => Direction3::Left,
            Direction3::Neutral => Direction3::Neutral,
        }
    }
}

/// A position, or the width and height of a bounding rectangle, in
/// coordinate units.
#[derive(Clone, Copy, Debug, PartialEq, Eq, Structural)]
pub struct Vec2 {
    pub x: i64,
    pub y: i64,
}

/// The coordinate nearest to `v`.
pub open spec fn clamp_coord(v: int) -> int {
    if v < i64::MIN {
        i64::MIN as int
    } else if v > i64::MAX {
        i64::MAX as int
    } else {
        v
    }
}

/// The distance covered in `delta` time units at `speed` pixels per second.
pub open spec fn travel(speed: u32, delta: u32) -> int {
    speed * delta
}

/// Where a coordinate ends up after moving `distance` towards greater
/// values (`forward`) or towards smaller ones. A coordinate stops at the
/// end of its range.
pub open spec fn shifted(x: i64, distance: int, forward: bool) -> int {
    if forward {
        clamp_coord(x + distance)
    } else {
        clamp_coord(x - distance)
    }
}

/// `point` lies in the rectangle of the given `size` centred on `target`,
/// its border included.
pub open spec fn in_rect(point: Vec2, target: Vec2, size: Vec2) -> bool {
    &&& -size.x <= 2 * (point.x - target.x) <= size.x
    &&& -size.y <= 2 * (point.y - target.y) <= size.y
}

/// The bounding rectangle of the shot in flight.
pub open spec fn lazer_box() -> Vec2 {
    Vec2 { x: LAZER_WIDTH, y: LAZER_DEPTH }
}

/// The bounding rectangle of the ship.
pub open spec fn player_box() -> Vec2 {
    Vec2 { x: PLAYER_WIDTH, y: PLAYER_DEPTH }
}

/// The bounding rectangle of a bunker cell.
pub open spec fn bunker_box() -> Vec2 {
    Vec2 { x: BUNKER_WIDTH, y: BUNKER_DEPTH }
}

/// The bounding rectangle of an alien.
pub open spec fn alien_box() -> Vec2 {
    Vec2 { x: ALIEN_WIDTH, y: ALIEN_DEPTH }
}

/// The rectangle of size `a_size` centred on `a` and the one of size
/// `b_size` centred on `b` have a point in common.
pub open spec fn rects_overlap(a: Vec2, a_size: Vec2, b: Vec2, b_size: Vec2) -> bool {
    &&& a_size.x >= 0 && a_size.y >= 0 && b_size.x >= 0 && b_size.y >= 0
    &&& -(a_size.x + b_size.x) <= 2 * (a.x - b.x) <= a_size.x + b_size.x
    &&& -(a_size.y + b_size.y) <= 2 * (a.y - b.y) <= a_size.y + b_size.y
}

pub fn exec_travel(speed: u32, delta: u32) -> (d: u64)
    ensures
        d == travel(speed, delta),
{
    assert(0 <= speed * delta <= 0xffff_ffff * 0xffff_ffff) by (nonlinear_arith)
        requires
            0 <= speed <= 0xffff_ffff,
            0 <= delta <= 0xffff_ffff,
    ;
    (speed as u64) * (delta as u64)
}

pub fn exec_shifted(x: i64, distance: u64, forward: bool) -> (r: i64)
    ensures
        r == shifted(x, distance as int, forward),
{
    let wide: i128 = if forward {
        (x as i128) + (distance as i128)
    } else {
        (x as i128) - (distance as i128)
    };
    if wide < i64::MIN as i128 {
        i64::MIN
    } else if wide > i64::MAX as i128 {
        i64::MAX
    } else {
        wide as i64
    }
}

pub fn exec_in_rect(point: Vec2, target: Vec2, size: Vec2) -> (hit: bool)
    ensures
        hit == in_rect(point, target, size),
{
    let dx: i128 = 2 * ((point.x as i128) - (target.x as i128));
    let dy: i128 = 2 * ((point.y as i128) - (target.y as i128));
    let w: i128 = size.x as i128;
    let h: i128 = size.y as i128;
    -w <= dx && dx <= w && -h <= dy && dy <= h
}

/// The test does not depend on which of the two positions carries the
/// rectangle.
pub proof fn lemma_in_rect_symmetric(a: Vec2, b: Vec2, size: Vec2)
    ensures
        in_rect(a, b, size) == in_rect(b, a, size),
{
}

/// A point is a rectangle without extent: it lies in a rectangle exactly
/// when the two overlap.
pub proof fn lemma_in_rect_is_overlap(point: Vec2, target: Vec2, size: Vec2)
    requires
        size.x >= 0,
        size.y >= 0,
    ensures
        in_rect(point, target, size) == rects_overlap(
            point,
            (Vec2 { x: 0, y: 0 }),
            target,
            size,
        ),
{
}

/// Two rectangles overlap whichever is named first.
pub proof fn lemma_overlap_symmetric(a: Vec2, a_size: Vec2, b: Vec2, b_size: Vec2)
    ensures
        rects_overlap(a, a_size, b, b_size) == rects_overlap(b, b_size, a, a_size),
{
}

} // verus!
