//! The bunkers: grids of cells that take damage and fall away.

use crate::common::{
    Vec2, BUNKERS, BUNKERS_Y, BUNKER_CELLS, BUNKER_CELLS_EACH, BUNKER_COLS, BUNKER_DEPTH,
    BUNKER_MAX_DAMAGE, BUNKER_ROWS, BUNKER_SPACE, BUNKER_WIDTH, SCENE_HEIGHT,
};
use vstd::prelude::*;

verus! {

/// One cell of a bunker.
#[derive(Clone, Copy, Debug, PartialEq, Eq, Structural)]
pub struct Bunker {
    /// The centre of the cell.
    pub position: Vec2,
    /// How many hits the cell has taken.
    pub damage: u8,
}

/// The number of cells in a fresh set of bunkers.
pub open spec fn layout_len() -> int {
    BUNKER_CELLS as int
}

/// The undamaged cell in row `row` and column `col` of bunker `bunker`.
/// The columns of a bunker lie around its centre, the rows go down from
/// `BUNKERS_Y` above the bottom of the scene, and the centres of the
/// bunkers lie two `BUNKER_SPACE` apart around the middle of the scene.
pub open spec fn layout_cell(bunker: int, row: int, col: int) -> Bunker {
    Bunker {
        position: Vec2 {
            x: ((2 * col - (BUNKER_COLS - 1)) * (BUNKER_WIDTH / 2) + (2 * bunker - (BUNKERS - 1))
                * BUNKER_SPACE) as i64,
            y: (BUNKERS_Y - SCENE_HEIGHT - row * BUNKER_DEPTH) as i64,
        },
        damage: 0,
    }
}

/// A fresh set of bunkers: bunker by bunker, row by row, column by column.
pub open spec fn layout() -> Seq<Bunker> {
    Seq::new(
        layout_len() as nat,
        |i: int|
            layout_cell(
                i / (BUNKER_CELLS_EACH as int),
                (i / (BUNKER_COLS as int)) % (BUNKER_ROWS as int),
                i % (BUNKER_COLS as int),
            ),
    )
}

/// The cells that are left after cell `k` has been hit: the cell shows one
/// more hit, or is gone if it showed all it can.
pub open spec fn after_hit(bunkers: Seq<Bunker>, k: int) -> Seq<Bunker> {
    if bunkers[k].damage < BUNKER_MAX_DAMAGE {
        bunkers.update(
            k,
            (Bunker { position: bunkers[k].position, damage: (bunkers[k].damage + 1) as u8 }),
        )
    } else {
        bunkers.remove(k)
    }
}

/// No cell shows more damage than a cell can show.
pub open spec fn all_standing(bunkers: Seq<Bunker>) -> bool {
    forall|i: int| 0 <= i < bunkers.len() ==> (#[trigger] bunkers[i]).damage <= BUNKER_MAX_DAMAGE
}

/// Builds the bunkers in their initial, undamaged layout.
pub fn setup() -> (bunkers: Vec<Bunker>)
    ensures
        bunkers@ == layout(),
{
    let mut bunkers: Vec<Bunker> = Vec::new();
    let mut i: usize = 0;
    while i < BUNKER_CELLS
        invariant
            i <= BUNKER_CELLS,
            bunkers@.len() == i,
            forall|j: int| 0 <= j < i ==> bunkers@[j] == layout_cell(
                j / (BUNKER_CELLS_EACH as int),
                (j / (BUNKER_COLS as int)) % (BUNKER_ROWS as int),
                j % (BUNKER_COLS as int),
            ),
        decreases BUNKER_CELLS - i,
    {
        let b: i64 = (i / BUNKER_CELLS_EACH) as i64;
        let r: i64 = ((i / BUNKER_COLS) % BUNKER_ROWS) as i64;
        let c: i64 = (i % BUNKER_COLS) as i64;
        let x: i64 = (2 * c - (BUNKER_COLS as i64 - 1)) * (BUNKER_WIDTH / 2) + (2 * b - (BUNKERS as i64
            - 1)) * BUNKER_SPACE;
        let y: i64 = BUNKERS_Y - SCENE_HEIGHT - r * BUNKER_DEPTH;
        bunkers.push(Bunker { position: Vec2 { x, y }, damage: 0 });
        i += 1;
    }
    bunkers
}

/// Rebuilds all bunkers to their initial, undamaged layout.
pub fn reset(bunkers: &mut Vec<Bunker>)
    ensures
        final(bunkers)@ == layout(),
{
    *bunkers = setup();
}

/// Cell `k` takes a hit.
pub fn hit_bunker(bunkers: &mut Vec<Bunker>, k: usize)
    requires
        k < old(bunkers)@.len(),
    ensures
        final(bunkers)@ == after_hit(old(bunkers)@, k as int),
{
    let cell = bunkers[k];
    if cell.damage < BUNKER_MAX_DAMAGE {
        bunkers[k] = Bunker { position: cell.position, damage: cell.damage + 1 };
    } else {
        bunkers.remove(k);
    }
}

/// A fresh layout is whole.
pub proof fn lemma_layout_whole()
    ensures
        layout().len() == 120,
        all_standing(layout()),
        forall|i: int| 0 <= i < layout().len() ==> (#[trigger] layout()[i]).damage == 0,
{
}

/// A hit leaves no cell that shows more than a cell can show, and removes
/// a cell only where it showed all it could.
pub proof fn lemma_hit_keeps_standing(bunkers: Seq<Bunker>, k: int)
    requires
        all_standing(bunkers),
        0 <= k < bunkers.len(),
    ensures
        all_standing(after_hit(bunkers, k)),
        after_hit(bunkers, k).len() == if bunkers[k].damage == BUNKER_MAX_DAMAGE {
            bunkers.len() - 1
        } else {
            bunkers.len() as int
        },
{
}

/// `cell` is `before` after some hits or none: where it was, with no
/// less damage.
pub open spec fn worn(before: Bunker, cell: Bunker) -> bool {
    cell.position == before.position && cell.damage >= before.damage
}

/// `cell` is one of the cells of `before`, after some hits or none.
pub open spec fn cell_of(cell: Bunker, before: Seq<Bunker>) -> bool {
    exists|j: int| 0 <= j < before.len() && worn(#[trigger] before[j], cell)
}

/// Every cell of `after` is a cell of `before`, where it was and with no
/// less damage: no cell is new and none is repaired.
pub open spec fn cells_from(after: Seq<Bunker>, before: Seq<Bunker>) -> bool {
    forall|i: int| 0 <= i < after.len() ==> cell_of(#[trigger] after[i], before)
}

/// A set of cells comes from itself.
pub proof fn lemma_cells_from_self(bunkers: Seq<Bunker>)
    ensures
        cells_from(bunkers, bunkers),
{
    assert forall|i: int| 0 <= i < bunkers.len() implies cell_of(
        #[trigger] bunkers[i],
        bunkers,
    ) by {
        assert(worn(bunkers[i], bunkers[i]));
    }
}

/// A hit makes no cell and repairs none.
pub proof fn lemma_hit_keeps_cells(bunkers: Seq<Bunker>, k: int)
    requires
        0 <= k < bunkers.len(),
    ensures
        cells_from(after_hit(bunkers, k), bunkers),
{
    let after = after_hit(bunkers, k);
    assert forall|i: int| 0 <= i < after.len() implies cell_of(#[trigger] after[i], bunkers) by {
        let j = if bunkers[k].damage < BUNKER_MAX_DAMAGE || i < k {
            i
        } else {
            i + 1
        };
        assert(worn(bunkers[j], after[i]));
    }
}

/// Cells that come from cells that come from a set of cells come from
/// that set.
pub proof fn lemma_cells_from_chain(last: Seq<Bunker>, mid: Seq<Bunker>, first: Seq<Bunker>)
    requires
        cells_from(last, mid),
        cells_from(mid, first),
    ensures
        cells_from(last, first),
{
    assert forall|i: int| 0 <= i < last.len() implies cell_of(#[trigger] last[i], first) by {
        assert(cell_of(last[i], mid));
        let m = choose|m: int| 0 <= m < mid.len() && worn(#[trigger] mid[m], last[i]);
        assert(cell_of(mid[m], first));
        let j = choose|j: int| 0 <= j < first.len() && worn(#[trigger] first[j], mid[m]);
        assert(worn(first[j], last[i]));
    }
}

} // verus!
