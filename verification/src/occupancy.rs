//! Occupancy maps.
//!
//! Where the map is finer than the view, several map cells fall on one
//! terminal cell and are put to the vote; where it is coarser, a terminal cell
//! on which no map cell falls shows the map cell that covers its middle.

use vstd::prelude::*;
use vstd::arithmetic::div_mod::*;
use crate::canvas::{Canvas, CanvasView, Cell, lemma_slot_in_range, lemma_slot_injective, slot};
use crate::geometry::{Point, Pose3, div_floor, lemma_product_bound, saturate, saturating};
use crate::message::{Occupancy, OccupancyMap};
use crate::scan::Style;
use crate::viewport::{Viewport, ViewportView};

verus! {

/// How an occupancy map is drawn: the look of each of the three states. A
/// state without a look is not drawn.
#[derive(Clone, Copy, Debug, PartialEq, Eq)]
pub struct MapStyle {
    pub occupied: Option<Style>,
    pub free: Option<Style>,
    pub unknown: Option<Style>,
}

/// The middle of map cell `index`, in the map's own coordinates. Cells are
/// stored row by row.
pub open spec fn cell_middle(map: &OccupancyMap, index: int) -> Point {
    let i = index % (map.width as int);
    let j = index / (map.width as int);
    Point {
        x: saturate((2 * i + 1) * map.resolution / 2) as i64,
        y: saturate((2 * j + 1) * map.resolution / 2) as i64,
    }
}

/// Where the middle of map cell `index` lies in the viewport's frame: carried
/// through the map's origin pose and then through `frame`.
pub open spec fn cell_in_view(map: &OccupancyMap, frame: Pose3, index: int) -> Point {
    frame.applied(map.origin.applied(cell_middle(map, index)))
}

/// Whether map cell `index` falls on the terminal cell `(col, row)`.
pub open spec fn lands_on(
    map: &OccupancyMap,
    view: ViewportView,
    frame: Pose3,
    index: int,
    col: int,
    row: int,
) -> bool {
    let p = cell_in_view(map, frame, index);
    view.on_canvas(p) && view.col_of(p) == col && view.row_of(p) == row
}

/// How many of the first `k` map cells are in `state` and fall on the
/// terminal cell `(col, row)`.
pub open spec fn votes(
    map: &OccupancyMap,
    view: ViewportView,
    frame: Pose3,
    k: int,
    col: int,
    row: int,
    state: Occupancy,
) -> nat
    decreases k,
{
    if k <= 0 {
        0
    } else {
        votes(map, view, frame, k - 1, col, row, state) + if map.cells@[k - 1] == state
            && lands_on(map, view, frame, k - 1, col, row) {
            1nat
        } else {
            0nat
        }
    }
}

/// The outcome of a vote: the state with the most votes, where occupied wins
/// every tie it is part of and unknown wins a tie with free.
pub open spec fn verdict(free: nat, occupied: nat, unknown: nat) -> Occupancy {
    if occupied >= free && occupied >= unknown {
        Occupancy::Occupied
    } else if free > unknown {
        Occupancy::Free
    } else {
        Occupancy::Unknown
    }
}

/// The state of the map cell that covers the middle of the terminal cell
/// `(col, row)`, or `None` where the middle lies off the map.
pub open spec fn sampled(
    map: &OccupancyMap,
    view: ViewportView,
    frame: Pose3,
    col: int,
    row: int,
) -> Option<Occupancy> {
    covering(map, map.origin.unapplied(frame.unapplied(view.world_of(col, row))))
}

/// What the terminal cell `(col, row)` knows of the map: the verdict of the
/// map cells that fall on it or, where none does, the state of the map cell
/// that covers its middle.
pub open spec fn state_at(map: &OccupancyMap, view: ViewportView, frame: Pose3, col: int, row: int)
    -> Option<Occupancy> {
    let n = map.cells@.len() as int;
    let free = votes(map, view, frame, n, col, row, Occupancy::Free);
    let occupied = votes(map, view, frame, n, col, row, Occupancy::Occupied);
    let unknown = votes(map, view, frame, n, col, row, Occupancy::Unknown);
    if free + occupied + unknown > 0 {
        Some(verdict(free, occupied, unknown))
    } else {
        sampled(map, view, frame, col, row)
    }
}

/// The look of a state.
pub open spec fn look_of(style: MapStyle, state: Occupancy) -> Option<Cell> {
    let chosen = match state {
        Occupancy::Occupied => style.occupied,
        Occupancy::Free => style.free,
        Occupancy::Unknown => style.unknown,
    };
    match chosen {
        Some(s) => Some(Cell { glyph: s.glyph, color: s.color }),
        None => None,
    }
}

/// What the map shows at `(col, row)`, for the positions of the view that
/// come before `(upto_col, upto_row)` row by row; `None` elsewhere.
pub open spec fn map_look(
    map: &OccupancyMap,
    view: ViewportView,
    frame: Pose3,
    style: MapStyle,
    upto_col: int,
    upto_row: int,
) -> spec_fn(int, int) -> Option<Cell> {
    |col: int, row: int|
        if 0 <= col < view.width && 0 <= row < view.height && (row < upto_row || (row == upto_row
            && col < upto_col)) {
            match state_at(map, view, frame, col, row) {
                Some(state) => look_of(style, state),
                None => None,
            }
        } else {
            None
        }
}

/// The canvas after the map is drawn on it: a map whose fields disagree draws
/// nothing; of any other, every cell of the view shows the look of what it
/// knows of the map.
pub open spec fn map_rendered(
    canvas: CanvasView,
    view: ViewportView,
    frame: Pose3,
    map: &OccupancyMap,
    style: MapStyle,
) -> CanvasView {
    if map.well_formed() {
        canvas.overlay(map_look(map, view, frame, style, 0, view.height as int))
    } else {
        canvas
    }
}

/// No more cells vote than there are.
pub proof fn lemma_votes_bound(
    map: &OccupancyMap,
    view: ViewportView,
    frame: Pose3,
    k: int,
    col: int,
    row: int,
)
    requires
        0 <= k,
    ensures
        votes(map, view, frame, k, col, row, Occupancy::Free) + votes(
            map,
            view,
            frame,
            k,
            col,
            row,
            Occupancy::Occupied,
        ) + votes(map, view, frame, k, col, row, Occupancy::Unknown) <= k,
    decreases k,
{
    if k > 0 {
        lemma_votes_bound(map, view, frame, k - 1, col, row);
    }
}

/// The votes of the map cells, one count for each state and terminal cell.
struct Tally {
    free: Vec<usize>,
    occupied: Vec<usize>,
    unknown: Vec<usize>,
}

impl Tally {
    /// The counts are those of the first `k` map cells.
    spec fn counts(
        &self,
        map: &OccupancyMap,
        view: ViewportView,
        frame: Pose3,
        k: int,
    ) -> bool {
        &&& self.free.len() == view.width * view.height
        &&& self.occupied.len() == view.width * view.height
        &&& self.unknown.len() == view.width * view.height
        &&& forall|c: int, r: int|
            0 <= c < view.width && 0 <= r < view.height ==> {
                let at = #[trigger] slot(view.width as int, c, r);
                &&& self.free[at] == votes(map, view, frame, k, c, r, Occupancy::Free)
                &&& self.occupied[at] == votes(map, view, frame, k, c, r, Occupancy::Occupied)
                &&& self.unknown[at] == votes(map, view, frame, k, c, r, Occupancy::Unknown)
            }
    }
}

/// A grid of `total` zeros.
fn zeros(total: usize) -> (grid: Vec<usize>)
    ensures
        grid.len() == total,
        forall|i: int| 0 <= i < total ==> grid[i] == 0,
{
    let mut grid: Vec<usize> = Vec::new();
    let mut i: usize = 0;
    while i < total
        invariant
            i <= total,
            grid.len() == i,
            forall|j: int| 0 <= j < i ==> grid[j] == 0,
        decreases total - i,
    {
        grid.push(0);
        i = i + 1;
    }
    grid
}

/// The middle of map cell `index`.
fn middle_of(map: &OccupancyMap, index: usize) -> (p: Point)
    requires
        map.well_formed(),
        index < map.cells.len(),
    ensures
        p == cell_middle(map, index as int),
{
    assert(map.width > 0) by (nonlinear_arith)
        requires
            map.cells@.len() == map.width * map.height,
            index < map.cells@.len(),
    ;
    let i: u64 = (index as u64) % (map.width as u64);
    let j: u64 = (index as u64) / (map.width as u64);
    proof {
        lemma_multiply_divide_lt(index as int, map.width as int, map.height as int);
        lemma_product_bound(2 * i + 1, map.resolution as int, 0x2_0000_0000, 0x8000_0000_0000_0000);
        lemma_product_bound(2 * j + 1, map.resolution as int, 0x2_0000_0000, 0x8000_0000_0000_0000);
        assert(0x2_0000_0000 * 0x8000_0000_0000_0000 == 0x1_0000_0000_0000_0000_0000_0000int);
    }
    Point {
        x: saturating(div_floor((2 * (i as i128) + 1) * (map.resolution as i128), 2)),
        y: saturating(div_floor((2 * (j as i128) + 1) * (map.resolution as i128), 2)),
    }
}

/// Puts every map cell that falls on the view to the vote.
fn cast_votes(map: &OccupancyMap, viewport: &Viewport, frame: &Pose3) -> (tally: Tally)
    requires
        map.well_formed(),
    ensures
        tally.counts(map, viewport@, *frame, map.cells@.len() as int),
{
    let width = viewport.width();
    let height = viewport.height();
    assert(width * height <= 0xffff * 0xffff) by (nonlinear_arith)
        requires
            width <= 0xffff,
            height <= 0xffff,
    ;
    let total: usize = (width as usize) * (height as usize);
    let mut tally = Tally { free: zeros(total), occupied: zeros(total), unknown: zeros(total) };
    proof {
        assert forall|c: int, r: int| 0 <= c < width && 0 <= r < height implies 0 <= #[trigger] slot(
            width as int,
            c,
            r,
        ) < total by {
            lemma_slot_in_range(width as int, height as int, c, r);
        }
    }
    let mut k: usize = 0;
    while k < map.cells.len()
        invariant
            map.well_formed(),
            width == viewport@.width,
            height == viewport@.height,
            total == width * height,
            k <= map.cells.len(),
            tally.counts(map, viewport@, *frame, k as int),
        decreases map.cells.len() - k,
    {
        let world = frame.apply(map.origin.apply(middle_of(map, k)));
        match viewport.world_to_cell(world) {
            Some(at) => {
                proof {
                    lemma_slot_in_range(width as int, height as int, at.col as int, at.row as int);
                    lemma_votes_bound(map, viewport@, *frame, k as int, at.col as int, at.row as int);
                }
                let index: usize = (at.row as usize) * (width as usize) + (at.col as usize);
                assert(index == slot(width as int, at.col as int, at.row as int));
                match map.cells[k] {
                    Occupancy::Free => {
                        let n = tally.free[index];
                        tally.free.set(index, n + 1);
                    },
                    Occupancy::Occupied => {
                        let n = tally.occupied[index];
                        tally.occupied.set(index, n + 1);
                    },
                    Occupancy::Unknown => {
                        let n = tally.unknown[index];
                        tally.unknown.set(index, n + 1);
                    },
                }
                proof {
                    assert forall|c: int, r: int| 0 <= c < width && 0 <= r < height implies {
                        let s = #[trigger] slot(width as int, c, r);
                        &&& tally.free[s] == votes(map, viewport@, *frame, k + 1, c, r, Occupancy::Free)
                        &&& tally.occupied[s] == votes(
                            map,
                            viewport@,
                            *frame,
                            k + 1,
                            c,
                            r,
                            Occupancy::Occupied,
                        )
                        &&& tally.unknown[s] == votes(
                            map,
                            viewport@,
                            *frame,
                            k + 1,
                            c,
                            r,
                            Occupancy::Unknown,
                        )
                    } by {
                        lemma_slot_in_range(width as int, height as int, c, r);
                        if slot(width as int, c, r) == index {
                            lemma_slot_injective(width as int, c, r, at.col as int, at.row as int);
                        }
                    }
                }
            },
            None => {},
        }
        k = k + 1;
    }
    tally
}

/// The state of the map cell that covers the point `local` of the map's own
/// coordinates.
pub open spec fn covering(map: &OccupancyMap, local: Point) -> Option<Occupancy> {
    let i = (local.x as int) / (map.resolution as int);
    let j = (local.y as int) / (map.resolution as int);
    if 0 <= i < map.width && 0 <= j < map.height {
        Some(map.cells@[slot(map.width as int, i, j)])
    } else {
        None
    }
}

/// The state of the map cell that covers `local`.
fn cover_of(map: &OccupancyMap, local: Point) -> (state: Option<Occupancy>)
    requires
        map.well_formed(),
    ensures
        state == covering(map, local),
{
    let i = div_floor(local.x as i128, map.resolution as i128);
    let j = div_floor(local.y as i128, map.resolution as i128);
    let total = map.cells.len();
    if 0 <= i && i < map.width as i128 && 0 <= j && j < map.height as i128 {
        proof {
            assert(total == map.width * map.height);
            lemma_slot_in_range(map.width as int, map.height as int, i as int, j as int);
            assert(0 <= j * map.width) by (nonlinear_arith)
                requires
                    0 <= j,
                    0 <= map.width,
            ;
            assert(slot(map.width as int, i as int, j as int) == j * map.width + i);
        }
        let index: usize = (j as usize) * (map.width as usize) + (i as usize);
        Some(map.cells[index])
    } else {
        None
    }
}

/// The state of the map cell that covers the middle of a terminal cell.
fn sample(
    map: &OccupancyMap,
    viewport: &Viewport,
    frame: &Pose3,
    col: u16,
    row: u16,
) -> (state: Option<Occupancy>)
    requires
        map.well_formed(),
    ensures
        state == sampled(map, viewport@, *frame, col as int, row as int),
{
    let world = viewport.cell_to_world(col as i64, row as i64);
    let local = map.origin.unapply(frame.unapply(world));
    cover_of(map, local)
}

/// The look of a state.
fn look(style: &MapStyle, state: Occupancy) -> (cell: Option<Cell>)
    ensures
        cell == look_of(*style, state),
{
    let chosen = match state {
        Occupancy::Occupied => style.occupied,
        Occupancy::Free => style.free,
        Occupancy::Unknown => style.unknown,
    };
    match chosen {
        Some(s) => Some(Cell { glyph: s.glyph, color: s.color }),
        None => None,
    }
}

/// The outcome of a vote.
fn decide(free: usize, occupied: usize, unknown: usize) -> (state: Occupancy)
    ensures
        state == verdict(free as nat, occupied as nat, unknown as nat),
{
    if occupied >= free && occupied >= unknown {
        Occupancy::Occupied
    } else if free > unknown {
        Occupancy::Free
    } else {
        Occupancy::Unknown
    }
}

/// Draws an occupancy map.
pub fn render_map(
    canvas: &mut Canvas,
    viewport: &Viewport,
    frame: &Pose3,
    map: &OccupancyMap,
    style: MapStyle,
)
    ensures
        final(canvas)@ == map_rendered(old(canvas)@, viewport@, *frame, map, style),
{
    if !map.is_well_formed() {
        return ;
    }
    let ghost before = canvas@;
    let tally = cast_votes(map, viewport, frame);
    let width = viewport.width();
    let height = viewport.height();
    proof {
        canvas.lemma_view_wf();
        assert(before.overlay(map_look(map, viewport@, *frame, style, 0, 0)).cells =~= before.cells);
    }
    let mut row: u16 = 0;
    while row < height
        invariant
            before.wf(),
            map.well_formed(),
            width == viewport@.width,
            height == viewport@.height,
            row <= height,
            tally.counts(map, viewport@, *frame, map.cells@.len() as int),
            canvas@ == before.overlay(map_look(map, viewport@, *frame, style, 0, row as int)),
        decreases height - row,
    {
        let mut col: u16 = 0;
        while col < width
            invariant
                before.wf(),
                map.well_formed(),
                width == viewport@.width,
                height == viewport@.height,
                row < height,
                col <= width,
                tally.counts(map, viewport@, *frame, map.cells@.len() as int),
                canvas@ == before.overlay(
                    map_look(map, viewport@, *frame, style, col as int, row as int),
                ),
            decreases width - col,
        {
            proof {
                lemma_slot_in_range(width as int, height as int, col as int, row as int);
                lemma_votes_bound(
                    map,
                    viewport@,
                    *frame,
                    map.cells@.len() as int,
                    col as int,
                    row as int,
                );
            }
            let index: usize = (row as usize) * (width as usize) + (col as usize);
            assert(index == slot(width as int, col as int, row as int));
            let free = tally.free[index];
            let occupied = tally.occupied[index];
            let unknown = tally.unknown[index];
            let state = if free > 0 || occupied > 0 || unknown > 0 {
                Some(decide(free, occupied, unknown))
            } else {
                sample(map, viewport, frame, col, row)
            };
            assert(state == state_at(map, viewport@, *frame, col as int, row as int));
            let shown = match state {
                Some(s) => look(&style, s),
                None => None,
            };
            match shown {
                Some(cell) => {
                    canvas.set(col as i64, row as i64, cell.glyph, cell.color);
                },
                None => {},
            }
            proof {
                let done = map_look(map, viewport@, *frame, style, col as int, row as int);
                let next = map_look(map, viewport@, *frame, style, col + 1, row as int);
                let want = before.overlay(next);
                assert forall|p: (int, int)|
                    #![trigger canvas@.cells.dom().contains(p)]
                    #![trigger want.cells.dom().contains(p)]
                    canvas@.cells.dom().contains(p) == want.cells.dom().contains(p) && (
                    canvas@.cells.dom().contains(p) ==> canvas@.cells[p] == want.cells[p]) by {
                    assert(next(p.0, p.1) == if p.0 == col && p.1 == row {
                        shown
                    } else {
                        done(p.0, p.1)
                    });
                }
                assert(canvas@.cells =~= want.cells);
            }
            col = col + 1;
        }
        proof {
            let have = before.overlay(map_look(map, viewport@, *frame, style, width as int, row as int));
            let want = before.overlay(map_look(map, viewport@, *frame, style, 0, row + 1));
            assert(have.cells =~= want.cells);
        }
        row = row + 1;
    }
    proof {
        let have = before.overlay(map_look(map, viewport@, *frame, style, 0, height as int));
        assert(have == map_rendered(before, viewport@, *frame, map, style));
    }
}

} // verus!
