//! Drawing points that hide each other.
//!
//! Where several points of one data set fall on the same cell, the cell shows
//! the nearest of them, as if the points had been drawn from the farthest to
//! the nearest. Among points that are equally near the one that comes later
//! in the data set shows.

use vstd::prelude::*;
use crate::canvas::{Canvas, CanvasView, Cell, CellPos, lemma_slot_in_range, lemma_slot_injective, slot};

verus! {

/// One point to be drawn: the cell it falls on, how far it is from the
/// sensor, and what it shows.
#[derive(Clone, Copy, Debug, PartialEq, Eq)]
pub struct Dot {
    pub at: CellPos,
    pub depth: u128,
    pub cell: Cell,
}

/// Whether dot `d` falls on `(col, row)`.
pub open spec fn falls_on(d: Dot, col: int, row: int) -> bool {
    d.at.col == col && d.at.row == row
}

/// The depth of the nearest among the first `k` dots that fall on
/// `(col, row)`, or `None` if none of them does.
pub open spec fn nearest_depth(dots: Seq<Dot>, k: int, col: int, row: int) -> Option<u128>
    decreases k,
{
    if k <= 0 {
        None
    } else {
        let before = nearest_depth(dots, k - 1, col, row);
        let d = dots[k - 1];
        if falls_on(d, col, row) && (before matches Some(b) ==> d.depth <= b) {
            Some(d.depth)
        } else {
            before
        }
    }
}

/// Whether dot `i` shows once the dots before it are drawn: no earlier dot
/// on the same cell is strictly nearer.
pub open spec fn shows(dots: Seq<Dot>, i: int) -> bool {
    nearest_depth(dots, i, dots[i].at.col as int, dots[i].at.row as int) matches Some(b)
        ==> dots[i].depth <= b
}

/// The canvas after the first `k` dots are drawn on `view`.
pub open spec fn painted(view: CanvasView, dots: Seq<Dot>, k: int) -> CanvasView
    decreases k,
{
    if k <= 0 {
        view
    } else {
        let before = painted(view, dots, k - 1);
        let d = dots[k - 1];
        if shows(dots, k - 1) {
            before.put(d.at.col as int, d.at.row as int, d.cell)
        } else {
            before
        }
    }
}

/// Drawing dots keeps the extents of the canvas and its well-formedness.
pub proof fn lemma_painted_wf(view: CanvasView, dots: Seq<Dot>, k: int)
    requires
        view.wf(),
    ensures
        painted(view, dots, k).wf(),
        painted(view, dots, k).width == view.width,
        painted(view, dots, k).height == view.height,
    decreases k,
{
    if k > 0 {
        lemma_painted_wf(view, dots, k - 1);
    }
}

/// A cell on which none of the dots falls stays as it was. A cell on which
/// some of them fall shows one of those that are nearest: no dot on the cell
/// is nearer than the one that shows.
pub proof fn law_nearest_wins(view: CanvasView, dots: Seq<Dot>, k: int, col: int, row: int)
    requires
        view.wf(),
        view.in_bounds(col, row),
        0 <= k <= dots.len(),
    ensures
        (forall|j: int| 0 <= j < k ==> !falls_on(#[trigger] dots[j], col, row)) ==> painted(
            view,
            dots,
            k,
        ).at(col, row) == view.at(col, row) && nearest_depth(dots, k, col, row).is_none(),
        (exists|j: int| 0 <= j < k && falls_on(#[trigger] dots[j], col, row)) ==> exists|w: int|
            0 <= w < k && falls_on(#[trigger] dots[w], col, row) && painted(view, dots, k).at(
                col,
                row,
            ) == Some(dots[w].cell) && nearest_depth(dots, k, col, row) == Some(dots[w].depth)
                && forall|j: int|
                0 <= j < k && falls_on(#[trigger] dots[j], col, row) ==> dots[w].depth
                    <= dots[j].depth,
    decreases k,
{
    if k > 0 {
        law_nearest_wins(view, dots, k - 1, col, row);
        lemma_painted_wf(view, dots, k - 1);
        let d = dots[k - 1];
        let before = painted(view, dots, k - 1);
        if falls_on(d, col, row) {
            if shows(dots, k - 1) {
                assert(falls_on(dots[k - 1], col, row));
                assert(painted(view, dots, k).at(col, row) == Some(d.cell));
            } else {
                let w = choose|w: int|
                    0 <= w < k - 1 && falls_on(#[trigger] dots[w], col, row) && before.at(col, row)
                        == Some(dots[w].cell) && nearest_depth(dots, k - 1, col, row) == Some(
                        dots[w].depth,
                    ) && forall|j: int|
                        0 <= j < k - 1 && falls_on(#[trigger] dots[j], col, row) ==> dots[w].depth
                            <= dots[j].depth;
                assert(falls_on(dots[w], col, row));
            }
        } else {
            if exists|j: int| 0 <= j < k && falls_on(#[trigger] dots[j], col, row) {
                let j = choose|j: int| 0 <= j < k && falls_on(#[trigger] dots[j], col, row);
                assert(j < k - 1);
                assert(falls_on(dots[j], col, row));
                let w = choose|w: int|
                    0 <= w < k - 1 && falls_on(#[trigger] dots[w], col, row) && before.at(col, row)
                        == Some(dots[w].cell) && nearest_depth(dots, k - 1, col, row) == Some(
                        dots[w].depth,
                    ) && forall|j: int|
                        0 <= j < k - 1 && falls_on(#[trigger] dots[j], col, row) ==> dots[w].depth
                            <= dots[j].depth;
                assert(falls_on(dots[w], col, row));
            }
        }
    }
}

/// Draws the dots on the canvas. Where several fall on one cell the nearest
/// shows; dots that fall outside the canvas are left out.
pub fn paint_dots(canvas: &mut Canvas, dots: &Vec<Dot>)
    ensures
        final(canvas)@ == painted(old(canvas)@, dots@, dots.len() as int),
{
    let ghost before = canvas@;
    let width = canvas.width();
    let height = canvas.height();
    assert(width * height <= 0xffff * 0xffff) by (nonlinear_arith)
        requires
            width <= 0xffff,
            height <= 0xffff,
    ;
    let total: usize = (width as usize) * (height as usize);
    let mut seen: Vec<Option<u128>> = Vec::new();
    let mut i: usize = 0;
    while i < total
        invariant
            i <= total,
            seen.len() == i,
            forall|j: int| 0 <= j < seen.len() ==> seen[j].is_none(),
        decreases total - i,
    {
        seen.push(None);
        i = i + 1;
    }
    proof {
        canvas.lemma_view_wf();
        assert forall|c: int, r: int| 0 <= c < width && 0 <= r < height implies seen[
            #[trigger] slot(width as int, c, r)] == nearest_depth(dots@, 0, c, r) by {
            lemma_slot_in_range(width as int, height as int, c, r);
        }
    }
    let mut k: usize = 0;
    while k < dots.len()
        invariant
            before.wf(),
            k <= dots.len(),
            width == before.width,
            height == before.height,
            total == width * height,
            seen.len() == total,
            canvas@ == painted(before, dots@, k as int),
            forall|c: int, r: int|
                0 <= c < width && 0 <= r < height ==> seen[#[trigger] slot(width as int, c, r)]
                    == nearest_depth(dots@, k as int, c, r),
        decreases dots.len() - k,
    {
        let d = dots[k];
        proof {
            lemma_painted_wf(before, dots@, k as int);
        }
        if 0 <= d.at.col && d.at.col < width as i64 && 0 <= d.at.row && d.at.row < height as i64 {
            proof {
                lemma_slot_in_range(
                    width as int,
                    height as int,
                    d.at.col as int,
                    d.at.row as int,
                );
            }
            let at: usize = (d.at.row as usize) * (width as usize) + (d.at.col as usize);
            assert(at == slot(width as int, d.at.col as int, d.at.row as int));
            let better = match seen[at] {
                None => true,
                Some(b) => d.depth <= b,
            };
            if better {
                canvas.set(d.at.col, d.at.row, d.cell.glyph, d.cell.color);
                seen.set(at, Some(d.depth));
            }
            proof {
                assert forall|c: int, r: int| 0 <= c < width && 0 <= r < height implies seen[
                    #[trigger] slot(width as int, c, r)] == nearest_depth(dots@, k + 1, c, r) by {
                    lemma_slot_in_range(width as int, height as int, c, r);
                    if slot(width as int, c, r) == at {
                        lemma_slot_injective(
                            width as int,
                            c,
                            r,
                            d.at.col as int,
                            d.at.row as int,
                        );
                    }
                }
            }
        } else {
            proof {
                assert(painted(before, dots@, k + 1) == painted(before, dots@, k as int));
            }
        }
        k = k + 1;
    }
}

} // verus!
