//! Straight lines on the grid.
//!
//! A line between two cells takes as many steps as the larger of its two
//! extents; after each step it stands on the cell nearest to the true
//! segment. It therefore visits one cell for every position along its longer
//! axis and leaves no gaps.

use vstd::prelude::*;
use vstd::arithmetic::div_mod::*;
use crate::canvas::{Canvas, Cell, CellPos, Color};
use crate::geometry::{div_floor, lemma_product_bound};
use crate::viewport::CELL_BOUND;

verus! {

/// The magnitude of `v`.
pub open spec fn magnitude(v: int) -> int {
    if v < 0 {
        -v
    } else {
        v
    }
}

/// The number of steps from `a` to `b`: the larger of the two extents.
pub open spec fn steps(a: CellPos, b: CellPos) -> int {
    let across = magnitude(b.col - a.col);
    let down = magnitude(b.row - a.row);
    if across >= down {
        across
    } else {
        down
    }
}

/// `num / den` rounded to the nearest whole number, halves upwards.
pub open spec fn nearest(num: int, den: int) -> int {
    (2 * num + den) / (2 * den)
}

/// The column of the line from `a` to `b` after `i` steps.
pub open spec fn line_col(a: CellPos, b: CellPos, i: int) -> int {
    if steps(a, b) == 0 {
        a.col as int
    } else {
        a.col + nearest(i * (b.col - a.col), steps(a, b))
    }
}

/// The row of the line from `a` to `b` after `i` steps.
pub open spec fn line_row(a: CellPos, b: CellPos, i: int) -> int {
    if steps(a, b) == 0 {
        a.row as int
    } else {
        a.row + nearest(i * (b.row - a.row), steps(a, b))
    }
}

/// Whether the line from `a` to `b` visits `(col, row)`.
pub open spec fn on_line(a: CellPos, b: CellPos, col: int, row: int) -> bool {
    exists|i: int|
        0 <= i <= steps(a, b) && #[trigger] line_col(a, b, i) == col && line_row(a, b, i) == row
}

/// The cells of the line from `a` to `b`, as a predicate on positions.
pub open spec fn line_cover(a: CellPos, b: CellPos) -> spec_fn(int, int) -> bool {
    |col: int, row: int| on_line(a, b, col, row)
}

/// Both coordinates lie within `CELL_BOUND`.
pub open spec fn in_reach(p: CellPos) -> bool {
    -CELL_BOUND <= p.col <= CELL_BOUND && -CELL_BOUND <= p.row <= CELL_BOUND
}

/// Along an axis whose extent is the full number of steps, the line advances
/// by exactly one cell per step.
proof fn lemma_nearest_full(i: int, n: int, d: int)
    requires
        n > 0,
        d == n || d == -n,
    ensures
        nearest(i * d, n) == if d == n {
            i
        } else {
            -i
        },
{
    let q = if d == n {
        i
    } else {
        -i
    };
    assert(2 * (i * d) + n == q * (2 * n) + n) by (nonlinear_arith)
        requires
            d == n || d == -n,
            q == if d == n {
                i
            } else {
                -i
            },
    ;
    lemma_fundamental_div_mod_converse_div(2 * (i * d) + n, 2 * n, q, n);
}

/// One step moves the line by at most one cell along an axis whose extent
/// does not exceed the number of steps.
proof fn lemma_nearest_step(i: int, n: int, d: int)
    requires
        n > 0,
        -n <= d <= n,
    ensures
        -1 <= nearest((i + 1) * d, n) - nearest(i * d, n) <= 1,
{
    let x = 2 * (i * d) + n;
    let y = 2 * ((i + 1) * d) + n;
    assert(y == x + 2 * d) by (nonlinear_arith)
        requires
            x == 2 * (i * d) + n,
            y == 2 * ((i + 1) * d) + n,
    ;
    lemma_div_is_ordered(x - 2 * n, y, 2 * n);
    lemma_div_is_ordered(y, x + 2 * n, 2 * n);
    lemma_div_plus_one(x, 2 * n);
    lemma_div_minus_one(x, 2 * n);
}

/// A line starts on its first cell, ends on its last, and between two
/// consecutive steps moves by at most one cell across and one cell down: it
/// leaves no gaps.
pub proof fn law_line_has_no_gaps(a: CellPos, b: CellPos, i: int)
    requires
        0 <= i < steps(a, b),
    ensures
        line_col(a, b, 0) == a.col,
        line_row(a, b, 0) == a.row,
        line_col(a, b, steps(a, b)) == b.col,
        line_row(a, b, steps(a, b)) == b.row,
        -1 <= line_col(a, b, i + 1) - line_col(a, b, i) <= 1,
        -1 <= line_row(a, b, i + 1) - line_row(a, b, i) <= 1,
        (line_col(a, b, i + 1), line_row(a, b, i + 1)) != (line_col(a, b, i), line_row(a, b, i)),
{
    let n = steps(a, b);
    let dc = b.col - a.col;
    let dr = b.row - a.row;
    lemma_nearest_step(i, n, dc);
    lemma_nearest_step(i, n, dr);
    lemma_line_ends(a, b);
    if magnitude(dc) == n {
        lemma_nearest_full(i, n, dc);
        lemma_nearest_full(i + 1, n, dc);
    } else {
        lemma_nearest_full(i, n, dr);
        lemma_nearest_full(i + 1, n, dr);
    }
}

/// A line starts at `a` and ends at `b`.
pub proof fn lemma_line_ends(a: CellPos, b: CellPos)
    ensures
        line_col(a, b, 0) == a.col,
        line_row(a, b, 0) == a.row,
        line_col(a, b, steps(a, b)) == b.col,
        line_row(a, b, steps(a, b)) == b.row,
        on_line(a, b, a.col as int, a.row as int),
        on_line(a, b, b.col as int, b.row as int),
{
    let n = steps(a, b);
    let dc = b.col - a.col;
    let dr = b.row - a.row;
    if n > 0 {
        assert(0 * dc == 0 && 0 * dr == 0) by (nonlinear_arith);
        lemma_fundamental_div_mod_converse_div(n, 2 * n, 0, n);
        assert(2 * (n * dc) + n == dc * (2 * n) + n && 2 * (n * dr) + n == dr * (2 * n) + n)
            by (nonlinear_arith);
        lemma_fundamental_div_mod_converse_div(2 * (n * dc) + n, 2 * n, dc, n);
        lemma_fundamental_div_mod_converse_div(2 * (n * dr) + n, 2 * n, dr, n);
    }
    assert(line_col(a, b, 0) == a.col && line_row(a, b, 0) == a.row);
    assert(line_col(a, b, n) == b.col && line_row(a, b, n) == b.row);
}

/// Whether a line whose longer axis runs from `m0` to `m1` and whose shorter
/// axis runs from `k0` to `k1` visits the position `m` along the longer and
/// `k` along the shorter axis.
pub open spec fn on_major(m0: int, k0: int, m1: int, k1: int, m: int, k: int) -> bool {
    let n = magnitude(m1 - m0);
    let i = if m1 >= m0 {
        m - m0
    } else {
        m0 - m
    };
    0 <= i <= n && k == k0 + nearest(i * (k1 - k0), n)
}

/// A line that is at least as wide as it is high visits exactly one cell in
/// each column between its ends; a line that is higher than wide visits
/// exactly one cell in each row between its ends.
proof fn lemma_on_line_major(a: CellPos, b: CellPos, col: int, row: int)
    requires
        steps(a, b) > 0,
    ensures
        on_line(a, b, col, row) == if magnitude(b.col - a.col) >= magnitude(b.row - a.row) {
            on_major(a.col as int, a.row as int, b.col as int, b.row as int, col, row)
        } else {
            on_major(a.row as int, a.col as int, b.row as int, b.col as int, row, col)
        },
{
    let n = steps(a, b);
    let dc = b.col - a.col;
    let dr = b.row - a.row;
    if magnitude(dc) >= magnitude(dr) {
        let i = if b.col >= a.col {
            col - a.col
        } else {
            a.col - col
        };
        if on_line(a, b, col, row) {
            let j = choose|j: int|
                0 <= j <= n && #[trigger] line_col(a, b, j) == col && line_row(a, b, j) == row;
            lemma_nearest_full(j, n, dc);
            assert(j == i);
        }
        if on_major(a.col as int, a.row as int, b.col as int, b.row as int, col, row) {
            lemma_nearest_full(i, n, dc);
            assert(line_col(a, b, i) == col && line_row(a, b, i) == row);
        }
    } else {
        let i = if b.row >= a.row {
            row - a.row
        } else {
            a.row - row
        };
        if on_line(a, b, col, row) {
            let j = choose|j: int|
                0 <= j <= n && #[trigger] line_col(a, b, j) == col && line_row(a, b, j) == row;
            lemma_nearest_full(j, n, dr);
            assert(j == i);
        }
        if on_major(a.row as int, a.col as int, b.row as int, b.col as int, row, col) {
            lemma_nearest_full(i, n, dr);
            assert(line_col(a, b, i) == col && line_row(a, b, i) == row);
        }
    }
}

/// The cells that a line visits along its longer axis before position
/// `upto`, as a predicate on `(col, row)`. A steep line has the rows as its
/// longer axis.
pub open spec fn major_cover(m0: int, k0: int, m1: int, k1: int, steep: bool, upto: int)
    -> spec_fn(int, int) -> bool {
    |col: int, row: int|
        if steep {
            row < upto && on_major(m0, k0, m1, k1, row, col)
        } else {
            col < upto && on_major(m0, k0, m1, k1, col, row)
        }
}

/// Draws the part of a line that can lie on the canvas, one cell for each
/// position of the canvas along the line's longer axis.
fn trace(
    canvas: &mut Canvas,
    m0: i64,
    k0: i64,
    m1: i64,
    k1: i64,
    steep: bool,
    glyph: char,
    color: Color,
)
    requires
        -CELL_BOUND <= m0 <= CELL_BOUND,
        -CELL_BOUND <= m1 <= CELL_BOUND,
        -CELL_BOUND <= k0 <= CELL_BOUND,
        -CELL_BOUND <= k1 <= CELL_BOUND,
        m0 != m1,
        magnitude(k1 - k0) <= magnitude(m1 - m0),
    ensures
        final(canvas)@ == old(canvas)@.fill(
            major_cover(
                m0 as int,
                k0 as int,
                m1 as int,
                k1 as int,
                steep,
                if steep {
                    old(canvas)@.height as int
                } else {
                    old(canvas)@.width as int
                },
            ),
            Cell { glyph, color },
        ),
{
    let extent: i64 = if steep {
        canvas.height() as i64
    } else {
        canvas.width() as i64
    };
    let n: i64 = if m1 >= m0 {
        m1 - m0
    } else {
        m0 - m1
    };
    let dk: i64 = k1 - k0;
    let ghost cell = Cell { glyph, color };
    let ghost before = canvas@;
    let mut m: i64 = 0;
    proof {
        canvas.lemma_view_wf();
        assert(before.fill(major_cover(m0 as int, k0 as int, m1 as int, k1 as int, steep, 0), cell).cells
            =~= before.cells);
    }
    while m < extent
        invariant
            before.wf(),
            0 <= m <= extent,
            extent == if steep {
                before.height as int
            } else {
                before.width as int
            },
            extent <= 0xffff,
            n == magnitude(m1 - m0),
            n > 0,
            n <= 2 * CELL_BOUND,
            dk == k1 - k0,
            -n <= dk <= n,
            -CELL_BOUND <= m0 <= CELL_BOUND,
            -CELL_BOUND <= k0 <= CELL_BOUND,
            cell == (Cell { glyph, color }),
            canvas@ == before.fill(
                major_cover(m0 as int, k0 as int, m1 as int, k1 as int, steep, m as int),
                cell,
            ),
        decreases extent - m,
    {
        let i: i64 = if m1 >= m0 {
            m - m0
        } else {
            m0 - m
        };
        if 0 <= i && i <= n {
            proof {
                lemma_product_bound(i as int, dk as int, 0x200_0000_0000, 0x200_0000_0000);
                assert(0x200_0000_0000 * 0x200_0000_0000 == 0x4_0000_0000_0000_0000_0000int);
            }
            let num: i128 = 2 * ((i as i128) * (dk as i128)) + (n as i128);
            let off: i128 = div_floor(num, 2 * (n as i128));
            proof {
                lemma_offset_bound(i as int, n as int, dk as int);
            }
            let k: i64 = (k0 as i128 + off) as i64;
            if steep {
                canvas.set(k, m, glyph, color);
            } else {
                canvas.set(m, k, glyph, color);
            }
        }
        proof {
            let done = major_cover(m0 as int, k0 as int, m1 as int, k1 as int, steep, m as int);
            let next = major_cover(m0 as int, k0 as int, m1 as int, k1 as int, steep, m + 1);
            let want = before.fill(next, cell);
            assert forall|p: (int, int)|
                #![trigger canvas@.cells.dom().contains(p)]
                #![trigger want.cells.dom().contains(p)]
                canvas@.cells.dom().contains(p) == want.cells.dom().contains(p) && (
                canvas@.cells.dom().contains(p) ==> canvas@.cells[p] == want.cells[p]) by {
                assert(next(p.0, p.1) == (done(p.0, p.1) || (if steep {
                    p.1 == m && on_major(m0 as int, k0 as int, m1 as int, k1 as int, p.1, p.0)
                } else {
                    p.0 == m && on_major(m0 as int, k0 as int, m1 as int, k1 as int, p.0, p.1)
                })));
            }
            assert(canvas@.cells =~= want.cells);
        }
        m = m + 1;
    }
}

/// After `i` of `n` steps a line is at most `n` cells from where it began.
proof fn lemma_offset_bound(i: int, n: int, d: int)
    requires
        n > 0,
        0 <= i <= n,
        -n <= d <= n,
    ensures
        -n <= nearest(i * d, n) <= n,
{
    assert(-(n * n) <= i * d <= n * n) by (nonlinear_arith)
        requires
            0 <= i <= n,
            -n <= d <= n,
    ;
    assert(2 * (n * n) + n == n * (2 * n) + n && 2 * (-(n * n)) + n == (-n) * (2 * n) + n)
        by (nonlinear_arith);
    lemma_fundamental_div_mod_converse_div(2 * (n * n) + n, 2 * n, n, n);
    lemma_fundamental_div_mod_converse_div(2 * (-(n * n)) + n, 2 * n, -n, n);
    lemma_div_is_ordered(2 * (-(n * n)) + n, 2 * (i * d) + n, 2 * n);
    lemma_div_is_ordered(2 * (i * d) + n, 2 * (n * n) + n, 2 * n);
}

/// Draws the line from `a` to `b`: every cell that the line visits and that
/// lies on the canvas shows `glyph` in `color` afterwards, and every other
/// cell stays as it was.
pub fn draw_line(canvas: &mut Canvas, a: CellPos, b: CellPos, glyph: char, color: Color)
    requires
        in_reach(a),
        in_reach(b),
    ensures
        final(canvas)@ == old(canvas)@.fill(line_cover(a, b), Cell { glyph, color }),
{
    let ghost before = canvas@;
    let ghost cell = Cell { glyph, color };
    let across: i64 = if b.col >= a.col {
        b.col - a.col
    } else {
        a.col - b.col
    };
    let down: i64 = if b.row >= a.row {
        b.row - a.row
    } else {
        a.row - b.row
    };
    proof {
        canvas.lemma_view_wf();
    }
    if across == 0 && down == 0 {
        canvas.set(a.col, a.row, glyph, color);
        proof {
            let want = before.fill(line_cover(a, b), cell);
            assert forall|p: (int, int)|
                #![trigger canvas@.cells.dom().contains(p)]
                #![trigger want.cells.dom().contains(p)]
                canvas@.cells.dom().contains(p) == want.cells.dom().contains(p) && (
                canvas@.cells.dom().contains(p) ==> canvas@.cells[p] == want.cells[p]) by {
                if on_line(a, b, p.0, p.1) {
                    assert(p.0 == a.col && p.1 == a.row);
                }
                if p.0 == a.col && p.1 == a.row {
                    assert(line_col(a, b, 0) == p.0 && line_row(a, b, 0) == p.1);
                }
            }
            assert(canvas@.cells =~= want.cells);
        }
    } else if across >= down {
        trace(canvas, a.col, a.row, b.col, b.row, false, glyph, color);
        proof {
            let want = before.fill(line_cover(a, b), cell);
            assert forall|p: (int, int)|
                #![trigger canvas@.cells.dom().contains(p)]
                #![trigger want.cells.dom().contains(p)]
                canvas@.cells.dom().contains(p) == want.cells.dom().contains(p) && (
                canvas@.cells.dom().contains(p) ==> canvas@.cells[p] == want.cells[p]) by {
                lemma_on_line_major(a, b, p.0, p.1);
            }
            assert(canvas@.cells =~= want.cells);
        }
    } else {
        trace(canvas, a.row, a.col, b.row, b.col, true, glyph, color);
        proof {
            let want = before.fill(line_cover(a, b), cell);
            assert forall|p: (int, int)|
                #![trigger canvas@.cells.dom().contains(p)]
                #![trigger want.cells.dom().contains(p)]
                canvas@.cells.dom().contains(p) == want.cells.dom().contains(p) && (
                canvas@.cells.dom().contains(p) ==> canvas@.cells[p] == want.cells[p]) by {
                lemma_on_line_major(a, b, p.0, p.1);
            }
            assert(canvas@.cells =~= want.cells);
        }
    }
}

/// The number of segments of a path through `n` cells: one between each two
/// neighbours and, for a closed path, one more from the last cell back to the
/// first.
pub open spec fn segment_count(n: int, closed: bool) -> int {
    if n == 0 {
        0
    } else if closed {
        n
    } else {
        n - 1
    }
}

/// Whether segment `i` of the path through `cells` visits `(col, row)`.
/// Segment `i` runs from cell `i` to the next cell, the last one of a closed
/// path back to cell 0.
pub open spec fn segment_hits(cells: Seq<CellPos>, i: int, col: int, row: int) -> bool {
    on_line(
        cells[i],
        cells[if i + 1 == cells.len() {
            0
        } else {
            i + 1
        }],
        col,
        row,
    )
}

/// Whether one of the first `upto` segments of the path visits `(col, row)`.
pub open spec fn on_path(cells: Seq<CellPos>, closed: bool, upto: int, col: int, row: int) -> bool {
    exists|i: int|
        0 <= i < upto && i < segment_count(cells.len() as int, closed) && #[trigger] segment_hits(
            cells,
            i,
            col,
            row,
        )
}

/// The cells of the first `upto` segments of a path, as a predicate on
/// positions.
pub open spec fn path_cover(cells: Seq<CellPos>, closed: bool, upto: int) -> spec_fn(
    int,
    int,
) -> bool {
    |col: int, row: int| on_path(cells, closed, upto, col, row)
}

/// Draws the path through `cells`: a line between each two neighbours and,
/// if the path is closed, a line from the last cell back to the first.
/// Nothing but these outlines is drawn: a closed path is not filled.
pub fn draw_path(canvas: &mut Canvas, cells: &Vec<CellPos>, closed: bool, glyph: char, color: Color)
    requires
        forall|i: int| 0 <= i < cells.len() ==> in_reach(#[trigger] cells[i]),
    ensures
        final(canvas)@ == old(canvas)@.fill(
            path_cover(cells@, closed, cells.len() as int),
            Cell { glyph, color },
        ),
{
    let ghost before = canvas@;
    let ghost cell = Cell { glyph, color };
    let n = cells.len();
    let count: usize = if n == 0 {
        0
    } else if closed {
        n
    } else {
        n - 1
    };
    proof {
        canvas.lemma_view_wf();
        assert(before.fill(path_cover(cells@, closed, 0), cell).cells =~= before.cells);
    }
    let mut k: usize = 0;
    while k < count
        invariant
            before.wf(),
            n == cells.len(),
            count == segment_count(n as int, closed),
            k <= count,
            cell == (Cell { glyph, color }),
            forall|i: int| 0 <= i < cells.len() ==> in_reach(#[trigger] cells[i]),
            canvas@ == before.fill(path_cover(cells@, closed, k as int), cell),
        decreases count - k,
    {
        let a = cells[k];
        let b = if k + 1 == n {
            cells[0]
        } else {
            cells[k + 1]
        };
        draw_line(canvas, a, b, glyph, color);
        proof {
            let want = before.fill(path_cover(cells@, closed, k + 1), cell);
            assert forall|p: (int, int)|
                #![trigger canvas@.cells.dom().contains(p)]
                #![trigger want.cells.dom().contains(p)]
                canvas@.cells.dom().contains(p) == want.cells.dom().contains(p) && (
                canvas@.cells.dom().contains(p) ==> canvas@.cells[p] == want.cells[p]) by {
                if on_path(cells@, closed, k + 1, p.0, p.1) {
                    let i = choose|i: int|
                        0 <= i < k + 1 && i < segment_count(cells@.len() as int, closed)
                            && #[trigger] segment_hits(cells@, i, p.0, p.1);
                    if i < k {
                        assert(on_path(cells@, closed, k as int, p.0, p.1));
                    }
                }
                if on_line(a, b, p.0, p.1) {
                    assert(segment_hits(cells@, k as int, p.0, p.1));
                }
                if on_path(cells@, closed, k as int, p.0, p.1) {
                    let i = choose|i: int|
                        0 <= i < k && i < segment_count(cells@.len() as int, closed)
                            && #[trigger] segment_hits(cells@, i, p.0, p.1);
                    assert(segment_hits(cells@, i, p.0, p.1));
                }
            }
            assert(canvas@.cells =~= want.cells);
        }
        k = k + 1;
    }
    proof {
        let have = before.fill(path_cover(cells@, closed, count as int), cell);
        let want = before.fill(path_cover(cells@, closed, n as int), cell);
        assert forall|p: (int, int)|
            #![trigger have.cells.dom().contains(p)]
            #![trigger want.cells.dom().contains(p)]
            have.cells.dom().contains(p) == want.cells.dom().contains(p) && (
            have.cells.dom().contains(p) ==> have.cells[p] == want.cells[p]) by {
            if on_path(cells@, closed, n as int, p.0, p.1) {
                let i = choose|i: int|
                    0 <= i < n && i < segment_count(cells@.len() as int, closed)
                        && #[trigger] segment_hits(cells@, i, p.0, p.1);
                assert(on_path(cells@, closed, count as int, p.0, p.1));
            }
            if on_path(cells@, closed, count as int, p.0, p.1) {
                let i = choose|i: int|
                    0 <= i < count && i < segment_count(cells@.len() as int, closed)
                        && #[trigger] segment_hits(cells@, i, p.0, p.1);
                assert(on_path(cells@, closed, n as int, p.0, p.1));
            }
        }
        assert(have.cells =~= want.cells);
    }
}

} // verus!
