//! The canvas: the grid of terminal cells that one tick draws into.

use vstd::prelude::*;

verus! {

/// The colours a cell can be drawn in.
#[derive(Clone, Copy, Debug, PartialEq, Eq, Structural)]
pub enum Color {
    Default,
    Black,
    Red,
    Green,
    Yellow,
    Blue,
    Magenta,
    Cyan,
    White,
}

/// What one drawn cell shows.
#[derive(Clone, Copy, Debug, PartialEq, Eq, Structural)]
pub struct Cell {
    pub glyph: char,
    pub color: Color,
}

/// A position on the grid. Columns grow to the right and rows grow downwards;
/// a position may lie outside any canvas.
#[derive(Clone, Copy, Debug, PartialEq, Eq, Structural)]
pub struct CellPos {
    pub col: i64,
    pub row: i64,
}

/// What a `Canvas` stands for: its extents and the cells drawn so far.
pub struct CanvasView {
    pub width: nat,
    pub height: nat,
    /// The drawn cells, keyed by `(col, row)`. A cell that was not drawn
    /// since the canvas was last cleared has no entry.
    pub cells: Map<(int, int), Cell>,
}

impl CanvasView {
    /// Whether `(col, row)` lies on the canvas.
    pub open spec fn in_bounds(self, col: int, row: int) -> bool {
        0 <= col < self.width && 0 <= row < self.height
    }

    /// Every drawn cell lies on the canvas.
    pub open spec fn wf(self) -> bool {
        forall|col: int, row: int| #[trigger]
            self.cells.dom().contains((col, row)) ==> self.in_bounds(col, row)
    }

    /// What stands at `(col, row)`: `None` for a position that was not drawn
    /// or lies outside the canvas.
    pub open spec fn at(self, col: int, row: int) -> Option<Cell> {
        if self.cells.dom().contains((col, row)) {
            Some(self.cells[(col, row)])
        } else {
            None
        }
    }

    /// A canvas of the given extents on which nothing is drawn.
    pub open spec fn blank(width: nat, height: nat) -> CanvasView {
        CanvasView { width, height, cells: Map::empty() }
    }

    /// The canvas after `cell` is written at `(col, row)`: a write on the
    /// canvas replaces whatever stood there, a write outside changes nothing.
    pub open spec fn put(self, col: int, row: int, cell: Cell) -> CanvasView {
        if self.in_bounds(col, row) {
            CanvasView { cells: self.cells.insert((col, row), cell), ..self }
        } else {
            self
        }
    }

    /// The canvas after `cell` is written at every position that `cover`
    /// holds of and that lies on the canvas.
    pub open spec fn fill(self, cover: spec_fn(int, int) -> bool, cell: Cell) -> CanvasView {
        CanvasView {
            cells: Map::new(
                |p: (int, int)|
                    self.cells.dom().contains(p) || (self.in_bounds(p.0, p.1) && cover(p.0, p.1)),
                |p: (int, int)|
                    if self.in_bounds(p.0, p.1) && cover(p.0, p.1) {
                        cell
                    } else {
                        self.cells[p]
                    },
            ),
            ..self
        }
    }

    /// The canvas after every position on it for which `look` gives a cell is
    /// overwritten with that cell.
    pub open spec fn overlay(self, look: spec_fn(int, int) -> Option<Cell>) -> CanvasView {
        CanvasView {
            cells: Map::new(
                |p: (int, int)|
                    self.cells.dom().contains(p) || (self.in_bounds(p.0, p.1) && look(
                        p.0,
                        p.1,
                    ).is_some()),
                |p: (int, int)|
                    if self.in_bounds(p.0, p.1) && look(p.0, p.1).is_some() {
                        look(p.0, p.1).unwrap()
                    } else {
                        self.cells[p]
                    },
            ),
            ..self
        }
    }
}

/// A write at a position outside the canvas changes nothing, and no write
/// ever makes the canvas hold a cell outside its extents.
pub proof fn law_writes_are_clipped(canvas: CanvasView, col: int, row: int, cell: Cell)
    requires
        canvas.wf(),
    ensures
        !canvas.in_bounds(col, row) ==> canvas.put(col, row, cell) == canvas,
        canvas.put(col, row, cell).wf(),
        canvas.put(col, row, cell).width == canvas.width,
        canvas.put(col, row, cell).height == canvas.height,
{
}

/// A later write at a cell replaces an earlier one, and a write leaves every
/// other cell as it was.
pub proof fn law_last_write_wins(
    canvas: CanvasView,
    col: int,
    row: int,
    first: Cell,
    second: Cell,
    c: int,
    r: int,
)
    ensures
        canvas.in_bounds(col, row) ==> canvas.put(col, row, first).put(col, row, second).at(
            col,
            row,
        ) == Some(second),
        (c, r) != (col, row) ==> canvas.put(col, row, first).at(c, r) == canvas.at(c, r),
{
}

/// A clearable grid of optional cells. Writes outside the grid are ignored.
pub struct Canvas {
    width: u16,
    height: u16,
    /// The cells row by row, top row first.
    cells: Vec<Option<Cell>>,
}

/// The place of `(col, row)` in a row-major grid that is `width` cells wide.
pub open spec fn slot(width: int, col: int, row: int) -> int {
    row * width + col
}

pub proof fn lemma_slot_in_range(width: int, height: int, col: int, row: int)
    by (nonlinear_arith)
    requires
        0 <= col < width,
        0 <= row < height,
    ensures
        0 <= slot(width, col, row) < width * height,
{
}

pub proof fn lemma_slot_injective(width: int, c1: int, r1: int, c2: int, r2: int)
    by (nonlinear_arith)
    requires
        0 <= c1 < width,
        0 <= c2 < width,
        0 <= r1,
        0 <= r2,
        slot(width, c1, r1) == slot(width, c2, r2),
    ensures
        c1 == c2,
        r1 == r2,
{
}

impl View for Canvas {
    type V = CanvasView;

    closed spec fn view(&self) -> CanvasView {
        CanvasView {
            width: self.width as nat,
            height: self.height as nat,
            cells: Map::new(
                |p: (int, int)|
                    0 <= p.0 < self.width && 0 <= p.1 < self.height && self.cells[slot(
                        self.width as int,
                        p.0,
                        p.1,
                    )].is_some(),
                |p: (int, int)| self.cells[slot(self.width as int, p.0, p.1)].unwrap(),
            ),
        }
    }
}

impl Canvas {
    /// The grid holds one entry for each of its cells.
    #[verifier::type_invariant]
    spec fn shaped(&self) -> bool {
        self.cells.len() == self.width * self.height
    }

    /// Every drawn cell of a canvas lies on it.
    pub proof fn lemma_view_wf(&self)
        ensures
            self@.wf(),
    {
    }

    /// A canvas of `width` by `height` cells with nothing drawn on it.
    pub fn new(width: u16, height: u16) -> (canvas: Canvas)
        ensures
            canvas@ == CanvasView::blank(width as nat, height as nat),
    {
        assert(width * height <= 0xffff * 0xffff) by (nonlinear_arith)
            requires
                width <= 0xffff,
                height <= 0xffff,
        ;
        let total: usize = (width as usize) * (height as usize);
        let mut cells: Vec<Option<Cell>> = Vec::new();
        let mut i: usize = 0;
        while i < total
            invariant
                i <= total,
                cells.len() == i,
                forall|k: int| 0 <= k < cells.len() ==> cells[k].is_none(),
            decreases total - i,
        {
            cells.push(None);
            i = i + 1;
        }
        let canvas = Canvas { width, height, cells };
        assert forall|p: (int, int)| !(#[trigger] canvas@.cells.dom().contains(p)) by {
            if 0 <= p.0 < width && 0 <= p.1 < height {
                lemma_slot_in_range(width as int, height as int, p.0, p.1);
            }
        }
        assert(canvas@.cells =~= Map::<(int, int), Cell>::empty());
        canvas
    }

    /// The number of columns.
    pub fn width(&self) -> (w: u16)
        ensures
            w == self@.width,
    {
        self.width
    }

    /// The number of rows.
    pub fn height(&self) -> (h: u16)
        ensures
            h == self@.height,
    {
        self.height
    }

    /// Wipes the canvas: afterwards nothing is drawn on it.
    pub fn clear(&mut self)
        ensures
            final(self)@ == CanvasView::blank(old(self)@.width, old(self)@.height),
    {
        proof {
            use_type_invariant(&*self);
        }
        let mut i: usize = 0;
        while i < self.cells.len()
            invariant
                self.width == old(self).width,
                self.height == old(self).height,
                self.cells.len() == self.width * self.height,
                i <= self.cells.len(),
                forall|k: int| 0 <= k < i ==> self.cells[k].is_none(),
            decreases self.cells.len() - i,
        {
            self.cells[i] = None;
            i = i + 1;
        }
        assert forall|p: (int, int)| !(#[trigger] self@.cells.dom().contains(p)) by {
            if 0 <= p.0 < self.width && 0 <= p.1 < self.height {
                lemma_slot_in_range(self.width as int, self.height as int, p.0, p.1);
            }
        }
        assert(self@.cells =~= Map::<(int, int), Cell>::empty());
    }

    /// Writes `glyph` in `color` at `(col, row)`. A position outside the
    /// canvas is ignored: the canvas stays as it was.
    pub fn set(&mut self, col: i64, row: i64, glyph: char, color: Color)
        ensures
            final(self)@ == old(self)@.put(col as int, row as int, Cell { glyph, color }),
    {
        proof {
            use_type_invariant(&*self);
        }
        if 0 <= col && col < self.width as i64 && 0 <= row && row < self.height as i64 {
            proof {
                lemma_slot_in_range(self.width as int, self.height as int, col as int, row as int);
            }
            let at: usize = (row as usize) * (self.width as usize) + (col as usize);
            self.cells[at] = Some(Cell { glyph, color });
            proof {
                let key = (col as int, row as int);
                let want = old(self)@.cells.insert(key, Cell { glyph, color });
                assert forall|p: (int, int)|
                    #![trigger self@.cells.dom().contains(p)]
                    #![trigger want.dom().contains(p)]
                    self@.cells.dom().contains(p) == want.dom().contains(p) && (
                    self@.cells.dom().contains(p) ==> self@.cells[p] == want[p]) by {
                    if 0 <= p.0 < self.width && 0 <= p.1 < self.height && p != key {
                        lemma_slot_in_range(self.width as int, self.height as int, p.0, p.1);
                        if slot(self.width as int, p.0, p.1) == at {
                            lemma_slot_injective(self.width as int, p.0, p.1, key.0, key.1);
                        }
                    }
                }
                assert(self@.cells =~= want);
            }
        }
    }

    /// What stands at `(col, row)`, if anything was drawn there.
    pub fn get(&self, col: i64, row: i64) -> (cell: Option<Cell>)
        ensures
            cell == self@.at(col as int, row as int),
    {
        proof {
            use_type_invariant(self);
        }
        if 0 <= col && col < self.width as i64 && 0 <= row && row < self.height as i64 {
            proof {
                lemma_slot_in_range(self.width as int, self.height as int, col as int, row as int);
            }
            let at: usize = (row as usize) * (self.width as usize) + (col as usize);
            self.cells[at]
        } else {
            None
        }
    }

    /// The grid as it is handed to the terminal: one vector per row, top row
    /// first, each holding one entry per column.
    pub fn snapshot_for_flush(&self) -> (grid: Vec<Vec<Option<Cell>>>)
        ensures
            grid.len() == self@.height,
            forall|r: int| 0 <= r < grid.len() ==> (#[trigger] grid[r]).len() == self@.width,
            forall|r: int, c: int|
                0 <= r < self@.height && 0 <= c < self@.width ==> grid[r][c] == self@.at(c, r),
    {
        proof {
            use_type_invariant(self);
        }
        let mut grid: Vec<Vec<Option<Cell>>> = Vec::new();
        let mut r: u16 = 0;
        while r < self.height
            invariant
                self.cells.len() == self.width * self.height,
                r <= self.height,
                grid.len() == r,
                forall|i: int| 0 <= i < grid.len() ==> (#[trigger] grid[i]).len() == self.width,
                forall|i: int, j: int|
                    0 <= i < r && 0 <= j < self.width ==> grid[i][j] == self.cells[slot(
                        self.width as int,
                        j,
                        i,
                    )],
            decreases self.height - r,
        {
            let mut line: Vec<Option<Cell>> = Vec::new();
            let mut c: u16 = 0;
            while c < self.width
                invariant
                    self.cells.len() == self.width * self.height,
                    r < self.height,
                    c <= self.width,
                    line.len() == c,
                    forall|j: int|
                        0 <= j < c ==> line[j] == self.cells[slot(self.width as int, j, r as int)],
                decreases self.width - c,
            {
                proof {
                    lemma_slot_in_range(self.width as int, self.height as int, c as int, r as int);
                }
                let at: usize = (r as usize) * (self.width as usize) + (c as usize);
                line.push(self.cells[at]);
                c = c + 1;
            }
            grid.push(line);
            r = r + 1;
        }
        grid
    }
}

} // verus!
