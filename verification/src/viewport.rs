//! The viewport: the camera-like state that maps world coordinates to
//! terminal cells.

use vstd::prelude::*;
use vstd::arithmetic::div_mod::*;
use crate::angle::{
    FULL_TURN, QUARTER_TURN, UNIT, cos, cosine, lemma_axes, lemma_full_turn, lemma_quarter_turn,
    normal, normalize, sin, sine,
};
use crate::canvas::CellPos;
use crate::geometry::{
    Point, clamp, cross, div_floor, dot, lemma_div_twice, lemma_product_bound,
    lemma_quotient_bound, saturate,
    saturating, span, turned_x, turned_y, unturned_x, unturned_y,
};

verus! {

/// The smallest zoom: one world unit per cell.
pub const MIN_ZOOM: i64 = 1;

/// The largest zoom, in world units per cell.
pub const MAX_ZOOM: i64 = 0x1_0000_0000;

/// The bound that `Viewport::project` keeps cell coordinates within. It lies
/// far beyond any canvas.
pub const CELL_BOUND: i64 = 0x100_0000_0000;

/// What a `Viewport` stands for.
pub struct ViewportView {
    /// The world point shown at the centre of the canvas.
    pub center: Point,
    /// World units per cell.
    pub zoom: int,
    /// The turn of the view against the world, in millionths of a degree.
    pub rotation: int,
    /// Canvas extents, in cells.
    pub width: nat,
    pub height: nat,
}

impl ViewportView {
    /// The zoom is positive and bounded, the rotation lies within one turn.
    pub open spec fn wf(self) -> bool {
        &&& MIN_ZOOM <= self.zoom <= MAX_ZOOM
        &&& 0 <= self.rotation < FULL_TURN
        &&& self.width <= u16::MAX
        &&& self.height <= u16::MAX
    }

    /// How far right of the canvas centre `p` is shown, in world units times
    /// `UNIT`: the offset of `p` from the viewport centre, turned back by the
    /// rotation.
    pub open spec fn screen_x(self, p: Point) -> int {
        unturned_x(p.x - self.center.x, p.y - self.center.y, self.rotation)
    }

    /// How far below the canvas centre `p` is shown, in world units times
    /// `UNIT`. Rows grow downwards, so this is the negated second coordinate
    /// of the offset turned back by the rotation.
    pub open spec fn screen_y(self, p: Point) -> int {
        -unturned_y(p.x - self.center.x, p.y - self.center.y, self.rotation)
    }

    /// The column in which `p` is shown, on or off the canvas.
    pub open spec fn col_of(self, p: Point) -> int {
        self.screen_x(p) / (self.zoom * UNIT) + (self.width as int) / 2
    }

    /// The row in which `p` is shown, on or off the canvas.
    pub open spec fn row_of(self, p: Point) -> int {
        self.screen_y(p) / (self.zoom * UNIT) + (self.height as int) / 2
    }

    /// Whether `p` is shown on the canvas.
    pub open spec fn on_canvas(self, p: Point) -> bool {
        0 <= self.col_of(p) < self.width && 0 <= self.row_of(p) < self.height
    }

    /// The cell of `p`, with both coordinates kept within `CELL_BOUND`.
    pub open spec fn projected(self, p: Point) -> CellPos {
        CellPos {
            col: clamp(self.col_of(p), -CELL_BOUND, CELL_BOUND as int) as i64,
            row: clamp(self.row_of(p), -CELL_BOUND, CELL_BOUND as int) as i64,
        }
    }

    /// The view after its centre is moved by `(dx, dy)` world units. A centre
    /// that would leave the range of `i64` stops at its edge.
    pub open spec fn panned(self, dx: int, dy: int) -> ViewportView {
        ViewportView {
            center: Point {
                x: saturate(self.center.x + dx) as i64,
                y: saturate(self.center.y + dy) as i64,
            },
            ..self
        }
    }

    /// The view after its zoom is multiplied by `permille / 1000`, rounded
    /// down and kept within `[MIN_ZOOM, MAX_ZOOM]`.
    pub open spec fn zoomed(self, permille: int) -> ViewportView {
        ViewportView {
            zoom: clamp(self.zoom * permille / 1000, MIN_ZOOM as int, MAX_ZOOM as int),
            ..self
        }
    }

    /// The view after it is turned by `delta`, the rotation wrapped into one
    /// turn.
    pub open spec fn rotated(self, delta: int) -> ViewportView {
        ViewportView { rotation: normal(self.rotation + delta), ..self }
    }

    /// The view with its centre on `point`.
    pub open spec fn recentered(self, point: Point) -> ViewportView {
        ViewportView { center: point, ..self }
    }

    /// The world point shown at the middle of cell `(col, row)`: the offset
    /// of the cell's middle from the canvas centre, scaled by the zoom, turned
    /// by the rotation and moved by the viewport centre.
    pub open spec fn world_of(self, col: int, row: int) -> Point {
        let u = (2 * (col - (self.width as int) / 2) + 1) * self.zoom;
        let v = -((2 * (row - (self.height as int) / 2) + 1) * self.zoom);
        Point {
            x: saturate(turned_x(u, v, self.rotation) / (2 * UNIT) + self.center.x) as i64,
            y: saturate(turned_y(u, v, self.rotation) / (2 * UNIT) + self.center.y) as i64,
        }
    }
}

/// The camera-like state of the display: where its centre lies in the world,
/// how many world units one cell spans, how far it is turned, and how large
/// the canvas is.
pub struct Viewport {
    center: Point,
    zoom: i64,
    rotation: i64,
    width: u16,
    height: u16,
}

impl View for Viewport {
    type V = ViewportView;

    closed spec fn view(&self) -> ViewportView {
        ViewportView {
            center: self.center,
            zoom: self.zoom as int,
            rotation: self.rotation as int,
            width: self.width as nat,
            height: self.height as nat,
        }
    }
}

impl Viewport {
    /// The zoom is positive and bounded and the rotation lies within one
    /// turn, always.
    #[verifier::type_invariant]
    spec fn sound(&self) -> bool {
        &&& MIN_ZOOM <= self.zoom <= MAX_ZOOM
        &&& 0 <= self.rotation < FULL_TURN
    }

    /// A viewport over a canvas of `width` by `height` cells. A zoom outside
    /// `[MIN_ZOOM, MAX_ZOOM]` is clamped and the rotation is wrapped into one
    /// turn.
    pub fn new(center: Point, zoom: i64, rotation: i64, width: u16, height: u16) -> (v: Viewport)
        ensures
            v@.wf(),
            v@.center == center,
            v@.zoom == clamp(zoom as int, MIN_ZOOM as int, MAX_ZOOM as int),
            v@.rotation == normal(rotation as int),
            v@.width == width,
            v@.height == height,
    {
        let z = if zoom < MIN_ZOOM {
            MIN_ZOOM
        } else if zoom > MAX_ZOOM {
            MAX_ZOOM
        } else {
            zoom
        };
        Viewport { center, zoom: z, rotation: normalize(rotation), width, height }
    }

    /// The world point at the centre of the canvas.
    pub fn center(&self) -> (c: Point)
        ensures
            c == self@.center,
    {
        self.center
    }

    /// World units per cell.
    pub fn zoom(&self) -> (z: i64)
        ensures
            z == self@.zoom,
            MIN_ZOOM <= z <= MAX_ZOOM,
    {
        proof {
            use_type_invariant(self);
        }
        self.zoom
    }

    /// The rotation, in millionths of a degree.
    pub fn rotation(&self) -> (r: i64)
        ensures
            r == self@.rotation,
            0 <= r < FULL_TURN,
    {
        proof {
            use_type_invariant(self);
        }
        self.rotation
    }

    /// The number of columns of the canvas.
    pub fn width(&self) -> (w: u16)
        ensures
            w == self@.width,
    {
        self.width
    }

    /// The number of rows of the canvas.
    pub fn height(&self) -> (h: u16)
        ensures
            h == self@.height,
    {
        self.height
    }

    /// The column and the row of `p`, exactly.
    fn place(&self, p: Point) -> (at: (i128, i128))
        ensures
            self@.wf(),
            at.0 == self@.col_of(p),
            at.1 == self@.row_of(p),
            -3 * span() <= at.0 <= 3 * span(),
            -3 * span() <= at.1 <= 3 * span(),
    {
        proof {
            use_type_invariant(self);
        }
        let c = cos(self.rotation);
        let s = sin(self.rotation);
        let dx: i128 = p.x as i128 - self.center.x as i128;
        let dy: i128 = p.y as i128 - self.center.y as i128;
        let u = dot(dx, c, dy, s);
        let v = cross(dx, s, dy, c);
        let per_cell: i128 = (self.zoom as i128) * (UNIT as i128);
        let qu = div_floor(u, per_cell);
        let qv = div_floor(v, per_cell);
        proof {
            assert(self@.screen_x(p) == u);
            assert(self@.screen_y(p) == v);
            lemma_cell_bound(u as int, per_cell as int);
            lemma_cell_bound(v as int, per_cell as int);
        }
        (qu + (self.width / 2) as i128, qv + (self.height / 2) as i128)
    }

    /// The cell in which the world point `p` is shown, or `None` where that
    /// cell lies outside the canvas.
    pub fn world_to_cell(&self, p: Point) -> (cell: Option<CellPos>)
        ensures
            self@.wf(),
            cell.is_some() == self@.on_canvas(p),
            cell matches Some(at) ==> at.col == self@.col_of(p) && at.row == self@.row_of(p),
    {
        let (col, row) = self.place(p);
        if 0 <= col && col < self.width as i128 && 0 <= row && row < self.height as i128 {
            Some(CellPos { col: col as i64, row: row as i64 })
        } else {
            None
        }
    }

    /// The cell of `p` whether or not it lies on the canvas, with both
    /// coordinates kept within `CELL_BOUND`.
    pub fn project(&self, p: Point) -> (cell: CellPos)
        ensures
            self@.wf(),
            cell == self@.projected(p),
            -CELL_BOUND <= cell.col <= CELL_BOUND,
            -CELL_BOUND <= cell.row <= CELL_BOUND,
    {
        let (col, row) = self.place(p);
        CellPos { col: bounded(col), row: bounded(row) }
    }

    /// The world point shown at the middle of cell `(col, row)`.
    pub fn cell_to_world(&self, col: i64, row: i64) -> (p: Point)
        ensures
            self@.wf(),
            p == self@.world_of(col as int, row as int),
    {
        proof {
            use_type_invariant(self);
        }
        let c = cos(self.rotation);
        let s = sin(self.rotation);
        let hc: i128 = 2 * (col as i128 - (self.width / 2) as i128) + 1;
        let hr: i128 = 2 * (row as i128 - (self.height / 2) as i128) + 1;
        proof {
            lemma_product_bound(hc as int, self.zoom as int, 0x4_0000_0000_0000_0000, MAX_ZOOM as int);
            lemma_product_bound(hr as int, self.zoom as int, 0x4_0000_0000_0000_0000, MAX_ZOOM as int);
        }
        let u: i128 = hc * (self.zoom as i128);
        let v: i128 = -(hr * (self.zoom as i128));
        let tx = cross(u, c, v, s);
        let ty = dot(u, s, v, c);
        let qx = div_floor(tx, 2 * (UNIT as i128));
        let qy = div_floor(ty, 2 * (UNIT as i128));
        proof {
            lemma_quotient_bound(tx as int, 2 * UNIT, span());
            lemma_quotient_bound(ty as int, 2 * UNIT, span());
        }
        Point { x: saturating(qx + self.center.x as i128), y: saturating(qy + self.center.y as i128) }
    }

    /// Moves the centre by `(dx, dy)` world units. A centre that would leave
    /// the range of `i64` stops at its edge.
    pub fn pan(&mut self, dx: i64, dy: i64)
        ensures
            final(self)@ == old(self)@.panned(dx as int, dy as int),
            final(self)@.wf(),
    {
        proof {
            use_type_invariant(&*self);
        }
        self.center = Point {
            x: saturating(self.center.x as i128 + dx as i128),
            y: saturating(self.center.y as i128 + dy as i128),
        };
    }

    /// Multiplies the zoom by `permille / 1000`, rounding down, and keeps the
    /// result within `[MIN_ZOOM, MAX_ZOOM]`.
    pub fn zoom_by(&mut self, permille: i64)
        ensures
            final(self)@ == old(self)@.zoomed(permille as int),
            final(self)@.wf(),
    {
        proof {
            use_type_invariant(&*self);
            lemma_product_bound(
                self.zoom as int,
                permille as int,
                MAX_ZOOM as int,
                0x8000_0000_0000_0000,
            );
        }
        let scaled: i128 = div_floor((self.zoom as i128) * (permille as i128), 1000);
        self.zoom = if scaled < MIN_ZOOM as i128 {
            MIN_ZOOM
        } else if scaled > MAX_ZOOM as i128 {
            MAX_ZOOM
        } else {
            scaled as i64
        };
    }

    /// Turns the view by `delta` millionths of a degree and wraps the
    /// rotation into one turn.
    pub fn rotate_by(&mut self, delta: i64)
        ensures
            final(self)@ == old(self)@.rotated(delta as int),
            final(self)@.wf(),
    {
        let d = normalize(delta);
        proof {
            use_type_invariant(&*self);
            lemma_add_mod_noop(self.rotation as int, delta as int, FULL_TURN as int);
            assert((self.rotation as int) % (FULL_TURN as int) == self.rotation);
        }
        self.rotation = normalize(self.rotation + d);
    }

    /// Puts the centre of the view on `point`.
    pub fn recenter(&mut self, point: Point)
        ensures
            final(self)@ == old(self)@.recentered(point),
            final(self)@.wf(),
    {
        proof {
            use_type_invariant(&*self);
        }
        self.center = point;
    }

    /// Takes over new canvas extents.
    pub fn resize(&mut self, width: u16, height: u16)
        ensures
            final(self)@ == (ViewportView {
                width: width as nat,
                height: height as nat,
                ..old(self)@
            }),
            final(self)@.wf(),
    {
        proof {
            use_type_invariant(&*self);
        }
        self.width = width;
        self.height = height;
    }
}

/// `v` fitted into `[-CELL_BOUND, CELL_BOUND]`.
fn bounded(v: i128) -> (r: i64)
    ensures
        r == clamp(v as int, -CELL_BOUND, CELL_BOUND as int),
{
    if v < -(CELL_BOUND as i128) {
        -CELL_BOUND
    } else if v > CELL_BOUND as i128 {
        CELL_BOUND
    } else {
        v as i64
    }
}

proof fn lemma_cell_bound(u: int, per_cell: int)
    requires
        -2 * span() * UNIT <= u <= 2 * span() * UNIT,
        per_cell >= UNIT,
    ensures
        -2 * span() <= u / per_cell <= 2 * span(),
{
    lemma_fundamental_div_mod(u, per_cell);
    lemma_mod_bound(u, per_cell);
    assert(-2 * span() <= u / per_cell <= 2 * span()) by (nonlinear_arith)
        requires
            -2 * span() * UNIT <= u <= 2 * span() * UNIT,
            per_cell >= UNIT,
            UNIT == 1_000_000,
            span() > 0,
            u == per_cell * (u / per_cell) + (u % per_cell),
            0 <= u % per_cell < per_cell,
    ;
}

/// A world point equal to the viewport centre is shown in the centre cell of
/// the canvas, whatever the zoom and the rotation.
pub proof fn law_center_projects_to_center(v: ViewportView)
    requires
        v.wf(),
    ensures
        v.col_of(v.center) == (v.width as int) / 2,
        v.row_of(v.center) == (v.height as int) / 2,
        v.width > 0 && v.height > 0 ==> v.on_canvas(v.center),
{
    let c = cosine(v.rotation);
    let s = sine(v.rotation);
    assert(0 * c + 0 * s == 0 && 0 * c - 0 * s == 0) by (nonlinear_arith);
    assert(v.screen_x(v.center) == 0);
    assert(v.screen_y(v.center) == 0);
    assert(v.zoom * UNIT >= 1);
    lemma_div_basics_1(v.zoom * UNIT);
}

/// Doubling the zoom halves the offset of every point from the canvas
/// centre, column by column and row by row, rounding down.
pub proof fn law_doubling_zoom_halves_offsets(v: ViewportView, w: ViewportView, p: Point)
    requires
        v.wf(),
        w == (ViewportView { zoom: 2 * v.zoom, ..v }),
    ensures
        w.col_of(p) - (w.width as int) / 2 == (v.col_of(p) - (v.width as int) / 2) / 2,
        w.row_of(p) - (w.height as int) / 2 == (v.row_of(p) - (v.height as int) / 2) / 2,
{
    let per_cell = v.zoom * UNIT;
    assert(w.zoom * UNIT == per_cell * 2);
    assert(w.screen_x(p) == v.screen_x(p));
    assert(w.screen_y(p) == v.screen_y(p));
    lemma_div_twice(v.screen_x(p), per_cell, 2);
    lemma_div_twice(v.screen_y(p), per_cell, 2);
}

/// Doubling the zoom halves the distance in cells between any two points,
/// within the rounding of whole cells: twice the new distance differs from
/// the old one by at most one cell, along the columns and along the rows.
pub proof fn law_doubling_zoom_halves_distances(
    v: ViewportView,
    w: ViewportView,
    p: Point,
    q: Point,
)
    requires
        v.wf(),
        w == (ViewportView { zoom: 2 * v.zoom, ..v }),
    ensures
        -1 <= 2 * (w.col_of(p) - w.col_of(q)) - (v.col_of(p) - v.col_of(q)) <= 1,
        -1 <= 2 * (w.row_of(p) - w.row_of(q)) - (v.row_of(p) - v.row_of(q)) <= 1,
{
    law_doubling_zoom_halves_offsets(v, w, p);
    law_doubling_zoom_halves_offsets(v, w, q);
}

/// Turning the viewport by a quarter turn swaps the screen axes: what was a
/// point's offset to the right becomes its offset downwards, and what was its
/// offset downwards becomes its offset to the left.
pub proof fn law_quarter_turn_swaps_axes(v: ViewportView, w: ViewportView, p: Point)
    requires
        v.wf(),
        w == (ViewportView { rotation: normal(v.rotation + QUARTER_TURN), ..v }),
    ensures
        w.screen_y(p) == v.screen_x(p),
        w.screen_x(p) == -v.screen_y(p),
{
    let dx = p.x - v.center.x;
    let dy = p.y - v.center.y;
    let c = cosine(v.rotation);
    let s = sine(v.rotation);
    lemma_full_turn(v.rotation + QUARTER_TURN);
    lemma_quarter_turn(v.rotation);
    assert(cosine(w.rotation) == -s);
    assert(sine(w.rotation) == c);
    assert(dx * (-s) + dy * c == -(-(dy * c - dx * s))) by (nonlinear_arith);
    assert(-(dy * (-s) - dx * c) == dx * c + dy * s) by (nonlinear_arith);
}

/// With the viewport turned by a quarter turn, a point that lies off the
/// centre purely along the world's first axis is shown off the centre purely
/// along the rows: `d` world units along the axis become `d / zoom` cells
/// downwards and none sideways. Unturned, the same point is shown `d / zoom`
/// cells to the right and none up or down.
pub proof fn law_quarter_turn_maps_x_to_rows(v: ViewportView, w: ViewportView, d: int)
    requires
        v.wf(),
        v.rotation == 0,
        w == (ViewportView { rotation: QUARTER_TURN as int, ..v }),
        i64::MIN <= v.center.x + d <= i64::MAX,
    ensures
        ({
            let p = Point { x: (v.center.x + d) as i64, y: v.center.y };
            &&& v.col_of(p) - (v.width as int) / 2 == d / v.zoom
            &&& v.row_of(p) == (v.height as int) / 2
            &&& w.col_of(p) == (w.width as int) / 2
            &&& w.row_of(p) - (w.height as int) / 2 == d / v.zoom
        }),
{
    let p = Point { x: (v.center.x + d) as i64, y: v.center.y };
    lemma_axes();
    assert(d * UNIT + 0 * 0 == d * UNIT && 0 * UNIT - d * 0 == 0 && d * 0 + 0 * UNIT == 0 && -(0
        * 0 - d * UNIT) == d * UNIT) by (nonlinear_arith);
    assert(v.screen_x(p) == d * UNIT);
    assert(v.screen_y(p) == 0);
    assert(w.screen_x(p) == 0);
    assert(w.screen_y(p) == d * UNIT);
    assert(v.zoom * UNIT >= 1);
    lemma_div_basics_1(v.zoom * UNIT);
    lemma_div_twice(d * UNIT, UNIT as int, v.zoom);
    lemma_div_multiples_vanish(d, UNIT as int);
    assert(UNIT * d == d * UNIT && UNIT * v.zoom == v.zoom * UNIT);
}

} // verus!
