//! Markers: points, line strips, arrows and labels.

use vstd::prelude::*;
use crate::canvas::{Canvas, CanvasView, Cell, CellPos, Color, law_writes_are_clipped};
use crate::geometry::{Point, Pose3};
use crate::message::{Marker, MarkerKind, MarkerSet};
use crate::raster::{draw_path, in_reach, path_cover};
use crate::scan::Style;
use crate::viewport::{Viewport, ViewportView};

verus! {

/// The arrow head for a line that ends by moving `across` columns and `down`
/// rows: one of eight arrows, or `fallback` for a line that ends where it
/// began.
pub open spec fn tip_glyph(across: int, down: int, fallback: char) -> char {
    if across > 0 {
        if down < 0 {
            '\u{2197}'
        } else if down == 0 {
            '\u{2192}'
        } else {
            '\u{2198}'
        }
    } else if across == 0 {
        if down < 0 {
            '\u{2191}'
        } else if down == 0 {
            fallback
        } else {
            '\u{2193}'
        }
    } else {
        if down < 0 {
            '\u{2196}'
        } else if down == 0 {
            '\u{2190}'
        } else {
            '\u{2199}'
        }
    }
}

/// The arrow head of the path through `cells`: it points the way of the last
/// segment.
pub open spec fn arrow_head(cells: Seq<CellPos>, fallback: char) -> char {
    if cells.len() < 2 {
        fallback
    } else {
        tip_glyph(
            cells[cells.len() - 1].col - cells[cells.len() - 2].col,
            cells[cells.len() - 1].row - cells[cells.len() - 2].row,
            fallback,
        )
    }
}

/// The canvas after the first `k` characters of `text` are written on it,
/// the first at `(col, row)` and each next one a column further right.
/// Characters that fall outside the canvas are left out.
pub open spec fn text_written(
    canvas: CanvasView,
    col: int,
    row: int,
    text: Seq<char>,
    color: Color,
    k: int,
) -> CanvasView
    decreases k,
{
    if k <= 0 {
        canvas
    } else {
        text_written(canvas, col, row, text, color, k - 1).put(
            col + k - 1,
            row,
            Cell { glyph: text[k - 1], color },
        )
    }
}

/// The pose that carries a marker's points into the viewport's frame: first
/// the marker's own pose, then the pose of the set's frame.
pub open spec fn marker_cells(view: ViewportView, frame: Pose3, marker: &Marker) -> Seq<CellPos> {
    Seq::new(
        marker.points@.len(),
        |i: int| view.projected(frame.applied(marker.pose.applied(marker.points@[i]))),
    )
}

/// The cell of a marker's own position.
pub open spec fn marker_anchor(view: ViewportView, frame: Pose3, marker: &Marker) -> CellPos {
    view.projected(frame.applied(Point { x: marker.pose.x, y: marker.pose.y }))
}

/// The canvas after one marker is drawn on it.
///
/// A point marker draws the cell of its position. A line strip draws a line
/// between each two neighbouring points. An arrow draws its line strip and
/// then, on the cell of its last point, an arrow head. A text marker writes
/// its text from the cell of its position rightwards.
pub open spec fn marker_rendered(
    canvas: CanvasView,
    view: ViewportView,
    frame: Pose3,
    marker: &Marker,
    glyph: char,
) -> CanvasView {
    let cells = marker_cells(view, frame, marker);
    let anchor = marker_anchor(view, frame, marker);
    let cell = Cell { glyph, color: marker.color };
    match marker.kind {
        MarkerKind::Point => canvas.put(anchor.col as int, anchor.row as int, cell),
        MarkerKind::LineStrip => canvas.fill(path_cover(cells, false, cells.len() as int), cell),
        MarkerKind::Arrow => {
            let shaft = canvas.fill(path_cover(cells, false, cells.len() as int), cell);
            if cells.len() == 0 {
                shaft
            } else {
                shaft.put(
                    cells[cells.len() - 1].col as int,
                    cells[cells.len() - 1].row as int,
                    Cell { glyph: arrow_head(cells, glyph), color: marker.color },
                )
            }
        },
        MarkerKind::Text => text_written(
            canvas,
            anchor.col as int,
            anchor.row as int,
            marker.text@,
            marker.color,
            marker.text@.len() as int,
        ),
    }
}

/// The canvas after the first `k` markers of `set` are drawn on it, one after
/// the other: a later marker overwrites an earlier one where they meet.
pub open spec fn markers_rendered(
    canvas: CanvasView,
    view: ViewportView,
    frame: Pose3,
    set: &MarkerSet,
    glyph: char,
    k: int,
) -> CanvasView
    decreases k,
{
    if k <= 0 {
        canvas
    } else {
        marker_rendered(
            markers_rendered(canvas, view, frame, set, glyph, k - 1),
            view,
            frame,
            &set.markers@[k - 1],
            glyph,
        )
    }
}

/// The cells of a marker's points.
fn cells_of(viewport: &Viewport, frame: &Pose3, marker: &Marker) -> (cells: Vec<CellPos>)
    ensures
        cells@ == marker_cells(viewport@, *frame, marker),
        forall|i: int| 0 <= i < cells.len() ==> in_reach(#[trigger] cells[i]),
{
    let mut cells: Vec<CellPos> = Vec::new();
    let mut i: usize = 0;
    while i < marker.points.len()
        invariant
            i <= marker.points.len(),
            cells.len() == i,
            forall|j: int|
                0 <= j < i ==> #[trigger] cells[j] == viewport@.projected(
                    frame.applied(marker.pose.applied(marker.points@[j])),
                ),
            forall|j: int| 0 <= j < i ==> in_reach(#[trigger] cells[j]),
        decreases marker.points.len() - i,
    {
        cells.push(viewport.project(frame.apply(marker.pose.apply(marker.points[i]))));
        i = i + 1;
    }
    assert(cells@ =~= marker_cells(viewport@, *frame, marker));
    cells
}

/// The arrow head of the path through `cells`.
fn head_of(cells: &Vec<CellPos>, fallback: char) -> (glyph: char)
    requires
        forall|i: int| 0 <= i < cells.len() ==> in_reach(#[trigger] cells[i]),
    ensures
        glyph == arrow_head(cells@, fallback),
{
    let n = cells.len();
    if n < 2 {
        return fallback;
    }
    let across: i64 = cells[n - 1].col - cells[n - 2].col;
    let down: i64 = cells[n - 1].row - cells[n - 2].row;
    if across > 0 {
        if down < 0 {
            '\u{2197}'
        } else if down == 0 {
            '\u{2192}'
        } else {
            '\u{2198}'
        }
    } else if across == 0 {
        if down < 0 {
            '\u{2191}'
        } else if down == 0 {
            fallback
        } else {
            '\u{2193}'
        }
    } else {
        if down < 0 {
            '\u{2196}'
        } else if down == 0 {
            '\u{2190}'
        } else {
            '\u{2199}'
        }
    }
}

/// Writes `text` from `(col, row)` rightwards. What falls outside the canvas
/// is left out.
pub fn write_text(canvas: &mut Canvas, at: CellPos, text: &Vec<char>, color: Color)
    ensures
        final(canvas)@ == text_written(
            old(canvas)@,
            at.col as int,
            at.row as int,
            text@,
            color,
            text@.len() as int,
        ),
{
    let ghost before = canvas@;
    let width = canvas.width();
    let mut k: usize = 0;
    while k < text.len()
        invariant
            k <= text.len(),
            width == canvas@.width,
            canvas@ == text_written(before, at.col as int, at.row as int, text@, color, k as int),
        decreases text.len() - k,
    {
        let col: i128 = at.col as i128 + k as i128;
        if col <= 0xffff {
            canvas.set(col as i64, at.row, text[k], color);
        }
        k = k + 1;
    }
}

/// Draws one marker.
pub fn render_marker(
    canvas: &mut Canvas,
    viewport: &Viewport,
    frame: &Pose3,
    marker: &Marker,
    glyph: char,
)
    ensures
        final(canvas)@ == marker_rendered(old(canvas)@, viewport@, *frame, marker, glyph),
{
    match marker.kind {
        MarkerKind::Point => {
            let anchor = viewport.project(frame.apply(Point { x: marker.pose.x, y: marker.pose.y }));
            canvas.set(anchor.col, anchor.row, glyph, marker.color);
        },
        MarkerKind::LineStrip => {
            let cells = cells_of(viewport, frame, marker);
            draw_path(canvas, &cells, false, glyph, marker.color);
        },
        MarkerKind::Arrow => {
            let cells = cells_of(viewport, frame, marker);
            draw_path(canvas, &cells, false, glyph, marker.color);
            if cells.len() > 0 {
                let tip = cells[cells.len() - 1];
                canvas.set(tip.col, tip.row, head_of(&cells, glyph), marker.color);
            }
        },
        MarkerKind::Text => {
            let anchor = viewport.project(frame.apply(Point { x: marker.pose.x, y: marker.pose.y }));
            write_text(canvas, anchor, &marker.text, marker.color);
        },
    }
}

/// The canvas after a whole marker set is drawn on it.
pub open spec fn marker_set_rendered(
    canvas: CanvasView,
    view: ViewportView,
    frame: Pose3,
    set: &MarkerSet,
    style: Style,
) -> CanvasView {
    markers_rendered(canvas, view, frame, set, style.glyph, set.markers@.len() as int)
}

/// Draws a marker set, marker by marker.
pub fn render_markers(
    canvas: &mut Canvas,
    viewport: &Viewport,
    frame: &Pose3,
    set: &MarkerSet,
    style: Style,
)
    ensures
        final(canvas)@ == marker_set_rendered(old(canvas)@, viewport@, *frame, set, style),
{
    let ghost before = canvas@;
    let mut k: usize = 0;
    while k < set.markers.len()
        invariant
            k <= set.markers.len(),
            canvas@ == markers_rendered(before, viewport@, *frame, set, style.glyph, k as int),
        decreases set.markers.len() - k,
    {
        render_marker(canvas, viewport, frame, &set.markers[k], style.glyph);
        k = k + 1;
    }
}

/// Writing text keeps every cell on the canvas.
pub proof fn lemma_text_written_wf(
    canvas: CanvasView,
    col: int,
    row: int,
    text: Seq<char>,
    color: Color,
    k: int,
)
    requires
        canvas.wf(),
    ensures
        text_written(canvas, col, row, text, color, k).wf(),
        text_written(canvas, col, row, text, color, k).width == canvas.width,
        text_written(canvas, col, row, text, color, k).height == canvas.height,
    decreases k,
{
    if k > 0 {
        lemma_text_written_wf(canvas, col, row, text, color, k - 1);
        law_writes_are_clipped(
            text_written(canvas, col, row, text, color, k - 1),
            col + k - 1,
            row,
            Cell { glyph: text[k - 1], color },
        );
    }
}

/// Drawing markers keeps every cell on the canvas.
pub proof fn lemma_markers_rendered_wf(
    canvas: CanvasView,
    view: ViewportView,
    frame: Pose3,
    set: &MarkerSet,
    glyph: char,
    k: int,
)
    requires
        canvas.wf(),
    ensures
        markers_rendered(canvas, view, frame, set, glyph, k).wf(),
        markers_rendered(canvas, view, frame, set, glyph, k).width == canvas.width,
        markers_rendered(canvas, view, frame, set, glyph, k).height == canvas.height,
    decreases k,
{
    if k > 0 {
        lemma_markers_rendered_wf(canvas, view, frame, set, glyph, k - 1);
        let below = markers_rendered(canvas, view, frame, set, glyph, k - 1);
        let marker = &set.markers@[k - 1];
        let anchor = marker_anchor(view, frame, marker);
        let cells = marker_cells(view, frame, marker);
        let cell = Cell { glyph, color: marker.color };
        law_writes_are_clipped(below, anchor.col as int, anchor.row as int, cell);
        if cells.len() > 0 {
            law_writes_are_clipped(
                below.fill(path_cover(cells, false, cells.len() as int), cell),
                cells[cells.len() - 1].col as int,
                cells[cells.len() - 1].row as int,
                Cell { glyph: arrow_head(cells, glyph), color: marker.color },
            );
        }
        lemma_text_written_wf(
            below,
            anchor.col as int,
            anchor.row as int,
            marker.text@,
            marker.color,
            marker.text@.len() as int,
        );
    }
}

} // verus!
