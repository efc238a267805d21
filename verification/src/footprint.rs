//! The robot's footprint: a closed polygon, drawn as an outline.

use vstd::prelude::*;
use crate::canvas::{Canvas, CanvasView, Cell, CellPos};
use crate::geometry::{Point, Pose3};
use crate::message::Footprint;
use crate::raster::{draw_path, in_reach, path_cover};
use crate::scan::Style;
use crate::viewport::{Viewport, ViewportView};

verus! {

/// The cells of `points`, each carried into the viewport's frame by `pose`
/// and projected.
pub open spec fn projected_cells(view: ViewportView, pose: Pose3, points: Seq<Point>) -> Seq<
    CellPos,
> {
    Seq::new(points.len(), |i: int| view.projected(pose.applied(points[i])))
}

/// Carries each of `points` into the viewport's frame by `pose` and projects
/// it.
pub fn project_all(viewport: &Viewport, pose: &Pose3, points: &Vec<Point>) -> (cells: Vec<CellPos>)
    ensures
        cells@ == projected_cells(viewport@, *pose, points@),
        forall|i: int| 0 <= i < cells.len() ==> in_reach(#[trigger] cells[i]),
{
    let mut cells: Vec<CellPos> = Vec::new();
    let mut i: usize = 0;
    while i < points.len()
        invariant
            i <= points.len(),
            cells.len() == i,
            forall|j: int|
                0 <= j < i ==> #[trigger] cells[j] == viewport@.projected(
                    pose.applied(points@[j]),
                ),
            forall|j: int| 0 <= j < i ==> in_reach(#[trigger] cells[j]),
        decreases points.len() - i,
    {
        cells.push(viewport.project(pose.apply(points[i])));
        i = i + 1;
    }
    assert(cells@ =~= projected_cells(viewport@, *pose, points@));
    cells
}

/// The canvas after the footprint is drawn on it: the outline of the polygon
/// through the projected corners, the last corner joined to the first; the
/// inside stays as it was.
pub open spec fn footprint_rendered(
    canvas: CanvasView,
    view: ViewportView,
    pose: Pose3,
    footprint: &Footprint,
    style: Style,
) -> CanvasView {
    canvas.fill(
        path_cover(
            projected_cells(view, pose, footprint.vertices@),
            true,
            footprint.vertices@.len() as int,
        ),
        Cell { glyph: style.glyph, color: style.color },
    )
}

/// Draws the footprint.
pub fn render_footprint(
    canvas: &mut Canvas,
    viewport: &Viewport,
    pose: &Pose3,
    footprint: &Footprint,
    style: Style,
)
    ensures
        final(canvas)@ == footprint_rendered(old(canvas)@, viewport@, *pose, footprint, style),
{
    let cells = project_all(viewport, pose, &footprint.vertices);
    draw_path(canvas, &cells, true, style.glyph, style.color);
}

} // verus!
