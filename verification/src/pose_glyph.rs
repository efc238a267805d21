//! The robot's pose: one cell that shows which way the robot is heading.

use vstd::prelude::*;
use crate::angle::{FULL_TURN, normal, normalize, wrap};
use crate::canvas::{Canvas, CanvasView, Cell, Color};
use crate::geometry::{Point, Pose3};
use crate::viewport::{Viewport, ViewportView};

verus! {

/// Half the width of one of the eight headings.
pub const HALF_OCTANT: i64 = 22_500_000;

/// The width of one of the eight headings.
pub const OCTANT: i64 = 45_000_000;

/// Which of eight headings a robot turned by `yaw` shows in a view turned by
/// `rotation`: 0 for right, then anticlockwise in steps of an eighth of a
/// turn, each heading taking the angles nearest to it.
pub open spec fn heading(yaw: int, rotation: int) -> int {
    normal(normal(yaw) - normal(rotation) + HALF_OCTANT) / (OCTANT as int)
}

/// The arrow of a heading.
pub open spec fn heading_glyph(h: int) -> char {
    if h <= 0 {
        '\u{2192}'
    } else if h == 1 {
        '\u{2197}'
    } else if h == 2 {
        '\u{2191}'
    } else if h == 3 {
        '\u{2196}'
    } else if h == 4 {
        '\u{2190}'
    } else if h == 5 {
        '\u{2199}'
    } else if h == 6 {
        '\u{2193}'
    } else {
        '\u{2198}'
    }
}

/// The canvas after the pose is drawn on it: the cell of the robot's position
/// shows the arrow of its heading; a position off the canvas draws nothing.
pub open spec fn pose_rendered(canvas: CanvasView, view: ViewportView, pose: Pose3, color: Color)
    -> CanvasView {
    let p = Point { x: pose.x, y: pose.y };
    if view.on_canvas(p) {
        canvas.put(
            view.col_of(p),
            view.row_of(p),
            Cell { glyph: heading_glyph(heading(pose.yaw as int, view.rotation)), color },
        )
    } else {
        canvas
    }
}

/// The arrow that a robot turned by `yaw` shows in a view turned by
/// `rotation`.
pub fn glyph_for(yaw: i64, rotation: i64) -> (glyph: char)
    ensures
        glyph == heading_glyph(heading(yaw as int, rotation as int)),
{
    let turned = wrap(normalize(yaw) - normalize(rotation) + HALF_OCTANT, FULL_TURN);
    let h = turned / OCTANT;
    if h <= 0 {
        '\u{2192}'
    } else if h == 1 {
        '\u{2197}'
    } else if h == 2 {
        '\u{2191}'
    } else if h == 3 {
        '\u{2196}'
    } else if h == 4 {
        '\u{2190}'
    } else if h == 5 {
        '\u{2199}'
    } else if h == 6 {
        '\u{2193}'
    } else {
        '\u{2198}'
    }
}

/// Draws the pose.
pub fn render_pose(canvas: &mut Canvas, viewport: &Viewport, pose: &Pose3, color: Color)
    ensures
        final(canvas)@ == pose_rendered(old(canvas)@, viewport@, *pose, color),
{
    match viewport.world_to_cell(Point { x: pose.x, y: pose.y }) {
        Some(at) => {
            let glyph = glyph_for(pose.yaw, viewport.rotation());
            canvas.set(at.col, at.row, glyph, color);
        },
        None => {},
    }
}

} // verus!
