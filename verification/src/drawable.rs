//! The drawables: one renderable data source each.

use vstd::prelude::*;
use crate::canvas::{Canvas, CanvasView, Cell, Color};
use crate::footprint::{footprint_rendered, render_footprint};
use crate::geometry::Pose3;
use crate::marker::{lemma_markers_rendered_wf, marker_set_rendered, render_markers};
use crate::message::{Kind, Message};
use crate::occupancy::{MapStyle, map_rendered, render_map};
use crate::painter::lemma_painted_wf;
use crate::pose_glyph::{pose_rendered, render_pose};
use crate::scan::{
    CloudStyle, Style, cloud_dots, cloud_rendered, render_cloud, render_scan, scan_dots,
    scan_rendered,
};
use crate::viewport::{Viewport, ViewportView};

verus! {

/// What a drawable shows and how: one variant for each kind of data.
#[derive(Clone, Copy, Debug, PartialEq, Eq)]
pub enum Look {
    RangeScan(Style),
    PointCloud(CloudStyle),
    OccupancyMap(MapStyle),
    MarkerSet(Style),
    Footprint(Style),
    /// The robot's pose, drawn from the resolved transform alone.
    PoseGlyph(Color),
}

/// One renderable data source: its identifier, the handle of the mailbox it
/// reads, whether it is shown, and its look.
#[derive(Clone, Copy, Debug, PartialEq, Eq)]
pub struct Drawable {
    pub id: u32,
    pub source: usize,
    pub active: bool,
    pub look: Look,
}

impl Look {
    /// The kind of message the look draws; a pose glyph draws none.
    pub open spec fn wants(self) -> Option<Kind> {
        match self {
            Look::RangeScan(_) => Some(Kind::RangeScan),
            Look::PointCloud(_) => Some(Kind::PointCloud),
            Look::OccupancyMap(_) => Some(Kind::OccupancyMap),
            Look::MarkerSet(_) => Some(Kind::MarkerSet),
            Look::Footprint(_) => Some(Kind::Footprint),
            Look::PoseGlyph(_) => None,
        }
    }

    /// The kind of message the look draws.
    pub fn kind(&self) -> (kind: Option<Kind>)
        ensures
            kind == self.wants(),
    {
        match self {
            Look::RangeScan(_) => Some(Kind::RangeScan),
            Look::PointCloud(_) => Some(Kind::PointCloud),
            Look::OccupancyMap(_) => Some(Kind::OccupancyMap),
            Look::MarkerSet(_) => Some(Kind::MarkerSet),
            Look::Footprint(_) => Some(Kind::Footprint),
            Look::PoseGlyph(_) => None,
        }
    }
}

impl Drawable {
    /// The canvas after the drawable is drawn on it.
    ///
    /// Without a resolved transform nothing is drawn. A pose glyph draws the
    /// transform itself. Every other drawable draws its latest snapshot,
    /// carried into the viewport's frame by the transform; without a
    /// snapshot, or with one of another kind, it draws nothing.
    pub open spec fn rendered(
        self,
        canvas: CanvasView,
        view: ViewportView,
        snapshot: Option<&Message>,
        resolved: Option<Pose3>,
    ) -> CanvasView {
        match resolved {
            None => canvas,
            Some(pose) => match self.look {
                Look::PoseGlyph(color) => pose_rendered(canvas, view, pose, color),
                Look::RangeScan(style) => match snapshot {
                    Some(Message::RangeScan(scan)) => scan_rendered(canvas, view, pose, scan, style),
                    _ => canvas,
                },
                Look::PointCloud(style) => match snapshot {
                    Some(Message::PointCloud(cloud)) => cloud_rendered(
                        canvas,
                        view,
                        pose,
                        cloud,
                        style,
                    ),
                    _ => canvas,
                },
                Look::OccupancyMap(style) => match snapshot {
                    Some(Message::OccupancyMap(map)) => map_rendered(canvas, view, pose, map, style),
                    _ => canvas,
                },
                Look::MarkerSet(style) => match snapshot {
                    Some(Message::MarkerSet(set)) => marker_set_rendered(
                        canvas,
                        view,
                        pose,
                        set,
                        style,
                    ),
                    _ => canvas,
                },
                Look::Footprint(style) => match snapshot {
                    Some(Message::Footprint(footprint)) => footprint_rendered(
                        canvas,
                        view,
                        pose,
                        footprint,
                        style,
                    ),
                    _ => canvas,
                },
            },
        }
    }

    /// Draws the drawable: its latest snapshot, carried into the viewport's
    /// frame by the resolved transform. Where the transform is not available
    /// the drawable is skipped.
    pub fn render(
        &self,
        canvas: &mut Canvas,
        viewport: &Viewport,
        snapshot: Option<&Message>,
        resolved: Option<Pose3>,
    )
        ensures
            final(canvas)@ == self.rendered(old(canvas)@, viewport@, snapshot, resolved),
    {
        let pose = match resolved {
            Some(pose) => pose,
            None => {
                return ;
            },
        };
        match self.look {
            Look::PoseGlyph(color) => {
                render_pose(canvas, viewport, &pose, color);
            },
            Look::RangeScan(style) => {
                if let Some(Message::RangeScan(scan)) = snapshot {
                    render_scan(canvas, viewport, &pose, scan, style);
                }
            },
            Look::PointCloud(style) => {
                if let Some(Message::PointCloud(cloud)) = snapshot {
                    render_cloud(canvas, viewport, &pose, cloud, style);
                }
            },
            Look::OccupancyMap(style) => {
                if let Some(Message::OccupancyMap(map)) = snapshot {
                    render_map(canvas, viewport, &pose, map, style);
                }
            },
            Look::MarkerSet(style) => {
                if let Some(Message::MarkerSet(set)) = snapshot {
                    render_markers(canvas, viewport, &pose, set, style);
                }
            },
            Look::Footprint(style) => {
                if let Some(Message::Footprint(footprint)) = snapshot {
                    render_footprint(canvas, viewport, &pose, footprint, style);
                }
            },
        }
    }
}

/// Whatever a drawable draws, it draws on the canvas: rendering keeps the
/// extents of the canvas and never leaves a cell outside them, wherever the
/// data lies in the world.
pub proof fn law_rendering_is_clipped(
    drawable: Drawable,
    canvas: CanvasView,
    view: ViewportView,
    snapshot: Option<&Message>,
    resolved: Option<Pose3>,
)
    requires
        canvas.wf(),
    ensures
        drawable.rendered(canvas, view, snapshot, resolved).wf(),
        drawable.rendered(canvas, view, snapshot, resolved).width == canvas.width,
        drawable.rendered(canvas, view, snapshot, resolved).height == canvas.height,
{
    if let Some(pose) = resolved {
        match drawable.look {
            Look::RangeScan(style) => {
                if let Some(Message::RangeScan(scan)) = snapshot {
                    let dots = scan_dots(
                        scan,
                        view,
                        pose,
                        Cell { glyph: style.glyph, color: style.color },
                        scan.ranges@.len() as int,
                    );
                    lemma_painted_wf(canvas, dots, dots.len() as int);
                }
            },
            Look::PointCloud(style) => {
                if let Some(Message::PointCloud(cloud)) = snapshot {
                    let dots = cloud_dots(cloud, view, pose, style, cloud.points@.len() as int);
                    lemma_painted_wf(canvas, dots, dots.len() as int);
                }
            },
            Look::MarkerSet(style) => {
                if let Some(Message::MarkerSet(set)) = snapshot {
                    lemma_markers_rendered_wf(
                        canvas,
                        view,
                        pose,
                        set,
                        style.glyph,
                        set.markers@.len() as int,
                    );
                }
            },
            _ => {},
        }
    }
}

} // verus!
