//! Range scans and point clouds: data sets of single points that may hide
//! each other.

use vstd::prelude::*;
use vstd::arithmetic::div_mod::*;
use crate::angle::{FULL_TURN, UNIT, cos, cosine, lemma_full_turn, sin, sine};
use crate::canvas::{Canvas, CanvasView, Cell, CellPos, Color};
use crate::geometry::{
    Point, Pose3, div_floor, lemma_product_bound, rem_floor, saturate, saturating,
};
use crate::message::{CloudPoint, PointCloud, RangeScan};
use crate::painter::{Dot, paint_dots, painted};
use crate::viewport::{Viewport, ViewportView};

verus! {

/// How a data set of one look is drawn.
#[derive(Clone, Copy, Debug, PartialEq, Eq, Structural)]
pub struct Style {
    pub glyph: char,
    pub color: Color,
}

/// What the colour of a cloud point goes by.
#[derive(Clone, Copy, Debug, PartialEq, Eq, Structural)]
pub enum ColorBy {
    Height,
    Intensity,
}

/// How a point cloud is drawn: every point shows `glyph`, in one of four
/// colours that rise with the point's height or intensity between `low` and
/// `high`.
#[derive(Clone, Copy, Debug, PartialEq, Eq, Structural)]
pub struct CloudStyle {
    pub glyph: char,
    pub by: ColorBy,
    pub low: i64,
    pub high: i64,
}

/// The point in the sensor's frame that reading `i` of `scan` stands for:
/// `range * cos(angle)` along the first axis and `range * sin(angle)` along
/// the second, rounded down to whole units.
pub open spec fn scan_point(scan: &RangeScan, i: int) -> Point {
    let range = scan.ranges@[i].unwrap() as int;
    let angle = scan.angle_at(i);
    Point {
        x: saturate(range * cosine(angle) / (UNIT as int)) as i64,
        y: saturate(range * sine(angle) / (UNIT as int)) as i64,
    }
}

/// Whether reading `i` of `scan` is drawn: it is valid and, carried into the
/// viewport's frame by `pose`, it shows on the canvas.
pub open spec fn scan_shows(scan: &RangeScan, view: ViewportView, pose: Pose3, i: int) -> bool {
    scan.valid_at(i) && view.on_canvas(pose.applied(scan_point(scan, i)))
}

/// The dot of reading `i` of `scan`: its cell, its range as depth, and the
/// look of the scan.
pub open spec fn scan_dot(scan: &RangeScan, view: ViewportView, pose: Pose3, cell: Cell, i: int)
    -> Dot {
    let p = pose.applied(scan_point(scan, i));
    Dot {
        at: CellPos { col: view.col_of(p) as i64, row: view.row_of(p) as i64 },
        depth: scan.ranges@[i].unwrap() as u128,
        cell,
    }
}

/// The dots of the first `k` readings of `scan` that are drawn, in the order
/// of the readings.
pub open spec fn scan_dots(scan: &RangeScan, view: ViewportView, pose: Pose3, cell: Cell, k: int)
    -> Seq<Dot>
    decreases k,
{
    if k <= 0 {
        Seq::empty()
    } else if scan_shows(scan, view, pose, k - 1) {
        scan_dots(scan, view, pose, cell, k - 1).push(scan_dot(scan, view, pose, cell, k - 1))
    } else {
        scan_dots(scan, view, pose, cell, k - 1)
    }
}

/// The canvas after `scan` is drawn on `view`: a scan whose fields disagree
/// draws nothing; of any other, every valid reading is carried into the
/// viewport's frame by `pose`, projected, and drawn if it shows on the
/// canvas, nearer readings hiding farther ones.
pub open spec fn scan_rendered(
    canvas: CanvasView,
    view: ViewportView,
    pose: Pose3,
    scan: &RangeScan,
    style: Style,
) -> CanvasView {
    if scan.well_formed() {
        let dots = scan_dots(
            scan,
            view,
            pose,
            Cell { glyph: style.glyph, color: style.color },
            scan.ranges@.len() as int,
        );
        painted(canvas, dots, dots.len() as int)
    } else {
        canvas
    }
}

/// The point in the sensor's frame that reading `i` stands for.
fn locate(scan: &RangeScan, i: usize, range: i64) -> (local: Point)
    requires
        i < scan.ranges.len(),
        scan.ranges@[i as int] == Some(range),
    ensures
        local == scan_point(scan, i as int),
{
    proof {
        lemma_product_bound(
            i as int,
            scan.angle_increment as int,
            0xffff_ffff_ffff_ffff,
            0x8000_0000_0000_0000,
        );
        assert(0xffff_ffff_ffff_ffff * 0x8000_0000_0000_0000
            == 0x7fff_ffff_ffff_ffff_8000_0000_0000_0000int);
    }
    let swept: i128 = scan.angle_min as i128 + (i as i128) * (scan.angle_increment as i128);
    let angle: i64 = rem_floor(swept, FULL_TURN as i128) as i64;
    proof {
        lemma_full_turn(swept as int);
    }
    let c = cos(angle);
    let s = sin(angle);
    proof {
        lemma_product_bound(range as int, c as int, 0x8000_0000_0000_0000, UNIT as int);
        lemma_product_bound(range as int, s as int, 0x8000_0000_0000_0000, UNIT as int);
    }
    Point {
        x: saturating(div_floor((range as i128) * (c as i128), UNIT as i128)),
        y: saturating(div_floor((range as i128) * (s as i128), UNIT as i128)),
    }
}

/// Draws a range scan.
pub fn render_scan(
    canvas: &mut Canvas,
    viewport: &Viewport,
    pose: &Pose3,
    scan: &RangeScan,
    style: Style,
)
    ensures
        final(canvas)@ == scan_rendered(old(canvas)@, viewport@, *pose, scan, style),
{
    if !scan.is_well_formed() {
        return ;
    }
    let cell = Cell { glyph: style.glyph, color: style.color };
    let mut dots: Vec<Dot> = Vec::new();
    let mut i: usize = 0;
    while i < scan.ranges.len()
        invariant
            scan.well_formed(),
            i <= scan.ranges.len(),
            cell == (Cell { glyph: style.glyph, color: style.color }),
            dots@ == scan_dots(scan, viewport@, *pose, cell, i as int),
        decreases scan.ranges.len() - i,
    {
        match scan.ranges[i] {
            Some(range) => {
                if scan.range_min <= range && range <= scan.range_max {
                    let local = locate(scan, i, range);
                    let world = pose.apply(local);
                    match viewport.world_to_cell(world) {
                        Some(at) => {
                            dots.push(Dot { at, depth: range as u128, cell });
                        },
                        None => {},
                    }
                }
            },
            None => {},
        }
        i = i + 1;
    }
    paint_dots(canvas, &dots);
}

/// The colour bucket of a value: 0 at or below `low`, 3 at or above `high`,
/// and rising in equal steps between them.
pub open spec fn bucket(value: int, low: int, high: int) -> int {
    if high <= low || value <= low {
        0
    } else if value >= high {
        3
    } else {
        (value - low) * 4 / (high - low)
    }
}

/// The colour of a bucket, from the lowest to the highest.
pub open spec fn bucket_color(b: int) -> Color {
    if b <= 0 {
        Color::Blue
    } else if b == 1 {
        Color::Green
    } else if b == 2 {
        Color::Yellow
    } else {
        Color::Red
    }
}

/// The value that decides the colour of a cloud point: its height, or its
/// intensity where it has one and the style asks for it.
pub open spec fn color_value(p: CloudPoint, style: CloudStyle) -> int {
    match style.by {
        ColorBy::Height => p.z as int,
        ColorBy::Intensity => match p.intensity {
            Some(v) => v as int,
            None => style.low as int,
        },
    }
}

/// What a cloud point shows.
pub open spec fn cloud_cell(p: CloudPoint, style: CloudStyle) -> Cell {
    Cell {
        glyph: style.glyph,
        color: bucket_color(bucket(color_value(p, style), style.low as int, style.high as int)),
    }
}

/// The buckets are monotonic: a larger value never falls into a lower
/// bucket, and every bucket is one of the four.
pub proof fn law_buckets_are_monotonic(v1: int, v2: int, low: int, high: int)
    requires
        v1 <= v2,
    ensures
        0 <= bucket(v1, low, high) <= bucket(v2, low, high) <= 3,
{
    if low < high {
        let span = high - low;
        if v1 > low && v1 < high {
            lemma_div_pos_is_pos((v1 - low) * 4, span);
            lemma_div_is_ordered((v1 - low) * 4, span * 4 - 1, span);
            lemma_fundamental_div_mod_converse_div(span * 4 - 1, span, 3, span - 1);
        }
        if v2 > low && v2 < high {
            lemma_div_pos_is_pos((v2 - low) * 4, span);
            lemma_div_is_ordered((v2 - low) * 4, span * 4 - 1, span);
            lemma_fundamental_div_mod_converse_div(span * 4 - 1, span, 3, span - 1);
        }
        if v1 > low && v2 < high {
            lemma_div_is_ordered((v1 - low) * 4, (v2 - low) * 4, span);
        }
    }
}

/// The squared distance of a cloud point from the sensor.
pub open spec fn cloud_depth(p: CloudPoint) -> int {
    p.x * p.x + p.y * p.y + p.z * p.z
}

/// Whether point `i` of `cloud` is drawn: carried into the viewport's frame by
/// `pose`, it shows on the canvas.
pub open spec fn cloud_shows(cloud: &PointCloud, view: ViewportView, pose: Pose3, i: int) -> bool {
    view.on_canvas(pose.applied(Point { x: cloud.points@[i].x, y: cloud.points@[i].y }))
}

/// The dot of point `i` of `cloud`.
pub open spec fn cloud_dot(
    cloud: &PointCloud,
    view: ViewportView,
    pose: Pose3,
    style: CloudStyle,
    i: int,
) -> Dot {
    let p = cloud.points@[i];
    let w = pose.applied(Point { x: p.x, y: p.y });
    Dot {
        at: CellPos { col: view.col_of(w) as i64, row: view.row_of(w) as i64 },
        depth: cloud_depth(p) as u128,
        cell: cloud_cell(p, style),
    }
}

/// The dots of the first `k` points of `cloud` that are drawn, in the order of
/// the points.
pub open spec fn cloud_dots(
    cloud: &PointCloud,
    view: ViewportView,
    pose: Pose3,
    style: CloudStyle,
    k: int,
) -> Seq<Dot>
    decreases k,
{
    if k <= 0 {
        Seq::empty()
    } else if cloud_shows(cloud, view, pose, k - 1) {
        cloud_dots(cloud, view, pose, style, k - 1).push(cloud_dot(cloud, view, pose, style, k - 1))
    } else {
        cloud_dots(cloud, view, pose, style, k - 1)
    }
}

/// The canvas after `cloud` is drawn on `view`: every point is carried into
/// the viewport's frame by `pose`, projected, and drawn if it shows on the
/// canvas, points nearer to the sensor hiding farther ones.
pub open spec fn cloud_rendered(
    canvas: CanvasView,
    view: ViewportView,
    pose: Pose3,
    cloud: &PointCloud,
    style: CloudStyle,
) -> CanvasView {
    let dots = cloud_dots(cloud, view, pose, style, cloud.points@.len() as int);
    painted(canvas, dots, dots.len() as int)
}

/// The colour of a cloud point.
fn cloud_color(p: &CloudPoint, style: &CloudStyle) -> (color: Color)
    ensures
        color == cloud_cell(*p, *style).color,
{
    let value: i64 = match style.by {
        ColorBy::Height => p.z,
        ColorBy::Intensity => match p.intensity {
            Some(v) => v,
            None => style.low,
        },
    };
    if style.high <= style.low || value <= style.low {
        Color::Blue
    } else if value >= style.high {
        Color::Red
    } else {
        let span: i128 = style.high as i128 - style.low as i128;
        let b = div_floor((value as i128 - style.low as i128) * 4, span);
        proof {
            law_buckets_are_monotonic(value as int, value as int, style.low as int, style.high as int);
        }
        if b <= 0 {
            Color::Blue
        } else if b == 1 {
            Color::Green
        } else if b == 2 {
            Color::Yellow
        } else {
            Color::Red
        }
    }
}

/// The squared distance of a cloud point from the sensor.
fn depth_of(p: &CloudPoint) -> (depth: u128)
    ensures
        depth == cloud_depth(*p),
{
    proof {
        lemma_product_bound(p.x as int, p.x as int, 0x8000_0000_0000_0000, 0x8000_0000_0000_0000);
        lemma_product_bound(p.y as int, p.y as int, 0x8000_0000_0000_0000, 0x8000_0000_0000_0000);
        lemma_product_bound(p.z as int, p.z as int, 0x8000_0000_0000_0000, 0x8000_0000_0000_0000);
        assert(p.x * p.x >= 0 && p.y * p.y >= 0 && p.z * p.z >= 0) by (nonlinear_arith);
    }
    let xx: u128 = ((p.x as i128) * (p.x as i128)) as u128;
    let yy: u128 = ((p.y as i128) * (p.y as i128)) as u128;
    let zz: u128 = ((p.z as i128) * (p.z as i128)) as u128;
    xx + yy + zz
}

/// Draws a point cloud.
pub fn render_cloud(
    canvas: &mut Canvas,
    viewport: &Viewport,
    pose: &Pose3,
    cloud: &PointCloud,
    style: CloudStyle,
)
    ensures
        final(canvas)@ == cloud_rendered(old(canvas)@, viewport@, *pose, cloud, style),
{
    let mut dots: Vec<Dot> = Vec::new();
    let mut i: usize = 0;
    while i < cloud.points.len()
        invariant
            i <= cloud.points.len(),
            dots@ == cloud_dots(cloud, viewport@, *pose, style, i as int),
        decreases cloud.points.len() - i,
    {
        let p = &cloud.points[i];
        let world = pose.apply(Point { x: p.x, y: p.y });
        match viewport.world_to_cell(world) {
            Some(at) => {
                let cell = Cell { glyph: style.glyph, color: cloud_color(p, &style) };
                dots.push(Dot { at, depth: depth_of(p), cell });
            },
            None => {},
        }
        i = i + 1;
    }
    paint_dots(canvas, &dots);
}

} // verus!
