//! The messages that the data sources deliver, as the drawables read them.
//!
//! Lengths are whole numbers of world units and angles whole numbers of
//! millionths of a degree. A range reading that is not a finite number is
//! held as `None`.

use vstd::prelude::*;
use vstd::arithmetic::div_mod::*;
use crate::canvas::Color;
use crate::geometry::{Point, Pose3, Stamp, div_floor, lemma_product_bound};

verus! {

/// The frame a message is expressed in and the time it was taken.
#[derive(Clone, Debug, PartialEq, Eq)]
pub struct Header {
    pub frame_id: String,
    pub stamp: Stamp,
}

/// One sweep of a range finder.
#[derive(Clone, Debug, PartialEq, Eq)]
pub struct RangeScan {
    pub header: Header,
    /// The angle of the first reading.
    pub angle_min: i64,
    /// The angle of the last reading.
    pub angle_max: i64,
    /// The angle between two readings.
    pub angle_increment: i64,
    /// The shortest and the longest range the sensor can report.
    pub range_min: i64,
    pub range_max: i64,
    /// The readings in the order they were taken; `None` for a reading that
    /// is not a finite number.
    pub ranges: Vec<Option<i64>>,
}

/// One point of a cloud: its position and, where the sensor gives one, its
/// intensity.
#[derive(Clone, Copy, Debug, PartialEq, Eq)]
pub struct CloudPoint {
    pub x: i64,
    pub y: i64,
    pub z: i64,
    pub intensity: Option<i64>,
}

/// A set of points in space.
#[derive(Clone, Debug, PartialEq, Eq)]
pub struct PointCloud {
    pub header: Header,
    pub points: Vec<CloudPoint>,
}

/// What is known of one cell of an occupancy map.
#[derive(Clone, Copy, Debug, PartialEq, Eq, Structural)]
pub enum Occupancy {
    Free,
    Occupied,
    Unknown,
}

/// A grid map: `width` by `height` square cells of side `resolution`, stored
/// row by row. `origin` places the corner of cell (0, 0) in the map's frame.
#[derive(Clone, Debug, PartialEq, Eq)]
pub struct OccupancyMap {
    pub header: Header,
    pub resolution: i64,
    pub width: u32,
    pub height: u32,
    pub origin: Pose3,
    pub cells: Vec<Occupancy>,
}

/// The shapes a marker can have.
#[derive(Clone, Copy, Debug, PartialEq, Eq, Structural)]
pub enum MarkerKind {
    Point,
    LineStrip,
    Arrow,
    Text,
}

/// One marker. `points` are given relative to `pose`, which is given in the
/// frame of the set the marker belongs to. `scale` is carried along for the
/// consumer: on a terminal every line is one cell wide. `text` is what a text
/// marker shows.
#[derive(Clone, Debug, PartialEq, Eq)]
pub struct Marker {
    pub kind: MarkerKind,
    pub pose: Pose3,
    pub scale: i64,
    pub color: Color,
    pub points: Vec<Point>,
    pub text: Vec<char>,
}

/// A set of markers in one frame, in drawing order.
#[derive(Clone, Debug, PartialEq, Eq)]
pub struct MarkerSet {
    pub header: Header,
    pub markers: Vec<Marker>,
}

/// The outline of the robot: the corners of a polygon in the robot's frame.
/// The polygon is closed implicitly.
#[derive(Clone, Debug, PartialEq, Eq)]
pub struct Footprint {
    pub header: Header,
    pub vertices: Vec<Point>,
}

/// The kinds of data a source can deliver.
#[derive(Clone, Copy, Debug, PartialEq, Eq, Structural)]
pub enum Kind {
    RangeScan,
    PointCloud,
    OccupancyMap,
    MarkerSet,
    Footprint,
}

/// A message of any kind.
#[derive(Clone, Debug, PartialEq, Eq)]
pub enum Message {
    RangeScan(RangeScan),
    PointCloud(PointCloud),
    OccupancyMap(OccupancyMap),
    MarkerSet(MarkerSet),
    Footprint(Footprint),
}

impl RangeScan {
    /// The number of readings that the declared angles call for: one for
    /// `angle_min` and one more for every increment up to `angle_max`, the
    /// number of increments rounded to the nearest whole number.
    pub open spec fn expected_count(&self) -> int {
        (2 * (self.angle_max - self.angle_min) + self.angle_increment) / (2
            * self.angle_increment) + 1
    }

    /// The fields agree with each other: the angles advance, the limits are
    /// in order, and there are as many readings as the declared angles call
    /// for.
    pub open spec fn well_formed(&self) -> bool {
        &&& self.angle_increment > 0
        &&& self.angle_min <= self.angle_max
        &&& 0 <= self.range_min <= self.range_max
        &&& self.ranges@.len() == self.expected_count()
    }

    /// The angle of reading `i`.
    pub open spec fn angle_at(&self, i: int) -> int {
        self.angle_min + i * self.angle_increment
    }

    /// Whether reading `i` is usable: a finite number within the limits of the
    /// sensor.
    pub open spec fn valid_at(&self, i: int) -> bool {
        &&& 0 <= i < self.ranges@.len()
        &&& self.ranges@[i] matches Some(r)
        &&& self.range_min <= r <= self.range_max
    }

    /// Whether the fields agree with each other.
    pub fn is_well_formed(&self) -> (ok: bool)
        ensures
            ok == self.well_formed(),
    {
        if self.angle_increment <= 0 || self.angle_min > self.angle_max || self.range_min < 0
            || self.range_min > self.range_max {
            return false;
        }
        let spread: i128 = self.angle_max as i128 - self.angle_min as i128;
        let step: i128 = self.angle_increment as i128;
        let count: i128 = div_floor(2 * spread + step, 2 * step) + 1;
        proof {
            lemma_div_pos_is_pos(2 * spread + step, 2 * step);
            lemma_div_is_ordered_by_denominator(2 * spread + step, 1, 2 * step);
        }
        self.ranges.len() as u128 == count as u128
    }
}

impl OccupancyMap {
    /// The cells have a size and there is exactly one entry for each.
    pub open spec fn well_formed(&self) -> bool {
        &&& self.resolution > 0
        &&& self.cells@.len() == self.width * self.height
    }

    /// Whether the fields agree with each other.
    pub fn is_well_formed(&self) -> (ok: bool)
        ensures
            ok == self.well_formed(),
    {
        proof {
            lemma_product_bound(self.width as int, self.height as int, 0xffff_ffff, 0xffff_ffff);
        }
        let total: u64 = (self.width as u64) * (self.height as u64);
        self.resolution > 0 && self.cells.len() as u64 == total
    }
}

impl Message {
    /// The kind of the message.
    pub open spec fn kind(&self) -> Kind {
        match self {
            Message::RangeScan(_) => Kind::RangeScan,
            Message::PointCloud(_) => Kind::PointCloud,
            Message::OccupancyMap(_) => Kind::OccupancyMap,
            Message::MarkerSet(_) => Kind::MarkerSet,
            Message::Footprint(_) => Kind::Footprint,
        }
    }

    /// Whether the fields of the message agree with each other. Only scans and
    /// maps can disagree with themselves.
    pub open spec fn well_formed(&self) -> bool {
        match self {
            Message::RangeScan(scan) => scan.well_formed(),
            Message::OccupancyMap(map) => map.well_formed(),
            _ => true,
        }
    }

    /// The kind of the message.
    pub fn kind_of(&self) -> (kind: Kind)
        ensures
            kind == self.kind(),
    {
        match self {
            Message::RangeScan(_) => Kind::RangeScan,
            Message::PointCloud(_) => Kind::PointCloud,
            Message::OccupancyMap(_) => Kind::OccupancyMap,
            Message::MarkerSet(_) => Kind::MarkerSet,
            Message::Footprint(_) => Kind::Footprint,
        }
    }

    /// Whether the fields of the message agree with each other.
    pub fn is_well_formed(&self) -> (ok: bool)
        ensures
            ok == self.well_formed(),
    {
        match self {
            Message::RangeScan(scan) => scan.is_well_formed(),
            Message::OccupancyMap(map) => map.is_well_formed(),
            _ => true,
        }
    }

    /// The frame the message is expressed in and the time it was taken.
    pub open spec fn header_of(&self) -> Header {
        match self {
            Message::RangeScan(m) => m.header,
            Message::PointCloud(m) => m.header,
            Message::OccupancyMap(m) => m.header,
            Message::MarkerSet(m) => m.header,
            Message::Footprint(m) => m.header,
        }
    }

    /// The frame the message is expressed in and the time it was taken.
    pub fn header(&self) -> (header: &Header)
        ensures
            *header == self.header_of(),
    {
        match self {
            Message::RangeScan(m) => &m.header,
            Message::PointCloud(m) => &m.header,
            Message::OccupancyMap(m) => &m.header,
            Message::MarkerSet(m) => &m.header,
            Message::Footprint(m) => &m.header,
        }
    }
}

} // verus!
