//! Terminal visualisation of a mobile robot's sensor and state streams.
//!
//! The crate holds the geometry-and-rendering core of a visualiser that shows
//! range scans, point clouds, occupancy maps, markers, the robot's footprint
//! and its pose on a text terminal, and the bounded buffer behind its log
//! panel. Keyboard, terminal, clock and message bus stay with the program
//! around it, which hands the library plain values and takes plain values
//! back.
//!
//! All geometry is done in whole numbers: lengths are whole world units,
//! angles whole millionths of a degree, sines and cosines millionths. Every
//! function states what it does in its contract and is proved against it;
//! the few calls into other crates go through trusted wrappers, each
//! documented where it stands.
//!
//! The modules, leaves first:
//!
//! - `angle`: angles and fixed-point trigonometry;
//! - `geometry`: points, poses and the transform between frames;
//! - `canvas`: the grid of cells that one tick draws into;
//! - `viewport`: the map from world coordinates to cells;
//! - `raster`, `painter`: lines without gaps, and points that hide each other;
//! - `message`: the messages of the data sources;
//! - `scan`, `occupancy`, `marker`, `footprint`, `pose_glyph`: how each kind
//!   of data is drawn, and `drawable`, which tells them apart;
//! - `registry`: one last-write-wins mailbox for each topic;
//! - `mode`, `keymap`: modes, key bindings and the actions they stand for;
//! - `render_loop`: what one tick does to the state of the display;
//! - `rosout`: the log panel's buffer.

pub mod angle;
pub mod canvas;
pub mod drawable;
pub mod footprint;
pub mod geometry;
pub mod keymap;
pub mod marker;
pub mod message;
pub mod mode;
pub mod occupancy;
pub mod painter;
pub mod pose_glyph;
pub mod raster;
pub mod registry;
pub mod render_loop;
pub mod rosout;
pub mod scan;
pub mod viewport;
