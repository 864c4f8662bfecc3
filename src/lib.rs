//! A grid of flat-topped hexagonal cells: construction, point-in-polygon
//! hit-testing, single-cell selection and the camera transform used to pick
//! cells under pan and zoom.
//!
//! Every length and coordinate is an integer count of sub-pixel units
//! (`UNITS_PER_PIXEL` of them to a pixel), so that all geometry is exact.

pub mod geometry;
pub mod terrain;
pub mod hexagon;
pub mod hexgrid;
pub mod camera;
pub mod game;

pub use geometry::{Point, UNITS_PER_PIXEL, COORD_LIMIT, CORNER_LIMIT};
pub use terrain::{TerrainColor, terrain_color, DEPTH_SCALE};
pub use hexagon::Hexagon;
pub use hexgrid::{Hexgrid, DrawCommand};
pub use camera::{Camera, DrawTransform, ZOOM_ONE, ZOOM_MIN, ZOOM_MAX};
pub use game::{Game, Key, MouseButton, WindowSettings, GRID_WIDTH, GRID_HEIGHT, CELL_RADIUS};
