use vstd::prelude::*;

verus! {

/// Noise depth units in 1.0 of the noise scale.
pub const DEPTH_SCALE: i64 = 1000;

/// The terrain band of a cell, each drawn with a fixed fill color.
#[derive(Clone, Copy, Debug, PartialEq, Eq)]
pub enum TerrainColor {
    DeepWater,
    ShallowWater,
    Sand,
    Grass,
    Meadow,
    Rock,
    Snow,
}

/// The band for a noise depth given in `DEPTH_SCALE` units.
pub open spec fn band_of(depth: int) -> TerrainColor {
    if depth < -500 {
        TerrainColor::DeepWater
    } else if depth < 0 {
        TerrainColor::ShallowWater
    } else if depth < 100 {
        TerrainColor::Sand
    } else if depth < 400 {
        TerrainColor::Grass
    } else if depth < 600 {
        TerrainColor::Meadow
    } else if depth < 800 {
        TerrainColor::Rock
    } else {
        TerrainColor::Snow
    }
}

/// Picks the terrain band for a noise depth sample (in `DEPTH_SCALE` units).
pub fn terrain_color(depth: i64) -> (c: TerrainColor)
    ensures
        c == band_of(depth as int),
{
    if depth < -500 {
        TerrainColor::DeepWater
    } else if depth < 0 {
        TerrainColor::ShallowWater
    } else if depth < 100 {
        TerrainColor::Sand
    } else if depth < 400 {
        TerrainColor::Grass
    } else if depth < 600 {
        TerrainColor::Meadow
    } else if depth < 800 {
        TerrainColor::Rock
    } else {
        TerrainColor::Snow
    }
}

} // verus!
