//! The values that the analyzers publish.

use vstd::prelude::*;

verus! {

/// Where the largest detected face lies in the frame, in pixels.
#[derive(Clone, Copy, Debug, PartialEq, Eq)]
pub struct FacePosition {
    /// Timestamp of the frame the face was found in.
    pub timestamp: u64,
    /// `(x, y)` of the box corner nearest the origin.
    pub bottom_left: (u32, u32),
    /// `(x, y)` of the opposite corner.
    pub top_right: (u32, u32),
}

impl Default for FacePosition {
    fn default() -> (r: Self)
        ensures
            r == (FacePosition { timestamp: 0, bottom_left: (0, 0), top_right: (0, 0) }),
    {
        FacePosition { timestamp: 0, bottom_left: (0, 0), top_right: (0, 0) }
    }
}

/// Brightness statistics of one frame.
///
/// Each measure is carried as the bit pattern of its single-precision value,
/// so that the exchange can copy and compare it exactly; the all-zero pattern
/// is the value zero.
#[derive(Clone, Copy, Debug, PartialEq, Eq)]
pub struct Luminosity {
    /// Timestamp of the frame the statistics were taken from.
    pub timestamp: u64,
    pub average: u32,
    pub standard_deviation: u32,
    pub max: u32,
    pub min: u32,
}

impl Default for Luminosity {
    fn default() -> (r: Self)
        ensures
            r == (Luminosity {
                timestamp: 0,
                average: 0,
                standard_deviation: 0,
                max: 0,
                min: 0,
            }),
    {
        Luminosity { timestamp: 0, average: 0, standard_deviation: 0, max: 0, min: 0 }
    }
}

} // verus!
