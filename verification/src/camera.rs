//! Camera calibration: pixel formats and the per-camera configuration
//! the geometry stages consume.

use vstd::prelude::*;
use crate::math::{Quat, Vec3, in_coord_range, MAX_COORD};

verus! {

/// Pixel format a camera delivers frames in.
#[derive(Debug, Clone, Copy, PartialEq, Eq, Structural)]
pub enum Format {
    RGB888,
    YUYV,
}

impl Format {
    /// The four-character code identifying the format on the wire:
    /// "RG24" for RGB888 and "YUYV" for YUYV, both read little-endian.
    pub fn fourcc(&self) -> (r: u32)
        ensures
            *self == Format::RGB888 ==> r == 875710290,
            *self == Format::YUYV ==> r == 1448695129,
    {
        match self {
            Format::RGB888 => 875710290,
            Format::YUYV => 1448695129,
        }
    }

    /// How many planes a frame of this format carries.
    pub fn planes(&self) -> (r: u32)
        ensures
            *self == Format::RGB888 ==> r == 3,
            *self == Format::YUYV ==> r == 2,
    {
        match self {
            Format::RGB888 => 3,
            Format::YUYV => 2,
        }
    }
}

/// Calibration of one camera: world position, orientation, frame
/// dimensions and the focal length (in the same doubled pixel units as
/// the centered image coordinates) that maps a centered pixel to the
/// tangent of its viewing angle. Immutable after load.
#[derive(Debug, Clone, Copy)]
pub struct CameraConfig {
    pub position: Vec3,
    pub orientation: Quat,
    pub img_width: i64,
    pub img_height: i64,
    pub focal: i64,
    pub format: Format,
}

impl CameraConfig {
    pub open spec fn wf(&self) -> bool {
        &&& in_coord_range(self.position)
        &&& self.orientation.wf()
        &&& 0 <= self.img_width <= MAX_COORD
        &&& 0 <= self.img_height <= MAX_COORD
        &&& 0 < self.focal <= 4 * MAX_COORD
    }
}

} // verus!
