//! Registered physical devices: an axis-aligned bounding box with an
//! eagerly computed center, loaded once and read-only at runtime.

use vstd::prelude::*;
use crate::error::GError;
use crate::math::{div_trunc, in_coord_range, Vec3};

verus! {

/// The center of a box, each component the truncating average of the
/// two corners.
pub open spec fn box_center(min: Vec3, max: Vec3) -> Vec3 {
    Vec3 {
        x: div_trunc(min.x + max.x, 2) as i64,
        y: div_trunc(min.y + max.y, 2) as i64,
        z: div_trunc(min.z + max.z, 2) as i64,
    }
}

/// A registered device: name, axis-aligned bounding box, and its
/// center, computed once at construction.
#[derive(Debug, Clone)]
pub struct Device {
    pub name: String,
    min: Vec3,
    max: Vec3,
    center: Vec3,
}

impl Device {
    /// The configured device name.
    pub closed spec fn spec_name(&self) -> Seq<char> {
        self.name@
    }

    /// The lower corner of the bounding box.
    pub closed spec fn spec_min(&self) -> Vec3 {
        self.min
    }

    /// The upper corner of the bounding box.
    pub closed spec fn spec_max(&self) -> Vec3 {
        self.max
    }

    /// The cached center.
    pub closed spec fn spec_center(&self) -> Vec3 {
        self.center
    }

    /// Corners in range, ordered per axis, and the cached center is
    /// the box center.
    pub open spec fn wf(&self) -> bool {
        &&& in_coord_range(self.spec_min())
        &&& in_coord_range(self.spec_max())
        &&& self.spec_min().x <= self.spec_max().x
        &&& self.spec_min().y <= self.spec_max().y
        &&& self.spec_min().z <= self.spec_max().z
        &&& self.spec_center() == box_center(self.spec_min(), self.spec_max())
    }

    /// The configuration bounds a device's corners must satisfy.
    pub open spec fn corners_valid(min: Vec3, max: Vec3) -> bool {
        &&& in_coord_range(min)
        &&& in_coord_range(max)
        &&& min.x <= max.x
        &&& min.y <= max.y
        &&& min.z <= max.z
    }

    /// Builds a device from its configured corners, computing the
    /// center eagerly; a disordered or out-of-range box is a fatal
    /// configuration error.
    pub fn new(name: String, min: Vec3, max: Vec3) -> (r: Result<Device, GError>)
        ensures
            Device::corners_valid(min, max) ==> matches!(r, Ok(_)),
            !Device::corners_valid(min, max) ==> r == Err::<Device, GError>(GError::ConfigError),
            match r {
                Ok(d) => {
                    &&& d.spec_name() == name@
                    &&& d.spec_min() == min
                    &&& d.spec_max() == max
                    &&& d.wf()
                },
                Err(e) => e == GError::ConfigError,
            },
    {
        let lo = -crate::math::MAX_COORD;
        let hi = crate::math::MAX_COORD;
        let in_range = lo <= min.x && min.x <= hi && lo <= min.y && min.y <= hi && lo <= min.z
            && min.z <= hi && lo <= max.x && max.x <= hi && lo <= max.y && max.y <= hi && lo
            <= max.z && max.z <= hi;
        if !(in_range && min.x <= max.x && min.y <= max.y && min.z <= max.z) {
            return Err(GError::ConfigError);
        }
        let center = Vec3 {
            x: (min.x + max.x) / 2,
            y: (min.y + max.y) / 2,
            z: (min.z + max.z) / 2,
        };
        Ok(Device { name, min, max, center })
    }

    /// The center of the bounding box, cached at construction.
    pub fn pos_mean(&self) -> (r: &Vec3)
        ensures
            *r == self.spec_center(),
    {
        &self.center
    }

    /// The device's world position: the center of its bounding box.
    pub fn pos(&self) -> (r: &Vec3)
        ensures
            *r == self.spec_center(),
    {
        &self.center
    }

    /// The bounding box as its two corners.
    pub fn bounding_box(&self) -> (r: (Vec3, Vec3))
        ensures
            r.0 == self.spec_min(),
            r.1 == self.spec_max(),
    {
        (self.min, self.max)
    }
}

} // verus!
