//! Records produced by the head-pose-estimation worker.

use vstd::prelude::*;
use crate::HasImagePosition;
use crate::math::Quat;

verus! {

/// One estimated head pose: the head position in the frame (fixed-point
/// pixel units) and the head orientation quaternion.
#[derive(Debug, Clone, Copy)]
pub struct HpePrediction {
    pub x: i64,
    pub y: i64,
    pub orientation: Quat,
}

impl HpePrediction {
    /// The estimated head orientation.
    pub fn quat(&self) -> (r: Quat)
        ensures
            r == self.orientation,
    {
        self.orientation
    }
}

impl HasImagePosition for HpePrediction {
    open spec fn spec_image_x(&self) -> i64 {
        self.x
    }

    open spec fn spec_image_y(&self) -> i64 {
        self.y
    }

    fn image_x(&self) -> (r: i64) {
        self.x
    }

    fn image_y(&self) -> (r: i64) {
        self.y
    }
}

/// One frame's batch of head-pose records, ordered as the worker
/// enumerated the subjects.
pub struct HPEPreds {
    pub prediction: Vec<HpePrediction>,
}

impl HPEPreds {
    pub fn new() -> (r: HPEPreds)
        ensures
            r.prediction@ == Seq::<HpePrediction>::empty(),
    {
        HPEPreds { prediction: Vec::new() }
    }
}

} // verus!
