//! Records produced by the head-detection worker.

use vstd::prelude::*;
use crate::HasImagePosition;

verus! {

/// One detected head position in the frame, in fixed-point pixel units.
#[derive(Debug, Clone, Copy)]
pub struct HeadPrediction {
    pub x: i64,
    pub y: i64,
}

impl HasImagePosition for HeadPrediction {
    open spec fn spec_image_x(&self) -> i64 {
        self.x
    }

    open spec fn spec_image_y(&self) -> i64 {
        self.y
    }

    fn image_x(&self) -> (r: i64) {
        self.x
    }

    fn image_y(&self) -> (r: i64) {
        self.y
    }
}

/// One frame's batch of head-detection records, ordered as the worker
/// enumerated the subjects.
pub struct HeadPreds {
    pub prediction: Vec<HeadPrediction>,
}

impl HeadPreds {
    pub fn new() -> (r: HeadPreds)
        ensures
            r.prediction@ == Seq::<HeadPrediction>::empty(),
    {
        HeadPreds { prediction: Vec::new() }
    }
}

} // verus!
