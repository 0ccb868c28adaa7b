//! Records produced by the gesture-recognition worker.

use vstd::prelude::*;
use crate::HasImagePosition;

verus! {

/// Gesture state reported for one subject.
#[derive(Debug, Clone, Copy, PartialEq, Eq, Structural)]
pub enum Gesture {
    Toggle,
    Inactive,
}

impl Gesture {
    pub fn is_toggle(&self) -> (r: bool)
        ensures
            r == (*self == Gesture::Toggle),
    {
        match self {
            Gesture::Toggle => true,
            _ => false,
        }
    }

    pub fn is_none(&self) -> (r: bool)
        ensures
            r == (*self == Gesture::Inactive),
    {
        match self {
            Gesture::Inactive => true,
            _ => false,
        }
    }
}

/// One detected subject: nose position in the frame (fixed-point pixel
/// units) and the recognized gesture state.
#[derive(Debug, Clone, Copy)]
pub struct GesturePrediction {
    pub nose_x: i64,
    pub nose_y: i64,
    pub gesture: Gesture,
}

impl HasImagePosition for GesturePrediction {
    open spec fn spec_image_x(&self) -> i64 {
        self.nose_x
    }

    open spec fn spec_image_y(&self) -> i64 {
        self.nose_y
    }

    fn image_x(&self) -> (r: i64) {
        self.nose_x
    }

    fn image_y(&self) -> (r: i64) {
        self.nose_y
    }
}

/// One frame's batch of gesture records, ordered as the worker
/// enumerated the subjects.
pub struct GesturePreds {
    pub prediction: Vec<GesturePrediction>,
}

impl GesturePreds {
    pub fn new() -> (r: GesturePreds)
        ensures
            r.prediction@ == Seq::<GesturePrediction>::empty(),
    {
        GesturePreds { prediction: Vec::new() }
    }
}

} // verus!
