//! Fusion core for a gesture-driven device selector: length-framed IPC
//! messages, a worker-role registry with a readiness barrier, cross-camera
//! detection alignment, stereo triangulation and ray/volume device
//! resolution, all over fixed-point integer coordinates.
//!
//! Geometry is carried in fixed-point units: callers pick one scale (for
//! example 1024 units per meter) and use it consistently for positions,
//! image coordinates and device corners; quaternions carry their own
//! integer scale and denominator.

use vstd::prelude::*;

pub mod align;
pub mod camera;
pub mod devices;
pub mod error;
pub mod framing;
pub mod gesture_recognition;
pub mod head_detection;
pub mod hpe;
pub mod math;
pub mod pipeline;

pub use error::GError;
pub use gesture_recognition::{Gesture, GesturePrediction, GesturePreds};
pub use hpe::{HPEPreds, HpePrediction};

verus! {

use crate::math::MAX_COORD;

/// A pixel point within a frame of known dimensions, all in the caller's
/// fixed-point units. The frame-centered coordinate derived from it is
/// what the alignment and back-projection stages consume.
pub struct ImageCoords {
    pub x: i64,
    pub y: i64,
    pub w: i64,
    pub h: i64,
}

impl ImageCoords {
    /// Frame width in fixed-point units.
    pub open spec fn spec_w(&self) -> i64 {
        self.w
    }

    /// Frame height in fixed-point units.
    pub open spec fn spec_h(&self) -> i64 {
        self.h
    }

    /// All coordinates small enough for the geometry stages.
    pub open spec fn wf(&self) -> bool {
        &&& -MAX_COORD <= self.x <= MAX_COORD
        &&& -MAX_COORD <= self.y <= MAX_COORD
        &&& 0 <= self.spec_w() <= MAX_COORD
        &&& 0 <= self.spec_h() <= MAX_COORD
    }

    pub fn new(x: i64, y: i64, w: i64, h: i64) -> (r: ImageCoords)
        requires
            -MAX_COORD <= x <= MAX_COORD,
            -MAX_COORD <= y <= MAX_COORD,
            0 <= w <= MAX_COORD,
            0 <= h <= MAX_COORD,
        ensures
            r.x == x && r.y == y && r.spec_w() == w && r.spec_h() == h,
            r.wf(),
    {
        ImageCoords { x, y, w, h }
    }

    pub fn x_max(&self) -> (r: i64)
        ensures
            r == self.spec_w(),
    {
        self.w
    }

    pub fn y_max(&self) -> (r: i64)
        ensures
            r == self.spec_h(),
    {
        self.h
    }

    /// Horizontal frame center, rounded toward zero.
    pub fn x_mid(&self) -> (r: i64)
        requires
            self.wf(),
        ensures
            r == self.spec_w() / 2,
    {
        self.w / 2
    }

    /// Vertical frame center, rounded toward zero.
    pub fn y_mid(&self) -> (r: i64)
        requires
            self.wf(),
        ensures
            r == self.spec_h() / 2,
    {
        self.h / 2
    }

    /// The point relative to the frame center.
    pub fn coords_from_mid(&self) -> (r: (i64, i64))
        requires
            self.wf(),
        ensures
            r.0 == self.x - self.spec_w() / 2,
            r.1 == self.y - self.spec_h() / 2,
    {
        (self.x - self.w / 2, self.y - self.h / 2)
    }
}

/// One perception role, 1:1 with a registered worker connection.
#[derive(Debug, Clone, Copy, PartialEq, Eq, Structural)]
pub enum Model {
    HPE,
    GestureRecognition,
    HeadDetection,
}

/// The role named by a handshake token, if the token belongs to the
/// fixed vocabulary: "hpe" or "directmhp" for head-pose estimation,
/// "ge" or "gesture" for gesture recognition, "head" for head detection.
pub open spec fn role_of(t: Seq<u8>) -> Option<Model> {
    if t == "hpe"@.map_values(|c: char| c as u8) || t == "directmhp"@.map_values(
        |c: char| c as u8,
    ) {
        Some(Model::HPE)
    } else if t == "ge"@.map_values(|c: char| c as u8) || t == "gesture"@.map_values(
        |c: char| c as u8,
    ) {
        Some(Model::GestureRecognition)
    } else if t == "head"@.map_values(|c: char| c as u8) {
        Some(Model::HeadDetection)
    } else {
        None
    }
}

/// Whether two byte slices hold the same bytes.
pub fn bytes_eq(a: &[u8], b: &[u8]) -> (r: bool)
    ensures
        r == (a@ == b@),
{
    if a.len() != b.len() {
        return false;
    }
    let mut i: usize = 0;
    while i < a.len()
        invariant
            i <= a@.len(),
            a@.len() == b@.len(),
            forall|j: int| 0 <= j < i ==> a@[j] == b@[j],
        decreases a@.len() - i,
    {
        if a[i] != b[i] {
            return false;
        }
        i = i + 1;
    }
    proof {
        assert(a@ =~= b@);
    }
    true
}

impl Model {
    /// Parses a handshake token; an unrecognized token is a fatal
    /// configuration error.
    pub fn from_token(token: &[u8]) -> (r: Result<Model, GError>)
        ensures
            match role_of(token@) {
                Some(m) => r == Ok::<Model, GError>(m),
                None => r == Err::<Model, GError>(GError::ConfigError),
            },
    {
        let hpe: Vec<u8> = vec![104, 112, 101];
        let directmhp: Vec<u8> = vec![100, 105, 114, 101, 99, 116, 109, 104, 112];
        let ge: Vec<u8> = vec![103, 101];
        let gesture: Vec<u8> = vec![103, 101, 115, 116, 117, 114, 101];
        let head: Vec<u8> = vec![104, 101, 97, 100];
        proof {
            reveal_strlit("hpe");
            reveal_strlit("directmhp");
            reveal_strlit("ge");
            reveal_strlit("gesture");
            reveal_strlit("head");
            assert(hpe@ =~= "hpe"@.map_values(|c: char| c as u8));
            assert(directmhp@ =~= "directmhp"@.map_values(|c: char| c as u8));
            assert(ge@ =~= "ge"@.map_values(|c: char| c as u8));
            assert(gesture@ =~= "gesture"@.map_values(|c: char| c as u8));
            assert(head@ =~= "head"@.map_values(|c: char| c as u8));
        }
        if bytes_eq(token, hpe.as_slice()) || bytes_eq(token, directmhp.as_slice()) {
            Ok(Model::HPE)
        } else if bytes_eq(token, ge.as_slice()) || bytes_eq(token, gesture.as_slice()) {
            Ok(Model::GestureRecognition)
        } else if bytes_eq(token, head.as_slice()) {
            Ok(Model::HeadDetection)
        } else {
            Err(GError::ConfigError)
        }
    }

    /// The canonical short name of the role.
    pub fn label(&self) -> (r: &'static str)
        ensures
            *self == Model::HPE ==> r@ == "hpe"@,
            *self == Model::GestureRecognition ==> r@ == "gesture"@,
            *self == Model::HeadDetection ==> r@ == "head"@,
    {
        match self {
            Model::HPE => "hpe",
            Model::GestureRecognition => "gesture",
            Model::HeadDetection => "head",
        }
    }
}

/// Registry of worker connections, one slot per role, with the startup
/// readiness barrier. `T` is whatever handle the runtime keeps for a
/// registered worker (a proxy owning queues and a stream).
pub struct Models<T> {
    num: usize,
    hpe: Option<T>,
    gesture: Option<T>,
    head: Option<T>,
}

impl<T> Models<T> {
    /// How many roles must register before the registry is ready.
    pub closed spec fn req_count(&self) -> int {
        self.num as int
    }

    /// The handle registered for a role, if any.
    pub closed spec fn slot(&self, m: Model) -> Option<T> {
        match m {
            Model::HPE => self.hpe,
            Model::GestureRecognition => self.gesture,
            Model::HeadDetection => self.head,
        }
    }

    /// Whether a role has registered.
    pub open spec fn registered(&self, m: Model) -> bool {
        self.slot(m) is Some
    }

    /// The number of registered roles.
    pub open spec fn count(&self) -> int {
        (if self.registered(Model::HPE) {
            1int
        } else {
            0int
        }) + (if self.registered(Model::GestureRecognition) {
            1int
        } else {
            0int
        }) + (if self.registered(Model::HeadDetection) {
            1int
        } else {
            0int
        })
    }

    /// The readiness barrier: open exactly when every required role has
    /// registered.
    pub open spec fn spec_ready(&self) -> bool {
        self.count() >= self.req_count()
    }

    pub fn new(num: usize) -> (r: Models<T>)
        ensures
            r.req_count() == num as int,
            forall|m: Model| !r.registered(m),
            r.count() == 0,
    {
        let r = Models::<T> { num, hpe: None, gesture: None, head: None };
        proof {
            assert(!r.registered(Model::HPE));
            assert(!r.registered(Model::GestureRecognition));
            assert(!r.registered(Model::HeadDetection));
            assert forall|m: Model| !r.registered(m) by {
                match m {
                    Model::HPE => {},
                    Model::GestureRecognition => {},
                    Model::HeadDetection => {},
                }
            }
        }
        r
    }

    /// Registers a handle for a role. Registering a role a second time
    /// replaces the earlier handle and does not raise the count.
    pub fn add(&mut self, model: Model, handle: T)
        ensures
            final(self).req_count() == old(self).req_count(),
            final(self).slot(model) == Some(handle),
            forall|m: Model| m != model ==> final(self).slot(m) == old(self).slot(m),
            final(self).count() == old(self).count() + (if old(self).registered(model) {
                0int
            } else {
                1int
            }),
    {
        match model {
            Model::HPE => {
                self.hpe = Some(handle);
            },
            Model::GestureRecognition => {
                self.gesture = Some(handle);
            },
            Model::HeadDetection => {
                self.head = Some(handle);
            },
        }
        proof {
            assert forall|m: Model| m != model implies final(self).slot(m) == old(self).slot(
                m,
            ) by {
                match m {
                    Model::HPE => {},
                    Model::GestureRecognition => {},
                    Model::HeadDetection => {},
                }
            }
        }
    }

    /// The number of registered roles.
    pub fn len(&self) -> (r: usize)
        ensures
            r as int == self.count(),
    {
        let mut c: usize = 0;
        if self.hpe.is_some() {
            c = c + 1;
        }
        if self.gesture.is_some() {
            c = c + 1;
        }
        if self.head.is_some() {
            c = c + 1;
        }
        c
    }

    /// Whether the readiness barrier is open.
    pub fn is_ready(&self) -> (r: bool)
        ensures
            r == self.spec_ready(),
    {
        self.len() >= self.num
    }

    /// The head-pose handle, or `ModelUninit` before it registers.
    pub fn hpe(&self) -> (r: Result<&T, GError>)
        ensures
            match r {
                Ok(h) => self.slot(Model::HPE) == Some(*h),
                Err(e) => !self.registered(Model::HPE) && e == GError::ModelUninit,
            },
    {
        match &self.hpe {
            Some(h) => Ok(h),
            None => Err(GError::ModelUninit),
        }
    }

    /// The gesture handle, or `ModelUninit` before it registers.
    pub fn gesture(&self) -> (r: Result<&T, GError>)
        ensures
            match r {
                Ok(h) => self.slot(Model::GestureRecognition) == Some(*h),
                Err(e) => !self.registered(Model::GestureRecognition) && e == GError::ModelUninit,
            },
    {
        match &self.gesture {
            Some(h) => Ok(h),
            None => Err(GError::ModelUninit),
        }
    }

    /// The head-detection handle, or `ModelUninit` before it registers.
    pub fn head_detection(&self) -> (r: Result<&T, GError>)
        ensures
            match r {
                Ok(h) => self.slot(Model::HeadDetection) == Some(*h),
                Err(e) => !self.registered(Model::HeadDetection) && e == GError::ModelUninit,
            },
    {
        match &self.head {
            Some(h) => Ok(h),
            None => Err(GError::ModelUninit),
        }
    }
}

/// Readiness barrier law: registration only ever adds roles, so a
/// registry that was ready stays ready — readiness is reached at most
/// once and never reverts. Any two states where the second registers
/// every role the first does, with the same requirement, satisfy it.
pub proof fn lemma_readiness_monotone<T>(m1: Models<T>, m2: Models<T>)
    requires
        m2.req_count() == m1.req_count(),
        forall|m: Model| m1.registered(m) ==> m2.registered(m),
    ensures
        m1.count() <= m2.count(),
        m1.spec_ready() ==> m2.spec_ready(),
{
    assert(m1.registered(Model::HPE) ==> m2.registered(Model::HPE));
    assert(m1.registered(Model::GestureRecognition) ==> m2.registered(Model::GestureRecognition));
    assert(m1.registered(Model::HeadDetection) ==> m2.registered(Model::HeadDetection));
}

/// A record that carries a pixel position within a camera frame.
pub trait HasImagePosition {
    /// The horizontal pixel coordinate, in fixed-point units.
    spec fn spec_image_x(&self) -> i64;

    /// The vertical pixel coordinate, in fixed-point units.
    spec fn spec_image_y(&self) -> i64;

    fn image_x(&self) -> (r: i64)
        ensures
            r == self.spec_image_x(),
    ;

    fn image_y(&self) -> (r: i64)
        ensures
            r == self.spec_image_y(),
    ;

    /// The position as frame-anchored image coordinates.
    fn image_coords(&self, w: i64, h: i64) -> (r: ImageCoords)
        requires
            -MAX_COORD <= self.spec_image_x() <= MAX_COORD,
            -MAX_COORD <= self.spec_image_y() <= MAX_COORD,
            0 <= w <= MAX_COORD,
            0 <= h <= MAX_COORD,
        ensures
            r.x == self.spec_image_x(),
            r.y == self.spec_image_y(),
            r.spec_w() == w,
            r.spec_h() == h,
            r.wf(),
    {
        ImageCoords::new(self.image_x(), self.image_y(), w, h)
    }
}

} // verus!
