//! Per-frame orchestration: the gesture gate and the fusion of the
//! aligned per-camera batches into device decisions.
//!
//! The runtime drives one cycle as: receive the gesture and
//! head-detection batches, ask `gesture_gate`, and only when it allows
//! submit the frame to the head-pose worker, so that the head-pose
//! request and all triangulation and line-of-sight work are skipped on
//! intent-free frames (the short-circuit). When it allows, the three
//! batches are aligned with `align::sort_align` and fused index-wise
//! with `fuse_cycle`.

use vstd::prelude::*;
use crate::align::{sort_align, stable_sorted};
use crate::camera::CameraConfig;
use crate::devices::Device;
use crate::gesture_recognition::{Gesture, GesturePrediction};
use crate::head_detection::HeadPrediction;
use crate::hpe::HpePrediction;
use crate::math::{
    spec_calc_position, spec_closest, spec_get_los, calc_position, get_closest_device_in_los,
    get_los, Theta, MAX_COORD, MAX_QUAT, MAX_QUAT_DEN,
};
use crate::{HasImagePosition, ImageCoords};

verus! {

/// Whether any subject in the batch shows an actionable gesture.
pub open spec fn spec_any_toggle(s: Seq<GesturePrediction>) -> bool {
    exists|i: int| 0 <= i < s.len() && (#[trigger] s[i]).gesture == Gesture::Toggle
}

/// The admission test of a cycle: true exactly when some record of the
/// cycle's gesture batch carries the Toggle state. A cycle where this
/// returns false is short-circuited: the runtime never submits the
/// head-pose request for it.
pub fn gesture_gate(gestures: &Vec<GesturePrediction>) -> (r: bool)
    ensures
        r == spec_any_toggle(gestures@),
{
    let mut i: usize = 0;
    while i < gestures.len()
        invariant
            i <= gestures@.len(),
            forall|j: int| 0 <= j < i ==> (#[trigger] gestures@[j]).gesture != Gesture::Toggle,
        decreases gestures@.len() - i,
    {
        if gestures[i].gesture.is_toggle() {
            return true;
        }
        i = i + 1;
    }
    false
}

/// The decision emitted for one subject: the selected device's index in
/// the registry, if any device lies in the line of sight, and the
/// subject's gesture.
#[derive(Debug, Clone, Copy)]
pub struct Decision {
    pub device: Option<usize>,
    pub gesture: Gesture,
}

/// A frame coordinate the geometry stages can accept.
pub open spec fn in_frame(x: i64, y: i64) -> bool {
    &&& -MAX_COORD <= x <= MAX_COORD
    &&& -MAX_COORD <= y <= MAX_COORD
}

/// What one aligned subject index yields. A subject without the Toggle
/// state is skipped. A record whose coordinates or orientation leave
/// the supported range, or whose triangulation or line of sight is
/// ill-conditioned, is skipped in isolation: it never aborts the cycle.
pub open spec fn spec_fuse_subject(
    g: GesturePrediction,
    h: HeadPrediction,
    p: HpePrediction,
    cam1: CameraConfig,
    cam2: CameraConfig,
    devices: Seq<Device>,
) -> Option<Decision> {
    if g.gesture != Gesture::Toggle {
        Option::None
    } else if !in_frame(g.nose_x, g.nose_y) || !in_frame(h.x, h.y) || !p.orientation.wf() {
        Option::None
    } else {
        let c1 = ImageCoords { x: g.nose_x, y: g.nose_y, w: cam1.img_width, h: cam1.img_height };
        let c2 = ImageCoords { x: h.x, y: h.y, w: cam2.img_width, h: cam2.img_height };
        match spec_calc_position(cam1, c1, cam2, c2) {
            Option::None => Option::None,
            Option::Some(pos) => match spec_get_los(cam1, pos, p.orientation) {
                Option::None => Option::None,
                Option::Some(ray) => Some(
                    Decision {
                        device: match spec_closest(devices, ray) {
                            Option::None => Option::None,
                            Option::Some(k) => Some(k as usize),
                        },
                        gesture: g.gesture,
                    },
                ),
            },
        }
    }
}

/// Fuses one aligned subject: triangulates the gesture and
/// head-detection points, builds the line of sight from the head pose,
/// and resolves the device it selects.
pub fn fuse_subject(
    g: &GesturePrediction,
    h: &HeadPrediction,
    p: &HpePrediction,
    cam1: &CameraConfig,
    cam2: &CameraConfig,
    devices: &Vec<Device>,
) -> (r: Option<Decision>)
    requires
        cam1.wf(),
        cam2.wf(),
        forall|j: int| 0 <= j < devices@.len() ==> (#[trigger] devices@[j]).wf(),
    ensures
        r == spec_fuse_subject(*g, *h, *p, *cam1, *cam2, devices@),
{
    if !g.gesture.is_toggle() {
        return None;
    }
    let m = MAX_COORD;
    if g.nose_x < -m || g.nose_x > m || g.nose_y < -m || g.nose_y > m {
        return None;
    }
    if h.x < -m || h.x > m || h.y < -m || h.y > m {
        return None;
    }
    let q = &p.orientation;
    if q.x < -MAX_QUAT || q.x > MAX_QUAT || q.y < -MAX_QUAT || q.y > MAX_QUAT || q.z < -MAX_QUAT
        || q.z > MAX_QUAT || q.w < -MAX_QUAT || q.w > MAX_QUAT || q.den <= 0 || q.den
        > MAX_QUAT_DEN {
        return None;
    }
    let c1 = g.image_coords(cam1.img_width, cam1.img_height);
    let c2 = h.image_coords(cam2.img_width, cam2.img_height);
    let pos = match calc_position(cam1, &c1, cam2, &c2) {
        Ok(v) => v,
        Err(_) => {
            return None;
        },
    };
    let ray = match get_los(cam1, &pos, &p.orientation) {
        Ok(ray) => ray,
        Err(_) => {
            return None;
        },
    };
    let device = get_closest_device_in_los(devices, &ray);
    Some(Decision { device, gesture: g.gesture })
}

/// The decisions of the first `n` aligned subject indices, in index
/// order, skipped subjects omitted.
pub open spec fn spec_fuse_upto(
    g: Seq<GesturePrediction>,
    h: Seq<HeadPrediction>,
    p: Seq<HpePrediction>,
    cam1: CameraConfig,
    cam2: CameraConfig,
    devices: Seq<Device>,
    n: int,
) -> Seq<Decision>
    decreases n,
{
    if n <= 0 {
        Seq::empty()
    } else {
        spec_fuse_upto(g, h, p, cam1, cam2, devices, n - 1) + match spec_fuse_subject(
            g[n - 1],
            h[n - 1],
            p[n - 1],
            cam1,
            cam2,
            devices,
        ) {
            Option::Some(d) => seq![d],
            Option::None => Seq::empty(),
        }
    }
}

/// The smaller of three batch lengths: batches are fused index-wise up
/// to the shortest batch only; surplus detections are dropped.
pub open spec fn spec_min3(a: int, b: int, c: int) -> int {
    if a <= b && a <= c {
        a
    } else if b <= c {
        b
    } else {
        c
    }
}

/// All decisions of one cycle's aligned batches.
pub open spec fn spec_fuse_cycle(
    g: Seq<GesturePrediction>,
    h: Seq<HeadPrediction>,
    p: Seq<HpePrediction>,
    cam1: CameraConfig,
    cam2: CameraConfig,
    devices: Seq<Device>,
) -> Seq<Decision> {
    spec_fuse_upto(
        g,
        h,
        p,
        cam1,
        cam2,
        devices,
        spec_min3(g.len() as int, h.len() as int, p.len() as int),
    )
}

/// Fuses the aligned batches index-wise, up to the shortest batch. One
/// subject's geometry failure is isolated: it is skipped, and the other
/// subjects of the cycle are still resolved.
pub fn fuse_cycle(
    gestures: &Vec<GesturePrediction>,
    heads: &Vec<HeadPrediction>,
    poses: &Vec<HpePrediction>,
    cam1: &CameraConfig,
    cam2: &CameraConfig,
    devices: &Vec<Device>,
) -> (r: Vec<Decision>)
    requires
        cam1.wf(),
        cam2.wf(),
        forall|j: int| 0 <= j < devices@.len() ==> (#[trigger] devices@[j]).wf(),
    ensures
        r@ == spec_fuse_cycle(gestures@, heads@, poses@, *cam1, *cam2, devices@),
{
    let mut n = gestures.len();
    if heads.len() < n {
        n = heads.len();
    }
    if poses.len() < n {
        n = poses.len();
    }
    assert(n as int == spec_min3(
        gestures@.len() as int,
        heads@.len() as int,
        poses@.len() as int,
    ));
    let mut out: Vec<Decision> = Vec::new();
    let mut i: usize = 0;
    while i < n
        invariant
            cam1.wf(),
            cam2.wf(),
            forall|j: int| 0 <= j < devices@.len() ==> (#[trigger] devices@[j]).wf(),
            i <= n,
            n <= gestures@.len(),
            n <= heads@.len(),
            n <= poses@.len(),
            out@ == spec_fuse_upto(gestures@, heads@, poses@, *cam1, *cam2, devices@, i as int),
        decreases n - i,
    {
        match fuse_subject(&gestures[i], &heads[i], &poses[i], cam1, cam2, devices) {
            Some(d) => {
                out.push(d);
            },
            None => {},
        }
        i = i + 1;
    }
    out
}

/// What one whole cycle emits: nothing at all on an intent-free frame
/// (the short-circuit), otherwise exactly the fusion of the three
/// batches after each is stably aligned by the inter-camera key.
pub open spec fn cycle_emits(
    gestures: Seq<GesturePrediction>,
    heads: Seq<HeadPrediction>,
    poses: Seq<HpePrediction>,
    cam1: CameraConfig,
    cam2: CameraConfig,
    devices: Seq<Device>,
    th: Theta,
    out: Seq<Decision>,
) -> bool {
    if !spec_any_toggle(gestures) {
        out == Seq::<Decision>::empty()
    } else {
        exists|g2: Seq<GesturePrediction>, h2: Seq<HeadPrediction>, p2: Seq<HpePrediction>|
            {
                &&& #[trigger] stable_sorted(gestures, g2, th)
                &&& #[trigger] stable_sorted(heads, h2, th)
                &&& #[trigger] stable_sorted(poses, p2, th)
                &&& out == spec_fuse_cycle(g2, h2, p2, cam1, cam2, devices)
            }
    }
}

/// Copies a batch so the caller's original order is untouched.
fn copy_batch<T: Copy>(v: &Vec<T>) -> (r: Vec<T>)
    ensures
        r@ == v@,
{
    let mut r: Vec<T> = Vec::new();
    let mut i: usize = 0;
    while i < v.len()
        invariant
            i <= v@.len(),
            r@ == v@.subrange(0, i as int),
        decreases v@.len() - i,
    {
        r.push(v[i]);
        i = i + 1;
        assert(r@ =~= v@.subrange(0, i as int));
    }
    assert(v@.subrange(0, v@.len() as int) =~= v@);
    r
}

/// Runs one cycle's decision logic on the batches the workers
/// returned: gate, stable alignment of each batch, index-wise fusion.
/// When no subject toggles, the cycle short-circuits and emits nothing.
pub fn run_cycle(
    gestures: &Vec<GesturePrediction>,
    heads: &Vec<HeadPrediction>,
    poses: &Vec<HpePrediction>,
    cam1: &CameraConfig,
    cam2: &CameraConfig,
    devices: &Vec<Device>,
    th: &Theta,
) -> (r: Vec<Decision>)
    requires
        cam1.wf(),
        cam2.wf(),
        th.wf(),
        forall|j: int| 0 <= j < devices@.len() ==> (#[trigger] devices@[j]).wf(),
    ensures
        cycle_emits(gestures@, heads@, poses@, *cam1, *cam2, devices@, *th, r@),
{
    if !gesture_gate(gestures) {
        let r: Vec<Decision> = Vec::new();
        assert(r@ =~= Seq::<Decision>::empty());
        return r;
    }
    let mut g2 = copy_batch(gestures);
    let mut h2 = copy_batch(heads);
    let mut p2 = copy_batch(poses);
    sort_align(&mut g2, th);
    sort_align(&mut h2, th);
    sort_align(&mut p2, th);
    let out = fuse_cycle(&g2, &h2, &p2, cam1, cam2, devices);
    proof {
        assert(stable_sorted(gestures@, g2@, *th));
        assert(stable_sorted(heads@, h2@, *th));
        assert(stable_sorted(poses@, p2@, *th));
    }
    out
}

} // verus!
