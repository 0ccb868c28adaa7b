//! Fixed-point 3D geometry: back-projection of image points into world
//! rays, two-ray triangulation, line-of-sight rays and ray/box device
//! resolution.
//!
//! All coordinates are integers in the caller's fixed-point unit. Spec
//! functions state every result as exact integer arithmetic (with
//! truncating division written out), so each executable function's
//! contract pins its result completely.

use vstd::prelude::*;

verus! {

use crate::camera::CameraConfig;
use crate::devices::Device;
use crate::error::GError;
use crate::ImageCoords;

/// Largest magnitude of a position, image coordinate or box corner.
pub const MAX_COORD: i64 = 0x100000;

/// Largest magnitude of a quaternion component.
pub const MAX_QUAT: i64 = 0x10000;

/// Largest denominator a quaternion may carry.
pub const MAX_QUAT_DEN: i64 = 0x400000000;

/// Largest magnitude of a ray-direction component.
pub const MAX_DIR: i64 = 0x800000;

/// Largest magnitude of an alignment-rotation coefficient.
pub const MAX_THETA: i64 = 0x1000000000000;

/// Length of the unrotated forward axis used for gaze rays and camera
/// forward vectors.
pub const FORWARD_LEN: i64 = 4096;

/// A point or direction in fixed-point world units.
#[derive(Debug, Clone, Copy, PartialEq, Eq, Structural)]
pub struct Vec3 {
    pub x: i64,
    pub y: i64,
    pub z: i64,
}

/// A rotation as an integer-scaled quaternion `(x, y, z, w)` together
/// with the denominator to divide by after the sandwich product —
/// for a unit rotation scaled by `s`, the denominator is `s * s`.
#[derive(Debug, Clone, Copy, PartialEq, Eq, Structural)]
pub struct Quat {
    pub x: i64,
    pub y: i64,
    pub z: i64,
    pub w: i64,
    pub den: i64,
}

impl Quat {
    pub open spec fn wf(&self) -> bool {
        &&& -MAX_QUAT <= self.x <= MAX_QUAT
        &&& -MAX_QUAT <= self.y <= MAX_QUAT
        &&& -MAX_QUAT <= self.z <= MAX_QUAT
        &&& -MAX_QUAT <= self.w <= MAX_QUAT
        &&& 0 < self.den <= MAX_QUAT_DEN
    }

    /// The identity rotation at scale 1.
    pub fn identity() -> (r: Quat)
        ensures
            r == (Quat { x: 0, y: 0, z: 0, w: 1, den: 1 }),
            r.wf(),
    {
        Quat { x: 0, y: 0, z: 0, w: 1, den: 1 }
    }
}

/// A half-line from an origin along a direction.
#[derive(Debug, Clone, Copy, PartialEq, Eq, Structural)]
pub struct Ray {
    pub origin: Vec3,
    pub direction: Vec3,
}

impl Ray {
    pub open spec fn wf(&self) -> bool {
        in_dir_range(self.direction)
    }
}

/// The ground-plane rotation between the two cameras, kept as the
/// unnormalized cosine/sine pair of the angle between their forward
/// axes: ordering by the alignment key is invariant under the positive
/// scale that normalization would remove.
#[derive(Debug, Clone, Copy, PartialEq, Eq, Structural)]
pub struct Theta {
    pub c: i64,
    pub s: i64,
}

impl Theta {
    pub open spec fn wf(&self) -> bool {
        &&& -MAX_THETA <= self.c <= MAX_THETA
        &&& -MAX_THETA <= self.s <= MAX_THETA
    }
}

pub open spec fn v3(v: Vec3) -> (int, int, int) {
    (v.x as int, v.y as int, v.z as int)
}

pub open spec fn in_coord_range(v: Vec3) -> bool {
    &&& -MAX_COORD <= v.x <= MAX_COORD
    &&& -MAX_COORD <= v.y <= MAX_COORD
    &&& -MAX_COORD <= v.z <= MAX_COORD
}

pub open spec fn in_dir_range(v: Vec3) -> bool {
    &&& -MAX_DIR <= v.x <= MAX_DIR
    &&& -MAX_DIR <= v.y <= MAX_DIR
    &&& -MAX_DIR <= v.z <= MAX_DIR
}

pub open spec fn sdot(a: (int, int, int), b: (int, int, int)) -> int {
    a.0 * b.0 + a.1 * b.1 + a.2 * b.2
}

pub open spec fn scross(a: (int, int, int), b: (int, int, int)) -> (int, int, int) {
    (a.1 * b.2 - a.2 * b.1, a.2 * b.0 - a.0 * b.2, a.0 * b.1 - a.1 * b.0)
}

pub open spec fn sadd(a: (int, int, int), b: (int, int, int)) -> (int, int, int) {
    (a.0 + b.0, a.1 + b.1, a.2 + b.2)
}

pub open spec fn ssub(a: (int, int, int), b: (int, int, int)) -> (int, int, int) {
    (a.0 - b.0, a.1 - b.1, a.2 - b.2)
}

pub open spec fn sscale(k: int, a: (int, int, int)) -> (int, int, int) {
    (k * a.0, k * a.1, k * a.2)
}

/// Division truncating toward zero, as the executable `/` computes it
/// on signed integers.
pub open spec fn div_trunc(n: int, d: int) -> int
    recommends
        d != 0,
{
    let q = (vstd::math::abs(n) as int) / (vstd::math::abs(d) as int);
    if (n >= 0) == (d >= 0) {
        q
    } else {
        -q
    }
}

/// Truncating division is unchanged by negating both operands.
pub proof fn lemma_div_trunc_neg(n: int, d: int)
    requires
        d != 0,
    ensures
        div_trunc(-n, -d) == div_trunc(n, d),
{
}

/// Truncating division for a divisor of either sign.
fn div_signed(n: i128, d: i128) -> (r: i128)
    requires
        d != 0,
        -0x40000000000000000000000000000000 <= n <= 0x40000000000000000000000000000000,
        -0x40000000000000000000000000000000 <= d <= 0x40000000000000000000000000000000,
    ensures
        r as int == div_trunc(n as int, d as int),
{
    if d > 0 {
        n / d
    } else {
        proof {
            lemma_div_trunc_neg(n as int, d as int);
        }
        (-n) / (-d)
    }
}

/// Bound on a product from bounds on its factors.
pub proof fn lemma_mul_le(x: int, y: int, a: int, b: int)
    requires
        -a <= x <= a,
        -b <= y <= b,
        0 <= a,
        0 <= b,
    ensures
        -(a * b) <= x * y <= a * b,
{
    assert(-(a * b) <= x * y <= a * b) by (nonlinear_arith)
        requires
            -a <= x <= a,
            -b <= y <= b,
            0 <= a,
            0 <= b,
    ;
}

/// The quaternion sandwich numerator `q v q*`: for a unit rotation
/// scaled by `s` it is `s * s` times the rotated vector.
pub open spec fn rot_num(q: Quat, v: (int, int, int)) -> (int, int, int) {
    let u = (q.x as int, q.y as int, q.z as int);
    let w = q.w as int;
    let k = w * w - sdot(u, u);
    sadd(sadd(sscale(k, v), sscale(2 * sdot(u, v), u)), sscale(2 * w, scross(u, v)))
}

/// The rotated direction after dividing the sandwich numerator by the
/// quaternion's denominator, truncating toward zero.
pub open spec fn rot_dir(q: Quat, v: (int, int, int)) -> (int, int, int) {
    let r = rot_num(q, v);
    (
        div_trunc(r.0, q.den as int),
        div_trunc(r.1, q.den as int),
        div_trunc(r.2, q.den as int),
    )
}

pub open spec fn fits_dir(t: (int, int, int)) -> bool {
    &&& -MAX_DIR <= t.0 <= MAX_DIR
    &&& -MAX_DIR <= t.1 <= MAX_DIR
    &&& -MAX_DIR <= t.2 <= MAX_DIR
}

/// Rotates a direction by a quaternion; rejects a result whose
/// components leave the range the later stages support.
pub fn rotate_dir(q: &Quat, vx: i64, vy: i64, vz: i64) -> (r: Option<Vec3>)
    requires
        q.wf(),
        -MAX_DIR <= vx <= MAX_DIR,
        -MAX_DIR <= vy <= MAX_DIR,
        -MAX_DIR <= vz <= MAX_DIR,
    ensures
        match r {
            Some(d) => fits_dir(rot_dir(*q, (vx as int, vy as int, vz as int))) && v3(d) == rot_dir(
                *q,
                (vx as int, vy as int, vz as int),
            ) && in_dir_range(d),
            None => !fits_dir(rot_dir(*q, (vx as int, vy as int, vz as int))),
        },
{
    let ux = q.x as i128;
    let uy = q.y as i128;
    let uz = q.z as i128;
    let w = q.w as i128;
    let vx = vx as i128;
    let vy = vy as i128;
    let vz = vz as i128;
    proof {
        lemma_mul_le(w as int, w as int, MAX_QUAT as int, MAX_QUAT as int);
        lemma_mul_le(ux as int, ux as int, MAX_QUAT as int, MAX_QUAT as int);
        lemma_mul_le(uy as int, uy as int, MAX_QUAT as int, MAX_QUAT as int);
        lemma_mul_le(uz as int, uz as int, MAX_QUAT as int, MAX_QUAT as int);
        lemma_mul_le(ux as int, vx as int, MAX_QUAT as int, MAX_DIR as int);
        lemma_mul_le(uy as int, vy as int, MAX_QUAT as int, MAX_DIR as int);
        lemma_mul_le(uz as int, vz as int, MAX_QUAT as int, MAX_DIR as int);
        lemma_mul_le(uy as int, vz as int, MAX_QUAT as int, MAX_DIR as int);
        lemma_mul_le(uz as int, vy as int, MAX_QUAT as int, MAX_DIR as int);
        lemma_mul_le(uz as int, vx as int, MAX_QUAT as int, MAX_DIR as int);
        lemma_mul_le(ux as int, vz as int, MAX_QUAT as int, MAX_DIR as int);
        lemma_mul_le(ux as int, vy as int, MAX_QUAT as int, MAX_DIR as int);
        lemma_mul_le(uy as int, vx as int, MAX_QUAT as int, MAX_DIR as int);
    }
    let k = w * w - (ux * ux + uy * uy + uz * uz);
    let udotv = ux * vx + uy * vy + uz * vz;
    let cx = uy * vz - uz * vy;
    let cy = uz * vx - ux * vz;
    let cz = ux * vy - uy * vx;
    proof {
        lemma_mul_le(k as int, vx as int, 0x400000000, MAX_DIR as int);
        lemma_mul_le(k as int, vy as int, 0x400000000, MAX_DIR as int);
        lemma_mul_le(k as int, vz as int, 0x400000000, MAX_DIR as int);
        lemma_mul_le(2 * udotv, ux as int, 0x4000000000000, MAX_QUAT as int);
        lemma_mul_le(2 * udotv, uy as int, 0x4000000000000, MAX_QUAT as int);
        lemma_mul_le(2 * udotv, uz as int, 0x4000000000000, MAX_QUAT as int);
        lemma_mul_le(2 * w as int, cx as int, 0x20000, 0x2000000000000);
        lemma_mul_le(2 * w as int, cy as int, 0x20000, 0x2000000000000);
        lemma_mul_le(2 * w as int, cz as int, 0x20000, 0x2000000000000);
    }
    let rx = k * vx + 2 * udotv * ux + 2 * w * cx;
    let ry = k * vy + 2 * udotv * uy + 2 * w * cy;
    let rz = k * vz + 2 * udotv * uz + 2 * w * cz;
    let den = q.den as i128;
    let dx = rx / den;
    let dy = ry / den;
    let dz = rz / den;
    let m = MAX_DIR as i128;
    if -m <= dx && dx <= m && -m <= dy && dy <= m && -m <= dz && dz <= m {
        Some(Vec3 { x: dx as i64, y: dy as i64, z: dz as i64 })
    } else {
        None
    }
}

/// The midpoint of the shortest segment between two rays, with every
/// intermediate value exact and the final components divided out by
/// twice the Gram determinant, truncating toward zero. `None` when the
/// rays are parallel (the determinant vanishes) or when a component of
/// the midpoint cannot be represented.
pub open spec fn spec_triangulate(p1: Vec3, d1: Vec3, p2: Vec3, d2: Vec3) -> Option<Vec3> {
    let a = sdot(v3(d1), v3(d1));
    let b = sdot(v3(d1), v3(d2));
    let c = sdot(v3(d2), v3(d2));
    let w0 = ssub(v3(p1), v3(p2));
    let dd = sdot(v3(d1), w0);
    let e = sdot(v3(d2), w0);
    let den = a * c - b * b;
    if den == 0 {
        None
    } else {
        let s_num = b * e - c * dd;
        let t_num = a * e - b * dd;
        let den2 = 2 * den;
        let mx = div_trunc((p1.x + p2.x) * den + s_num * d1.x + t_num * d2.x, den2);
        let my = div_trunc((p1.y + p2.y) * den + s_num * d1.y + t_num * d2.y, den2);
        let mz = div_trunc((p1.z + p2.z) * den + s_num * d1.z + t_num * d2.z, den2);
        if i64::MIN <= mx <= i64::MAX && i64::MIN <= my <= i64::MAX && i64::MIN <= mz <= i64::MAX {
            Some(Vec3 { x: mx as i64, y: my as i64, z: mz as i64 })
        } else {
            None
        }
    }
}

/// The ring identities behind the closest-point construction, over the
/// five Gram quantities.
proof fn lemma_normal_identities(a: int, b: int, c: int, dd: int, e: int)
    ensures
        a * (b * e - c * dd) - b * (a * e - b * dd) + dd * (a * c - b * b) == 0,
        b * (b * e - c * dd) - c * (a * e - b * dd) + e * (a * c - b * b) == 0,
{
    assert(a * (b * e - c * dd) - b * (a * e - b * dd) + dd * (a * c - b * b) == 0)
        by (nonlinear_arith);
    assert(b * (b * e - c * dd) - c * (a * e - b * dd) + e * (a * c - b * b) == 0)
        by (nonlinear_arith);
}

/// The triangulation parameters really are the closest-point
/// construction: with `s = s_num/den` and `t = t_num/den` as
/// `spec_triangulate` computes them, the segment from `p1 + s*d1` to
/// `p2 + t*d2` is perpendicular to both rays — the normal equations
/// `d1 . (w0 + s*d1 - t*d2) == 0` and `d2 . (w0 + s*d1 - t*d2) == 0`,
/// cleared of the denominator.
pub proof fn lemma_triangulation_normal_equations(p1: Vec3, d1: Vec3, p2: Vec3, d2: Vec3)
    ensures
        ({
            let a = sdot(v3(d1), v3(d1));
            let b = sdot(v3(d1), v3(d2));
            let c = sdot(v3(d2), v3(d2));
            let w0 = ssub(v3(p1), v3(p2));
            let dd = sdot(v3(d1), w0);
            let e = sdot(v3(d2), w0);
            let den = a * c - b * b;
            let s_num = b * e - c * dd;
            let t_num = a * e - b * dd;
            &&& a * s_num - b * t_num + dd * den == 0
            &&& b * s_num - c * t_num + e * den == 0
        }),
{
    let a = sdot(v3(d1), v3(d1));
    let b = sdot(v3(d1), v3(d2));
    let c = sdot(v3(d2), v3(d2));
    let w0 = ssub(v3(p1), v3(p2));
    let dd = sdot(v3(d1), w0);
    let e = sdot(v3(d2), w0);
    lemma_normal_identities(a, b, c, dd, e);
}

/// Triangulates a 3D point from two world-space rays: the midpoint of
/// the shortest connecting segment. Fails with a geometry error when
/// the rays are parallel or the result leaves the representable range.
pub fn triangulate_rays(p1: &Vec3, d1: &Vec3, p2: &Vec3, d2: &Vec3) -> (r: Result<Vec3, GError>)
    requires
        in_coord_range(*p1),
        in_coord_range(*p2),
        in_dir_range(*d1),
        in_dir_range(*d2),
    ensures
        match spec_triangulate(*p1, *d1, *p2, *d2) {
            Some(v) => r == Ok::<Vec3, GError>(v),
            None => r == Err::<Vec3, GError>(GError::GeometryError),
        },
{
    let d1x = d1.x as i128;
    let d1y = d1.y as i128;
    let d1z = d1.z as i128;
    let d2x = d2.x as i128;
    let d2y = d2.y as i128;
    let d2z = d2.z as i128;
    let w0x = p1.x as i128 - p2.x as i128;
    let w0y = p1.y as i128 - p2.y as i128;
    let w0z = p1.z as i128 - p2.z as i128;
    proof {
        lemma_mul_le(d1x as int, d1x as int, MAX_DIR as int, MAX_DIR as int);
        lemma_mul_le(d1y as int, d1y as int, MAX_DIR as int, MAX_DIR as int);
        lemma_mul_le(d1z as int, d1z as int, MAX_DIR as int, MAX_DIR as int);
        lemma_mul_le(d1x as int, d2x as int, MAX_DIR as int, MAX_DIR as int);
        lemma_mul_le(d1y as int, d2y as int, MAX_DIR as int, MAX_DIR as int);
        lemma_mul_le(d1z as int, d2z as int, MAX_DIR as int, MAX_DIR as int);
        lemma_mul_le(d2x as int, d2x as int, MAX_DIR as int, MAX_DIR as int);
        lemma_mul_le(d2y as int, d2y as int, MAX_DIR as int, MAX_DIR as int);
        lemma_mul_le(d2z as int, d2z as int, MAX_DIR as int, MAX_DIR as int);
        lemma_mul_le(d1x as int, w0x as int, MAX_DIR as int, 2 * MAX_COORD as int);
        lemma_mul_le(d1y as int, w0y as int, MAX_DIR as int, 2 * MAX_COORD as int);
        lemma_mul_le(d1z as int, w0z as int, MAX_DIR as int, 2 * MAX_COORD as int);
        lemma_mul_le(d2x as int, w0x as int, MAX_DIR as int, 2 * MAX_COORD as int);
        lemma_mul_le(d2y as int, w0y as int, MAX_DIR as int, 2 * MAX_COORD as int);
        lemma_mul_le(d2z as int, w0z as int, MAX_DIR as int, 2 * MAX_COORD as int);
    }
    let a = d1x * d1x + d1y * d1y + d1z * d1z;
    let b = d1x * d2x + d1y * d2y + d1z * d2z;
    let c = d2x * d2x + d2y * d2y + d2z * d2z;
    let dd = d1x * w0x + d1y * w0y + d1z * w0z;
    let e = d2x * w0x + d2y * w0y + d2z * w0z;
    proof {
        lemma_mul_le(a as int, c as int, 0x1000000000000, 0x1000000000000);
        lemma_mul_le(b as int, b as int, 0x1000000000000, 0x1000000000000);
        lemma_mul_le(b as int, e as int, 0x1000000000000, 0x400000000000);
        lemma_mul_le(c as int, dd as int, 0x1000000000000, 0x400000000000);
        lemma_mul_le(a as int, e as int, 0x1000000000000, 0x400000000000);
        lemma_mul_le(b as int, dd as int, 0x1000000000000, 0x400000000000);
    }
    let den = a * c - b * b;
    if den == 0 {
        return Err(GError::GeometryError);
    }
    let s_num = b * e - c * dd;
    let t_num = a * e - b * dd;
    let den2 = 2 * den;
    proof {
        lemma_mul_le((p1.x + p2.x) as int, den as int, 2 * MAX_COORD as int, 0x2000000000000000000000000);
        lemma_mul_le((p1.y + p2.y) as int, den as int, 2 * MAX_COORD as int, 0x2000000000000000000000000);
        lemma_mul_le((p1.z + p2.z) as int, den as int, 2 * MAX_COORD as int, 0x2000000000000000000000000);
        lemma_mul_le(s_num as int, d1.x as int, 0x2000000000000000000000000, MAX_DIR as int);
        lemma_mul_le(s_num as int, d1.y as int, 0x2000000000000000000000000, MAX_DIR as int);
        lemma_mul_le(s_num as int, d1.z as int, 0x2000000000000000000000000, MAX_DIR as int);
        lemma_mul_le(t_num as int, d2.x as int, 0x2000000000000000000000000, MAX_DIR as int);
        lemma_mul_le(t_num as int, d2.y as int, 0x2000000000000000000000000, MAX_DIR as int);
        lemma_mul_le(t_num as int, d2.z as int, 0x2000000000000000000000000, MAX_DIR as int);
    }
    let px = p1.x as i128 + p2.x as i128;
    let py = p1.y as i128 + p2.y as i128;
    let pz = p1.z as i128 + p2.z as i128;
    let mx = div_signed(px * den + s_num * d1.x as i128 + t_num * d2.x as i128, den2);
    let my = div_signed(py * den + s_num * d1.y as i128 + t_num * d2.y as i128, den2);
    let mz = div_signed(pz * den + s_num * d1.z as i128 + t_num * d2.z as i128, den2);
    let lo = i64::MIN as i128;
    let hi = i64::MAX as i128;
    if lo <= mx && mx <= hi && lo <= my && my <= hi && lo <= mz && mz <= hi {
        Ok(Vec3 { x: mx as i64, y: my as i64, z: mz as i64 })
    } else {
        Err(GError::GeometryError)
    }
}

/// The camera-frame direction of an image point: doubled centered
/// coordinates, with the focal length (already in doubled units) as
/// depth. Doubling keeps the centering exact for odd frame sizes.
pub open spec fn spec_local_dir(cam: CameraConfig, c: ImageCoords) -> (int, int, int) {
    (2 * c.x - c.spec_w(), 2 * c.y - c.spec_h(), cam.focal as int)
}

/// The world-space ray direction of an image point: the camera-frame
/// direction rotated by the camera orientation; rejected when a
/// component leaves the supported range.
pub open spec fn spec_back_project(cam: CameraConfig, c: ImageCoords) -> Option<Vec3> {
    let r = rot_dir(cam.orientation, spec_local_dir(cam, c));
    if fits_dir(r) {
        Some(Vec3 { x: r.0 as i64, y: r.1 as i64, z: r.2 as i64 })
    } else {
        None
    }
}

/// Back-projects an image point into its world-space ray direction.
pub fn back_project(cam: &CameraConfig, c: &ImageCoords) -> (r: Option<Vec3>)
    requires
        cam.wf(),
        c.wf(),
    ensures
        r == spec_back_project(*cam, *c),
        r is Some ==> in_dir_range(r->Some_0),
{
    let lx = 2 * c.x - c.w;
    let ly = 2 * c.y - c.h;
    rotate_dir(&cam.orientation, lx, ly, cam.focal)
}

/// The triangulated subject position for a pair of per-camera image
/// points: both points back-projected, then the two rays triangulated.
pub open spec fn spec_calc_position(
    cam1: CameraConfig,
    c1: ImageCoords,
    cam2: CameraConfig,
    c2: ImageCoords,
) -> Option<Vec3> {
    match spec_back_project(cam1, c1) {
        Some(d1) => match spec_back_project(cam2, c2) {
            Some(d2) => spec_triangulate(cam1.position, d1, cam2.position, d2),
            None => None,
        },
        None => None,
    }
}

/// Recovers the 3D position observed at `c1` by `cam1` and at `c2` by
/// `cam2`: each point becomes a world ray from its camera, and the
/// result is the midpoint of the shortest segment between the rays.
/// Fails with a geometry error when the rays are near-parallel or a
/// value leaves the supported range.
pub fn calc_position(
    cam1: &CameraConfig,
    c1: &ImageCoords,
    cam2: &CameraConfig,
    c2: &ImageCoords,
) -> (r: Result<Vec3, GError>)
    requires
        cam1.wf(),
        cam2.wf(),
        c1.wf(),
        c2.wf(),
    ensures
        match spec_calc_position(*cam1, *c1, *cam2, *c2) {
            Some(v) => r == Ok::<Vec3, GError>(v),
            None => r == Err::<Vec3, GError>(GError::GeometryError),
        },
{
    let d1 = match back_project(cam1, c1) {
        Some(d) => d,
        None => {
            return Err(GError::GeometryError);
        },
    };
    let d2 = match back_project(cam2, c2) {
        Some(d) => d,
        None => {
            return Err(GError::GeometryError);
        },
    };
    triangulate_rays(&cam1.position, &d1, &cam2.position, &d2)
}

/// The subject's line of sight: the forward axis rotated first by the
/// estimated head orientation (camera frame), then by the camera
/// orientation into world space, anchored at the subject position.
pub open spec fn spec_get_los(cam: CameraConfig, position: Vec3, orientation: Quat) -> Option<
    Ray,
> {
    let f = rot_dir(orientation, (0, 0, FORWARD_LEN as int));
    if fits_dir(f) {
        let g = rot_dir(cam.orientation, f);
        if fits_dir(g) {
            Some(
                Ray {
                    origin: position,
                    direction: Vec3 { x: g.0 as i64, y: g.1 as i64, z: g.2 as i64 },
                },
            )
        } else {
            None
        }
    } else {
        None
    }
}

/// Builds the subject's line-of-sight ray. Fails with a geometry error
/// when a rotated component leaves the supported range.
pub fn get_los(cam: &CameraConfig, position: &Vec3, orientation: &Quat) -> (r: Result<Ray, GError>)
    requires
        cam.wf(),
        orientation.wf(),
    ensures
        match spec_get_los(*cam, *position, *orientation) {
            Some(ray) => r == Ok::<Ray, GError>(ray) && ray.wf(),
            None => r == Err::<Ray, GError>(GError::GeometryError),
        },
{
    let f = match rotate_dir(orientation, 0, 0, FORWARD_LEN) {
        Some(f) => f,
        None => {
            return Err(GError::GeometryError);
        },
    };
    let g = match rotate_dir(&cam.orientation, f.x, f.y, f.z) {
        Some(g) => g,
        None => {
            return Err(GError::GeometryError);
        },
    };
    Ok(Ray { origin: *position, direction: g })
}

/// The forward axis of a camera in world space.
pub open spec fn spec_cam_forward(cam: CameraConfig) -> (int, int, int) {
    rot_dir(cam.orientation, (0, 0, FORWARD_LEN as int))
}

/// The unnormalized cosine/sine pair of the ground-plane angle between
/// the two cameras' forward axes (the ground plane spanned by the x and
/// z axes): the 2D dot product and cross product of the projected
/// forward vectors.
pub open spec fn spec_angle_between(cam1: CameraConfig, cam2: CameraConfig) -> Option<Theta> {
    let f1 = spec_cam_forward(cam1);
    let f2 = spec_cam_forward(cam2);
    if fits_dir(f1) && fits_dir(f2) {
        Some(
            Theta {
                c: (f1.0 * f2.0 + f1.2 * f2.2) as i64,
                s: (f1.0 * f2.2 - f1.2 * f2.0) as i64,
            },
        )
    } else {
        None
    }
}

/// Computes once, at startup, the alignment rotation between the two
/// cameras from their forward axes projected onto the ground plane.
/// Fails as a configuration error when an orientation is out of range.
pub fn angle_bw_cameras_from_z_axis(cam1: &CameraConfig, cam2: &CameraConfig) -> (r: Result<
    Theta,
    GError,
>)
    requires
        cam1.wf(),
        cam2.wf(),
    ensures
        match spec_angle_between(*cam1, *cam2) {
            Some(th) => r == Ok::<Theta, GError>(th) && th.wf(),
            None => r == Err::<Theta, GError>(GError::ConfigError),
        },
{
    let f1 = match rotate_dir(&cam1.orientation, 0, 0, FORWARD_LEN) {
        Some(f) => f,
        None => {
            return Err(GError::ConfigError);
        },
    };
    let f2 = match rotate_dir(&cam2.orientation, 0, 0, FORWARD_LEN) {
        Some(f) => f,
        None => {
            return Err(GError::ConfigError);
        },
    };
    proof {
        lemma_mul_le(f1.x as int, f2.x as int, MAX_DIR as int, MAX_DIR as int);
        lemma_mul_le(f1.z as int, f2.z as int, MAX_DIR as int, MAX_DIR as int);
        lemma_mul_le(f1.x as int, f2.z as int, MAX_DIR as int, MAX_DIR as int);
        lemma_mul_le(f1.z as int, f2.x as int, MAX_DIR as int, MAX_DIR as int);
    }
    let c = f1.x as i128 * f2.x as i128 + f1.z as i128 * f2.z as i128;
    let s = f1.x as i128 * f2.z as i128 - f1.z as i128 * f2.x as i128;
    Ok(Theta { c: c as i64, s: s as i64 })
}

/// `n1/d1 < n2/d2` for positive denominators, compared exactly by
/// cross-multiplication.
pub open spec fn rat_lt(n1: int, d1: int, n2: int, d2: int) -> bool {
    n1 * d2 < n2 * d1
}

/// `n1/d1 <= n2/d2` for positive denominators.
pub open spec fn rat_le(n1: int, d1: int, n2: int, d2: int) -> bool {
    n1 * d2 <= n2 * d1
}

/// A strict rational bound carries through a weak one.
pub proof fn lemma_rat_lt_le_trans(n1: int, d1: int, n2: int, d2: int, n3: int, d3: int)
    requires
        d1 > 0,
        d2 > 0,
        d3 > 0,
        rat_lt(n1, d1, n2, d2),
        rat_le(n2, d2, n3, d3),
    ensures
        rat_lt(n1, d1, n3, d3),
{
    assert(n1 * d3 < n3 * d1) by (nonlinear_arith)
        requires
            d1 > 0,
            d2 > 0,
            d3 > 0,
            n1 * d2 < n2 * d1,
            n2 * d3 <= n3 * d2,
    ;
}

/// One slab-clipping step of the ray/box walk: intersects the running
/// parameter interval `[near, far]` (`far` of `None` is unbounded) with
/// the axis whose origin, direction and box extent are given. `None`
/// means the box is missed outright.
pub open spec fn spec_clip_axis(
    nn: int,
    nd: int,
    far: Option<(int, int)>,
    o: int,
    d: int,
    lo: int,
    hi: int,
) -> Option<(int, int, Option<(int, int)>)> {
    if d == 0 {
        if lo <= o <= hi {
            Some((nn, nd, far))
        } else {
            None
        }
    } else {
        let tn = if d > 0 {
            lo - o
        } else {
            o - hi
        };
        let un = if d > 0 {
            hi - o
        } else {
            o - lo
        };
        let td = if d > 0 {
            d
        } else {
            -d
        };
        let nn2 = if rat_lt(nn, nd, tn, td) {
            tn
        } else {
            nn
        };
        let nd2 = if rat_lt(nn, nd, tn, td) {
            td
        } else {
            nd
        };
        let far2 = match far {
            Option::None => Some((un, td)),
            Option::Some(f) => if rat_lt(un, td, f.0, f.1) {
                Some((un, td))
            } else {
                Some(f)
            },
        };
        Some((nn2, nd2, far2))
    }
}

/// The entry distance of a ray into a box, as an exact rational with
/// positive denominator: the largest per-axis entry parameter, clamped
/// below at zero (an origin inside the box enters at distance zero),
/// provided it does not exceed the smallest exit parameter. `None`
/// when the ray misses the box or the box lies behind the origin.
pub open spec fn spec_ray_box_entry(
    o: (int, int, int),
    d: (int, int, int),
    lo: (int, int, int),
    hi: (int, int, int),
) -> Option<(int, int)> {
    match spec_clip_axis(0, 1, Option::None, o.0, d.0, lo.0, hi.0) {
        Option::None => Option::None,
        Option::Some(s1) => match spec_clip_axis(s1.0, s1.1, s1.2, o.1, d.1, lo.1, hi.1) {
            Option::None => Option::None,
            Option::Some(s2) => match spec_clip_axis(s2.0, s2.1, s2.2, o.2, d.2, lo.2, hi.2) {
                Option::None => Option::None,
                Option::Some(s3) => match s3.2 {
                    Option::None => Some((s3.0, s3.1)),
                    Option::Some(f) => if rat_le(s3.0, s3.1, f.0, f.1) {
                        Some((s3.0, s3.1))
                    } else {
                        Option::None
                    },
                },
            },
        },
    }
}

/// One executable slab-clipping step; the bounds keep every
/// cross-multiplication inside `i128`.
fn clip_axis(
    nn: i128,
    nd: i128,
    far: Option<(i128, i128)>,
    o: i64,
    d: i64,
    lo: i64,
    hi: i64,
) -> (r: Option<(i128, i128, Option<(i128, i128)>)>)
    requires
        0 < nd <= MAX_DIR,
        -0x20000000000000000 <= nn <= 0x20000000000000000,
        match far {
            Some(f) => 0 < f.1 <= MAX_DIR && -0x20000000000000000 <= f.0 <= 0x20000000000000000,
            None => true,
        },
        -MAX_DIR <= d <= MAX_DIR,
        -MAX_COORD <= lo <= MAX_COORD,
        -MAX_COORD <= hi <= MAX_COORD,
    ensures
        match r {
            Some(s) => {
                &&& spec_clip_axis(
                    nn as int,
                    nd as int,
                    rat_of(far),
                    o as int,
                    d as int,
                    lo as int,
                    hi as int,
                ) == Some((s.0 as int, s.1 as int, rat_of(s.2)))
                &&& 0 < s.1 <= MAX_DIR
                &&& -0x20000000000000000 <= s.0 <= 0x20000000000000000
                &&& match s.2 {
                    Some(f) => 0 < f.1 <= MAX_DIR && -0x20000000000000000 <= f.0
                        <= 0x20000000000000000,
                    None => true,
                }
            },
            None => spec_clip_axis(
                nn as int,
                nd as int,
                rat_of(far),
                o as int,
                d as int,
                lo as int,
                hi as int,
            ) is None,
        },
{
    if d == 0 {
        if lo <= o && o <= hi {
            Some((nn, nd, far))
        } else {
            None
        }
    } else {
        let tn: i128 = if d > 0 {
            lo as i128 - o as i128
        } else {
            o as i128 - hi as i128
        };
        let un: i128 = if d > 0 {
            hi as i128 - o as i128
        } else {
            o as i128 - lo as i128
        };
        let td: i128 = if d > 0 {
            d as i128
        } else {
            -(d as i128)
        };
        proof {
            lemma_mul_le(nn as int, td as int, 0x20000000000000000, MAX_DIR as int);
            lemma_mul_le(tn as int, nd as int, 0x20000000000000000, MAX_DIR as int);
            lemma_mul_le(un as int, nd as int, 0x20000000000000000, MAX_DIR as int);
        }
        let takes_near = nn * td < tn * nd;
        let nn2 = if takes_near {
            tn
        } else {
            nn
        };
        let nd2 = if takes_near {
            td
        } else {
            nd
        };
        let far2 = match far {
            Some(f) => {
                proof {
                    lemma_mul_le(un as int, f.1 as int, 0x20000000000000000, MAX_DIR as int);
                    lemma_mul_le(f.0 as int, td as int, 0x20000000000000000, MAX_DIR as int);
                }
                if un * f.1 < f.0 * td {
                    Some((un, td))
                } else {
                    Some(f)
                }
            },
            None => Some((un, td)),
        };
        Some((nn2, nd2, far2))
    }
}

/// The integer view of an executable rational.
pub open spec fn rat_of(f: Option<(i128, i128)>) -> Option<(int, int)> {
    match f {
        Option::None => Option::None,
        Option::Some(p) => Some((p.0 as int, p.1 as int)),
    }
}

/// The exact rational entry distance of the ray into the device's
/// bounding box, or `None` when the ray misses it.
pub fn ray_box_entry(los: &Ray, dev: &Device) -> (r: Option<(i128, i128)>)
    requires
        los.wf(),
        dev.wf(),
    ensures
        rat_of(r) == spec_ray_box_entry(
            v3(los.origin),
            v3(los.direction),
            v3(dev.spec_min()),
            v3(dev.spec_max()),
        ),
        match r {
            Some(p) => 0 < p.1 <= MAX_DIR && -0x20000000000000000 <= p.0 <= 0x20000000000000000,
            None => true,
        },
{
    let (lo, hi) = dev.bounding_box();
    let o = los.origin;
    let d = los.direction;
    let s1 = match clip_axis(0, 1, None, o.x, d.x, lo.x, hi.x) {
        Some(s) => s,
        None => {
            return None;
        },
    };
    let s2 = match clip_axis(s1.0, s1.1, s1.2, o.y, d.y, lo.y, hi.y) {
        Some(s) => s,
        None => {
            return None;
        },
    };
    let s3 = match clip_axis(s2.0, s2.1, s2.2, o.z, d.z, lo.z, hi.z) {
        Some(s) => s,
        None => {
            return None;
        },
    };
    match s3.2 {
        Some(f) => {
            proof {
                lemma_mul_le(s3.0 as int, f.1 as int, 0x20000000000000000, MAX_DIR as int);
                lemma_mul_le(f.0 as int, s3.1 as int, 0x20000000000000000, MAX_DIR as int);
            }
            if s3.0 * f.1 <= f.0 * s3.1 {
                Some((s3.0, s3.1))
            } else {
                None
            }
        },
        None => Some((s3.0, s3.1)),
    }
}

/// The rational entry distance of the ray into device `j` of the
/// registry, as the specification sees it.
pub open spec fn spec_device_entry(devices: Seq<Device>, los: Ray, j: int) -> Option<(int, int)> {
    spec_ray_box_entry(
        v3(los.origin),
        v3(los.direction),
        v3(devices[j].spec_min()),
        v3(devices[j].spec_max()),
    )
}

/// An entry distance always carries a positive denominator.
pub proof fn lemma_clip_den_pos(
    nn: int,
    nd: int,
    far: Option<(int, int)>,
    o: int,
    d: int,
    lo: int,
    hi: int,
)
    requires
        nd > 0,
        match far {
            Some(f) => f.1 > 0,
            None => true,
        },
    ensures
        match spec_clip_axis(nn, nd, far, o, d, lo, hi) {
            Some(s) => s.1 > 0 && match s.2 {
                Some(f) => f.1 > 0,
                None => true,
            },
            None => true,
        },
{
}

/// An entry distance always carries a positive denominator.
pub proof fn lemma_entry_den_pos(
    o: (int, int, int),
    d: (int, int, int),
    lo: (int, int, int),
    hi: (int, int, int),
)
    ensures
        match spec_ray_box_entry(o, d, lo, hi) {
            Some(p) => p.1 > 0,
            None => true,
        },
{
    lemma_clip_den_pos(0, 1, Option::None, o.0, d.0, lo.0, hi.0);
    match spec_clip_axis(0, 1, Option::None, o.0, d.0, lo.0, hi.0) {
        Option::None => {},
        Option::Some(s1) => {
            lemma_clip_den_pos(s1.0, s1.1, s1.2, o.1, d.1, lo.1, hi.1);
            match spec_clip_axis(s1.0, s1.1, s1.2, o.1, d.1, lo.1, hi.1) {
                Option::None => {},
                Option::Some(s2) => {
                    lemma_clip_den_pos(s2.0, s2.1, s2.2, o.2, d.2, lo.2, hi.2);
                },
            }
        },
    }
}

/// What one clipping step guarantees: the near bound only grows, the
/// far bound only shrinks, a nonzero axis constrains the output
/// interval to its own slab, and a zero axis passes the interval
/// through an origin that lies between the walls.
pub proof fn lemma_clip_axis_sound(
    nn: int,
    nd: int,
    far: Option<(int, int)>,
    o: int,
    d: int,
    lo: int,
    hi: int,
)
    requires
        nd > 0,
        match far {
            Some(f) => f.1 > 0,
            None => true,
        },
    ensures
        match spec_clip_axis(nn, nd, far, o, d, lo, hi) {
            Some(s) => {
                &&& s.1 > 0
                &&& rat_le(nn, nd, s.0, s.1)
                &&& match s.2 {
                    Some(f2) => f2.1 > 0 && match far {
                        Some(f) => rat_le(f2.0, f2.1, f.0, f.1),
                        None => true,
                    },
                    None => far is None,
                }
                &&& d != 0 ==> {
                    let tn = if d > 0 {
                        lo - o
                    } else {
                        o - hi
                    };
                    let un = if d > 0 {
                        hi - o
                    } else {
                        o - lo
                    };
                    let td = if d > 0 {
                        d
                    } else {
                        -d
                    };
                    &&& rat_le(tn, td, s.0, s.1)
                    &&& match s.2 {
                        Some(f2) => rat_le(f2.0, f2.1, un, td),
                        None => false,
                    }
                }
                &&& d == 0 ==> lo <= o <= hi && s == (nn, nd, far)
            },
            None => true,
        },
{
}

/// `n1/d1 <= n2/d2` and `n2/d2 <= n3/d3` chain.
pub proof fn lemma_rat_le_trans(n1: int, d1: int, n2: int, d2: int, n3: int, d3: int)
    requires
        d1 > 0,
        d2 > 0,
        d3 > 0,
        rat_le(n1, d1, n2, d2),
        rat_le(n2, d2, n3, d3),
    ensures
        rat_le(n1, d1, n3, d3),
{
    assert(n1 * d3 <= n3 * d1) by (nonlinear_arith)
        requires
            d1 > 0,
            d2 > 0,
            d3 > 0,
            n1 * d2 <= n2 * d1,
            n2 * d3 <= n3 * d2,
    ;
}

/// The index of the intersecting device with the smallest entry
/// distance among indices `j..`, ties resolved to the earliest index.
pub open spec fn spec_closest_from(devices: Seq<Device>, los: Ray, j: int) -> Option<int>
    decreases devices.len() - j,
{
    if j >= devices.len() {
        Option::None
    } else {
        let rest = spec_closest_from(devices, los, j + 1);
        match spec_device_entry(devices, los, j) {
            Option::None => rest,
            Option::Some(e) => match rest {
                Option::None => Some(j),
                Option::Some(k) => {
                    let ek = spec_device_entry(devices, los, k)->Some_0;
                    if rat_le(e.0, e.1, ek.0, ek.1) {
                        Some(j)
                    } else {
                        Some(k)
                    }
                },
            },
        }
    }
}

/// The device the line of sight selects: the intersecting device with
/// the smallest rational entry distance, the first registered winning
/// ties.
pub open spec fn spec_closest(devices: Seq<Device>, los: Ray) -> Option<int> {
    spec_closest_from(devices, los, 0)
}

/// The recursive selection really is the minimum: it picks an
/// intersecting device, no intersecting device is nearer, and every
/// earlier intersecting device is strictly farther.
pub proof fn lemma_closest_from_correct(devices: Seq<Device>, los: Ray, j: int)
    requires
        0 <= j,
    ensures
        match spec_closest_from(devices, los, j) {
            Option::Some(i) => {
                &&& j <= i < devices.len()
                &&& spec_device_entry(devices, los, i) is Some
                &&& forall|k: int|
                    j <= k < devices.len() && #[trigger] spec_device_entry(
                        devices,
                        los,
                        k,
                    ) is Some ==> rat_le(
                        spec_device_entry(devices, los, i)->Some_0.0,
                        spec_device_entry(devices, los, i)->Some_0.1,
                        spec_device_entry(devices, los, k)->Some_0.0,
                        spec_device_entry(devices, los, k)->Some_0.1,
                    )
                &&& forall|k: int|
                    j <= k < i && #[trigger] spec_device_entry(devices, los, k) is Some ==> rat_lt(
                        spec_device_entry(devices, los, i)->Some_0.0,
                        spec_device_entry(devices, los, i)->Some_0.1,
                        spec_device_entry(devices, los, k)->Some_0.0,
                        spec_device_entry(devices, los, k)->Some_0.1,
                    )
            },
            Option::None => forall|k: int|
                j <= k < devices.len() ==> #[trigger] spec_device_entry(devices, los, k) is None,
        },
    decreases devices.len() - j,
{
    if j >= devices.len() {
    } else {
        lemma_closest_from_correct(devices, los, j + 1);
        lemma_entry_den_pos(
            v3(los.origin),
            v3(los.direction),
            v3(devices[j].spec_min()),
            v3(devices[j].spec_max()),
        );
        let rest = spec_closest_from(devices, los, j + 1);
        match spec_device_entry(devices, los, j) {
            Option::None => {},
            Option::Some(e) => {
                match rest {
                    Option::None => {},
                    Option::Some(k) => {
                        let ek = spec_device_entry(devices, los, k)->Some_0;
                        lemma_entry_den_pos(
                            v3(los.origin),
                            v3(los.direction),
                            v3(devices[k].spec_min()),
                            v3(devices[k].spec_max()),
                        );
                        if rat_le(e.0, e.1, ek.0, ek.1) {
                            assert forall|m: int|
                                j <= m < devices.len() && #[trigger] spec_device_entry(
                                    devices,
                                    los,
                                    m,
                                ) is Some implies rat_le(
                                e.0,
                                e.1,
                                spec_device_entry(devices, los, m)->Some_0.0,
                                spec_device_entry(devices, los, m)->Some_0.1,
                            ) by {
                                if m > j {
                                    let em = spec_device_entry(devices, los, m)->Some_0;
                                    lemma_entry_den_pos(
                                        v3(los.origin),
                                        v3(los.direction),
                                        v3(devices[m].spec_min()),
                                        v3(devices[m].spec_max()),
                                    );
                                    lemma_rat_le_trans(e.0, e.1, ek.0, ek.1, em.0, em.1);
                                }
                            }
                        } else {
                        }
                    },
                }
            },
        }
    }
}
/// Soundness of the entry distance: when the slab walk reports one, it
/// is nonnegative, and the point the ray reaches after that distance
/// lies within the box on every axis — stated exactly, with the
/// rational distance `p.0 / p.1` cleared of its denominator.
pub proof fn lemma_entry_point_in_box(
    o: (int, int, int),
    d: (int, int, int),
    lo: (int, int, int),
    hi: (int, int, int),
)
    ensures
        match spec_ray_box_entry(o, d, lo, hi) {
            Some(p) => {
                &&& p.1 > 0
                &&& p.0 >= 0
                &&& lo.0 * p.1 <= o.0 * p.1 + p.0 * d.0 <= hi.0 * p.1
                &&& lo.1 * p.1 <= o.1 * p.1 + p.0 * d.1 <= hi.1 * p.1
                &&& lo.2 * p.1 <= o.2 * p.1 + p.0 * d.2 <= hi.2 * p.1
            },
            None => true,
        },
{
    lemma_clip_axis_sound(0, 1, Option::None, o.0, d.0, lo.0, hi.0);
    match spec_clip_axis(0, 1, Option::None, o.0, d.0, lo.0, hi.0) {
        Option::None => {},
        Option::Some(s1) => {
            lemma_clip_axis_sound(s1.0, s1.1, s1.2, o.1, d.1, lo.1, hi.1);
            match spec_clip_axis(s1.0, s1.1, s1.2, o.1, d.1, lo.1, hi.1) {
                Option::None => {},
                Option::Some(s2) => {
                    lemma_clip_axis_sound(s2.0, s2.1, s2.2, o.2, d.2, lo.2, hi.2);
                    match spec_clip_axis(s2.0, s2.1, s2.2, o.2, d.2, lo.2, hi.2) {
                        Option::None => {},
                        Option::Some(s3) => {
                            match spec_ray_box_entry(o, d, lo, hi) {
                                Option::None => {},
                                Option::Some(p) => {
                                    let nf = s3.0;
                                    let df = s3.1;
                                    assert(p == (nf, df));
                                    // the near bound only ever grew, so it is
                                    // nonnegative and still beyond each axis wall
                                    lemma_rat_le_trans(s1.0, s1.1, s2.0, s2.1, nf, df);
                                    lemma_rat_le_trans(0, 1, s1.0, s1.1, nf, df);
                                    assert(nf >= 0) by (nonlinear_arith)
                                        requires
                                            rat_le(0, 1, nf, df),
                                    ;
                                    // each nonzero axis: its near wall carried
                                    // through the growing near bound, its far
                                    // wall through the shrinking far bound and
                                    // the final near-below-far condition
                                    if d.0 != 0 {
                                        let tn = if d.0 > 0 { lo.0 - o.0 } else { o.0 - hi.0 };
                                        let un = if d.0 > 0 { hi.0 - o.0 } else { o.0 - lo.0 };
                                        let td = if d.0 > 0 { d.0 } else { -d.0 };
                                        lemma_rat_le_trans(tn, td, s1.0, s1.1, nf, df);
                                        let f1 = s1.2->Some_0;
                                        let f2 = s2.2->Some_0;
                                        let f3 = s3.2->Some_0;
                                        lemma_rat_le_trans(nf, df, f3.0, f3.1, f2.0, f2.1);
                                        lemma_rat_le_trans(nf, df, f2.0, f2.1, f1.0, f1.1);
                                        lemma_rat_le_trans(nf, df, f1.0, f1.1, un, td);
                                    }
                                    if d.1 != 0 {
                                        let tn = if d.1 > 0 { lo.1 - o.1 } else { o.1 - hi.1 };
                                        let un = if d.1 > 0 { hi.1 - o.1 } else { o.1 - lo.1 };
                                        let td = if d.1 > 0 { d.1 } else { -d.1 };
                                        lemma_rat_le_trans(tn, td, s2.0, s2.1, nf, df);
                                        let f2 = s2.2->Some_0;
                                        let f3 = s3.2->Some_0;
                                        lemma_rat_le_trans(nf, df, f3.0, f3.1, f2.0, f2.1);
                                        lemma_rat_le_trans(nf, df, f2.0, f2.1, un, td);
                                    }
                                    if d.2 != 0 {
                                        let tn = if d.2 > 0 { lo.2 - o.2 } else { o.2 - hi.2 };
                                        let un = if d.2 > 0 { hi.2 - o.2 } else { o.2 - lo.2 };
                                        let td = if d.2 > 0 { d.2 } else { -d.2 };
                                        let f3 = s3.2->Some_0;
                                        lemma_rat_le_trans(nf, df, f3.0, f3.1, un, td);
                                        assert(rat_le(tn, td, nf, df));
                                    }
                                    lemma_axis_walls(o.0, d.0, lo.0, hi.0, nf, df);
                                    lemma_axis_walls(o.1, d.1, lo.1, hi.1, nf, df);
                                    lemma_axis_walls(o.2, d.2, lo.2, hi.2, nf, df);
                                },
                            }
                        },
                    }
                },
            }
        },
    }
}

/// The per-axis wall inequalities, once the entry parameter is known to
/// lie between the axis's own slab bounds (or the axis is degenerate
/// with the origin between its walls).
proof fn lemma_axis_walls(o: int, d: int, lo: int, hi: int, nf: int, df: int)
    requires
        df > 0,
        nf >= 0,
        d == 0 ==> lo <= o <= hi,
        d > 0 ==> rat_le(lo - o, d, nf, df) && rat_le(nf, df, hi - o, d),
        d < 0 ==> rat_le(o - hi, -d, nf, df) && rat_le(nf, df, o - lo, -d),
    ensures
        lo * df <= o * df + nf * d <= hi * df,
{
    if d == 0 {
        assert(lo * df <= o * df + nf * d <= hi * df) by (nonlinear_arith)
            requires
                df > 0,
                d == 0,
                lo <= o <= hi,
        ;
    } else if d > 0 {
        assert(lo * df <= o * df + nf * d <= hi * df) by (nonlinear_arith)
            requires
                df > 0,
                (lo - o) * df <= nf * d,
                nf * d <= (hi - o) * df,
        ;
    } else {
        assert(lo * df <= o * df + nf * d <= hi * df) by (nonlinear_arith)
            requires
                df > 0,
                (o - hi) * df <= nf * (-d),
                nf * (-d) <= (o - lo) * df,
        ;
    }
}

/// Resolves the device in the line of sight: tests the ray against
/// every registered device's bounding box and returns the index of the
/// intersecting device whose entry distance is smallest; an earlier
/// registration wins a tie. `None` when no device intersects the ray.
pub fn get_closest_device_in_los(devices: &Vec<Device>, los: &Ray) -> (r: Option<usize>)
    requires
        los.wf(),
        forall|j: int| 0 <= j < devices@.len() ==> (#[trigger] devices@[j]).wf(),
    ensures
        match r {
            Some(i) => {
                &&& i < devices@.len()
                &&& spec_device_entry(devices@, *los, i as int) is Some
                &&& forall|j: int|
                    0 <= j < devices@.len() && #[trigger] spec_device_entry(
                        devices@,
                        *los,
                        j,
                    ) is Some ==> rat_le(
                        spec_device_entry(devices@, *los, i as int)->Some_0.0,
                        spec_device_entry(devices@, *los, i as int)->Some_0.1,
                        spec_device_entry(devices@, *los, j)->Some_0.0,
                        spec_device_entry(devices@, *los, j)->Some_0.1,
                    )
                &&& forall|j: int|
                    0 <= j < i && #[trigger] spec_device_entry(devices@, *los, j) is Some ==> rat_lt(
                        spec_device_entry(devices@, *los, i as int)->Some_0.0,
                        spec_device_entry(devices@, *los, i as int)->Some_0.1,
                        spec_device_entry(devices@, *los, j)->Some_0.0,
                        spec_device_entry(devices@, *los, j)->Some_0.1,
                    )
            },
            None => forall|j: int|
                0 <= j < devices@.len() ==> #[trigger] spec_device_entry(
                    devices@,
                    *los,
                    j,
                ) is None,
        },
        match spec_closest(devices@, *los) {
            Some(k) => r == Some(k as usize),
            None => r is None,
        },
{
    let mut best: Option<(usize, i128, i128)> = None;
    let mut i: usize = 0;
    while i < devices.len()
        invariant
            los.wf(),
            forall|j: int| 0 <= j < devices@.len() ==> (#[trigger] devices@[j]).wf(),
            i <= devices@.len(),
            match best {
                Some(b) => {
                    &&& (b.0 as int) < i as int
                    &&& 0 < b.2 <= MAX_DIR
                    &&& -0x20000000000000000 <= b.1 <= 0x20000000000000000
                    &&& spec_device_entry(devices@, *los, b.0 as int) == Some((
                        b.1 as int,
                        b.2 as int,
                    ))
                    &&& forall|j: int|
                        0 <= j < i && #[trigger] spec_device_entry(devices@, *los, j) is Some
                            ==> rat_le(
                            b.1 as int,
                            b.2 as int,
                            spec_device_entry(devices@, *los, j)->Some_0.0,
                            spec_device_entry(devices@, *los, j)->Some_0.1,
                        )
                    &&& forall|j: int|
                        0 <= j < b.0 as int && #[trigger] spec_device_entry(
                            devices@,
                            *los,
                            j,
                        ) is Some ==> rat_lt(
                            b.1 as int,
                            b.2 as int,
                            spec_device_entry(devices@, *los, j)->Some_0.0,
                            spec_device_entry(devices@, *los, j)->Some_0.1,
                        )
                },
                None => forall|j: int|
                    0 <= j < i ==> #[trigger] spec_device_entry(devices@, *los, j) is None,
            },
        decreases devices@.len() - i,
    {
        let e = ray_box_entry(los, &devices[i]);
        match e {
            Some(p) => {
                match best {
                    Some(b) => {
                        proof {
                            lemma_mul_le(p.0 as int, b.2 as int, 0x20000000000000000, MAX_DIR as int);
                            lemma_mul_le(b.1 as int, p.1 as int, 0x20000000000000000, MAX_DIR as int);
                        }
                        if p.0 * b.2 < b.1 * p.1 {
                            proof {
                                assert forall|j: int|
                                    0 <= j < i + 1 && #[trigger] spec_device_entry(
                                        devices@,
                                        *los,
                                        j,
                                    ) is Some implies rat_le(
                                    p.0 as int,
                                    p.1 as int,
                                    spec_device_entry(devices@, *los, j)->Some_0.0,
                                    spec_device_entry(devices@, *los, j)->Some_0.1,
                                ) by {
                                    if j < i {
                                        let ej = spec_device_entry(devices@, *los, j)->Some_0;
                                        lemma_entry_den_pos(
                                            v3(los.origin),
                                            v3(los.direction),
                                            v3(devices@[j].spec_min()),
                                            v3(devices@[j].spec_max()),
                                        );
                                        lemma_rat_lt_le_trans(
                                            p.0 as int,
                                            p.1 as int,
                                            b.1 as int,
                                            b.2 as int,
                                            ej.0,
                                            ej.1,
                                        );
                                    }
                                }
                                assert forall|j: int|
                                    0 <= j < i as int && #[trigger] spec_device_entry(
                                        devices@,
                                        *los,
                                        j,
                                    ) is Some implies rat_lt(
                                    p.0 as int,
                                    p.1 as int,
                                    spec_device_entry(devices@, *los, j)->Some_0.0,
                                    spec_device_entry(devices@, *los, j)->Some_0.1,
                                ) by {
                                    let ej = spec_device_entry(devices@, *los, j)->Some_0;
                                    lemma_entry_den_pos(
                                        v3(los.origin),
                                        v3(los.direction),
                                        v3(devices@[j].spec_min()),
                                        v3(devices@[j].spec_max()),
                                    );
                                    lemma_rat_lt_le_trans(
                                        p.0 as int,
                                        p.1 as int,
                                        b.1 as int,
                                        b.2 as int,
                                        ej.0,
                                        ej.1,
                                    );
                                }
                            }
                            best = Some((i, p.0, p.1));
                        }
                    },
                    None => {
                        best = Some((i, p.0, p.1));
                    },
                }
            },
            None => {},
        }
        i = i + 1;
    }
    proof {
        lemma_closest_from_correct(devices@, *los, 0);
        match spec_closest(devices@, *los) {
            Option::Some(k) => {
                let ek = spec_device_entry(devices@, *los, k)->Some_0;
                match best {
                    Option::Some(b) => {
                        let eb = spec_device_entry(devices@, *los, b.0 as int)->Some_0;
                        if (b.0 as int) < k {
                            // the recursion would have to be strictly
                            // farther than an index before it
                            assert(rat_lt(ek.0, ek.1, eb.0, eb.1));
                            assert(rat_le(eb.0, eb.1, ek.0, ek.1));
                            assert(false);
                        } else if (b.0 as int) > k {
                            assert(rat_lt(eb.0, eb.1, ek.0, ek.1));
                            assert(rat_le(ek.0, ek.1, eb.0, eb.1));
                            assert(false);
                        }
                    },
                    Option::None => {
                        assert(spec_device_entry(devices@, *los, k) is None);
                    },
                }
            },
            Option::None => {
                match best {
                    Option::Some(b) => {
                        assert(spec_device_entry(devices@, *los, b.0 as int) is None);
                    },
                    Option::None => {},
                }
            },
        }
    }
    match best {
        Some(b) => Some(b.0),
        None => None,
    }
}

} // verus!
