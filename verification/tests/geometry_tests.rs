use gesture_ease::camera::{CameraConfig, Format};
use gesture_ease::devices::Device;
use gesture_ease::math::{
    angle_bw_cameras_from_z_axis, calc_position, get_closest_device_in_los, get_los,
    triangulate_rays, Quat, Ray, Vec3,
};
use gesture_ease::{GError, ImageCoords};

// One fixed-point unit is a millimeter: 1000 units per meter.
fn camera(pos: Vec3, q: Quat) -> CameraConfig {
    CameraConfig {
        position: pos,
        orientation: q,
        img_width: 4000,
        img_height: 4000,
        focal: 10000,
        format: Format::RGB888,
    }
}

fn identity() -> Quat {
    Quat::identity()
}

#[test]
fn formats() {
    assert_eq!(Format::RGB888.fourcc(), 875710290);
    assert_eq!(Format::YUYV.fourcc(), u32::from_le_bytes(*b"YUYV"));
    assert_eq!(Format::RGB888.planes(), 3);
    assert_eq!(Format::YUYV.planes(), 2);
}

#[test]
fn image_coords_center() {
    let c = ImageCoords::new(100, 40, 640, 480);
    assert_eq!(c.x_max(), 640);
    assert_eq!(c.y_max(), 480);
    assert_eq!(c.x_mid(), 320);
    assert_eq!(c.y_mid(), 240);
    assert_eq!(c.coords_from_mid(), (-220, -200));
}

// Triangulation correctness: cameras a meter left and right of the
// origin, both facing +z with zero rotation; the projections of the
// point (0, 0, 5) recover it exactly.
#[test]
fn triangulation_recovers_known_point() {
    let cam1 = camera(Vec3 { x: -1000, y: 0, z: 0 }, identity());
    let cam2 = camera(Vec3 { x: 1000, y: 0, z: 0 }, identity());
    // ((0,0,5000) - pos) projected at focal 10000 into a 4000x4000 frame
    let c1 = ImageCoords::new(3000, 2000, 4000, 4000);
    let c2 = ImageCoords::new(1000, 2000, 4000, 4000);
    let p = calc_position(&cam1, &c1, &cam2, &c2).expect("well-conditioned");
    assert_eq!(p, Vec3 { x: 0, y: 0, z: 5000 });
}

#[test]
fn triangulation_rejects_parallel_rays() {
    let p1 = Vec3 { x: -1000, y: 0, z: 0 };
    let p2 = Vec3 { x: 1000, y: 0, z: 0 };
    let d = Vec3 { x: 0, y: 0, z: 1000 };
    assert_eq!(triangulate_rays(&p1, &d, &p2, &d), Err(GError::GeometryError));
}

#[test]
fn triangulation_of_crossing_rays_hits_the_crossing() {
    // rays from (-1000,0,0) and (1000,0,0) both through the origin
    let p1 = Vec3 { x: -1000, y: 0, z: 0 };
    let d1 = Vec3 { x: 1000, y: 1000, z: 0 };
    let p2 = Vec3 { x: 1000, y: 0, z: 0 };
    let d2 = Vec3 { x: -1000, y: 1000, z: 0 };
    let m = triangulate_rays(&p1, &d1, &p2, &d2).expect("skew solvable");
    assert_eq!(m, Vec3 { x: 0, y: 1000, z: 0 });
}

// LOS selection: the configured box straight ahead is selected; a ray
// off to the side selects nothing.
#[test]
fn los_selects_box_ahead_and_nothing_sideways() {
    let dev = Device::new(
        "lamp".to_string(),
        Vec3 { x: 0, y: 0, z: 4000 },
        Vec3 { x: 1000, y: 1000, z: 6000 },
    )
    .expect("valid box");
    let devices = vec![dev];
    let ahead = Ray {
        origin: Vec3 { x: 0, y: 0, z: 0 },
        direction: Vec3 { x: 0, y: 0, z: 1000 },
    };
    assert_eq!(get_closest_device_in_los(&devices, &ahead), Some(0));
    let sideways = Ray {
        origin: Vec3 { x: 0, y: 0, z: 0 },
        direction: Vec3 { x: 1000, y: 0, z: 0 },
    };
    assert_eq!(get_closest_device_in_los(&devices, &sideways), None);
}

#[test]
fn los_picks_nearest_box_and_first_on_ties() {
    let near = Device::new(
        "near".to_string(),
        Vec3 { x: -500, y: -500, z: 2000 },
        Vec3 { x: 500, y: 500, z: 3000 },
    )
    .unwrap();
    let far = Device::new(
        "far".to_string(),
        Vec3 { x: -500, y: -500, z: 4000 },
        Vec3 { x: 500, y: 500, z: 6000 },
    )
    .unwrap();
    let twin = Device::new(
        "twin".to_string(),
        Vec3 { x: -500, y: -500, z: 2000 },
        Vec3 { x: 500, y: 500, z: 3500 },
    )
    .unwrap();
    let ray = Ray {
        origin: Vec3 { x: 0, y: 0, z: 0 },
        direction: Vec3 { x: 0, y: 0, z: 1000 },
    };
    let devices = vec![far.clone(), near.clone(), twin];
    // nearest entry wins; the tie with "twin" goes to the earlier entry
    assert_eq!(get_closest_device_in_los(&devices, &ray), Some(1));
    let devices = vec![far, near];
    assert_eq!(get_closest_device_in_los(&devices, &ray), Some(1));
}

#[test]
fn device_center_is_computed_eagerly_and_exactly() {
    let dev = Device::new(
        "tv".to_string(),
        Vec3 { x: 0, y: 2, z: -7 },
        Vec3 { x: 10, y: 5, z: -3 },
    )
    .unwrap();
    assert_eq!(*dev.pos_mean(), Vec3 { x: 5, y: 3, z: -5 });
    assert_eq!(*dev.pos(), Vec3 { x: 5, y: 3, z: -5 });
    let (lo, hi) = dev.bounding_box();
    assert_eq!(lo, Vec3 { x: 0, y: 2, z: -7 });
    assert_eq!(hi, Vec3 { x: 10, y: 5, z: -3 });
}

#[test]
fn disordered_device_box_is_config_error() {
    let r = Device::new(
        "bad".to_string(),
        Vec3 { x: 10, y: 0, z: 0 },
        Vec3 { x: 0, y: 0, z: 0 },
    );
    assert!(matches!(r, Err(GError::ConfigError)));
}

#[test]
fn angle_between_parallel_cameras_is_pure_cosine() {
    let cam1 = camera(Vec3 { x: -1000, y: 0, z: 0 }, identity());
    let cam2 = camera(Vec3 { x: 1000, y: 0, z: 0 }, identity());
    let th = angle_bw_cameras_from_z_axis(&cam1, &cam2).unwrap();
    assert_eq!(th.c, 4096 * 4096);
    assert_eq!(th.s, 0);
}

#[test]
fn angle_between_perpendicular_cameras_is_pure_sine() {
    // a quarter turn about the vertical axis at scale 7071 (~sin 45deg)
    let yaw90 = Quat { x: 0, y: 7071, z: 0, w: 7071, den: 2 * 7071 * 7071 };
    let cam1 = camera(Vec3 { x: 0, y: 0, z: 0 }, identity());
    let cam2 = camera(Vec3 { x: 0, y: 0, z: 0 }, yaw90);
    let th = angle_bw_cameras_from_z_axis(&cam1, &cam2).unwrap();
    assert_eq!(th.c, 0);
    assert_eq!(th.s, -(4096 * 4096));
}

#[test]
fn los_ray_follows_head_orientation() {
    let cam = camera(Vec3 { x: 0, y: 0, z: 0 }, identity());
    let pos = Vec3 { x: 5, y: 6, z: 7 };
    let ray = get_los(&cam, &pos, &identity()).unwrap();
    assert_eq!(ray.origin, pos);
    assert_eq!(ray.direction, Vec3 { x: 0, y: 0, z: 4096 });
    // a quarter turn about the vertical axis swings the gaze to +x
    let yaw90 = Quat { x: 0, y: 7071, z: 0, w: 7071, den: 2 * 7071 * 7071 };
    let ray = get_los(&cam, &pos, &yaw90).unwrap();
    assert_eq!(ray.direction, Vec3 { x: 4096, y: 0, z: 0 });
}
