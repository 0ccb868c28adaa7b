use gesture_ease::align::sort_align;
use gesture_ease::camera::{CameraConfig, Format};
use gesture_ease::devices::Device;
use gesture_ease::math::{Quat, Theta, Vec3};
use gesture_ease::pipeline::{fuse_cycle, gesture_gate, run_cycle};
use gesture_ease::{Gesture, GesturePrediction};
use gesture_ease::head_detection::HeadPrediction;
use gesture_ease::hpe::HpePrediction;

fn camera(pos: Vec3) -> CameraConfig {
    CameraConfig {
        position: pos,
        orientation: Quat { x: 0, y: 0, z: 0, w: 1, den: 1 },
        img_width: 4000,
        img_height: 4000,
        focal: 10000,
        format: Format::YUYV,
    }
}

fn g(x: i64, y: i64, gesture: Gesture) -> GesturePrediction {
    GesturePrediction { nose_x: x, nose_y: y, gesture }
}

#[test]
fn pred_batches_start_empty() {
    assert!(gesture_ease::GesturePreds::new().prediction.is_empty());
    assert!(gesture_ease::head_detection::HeadPreds::new().prediction.is_empty());
    assert!(gesture_ease::HPEPreds::new().prediction.is_empty());
}

#[test]
fn gesture_states() {
    assert!(Gesture::Toggle.is_toggle());
    assert!(!Gesture::Toggle.is_none());
    assert!(Gesture::Inactive.is_none());
    assert!(!Gesture::Inactive.is_toggle());
}

// Alignment determinism: with the zero angle the sort is a plain
// ascending-x sort, with a quarter turn an ascending-y sort.
#[test]
fn alignment_zero_angle_sorts_by_x() {
    let mut batch = vec![
        g(50, 0, Gesture::Toggle),
        g(10, 5, Gesture::Inactive),
        g(30, 9, Gesture::Toggle),
    ];
    sort_align(&mut batch, &Theta { c: 1, s: 0 });
    let xs: Vec<i64> = batch.iter().map(|p| p.nose_x).collect();
    assert_eq!(xs, vec![10, 30, 50]);
}

#[test]
fn alignment_quarter_angle_sorts_by_y() {
    let mut batch = vec![
        g(50, 7, Gesture::Toggle),
        g(10, 2, Gesture::Inactive),
        g(30, 4, Gesture::Toggle),
    ];
    sort_align(&mut batch, &Theta { c: 0, s: 1 });
    let ys: Vec<i64> = batch.iter().map(|p| p.nose_y).collect();
    assert_eq!(ys, vec![2, 4, 7]);
}

#[test]
fn alignment_is_stable_on_equal_keys() {
    let mut batch = vec![
        g(2, 900, Gesture::Toggle),
        g(2, 300, Gesture::Inactive),
        g(1, 500, Gesture::Inactive),
    ];
    sort_align(&mut batch, &Theta { c: 1, s: 0 });
    assert_eq!(batch[0].nose_x, 1);
    // the two x == 2 records keep their input order
    assert_eq!(batch[1].nose_y, 900);
    assert_eq!(batch[2].nose_y, 300);
}

// Gate short-circuit: a cycle whose gesture records are all in the
// None state skips head-pose, triangulation and LOS entirely.
#[test]
fn cycle_short_circuits_when_every_record_inactive() {
    let batch = vec![g(1, 1, Gesture::Inactive), g(2, 2, Gesture::Inactive)];
    assert!(!gesture_gate(&batch));
    let cams = (camera(Vec3 { x: -1000, y: 0, z: 0 }), camera(Vec3 { x: 1000, y: 0, z: 0 }));
    let out = run_cycle(
        &batch,
        &vec![HeadPrediction { x: 1, y: 1 }],
        &vec![],
        &cams.0,
        &cams.1,
        &vec![],
        &Theta { c: 1, s: 0 },
    );
    assert!(out.is_empty());
}

#[test]
fn cycle_admits_when_any_record_toggles() {
    let batch = vec![g(1, 1, Gesture::Inactive), g(2, 2, Gesture::Toggle)];
    assert!(gesture_gate(&batch));
    assert!(!gesture_gate(&vec![]));
}

// End-to-end: two cameras, one subject with state Toggle, a
// head-detection point and the identity head orientation emit exactly
// one (device-or-none, gesture) result.
#[test]
fn end_to_end_single_subject_emits_one_result() {
    let cam1 = camera(Vec3 { x: -1000, y: 0, z: 0 });
    let cam2 = camera(Vec3 { x: 1000, y: 0, z: 0 });
    let device = Device::new(
        "lamp".to_string(),
        Vec3 { x: -500, y: -500, z: 4000 },
        Vec3 { x: 500, y: 500, z: 6000 },
    )
    .unwrap();
    let gestures = vec![g(3000, 2000, Gesture::Toggle)];
    let heads = vec![HeadPrediction { x: 10, y: 0 }];
    let poses = vec![HpePrediction {
        x: 3000,
        y: 2000,
        orientation: Quat { x: 0, y: 0, z: 0, w: 1, den: 1 },
    }];
    let out = run_cycle(
        &gestures,
        &heads,
        &poses,
        &cam1,
        &cam2,
        &vec![device],
        &Theta { c: 4096 * 4096, s: 0 },
    );
    assert_eq!(out.len(), 1);
    assert_eq!(out[0].gesture, Gesture::Toggle);
}

// The exact end-to-end geometry: the subject at (0, 0, 5) gazing
// along +z selects the box straight ahead of it.
#[test]
fn end_to_end_selects_device_in_gaze() {
    let cam1 = camera(Vec3 { x: -1000, y: 0, z: 0 });
    let cam2 = camera(Vec3 { x: 1000, y: 0, z: 0 });
    let device = Device::new(
        "lamp".to_string(),
        Vec3 { x: -500, y: -500, z: 8000 },
        Vec3 { x: 500, y: 500, z: 9000 },
    )
    .unwrap();
    let gestures = vec![g(3000, 2000, Gesture::Toggle)];
    let heads = vec![HeadPrediction { x: 1000, y: 2000 }];
    let poses = vec![HpePrediction {
        x: 3000,
        y: 2000,
        orientation: Quat { x: 0, y: 0, z: 0, w: 1, den: 1 },
    }];
    let out = fuse_cycle(&gestures, &heads, &poses, &cam1, &cam2, &vec![device]);
    assert_eq!(out.len(), 1);
    assert_eq!(out[0].device, Some(0));
    assert_eq!(out[0].gesture, Gesture::Toggle);
}

#[test]
fn inactive_subject_is_skipped_in_fusion() {
    let cam1 = camera(Vec3 { x: -1000, y: 0, z: 0 });
    let cam2 = camera(Vec3 { x: 1000, y: 0, z: 0 });
    let gestures = vec![g(3000, 2000, Gesture::Inactive)];
    let heads = vec![HeadPrediction { x: 1000, y: 2000 }];
    let poses = vec![HpePrediction {
        x: 3000,
        y: 2000,
        orientation: Quat { x: 0, y: 0, z: 0, w: 1, den: 1 },
    }];
    let out = fuse_cycle(&gestures, &heads, &poses, &cam1, &cam2, &vec![]);
    assert!(out.is_empty());
}

#[test]
fn batches_fuse_up_to_the_shorter_length_only() {
    let cam1 = camera(Vec3 { x: -1000, y: 0, z: 0 });
    let cam2 = camera(Vec3 { x: 1000, y: 0, z: 0 });
    let gestures = vec![
        g(3000, 2000, Gesture::Toggle),
        g(3200, 2000, Gesture::Toggle),
    ];
    // only one head detection: the surplus gesture record is dropped
    let heads = vec![HeadPrediction { x: 1000, y: 2000 }];
    let poses = vec![
        HpePrediction { x: 3000, y: 2000, orientation: Quat { x: 0, y: 0, z: 0, w: 1, den: 1 } },
        HpePrediction { x: 3200, y: 2000, orientation: Quat { x: 0, y: 0, z: 0, w: 1, den: 1 } },
    ];
    let out = fuse_cycle(&gestures, &heads, &poses, &cam1, &cam2, &vec![]);
    assert_eq!(out.len(), 1);
}
