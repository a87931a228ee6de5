use camera_rig::follow::BUFFER_CAPACITY;
use camera_rig::rig::CameraRig;

type Rig = CameraRig<(i32, i32), i32, ()>;

#[test]
fn framed_target_is_followed_without_overrides() {
    let mut rig: Rig = CameraRig::new();
    assert_eq!(rig.follow_target(Some(((10, 20), 600))), Some(((10, 20), 600)));
    assert_eq!(rig.follow().samples(), &vec![((10, 20), 600)]);
}

#[test]
fn no_subjects_holds_the_history() {
    let mut rig: Rig = CameraRig::new();
    rig.follow_target(Some(((1, 2), 3)));
    assert_eq!(rig.follow_target(None), None);
    assert_eq!(rig.follow().samples(), &vec![((1, 2), 3)]);
    let mut empty: Rig = CameraRig::new();
    assert_eq!(empty.follow_target(None), None);
    assert!(empty.follow().is_empty());
}

#[test]
fn overrides_replace_their_part() {
    let mut rig: Rig = CameraRig::new();
    rig.set_overrides(Some((100, 200)), None);
    assert_eq!(rig.target(Some(((1, 2), 3))), Some(((100, 200), 3)));
    rig.set_overrides(None, Some(5));
    assert_eq!(rig.target(Some(((1, 2), 3))), Some(((1, 2), 5)));
    assert_eq!(rig.target(None), None);
    rig.set_overrides(Some((100, 200)), Some(5));
    assert_eq!(rig.target(Some(((1, 2), 3))), Some(((100, 200), 5)));
    assert_eq!(rig.target(None), Some(((100, 200), 5)));
    assert_eq!(rig.position_override(), Some((100, 200)));
    assert_eq!(rig.zoom_override(), Some(5));
    rig.set_overrides(None, None);
    assert_eq!(rig.target(Some(((1, 2), 3))), Some(((1, 2), 3)));
}

#[test]
fn single_subject_at_rest_fills_history() {
    let mut rig: Rig = CameraRig::new();
    for _ in 0..BUFFER_CAPACITY {
        rig.follow_target(Some(((40, 50), 700)));
    }
    assert_eq!(rig.follow().len(), BUFFER_CAPACITY);
    assert!(rig.follow().samples().iter().all(|s| *s == ((40, 50), 700)));
}

#[test]
fn override_takes_over_history() {
    let mut rig: Rig = CameraRig::new();
    for i in 0..BUFFER_CAPACITY as i32 {
        rig.follow_target(Some(((i, -i), 300 + i)));
    }
    rig.set_overrides(Some((100, 200)), Some(5));
    for i in 0..BUFFER_CAPACITY as i32 {
        let framed = if i % 3 == 0 { None } else { Some(((i, i), i)) };
        rig.follow_target(framed);
    }
    assert!(rig.follow().samples().iter().all(|s| *s == ((100, 200), 5)));
}

#[test]
fn rig_shakes_are_kept_apart_from_history() {
    let mut rig: Rig = CameraRig::new();
    assert!(rig.trigger_noise(2, ()));
    assert!(rig.trigger_sinusoidal(1, ()));
    assert!(rig.trigger_rotational(3, ()));
    assert!(!rig.trigger_noise(-1, ()));
    assert_eq!(rig.shake().len(), 3);
    assert_eq!(rig.tick_clock(), 11);
    rig.advance_shakes();
    assert_eq!(rig.shake().len(), 2);
    rig.advance_shakes();
    rig.advance_shakes();
    assert_eq!(rig.shake().len(), 0);
    assert!(rig.follow().is_empty());
}
