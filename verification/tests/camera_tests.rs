use wgpu_pcd::camera::{CameraRig, Key, Position};

const MOVING_KEYS: [(Key, Key); 6] = [
    (Key::ArrowRight, Key::ArrowLeft),
    (Key::ArrowUp, Key::ArrowDown),
    (Key::PageUp, Key::PageDown),
    (Key::KeyW, Key::KeyA),
    (Key::KeyE, Key::KeyS),
    (Key::KeyR, Key::KeyD),
];

#[test]
fn starts_ten_units_out() {
    let rig = CameraRig::new();
    assert_eq!(rig.camera, Position { x: 0, y: 0, z: 10 });
    assert_eq!(rig.focus, Position { x: 0, y: 0, z: 0 });
}

#[test]
fn each_key_moves_one_coordinate() {
    let cases = [
        (Key::ArrowRight, Position { x: 4, y: 0, z: 10 }, Position { x: 0, y: 0, z: 0 }),
        (Key::ArrowLeft, Position { x: -4, y: 0, z: 10 }, Position { x: 0, y: 0, z: 0 }),
        (Key::ArrowUp, Position { x: 0, y: -4, z: 10 }, Position { x: 0, y: 0, z: 0 }),
        (Key::ArrowDown, Position { x: 0, y: 4, z: 10 }, Position { x: 0, y: 0, z: 0 }),
        (Key::PageUp, Position { x: 0, y: 0, z: 14 }, Position { x: 0, y: 0, z: 0 }),
        (Key::PageDown, Position { x: 0, y: 0, z: 6 }, Position { x: 0, y: 0, z: 0 }),
        (Key::KeyW, Position { x: 0, y: 0, z: 10 }, Position { x: 4, y: 0, z: 0 }),
        (Key::KeyA, Position { x: 0, y: 0, z: 10 }, Position { x: -4, y: 0, z: 0 }),
        (Key::KeyE, Position { x: 0, y: 0, z: 10 }, Position { x: 0, y: 4, z: 0 }),
        (Key::KeyS, Position { x: 0, y: 0, z: 10 }, Position { x: 0, y: -4, z: 0 }),
        (Key::KeyR, Position { x: 0, y: 0, z: 10 }, Position { x: 0, y: 0, z: 4 }),
        (Key::KeyD, Position { x: 0, y: 0, z: 10 }, Position { x: 0, y: 0, z: -4 }),
    ];
    for (key, camera, focus) in cases {
        let mut rig = CameraRig::new();
        assert!(rig.press(key));
        assert_eq!(rig.camera, camera, "{:?}", key);
        assert_eq!(rig.focus, focus, "{:?}", key);
    }
}

#[test]
fn opposite_keys_cancel() {
    for (a, b) in MOVING_KEYS {
        let mut rig = CameraRig::new();
        rig.press(Key::KeyW);
        let before = rig;
        rig.press(a);
        rig.press(b);
        assert_eq!(rig, before);
        rig.press(b);
        rig.press(a);
        assert_eq!(rig, before);
    }
}

#[test]
fn reset_puts_eye_twenty_units_out() {
    let mut rig = CameraRig::new();
    rig.press(Key::ArrowRight);
    rig.press(Key::KeyR);
    assert!(rig.press(Key::KeyQ));
    assert_eq!(rig.camera, Position { x: 0, y: 0, z: 20 });
    assert_eq!(rig.focus, Position { x: 0, y: 0, z: 0 });
    let again = rig;
    rig.press(Key::KeyQ);
    assert_eq!(rig, again);
}

#[test]
fn unbound_keys_are_not_handled() {
    let mut rig = CameraRig::new();
    assert!(!rig.press(Key::Escape));
    assert!(!rig.press(Key::Other));
    assert_eq!(rig, CameraRig::new());
}

#[test]
fn coordinates_stop_at_the_ends_of_the_range() {
    let mut rig = CameraRig { camera: Position { x: i64::MAX - 1, y: i64::MIN + 2, z: 0 }, focus: Position { x: 0, y: 0, z: 0 } };
    rig.press(Key::ArrowRight);
    rig.press(Key::ArrowUp);
    assert_eq!(rig.camera, Position { x: i64::MAX, y: i64::MIN, z: 0 });
}
