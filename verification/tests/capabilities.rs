use whodat::{Cap, Capability};

fn all() -> Vec<Capability> {
    vec![
        Capability::Keyboard,
        Capability::Pointer,
        Capability::Pointingstick,
        Capability::Touchpad,
        Capability::Clickpad,
        Capability::Pressurepad,
        Capability::Touchscreen,
        Capability::Trackball,
        Capability::Joystick,
        Capability::Gamepad,
        Capability::Tablet,
        Capability::TabletScreen,
        Capability::TabletExternal,
        Capability::TabletPad,
        Capability::Switch,
    ]
}

#[test]
fn closure_of_pressurepad() {
    let caps = Capability::extend(vec![Capability::Pressurepad]);
    assert_eq!(
        caps,
        vec![
            Capability::Pressurepad,
            Capability::Clickpad,
            Capability::Touchpad,
            Capability::Pointer
        ]
    );
}

#[test]
fn closure_of_clickpad() {
    let caps = Capability::extend(vec![Capability::Clickpad]);
    assert_eq!(
        caps,
        vec![Capability::Clickpad, Capability::Touchpad, Capability::Pointer]
    );
}

#[test]
fn closure_of_touchpad() {
    let caps = Capability::extend(vec![Capability::Touchpad]);
    assert_eq!(caps, vec![Capability::Touchpad, Capability::Pointer]);
}

#[test]
fn closure_adds_nothing_to_others() {
    assert_eq!(Capability::extend(vec![]), vec![]);
    assert_eq!(
        Capability::extend(vec![Capability::Keyboard]),
        vec![Capability::Keyboard]
    );
    assert_eq!(
        Capability::extend(vec![Capability::Pointer]),
        vec![Capability::Pointer]
    );
    assert_eq!(
        Capability::extend(vec![Capability::Keyboard, Capability::Switch, Capability::Gamepad]),
        vec![Capability::Switch, Capability::Gamepad, Capability::Keyboard]
    );
}

#[test]
fn closure_drops_repetitions() {
    assert_eq!(
        Capability::extend(vec![
            Capability::Touchpad,
            Capability::Touchpad,
            Capability::Pointer
        ]),
        vec![Capability::Touchpad, Capability::Pointer]
    );
}

#[test]
fn closure_is_idempotent() {
    // Every set of capabilities, as a mask over the fifteen of them.
    let all = all();
    for mask in 0u32..(1 << 15) {
        let mut given = Vec::new();
        for (bit, cap) in all.iter().enumerate() {
            if mask & (1 << bit) != 0 {
                given.push(*cap);
            }
        }
        let once = Capability::extend(given.clone());
        let twice = Capability::extend(once.clone());
        assert_eq!(once, twice);
        for cap in given {
            assert!(once.contains(&cap));
        }
    }
}

#[test]
fn udev_properties_map_to_capabilities() {
    assert_eq!(Capability::from_udev_prop("ID_INPUT_KEY"), Some(Capability::Keyboard));
    assert_eq!(
        Capability::from_udev_prop("ID_INPUT_KEYBOARD"),
        Some(Capability::Keyboard)
    );
    assert_eq!(Capability::from_udev_prop("ID_INPUT_MOUSE"), Some(Capability::Pointer));
    assert_eq!(
        Capability::from_udev_prop("ID_INPUT_TOUCHPAD"),
        Some(Capability::Touchpad)
    );
    assert_eq!(
        Capability::from_udev_prop("ID_INPUT_TOUCHSCREEN"),
        Some(Capability::Touchscreen)
    );
    assert_eq!(
        Capability::from_udev_prop("ID_INPUT_TRACKBALL"),
        Some(Capability::Trackball)
    );
    assert_eq!(
        Capability::from_udev_prop("ID_INPUT_POINTINGSTICK"),
        Some(Capability::Pointingstick)
    );
    assert_eq!(Capability::from_udev_prop("ID_INPUT_TABLET"), Some(Capability::Tablet));
    assert_eq!(
        Capability::from_udev_prop("ID_INPUT_TABLET_PAD"),
        Some(Capability::TabletPad)
    );
    assert_eq!(
        Capability::from_udev_prop("ID_INPUT_TABLET_JOYSTICK"),
        Some(Capability::Joystick)
    );
    assert_eq!(Capability::from_udev_prop("ID_INPUT_SWITCH"), Some(Capability::Switch));
}

#[test]
fn unknown_properties_map_to_nothing() {
    assert_eq!(Capability::from_udev_prop(""), None);
    assert_eq!(Capability::from_udev_prop("ID_INPUT"), None);
    assert_eq!(Capability::from_udev_prop("ID_INPUT_JOYSTICK"), None);
    assert_eq!(Capability::from_udev_prop("ID_INPUT_HEIGHT_MM"), None);
    assert_eq!(Capability::from_udev_prop("ID_INPUT_WIDTH_MM"), None);
    assert_eq!(Capability::from_udev_prop("id_input_key"), None);
    assert_eq!(Capability::from_udev_prop("ID_INPUT_KEYS"), None);
    assert_eq!(Capability::from_udev_prop("XID_INPUT_KEY"), None);
}

#[test]
fn masks_are_single_bits() {
    for (bit, cap) in all().into_iter().enumerate() {
        assert_eq!(Cap::as_mask(cap), 1u32 << bit);
        assert_eq!(Cap::from_mask(1u32 << bit), Some(cap));
        assert_eq!(Capability::from_bit(bit as u32), Some(cap));
    }
    assert_eq!(Cap::as_mask(Capability::Keyboard), 1);
    assert_eq!(Cap::as_mask(Capability::Switch), 0x4000);
}

#[test]
fn other_masks_are_no_capability() {
    assert_eq!(Cap::from_mask(0), None);
    assert_eq!(Cap::from_mask(3), None);
    assert_eq!(Cap::from_mask(1 << 15), None);
    assert_eq!(Cap::from_mask(1 << 31), None);
    assert_eq!(Cap::from_mask(u32::MAX), None);
    assert_eq!(Capability::from_bit(15), None);
    assert_eq!(Capability::from_bit(31), None);
    assert_eq!(Capability::from_bit(u32::MAX), None);
}

#[test]
fn set_and_has() {
    let mut caps = Cap::new(vec![]);
    for cap in all() {
        assert!(!caps.has(cap));
    }
    caps.set(Capability::Gamepad);
    assert!(caps.has(Capability::Gamepad));
    assert!(!caps.has(Capability::Joystick));
    caps.set(Capability::Gamepad);
    caps.set(Capability::Keyboard);
    assert_eq!(caps.to_vec(), vec![Capability::Gamepad, Capability::Keyboard]);
}

#[test]
fn to_vec_lists_highest_bit_first() {
    let mut ascending = all();
    let caps = Cap::new(ascending.clone());
    ascending.reverse();
    assert_eq!(caps.to_vec(), ascending);
    assert_eq!(Cap::new(vec![]).to_vec(), vec![]);
    assert_eq!(
        Cap::new(vec![Capability::Pointer, Capability::Switch, Capability::Pointer]).to_vec(),
        vec![Capability::Switch, Capability::Pointer]
    );
}
