use whodat::{AbstractType, Cap, Capability};

fn reduce(caps: Vec<Capability>) -> AbstractType {
    Cap::new(caps).reduce()
}

#[test]
fn nothing_is_a_switch() {
    assert_eq!(reduce(vec![]), AbstractType::Switch);
    assert_eq!(reduce(vec![Capability::Switch]), AbstractType::Switch);
}

#[test]
fn keyboard_overrides_switch() {
    assert_eq!(reduce(vec![Capability::Keyboard]), AbstractType::Keyboard);
    assert_eq!(
        reduce(vec![Capability::Keyboard, Capability::Switch]),
        AbstractType::Keyboard
    );
    assert_eq!(
        reduce(vec![Capability::Switch, Capability::Keyboard]),
        AbstractType::Keyboard
    );
}

#[test]
fn keyboard_with_pointer_is_keyboard() {
    assert_eq!(
        reduce(vec![Capability::Keyboard, Capability::Pointer]),
        AbstractType::Keyboard
    );
    assert_eq!(
        reduce(vec![Capability::Pointer, Capability::Keyboard]),
        AbstractType::Keyboard
    );
}

#[test]
fn pointer_alone_is_pointer() {
    assert_eq!(reduce(vec![Capability::Pointer]), AbstractType::Pointer);
    assert_eq!(
        reduce(vec![Capability::Pointer, Capability::Switch]),
        AbstractType::Pointer
    );
}

#[test]
fn keyboard_with_touchpad_is_pointer() {
    assert_eq!(
        reduce(vec![Capability::Keyboard, Capability::Touchpad]),
        AbstractType::Pointer
    );
    assert_eq!(
        reduce(vec![Capability::Touchpad, Capability::Keyboard]),
        AbstractType::Pointer
    );
}

#[test]
fn pointer_family_forces_pointer() {
    for cap in [
        Capability::Pointingstick,
        Capability::Touchpad,
        Capability::Clickpad,
        Capability::Pressurepad,
        Capability::Trackball,
    ] {
        assert_eq!(reduce(vec![cap]), AbstractType::Pointer);
        assert_eq!(reduce(vec![Capability::Keyboard, cap]), AbstractType::Pointer);
        assert_eq!(reduce(vec![cap, Capability::Keyboard]), AbstractType::Pointer);
    }
}

#[test]
fn touchscreen_overrides_pointers() {
    assert_eq!(reduce(vec![Capability::Touchscreen]), AbstractType::Touchscreen);
    assert_eq!(
        reduce(vec![Capability::Touchscreen, Capability::Trackball]),
        AbstractType::Touchscreen
    );
    assert_eq!(
        reduce(vec![Capability::Keyboard, Capability::Touchpad, Capability::Touchscreen]),
        AbstractType::Touchscreen
    );
}

#[test]
fn gaming_overrides_touchscreen_in_both_orders() {
    let one = reduce(vec![Capability::Touchscreen, Capability::Gamepad]);
    let other = reduce(vec![Capability::Gamepad, Capability::Touchscreen]);
    assert_eq!(one, other);
    assert_eq!(one, AbstractType::GamingDevice);
    assert_eq!(
        reduce(vec![Capability::Joystick, Capability::Touchscreen]),
        AbstractType::GamingDevice
    );
}

#[test]
fn tablet_overrides_everything() {
    for cap in [
        Capability::Tablet,
        Capability::TabletScreen,
        Capability::TabletExternal,
        Capability::TabletPad,
    ] {
        assert_eq!(reduce(vec![cap]), AbstractType::Tablet);
        assert_eq!(
            reduce(vec![
                cap,
                Capability::Gamepad,
                Capability::Touchscreen,
                Capability::Keyboard
            ]),
            AbstractType::Tablet
        );
    }
}

fn permutations(items: &[Capability]) -> Vec<Vec<Capability>> {
    if items.len() <= 1 {
        return vec![items.to_vec()];
    }
    let mut all = Vec::new();
    for i in 0..items.len() {
        let mut rest = items.to_vec();
        let first = rest.remove(i);
        for mut tail in permutations(&rest) {
            tail.insert(0, first);
            all.push(tail);
        }
    }
    all
}

#[test]
fn order_does_not_change_the_type() {
    let sets = [
        vec![Capability::Keyboard, Capability::Pointer, Capability::Switch],
        vec![Capability::Keyboard, Capability::Pointer, Capability::Touchpad],
        vec![Capability::Touchscreen, Capability::Gamepad, Capability::Trackball],
        vec![
            Capability::Tablet,
            Capability::Joystick,
            Capability::Touchscreen,
            Capability::Keyboard,
        ],
    ];
    let expected = [
        AbstractType::Keyboard,
        AbstractType::Pointer,
        AbstractType::GamingDevice,
        AbstractType::Tablet,
    ];
    for (set, expected) in sets.iter().zip(expected) {
        for order in permutations(set) {
            assert_eq!(reduce(order), expected);
        }
    }
}

#[test]
fn closing_does_not_change_the_type() {
    for caps in [
        vec![Capability::Pressurepad],
        vec![Capability::Keyboard, Capability::Clickpad],
        vec![Capability::Keyboard],
        vec![Capability::Touchpad, Capability::Tablet],
        vec![],
    ] {
        assert_eq!(reduce(Capability::extend(caps.clone())), reduce(caps));
    }
}
