use whodat::util::input_id_udev_props;
use whodat::{
    Ancestor, Capability, Error, EvdevDevice, Handle, HasCapability, Identity, Property,
    RegistryEntry,
};

fn property(name: &str, value: &str) -> Property {
    Property {
        name: Some(name.to_string()),
        value: Some(value.to_string()),
    }
}

fn ancestor(syspath: &str, subsystem: Option<&str>) -> Ancestor {
    Ancestor {
        syspath: syspath.to_string(),
        subsystem: subsystem.map(|s| s.to_string()),
    }
}

fn registry_entry(devnum: Option<u64>, properties: Vec<Property>) -> RegistryEntry {
    RegistryEntry {
        devnum,
        devnode: devnum.map(|n| format!("/dev/input/event{}", n)),
        syspath: "/sys/devices/platform/i8042/serio0/input/input3/event3".to_string(),
        properties,
        ancestors: vec![
            ancestor("/sys/devices/platform/i8042/serio0/input/input3", Some("input")),
            ancestor("/sys/devices/platform/i8042/serio0", Some("serio")),
            ancestor("/sys/devices/platform/i8042", Some("platform")),
            ancestor("/sys/devices/platform", None),
        ],
    }
}

fn handle(devnum: u64, name: Option<&str>) -> Handle {
    Handle {
        devnum,
        identity: Some(Identity {
            name: name.map(|n| n.to_string()),
            vendor: 0x1234,
            product: 0x56ab,
        }),
    }
}

#[test]
fn input_properties_are_picked_in_order() {
    let names = input_id_udev_props(&vec![
        property("DEVNAME", "/dev/input/event3"),
        property("ID_INPUT", "1"),
        property("ID_INPUT_KEY", "1"),
        property("ID_BUS", "usb"),
        property("ID_INPUT_KEYBOARD", "1"),
        property("ID_INPUT_MOUSE", "yes"),
    ]);
    assert_eq!(
        names,
        vec!["ID_INPUT", "ID_INPUT_KEY", "ID_INPUT_KEYBOARD", "ID_INPUT_MOUSE"]
    );
}

#[test]
fn properties_set_to_zero_are_left_out() {
    let names = input_id_udev_props(&vec![
        property("ID_INPUT_KEY", "0"),
        property("ID_INPUT_MOUSE", "00"),
        property("ID_INPUT_TOUCHPAD", ""),
        property("ID_INPUT_TABLET", "1"),
    ]);
    assert_eq!(names, vec!["ID_INPUT_MOUSE", "ID_INPUT_TOUCHPAD", "ID_INPUT_TABLET"]);
}

#[test]
fn size_properties_are_left_out() {
    let names = input_id_udev_props(&vec![
        property("ID_INPUT_HEIGHT_MM", "50"),
        property("ID_INPUT_WIDTH_MM", "90"),
        property("ID_INPUT_HEIGHT_MM", "1"),
        property("ID_INPUT_TOUCHPAD", "1"),
    ]);
    assert_eq!(names, vec!["ID_INPUT_TOUCHPAD"]);
}

#[test]
fn properties_that_are_no_text_are_left_out() {
    let names = input_id_udev_props(&vec![
        Property {
            name: None,
            value: Some("1".to_string()),
        },
        Property {
            name: Some("ID_INPUT_KEY".to_string()),
            value: None,
        },
        property("ID_INPUT_SWITCH", "1"),
    ]);
    assert_eq!(names, vec!["ID_INPUT_SWITCH"]);
    assert_eq!(input_id_udev_props(&vec![]), Vec::<String>::new());
}

#[test]
fn other_prefixes_are_left_out() {
    let names = input_id_udev_props(&vec![
        property("ID_INPU", "1"),
        property("XID_INPUT_KEY", "1"),
        property("id_input_key", "1"),
        property("ID_INPUTX", "1"),
    ]);
    assert_eq!(names, vec!["ID_INPUTX"]);
}

#[test]
fn node_holds_what_registry_and_handle_tell() {
    let registry = vec![
        registry_entry(Some(7), vec![property("ID_INPUT_KEY", "1")]),
        registry_entry(None, vec![property("ID_INPUT_MOUSE", "1")]),
        registry_entry(
            Some(3),
            vec![
                property("ID_INPUT", "1"),
                property("ID_INPUT_TOUCHPAD", "1"),
                property("ID_INPUT_HEIGHT_MM", "50"),
                property("ID_INPUT_MOUSE", "0"),
            ],
        ),
    ];
    let device = EvdevDevice::from_registry(handle(3, Some("Some Touchpad")), registry).unwrap();
    assert_eq!(device.name(), "Some Touchpad");
    assert_eq!(device.vid(), 0x1234);
    assert_eq!(device.pid(), 0x56ab);
    assert_eq!(device.udev_types(), &vec!["ID_INPUT", "ID_INPUT_TOUCHPAD"]);
    assert_eq!(
        device.capabilities(),
        vec![Capability::Touchpad, Capability::Pointer]
    );
    assert_eq!(device.devnode(), &Some("/dev/input/event3".to_string()));
    assert_eq!(
        device.sysfs_path(),
        "/sys/devices/platform/i8042/serio0/input/input3/event3"
    );
    assert_eq!(device.ancestors().len(), 4);
    assert_eq!(
        device.ancestors()[1].syspath,
        "/sys/devices/platform/i8042/serio0"
    );
}

#[test]
fn the_first_entry_with_the_device_number_is_taken() {
    let registry = vec![
        registry_entry(Some(3), vec![property("ID_INPUT_KEY", "1")]),
        registry_entry(Some(3), vec![property("ID_INPUT_MOUSE", "1")]),
    ];
    let device = EvdevDevice::from_registry(handle(3, Some("kbd")), registry).unwrap();
    assert_eq!(device.capabilities(), vec![Capability::Keyboard]);
}

#[test]
fn size_property_gives_no_capability() {
    let registry = vec![registry_entry(
        Some(3),
        vec![property("ID_INPUT_HEIGHT_MM", "50")],
    )];
    let device = EvdevDevice::from_registry(handle(3, Some("pad")), registry).unwrap();
    assert_eq!(device.udev_types(), &Vec::<String>::new());
    assert_eq!(device.capabilities(), vec![]);
}

#[test]
fn unknown_device_number_is_not_found() {
    let registry = vec![
        registry_entry(Some(7), vec![]),
        registry_entry(None, vec![]),
    ];
    assert_eq!(
        EvdevDevice::from_registry(handle(3, Some("kbd")), registry).err(),
        Some(Error::NotFound)
    );
    assert_eq!(
        EvdevDevice::from_registry(handle(3, Some("kbd")), vec![]).err(),
        Some(Error::NotFound)
    );
}

#[test]
fn missing_identity_is_unavailable() {
    let without = Handle {
        devnum: 3,
        identity: None,
    };
    assert_eq!(
        EvdevDevice::from_registry(without, vec![registry_entry(Some(3), vec![])]).err(),
        Some(Error::IdentityUnavailable)
    );
    assert_eq!(
        EvdevDevice::from_registry(handle(3, None), vec![registry_entry(Some(3), vec![])]).err(),
        Some(Error::IdentityUnavailable)
    );
}

#[test]
fn not_found_comes_before_identity() {
    let without = Handle {
        devnum: 3,
        identity: None,
    };
    assert_eq!(
        EvdevDevice::from_registry(without, vec![registry_entry(Some(4), vec![])]).err(),
        Some(Error::NotFound)
    );
}
