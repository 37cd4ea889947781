use whodat::{
    AbstractType, Ancestor, AttachedDevice, Cap, Capability, DeviceIndex, DeviceTree, Error,
    EvdevDevice, Handle, HasCapability, HasParent, Identity, PhysicalDevice, Property,
    RegistryEntry,
};

/// An event node `event<n>` of the hardware at `/sys/devices/<hardware>`.
fn node(n: u64, hardware: &str, properties: &[&str]) -> RegistryEntry {
    let physical = format!("/sys/devices/{}", hardware);
    RegistryEntry {
        devnum: Some(n),
        devnode: Some(format!("/dev/input/event{}", n)),
        syspath: format!("{}/input/input{}/event{}", physical, n, n),
        properties: properties
            .iter()
            .map(|name| Property {
                name: Some(name.to_string()),
                value: Some("1".to_string()),
            })
            .collect(),
        ancestors: vec![
            Ancestor {
                syspath: format!("{}/input/input{}", physical, n),
                subsystem: Some("input".to_string()),
            },
            Ancestor {
                syspath: physical,
                subsystem: Some("hid".to_string()),
            },
            Ancestor {
                syspath: "/sys/devices".to_string(),
                subsystem: None,
            },
        ],
    }
}

fn handle(n: u64) -> Handle {
    Handle {
        devnum: n,
        identity: Some(Identity {
            name: Some(format!("device {}", n)),
            vendor: 1,
            product: n as u16,
        }),
    }
}

fn attach(tree: &mut DeviceTree, entry: RegistryEntry) -> DeviceIndex {
    let n = entry.devnum.unwrap();
    tree.attach_evdev(handle(n), vec![entry]).unwrap()
}

fn parents(tree: &DeviceTree) -> Vec<&PhysicalDevice> {
    tree.iter()
        .filter_map(|entry| match entry {
            AttachedDevice::Parent(parent) => Some(parent),
            _ => None,
        })
        .collect()
}

#[test]
fn new_tree_is_empty() {
    let tree = DeviceTree::new();
    assert_eq!(tree.len(), 0);
    assert_eq!(tree.iter().count(), 0);
}

#[test]
fn first_node_makes_a_physical_device() {
    let mut tree = DeviceTree::new();
    let index = attach(&mut tree, node(1, "usb1", &["ID_INPUT_KEY"]));
    assert_eq!(tree.len(), 2);
    let device = tree.get_evdev_device(&index).unwrap();
    assert_eq!(device.name(), "device 1");
    let parent = tree.get_parent_device(&device.parent()).unwrap();
    assert_eq!(parent.iter().collect::<Vec<_>>(), vec![&index]);
    assert_eq!(parent.sysfs_path(), &Some("/sys/devices/usb1".to_string()));
    assert_eq!(parent.capabilities(), vec![Capability::Keyboard]);
    assert_eq!(parent.abstract_types(), vec![AbstractType::Keyboard]);
    assert_eq!(parent.calculate_abstract_type(), AbstractType::Keyboard);
}

#[test]
fn shared_boundary_makes_one_physical_device() {
    let mut tree = DeviceTree::new();
    let mut issued = Vec::new();
    for n in 1..=5 {
        issued.push(attach(&mut tree, node(n, "usb1/1-1", &["ID_INPUT_KEY"])));
    }
    assert_eq!(tree.len(), 6);
    let parents = parents(&tree);
    assert_eq!(parents.len(), 1);
    assert_eq!(
        parents[0].iter().collect::<Vec<_>>(),
        issued.iter().collect::<Vec<_>>()
    );
    assert_eq!(parents[0].abstract_types().len(), 5);
    for index in &issued {
        let owner = tree.get_evdev_device(index).unwrap().parent();
        assert!(tree.get_parent_device(&owner).is_some());
        assert_eq!(owner, tree.get_evdev_device(&issued[0]).unwrap().parent());
    }
}

#[test]
fn distinct_boundaries_make_a_physical_device_each() {
    let mut tree = DeviceTree::new();
    let mut issued = Vec::new();
    let hardware = ["usb1/1-1", "usb1/1-2", "usb2/2-1", "platform/i8042"];
    for (n, hardware) in hardware.iter().enumerate() {
        issued.push(attach(&mut tree, node(n as u64, hardware, &["ID_INPUT_MOUSE"])));
    }
    assert_eq!(tree.len(), 8);
    let parents = parents(&tree);
    assert_eq!(parents.len(), 4);
    for (parent, index) in parents.iter().zip(&issued) {
        assert_eq!(parent.iter().collect::<Vec<_>>(), vec![index]);
    }
}

#[test]
fn first_matching_physical_device_takes_the_node() {
    let mut tree = DeviceTree::new();
    let outer = attach(&mut tree, node(1, "usb1", &["ID_INPUT_KEY"]));
    // This node's own boundary is `usb1/hub`, which lies below `usb1`.
    let inner = attach(&mut tree, node(2, "usb1/hub", &["ID_INPUT_MOUSE"]));
    let parents = parents(&tree);
    assert_eq!(parents.len(), 1);
    assert_eq!(parents[0].iter().collect::<Vec<_>>(), vec![&outer, &inner]);
    assert_eq!(parents[0].sysfs_path(), &Some("/sys/devices/usb1".to_string()));
}

#[test]
fn neighbouring_name_is_another_device() {
    let mut tree = DeviceTree::new();
    attach(&mut tree, node(1, "usb1", &["ID_INPUT_KEY"]));
    attach(&mut tree, node(2, "usb10", &["ID_INPUT_KEY"]));
    assert_eq!(parents(&tree).len(), 2);
}

#[test]
fn node_without_input_ancestor_stays_alone() {
    let mut tree = DeviceTree::new();
    let mut lone = node(1, "usb1", &["ID_INPUT_KEY"]);
    for ancestor in lone.ancestors.iter_mut() {
        ancestor.subsystem = Some("usb".to_string());
    }
    let mut other = node(2, "usb1", &["ID_INPUT_KEY"]);
    other.ancestors.clear();
    attach(&mut tree, lone);
    attach(&mut tree, other);
    attach(&mut tree, node(3, "usb1", &["ID_INPUT_KEY"]));
    attach(&mut tree, node(4, "usb1", &["ID_INPUT_KEY"]));
    let parents = parents(&tree);
    assert_eq!(parents.len(), 3);
    assert_eq!(parents[0].sysfs_path(), &None);
    assert_eq!(parents[1].sysfs_path(), &None);
    assert_eq!(parents[2].sysfs_path(), &Some("/sys/devices/usb1".to_string()));
    assert_eq!(parents[0].iter().count(), 1);
    assert_eq!(parents[1].iter().count(), 1);
    assert_eq!(parents[2].iter().count(), 2);
}

#[test]
fn input_ancestor_at_the_top_is_the_boundary() {
    let mut tree = DeviceTree::new();
    let mut entry = node(1, "usb1", &["ID_INPUT_KEY"]);
    entry.ancestors.truncate(1);
    attach(&mut tree, entry);
    assert_eq!(
        parents(&tree)[0].sysfs_path(),
        &Some("/sys/devices/usb1/input/input1".to_string())
    );
}

#[test]
fn indices_are_pairwise_distinct() {
    let mut tree = DeviceTree::new();
    let mut issued = Vec::new();
    for n in 0..12 {
        let hardware = format!("usb{}", n % 4);
        issued.push(attach(&mut tree, node(n, &hardware, &["ID_INPUT_KEY"])));
    }
    for (i, one) in issued.iter().enumerate() {
        for other in &issued[i + 1..] {
            assert_ne!(one, other);
        }
    }
    // Leaves and aggregates together: each entry is found under one index only.
    let mut seen = 0;
    for index in &issued {
        assert!(tree.get_evdev_device(index).is_some());
        assert!(tree.get_parent_device(index).is_none());
        let owner = tree.get_evdev_device(index).unwrap().parent();
        assert!(!issued.contains(&owner));
        assert!(tree.get_parent_device(&owner).is_some());
        seen += 1;
    }
    assert_eq!(seen, 12);
    assert_eq!(tree.len(), 16);
}

#[test]
fn an_index_keeps_its_node() {
    let mut tree = DeviceTree::new();
    let first = attach(&mut tree, node(1, "usb1", &["ID_INPUT_KEY"]));
    let owner = tree.get_evdev_device(&first).unwrap().parent();
    for n in 2..6 {
        attach(&mut tree, node(n, "usb1", &["ID_INPUT_MOUSE"]));
        attach(&mut tree, node(n + 10, "usb2", &["ID_INPUT_MOUSE"]));
        let device = tree.get_evdev_device(&first).unwrap();
        assert_eq!(device.name(), "device 1");
        assert_eq!(device.pid(), 1);
        assert_eq!(device.parent(), owner);
        assert_eq!(device.capabilities(), vec![Capability::Keyboard]);
    }
}

#[test]
fn touchpad_and_keyboard_of_one_device_make_a_pointer() {
    let mut tree = DeviceTree::new();
    let touchpad = attach(
        &mut tree,
        node(1, "usb1/1-1", &["ID_INPUT_TOUCHPAD", "ID_INPUT_MOUSE"]),
    );
    let keyboard = attach(&mut tree, node(2, "usb1/1-1", &["ID_INPUT_KEYBOARD"]));
    let owner = tree.get_evdev_device(&touchpad).unwrap().parent();
    assert_eq!(tree.get_evdev_device(&keyboard).unwrap().parent(), owner);
    let parent = tree.get_parent_device(&owner).unwrap();
    let mut caps = parent.capabilities();
    caps.sort_by_key(|c| Cap::as_mask(*c));
    assert_eq!(
        caps,
        vec![Capability::Keyboard, Capability::Pointer, Capability::Touchpad]
    );
    assert_eq!(parent.abstract_types().last(), Some(&AbstractType::Pointer));
    assert_eq!(
        parent.abstract_types(),
        vec![AbstractType::Pointer, AbstractType::Pointer]
    );
}

#[test]
fn classification_follows_the_children_in_either_order() {
    let nodes = [
        ("ID_INPUT_KEYBOARD", 1),
        ("ID_INPUT_MOUSE", 2),
        ("ID_INPUT_TOUCHSCREEN", 3),
        ("ID_INPUT_TABLET_JOYSTICK", 4),
    ];
    let mut forward = DeviceTree::new();
    for (property, n) in nodes {
        attach(&mut forward, node(n, "usb1", &[property]));
    }
    let mut backward = DeviceTree::new();
    for (property, n) in nodes.iter().rev() {
        attach(&mut backward, node(*n, "usb1", &[property]));
    }
    let forward = parents(&forward)[0].abstract_types();
    let backward = parents(&backward)[0].abstract_types();
    assert_eq!(
        forward,
        vec![
            AbstractType::Keyboard,
            AbstractType::Keyboard,
            AbstractType::Touchscreen,
            AbstractType::GamingDevice
        ]
    );
    assert_eq!(
        backward,
        vec![
            AbstractType::GamingDevice,
            AbstractType::GamingDevice,
            AbstractType::GamingDevice,
            AbstractType::GamingDevice
        ]
    );
    assert_eq!(forward.last(), backward.last());
}

#[test]
fn keyboard_and_pointer_nodes_in_both_orders() {
    for order in [[1, 2], [2, 1]] {
        let mut tree = DeviceTree::new();
        for n in order {
            let property = if n == 1 { "ID_INPUT_KEYBOARD" } else { "ID_INPUT_MOUSE" };
            attach(&mut tree, node(n, "usb1", &[property]));
        }
        assert_eq!(
            parents(&tree)[0].abstract_types().last(),
            Some(&AbstractType::Keyboard)
        );
    }
}

#[test]
fn failed_attachment_leaves_the_tree_alone() {
    let mut tree = DeviceTree::new();
    attach(&mut tree, node(1, "usb1", &["ID_INPUT_KEY"]));
    assert_eq!(
        tree.attach_evdev(handle(9), vec![node(1, "usb1", &[])]),
        Err(Error::NotFound)
    );
    let nameless = Handle {
        devnum: 1,
        identity: None,
    };
    assert_eq!(
        tree.attach_evdev(nameless, vec![node(1, "usb1", &[])]),
        Err(Error::IdentityUnavailable)
    );
    assert_eq!(tree.len(), 2);
    assert_eq!(parents(&tree)[0].iter().count(), 1);
}

#[test]
fn lookups_tell_kinds_apart() {
    let mut tree = DeviceTree::new();
    let index = attach(&mut tree, node(1, "usb1", &["ID_INPUT_KEY"]));
    let owner = tree.get_evdev_device(&index).unwrap().parent();
    assert!(matches!(tree.get_device(&index), Some(AttachedDevice::Evdev(_))));
    assert!(matches!(tree.get_device(&owner), Some(AttachedDevice::Parent(_))));
    assert!(tree.get_evdev_device(&owner).is_none());
    assert!(tree.get_parent_device(&index).is_none());

    let mut larger = DeviceTree::new();
    attach(&mut larger, node(1, "usb1", &[]));
    let unknown = attach(&mut larger, node(2, "usb2", &[]));
    assert!(tree.get_device(&unknown).is_none());
    assert!(tree.get_evdev_device(&unknown).is_none());
    assert!(tree.get_parent_device(&unknown).is_none());
}

#[test]
fn iteration_goes_in_order_and_starts_over() {
    let mut tree = DeviceTree::new();
    attach(&mut tree, node(1, "usb1", &["ID_INPUT_KEY"]));
    attach(&mut tree, node(2, "usb2", &["ID_INPUT_KEY"]));
    attach(&mut tree, node(3, "usb1", &["ID_INPUT_KEY"]));
    for _ in 0..2 {
        let kinds: Vec<&str> = tree
            .iter()
            .map(|entry| match entry {
                AttachedDevice::Evdev(device) => device.name(),
                AttachedDevice::Parent(_) => "parent",
            })
            .collect();
        assert_eq!(
            kinds,
            vec!["device 1", "parent", "device 2", "parent", "device 3"]
        );
    }
}

#[test]
fn attaching_a_built_node() {
    let mut tree = DeviceTree::new();
    let device =
        EvdevDevice::from_registry(handle(1), vec![node(1, "usb1", &["ID_INPUT_SWITCH"])]).unwrap();
    let index = tree.attach(device);
    let owner = tree.get_evdev_device(&index).unwrap().parent();
    assert_eq!(
        tree.get_parent_device(&owner).unwrap().abstract_types(),
        vec![AbstractType::Switch]
    );
}

#[test]
fn empty_physical_device() {
    let device = PhysicalDevice::new();
    assert_eq!(device.abstract_types(), vec![]);
    assert_eq!(device.capabilities(), vec![]);
    assert_eq!(device.iter().count(), 0);
    assert_eq!(device.sysfs_path(), &None);
    assert_eq!(device.calculate_abstract_type(), AbstractType::Switch);
}

#[test]
fn indices_are_ordered_by_issue() {
    let mut tree = DeviceTree::new();
    let first = attach(&mut tree, node(1, "usb1", &["ID_INPUT_KEY"]));
    let second = attach(&mut tree, node(2, "usb1", &["ID_INPUT_KEY"]));
    let third = attach(&mut tree, node(3, "usb2", &["ID_INPUT_KEY"]));
    let owner = tree.get_evdev_device(&first).unwrap().parent();
    assert!(first.issued_before(&second));
    assert!(second.issued_before(&third));
    assert!(first.issued_before(&third));
    assert!(first.issued_before(&owner));
    assert!(owner.issued_before(&second));
    assert!(!second.issued_before(&first));
    assert!(!first.issued_before(&first));
}
