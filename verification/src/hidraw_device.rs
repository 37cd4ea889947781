//! One kernel hidraw node.

use crate::tree::{DeviceIndex, HasParent};
use vstd::prelude::*;

verus! {

/// A single kernel hidraw node and the queryable information about it.
#[derive(Debug)]
pub struct HidrawDevice {
    parent: Option<DeviceIndex>,
}

impl HasParent for HidrawDevice {
    closed spec fn parent_index(&self) -> Option<nat> {
        match self.parent {
            Some(index) => Some(index@),
            None => None,
        }
    }

    fn parent(&self) -> (parent: DeviceIndex) {
        match self.parent {
            Some(index) => index,
            None => vstd::pervasive::unreached(),
        }
    }
}

/// The Linux kernel splits HID devices up by application, and a single HID
/// device may result in several kernel nodes.
#[non_exhaustive]
#[derive(Debug, Copy, Clone, Eq, PartialEq, Hash, Structural)]
pub enum Application {
    Mouse,
    Touchpad,
    Keyboard,
    Keypad,
    ConsumerControl,
    SystemControl,
}

} // verus!
