//! A device as a caller describes it or as a tree has classified it, apart
//! from any tree, and the builder that makes one.

use crate::error::Error;
use crate::physical_device::PhysicalDevice;
use crate::snapshot::{
    magic, parse_snapshot, read_optional_flags, read_optional_ids, read_optional_text,
    write_optional_flags, write_optional_ids, write_optional_text, DeviceView,
};
use crate::text::{chars_begin_with, chars_of};
use crate::types::{reduce, AbstractType, Cap, Capability};
use vstd::prelude::*;

verus! {

/// The entry point for a caller that describes a device itself: create a
/// builder, give it as much information as there is, and build a [`Device`]
/// from it.
///
/// What is given later overrides what was given before.
#[derive(Debug)]
pub struct Builder {
    name: Option<String>,
    usbid: Option<(u16, u16)>,
    udev_device: Option<String>,
    sysfs_path: Option<String>,
}

impl View for Builder {
    type V = DeviceView;

    /// The device that the builder would build.
    closed spec fn view(&self) -> DeviceView {
        DeviceView {
            name: self.name.deep_view(),
            usbid: self.usbid,
            udev_device: self.udev_device.deep_view(),
            sysfs_path: self.sysfs_path.deep_view(),
            capabilities: None,
        }
    }
}

/// A device of which nothing is known.
pub open spec fn unknown_device() -> DeviceView {
    DeviceView { name: None, usbid: None, udev_device: None, sysfs_path: None, capabilities: None }
}

/// The path, with `/sys` before it unless it starts with that.
pub open spec fn under_sys(path: Seq<char>) -> Seq<char> {
    if "/sys"@.is_prefix_of(path) {
        path
    } else {
        "/sys"@ + path
    }
}

impl Builder {
    /// A builder that knows nothing yet.
    pub fn new() -> (builder: Self)
        ensures
            builder@ == unknown_device(),
    {
        Builder { name: None, usbid: None, udev_device: None, sysfs_path: None }
    }

    /// Sets the device name as advertised by the kernel.
    pub fn name(&mut self, name: &str) -> (builder: &mut Self)
        ensures
            builder@ == (DeviceView { name: Some(name@), ..old(self)@ }),
            *final(self) == *final(builder),
    {
        self.name = Some(name.to_owned());
        self
    }

    /// Sets the USB vendor and product ID.
    pub fn usbid(&mut self, vid: u16, pid: u16) -> (builder: &mut Self)
        ensures
            builder@ == (DeviceView { usbid: Some((vid, pid)), ..old(self)@ }),
            *final(self) == *final(builder),
    {
        self.usbid = Some((vid, pid));
        self
    }

    /// Sets the path of the udev device that represents this device.
    pub fn udev_device(&mut self, path: &str) -> (builder: &mut Self)
        ensures
            builder@ == (DeviceView { udev_device: Some(path@), ..old(self)@ }),
            *final(self) == *final(builder),
    {
        self.udev_device = Some(path.to_owned());
        self
    }

    /// Sets the path to the device's sysfs entry. A path that does not start
    /// with `/sys` gets that put before it.
    pub fn sysfs_path(&mut self, path: &str) -> (builder: &mut Self)
        ensures
            builder@ == (DeviceView { sysfs_path: Some(under_sys(path@)), ..old(self)@ }),
            *final(self) == *final(builder),
    {
        let chars = chars_of(path);
        let full = if chars_begin_with(&chars, "/sys") {
            path.to_owned()
        } else {
            String::from_str("/sys").concat(path)
        };
        self.sysfs_path = Some(full);
        self
    }

    /// Builds the device: it holds what the builder was given, and nothing
    /// is known of its capabilities.
    pub fn build(&self) -> (device: Result<Device, Error>)
        ensures
            device matches Ok(d) && d@ == self@,
    {
        Ok(
            Device {
                name: self.name.clone(),
                usbid: self.usbid,
                udev_device: self.udev_device.clone(),
                sysfs_path: self.sysfs_path.clone(),
                capabilities: None,
            },
        )
    }
}

/// A device and the queryable information about it, apart from any tree.
///
/// A device can be written down with [`Device::serialize`] and handed on as
/// text. Whoever reads the text with [`Device::deserialize`] has the device
/// again, without access to the hardware.
#[derive(Debug, Clone)]
pub struct Device {
    name: Option<String>,
    usbid: Option<(u16, u16)>,
    udev_device: Option<String>,
    sysfs_path: Option<String>,
    capabilities: Option<Cap>,
}

impl View for Device {
    type V = DeviceView;

    closed spec fn view(&self) -> DeviceView {
        DeviceView {
            name: self.name.deep_view(),
            usbid: self.usbid,
            udev_device: self.udev_device.deep_view(),
            sysfs_path: self.sysfs_path.deep_view(),
            capabilities: match self.capabilities {
                Some(caps) => Some(caps@),
                None => None,
            },
        }
    }
}

impl Device {
    /// What a tree has found out of a physical device: where it lies and
    /// which capabilities it has.
    pub fn from_physical(device: &PhysicalDevice) -> (described: Device)
        ensures
            described@ == (DeviceView {
                sysfs_path: device@.sysfs,
                capabilities: Some(device@.caps),
                ..unknown_device()
            }),
    {
        Device {
            name: None,
            usbid: None,
            udev_device: None,
            sysfs_path: device.sysfs_path().clone(),
            capabilities: Some(device.capability_set()),
        }
    }

    /// The abstract type of this device: what its capabilities reduce to.
    /// A device has one abstract type even where it supports several input
    /// methods. None where nothing is known of the capabilities.
    pub fn abstract_type(self) -> (guess: Option<AbstractType>)
        ensures
            guess == match self@.capabilities {
                Some(caps) => Some(reduce(caps)),
                None => None,
            },
    {
        match self.capabilities {
            Some(caps) => Some(caps.reduce()),
            None => None,
        }
    }

    /// Whether the device has the given capability. None where that cannot be
    /// known from what was supplied when the device was made.
    pub fn has_capability(self, capability: Capability) -> (has: Option<bool>)
        ensures
            has == match self@.capabilities {
                Some(caps) => Some(caps.contains(capability)),
                None => None,
            },
    {
        match self.capabilities {
            Some(caps) => Some(caps.has(capability)),
            None => None,
        }
    }

    /// A dump of this device from which [`Device::deserialize`] makes the
    /// device again. The format is private to this library.
    pub fn serialize(self) -> (text: Option<String>)
        ensures
            text matches Some(t) && t@ == self@.snapshot(),
            self@.fits(),
    {
        proof {
            reveal_strlit("whodat1:");
            assert("whodat1:"@ =~= magic());
        }
        let mut out = String::from_str("whodat1:");
        write_optional_text(&mut out, &self.name);
        write_optional_ids(&mut out, &self.usbid);
        write_optional_text(&mut out, &self.udev_device);
        write_optional_text(&mut out, &self.sysfs_path);
        write_optional_flags(&mut out, &self.capabilities);
        Some(out)
    }

    /// The device that `data` is a dump of. A text that [`Device::serialize`]
    /// of this version did not write is malformed.
    pub fn deserialize(data: &str) -> (device: Result<Self, Error>)
        ensures
            match device {
                Ok(d) => parse_snapshot(data@) == Some(d@),
                Err(e) => e == Error::MalformedSnapshot && parse_snapshot(data@) is None,
            },
    {
        proof {
            reveal_strlit("whodat1:");
            assert("whodat1:"@ =~= magic());
        }
        let chars = chars_of(data);
        if !chars_begin_with(&chars, "whodat1:") {
            return Err(Error::MalformedSnapshot);
        }
        let (name, pos) = match read_optional_text(data, &chars, 8) {
            Some(field) => field,
            None => {
                return Err(Error::MalformedSnapshot);
            },
        };
        let (usbid, pos) = match read_optional_ids(&chars, pos) {
            Some(field) => field,
            None => {
                return Err(Error::MalformedSnapshot);
            },
        };
        let (udev_device, pos) = match read_optional_text(data, &chars, pos) {
            Some(field) => field,
            None => {
                return Err(Error::MalformedSnapshot);
            },
        };
        let (sysfs_path, pos) = match read_optional_text(data, &chars, pos) {
            Some(field) => field,
            None => {
                return Err(Error::MalformedSnapshot);
            },
        };
        let (capabilities, pos) = match read_optional_flags(&chars, pos) {
            Some(field) => field,
            None => {
                return Err(Error::MalformedSnapshot);
            },
        };
        if pos != chars.len() {
            return Err(Error::MalformedSnapshot);
        }
        Ok(Device { name, usbid, udev_device, sysfs_path, capabilities })
    }

    /// The device's name, where it is known.
    pub fn name(&self) -> (name: &Option<String>)
        ensures
            name.deep_view() == self@.name,
    {
        &self.name
    }

    /// The device's vendor and product ID, where they are known.
    pub fn usbid(&self) -> (ids: Option<(u16, u16)>)
        ensures
            ids == self@.usbid,
    {
        self.usbid
    }

    /// The path of the udev device that represents this device, where it is
    /// known.
    pub fn udev_device(&self) -> (path: &Option<String>)
        ensures
            path.deep_view() == self@.udev_device,
    {
        &self.udev_device
    }

    /// The path to the device's sysfs entry, where it is known.
    pub fn sysfs_path(&self) -> (path: &Option<String>)
        ensures
            path.deep_view() == self@.sysfs_path,
    {
        &self.sysfs_path
    }
}

} // verus!
