//! Classification of Linux input devices.
//!
//! Kernel event nodes are attached to a [`DeviceTree`] one at a time. The tree
//! groups the nodes that belong to one piece of hardware under a
//! [`PhysicalDevice`], unites their capabilities and reduces the united set to
//! one [`AbstractType`].

pub mod device;
pub mod error;
pub mod evdev_device;
pub mod hidraw_device;
pub mod physical_device;
pub mod registry;
pub mod snapshot;
pub mod text;
pub mod tree;
pub mod types;
pub mod util;

pub use device::{Builder, Device};
pub use error::Error;
pub use evdev_device::EvdevDevice;
pub use hidraw_device::{Application, HidrawDevice};
pub use physical_device::PhysicalDevice;
pub use registry::{Ancestor, Handle, Identity, Property, RegistryEntry};
pub use tree::{AttachedDevice, DeviceIndex, DeviceTree, HasCapability, HasParent};
pub use types::{AbstractType, Cap, Capability, DeviceType};
