//! One kernel event node and what is known of it.

use crate::error::Error;
use crate::physical_device::PhysicalDevice;
use crate::registry::{Ancestor, AncestorView, Handle, RegistryEntry, RegistryEntryView};
use crate::tree::{DeviceIndex, HasCapability, HasParent};
use crate::types::{capability_of_property, closure, listing, Capability};
use crate::util::{input_id_names, input_id_udev_props};
use vstd::prelude::*;

verus! {

/// A single kernel event node and the queryable information about it.
#[derive(Debug)]
pub struct EvdevDevice {
    index: Option<DeviceIndex>,
    parent: Option<DeviceIndex>,
    name: String,
    vid: u16,
    pid: u16,
    udev_properties: Vec<String>,
    capabilities: Vec<Capability>,
    devnode: Option<String>,
    sysfs: String,
    ancestors: Vec<Ancestor>,
}

/// What an [`EvdevDevice`] holds.
pub struct EvdevView {
    /// The node's index in its tree; none before the node is attached.
    pub index: Option<nat>,
    /// The index of the physical device that owns the node; none before the
    /// node is attached.
    pub parent: Option<nat>,
    pub name: Seq<char>,
    pub vid: u16,
    pub pid: u16,
    /// The names of the node's `ID_INPUT` properties.
    pub udev_types: Seq<Seq<char>>,
    pub capabilities: Seq<Capability>,
    pub devnode: Option<Seq<char>>,
    pub sysfs: Seq<char>,
    /// The registry entries above the node, the nearest first.
    pub ancestors: Seq<AncestorView>,
}

impl View for EvdevDevice {
    type V = EvdevView;

    closed spec fn view(&self) -> EvdevView {
        EvdevView {
            index: match self.index {
                Some(i) => Some(i@),
                None => None,
            },
            parent: match self.parent {
                Some(i) => Some(i@),
                None => None,
            },
            name: self.name@,
            vid: self.vid,
            pid: self.pid,
            udev_types: self.udev_properties.deep_view(),
            capabilities: self.capabilities@,
            devnode: self.devnode.deep_view(),
            sysfs: self.sysfs@,
            ancestors: self.ancestors.deep_view(),
        }
    }
}

/// The capabilities that the property names stand for, in the names' order;
/// a name that stands for none gives none.
pub open spec fn capabilities_of(names: Seq<Seq<char>>) -> Seq<Capability> {
    names.filter_map(|name: Seq<char>| capability_of_property(name))
}

/// The first entry of `registry`, from position `from` on, whose device
/// number is `devnum`.
pub open spec fn first_with_devnum(
    registry: Seq<RegistryEntryView>,
    devnum: u64,
    from: int,
) -> Option<int>
    decreases registry.len() - from,
{
    if from < 0 || from >= registry.len() {
        None
    } else if registry[from].devnum == Some(devnum) {
        Some(from)
    } else {
        first_with_devnum(registry, devnum, from + 1)
    }
}

/// The node that a registry entry and a handle's identity describe, before
/// it is attached.
pub open spec fn node_of(
    entry: RegistryEntryView,
    name: Seq<char>,
    vendor: u16,
    product: u16,
) -> EvdevView {
    let udev_types = input_id_names(entry.properties);
    EvdevView {
        index: None,
        parent: None,
        name,
        vid: vendor,
        pid: product,
        udev_types,
        capabilities: listing(closure(capabilities_of(udev_types).to_set())),
        devnode: entry.devnode,
        sysfs: entry.syspath,
        ancestors: entry.ancestors,
    }
}

/// What comes of a handle and a registry: the node of the first entry with
/// the handle's device number, if there is such an entry and the handle gave
/// its identity.
pub open spec fn node_of_registry(
    devnum: u64,
    identity: Option<(Option<Seq<char>>, u16, u16)>,
    registry: Seq<RegistryEntryView>,
) -> Result<EvdevView, Error> {
    match first_with_devnum(registry, devnum, 0) {
        None => Err(Error::NotFound),
        Some(i) => match identity {
            Some((Some(name), vendor, product)) => Ok(
                node_of(registry[i], name, vendor, product),
            ),
            _ => Err(Error::IdentityUnavailable),
        },
    }
}

/// What a handle tells of its device, as characters.
pub open spec fn identity_of(handle: Handle) -> Option<(Option<Seq<char>>, u16, u16)> {
    match handle.identity {
        Some(identity) => Some((identity.name.deep_view(), identity.vendor, identity.product)),
        None => None,
    }
}

/// The first position that [`first_with_devnum`] names is in range, holds the
/// device number, and no position before it does.
pub proof fn lemma_first_with_devnum(registry: Seq<RegistryEntryView>, devnum: u64, from: int)
    requires
        0 <= from,
    ensures
        match first_with_devnum(registry, devnum, from) {
            Some(i) => {
                &&& from <= i < registry.len()
                &&& registry[i].devnum == Some(devnum)
                &&& forall|k: int| from <= k < i ==> registry[k].devnum != Some(devnum)
            },
            None => forall|k: int| from <= k < registry.len() ==> registry[k].devnum != Some(devnum),
        },
    decreases registry.len() - from,
{
    if from < registry.len() && registry[from].devnum != Some(devnum) {
        lemma_first_with_devnum(registry, devnum, from + 1);
    }
}

/// The capabilities that the property names stand for, in the names' order.
fn capabilities_from(names: &Vec<String>) -> (caps: Vec<Capability>)
    ensures
        caps@ == capabilities_of(names.deep_view()),
{
    let mut caps: Vec<Capability> = Vec::new();
    let ghost all = names.deep_view();
    let ghost pick = |name: Seq<char>| capability_of_property(name);
    let mut i: usize = 0;
    while i < names.len()
        invariant
            i <= names.len(),
            all == names.deep_view(),
            pick == |name: Seq<char>| capability_of_property(name),
            caps@ == all.take(i as int).filter_map(pick),
        decreases names.len() - i,
    {
        proof {
            all.lemma_filter_map_take_succ(pick, i as int);
        }
        match Capability::from_udev_prop(names[i].as_str()) {
            Some(cap) => {
                caps.push(cap);
            },
            None => {},
        }
        assert(caps@ =~= all.take(i + 1).filter_map(pick));
        i += 1;
    }
    assert(all.take(i as int) == all);
    caps
}

impl EvdevDevice {
    /// A new node for the device that `handle` is open on, from what the
    /// registry holds of it.
    ///
    /// The node is that of the first registry entry with the handle's device
    /// number. Its raw types are the entry's `ID_INPUT` properties, its
    /// capabilities are those that the raw types stand for together with those
    /// that they imply. Without such an entry there is no node, and none for a
    /// handle that did not give its name, vendor and product.
    pub fn from_registry(handle: Handle, registry: Vec<RegistryEntry>) -> (device: Result<
        EvdevDevice,
        Error,
    >)
        ensures
            match device {
                Ok(d) => Ok::<EvdevView, Error>(d@),
                Err(e) => Err(e),
            } == node_of_registry(handle.devnum, identity_of(handle), registry.deep_view()),
    {
        let ghost entries = registry.deep_view();
        let mut registry = registry;
        let mut i: usize = 0;
        let mut found = false;
        while i < registry.len() && !found
            invariant
                i <= registry.len(),
                entries == registry.deep_view(),
                first_with_devnum(entries, handle.devnum, 0) == first_with_devnum(
                    entries,
                    handle.devnum,
                    i as int,
                ),
                found ==> i < registry.len() && registry[i as int].devnum == Some(handle.devnum),
            decreases registry.len() - i + if found { 0int } else { 1int },
        {
            assert(entries[i as int] == registry[i as int].deep_view());
            match registry[i].devnum {
                Some(num) if num == handle.devnum => {
                    found = true;
                },
                _ => {
                    i += 1;
                },
            }
        }
        if !found {
            return Err(Error::NotFound);
        }
        assert(entries[i as int] == registry[i as int].deep_view());
        let entry = registry.swap_remove(i);
        let udev_properties = input_id_udev_props(&entry.properties);
        let devnode = entry.devnode;
        let sysfs = entry.syspath;
        let ancestors = entry.ancestors;

        // Map the properties to capabilities, then fill in what they imply.
        let capabilities = Capability::extend(capabilities_from(&udev_properties));

        let identity = match handle.identity {
            Some(identity) => identity,
            None => {
                return Err(Error::IdentityUnavailable);
            },
        };
        let name = match identity.name {
            Some(name) => name,
            None => {
                return Err(Error::IdentityUnavailable);
            },
        };
        Ok(
            EvdevDevice {
                index: None,
                parent: None,
                name,
                vid: identity.vendor,
                pid: identity.product,
                udev_properties,
                capabilities,
                devnode,
                sysfs,
                ancestors,
            },
        )
    }

    /// The device's name as advertised by the kernel. For many HID devices
    /// the name has a suffix that tells the HID application, like "Pen",
    /// "Mouse" or "Consumer Control".
    pub fn name(&self) -> (name: &str)
        ensures
            name@ == self@.name,
    {
        self.name.as_str()
    }

    /// The `ID_INPUT` properties that are set to a nonzero value for this
    /// device. An empty vector means that no such property is set.
    pub fn udev_types(&self) -> (types: &Vec<String>)
        ensures
            types.deep_view() == self@.udev_types,
    {
        &self.udev_properties
    }

    /// The 16-bit vendor ID.
    pub fn vid(&self) -> (vid: u16)
        ensures
            vid == self@.vid,
    {
        self.vid
    }

    /// The 16-bit product ID.
    pub fn pid(&self) -> (pid: u16)
        ensures
            pid == self@.pid,
    {
        self.pid
    }

    /// The path of the device node, if the node has one.
    pub fn devnode(&self) -> (devnode: &Option<String>)
        ensures
            devnode.deep_view() == self@.devnode,
    {
        &self.devnode
    }

    /// Where the node lies in the registry's filesystem hierarchy.
    pub fn sysfs_path(&self) -> (path: &String)
        ensures
            path@ == self@.sysfs,
    {
        &self.sysfs
    }

    /// The registry entries above the node, the nearest first.
    pub fn ancestors(&self) -> (ancestors: &Vec<Ancestor>)
        ensures
            ancestors.deep_view() == self@.ancestors,
    {
        &self.ancestors
    }

    /// Makes `parent` the owner of this node. A node gets its owner once.
    pub(crate) fn set_parent(&mut self, parent: &PhysicalDevice)
        requires
            old(self)@.parent is None,
            parent@.index is Some,
        ensures
            final(self)@ == (EvdevView { parent: parent@.index, ..old(self)@ }),
    {
        self.parent = Some(parent.index());
    }

    /// Gives this node its index in the tree. A node gets its index once.
    pub(crate) fn set_index(&mut self, index: DeviceIndex)
        requires
            old(self)@.index is None,
        ensures
            final(self)@ == (EvdevView { index: Some(index@), ..old(self)@ }),
    {
        self.index = Some(index);
    }

    /// The node's index in its tree.
    pub(crate) fn index(&self) -> (index: DeviceIndex)
        requires
            self@.index is Some,
        ensures
            Some(index@) == self@.index,
    {
        match self.index {
            Some(index) => index,
            None => vstd::pervasive::unreached(),
        }
    }
}

impl HasParent for EvdevDevice {
    open spec fn parent_index(&self) -> Option<nat> {
        self@.parent
    }

    fn parent(&self) -> (parent: DeviceIndex) {
        match self.parent {
            Some(index) => index,
            None => vstd::pervasive::unreached(),
        }
    }
}

impl HasCapability for EvdevDevice {
    open spec fn capability_list(&self) -> Seq<Capability> {
        self@.capabilities
    }

    fn capabilities(&self) -> (caps: Vec<Capability>) {
        self.capabilities.clone()
    }
}

} // verus!
