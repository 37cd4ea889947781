//! A physical device: the kernel nodes that come from one piece of hardware.

use crate::evdev_device::EvdevView;
use crate::registry::{Ancestor, AncestorView};
use crate::text::{is_path_above, path_is_above, str_eq};
use crate::tree::{AttachedDevice, AttachedView, DeviceIndex, HasCapability};
use crate::types::{listing, reduce, AbstractType, Cap, Capability};
use vstd::prelude::*;

verus! {

/// The whole physical device and the queryable information about it.
///
/// For a game controller this is the controller, which itself has kernel
/// nodes for the gaming features and for the touchpad. For a graphics tablet
/// with a touchscreen this is the tablet.
#[derive(Debug)]
pub struct PhysicalDevice {
    index: Option<DeviceIndex>,
    abstract_types: Vec<AbstractType>,
    caps: Cap,
    children: Vec<DeviceIndex>,
    sysfs: Option<String>,
}

/// What a [`PhysicalDevice`] holds.
pub struct PhysicalView {
    /// The device's index in its tree; none before the device is in a tree.
    pub index: Option<nat>,
    /// What the device was taken for after each child, the latest last.
    pub abstract_types: Seq<AbstractType>,
    /// The capabilities of all children together.
    pub caps: Set<Capability>,
    /// The indices of the children, in the order in which they were attached.
    pub children: Seq<nat>,
    /// Where the device lies in the registry's filesystem hierarchy, once the
    /// first child has told.
    pub sysfs: Option<Seq<char>>,
}

impl View for PhysicalDevice {
    type V = PhysicalView;

    closed spec fn view(&self) -> PhysicalView {
        PhysicalView {
            index: match self.index {
                Some(i) => Some(i@),
                None => None,
            },
            abstract_types: self.abstract_types@,
            caps: self.caps@,
            children: self.children.deep_view(),
            sysfs: self.sysfs.deep_view(),
        }
    }
}

/// Whether a registry entry belongs to the generic input subsystem.
pub open spec fn is_input(ancestor: AncestorView) -> bool {
    ancestor.subsystem == Some("input"@)
}

/// The first of `ancestors`, from position `from` on, that belongs to the
/// input subsystem.
pub open spec fn first_input(ancestors: Seq<AncestorView>, from: int) -> Option<int>
    decreases ancestors.len() - from,
{
    if from < 0 || from >= ancestors.len() {
        None
    } else if is_input(ancestors[from]) {
        Some(from)
    } else {
        first_input(ancestors, from + 1)
    }
}

/// Where the physical device of a node with the given ancestors lies: at the
/// entry one above the first ancestor that belongs to the input subsystem, or
/// at that ancestor where nothing is above it. Ancestors without one in the
/// input subsystem tell nothing.
pub open spec fn physical_syspath(ancestors: Seq<AncestorView>) -> Option<Seq<char>> {
    match first_input(ancestors, 0) {
        Some(i) => if i + 1 < ancestors.len() {
            Some(ancestors[i + 1].syspath)
        } else {
            Some(ancestors[i].syspath)
        },
        None => None,
    }
}

/// The position that [`first_input`] names is in range and belongs to the
/// input subsystem, and no position before it does.
pub proof fn lemma_first_input(ancestors: Seq<AncestorView>, from: int)
    requires
        0 <= from,
    ensures
        match first_input(ancestors, from) {
            Some(i) => {
                &&& from <= i < ancestors.len()
                &&& is_input(ancestors[i])
                &&& forall|k: int| from <= k < i ==> !is_input(ancestors[k])
            },
            None => forall|k: int| from <= k < ancestors.len() ==> !is_input(ancestors[k]),
        },
    decreases ancestors.len() - from,
{
    if from < ancestors.len() && !is_input(ancestors[from]) {
        lemma_first_input(ancestors, from + 1);
    }
}

impl PhysicalView {
    /// A physical device without children.
    pub open spec fn empty() -> PhysicalView {
        PhysicalView {
            index: None,
            abstract_types: Seq::empty(),
            caps: Set::empty(),
            children: Seq::empty(),
            sysfs: None,
        }
    }

    /// Whether `node` belongs to this device: the device knows where it lies,
    /// and the node lies below.
    pub open spec fn matches(self, node: EvdevView) -> bool {
        self.sysfs is Some && is_path_above(self.sysfs->0, node.sysfs)
    }

    /// This device with `child` as one more child: the child's index comes
    /// last, the child's capabilities join the device's, and what they reduce
    /// to is the latest abstract type. A device that did not know where it
    /// lies takes that from the child's ancestors.
    pub open spec fn with_child(self, child: EvdevView) -> PhysicalView {
        let caps = self.caps.union(child.capabilities.to_set());
        PhysicalView {
            index: self.index,
            abstract_types: self.abstract_types.push(reduce(caps)),
            caps,
            children: self.children.push(child.index->0),
            sysfs: if self.sysfs is Some {
                self.sysfs
            } else {
                physical_syspath(child.ancestors)
            },
        }
    }
}

/// Whether a registry entry belongs to the generic input subsystem.
fn ancestor_is_input(ancestor: &Ancestor) -> (input: bool)
    ensures
        input == is_input(ancestor.deep_view()),
{
    match &ancestor.subsystem {
        Some(subsystem) => str_eq(subsystem.as_str(), "input"),
        None => false,
    }
}

impl PhysicalDevice {
    /// A physical device without children, not yet in a tree.
    pub fn new() -> (device: Self)
        ensures
            device@ == PhysicalView::empty(),
    {
        let device = Self {
            index: None,
            abstract_types: Vec::new(),
            caps: Cap::new(Vec::new()),
            children: Vec::new(),
            sysfs: None,
        };
        assert(device.caps@ =~= Set::empty());
        assert(device.children.deep_view() =~= Seq::empty());
        device
    }

    /// Whether the given other device is a child of this device: an event
    /// node that lies below this device in the registry's hierarchy.
    pub(crate) fn match_device(&self, other: &AttachedDevice) -> (matches: bool)
        ensures
            matches == match other@ {
                AttachedView::Evdev(node) => self@.matches(node),
                AttachedView::Parent(_) => false,
            },
    {
        match &self.sysfs {
            None => false,
            Some(sysfs) => match other {
                AttachedDevice::Evdev(evdev) => path_is_above(
                    sysfs.as_str(),
                    evdev.sysfs_path().as_str(),
                ),
                _ => false,
            },
        }
    }

    /// What the device was taken for after each of its children, the latest
    /// last. Only the latest stands; a device without children was taken for
    /// nothing yet.
    pub fn abstract_types(&self) -> (types: Vec<AbstractType>)
        ensures
            types@ == self@.abstract_types,
    {
        self.abstract_types.clone()
    }

    /// The device's index in its tree.
    pub(crate) fn index(&self) -> (index: DeviceIndex)
        requires
            self@.index is Some,
        ensures
            Some(index@) == self@.index,
    {
        match self.index {
            Some(index) => index,
            None => vstd::pervasive::unreached(),
        }
    }

    /// Gives this device its index in the tree. A device gets its index once.
    pub(crate) fn set_index(&mut self, index: DeviceIndex)
        requires
            old(self)@.index is None,
        ensures
            final(self)@ == (PhysicalView { index: Some(index@), ..old(self)@ }),
    {
        self.index = Some(index);
    }

    /// Where the device lies in the registry's filesystem hierarchy, once
    /// its first child has told.
    pub fn sysfs_path(&self) -> (path: &Option<String>)
        ensures
            path.deep_view() == self@.sysfs,
    {
        &self.sysfs
    }

    /// The capabilities of all children together, as a set.
    pub fn capability_set(&self) -> (caps: Cap)
        ensures
            caps@ == self@.caps,
    {
        self.caps
    }

    /// Reduces the device's capabilities to one abstract type.
    pub fn calculate_abstract_type(&self) -> (guess: AbstractType)
        ensures
            guess == reduce(self@.caps),
    {
        self.caps.reduce()
    }

    /// Takes the event node `child` as one more child of this device.
    pub(crate) fn add_child(&mut self, child: &AttachedDevice)
        requires
            child@ is Evdev,
            child@->Evdev_0.index is Some,
        ensures
            final(self)@ == old(self)@.with_child(child@->Evdev_0),
    {
        match child {
            AttachedDevice::Evdev(device) => {
                self.children.push(device.index());
                assert(self.children.deep_view() =~= old(self).children.deep_view().push(
                    device@.index->0,
                ));
                self.set_syspath(child);
                let capabilities = device.capabilities();
                let ghost before = self.caps@;
                let mut i: usize = 0;
                while i < capabilities.len()
                    invariant
                        i <= capabilities.len(),
                        self.caps@ == before.union(capabilities@.take(i as int).to_set()),
                        self.index == old(self).index,
                        self.abstract_types == old(self).abstract_types,
                        self.children.deep_view() == old(self).children.deep_view().push(
                            device@.index->0,
                        ),
                        self.sysfs.deep_view() == old(self)@.with_child(device@).sysfs,
                    decreases capabilities.len() - i,
                {
                    self.caps.set(capabilities[i]);
                    proof {
                        let seen = capabilities@.take(i as int);
                        let more = capabilities@.take(i + 1);
                        assert(more == seen.push(capabilities@[i as int]));
                        assert forall|c: Capability|
                            more.to_set().contains(c) == seen.to_set().insert(
                                capabilities@[i as int],
                            ).contains(c) by {
                            if seen.contains(c) {
                                let k = choose|k: int| 0 <= k < seen.len() && seen[k] == c;
                                assert(more[k] == c);
                            }
                            if more.contains(c) {
                                let k = choose|k: int| 0 <= k < more.len() && more[k] == c;
                                if k < seen.len() {
                                    assert(seen[k] == c);
                                }
                            }
                            assert(more[i as int] == capabilities@[i as int]);
                        }
                        assert(self.caps@ =~= before.union(more.to_set()));
                    }
                    i += 1;
                }
                assert(capabilities@.take(i as int) == capabilities@);
            },
            AttachedDevice::Parent(_) => {
                proof {
                    assert(false);
                }
            },
        }

        // Now see what the capabilities make of the device.
        let atype = self.calculate_abstract_type();
        self.abstract_types.push(atype);
    }

    /// Notes where this device lies, from the ancestors of `child`, unless
    /// it is known already.
    fn set_syspath(&mut self, child: &AttachedDevice)
        requires
            child@ is Evdev,
        ensures
            final(self).sysfs.deep_view() == if old(self)@.sysfs is Some {
                old(self)@.sysfs
            } else {
                physical_syspath(child@->Evdev_0.ancestors)
            },
            final(self).index == old(self).index,
            final(self).abstract_types == old(self).abstract_types,
            final(self).caps == old(self).caps,
            final(self).children == old(self).children,
    {
        if self.sysfs.is_some() {
            return ;
        }
        let evdev = match child {
            AttachedDevice::Evdev(device) => device,
            _ => {
                proof {
                    assert(false);
                }
                return ;
            },
        };
        let ancestors = evdev.ancestors();
        let ghost chain = ancestors.deep_view();
        let mut i: usize = 0;
        while i < ancestors.len() && !ancestor_is_input(&ancestors[i])
            invariant
                i <= ancestors.len(),
                chain == ancestors.deep_view(),
                first_input(chain, 0) == first_input(chain, i as int),
            decreases ancestors.len() - i,
        {
            assert(chain[i as int] == ancestors[i as int].deep_view());
            i += 1;
        }
        if i < ancestors.len() {
            assert(chain[i as int] == ancestors[i as int].deep_view());
            // One up from the input entry lies the real device.
            let above = if i + 1 < ancestors.len() {
                &ancestors[i + 1]
            } else {
                &ancestors[i]
            };
            self.sysfs = Some(above.syspath.clone());
        }
    }

    /// An iterator over the indices of all children of this device, in the
    /// order in which the children were attached.
    pub fn iter(&self) -> (children: core::slice::Iter<'_, DeviceIndex>)
        ensures
            vstd::std_specs::slice::into_iter_elts(children).map_values(|i: DeviceIndex| i@)
                == self@.children,
    {
        let children = self.children.iter();
        assert(self.children@.map_values(|i: DeviceIndex| i@) =~= self.children.deep_view());
        children
    }
}

impl HasCapability for PhysicalDevice {
    open spec fn capability_list(&self) -> Seq<Capability> {
        listing(self@.caps)
    }

    fn capabilities(&self) -> (caps: Vec<Capability>) {
        self.caps.to_vec()
    }
}

} // verus!
