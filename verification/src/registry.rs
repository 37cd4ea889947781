//! What the platform reports of a kernel node, read once and held as plain
//! values: the entries of the device registry and what an open handle tells
//! of itself.

use vstd::prelude::*;

verus! {

/// One property of a registry entry. A name or value that is not valid
/// UTF-8 is absent.
#[derive(Debug, Clone)]
pub struct Property {
    pub name: Option<String>,
    pub value: Option<String>,
}

/// A [`Property`] as characters.
pub struct PropertyView {
    pub name: Option<Seq<char>>,
    pub value: Option<Seq<char>>,
}

impl DeepView for Property {
    type V = PropertyView;

    open spec fn deep_view(&self) -> PropertyView {
        PropertyView { name: self.name.deep_view(), value: self.value.deep_view() }
    }
}

impl View for Property {
    type V = PropertyView;

    open spec fn view(&self) -> PropertyView {
        self.deep_view()
    }
}

/// One entry above a registry entry in the device stack.
#[derive(Debug, Clone)]
pub struct Ancestor {
    /// Where the entry lies in the registry's filesystem hierarchy.
    pub syspath: String,
    /// The subsystem that the entry belongs to, if it names one.
    pub subsystem: Option<String>,
}

/// An [`Ancestor`] as characters.
pub struct AncestorView {
    pub syspath: Seq<char>,
    pub subsystem: Option<Seq<char>>,
}

impl DeepView for Ancestor {
    type V = AncestorView;

    open spec fn deep_view(&self) -> AncestorView {
        AncestorView { syspath: self.syspath@, subsystem: self.subsystem.deep_view() }
    }
}

impl View for Ancestor {
    type V = AncestorView;

    open spec fn view(&self) -> AncestorView {
        self.deep_view()
    }
}

/// One entry of the platform's registry of input devices.
#[derive(Debug, Clone)]
pub struct RegistryEntry {
    /// The device number of the entry's device node, if it has a node.
    pub devnum: Option<u64>,
    /// The path of the entry's device node, if it has one.
    pub devnode: Option<String>,
    /// Where the entry lies in the registry's filesystem hierarchy.
    pub syspath: String,
    /// The entry's properties, in the registry's order.
    pub properties: Vec<Property>,
    /// The entries above this one, the nearest first.
    pub ancestors: Vec<Ancestor>,
}

/// A [`RegistryEntry`] as characters.
pub struct RegistryEntryView {
    pub devnum: Option<u64>,
    pub devnode: Option<Seq<char>>,
    pub syspath: Seq<char>,
    pub properties: Seq<PropertyView>,
    pub ancestors: Seq<AncestorView>,
}

impl DeepView for RegistryEntry {
    type V = RegistryEntryView;

    open spec fn deep_view(&self) -> RegistryEntryView {
        RegistryEntryView {
            devnum: self.devnum,
            devnode: self.devnode.deep_view(),
            syspath: self.syspath@,
            properties: self.properties.deep_view(),
            ancestors: self.ancestors.deep_view(),
        }
    }
}

impl View for RegistryEntry {
    type V = RegistryEntryView;

    open spec fn view(&self) -> RegistryEntryView {
        self.deep_view()
    }
}

/// What an open event node tells of the device behind it.
#[derive(Debug, Clone)]
pub struct Identity {
    /// The name that the kernel advertises, if the node has one.
    pub name: Option<String>,
    /// The 16-bit vendor ID.
    pub vendor: u16,
    /// The 16-bit product ID.
    pub product: u16,
}

/// An open handle on a kernel node, as far as the node was asked.
#[derive(Debug, Clone)]
pub struct Handle {
    /// The device number of the node that the handle is open on.
    pub devnum: u64,
    /// The node's identity, if the node gave it.
    pub identity: Option<Identity>,
}

} // verus!
