//! The device tree: the kernel nodes that were attached and the physical
//! devices that they were grouped under.

use crate::error::Error;
use crate::evdev_device::{identity_of, node_of_registry, EvdevDevice, EvdevView};
use crate::physical_device::{physical_syspath, PhysicalDevice, PhysicalView};
use crate::registry::{Handle, RegistryEntry};
use crate::text::is_path_above;
use crate::types::{reduce, Capability};
use vstd::prelude::*;

verus! {

/// The handle of one entry of a [`DeviceTree`]. A tree issues its indices in
/// rising order and none of them twice.
#[derive(Debug, Copy, Clone, PartialEq, Eq, Hash, Structural)]
pub struct DeviceIndex {
    idx: usize,
}

impl View for DeviceIndex {
    type V = nat;

    closed spec fn view(&self) -> nat {
        self.idx as nat
    }
}

impl DeviceIndex {
    /// Whether this index was issued before `other` by the tree that issued
    /// both: indices are ordered by the time of their issue.
    pub fn issued_before(&self, other: &DeviceIndex) -> (before: bool)
        ensures
            before == (self@ < other@),
    {
        self.idx < other.idx
    }
}

impl DeepView for DeviceIndex {
    type V = nat;

    open spec fn deep_view(&self) -> nat {
        self@
    }
}

/// An entry of a [`DeviceTree`]: a kernel node or a physical device.
#[derive(Debug)]
pub enum AttachedDevice {
    Evdev(EvdevDevice),
    Parent(PhysicalDevice),
}

/// What an [`AttachedDevice`] holds.
pub enum AttachedView {
    Evdev(EvdevView),
    Parent(PhysicalView),
}

impl DeepView for AttachedDevice {
    type V = AttachedView;

    open spec fn deep_view(&self) -> AttachedView {
        self@
    }
}

impl View for AttachedDevice {
    type V = AttachedView;

    open spec fn view(&self) -> AttachedView {
        match self {
            AttachedDevice::Evdev(device) => AttachedView::Evdev(device@),
            AttachedDevice::Parent(device) => AttachedView::Parent(device@),
        }
    }
}

/// A device that belongs to a physical device.
pub trait HasParent {
    /// The index of the physical device that owns this device; none before
    /// this device is attached to a tree.
    spec fn parent_index(&self) -> Option<nat>;

    /// The index of the physical device that owns this device. Only a device
    /// that is attached to a tree has an owner.
    fn parent(&self) -> (parent: DeviceIndex)
        requires
            self.parent_index() is Some,
        ensures
            Some(parent@) == self.parent_index(),
    ;
}

/// A device with capabilities.
pub trait HasCapability {
    /// The device's capabilities, in the order in which they are handed out.
    spec fn capability_list(&self) -> Seq<Capability>;

    /// The device's capabilities.
    fn capabilities(&self) -> (caps: Vec<Capability>)
        ensures
            caps@ == self.capability_list(),
    ;
}

/// The first physical device of `tree`, from position `from` on, that `node`
/// belongs to.
pub open spec fn find_parent(tree: Seq<AttachedView>, node: EvdevView, from: int) -> Option<int>
    decreases tree.len() - from,
{
    if from < 0 || from >= tree.len() {
        None
    } else if tree[from] is Parent && tree[from]->Parent_0.matches(node) {
        Some(from)
    } else {
        find_parent(tree, node, from + 1)
    }
}

/// The tree after `node` was attached to it.
///
/// The node goes to the first physical device that it belongs to, and comes
/// last in the tree. Where it belongs to none, a new physical device comes
/// after it, with the node as its only child.
///
/// The first physical device in the tree's order takes the node, not the one
/// that lies nearest above it: of two physical devices of which one lies
/// above the other, the one that came first takes the nodes of both.
pub open spec fn attach(tree: Seq<AttachedView>, node: EvdevView) -> Seq<AttachedView> {
    let index = tree.len();
    match find_parent(tree, node, 0) {
        Some(p) => {
            let child = EvdevView { index: Some(index), parent: Some(p as nat), ..node };
            let parent = tree[p]->Parent_0.with_child(child);
            tree.update(p, AttachedView::Parent(parent)).push(AttachedView::Evdev(child))
        },
        None => {
            let child = EvdevView { index: Some(index), parent: Some(index + 1), ..node };
            let parent = (PhysicalView { index: Some(index + 1), ..PhysicalView::empty() })
                .with_child(child);
            tree.push(AttachedView::Evdev(child)).push(AttachedView::Parent(parent))
        },
    }
}

/// Whether the entry at position `i` of `tree` is sound.
///
/// A kernel node carries its position as its index, and is a child of the
/// physical device that it names as its owner. A physical device carries its
/// position as its index, has a child, has been reduced once for each child
/// and stands at what its capabilities reduce to; each of its children is a
/// kernel node that names it as owner, and its capabilities are those of its
/// children together.
pub open spec fn entry_is_sound(tree: Seq<AttachedView>, i: int) -> bool {
    match tree[i] {
        AttachedView::Evdev(node) => {
            &&& node.index == Some(i as nat)
            &&& node.parent is Some
            &&& node.parent->0 < tree.len()
            &&& tree[node.parent->0 as int] is Parent
            &&& tree[node.parent->0 as int]->Parent_0.children.contains(i as nat)
            &&& node.capabilities.to_set().subset_of(tree[node.parent->0 as int]->Parent_0.caps)
        },
        AttachedView::Parent(device) => {
            &&& device.index == Some(i as nat)
            &&& device.children.len() > 0
            &&& device.children.no_duplicates()
            &&& device.abstract_types.len() == device.children.len()
            &&& device.abstract_types.last() == reduce(device.caps)
            &&& forall|k: int|
                0 <= k < device.children.len() ==> {
                    &&& (#[trigger] device.children[k]) < tree.len()
                    &&& tree[device.children[k] as int] is Evdev
                    &&& tree[device.children[k] as int]->Evdev_0.parent == Some(i as nat)
                }
            &&& forall|c: Capability| #[trigger]
                device.caps.contains(c) ==> exists|k: int|
                    0 <= k < device.children.len() && (
                    #[trigger] tree[device.children[k] as int])->Evdev_0.capabilities.contains(c)
        },
    }
}

/// Whether every entry of `tree` is sound.
pub open spec fn well_formed(tree: Seq<AttachedView>) -> bool {
    forall|i: int| 0 <= i < tree.len() ==> entry_is_sound(tree, i)
}

/// The position that [`find_parent`] names holds a physical device that the
/// node belongs to, and no position before it does.
pub proof fn lemma_find_parent(tree: Seq<AttachedView>, node: EvdevView, from: int)
    requires
        0 <= from,
    ensures
        match find_parent(tree, node, from) {
            Some(p) => {
                &&& from <= p < tree.len()
                &&& tree[p] is Parent
                &&& tree[p]->Parent_0.matches(node)
                &&& forall|k: int|
                    from <= k < p ==> !(tree[k] is Parent && tree[k]->Parent_0.matches(node))
            },
            None => forall|k: int|
                from <= k < tree.len() ==> !(tree[k] is Parent && tree[k]->Parent_0.matches(node)),
        },
    decreases tree.len() - from,
{
    if from < tree.len() && !(tree[from] is Parent && tree[from]->Parent_0.matches(node)) {
        lemma_find_parent(tree, node, from + 1);
    }
}

/// Attaching a node that is in no tree yet keeps a sound tree sound.
pub proof fn lemma_attach_well_formed(tree: Seq<AttachedView>, node: EvdevView)
    requires
        well_formed(tree),
    ensures
        well_formed(attach(tree, node)),
{
    let after = attach(tree, node);
    let index = tree.len();
    lemma_find_parent(tree, node, 0);
    match find_parent(tree, node, 0) {
        Some(p) => {
            let child = EvdevView { index: Some(index), parent: Some(p as nat), ..node };
            let before = tree[p]->Parent_0;
            let parent = before.with_child(child);
            assert(entry_is_sound(tree, p));
            assert forall|i: int| 0 <= i < after.len() implies entry_is_sound(after, i) by {
                if i == index {
                    assert(parent.children[before.children.len() as int] == index);
                } else if i == p {
                    assert forall|k: int| 0 <= k < parent.children.len() implies {
                        &&& (#[trigger] parent.children[k]) < after.len()
                        &&& after[parent.children[k] as int] is Evdev
                        &&& after[parent.children[k] as int]->Evdev_0.parent == Some(i as nat)
                    } by {
                        if k < before.children.len() {
                            assert(parent.children[k] == before.children[k]);
                        }
                    }
                    assert forall|c: Capability| #[trigger] parent.caps.contains(c) implies exists|
                        k: int,
                    |
                        0 <= k < parent.children.len() && (
                        #[trigger] after[parent.children[k] as int])->Evdev_0.capabilities.contains(
                            c,
                        ) by {
                        if before.caps.contains(c) {
                            let k = choose|k: int|
                                0 <= k < before.children.len() && (
                                #[trigger] tree[before.children[k] as int])->Evdev_0.capabilities.contains(
                                c);
                            assert(parent.children[k] == before.children[k]);
                            assert(after[parent.children[k] as int] == tree[before.children[k] as int]);
                        } else {
                            let k = before.children.len() as int;
                            assert(parent.children[k] == index);
                            assert(after[parent.children[k] as int]->Evdev_0.capabilities.contains(c));
                        }
                    }
                } else {
                    assert(entry_is_sound(tree, i));
                    assert(after[i] == tree[i]);
                    match tree[i] {
                        AttachedView::Evdev(other) => {
                            if other.parent->0 == p {
                                let k = choose|k: int|
                                    0 <= k < before.children.len() && before.children[k] == i;
                                assert(parent.children[k] == i);
                            }
                        },
                        AttachedView::Parent(device) => {
                            assert forall|c: Capability| #[trigger]
                                device.caps.contains(c) implies exists|k: int|
                                0 <= k < device.children.len() && (
                                #[trigger] after[device.children[k] as int])->Evdev_0.capabilities.contains(
                                c) by {
                                let k = choose|k: int|
                                    0 <= k < device.children.len() && (
                                    #[trigger] tree[device.children[k] as int])->Evdev_0.capabilities.contains(
                                    c);
                                assert(after[device.children[k] as int] == tree[device.children[k] as int]);
                            }
                        },
                    }
                }
            }
        },
        None => {
            let child = EvdevView { index: Some(index), parent: Some(index + 1), ..node };
            let parent = (PhysicalView { index: Some(index + 1), ..PhysicalView::empty() })
                .with_child(child);
            assert forall|i: int| 0 <= i < after.len() implies entry_is_sound(after, i) by {
                if i == index {
                    assert(parent.children[0] == index);
                } else if i == index + 1 {
                    assert(parent.caps =~= child.capabilities.to_set());
                    assert forall|c: Capability| #[trigger] parent.caps.contains(c) implies exists|
                        k: int,
                    |
                        0 <= k < parent.children.len() && (
                        #[trigger] after[parent.children[k] as int])->Evdev_0.capabilities.contains(
                            c,
                        ) by {
                        assert(parent.children[0] == index);
                        assert(after[parent.children[0] as int]->Evdev_0.capabilities.contains(c));
                    }
                } else {
                    assert(entry_is_sound(tree, i));
                    assert(after[i] == tree[i]);
                    match tree[i] {
                        AttachedView::Evdev(other) => {},
                        AttachedView::Parent(device) => {
                            assert forall|c: Capability| #[trigger]
                                device.caps.contains(c) implies exists|k: int|
                                0 <= k < device.children.len() && (
                                #[trigger] after[device.children[k] as int])->Evdev_0.capabilities.contains(
                                c) by {
                                let k = choose|k: int|
                                    0 <= k < device.children.len() && (
                                    #[trigger] tree[device.children[k] as int])->Evdev_0.capabilities.contains(
                                    c);
                                assert(after[device.children[k] as int] == tree[device.children[k] as int]);
                            }
                        },
                    }
                }
            }
        },
    }
}

impl AttachedView {
    /// The entry's index in its tree.
    pub open spec fn index(self) -> Option<nat> {
        match self {
            AttachedView::Evdev(node) => node.index,
            AttachedView::Parent(device) => device.index,
        }
    }
}

/// The tree after the nodes of `nodes` were attached to it, one after the
/// other.
pub open spec fn attach_all(tree: Seq<AttachedView>, nodes: Seq<EvdevView>) -> Seq<AttachedView>
    decreases nodes.len(),
{
    if nodes.len() == 0 {
        tree
    } else {
        attach(attach_all(tree, nodes.drop_last()), nodes.last())
    }
}

/// The index that the node at position `k` of `nodes` gets when the nodes are
/// attached to `tree`, one after the other.
pub open spec fn issued(tree: Seq<AttachedView>, nodes: Seq<EvdevView>, k: int) -> nat {
    attach_all(tree, nodes.take(k)).len()
}

/// Whether every registry entry above a node lies above it in the
/// hierarchy, as the platform has it.
pub open spec fn lies_below_ancestors(node: EvdevView) -> bool {
    forall|k: int|
        0 <= k < node.ancestors.len() ==> is_path_above(
            (#[trigger] node.ancestors[k]).syspath,
            node.sysfs,
        )
}

/// Attaching a node keeps what the tree held: every entry stays at its
/// position and keeps its index, a kernel node stays as it was, and a
/// physical device keeps its children and abstract types and gains at most
/// one of each at the end.
pub proof fn lemma_attach_keeps(tree: Seq<AttachedView>, node: EvdevView, i: int)
    requires
        0 <= i < tree.len(),
    ensures
        tree.len() < attach(tree, node).len() <= tree.len() + 2,
        attach(tree, node)[i].index() == tree[i].index(),
        tree[i] is Evdev ==> attach(tree, node)[i] == tree[i],
        tree[i] is Parent ==> {
            let before = tree[i]->Parent_0;
            let after = attach(tree, node)[i]->Parent_0;
            &&& attach(tree, node)[i] is Parent
            &&& before.children.is_prefix_of(after.children)
            &&& before.abstract_types.is_prefix_of(after.abstract_types)
            &&& before.caps.subset_of(after.caps)
            &&& before.sysfs is Some ==> after.sysfs == before.sysfs
        },
{
    lemma_find_parent(tree, node, 0);
}

/// No two entries of a sound tree carry the same index: each carries its
/// position.
pub proof fn lemma_indices_distinct(tree: Seq<AttachedView>, i: int, j: int)
    requires
        well_formed(tree),
        0 <= i < tree.len(),
        0 <= j < tree.len(),
    ensures
        tree[i].index() == Some(i as nat),
        i != j ==> tree[i].index() != tree[j].index(),
{
    assert(entry_is_sound(tree, i));
    assert(entry_is_sound(tree, j));
}

/// Attaching nodes one after the other keeps a sound tree sound and never
/// makes it shorter.
pub proof fn lemma_attach_all_well_formed(tree: Seq<AttachedView>, nodes: Seq<EvdevView>)
    requires
        well_formed(tree),
    ensures
        well_formed(attach_all(tree, nodes)),
        attach_all(tree, nodes).len() >= tree.len() + nodes.len(),
    decreases nodes.len(),
{
    if nodes.len() > 0 {
        lemma_attach_all_well_formed(tree, nodes.drop_last());
        lemma_attach_well_formed(attach_all(tree, nodes.drop_last()), nodes.last());
        lemma_find_parent(attach_all(tree, nodes.drop_last()), nodes.last(), 0);
    }
}

/// Across any sequence of attachments the indices that are issued rise: a
/// node that is attached later gets a larger index, so no index is issued
/// twice. The entry at an issued index is the node that the index was issued
/// for, whatever was attached after it.
pub proof fn lemma_issued_indices_rise(
    tree: Seq<AttachedView>,
    nodes: Seq<EvdevView>,
    j: int,
    k: int,
)
    requires
        0 <= j < k < nodes.len(),
    ensures
        issued(tree, nodes, j) < issued(tree, nodes, k),
        issued(tree, nodes, k) < attach_all(tree, nodes).len(),
        attach_all(tree, nodes)[issued(tree, nodes, k) as int] is Evdev,
        attach_all(tree, nodes)[issued(tree, nodes, k) as int]->Evdev_0 == (EvdevView {
            index: Some(issued(tree, nodes, k)),
            parent: attach_all(tree, nodes)[issued(tree, nodes, k) as int]->Evdev_0.parent,
            ..nodes[k]
        }),
    decreases nodes.len(),
{
    let all_but_last = nodes.drop_last();
    let last = nodes.len() - 1;
    let before = attach_all(tree, all_but_last);
    lemma_find_parent(before, nodes.last(), 0);
    assert(nodes.take(last) == all_but_last);
    assert(nodes.take(j) == all_but_last.take(j));
    if k < last {
        assert(nodes.take(k) == all_but_last.take(k));
        lemma_issued_indices_rise(tree, all_but_last, j, k);
        lemma_attach_keeps(before, nodes.last(), issued(tree, nodes, k) as int);
    } else {
        lemma_issued_before_end(tree, all_but_last, j);
    }
}

/// An index that was issued lies within the tree that came of it.
proof fn lemma_issued_before_end(tree: Seq<AttachedView>, nodes: Seq<EvdevView>, j: int)
    requires
        0 <= j < nodes.len(),
    ensures
        issued(tree, nodes, j) < attach_all(tree, nodes).len(),
    decreases nodes.len(),
{
    let all_but_last = nodes.drop_last();
    let before = attach_all(tree, all_but_last);
    lemma_find_parent(before, nodes.last(), 0);
    assert(nodes.take(nodes.len() - 1) == all_but_last);
    if j < nodes.len() - 1 {
        assert(nodes.take(j) == all_but_last.take(j));
        lemma_issued_before_end(tree, all_but_last, j);
    }
}

/// Nodes that share one boundary make one physical device: where every node
/// lies below its ancestors and the ancestors of all nodes tell the same
/// path for the physical device, attaching the nodes to an empty tree gives
/// one physical device, right after the first node, with all the nodes as
/// its children, in their order.
pub proof fn lemma_shared_boundary_one_device(nodes: Seq<EvdevView>, boundary: Seq<char>)
    requires
        nodes.len() > 0,
        forall|i: int| 0 <= i < nodes.len() ==> lies_below_ancestors(#[trigger] nodes[i]),
        forall|i: int|
            0 <= i < nodes.len() ==> physical_syspath((#[trigger] nodes[i]).ancestors) == Some(
                boundary,
            ),
    ensures
        ({
            let tree = attach_all(Seq::empty(), nodes);
            &&& tree.len() == nodes.len() + 1
            &&& forall|i: int| 0 <= i < tree.len() ==> (#[trigger] tree[i] is Parent <==> i == 1)
            &&& tree[1]->Parent_0.sysfs == Some(boundary)
            &&& tree[1]->Parent_0.children.len() == nodes.len()
            &&& forall|k: int|
                0 <= k < nodes.len() ==> #[trigger] tree[1]->Parent_0.children[k] == issued(
                    Seq::empty(),
                    nodes,
                    k,
                )
        }),
    decreases nodes.len(),
{
    let empty = Seq::<AttachedView>::empty();
    let tree = attach_all(empty, nodes);
    let all_but_last = nodes.drop_last();
    let last = nodes.last();
    let before = attach_all(empty, all_but_last);
    assert(nodes.take(nodes.len() - 1) == all_but_last);
    assert(lies_below_ancestors(nodes[nodes.len() - 1]));
    lemma_boundary_above(last);
    if nodes.len() == 1 {
        assert(before == empty);
        assert(find_parent(empty, last, 0) is None);
        assert(nodes.take(0) == Seq::<EvdevView>::empty());
        assert(attach_all(empty, nodes.take(0)) == empty);
    } else {
        assert forall|i: int| 0 <= i < all_but_last.len() implies lies_below_ancestors(
            #[trigger] all_but_last[i],
        ) by {
            assert(all_but_last[i] == nodes[i]);
        }
        assert forall|i: int| 0 <= i < all_but_last.len() implies physical_syspath(
            (#[trigger] all_but_last[i]).ancestors,
        ) == Some(boundary) by {
            assert(all_but_last[i] == nodes[i]);
        }
        lemma_shared_boundary_one_device(all_but_last, boundary);
        lemma_find_parent(before, last, 0);
        assert(before[1]->Parent_0.matches(last));
        assert(before[0] is Evdev);
        assert(find_parent(before, last, 0) == Some(1int));
        assert forall|k: int| 0 <= k < nodes.len() implies #[trigger] tree[1]->Parent_0.children[k]
            == issued(empty, nodes, k) by {
            if k < all_but_last.len() {
                assert(nodes.take(k) == all_but_last.take(k));
                assert(before[1]->Parent_0.children[k] == issued(empty, all_but_last, k));
            }
        }
    }
}

/// The path that a node's ancestors tell for the physical device lies above
/// the node, where the node lies below its ancestors.
proof fn lemma_boundary_above(node: EvdevView)
    requires
        lies_below_ancestors(node),
    ensures
        physical_syspath(node.ancestors) is Some ==> is_path_above(
            physical_syspath(node.ancestors)->0,
            node.sysfs,
        ),
{
    crate::physical_device::lemma_first_input(node.ancestors, 0);
}

/// Nodes with boundaries of their own make a physical device each: where no
/// node lies below the path that the ancestors of an earlier node tell for
/// the physical device, attaching the nodes to an empty tree gives each node
/// a physical device right after it, with the node as its only child.
pub proof fn lemma_distinct_boundaries_one_device_each(nodes: Seq<EvdevView>)
    requires
        forall|i: int, j: int|
            0 <= i < j < nodes.len() ==> !(physical_syspath(
                (#[trigger] nodes[i]).ancestors,
            ) is Some && is_path_above(
                physical_syspath(nodes[i].ancestors)->0,
                (#[trigger] nodes[j]).sysfs,
            )),
    ensures
        ({
            let tree = attach_all(Seq::empty(), nodes);
            &&& tree.len() == 2 * nodes.len()
            &&& forall|k: int|
                0 <= k < nodes.len() ==> {
                    &&& issued(Seq::empty(), nodes, k) == 2 * k
                    &&& (#[trigger] tree[2 * k]) is Evdev
                    &&& tree[2 * k]->Evdev_0.parent == Some((2 * k + 1) as nat)
                    &&& tree[2 * k + 1] is Parent
                    &&& tree[2 * k + 1]->Parent_0.children == seq![(2 * k) as nat]
                    &&& tree[2 * k + 1]->Parent_0.sysfs == physical_syspath(nodes[k].ancestors)
                }
        }),
    decreases nodes.len(),
{
    let empty = Seq::<AttachedView>::empty();
    let tree = attach_all(empty, nodes);
    if nodes.len() > 0 {
        let all_but_last = nodes.drop_last();
        let last = nodes.last();
        let n = all_but_last.len() as int;
        let before = attach_all(empty, all_but_last);
        assert(nodes.take(n) == all_but_last);
        assert forall|i: int, j: int| 0 <= i < j < all_but_last.len() implies !(physical_syspath(
            (#[trigger] all_but_last[i]).ancestors,
        ) is Some && is_path_above(
            physical_syspath(all_but_last[i].ancestors)->0,
            (#[trigger] all_but_last[j]).sysfs,
        )) by {
            assert(all_but_last[i] == nodes[i]);
            assert(all_but_last[j] == nodes[j]);
        }
        lemma_distinct_boundaries_one_device_each(all_but_last);
        lemma_find_parent(before, last, 0);
        assert forall|p: int| 0 <= p < before.len() implies !(before[p] is Parent
            && before[p]->Parent_0.matches(last)) by {
            let k = p / 2;
            if p == 2 * k {
                assert(before[2 * k] is Evdev);
            } else {
                assert(p == 2 * k + 1);
                assert(before[2 * k] is Evdev);
                assert(all_but_last[k] == nodes[k]);
                assert(nodes[n] == last);
            }
        }
        assert(find_parent(before, last, 0) is None);
        assert forall|k: int| 0 <= k < nodes.len() implies {
            &&& issued(empty, nodes, k) == 2 * k
            &&& (#[trigger] tree[2 * k]) is Evdev
            &&& tree[2 * k]->Evdev_0.parent == Some((2 * k + 1) as nat)
            &&& tree[2 * k + 1] is Parent
            &&& tree[2 * k + 1]->Parent_0.children == seq![(2 * k) as nat]
            &&& tree[2 * k + 1]->Parent_0.sysfs == physical_syspath(nodes[k].ancestors)
        } by {
            if k < n {
                assert(nodes.take(k) == all_but_last.take(k));
                assert(before[2 * k] is Evdev);
                assert(tree[2 * k] == before[2 * k]);
                assert(tree[2 * k + 1] == before[2 * k + 1]);
                assert(all_but_last[k] == nodes[k]);
            } else {
                assert(tree[2 * k + 1]->Parent_0.children =~= seq![(2 * k) as nat]);
            }
        }
    }
}

/// The kernel nodes that were attached, and the physical devices that they
/// were grouped under, in the order in which they came.
#[derive(Debug)]
pub struct DeviceTree {
    devices: Vec<AttachedDevice>,
}

impl View for DeviceTree {
    type V = Seq<AttachedView>;

    closed spec fn view(&self) -> Seq<AttachedView> {
        self.devices.deep_view()
    }
}

impl DeviceTree {
    /// Every tree is sound.
    #[verifier::type_invariant]
    spec fn sound(self) -> bool {
        well_formed(self.devices.deep_view())
    }

    /// Whether the tree is sound: see [`entry_is_sound`]. Every tree is.
    pub open spec fn wf(&self) -> bool {
        well_formed(self@)
    }

    /// A tree without entries.
    pub fn new() -> (tree: Self)
        ensures
            tree@ == Seq::<AttachedView>::empty(),
            tree.wf(),
    {
        let tree = DeviceTree { devices: Vec::new() };
        assert(tree@ =~= Seq::<AttachedView>::empty());
        tree
    }

    /// Attaches the node that `handle` and `registry` describe, and returns
    /// the node's index. Where they describe none, the tree stays as it is.
    pub fn attach_evdev(&mut self, handle: Handle, registry: Vec<RegistryEntry>) -> (index: Result<
        DeviceIndex,
        Error,
    >)
        ensures
            old(self).wf(),
            final(self).wf(),
            match node_of_registry(handle.devnum, identity_of(handle), registry.deep_view()) {
                Ok(node) => {
                    &&& index is Ok
                    &&& index->Ok_0@ == old(self)@.len()
                    &&& final(self)@ == attach(old(self)@, node)
                },
                Err(e) => index == Err::<DeviceIndex, Error>(e) && final(self)@ == old(self)@,
            },
    {
        proof {
            use_type_invariant(&*self);
        }
        match EvdevDevice::from_registry(handle, registry) {
            Ok(device) => Ok(self.attach(device)),
            Err(e) => Err(e),
        }
    }

    /// Attaches `device`, a node that is in no tree yet, and returns its
    /// index: the number of entries that the tree had.
    pub fn attach(&mut self, device: EvdevDevice) -> (index: DeviceIndex)
        requires
            device@.index is None,
            device@.parent is None,
        ensures
            old(self).wf(),
            final(self).wf(),
            index@ == old(self)@.len(),
            final(self)@ == attach(old(self)@, device@),
    {
        let ghost before = self@;
        let ghost node = device@;
        proof {
            use_type_invariant(&*self);
            lemma_attach_well_formed(before, node);
        }
        // The entries are taken out while they are worked on, and put back
        // when all of them fit together again.
        let mut devices: Vec<AttachedDevice> = Vec::new();
        core::mem::swap(&mut self.devices, &mut devices);
        let index = DeviceIndex { idx: devices.len() };
        let mut device = device;
        device.set_index(index);
        let mut child = AttachedDevice::Evdev(device);

        // The first physical device that the node belongs to takes it.
        let mut p: usize = 0;
        let mut found = false;
        while p < devices.len() && !found
            invariant
                p <= devices.len(),
                devices.deep_view() == before,
                child@ is Evdev,
                child@->Evdev_0 == (EvdevView { index: Some(index@), ..node }),
                find_parent(before, node, 0) == find_parent(before, node, p as int),
                found ==> p < devices.len() && before[p as int] is Parent
                    && before[p as int]->Parent_0.matches(node),
            decreases devices.len() - p + if found { 0int } else { 1int },
        {
            assert(before[p as int] == devices[p as int]@);
            let matches = match &devices[p] {
                AttachedDevice::Parent(parent) => parent.match_device(&child),
                _ => false,
            };
            if matches {
                found = true;
            } else {
                p += 1;
            }
        }
        if found {
            assert(before[p as int] == devices[p as int]@);
            assert(entry_is_sound(before, p as int));
            let ghost entries = devices@;
            match &mut devices[p] {
                AttachedDevice::Parent(parent) => {
                    parent.add_child(&child);
                    match &mut child {
                        AttachedDevice::Evdev(device) => {
                            device.set_parent(parent);
                        },
                        _ => {},
                    }
                },
                _ => {},
            }
            proof {
                let linked = EvdevView { index: Some(index@), parent: Some(p as nat), ..node };
                let grown = before[p as int]->Parent_0.with_child(linked);
                assert(child@ == AttachedView::Evdev(linked));
                assert(devices@.len() == entries.len());
                assert(devices@[p as int]@ == AttachedView::Parent(grown));
                assert forall|k: int| 0 <= k < entries.len() && k != p implies devices@[k]
                    == entries[k] by {}
                assert(devices.deep_view() =~= before.update(
                    p as int,
                    AttachedView::Parent(grown),
                ));
            }
            devices.push(child);
        } else {
            devices.push(child);
            let mut parent = PhysicalDevice::new();
            parent.set_index(DeviceIndex { idx: devices.len() });
            parent.add_child(&devices[index.idx]);
            match &mut devices[index.idx] {
                AttachedDevice::Evdev(device) => {
                    device.set_parent(&parent);
                },
                _ => {},
            }
            devices.push(AttachedDevice::Parent(parent));
        }
        assert(devices.deep_view() =~= attach(before, node));
        self.devices = devices;
        index
    }

    /// The number of entries: kernel nodes and physical devices together.
    pub fn len(&self) -> (len: usize)
        ensures
            len == self@.len(),
            self.wf(),
    {
        proof {
            use_type_invariant(self);
        }
        self.devices.len()
    }

    /// The entry with the index `index`, if the tree has issued that index.
    pub fn get_device(&self, index: &DeviceIndex) -> (device: Option<&AttachedDevice>)
        ensures
            self.wf(),
            match device {
                Some(d) => index@ < self@.len() && d@ == self@[index@ as int],
                None => index@ >= self@.len(),
            },
    {
        proof {
            use_type_invariant(self);
        }
        if index.idx < self.devices.len() {
            let device = &self.devices[index.idx];
            assert(self@[index@ as int] == device@);
            Some(device)
        } else {
            None
        }
    }

    /// The kernel node with the index `index`, if the tree has issued that
    /// index to a kernel node.
    pub fn get_evdev_device(&self, index: &DeviceIndex) -> (device: Option<&EvdevDevice>)
        ensures
            self.wf(),
            match device {
                Some(d) => index@ < self@.len() && AttachedView::Evdev(d@) == self@[index@ as int],
                None => index@ >= self@.len() || self@[index@ as int] is Parent,
            },
    {
        match self.get_device(index) {
            Some(AttachedDevice::Evdev(device)) => Some(device),
            _ => None,
        }
    }

    /// The physical device with the index `index`, if the tree has issued
    /// that index to a physical device.
    pub fn get_parent_device(&self, index: &DeviceIndex) -> (device: Option<&PhysicalDevice>)
        ensures
            self.wf(),
            match device {
                Some(d) => index@ < self@.len() && AttachedView::Parent(d@) == self@[index@ as int],
                None => index@ >= self@.len() || self@[index@ as int] is Evdev,
            },
    {
        match self.get_device(index) {
            Some(AttachedDevice::Parent(device)) => Some(device),
            _ => None,
        }
    }

    /// An iterator over all entries, kernel nodes and physical devices, in
    /// the order in which they came into the tree.
    pub fn iter(&self) -> (entries: core::slice::Iter<'_, AttachedDevice>)
        ensures
            vstd::std_specs::slice::into_iter_elts(entries).map_values(|d: AttachedDevice| d@)
                == self@,
    {
        let entries = self.devices.iter();
        assert(self.devices@.map_values(|d: AttachedDevice| d@) =~= self.devices.deep_view());
        entries
    }
}

} // verus!
