//! Capabilities, the bitset that holds a set of them, and the device types.

use crate::text::{chars_are, chars_of};
use vstd::prelude::*;

verus! {

/// A high-level category describing a capability of a device.
///
/// Capabilities are not mutually exclusive: a device may match one or more of
/// them. A caller is expected to check the categories it cares about, both for
/// "has" and for "has not". A caller that expects a mouse checks that
/// [`Capability::Pointer`] is present and that [`Capability::Touchpad`]
/// (amongst others) is not.
#[non_exhaustive]
#[derive(Debug, Copy, Clone, Eq, PartialEq, Hash, Structural)]
pub enum Capability {
    Keyboard,
    Pointer,
    Pointingstick,
    Touchpad,
    /// A touchpad with a hinge instead of physical, separate buttons.
    Clickpad,
    /// A touchpad without physical buttons that detects button presses by
    /// physical pressure instead of a mechanical hinge.
    Pressurepad,
    Touchscreen,
    Trackball,
    Joystick,
    Gamepad,
    Tablet,
    /// A tablet built into a screen.
    TabletScreen,
    /// A tablet external to a screen.
    TabletExternal,
    /// The set of buttons, strips and rings that many tablets carry.
    TabletPad,
    Switch,
}

/// The primary high-level type of a device.
///
/// Only one of these applies to a device at a time, even where the device
/// falls into several categories.
#[non_exhaustive]
#[derive(Debug, Copy, Clone, Eq, PartialEq, Hash, Structural)]
pub enum AbstractType {
    /// Device is primarily a keyboard.
    Keyboard,
    /// Device is primarily a pointer device: a mouse, touchpad or pointingstick.
    Pointer,
    /// Device is primarily a touchscreen.
    Touchscreen,
    /// Device is primarily a graphics tablet.
    Tablet,
    /// Device is primarily a gaming device: a joystick, gamepad or racing wheel.
    GamingDevice,
    /// Device is primarily a switch toggle.
    Switch,
}

/// The physical type of a device.
#[non_exhaustive]
#[derive(Debug, Copy, Clone, Eq, PartialEq, Hash, Structural)]
pub enum DeviceType {
    Keyboard,
    Mouse,
    Pointingstick,
    Touchpad,
    Touchscreen,
    Trackball,
    Tablet,
    Joystick,
    Gamepad,
    RacingWheel,
    FootPedal,
}

impl Capability {
    /// The position of this capability's bit in a [`Cap`].
    pub open spec fn bit(self) -> u32 {
        match self {
            Capability::Keyboard => 0,
            Capability::Pointer => 1,
            Capability::Pointingstick => 2,
            Capability::Touchpad => 3,
            Capability::Clickpad => 4,
            Capability::Pressurepad => 5,
            Capability::Touchscreen => 6,
            Capability::Trackball => 7,
            Capability::Joystick => 8,
            Capability::Gamepad => 9,
            Capability::Tablet => 10,
            Capability::TabletScreen => 11,
            Capability::TabletExternal => 12,
            Capability::TabletPad => 13,
            Capability::Switch => 14,
        }
    }

    /// The capability whose bit is at position `bit`, if there is one.
    pub open spec fn at_bit(bit: u32) -> Option<Capability> {
        if bit == 0 {
            Some(Capability::Keyboard)
        } else if bit == 1 {
            Some(Capability::Pointer)
        } else if bit == 2 {
            Some(Capability::Pointingstick)
        } else if bit == 3 {
            Some(Capability::Touchpad)
        } else if bit == 4 {
            Some(Capability::Clickpad)
        } else if bit == 5 {
            Some(Capability::Pressurepad)
        } else if bit == 6 {
            Some(Capability::Touchscreen)
        } else if bit == 7 {
            Some(Capability::Trackball)
        } else if bit == 8 {
            Some(Capability::Joystick)
        } else if bit == 9 {
            Some(Capability::Gamepad)
        } else if bit == 10 {
            Some(Capability::Tablet)
        } else if bit == 11 {
            Some(Capability::TabletScreen)
        } else if bit == 12 {
            Some(Capability::TabletExternal)
        } else if bit == 13 {
            Some(Capability::TabletPad)
        } else if bit == 14 {
            Some(Capability::Switch)
        } else {
            None
        }
    }

    /// The mask with only this capability's bit set.
    pub open spec fn mask(self) -> u32 {
        1u32 << self.bit()
    }
}

/// Every capability sits at its own bit, below bit 15.
pub proof fn lemma_bit_at_bit(c: Capability)
    ensures
        c.bit() < 15,
        Capability::at_bit(c.bit()) == Some(c),
{
}

/// A bit below 15 belongs to exactly one capability.
pub proof fn lemma_at_bit_bit(bit: u32)
    ensures
        bit < 15 <==> Capability::at_bit(bit) is Some,
        Capability::at_bit(bit) is Some ==> Capability::at_bit(bit)->0.bit() == bit,
{
}

/// Single-bit masks: what or-ing one in does to a test against another, and
/// when two of them meet.
proof fn lemma_single_bits(m: u32, i: u32, j: u32)
    requires
        i < 32,
        j < 32,
    ensures
        ((m | (1u32 << i)) & (1u32 << j) != 0) == ((m & (1u32 << j) != 0) || i == j),
        ((1u32 << i) & (1u32 << j) != 0) == (i == j),
        (1u32 << i) != 0,
        i < 15 ==> (1u32 << i) < 0x8000,
        (1u32 << i) == (1u32 << j) ==> i == j,
{
    assert(((m | (1u32 << i)) & (1u32 << j) != 0) == ((m & (1u32 << j) != 0) || i == j))
        by (bit_vector)
        requires
            i < 32,
            j < 32,
    ;
    assert(((1u32 << i) & (1u32 << j) != 0) == (i == j)) by (bit_vector)
        requires
            i < 32,
            j < 32,
    ;
    assert((1u32 << i) != 0) by (bit_vector)
        requires
            i < 32,
    ;
    assert(i < 15 ==> (1u32 << i) < 0x8000) by (bit_vector)
        requires
            i < 32,
    ;
    assert((1u32 << i) == (1u32 << j) ==> i == j) by (bit_vector)
        requires
            i < 32,
            j < 32,
    ;
}

/// What follows from a capability in a set: a pressurepad is a clickpad, a
/// clickpad or pressurepad is a touchpad, a touchpad is a pointer.
pub open spec fn closure(s: Set<Capability>) -> Set<Capability> {
    Set::new(
        |c: Capability|
            {
                ||| s.contains(c)
                ||| c == Capability::Clickpad && s.contains(Capability::Pressurepad)
                ||| c == Capability::Touchpad && (s.contains(Capability::Clickpad) || s.contains(
                    Capability::Pressurepad,
                ))
                ||| c == Capability::Pointer && (s.contains(Capability::Touchpad) || s.contains(
                    Capability::Clickpad,
                ) || s.contains(Capability::Pressurepad))
            },
    )
}

/// Whether `s` holds every capability that its members imply.
pub open spec fn is_closed(s: Set<Capability>) -> bool {
    &&& s.contains(Capability::Pressurepad) ==> s.contains(Capability::Clickpad)
    &&& s.contains(Capability::Clickpad) || s.contains(Capability::Pressurepad) ==> s.contains(
        Capability::Touchpad,
    )
    &&& s.contains(Capability::Touchpad) ==> s.contains(Capability::Pointer)
}

/// The abstract type of a device with the capabilities `s`.
///
/// The rules run from the weakest to the strongest, and the strongest rule
/// that applies decides: a device with nothing but a switch is a switch; a
/// keyboard is a keyboard, also where it has pointer bits; without a keyboard
/// a pointer is a pointer; a pointingstick, touchpad, clickpad, pressurepad or
/// trackball makes a pointer of anything before; a touchscreen a touchscreen;
/// a joystick or gamepad a gaming device; a tablet of any kind a tablet.
pub open spec fn reduce(s: Set<Capability>) -> AbstractType {
    if s.contains(Capability::Tablet) || s.contains(Capability::TabletScreen) || s.contains(
        Capability::TabletExternal,
    ) || s.contains(Capability::TabletPad) {
        AbstractType::Tablet
    } else if s.contains(Capability::Joystick) || s.contains(Capability::Gamepad) {
        AbstractType::GamingDevice
    } else if s.contains(Capability::Touchscreen) {
        AbstractType::Touchscreen
    } else if s.contains(Capability::Pointingstick) || s.contains(Capability::Touchpad)
        || s.contains(Capability::Clickpad) || s.contains(Capability::Pressurepad) || s.contains(
        Capability::Trackball,
    ) {
        AbstractType::Pointer
    } else if s.contains(Capability::Keyboard) {
        AbstractType::Keyboard
    } else if s.contains(Capability::Pointer) {
        AbstractType::Pointer
    } else {
        AbstractType::Switch
    }
}

/// The abstract type of a device does not depend on the order in which its
/// capabilities are given: two sequences that hold the same capabilities, each
/// as often as the other, reduce to the same type.
pub proof fn lemma_reduce_order_independent(a: Seq<Capability>, b: Seq<Capability>)
    requires
        a.to_multiset() == b.to_multiset(),
    ensures
        a.to_set() == b.to_set(),
        reduce(a.to_set()) == reduce(b.to_set()),
{
    a.to_multiset_ensures();
    b.to_multiset_ensures();
    assert forall|c: Capability| a.to_set().contains(c) == b.to_set().contains(c) by {
        assert(a.contains(c) <==> a.to_multiset().count(c) > 0);
        assert(b.contains(c) <==> b.to_multiset().count(c) > 0);
    }
    assert(a.to_set() =~= b.to_set());
}

/// Closing a set of capabilities does not change what it reduces to.
pub proof fn lemma_reduce_closure(s: Set<Capability>)
    ensures
        reduce(closure(s)) == reduce(s),
{
}

/// The members of `s` whose bits are at `low` or above, highest bit first.
pub open spec fn listing_from(s: Set<Capability>, low: nat) -> Seq<Capability>
    decreases 15 - low,
{
    if low >= 15 {
        Seq::empty()
    } else {
        let above = listing_from(s, low + 1);
        let here = Capability::at_bit(low as u32)->0;
        if s.contains(here) {
            above.push(here)
        } else {
            above
        }
    }
}

/// The members of `s`, each once, highest bit first.
pub open spec fn listing(s: Set<Capability>) -> Seq<Capability> {
    listing_from(s, 0)
}

/// The capability that a udev property stands for, if any.
pub open spec fn capability_of_property(name: Seq<char>) -> Option<Capability> {
    if name == "ID_INPUT_KEY"@ {
        Some(Capability::Keyboard)
    } else if name == "ID_INPUT_KEYBOARD"@ {
        Some(Capability::Keyboard)
    } else if name == "ID_INPUT_MOUSE"@ {
        Some(Capability::Pointer)
    } else if name == "ID_INPUT_TOUCHPAD"@ {
        Some(Capability::Touchpad)
    } else if name == "ID_INPUT_TOUCHSCREEN"@ {
        Some(Capability::Touchscreen)
    } else if name == "ID_INPUT_TRACKBALL"@ {
        Some(Capability::Trackball)
    } else if name == "ID_INPUT_POINTINGSTICK"@ {
        Some(Capability::Pointingstick)
    } else if name == "ID_INPUT_TABLET"@ {
        Some(Capability::Tablet)
    } else if name == "ID_INPUT_TABLET_PAD"@ {
        Some(Capability::TabletPad)
    } else if name == "ID_INPUT_TABLET_JOYSTICK"@ {
        Some(Capability::Joystick)
    } else if name == "ID_INPUT_SWITCH"@ {
        Some(Capability::Switch)
    } else {
        None
    }
}

/// A listing holds the members of the set at or above its lowest bit, and
/// nothing else.
pub proof fn lemma_listing_from_contains(s: Set<Capability>, low: nat, c: Capability)
    ensures
        listing_from(s, low).contains(c) <==> s.contains(c) && c.bit() >= low,
    decreases 15 - low,
{
    if low < 15 {
        let above = listing_from(s, low + 1);
        let here = Capability::at_bit(low as u32)->0;
        lemma_listing_from_contains(s, low + 1, c);
        lemma_at_bit_bit(low as u32);
        lemma_bit_at_bit(c);
        if s.contains(here) {
            let all = above.push(here);
            if all.contains(c) {
                let k = choose|k: int| 0 <= k < all.len() && all[k] == c;
                if k < above.len() {
                    assert(above[k] == c);
                }
            }
            if above.contains(c) {
                let k = choose|k: int| 0 <= k < above.len() && above[k] == c;
                assert(all[k] == c);
            }
            assert(all[above.len() as int] == here);
        }
    } else {
        lemma_bit_at_bit(c);
    }
}

/// A listing names no capability twice, and bits fall along it.
pub proof fn lemma_listing_from_descends(s: Set<Capability>, low: nat)
    ensures
        forall|i: int, j: int|
            0 <= i < j < listing_from(s, low).len() ==> listing_from(s, low)[i].bit()
                > listing_from(s, low)[j].bit(),
        listing_from(s, low).no_duplicates(),
    decreases 15 - low,
{
    if low < 15 {
        let above = listing_from(s, low + 1);
        let here = Capability::at_bit(low as u32)->0;
        lemma_listing_from_descends(s, low + 1);
        lemma_at_bit_bit(low as u32);
        assert forall|i: int| 0 <= i < above.len() implies above[i].bit() > low by {
            assert(above.contains(above[i]));
            lemma_listing_from_contains(s, low + 1, above[i]);
        }
    }
}

/// The listing of a set holds exactly the set's members.
pub proof fn lemma_listing_to_set(s: Set<Capability>)
    ensures
        listing(s).to_set() == s,
        listing(s).no_duplicates(),
{
    assert forall|c: Capability| listing(s).to_set().contains(c) == s.contains(c) by {
        lemma_listing_from_contains(s, 0, c);
    }
    assert(listing(s).to_set() =~= s);
    lemma_listing_from_descends(s, 0);
}

/// The closure of a set holds the set, is closed, and lies within every closed
/// set that holds the set.
pub proof fn lemma_closure_least(s: Set<Capability>, t: Set<Capability>)
    ensures
        s.subset_of(closure(s)),
        is_closed(closure(s)),
        s.subset_of(t) && is_closed(t) ==> closure(s).subset_of(t),
{
}

/// Closing a closed set changes nothing.
pub proof fn lemma_closure_of_closed(s: Set<Capability>)
    requires
        is_closed(s),
    ensures
        closure(s) == s,
{
    assert(closure(s) =~= s);
}

/// Closing twice gives what closing once gives.
pub proof fn lemma_closure_idempotent(s: Set<Capability>)
    ensures
        closure(closure(s)) == closure(s),
{
    assert(closure(closure(s)) =~= closure(s));
}

/// Extending what was extended gives it back: the listing of a closure, taken
/// as a set and closed and listed again, is the same listing.
pub proof fn lemma_extend_idempotent(s: Set<Capability>)
    ensures
        listing(closure(listing(closure(s)).to_set())) == listing(closure(s)),
{
    lemma_listing_to_set(closure(s));
    lemma_closure_idempotent(s);
}

/// A larger set has a larger closure, and the closure of a union is the union
/// of the closures.
pub proof fn lemma_closure_union(s: Set<Capability>, t: Set<Capability>)
    ensures
        s.subset_of(t) ==> closure(s).subset_of(closure(t)),
        closure(s.union(t)) == closure(s).union(closure(t)),
{
    assert(closure(s.union(t)) =~= closure(s).union(closure(t)));
}

/// A mask below bit 15 stays there when such a bit is set in it, and has no
/// bit from 15 on.
proof fn lemma_stays_in_range(m: u32, i: u32)
    requires
        m < 0x8000,
        i < 32,
    ensures
        i < 15 ==> (m | (1u32 << i)) < 0x8000,
        i >= 15 ==> m & (1u32 << i) == 0,
{
    assert(i < 15 ==> (m | (1u32 << i)) < 0x8000) by (bit_vector)
        requires
            m < 0x8000,
            i < 32,
    ;
    assert(i >= 15 ==> m & (1u32 << i) == 0) by (bit_vector)
        requires
            m < 0x8000,
            i < 32,
    ;
}

/// The values of the single-bit masks below bit 15.
proof fn lemma_mask_values()
    ensures
        1u32 << 0u32 == 0x1,
        1u32 << 1u32 == 0x2,
        1u32 << 2u32 == 0x4,
        1u32 << 3u32 == 0x8,
        1u32 << 4u32 == 0x10,
        1u32 << 5u32 == 0x20,
        1u32 << 6u32 == 0x40,
        1u32 << 7u32 == 0x80,
        1u32 << 8u32 == 0x100,
        1u32 << 9u32 == 0x200,
        1u32 << 10u32 == 0x400,
        1u32 << 11u32 == 0x800,
        1u32 << 12u32 == 0x1000,
        1u32 << 13u32 == 0x2000,
        1u32 << 14u32 == 0x4000,
{
    assert(1u32 << 0u32 == 0x1) by (bit_vector);
    assert(1u32 << 1u32 == 0x2) by (bit_vector);
    assert(1u32 << 2u32 == 0x4) by (bit_vector);
    assert(1u32 << 3u32 == 0x8) by (bit_vector);
    assert(1u32 << 4u32 == 0x10) by (bit_vector);
    assert(1u32 << 5u32 == 0x20) by (bit_vector);
    assert(1u32 << 6u32 == 0x40) by (bit_vector);
    assert(1u32 << 7u32 == 0x80) by (bit_vector);
    assert(1u32 << 8u32 == 0x100) by (bit_vector);
    assert(1u32 << 9u32 == 0x200) by (bit_vector);
    assert(1u32 << 10u32 == 0x400) by (bit_vector);
    assert(1u32 << 11u32 == 0x800) by (bit_vector);
    assert(1u32 << 12u32 == 0x1000) by (bit_vector);
    assert(1u32 << 13u32 == 0x2000) by (bit_vector);
    assert(1u32 << 14u32 == 0x4000) by (bit_vector);
}

/// A set of capabilities, held as a bitset.
#[derive(Debug, Copy, Clone, Eq, PartialEq, Hash, Structural)]
pub struct Cap {
    mask: u32,
}

impl View for Cap {
    type V = Set<Capability>;

    /// The capabilities whose bits are set.
    closed spec fn view(&self) -> Set<Capability> {
        Set::new(|c: Capability| self.mask & c.mask() != 0)
    }
}

impl Cap {
    /// Only bits that belong to a capability are set.
    #[verifier::type_invariant]
    spec fn in_range(self) -> bool {
        self.mask < 0x8000
    }

    /// The capabilities of `capabilities`, as a set.
    pub fn new(capabilities: Vec<Capability>) -> (caps: Cap)
        ensures
            caps@ == capabilities@.to_set(),
    {
        let mut mask: u32 = 0;
        let mut i: usize = 0;
        proof {
            assert(forall|c: Capability| 0u32 & #[trigger] c.mask() == 0) by {
                assert(forall|x: u32| 0u32 & x == 0) by (bit_vector);
            }
        }
        while i < capabilities.len()
            invariant
                i <= capabilities.len(),
                forall|c: Capability|
                    (mask & #[trigger] c.mask() != 0) == capabilities@.take(i as int).contains(c),
                mask < 0x8000,
            decreases capabilities.len() - i,
        {
            let cap = capabilities[i];
            let bit = Cap::as_mask(cap);
            proof {
                let before = capabilities@.take(i as int);
                let after = capabilities@.take(i + 1);
                assert(after == before.push(cap));
                lemma_stays_in_range(mask, cap.bit());
                assert forall|c: Capability|
                    ((mask | bit) & #[trigger] c.mask() != 0) == after.contains(c) by {
                    lemma_single_bits(mask, cap.bit(), c.bit());
                    if c == cap {
                        assert(after[i as int] == c);
                    } else if before.contains(c) {
                        let k = choose|k: int| 0 <= k < before.len() && before[k] == c;
                        assert(after[k] == c);
                    }
                }
            }
            mask |= bit;
            i += 1;
        }
        let caps = Cap { mask };
        proof {
            assert(capabilities@.take(i as int) == capabilities@);
            assert(caps@ =~= capabilities@.to_set());
        }
        caps
    }

    /// The mask with only `cap`'s bit set.
    pub fn as_mask(cap: Capability) -> (mask: u32)
        ensures
            mask == cap.mask(),
    {
        match cap {
            Capability::Keyboard => 1 << 0,
            Capability::Pointer => 1 << 1,
            Capability::Pointingstick => 1 << 2,
            Capability::Touchpad => 1 << 3,
            Capability::Clickpad => 1 << 4,
            Capability::Pressurepad => 1 << 5,
            Capability::Touchscreen => 1 << 6,
            Capability::Trackball => 1 << 7,
            Capability::Joystick => 1 << 8,
            Capability::Gamepad => 1 << 9,
            Capability::Tablet => 1 << 10,
            Capability::TabletScreen => 1 << 11,
            Capability::TabletExternal => 1 << 12,
            Capability::TabletPad => 1 << 13,
            Capability::Switch => 1 << 14,
        }
    }

    /// Adds `cap` to the set.
    pub fn set(&mut self, cap: Capability)
        ensures
            final(self)@ == old(self)@.insert(cap),
    {
        let bit = Cap::as_mask(cap);
        proof {
            use_type_invariant(&*self);
            lemma_stays_in_range(self.mask, cap.bit());
            assert forall|c: Capability|
                ((self.mask | bit) & #[trigger] c.mask() != 0) == old(self)@.insert(cap).contains(
                    c,
                ) by {
                lemma_single_bits(self.mask, cap.bit(), c.bit());
            }
        }
        self.mask |= bit;
        assert(self@ =~= old(self)@.insert(cap));
    }

    /// Whether `cap` is in the set.
    pub fn has(&self, cap: Capability) -> (present: bool)
        ensures
            present == self@.contains(cap),
    {
        (self.mask & Cap::as_mask(cap)) != 0
    }
    /// The capability whose mask is `mask`, if `mask` is the mask of one.
    pub fn from_mask(mask: u32) -> (cap: Option<Capability>)
        ensures
            match cap {
                Some(c) => mask == c.mask(),
                None => forall|c: Capability| mask != c.mask(),
            },
    {
        proof {
            lemma_mask_values();
        }
        let c: Capability = match mask {
            0b0000000000000001 => Capability::Keyboard,
            0b0000000000000010 => Capability::Pointer,
            0b0000000000000100 => Capability::Pointingstick,
            0b0000000000001000 => Capability::Touchpad,
            0b0000000000010000 => Capability::Clickpad,
            0b0000000000100000 => Capability::Pressurepad,
            0b0000000001000000 => Capability::Touchscreen,
            0b0000000010000000 => Capability::Trackball,
            0b0000000100000000 => Capability::Joystick,
            0b0000001000000000 => Capability::Gamepad,
            0b0000010000000000 => Capability::Tablet,
            0b0000100000000000 => Capability::TabletScreen,
            0b0001000000000000 => Capability::TabletExternal,
            0b0010000000000000 => Capability::TabletPad,
            0b0100000000000000 => Capability::Switch,
            _ => return None,
        };
        Some(c)
    }

    /// The members of the set, each once, highest bit first.
    pub fn to_vec(self) -> (caps: Vec<Capability>)
        ensures
            caps@ == listing(self@),
    {
        let mut caps: Vec<Capability> = Vec::new();
        let mut bit: u32 = 32;
        proof {
            use_type_invariant(&self);
        }
        while bit > 0
            invariant
                bit <= 32,
                self.mask < 0x8000,
                caps@ == listing_from(self@, bit as nat),
            decreases bit,
        {
            bit -= 1;
            let mask: u32 = 1 << bit;
            proof {
                lemma_stays_in_range(self.mask, bit);
                lemma_at_bit_bit(bit);
            }
            if self.mask & mask != 0 {
                let found = Cap::from_mask(mask);
                proof {
                    let here = Capability::at_bit(bit)->0;
                    assert(here.mask() == mask);
                    if let Some(c) = found {
                        lemma_single_bits(0, c.bit(), bit);
                    }
                }
                caps.push(found.unwrap());
            }
        }
        caps
    }

    /// The abstract type of a device with these capabilities.
    pub fn reduce(&self) -> (guess: AbstractType)
        ensures
            guess == reduce(self@),
    {
        if self.has(Capability::Tablet) || self.has(Capability::TabletScreen) || self.has(
            Capability::TabletExternal,
        ) || self.has(Capability::TabletPad) {
            AbstractType::Tablet
        } else if self.has(Capability::Joystick) || self.has(Capability::Gamepad) {
            AbstractType::GamingDevice
        } else if self.has(Capability::Touchscreen) {
            AbstractType::Touchscreen
        } else if self.has(Capability::Pointingstick) || self.has(Capability::Touchpad)
            || self.has(Capability::Clickpad) || self.has(Capability::Pressurepad) || self.has(
            Capability::Trackball,
        ) {
            AbstractType::Pointer
        } else if self.has(Capability::Keyboard) {
            AbstractType::Keyboard
        } else if self.has(Capability::Pointer) {
            AbstractType::Pointer
        } else {
            AbstractType::Switch
        }
    }
}

impl Capability {
    /// The single capability that the udev property `name` stands for, if any.
    pub fn from_udev_prop(name: &str) -> (cap: Option<Capability>)
        ensures
            cap == capability_of_property(name@),
    {
        let chars = chars_of(name);
        if chars_are(&chars, "ID_INPUT_KEY") {
            Some(Capability::Keyboard)
        } else if chars_are(&chars, "ID_INPUT_KEYBOARD") {
            Some(Capability::Keyboard)
        } else if chars_are(&chars, "ID_INPUT_MOUSE") {
            Some(Capability::Pointer)
        } else if chars_are(&chars, "ID_INPUT_TOUCHPAD") {
            Some(Capability::Touchpad)
        } else if chars_are(&chars, "ID_INPUT_TOUCHSCREEN") {
            Some(Capability::Touchscreen)
        } else if chars_are(&chars, "ID_INPUT_TRACKBALL") {
            Some(Capability::Trackball)
        } else if chars_are(&chars, "ID_INPUT_POINTINGSTICK") {
            Some(Capability::Pointingstick)
        } else if chars_are(&chars, "ID_INPUT_TABLET") {
            Some(Capability::Tablet)
        } else if chars_are(&chars, "ID_INPUT_TABLET_PAD") {
            Some(Capability::TabletPad)
        } else if chars_are(&chars, "ID_INPUT_TABLET_JOYSTICK") {
            Some(Capability::Joystick)
        } else if chars_are(&chars, "ID_INPUT_SWITCH") {
            Some(Capability::Switch)
        } else {
            None
        }
    }

    /// The capability whose bit is at position `bit`, if there is one.
    pub fn from_bit(bit: u32) -> (cap: Option<Capability>)
        ensures
            cap == Capability::at_bit(bit),
    {
        if bit < 15 {
            let found = Cap::from_mask(1u32 << bit);
            proof {
                lemma_at_bit_bit(bit);
                let here = Capability::at_bit(bit)->0;
                assert(here.mask() == 1u32 << bit);
                if let Some(c) = found {
                    lemma_single_bits(0, c.bit(), bit);
                }
            }
            found
        } else {
            None
        }
    }

    /// The given capabilities together with the capabilities that they imply:
    /// each once, highest bit first.
    pub fn extend(capabilities: Vec<Capability>) -> (extended: Vec<Capability>)
        ensures
            extended@ == listing(closure(capabilities@.to_set())),
    {
        let ghost given = capabilities@.to_set();
        let mut caps = Cap::new(capabilities);
        if caps.has(Capability::Pressurepad) {
            caps.set(Capability::Clickpad);
        }
        if caps.has(Capability::Clickpad) || caps.has(Capability::Pressurepad) {
            caps.set(Capability::Touchpad);
        }
        if caps.has(Capability::Touchpad) {
            caps.set(Capability::Pointer);
        }
        assert(caps@ =~= closure(given));
        caps.to_vec()
    }
}

} // verus!
