//! The text form of a device: how a [`crate::device::Device`] is written
//! down, and how the text is read back.
//!
//! A snapshot begins with [`magic`], which names the format and its version.
//! Then come, in this order, the name, the vendor and product, the udev
//! device, the sysfs path and the capabilities. Each begins with `+` where it
//! is known and is a lone `-` where it is not. A text is written as 16 digits
//! that give its length, and its characters; vendor and product as 4 digits
//! each; the capabilities as 15 characters `0` or `1`, one for each
//! capability, in the order of their bits. Digits are hexadecimal, in lower
//! case. Nothing follows the capabilities.

use crate::types::{Cap, Capability};
use vstd::prelude::*;

verus! {

/// What a [`crate::device::Device`] holds.
pub struct DeviceView {
    pub name: Option<Seq<char>>,
    /// Vendor and product.
    pub usbid: Option<(u16, u16)>,
    pub udev_device: Option<Seq<char>>,
    pub sysfs_path: Option<Seq<char>>,
    pub capabilities: Option<Set<Capability>>,
}

/// The digit for a value below 16.
pub open spec fn hex_char(d: nat) -> char {
    if d == 0 {
        '0'
    } else if d == 1 {
        '1'
    } else if d == 2 {
        '2'
    } else if d == 3 {
        '3'
    } else if d == 4 {
        '4'
    } else if d == 5 {
        '5'
    } else if d == 6 {
        '6'
    } else if d == 7 {
        '7'
    } else if d == 8 {
        '8'
    } else if d == 9 {
        '9'
    } else if d == 10 {
        'a'
    } else if d == 11 {
        'b'
    } else if d == 12 {
        'c'
    } else if d == 13 {
        'd'
    } else if d == 14 {
        'e'
    } else {
        'f'
    }
}

/// The value of a digit; a character that is no digit has none.
pub open spec fn hex_digit(c: char) -> Option<nat> {
    if c == '0' {
        Some(0)
    } else if c == '1' {
        Some(1)
    } else if c == '2' {
        Some(2)
    } else if c == '3' {
        Some(3)
    } else if c == '4' {
        Some(4)
    } else if c == '5' {
        Some(5)
    } else if c == '6' {
        Some(6)
    } else if c == '7' {
        Some(7)
    } else if c == '8' {
        Some(8)
    } else if c == '9' {
        Some(9)
    } else if c == 'a' {
        Some(10)
    } else if c == 'b' {
        Some(11)
    } else if c == 'c' {
        Some(12)
    } else if c == 'd' {
        Some(13)
    } else if c == 'e' {
        Some(14)
    } else if c == 'f' {
        Some(15)
    } else {
        None
    }
}

/// 16 to the power of `n`.
pub open spec fn pow16(n: nat) -> nat
    decreases n,
{
    if n == 0 {
        1
    } else {
        16 * pow16((n - 1) as nat)
    }
}

/// `v` in `width` digits, the highest first. A value that needs more digits
/// loses its upper part.
pub open spec fn hex_text(v: nat, width: nat) -> Seq<char>
    decreases width,
{
    if width == 0 {
        Seq::empty()
    } else {
        hex_text(v / 16, (width - 1) as nat).push(hex_char(v % 16))
    }
}

/// The value that the digits `s` give, the highest first; none where a
/// character of `s` is no digit.
pub open spec fn hex_number(s: Seq<char>) -> Option<nat>
    decreases s.len(),
{
    if s.len() == 0 {
        Some(0)
    } else {
        match (hex_number(s.drop_last()), hex_digit(s.last())) {
            (Some(upper), Some(d)) => Some(upper * 16 + d),
            _ => None,
        }
    }
}

/// The number that `s` begins with in `width` digits, and what follows it.
pub open spec fn parse_number(s: Seq<char>, width: nat) -> Option<(nat, Seq<char>)> {
    if s.len() < width {
        None
    } else {
        match hex_number(s.take(width as int)) {
            Some(v) => Some((v, s.skip(width as int))),
            None => None,
        }
    }
}

/// A text as it stands in a snapshot: its length in 16 digits, then its
/// characters.
pub open spec fn text_field(t: Seq<char>) -> Seq<char> {
    hex_text(t.len(), 16) + t
}

/// The text that `s` begins with, and what follows it.
pub open spec fn parse_text(s: Seq<char>) -> Option<(Seq<char>, Seq<char>)> {
    match parse_number(s, 16) {
        Some((n, rest)) => if n <= rest.len() {
            Some((rest.take(n as int), rest.skip(n as int)))
        } else {
            None
        },
        None => None,
    }
}

/// A text that may be unknown, as it stands in a snapshot.
pub open spec fn optional_text(t: Option<Seq<char>>) -> Seq<char> {
    match t {
        Some(t) => seq!['+'] + text_field(t),
        None => seq!['-'],
    }
}

/// The text that may be unknown that `s` begins with, and what follows it.
pub open spec fn parse_optional_text(s: Seq<char>) -> Option<(Option<Seq<char>>, Seq<char>)> {
    if s.len() == 0 {
        None
    } else if s[0] == '-' {
        Some((None, s.skip(1)))
    } else if s[0] == '+' {
        match parse_text(s.skip(1)) {
            Some((t, rest)) => Some((Some(t), rest)),
            None => None,
        }
    } else {
        None
    }
}

/// Vendor and product, which may be unknown, as they stand in a snapshot.
pub open spec fn optional_ids(ids: Option<(u16, u16)>) -> Seq<char> {
    match ids {
        Some((vendor, product)) => seq!['+'] + hex_text(vendor as nat, 4) + hex_text(
            product as nat,
            4,
        ),
        None => seq!['-'],
    }
}

/// The vendor and product that `s` begins with, and what follows them.
pub open spec fn parse_optional_ids(s: Seq<char>) -> Option<(Option<(u16, u16)>, Seq<char>)> {
    if s.len() == 0 {
        None
    } else if s[0] == '-' {
        Some((None, s.skip(1)))
    } else if s[0] == '+' {
        match parse_number(s.skip(1), 4) {
            Some((vendor, rest)) => match parse_number(rest, 4) {
                Some((product, rest)) => Some((Some((vendor as u16, product as u16)), rest)),
                None => None,
            },
            None => None,
        }
    } else {
        None
    }
}

/// A set of capabilities as it stands in a snapshot: for each capability, in
/// the order of their bits, `1` where the set holds it and `0` where not.
pub open spec fn flags_text(s: Set<Capability>) -> Seq<char> {
    Seq::new(
        15,
        |i: int|
            if s.contains(Capability::at_bit(i as u32)->0) {
                '1'
            } else {
                '0'
            },
    )
}

/// Whether the first 15 characters of `s` are all `0` or `1`.
pub open spec fn begins_with_flags(s: Seq<char>) -> bool {
    &&& s.len() >= 15
    &&& forall|i: int| 0 <= i < 15 ==> s[i] == '0' || s[i] == '1'
}

/// The set of capabilities that `s` begins with, and what follows it.
pub open spec fn parse_flags(s: Seq<char>) -> Option<(Set<Capability>, Seq<char>)> {
    if begins_with_flags(s) {
        Some((Set::new(|c: Capability| s[c.bit() as int] == '1'), s.skip(15)))
    } else {
        None
    }
}

/// A set of capabilities that may be unknown, as it stands in a snapshot.
pub open spec fn optional_flags(s: Option<Set<Capability>>) -> Seq<char> {
    match s {
        Some(s) => seq!['+'] + flags_text(s),
        None => seq!['-'],
    }
}

/// The set of capabilities that may be unknown that `s` begins with, and what
/// follows it.
pub open spec fn parse_optional_flags(s: Seq<char>) -> Option<
    (Option<Set<Capability>>, Seq<char>),
> {
    if s.len() == 0 {
        None
    } else if s[0] == '-' {
        Some((None, s.skip(1)))
    } else if s[0] == '+' {
        match parse_flags(s.skip(1)) {
            Some((set, rest)) => Some((Some(set), rest)),
            None => None,
        }
    } else {
        None
    }
}

/// What every snapshot of this version begins with.
pub open spec fn magic() -> Seq<char> {
    seq!['w', 'h', 'o', 'd', 'a', 't', '1', ':']
}

/// Whether a text is short enough for its length to stand in 16 digits.
pub open spec fn text_fits(t: Option<Seq<char>>) -> bool {
    t is Some ==> t->0.len() < pow16(16)
}

impl DeviceView {
    /// Whether every text of the device is short enough for a snapshot. Every
    /// text that a machine can hold is.
    pub open spec fn fits(self) -> bool {
        &&& text_fits(self.name)
        &&& text_fits(self.udev_device)
        &&& text_fits(self.sysfs_path)
    }

    /// The device as a snapshot.
    pub open spec fn snapshot(self) -> Seq<char> {
        magic() + optional_text(self.name) + optional_ids(self.usbid) + optional_text(
            self.udev_device,
        ) + optional_text(self.sysfs_path) + optional_flags(self.capabilities)
    }
}

/// The device whose snapshot `s` is; none where `s` is no snapshot.
pub open spec fn parse_snapshot(s: Seq<char>) -> Option<DeviceView> {
    if !magic().is_prefix_of(s) {
        None
    } else {
        match parse_optional_text(s.skip(8)) {
            None => None,
            Some((name, rest)) => match parse_optional_ids(rest) {
                None => None,
                Some((usbid, rest)) => match parse_optional_text(rest) {
                    None => None,
                    Some((udev_device, rest)) => match parse_optional_text(rest) {
                        None => None,
                        Some((sysfs_path, rest)) => match parse_optional_flags(rest) {
                            None => None,
                            Some((capabilities, rest)) => if rest.len() == 0 {
                                Some(
                                    DeviceView {
                                        name,
                                        usbid,
                                        udev_device,
                                        sysfs_path,
                                        capabilities,
                                    },
                                )
                            } else {
                                None
                            },
                        },
                    },
                },
            },
        }
    }
}

/// The powers of 16 that bound the numbers of a snapshot.
pub proof fn lemma_pow16_values()
    ensures
        pow16(4) == 0x1_0000,
        pow16(16) == 0x1_0000_0000_0000_0000,
{
    assert(pow16(0) == 1);
    assert(pow16(1) == 0x10);
    assert(pow16(2) == 0x100);
    assert(pow16(3) == 0x1000);
    assert(pow16(4) == 0x1_0000);
    assert(pow16(5) == 0x10_0000);
    assert(pow16(6) == 0x100_0000);
    assert(pow16(7) == 0x1000_0000);
    assert(pow16(8) == 0x1_0000_0000);
    assert(pow16(9) == 0x10_0000_0000);
    assert(pow16(10) == 0x100_0000_0000);
    assert(pow16(11) == 0x1000_0000_0000);
    assert(pow16(12) == 0x1_0000_0000_0000);
    assert(pow16(13) == 0x10_0000_0000_0000);
    assert(pow16(14) == 0x100_0000_0000_0000);
    assert(pow16(15) == 0x1000_0000_0000_0000);
    assert(pow16(16) == 0x1_0000_0000_0000_0000);
}

/// A number written in digits has as many digits as asked for, and reads
/// back as itself where it is below 16 to the power of that many.
pub proof fn lemma_hex_round_trip(v: nat, width: nat)
    ensures
        hex_text(v, width).len() == width,
        v < pow16(width) ==> hex_number(hex_text(v, width)) == Some(v),
    decreases width,
{
    if width > 0 {
        let upper = hex_text(v / 16, (width - 1) as nat);
        let all = upper.push(hex_char(v % 16));
        lemma_hex_round_trip(v / 16, (width - 1) as nat);
        assert(all.drop_last() == upper);
        assert(all.last() == hex_char(v % 16));
        assert(hex_digit(hex_char(v % 16)) == Some(v % 16));
    }
}

/// Digits that give a number are that number written in as many digits, and
/// the number is below 16 to the power of that many.
pub proof fn lemma_hex_canonical(s: Seq<char>)
    requires
        hex_number(s) is Some,
    ensures
        hex_number(s)->0 < pow16(s.len()),
        hex_text(hex_number(s)->0, s.len()) == s,
    decreases s.len(),
{
    if s.len() > 0 {
        let upper = hex_number(s.drop_last())->0;
        let d = hex_digit(s.last())->0;
        lemma_hex_canonical(s.drop_last());
        assert(d < 16 && hex_char(d) == s.last());
        assert((upper * 16 + d) / 16 == upper);
        assert((upper * 16 + d) % 16 == d);
        assert(s.drop_last().push(s.last()) == s);
    }
}

/// A number in digits, with anything after it, reads back as the number and
/// what came after it.
pub proof fn lemma_parse_number(v: nat, width: nat, rest: Seq<char>)
    requires
        v < pow16(width),
    ensures
        parse_number(hex_text(v, width) + rest, width) == Some((v, rest)),
{
    let digits = hex_text(v, width);
    lemma_hex_round_trip(v, width);
    assert((digits + rest).take(width as int) == digits);
    assert((digits + rest).skip(width as int) == rest);
}

/// A text field, with anything after it, reads back as the text and what
/// came after it.
pub proof fn lemma_parse_text(t: Seq<char>, rest: Seq<char>)
    requires
        t.len() < pow16(16),
    ensures
        parse_text(text_field(t) + rest) == Some((t, rest)),
{
    lemma_parse_number(t.len(), 16, t + rest);
    assert(text_field(t) + rest == hex_text(t.len(), 16) + (t + rest));
    assert((t + rest).take(t.len() as int) == t);
    assert((t + rest).skip(t.len() as int) == rest);
}

/// A text that may be unknown, with anything after it, reads back as itself
/// and what came after it.
pub proof fn lemma_parse_optional_text(t: Option<Seq<char>>, rest: Seq<char>)
    requires
        text_fits(t),
    ensures
        parse_optional_text(optional_text(t) + rest) == Some((t, rest)),
{
    let s = optional_text(t) + rest;
    match t {
        Some(text) => {
            lemma_parse_text(text, rest);
            assert(s.skip(1) == text_field(text) + rest);
        },
        None => {
            assert(s.skip(1) == rest);
        },
    }
}

/// Vendor and product, with anything after them, read back as themselves and
/// what came after them.
pub proof fn lemma_parse_optional_ids(ids: Option<(u16, u16)>, rest: Seq<char>)
    ensures
        parse_optional_ids(optional_ids(ids) + rest) == Some((ids, rest)),
{
    let s = optional_ids(ids) + rest;
    lemma_pow16_values();
    match ids {
        Some((vendor, product)) => {
            let after_vendor = hex_text(product as nat, 4) + rest;
            lemma_parse_number(vendor as nat, 4, after_vendor);
            lemma_parse_number(product as nat, 4, rest);
            assert(s.skip(1) == hex_text(vendor as nat, 4) + after_vendor);
        },
        None => {
            assert(s.skip(1) == rest);
        },
    }
}

/// A set of capabilities that may be unknown, with anything after it, reads
/// back as itself and what came after it.
pub proof fn lemma_parse_optional_flags(set: Option<Set<Capability>>, rest: Seq<char>)
    ensures
        parse_optional_flags(optional_flags(set) + rest) == Some((set, rest)),
{
    let s = optional_flags(set) + rest;
    match set {
        Some(caps) => {
            let flags = flags_text(caps) + rest;
            assert(s.skip(1) == flags);
            assert(begins_with_flags(flags));
            assert(flags.skip(15) == rest);
            let read = Set::new(|c: Capability| flags[c.bit() as int] == '1');
            assert forall|c: Capability| read.contains(c) == caps.contains(c) by {
                crate::types::lemma_bit_at_bit(c);
            }
            assert(read =~= caps);
        },
        None => {
            assert(s.skip(1) == rest);
        },
    }
}

/// Six texts in a row are the first followed by the rest, and so on down
/// the row.
proof fn lemma_row(
    a: Seq<char>,
    b: Seq<char>,
    c: Seq<char>,
    d: Seq<char>,
    e: Seq<char>,
    f: Seq<char>,
)
    ensures
        a + b + c + d + e + f == a + (b + (c + (d + (e + (f + Seq::<char>::empty()))))),
        a.is_prefix_of(a + (b + (c + (d + (e + (f + Seq::<char>::empty())))))),
        (a + (b + (c + (d + (e + (f + Seq::<char>::empty())))))).skip(a.len() as int) == b + (c
            + (d + (e + (f + Seq::<char>::empty())))),
{
    let tail = b + (c + (d + (e + (f + Seq::<char>::empty()))));
    assert(a + b + c + d + e + f =~= a + tail);
    assert((a + tail).subrange(0, a.len() as int) =~= a);
    assert((a + tail).skip(a.len() as int) =~= tail);
}

/// What was written is read back: the snapshot of a device is the snapshot
/// of that device and of no other.
pub proof fn lemma_snapshot_round_trip(d: DeviceView)
    requires
        d.fits(),
    ensures
        parse_snapshot(d.snapshot()) == Some(d),
{
    let s = d.snapshot();
    let name = optional_text(d.name);
    let usbid = optional_ids(d.usbid);
    let udev_device = optional_text(d.udev_device);
    let sysfs_path = optional_text(d.sysfs_path);
    let capabilities = optional_flags(d.capabilities);
    let r5 = Seq::<char>::empty();
    let r4 = capabilities + r5;
    let r3 = sysfs_path + r4;
    let r2 = udev_device + r3;
    let r1 = usbid + r2;
    let r0 = name + r1;
    lemma_row(magic(), name, usbid, udev_device, sysfs_path, capabilities);
    assert(magic().len() == 8);
    assert(s == magic() + r0);
    assert(s.skip(8) == r0);
    lemma_parse_optional_text(d.name, r1);
    lemma_parse_optional_ids(d.usbid, r2);
    lemma_parse_optional_text(d.udev_device, r3);
    lemma_parse_optional_text(d.sysfs_path, r4);
    lemma_parse_optional_flags(d.capabilities, r5);
}

/// Text that begins with a number in digits is that number written in as
/// many digits, followed by what the reading left.
pub proof fn lemma_number_canonical(s: Seq<char>, width: nat)
    requires
        parse_number(s, width) is Some,
    ensures
        parse_number(s, width) matches Some((v, rest)) && v < pow16(width) && s == hex_text(
            v,
            width,
        ) + rest,
{
    let digits = s.take(width as int);
    lemma_hex_canonical(digits);
    assert(s =~= digits + s.skip(width as int));
}

/// Text that begins with a text field is that field, followed by what the
/// reading left.
pub proof fn lemma_text_canonical(s: Seq<char>)
    requires
        parse_text(s) is Some,
    ensures
        parse_text(s) matches Some((t, rest)) && t.len() < pow16(16) && s == text_field(t)
            + rest,
{
    let (n, rest) = parse_number(s, 16)->0;
    lemma_number_canonical(s, 16);
    let t = rest.take(n as int);
    assert(rest =~= t + rest.skip(n as int));
    assert(s =~= text_field(t) + rest.skip(n as int));
}

/// Text that begins with a text that may be unknown is that text as it
/// stands in a snapshot, followed by what the reading left.
pub proof fn lemma_optional_text_canonical(s: Seq<char>)
    requires
        parse_optional_text(s) is Some,
    ensures
        parse_optional_text(s) matches Some((t, rest)) && text_fits(t) && s == optional_text(t)
            + rest,
{
    if s[0] == '+' {
        lemma_text_canonical(s.skip(1));
        assert(s =~= seq!['+'] + s.skip(1));
        let (t, rest) = parse_text(s.skip(1))->0;
        assert(seq!['+'] + (text_field(t) + rest) =~= seq!['+'] + text_field(t) + rest);
    } else {
        assert(s =~= seq!['-'] + s.skip(1));
    }
}

/// Text that begins with vendor and product is those as they stand in a
/// snapshot, followed by what the reading left.
pub proof fn lemma_optional_ids_canonical(s: Seq<char>)
    requires
        parse_optional_ids(s) is Some,
    ensures
        parse_optional_ids(s) matches Some((ids, rest)) && s == optional_ids(ids) + rest,
{
    lemma_pow16_values();
    if s[0] == '+' {
        let (vendor, after_vendor) = parse_number(s.skip(1), 4)->0;
        let (product, rest) = parse_number(after_vendor, 4)->0;
        lemma_number_canonical(s.skip(1), 4);
        lemma_number_canonical(after_vendor, 4);
        assert(s =~= seq!['+'] + s.skip(1));
        let v = hex_text(vendor, 4);
        let p = hex_text(product, 4);
        assert(seq!['+'] + (v + (p + rest)) =~= seq!['+'] + v + p + rest);
    } else {
        assert(s =~= seq!['-'] + s.skip(1));
    }
}

/// Text that begins with a set of capabilities that may be unknown is that
/// set as it stands in a snapshot, followed by what the reading left.
pub proof fn lemma_optional_flags_canonical(s: Seq<char>)
    requires
        parse_optional_flags(s) is Some,
    ensures
        parse_optional_flags(s) matches Some((set, rest)) && s == optional_flags(set) + rest,
{
    if s[0] == '+' {
        let flags = s.skip(1);
        let (set, rest) = parse_flags(flags)->0;
        assert forall|i: int| 0 <= i < 15 implies flags_text(set)[i] == flags[i] by {
            crate::types::lemma_at_bit_bit(i as u32);
        }
        assert(flags =~= flags_text(set) + rest);
        assert(s =~= seq!['+'] + flags);
        assert(seq!['+'] + (flags_text(set) + rest) =~= seq!['+'] + flags_text(set) + rest);
    } else {
        assert(s =~= seq!['-'] + s.skip(1));
    }
}

/// What is read was written: a text that reads as a device is the snapshot
/// of that device, and the device's texts fit.
pub proof fn lemma_snapshot_canonical(s: Seq<char>)
    requires
        parse_snapshot(s) is Some,
    ensures
        parse_snapshot(s)->0.fits(),
        parse_snapshot(s)->0.snapshot() == s,
{
    let d = parse_snapshot(s)->0;
    let r0 = s.skip(8);
    let (_, r1) = parse_optional_text(r0)->0;
    let (_, r2) = parse_optional_ids(r1)->0;
    let (_, r3) = parse_optional_text(r2)->0;
    let (_, r4) = parse_optional_text(r3)->0;
    let (_, r5) = parse_optional_flags(r4)->0;
    lemma_optional_text_canonical(r0);
    lemma_optional_ids_canonical(r1);
    lemma_optional_text_canonical(r2);
    lemma_optional_text_canonical(r3);
    lemma_optional_flags_canonical(r4);
    assert(magic().len() == 8);
    assert(s == magic() + r0) by {
        assert(s =~= s.subrange(0, 8) + s.skip(8));
    }
    assert(r5 == Seq::<char>::empty());
    lemma_row(
        magic(),
        optional_text(d.name),
        optional_ids(d.usbid),
        optional_text(d.udev_device),
        optional_text(d.sysfs_path),
        optional_flags(d.capabilities),
    );
}

/// A text is the snapshot of at most one device, and the reading finds it:
/// a text reads as a device exactly if it is the snapshot of that device.
pub proof fn lemma_snapshot_exact(s: Seq<char>, d: DeviceView)
    ensures
        parse_snapshot(s) == Some(d) <==> d.fits() && d.snapshot() == s,
{
    if parse_snapshot(s) is Some {
        lemma_snapshot_canonical(s);
    }
    if d.fits() {
        lemma_snapshot_round_trip(d);
    }
}

/// The powers of 16 rise.
proof fn lemma_pow16_rises(a: nat, b: nat)
    requires
        a <= b,
    ensures
        0 < pow16(a) <= pow16(b),
    decreases b,
{
    if a < b {
        lemma_pow16_rises(a, (b - 1) as nat);
    } else if a > 0 {
        lemma_pow16_rises((a - 1) as nat, (a - 1) as nat);
    }
}

/// Digits that give a number begin with digits that give a number.
proof fn lemma_hex_number_begins(s: Seq<char>, k: int)
    requires
        0 <= k <= s.len(),
        hex_number(s) is Some,
    ensures
        hex_number(s.take(k)) is Some,
    decreases s.len(),
{
    if k < s.len() {
        lemma_hex_number_begins(s.drop_last(), k);
        assert(s.drop_last().take(k) == s.take(k));
    } else {
        assert(s.take(k) == s);
    }
}

/// The digit for `d`, as a text.
fn digit_text(d: u64) -> (text: &'static str)
    requires
        d < 16,
    ensures
        text@ == seq![hex_char(d as nat)],
{
    proof {
        reveal_strlit("0");
        reveal_strlit("1");
        reveal_strlit("2");
        reveal_strlit("3");
        reveal_strlit("4");
        reveal_strlit("5");
        reveal_strlit("6");
        reveal_strlit("7");
        reveal_strlit("8");
        reveal_strlit("9");
        reveal_strlit("a");
        reveal_strlit("b");
        reveal_strlit("c");
        reveal_strlit("d");
        reveal_strlit("e");
        reveal_strlit("f");
    }
    let text = if d == 0 {
        "0"
    } else if d == 1 {
        "1"
    } else if d == 2 {
        "2"
    } else if d == 3 {
        "3"
    } else if d == 4 {
        "4"
    } else if d == 5 {
        "5"
    } else if d == 6 {
        "6"
    } else if d == 7 {
        "7"
    } else if d == 8 {
        "8"
    } else if d == 9 {
        "9"
    } else if d == 10 {
        "a"
    } else if d == 11 {
        "b"
    } else if d == 12 {
        "c"
    } else if d == 13 {
        "d"
    } else if d == 14 {
        "e"
    } else {
        "f"
    };
    assert(text@ =~= seq![hex_char(d as nat)]);
    text
}

/// The value of the digit `c`, if `c` is a digit.
fn digit_value(c: char) -> (value: Option<u64>)
    ensures
        match value {
            Some(d) => hex_digit(c) == Some(d as nat),
            None => hex_digit(c) is None,
        },
{
    if c == '0' {
        Some(0)
    } else if c == '1' {
        Some(1)
    } else if c == '2' {
        Some(2)
    } else if c == '3' {
        Some(3)
    } else if c == '4' {
        Some(4)
    } else if c == '5' {
        Some(5)
    } else if c == '6' {
        Some(6)
    } else if c == '7' {
        Some(7)
    } else if c == '8' {
        Some(8)
    } else if c == '9' {
        Some(9)
    } else if c == 'a' {
        Some(10)
    } else if c == 'b' {
        Some(11)
    } else if c == 'c' {
        Some(12)
    } else if c == 'd' {
        Some(13)
    } else if c == 'e' {
        Some(14)
    } else if c == 'f' {
        Some(15)
    } else {
        None
    }
}

/// Writes `v` in `width` digits at the end of `out`.
pub(crate) fn write_hex(out: &mut String, v: u64, width: usize)
    ensures
        final(out)@ == old(out)@ + hex_text(v as nat, width as nat),
    decreases width,
{
    if width > 0 {
        write_hex(out, v / 16, width - 1);
        let ghost upper = out@;
        out.append(digit_text(v % 16));
        assert(out@ =~= old(out)@ + hex_text(v as nat, width as nat));
    } else {
        assert(out@ =~= old(out)@ + hex_text(v as nat, width as nat));
    }
}

/// Writes `text` as a text field at the end of `out`.
pub(crate) fn write_text(out: &mut String, text: &str)
    ensures
        final(out)@ == old(out)@ + text_field(text@),
        text@.len() < pow16(16),
{
    let len = text.unicode_len();
    proof {
        lemma_pow16_values();
    }
    write_hex(out, len as u64, 16);
    out.append(text);
    assert(out@ =~= old(out)@ + text_field(text@));
}

/// Writes `text`, which may be unknown, at the end of `out`.
pub(crate) fn write_optional_text(out: &mut String, text: &Option<String>)
    ensures
        final(out)@ == old(out)@ + optional_text(text.deep_view()),
        text_fits(text.deep_view()),
{
    proof {
        reveal_strlit("+");
        reveal_strlit("-");
    }
    match text {
        Some(text) => {
            out.append("+");
            write_text(out, text.as_str());
            assert(out@ =~= old(out)@ + (seq!['+'] + text_field(text@)));
        },
        None => {
            out.append("-");
            assert(out@ =~= old(out)@ + seq!['-']);
        },
    }
}

/// Writes vendor and product, which may be unknown, at the end of `out`.
pub(crate) fn write_optional_ids(out: &mut String, ids: &Option<(u16, u16)>)
    ensures
        final(out)@ == old(out)@ + optional_ids(*ids),
{
    proof {
        reveal_strlit("+");
        reveal_strlit("-");
    }
    match ids {
        Some((vendor, product)) => {
            out.append("+");
            write_hex(out, *vendor as u64, 4);
            write_hex(out, *product as u64, 4);
            assert(out@ =~= old(out)@ + (seq!['+'] + hex_text(*vendor as nat, 4) + hex_text(
                *product as nat,
                4,
            )));
        },
        None => {
            out.append("-");
            assert(out@ =~= old(out)@ + seq!['-']);
        },
    }
}

/// Writes a set of capabilities, which may be unknown, at the end of `out`.
pub(crate) fn write_optional_flags(out: &mut String, caps: &Option<Cap>)
    ensures
        final(out)@ == old(out)@ + optional_flags(
            match *caps {
                Some(set) => Some(set@),
                None => None,
            },
        ),
{
    proof {
        reveal_strlit("+");
        reveal_strlit("-");
    }
    match caps {
        Some(set) => {
            out.append("+");
            let ghost begun = out@;
            let mut bit: u32 = 0;
            while bit < 15
                invariant
                    bit <= 15,
                    out@ == begun + flags_text(set@).take(bit as int),
                decreases 15 - bit,
            {
                let ghost written = out@;
                proof {
                    crate::types::lemma_at_bit_bit(bit);
                    reveal_strlit("0");
                    reveal_strlit("1");
                }
                let cap = Capability::from_bit(bit);
                match cap {
                    Some(cap) => {
                        if set.has(cap) {
                            out.append("1");
                        } else {
                            out.append("0");
                        }
                    },
                    None => {},
                }
                assert(out@ =~= begun + flags_text(set@).take(bit + 1)) by {
                    assert(flags_text(set@).take(bit + 1) =~= flags_text(set@).take(bit as int).push(
                        flags_text(set@)[bit as int],
                    ));
                    assert(out@ =~= written.push(flags_text(set@)[bit as int]));
                }
                bit += 1;
            }
            assert(flags_text(set@).take(15) == flags_text(set@));
            assert(out@ =~= old(out)@ + (seq!['+'] + flags_text(set@)));
        },
        None => {
            out.append("-");
            assert(out@ =~= old(out)@ + seq!['-']);
        },
    }
}

/// Reads the number that stands at `pos` in `width` digits.
pub(crate) fn read_hex(chars: &Vec<char>, pos: usize, width: usize) -> (number: Option<u64>)
    requires
        pos <= chars.len(),
        width <= 16,
    ensures
        match parse_number(chars@.skip(pos as int), width as nat) {
            Some((v, rest)) => {
                &&& number == Some(v as u64)
                &&& v <= u64::MAX
                &&& pos + width <= chars.len()
                &&& rest == chars@.skip(pos + width)
            },
            None => number is None,
        },
{
    let ghost input = chars@.skip(pos as int);
    if width > chars.len() - pos {
        return None;
    }
    let ghost digits = input.take(width as int);
    let mut value: u64 = 0;
    let mut i: usize = 0;
    while i < width
        invariant
            i <= width <= 16,
            pos + width <= chars.len(),
            input == chars@.skip(pos as int),
            digits == input.take(width as int),
            hex_number(digits.take(i as int)) == Some(value as nat),
            value < pow16(i as nat),
        decreases width - i,
    {
        let ghost seen = digits.take(i as int);
        let ghost more = digits.take(i + 1);
        proof {
            assert(more.drop_last() == seen);
            assert(more.last() == chars@[pos + i]);
            lemma_pow16_rises((i + 1) as nat, 16);
            lemma_pow16_values();
        }
        match digit_value(chars[pos + i]) {
            Some(d) => {
                value = value * 16 + d;
            },
            None => {
                proof {
                    if hex_number(digits) is Some {
                        lemma_hex_number_begins(digits, i + 1);
                    }
                }
                return None;
            },
        }
        i += 1;
    }
    proof {
        assert(digits.take(width as int) == digits);
        assert(input.skip(width as int) == chars@.skip(pos + width));
    }
    Some(value)
}

/// Reads the text field that stands at `pos`, and tells where it ends.
pub(crate) fn read_text(data: &str, chars: &Vec<char>, pos: usize) -> (field: Option<
    (String, usize),
>)
    requires
        chars@ == data@,
        pos <= chars.len(),
    ensures
        match parse_text(chars@.skip(pos as int)) {
            Some((t, rest)) => {
                &&& field matches Some((text, end))
                &&& text@ == t
                &&& end <= chars.len()
                &&& rest == chars@.skip(end as int)
            },
            None => field is None,
        },
{
    let len = match read_hex(chars, pos, 16) {
        Some(len) => len,
        None => {
            return None;
        },
    };
    let start = pos + 16;
    if len > (chars.len() - start) as u64 {
        return None;
    }
    let end = start + len as usize;
    let text = data.substring_char(start, end).to_owned();
    proof {
        let after = chars@.skip(start as int);
        assert(after.take(len as int) == chars@.subrange(start as int, end as int));
        assert(after.skip(len as int) == chars@.skip(end as int));
    }
    Some((text, end))
}

/// Reads the text that may be unknown that stands at `pos`, and tells where
/// it ends.
pub(crate) fn read_optional_text(data: &str, chars: &Vec<char>, pos: usize) -> (field: Option<
    (Option<String>, usize),
>)
    requires
        chars@ == data@,
        pos <= chars.len(),
    ensures
        match parse_optional_text(chars@.skip(pos as int)) {
            Some((t, rest)) => {
                &&& field matches Some((text, end))
                &&& text.deep_view() == t
                &&& end <= chars.len()
                &&& rest == chars@.skip(end as int)
            },
            None => field is None,
        },
{
    if pos >= chars.len() {
        return None;
    }
    let ghost input = chars@.skip(pos as int);
    assert(input[0] == chars@[pos as int]);
    assert(input.skip(1) == chars@.skip(pos + 1));
    if chars[pos] == '-' {
        Some((None, pos + 1))
    } else if chars[pos] == '+' {
        match read_text(data, chars, pos + 1) {
            Some((text, end)) => Some((Some(text), end)),
            None => None,
        }
    } else {
        None
    }
}

/// Reads the vendor and product that stand at `pos`, and tells where they
/// end.
pub(crate) fn read_optional_ids(chars: &Vec<char>, pos: usize) -> (field: Option<
    (Option<(u16, u16)>, usize),
>)
    requires
        pos <= chars.len(),
    ensures
        match parse_optional_ids(chars@.skip(pos as int)) {
            Some((ids, rest)) => {
                &&& field matches Some((read, end))
                &&& read == ids
                &&& end <= chars.len()
                &&& rest == chars@.skip(end as int)
            },
            None => field is None,
        },
{
    if pos >= chars.len() {
        return None;
    }
    let ghost input = chars@.skip(pos as int);
    assert(input[0] == chars@[pos as int]);
    assert(input.skip(1) == chars@.skip(pos + 1));
    if chars[pos] == '-' {
        Some((None, pos + 1))
    } else if chars[pos] == '+' {
        let vendor = match read_hex(chars, pos + 1, 4) {
            Some(vendor) => vendor,
            None => {
                return None;
            },
        };
        let product = match read_hex(chars, pos + 5, 4) {
            Some(product) => product,
            None => {
                return None;
            },
        };
        proof {
            lemma_number_canonical(input.skip(1), 4);
            lemma_number_canonical(chars@.skip(pos + 5), 4);
            lemma_pow16_values();
        }
        Some((Some((vendor as u16, product as u16)), pos + 9))
    } else {
        None
    }
}

/// Reads the set of capabilities that may be unknown that stands at `pos`,
/// and tells where it ends.
pub(crate) fn read_optional_flags(chars: &Vec<char>, pos: usize) -> (field: Option<
    (Option<Cap>, usize),
>)
    requires
        pos <= chars.len(),
    ensures
        match parse_optional_flags(chars@.skip(pos as int)) {
            Some((set, rest)) => {
                &&& field matches Some((read, end))
                &&& match read {
                    Some(caps) => Some(caps@),
                    None => None,
                } == set
                &&& end <= chars.len()
                &&& rest == chars@.skip(end as int)
            },
            None => field is None,
        },
{
    if pos >= chars.len() {
        return None;
    }
    let ghost input = chars@.skip(pos as int);
    assert(input[0] == chars@[pos as int]);
    assert(input.skip(1) == chars@.skip(pos + 1));
    if chars[pos] == '-' {
        Some((None, pos + 1))
    } else if chars[pos] == '+' {
        let start = pos + 1;
        let ghost flags = chars@.skip(start as int);
        if chars.len() - start < 15 {
            return None;
        }
        let mut caps = Cap::new(Vec::new());
        assert(caps@ =~= Set::empty());
        let mut bit: u32 = 0;
        while bit < 15
            invariant
                bit <= 15,
                start == pos + 1,
                start + 15 <= chars.len(),
                chars@[pos as int] == '+',
                flags == chars@.skip(start as int),
                forall|i: int| 0 <= i < bit ==> flags[i] == '0' || flags[i] == '1',
                forall|c: Capability|
                    caps@.contains(c) <==> c.bit() < bit && flags[c.bit() as int] == '1',
            decreases 15 - bit,
        {
            let c = chars[start + bit as usize];
            assert(c == flags[bit as int]);
            proof {
                crate::types::lemma_at_bit_bit(bit);
            }
            if c == '1' {
                match Capability::from_bit(bit) {
                    Some(cap) => {
                        caps.set(cap);
                    },
                    None => {},
                }
            } else if c != '0' {
                proof {
                    let input = chars@.skip(pos as int);
                    assert(input[0] == chars@[pos as int]);
                    assert(input.skip(1) == flags);
                    assert(!begins_with_flags(flags));
                }
                return None;
            }
            proof {
                assert forall|c: Capability|
                    caps@.contains(c) <==> c.bit() < bit + 1 && flags[c.bit() as int] == '1' by {
                    crate::types::lemma_bit_at_bit(c);
                }
            }
            bit += 1;
        }
        proof {
            assert(begins_with_flags(flags));
            assert(flags.skip(15) == chars@.skip(start + 15));
            let read = Set::new(|c: Capability| flags[c.bit() as int] == '1');
            assert forall|c: Capability| caps@.contains(c) == read.contains(c) by {
                crate::types::lemma_bit_at_bit(c);
            }
            assert(caps@ =~= read);
        }
        Some((Some(caps), start + 15))
    } else {
        None
    }
}

} // verus!
