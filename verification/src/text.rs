//! Strings as sequences of characters.

use vstd::prelude::*;

verus! {

/// The characters of `s`, in order.
pub fn chars_of(s: &str) -> (chars: Vec<char>)
    ensures
        chars@ == s@,
{
    let mut chars: Vec<char> = Vec::new();
    for c in it: s.chars()
        invariant
            chars@ == it.seq().take(it.index() as int),
            it.seq() == s@,
    {
        chars.push(c);
    }
    chars
}

/// Whether `text`, from position `at` on, goes on with `part`.
pub open spec fn holds_at(text: Seq<char>, at: int, part: Seq<char>) -> bool {
    &&& 0 <= at
    &&& at + part.len() <= text.len()
    &&& text.subrange(at, at + part.len()) == part
}

/// Whether `text`, from position `at` on, goes on with `part`.
pub fn chars_hold_at(text: &Vec<char>, at: usize, part: &Vec<char>) -> (holds: bool)
    ensures
        holds == holds_at(text@, at as int, part@),
{
    if at > text.len() || part.len() > text.len() - at {
        return false;
    }
    let mut i: usize = 0;
    while i < part.len()
        invariant
            i <= part.len(),
            at + part.len() <= text.len(),
            forall|k: int| 0 <= k < i ==> text@[at + k] == part@[k],
        decreases part.len() - i,
    {
        if text[at + i] != part[i] {
            proof {
                let cut = text@.subrange(at as int, at + part.len());
                assert(cut[i as int] == text@[at + i]);
            }
            return false;
        }
        i += 1;
    }
    assert(text@.subrange(at as int, at + part.len()) =~= part@);
    true
}

/// Whether `chars` are the characters of `text`.
pub fn chars_are(chars: &Vec<char>, text: &str) -> (same: bool)
    ensures
        same == (chars@ == text@),
{
    let other = chars_of(text);
    let same = chars.len() == other.len() && chars_hold_at(chars, 0, &other);
    proof {
        if chars.len() == other.len() {
            assert(chars@.subrange(0, chars@.len() as int) == chars@);
        }
    }
    same
}

/// Whether `chars` begin with the characters of `text`.
pub fn chars_begin_with(chars: &Vec<char>, text: &str) -> (begins: bool)
    ensures
        begins == text@.is_prefix_of(chars@),
{
    let other = chars_of(text);
    chars_hold_at(chars, 0, &other)
}

/// Whether `a` and `b` hold the same characters.
pub fn str_eq(a: &str, b: &str) -> (same: bool)
    ensures
        same == (a@ == b@),
{
    let chars = chars_of(a);
    chars_are(&chars, b)
}

/// Whether the path `base` lies above the path `path` in the hierarchy:
/// `path` begins with `base` and goes on with a further component.
pub open spec fn is_path_above(base: Seq<char>, path: Seq<char>) -> bool {
    &&& base.len() < path.len()
    &&& base.is_prefix_of(path)
    &&& (path[base.len() as int] == '/' || (base.len() > 0 && base.last() == '/'))
}

/// Whether the path `base` lies above the path `path` in the hierarchy.
pub fn path_is_above(base: &str, path: &str) -> (above: bool)
    ensures
        above == is_path_above(base@, path@),
{
    let b = chars_of(base);
    let p = chars_of(path);
    if b.len() >= p.len() || !chars_hold_at(&p, 0, &b) {
        return false;
    }
    p[b.len()] == '/' || (b.len() > 0 && b[b.len() - 1] == '/')
}

} // verus!
