//! Bytes of the ASCII range and byte-string helpers.

use vstd::prelude::*;

verus! {

/// Horizontal tab.
pub const HT: u8 = 9;

/// Line feed.
pub const LF: u8 = 10;

/// Form feed.
pub const FF: u8 = 12;

/// Carriage return.
pub const CR: u8 = 13;

/// Space.
pub const SP: u8 = 32;

/// The digit `0`.
pub const ZERO: u8 = 48;

/// The slash that begins every request path.
pub const SLASH: u8 = 47;

/// ASCII whitespace: space, tab, line feed, form feed, carriage return.
pub open spec fn is_space(b: u8) -> bool {
    b == SP || b == HT || b == LF || b == FF || b == CR
}

/// Whitespace that does not end a line.
pub open spec fn is_blank(b: u8) -> bool {
    b == SP || b == HT || b == FF || b == CR
}

/// An ASCII decimal digit.
pub open spec fn is_digit(b: u8) -> bool {
    ZERO <= b <= ZERO + 9
}

/// Tells whether `b` is ASCII whitespace.
pub fn byte_is_space(b: u8) -> (r: bool)
    ensures
        r == is_space(b),
{
    b == SP || b == HT || b == LF || b == FF || b == CR
}

/// Tells whether `b` is whitespace other than a line feed.
pub fn byte_is_blank(b: u8) -> (r: bool)
    ensures
        r == is_blank(b),
{
    b == SP || b == HT || b == FF || b == CR
}

/// Tells whether `bytes` begins with `prefix`.
pub fn starts_with(bytes: &[u8], prefix: &[u8]) -> (r: bool)
    ensures
        r == prefix@.is_prefix_of(bytes@),
{
    if prefix.len() > bytes.len() {
        return false;
    }
    let mut i: usize = 0;
    while i < prefix.len()
        invariant
            i <= prefix.len() <= bytes.len(),
            forall|k: int| 0 <= k < i ==> prefix@[k] == bytes@[k],
        decreases prefix.len() - i,
    {
        if prefix[i] != bytes[i] {
            assert(prefix@[i as int] != bytes@.subrange(0, prefix@.len() as int)[i as int]);
            return false;
        }
        i += 1;
    }
    assert(prefix@ =~= bytes@.subrange(0, prefix@.len() as int));
    true
}

/// Copies `bytes[from..to]` into a new vector.
pub(crate) fn copy_range(bytes: &[u8], from: usize, to: usize) -> (out: Vec<u8>)
    requires
        from <= to <= bytes@.len(),
    ensures
        out@ == bytes@.subrange(from as int, to as int),
{
    let mut out: Vec<u8> = Vec::new();
    let mut i: usize = from;
    while i < to
        invariant
            from <= i <= to <= bytes@.len(),
            out@ == bytes@.subrange(from as int, i as int),
        decreases to - i,
    {
        out.push(bytes[i]);
        assert(out@ =~= bytes@.subrange(from as int, i + 1));
        i += 1;
    }
    out
}

/// Joins two byte strings.
pub fn join(head: &[u8], tail: &[u8]) -> (out: Vec<u8>)
    ensures
        out@ == head@ + tail@,
{
    let mut out: Vec<u8> = copy_range(head, 0, head.len());
    let mut i: usize = 0;
    while i < tail.len()
        invariant
            i <= tail.len(),
            out@ == head@ + tail@.subrange(0, i as int),
        decreases tail.len() - i,
    {
        out.push(tail[i]);
        assert(out@ =~= head@ + tail@.subrange(0, i + 1));
        i += 1;
    }
    assert(tail@.subrange(0, tail@.len() as int) =~= tail@);
    assert(head@.subrange(0, head@.len() as int) =~= head@);
    out
}

} // verus!
