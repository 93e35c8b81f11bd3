//! The body of a save request.
//!
//! The body is whatever follows the first blank line of the request, that
//! is the first occurrence of CR LF CR LF. Nothing else of the request is
//! read: no header says how long the body is.

use crate::ascii::{copy_range, CR, LF};
use vstd::prelude::*;

verus! {

/// The number of bytes of the separator CR LF CR LF.
pub const SEPARATOR_LEN: usize = 4;

/// The blank line CR LF CR LF lies at `s[i..i + 4]`.
pub open spec fn separator_at(s: Seq<u8>, i: int) -> bool {
    &&& 0 <= i
    &&& i + SEPARATOR_LEN <= s.len()
    &&& s[i] == CR
    &&& s[i + 1] == LF
    &&& s[i + 2] == CR
    &&& s[i + 3] == LF
}

/// `i` is where the first blank line of `s` begins.
pub open spec fn is_first_separator(s: Seq<u8>, i: int) -> bool {
    &&& separator_at(s, i)
    &&& forall|j: int| 0 <= j < i ==> !separator_at(s, j)
}

/// `s` holds a blank line.
pub open spec fn has_separator(s: Seq<u8>) -> bool {
    exists|i: int| separator_at(s, i)
}

/// Where the first blank line of `s` begins.
pub open spec fn first_separator(s: Seq<u8>) -> int {
    choose|i: int| is_first_separator(s, i)
}

/// The body of a save request: what follows its first blank line. A
/// request without a blank line has no body.
pub open spec fn save_body(s: Seq<u8>) -> Option<Seq<u8>> {
    if has_separator(s) {
        Some(s.skip(first_separator(s) + SEPARATOR_LEN))
    } else {
        None
    }
}

/// At most one position is that of the first blank line, and
/// [`first_separator`] names it.
pub proof fn lemma_first_separator(s: Seq<u8>, i: int)
    requires
        is_first_separator(s, i),
    ensures
        has_separator(s),
        first_separator(s) == i,
        save_body(s) == Some(s.skip(i + SEPARATOR_LEN)),
{
    let j = first_separator(s);
    assert(is_first_separator(s, j));
    if j < i {
        assert(!separator_at(s, j));
    } else if i < j {
        assert(!separator_at(s, i));
    }
}

/// A request that holds a blank line holds a first one, no later than any
/// other.
pub proof fn lemma_first_separator_exists(s: Seq<u8>, i: int)
    requires
        separator_at(s, i),
    ensures
        is_first_separator(s, first_separator(s)),
        first_separator(s) <= i,
    decreases i,
{
    if forall|j: int| 0 <= j < i ==> !separator_at(s, j) {
        assert(is_first_separator(s, i));
        lemma_first_separator(s, i);
    } else {
        let j = choose|j: int| 0 <= j < i && separator_at(s, j);
        lemma_first_separator_exists(s, j);
    }
}

/// The body of a save request is the end of the request: it begins four
/// bytes after the first blank line and is shorter than the request.
pub proof fn lemma_save_body(s: Seq<u8>)
    requires
        save_body(s) is Some,
    ensures
        is_first_separator(s, first_separator(s)),
        save_body(s)->0 == s.skip(first_separator(s) + SEPARATOR_LEN),
        save_body(s)->0.len() + first_separator(s) + SEPARATOR_LEN == s.len(),
{
    let i = choose|i: int| separator_at(s, i);
    lemma_first_separator_exists(s, i);
}

/// Tells whether the blank line CR LF CR LF lies at `buf[i..i + 4]`.
fn is_separator(buf: &[u8], i: usize) -> (r: bool)
    requires
        i + SEPARATOR_LEN <= buf@.len(),
    ensures
        r == separator_at(buf@, i as int),
{
    buf[i] == CR && buf[i + 1] == LF && buf[i + 2] == CR && buf[i + 3] == LF
}

/// Finds where the first blank line of `buf` begins.
pub fn find_separator(buf: &[u8]) -> (at: Option<usize>)
    ensures
        at.is_some() == has_separator(buf@),
        at matches Some(i) ==> is_first_separator(buf@, i as int),
{
    if buf.len() < SEPARATOR_LEN {
        assert(forall|i: int| !separator_at(buf@, i));
        return None;
    }
    let last: usize = buf.len() - SEPARATOR_LEN;
    let mut i: usize = 0;
    while i <= last
        invariant
            last == buf@.len() - SEPARATOR_LEN,
            last < usize::MAX,
            i <= last + 1,
            forall|j: int| 0 <= j < i ==> !separator_at(buf@, j),
        decreases last + 1 - i,
    {
        if is_separator(buf, i) {
            return Some(i);
        }
        i += 1;
    }
    assert(forall|j: int| !separator_at(buf@, j));
    None
}

/// Takes the body out of a save request: the bytes after its first blank
/// line, none where the blank line ends the request. A request without a
/// blank line has no body.
pub fn extract_body(buf: &[u8]) -> (body: Option<Vec<u8>>)
    ensures
        body.is_some() == save_body(buf@).is_some(),
        body matches Some(b) ==> save_body(buf@) == Some(b@),
{
    let len: usize = buf.len();
    match find_separator(buf) {
        None => None,
        Some(i) => {
            proof {
                lemma_first_separator(buf@, i as int);
            }
            Some(copy_range(buf, i + SEPARATOR_LEN, len))
        },
    }
}

} // verus!
