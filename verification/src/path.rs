//! The path that a file request names.
//!
//! A request line is read as fields separated by blanks. The path is the
//! second field of the first line: `GET /notes.txt HTTP/1.1` names
//! `/notes.txt`. The path `/` alone stands for the index document; any
//! other path names a file below the working directory, without the
//! leading slash.

use crate::ascii::{byte_is_blank, byte_is_space, copy_range, is_blank, is_space, SLASH};
use vstd::prelude::*;

verus! {

/// Where the run of blanks that begins at `i` ends. A line feed is no
/// blank, so the run never leaves the line.
pub open spec fn blanks_end(s: Seq<u8>, i: int) -> int
    decreases s.len() - i,
{
    if 0 <= i < s.len() && is_blank(s[i]) {
        blanks_end(s, i + 1)
    } else {
        i
    }
}

/// Where the run of bytes other than whitespace that begins at `i` ends.
pub open spec fn token_end(s: Seq<u8>, i: int) -> int
    decreases s.len() - i,
{
    if 0 <= i < s.len() && !is_space(s[i]) {
        token_end(s, i + 1)
    } else {
        i
    }
}

/// Every byte of `s[lo..hi]` is a blank.
pub open spec fn all_blank(s: Seq<u8>, lo: int, hi: int) -> bool {
    forall|k: int| lo <= k < hi ==> is_blank(#[trigger] s[k])
}

/// No byte of `s[lo..hi]` is whitespace.
pub open spec fn no_space(s: Seq<u8>, lo: int, hi: int) -> bool {
    forall|k: int| lo <= k < hi ==> !is_space(#[trigger] s[k])
}

/// `s[from..to]` is the second field of the first line of `s`, the first
/// field being `s[first..gap]`: blanks may lead the line, blanks part the
/// two fields, and the second field runs up to whitespace or to the end.
pub open spec fn is_second_field(s: Seq<u8>, first: int, gap: int, from: int, to: int) -> bool {
    &&& 0 <= first < gap < from < to <= s.len()
    &&& all_blank(s, 0, first)
    &&& no_space(s, first, gap)
    &&& all_blank(s, gap, from)
    &&& no_space(s, from, to)
    &&& (to == s.len() || is_space(s[to]))
}

/// The bounds of the second field of the first line, where there is one.
pub open spec fn path_bounds(s: Seq<u8>) -> Option<(int, int)> {
    let first = blanks_end(s, 0);
    let gap = token_end(s, first);
    let from = blanks_end(s, gap);
    let to = token_end(s, from);
    if first < gap && from < to {
        Some((from, to))
    } else {
        None
    }
}

/// The path token of a request: the second field of its first line.
pub open spec fn path_token(s: Seq<u8>) -> Option<Seq<u8>> {
    match path_bounds(s) {
        Some((from, to)) => Some(s.subrange(from, to)),
        None => None,
    }
}

/// What a file request asks for.
#[derive(Debug, PartialEq, Eq)]
pub enum FileTarget {
    /// The index document.
    Index,
    /// The file at this path, relative to the working directory.
    File(Vec<u8>),
}

/// A [`FileTarget`] as a mathematical value.
pub ghost enum FileTargetView {
    Index,
    File(Seq<u8>),
}

impl View for FileTarget {
    type V = FileTargetView;

    open spec fn view(&self) -> FileTargetView {
        match self {
            FileTarget::Index => FileTargetView::Index,
            FileTarget::File(path) => FileTargetView::File(path@),
        }
    }
}

/// The target that a path token names: the index for `/`, the file at the
/// rest of the path for a longer one that begins with a slash, nothing
/// otherwise.
pub open spec fn target_of_path(path: Seq<u8>) -> Option<FileTargetView> {
    if path.len() == 0 || path[0] != SLASH {
        None
    } else if path.len() == 1 {
        Some(FileTargetView::Index)
    } else {
        Some(FileTargetView::File(path.skip(1)))
    }
}

/// The target of a file request.
pub open spec fn file_target(s: Seq<u8>) -> Option<FileTargetView> {
    match path_token(s) {
        Some(path) => target_of_path(path),
        None => None,
    }
}

/// The run of blanks from `i` stays inside `s`, holds blanks only, and
/// stops before a byte that is no blank.
pub proof fn lemma_blanks_end(s: Seq<u8>, i: int)
    requires
        0 <= i <= s.len(),
    ensures
        i <= blanks_end(s, i) <= s.len(),
        all_blank(s, i, blanks_end(s, i)),
        blanks_end(s, i) == s.len() || !is_blank(s[blanks_end(s, i)]),
    decreases s.len() - i,
{
    if i < s.len() && is_blank(s[i]) {
        lemma_blanks_end(s, i + 1);
    }
}

/// The run of blanks from `i` is the only one that ends at a byte that is
/// no blank.
pub proof fn lemma_blanks_end_unique(s: Seq<u8>, i: int, end: int)
    requires
        0 <= i <= end <= s.len(),
        all_blank(s, i, end),
        end == s.len() || !is_blank(s[end]),
    ensures
        blanks_end(s, i) == end,
    decreases end - i,
{
    if i < end {
        assert(is_blank(s[i]));
        lemma_blanks_end_unique(s, i + 1, end);
    }
}

/// The token from `i` stays inside `s`, holds no whitespace, and stops
/// before whitespace.
pub proof fn lemma_token_end(s: Seq<u8>, i: int)
    requires
        0 <= i <= s.len(),
    ensures
        i <= token_end(s, i) <= s.len(),
        no_space(s, i, token_end(s, i)),
        token_end(s, i) == s.len() || is_space(s[token_end(s, i)]),
    decreases s.len() - i,
{
    if i < s.len() && !is_space(s[i]) {
        lemma_token_end(s, i + 1);
    }
}

/// The token from `i` is the only run without whitespace that ends at
/// whitespace.
pub proof fn lemma_token_end_unique(s: Seq<u8>, i: int, end: int)
    requires
        0 <= i <= end <= s.len(),
        no_space(s, i, end),
        end == s.len() || is_space(s[end]),
    ensures
        token_end(s, i) == end,
    decreases end - i,
{
    if i < end {
        assert(!is_space(s[i]));
        lemma_token_end_unique(s, i + 1, end);
    }
}

/// The bounds that [`path_bounds`] gives are those of the second field of
/// the first line.
pub proof fn lemma_path_bounds_sound(s: Seq<u8>, from: int, to: int)
    requires
        path_bounds(s) == Some((from, to)),
    ensures
        exists|first: int, gap: int| is_second_field(s, first, gap, from, to),
{
    let first = blanks_end(s, 0);
    lemma_blanks_end(s, 0);
    let gap = token_end(s, first);
    lemma_token_end(s, first);
    lemma_blanks_end(s, gap);
    lemma_token_end(s, from);
    assert(!is_space(s[from]));
    assert(is_second_field(s, first, gap, from, to));
}

/// A second field of the first line, wherever it lies, is the one that
/// [`path_bounds`] gives: a line has at most one.
pub proof fn lemma_path_bounds_complete(s: Seq<u8>, first: int, gap: int, from: int, to: int)
    requires
        is_second_field(s, first, gap, from, to),
    ensures
        path_bounds(s) == Some((from, to)),
{
    assert(!is_space(s[first]));
    lemma_blanks_end_unique(s, 0, first);
    assert(is_blank(s[gap]));
    lemma_token_end_unique(s, first, gap);
    assert(!is_space(s[from]));
    lemma_blanks_end_unique(s, gap, from);
    lemma_token_end_unique(s, from, to);
}

/// Skips the blanks that begin at `start`.
fn skip_blanks(buf: &[u8], start: usize) -> (end: usize)
    requires
        start <= buf@.len(),
    ensures
        end == blanks_end(buf@, start as int),
        start <= end <= buf@.len(),
{
    let mut i: usize = start;
    while i < buf.len() && byte_is_blank(buf[i])
        invariant
            start <= i <= buf@.len(),
            blanks_end(buf@, i as int) == blanks_end(buf@, start as int),
        decreases buf@.len() - i,
    {
        i += 1;
    }
    i
}

/// Skips the token that begins at `start`.
fn skip_token(buf: &[u8], start: usize) -> (end: usize)
    requires
        start <= buf@.len(),
    ensures
        end == token_end(buf@, start as int),
        start <= end <= buf@.len(),
{
    let mut i: usize = start;
    while i < buf.len() && !byte_is_space(buf[i])
        invariant
            start <= i <= buf@.len(),
            token_end(buf@, i as int) == token_end(buf@, start as int),
        decreases buf@.len() - i,
    {
        i += 1;
    }
    i
}

/// Finds the path token of a request: the second field of its first line.
/// There is none where the first line holds fewer than two fields.
pub fn extract_path(buf: &[u8]) -> (path: Option<Vec<u8>>)
    ensures
        path.is_some() == path_token(buf@).is_some(),
        path matches Some(p) ==> path_token(buf@) == Some(p@),
{
    let first = skip_blanks(buf, 0);
    let gap = skip_token(buf, first);
    let from = skip_blanks(buf, gap);
    let to = skip_token(buf, from);
    if first < gap && from < to {
        Some(copy_range(buf, from, to))
    } else {
        None
    }
}

/// Resolves the target of a file request from its path token: `/` asks
/// for the index document, `/` followed by more asks for the file at what
/// follows. A request without a path token, or with one that does not
/// begin with a slash, has no target.
pub fn resolve_target(buf: &[u8]) -> (target: Option<FileTarget>)
    ensures
        target.is_some() == file_target(buf@).is_some(),
        target matches Some(t) ==> file_target(buf@) == Some(t@),
{
    match extract_path(buf) {
        None => None,
        Some(path) => {
            if path.len() == 0 || path[0] != SLASH {
                None
            } else if path.len() == 1 {
                Some(FileTarget::Index)
            } else {
                let rest = copy_range(path.as_slice(), 1, path.len());
                assert(rest@ == path@.skip(1));
                Some(FileTarget::File(rest))
            }
        },
    }
}

} // verus!
