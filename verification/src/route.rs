//! Which handler answers a request.
//!
//! The choice is made on the leading bytes of what was read, against three
//! literal prefixes in a fixed order; the first that matches wins. Nothing
//! of the request is parsed for it.

use crate::ascii::{is_space, starts_with, SLASH, SP};
use crate::path::{
    file_target, lemma_blanks_end_unique, lemma_token_end, lemma_token_end_unique, no_space,
    path_bounds, path_token, token_end, FileTargetView,
};
use vstd::prelude::*;
use vstd::string::*;

verus! {

/// The handler that answers a request.
#[derive(Clone, Copy, Debug, PartialEq, Eq, Structural)]
pub enum Route {
    /// Rolls a twenty-sided die.
    Dice,
    /// Serves the index document or a file.
    StaticFile,
    /// Stores the body of the request.
    Save,
    /// Answers that nothing was found.
    NotFound,
}

/// The prefix of a request for a die roll.
pub open spec fn dice_prefix() -> Seq<u8> {
    "GET /d20".spec_bytes()
}

/// The prefix of a request for a file.
pub open spec fn file_prefix() -> Seq<u8> {
    "GET /".spec_bytes()
}

/// The prefix of a request to store a document.
pub open spec fn save_prefix() -> Seq<u8> {
    "POST /save".spec_bytes()
}

/// The route of a request that begins with the bytes `s`: the first of
/// the three prefixes that `s` begins with decides, in the order die roll,
/// file, save; a request that begins with none of them is not found.
pub open spec fn route_of(s: Seq<u8>) -> Route {
    if dice_prefix().is_prefix_of(s) {
        Route::Dice
    } else if file_prefix().is_prefix_of(s) {
        Route::StaticFile
    } else if save_prefix().is_prefix_of(s) {
        Route::Save
    } else {
        Route::NotFound
    }
}

/// The three prefixes, byte by byte.
pub proof fn lemma_prefix_bytes()
    ensures
        dice_prefix() == seq![71u8, 69, 84, 32, 47, 100, 50, 48],
        file_prefix() == seq![71u8, 69, 84, 32, 47],
        save_prefix() == seq![80u8, 79, 83, 84, 32, 47, 115, 97, 118, 101],
{
    reveal_strlit("GET /d20");
    reveal_strlit("GET /");
    reveal_strlit("POST /save");
    is_ascii_spec_bytes("GET /d20");
    is_ascii_spec_bytes("GET /");
    is_ascii_spec_bytes("POST /save");
    assert("GET /d20".spec_bytes() =~= seq![71u8, 69, 84, 32, 47, 100, 50, 48]);
    assert("GET /".spec_bytes() =~= seq![71u8, 69, 84, 32, 47]);
    assert("POST /save".spec_bytes() =~= seq![80u8, 79, 83, 84, 32, 47, 115, 97, 118, 101]);
}

/// Chooses the handler for a request from its leading bytes.
pub fn classify(buf: &[u8]) -> (route: Route)
    ensures
        route == route_of(buf@),
{
    if starts_with(buf, "GET /d20".as_bytes()) {
        Route::Dice
    } else if starts_with(buf, "GET /".as_bytes()) {
        Route::StaticFile
    } else if starts_with(buf, "POST /save".as_bytes()) {
        Route::Save
    } else {
        Route::NotFound
    }
}

/// Every request for a die roll begins like a request for a file: only
/// the order of the tests keeps the two apart.
pub proof fn lemma_dice_shadows_file(s: Seq<u8>)
    requires
        dice_prefix().is_prefix_of(s),
    ensures
        file_prefix().is_prefix_of(s),
        route_of(s) == Route::Dice,
{
    lemma_prefix_bytes();
    assert(file_prefix() =~= s.subrange(0, 5)) by {
        assert forall|k: int| 0 <= k < 5 implies file_prefix()[k] == s.subrange(0, 5)[k] by {
            assert(dice_prefix()[k] == s.subrange(0, 8)[k]);
        }
    }
}

/// A request that begins with none of the three prefixes is not found.
pub proof fn lemma_unknown_is_not_found(s: Seq<u8>)
    requires
        !dice_prefix().is_prefix_of(s),
        !file_prefix().is_prefix_of(s),
        !save_prefix().is_prefix_of(s),
    ensures
        route_of(s) == Route::NotFound,
{
}

/// A request that begins with the file prefix has a path token, which
/// starts at the slash of the prefix, and so has a target.
pub proof fn lemma_file_request_has_target(s: Seq<u8>)
    requires
        file_prefix().is_prefix_of(s),
    ensures
        path_bounds(s) == Some((4int, token_end(s, 4))),
        path_token(s) is Some,
        path_token(s)->0[0] == SLASH,
        file_target(s) is Some,
{
    lemma_prefix_bytes();
    assert forall|k: int| 0 <= k < 5 implies s[k] == file_prefix()[k] by {
        assert(file_prefix()[k] == s.subrange(0, 5)[k]);
    }
    assert(s[0] == 71 && s[1] == 69 && s[2] == 84 && s[3] == SP && s[4] == SLASH);
    lemma_blanks_end_unique(s, 0, 0);
    lemma_token_end_unique(s, 0, 3);
    lemma_blanks_end_unique(s, 3, 4);
    lemma_token_end(s, 4);
    let to = token_end(s, 4);
    assert(to == token_end(s, 5));
    lemma_token_end(s, 5);
    assert(path_bounds(s) == Some((4int, to)));
    assert(s.subrange(4, to)[0] == s[4]);
}

/// `GET /` alone, or followed by whitespace, asks for the index document.
pub proof fn lemma_get_root_is_index(s: Seq<u8>)
    requires
        file_prefix().is_prefix_of(s),
        s.len() == 5 || is_space(s[5]),
    ensures
        route_of(s) == Route::StaticFile,
        file_target(s) == Some(FileTargetView::Index),
{
    lemma_prefix_bytes();
    lemma_file_request_has_target(s);
    lemma_token_end_unique(s, 4, 5);
    assert(s.subrange(4, 5).len() == 1);
    if dice_prefix().is_prefix_of(s) {
        assert(dice_prefix()[5] == s.subrange(0, 8)[5]);
    }
}

/// `GET /` followed by a path, which ends the request or is followed by
/// whitespace, asks for the file at that path, unless the path begins with
/// `d20`.
pub proof fn lemma_get_path_is_file(s: Seq<u8>, path: Seq<u8>)
    requires
        (file_prefix() + path).is_prefix_of(s),
        path.len() > 0,
        no_space(path, 0, path.len() as int),
        s.len() == 5 + path.len() || is_space(s[5 + path.len() as int]),
        !dice_prefix().is_prefix_of(s),
    ensures
        route_of(s) == Route::StaticFile,
        file_target(s) == Some(FileTargetView::File(path)),
{
    lemma_prefix_bytes();
    let whole = file_prefix() + path;
    let end: int = 5 + path.len() as int;
    assert forall|k: int| 0 <= k < end implies s[k] == whole[k] by {
        assert(whole[k] == s.subrange(0, whole.len() as int)[k]);
    }
    assert(file_prefix() =~= s.subrange(0, 5)) by {
        assert forall|k: int| 0 <= k < 5 implies file_prefix()[k] == s.subrange(0, 5)[k] by {
            assert(s[k] == whole[k]);
        }
    }
    lemma_file_request_has_target(s);
    assert(no_space(s, 4, end)) by {
        assert forall|k: int| 4 <= k < end implies !is_space(#[trigger] s[k]) by {
            if k >= 5 {
                assert(s[k] == whole[k]);
                assert(!is_space(path[k - 5]));
            }
        }
    }
    lemma_token_end_unique(s, 4, end);
    assert(s.subrange(4, end).skip(1) =~= path) by {
        assert forall|k: int| 0 <= k < path.len() implies s.subrange(4, end).skip(1)[k]
            == path[k] by {
            assert(s[k + 5] == whole[k + 5]);
        }
    }
}

} // verus!
