//! What serving one request comes to, from the read to the close: what the
//! peer is sent and what becomes of the files.

use crate::body::{lemma_save_body, save_body};
use crate::buffer::{buffered, BUFFER_CAPACITY};
use crate::connection::{index_path, not_found_path, saved_path, ActionView};
use crate::decimal::{decimal, lemma_decimal_len, lemma_decimal_round_trip, parse_decimal};
use crate::dice::is_face;
use crate::path::{file_target, FileTargetView};
use crate::response::{save_outcome, status_line, Status};
use crate::route::{dice_prefix, file_prefix, lemma_prefix_bytes, route_of, save_prefix, Route};
use crate::world::{Holder, World};
use vstd::prelude::*;

verus! {

/// What came of serving a request.
pub ghost struct Served {
    /// The files afterwards.
    pub files: Map<Seq<u8>, Seq<u8>>,
    /// What the peer was sent.
    pub answer: Option<Seq<u8>>,
}

/// The most steps that serving a request takes: the read, the lock, a step
/// for each byte of the body and one to empty the file, the answer, the
/// unlock, and some to spare.
pub open spec fn serve_steps() -> nat {
    (BUFFER_CAPACITY + 8) as nat
}

/// What comes of serving `request` over `files`, with a die that shows
/// `roll`, when the connection is alone and nothing fails.
pub open spec fn served(files: Map<Seq<u8>, Seq<u8>>, request: Seq<u8>, roll: nat) -> Served {
    let end = World::start(files, seq![request]).serve(0, roll, serve_steps());
    Served { files: end.files, answer: end.clients[0].answer }
}

/// A request for a die roll is answered `200 OK` with the face that the
/// die shows, as a decimal numeral of one or two digits that reads back as
/// a number from 1 to 20. The files stay as they are.
pub proof fn law_die_roll_served(files: Map<Seq<u8>, Seq<u8>>, request: Seq<u8>, roll: nat)
    requires
        route_of(buffered(request)) == Route::Dice,
        is_face(roll as int),
    ensures
        served(files, request, roll).answer == Some(status_line(Status::Success) + decimal(roll)),
        served(files, request, roll).files == files,
        parse_decimal(decimal(roll)) == Some(roll),
        1 <= decimal(roll).len() <= 2,
{
    lemma_prefix_bytes();
    lemma_decimal_round_trip(roll);
    lemma_decimal_len(roll);
    reveal_with_fuel(World::serve, 4);
}

/// A request for `/` is answered `200 OK` with the exact contents of the
/// index document. The files stay as they are.
pub proof fn law_index_served(files: Map<Seq<u8>, Seq<u8>>, request: Seq<u8>, roll: nat)
    requires
        route_of(buffered(request)) == Route::StaticFile,
        file_target(buffered(request)) == Some(FileTargetView::Index),
        files.contains_key(index_path()),
    ensures
        served(files, request, roll).answer == Some(
            status_line(Status::Success) + files[index_path()],
        ),
        served(files, request, roll).files == files,
{
    lemma_prefix_bytes();
    reveal_with_fuel(World::serve, 5);
}

/// A request for a file that is there is answered `200 OK` with the exact
/// contents of the file. The files stay as they are.
pub proof fn law_file_served(
    files: Map<Seq<u8>, Seq<u8>>,
    request: Seq<u8>,
    roll: nat,
    path: Seq<u8>,
)
    requires
        route_of(buffered(request)) == Route::StaticFile,
        file_target(buffered(request)) == Some(FileTargetView::File(path)),
        files.contains_key(path),
    ensures
        served(files, request, roll).answer == Some(status_line(Status::Success) + files[path]),
        served(files, request, roll).files == files,
{
    lemma_prefix_bytes();
    reveal_with_fuel(World::serve, 5);
}

/// A request for a file that is not there is answered `404 NOT FOUND` with
/// the exact contents of the not-found document. The files stay as they
/// are.
pub proof fn law_missing_file_not_found(
    files: Map<Seq<u8>, Seq<u8>>,
    request: Seq<u8>,
    roll: nat,
    path: Seq<u8>,
)
    requires
        route_of(buffered(request)) == Route::StaticFile,
        file_target(buffered(request)) == Some(FileTargetView::File(path)),
        !files.contains_key(path),
        files.contains_key(not_found_path()),
    ensures
        served(files, request, roll).answer == Some(
            status_line(Status::NotFound) + files[not_found_path()],
        ),
        served(files, request, roll).files == files,
{
    lemma_prefix_bytes();
    reveal_with_fuel(World::serve, 6);
}

/// A request that begins with none of the three prefixes is answered
/// `404 NOT FOUND` with the exact contents of the not-found document. The
/// files stay as they are.
pub proof fn law_unknown_request_not_found(
    files: Map<Seq<u8>, Seq<u8>>,
    request: Seq<u8>,
    roll: nat,
)
    requires
        buffered(request).len() > 0,
        !dice_prefix().is_prefix_of(buffered(request)),
        !file_prefix().is_prefix_of(buffered(request)),
        !save_prefix().is_prefix_of(buffered(request)),
        files.contains_key(not_found_path()),
    ensures
        served(files, request, roll).answer == Some(
            status_line(Status::NotFound) + files[not_found_path()],
        ),
        served(files, request, roll).files == files,
{
    reveal_with_fuel(World::serve, 5);
}

/// A client that holds the lock and writes alone ends with its body as
/// the saved document, is told that the save went well, and gives the lock
/// back.
proof fn lemma_write_served(w: World, i: int, roll: nat, steps: nat, body: Seq<u8>)
    requires
        w.has(i),
        w.clients[i].state is Writing,
        w.clients[i].action == ActionView::Write(body),
        w.clients[i].written <= body.len(),
        w.holder == Some(Holder { client: i, path: saved_path() }),
        steps >= body.len() - w.clients[i].written + 4,
    ensures
        w.serve(i, roll, steps).files == w.files.insert(saved_path(), body),
        w.serve(i, roll, steps).clients[i].answer == Some(
            status_line(Status::Saved) + save_outcome(true),
        ),
        w.serve(i, roll, steps).clients[i].state is Closed,
        w.serve(i, roll, steps).holder is None,
    decreases body.len() - w.clients[i].written,
{
    let written = w.clients[i].written;
    let next = w.step(i, true, roll);
    assert(w.serve(i, roll, steps) == next.serve(i, roll, (steps - 1) as nat));
    if written < body.len() {
        lemma_write_served(next, i, roll, (steps - 1) as nat, body);
        assert(next.files.insert(saved_path(), body) =~= w.files.insert(saved_path(), body));
    } else {
        assert(body.take(written as int) =~= body);
        reveal_with_fuel(World::serve, 4);
    }
}

/// A save stores the body of the request as the saved document, whatever
/// the document held before and whether there was one, and is answered
/// `200 OK` with the word that the save went well. No other file changes.
pub proof fn law_save_stores_body(
    files: Map<Seq<u8>, Seq<u8>>,
    request: Seq<u8>,
    roll: nat,
    body: Seq<u8>,
)
    requires
        route_of(buffered(request)) == Route::Save,
        save_body(buffered(request)) == Some(body),
    ensures
        served(files, request, roll).files == files.insert(saved_path(), body),
        served(files, request, roll).answer == Some(
            status_line(Status::Saved) + save_outcome(true),
        ),
{
    lemma_prefix_bytes();
    lemma_save_body(buffered(request));
    let start = World::start(files, seq![request]);
    let read = start.step(0, true, roll);
    let locked = read.step(0, true, roll);
    assert(start.serve(0, roll, serve_steps()) == locked.serve(0, roll, (serve_steps() - 2) as nat))
        by {
        reveal_with_fuel(World::serve, 3);
    }
    lemma_write_served(locked, 0, roll, (serve_steps() - 2) as nat, body);
    assert(locked.files.insert(saved_path(), body) =~= files.insert(saved_path(), body));
}

/// What was saved is what is served, and a later save replaces it whole.
/// After a save of `first`, a request for the saved document is answered
/// `200 OK` with exactly `first`; after a further save of `second`, it is
/// answered with exactly `second`, however long or short `first` was.
pub proof fn law_saved_document_served(
    files: Map<Seq<u8>, Seq<u8>>,
    save_first: Seq<u8>,
    first: Seq<u8>,
    save_second: Seq<u8>,
    second: Seq<u8>,
    get: Seq<u8>,
    roll: nat,
)
    requires
        route_of(buffered(save_first)) == Route::Save,
        save_body(buffered(save_first)) == Some(first),
        route_of(buffered(save_second)) == Route::Save,
        save_body(buffered(save_second)) == Some(second),
        route_of(buffered(get)) == Route::StaticFile,
        file_target(buffered(get)) == Some(FileTargetView::File(saved_path())),
    ensures
        ({
            let once = served(files, save_first, roll).files;
            let twice = served(once, save_second, roll).files;
            &&& served(once, get, roll).answer == Some(status_line(Status::Success) + first)
            &&& served(twice, get, roll).answer == Some(status_line(Status::Success) + second)
            &&& twice == files.insert(saved_path(), second)
        }),
{
    let once = served(files, save_first, roll).files;
    let twice = served(once, save_second, roll).files;
    law_save_stores_body(files, save_first, roll, first);
    law_save_stores_body(once, save_second, roll, second);
    law_file_served(once, get, roll, saved_path());
    law_file_served(twice, get, roll, saved_path());
    assert(twice =~= files.insert(saved_path(), second));
}

} // verus!
