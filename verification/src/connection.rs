//! The life of one connection.
//!
//! A connection is a small machine. The caller performs the [`Action`] that
//! the machine asks for and reports the outcome as an [`Event`]; the machine
//! answers with the next action, until it asks to close. The machine never
//! touches a socket or a file: it decides what is read, loaded, locked,
//! written, sent and released, and in which order.
//!
//! A request for a die roll is answered at once. A request for a file loads
//! the file and answers with it, or with the not-found document where the
//! file cannot be opened. A save takes the lock on the saved document,
//! writes the body, answers, and releases the lock; the lock is released
//! whatever became of the write and of the answer.

use crate::body::{extract_body, save_body};
use crate::buffer::{buffered, RequestBuffer};
use crate::dice::{is_face, roll_response};
use crate::path::{file_target, resolve_target, FileTarget, FileTargetView};
use crate::response::{
    dice_response, document_response, not_found_response, save_response, Response,
};
use crate::route::{classify, route_of, Route};
use vstd::prelude::*;
use vstd::slice::slice_to_vec;
use vstd::string::*;

verus! {

/// The path of the index document.
pub open spec fn index_path() -> Seq<u8> {
    "index.html".spec_bytes()
}

/// The path of the not-found document.
pub open spec fn not_found_path() -> Seq<u8> {
    "404.html".spec_bytes()
}

/// The path of the saved document.
pub open spec fn saved_path() -> Seq<u8> {
    "data.txt".spec_bytes()
}

/// What the caller does for the machine.
#[derive(Debug, PartialEq, Eq)]
pub enum Action {
    /// Read once from the connection, into a buffer of
    /// [`crate::buffer::BUFFER_CAPACITY`] bytes.
    Receive,
    /// Open the file at this path, relative to the working directory, and
    /// read all of it.
    Load(Vec<u8>),
    /// Take the exclusive lock on the file at this path, creating the file
    /// where there is none, and wait for the lock where another holds it.
    Lock(Vec<u8>),
    /// Replace the contents of the locked file with these bytes.
    Write(Vec<u8>),
    /// Release the lock.
    Unlock,
    /// Write all of these bytes to the connection.
    Send(Vec<u8>),
    /// Close the connection. Nothing follows.
    Close,
}

/// An [`Action`] as a mathematical value.
pub ghost enum ActionView {
    Receive,
    Load(Seq<u8>),
    Lock(Seq<u8>),
    Write(Seq<u8>),
    Unlock,
    Send(Seq<u8>),
    Close,
}

impl View for Action {
    type V = ActionView;

    open spec fn view(&self) -> ActionView {
        match self {
            Action::Receive => ActionView::Receive,
            Action::Load(path) => ActionView::Load(path@),
            Action::Lock(path) => ActionView::Lock(path@),
            Action::Write(bytes) => ActionView::Write(bytes@),
            Action::Unlock => ActionView::Unlock,
            Action::Send(bytes) => ActionView::Send(bytes@),
            Action::Close => ActionView::Close,
        }
    }
}

/// What became of the action that the machine asked for.
#[derive(Debug, PartialEq, Eq)]
pub enum Event {
    /// The read returned these bytes: none where the peer had closed.
    Received(Vec<u8>),
    /// The file was opened and read: these are its contents.
    Loaded(Vec<u8>),
    /// The file could not be opened: it is missing, it may not be read, or
    /// it is a directory.
    Unavailable,
    /// The lock was taken, the bytes were written, the lock was released,
    /// or the bytes were sent.
    Completed,
    /// The action failed in any other way.
    Failed,
}

/// An [`Event`] as a mathematical value.
pub ghost enum EventView {
    Received(Seq<u8>),
    Loaded(Seq<u8>),
    Unavailable,
    Completed,
    Failed,
}

impl View for Event {
    type V = EventView;

    open spec fn view(&self) -> EventView {
        match self {
            Event::Received(data) => EventView::Received(data@),
            Event::Loaded(contents) => EventView::Loaded(contents@),
            Event::Unavailable => EventView::Unavailable,
            Event::Completed => EventView::Completed,
            Event::Failed => EventView::Failed,
        }
    }
}

/// Where a connection stands: which action it waits for.
#[derive(Debug, PartialEq, Eq)]
pub enum State {
    /// Waits for the request to be read.
    Receiving,
    /// Waits for the requested file.
    LoadingFile,
    /// Waits for the index document.
    LoadingIndex,
    /// Waits for the not-found document.
    LoadingNotFound,
    /// Waits for the lock on the saved document, to write these bytes.
    Locking(Vec<u8>),
    /// Holds the lock and waits for the write.
    Writing,
    /// Waits for the answer to be sent.
    Answering,
    /// Holds the lock and waits for the answer to be sent.
    AnsweringLocked,
    /// Waits for the lock to be released.
    Unlocking,
    /// Done: the connection is closed, or about to be.
    Closed,
}

/// A [`State`] as a mathematical value.
pub ghost enum StateView {
    Receiving,
    LoadingFile,
    LoadingIndex,
    LoadingNotFound,
    Locking(Seq<u8>),
    Writing,
    Answering,
    AnsweringLocked,
    Unlocking,
    Closed,
}

impl View for State {
    type V = StateView;

    open spec fn view(&self) -> StateView {
        match self {
            State::Receiving => StateView::Receiving,
            State::LoadingFile => StateView::LoadingFile,
            State::LoadingIndex => StateView::LoadingIndex,
            State::LoadingNotFound => StateView::LoadingNotFound,
            State::Locking(body) => StateView::Locking(body@),
            State::Writing => StateView::Writing,
            State::Answering => StateView::Answering,
            State::AnsweringLocked => StateView::AnsweringLocked,
            State::Unlocking => StateView::Unlocking,
            State::Closed => StateView::Closed,
        }
    }
}

/// The end of a connection: nothing is left to do but to close it.
pub open spec fn closed() -> (StateView, ActionView) {
    (StateView::Closed, ActionView::Close)
}

/// The answer to be sent, and the state that waits for it.
pub open spec fn answer(wire: Seq<u8>) -> (StateView, ActionView) {
    (StateView::Answering, ActionView::Send(wire))
}

/// What a connection does once its request is read. `data` is what the
/// read returned and `roll` the face that the die shows, should the request
/// ask for one.
///
/// Only what the buffer keeps of `data` counts. An empty read closes the
/// connection. Otherwise the route decides: a die roll is answered at once;
/// a file request loads the index document or the file it names; a save
/// takes the lock, to write the body; anything else loads the not-found
/// document. A save without a blank line has no body and closes the
/// connection unanswered.
pub open spec fn on_request(data: Seq<u8>, roll: nat) -> (StateView, ActionView) {
    let request = buffered(data);
    if request.len() == 0 {
        closed()
    } else {
        match route_of(request) {
            Route::Dice => answer(dice_response(roll).wire()),
            Route::StaticFile => match file_target(request) {
                Some(FileTargetView::Index) => (
                    StateView::LoadingIndex,
                    ActionView::Load(index_path()),
                ),
                Some(FileTargetView::File(path)) => (
                    StateView::LoadingFile,
                    ActionView::Load(path),
                ),
                None => closed(),
            },
            Route::Save => match save_body(request) {
                Some(body) => (StateView::Locking(body), ActionView::Lock(saved_path())),
                None => closed(),
            },
            Route::NotFound => (StateView::LoadingNotFound, ActionView::Load(not_found_path())),
        }
    }
}

/// The next state of a connection and the action it asks for, from its
/// state and the outcome of the action it waited for.
///
/// An outcome that the state does not expect counts as a failure. A failure
/// closes the connection, with three exceptions: a requested file that
/// cannot be opened is answered with the not-found document; a write that
/// fails is answered as failed; and whatever happens while the lock is
/// held, the lock is released before the connection closes.
pub open spec fn transition(state: StateView, event: EventView, roll: nat) -> (
    StateView,
    ActionView,
) {
    match state {
        StateView::Receiving => match event {
            EventView::Received(data) => on_request(data, roll),
            _ => closed(),
        },
        StateView::LoadingFile => match event {
            EventView::Loaded(contents) => answer(document_response(contents).wire()),
            EventView::Unavailable => (
                StateView::LoadingNotFound,
                ActionView::Load(not_found_path()),
            ),
            _ => closed(),
        },
        StateView::LoadingIndex => match event {
            EventView::Loaded(contents) => answer(document_response(contents).wire()),
            _ => closed(),
        },
        StateView::LoadingNotFound => match event {
            EventView::Loaded(contents) => answer(not_found_response(contents).wire()),
            _ => closed(),
        },
        StateView::Locking(body) => match event {
            EventView::Completed => (StateView::Writing, ActionView::Write(body)),
            _ => closed(),
        },
        StateView::Writing => (
            StateView::AnsweringLocked,
            ActionView::Send(save_response(event is Completed).wire()),
        ),
        StateView::AnsweringLocked => (StateView::Unlocking, ActionView::Unlock),
        StateView::Answering => closed(),
        StateView::Unlocking => closed(),
        StateView::Closed => closed(),
    }
}

/// The faces that a step may use: the given one, or any face of the die
/// where none is given.
pub open spec fn roll_admits(given: Option<u32>, roll: nat) -> bool {
    match given {
        Some(face) => roll == face,
        None => is_face(roll as int),
    }
}

/// Starts a connection: the first thing to do is to read the request.
pub fn accept() -> (start: (State, Action))
    ensures
        start.0@ == StateView::Receiving,
        start.1@ == ActionView::Receive,
{
    (State::Receiving, Action::Receive)
}

/// Decides what to do with a request that was read, with the given face
/// of the die or, where none is given, with a roll of its own.
fn dispatch(data: &[u8], given: Option<u32>) -> (next: (State, Action))
    ensures
        exists|roll: nat| #[trigger]
            roll_admits(given, roll) && (next.0@, next.1@) == on_request(data@, roll),
{
    let buffer = RequestBuffer::fill(data);
    let request = buffer.as_slice();
    let ghost any: nat = match given {
        Some(face) => face as nat,
        None => 1,
    };
    assert(roll_admits(given, any));
    if request.len() == 0 {
        return (State::Closed, Action::Close);
    }
    match classify(request) {
        Route::Dice => {
            let response = match given {
                Some(face) => {
                    assert(roll_admits(given, face as nat));
                    Response::dice(face)
                },
                None => {
                    let response = roll_response();
                    proof {
                        let shown = choose|roll: nat| #[trigger]
                            is_face(roll as int) && response@ == dice_response(roll);
                        assert(roll_admits(given, shown));
                    }
                    response
                },
            };
            (State::Answering, Action::Send(response.encode()))
        },
        Route::StaticFile => match resolve_target(request) {
            Some(FileTarget::Index) => (
                State::LoadingIndex,
                Action::Load(slice_to_vec("index.html".as_bytes())),
            ),
            Some(FileTarget::File(path)) => (State::LoadingFile, Action::Load(path)),
            None => (State::Closed, Action::Close),
        },
        Route::Save => match extract_body(request) {
            Some(body) => (State::Locking(body), Action::Lock(slice_to_vec("data.txt".as_bytes()))),
            None => (State::Closed, Action::Close),
        },
        Route::NotFound => (
            State::LoadingNotFound,
            Action::Load(slice_to_vec("404.html".as_bytes())),
        ),
    }
}

/// Takes one step, with the given face of the die or a roll of its own.
fn advance(state: State, event: Event, given: Option<u32>) -> (next: (State, Action))
    ensures
        exists|roll: nat| #[trigger]
            roll_admits(given, roll) && (next.0@, next.1@) == transition(state@, event@, roll),
{
    let ghost any: nat = match given {
        Some(face) => face as nat,
        None => 1,
    };
    assert(roll_admits(given, any));
    match state {
        State::Receiving => match event {
            Event::Received(data) => dispatch(data.as_slice(), given),
            _ => (State::Closed, Action::Close),
        },
        State::LoadingFile => match event {
            Event::Loaded(contents) => (
                State::Answering,
                Action::Send(Response::document(contents).encode()),
            ),
            Event::Unavailable => (
                State::LoadingNotFound,
                Action::Load(slice_to_vec("404.html".as_bytes())),
            ),
            _ => (State::Closed, Action::Close),
        },
        State::LoadingIndex => match event {
            Event::Loaded(contents) => (
                State::Answering,
                Action::Send(Response::document(contents).encode()),
            ),
            _ => (State::Closed, Action::Close),
        },
        State::LoadingNotFound => match event {
            Event::Loaded(contents) => (
                State::Answering,
                Action::Send(Response::not_found(contents).encode()),
            ),
            _ => (State::Closed, Action::Close),
        },
        State::Locking(body) => match event {
            Event::Completed => (State::Writing, Action::Write(body)),
            _ => (State::Closed, Action::Close),
        },
        State::Writing => {
            let written: bool = match event {
                Event::Completed => true,
                _ => false,
            };
            (State::AnsweringLocked, Action::Send(Response::saved(written).encode()))
        },
        State::AnsweringLocked => (State::Unlocking, Action::Unlock),
        State::Answering => (State::Closed, Action::Close),
        State::Unlocking => (State::Closed, Action::Close),
        State::Closed => (State::Closed, Action::Close),
    }
}

/// Takes one step: from the state of a connection and the outcome of the
/// action it waited for, gives the next state and the action to perform.
/// Where the request asks for a die roll, the die is rolled here, and the
/// answer shows one of its faces.
pub fn step(state: State, event: Event) -> (next: (State, Action))
    ensures
        exists|roll: nat| #[trigger]
            is_face(roll as int) && (next.0@, next.1@) == transition(state@, event@, roll),
{
    let next = advance(state, event, None);
    proof {
        let roll = choose|roll: nat| #[trigger]
            roll_admits(None, roll) && (next.0@, next.1@) == transition(state@, event@, roll);
        assert(is_face(roll as int));
    }
    next
}

/// Takes one step as [`step`] does, with a die that shows `roll`.
pub fn step_with_roll(state: State, event: Event, roll: u32) -> (next: (State, Action))
    ensures
        (next.0@, next.1@) == transition(state@, event@, roll as nat),
{
    advance(state, event, Some(roll))
}

} // verus!
