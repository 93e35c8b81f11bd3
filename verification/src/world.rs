//! A model of the server at work.
//!
//! The world holds what the connections share: the files of the working
//! directory and the lock on the saved document. Each client is a connection
//! with the request that its read will return. A step of the world lets one
//! client get on with the action that its machine asked for, and tells the
//! machine what became of it. Clients take steps in any order.
//!
//! A write does not reach the file at once: it empties the file, then adds
//! one byte with each step. Two clients that wrote at the same time would
//! mix their bytes. The lock is what keeps them apart: it is granted to one
//! client at a time, and a client that asks for it while another holds it
//! waits.

use crate::body::save_body;
use crate::buffer::buffered;
use crate::connection::{
    index_path, not_found_path, saved_path, transition, ActionView, EventView, StateView,
};
use vstd::prelude::*;

verus! {

/// A connection in the model.
pub ghost struct Client {
    /// What the read of this connection returns.
    pub request: Seq<u8>,
    /// Where the connection stands.
    pub state: StateView,
    /// The action that the connection asked for last, which the world has
    /// yet to finish.
    pub action: ActionView,
    /// How many steps the write that the connection asked for has taken.
    pub written: nat,
    /// Whether a write of this connection has run to its end.
    pub stored: bool,
    /// What was sent to the peer.
    pub answer: Option<Seq<u8>>,
}

/// Who holds the lock, and on which file.
pub ghost struct Holder {
    pub client: int,
    pub path: Seq<u8>,
}

/// One step of the world: which client takes it, whether its action goes
/// well, and the face that the die shows.
pub ghost struct Turn {
    pub client: int,
    pub ok: bool,
    pub roll: nat,
}

/// The files, the lock and the clients.
pub ghost struct World {
    /// The contents of each file of the working directory, by path.
    pub files: Map<Seq<u8>, Seq<u8>>,
    /// The holder of the lock, where it is held.
    pub holder: Option<Holder>,
    /// The clients.
    pub clients: Seq<Client>,
    /// Whether a write has failed, and may have left part of a body behind.
    pub torn: bool,
}

impl Client {
    /// A connection that was just accepted.
    pub open spec fn fresh(request: Seq<u8>) -> Client {
        Client {
            request,
            state: StateView::Receiving,
            action: ActionView::Receive,
            written: 0,
            stored: false,
            answer: None,
        }
    }

    /// The body that the request asks to save.
    pub open spec fn body(self) -> Option<Seq<u8>> {
        save_body(buffered(self.request))
    }

    /// The connection has the lock: it was granted the lock and the world
    /// has not yet released it.
    pub open spec fn locked(self) -> bool {
        self.state is Writing || self.state is AnsweringLocked || self.state is Unlocking
    }

    /// The connection once its machine has heard of `event`.
    pub open spec fn after(self, event: EventView, roll: nat) -> Client {
        let next = transition(self.state, event, roll);
        Client { state: next.0, action: next.1, written: 0, ..self }
    }

    /// State, action and request fit together as the machine leaves them.
    pub open spec fn coherent(self) -> bool {
        &&& self.stored ==> self.body() is Some
        &&& match self.state {
            StateView::Receiving => self.action == ActionView::Receive && !self.stored,
            StateView::LoadingFile => self.action is Load && !self.stored,
            StateView::LoadingIndex => self.action == ActionView::Load(index_path())
                && !self.stored,
            StateView::LoadingNotFound => self.action == ActionView::Load(not_found_path())
                && !self.stored,
            StateView::Locking(body) => self.action == ActionView::Lock(saved_path())
                && self.body() == Some(body) && !self.stored,
            StateView::Writing => self.body() is Some && self.action == ActionView::Write(
                self.body()->0,
            ) && self.written <= self.body()->0.len() && !self.stored,
            StateView::Answering => self.action is Send,
            StateView::AnsweringLocked => self.action is Send,
            StateView::Unlocking => self.action == ActionView::Unlock,
            StateView::Closed => self.action == ActionView::Close,
        }
    }
}

impl World {
    /// The world before any step: the files as they are, the lock free,
    /// and one fresh client for each request.
    pub open spec fn start(files: Map<Seq<u8>, Seq<u8>>, requests: Seq<Seq<u8>>) -> World {
        World {
            files,
            holder: None,
            clients: Seq::new(requests.len(), |i: int| Client::fresh(requests[i])),
            torn: false,
        }
    }

    /// `i` is one of the clients.
    pub open spec fn has(self, i: int) -> bool {
        0 <= i < self.clients.len()
    }

    /// Client `i` holds the lock on the saved document.
    pub open spec fn held_by(self, i: int) -> bool {
        self.holder == Some(Holder { client: i, path: saved_path() })
    }

    /// The world once the machine of client `i` has heard of `event`.
    pub open spec fn deliver(self, i: int, event: EventView, roll: nat) -> World {
        World { clients: self.clients.update(i, self.clients[i].after(event, roll)), ..self }
    }

    /// The world once client `i` has been granted the lock on the file at
    /// `path`, which comes to be where it was not.
    pub open spec fn grant(self, i: int, path: Seq<u8>) -> World {
        World {
            files: if self.files.contains_key(path) {
                self.files
            } else {
                self.files.insert(path, Seq::empty())
            },
            holder: Some(Holder { client: i, path }),
            ..self
        }
    }

    /// One step of a write of `bytes` by client `i` to the file at `path`:
    /// the first step empties the file, each later one adds a byte, and the
    /// step that adds the last byte tells the machine.
    pub open spec fn write(self, i: int, path: Seq<u8>, bytes: Seq<u8>, roll: nat) -> World {
        let client = self.clients[i];
        let files = self.files.insert(path, bytes.take(client.written as int));
        if client.written >= bytes.len() {
            World {
                files,
                clients: self.clients.update(i, Client { stored: true, ..client }),
                ..self
            }.deliver(i, EventView::Completed, roll)
        } else {
            World {
                files,
                clients: self.clients.update(i, Client { written: client.written + 1, ..client }),
                ..self
            }
        }
    }

    /// One step of the world: client `i` gets on with its action, which
    /// goes well if `ok` and fails otherwise. `roll` is the face that the
    /// die shows, should the step roll it.
    ///
    /// A read returns the request of the client. A load finds the file or
    /// does not. The lock is granted where it is free; where it is held the
    /// client waits, and the step changes nothing. A write takes a step of
    /// its own for each byte, and needs the lock. A failed write leaves the
    /// file as far as the write had got. An unlock frees the lock whether
    /// it reports so or not. A send that goes well reaches the peer.
    pub open spec fn step(self, i: int, ok: bool, roll: nat) -> World {
        if !self.has(i) {
            self
        } else {
            let client = self.clients[i];
            match client.action {
                ActionView::Receive => self.deliver(
                    i,
                    if ok {
                        EventView::Received(client.request)
                    } else {
                        EventView::Failed
                    },
                    roll,
                ),
                ActionView::Load(path) => self.deliver(
                    i,
                    if !ok {
                        EventView::Failed
                    } else if self.files.contains_key(path) {
                        EventView::Loaded(self.files[path])
                    } else {
                        EventView::Unavailable
                    },
                    roll,
                ),
                ActionView::Lock(path) => if !ok {
                    self.deliver(i, EventView::Failed, roll)
                } else if self.holder is Some {
                    self
                } else {
                    self.grant(i, path).deliver(i, EventView::Completed, roll)
                },
                ActionView::Write(bytes) => if ok && self.holder is Some && self.holder->0.client
                    == i {
                    self.write(i, self.holder->0.path, bytes, roll)
                } else {
                    World { torn: true, ..self }.deliver(i, EventView::Failed, roll)
                },
                ActionView::Unlock => World {
                    holder: if self.holder is Some && self.holder->0.client == i {
                        None
                    } else {
                        self.holder
                    },
                    ..self
                }.deliver(
                    i,
                    if ok {
                        EventView::Completed
                    } else {
                        EventView::Failed
                    },
                    roll,
                ),
                ActionView::Send(bytes) => if ok {
                    World {
                        clients: self.clients.update(i, Client { answer: Some(bytes), ..client }),
                        ..self
                    }.deliver(i, EventView::Completed, roll)
                } else {
                    self.deliver(i, EventView::Failed, roll)
                },
                ActionView::Close => self,
            }
        }
    }

    /// The world after the turns, taken in order from this one.
    pub open spec fn run(self, turns: Seq<Turn>) -> World
        decreases turns.len(),
    {
        if turns.len() == 0 {
            self
        } else {
            self.run(turns.drop_last()).step(
                turns.last().client,
                turns.last().ok,
                turns.last().roll,
            )
        }
    }

    /// The world once client `i` has taken up to `steps` steps on its own,
    /// each of its actions going well, and has stopped where its machine
    /// asked to close.
    pub open spec fn serve(self, i: int, roll: nat, steps: nat) -> World
        decreases steps,
    {
        if steps == 0 || !self.has(i) || self.clients[i].action is Close {
            self
        } else {
            self.step(i, true, roll).serve(i, roll, (steps - 1) as nat)
        }
    }

    /// Client `i` is in the middle of a write: the file holds the part of
    /// its body that the write has reached.
    pub open spec fn writing(self, i: int) -> bool {
        self.has(i) && self.clients[i].state is Writing && self.clients[i].written > 0
    }

    /// The saved document is whole: while a client is in the middle of a
    /// write, the document is the part of its body written so far, and
    /// nothing of any other; at any other time, once a write has run to
    /// its end, the document is the whole body of a client whose write has.
    pub open spec fn document_whole(self) -> bool {
        &&& forall|i: int| #[trigger]
            self.writing(i) ==> self.files.contains_key(saved_path()) && self.files[saved_path()]
                == self.clients[i].body()->0.take(self.clients[i].written - 1)
        &&& (forall|i: int| !self.writing(i)) && (exists|i: int|
            self.has(i) && (#[trigger] self.clients[i]).stored) ==> exists|j: int|
            self.has(j) && (#[trigger] self.clients[j]).stored && self.files.contains_key(
                saved_path(),
            ) && self.files[saved_path()] == self.clients[j].body()->0
    }

    /// What holds of the world at every time: each client is coherent; the
    /// clients that have the lock are the one that the world knows as its
    /// holder, so at most one has it; the lock is on the saved document;
    /// and as long as no write has failed, the saved document is whole.
    pub open spec fn sound(self) -> bool {
        &&& forall|i: int| self.has(i) ==> (#[trigger] self.clients[i]).coherent()
        &&& forall|i: int|
            self.has(i) ==> ((#[trigger] self.clients[i]).locked() <==> self.held_by(i))
        &&& self.holder matches Some(h) ==> self.has(h.client) && h.path == saved_path()
        &&& !self.torn ==> self.document_whole()
    }
}

/// The world is sound before any step.
pub proof fn lemma_start_sound(files: Map<Seq<u8>, Seq<u8>>, requests: Seq<Seq<u8>>)
    ensures
        World::start(files, requests).sound(),
        !World::start(files, requests).torn,
{
    let w = World::start(files, requests);
    assert forall|i: int| w.has(i) implies !(#[trigger] w.clients[i]).stored by {}
    assert forall|i: int| !w.writing(i) by {}
}

/// A client that has the lock is the holder, so a client in the middle of
/// a write is.
proof fn lemma_writer_is_holder(w: World, j: int)
    requires
        w.sound(),
        w.has(j),
        w.clients[j].state is Writing,
    ensures
        w.held_by(j),
{
    assert(w.clients[j].locked());
}

/// A step keeps every client coherent, and keeps the clients that have the
/// lock and the holder that the world knows in agreement.
proof fn lemma_step_keeps_clients(w: World, i: int, ok: bool, roll: nat)
    requires
        w.sound(),
    ensures
        ({
            let next = w.step(i, ok, roll);
            &&& next.clients.len() == w.clients.len()
            &&& forall|j: int| next.has(j) ==> (#[trigger] next.clients[j]).coherent()
            &&& forall|j: int|
                next.has(j) ==> ((#[trigger] next.clients[j]).locked() <==> next.held_by(j))
            &&& next.holder matches Some(h) ==> next.has(h.client) && h.path == saved_path()
            &&& forall|j: int| next.has(j) && j != i ==> #[trigger] next.clients[j] == w.clients[j]
        }),
{
    let next = w.step(i, ok, roll);
    if w.has(i) {
        let client = w.clients[i];
        assert(client.coherent());
        assert(client.locked() <==> w.held_by(i));
        assert forall|j: int| next.has(j) && j != i implies #[trigger] next.clients[j]
            == w.clients[j] by {}
        assert(next.clients[i].coherent());
        assert(next.clients[i].locked() <==> next.held_by(i));
        assert forall|j: int| next.has(j) implies (#[trigger] next.clients[j]).coherent() by {
            if j != i {
                assert(w.clients[j].coherent());
            }
        }
        assert forall|j: int| next.has(j) implies ((#[trigger] next.clients[j]).locked()
            <==> next.held_by(j)) by {
            if j != i {
                assert(w.clients[j].locked() <==> w.held_by(j));
            }
        }
    }
}

/// A step that no write fails in keeps the saved document whole.
proof fn lemma_step_keeps_document(w: World, i: int, ok: bool, roll: nat)
    requires
        w.sound(),
        !w.step(i, ok, roll).torn,
    ensures
        w.step(i, ok, roll).document_whole(),
{
    let next = w.step(i, ok, roll);
    lemma_step_keeps_clients(w, i, ok, roll);
    if !w.has(i) {
        return ;
    }
    let client = w.clients[i];
    assert(client.coherent());
    assert(client.locked() <==> w.held_by(i));
    assert(w.document_whole());
    if client.action is Write {
        let bytes = client.action->Write_0;
        assert(w.held_by(i));
        assert(next == w.write(i, saved_path(), bytes, roll));
        assert(bytes == client.body()->0);
        assert forall|j: int| j != i implies !next.writing(j) by {
            if next.writing(j) {
                lemma_writer_is_holder(w, j);
            }
        }
        if client.written >= bytes.len() {
            assert(bytes.take(client.written as int) =~= bytes);
            assert(next.clients[i].stored);
            assert(next.clients[i].body() == client.body());
            assert(!next.writing(i));
        } else {
            assert(next.writing(i));
        }
    } else {
        assert(!w.writing(i));
        assert(!next.writing(i));
        assert forall|j: int| next.writing(j) == w.writing(j) by {
            if next.has(j) && j != i {
                assert(next.clients[j] == w.clients[j]);
            }
        }
        assert forall|j: int| next.has(j) implies (#[trigger] next.clients[j]).stored
            == w.clients[j].stored && next.clients[j].body() == w.clients[j].body() by {
            if j != i {
                assert(next.clients[j] == w.clients[j]);
            }
        }
        if next.files != w.files {
            assert(client.action is Lock && w.holder is None);
            assert forall|j: int| !w.writing(j) by {
                if w.writing(j) {
                    lemma_writer_is_holder(w, j);
                }
            }
            assert forall|j: int| w.has(j) implies !(#[trigger] w.clients[j]).stored by {
                if w.clients[j].stored {
                    assert(w.files.contains_key(saved_path()));
                }
            }
        }
        if (forall|j: int| !next.writing(j)) && (exists|j: int|
            next.has(j) && (#[trigger] next.clients[j]).stored) {
            let k = choose|j: int| next.has(j) && (#[trigger] next.clients[j]).stored;
            assert(w.has(k) && w.clients[k].stored);
            assert forall|j: int| !w.writing(j) by {
                assert(next.writing(j) == w.writing(j));
            }
            let j = choose|j: int|
                w.has(j) && (#[trigger] w.clients[j]).stored && w.files.contains_key(saved_path())
                    && w.files[saved_path()] == w.clients[j].body()->0;
            assert(next.has(j) && next.clients[j].stored);
        }
        assert forall|j: int| #[trigger] next.writing(j) implies next.files.contains_key(
            saved_path(),
        ) && next.files[saved_path()] == next.clients[j].body()->0.take(
            next.clients[j].written - 1,
        ) by {
            assert(w.writing(j));
            assert(next.clients[j] == w.clients[j]);
        }
    }
}

/// A step leaves a sound world sound.
pub proof fn lemma_step_sound(w: World, i: int, ok: bool, roll: nat)
    requires
        w.sound(),
    ensures
        w.step(i, ok, roll).sound(),
        w.torn ==> w.step(i, ok, roll).torn,
{
    lemma_step_keeps_clients(w, i, ok, roll);
    if !w.step(i, ok, roll).torn {
        lemma_step_keeps_document(w, i, ok, roll);
    }
}

/// However the clients take their turns and whatever fails, the world
/// stays sound, and the clients stay the same in number.
pub proof fn law_run_sound(files: Map<Seq<u8>, Seq<u8>>, requests: Seq<Seq<u8>>, turns: Seq<Turn>)
    ensures
        World::start(files, requests).run(turns).sound(),
        World::start(files, requests).run(turns).clients.len() == requests.len(),
    decreases turns.len(),
{
    let start = World::start(files, requests);
    if turns.len() == 0 {
        lemma_start_sound(files, requests);
    } else {
        law_run_sound(files, requests, turns.drop_last());
        let before = start.run(turns.drop_last());
        let last = turns.last();
        lemma_step_sound(before, last.client, last.ok, last.roll);
        lemma_step_keeps_clients(before, last.client, last.ok, last.roll);
    }
}

/// The lock is exclusive: however the clients take their turns and
/// whatever fails, no two clients have the lock at the same time.
pub proof fn law_one_holder(
    files: Map<Seq<u8>, Seq<u8>>,
    requests: Seq<Seq<u8>>,
    turns: Seq<Turn>,
    i: int,
    j: int,
)
    requires
        0 <= i < requests.len(),
        0 <= j < requests.len(),
        World::start(files, requests).run(turns).clients[i].locked(),
        World::start(files, requests).run(turns).clients[j].locked(),
    ensures
        i == j,
{
    law_run_sound(files, requests, turns);
    let w = World::start(files, requests).run(turns);
    assert(w.clients[i].locked() <==> w.held_by(i));
    assert(w.clients[j].locked() <==> w.held_by(j));
}

/// Every write is made under the lock: a client whose machine has asked
/// to write has the lock.
pub proof fn law_write_under_lock(
    files: Map<Seq<u8>, Seq<u8>>,
    requests: Seq<Seq<u8>>,
    turns: Seq<Turn>,
    i: int,
)
    requires
        0 <= i < requests.len(),
        World::start(files, requests).run(turns).clients[i].action is Write,
    ensures
        World::start(files, requests).run(turns).held_by(i),
{
    law_run_sound(files, requests, turns);
    let w = World::start(files, requests).run(turns);
    assert(w.clients[i].coherent());
    assert(w.clients[i].locked() <==> w.held_by(i));
}

/// Saves that run at the same time leave one body, whole. However the
/// clients take their turns, as long as no write has failed: whenever no
/// client is in the middle of a write and the write of at least one has
/// run to its end, the saved document is exactly the body of the request
/// of one such client, with no byte of any other body in it.
pub proof fn law_saved_document_is_one_body(
    files: Map<Seq<u8>, Seq<u8>>,
    requests: Seq<Seq<u8>>,
    turns: Seq<Turn>,
    i: int,
)
    requires
        !World::start(files, requests).run(turns).torn,
        forall|k: int|
            0 <= k < requests.len() ==> !((#[trigger] World::start(files, requests).run(
                turns,
            ).clients[k]).state is Writing),
        0 <= i < requests.len(),
        World::start(files, requests).run(turns).clients[i].stored,
    ensures
        exists|j: int|
            0 <= j < requests.len() && (#[trigger] World::start(files, requests).run(
                turns,
            ).clients[j]).stored && World::start(files, requests).run(turns).files.contains_key(
                saved_path(),
            ) && save_body(buffered(requests[j])) == Some(
                World::start(files, requests).run(turns).files[saved_path()],
            ),
{
    law_run_sound(files, requests, turns);
    lemma_run_keeps_requests(files, requests, turns);
    let w = World::start(files, requests).run(turns);
    assert(w.document_whole());
    assert forall|k: int| !w.writing(k) by {
        if w.has(k) {
            assert(!(w.clients[k].state is Writing));
        }
    }
    assert(w.has(i) && w.clients[i].stored);
    let j = choose|j: int|
        w.has(j) && (#[trigger] w.clients[j]).stored && w.files.contains_key(saved_path())
            && w.files[saved_path()] == w.clients[j].body()->0;
    assert(w.clients[j].coherent());
    assert(w.clients[j].request == requests[j]);
}

/// No step changes what a client has asked for.
pub proof fn lemma_run_keeps_requests(
    files: Map<Seq<u8>, Seq<u8>>,
    requests: Seq<Seq<u8>>,
    turns: Seq<Turn>,
)
    ensures
        World::start(files, requests).run(turns).clients.len() == requests.len(),
        forall|j: int|
            0 <= j < requests.len() ==> (#[trigger] World::start(files, requests).run(
                turns,
            ).clients[j]).request == requests[j],
    decreases turns.len(),
{
    if turns.len() > 0 {
        lemma_run_keeps_requests(files, requests, turns.drop_last());
        law_run_sound(files, requests, turns.drop_last());
        let before = World::start(files, requests).run(turns.drop_last());
        let last = turns.last();
        let after = before.step(last.client, last.ok, last.roll);
        lemma_step_keeps_clients(before, last.client, last.ok, last.roll);
        assert forall|j: int| 0 <= j < requests.len() implies (#[trigger] after.clients[j]).request
            == requests[j] by {
            assert(before.clients[j].request == requests[j]);
            if j != last.client {
                assert(after.clients[j] == before.clients[j]);
            }
        }
    }
}

} // verus!
