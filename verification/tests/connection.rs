use d20_server::connection::{accept, step, step_with_roll, Action, Event, State};
use std::collections::HashMap;

const OK: &[u8] = b"HTTP/1.1 200 OK\r\n\r\n";
const MISSING: &[u8] = b"HTTP/1.1 404 NOT FOUND\r\n\r\n";
const SAVED: &[u8] = b"HTTP/1.1 200 OK\nContent-Type: application/json\r\n\r\n";

/// Files in memory, with the one lock that a save takes.
struct Disk {
    files: HashMap<Vec<u8>, Vec<u8>>,
    locked: Option<Vec<u8>>,
}

fn disk(files: &[(&[u8], &[u8])]) -> Disk {
    Disk {
        files: files.iter().map(|(path, contents)| (path.to_vec(), contents.to_vec())).collect(),
        locked: None,
    }
}

fn site() -> Disk {
    disk(&[
        (b"index.html", b"<h1>Welcome</h1>\n"),
        (b"404.html", b"<h1>Not here</h1>\n"),
        (b"notes.txt", b"first line\nsecond line\n"),
    ])
}

fn wire(head: &[u8], body: &[u8]) -> Vec<u8> {
    [head, body].concat()
}

/// Performs an action on the disk, nothing failing.
fn perform(disk: &mut Disk, request: &[u8], action: &Action) -> Event {
    match action {
        Action::Receive => Event::Received(request.to_vec()),
        Action::Load(path) => match disk.files.get(path) {
            Some(contents) => Event::Loaded(contents.clone()),
            None => Event::Unavailable,
        },
        Action::Lock(path) => {
            assert_eq!(disk.locked, None, "lock taken twice");
            disk.files.entry(path.clone()).or_default();
            disk.locked = Some(path.clone());
            Event::Completed
        }
        Action::Write(bytes) => {
            let path = disk.locked.clone().expect("write without the lock");
            disk.files.insert(path, bytes.clone());
            Event::Completed
        }
        Action::Unlock => {
            assert!(disk.locked.is_some(), "unlock without the lock");
            disk.locked = None;
            Event::Completed
        }
        Action::Send(_) => Event::Completed,
        Action::Close => unreachable!(),
    }
}

/// Serves one request to its end. Gives the actions asked for, Close
/// included, and what was sent.
fn serve(disk: &mut Disk, request: &[u8], roll: u32) -> (Vec<Action>, Option<Vec<u8>>) {
    let (mut state, mut action) = accept();
    let mut asked = Vec::new();
    let mut sent = None;
    loop {
        if let Action::Send(bytes) = &action {
            assert_eq!(sent, None, "answered twice");
            sent = Some(bytes.clone());
        }
        let closing = action == Action::Close;
        let event = if closing { Event::Completed } else { perform(disk, request, &action) };
        asked.push(action);
        if closing {
            assert_eq!(state, State::Closed);
            assert_eq!(disk.locked, None, "closed with the lock held");
            return (asked, sent);
        }
        assert!(asked.len() <= 6, "too many steps");
        (state, action) = step_with_roll(state, event, roll);
    }
}

/// Feeds the events to a fresh connection and gives each state and action
/// that follows.
fn drive(events: Vec<Event>) -> Vec<(State, Action)> {
    let (mut state, _) = accept();
    let mut trace = Vec::new();
    for event in events {
        let (next, action) = step_with_roll(state, event, 1);
        trace.push((clone_state(&next), clone_action(&action)));
        state = next;
    }
    trace
}

fn clone_state(state: &State) -> State {
    match state {
        State::Receiving => State::Receiving,
        State::LoadingFile => State::LoadingFile,
        State::LoadingIndex => State::LoadingIndex,
        State::LoadingNotFound => State::LoadingNotFound,
        State::Locking(body) => State::Locking(body.clone()),
        State::Writing => State::Writing,
        State::Answering => State::Answering,
        State::AnsweringLocked => State::AnsweringLocked,
        State::Unlocking => State::Unlocking,
        State::Closed => State::Closed,
    }
}

fn clone_action(action: &Action) -> Action {
    match action {
        Action::Receive => Action::Receive,
        Action::Load(path) => Action::Load(path.clone()),
        Action::Lock(path) => Action::Lock(path.clone()),
        Action::Write(bytes) => Action::Write(bytes.clone()),
        Action::Unlock => Action::Unlock,
        Action::Send(bytes) => Action::Send(bytes.clone()),
        Action::Close => Action::Close,
    }
}

#[test]
fn connection_starts_by_reading() {
    assert_eq!(accept(), (State::Receiving, Action::Receive));
}

#[test]
fn raw_die_request_is_answered_with_the_roll() {
    let mut files = site();
    let (asked, sent) = serve(&mut files, b"GET /d20 HTTP/1.1\r\n\r\n", 13);
    assert_eq!(
        asked,
        vec![
            Action::Receive,
            Action::Send(b"HTTP/1.1 200 OK\r\n\r\n13".to_vec()),
            Action::Close,
        ]
    );
    assert_eq!(sent, Some(b"HTTP/1.1 200 OK\r\n\r\n13".to_vec()));
}

#[test]
fn die_answer_holds_one_or_two_digits() {
    for roll in 1..=20u32 {
        let mut files = disk(&[]);
        let (_, sent) = serve(&mut files, b"GET /d20 HTTP/1.1\r\n\r\n", roll);
        let sent = sent.unwrap();
        assert_eq!(sent, wire(OK, roll.to_string().as_bytes()));
        let digits = sent.len() - OK.len();
        assert_eq!(digits, if roll < 10 { 1 } else { 2 });
    }
}

#[test]
fn get_root_serves_the_index_document() {
    let mut files = site();
    let (asked, sent) = serve(&mut files, b"GET / HTTP/1.1\r\nHost: localhost\r\n\r\n", 1);
    assert_eq!(
        asked,
        vec![
            Action::Receive,
            Action::Load(b"index.html".to_vec()),
            Action::Send(wire(OK, b"<h1>Welcome</h1>\n")),
            Action::Close,
        ]
    );
    assert_eq!(sent, Some(b"HTTP/1.1 200 OK\r\n\r\n<h1>Welcome</h1>\n".to_vec()));
}

#[test]
fn get_existing_file_serves_its_contents() {
    let mut files = site();
    let (asked, sent) = serve(&mut files, b"GET /notes.txt HTTP/1.1\r\n\r\n", 1);
    assert_eq!(
        asked,
        vec![
            Action::Receive,
            Action::Load(b"notes.txt".to_vec()),
            Action::Send(wire(OK, b"first line\nsecond line\n")),
            Action::Close,
        ]
    );
    assert_eq!(sent, Some(b"HTTP/1.1 200 OK\r\n\r\nfirst line\nsecond line\n".to_vec()));
}

#[test]
fn get_file_serves_bytes_that_are_no_text() {
    let contents: Vec<u8> = (0..=255u8).collect();
    let mut files = disk(&[(b"blob.bin", &contents)]);
    let (_, sent) = serve(&mut files, b"GET /blob.bin HTTP/1.1\r\n\r\n", 1);
    assert_eq!(sent, Some(wire(OK, &contents)));
}

#[test]
fn get_missing_file_serves_the_not_found_document() {
    let mut files = site();
    let (asked, sent) = serve(&mut files, b"GET /absent.txt HTTP/1.1\r\n\r\n", 1);
    assert_eq!(
        asked,
        vec![
            Action::Receive,
            Action::Load(b"absent.txt".to_vec()),
            Action::Load(b"404.html".to_vec()),
            Action::Send(wire(MISSING, b"<h1>Not here</h1>\n")),
            Action::Close,
        ]
    );
    assert_eq!(sent, Some(b"HTTP/1.1 404 NOT FOUND\r\n\r\n<h1>Not here</h1>\n".to_vec()));
}

#[test]
fn unknown_request_gets_the_not_found_document() {
    for request in [
        &b"DELETE /x HTTP/1.1\r\n\r\n"[..],
        b"PUT /save HTTP/1.1\r\n\r\nbody",
        b"POST /other HTTP/1.1\r\n\r\nbody",
        b"HEAD / HTTP/1.1\r\n\r\n",
        b"garbage",
        b"\x00",
    ] {
        let mut files = site();
        let (asked, sent) = serve(&mut files, request, 1);
        assert_eq!(
            asked,
            vec![
                Action::Receive,
                Action::Load(b"404.html".to_vec()),
                Action::Send(wire(MISSING, b"<h1>Not here</h1>\n")),
                Action::Close,
            ]
        );
        assert_eq!(sent, Some(wire(MISSING, b"<h1>Not here</h1>\n")));
    }
}

#[test]
fn save_locks_writes_answers_and_unlocks() {
    let mut files = site();
    let (asked, sent) = serve(&mut files, b"POST /save HTTP/1.1\r\n\r\nhello", 1);
    assert_eq!(
        asked,
        vec![
            Action::Receive,
            Action::Lock(b"data.txt".to_vec()),
            Action::Write(b"hello".to_vec()),
            Action::Send(wire(SAVED, b"{\"status\": \"ok\"}\n")),
            Action::Unlock,
            Action::Close,
        ]
    );
    assert_eq!(
        sent,
        Some(
            b"HTTP/1.1 200 OK\nContent-Type: application/json\r\n\r\n{\"status\": \"ok\"}\n"
                .to_vec()
        )
    );
    assert_eq!(files.files.get(&b"data.txt"[..]), Some(&b"hello".to_vec()));
    assert_eq!(files.locked, None);
}

#[test]
fn saved_document_is_served_and_overwritten_whole() {
    let mut files = site();
    serve(&mut files, b"POST /save HTTP/1.1\r\n\r\nhello", 1);
    let (_, sent) = serve(&mut files, b"GET /data.txt HTTP/1.1\r\n\r\n", 1);
    assert_eq!(sent, Some(wire(OK, b"hello")));

    serve(&mut files, b"POST /save HTTP/1.1\r\n\r\nworld", 1);
    let (_, sent) = serve(&mut files, b"GET /data.txt HTTP/1.1\r\n\r\n", 1);
    assert_eq!(sent, Some(wire(OK, b"world")));
    assert_eq!(files.files.get(&b"data.txt"[..]), Some(&b"world".to_vec()));
}

#[test]
fn shorter_save_leaves_nothing_of_a_longer_one() {
    let mut files = site();
    serve(&mut files, b"POST /save HTTP/1.1\r\n\r\na much longer document", 1);
    serve(&mut files, b"POST /save HTTP/1.1\r\n\r\nhi", 1);
    assert_eq!(files.files.get(&b"data.txt"[..]), Some(&b"hi".to_vec()));
    serve(&mut files, b"POST /save HTTP/1.1\r\n\r\n", 1);
    assert_eq!(files.files.get(&b"data.txt"[..]), Some(&Vec::new()));
}

#[test]
fn saves_one_after_another_leave_the_last_body() {
    let bodies: Vec<Vec<u8>> = (0..8u8).map(|i| vec![b'a' + i; 3 + i as usize]).collect();
    for first in 0..bodies.len() {
        let mut files = site();
        for k in 0..bodies.len() {
            let body = &bodies[(first + k) % bodies.len()];
            let request = wire(b"POST /save HTTP/1.1\r\n\r\n", body);
            let (_, sent) = serve(&mut files, &request, 1);
            assert_eq!(sent, Some(wire(SAVED, b"{\"status\": \"ok\"}\n")));
        }
        let last = &bodies[(first + bodies.len() - 1) % bodies.len()];
        assert_eq!(files.files.get(&b"data.txt"[..]), Some(last));
    }
}

/// One of several connections that share a disk. A write goes to the disk
/// one byte at a time, so that writers that did not wait for the lock would
/// mix their bytes.
struct Client {
    request: Vec<u8>,
    state: State,
    action: Action,
    written: Option<usize>,
    sent: Option<Vec<u8>>,
}

/// Lets one client make as little progress as can be told apart.
fn tick(disk: &mut Disk, holder: &mut Option<usize>, me: usize, client: &mut Client) {
    let event = match &client.action {
        Action::Close => return,
        Action::Lock(path) => {
            if holder.is_some() {
                return;
            }
            *holder = Some(me);
            disk.files.entry(path.clone()).or_default();
            Event::Completed
        }
        Action::Write(bytes) => {
            assert_eq!(*holder, Some(me), "write without the lock");
            let file = disk.files.get_mut(&b"data.txt"[..]).unwrap();
            match client.written {
                None => {
                    file.clear();
                    client.written = Some(0);
                    return;
                }
                Some(n) if n < bytes.len() => {
                    file.push(bytes[n]);
                    client.written = Some(n + 1);
                    return;
                }
                Some(_) => Event::Completed,
            }
        }
        Action::Unlock => {
            assert_eq!(*holder, Some(me), "unlock without the lock");
            *holder = None;
            Event::Completed
        }
        Action::Send(bytes) => {
            assert_eq!(client.sent, None);
            client.sent = Some(bytes.clone());
            Event::Completed
        }
        Action::Receive => Event::Received(client.request.clone()),
        Action::Load(path) => match disk.files.get(path) {
            Some(contents) => Event::Loaded(contents.clone()),
            None => Event::Unavailable,
        },
    };
    let state = std::mem::replace(&mut client.state, State::Closed);
    let (state, action) = step(state, event);
    client.state = state;
    client.action = action;
}

#[test]
fn concurrent_saves_leave_one_body_whole() {
    let bodies: Vec<Vec<u8>> = (0..6u8).map(|i| vec![b'A' + i; 5 + 7 * i as usize]).collect();
    let mut seed: u64 = 0x2545_f491_4f6c_dd1d;
    for _ in 0..200 {
        let mut files = site();
        let mut holder = None;
        let mut clients: Vec<Client> = bodies
            .iter()
            .map(|body| {
                let (state, action) = accept();
                Client {
                    request: wire(b"POST /save HTTP/1.1\r\n\r\n", body),
                    state,
                    action,
                    written: None,
                    sent: None,
                }
            })
            .collect();
        let mut ticks = 0;
        while clients.iter().any(|c| c.action != Action::Close) {
            seed ^= seed << 13;
            seed ^= seed >> 7;
            seed ^= seed << 17;
            let me = (seed % clients.len() as u64) as usize;
            tick(&mut files, &mut holder, me, &mut clients[me]);
            ticks += 1;
            assert!(ticks < 1_000_000);
            if holder.is_none() {
                let stored = files.files.get(&b"data.txt"[..]);
                assert!(stored.map_or(true, |s| s.is_empty() || bodies.contains(s)));
            }
        }
        assert_eq!(holder, None);
        let stored = files.files.get(&b"data.txt"[..]).unwrap();
        assert!(bodies.contains(stored), "stored {:?}", stored);
        for client in &clients {
            assert_eq!(client.state, State::Closed);
            assert_eq!(client.sent, Some(wire(SAVED, b"{\"status\": \"ok\"}\n")));
        }
    }
}

#[test]
fn empty_read_closes_unanswered() {
    assert_eq!(drive(vec![Event::Received(Vec::new())]), vec![(State::Closed, Action::Close)]);
    let mut files = site();
    let (asked, sent) = serve(&mut files, b"", 1);
    assert_eq!(asked, vec![Action::Receive, Action::Close]);
    assert_eq!(sent, None);
}

#[test]
fn failed_read_closes_unanswered() {
    assert_eq!(drive(vec![Event::Failed]), vec![(State::Closed, Action::Close)]);
    assert_eq!(drive(vec![Event::Unavailable]), vec![(State::Closed, Action::Close)]);
    assert_eq!(drive(vec![Event::Completed]), vec![(State::Closed, Action::Close)]);
    assert_eq!(
        drive(vec![Event::Loaded(b"GET / HTTP/1.1\r\n\r\n".to_vec())]),
        vec![(State::Closed, Action::Close)]
    );
}

#[test]
fn missing_index_closes_unanswered() {
    let mut files = disk(&[(b"404.html", b"gone")]);
    let (asked, sent) = serve(&mut files, b"GET / HTTP/1.1\r\n\r\n", 1);
    assert_eq!(
        asked,
        vec![Action::Receive, Action::Load(b"index.html".to_vec()), Action::Close]
    );
    assert_eq!(sent, None);
}

#[test]
fn missing_not_found_document_closes_unanswered() {
    let mut files = disk(&[]);
    let (asked, sent) = serve(&mut files, b"DELETE /x HTTP/1.1\r\n\r\n", 1);
    assert_eq!(asked, vec![Action::Receive, Action::Load(b"404.html".to_vec()), Action::Close]);
    assert_eq!(sent, None);

    let (asked, sent) = serve(&mut files, b"GET /absent HTTP/1.1\r\n\r\n", 1);
    assert_eq!(
        asked,
        vec![
            Action::Receive,
            Action::Load(b"absent".to_vec()),
            Action::Load(b"404.html".to_vec()),
            Action::Close,
        ]
    );
    assert_eq!(sent, None);
}

#[test]
fn failed_file_read_closes_unanswered() {
    assert_eq!(
        drive(vec![Event::Received(b"GET /notes.txt HTTP/1.1\r\n\r\n".to_vec()), Event::Failed]),
        vec![
            (State::LoadingFile, Action::Load(b"notes.txt".to_vec())),
            (State::Closed, Action::Close),
        ]
    );
    assert_eq!(
        drive(vec![Event::Received(b"GET / HTTP/1.1\r\n\r\n".to_vec()), Event::Failed]),
        vec![
            (State::LoadingIndex, Action::Load(b"index.html".to_vec())),
            (State::Closed, Action::Close),
        ]
    );
    assert_eq!(
        drive(vec![Event::Received(b"nonsense".to_vec()), Event::Failed]),
        vec![
            (State::LoadingNotFound, Action::Load(b"404.html".to_vec())),
            (State::Closed, Action::Close),
        ]
    );
}

#[test]
fn save_without_blank_line_closes_unanswered() {
    let mut files = site();
    let (asked, sent) = serve(&mut files, b"POST /save HTTP/1.1\r\nContent-Length: 5\r\n", 1);
    assert_eq!(asked, vec![Action::Receive, Action::Close]);
    assert_eq!(sent, None);
    assert_eq!(files.files.get(&b"data.txt"[..]), None);
}

#[test]
fn failed_lock_closes_without_writing() {
    assert_eq!(
        drive(vec![
            Event::Received(b"POST /save HTTP/1.1\r\n\r\nhello".to_vec()),
            Event::Failed,
            Event::Completed,
        ]),
        vec![
            (State::Locking(b"hello".to_vec()), Action::Lock(b"data.txt".to_vec())),
            (State::Closed, Action::Close),
            (State::Closed, Action::Close),
        ]
    );
}

#[test]
fn failed_write_is_answered_as_failed_and_unlocks() {
    assert_eq!(
        drive(vec![
            Event::Received(b"POST /save HTTP/1.1\r\n\r\nhello".to_vec()),
            Event::Completed,
            Event::Failed,
            Event::Completed,
            Event::Completed,
        ]),
        vec![
            (State::Locking(b"hello".to_vec()), Action::Lock(b"data.txt".to_vec())),
            (State::Writing, Action::Write(b"hello".to_vec())),
            (State::AnsweringLocked, Action::Send(wire(SAVED, b"{\"status\": \"fail\"}\n"))),
            (State::Unlocking, Action::Unlock),
            (State::Closed, Action::Close),
        ]
    );
}

#[test]
fn failed_answer_under_the_lock_still_unlocks() {
    assert_eq!(
        drive(vec![
            Event::Received(b"POST /save HTTP/1.1\r\n\r\nhello".to_vec()),
            Event::Completed,
            Event::Completed,
            Event::Failed,
            Event::Failed,
        ]),
        vec![
            (State::Locking(b"hello".to_vec()), Action::Lock(b"data.txt".to_vec())),
            (State::Writing, Action::Write(b"hello".to_vec())),
            (State::AnsweringLocked, Action::Send(wire(SAVED, b"{\"status\": \"ok\"}\n"))),
            (State::Unlocking, Action::Unlock),
            (State::Closed, Action::Close),
        ]
    );
}

#[test]
fn failed_answer_closes() {
    assert_eq!(
        drive(vec![
            Event::Received(b"GET / HTTP/1.1\r\n\r\n".to_vec()),
            Event::Loaded(b"home".to_vec()),
            Event::Failed,
        ]),
        vec![
            (State::LoadingIndex, Action::Load(b"index.html".to_vec())),
            (State::Answering, Action::Send(wire(OK, b"home"))),
            (State::Closed, Action::Close),
        ]
    );
}

#[test]
fn closed_connection_stays_closed() {
    let events = vec![
        Event::Received(Vec::new()),
        Event::Received(b"GET /d20 HTTP/1.1\r\n\r\n".to_vec()),
        Event::Loaded(b"x".to_vec()),
        Event::Unavailable,
        Event::Completed,
        Event::Failed,
    ];
    let trace = drive(events);
    assert_eq!(trace.len(), 6);
    for entry in trace {
        assert_eq!(entry, (State::Closed, Action::Close));
    }
}

#[test]
fn every_connection_closes_within_six_steps() {
    let requests: [&[u8]; 5] = [
        b"GET /d20 HTTP/1.1\r\n\r\n",
        b"GET / HTTP/1.1\r\n\r\n",
        b"GET /notes.txt HTTP/1.1\r\n\r\n",
        b"POST /save HTTP/1.1\r\n\r\nhello",
        b"DELETE /x HTTP/1.1\r\n\r\n",
    ];
    let outcomes = [
        || Event::Loaded(b"doc".to_vec()),
        || Event::Unavailable,
        || Event::Completed,
        || Event::Failed,
    ];
    for request in requests {
        for code in 0..4usize.pow(5) {
            let mut events = vec![Event::Received(request.to_vec())];
            let mut rest = code;
            for _ in 0..5 {
                events.push(outcomes[rest % 4]());
                rest /= 4;
            }
            let trace = drive(events);
            assert_eq!(trace[5], (State::Closed, Action::Close));
            let sends = trace.iter().filter(|(_, a)| matches!(a, Action::Send(_))).count();
            assert!(sends <= 1);
            let locks = trace.iter().filter(|(_, a)| matches!(a, Action::Lock(_))).count();
            let writes = trace.iter().position(|(_, a)| matches!(a, Action::Write(_)));
            let unlocks = trace.iter().filter(|(_, a)| *a == Action::Unlock).count();
            if let Some(at) = writes {
                assert_eq!(locks, 1);
                assert_eq!(unlocks, 1);
                assert_eq!(trace[at + 2].1, Action::Unlock);
            } else {
                assert_eq!(unlocks, 0);
            }
        }
    }
}

#[test]
fn only_the_first_512_bytes_of_a_request_count() {
    let mut request = b"POST /save HTTP/1.1\r\n\r\n".to_vec();
    request.extend(std::iter::repeat(b'x').take(1000));
    let trace = drive(vec![Event::Received(request.clone()), Event::Completed]);
    let kept = request[23..512].to_vec();
    assert_eq!(kept.len(), 489);
    assert_eq!(
        trace,
        vec![
            (State::Locking(kept.clone()), Action::Lock(b"data.txt".to_vec())),
            (State::Writing, Action::Write(kept)),
        ]
    );
}

#[test]
fn blank_line_beyond_the_buffer_is_not_seen() {
    let mut request = b"POST /save HTTP/1.1\r\nX-Pad: ".to_vec();
    request.extend(std::iter::repeat(b'p').take(512 - request.len() - 2));
    request.extend_from_slice(b"\r\n\r\nhello");
    assert_eq!(&request[510..514], b"\r\n\r\n");
    assert_eq!(drive(vec![Event::Received(request)]), vec![(State::Closed, Action::Close)]);
}

#[test]
fn path_is_cut_where_the_buffer_ends() {
    let mut request = b"GET /".to_vec();
    request.extend(std::iter::repeat(b'a').take(600));
    request.extend_from_slice(b" HTTP/1.1\r\n\r\n");
    assert_eq!(
        drive(vec![Event::Received(request)]),
        vec![(State::LoadingFile, Action::Load(vec![b'a'; 507]))]
    );
}

#[test]
fn step_agrees_with_step_with_roll_where_no_die_is_rolled() {
    let requests: [&[u8]; 4] = [
        b"GET / HTTP/1.1\r\n\r\n",
        b"GET /notes.txt HTTP/1.1\r\n\r\n",
        b"POST /save HTTP/1.1\r\n\r\nhello",
        b"DELETE /x HTTP/1.1\r\n\r\n",
    ];
    for request in requests {
        let (state, _) = accept();
        let rolled = step(state, Event::Received(request.to_vec()));
        let (state, _) = accept();
        let given = step_with_roll(state, Event::Received(request.to_vec()), 20);
        assert_eq!(rolled, given);
    }
}
