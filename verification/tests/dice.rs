use d20_server::connection::{accept, step, Action, Event, State};
use d20_server::dice::{roll_d20, DIE_SIDES};

#[test]
fn die_has_twenty_sides() {
    assert_eq!(DIE_SIDES, 20);
}

#[test]
fn every_roll_is_a_face() {
    for _ in 0..20_000 {
        let roll = roll_d20();
        assert!((1..=20).contains(&roll), "rolled {}", roll);
    }
}

#[test]
fn every_face_comes_up() {
    let mut seen = [false; 21];
    for _ in 0..20_000 {
        seen[roll_d20() as usize] = true;
    }
    assert!(!seen[0]);
    for face in 1..=20 {
        assert!(seen[face], "face {} never came up", face);
    }
}

#[test]
fn die_roll_request_is_answered_with_a_face() {
    let mut seen = [false; 21];
    for _ in 0..5_000 {
        let (state, action) = accept();
        assert_eq!(action, Action::Receive);
        let (state, action) = step(state, Event::Received(b"GET /d20 HTTP/1.1\r\n\r\n".to_vec()));
        assert_eq!(state, State::Answering);
        let wire = match action {
            Action::Send(wire) => wire,
            other => panic!("expected an answer, got {:?}", other),
        };
        let head = b"HTTP/1.1 200 OK\r\n\r\n";
        assert!(wire.starts_with(head));
        let body = &wire[head.len()..];
        assert!(body.len() == 1 || body.len() == 2);
        assert!(body.iter().all(|b| b.is_ascii_digit()));
        let face: u32 = String::from_utf8(body.to_vec()).unwrap().parse().unwrap();
        assert!((1..=20).contains(&face));
        assert_eq!(body, face.to_string().as_bytes());
        seen[face as usize] = true;
        assert_eq!(step(state, Event::Completed), (State::Closed, Action::Close));
    }
    assert!(seen[1..].iter().filter(|s| **s).count() > 1);
}
