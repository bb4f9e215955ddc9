use websocket_relay::params::{head_complete, is_plain_request, join_from_pairs, join_request, parse_role, JoinRefusal};
use websocket_relay::registry::{JoinError, Registry};
use websocket_relay::role::Role;
use websocket_relay::room::Room;
use websocket_relay::session::{ForwardOutcome, Inbound, Phase, RelayStep, Session, WaitStep};

type Mailbox = Vec<String>;

fn code(s: &str) -> String {
    s.to_string()
}

/// Runs the forward protocol for one message, the mailbox standing for the peer's writer.
fn forward(session: &mut Session, reg: &mut Registry<Mailbox>, msg: &str) -> ForwardOutcome {
    match session.detach_peer(reg) {
        Some(mut mailbox) => {
            mailbox.push(msg.to_string());
            session.reattach_peer(reg, mailbox);
            session.on_forwarded(true, true)
        }
        None => session.on_forwarded(false, false),
    }
}

fn mailbox_of(reg: &mut Registry<Mailbox>, c: &str, role: Role) -> Mailbox {
    let m = reg.take_writer(&code(c), role).expect("writer present");
    let copy = m.clone();
    assert!(reg.return_writer(&code(c), role, m));
    copy
}

#[test]
fn pair_relay_and_cleanup_scenario() {
    let mut reg: Registry<Mailbox> = Registry::new();
    let mut init = Session::join(&mut reg, code("abc"), Role::Initiator, Vec::new()).unwrap();
    assert_eq!(init.phase(), Phase::Waiting);
    assert!(!reg.is_complete(&code("abc")));
    let mut resp = Session::join(&mut reg, code("abc"), Role::Responder, Vec::new()).unwrap();
    assert_eq!(resp.phase(), Phase::Relaying);
    assert!(reg.is_complete(&code("abc")));
    assert!(init.poll(&reg));
    match init.on_relay_event(Inbound::Data("hello")) {
        RelayStep::Forward(m) => assert_eq!(forward(&mut init, &mut reg, m), ForwardOutcome::Delivered),
        _ => panic!("expected a forward"),
    }
    assert_eq!(mailbox_of(&mut reg, "abc", Role::Responder), vec!["hello".to_string()]);
    assert!(matches!(resp.on_relay_event::<&str>(Inbound::Close), RelayStep::Stop));
    assert_eq!(resp.phase(), Phase::Closing);
    resp.close(&mut reg);
    assert_eq!(resp.phase(), Phase::Closed);
    assert!(reg.contains(&code("abc")));
    assert!(reg.is_occupied(&code("abc"), Role::Initiator));
    assert!(!reg.is_occupied(&code("abc"), Role::Responder));
    init.close(&mut reg);
    assert!(!reg.contains(&code("abc")));
}

#[test]
fn second_initiator_is_refused() {
    let mut reg: Registry<Mailbox> = Registry::new();
    let first = Session::join(&mut reg, code("x"), Role::Initiator, vec![code("first")]).unwrap();
    let second = Session::join(&mut reg, code("x"), Role::Initiator, vec![code("second")]);
    assert_eq!(second.err(), Some(JoinError::RoleConflict));
    assert_eq!(mailbox_of(&mut reg, "x", Role::Initiator), vec![code("first")]);
    let resp = Session::join(&mut reg, code("x"), Role::Responder, Vec::new()).unwrap();
    assert_eq!(resp.phase(), Phase::Relaying);
    assert!(reg.is_complete(&code("x")));
    assert_eq!(first.role(), Role::Initiator);
}

#[test]
fn send_without_peer_is_peer_unavailable() {
    let mut reg: Registry<Mailbox> = Registry::new();
    let mut init = Session::join(&mut reg, code("p"), Role::Initiator, Vec::new()).unwrap();
    let mut resp = Session::join(&mut reg, code("p"), Role::Responder, Vec::new()).unwrap();
    assert!(init.poll(&reg));
    resp.close(&mut reg);
    assert_eq!(forward(&mut init, &mut reg, "lost"), ForwardOutcome::PeerUnavailable);
    assert_eq!(init.phase(), Phase::Relaying);
    assert_eq!(forward(&mut init, &mut reg, "lost again"), ForwardOutcome::PeerUnavailable);
    assert_eq!(init.phase(), Phase::Relaying);
}

#[test]
fn empty_responder_slot_gives_no_writer() {
    let mut reg: Registry<Mailbox> = Registry::new();
    assert_eq!(reg.join_or_create(code("solo"), Role::Initiator, Vec::new()), Ok(false));
    assert!(reg.take_writer(&code("solo"), Role::Responder).is_none());
    assert!(reg.is_occupied(&code("solo"), Role::Initiator));
}

#[test]
fn forward_keeps_order() {
    let mut reg: Registry<Mailbox> = Registry::new();
    let mut init = Session::join(&mut reg, code("o"), Role::Initiator, Vec::new()).unwrap();
    let _resp = Session::join(&mut reg, code("o"), Role::Responder, Vec::new()).unwrap();
    assert!(init.poll(&reg));
    let sent = ["one", "two", "three", "four"];
    for m in sent.iter() {
        assert_eq!(forward(&mut init, &mut reg, m), ForwardOutcome::Delivered);
    }
    let got = mailbox_of(&mut reg, "o", Role::Responder);
    assert_eq!(got, sent.iter().map(|s| s.to_string()).collect::<Vec<String>>());
}

#[test]
fn detached_writer_does_not_block_other_rooms() {
    let mut reg: Registry<Mailbox> = Registry::new();
    reg.join_or_create(code("a"), Role::Initiator, Vec::new()).unwrap();
    reg.join_or_create(code("a"), Role::Responder, Vec::new()).unwrap();
    let in_flight = reg.take_writer(&code("a"), Role::Responder).unwrap();
    assert_eq!(reg.join_or_create(code("b"), Role::Initiator, Vec::new()), Ok(false));
    assert_eq!(reg.join_or_create(code("b"), Role::Responder, Vec::new()), Ok(true));
    reg.leave(&code("b"), Role::Initiator);
    reg.leave(&code("b"), Role::Responder);
    assert!(!reg.contains(&code("b")));
    assert!(reg.return_writer(&code("a"), Role::Responder, in_flight));
    assert!(reg.is_complete(&code("a")));
}

#[test]
fn completion_survives_joins_and_round_trips() {
    let mut reg: Registry<Mailbox> = Registry::new();
    reg.join_or_create(code("c"), Role::Initiator, Vec::new()).unwrap();
    assert_eq!(reg.join_or_create(code("c"), Role::Responder, Vec::new()), Ok(true));
    assert_eq!(reg.join_or_create(code("c"), Role::Initiator, Vec::new()), Err(JoinError::RoleConflict));
    assert_eq!(reg.join_or_create(code("d"), Role::Responder, Vec::new()), Ok(false));
    let w = reg.take_writer(&code("c"), Role::Initiator).unwrap();
    assert!(!reg.is_complete(&code("c")));
    assert!(reg.return_writer(&code("c"), Role::Initiator, w));
    assert!(reg.is_complete(&code("c")));
    reg.leave(&code("d"), Role::Responder);
    assert!(reg.is_complete(&code("c")));
}

#[test]
fn cleanup_in_either_order() {
    for first in [Role::Initiator, Role::Responder] {
        let mut reg: Registry<Mailbox> = Registry::new();
        reg.join_or_create(code("r"), Role::Initiator, Vec::new()).unwrap();
        reg.join_or_create(code("r"), Role::Responder, Vec::new()).unwrap();
        reg.leave(&code("r"), first);
        assert!(reg.contains(&code("r")));
        assert!(!reg.is_occupied(&code("r"), first));
        assert!(reg.is_occupied(&code("r"), first.other()));
        reg.leave(&code("r"), first.other());
        assert!(!reg.contains(&code("r")));
        reg.leave(&code("r"), first);
        assert!(!reg.contains(&code("r")));
    }
}

#[test]
fn writer_returned_to_removed_room_is_dropped() {
    let mut reg: Registry<Mailbox> = Registry::new();
    reg.join_or_create(code("g"), Role::Initiator, Vec::new()).unwrap();
    reg.join_or_create(code("g"), Role::Responder, Vec::new()).unwrap();
    let w = reg.take_writer(&code("g"), Role::Responder).unwrap();
    reg.leave(&code("g"), Role::Initiator);
    assert!(!reg.contains(&code("g")));
    assert!(!reg.return_writer(&code("g"), Role::Responder, w));
    assert!(!reg.contains(&code("g")));
}

#[test]
fn returned_writer_takes_its_slot_back() {
    let mut reg: Registry<Mailbox> = Registry::new();
    reg.join_or_create(code("h"), Role::Initiator, Vec::new()).unwrap();
    reg.join_or_create(code("h"), Role::Responder, vec![code("old")]).unwrap();
    let w = reg.take_writer(&code("h"), Role::Responder).unwrap();
    assert_eq!(reg.join_or_create(code("h"), Role::Responder, vec![code("new")]), Ok(true));
    assert!(reg.return_writer(&code("h"), Role::Responder, w));
    assert_eq!(mailbox_of(&mut reg, "h", Role::Responder), vec![code("old")]);
}

#[test]
fn peer_unavailable_then_delivered_to_new_peer() {
    let mut reg: Registry<Mailbox> = Registry::new();
    let mut init = Session::join(&mut reg, code("q"), Role::Initiator, Vec::new()).unwrap();
    let mut resp = Session::join(&mut reg, code("q"), Role::Responder, Vec::new()).unwrap();
    assert!(init.poll(&reg));
    resp.close(&mut reg);
    assert_eq!(forward(&mut init, &mut reg, "m1"), ForwardOutcome::PeerUnavailable);
    let _again = Session::join(&mut reg, code("q"), Role::Responder, Vec::new()).unwrap();
    assert_eq!(forward(&mut init, &mut reg, "m2"), ForwardOutcome::Delivered);
    assert_eq!(mailbox_of(&mut reg, "q", Role::Responder), vec![code("m2")]);
    assert_eq!(init.phase(), Phase::Relaying);
}

#[test]
fn waiting_initiator_starts_relaying_after_join() {
    let mut reg: Registry<Mailbox> = Registry::new();
    let mut init = Session::join(&mut reg, code("abc"), Role::Initiator, Vec::new()).unwrap();
    assert!(!init.poll(&reg));
    assert!(!init.poll(&reg));
    assert_eq!(init.phase(), Phase::Waiting);
    let _resp = Session::join(&mut reg, code("abc"), Role::Responder, Vec::new()).unwrap();
    assert!(init.poll(&reg));
    assert_eq!(init.phase(), Phase::Relaying);
    assert_eq!(init.on_wait_event::<&str>(Some(Inbound::Data("x"))), WaitStep::Stop);
    assert_eq!(init.phase(), Phase::Relaying);
}

#[test]
fn waiting_drains_and_stops() {
    let mut reg: Registry<Mailbox> = Registry::new();
    let mut s = Session::join(&mut reg, code("w"), Role::Responder, Vec::new()).unwrap();
    assert!(!s.poll(&reg));
    assert_eq!(s.on_wait_event::<&str>(None), WaitStep::Poll);
    assert_eq!(s.on_wait_event(Some(Inbound::Data("early"))), WaitStep::Discard);
    assert_eq!(s.on_wait_event::<&str>(Some(Inbound::Control)), WaitStep::Poll);
    assert_eq!(s.phase(), Phase::Waiting);
    assert_eq!(s.on_wait_event::<&str>(Some(Inbound::Failed)), WaitStep::Stop);
    assert_eq!(s.phase(), Phase::Closing);
    s.close(&mut reg);
    assert!(!reg.contains(&code("w")));
}

#[test]
fn waiting_ends_on_close_and_stream_end() {
    let mut reg: Registry<Mailbox> = Registry::new();
    let mut a = Session::join(&mut reg, code("e1"), Role::Initiator, Vec::new()).unwrap();
    assert_eq!(a.on_wait_event::<&str>(Some(Inbound::Close)), WaitStep::Stop);
    let mut b = Session::join(&mut reg, code("e2"), Role::Initiator, Vec::new()).unwrap();
    assert_eq!(b.on_wait_event::<&str>(Some(Inbound::Ended)), WaitStep::Stop);
    assert_eq!(b.phase(), Phase::Closing);
    assert_eq!(a.target(), Role::Responder);
}

#[test]
fn relay_skips_control_and_stops_on_failure() {
    let mut reg: Registry<Mailbox> = Registry::new();
    let _a = Session::join(&mut reg, code("k"), Role::Initiator, Vec::new()).unwrap();
    let mut b = Session::join(&mut reg, code("k"), Role::Responder, Vec::new()).unwrap();
    assert!(matches!(b.on_relay_event::<&str>(Inbound::Control), RelayStep::Skip));
    assert_eq!(b.phase(), Phase::Relaying);
    assert!(matches!(b.on_relay_event::<&str>(Inbound::Ended), RelayStep::Stop));
    assert_eq!(b.phase(), Phase::Closing);
    assert!(matches!(b.on_relay_event(Inbound::Data("late")), RelayStep::Stop));
}

#[test]
fn failed_send_stops_relaying() {
    let mut reg: Registry<Mailbox> = Registry::new();
    let _a = Session::join(&mut reg, code("f"), Role::Initiator, Vec::new()).unwrap();
    let mut b = Session::join(&mut reg, code("f"), Role::Responder, Vec::new()).unwrap();
    let w = b.detach_peer(&mut reg).unwrap();
    assert!(b.reattach_peer(&mut reg, w));
    assert_eq!(b.on_forwarded(true, false), ForwardOutcome::SendFailed);
    assert_eq!(b.phase(), Phase::Closing);
    b.close(&mut reg);
    b.close(&mut reg);
    assert!(reg.is_occupied(&code("f"), Role::Initiator));
}

#[test]
fn room_slots() {
    let mut room: Room<u32> = Room::new(code("z"));
    assert_eq!(room.code(), "z");
    assert!(room.is_vacant());
    room.put(Role::Responder, 7);
    assert!(room.is_occupied(Role::Responder));
    assert!(!room.is_complete());
    room.put(Role::Initiator, 3);
    assert!(room.is_complete());
    assert_eq!(room.take(Role::Initiator), Some(3));
    assert_eq!(room.take(Role::Initiator), None);
    assert!(room.has_code(&code("z")));
}

#[test]
fn join_request_reads_room_and_role() {
    assert_eq!(join_request("/?room=abc&role=sender"), Ok((code("abc"), Role::Initiator)));
    assert_eq!(join_request("/?role=receiver&room=abc"), Ok((code("abc"), Role::Responder)));
    assert_eq!(join_request("/ws?room=a%20b&role=receiver"), Ok((code("a b"), Role::Responder)));
    assert_eq!(join_request("/?room=one&room=two&role=sender"), Ok((code("two"), Role::Initiator)));
}

#[test]
fn join_request_refusals() {
    assert_eq!(join_request("/?role=sender"), Err(JoinRefusal::MissingJoinParameters));
    assert_eq!(join_request("/?room=abc"), Err(JoinRefusal::MissingJoinParameters));
    assert_eq!(join_request("/?room=&role=sender"), Err(JoinRefusal::MissingJoinParameters));
    assert_eq!(join_request("/"), Err(JoinRefusal::MissingJoinParameters));
    assert_eq!(join_request("/?room=abc&role=admin"), Err(JoinRefusal::InvalidRole));
    assert_eq!(join_request("/?room=abc&role=Sender"), Err(JoinRefusal::InvalidRole));
}

#[test]
fn join_from_pairs_last_wins() {
    let pairs = vec![
        (code("role"), code("receiver")),
        (code("room"), code("r1")),
        (code("other"), code("x")),
        (code("role"), code("sender")),
    ];
    assert_eq!(join_from_pairs(&pairs), Ok((code("r1"), Role::Initiator)));
    assert_eq!(join_from_pairs(&Vec::new()), Err(JoinRefusal::MissingJoinParameters));
    assert_eq!(parse_role("receiver"), Some(Role::Responder));
    assert_eq!(parse_role("sender"), Some(Role::Initiator));
    assert_eq!(parse_role(""), None);
}

#[test]
fn plain_request_detection() {
    assert!(is_plain_request(b"GET /health HTTP"));
    assert!(is_plain_request(b"POST / HTTP/1.1\r\n"));
    assert!(is_plain_request(b"HEAD /"));
    assert!(!is_plain_request(b"GET"));
    assert!(!is_plain_request(b"PUT / HTTP/1.1"));
    assert!(!is_plain_request(b""));
    assert!(!is_plain_request(b"get /"));
    assert!(is_plain_request(b"GET /health HTTP/1.1\r\nHost: x\r\n\r\n"));
}

#[test]
fn upgrade_request_is_not_plain() {
    let handshake = b"GET /?room=abc&role=sender HTTP/1.1\r\nHost: relay\r\nUpgrade: websocket\r\nConnection: Upgrade\r\n\r\n";
    assert!(!is_plain_request(handshake));
    assert!(!is_plain_request(b"GET / HTTP/1.1\r\nupgrade: websocket\r\n\r\n"));
    assert!(!is_plain_request(b"GET / HTTP/1.1\r\nUPGRADE:websocket\r\n\r\n"));
    assert!(is_plain_request(b"GET /upgrade: HTTP/1.1\r\nHost: x\r\n\r\n"));
}

#[test]
fn request_head_completeness() {
    assert!(head_complete(b"GET / HTTP/1.1\r\nHost: x\r\n\r\n"));
    assert!(!head_complete(b"GET / HTTP/1.1\r\nHost: x\r\n"));
    assert!(!head_complete(b""));
    assert!(head_complete(b"\r\n\r\n"));
}
