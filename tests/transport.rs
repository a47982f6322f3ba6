use local_transport::address::{AddressAllocator, BROADCAST_ADDR};
use local_transport::bootstrap::{plan_startup, Bootstrap, BootstrapStep, Startup};
use local_transport::connection::{encode_addressed, Inbox, Received};
use local_transport::envelope::{deserialize, serialize, TransportEvent};
use local_transport::error::TransportError;
use local_transport::frame::{decode, encode, Decoded};
use local_transport::handshake::{ClientHandshake, HandshakeState};
use local_transport::server::Server;

fn frame_payload(r: Result<Decoded, TransportError>) -> (Vec<u8>, usize) {
    match r {
        Ok(Decoded::Frame { payload, consumed }) => (payload, consumed),
        other => panic!("expected a frame, got {:?}", other),
    }
}

fn next_event(inbox: &mut Inbox, ended: bool) -> TransportEvent {
    match inbox.receive(ended) {
        Ok(Received::Event(e)) => e,
        other => panic!("expected an event, got {:?}", other),
    }
}

#[test]
fn frame_prefixes_big_endian_length() {
    let bytes = encode(&vec![7, 8, 9]).unwrap();
    assert_eq!(bytes, vec![0, 0, 0, 3, 7, 8, 9]);
    let long = vec![0xabu8; 0x0102];
    let bytes = encode(&long).unwrap();
    assert_eq!(&bytes[..4], &[0, 0, 1, 2]);
    assert_eq!(bytes.len(), 4 + 0x0102);
}

#[test]
fn frame_round_trip() {
    for payload in [vec![], vec![1u8], vec![0u8, 255, 3, 4, 5], vec![42u8; 70000]] {
        let mut bytes = encode(&payload).unwrap();
        bytes.extend_from_slice(&[9, 9]);
        let (got, consumed) = frame_payload(decode(&bytes, false));
        assert_eq!(got, payload);
        assert_eq!(consumed, payload.len() + 4);
    }
}

#[test]
fn truncated_frame_at_end_of_stream() {
    let bytes = vec![0, 0, 0, 10, 1, 2, 3];
    assert!(matches!(decode(&bytes, false), Ok(Decoded::Incomplete)));
    assert_eq!(decode(&bytes, true).unwrap_err(), TransportError::TruncatedFrame);
    let partial_prefix = vec![0, 0];
    assert!(matches!(decode(&partial_prefix, false), Ok(Decoded::Incomplete)));
    assert_eq!(decode(&partial_prefix, true).unwrap_err(), TransportError::TruncatedFrame);
}

#[test]
fn clean_end_of_stream() {
    assert!(matches!(decode(&vec![], true), Ok(Decoded::EndOfStream)));
    assert!(matches!(decode(&vec![], false), Ok(Decoded::Incomplete)));
}

#[test]
fn envelope_exact_bytes() {
    let e = TransportEvent::ClientJoined { request_id: 0x0102030405060708 };
    assert_eq!(serialize(&e).unwrap(), vec![0, 1, 2, 3, 4, 5, 6, 7, 8]);
    let e = TransportEvent::ProvisionAddr { request_id: 5, new_addr: 3 };
    assert_eq!(serialize(&e).unwrap(), vec![1, 0, 0, 0, 0, 0, 0, 0, 5, 3]);
    let e = TransportEvent::ToolCall { name: "ls".to_string(), arguments: "-a".to_string() };
    assert_eq!(serialize(&e).unwrap(), vec![2, 0, 0, 0, 2, b'l', b's', 0, 0, 0, 2, b'-', b'a']);
    let e = TransportEvent::MessageDelta { delta: "é".to_string() };
    assert_eq!(serialize(&e).unwrap(), vec![3, 0, 0, 0, 2, 0xc3, 0xa9]);
}

#[test]
fn envelope_round_trip() {
    let events = vec![
        TransportEvent::ClientJoined { request_id: u64::MAX },
        TransportEvent::ClientJoined { request_id: 0 },
        TransportEvent::ProvisionAddr { request_id: 123456789, new_addr: 254 },
        TransportEvent::ToolCall { name: "search".to_string(), arguments: "{\"q\":1}".to_string() },
        TransportEvent::ToolCall { name: String::new(), arguments: String::new() },
        TransportEvent::MessageDelta { delta: "héllo, wörld ✓".to_string() },
    ];
    for e in events {
        let bytes = serialize(&e).unwrap();
        assert_eq!(deserialize(&bytes).unwrap(), e);
    }
}

#[test]
fn malformed_envelopes_are_rejected() {
    let bad = vec![
        vec![],
        vec![9],
        vec![0, 1, 2],
        vec![0, 0, 0, 0, 0, 0, 0, 0, 1, 7],
        vec![3, 0, 0, 0, 5, b'a'],
        vec![3, 0, 0, 0, 1, 0xff],
        vec![3, 0, 0, 0, 1, b'a', b'b'],
        vec![2, 0, 0, 0, 1, b'a'],
    ];
    for b in bad {
        assert_eq!(deserialize(&b).unwrap_err(), TransportError::MalformedEnvelope);
    }
}

#[test]
fn three_clients_get_one_two_three() {
    let mut server = Server::new();
    let mut got = Vec::new();
    for id in [11u64, 22, 33] {
        let reply = server.on_join(&TransportEvent::ClientJoined { request_id: id }).unwrap();
        let (to, event) = reply.unwrap();
        assert_eq!(to, BROADCAST_ADDR);
        match event {
            TransportEvent::ProvisionAddr { request_id, new_addr } => {
                assert_eq!(request_id, id);
                got.push(new_addr);
            }
            other => panic!("unexpected reply {:?}", other),
        }
    }
    assert_eq!(got, vec![1, 2, 3]);
}

#[test]
fn server_ignores_other_events_before_join() {
    let mut server = Server::new();
    let e = TransportEvent::MessageDelta { delta: "x".to_string() };
    assert_eq!(server.on_join(&e).unwrap(), None);
    let reply = server.on_join(&TransportEvent::ClientJoined { request_id: 1 }).unwrap();
    assert_eq!(reply, Some((BROADCAST_ADDR, TransportEvent::ProvisionAddr { request_id: 1, new_addr: 1 })));
}

#[test]
fn addresses_run_out_after_254() {
    let mut alloc = AddressAllocator::new();
    for expected in 1u8..=254 {
        assert_eq!(alloc.allocate(), Ok(expected));
    }
    assert_eq!(alloc.allocate(), Err(TransportError::AddressesExhausted));
    assert_eq!(alloc.allocate(), Err(TransportError::AddressesExhausted));
}

#[test]
fn receive_skips_frames_for_others() {
    let mine = TransportEvent::MessageDelta { delta: "for me".to_string() };
    let theirs = TransportEvent::MessageDelta { delta: "for 7".to_string() };
    let all = TransportEvent::ClientJoined { request_id: 9 };
    let mut inbox = Inbox::new();
    inbox.set_address(3);
    let mut wire = encode_addressed(7, &theirs).unwrap();
    wire.extend(encode_addressed(3, &mine).unwrap());
    wire.extend(encode_addressed(8, &theirs).unwrap());
    wire.extend(encode_addressed(BROADCAST_ADDR, &all).unwrap());
    inbox.feed(&wire);
    assert_eq!(next_event(&mut inbox, true), mine);
    assert_eq!(next_event(&mut inbox, true), all);
    assert!(matches!(inbox.receive(true), Ok(Received::Closed)));
}

#[test]
fn receive_waits_for_the_rest_of_a_frame() {
    let e = TransportEvent::ToolCall { name: "run".to_string(), arguments: "now".to_string() };
    let wire = encode_addressed(2, &e).unwrap();
    let mut inbox = Inbox::new();
    inbox.set_address(2);
    inbox.feed(&wire[..5]);
    assert!(matches!(inbox.receive(false), Ok(Received::Pending)));
    inbox.feed(&wire[5..]);
    assert_eq!(next_event(&mut inbox, false), e);
    assert!(matches!(inbox.receive(false), Ok(Received::Pending)));
}

#[test]
fn receive_reports_truncation_and_corruption() {
    let mut inbox = Inbox::new();
    inbox.feed(&[0, 0, 0, 9, 0, 1]);
    assert_eq!(inbox.receive(true).unwrap_err(), TransportError::TruncatedFrame);

    let mut inbox = Inbox::new();
    inbox.feed(&[0, 0, 0, 2, BROADCAST_ADDR, 77]);
    assert_eq!(inbox.receive(false).unwrap_err(), TransportError::MalformedEnvelope);
}

#[test]
fn handshake_keeps_early_events() {
    let mut hs = ClientHandshake::new(77);
    assert_eq!(hs.state(), HandshakeState::Connected);
    assert_eq!(hs.join(), TransportEvent::ClientJoined { request_id: 77 });
    assert_eq!(hs.state(), HandshakeState::AwaitingAddress);
    let early = TransportEvent::MessageDelta { delta: "early".to_string() };
    let other = TransportEvent::ProvisionAddr { request_id: 5, new_addr: 9 };
    assert_eq!(hs.on_event(early.clone()), None);
    assert_eq!(hs.on_event(other.clone()), None);
    assert_eq!(hs.on_event(TransportEvent::ProvisionAddr { request_id: 77, new_addr: 4 }), Some(4));
    assert_eq!(hs.state(), HandshakeState::Provisioned(4));
    assert_eq!(hs.take_held(), vec![early, other]);
    assert!(hs.take_held().is_empty());
}

#[test]
fn handshake_fails_when_stream_closes() {
    let mut hs = ClientHandshake::new(1);
    hs.join();
    hs.on_closed();
    assert_eq!(hs.state(), HandshakeState::Failed);
}

#[test]
fn bootstrap_spawns_once_then_connects() {
    let mut b = Bootstrap::new(1000, 100);
    assert_eq!(b.after_attempt(false, 0), Ok(BootstrapStep::SpawnServer));
    assert_eq!(b.after_attempt(false, 100), Ok(BootstrapStep::Retry { wait_ms: 100 }));
    assert_eq!(b.after_attempt(false, 1000), Ok(BootstrapStep::Retry { wait_ms: 100 }));
    assert_eq!(b.after_attempt(true, 1050), Ok(BootstrapStep::Connected));
}

#[test]
fn bootstrap_times_out_without_second_spawn() {
    let mut b = Bootstrap::new(10, 100);
    assert_eq!(b.after_attempt(false, 500), Ok(BootstrapStep::SpawnServer));
    assert_eq!(b.after_attempt(false, 505), Ok(BootstrapStep::Retry { wait_ms: 100 }));
    assert_eq!(b.after_attempt(false, 511), Err(TransportError::ServerStartupTimeout));
    assert_eq!(b.spawned_at, Some(500));
}

#[test]
fn bootstrap_connects_directly() {
    let mut b = Bootstrap::new(10, 100);
    assert_eq!(b.after_attempt(true, 0), Ok(BootstrapStep::Connected));
    assert_eq!(b.spawned_at, None);
}

#[test]
fn startup_refuses_a_live_server() {
    assert_eq!(plan_startup(true, true), Err(TransportError::ServerAlreadyRunning));
    assert_eq!(plan_startup(false, true), Ok(Startup::RemoveStaleThenBind));
    assert_eq!(plan_startup(false, false), Ok(Startup::Bind));
}
