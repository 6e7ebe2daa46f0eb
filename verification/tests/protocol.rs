use vynkor_sdk::client::{
    checked_ws_protocol, token_fits_header, ws_protocol, TransportKind, VynkorClient,
};
use vynkor_sdk::error::VynkorError;
use vynkor_sdk::frame_mac::{derive_session_key, verify_tag};
use vynkor_sdk::framing::{
    build_frame, parse_frag_header, serialize_header, Frame, FLAG_FRAGMENTED, FLAG_MAC_PRESENT,
    FLAG_RAW_BINARY, FRAG_HEADER_SIZE, MAX_PAYLOAD_SIZE,
};
use vynkor_sdk::ids::Sequence;
use vynkor_sdk::proto::{
    ActionResponse, ActionStreamAbort, AudioStreamChunk, Envelope, ErrorMessage, EventPublishAck,
    KernelCommandAck, Outgoing, Payload, PluginManifest, PluginRegister, PluginRegisterAck, Pong,
    SessionClose,
};
use vynkor_sdk::requests::{
    action_next, command_reply, ping_reply, publish_next, Arrival, Deadline, Next,
};
use vynkor_sdk::span::Span;

fn uds(secret: Option<&[u8]>) -> VynkorClient {
    VynkorClient::new(TransportKind::Uds, secret.map(|s| s.to_vec()))
}

fn ack(session_nonce: &[u8]) -> Envelope {
    Envelope::bare(Payload::PluginRegisterAck(PluginRegisterAck {
        accepted: true,
        reject_reason: String::new(),
        granted_permissions: Vec::new(),
        session_nonce: session_nonce.to_vec(),
    }))
}

fn error(message: &str, details: &str) -> Envelope {
    Envelope::bare(Payload::Error(ErrorMessage {
        code: 7,
        message: message.to_string(),
        details: details.to_string(),
    }))
}

fn for_kernel(message: Outgoing) -> Payload {
    assert_eq!(message.target, "kernel");
    assert_eq!(message.envelope.message_id, "");
    assert_eq!(message.envelope.sender_id, "");
    assert_eq!(message.envelope.timestamp, 0);
    message.envelope.payload.unwrap()
}

fn registration(message: Outgoing) -> PluginRegister {
    match for_kernel(message) {
        Payload::PluginRegister(register) => register,
        other => panic!("expected PluginRegister, got {other:?}"),
    }
}

fn told(error: VynkorError) -> String {
    match error {
        VynkorError::Internal(message) => message,
        other => panic!("unexpected {other:?}"),
    }
}

fn secured(secret: &[u8], plugin_id: &str) -> VynkorClient {
    let mut client = uds(Some(secret));
    client.registered(plugin_id, ack(b"0123456789abcdef")).unwrap();
    client
}

fn now() -> Span {
    Span::from_secs(100)
}

#[test]
fn send_recv_roundtrip() {
    let client = uds(None);
    let mut peer = uds(None);
    let frame = client.send_raw("kernel", b"evt-1".to_vec());
    assert_eq!(frame.flags, 0);
    assert_eq!(frame.target[..6], *b"kernel");
    assert_eq!(peer.recv(frame, now()).unwrap(), Some(b"evt-1".to_vec()));
}

#[test]
fn mac_secured_registration_and_tagged_frames() {
    let secret = b"test-shared-secret";
    let plugin_id = "mac-plugin";
    let mut client = uds(Some(secret));
    let register = registration(client.register(plugin_id, PluginManifest::default()));
    assert_eq!(register.plugin_id, "mac-plugin");
    assert!(!client.is_secured());

    let ack = client.registered(plugin_id, ack(b"0123456789abcdef")).unwrap();
    assert!(ack.accepted);
    assert!(client.is_secured(), "session key not derived from nonce");

    let secured = client.send_raw("kernel", b"subscribe".to_vec());
    assert_ne!(secured.flags & FLAG_MAC_PRESENT, 0, "MAC flag missing");
    let key = derive_session_key(secret, b"0123456789abcdef", plugin_id);
    let header = serialize_header(&secured);
    let tag = secured.mac.expect("tag missing");
    assert!(
        verify_tag(&key, &header, &secured.payload, &tag),
        "MAC verification failed on kernel side"
    );
}

#[test]
fn device_registration_sends_device_id_and_macs_with_device_secret() {
    let device_secret = b"per-device-secret-from-pairing";
    let plugin_id = "phone-1";
    let mut client = uds(Some(device_secret)).with_device_id("phone-1".to_string());

    let register = registration(client.register(plugin_id, PluginManifest::default()));
    assert_eq!(register.device_id, "phone-1");
    client.registered(plugin_id, ack(b"0123456789abcdef")).unwrap();
    assert!(client.is_secured());

    let secured = client.send_raw("kernel", b"subscribe".to_vec());
    let key = derive_session_key(device_secret, b"0123456789abcdef", plugin_id);
    let tag = secured.mac.expect("tag missing");
    assert!(
        verify_tag(&key, &serialize_header(&secured), &secured.payload, &tag),
        "MAC not keyed by the device secret"
    );
}

#[test]
fn local_registration_leaves_device_id_empty() {
    let register = registration(uds(None).register("local-plugin", PluginManifest::default()));
    assert!(register.device_id.is_empty());
}

#[test]
fn registration_carries_version_token_and_manifest() {
    let client = uds(None);
    let manifest = || {
        let mut manifest = PluginManifest::default();
        manifest.actions = vec!["echo".to_string()];
        manifest
    };
    let register = registration(client.register("p", manifest()));
    assert_eq!(register.version, "1.0.0");
    assert_eq!(register.jwt_token, "");
    assert_eq!(register.manifest.unwrap().actions, vec!["echo"]);
    let register = registration(client.register_with_token("p", manifest(), "jwt"));
    assert_eq!(register.version, "1.0.0");
    assert_eq!(register.jwt_token, "jwt");
    let register = registration(client.register_full("p", "2.3.4", manifest(), "jwt"));
    assert_eq!(register.version, "2.3.4");
    assert_eq!(register.plugin_id, "p");
    assert!(register.description.is_empty() && register.os == 0);
}

#[test]
fn registration_without_secret_or_nonce_stays_unsecured() {
    let mut client = uds(None);
    client.registered("p", ack(b"0123456789abcdef")).unwrap();
    assert!(!client.is_secured());
    let mut client = uds(Some(b"secret"));
    client.registered("p", ack(b"")).unwrap();
    assert!(!client.is_secured());
    assert!(client.send_raw("kernel", vec![]).mac.is_none());
}

#[test]
fn failed_registrations_are_reported() {
    let mut client = uds(Some(b"secret"));
    assert_eq!(
        told(client.registered("p", error("bad jwt", "expired")).unwrap_err()),
        "registration rejected: bad jwt (expired)"
    );
    let pong = Envelope::bare(Payload::Pong(Pong {
        original_timestamp: 0,
        server_timestamp: 0,
    }));
    assert_eq!(
        told(client.registered("p", pong).unwrap_err()),
        "expected PluginRegisterAck"
    );
    assert!(!client.is_secured());
}

#[test]
fn recv_rejects_untagged_frame_when_secured() {
    let secret = b"s3cret";
    let mut client = uds(Some(secret));
    client.registered("p", ack(b"ffffffffffffffff")).unwrap();
    assert!(client.is_secured());
    let untagged = build_frame("", 0, b"evt-untagged".to_vec());
    let err = client.recv(untagged, now()).expect_err("untagged frame accepted");
    assert!(err.describe().contains("MAC"));
    assert_eq!(told(err), "frame MAC verification failed");
}

#[test]
fn secured_ends_understand_each_other() {
    let sender = secured(b"secret", "p");
    let mut receiver = secured(b"secret", "p");
    let frame = sender.send_raw("peer", b"hello".to_vec());
    assert_eq!(receiver.recv(frame, now()).unwrap(), Some(b"hello".to_vec()));

    // A changed payload, a missing flag, a missing tag, or another key.
    let mut frame = sender.send_raw("peer", b"hello".to_vec());
    frame.payload[0] = b'j';
    assert!(receiver.recv(frame, now()).is_err());
    let mut frame = sender.send_raw("peer", b"hello".to_vec());
    frame.flags = 0;
    assert!(receiver.recv(frame, now()).is_err());
    let mut frame = sender.send_raw("peer", b"hello".to_vec());
    frame.mac = None;
    assert!(receiver.recv(frame, now()).is_err());
    let frame = secured(b"other", "p").send_raw("peer", b"hello".to_vec());
    assert!(receiver.recv(frame, now()).is_err());
    let frame = secured(b"secret", "q").send_raw("peer", b"hello".to_vec());
    assert!(receiver.recv(frame, now()).is_err());
}

#[test]
fn fragmentation_roundtrip_via_client_recv() {
    let mut sender = uds(None);
    let mut receiver = uds(None);
    let payload = b"an encoded message with the event evt-frag".to_vec();
    let frames = sender.send_fragmented("peer", &payload, 7).unwrap();
    let last = frames.len() - 1;
    for (i, frame) in frames.into_iter().enumerate() {
        let received = receiver.recv(frame, now()).unwrap();
        assert_eq!(received, if i < last { None } else { Some(payload.clone()) });
    }
}

#[test]
fn secured_fragments_arrive_in_reverse() {
    let mut sender = secured(b"secret", "p");
    let mut receiver = secured(b"secret", "p");
    let frames = sender.send_fragmented("peer", b"0123456789", 4).unwrap();
    assert_eq!(frames.len(), 3);
    let mut whole: Option<Frame> = None;
    for frame in frames.into_iter().rev() {
        assert_eq!(frame.flags, FLAG_FRAGMENTED | FLAG_MAC_PRESENT);
        assert!(whole.is_none());
        whole = receiver.recv_frame(frame, now()).unwrap();
    }
    let whole = whole.unwrap();
    assert_eq!(whole.payload, b"0123456789");
    assert_eq!(whole.flags, 0);
    assert_eq!(whole.target[..4], *b"peer");
}

#[test]
fn fragment_wire_format_matches_framing_doc() {
    let mut sender = uds(None);
    let payload = vec![9u8; 25];
    let frames = sender.send_fragmented("peer", &payload, 10).unwrap();
    assert_eq!(frames.len(), 3);
    for (expected_seq, frame) in (0u16..3).zip(frames) {
        assert_ne!(frame.flags & FLAG_FRAGMENTED, 0);
        let hdr = parse_frag_header(&frame.payload).expect("frag header");
        assert_eq!(hdr.sequence, expected_seq);
        assert_eq!(hdr.total, 3);
        let chunk_len = frame.payload.len() - FRAG_HEADER_SIZE;
        assert_eq!(chunk_len, if expected_seq < 2 { 10 } else { 5 });
    }
}

#[test]
fn every_fragmented_message_has_a_stream_of_its_own() {
    let mut sender = uds(None);
    for expected in 1u32..4 {
        let frames = sender.send_fragmented("peer", b"x", 10).unwrap();
        let header = parse_frag_header(&frames[0].payload).unwrap();
        assert_eq!(header.stream_id, expected);
        assert_eq!(header.fragment_id, expected as u16);
        assert_eq!(header.total, 1);
    }
}

#[test]
fn an_empty_message_is_one_fragment() {
    let mut sender = uds(None);
    let mut receiver = uds(None);
    let mut frames = sender.send_fragmented("peer", &[], 10).unwrap();
    assert_eq!(frames.len(), 1);
    let frame = frames.remove(0);
    assert_eq!(frame.flags, FLAG_FRAGMENTED);
    assert_eq!(frame.payload, [0, 1, 0, 0, 0, 1, 0, 0, 0, 1]);
    let whole = receiver.recv_frame(frame, now()).unwrap().unwrap();
    assert!(whole.payload.is_empty());
    assert_eq!(whole.flags, 0);
    assert_eq!(whole.length, 0);
    assert_eq!(whole.target[..4], *b"peer");
    let frames = sender.send_fragmented("peer", b"x", 10).unwrap();
    assert_eq!(parse_frag_header(&frames[0].payload).unwrap().stream_id, 2);
}

#[test]
fn send_fragmented_rejects_oversized_payload() {
    let mut sender = uds(None);
    let payload = vec![0u8; MAX_PAYLOAD_SIZE + 1];
    let err = sender
        .send_fragmented("peer", &payload, 65536)
        .expect_err("oversized payload accepted");
    assert!(matches!(err, VynkorError::PayloadTooLarge(_)));
}

#[test]
fn send_fragmented_names_its_limits() {
    let mut sender = uds(None);
    assert_eq!(
        told(sender.send_fragmented("peer", b"x", 0).unwrap_err()),
        "invalid fragment chunk_size: 0"
    );
    assert_eq!(
        told(sender.send_fragmented("peer", b"x", MAX_PAYLOAD_SIZE - 9).unwrap_err()),
        "invalid fragment chunk_size: 1048567"
    );
    assert!(sender.send_fragmented("peer", b"x", MAX_PAYLOAD_SIZE - 10).is_ok());
    assert_eq!(
        told(sender.send_fragmented("peer", b"x", usize::MAX).unwrap_err()),
        format!("invalid fragment chunk_size: {}", usize::MAX)
    );
    let oversized = vec![0u8; MAX_PAYLOAD_SIZE + 1];
    assert!(matches!(
        sender.send_fragmented("peer", &oversized, usize::MAX),
        Err(VynkorError::PayloadTooLarge(1_048_577))
    ));
    let payload = vec![0u8; 65536];
    assert_eq!(
        told(sender.send_fragmented("peer", &payload, 1).unwrap_err()),
        "payload needs 65536 fragments; max is 65535"
    );
    assert_eq!(sender.send_fragmented("peer", &payload[..65535], 1).unwrap().len(), 65535);
    let mut over_ws = VynkorClient::new(TransportKind::Ws, None);
    assert_eq!(
        told(over_ws.send_fragmented("peer", &payload, 0).unwrap_err()),
        "fragmented frames are not supported over WebSocket (R5-03)"
    );
    assert_eq!(
        told(over_ws.send_fragmented("peer", &payload, usize::MAX).unwrap_err()),
        "fragmented frames are not supported over WebSocket (R5-03)"
    );
}

#[test]
fn raw_binary_frame_bypasses_protobuf() {
    let sender = uds(None);
    let mut receiver = uds(None);
    let pcm = vec![0x01u8, 0x02, 0x03, 0x04];
    let frame = receiver
        .recv_frame(sender.send_raw_audio("peer", pcm.clone()), now())
        .unwrap()
        .unwrap();
    assert_ne!(frame.flags & FLAG_RAW_BINARY, 0);
    assert_eq!(frame.payload, pcm);
}

#[test]
fn recv_errors_on_raw_binary_frame() {
    let sender = uds(None);
    let mut receiver = uds(None);
    let err = receiver
        .recv(sender.send_raw_audio("peer", vec![1, 2, 3]), now())
        .expect_err("raw frame decoded");
    assert!(err.describe().contains("raw-binary"));
    assert_eq!(told(err), "received raw-binary frame; use recv_frame() for audio");
}

#[test]
fn extra_flags_are_added() {
    let frame = uds(None).send_raw_with_flags("peer", 0x0100, vec![]);
    assert_eq!(frame.flags, 0x0100);
    let frame = secured(b"secret", "p").send_raw_with_flags("peer", 0x0100, vec![]);
    assert_eq!(frame.flags, 0x0101);
}

#[test]
fn websocket_offers() {
    assert_eq!(ws_protocol(""), "vynkor");
    assert_eq!(ws_protocol("a.b.c"), "vynkor, a.b.c");
}

#[test]
fn tokens_must_fit_a_header() {
    for token in ["", "a.b.c", "tab\there", "\u{e9}", "~ !"] {
        assert!(token_fits_header(token));
        assert_eq!(checked_ws_protocol(token).unwrap(), ws_protocol(token));
    }
    for token in ["a\nb", "a\rb", "\0", "\u{7f}", "\u{1f}"] {
        assert!(!token_fits_header(token));
        assert_eq!(
            told(checked_ws_protocol(token).unwrap_err()),
            "invalid jwt for ws header: failed to parse header value"
        );
    }
}

#[test]
fn raw_binary_is_discarded_while_a_request_waits() {
    let sender = secured(b"secret", "p");
    let mut client = secured(b"secret", "p");
    let id = "act-1-0".to_string();
    let deadline = Deadline::after(now(), 2000);
    let audio = sender.send_raw_audio("peer", vec![1, 2, 3]);
    assert_eq!(client.recv_awaited(audio, now()).unwrap(), None);
    assert_eq!(
        left(action_next(&id, deadline, Arrival::Other, Span::from_secs(101))),
        1_000_000_000
    );
    assert_eq!(
        left(publish_next(deadline, Arrival::Other, Span::from_secs(101))),
        1_000_000_000
    );
    let answer = sender.send_raw("peer", b"answer".to_vec());
    assert_eq!(client.recv_awaited(answer, now()).unwrap(), Some(b"answer".to_vec()));
    let own = Arrival::Message(response("act-1-0"));
    assert_eq!(done(action_next(&id, deadline, own, now())).unwrap().data_json, b"data");

    let mut fragments = secured(b"secret", "p").send_fragmented("peer", b"abc", 2).unwrap();
    assert_eq!(client.recv_awaited(fragments.remove(0), now()).unwrap(), None);
    assert_eq!(
        client.recv_awaited(fragments.remove(0), now()).unwrap(),
        Some(b"abc".to_vec())
    );
    let untagged = build_frame("", 0, b"x".to_vec());
    assert_eq!(
        told(client.recv_awaited(untagged, now()).unwrap_err()),
        "frame MAC verification failed"
    );
    let next = action_next(&id, deadline, Arrival::Other, Span::from_secs(102));
    assert!(matches!(next, Next::Done(Err(VynkorError::Timeout))));
}

#[test]
fn send_action_streaming_sets_streaming_flag_and_returns_action_id() {
    let client = uds(None);
    let mut ids = Sequence::new();
    let (action_id, message) = client.send_action_streaming(&mut ids, "upload", 5000, 3);
    assert!(action_id.starts_with("act-"));
    match for_kernel(message) {
        Payload::ActionRequest(req) => {
            assert_eq!(req.action_id, action_id);
            assert_eq!(req.action, "upload");
            assert!(req.streaming);
            assert_eq!(req.timeout_ms, 5000);
            assert!(req.params_json.is_empty() && req.caller_plugin_id.is_empty());
        }
        other => panic!("expected ActionRequest, got {other:?}"),
    }
}

#[test]
fn send_request_chunk_and_send_response_chunk_roundtrip() {
    let client = uds(None);
    match for_kernel(client.send_request_chunk("act-1", 0, b"hello".to_vec(), false)) {
        Payload::ActionRequestChunk(c) => {
            assert_eq!(c.action_id, "act-1");
            assert_eq!(c.seq, 0);
            assert_eq!(c.chunk, b"hello");
            assert!(!c.is_final);
        }
        other => panic!("expected ActionRequestChunk, got {other:?}"),
    }
    match for_kernel(client.send_response_chunk("kact-1", 3, b"world".to_vec())) {
        Payload::ActionResponseChunk(c) => {
            assert_eq!(c.action_id, "kact-1");
            assert_eq!(c.seq, 3);
            assert_eq!(c.chunk, b"world");
        }
        other => panic!("expected ActionResponseChunk, got {other:?}"),
    }
}

fn done<T>(next: Next<T>) -> Result<T, VynkorError> {
    match next {
        Next::Done(result) => result,
        Next::Wait(left) => panic!("waits for {left:?}"),
    }
}

fn left<T: std::fmt::Debug>(next: Next<T>) -> u128 {
    match next {
        Next::Wait(left) => left.as_nanos(),
        Next::Done(result) => panic!("done with {result:?}"),
    }
}

#[test]
fn send_action_returns_error_when_stream_aborted_for_its_action_id() {
    let client = uds(None);
    let mut ids = Sequence::new();
    let (action_id, message) = client.send_action(&mut ids, "upload", b"{}", 2000, 3);
    let sent_id = match for_kernel(message) {
        Payload::ActionRequest(req) => req.action_id,
        other => panic!("expected ActionRequest, got {other:?}"),
    };
    assert_eq!(sent_id, action_id);
    let deadline = Deadline::after(now(), 2000);
    let abort = |id: &str| {
        Arrival::Message(Envelope::bare(Payload::ActionStreamAbort(ActionStreamAbort {
            action_id: id.to_string(),
            reason: "receiver backpressure".to_string(),
        })))
    };
    let err = done(action_next(&action_id, deadline, abort(&sent_id), now()))
        .expect_err("expected an error");
    match err {
        VynkorError::Internal(msg) => {
            assert!(msg.contains("receiver backpressure"), "got: {msg}");
            assert_eq!(msg, "stream aborted: receiver backpressure");
        }
        other => panic!("expected Internal error, got {other:?}"),
    }
    assert_eq!(
        left(action_next(&action_id, deadline, abort("act-other"), Span::from_secs(101))),
        1_000_000_000
    );
}

fn response(action_id: &str) -> Envelope {
    Envelope::bare(Payload::ActionResponse(ActionResponse {
        action_id: action_id.to_string(),
        status: 1,
        data_json: b"data".to_vec(),
        error: String::new(),
    }))
}

#[test]
fn actions_wait_for_their_own_answer() {
    let id = "act-1-0".to_string();
    let deadline = Deadline::after(now(), 0);
    assert_eq!(left(action_next(&id, deadline, Arrival::Sent, now())), 30_000_000_000);
    let other = Arrival::Message(response("act-1-1"));
    assert_eq!(
        left(action_next(&id, deadline, other, Span::from_secs(129))),
        1_000_000_000
    );
    let own = Arrival::Message(response("act-1-0"));
    assert_eq!(done(action_next(&id, deadline, own, Span::from_secs(500))).unwrap().data_json, b"data");
    let failed = Arrival::Message(error("boom", "why"));
    assert_eq!(
        told(done(action_next(&id, deadline, failed, now())).unwrap_err()),
        "kernel error: boom (why)"
    );
}

#[test]
fn requests_time_out() {
    let id = "act-1-0".to_string();
    let deadline = Deadline::after(now(), 50);
    assert_eq!(left(action_next(&id, deadline, Arrival::Sent, now())), 50_000_000);
    for late in [Arrival::Sent, Arrival::Message(response("x"))] {
        let next = action_next(&id, deadline, late, Span::new(100, 50_000_000));
        assert!(matches!(next, Next::Done(Err(VynkorError::Timeout))));
    }
    let next = action_next(&id, deadline, Arrival::Nothing, now());
    assert!(matches!(next, Next::Done(Err(VynkorError::Timeout))));
    let next = publish_next(deadline, Arrival::Nothing, now());
    assert!(matches!(next, Next::Done(Err(VynkorError::Timeout))));
    assert!(matches!(deadline.remaining(Span::from_secs(101)), Err(VynkorError::Timeout)));
}

#[test]
fn publications_wait_for_their_acknowledgement() {
    let client = uds(None);
    match for_kernel(client.publish_event("weather.updated", b"{}")) {
        Payload::EventPublish(event) => {
            assert_eq!(event.event_type, "weather.updated");
            assert_eq!(event.payload_json, b"{}");
        }
        other => panic!("unexpected {other:?}"),
    }
    let deadline = Deadline::after(now(), 5_000);
    assert_eq!(
        left(publish_next(deadline, Arrival::Message(response("x")), now())),
        5_000_000_000
    );
    let ack = Envelope::bare(Payload::EventPublishAck(EventPublishAck {
        event_id: "e".to_string(),
        status: 2,
        error: "denied".to_string(),
    }));
    let ack = done(publish_next(deadline, Arrival::Message(ack), now())).unwrap();
    assert_eq!((ack.status, ack.error.as_str()), (2, "denied"));
    assert_eq!(
        told(done(publish_next(deadline, Arrival::Message(error("a", "b")), now())).unwrap_err()),
        "kernel error: a (b)"
    );
}

#[test]
fn close_session_sends_session_close_envelope() {
    match for_kernel(uds(None).close_session("act-1", "done")) {
        Payload::SessionClose(close) => {
            assert_eq!(close.action_id, "act-1");
            assert_eq!(close.reason, "done");
        }
        other => panic!("expected SessionClose, got {other:?}"),
    }
}

#[test]
fn session_close_does_not_end_an_action() {
    let close = Envelope::bare(Payload::SessionClose(SessionClose {
        action_id: "act-1".to_string(),
        reason: "client closed".to_string(),
    }));
    let deadline = Deadline::after(now(), 1);
    let next = action_next(&"act-1".to_string(), deadline, Arrival::Message(close), now());
    assert_eq!(left(next), 1_000_000);
}

#[test]
fn commands_and_pings_take_the_next_message() {
    let client = uds(None);
    match for_kernel(client.send_command("c1", "reload", b"{}")) {
        Payload::KernelCommand(command) => {
            assert_eq!(command.command_id, "c1");
            assert_eq!(command.command, "reload");
            assert_eq!(command.params_json, b"{}");
        }
        other => panic!("unexpected {other:?}"),
    }
    let ack = Envelope::bare(Payload::KernelCommandAck(KernelCommandAck {
        command_id: "c1".to_string(),
        status: 1,
        data_json: Vec::new(),
        error: String::new(),
    }));
    assert_eq!(command_reply(ack).unwrap().command_id, "c1");
    assert_eq!(told(command_reply(response("x")).unwrap_err()), "expected KernelCommandAck");

    match for_kernel(client.ping(44)) {
        Payload::Ping(ping) => assert_eq!(ping.timestamp, 44),
        other => panic!("unexpected {other:?}"),
    }
    let pong = Envelope::bare(Payload::Pong(Pong {
        original_timestamp: 44,
        server_timestamp: 45,
    }));
    let latency = ping_reply(pong, Span::from_millis(1_500), Span::from_millis(3_250)).unwrap();
    assert_eq!(latency.as_nanos(), 1_750_000_000);
    assert_eq!(told(ping_reply(response("x"), now(), now()).unwrap_err()), "expected Pong");
}

#[test]
fn plain_messages_for_the_kernel() {
    let client = uds(None);
    match for_kernel(client.subscribe(vec!["*".to_string()])) {
        Payload::Subscribe(m) => assert_eq!(m.event_types, vec!["*"]),
        other => panic!("unexpected {other:?}"),
    }
    match for_kernel(client.unsubscribe(vec!["a".to_string(), "b".to_string()])) {
        Payload::Unsubscribe(m) => assert_eq!(m.event_types, vec!["a", "b"]),
        other => panic!("unexpected {other:?}"),
    }
    match for_kernel(client.ack_event("evt-1")) {
        Payload::EventAck(m) => assert_eq!(m.event_id, "evt-1"),
        other => panic!("unexpected {other:?}"),
    }
    let chunk = AudioStreamChunk {
        stream_id: 5,
        codec: 1,
        sample_rate: 16000,
        channels: 1,
        data: vec![1, 2],
        end_of_stream: true,
    };
    let message = client.send_audio_chunk("speaker", chunk);
    assert_eq!(message.target, "speaker");
    assert!(matches!(message.envelope.payload, Some(Payload::AudioStreamChunk(c)) if c.stream_id == 5));
}

#[test]
fn fragmented_messages_arrive_amid_other_traffic() {
    let mut sender = secured(b"secret", "p");
    let mut receiver = secured(b"secret", "p");
    let mut first = sender.send_fragmented("peer", b"first message", 5).unwrap();
    let mut second = sender.send_fragmented("peer", b"second", 2).unwrap();
    assert_eq!((first.len(), second.len()), (3, 3));
    assert!(receiver.recv(first.remove(1), now()).unwrap().is_none());
    assert!(receiver.recv(second.remove(2), now()).unwrap().is_none());
    let single = sender.send_raw("peer", b"single".to_vec());
    assert_eq!(receiver.recv(single, now()).unwrap(), Some(b"single".to_vec()));
    assert!(receiver.recv(build_frame("peer", FLAG_FRAGMENTED, vec![0; 20]), now()).is_err());
    assert!(receiver.recv(second.remove(0), now()).unwrap().is_none());
    assert!(receiver.recv(first.remove(1), now()).unwrap().is_none());
    let short = sender.send_raw_with_flags("peer", FLAG_FRAGMENTED, vec![0; 3]);
    assert!(receiver.recv(short, now()).is_err());
    let raw = sender.send_raw_audio("peer", vec![1]);
    assert!(receiver.recv(raw, now()).is_err());
    assert_eq!(
        receiver.recv(first.remove(0), now()).unwrap(),
        Some(b"first message".to_vec())
    );
    assert_eq!(
        receiver.recv(second.remove(0), now()).unwrap(),
        Some(b"second".to_vec())
    );
}

#[test]
fn refused_frames_leave_messages_in_the_making() {
    let mut sender = secured(b"secret", "p");
    let mut receiver = secured(b"secret", "p");
    let mut frames = sender.send_fragmented("peer", b"abcd", 2).unwrap();
    let mut forged = sender.send_fragmented("peer", b"xxxx", 2).unwrap();
    assert!(receiver.recv(frames.remove(0), now()).unwrap().is_none());
    forged[0].payload[9] = 1;
    assert!(receiver.recv(forged.remove(0), now()).is_err());
    assert_eq!(receiver.recv(frames.remove(0), now()).unwrap(), Some(b"abcd".to_vec()));
}
