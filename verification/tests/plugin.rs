use vynkor_sdk::client::{TransportKind, VynkorClient};
use vynkor_sdk::error::VynkorError;
use vynkor_sdk::plugin::{
    non_empty, resolve_ws_credentials, Duty, Happening, ServeError, ServeLoop, WsCredentials,
};
use vynkor_sdk::proto::{
    Envelope, Event, Outgoing, Payload, Ping, PluginManifest, PluginRegisterAck, PluginShutdown,
    Pong,
};

fn s(v: &str) -> Option<String> {
    Some(v.to_string())
}

#[test]
fn device_pair_selects_device_credentials() {
    assert_eq!(
        resolve_ws_credentials(s("phone-1"), s("dev-secret"), None).unwrap(),
        WsCredentials::Device {
            device_id: "phone-1".into(),
            secret: "dev-secret".into()
        }
    );
}

#[test]
fn master_secret_alone_is_legacy_shared() {
    assert_eq!(
        resolve_ws_credentials(None, None, s("master")).unwrap(),
        WsCredentials::Shared("master".into())
    );
}

#[test]
fn nothing_set_is_unsecured() {
    assert_eq!(
        resolve_ws_credentials(None, None, None).unwrap(),
        WsCredentials::Unsecured
    );
}

#[test]
fn master_secret_next_to_device_pair_is_rejected() {
    let err = resolve_ws_credentials(s("phone-1"), s("dev-secret"), s("master"))
        .unwrap_err()
        .describe();
    assert!(err.contains("VYN_JWT_SECRET"), "{err}");
    assert_eq!(
        err,
        "internal error: VYN_JWT_SECRET is set alongside VYN_DEVICE_ID/VYN_DEVICE_SECRET — a paired device must not hold the host master secret; unset it"
    );
}

#[test]
fn half_device_pair_is_rejected_even_with_master_fallback() {
    for (id, secret) in [(s("phone-1"), None), (None, s("dev-secret"))] {
        assert!(resolve_ws_credentials(id.clone(), secret.clone(), None).is_err());
        // no silent downgrade to the shared path
        assert!(resolve_ws_credentials(id, secret, s("master")).is_err());
    }
}

#[test]
fn half_device_pair_is_named() {
    assert_eq!(
        resolve_ws_credentials(s("phone-1"), None, None).unwrap_err().describe(),
        "internal error: VYN_DEVICE_ID is set without VYN_DEVICE_SECRET"
    );
    assert_eq!(
        resolve_ws_credentials(None, s("x"), None).unwrap_err().describe(),
        "internal error: VYN_DEVICE_SECRET is set without VYN_DEVICE_ID"
    );
}

#[test]
fn empty_settings_are_not_set() {
    assert_eq!(non_empty(s("")), None);
    assert_eq!(non_empty(s("x")), s("x"));
    assert_eq!(non_empty(None), None);
}

fn ack(accepted: bool, reject_reason: &str) -> PluginRegisterAck {
    PluginRegisterAck {
        accepted,
        reject_reason: reject_reason.to_string(),
        granted_permissions: Vec::new(),
        session_nonce: Vec::new(),
    }
}

fn envelope_with_event(event_id: &str) -> Envelope {
    Envelope::bare(Payload::Event(Event {
        event_id: event_id.to_string(),
        event_type: "test.event".to_string(),
        payload_json: b"{}".to_vec(),
        retry_count: 0,
    }))
}

type Loop = ServeLoop<String>;

fn registered() -> Loop {
    let (serve, duty) = Loop::new().step(Happening::Registered(Ok(ack(true, ""))), 0);
    assert!(matches!(duty, Duty::Start));
    serve
}

fn serving() -> Loop {
    let (serve, duty) = registered().step(Happening::Started(Ok(())), 0);
    assert!(sent(duty).is_empty());
    serve
}

fn sent(duty: Duty<String>) -> Vec<Outgoing> {
    match duty {
        Duty::Receive(messages) => {
            for message in &messages {
                assert_eq!(message.target, "kernel");
            }
            messages
        }
        other => panic!("unexpected {other:?}"),
    }
}

#[test]
fn plugin_serve_loop_handles_ping_event_and_shutdown() {
    let client = VynkorClient::new(TransportKind::Uds, None);
    let message = client.register_full("test-plugin", "2.3.4", PluginManifest::default(), "");
    match message.envelope.payload {
        Some(Payload::PluginRegister(r)) => {
            assert_eq!(r.plugin_id, "test-plugin");
            assert_eq!(r.version, "2.3.4");
        }
        other => panic!("expected register, got {other:?}"),
    }

    let ping = Envelope::bare(Payload::Ping(Ping { timestamp: 12345 }));
    let (serve, duty) = serving().step(Happening::Received(Ok(ping)), 99);
    match sent(duty).remove(0).envelope.payload {
        Some(Payload::Pong(p)) => {
            assert_eq!(p.original_timestamp, 12345);
            assert_eq!(p.server_timestamp, 99);
        }
        other => panic!("expected pong, got {other:?}"),
    }

    let (serve, duty) = serve.step(Happening::Received(Ok(envelope_with_event("evt-42"))), 0);
    match duty {
        Duty::HandleEvent(event) => assert_eq!(event.event_id, "evt-42"),
        other => panic!("unexpected {other:?}"),
    }
    let (serve, duty) = serve.step(Happening::EventHandled(Ok(None)), 0);
    let mut messages = sent(duty);
    assert_eq!(messages.len(), 1);
    match messages.remove(0).envelope.payload {
        Some(Payload::EventAck(a)) => assert_eq!(a.event_id, "evt-42"),
        other => panic!("expected event ack, got {other:?}"),
    }

    let shutdown = Envelope::bare(Payload::PluginShutdown(PluginShutdown {
        reason: "test over".to_string(),
        grace_seconds: 0,
    }));
    let (serve, duty) = serve.step(Happening::Received(Ok(shutdown)), 0);
    assert!(matches!(duty, Duty::ShutDown));
    let (_, duty) = serve.step(Happening::ShutDown(Ok(())), 0);
    assert!(matches!(duty, Duty::Finish(Ok(()))));
}

fn pong() -> Envelope {
    Envelope::bare(Payload::Pong(Pong {
        original_timestamp: 0,
        server_timestamp: 0,
    }))
}

#[test]
fn plugin_serve_propagates_on_message_handler_error() {
    let serve = ServeLoop::<VynkorError>::new();
    let (serve, duty) = serve.step(Happening::Registered(Ok(ack(true, ""))), 0);
    assert!(matches!(duty, Duty::Start));
    let (serve, duty) = serve.step(Happening::Started(Ok(())), 0);
    assert!(matches!(duty, Duty::Receive(messages) if messages.is_empty()));
    let (serve, duty) = serve.step(Happening::Received(Ok(pong())), 0);
    assert!(matches!(duty, Duty::HandleMessage(_)));
    let (serve, duty) = serve.step(Happening::MessageHandled(Err(VynkorError::Timeout)), 0);
    assert!(
        matches!(duty, Duty::ShutDown),
        "on_shutdown must still run before the error propagates"
    );
    let (_, duty) = serve.step(Happening::ShutDown(Ok(())), 0);
    assert!(
        matches!(duty, Duty::Finish(Err(ServeError::Failed(VynkorError::Timeout)))),
        "handler error must propagate out of serve(), got {duty:?}"
    );
}

#[test]
fn a_failing_shutdown_hides_the_handler_error() {
    let (serve, _) = serving().step(Happening::Received(Ok(pong())), 0);
    let (serve, _) = serve.step(Happening::MessageHandled(Err("handler".to_string())), 0);
    let (_, duty) = serve.step(Happening::ShutDown(Err("shutdown".to_string())), 0);
    match duty {
        Duty::Finish(Err(ServeError::Failed(error))) => assert_eq!(error, "shutdown"),
        other => panic!("unexpected {other:?}"),
    }
}

#[test]
fn rejected_registrations_end_at_once() {
    let (_, duty) = Loop::new().step(Happening::Registered(Ok(ack(false, "bad token"))), 0);
    match duty {
        Duty::Finish(Err(ServeError::Rejected(VynkorError::PermissionDenied(reason)))) => {
            assert_eq!(reason, "registration rejected: bad token")
        }
        other => panic!("unexpected {other:?}"),
    }
    let (_, duty) = Loop::new().step(Happening::Registered(Err("gone".to_string())), 0);
    match duty {
        Duty::Finish(Err(ServeError::Failed(error))) => assert_eq!(error, "gone"),
        other => panic!("unexpected {other:?}"),
    }
}

#[test]
fn startup_failure_outlives_the_shutdown() {
    let (serve, duty) = registered().step(Happening::Started(Err("init".to_string())), 0);
    assert!(matches!(duty, Duty::ShutDown));
    let (_, duty) = serve.step(Happening::ShutDown(Err("shutdown".to_string())), 0);
    match duty {
        Duty::Finish(Err(ServeError::Failed(error))) => assert_eq!(error, "init"),
        other => panic!("unexpected {other:?}"),
    }
}

#[test]
fn failed_events_are_not_acknowledged() {
    let (serve, _) = serving().step(Happening::Received(Ok(envelope_with_event("e"))), 0);
    let (serve, duty) = serve.step(Happening::EventHandled(Err("no".to_string())), 0);
    assert!(sent(duty).is_empty());
    // The loop goes on; a reply follows the acknowledgement.
    let (serve, _) = serve.step(Happening::Received(Ok(envelope_with_event("f"))), 0);
    let reply = envelope_with_event("reply");
    let (_, duty) = serve.step(Happening::EventHandled(Ok(Some(reply))), 0);
    let messages = sent(duty);
    assert_eq!(messages.len(), 2);
    assert!(matches!(&messages[0].envelope.payload, Some(Payload::EventAck(a)) if a.event_id == "f"));
    assert!(matches!(&messages[1].envelope.payload, Some(Payload::Event(e)) if e.event_id == "reply"));
}

#[test]
fn replies_of_message_handlers_are_sent() {
    let message = Envelope::bare(Payload::Pong(Pong {
        original_timestamp: 1,
        server_timestamp: 2,
    }));
    let (serve, _) = serving().step(Happening::Received(Ok(message)), 0);
    let (serve, duty) = serve.step(
        Happening::MessageHandled(Ok(Some(envelope_with_event("reply")))),
        0,
    );
    assert_eq!(sent(duty).len(), 1);
    // Without a payload a message goes to the plugin too.
    let bare = Envelope {
        message_id: "m".to_string(),
        timestamp: 0,
        sender_id: String::new(),
        payload: None,
    };
    let (serve, duty) = serve.step(Happening::Received(Ok(bare)), 0);
    assert!(matches!(duty, Duty::HandleMessage(e) if e.message_id == "m"));
    let (serve, duty) = serve.step(Happening::MessageHandled(Ok(None)), 0);
    assert!(sent(duty).is_empty());
    let (serve, duty) = serve.step(Happening::Received(Err("eof".to_string())), 0);
    assert!(matches!(duty, Duty::ShutDown));
    let (_, duty) = serve.step(Happening::ShutDown(Ok(())), 0);
    assert!(matches!(duty, Duty::Finish(Ok(()))));
}
