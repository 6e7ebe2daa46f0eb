use vynkor_sdk::client::{TransportKind, VynkorClient};
use vynkor_sdk::concurrent::response_envelope;
use vynkor_sdk::confirmation_gate::{
    confirmation_request_reply, not_found, parse_pending_id, send_confirmation,
    send_confirmation_request, stored_as, validate_op, ConfirmationGate, Routed,
    DEFAULT_PENDING_TTL_SECS,
};
use vynkor_sdk::error::VynkorError;
use vynkor_sdk::ids::Sequence;
use vynkor_sdk::proto::{
    ActionRequest, ActionResponse, ActionRisk, ActionStatus, Envelope, Outgoing, Payload,
};
use vynkor_sdk::span::Span;

fn gate(confirm_callers: &[&str]) -> ConfirmationGate {
    ConfirmationGate::new(
        "transfer",
        "Move money",
        r#"{"type":"object"}"#,
        ActionRisk::Critical,
        confirm_callers,
    )
    .unwrap()
}

fn request(action: &str, action_id: &str, caller: &str, params_json: &[u8]) -> ActionRequest {
    ActionRequest {
        action_id: action_id.to_string(),
        action: action.to_string(),
        params_json: params_json.to_vec(),
        timeout_ms: 0,
        streaming: false,
        caller_plugin_id: caller.to_string(),
    }
}

fn response(envelope: Envelope) -> ActionResponse {
    assert_eq!(envelope.message_id, "");
    assert_eq!(envelope.timestamp, 0);
    assert_eq!(envelope.sender_id, "");
    match envelope.payload {
        Some(Payload::ActionResponse(resp)) => resp,
        other => panic!("expected ActionResponse, got {other:?}"),
    }
}

/// Routes one request and runs an operation that echoes its parameters.
fn run_at(
    gate: &mut ConfirmationGate,
    sequence: &mut Sequence,
    req: ActionRequest,
    now: Span,
) -> ActionResponse {
    match gate.route(req, sequence, now, 1_700_000_000_000) {
        Routed::Reply(envelope) => response(envelope),
        Routed::Execute { action_id, params } => response(response_envelope(action_id, Ok(params))),
    }
}

fn run(gate: &mut ConfirmationGate, sequence: &mut Sequence, req: ActionRequest) -> ActionResponse {
    run_at(gate, sequence, req, Span::from_secs(5))
}

fn pending_id_in(resp: &ActionResponse) -> String {
    let value: serde_json::Value = serde_json::from_slice(&resp.data_json).unwrap();
    value["pending_id"].as_str().unwrap().to_string()
}

#[test]
fn request_stores_pending_and_returns_pending_id() {
    let mut g = gate(&["phone-1"]);
    let mut seq = Sequence::new();
    let resp = run(
        &mut g,
        &mut seq,
        request(
            "request_transfer",
            "a1",
            "ai",
            br#"{"amount": 100, "to": "bob"}"#,
        ),
    );
    assert_eq!(resp.status, ActionStatus::ActionOk.code());
    let v: serde_json::Value = serde_json::from_slice(&resp.data_json).unwrap();
    let pending_id = v["pending_id"].as_str().unwrap();
    assert!(pending_id.starts_with("pending-"));
    assert_eq!(v["action"], "request_transfer");
    assert_eq!(g.pending_count(), 1);
    assert_eq!(v["ttl_secs"], 300);
    assert_eq!(pending_id, "pending-1700000000000-0");
    assert_eq!(resp.action_id, "a1");
    assert_eq!(resp.error, "");
}

#[test]
fn any_caller_can_request_even_one_not_allowed_to_confirm() {
    let mut g = gate(&["phone-1"]);
    let mut seq = Sequence::new();
    let resp = run(
        &mut g,
        &mut seq,
        request(
            "request_transfer",
            "a1",
            "some_other_plugin",
            br#"{"amount": 1}"#,
        ),
    );
    assert_eq!(resp.status, ActionStatus::ActionOk.code());
}

#[test]
fn approved_caller_confirms_and_executes_stored_params() {
    let mut g = gate(&["phone-1"]);
    let mut seq = Sequence::new();
    let resp = run(
        &mut g,
        &mut seq,
        request(
            "request_transfer",
            "a1",
            "ai",
            br#"{"amount": 42, "to": "bob"}"#,
        ),
    );
    let pending_id = pending_id_in(&resp);

    let confirm_params = format!(r#"{{"pending_id": "{pending_id}"}}"#);
    let resp = run(
        &mut g,
        &mut seq,
        request(
            "confirm_transfer",
            "a2",
            "phone-1",
            confirm_params.as_bytes(),
        ),
    );
    assert_eq!(resp.status, ActionStatus::ActionOk.code());
    assert_eq!(
        resp.data_json, br#"{"amount": 42, "to": "bob"}"#,
        "executor ran with the request-time params"
    );
    assert_eq!(g.pending_count(), 0, "confirmed pending is consumed");
}

#[test]
fn unapproved_caller_is_denied_even_for_a_real_pending_id() {
    let mut g = gate(&["phone-1"]);
    let mut seq = Sequence::new();
    let pending_resp = run(
        &mut g,
        &mut seq,
        request("request_transfer", "a1", "ai", br#"{"amount": 1}"#),
    );
    let pending_id = pending_id_in(&pending_resp);

    let confirm_params = format!(r#"{{"pending_id": "{pending_id}"}}"#);
    let resp = run(
        &mut g,
        &mut seq,
        request("confirm_transfer", "a2", "ai", confirm_params.as_bytes()),
    );
    assert_eq!(resp.status, ActionStatus::ActionError.code());
    assert!(
        resp.error.contains("permission denied"),
        "error was: {}",
        resp.error
    );
    assert!(
        resp.error.contains("ai"),
        "error should name the denied caller: {}",
        resp.error
    );
    assert!(
        !resp.error.contains(&pending_id),
        "denied callers must not learn pending ids: {}",
        resp.error
    );
    assert_eq!(g.pending_count(), 1);
}

#[test]
fn denial_lists_the_approved_callers() {
    let mut g = gate(&["phone-1", "host-ui"]);
    let mut seq = Sequence::new();
    let resp = run(
        &mut g,
        &mut seq,
        request("confirm_transfer", "a2", "ai", b"not json"),
    );
    assert_eq!(
        resp.error,
        "permission denied: caller ai may not confirm transfer (approved callers: phone-1, host-ui)"
    );
}

#[test]
fn prefix_glob_matches_all_sub_devices() {
    let mut g = gate(&["phone-1.*"]);
    let mut seq = Sequence::new();
    let resp = run(
        &mut g,
        &mut seq,
        request("request_transfer", "a1", "phone-1.mic", br#"{"amount": 1}"#),
    );
    let pending_id = pending_id_in(&resp);
    let confirm_params = format!(r#"{{"pending_id": "{pending_id}"}}"#);

    assert_eq!(
        run(
            &mut g,
            &mut seq,
            request(
                "confirm_transfer",
                "a2",
                "phone-1.geo",
                confirm_params.as_bytes(),
            ),
        )
        .status,
        ActionStatus::ActionOk.code()
    );
    let confirm_params = format!(r#"{{"pending_id": "{pending_id}"}}"#);
    assert_eq!(
        run(
            &mut g,
            &mut seq,
            request("confirm_transfer", "a3", "ai", confirm_params.as_bytes()),
        )
        .status,
        ActionStatus::ActionError.code()
    );
}

#[test]
fn unknown_or_missing_pending_id_errors() {
    let mut g = gate(&["phone-1"]);
    let mut seq = Sequence::new();
    let resp = run(
        &mut g,
        &mut seq,
        request(
            "confirm_transfer",
            "a1",
            "phone-1",
            br#"{"pending_id": "pending-does-not-exist"}"#,
        ),
    );
    assert_eq!(resp.status, ActionStatus::ActionError.code());
    assert!(resp.error.contains("no pending transfer request"));
    assert_eq!(
        resp.error,
        "no pending transfer request with id pending-does-not-exist"
    );

    let resp = run(
        &mut g,
        &mut seq,
        request("confirm_transfer", "a2", "phone-1", br#"{}"#),
    );
    assert_eq!(resp.status, ActionStatus::ActionError.code());
    assert!(resp.error.contains("pending_id"));
    assert_eq!(
        resp.error,
        "confirm params must include a string pending_id"
    );
}

#[test]
fn expired_pending_is_swept_and_cannot_be_confirmed() {
    let mut g = gate(&["phone-1"]).with_pending_ttl(Span::from_millis(10));
    let mut seq = Sequence::new();
    let resp = run_at(
        &mut g,
        &mut seq,
        request("request_transfer", "a1", "ai", br#"{"amount": 1}"#),
        Span::from_millis(1000),
    );
    let pending_id = pending_id_in(&resp);
    assert_eq!(g.pending_count(), 1);

    let confirm_params = format!(r#"{{"pending_id": "{pending_id}"}}"#);
    let resp = run_at(
        &mut g,
        &mut seq,
        request(
            "confirm_transfer",
            "a2",
            "phone-1",
            confirm_params.as_bytes(),
        ),
        Span::from_millis(1030),
    );
    assert_eq!(resp.status, ActionStatus::ActionError.code());
    assert!(resp.error.contains("no pending transfer request"));
    assert_eq!(g.pending_count(), 0, "expired entry swept");
}

#[test]
fn pending_expires_exactly_at_its_ttl() {
    for (late, status) in [
        (9_999_999u32, ActionStatus::ActionOk),
        (10_000_000u32, ActionStatus::ActionError),
    ] {
        let mut g = gate(&["phone-1"]).with_pending_ttl(Span::from_millis(10));
        let mut seq = Sequence::new();
        let resp = run_at(
            &mut g,
            &mut seq,
            request("request_transfer", "a1", "ai", b"p"),
            Span::from_secs(1),
        );
        let confirm_params = format!(r#"{{"pending_id": "{}"}}"#, pending_id_in(&resp));
        let resp = run_at(
            &mut g,
            &mut seq,
            request("confirm_transfer", "a2", "phone-1", confirm_params.as_bytes()),
            Span::new(1, late),
        );
        assert_eq!(resp.status, status.code());
    }
}

#[test]
fn unknown_actions_get_action_not_found() {
    let mut g = gate(&["phone-1"]);
    let mut seq = Sequence::new();
    let resp = run(
        &mut g,
        &mut seq,
        request("do_something_else", "a1", "ai", b"{}"),
    );
    assert_eq!(resp.status, ActionStatus::ActionNotFound.code());
    let resp = run(
        &mut g,
        &mut seq,
        request("request_other_op", "a2", "ai", b"{}"),
    );
    assert_eq!(resp.status, ActionStatus::ActionNotFound.code());
    assert_eq!(resp.error, "unknown action");
    assert_eq!(resp.action_id, "a2");
    assert_eq!(g.pending_count(), 0);
}

#[test]
fn manifest_entries_carry_confirmation_metadata() {
    let g = gate(&["phone-1"]);
    let (actions, specs) = g.manifest_entries();
    assert_eq!(actions, vec!["request_transfer", "confirm_transfer"]);

    let request_spec = specs.iter().find(|s| s.name == "request_transfer").unwrap();
    assert!(request_spec.requires_confirmation);
    assert_eq!(request_spec.risk, ActionRisk::Critical.code());
    assert_eq!(request_spec.params_schema, r#"{"type":"object"}"#);

    let confirm_spec = specs.iter().find(|s| s.name == "confirm_transfer").unwrap();
    assert!(!confirm_spec.requires_confirmation);
    assert!(confirm_spec.params_schema.contains("pending_id"));

    assert_eq!(
        request_spec.description,
        "Move money — requests execution; the operation only runs after an approved caller confirms (requires_confirmation)."
    );
    assert_eq!(
        confirm_spec.description,
        "Move money — executes a previously requested operation; only approved callers may invoke."
    );
    assert_eq!(
        confirm_spec.params_schema,
        r#"{"type":"object","properties":{"pending_id":{"type":"string"}},"required":["pending_id"]}"#
    );
}

#[test]
fn invalid_operations_are_rejected_at_construction() {
    assert!(ConfirmationGate::new("", "d", "{}", ActionRisk::Low, &["x"]).is_err());
    assert!(ConfirmationGate::new("bad op", "d", "{}", ActionRisk::Low, &["x"]).is_err());
    assert!(
        ConfirmationGate::new("request_x", "d", "{}", ActionRisk::Low, &["x"]).is_err(),
        "request_ prefix would collide with the names of the actions"
    );
    assert!(
        ConfirmationGate::new("ok-op", "d", "{}", ActionRisk::Low, &[]).is_err(),
        "empty confirm allowlist is rejected"
    );
    assert!(ConfirmationGate::new("ok-op", "", "{}", ActionRisk::Low, &["x"]).is_err());
    assert!(ConfirmationGate::new("ok-op", "d", "{}", ActionRisk::Low, &["x"]).is_ok());
}

#[test]
fn faults_of_an_operation_are_named() {
    let fault = |op: &str, description: &str, callers: &[&str]| {
        ConfirmationGate::new(op, description, "{}", ActionRisk::Low, callers)
            .err()
            .unwrap()
    };
    assert_eq!(fault("", "", &[]), "operation name must not be empty");
    assert_eq!(
        fault("b\u{e4}d", "d", &["x"]),
        "operation name may only contain ASCII alphanumerics, '-' and '_'"
    );
    let collision = fault("confirm_x", "d", &["x"]);
    assert!(collision.starts_with(
        "operation name must not start with request_/confirm_ (would collide with the "
    ));
    assert!(collision.ends_with("own action names)"));
    assert_eq!(fault("ok", "", &["x"]), "description must not be empty");
    assert_eq!(
        fault("ok", "d", &[]),
        "confirm_callers must name at least one caller allowed to confirm"
    );
    assert!(validate_op("A-z_09").is_ok());
}

#[test]
fn confirm_allowlist_matches_exact_and_glob() {
    let g = gate(&["phone-1", "host-ui"]);
    assert!(g.may_confirm("phone-1"));
    assert!(g.may_confirm("host-ui"));
    assert!(!g.may_confirm("phone-1.geo"));
    assert!(!g.may_confirm("ai"));

    let g = gate(&["phone-1.*"]);
    assert!(g.may_confirm("phone-1.mic"));
    assert!(g.may_confirm("phone-1.geo"));
    assert!(!g.may_confirm("phone-10.geo"), "prefix boundary is the dot");
    assert!(!g.may_confirm("phone-1"), "glob does not cover the bare id");
    assert!(!g.may_confirm("ai"));
}

#[test]
fn globs_cover_every_id_under_the_prefix() {
    let g = gate(&[".*"]);
    assert!(g.may_confirm(".a"));
    assert!(!g.may_confirm("a"));
    let g = gate(&["p\u{e9}.*"]);
    assert!(g.may_confirm("p\u{e9}.x"));
    assert!(!g.may_confirm("p\u{e9}"));
    let g = gate(&["*"]);
    assert!(g.may_confirm("*"));
    assert!(!g.may_confirm("x"));
}

#[test]
fn a_request_runs_once_only() {
    let mut g = gate(&["phone-1"]);
    let mut seq = Sequence::new();
    let resp = run(&mut g, &mut seq, request("request_transfer", "a1", "ai", b"p"));
    let confirm_params = format!(r#"{{"pending_id": "{}"}}"#, pending_id_in(&resp));
    let confirm = || request("confirm_transfer", "a2", "phone-1", confirm_params.as_bytes());
    assert_eq!(run(&mut g, &mut seq, confirm()).status, ActionStatus::ActionOk.code());
    let again = run(&mut g, &mut seq, confirm());
    assert_eq!(again.status, ActionStatus::ActionError.code());
    assert_eq!(
        again.error,
        "no pending transfer request with id pending-1700000000000-0"
    );
}

#[test]
fn requests_wait_side_by_side() {
    let mut g = gate(&["phone-1"]);
    let mut seq = Sequence::new();
    let first = run(&mut g, &mut seq, request("request_transfer", "a1", "ai", b"one"));
    let second = run(&mut g, &mut seq, request("request_transfer", "a2", "ai", b"two"));
    assert_eq!(g.pending_count(), 2);
    let id = pending_id_in(&second);
    assert_eq!(id, "pending-1700000000000-1");
    let params = format!(r#"{{"pending_id": "{id}", "amount": 9}}"#);
    let done = run(
        &mut g,
        &mut seq,
        request("confirm_transfer", "a3", "phone-1", params.as_bytes()),
    );
    assert_eq!(done.data_json, b"two");
    assert_eq!(done.action_id, "a3");
    assert_eq!(g.pending_count(), 1);
    let params = format!(r#"{{"pending_id": "{}"}}"#, pending_id_in(&first));
    let done = run(
        &mut g,
        &mut seq,
        request("confirm_transfer", "a4", "phone-1", params.as_bytes()),
    );
    assert_eq!(done.data_json, b"one");
}

#[test]
fn confirm_takes_what_was_read_from_the_parameters() {
    let mut g = gate(&["phone-1"]);
    let mut seq = Sequence::new();
    let stored = request("request_transfer", "a1", "ai", b"stored");
    let id = g.store_request(&stored, &mut seq, Span::from_secs(1), 77);
    assert_eq!(id, "pending-77-0");
    let confirm = |caller: &str| request("confirm_transfer", "a2", caller, b"ignored");

    match g.confirm(confirm("ai"), Ok(id.clone()), Span::from_secs(2)) {
        Routed::Reply(envelope) => assert!(response(envelope).error.starts_with("permission denied")),
        other => panic!("unexpected {other:?}"),
    }
    match g.confirm(confirm("phone-1"), Err("bad".to_string()), Span::from_secs(2)) {
        Routed::Reply(envelope) => assert_eq!(response(envelope).error, "bad"),
        other => panic!("unexpected {other:?}"),
    }
    match g.confirm(confirm("phone-1"), Ok(id), Span::from_secs(2)) {
        Routed::Execute { action_id, params } => {
            assert_eq!(action_id, "a2");
            assert_eq!(params, b"stored");
        }
        other => panic!("unexpected {other:?}"),
    }
}

#[test]
fn taking_a_pending_request_gives_back_what_was_stored() {
    let mut g = gate(&["phone-1"]);
    let mut seq = Sequence::new();
    let stored = request("request_transfer", "a1", "ai", b"stored");
    let id = g.store_request(&stored, &mut seq, Span::from_secs(1), 77);
    let taken = g.take_pending(&id, Span::from_secs(2)).unwrap();
    assert_eq!(taken.action, "request_transfer");
    assert_eq!(taken.params, b"stored");
    assert_eq!(taken.caller_plugin_id, "ai");
    assert_eq!(taken.created_at.as_secs(), 1);
    assert_eq!(
        g.take_pending(&id, Span::from_secs(2)).err().unwrap(),
        "no pending transfer request with id pending-77-0"
    );
}

#[test]
fn pending_ids_are_read_from_json() {
    assert_eq!(parse_pending_id(br#"{"pending_id":"p-1","x":1}"#).unwrap(), "p-1");
    assert_eq!(parse_pending_id(br#"{"pending_id":"A"}"#).unwrap(), "A");
    for params in [&b"{}"[..], b"[]", b"7", br#"{"pending_id":7}"#] {
        assert_eq!(
            parse_pending_id(params).err().unwrap(),
            "confirm params must include a string pending_id"
        );
    }
    let error = parse_pending_id(b"{").err().unwrap();
    let expected = serde_json::from_slice::<serde_json::Value>(b"{").err().unwrap();
    assert_eq!(error, format!("invalid confirm params: {expected}"));
}

#[test]
fn unknown_action_answer() {
    let resp = response(not_found("a9".to_string()));
    assert_eq!(resp.status, 5);
    assert_eq!(resp.error, "unknown action");
    assert!(resp.data_json.is_empty());
}

fn sent_request(message: Outgoing) -> ActionRequest {
    assert_eq!(message.target, "kernel");
    match message.envelope.payload {
        Some(Payload::ActionRequest(request)) => request,
        other => panic!("expected ActionRequest, got {other:?}"),
    }
}

#[test]
fn both_sides_of_a_confirmation_meet() {
    let client = VynkorClient::new(TransportKind::Uds, None);
    let mut ids = Sequence::new();
    let mut g = gate(&["phone-1"]);
    let mut seq = Sequence::new();

    let (id, message) = send_confirmation_request(&client, &mut ids, "transfer", b"{\"n\":1}", 9);
    assert_eq!(id, "act-9-0");
    let mut sent = sent_request(message);
    assert_eq!(sent.action, "request_transfer");
    assert_eq!(sent.params_json, b"{\"n\":1}");
    assert_eq!(sent.timeout_ms, 0);
    assert!(!sent.streaming);
    sent.caller_plugin_id = "ai".to_string();
    let answer = run(&mut g, &mut seq, sent);
    let pending_id = confirmation_request_reply("transfer", &answer).unwrap();

    let (id, message) = send_confirmation(&client, &mut ids, "transfer", &pending_id, 10);
    assert_eq!(id, "act-10-1");
    let mut sent = sent_request(message);
    assert_eq!(sent.action, "confirm_transfer");
    assert_eq!(
        sent.params_json,
        format!(r#"{{"pending_id":"{pending_id}"}}"#).into_bytes()
    );
    sent.caller_plugin_id = "phone-1".to_string();
    let done = run(&mut g, &mut seq, sent);
    assert_eq!(done.status, ActionStatus::ActionOk.code());
    assert_eq!(done.data_json, b"{\"n\":1}");
}

#[test]
fn odd_pending_ids_survive_the_parameters() {
    let client = VynkorClient::new(TransportKind::Uds, None);
    let mut ids = Sequence::new();
    let odd = "a\"b\\c\n\u{1F600}";
    let (_, message) = send_confirmation(&client, &mut ids, "transfer", odd, 0);
    assert_eq!(parse_pending_id(&sent_request(message).params_json).unwrap(), odd);
}

fn told(error: VynkorError) -> String {
    match error {
        VynkorError::Internal(message) => message,
        other => panic!("unexpected {other:?}"),
    }
}

#[test]
fn failed_requests_have_no_pending_id() {
    let answer = |status: ActionStatus, data: &[u8], error: &str| ActionResponse {
        action_id: "a".to_string(),
        status: status.code(),
        data_json: data.to_vec(),
        error: error.to_string(),
    };
    let reply = |response: ActionResponse| {
        told(confirmation_request_reply("transfer", &response).err().unwrap())
    };
    assert_eq!(
        reply(answer(ActionStatus::ActionError, br#"{"pending_id":"x"}"#, "boom")),
        "request_transfer failed: boom"
    );
    assert_eq!(
        reply(answer(ActionStatus::ActionOk, b"{}", "")),
        "pending response missing pending_id"
    );
    let fault = serde_json::from_slice::<serde_json::Value>(b"").err().unwrap();
    assert_eq!(
        reply(answer(ActionStatus::ActionOk, b"", "")),
        format!("invalid pending response: {fault}")
    );
    assert_eq!(
        told(stored_as("op", 1, &String::new(), Err("why".to_string())).err().unwrap()),
        "invalid pending response: why"
    );
    assert_eq!(
        stored_as("op", 1, &String::new(), Ok(Some("id".to_string()))).unwrap(),
        "id"
    );
}

#[test]
fn default_ttl_is_five_minutes() {
    assert_eq!(DEFAULT_PENDING_TTL_SECS, 300);
    assert_eq!(gate(&["x"]).op(), "transfer");
}

#[test]
fn expired_requests_do_not_pile_up() {
    let mut g = gate(&["phone-1"]).with_pending_ttl(Span::from_secs(10));
    let mut seq = Sequence::new();
    for second in 0..5 {
        let req = request("request_transfer", "a", "ai", b"p");
        run_at(&mut g, &mut seq, req, Span::from_secs(second));
    }
    assert_eq!(g.pending_count(), 5);
    let req = request("request_transfer", "a", "ai", b"p");
    run_at(&mut g, &mut seq, req, Span::from_secs(12));
    // Those of seconds 0, 1 and 2 are gone, the new one is there.
    assert_eq!(g.pending_count(), 3);
    // A refused caller and an unknown action forget nothing.
    let req = request("confirm_transfer", "a", "ai", br#"{"pending_id":"x"}"#);
    run_at(&mut g, &mut seq, req, Span::from_secs(500));
    run_at(&mut g, &mut seq, request("other", "a", "ai", b""), Span::from_secs(500));
    assert_eq!(g.pending_count(), 3);
}
