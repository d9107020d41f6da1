use runeswap_solver::bus::{bus_step, BusAction, BusEvent, Flow, KEEPALIVE_INTERVAL_SECS};
use runeswap_solver::types::JsonRpcRequest;
use runeswap_solver::wire::{classify, subscribe_frame, FrameClass};

const NOTIF: &str = "{\"jsonrpc\":\"2.0\",\"method\":\"subscription\",\"params\":{\"subscription\":\"sub-1\",\"id\":\"i1\",\"from_token\":{\"symbol\":\"ETH\",\"address\":\"0xETH\",\"decimals\":18},\"to_token\":{\"symbol\":\"USDC\",\"address\":\"0xUSDC\",\"decimals\":6},\"amount\":\"1000000000000000000\",\"min_amount_out\":\"1900000000\",\"deadline\":1682661234}}";

#[test]
fn subscribe_request_round_trips_to_the_exact_frame() {
    assert_eq!(
        subscribe_frame(1),
        "{\"jsonrpc\":\"2.0\",\"id\":1,\"method\":\"subscribe\",\"params\":[\"intents\"]}"
    );
}

#[test]
fn subscribe_frame_renders_multi_digit_ids() {
    assert_eq!(
        subscribe_frame(1207),
        "{\"jsonrpc\":\"2.0\",\"id\":1207,\"method\":\"subscribe\",\"params\":[\"intents\"]}"
    );
}

#[test]
fn request_without_params_leaves_the_key_out() {
    let request = JsonRpcRequest {
        jsonrpc: "2.0".to_string(),
        id: 42,
        method: "status".to_string(),
        params: None,
    };
    assert_eq!(request.to_frame(), "{\"jsonrpc\":\"2.0\",\"id\":42,\"method\":\"status\"}");
}

#[test]
fn intent_notification_is_classified_with_its_intent() {
    match classify(NOTIF) {
        FrameClass::Envelope(m) => {
            assert_eq!(m.jsonrpc, "2.0");
            assert_eq!(m.method, "subscription");
            assert_eq!(m.params.subscription, "sub-1");
            let intent = m.params.intent.unwrap();
            assert_eq!(intent.id, "i1");
            assert_eq!(intent.from_token.symbol, "ETH");
            assert_eq!(intent.from_token.address, "0xETH");
            assert_eq!(intent.from_token.decimals, 18);
            assert_eq!(intent.to_token.symbol, "USDC");
            assert_eq!(intent.to_token.decimals, 6);
            assert_eq!(intent.amount, "1000000000000000000");
            assert_eq!(intent.min_amount_out, "1900000000");
            assert_eq!(intent.deadline, 1682661234);
        },
        other => panic!("expected an envelope, got {:?}", other),
    }
}

#[test]
fn envelope_without_intent_is_classified_without_one() {
    let text = "{\"jsonrpc\":\"2.0\",\"method\":\"subscription\",\"params\":{\"subscription\":\"sub-1\"}}";
    match classify(text) {
        FrameClass::Envelope(m) => {
            assert_eq!(m.method, "subscription");
            assert_eq!(m.params.subscription, "sub-1");
            assert!(m.params.intent.is_none());
        },
        other => panic!("expected an envelope, got {:?}", other),
    }
}

#[test]
fn confirmation_is_classified_with_id_and_result() {
    match classify("{\"jsonrpc\":\"2.0\",\"id\":1,\"result\":\"sub-1\"}") {
        FrameClass::Confirmation(r) => {
            assert_eq!(r.jsonrpc, "2.0");
            assert_eq!(r.id, 1);
            assert_eq!(r.result, "sub-1");
        },
        other => panic!("expected a confirmation, got {:?}", other),
    }
}

#[test]
fn whitespace_outside_strings_is_ignored() {
    let padded = "{ \"jsonrpc\": \"2.0\",\n  \"id\": 1,\n  \"result\": \"sub-1\"\n}";
    match classify(padded) {
        FrameClass::Confirmation(r) => {
            assert_eq!(r.id, 1);
            assert_eq!(r.result, "sub-1");
        },
        other => panic!("expected a confirmation, got {:?}", other),
    }

    let padded_envelope = "{\"jsonrpc\": \"2.0\", \"method\": \"subscription\", \"params\": {\"subscription\": \"sub 9\"}}";
    match classify(padded_envelope) {
        FrameClass::Envelope(m) => {
            assert_eq!(m.method, "subscription");
            assert_eq!(m.params.subscription, "sub 9");
            assert!(m.params.intent.is_none());
        },
        other => panic!("expected an envelope, got {:?}", other),
    }
}

#[test]
fn unrecognized_frames_are_malformed() {
    for text in [
        "",
        "not json",
        "{\"jsonrpc\":\"2.0\"}",
        "{\"jsonrpc\":\"2.0\",\"method\":\"subscription\",\"params\":{}}",
        "{\"jsonrpc\":\"2.0\",\"id\":99999999999999999999999999,\"result\":\"x\"}",
        "{\"jsonrpc\":\"2.0\",\"id\":1,\"result\":\"unterminated}",
        "{\"jsonrpc\":\"2.0\",\"id\":1,\"result\":\"x\"}trailing",
    ] {
        assert!(matches!(classify(text), FrameClass::Malformed), "{}", text);
    }
}

#[test]
fn malformed_frame_skipped_and_next_frame_still_dispatched() {
    let (flow, action) = bus_step(BusEvent::Text("garbage".to_string()));
    assert_eq!(flow, Flow::Continue);
    assert!(matches!(action, BusAction::SkipFrame));

    let (flow, action) = bus_step(BusEvent::Text(NOTIF.to_string()));
    assert_eq!(flow, Flow::Continue);
    match action {
        BusAction::Dispatch(intent) => assert_eq!(intent.id, "i1"),
        other => panic!("expected a dispatch, got {:?}", other),
    }
}

#[test]
fn response_envelope_is_noted_and_confirmation_recorded() {
    let response = "{\"jsonrpc\":\"2.0\",\"method\":\"response\",\"params\":{\"subscription\":\"sub-1\"}}";
    let (flow, action) = bus_step(BusEvent::Text(response.to_string()));
    assert_eq!(flow, Flow::Continue);
    assert!(matches!(action, BusAction::NoteResponse));

    let confirm = "{\"jsonrpc\":\"2.0\",\"id\":1,\"result\":\"sub-1\"}";
    let (flow, action) = bus_step(BusEvent::Text(confirm.to_string()));
    assert_eq!(flow, Flow::Continue);
    assert!(matches!(action, BusAction::RecordConfirmation(s) if s == "sub-1"));
}

#[test]
fn close_ends_cleanly_and_stream_failures_end_with_error() {
    let (flow, action) = bus_step(BusEvent::Close);
    assert_eq!(flow, Flow::StopClean);
    assert!(matches!(action, BusAction::Idle));

    assert_eq!(bus_step(BusEvent::ReadError).0, Flow::StopError);
    assert_eq!(bus_step(BusEvent::StreamEnd).0, Flow::StopError);
    assert_eq!(bus_step(BusEvent::SendFailed).0, Flow::StopError);
}

#[test]
fn keepalive_cadence_is_thirty_time_units() {
    assert_eq!(KEEPALIVE_INTERVAL_SECS, 30);
}

#[test]
fn keepalive_probes_are_answered_and_sent() {
    let (flow, action) = bus_step(BusEvent::Ping(vec![1, 2, 3]));
    assert_eq!(flow, Flow::Continue);
    assert!(matches!(action, BusAction::SendPong(d) if d == vec![1, 2, 3]));

    let (flow, action) = bus_step(BusEvent::Tick);
    assert_eq!(flow, Flow::Continue);
    assert!(matches!(action, BusAction::SendPing));

    let (flow, action) = bus_step(BusEvent::Pong(vec![]));
    assert_eq!(flow, Flow::Continue);
    assert!(matches!(action, BusAction::Idle));
}
