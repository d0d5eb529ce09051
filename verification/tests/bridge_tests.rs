use tacho_bridge::bridge::{
    apply_directive, is_json_plain, parse_inbound_frame, ping_resp_status, poll_err_update,
    poll_ok_update, process_rapdu_mqtt_hex, publish_directive, rewrite_topic, BridgeState,
    FrameDirective, KEEP_ALIVE_SECS, SLEEP_DURATION_SECS,
};

fn frame_of(json: &str) -> Option<tacho_bridge::bridge::InboundFrame> {
    parse_inbound_frame(&json.as_bytes().to_vec())
}

#[test]
fn parse_frame_reads_finish_and_payload() {
    let f = frame_of(r#"{"finish": false, "payload": "00A4"}"#).unwrap();
    assert!(!f.finish);
    assert_eq!(f.payload.as_deref(), Some("00A4"));

    let f = frame_of(r#"{"finish": true}"#).unwrap();
    assert!(f.finish);
    assert!(f.payload.is_none());
}

#[test]
fn parse_frame_drops_malformed_input() {
    assert!(frame_of("not json at all").is_none());
    assert!(frame_of(r#"{"payload": "00A4"}"#).is_none());
    assert!(frame_of(r#"{"finish": "yes"}"#).is_none());
}

#[test]
fn directive_for_malformed_frame_is_discard() {
    let d = publish_directive(&None, false);
    assert!(matches!(d, FrameDirective::Discard));
}

#[test]
fn directive_for_finish_is_finish_auth() {
    let f = frame_of(r#"{"finish": true}"#);
    assert!(matches!(publish_directive(&f, true), FrameDirective::FinishAuth));
}

#[test]
fn directive_for_empty_payload_seeds_atr() {
    let f = frame_of(r#"{"finish": false, "payload": ""}"#);
    match publish_directive(&f, false) {
        FrameDirective::SeedWithAtr { reconnect_first } => assert!(!reconnect_first),
        other => panic!("expected SeedWithAtr, got {:?}", other),
    }
    // An authentication cut short asks for a card reset first.
    let f = frame_of(r#"{"finish": false, "payload": ""}"#);
    match publish_directive(&f, true) {
        FrameDirective::SeedWithAtr { reconnect_first } => assert!(reconnect_first),
        other => panic!("expected SeedWithAtr, got {:?}", other),
    }
}

#[test]
fn directive_for_hex_payload_forwards_it() {
    let f = frame_of(r#"{"finish": false, "payload": "00A4040006"}"#);
    match publish_directive(&f, false) {
        FrameDirective::ForwardApdu { apdu_hex } => assert_eq!(apdu_hex, "00A4040006"),
        other => panic!("expected ForwardApdu, got {:?}", other),
    }
}

#[test]
fn directive_for_missing_payload_field_is_ack_empty() {
    let f = frame_of(r#"{"finish": false}"#);
    assert!(matches!(publish_directive(&f, false), FrameDirective::AckEmpty));
}

#[test]
fn fresh_bridge_empty_payload_replies_with_atr() {
    // An inbound frame {"finish": false, "payload": ""} on a freshly
    // connected bridge yields the ATR as the reply payload and an
    // online-but-not-authenticating status.
    let mut state = BridgeState::new();
    let first = poll_ok_update(&mut state);
    assert!(first.is_some());

    let f = frame_of(r#"{"finish": false, "payload": ""}"#);
    let d = publish_directive(&f, state.auth_process);
    let out = apply_directive(&mut state, &d, "3b6b00000031c06401", None);

    assert_eq!(out.reply.as_deref(), Some(r#"{"payload":"3b6b00000031c06401"}"#));
    assert!(!out.reconnect_card);
    let st = out.status.expect("a status is emitted");
    assert_eq!(st.online, Some(true));
    assert_eq!(st.authentication, Some(false));
    assert!(!state.auth_process);
}

#[test]
fn forwarded_command_replies_with_card_response() {
    // An inbound frame with a hex payload yields a reply carrying the
    // card's actual response, and authentication is now in progress.
    let mut state = BridgeState::new();
    let _ = poll_ok_update(&mut state);

    let f = frame_of(r#"{"finish": false, "payload": "00A4040006"}"#);
    let d = publish_directive(&f, state.auth_process);
    assert!(matches!(d, FrameDirective::ForwardApdu { .. }));

    // The application transmits the command and hands the response in.
    let out = apply_directive(&mut state, &d, "3b6b00000031c06401", Some("6f108408a000000018434d009000"));

    assert_eq!(out.reply.as_deref(), Some(r#"{"payload":"6f108408a000000018434d009000"}"#));
    assert!(!out.reconnect_card);
    let st = out.status.expect("a status is emitted");
    assert_eq!(st.online, Some(true));
    assert_eq!(st.authentication, Some(true));
    assert!(state.auth_process);
}

#[test]
fn finish_frame_resets_card_and_clears_auth() {
    let mut state = BridgeState::new();
    let _ = poll_ok_update(&mut state);
    state.auth_process = true;

    let f = frame_of(r#"{"finish": true}"#);
    let d = publish_directive(&f, state.auth_process);
    let out = apply_directive(&mut state, &d, "3b6b", None);

    assert_eq!(out.reply.as_deref(), Some(r#"{"payload":""}"#));
    assert!(out.reconnect_card);
    let st = out.status.expect("a status is emitted");
    assert_eq!(st.online, Some(true));
    assert_eq!(st.authentication, Some(false));
    assert!(!state.auth_process);
}

#[test]
fn discard_directive_changes_nothing() {
    let mut state = BridgeState::new();
    let _ = poll_ok_update(&mut state);
    let out = apply_directive(&mut state, &FrameDirective::Discard, "3b6b", None);
    assert!(out.reply.is_none());
    assert!(!out.reconnect_card);
    assert!(out.status.is_none());
}

#[test]
fn ack_empty_publishes_bare_empty_string() {
    let mut state = BridgeState::new();
    let out = apply_directive(&mut state, &FrameDirective::AckEmpty, "3b6b", None);
    assert_eq!(out.reply.as_deref(), Some(""));
    assert!(out.status.is_none());
}

#[test]
fn first_poll_success_announces_presence_once() {
    let mut state = BridgeState::new();
    let e1 = poll_ok_update(&mut state);
    let st = e1.expect("first success announces the card");
    assert_eq!(st.online, Some(true));
    assert_eq!(st.authentication, None);
    assert!(state.is_online);
    assert!(state.was_online);

    let e2 = poll_ok_update(&mut state);
    assert!(e2.is_none());
}

#[test]
fn poll_failure_goes_offline_and_reannounces_after_recovery() {
    let mut state = BridgeState::new();
    let _ = poll_ok_update(&mut state);

    let st = poll_err_update(&mut state);
    assert_eq!(st.online, Some(false));
    assert_eq!(st.authentication, None);
    assert!(!state.is_online);
    assert!(!state.was_online);

    // The next success announces the card again.
    let e = poll_ok_update(&mut state);
    assert!(e.is_some());
}

#[test]
fn ping_response_heartbeat() {
    let st = ping_resp_status();
    assert_eq!(st.online, Some(true));
    assert_eq!(st.authentication, Some(false));
}

#[test]
fn reply_wrapping_is_a_json_payload_object() {
    assert_eq!(process_rapdu_mqtt_hex("9000"), r#"{"payload":"9000"}"#);
    assert_eq!(process_rapdu_mqtt_hex(""), r#"{"payload":""}"#);
}

#[test]
fn json_plain_accepts_hex_and_rejects_quotes() {
    assert!(is_json_plain("3b6b00000031c06401"));
    assert!(is_json_plain(""));
    assert!(!is_json_plain("a\"b"));
    assert!(!is_json_plain("a\\b"));
    assert!(!is_json_plain("a\nb"));
}

#[test]
fn topic_rewrite_request_to_response() {
    assert_eq!(rewrite_topic("cards/CARD1/request/42"), "cards/CARD1/response/42");
    assert_eq!(rewrite_topic("no/match/here"), "no/match/here");
    assert_eq!(rewrite_topic("requestrequest"), "responseresponse");
    assert_eq!(rewrite_topic(""), "");
}

#[test]
fn backoff_and_keepalive_intervals() {
    assert_eq!(SLEEP_DURATION_SECS, 10);
    assert_eq!(KEEP_ALIVE_SECS, 120);
}
