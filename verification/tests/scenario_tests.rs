//! End-to-end scenarios over the core's decision functions, with the
//! hardware and network outcomes played by the test.

use tacho_bridge::atr::{parse_atr_and_get_protocol, Protocol};
use tacho_bridge::bridge::{apply_directive, parse_inbound_frame, poll_ok_update, publish_directive, BridgeState};
use tacho_bridge::config::{CacheConfigData, CacheSection, CardConfig, CardEntry, get_from_cache};
use tacho_bridge::registry::{
    register_card, should_register_new_card, CardProcessingResult, ProcessingCard, Registry,
};
use tacho_bridge::session::ManagedCard;

#[test]
fn insertion_creates_exactly_one_registry_entry() {
    // A card appears in reader "ACS ACR122": the decision is Create, a
    // session is built, an identifier fetched, the card number resolved,
    // and the registry ends up with exactly one entry for that reader.
    let reader = "ACS ACR122";
    let atr = "3b6b00000031c06401022b";

    let mut registry = Registry::new();
    let (decision, removed) = should_register_new_card(&mut registry, reader, atr);
    assert_eq!(decision, CardProcessingResult::Create);
    assert!(removed.is_none());

    let protocol = parse_atr_and_get_protocol(atr);
    assert_eq!(protocol, Protocol::T0);
    let mut session = ManagedCard::new(reader, protocol);

    // The test plays the card: the read-binary exchange answers with the
    // identifier's bytes and a success status.
    let read_response = "8944500112345678999f9000";
    let iccid = ManagedCard::iccid_from_read_response(read_response).unwrap();
    assert_eq!(iccid, "8944500112345678999F");
    assert!(session.set_iccid_once(iccid.clone()));

    // The identifier-lookup collaborator: the runtime cache maps it to the
    // externally visible card number.
    let cache = CacheConfigData {
        cards: vec![CardEntry {
            card_number: "CARD1".to_string(),
            config: CardConfig { iccid: iccid.clone(), expire: None, name: None },
        }],
        server: None,
        ident: None,
        appearance: None,
    };
    let card_number = get_from_cache(&cache, CacheSection::Cards, &iccid);
    assert_eq!(card_number, "CARD1");

    let added = register_card(&mut registry, ProcessingCard {
        client_id: card_number,
        reader_name: Some(reader.to_string()),
        atr: Some(atr.to_string()),
        task_id: 7,
    });
    assert!(added);

    let for_reader: Vec<_> = registry
        .entries
        .iter()
        .filter(|e| e.reader_name.as_deref() == Some(reader))
        .collect();
    assert_eq!(for_reader.len(), 1);
    assert_eq!(for_reader[0].client_id, "CARD1");
}

#[test]
fn removal_aborts_task_and_then_ignores() {
    // Removing a reader's card (ATR becomes empty) while its entry is
    // present prunes the entry and hands it back for task abort; a second
    // status change with an empty ATR yields Ignore.
    let reader = "ACS ACR122";
    let atr = "3b6b00000031c06401022b";

    let mut registry = Registry::new();
    assert!(register_card(&mut registry, ProcessingCard {
        client_id: "CARD1".to_string(),
        reader_name: Some(reader.to_string()),
        atr: Some(atr.to_string()),
        task_id: 7,
    }));

    let (decision, removed) = should_register_new_card(&mut registry, reader, "");
    assert_eq!(decision, CardProcessingResult::Delete);
    let removed = removed.expect("the pruned entry comes back so its task can be aborted");
    assert_eq!(removed.task_id, 7);
    assert!(registry.entries.is_empty());

    let (decision, removed) = should_register_new_card(&mut registry, reader, "");
    assert_eq!(decision, CardProcessingResult::Ignore);
    assert!(removed.is_none());
}

#[test]
fn authentication_exchange_over_a_fresh_bridge() {
    // A freshly connected bridge seeds the server with the ATR, forwards
    // the first command, and finishes cleanly.
    let atr = "3b6b00000031c06401022b";
    let mut state = BridgeState::new();

    let announce = poll_ok_update(&mut state);
    assert_eq!(announce.unwrap().online, Some(true));

    // The server opens the exchange with an empty payload.
    let f = parse_inbound_frame(&br#"{"finish": false, "payload": ""}"#.to_vec());
    let d = publish_directive(&f, state.auth_process);
    let out = apply_directive(&mut state, &d, atr, None);
    assert_eq!(out.reply.as_deref(), Some(r#"{"payload":"3b6b00000031c06401022b"}"#));
    assert!(!state.auth_process);

    // It then sends a command; the card answers.
    let f = parse_inbound_frame(&br#"{"finish": false, "payload": "00a4040006ff544143484f"}"#.to_vec());
    let d = publish_directive(&f, state.auth_process);
    let card_answer = ManagedCard::send_apdu_outcome(Some("9000".to_string()), false, None);
    let out = apply_directive(&mut state, &d, atr, Some(card_answer.as_str()));
    assert_eq!(out.reply.as_deref(), Some(r#"{"payload":"9000"}"#));
    assert!(state.auth_process);

    // It closes the exchange.
    let f = parse_inbound_frame(&br#"{"finish": true}"#.to_vec());
    let d = publish_directive(&f, state.auth_process);
    let out = apply_directive(&mut state, &d, atr, None);
    assert_eq!(out.reply.as_deref(), Some(r#"{"payload":""}"#));
    assert!(out.reconnect_card);
    assert!(!state.auth_process);
}
