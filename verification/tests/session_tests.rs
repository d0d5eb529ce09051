use tacho_bridge::atr::Protocol;
use tacho_bridge::session::{classify_card_error, ManagedCard, SmartCardError, MAX_BUFFER_SIZE};

#[test]
fn recovery_first_transmit_success_is_returned() {
    let r = ManagedCard::send_apdu_outcome(Some("9000".to_string()), false, None);
    assert_eq!(r, "9000");
}

#[test]
fn recovery_retry_success_is_returned() {
    let r = ManagedCard::send_apdu_outcome(None, true, Some("6a82".to_string()));
    assert_eq!(r, "6a82");
}

#[test]
fn recovery_recreate_failure_yields_sentinel() {
    let r = ManagedCard::send_apdu_outcome(None, false, None);
    assert_eq!(r, "6F00");
}

#[test]
fn recovery_retry_failure_yields_sentinel() {
    let r = ManagedCard::send_apdu_outcome(None, true, None);
    assert_eq!(r, "6F00");
}

#[test]
fn new_session_has_no_identifier() {
    let card = ManagedCard::new("ACS ACR122", Protocol::T0);
    assert_eq!(card.reader_name, "ACS ACR122");
    assert_eq!(card.protocol, Protocol::T0);
    assert!(card.cached_iccid().is_none());
}

#[test]
fn identifier_is_set_exactly_once() {
    let mut card = ManagedCard::new("ACS ACR122", Protocol::T0);
    assert!(card.set_iccid_once("89440001".to_string()));
    assert_eq!(card.cached_iccid().as_deref(), Some("89440001"));
    assert!(!card.set_iccid_once("89449999".to_string()));
    assert_eq!(card.cached_iccid().as_deref(), Some("89440001"));
}

#[test]
fn iccid_strips_status_and_uppercases() {
    let r = ManagedCard::iccid_from_read_response("0123456789abcdef9000");
    assert_eq!(r.unwrap(), "0123456789ABCDEF");
}

#[test]
fn iccid_without_status_suffix_is_decoded_whole() {
    let r = ManagedCard::iccid_from_read_response("0a0b0c0d");
    assert_eq!(r.unwrap(), "0A0B0C0D");
}

#[test]
fn iccid_non_hex_is_a_decode_error() {
    let r = ManagedCard::iccid_from_read_response("zz9000");
    match r {
        Err(SmartCardError::Other(m)) => assert_eq!(m, "Failed to decode ICCID hex"),
        other => panic!("expected a decode error, got {:?}", other),
    }
}

#[test]
fn apdu_decode_accepts_hex_and_rejects_the_rest() {
    assert_eq!(ManagedCard::decode_apdu("00A4020C020002").unwrap(), vec![
        0x00, 0xa4, 0x02, 0x0c, 0x02, 0x00, 0x02
    ]);
    match ManagedCard::decode_apdu("00A") {
        Err(SmartCardError::Other(m)) => assert_eq!(m, "Decode error"),
        other => panic!("expected a decode error, got {:?}", other),
    }
}

#[test]
fn error_classification_by_message() {
    assert!(matches!(
        classify_card_error("pcsc: UnknownReader somewhere"),
        SmartCardError::UnknownReader
    ));
    match classify_card_error("the card was reset") {
        SmartCardError::Other(m) => assert_eq!(m, "the card was reset"),
        other => panic!("expected Other, got {:?}", other),
    }
}

#[test]
fn error_messages() {
    assert_eq!(SmartCardError::UnknownReader.message(), "UnknownReader");
    assert_eq!(SmartCardError::Other("busy".to_string()).message(), "Other: busy");
}

#[test]
fn response_buffer_is_large_enough_for_read_binary() {
    assert!(MAX_BUFFER_SIZE >= 258);
}
