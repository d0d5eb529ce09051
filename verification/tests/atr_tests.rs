use tacho_bridge::atr::{parse_atr_and_get_protocol, parse_atr_bytes, Protocol};
use tacho_bridge::hexcodec::{decode_hex, encode_hex, encode_hex_upper};

#[test]
fn atr_td2_t1_overrides_td1_t0() {
    // Byte 1 announces TD1 only; TD1 names T=0 and announces TD2; TD2 names
    // T=1, which wins.
    assert_eq!(parse_atr_and_get_protocol("3b808001"), Protocol::T1);
}

#[test]
fn atr_td1_t1_without_td2() {
    assert_eq!(parse_atr_and_get_protocol("3b8001"), Protocol::T1);
}

#[test]
fn atr_td1_t0_without_td2() {
    assert_eq!(parse_atr_and_get_protocol("3b8000"), Protocol::T0);
}

#[test]
fn atr_without_td_bytes_defaults_t0() {
    assert_eq!(parse_atr_and_get_protocol("3b00"), Protocol::T0);
    // Y1 = 6 announces TB1 and TC1 but no TD1.
    assert_eq!(parse_atr_and_get_protocol("3b6b00000031c06401"), Protocol::T0);
}

#[test]
fn atr_with_interface_bytes_before_td1() {
    // Y1 = F: TA1, TB1, TC1 present, then TD1 = 01 -> T=1.
    assert_eq!(parse_atr_and_get_protocol("3bf111223301"), Protocol::T1);
}

#[test]
fn atr_skips_second_interface_bytes_before_td2() {
    // TD1 = 0x90: TA2 present and TD2 announced; TA2 = 0x55, TD2 = 0x01.
    assert_eq!(parse_atr_and_get_protocol("3b80905501"), Protocol::T1);
}

#[test]
fn atr_truncated_input_is_t0() {
    assert_eq!(parse_atr_and_get_protocol(""), Protocol::T0);
    assert_eq!(parse_atr_and_get_protocol("3b"), Protocol::T0);
    // TD1 announced but truncated away.
    assert_eq!(parse_atr_and_get_protocol("3b80"), Protocol::T0);
}

#[test]
fn atr_non_hex_input_is_t0() {
    assert_eq!(parse_atr_and_get_protocol("zz"), Protocol::T0);
    assert_eq!(parse_atr_and_get_protocol("3b8"), Protocol::T0);
    assert_eq!(parse_atr_and_get_protocol("3b 80"), Protocol::T0);
}

#[test]
fn atr_bytes_parser_matches_hex_entry() {
    let bytes = vec![0x3b, 0x80, 0x80, 0x01];
    assert_eq!(parse_atr_bytes(&bytes), Protocol::T1);
}

#[test]
fn hex_decode_accepts_both_cases() {
    assert_eq!(decode_hex("0a1B"), Some(vec![0x0a, 0x1b]));
    assert_eq!(decode_hex(""), Some(vec![]));
    assert_eq!(decode_hex("0a1"), None);
    assert_eq!(decode_hex("0g"), None);
}

#[test]
fn hex_encode_is_lowercase_pairs() {
    assert_eq!(encode_hex(&vec![0x01, 0x2a, 0xff]), "012aff");
    assert_eq!(encode_hex(&vec![]), "");
}

#[test]
fn hex_encode_upper_is_uppercase_pairs() {
    assert_eq!(encode_hex_upper(&vec![0x01, 0x2a, 0xff]), "012AFF");
}

#[test]
fn hex_round_trip() {
    let bytes = vec![0x00, 0x7f, 0x80, 0xff];
    assert_eq!(decode_hex(&encode_hex(&bytes)), Some(bytes));
}
