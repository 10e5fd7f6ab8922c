use emu2rs::decode;
use emu2rs::decode_text;
use emu2rs::from_hex;
use emu2rs::from_hex_bool;
use emu2rs::from_hex_string;
use emu2rs::to_hex;
use emu2rs::to_point;
use emu2rs::DecodeError;
use emu2rs::InstantaneousDemand;
use emu2rs::Message;
use emu2rs::PriceCluster;

const DEMAND_FRAGMENT: &str = "<InstantaneousDemand><DeviceMacId>0xd8d5b90000011943</DeviceMacId><MeterMacId>0x00135005001c495d</MeterMacId><TimeStamp>0x2a74a349</TimeStamp><Demand>0x0004da</Demand><Multiplier>0x00000001</Multiplier><Divisor>0x000003e8</Divisor><DigitsRight>0x03</DigitsRight><DigitsLeft>0x0f</DigitsLeft><SuppressLeadingZero>Y</SuppressLeadingZero></InstantaneousDemand>";

const PRICE_FRAGMENT: &str = "<PriceCluster><DeviceMacId>0xd8d5b90000011943</DeviceMacId><MeterMacId>0x00135005001c495d</MeterMacId><TimeStamp>0x2a74a910</TimeStamp><Price>0x000025e1</Price><Currency>0x0348</Currency><TrailingDigits>0x05</TrailingDigits><Tier>0x00</Tier><StartTime>0x2a7382d0</StartTime><Duration>0x05a0</Duration><RateLabel></RateLabel></PriceCluster>";

fn expected_demand() -> InstantaneousDemand {
    InstantaneousDemand {
        device_mac_id: "0xd8d5b90000011943".to_string(),
        meter_mac_id: "0x00135005001c495d".to_string(),
        time_stamp: 0x2a74a349,
        demand: 0x0004da,
        multiplier: 1,
        divisor: 0x3e8,
        digits_right: 3,
        digits_left: 0xf,
        suppress_leading_zero: true,
    }
}

fn expected_price() -> PriceCluster {
    PriceCluster {
        device_mac_id: "0xd8d5b90000011943".to_string(),
        meter_mac_id: "0x00135005001c495d".to_string(),
        time_stamp: 0x2a74a910,
        price: 0x25e1,
        currency: 0x0348,
        trailing_digits: 5,
        start_time: 0x2a7382d0,
        duration: 0x05a0,
        rate_label: "".to_string(),
    }
}

#[test]
fn end_to_end_demand_fragment() {
    let msgs = decode(DEMAND_FRAGMENT.as_bytes()).expect("batch should decode");
    assert_eq!(msgs.len(), 1);
    assert_eq!(msgs[0], Message::InstantaneousDemand(expected_demand()));
    match &msgs[0] {
        Message::InstantaneousDemand(v) => {
            assert_eq!(v.demand, 1242);
            assert!(v.suppress_leading_zero);
        }
        _ => panic!("wrong variant"),
    }
    let p = to_point(&msgs[0]);
    assert_eq!(p.measurement, "instantaneous_demand");
    assert_eq!(p.meter, "0x00135005001c495d");
    assert_eq!(p.field_name, "demand");
    assert_eq!(p.field_value, 1242);
}

#[test]
fn price_fragment_decodes_and_ignores_unknown_children() {
    // The Tier child is not a field of the event and is passed over.
    let msgs = decode(PRICE_FRAGMENT.as_bytes()).expect("batch should decode");
    assert_eq!(msgs.len(), 1);
    assert_eq!(msgs[0], Message::PriceCluster(expected_price()));
    let p = to_point(&msgs[0]);
    assert_eq!(p.measurement, "price_cluster");
    assert_eq!(p.meter, "0x00135005001c495d");
    assert_eq!(p.field_name, "price");
    assert_eq!(p.field_value, 0x25e1);
}

#[test]
fn two_fragments_back_to_back_keep_order() {
    let mut text = String::new();
    text.push_str(DEMAND_FRAGMENT);
    text.push_str(PRICE_FRAGMENT);
    let msgs = decode(text.as_bytes()).expect("batch should decode");
    assert_eq!(msgs.len(), 2);
    assert_eq!(msgs[0], Message::InstantaneousDemand(expected_demand()));
    assert_eq!(msgs[1], Message::PriceCluster(expected_price()));
}

#[test]
fn unknown_tag_fails_whole_batch() {
    let mut text = String::new();
    text.push_str(DEMAND_FRAGMENT);
    text.push_str("<UnknownEvent><X>0x01</X></UnknownEvent>");
    let err = decode(text.as_bytes()).expect_err("unknown tag must fail the batch");
    match err {
        DecodeError::UnknownVariant(tag) => assert_eq!(tag, "UnknownEvent"),
        other => panic!("expected an unknown-variant error, got {:?}", other),
    }
}

#[test]
fn missing_field_fails_whole_batch() {
    let text = "<InstantaneousDemand><DeviceMacId>0x01</DeviceMacId></InstantaneousDemand>";
    let err = decode_text(text).expect_err("missing fields must fail the batch");
    match err {
        DecodeError::MissingField(name) => assert_eq!(name, "MeterMacId"),
        other => panic!("expected a missing-field error, got {:?}", other),
    }
}

#[test]
fn malformed_hex_field_fails_whole_batch() {
    let text = "<InstantaneousDemand><DeviceMacId>0x01</DeviceMacId><MeterMacId>0x02</MeterMacId><TimeStamp>0xzz</TimeStamp></InstantaneousDemand>";
    let err = decode_text(text).expect_err("a malformed field must fail the batch");
    match err {
        DecodeError::Field(name) => assert_eq!(name, "TimeStamp"),
        other => panic!("expected a field error, got {:?}", other),
    }
}

#[test]
fn truncated_fragment_is_a_syntax_error() {
    let text = "<InstantaneousDemand><DeviceMacId>0x01</DeviceMacId>";
    let err = decode_text(text).expect_err("a truncated fragment must fail");
    assert!(matches!(err, DecodeError::Syntax));
}

#[test]
fn invalid_utf8_is_an_encoding_error() {
    let bytes: Vec<u8> = vec![b'<', 0xff, 0xfe, b'>'];
    let err = decode(&bytes).expect_err("invalid UTF-8 must fail");
    assert!(matches!(err, DecodeError::Encoding));
}

#[test]
fn empty_batch_decodes_to_no_events() {
    let msgs = decode(b"").expect("an empty batch is zero fragments");
    assert!(msgs.is_empty());
    let msgs = decode_text("  \r\n ").expect("whitespace alone is zero fragments");
    assert!(msgs.is_empty());
}

#[test]
fn whitespace_between_fragments_is_accepted() {
    let mut text = String::new();
    text.push_str(DEMAND_FRAGMENT);
    text.push_str("\r\n");
    text.push_str(PRICE_FRAGMENT);
    text.push_str("\r\n");
    let msgs = decode(text.as_bytes()).expect("batch should decode");
    assert_eq!(msgs.len(), 2);
}

#[test]
fn duplicate_field_takes_first_occurrence() {
    let text = "<InstantaneousDemand><DeviceMacId>0x01</DeviceMacId><MeterMacId>0x02</MeterMacId><TimeStamp>0x00</TimeStamp><Demand>0x01</Demand><Demand>0x02</Demand><Multiplier>0x01</Multiplier><Divisor>0x01</Divisor><DigitsRight>0x00</DigitsRight><DigitsLeft>0x00</DigitsLeft><SuppressLeadingZero>N</SuppressLeadingZero></InstantaneousDemand>";
    let msgs = decode_text(text).expect("batch should decode");
    match &msgs[0] {
        Message::InstantaneousDemand(v) => assert_eq!(v.demand, 1),
        _ => panic!("wrong variant"),
    }
}

#[test]
fn mismatched_closing_tag_is_a_syntax_error() {
    let text = "<InstantaneousDemand><Demand>0x01</Price></InstantaneousDemand>";
    let err = decode_text(text).expect_err("a mismatched closing tag must fail");
    assert!(matches!(err, DecodeError::Syntax));
}

#[test]
fn hex_coercion_decodes_prefixed_values() {
    assert_eq!(from_hex("0x0004da"), Some(1242));
    assert_eq!(from_hex("0x0"), Some(0));
    assert_eq!(from_hex("0xFFFFFFFF"), Some(u32::MAX));
    assert_eq!(from_hex("0xAb"), Some(0xab));
}

#[test]
fn hex_coercion_rejects_malformed_values() {
    assert_eq!(from_hex(""), None);
    assert_eq!(from_hex("0"), None);
    assert_eq!(from_hex("0x"), None);
    assert_eq!(from_hex("0xzz"), None);
    assert_eq!(from_hex("0x12 "), None);
    assert_eq!(from_hex("0x100000000"), None);
}

#[test]
fn hex_coercion_strips_exactly_two_characters() {
    // The coercion drops the first two characters without checking them.
    assert_eq!(from_hex("zz12"), Some(0x12));
}

#[test]
fn hex_round_trips_through_encoding() {
    assert_eq!(to_hex(1242), "4da");
    assert_eq!(to_hex(0), "0");
    assert_eq!(to_hex(u32::MAX), "ffffffff");
    let v = from_hex("0x0004da").unwrap();
    let mut prefixed = String::from("0x");
    prefixed.push_str(&to_hex(v));
    assert_eq!(from_hex(&prefixed), Some(v));
}

#[test]
fn bool_coercion_is_true_only_for_capital_y() {
    assert!(from_hex_bool("Y"));
    assert!(!from_hex_bool("N"));
    assert!(!from_hex_bool(""));
    assert!(!from_hex_bool("y"));
    assert!(!from_hex_bool("YY"));
}

#[test]
fn string_coercion_passes_text_through() {
    assert_eq!(from_hex_string("0x00135005001c495d"), "0x00135005001c495d");
    assert_eq!(from_hex_string(""), "");
}

#[test]
fn overflowing_hex_field_fails_the_batch() {
    let text = "<InstantaneousDemand><DeviceMacId>0x01</DeviceMacId><MeterMacId>0x02</MeterMacId><TimeStamp>0x100000000</TimeStamp></InstantaneousDemand>";
    let err = decode_text(text).expect_err("a nine-digit value does not fit in 32 bits");
    match err {
        DecodeError::Field(name) => assert_eq!(name, "TimeStamp"),
        other => panic!("expected a field error, got {:?}", other),
    }
}

#[test]
fn bare_prefix_field_fails_the_batch() {
    let text = "<InstantaneousDemand><DeviceMacId>0x01</DeviceMacId><MeterMacId>0x02</MeterMacId><TimeStamp>0x</TimeStamp></InstantaneousDemand>";
    let err = decode_text(text).expect_err("a prefix with no digits is malformed");
    assert!(matches!(err, DecodeError::Field(_)));
}

#[test]
fn fragment_with_no_fields_reports_first_missing_field() {
    let text = "<InstantaneousDemand></InstantaneousDemand>";
    let err = decode_text(text).expect_err("every required field is absent");
    match err {
        DecodeError::MissingField(name) => assert_eq!(name, "DeviceMacId"),
        other => panic!("expected a missing-field error, got {:?}", other),
    }
}

#[test]
fn unknown_tag_alone_names_the_tag() {
    let err = decode_text("<A><X>0x01</X></A>").expect_err("the tag is not known");
    match err {
        DecodeError::UnknownVariant(tag) => assert_eq!(tag, "A"),
        other => panic!("expected an unknown-variant error, got {:?}", other),
    }
}
