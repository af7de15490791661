//! Decoding inbound payloads and encoding outbound notices.

use react_gain::codec::{amp_text_bytes, decode_action, encode_outbound, DecodeError, OutboundMessage, UIAction};

fn decode(bytes: &[u8]) -> Result<UIAction, DecodeError> {
    decode_action(&bytes.to_vec())
}

#[test]
fn decodes_init() {
    assert_eq!(decode(b"{\"type\":\"init\"}"), Ok(UIAction::Init));
}

#[test]
fn decodes_init_with_whitespace() {
    assert_eq!(decode(b"  {\n\t\"type\" :\r \"init\" }  "), Ok(UIAction::Init));
}

#[test]
fn decodes_set_size() {
    assert_eq!(
        decode(b"{\"type\":\"set_size\",\"width\":900,\"height\":600}"),
        Ok(UIAction::SetSize { width: 900, height: 600 })
    );
}

#[test]
fn decodes_fields_in_any_order() {
    assert_eq!(
        decode(b"{\"width\":1024,\"height\":768,\"type\":\"set_size\"}"),
        Ok(UIAction::SetSize { width: 1024, height: 768 })
    );
}

#[test]
fn decodes_set_gain_fraction() {
    assert_eq!(
        decode(b"{\"type\":\"set_gain\",\"value\":0.5}"),
        Ok(UIAction::SetGain { value_micro: 500_000 })
    );
}

#[test]
fn decodes_set_gain_integer() {
    assert_eq!(
        decode(b"{\"type\":\"set_gain\",\"value\":10}"),
        Ok(UIAction::SetGain { value_micro: 10_000_000 })
    );
    assert_eq!(
        decode(b"{\"type\":\"set_gain\",\"value\":10.0}"),
        Ok(UIAction::SetGain { value_micro: 10_000_000 })
    );
}

#[test]
fn decodes_negative_gain_value() {
    assert_eq!(
        decode(b"{\"type\":\"set_gain\",\"value\":-0.25}"),
        Ok(UIAction::SetGain { value_micro: -250_000 })
    );
}

#[test]
fn gain_digits_beyond_the_sixth_are_ignored() {
    assert_eq!(
        decode(b"{\"type\":\"set_gain\",\"value\":0.1234567}"),
        Ok(UIAction::SetGain { value_micro: 123_456 })
    );
}

#[test]
fn missing_type_is_a_schema_error() {
    assert_eq!(decode(b"{\"value\":0.5}"), Err(DecodeError::Schema));
    assert_eq!(decode(b"{}"), Err(DecodeError::Schema));
}

#[test]
fn unknown_tag_is_a_schema_error() {
    assert_eq!(decode(b"{\"type\":\"bogus\"}"), Err(DecodeError::Schema));
}

#[test]
fn non_string_tag_is_a_schema_error() {
    assert_eq!(decode(b"{\"type\":3}"), Err(DecodeError::Schema));
}

#[test]
fn unknown_field_is_a_schema_error() {
    assert_eq!(decode(b"{\"type\":\"init\",\"extra\":1}"), Err(DecodeError::Schema));
}

#[test]
fn duplicate_field_is_a_schema_error() {
    assert_eq!(
        decode(b"{\"type\":\"init\",\"type\":\"init\"}"),
        Err(DecodeError::Schema)
    );
}

#[test]
fn missing_size_field_is_a_schema_error() {
    assert_eq!(
        decode(b"{\"type\":\"set_size\",\"width\":900}"),
        Err(DecodeError::Schema)
    );
}

#[test]
fn fractional_width_is_a_schema_error() {
    assert_eq!(
        decode(b"{\"type\":\"set_size\",\"width\":1.5,\"height\":2}"),
        Err(DecodeError::Schema)
    );
}

#[test]
fn width_must_fit_a_32_bit_word() {
    assert_eq!(
        decode(b"{\"type\":\"set_size\",\"width\":4294967295,\"height\":1}"),
        Ok(UIAction::SetSize { width: 4_294_967_295, height: 1 })
    );
    assert_eq!(
        decode(b"{\"type\":\"set_size\",\"width\":4294967296,\"height\":1}"),
        Err(DecodeError::Schema)
    );
}

#[test]
fn negative_width_is_a_schema_error() {
    assert_eq!(
        decode(b"{\"type\":\"set_size\",\"width\":-900,\"height\":600}"),
        Err(DecodeError::Schema)
    );
}

#[test]
fn broken_bytes_are_a_syntax_error() {
    assert_eq!(decode(b""), Err(DecodeError::Syntax));
    assert_eq!(decode(b"not json"), Err(DecodeError::Syntax));
    assert_eq!(decode(b"{\"type\":\"init\""), Err(DecodeError::Syntax));
    assert_eq!(decode(b"{\"type\":\"init\"}x"), Err(DecodeError::Syntax));
    assert_eq!(decode(b"[\"type\"]"), Err(DecodeError::Syntax));
    assert_eq!(decode(b"{\"type\":\"init\",}"), Err(DecodeError::Syntax));
}

#[test]
fn exponent_notation_is_not_accepted() {
    assert_eq!(decode(b"{\"type\":\"set_gain\",\"value\":1e3}"), Err(DecodeError::Syntax));
}

#[test]
fn oversized_integer_part_is_a_syntax_error() {
    assert_eq!(
        decode(b"{\"type\":\"set_gain\",\"value\":1000000000000}"),
        Err(DecodeError::Syntax)
    );
}

#[test]
fn encodes_set_size_notice() {
    let bytes = encode_outbound(&OutboundMessage::SetSizeNotice { width: 900, height: 600 });
    assert_eq!(bytes, b"{\"type\":\"set_size\",\"width\":900,\"height\":600}".to_vec());
}

#[test]
fn encodes_param_change_notice() {
    let bytes = encode_outbound(&OutboundMessage::ParamChangeNotice { value_micro: 500_000 });
    assert_eq!(
        bytes,
        b"{\"type\":\"param_change\",\"action\":\"set_gain\",\"value\":0.500000,\"text\":\"0.500000\"}"
            .to_vec()
    );
}

#[test]
fn amp_text_is_fixed_point() {
    assert_eq!(amp_text_bytes(1_000_000), b"1.000000".to_vec());
    assert_eq!(amp_text_bytes(1_000), b"0.001000".to_vec());
    assert_eq!(amp_text_bytes(123_456), b"0.123456".to_vec());
    assert_eq!(amp_text_bytes(0), b"0.000000".to_vec());
}

#[test]
fn encoded_notices_parse_as_json() {
    let size = encode_outbound(&OutboundMessage::SetSizeNotice { width: 900, height: 600 });
    let v: serde_json::Value = serde_json::from_slice(&size).unwrap();
    assert_eq!(v["type"], "set_size");
    assert_eq!(v["width"], 900);
    assert_eq!(v["height"], 600);

    let change = encode_outbound(&OutboundMessage::ParamChangeNotice { value_micro: 250_000 });
    let v: serde_json::Value = serde_json::from_slice(&change).unwrap();
    assert_eq!(v["type"], "param_change");
    assert_eq!(v["action"], "set_gain");
    assert_eq!(v["value"].as_f64().unwrap(), 0.25);
    assert_eq!(v["text"], "0.250000");
}

#[test]
fn encoded_size_notice_round_trips_through_the_decoder() {
    // The set-size notice has the same shape as the inbound resize action.
    let bytes = encode_outbound(&OutboundMessage::SetSizeNotice { width: 333, height: 77 });
    assert_eq!(
        decode_action(&bytes),
        Ok(UIAction::SetSize { width: 333, height: 77 })
    );
}
