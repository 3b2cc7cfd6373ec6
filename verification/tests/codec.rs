use cached_redis::codec::{envelope_decode, envelope_encode, format_u64, json_encode_u64, parse_u64};

#[test]
fn format_renders_canonical_decimal() {
    assert_eq!("0", format_u64(0).as_str());
    assert_eq!("7", format_u64(7).as_str());
    assert_eq!("100", format_u64(100).as_str());
    assert_eq!("18446744073709551615", format_u64(u64::MAX).as_str());
}

#[test]
fn json_encoding_matches_the_canonical_decimal() {
    // The serialized form is computed by the serializer, not copied
    // from the input, and must be the canonical decimal.
    assert_eq!("100", json_encode_u64(100).as_str());
    assert_eq!("0", json_encode_u64(0).as_str());
    assert_eq!(
        serde_json::to_string(&18446744073709551615u64).unwrap(),
        json_encode_u64(u64::MAX)
    );
}

#[test]
fn parse_accepts_exactly_canonical_decimals() {
    assert_eq!(Some(0), parse_u64("0"));
    assert_eq!(Some(100), parse_u64("100"));
    assert_eq!(Some(u64::MAX), parse_u64("18446744073709551615"));
    assert_eq!(None, parse_u64(""));
    assert_eq!(None, parse_u64("007"));
    assert_eq!(None, parse_u64("-1"));
    assert_eq!(None, parse_u64("1e3"));
    assert_eq!(None, parse_u64(" 100"));
    assert_eq!(None, parse_u64("100 "));
    // One past u64::MAX overflows.
    assert_eq!(None, parse_u64("18446744073709551616"));
}

#[test]
fn envelope_wraps_and_unwraps() {
    let e = envelope_encode("100");
    assert_eq!("{\"value\":100}", e.as_str());
    assert_eq!(Some("100"), envelope_decode(e.as_str()));
}

#[test]
fn envelope_rejects_other_shapes() {
    assert_eq!(None, envelope_decode(""));
    assert_eq!(None, envelope_decode("100"));
    assert_eq!(None, envelope_decode("{\"value\":100"));
    assert_eq!(None, envelope_decode("[\"value\":100]"));
    assert_eq!(None, envelope_decode("{\"other\":100}"));
}

#[test]
fn envelope_agrees_with_the_serializer() {
    // The envelope the adapter frames by hand is byte for byte what the
    // serializer produces for a one-field `{ value: v }` wrapper.
    let mut obj = serde_json::Map::new();
    obj.insert("value".to_string(), serde_json::Value::from(100u64));
    let reference = serde_json::to_string(&serde_json::Value::Object(obj)).unwrap();
    assert_eq!(reference, envelope_encode(json_encode_u64(100).as_str()));
}
