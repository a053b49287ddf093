use tagproto::buffer::Buffer;
use tagproto::config::{Config, Field, Proto};
use tagproto::decode::{decode_field, decode_map, decode_number, decode_proto, decode_str_raw,
    read_field};
use tagproto::encode::{encode_field, encode_map, encode_number, encode_proto, encode_str_raw,
    write_field};
use tagproto::error::ErrorKind;
use tagproto::value::Value;

fn field(index: u16, pattern: &str) -> Field {
    Field { index, pattern: pattern.to_string() }
}

fn test_config() -> Config {
    let fields = vec![
        ("a".to_string(), field(1, "u32")),
        ("b".to_string(), field(2, "str")),
        ("x".to_string(), field(5, "i32")),
        ("nums".to_string(), field(6, "u32[]")),
        ("names".to_string(), field(7, "str[]")),
        ("inner".to_string(), field(8, "map")),
        ("blob".to_string(), field(9, "raw")),
        ("half".to_string(), field(10, "f32")),
    ];
    let protos = vec![
        (
            "ping".to_string(),
            Proto { msg_type: "call".to_string(), args: vec!["u32".to_string(), "str".to_string()] },
        ),
        ("nop".to_string(), Proto { msg_type: "call".to_string(), args: vec![] }),
    ];
    Config::new_from_map(fields, protos)
}

fn roundtrip_number(v: Value, code: u16) {
    let mut buffer = Buffer::new();
    encode_number(&mut buffer, &v).unwrap();
    let back = decode_number(&mut buffer, code).unwrap();
    assert_eq!(back, v);
}

#[test]
fn scalar_round_trips() {
    for v in [0u8, 1, 127, 255] {
        roundtrip_number(Value::U8(v), 1);
    }
    for v in [-128i8, -1, 0, 127] {
        roundtrip_number(Value::I8(v), 2);
    }
    for v in [0u16, 1, 0x1234, u16::MAX] {
        roundtrip_number(Value::U16(v), 3);
    }
    for v in [i16::MIN, -1, 0, i16::MAX] {
        roundtrip_number(Value::I16(v), 4);
    }
    for v in [0u32, 1, 0xDEAD_BEEF, u32::MAX] {
        roundtrip_number(Value::U32(v), 5);
    }
    for v in [i32::MIN, -42, 0, i32::MAX] {
        roundtrip_number(Value::I32(v), 6);
    }
}

#[test]
fn float_bits_pass_through_unchanged() {
    // the wire carries IEEE-754 bit patterns little-endian, symmetrically
    let bits = 1.5f32.to_bits();
    let mut buffer = Buffer::new();
    encode_number(&mut buffer, &Value::F32(bits)).unwrap();
    assert_eq!(buffer.get_data(), &vec![0x00, 0x00, 0xC0, 0x3F]);
    match decode_number(&mut buffer, 7).unwrap() {
        Value::F32(back) => assert_eq!(f32::from_bits(back), 1.5f32),
        other => panic!("wrong variant: {:?}", other),
    }
    let bits64 = (-2.25f64).to_bits();
    let mut buffer = Buffer::new();
    encode_number(&mut buffer, &Value::F64(bits64)).unwrap();
    match decode_number(&mut buffer, 8).unwrap() {
        Value::F64(back) => assert_eq!(f64::from_bits(back), -2.25f64),
        other => panic!("wrong variant: {:?}", other),
    }
}

#[test]
fn string_round_trips() {
    for s in ["", "hi", "hello world", "caf\u{e9} \u{1F600}"] {
        let mut buffer = Buffer::new();
        encode_str_raw(&mut buffer, &Value::Str(s.to_string())).unwrap();
        let back = decode_str_raw(&mut buffer, 9).unwrap();
        assert_eq!(back, Value::Str(s.to_string()));
    }
}

#[test]
fn raw_round_trips() {
    for len in [0usize, 1, 2, 255, 1000, 65535] {
        let blob: Vec<u8> = (0..len).map(|i| (i % 251) as u8).collect();
        let mut buffer = Buffer::new();
        encode_str_raw(&mut buffer, &Value::Raw(blob.clone())).unwrap();
        let back = decode_str_raw(&mut buffer, 10).unwrap();
        assert_eq!(back, Value::Raw(blob));
    }
}

#[test]
fn oversized_payload_is_refused() {
    let blob = vec![7u8; 65536];
    let mut buffer = Buffer::new();
    let err = encode_str_raw(&mut buffer, &Value::Raw(blob)).unwrap_err();
    assert_eq!(err.kind(), ErrorKind::BufferOverMaxError);
    assert_eq!(buffer.len(), 0);
}

#[test]
fn end_to_end_example() {
    // schema field "x": (5, "i32"); the map {"x": -42}
    let config = test_config();
    let value = Value::Dict(vec![("x".to_string(), Value::I32(-42))]);
    let mut buffer = Buffer::new();
    encode_map(&mut buffer, &config, &value).unwrap();
    assert_eq!(
        buffer.get_data(),
        &vec![0x05, 0x00, 0x06, 0x00, 0xD6, 0xFF, 0xFF, 0xFF, 0x00, 0x00, 0x00, 0x00]
    );
    let back = decode_map(&mut buffer, &config).unwrap();
    assert_eq!(back, value);
}

#[test]
fn map_round_trip() {
    let config = test_config();
    let value = Value::Dict(vec![
        ("a".to_string(), Value::U32(7)),
        ("b".to_string(), Value::Str("hi".to_string())),
    ]);
    let mut buffer = Buffer::new();
    encode_map(&mut buffer, &config, &value).unwrap();
    let back = decode_map(&mut buffer, &config).unwrap();
    assert_eq!(back, value);
}

#[test]
fn unknown_map_key_is_dropped() {
    let config = test_config();
    let value = Value::Dict(vec![
        ("a".to_string(), Value::U32(7)),
        ("zzz".to_string(), Value::U32(9)),
    ]);
    let mut buffer = Buffer::new();
    encode_map(&mut buffer, &config, &value).unwrap();
    let back = decode_map(&mut buffer, &config).unwrap();
    assert_eq!(back, Value::Dict(vec![("a".to_string(), Value::U32(7))]));
}

#[test]
fn unknown_field_index_is_skipped() {
    // a stream holding a field with index 99 (unknown), then field "a"
    let config = test_config();
    let mut buffer = Buffer::new();
    buffer.write(&[99, 0, 5, 0]); // tag: index 99, type u32
    buffer.write(&[0xEF, 0xBE, 0xAD, 0xDE]); // its payload, decoded and discarded
    buffer.write(&[1, 0, 5, 0]); // tag: index 1 ("a"), type u32
    buffer.write(&[7, 0, 0, 0]);
    buffer.write(&[0, 0, 0, 0]); // terminator
    let back = decode_map(&mut buffer, &config).unwrap();
    assert_eq!(back, Value::Dict(vec![("a".to_string(), Value::U32(7))]));
}

#[test]
fn map_entry_of_wrong_declared_type_is_refused() {
    let config = test_config();
    let value = Value::Dict(vec![("a".to_string(), Value::Str("oops".to_string()))]);
    let mut buffer = Buffer::new();
    let err = encode_map(&mut buffer, &config, &value).unwrap_err();
    assert_eq!(err.kind(), ErrorKind::TypeNotMatchError);
    assert_eq!(buffer.len(), 0);
}

#[test]
fn sequence_round_trip() {
    let config = test_config();
    let value = Value::VecU32(vec![Value::U32(1), Value::U32(2), Value::U32(3)]);
    let mut buffer = Buffer::new();
    encode_field(&mut buffer, &config, &value).unwrap();
    let back = decode_field(&mut buffer, &config).unwrap();
    assert_eq!(back, value);
}

#[test]
fn string_sequence_round_trip_inside_map() {
    let config = test_config();
    let value = Value::Dict(vec![(
        "names".to_string(),
        Value::VecStr(vec![Value::Str("ab".to_string()), Value::Str("".to_string())]),
    )]);
    let mut buffer = Buffer::new();
    encode_map(&mut buffer, &config, &value).unwrap();
    let back = decode_map(&mut buffer, &config).unwrap();
    assert_eq!(back, value);
}

#[test]
fn nested_map_round_trip() {
    let config = test_config();
    let inner = Value::Dict(vec![("b".to_string(), Value::Str("deep".to_string()))]);
    let value = Value::Dict(vec![("inner".to_string(), inner)]);
    let mut buffer = Buffer::new();
    encode_map(&mut buffer, &config, &value).unwrap();
    let back = decode_map(&mut buffer, &config).unwrap();
    assert_eq!(back, value);
}

#[test]
fn sequence_element_of_wrong_kind_is_refused() {
    let config = test_config();
    let value = Value::VecU32(vec![Value::U32(1), Value::Str("oops".to_string())]);
    let mut buffer = Buffer::new();
    let err = encode_field(&mut buffer, &config, &value).unwrap_err();
    assert_eq!(err.kind(), ErrorKind::TypeNotMatchError);
}

#[test]
fn protocol_round_trip() {
    let config = test_config();
    let args = vec![Value::U32(33), Value::Str("pong".to_string())];
    let mut buffer = Buffer::new();
    encode_proto(&mut buffer, &config, &"ping".to_string(), args).unwrap();
    let (name, back) = decode_proto(&mut buffer, &config).unwrap();
    assert_eq!(name, "ping");
    assert_eq!(back, vec![Value::U32(33), Value::Str("pong".to_string())]);
}

#[test]
fn protocol_argument_count_is_enforced_on_encode() {
    let config = test_config();
    for args in [
        vec![Value::U32(1)],
        vec![Value::U32(1), Value::Str("x".to_string()), Value::U32(3)],
    ] {
        let mut buffer = Buffer::new();
        let err = encode_proto(&mut buffer, &config, &"ping".to_string(), args).unwrap_err();
        assert_eq!(err.kind(), ErrorKind::TypeNotMatchError);
    }
}

#[test]
fn protocol_argument_count_is_enforced_on_decode() {
    let config = test_config();
    // "ping" declares two arguments; hand-build a stream with only one
    let mut buffer = Buffer::new();
    buffer.write(&[4, 0]); // name length
    buffer.write(b"ping");
    buffer.write(&[0, 0, 5, 0]); // tag: index 0, type u32
    buffer.write(&[1, 0, 0, 0]);
    buffer.write(&[0, 0, 0, 0]); // terminator
    let err = decode_proto(&mut buffer, &config).unwrap_err();
    assert_eq!(err.kind(), ErrorKind::TypeNotMatchError);
}

#[test]
fn unknown_protocol_name_is_refused() {
    let config = test_config();
    let mut buffer = Buffer::new();
    let err = encode_proto(&mut buffer, &config, &"boom".to_string(), vec![]).unwrap_err();
    assert_eq!(err.kind(), ErrorKind::MissingError);

    let mut buffer = Buffer::new();
    buffer.write(&[4, 0]);
    buffer.write(b"boom");
    buffer.write(&[0, 0, 0, 0]);
    let err = decode_proto(&mut buffer, &config).unwrap_err();
    assert_eq!(err.kind(), ErrorKind::TypeNotMatchError);
}

#[test]
fn truncated_scalar_fails_with_no_left_space() {
    let mut buffer = Buffer::new();
    buffer.write(&[0xAB, 0xCD]);
    let err = decode_number(&mut buffer, 5).unwrap_err();
    assert_eq!(err.kind(), ErrorKind::NoLeftSpaceError);
}

#[test]
fn truncated_string_fails_with_no_left_space() {
    let mut buffer = Buffer::new();
    buffer.write(&[10, 0]); // declares ten payload bytes
    buffer.write(&[1, 2, 3]); // only three available
    let err = decode_str_raw(&mut buffer, 9).unwrap_err();
    assert_eq!(err.kind(), ErrorKind::NoLeftSpaceError);
    assert!(buffer.get_read_pos() <= buffer.len());
}

#[test]
fn invalid_utf8_fails_with_string_format_error() {
    let mut buffer = Buffer::new();
    buffer.write(&[2, 0, 0xFF, 0xFE]);
    let err = decode_str_raw(&mut buffer, 9).unwrap_err();
    assert_eq!(err.kind(), ErrorKind::StringFormatError);
}

#[test]
fn empty_collections_encode_to_exactly_the_terminator() {
    let config = test_config();
    let terminator = vec![0u8, 0, 0, 0];

    let mut buffer = Buffer::new();
    encode_map(&mut buffer, &config, &Value::Dict(vec![])).unwrap();
    assert_eq!(buffer.get_data(), &terminator);
    assert_eq!(decode_map(&mut buffer, &config).unwrap(), Value::Dict(vec![]));

    let mut buffer = Buffer::new();
    encode_proto(&mut buffer, &config, &"nop".to_string(), vec![]).unwrap();
    assert_eq!(buffer.get_data(), &vec![3, 0, b'n', b'o', b'p', 0, 0, 0, 0]);
    let (name, args) = decode_proto(&mut buffer, &config).unwrap();
    assert_eq!(name, "nop");
    assert!(args.is_empty());
}

#[test]
fn empty_sequence_is_terminator_after_its_tag() {
    let config = test_config();
    let mut buffer = Buffer::new();
    encode_field(&mut buffer, &config, &Value::VecU32(vec![])).unwrap();
    // the field tag (index 0, u32[] = 25), then exactly the terminator
    assert_eq!(buffer.get_data(), &vec![0, 0, 25, 0, 0, 0, 0, 0]);
    assert_eq!(decode_field(&mut buffer, &config).unwrap(), Value::VecU32(vec![]));
}

#[test]
fn decode_field_of_terminator_is_null() {
    let config = test_config();
    let mut buffer = Buffer::new();
    buffer.write(&[0, 0, 0, 0]);
    assert_eq!(decode_field(&mut buffer, &config).unwrap(), Value::Null);
}

#[test]
fn read_and_write_field_agree() {
    let config = test_config();
    let mut buffer = Buffer::new();
    let wrote = write_field(&mut buffer, config.get_field_by_name(&"a".to_string())).unwrap();
    assert!(wrote);
    let wrote = write_field(&mut buffer, None).unwrap();
    assert!(!wrote);
    let f = read_field(&mut buffer).unwrap();
    assert_eq!(f.index, 1);
    assert_eq!(f.pattern, "u32");
    assert!(!f.is_null_type());
}

#[test]
fn float_sequence_round_trip() {
    let config = test_config();
    let value = Value::VecF32(vec![
        Value::F32(0.25f32.to_bits()),
        Value::F32((-1.0f32).to_bits()),
    ]);
    let mut buffer = Buffer::new();
    encode_field(&mut buffer, &config, &value).unwrap();
    let back = decode_field(&mut buffer, &config).unwrap();
    assert_eq!(back, value);
}

#[test]
fn sequence_of_maps_round_trip() {
    let config = test_config();
    let value = Value::VecMap(vec![
        Value::Dict(vec![("a".to_string(), Value::U32(1))]),
        Value::Dict(vec![("b".to_string(), Value::Str("two".to_string()))]),
    ]);
    let mut buffer = Buffer::new();
    encode_field(&mut buffer, &config, &value).unwrap();
    let back = decode_field(&mut buffer, &config).unwrap();
    assert_eq!(back, value);
}

#[test]
fn repeated_field_index_keeps_the_last_value() {
    let config = test_config();
    let mut buffer = Buffer::new();
    buffer.write(&[1, 0, 5, 0]); // tag: index 1 ("a"), type u32
    buffer.write(&[7, 0, 0, 0]);
    buffer.write(&[1, 0, 5, 0]); // the same field again
    buffer.write(&[9, 0, 0, 0]);
    buffer.write(&[0, 0, 0, 0]); // terminator
    let back = decode_map(&mut buffer, &config).unwrap();
    assert_eq!(back, Value::Dict(vec![("a".to_string(), Value::U32(9))]));
}

#[test]
fn negative_scalars_round_trip_through_field_framing() {
    let config = test_config();
    for v in [Value::I16(-1), Value::I8(-128), Value::I32(i32::MIN), Value::U16(0xFFFF)] {
        let mut buffer = Buffer::new();
        encode_field(&mut buffer, &config, &v).unwrap();
        let back = decode_field(&mut buffer, &config).unwrap();
        assert_eq!(back, v);
    }
}
