use tagproto::buffer::Buffer;
use tagproto::config::{Config, Field, Proto};
use tagproto::error::{make_extension_error, ErrorKind, RpError};
use tagproto::value::{get_name_by_type, get_type_by_name, get_value_type, get_vec_elem_type,
    Value};

#[test]
fn buffer_starts_empty() {
    let buffer = Buffer::new();
    assert_eq!(buffer.len(), 0);
    assert_eq!(buffer.get_read_pos(), 0);
    assert_eq!(buffer.get_write_pos(), 0);
    assert!(buffer.get_data().is_empty());
}

#[test]
fn buffer_write_appends_and_advances() {
    let mut buffer = Buffer::new();
    assert_eq!(buffer.write(&[1, 2, 3]), 3);
    assert_eq!(buffer.write(&[4]), 1);
    assert_eq!(buffer.get_data(), &vec![1, 2, 3, 4]);
    assert_eq!(buffer.get_write_pos(), 4);
    assert_eq!(buffer.get_read_pos(), 0);
}

#[test]
fn buffer_write_past_end_zero_extends() {
    let mut buffer = Buffer::new();
    buffer.set_write_pos(3);
    buffer.write(&[9]);
    assert_eq!(buffer.get_data(), &vec![0, 0, 0, 9]);
    assert_eq!(buffer.get_write_pos(), 4);
}

#[test]
fn buffer_write_overwrites_in_the_middle() {
    let mut buffer = Buffer::new();
    buffer.write(&[1, 2, 3, 4]);
    buffer.set_write_pos(1);
    buffer.write(&[8, 9]);
    assert_eq!(buffer.get_data(), &vec![1, 8, 9, 4]);
}

#[test]
fn buffer_read_is_bounded_and_advances() {
    let mut buffer = Buffer::new();
    buffer.write(&[10, 20, 30]);
    let mut out = vec![0u8; 2];
    assert_eq!(buffer.read(&mut out), 2);
    assert_eq!(out, vec![10, 20]);
    let mut out = vec![0u8; 5];
    assert_eq!(buffer.read(&mut out), 1);
    assert_eq!(out, vec![30, 0, 0, 0, 0]);
    assert_eq!(buffer.read(&mut out), 0);
}

#[test]
fn buffer_drain_rebases_cursors() {
    let mut buffer = Buffer::new();
    buffer.write(&[1, 2, 3, 4, 5]);
    buffer.set_read_pos(3);
    buffer.drain(2);
    assert_eq!(buffer.get_data(), &vec![3, 4, 5]);
    assert_eq!(buffer.get_read_pos(), 1);
    assert_eq!(buffer.get_write_pos(), 3);
}

#[test]
fn buffer_drain_collect_returns_the_prefix() {
    let mut buffer = Buffer::new();
    buffer.write(&[1, 2, 3, 4, 5]);
    buffer.set_read_pos(1);
    let removed = buffer.drain_collect(2);
    assert_eq!(removed, vec![1, 2]);
    assert_eq!(buffer.get_data(), &vec![3, 4, 5]);
    assert_eq!(buffer.get_read_pos(), 0);
}

#[test]
fn buffer_clear_resets_everything() {
    let mut buffer = Buffer::new();
    buffer.write(&[1, 2, 3]);
    buffer.set_read_pos(2);
    buffer.clear();
    assert_eq!(buffer.len(), 0);
    assert_eq!(buffer.get_read_pos(), 0);
    assert_eq!(buffer.get_write_pos(), 0);
}

#[test]
fn type_name_tables_are_inverse_on_known_codes() {
    let known: Vec<u16> = (1u16..=11).chain(21u16..=31).collect();
    for code in known {
        assert_eq!(get_type_by_name(get_name_by_type(code)), code);
    }
    assert_eq!(get_name_by_type(0), "null");
    assert_eq!(get_name_by_type(12), "null");
    assert_eq!(get_name_by_type(99), "null");
    assert_eq!(get_type_by_name("frob"), 0);
    assert_eq!(get_type_by_name("u32"), 5);
    assert_eq!(get_type_by_name("map[]"), 31);
}

#[test]
fn value_type_codes() {
    assert_eq!(get_value_type(&Value::Null), 0);
    assert_eq!(get_value_type(&Value::U8(1)), 1);
    assert_eq!(get_value_type(&Value::F64(0)), 8);
    assert_eq!(get_value_type(&Value::Str(String::new())), 9);
    assert_eq!(get_value_type(&Value::Dict(vec![])), 11);
    assert_eq!(get_value_type(&Value::VecMap(vec![])), 31);
    assert_eq!(get_vec_elem_type(&Value::VecU32(vec![])), 5);
    assert_eq!(get_vec_elem_type(&Value::VecMap(vec![])), 11);
    assert_eq!(get_vec_elem_type(&Value::U32(3)), 0);
}

#[test]
fn null_field_shape() {
    let f = Field::new_null();
    assert!(f.is_null_type());
    assert_eq!(f.index, 0);
    assert_eq!(f.pattern, "null");
    let g = Field::new("u32".to_string());
    assert!(!g.is_null_type());
    assert_eq!(g.index, 0);
}

#[test]
fn config_lookups() {
    let config = Config::new_from_map(
        vec![("a".to_string(), Field { index: 1, pattern: "u32".to_string() })],
        vec![(
            "ping".to_string(),
            Proto { msg_type: "call".to_string(), args: vec!["u32".to_string()] },
        )],
    );
    let f = config.get_field_by_name(&"a".to_string()).unwrap();
    assert_eq!(f.index, 1);
    let f = config.get_field_by_index(&1).unwrap();
    assert_eq!(f.pattern, "u32");
    assert_eq!(config.get_field_index_name(&1).unwrap(), "a");
    assert!(config.get_field_by_name(&"b".to_string()).is_none());
    assert!(config.get_field_by_index(&9).is_none());
    let p = config.get_proto_by_name(&"ping".to_string()).unwrap();
    assert_eq!(p.args.len(), 1);
    assert_eq!(config.get_proto_msg_type(&"ping".to_string()).unwrap(), "call");
    assert!(config.get_proto_by_name(&"pong".to_string()).is_none());

    let empty = Config::new_empty();
    assert!(empty.get_field_by_name(&"a".to_string()).is_none());
    assert!(empty.get_proto_by_name(&"ping".to_string()).is_none());
}

#[test]
fn error_kinds_and_extensions() {
    let e = RpError::new(ErrorKind::MissingError, "missing the name protocol");
    assert_eq!(e.kind(), ErrorKind::MissingError);
    assert_eq!(e.category(), "missing error");
    assert!(!e.is_io_error());
    assert!(e.extension_error_code().is_none());

    let x = make_extension_error("CODE7", Some("details here"));
    assert_eq!(x.kind(), ErrorKind::ExtensionError);
    assert_eq!(x.extension_error_code(), Some("CODE7"));
    assert_eq!(x.extension_error_detail(), Some("details here"));
    let y = make_extension_error("CODE7", None);
    assert_eq!(y.extension_error_detail(), Some("Unknown extension error encountered"));
    assert_eq!(x, y);
    let z = make_extension_error("OTHER", None);
    assert_ne!(x, z);

    let d = RpError::with_detail(ErrorKind::ParseError, "parse error", "line 3".to_string());
    assert_eq!(d.kind(), ErrorKind::ParseError);
    assert_eq!(d.extension_error_detail(), Some("line 3"));
    assert_ne!(d, e);
}

#[test]
fn value_conversions() {
    assert_eq!(Value::from(7u8), Value::U8(7));
    assert_eq!(Value::from(-3i8), Value::I8(-3));
    assert_eq!(Value::from(300u16), Value::U16(300));
    assert_eq!(Value::from(-300i16), Value::I16(-300));
    assert_eq!(Value::from(70000u32), Value::U32(70000));
    assert_eq!(Value::from(-70000i32), Value::I32(-70000));
    assert_eq!(Value::from("hi".to_string()), Value::Str("hi".to_string()));
    assert_eq!(Value::from(vec![1u8, 2]), Value::Raw(vec![1, 2]));
    assert_eq!(
        Value::from(vec![("k".to_string(), Value::U8(1))]),
        Value::Dict(vec![("k".to_string(), Value::U8(1))])
    );
}
