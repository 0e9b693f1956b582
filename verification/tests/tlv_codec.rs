use matter::tlv::{decode_element, encode, TLVElement, TLVValue, TagType};

fn ctx(tag: u8, value: TLVValue) -> TLVElement {
    TLVElement { tag: TagType::Context(tag), value }
}

#[test]
fn test_encode_known_bytes() {
    // An anonymous struct holding one context-tagged byte.
    let e = TLVElement {
        tag: TagType::Anonymous,
        value: TLVValue::Struct(vec![ctx(0, TLVValue::U8(5))]),
    };
    assert_eq!(encode(&e), vec![0x15, 0x24, 0x00, 0x05, 0x18]);
}

#[test]
fn test_primitive_round_trips() {
    let cases: Vec<TLVValue> = vec![
        TLVValue::Bool(false),
        TLVValue::Bool(true),
        TLVValue::I8(-128),
        TLVValue::I8(127),
        TLVValue::I64(i64::MIN),
        TLVValue::I64(-1),
        TLVValue::U8(0xab),
        TLVValue::U16(0xcafe),
        TLVValue::U32(0xcafebabe),
        TLVValue::U64(0x0123456789abcdef),
        TLVValue::Utf8(b"hello".to_vec()),
        TLVValue::Str8(vec![1, 2, 3]),
        TLVValue::Str16(vec![9; 300]),
    ];
    for v in cases {
        let e = TLVElement { tag: TagType::Context(7), value: v };
        let bytes = encode(&e);
        let (d, used) = decode_element(&bytes, 0).unwrap();
        assert_eq!(used, bytes.len());
        // Semantically equal: the decoded element re-encodes identically.
        assert_eq!(encode(&d), bytes);
    }
}

#[test]
fn test_nested_round_trip() {
    let inner = TLVElement {
        tag: TagType::Context(1),
        value: TLVValue::List(vec![
            ctx(0, TLVValue::U16(0)),
            ctx(2, TLVValue::U32(49)),
            ctx(3, TLVValue::U16(12)),
        ]),
    };
    let e = TLVElement {
        tag: TagType::Anonymous,
        value: TLVValue::Struct(vec![
            inner,
            ctx(2, TLVValue::Array(vec![TLVElement {
                tag: TagType::Anonymous,
                value: TLVValue::Str8(vec![0xaa, 0xbb]),
            }])),
        ]),
    };
    let bytes = encode(&e);
    let (d, used) = decode_element(&bytes, 0).unwrap();
    assert_eq!(used, bytes.len());
    assert_eq!(encode(&d), bytes);
    // And the decoded values are navigable.
    let list = d.find_tag(1).unwrap();
    list.confirm_list().unwrap();
    assert_eq!(list.find_tag(2).unwrap().get_u32().unwrap(), 49);
    assert_eq!(list.find_tag(3).unwrap().get_u16().unwrap(), 12);
    let arr = d.find_tag(2).unwrap();
    arr.confirm_array().unwrap();
    assert_eq!(arr.children().unwrap()[0].get_slice().unwrap(), [0xaa, 0xbb]);
}

#[test]
fn test_decode_rejects_garbage() {
    // An element type this library does not support.
    assert!(decode_element(&[0x1f], 0).is_err());
    // Truncated length.
    assert!(decode_element(&[0x30, 0x01, 0x05], 0).is_err());
    // Unterminated container.
    assert!(decode_element(&[0x15, 0x24, 0x00, 0x05], 0).is_err());
    // Empty input.
    assert!(decode_element(&[], 0).is_err());
}

#[test]
fn test_signed_accessors() {
    let e = ctx(0, TLVValue::I8(-5));
    assert_eq!(e.get_i8().unwrap(), -5);
    assert!(e.get_i64().is_err());
    let bytes = encode(&e);
    let (d, _) = decode_element(&bytes, 0).unwrap();
    assert_eq!(d.get_i8().unwrap(), -5);
    let e = ctx(0, TLVValue::I64(-123456789));
    let bytes = encode(&e);
    let (d, _) = decode_element(&bytes, 0).unwrap();
    assert_eq!(d.get_i64().unwrap(), -123456789);
}

#[test]
fn test_get_uint_widens() {
    let e = ctx(0, TLVValue::U8(7));
    assert_eq!(e.get_uint().unwrap(), 7u64);
    let e = ctx(0, TLVValue::U64(u64::MAX));
    assert_eq!(e.get_uint().unwrap(), u64::MAX);
    let e = ctx(0, TLVValue::Bool(true));
    assert!(e.get_uint().is_err());
}
