use guest_bridge::codec::{check_type, decode, encode, encoded_size, Value, ValueType};
use guest_bridge::error::BridgeError;
use guest_bridge::message::{localpart_type, Localpart};

fn same(a: &Value, b: &Value) -> bool {
    format!("{:?}", a) == format!("{:?}", b)
}

fn round_trip(v: &Value, t: &ValueType) {
    assert!(check_type(v, t));
    let bytes = encode(v);
    assert_eq!(encoded_size(v), Ok(bytes.len() as u32));
    let back = decode(t, &bytes).unwrap();
    assert!(same(&back, v), "{:?} came back as {:?}", v, back);
}

#[test]
fn round_trip_empty_tuple() {
    let v = Value::Tuple(vec![]);
    assert_eq!(encode(&v), Vec::<u8>::new());
    round_trip(&v, &ValueType::Tuple(vec![]));
}

#[test]
fn round_trip_primitives() {
    round_trip(&Value::Bool(true), &ValueType::Bool);
    round_trip(&Value::U8(200), &ValueType::U8);
    round_trip(&Value::U16(0xBEEF), &ValueType::U16);
    round_trip(&Value::U32(0xDEAD_BEEF), &ValueType::U32);
    round_trip(&Value::U64(u64::MAX - 1), &ValueType::U64);
    round_trip(&Value::I32(-5), &ValueType::I32);
    round_trip(&Value::I64(i64::MIN), &ValueType::I64);
    round_trip(&Value::Unit, &ValueType::Unit);
    round_trip(&Value::Bytes(b"hello".to_vec()), &ValueType::Bytes);
}

#[test]
fn round_trip_optional() {
    let t = ValueType::Optional(Box::new(ValueType::U16));
    round_trip(&Value::Optional(Some(Box::new(Value::U16(7)))), &t);
    round_trip(&Value::Optional(None), &t);
    assert_eq!(encode(&Value::Optional(None)), vec![0]);
    assert_eq!(encode(&Value::Optional(Some(Box::new(Value::U16(7))))), vec![1, 7, 0]);
}

#[test]
fn round_trip_tagged_union() {
    let lp = Localpart::Quoted { raw: b"\"a b\"".to_vec() };
    let v = lp.to_value();
    round_trip(&v, &localpart_type());
    let bytes = encode(&v);
    assert_eq!(&bytes[0..4], &[1, 0, 0, 0]);
    assert_eq!(&bytes[4..12], &[5, 0, 0, 0, 0, 0, 0, 0]);
    let back = decode(&localpart_type(), &bytes).unwrap();
    assert_eq!(Localpart::from_value(&back), Some(lp));
}

#[test]
fn round_trip_nested_tuple_with_mutable_fields() {
    let t = ValueType::Tuple(vec![
        ValueType::Bool,
        ValueType::Tuple(vec![ValueType::U8, ValueType::Sequence(Box::new(ValueType::I32))]),
        ValueType::I32,
        ValueType::I32,
    ]);
    let v = Value::Tuple(vec![
        Value::Bool(false),
        Value::Tuple(vec![Value::U8(3), Value::Sequence(vec![Value::I32(-1), Value::I32(2)])]),
        Value::I32(20),
        Value::I32(0),
    ]);
    round_trip(&v, &t);
    assert_eq!(encode(&v).len(), 1 + 1 + 8 + 8 + 4 + 4);
}

#[test]
fn encoding_is_fixed_width_little_endian() {
    assert_eq!(encode(&Value::U32(0x0102_0304)), vec![4, 3, 2, 1]);
    assert_eq!(encode(&Value::I32(-2)), vec![0xFE, 0xFF, 0xFF, 0xFF]);
    assert_eq!(
        encode(&Value::Bytes(vec![9, 8])),
        vec![2, 0, 0, 0, 0, 0, 0, 0, 9, 8]
    );
    assert_eq!(
        encode(&Value::Variant(2, Box::new(Value::U8(5)))),
        vec![2, 0, 0, 0, 5]
    );
}

#[test]
fn encoding_agrees_with_bincode() {
    assert_eq!(encode(&Value::U32(77)), bincode::serialize(&77u32).unwrap());
    assert_eq!(encode(&Value::I64(-3)), bincode::serialize(&-3i64).unwrap());
    assert_eq!(encode(&Value::Bool(true)), bincode::serialize(&true).unwrap());
    assert_eq!(
        encode(&Value::Optional(Some(Box::new(Value::U8(4))))),
        bincode::serialize(&Some(4u8)).unwrap()
    );
    assert_eq!(
        encode(&Value::Sequence(vec![Value::U16(1), Value::U16(2)])),
        bincode::serialize(&vec![1u16, 2u16]).unwrap()
    );
    assert_eq!(
        encode(&Value::Bytes(b"path".to_vec())),
        bincode::serialize(&b"path".to_vec()).unwrap()
    );
    assert_eq!(
        encode(&Value::Tuple(vec![Value::I32(5), Value::Bool(false)])),
        bincode::serialize(&(5i32, false)).unwrap()
    );
    assert_eq!(
        encode(&Value::Variant(1, Box::new(Value::U16(7)))),
        bincode::serialize(&Err::<u8, u16>(7)).unwrap()
    );
}

#[test]
fn decode_rejects_malformed_input() {
    assert_eq!(decode(&ValueType::U32, &[1, 2, 3]).unwrap_err(), BridgeError::EncodingError);
    assert_eq!(decode(&ValueType::U8, &[1, 2]).unwrap_err(), BridgeError::EncodingError);
    assert_eq!(decode(&ValueType::Bool, &[2]).unwrap_err(), BridgeError::EncodingError);
    let opt = ValueType::Optional(Box::new(ValueType::U8));
    assert_eq!(decode(&opt, &[3, 1]).unwrap_err(), BridgeError::EncodingError);
    assert_eq!(
        decode(&ValueType::Bytes, &[5, 0, 0, 0, 0, 0, 0, 0, 1]).unwrap_err(),
        BridgeError::EncodingError
    );
    let u = ValueType::Union(vec![ValueType::Unit]);
    assert_eq!(decode(&u, &[1, 0, 0, 0]).unwrap_err(), BridgeError::EncodingError);
    assert!(decode(&u, &[0, 0, 0, 0]).is_ok());
}

#[test]
fn check_type_rejects_mismatches() {
    assert!(!check_type(&Value::U8(1), &ValueType::U16));
    let t = ValueType::Tuple(vec![ValueType::U8, ValueType::Bool]);
    assert!(!check_type(&Value::Tuple(vec![Value::U8(1)]), &t));
    assert!(!check_type(&Value::Tuple(vec![Value::U8(1), Value::U8(0)]), &t));
    assert!(check_type(&Value::Tuple(vec![Value::U8(1), Value::Bool(true)]), &t));
    let u = ValueType::Union(vec![ValueType::U8]);
    assert!(!check_type(&Value::Variant(1, Box::new(Value::U8(0))), &u));
    let s = ValueType::Sequence(Box::new(ValueType::U8));
    assert!(!check_type(&Value::Sequence(vec![Value::U8(1), Value::Unit]), &s));
}

#[test]
fn encoded_size_matches_encoding() {
    let v = Value::Sequence(vec![
        Value::Bytes(vec![1, 2, 3]),
        Value::Bytes(vec![]),
    ]);
    assert_eq!(encoded_size(&v), Ok(8 + 11 + 8));
    assert_eq!(encode(&v).len(), 27);
}

#[test]
fn duplicates_are_equal() {
    let v = Value::Tuple(vec![
        Value::Optional(Some(Box::new(Value::Bytes(vec![1])))),
        Value::Variant(0, Box::new(Value::Unit)),
    ]);
    assert!(same(&v.duplicate(), &v));
    let t = ValueType::Sequence(Box::new(ValueType::Tuple(vec![ValueType::U8])));
    assert_eq!(format!("{:?}", t.duplicate()), format!("{:?}", t));
}

#[test]
fn localpart_values() {
    let lp = Localpart::Ascii { raw: b"postmaster".to_vec() };
    assert_eq!(lp.raw(), &b"postmaster".to_vec());
    let v = lp.to_value();
    assert_eq!(encode(&v)[0], 0);
    assert_eq!(Localpart::from_value(&v), Some(Localpart::Ascii { raw: b"postmaster".to_vec() }));
    assert_eq!(Localpart::from_value(&Value::Variant(4, Box::new(Value::Bytes(vec![])))), None);
    assert_eq!(Localpart::from_value(&Value::U8(0)), None);
    let u = Localpart::QuotedUtf8 { raw: "\"é\"" };
    assert_eq!(*u.raw(), "\"é\"");
}
