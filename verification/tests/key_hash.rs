use int2dds_ffi::data::{FieldValue, Int2DdsData};
use int2dds_ffi::key_hash::hash_value_direct;

fn parts() -> Vec<FieldValue> {
    vec![FieldValue::UInt16(0x0102), FieldValue::String("key".to_string()), FieldValue::Int64(-2), FieldValue::Bool(true)]
}

fn hash_in_turn(values: &[FieldValue], start: usize) -> ([u8; 16], usize) {
    let mut hash = [0u8; 16];
    let mut idx = start;
    for v in values {
        hash_value_direct(v, &mut hash, &mut idx);
    }
    (hash, idx)
}

#[test]
fn collections_hash_item_by_item() {
    let expected = hash_in_turn(&parts(), 5);
    for value in [FieldValue::Sequence(parts()), FieldValue::Array(parts())] {
        let mut hash = [0u8; 16];
        let mut idx = 5usize;
        hash_value_direct(&value, &mut hash, &mut idx);
        assert_eq!((hash, idx), expected);
    }
    assert_eq!(expected.1, 5 + 2 + 3 + 8 + 1);
}

#[test]
fn structs_hash_present_values_in_order() {
    let nested = Int2DdsData { values: vec![Some(FieldValue::UInt8(7)), None, Some(FieldValue::UInt32(0xAABBCCDD))] };
    let mut hash = [0u8; 16];
    let mut idx = 15usize;
    hash_value_direct(&FieldValue::Struct(Box::new(nested)), &mut hash, &mut idx);
    assert_eq!((hash, idx), hash_in_turn(&[FieldValue::UInt8(7), FieldValue::UInt32(0xAABBCCDD)], 15));
    assert_eq!(hash[15], 7);
    assert_eq!(&hash[0..4], &[0xDD, 0xCC, 0xBB, 0xAA]);
}
