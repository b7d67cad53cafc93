#![allow(dead_code, unused_imports)]
use pumpkin_items::errors::NbtError;
use pumpkin_items::nbt_read::{NbtReadHelper, NbtReadHelperBedrock, NbtReadHelperJava};
use pumpkin_items::nbt_source::ByteCursor;
use pumpkin_items::nbt_tag::{NbtCompound, NbtTag};

const LIST_ID: u8 = 9;
const END_ID: u8 = 0;

#[test]
fn java_numeric_arrays_decode_big_endian_values() {
    let ints = [i32::MIN, -1, 0, 1, i32::MAX];
    let int_bytes: Vec<u8> = ints.iter().flat_map(|value| value.to_be_bytes()).collect();
    let mut reader = NbtReadHelperJava::new(ByteCursor::new(int_bytes.as_slice()));
    assert_eq!(reader.get_i32_array(ints.len()).unwrap(), ints);

    let longs = [i64::MIN, -1, 0, 1, i64::MAX];
    let long_bytes: Vec<u8> = longs.iter().flat_map(|value| value.to_be_bytes()).collect();
    let mut reader = NbtReadHelperJava::new(ByteCursor::new(long_bytes.as_slice()));
    assert_eq!(reader.get_i64_array(longs.len()).unwrap(), longs);
}

#[test]
fn java_allocation_accounting_matches_official_charge_formulas() {
    let mut compound = NbtCompound::new();
    compound.put("b", NbtTag::ByteArray(vec![1, 2]));
    compound.put("i", NbtTag::IntArray(vec![1, 2]));
    compound.put("l", NbtTag::LongArray(vec![1, 2]));
    compound.put("s", NbtTag::String("A😀".to_owned()));
    compound.put("list", NbtTag::List(vec![NbtTag::Byte(1), NbtTag::Byte(2)]));
    let mut bytes = Vec::new();
    NbtTag::Compound(compound).serialize(&mut bytes).unwrap();
    let expected = 48 + (66 * 4 + 72) + 26 + 32 + 40 + 42 + 62 + 8;
    for quota in [expected, expected + 1] {
        let mut reader = NbtReadHelperJava::with_quota(ByteCursor::new(bytes.as_slice()), quota);
        NbtTag::deserialize(&mut reader).unwrap();
        assert_eq!(reader.accounted(), expected);
    }
    let mut reader = NbtReadHelperJava::with_quota(ByteCursor::new(bytes.as_slice()), expected - 1);
    assert!(matches!(NbtTag::deserialize(&mut reader), Err(NbtError::NbtQuotaExceeded { .. })));
}

#[test]
fn java_allocation_accounting_preserves_depth_limit() {
    let mut bytes = Vec::new();
    bytes.push(LIST_ID);
    for _ in 0..514 {
        bytes.push(LIST_ID);
        bytes.extend_from_slice(&1i32.to_be_bytes());
    }
    bytes.push(END_ID);
    bytes.extend_from_slice(&0i32.to_be_bytes());
    let mut reader = NbtReadHelperJava::with_quota(ByteCursor::new(bytes.as_slice()), usize::MAX);
    assert!(matches!(NbtTag::deserialize(&mut reader), Err(NbtError::MaxDepthExceeded)));
}

#[test]
fn java_compound_charges_duplicate_keys_without_new_entry_cost() {
    let bytes = [1, 0, 1, b'a', 1, 1, 0, 1, b'a', 2, 0];
    let mut reader = NbtReadHelperJava::with_quota(ByteCursor::new(bytes.as_slice()), 168);
    let compound = NbtCompound::deserialize_content(&mut reader).unwrap();
    assert_eq!(compound.get_byte("a"), Some(2));
    assert_eq!(reader.accounted(), 168);
    let mut reader = NbtReadHelperJava::with_quota(ByteCursor::new(bytes.as_slice()), 167);
    assert!(matches!(
        NbtCompound::deserialize_content(&mut reader),
        Err(NbtError::NbtQuotaExceeded { .. })
    ));
}

fn put_var(bytes: &mut Vec<u8>, mut value: u64) {
    while value >= 0x80 {
        bytes.push((value & 0x7f) as u8 | 0x80);
        value >>= 7;
    }
    bytes.push(value as u8);
}

#[test]
fn bedrock_numeric_arrays_decode_zigzag_varints() {
    let ints = [i32::MIN, -1, 0, 1, i32::MAX];
    let longs = [i64::MIN, -1, 0, 1, i64::MAX];
    let mut bytes = Vec::new();
    for value in ints {
        put_var(&mut bytes, ((value << 1) ^ (value >> 31)) as u32 as u64);
    }
    for value in longs {
        put_var(&mut bytes, ((value << 1) ^ (value >> 63)) as u64);
    }
    bytes.push(123);

    let mut reader = NbtReadHelperBedrock::new(ByteCursor::new(bytes.as_slice()));
    assert_eq!(reader.get_i32_array(ints.len()).unwrap(), ints);
    assert_eq!(reader.get_i64_array(longs.len()).unwrap(), longs);
    assert_eq!(reader.get_u8().unwrap(), 123);
}

#[test]
fn tags_of_every_type_survive_their_binary_form() {
    let mut compound = NbtCompound::new();
    compound.put("byte", NbtTag::Byte(-1));
    compound.put("short", NbtTag::Short(-2));
    compound.put("int", NbtTag::Int(-3));
    compound.put("long", NbtTag::Long(-4));
    compound.put("float", NbtTag::Float(1.5f32.to_bits()));
    compound.put("double", NbtTag::Double((-2.25f64).to_bits()));
    compound.put("text", NbtTag::String("A\u{0}é🌱".to_owned()));
    compound.put("bytes", NbtTag::ByteArray(vec![-1, 0, 1]));
    compound.put("ints", NbtTag::IntArray(vec![i32::MIN, 7]));
    compound.put("longs", NbtTag::LongArray(vec![i64::MIN, 7]));
    compound.put("list", NbtTag::List(vec![NbtTag::Int(1), NbtTag::Int(2)]));
    let tag = NbtTag::Compound(compound);
    let mut bytes = Vec::new();
    tag.serialize(&mut bytes).unwrap();
    // A zero character and characters beyond the basic plane are spelt in Java's own way.
    assert!(bytes.windows(2).any(|w| w == [0xc0, 0x80]));
    let mut reader = NbtReadHelperJava::new(ByteCursor::new(bytes.as_slice()));
    assert_eq!(NbtTag::deserialize(&mut reader).unwrap(), tag);
}

#[test]
fn broken_input_is_told_apart() {
    let read = |bytes: &[u8]| NbtTag::deserialize(&mut NbtReadHelperJava::new(ByteCursor::new(bytes)));
    assert_eq!(read(&[]), Err(NbtError::Incomplete));
    assert_eq!(read(&[3, 0, 0]), Err(NbtError::Incomplete));
    assert_eq!(read(&[99]), Err(NbtError::UnknownTagId(99)));
    assert_eq!(read(&[7, 0xff, 0xff, 0xff, 0xff]), Err(NbtError::NegativeLength(-1)));
    assert_eq!(read(&[8, 0, 1, 0xff]), Err(NbtError::Cesu8DecodingError));
    let mut bedrock = NbtReadHelperBedrock::new(ByteCursor::new(&[0xff; 6]));
    assert_eq!(bedrock.get_i32(), Err(NbtError::VarIntTooLarge));
    let mut bedrock = NbtReadHelperBedrock::new(ByteCursor::new(&[0xff; 11]));
    assert_eq!(bedrock.get_i64(), Err(NbtError::VarLongTooLarge));
}

#[test]
fn skipping_moves_by_the_size_of_what_is_skipped() {
    let bytes: Vec<u8> = (0..40).collect();
    let mut reader = NbtReadHelperJava::new(ByteCursor::new(bytes.as_slice()));
    reader.skip_u8().unwrap();
    reader.skip_i16().unwrap();
    reader.skip_i32().unwrap();
    reader.skip_i64().unwrap();
    assert_eq!(reader.get_u8(), Ok(15));
    reader.skip_i8().unwrap();
    reader.skip_f32().unwrap();
    reader.skip_f64().unwrap();
    assert_eq!(reader.get_u8(), Ok(29));
    reader.skip_bytes(-30).unwrap();
    assert_eq!(reader.get_u8(), Ok(0));
    assert_eq!(reader.skip_bytes(-2), Err(NbtError::InvalidSeek));
    reader.skip_bytes(100).unwrap();
    assert_eq!(reader.get_u8(), Err(NbtError::Incomplete));
    let mut reader = NbtReadHelperJava::new(ByteCursor::new(&[0, 2, b'h', b'i', 7]));
    reader.skip_string().unwrap();
    assert_eq!(reader.get_u8(), Ok(7));
    let mut reader = NbtReadHelperBedrock::new(ByteCursor::new(&[2, b'h', b'i', 7, 1, 2]));
    reader.account(usize::MAX).unwrap();
    reader.skip_string().unwrap();
    assert_eq!(reader.get_i8(), Ok(7));
    assert_eq!(reader.get_i16(), Ok(0x0201));
    let mut reader = NbtReadHelperJava::with_quota(ByteCursor::new(&[]), 3);
    assert_eq!(reader.account(4), Err(NbtError::NbtQuotaExceeded { quota: 3 }));
    assert_eq!(reader.account(3), Ok(()));
}
