//! Tags as numbers.
use vstd::prelude::*;
use crate::bytes::{i32_of_u32, lemma_pow256};
use crate::float::{f32_of_f64, f32_of_int, f32_to_i32, f32_to_i64, f64_of_f32, f64_of_int, f64_to_i32, f64_to_i64};
use crate::nbt_tag::{NbtCompound, NbtTag};
use crate::persist::{flag_or, float_or, int_or, tag_f32, tag_f64, tag_i32, tag_i64};

verus! {

/// A number as an integer of 32 bits.
pub fn nbt_i32(tag: &NbtTag) -> (r: Option<i32>)
    ensures
        match r {
            Some(v) => tag_i32(tag@) == Some(v as int),
            None => tag_i32(tag@) is None,
        },
{
    match tag {
        NbtTag::Byte(v) => Some(*v as i32),
        NbtTag::Short(v) => Some(*v as i32),
        NbtTag::Int(v) => Some(*v),
        NbtTag::Long(v) => {
            let low: u64 = if *v < 0 {
                ((*v as i128 + 0x1_0000_0000_0000_0000) % 0x1_0000_0000) as u64
            } else {
                (*v % 0x1_0000_0000) as u64
            };
            assert(low == *v as int % 0x1_0000_0000);
            proof {
                lemma_pow256();
            }
            Some(i32_of_u32(low as u32))
        },
        NbtTag::Float(b) => Some(f32_to_i32(*b)),
        NbtTag::Double(b) => Some(f64_to_i32(*b)),
        _ => None,
    }
}

/// A number as an integer of 64 bits.
pub fn nbt_long(tag: &NbtTag) -> (r: Option<i64>)
    ensures
        match r {
            Some(v) => tag_i64(tag@) == Some(v as int),
            None => tag_i64(tag@) is None,
        },
{
    match tag {
        NbtTag::Byte(v) => Some(*v as i64),
        NbtTag::Short(v) => Some(*v as i64),
        NbtTag::Int(v) => Some(*v as i64),
        NbtTag::Long(v) => Some(*v),
        NbtTag::Float(b) => Some(f32_to_i64(*b)),
        NbtTag::Double(b) => Some(f64_to_i64(*b)),
        _ => None,
    }
}

/// A number as a floating-point number of 64 bits.
pub fn nbt_number_as_f64(tag: &NbtTag) -> (r: Option<u64>)
    ensures
        match r {
            Some(v) => tag_f64(tag@) == Some(v as int),
            None => tag_f64(tag@) is None,
        },
{
    match tag {
        NbtTag::Byte(v) => Some(f64_of_int(*v as i64)),
        NbtTag::Short(v) => Some(f64_of_int(*v as i64)),
        NbtTag::Int(v) => Some(f64_of_int(*v as i64)),
        NbtTag::Long(v) => Some(f64_of_int(*v)),
        NbtTag::Float(b) => Some(f64_of_f32(*b)),
        NbtTag::Double(b) => Some(*b),
        _ => None,
    }
}

/// A number as a floating-point number of 32 bits.
pub fn nbt_number_as_f32(tag: &NbtTag) -> (r: Option<u32>)
    ensures
        match r {
            Some(v) => tag_f32(tag@) == Some(v as int),
            None => tag_f32(tag@) is None,
        },
{
    match tag {
        NbtTag::Byte(v) => Some(f32_of_int(*v as i64)),
        NbtTag::Short(v) => Some(f32_of_int(*v as i64)),
        NbtTag::Int(v) => Some(f32_of_int(*v as i64)),
        NbtTag::Long(v) => Some(f32_of_int(*v)),
        NbtTag::Float(b) => Some(*b),
        NbtTag::Double(b) => Some(f32_of_f64(*b)),
        _ => None,
    }
}

/// The flag under a key, `default` where there is nothing.
pub fn get_flag_or(c: &NbtCompound, key: &str, default: bool) -> (r: Option<bool>)
    ensures
        r == flag_or(c@, key@, default),
{
    match c.get(key) {
        None => Some(default),
        Some(t) => match nbt_i32(t) {
            Some(v) => Some(crate::elements::low_byte(v) != 0),
            None => None,
        },
    }
}

/// The number under a key, `default` where there is nothing.
pub fn get_int_or(c: &NbtCompound, key: &str, default: i32) -> (r: Option<i32>)
    ensures
        match r {
            Some(v) => int_or(c@, key@, default as int) == Some(v as int),
            None => int_or(c@, key@, default as int) is None,
        },
{
    match c.get(key) {
        None => Some(default),
        Some(t) => nbt_i32(t),
    }
}

/// The floating-point number under a key, `default` where there is nothing.
pub fn get_float_or(c: &NbtCompound, key: &str, default: u32) -> (r: Option<u32>)
    ensures
        match r {
            Some(v) => float_or(c@, key@, default as int) == Some(v as int),
            None => float_or(c@, key@, default as int) is None,
        },
{
    match c.get(key) {
        None => Some(default),
        Some(t) => nbt_number_as_f32(t),
    }
}

} // verus!
