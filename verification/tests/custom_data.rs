#![allow(dead_code, unused_imports)]
use pumpkin_items::basic::{CustomDataImpl, ItemNameImpl};
use pumpkin_items::codec::DataComponentCodec;
use pumpkin_items::elements::{ItemName, TextComponent};
use pumpkin_items::hash::{get_i32_hash, get_str_hash};
use pumpkin_items::nbt_tag::{NbtCompound, NbtTag};
use pumpkin_items::same::match_compounds;

fn hash(data: NbtCompound) -> i32 {
    CustomDataImpl::new(data).get_hash()
}

fn alike(a: &CustomDataImpl, b: &CustomDataImpl) -> bool {
    match_compounds(&a.data, &b.data, true)
}

fn garden() -> NbtTag {
    NbtTag::List(vec![NbtTag::String("one".to_owned()), NbtTag::String("🌱".to_owned())])
}

#[test]
fn matches_hashops_crc32c_for_compounds_and_nested_values() {
    assert_eq!(hash(NbtCompound::new()), -982_207_288);

    let list = || NbtTag::List(vec![NbtTag::Int(-5), NbtTag::String("🌱".to_owned())]);
    let mut first = NbtCompound::new();
    first.put("z", list());
    first.put("a", NbtTag::ByteArray(vec![-1, 0, 1]));
    let mut reverse = NbtCompound::new();
    reverse.put("a", NbtTag::ByteArray(vec![-1, 0, 1]));
    reverse.put("z", list());
    let first = CustomDataImpl::new(first);
    let reverse = CustomDataImpl::new(reverse);
    assert!(alike(&first, &reverse));
    assert_eq!(first.get_hash(), reverse.get_hash());

    let mut arrays = NbtCompound::new();
    arrays.put("ints", NbtTag::IntArray(vec![-1, 0, 1]));
    arrays.put("longs", NbtTag::LongArray(vec![i64::MIN, 1]));
    assert_ne!(hash(arrays), hash(NbtCompound::new()));
}

#[test]
fn equality_and_hash_distinguish_signed_zero() {
    let mut positive = NbtCompound::new();
    positive.put("f", NbtTag::Double(0.0f64.to_bits()));
    let mut negative = NbtCompound::new();
    negative.put("f", NbtTag::Double((-0.0f64).to_bits()));
    let positive = CustomDataImpl::new(positive);
    let negative = CustomDataImpl::new(negative);
    assert!(!alike(&positive, &negative));
    assert_ne!(positive.get_hash(), negative.get_hash());
}

#[test]
fn equality_matches_protocol_semantics_for_every_tag_variant() {
    let tags = [
        NbtTag::End,
        NbtTag::Byte(-1),
        NbtTag::Short(-2),
        NbtTag::Int(-3),
        NbtTag::Long(-4),
        NbtTag::Float((-0.0f32).to_bits()),
        NbtTag::Double((-0.0f64).to_bits()),
        NbtTag::ByteArray(vec![-1, 0, 1]),
        NbtTag::String("value".to_owned()),
        NbtTag::List(vec![NbtTag::Int(1), NbtTag::String("nested".to_owned())]),
        NbtTag::Compound({
            let mut compound = NbtCompound::new();
            compound.put("nested", NbtTag::Byte(1));
            compound
        }),
        NbtTag::IntArray(vec![-1, 0, 1]),
        NbtTag::LongArray(vec![-1, 0, 1]),
    ];
    for (index, tag) in tags.iter().enumerate() {
        let mut left = NbtCompound::new();
        left.put("tag", tag.copy());
        let mut right = NbtCompound::new();
        right.put("tag", tag.copy());
        assert!(alike(&CustomDataImpl::new(left), &CustomDataImpl::new(right)), "tag {index}");
    }
}

#[test]
fn nan_payloads_compare_equal_and_hash_canonically() {
    let mut left = NbtCompound::new();
    left.put("float", NbtTag::Float(0x7fc0_0001));
    left.put("double", NbtTag::Double(0x7ff8_0000_0000_0001));
    let mut right = NbtCompound::new();
    right.put("float", NbtTag::Float(0xffc0_1234));
    right.put("double", NbtTag::Double(0xfff8_0000_0000_1234));
    let left = CustomDataImpl::new(left);
    let right = CustomDataImpl::new(right);
    assert!(alike(&left, &right));
    assert_eq!(left.get_hash(), right.get_hash());
}

#[test]
fn checksums_of_numbers_and_texts_have_their_published_values() {
    assert_eq!(get_i32_hash(3), 3_795_317_917);
    assert_eq!(get_str_hash("minecraft:sharpness"), 2_734_053_906);
}

#[test]
fn item_name_nbt_roundtrip_preserves_components_and_parses_lists() {
    let key = "item.minecraft.apple";
    let literal = ItemNameImpl { name: ItemName::Component(TextComponent::text(key.to_owned())) };
    let mut bold = NbtCompound::new();
    bold.put_string("translate", key.to_owned());
    bold.put_bool("bold", true);
    let translated = ItemNameImpl { name: ItemName::Component(TextComponent::from_nbt(&NbtTag::Compound(bold))) };
    assert_ne!(literal.name.as_component(), translated.name.as_component());
    // A literal and a translation of the same text share their hash.
    assert_eq!(literal.get_hash(), translated.get_hash());
    let generated = ItemNameImpl { name: ItemName::translated(key) };
    assert_eq!(generated.get_hash(), get_str_hash(key) as i32);

    for original in [literal, translated] {
        let decoded = ItemNameImpl::read_data(&original.write_data()).expect("valid component");
        assert_eq!(decoded, original);
    }
    assert!(ItemNameImpl::read_data(&NbtTag::Int(1)).is_none());
    let list = NbtTag::List(vec![NbtTag::String("first".into()), NbtTag::String("second".into())]);
    assert!(ItemNameImpl::read_data(&list).is_some());
    assert!(ItemNameImpl::read_data(&NbtTag::List(vec![])).is_none());
}

#[test]
fn the_order_of_entries_does_not_change_a_checksum() {
    let keys = ["alpha", "beta", "gamma", "delta"];
    let mut forward = NbtCompound::new();
    for key in keys {
        forward.put(key, garden());
    }
    let mut backward = NbtCompound::new();
    for key in keys.iter().rev() {
        backward.put(key, garden());
    }
    assert_eq!(hash(forward.copy()), hash(backward));
    forward.put("alpha", NbtTag::Int(1));
    let mut other = NbtCompound::new();
    other.put("alpha", NbtTag::Int(2));
    assert_ne!(hash(forward), hash(other));
}
