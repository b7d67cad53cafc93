#![allow(dead_code, unused_imports)]
use pumpkin_items::basic::{MaxDamageImpl, MaxStackSizeImpl};
use pumpkin_items::components::{ComponentValue, DataComponentImpl};
use pumpkin_items::data_component::DataComponent;
use pumpkin_items::item_stack::{BundleContentsImpl, Item, ItemStack, ItemStackIdGenerator, UseRemainderImpl};
use pumpkin_items::registry::{Block, Registries, VersionMap};
use pumpkin_items::version::JavaMinecraftVersion;
use std::sync::Arc;
use pumpkin_items::basic::{CustomDataImpl, ItemNameImpl, TooltipDisplayImpl, UnbreakableImpl};
use pumpkin_items::codec::{Context, DataComponentCodec};
use pumpkin_items::consumable::{ConsumeEffect, DeathProtectionImpl, PotionContentsImpl};
use pumpkin_items::elements::{deserialize_status_effect, write_nbt, ItemName, TextComponent};
use pumpkin_items::equipment::{AttributeModifierSlot, AttributeModifiersImpl, ModifierDisplay, Operation};
use pumpkin_items::equal::equal_components;
use pumpkin_items::errors::{Detail, ReadingError, WritingError};
use pumpkin_items::registry::StoredForm;
use pumpkin_items::format::MAX_EFFECT_DEPTH;
use pumpkin_items::item_stack::{CanBreakImpl, CanPlaceOnImpl, ChargedProjectilesImpl, ContainerImpl, SulfurCubeContentImpl};
use pumpkin_items::nbt_tag::{NbtCompound, NbtTag};
use pumpkin_items::nested::{deserialize, deserialize_item_stack_template, serialize, serialize_item_stack_template};
use pumpkin_items::nested_predicate::{read_adventure_components, write_adventure_components};
use pumpkin_items::nested_stored::{read_data, write_data};
use pumpkin_items::same::match_tags;
use pumpkin_items::stored::{ContainerLootImpl, DebugStickStateImpl};
use pumpkin_items::utility::JukeboxPlayableImpl;
use pumpkin_items::wire::{write_bool, write_string, write_u64, write_var_int};

/// An item with its number, its tags and its default components.
fn item(key: &str, id: u16, tags: &[&str], components: Vec<ComponentValue>) -> Arc<Item> {
    Arc::new(Item {
        id,
        registry_key: key.to_owned(),
        tags: tags.iter().map(|t| t.to_string()).collect(),
        components: components
            .into_iter()
            .map(|v| (v.get_self_enum(), Arc::new(v)))
            .collect(),
    })
}

fn stack_size(size: u8) -> ComponentValue {
    MaxStackSizeImpl { size }.to_dyn()
}

fn worn_out_at(max_damage: i32) -> Vec<ComponentValue> {
    vec![stack_size(1), MaxDamageImpl { max_damage }.to_dyn()]
}

fn names(list: &[&str]) -> Vec<String> {
    list.iter().map(|t| t.to_string()).collect()
}

fn block(name: &str, properties: &[&str], tags: &[&str]) -> Block {
    Block { name: name.to_owned(), properties: names(properties), tags: names(tags) }
}

/// The numbers of items and components in version 26.1, which lacks one component of the current
/// version.
fn older_version() -> VersionMap {
    let missing = DataComponent::SulfurCubeContent.to_id() as u32;
    let mut items_out: Vec<u16> = (0..2000).collect();
    items_out[920] = 893;
    let mut components_out: Vec<u32> = Vec::new();
    let mut components_in: Vec<u32> = Vec::new();
    for id in 0..111u32 {
        if id < missing {
            components_out.push(id);
        } else if id == missing {
            components_out.push(0);
        } else {
            components_out.push(id - 1);
        }
        components_in.push(if id < missing { id } else { id + 1 });
    }
    VersionMap {
        version: JavaMinecraftVersion::V_26_1,
        items_out,
        items_in: (0..2000).collect(),
        components_out,
        components_in,
    }
}

/// A small set of registries.
fn registries() -> Registries {
    let tools = |kind: &str, from: u16| -> Vec<Arc<Item>> {
        let tag = format!("minecraft:{kind}s");
        ["wooden", "stone", "iron", "golden", "diamond", "netherite"]
            .iter()
            .enumerate()
            .map(|(i, material)| {
                let max = if *material == "netherite" { 2031 } else { 250 };
                item(&format!("{material}_{kind}"), from + i as u16, &[&tag], worn_out_at(max))
            })
            .collect()
    };
    let plain = |key: &str, id: u16| item(key, id, &[], vec![stack_size(64)]);
    let mut items = vec![
        item("air", 0, &[], vec![]),
        plain("stone", 1),
        plain("bowl", 920),
        plain("coal", 30),
        plain("bucket", 31),
        plain("glass_bottle", 32),
        item("filled_map", 33, &[], vec![stack_size(64)]),
        item("totem_of_undying", 34, &[], vec![stack_size(1)]),
        item("music_disc_13", 35, &[], vec![stack_size(1)]),
        item("knowledge_book", 36, &[], vec![stack_size(1)]),
        item("crossbow", 37, &[], worn_out_at(465)),
        item("diamond_chestplate", 38, &["minecraft:enchantable/armor"], worn_out_at(528)),
        plain("oak_planks", 39),
        plain("oak_log", 43),
        plain("cobblestone", 40),
        item("shield", 41, &[], worn_out_at(336)),
        item("bundle", 42, &[], vec![stack_size(1), BundleContentsImpl { items: vec![] }.to_dyn()]),
    ];
    for (key, id, remainder) in [
        ("milk_bucket", 50, "bucket"),
        ("honey_bottle", 51, "glass_bottle"),
        ("mushroom_stew", 52, "bowl"),
        ("beetroot_soup", 53, "bowl"),
    ] {
        let into = items.iter().find(|i| i.registry_key == remainder).unwrap().clone();
        let convert_into = ItemStack::static_new_java(1, into);
        items.push(item(key, id, &[], vec![stack_size(1), UseRemainderImpl { convert_into }.to_dyn()]));
    }
    items.extend(tools("axe", 100));
    items.extend(tools("pickaxe", 110));
    items.extend(tools("shovel", 120));
    items.extend(tools("hoe", 130));
    items.extend(tools("sword", 140));
    let mut enchantments: Vec<String> = (0..39).map(|i| format!("minecraft:enchantment_{i}")).collect();
    enchantments.push("minecraft:unbreaking".to_owned());
    Registries {
        items,
        enchantments,
        effects: names(&["minecraft:speed", "minecraft:regeneration", "minecraft:absorption"]),
        sounds: names(&["ambient.cave", "entity.generic.eat", "item.armor.equip_generic"]),
        entity_types: names(&["minecraft:player", "minecraft:zombie"]),
        blocks: vec![
            block("air", &[], &[]),
            block("stone", &[], &["minecraft:base_stone_overworld"]),
            block("oak_log", &["axis"], &["minecraft:logs"]),
            block("oak_fence_gate", &["facing", "open"], &[]),
        ],
        attributes: names(&["minecraft:armor", "minecraft:armor_toughness", "minecraft:attack_damage"]),
        damage_types: names(&["in_fire", "lava"]),
        songs: names(&["13", "cat", "blocks"]),
        versions: vec![older_version()],
        stored_forms: vec![],
    }
}

fn find(regs: &Registries, key: &str) -> Arc<Item> {
    regs.items.iter().find(|i| i.registry_key == key).expect(key).clone()
}

fn stack_of(regs: &Registries, count: u8, key: &str) -> ItemStack {
    ItemStack::new(count, find(regs, key), &mut ItemStackIdGenerator::new())
}

/// Registries whose numbers are those of the current version, as far as the byte sequences below
/// name them.
fn wire_registries() -> Registries {
    let mut regs = registries();
    regs.items.push(item("arrow", 923, &[], vec![stack_size(64)]));
    regs.effects = (0..40).map(|i| format!("minecraft:effect_{i}")).collect();
    regs.effects[9] = "minecraft:regeneration".to_owned();
    regs.attributes = (0..40).map(|i| format!("minecraft:attribute_{i}")).collect();
    regs.attributes[3] = "minecraft:attack_damage".to_owned();
    regs.attributes[26] = "minecraft:movement_speed".to_owned();
    regs.songs = names(&[
        "13", "cat", "blocks", "chirp", "far", "mall", "mellohi", "stal", "strad", "ward", "11", "wait", "pigstep",
        "otherside", "5", "relic", "precipice", "creator", "creator_music_box", "tears", "lava_chicken", "bounce",
    ]);
    regs
}

fn ids() -> ItemStackIdGenerator {
    ItemStackIdGenerator::new()
}

fn decode<C: DataComponentCodec<Value = C>>(input: &mut &[u8], regs: &Registries) -> Result<C, ReadingError> {
    C::deserialize(input, &Context::new(regs))
}

fn encode<C: DataComponentCodec<Value = C>>(v: &C, regs: &Registries) -> Result<Vec<u8>, WritingError> {
    let mut out = Vec::new();
    C::serialize(v, &mut out, &Context::new(regs))?;
    Ok(out)
}

fn decode_any(id: DataComponent, input: &mut &[u8], regs: &Registries) -> Result<ComponentValue, ReadingError> {
    deserialize(id, input, &Context::new(regs), &mut ids())
}

fn encode_any(v: &ComponentValue, regs: &Registries) -> Vec<u8> {
    let mut out = Vec::new();
    serialize(v.get_self_enum(), v, &mut out, &Context::new(regs)).expect("encode");
    out
}

fn decode_template(input: &mut &[u8], regs: &Registries) -> Result<ItemStack, ReadingError> {
    deserialize_item_stack_template(input, &Context::new(regs), &mut ids())
}

fn encode_template(stack: &ItemStack, regs: &Registries) -> Vec<u8> {
    let mut out = Vec::new();
    serialize_item_stack_template(stack, &mut out, &Context::new(regs)).expect("encode");
    out
}

fn read_components(input: &mut &[u8], regs: &Registries) -> Result<NbtTag, ReadingError> {
    read_adventure_components(input, &Context::new(regs), &mut ids()).map(NbtTag::Compound)
}

fn write_components(value: &NbtTag, regs: &Registries) -> Vec<u8> {
    let mut out = Vec::new();
    write_adventure_components(value, &mut out, &Context::new(regs)).expect("encode");
    out
}

fn predicates_place(input: &mut &[u8], regs: &Registries) -> Result<CanPlaceOnImpl, ReadingError> {
    CanPlaceOnImpl::deserialize(input, &Context::new(regs), &mut ids())
}

fn predicates_break(input: &mut &[u8], regs: &Registries) -> Result<CanBreakImpl, ReadingError> {
    CanBreakImpl::deserialize(input, &Context::new(regs), &mut ids())
}

fn tag_wire(tag: &NbtTag) -> Vec<u8> {
    let mut out = Vec::new();
    write_nbt(tag, &mut out).unwrap();
    out
}

fn stored(id: DataComponent, tag: NbtTag, regs: &Registries) -> Option<ComponentValue> {
    read_data(id, &tag, regs, &mut ids())
}

fn max_stack_size(input: &mut &[u8], regs: &Registries) -> u8 {
    decode::<MaxStackSizeImpl>(input, regs).expect("following component should remain aligned").size
}

#[test]
fn potion_contents_preserves_two_hidden_effect_links_on_wire() {
    let regs = wire_registries();
    let expected = [
        0x00, 0x00, 0x01, 0x09, 0x01, 0x64, 0x00, 0x01, 0x01, 0x01, 0x00, 0x28, 0x00, 0x01,
        0x01, 0x01, 0x00, 0x14, 0x00, 0x01, 0x01, 0x00, 0x00,
    ];
    let mut input = expected.as_slice();
    let decoded: PotionContentsImpl = decode(&mut input, &regs).expect("fixture should decode");
    assert!(input.is_empty());

    let encoded = encode(&decoded, &regs).expect("fixture should encode");
    assert_eq!(encoded, expected);
}

#[test]
fn apply_effects_wire_order_is_effects_then_probability() {
    let regs = wire_registries();
    let expected = [
        0x00, // apply_effects
        0x01, 0x09, // one regeneration effect
        0x01, 0x64, 0x00, 0x01, 0x01, 0x00, // details
        0x3f, 0x80, 0x00, 0x00, // probability = 1.0f
    ];
    let mut input = expected.as_slice();
    let decoded: ConsumeEffect = decode(&mut input, &regs).expect("fixture should decode");
    assert!(input.is_empty());
    match &decoded {
        ConsumeEffect::ApplyEffects((effects, probability)) => {
            assert_eq!(effects.len(), 1);
            assert_eq!(effects[0].duration, 100);
            assert_eq!(f32::from_bits(*probability), 1.0);
        }
        other => panic!("expected apply_effects, got {other:?}"),
    }

    let encoded = encode(&decoded, &regs).expect("fixture should encode");
    assert_eq!(encoded, expected);
}

fn status_effect_details(hidden_links: usize) -> Vec<u8> {
    let mut bytes = Vec::with_capacity((hidden_links + 1) * 6);
    for link in 0..=hidden_links {
        bytes.extend([0, 0, 0, 1, 1, u8::from(link < hidden_links)]);
    }
    bytes
}

#[test]
fn wire_hidden_effect_depth_limit_has_a_checked_boundary() {
    let bytes = status_effect_details(MAX_EFFECT_DEPTH);
    let mut at_limit = bytes.as_slice();
    assert!(deserialize_status_effect(&mut at_limit, "minecraft:regeneration", MAX_EFFECT_DEPTH).is_ok());
    assert!(at_limit.is_empty());

    let bytes = status_effect_details(MAX_EFFECT_DEPTH + 1);
    let mut over_limit = bytes.as_slice();
    assert!(matches!(
        deserialize_status_effect(&mut over_limit, "minecraft:regeneration", MAX_EFFECT_DEPTH),
        Err(ReadingError::TooLarge(_))
    ));
}

fn custom_stack(regs: &Registries) -> ItemStack {
    let mut data = NbtCompound::new();
    data.put_int("x", 7);
    let value = CustomDataImpl { data }.to_dyn();
    ItemStack::new_with_component(
        2,
        find(regs, "bowl"),
        vec![(DataComponent::CustomData, Some(Arc::new(value)))],
        &mut ids(),
    )
}

#[test]
fn nested_template_preserves_custom_data_and_following_sentinel() {
    let regs = wire_registries();
    let mut bytes = encode_template(&custom_stack(&regs), &regs);
    bytes.push(0x7f);

    let expected = [
        0x98, 0x07, 0x02, 0x01, 0x00, 0x00, 0x0a, 0x03, 0x00, 0x01, 0x78, 0x00, 0x00, 0x00,
        0x07, 0x00, 0x7f,
    ];
    assert_eq!(bytes, expected);

    let mut input = bytes.as_slice();
    let decoded = decode_template(&mut input, &regs).expect("decode");
    assert_eq!(decoded.item.registry_key, "bowl");
    assert_eq!(decoded.item_count, 2);
    assert_eq!(decoded.get_data_component::<CustomDataImpl>().expect("custom data").data.get_int("x"), Some(7));
    assert_eq!(input, &[0x7f]);
}

fn nested_use_remainder_wire(depth: usize) -> Vec<u8> {
    if depth == 0 {
        return vec![0x98, 0x07, 0x01, 0x00, 0x00];
    }
    let mut bytes = vec![0x98, 0x07, 0x01, 0x01, 0x00, 0x19];
    bytes.extend(nested_use_remainder_wire(depth - 1));
    bytes
}

#[test]
fn nested_template_depth_has_checked_boundary() {
    let regs = wire_registries();
    let at_limit_bytes = nested_use_remainder_wire(63);
    let mut at_limit = at_limit_bytes.as_slice();
    assert!(decode_template(&mut at_limit, &regs).is_ok());
    assert!(at_limit.is_empty());

    let over_limit_bytes = nested_use_remainder_wire(64);
    let mut over_limit = over_limit_bytes.as_slice();
    assert!(matches!(decode_template(&mut over_limit, &regs), Err(ReadingError::TooLarge(_))));
    let mut after_error = [0x98, 0x07, 0x01, 0x00, 0x00].as_slice();
    assert!(decode_template(&mut after_error, &regs).is_ok());
}

#[test]
fn use_remainder_wire_roundtrip_keeps_template() {
    let regs = wire_registries();
    let expected = UseRemainderImpl { convert_into: custom_stack(&regs) };
    let mut encoded = Vec::new();
    expected.serialize(&mut encoded, &Context::new(&regs)).expect("encode");
    let mut input = encoded.as_slice();
    let decoded = UseRemainderImpl::deserialize(&mut input, &Context::new(&regs), &mut ids()).expect("decode");
    assert!(input.is_empty());
    assert!(equal_components(&decoded.to_dyn(), &expected.to_dyn()));
}

#[test]
fn nested_template_rejects_empty_unknown_and_negative_values() {
    let regs = wire_registries();
    for bytes in [
        vec![0x00, 0x01, 0x00, 0x00],
        vec![0x8f, 0x4e, 0x01, 0x00, 0x00],
        vec![0x98, 0x07, 0x00, 0x00, 0x00],
        vec![0x98, 0x07, 0xff, 0xff, 0xff, 0xff, 0x0f, 0x00, 0x00],
        vec![0x98, 0x07, 0x01, 0x01, 0x00, 0x80, 0x01],
    ] {
        let mut input = bytes.as_slice();
        assert!(decode_template(&mut input, &regs).is_err());
    }
}

#[test]
fn stream_template_accepts_positive_count_above_nbt_range() {
    let regs = wire_registries();
    let mut input = [0x98, 0x07, 0x64, 0x00, 0x00].as_slice();
    let decoded = decode_template(&mut input, &regs).expect("wire count 100");
    assert_eq!(decoded.item.registry_key, "bowl");
    assert_eq!(decoded.item_count, 100);
    assert!(input.is_empty());
}

#[test]
fn official_nested_component_shapes_have_independent_wire_fixtures() {
    let regs = wire_registries();
    let ctx = Context::new(&regs);
    let container = ContainerImpl { items: vec![(5, stack_of(&regs, 1, "bowl"))] };
    let mut encoded = Vec::new();
    container.serialize(&mut encoded, &ctx).expect("container encode");
    assert_eq!(encoded, [0x06, 0, 0, 0, 0, 0, 1, 0x98, 0x07, 1, 0, 0]);
    let decoded = ContainerImpl::deserialize(&mut encoded.as_slice(), &ctx, &mut ids()).expect("container decode");
    assert_eq!(decoded.items[0].0, 5);

    let charged = ChargedProjectilesImpl { projectiles: vec![stack_of(&regs, 1, "arrow")] };
    let mut encoded = Vec::new();
    charged.serialize(&mut encoded, &ctx).expect("charged encode");
    assert_eq!(encoded, [1, 0x9b, 0x07, 1, 0, 0]);
    let decoded =
        ChargedProjectilesImpl::deserialize(&mut encoded.as_slice(), &ctx, &mut ids()).expect("charged decode");
    assert_eq!(decoded.projectiles[0].item.registry_key, "arrow");

    let sulfur = SulfurCubeContentImpl { absorbed_block_item_stack: stack_of(&regs, 1, "stone") };
    let mut encoded = Vec::new();
    sulfur.serialize(&mut encoded, &ctx).expect("sulfur encode");
    assert_eq!(encoded, [1, 1, 0, 0]);
    let decoded = SulfurCubeContentImpl::deserialize(&mut encoded.as_slice(), &ctx, &mut ids()).expect("sulfur decode");
    assert_eq!(decoded.absorbed_block_item_stack.item.registry_key, "stone");
}

#[test]
fn duplicate_patch_ids_are_last_write_wins_and_encode_once() {
    let regs = wire_registries();
    let mut stack = stack_of(&regs, 1, "bowl");
    stack.patch.push((DataComponent::Unbreakable, Some(Arc::new(UnbreakableImpl.to_dyn()))));
    stack.patch.push((DataComponent::Unbreakable, None));
    assert_eq!(encode_template(&stack, &regs), [0x98, 0x07, 1, 0, 1, 4]);

    let mut input = [0x98, 0x07, 1, 1, 1, 4, 4].as_slice();
    let decoded = decode_template(&mut input, &regs).expect("decode");
    assert!(!decoded.has_data_component(DataComponent::Unbreakable));
    assert!(input.is_empty());
}

#[test]
fn generated_known_remainder_defaults_roundtrip() {
    let regs = wire_registries();
    for key in ["milk_bucket", "honey_bottle", "mushroom_stew"] {
        let item = find(&regs, key);
        let (_, value) = item
            .components
            .iter()
            .find(|(id, _)| *id == DataComponent::UseRemainder)
            .expect("generated remainder");
        let ComponentValue::UseRemainder(remainder) = &**value else {
            panic!("expected a remainder");
        };
        let mut bytes = Vec::new();
        remainder.serialize(&mut bytes, &Context::new(&regs)).expect("encode");
        let mut input = bytes.as_slice();
        let decoded = UseRemainderImpl::deserialize(&mut input, &Context::new(&regs), &mut ids()).expect("decode");
        assert!(input.is_empty());
        assert!(equal_components(&decoded.to_dyn(), value));
    }
}

#[test]
fn recipes_codec_consumes_official_nbt_wire_and_preserves_following_component() {
    let regs = wire_registries();
    let mut wire = vec![9, 8, 0, 0, 0, 2, 0, 33];
    wire.extend_from_slice(b"minecraft:iron_ingot_from_nuggets");
    wire.extend_from_slice(&[0, 21]);
    wire.extend_from_slice(b"example:custom_recipe");
    wire.push(64);

    let mut input = wire.as_slice();
    let decoded = decode_any(DataComponent::Recipes, &mut input, &regs).unwrap();
    let ComponentValue::Recipes(recipes) = &decoded else {
        panic!("expected recipes");
    };
    assert_eq!(
        recipes.recipes,
        vec!["minecraft:iron_ingot_from_nuggets".to_owned(), "example:custom_recipe".to_owned()]
    );
    assert_eq!(max_stack_size(&mut input, &regs), 64);
    assert!(input.is_empty());

    assert_eq!(encode_any(&decoded, &regs), &wire[..wire.len() - 1]);
}

#[test]
fn jukebox_playable_wire_round_trip_covers_all_registry_indices() {
    let regs = wire_registries();
    for registry_id in 0..=21u32 {
        let song = format!("minecraft:{}", regs.songs[registry_id as usize]);

        let wire = [(registry_id + 1) as u8];
        let mut input = wire.as_slice();
        let decoded: JukeboxPlayableImpl = decode(&mut input, &regs).unwrap();
        assert!(input.is_empty());
        assert_eq!(decoded.song, song);

        assert_eq!(encode(&decoded, &regs).unwrap(), wire);
    }
}

#[test]
fn jukebox_playable_wire_rejects_direct_and_unknown_holders() {
    let regs = wire_registries();
    let mut direct = [0].as_slice();
    assert!(decode::<JukeboxPlayableImpl>(&mut direct, &regs).is_err());

    let mut unknown = [0x17].as_slice();
    assert!(decode::<JukeboxPlayableImpl>(&mut unknown, &regs).is_err());
}

#[test]
fn item_name_stream_codec_preserves_component_identity_and_style() {
    let regs = wire_registries();
    let literal =
        ItemNameImpl { name: ItemName::Component(TextComponent::text("item.minecraft.apple".to_owned())) };
    let mut bold = NbtCompound::new();
    bold.put_string("translate", "item.minecraft.apple".to_owned());
    bold.put_bool("bold", true);
    let translated =
        ItemNameImpl { name: ItemName::Component(TextComponent::from_nbt(&NbtTag::Compound(bold))) };
    assert_ne!(literal, translated);

    for original in [literal, translated] {
        let wire = encode(&original, &regs).expect("serialize ItemName");
        let decoded: ItemNameImpl = decode(&mut wire.as_slice(), &regs).expect("decode ItemName");
        assert_eq!(decoded, original);
    }

    let mut malformed = vec![3];
    malformed.extend_from_slice(&1_i32.to_be_bytes());
    assert!(decode::<ItemNameImpl>(&mut malformed.as_slice(), &regs).is_err());
}

#[test]
fn item_name_stream_codec_accepts_non_empty_lists_and_rejects_empty_lists() {
    let regs = wire_registries();
    for (tag, is_valid) in
        [(NbtTag::List(vec![NbtTag::String("first".into())]), true), (NbtTag::List(vec![]), false)]
    {
        let wire = tag_wire(&tag);
        assert_eq!(decode::<ItemNameImpl>(&mut wire.as_slice(), &regs).is_ok(), is_valid);
    }
}

#[test]
fn debug_stick_state_uses_official_nbt_fallback_and_preserves_next_component() {
    let regs = wire_registries();
    let mut wire = vec![0x0a, 0x08, 0x00, 0x11];
    wire.extend_from_slice(b"minecraft:oak_log");
    wire.extend_from_slice(&[0x00, 0x04]);
    wire.extend_from_slice(b"axis");
    wire.extend_from_slice(&[0x00, 0x40]);

    let mut input = wire.as_slice();
    let decoded = decode_any(DataComponent::DebugStickState, &mut input, &regs)
        .expect("debug stick state fallback should decode");
    assert!(matches!(decoded, ComponentValue::DebugStickState(_)));
    let mut expected = NbtCompound::new();
    expected.put_string("minecraft:oak_log", "axis".to_owned());
    assert_eq!(write_data(&decoded, &regs), Some(NbtTag::Compound(expected)));
    assert_eq!(max_stack_size(&mut input, &regs), 64);
    assert!(input.is_empty());

    let mut empty = [0x0a, 0x00, 0x40].as_slice();
    let decoded = decode_any(DataComponent::DebugStickState, &mut empty, &regs)
        .expect("empty debug stick state should decode");
    assert_eq!(write_data(&decoded, &regs), Some(NbtTag::Compound(NbtCompound::new())));
    assert_eq!(max_stack_size(&mut empty, &regs), 64);
    assert!(empty.is_empty());
}

#[test]
fn debug_stick_state_rejects_malformed_and_invalid_entries() {
    let regs = wire_registries();
    let mut end = [0x00].as_slice();
    assert!(decode_any(DataComponent::DebugStickState, &mut end, &regs).is_err());

    for (block, property) in [
        ("minecraft:no_such_block", "axis"),
        ("minecraft:oak_log", "no_such_property"),
        ("custom:oak_log", "axis"),
    ] {
        let mut root = NbtCompound::new();
        root.put_string(block, property.to_owned());
        let wire = tag_wire(&NbtTag::Compound(root));
        assert!(decode_any(DataComponent::DebugStickState, &mut wire.as_slice(), &regs).is_err());
    }

    let mut root = NbtCompound::new();
    root.put_int("minecraft:stone", 1);
    let wire = tag_wire(&NbtTag::Compound(root));
    assert!(decode_any(DataComponent::DebugStickState, &mut wire.as_slice(), &regs).is_err());
}

fn stick(entries: &[(&str, &str)]) -> DebugStickStateImpl {
    let mut state = DebugStickStateImpl { properties: Vec::new() };
    for (block, property) in entries {
        state.set_property(block.to_string(), property.to_string());
    }
    state
}

#[test]
fn debug_stick_state_hash_and_equality_follow_canonical_map_state() {
    let left = stick(&[("minecraft:oak_log", "axis"), ("minecraft:oak_fence_gate", "facing")]);
    let right = stick(&[("minecraft:oak_fence_gate", "facing"), ("minecraft:oak_log", "axis")]);
    assert_eq!(left, right);
    assert_eq!(left.get_hash(), right.get_hash());

    let mut changed = stick(&[("minecraft:oak_fence_gate", "facing"), ("minecraft:oak_log", "axis")]);
    changed.set_property("minecraft:oak_log".to_owned(), "waterlogged".to_owned());
    assert_ne!(left, changed);
    assert_ne!(left.get_hash(), changed.get_hash());
}

#[test]
fn debug_stick_state_adventure_exact_round_trip_uses_same_fallback() {
    let regs = wire_registries();
    let mut state = NbtCompound::new();
    state.put_string("minecraft:oak_log", "axis".to_owned());
    let mut components = NbtCompound::new();
    components.put("minecraft:debug_stick_state", NbtTag::Compound(state));
    let mut root = NbtCompound::new();
    root.put("components", NbtTag::Compound(components));
    let value = NbtTag::Compound(root);

    let wire = write_components(&value, &regs);
    let decoded = read_components(&mut wire.as_slice(), &regs).unwrap();
    assert_eq!(decoded, value);
}

#[test]
fn intangible_projectile_accepts_unknown_compound_fields_and_preserves_next_component() {
    let regs = wire_registries();
    let expected = [
        0x0a, 0x08, 0x00, 0x07, b'u', b'n', b'k', b'n', b'o', b'w', b'n', 0x00, 0x07, b'p',
        b'a', b'y', b'l', b'o', b'a', b'd', 0x00, 0x40,
    ];
    let mut input = expected.as_slice();
    let decoded = decode_any(DataComponent::IntangibleProjectile, &mut input, &regs)
        .expect("intangible projectile fallback should decode");
    assert!(matches!(decoded, ComponentValue::IntangibleProjectile(_)));
    assert_eq!(max_stack_size(&mut input, &regs), 64);
    assert!(input.is_empty());

    assert_eq!(encode_any(&decoded, &regs), [0x0a, 0x00]);
}

#[test]
fn container_loot_uses_official_nbt_fallback_and_preserves_next_component() {
    let regs = wire_registries();
    let mut expected = vec![0x0a, 0x08, 0x00, 0x0a];
    expected.extend_from_slice(b"loot_table");
    expected.extend_from_slice(&[0x00, 0x1f]);
    expected.extend_from_slice(b"minecraft:chests/simple_dungeon");
    expected.extend_from_slice(&[0x04, 0x00, 0x04]);
    expected.extend_from_slice(b"seed");
    expected.extend_from_slice(&123_456_789i64.to_be_bytes());
    expected.extend_from_slice(&[0x00, 0x40]);

    let mut input = expected.as_slice();
    let value = decode_any(DataComponent::ContainerLoot, &mut input, &regs)
        .expect("container loot fallback should decode");
    let ComponentValue::ContainerLoot(decoded) = &value else {
        panic!("container loot implementation");
    };
    assert_eq!(decoded.loot_table, "minecraft:chests/simple_dungeon");
    assert_eq!(decoded.seed, 123_456_789);
    assert_eq!(max_stack_size(&mut input, &regs), 64);
    assert!(input.is_empty());

    let encoded = encode_any(&value, &regs);
    let again = decode_any(DataComponent::ContainerLoot, &mut encoded.as_slice(), &regs)
        .expect("encoded container loot should decode");
    let ComponentValue::ContainerLoot(round_trip) = &again else {
        panic!("container loot implementation");
    };
    assert_eq!(round_trip.loot_table, decoded.loot_table);
    assert_eq!(round_trip.seed, decoded.seed);
}

#[test]
fn container_loot_omits_official_default_seed() {
    let regs = wire_registries();
    let mut expected = vec![0x0a, 0x08, 0x00, 0x0a];
    expected.extend_from_slice(b"loot_table");
    expected.extend_from_slice(&[0x00, 0x1f]);
    expected.extend_from_slice(b"minecraft:chests/simple_dungeon");
    expected.push(0x00);

    let value = ContainerLootImpl { loot_table: "minecraft:chests/simple_dungeon".to_owned(), seed: 0 };
    let encoded = encode_any(&value.to_dyn(), &regs);
    assert_eq!(encoded, expected);

    let mut input = encoded.as_slice();
    let decoded = decode_any(DataComponent::ContainerLoot, &mut input, &regs)
        .expect("default container loot should decode");
    assert!(matches!(decoded, ComponentValue::ContainerLoot(v) if v.seed == 0));
    assert!(input.is_empty());
}

#[test]
fn map_decorations_fallback_preserves_entries_and_next_component() {
    let regs = wire_registries();
    let mut player = NbtCompound::new();
    player.put_string("type", "minecraft:player".to_owned());
    player.put_double("x", 1234.5f64.to_bits());
    player.put_double("z", (-987.25f64).to_bits());
    player.put_float("rotation", 1.5f32.to_bits());

    let mut custom = NbtCompound::new();
    custom.put_string("type", "custom:marker".to_owned());
    custom.put_double("x", (-0.25f64).to_bits());
    custom.put_double("z", 4.0f64.to_bits());
    custom.put_float("rotation", (-2.25f32).to_bits());

    let mut root = NbtCompound::new();
    root.put_compound("player", player);
    root.put_compound("custom marker", custom);

    let expected = NbtTag::Compound(root);
    let mut wire = tag_wire(&expected);
    wire.push(64); // following MaxStackSize component

    let mut input = wire.as_slice();
    let decoded = decode_any(DataComponent::MapDecorations, &mut input, &regs)
        .expect("map decorations fallback should decode");
    let written = write_data(&decoded, &regs).expect("map decorations should be stored");
    assert!(match_tags(&written, &expected, false));
    assert_eq!(max_stack_size(&mut input, &regs), 64);
    assert!(input.is_empty());
}

#[test]
fn map_decorations_accepts_numeric_tags_and_ignores_extra_fields() {
    let regs = wire_registries();
    let mut entry = NbtCompound::new();
    entry.put_string("type", "player".to_owned());
    entry.put_byte("x", -7);
    entry.put_long("z", 123);
    entry.put_double("rotation", 1.75f64.to_bits());
    entry.put("future_field", NbtTag::List(Vec::new()));

    let mut root = NbtCompound::new();
    root.put_compound("future marker", entry);

    let wire = tag_wire(&NbtTag::Compound(root));
    let decoded = decode_any(DataComponent::MapDecorations, &mut wire.as_slice(), &regs)
        .expect("numeric map decoration fields should decode");
    let encoded = write_data(&decoded, &regs).expect("map decorations should be stored");
    let entry = encoded
        .extract_compound()
        .and_then(|root| root.get_compound("future marker"))
        .expect("decoded map decoration entry");
    assert_eq!(entry.get_string("type").map(String::as_str), Some("minecraft:player"));
    assert_eq!(entry.get("x"), Some(&NbtTag::Double((-7.0f64).to_bits())));
    assert_eq!(entry.get("z"), Some(&NbtTag::Double(123.0f64.to_bits())));
    assert_eq!(entry.get("rotation"), Some(&NbtTag::Float(1.75f32.to_bits())));
    assert!(!entry.has("future_field"));
}

#[test]
fn map_decorations_rejects_invalid_shape_and_identifier() {
    let regs = wire_registries();
    let refused = |bytes: &[u8]| decode_any(DataComponent::MapDecorations, &mut &*bytes, &regs).is_err();
    assert!(refused(&[0]));
    assert!(refused(&tag_wire(&NbtTag::List(Vec::new()))));

    let mut root = NbtCompound::new();
    root.put_string("marker", "not an entry".to_owned());
    assert!(refused(&tag_wire(&NbtTag::Compound(root))));

    let mut entry = NbtCompound::new();
    entry.put_string("type", "bad:id:extra".to_owned());
    entry.put_double("x", 0.0f64.to_bits());
    entry.put_double("z", 0.0f64.to_bits());
    entry.put_float("rotation", 0.0f32.to_bits());
    let mut root = NbtCompound::new();
    root.put_compound("marker", entry);
    assert!(refused(&tag_wire(&NbtTag::Compound(root))));
}

#[test]
fn map_decorations_adventure_exact_round_trip_uses_same_fallback() {
    let regs = wire_registries();
    let mut entry = NbtCompound::new();
    entry.put_string("type", "minecraft:player".to_owned());
    entry.put_double("x", 1234.5f64.to_bits());
    entry.put_double("z", (-987.25f64).to_bits());
    entry.put_float("rotation", 1.5f32.to_bits());
    let mut decorations = NbtCompound::new();
    decorations.put_compound("player", entry);

    let mut component = NbtCompound::new();
    component.put("minecraft:map_decorations", NbtTag::Compound(decorations.copy()));
    let value = NbtTag::Compound({
        let mut value = NbtCompound::new();
        value.put_compound("components", component);
        value
    });

    let wire = write_components(&value, &regs);
    let expected_prefix = [1, DataComponent::MapDecorations.to_id()];
    assert_eq!(&wire[..expected_prefix.len()], expected_prefix);
    assert_eq!(*wire.last().unwrap(), 0);

    let decoded = read_components(&mut wire.as_slice(), &regs).unwrap();
    assert!(match_tags(&decoded, &value, false));
    let encoded = write_components(&decoded, &regs);
    let redecoded = read_components(&mut encoded.as_slice(), &regs).unwrap();
    assert!(match_tags(&redecoded, &value, false));
}

#[test]
fn persistent_fallback_rejects_nbt_end_and_wrong_types() {
    let regs = wire_registries();
    let refused = |id: DataComponent, bytes: &[u8]| decode_any(id, &mut &*bytes, &regs).is_err();
    assert!(refused(DataComponent::IntangibleProjectile, &[0x00]));
    assert!(refused(DataComponent::IntangibleProjectile, &[0x08, 0x00, 0x40]));
    assert!(refused(DataComponent::IntangibleProjectile, &[0x03, 0x00, 0x00, 0x00, 0x07, 0x40]));
    assert!(refused(DataComponent::ContainerLoot, &[0x08, 0x00, 0x40]));
    assert!(refused(DataComponent::ContainerLoot, &[0x0a, 0x00, 0x40]));

    let mut compound = NbtCompound::new();
    compound.put_string("loot_table", "minecraft:chests/simple_dungeon".to_owned());
    compound.put_string("seed", "not a long".to_owned());
    let mut invalid_seed = tag_wire(&NbtTag::Compound(compound));
    invalid_seed.push(64);
    assert!(refused(DataComponent::ContainerLoot, &invalid_seed));
}

#[test]
fn container_loot_accepts_all_nbt_numeric_seed_tags_like_codec_long() {
    let regs = wire_registries();
    let cases = vec![
        (NbtTag::Byte(-7), -7),
        (NbtTag::Short(1234), 1234),
        (NbtTag::Int(-56789), -56789),
        (NbtTag::Long(i64::MAX), i64::MAX),
        (NbtTag::Float(1.75f32.to_bits()), 1),
        (NbtTag::Double((-1.75f64).to_bits()), -1),
        (NbtTag::Float(f32::INFINITY.to_bits()), i64::MAX),
        (NbtTag::Double(f64::NEG_INFINITY.to_bits()), i64::MIN),
        (NbtTag::Double(f64::NAN.to_bits()), 0),
    ];

    for (seed, expected_seed) in cases {
        let mut compound = NbtCompound::new();
        compound.put_string("loot_table", "custom/loot".to_owned());
        compound.put("seed", seed);
        let wire = tag_wire(&NbtTag::Compound(compound));

        let value = decode_any(DataComponent::ContainerLoot, &mut wire.as_slice(), &regs)
            .expect("numeric seed should match Codec.LONG conversion");
        let ComponentValue::ContainerLoot(decoded) = &value else {
            panic!("container loot implementation");
        };
        assert_eq!(decoded.loot_table, "minecraft:custom/loot");
        assert_eq!(decoded.seed, expected_seed);
    }
}

#[test]
fn adventure_exact_match_uses_persistent_fallback_codec() {
    let regs = wire_registries();
    let mut wire = Vec::new();
    write_var_int(&mut wire, 1);
    write_var_int(&mut wire, DataComponent::IntangibleProjectile.to_id() as i32);
    wire.extend_from_slice(&[0x0a, 0x00]);
    write_var_int(&mut wire, 0);

    let mut input = wire.as_slice();
    let decoded = read_components(&mut input, &regs).unwrap();
    assert!(input.is_empty());
    let components = decoded.extract_compound().unwrap().get_compound("components").unwrap();
    assert_eq!(components.get_compound("minecraft:intangible_projectile"), Some(&NbtCompound::new()));

    assert_eq!(write_components(&decoded, &regs), wire);
}

#[test]
fn death_protection_wire_and_nbt_round_trip_preserves_effects() {
    let regs = wire_registries();
    let wire = [0x01, 0x02];
    let mut input = wire.as_slice();
    let decoded: DeathProtectionImpl = decode(&mut input, &regs).unwrap();
    assert!(input.is_empty());
    assert_eq!(encode(&decoded, &regs).unwrap(), wire);

    let mut clear = NbtCompound::new();
    clear.put_string("type", "minecraft:clear_all_effects".to_owned());
    let mut status = NbtCompound::new();
    status.put_string("id", "minecraft:regeneration".to_owned());
    status.put_int("amplifier", 1);
    status.put_int("duration", 900);
    status.put_bool("ambient", false);
    status.put_bool("show_particles", true);
    status.put_bool("show_icon", true);
    let mut apply = NbtCompound::new();
    apply.put_string("type", "minecraft:apply_effects".to_owned());
    apply.put_float("probability", 1.0f32.to_bits());
    apply.put_list("effects", vec![NbtTag::Compound(status)]);
    let mut nbt = NbtCompound::new();
    nbt.put_list("death_effects", vec![NbtTag::Compound(clear), NbtTag::Compound(apply)]);
    let value = stored(DataComponent::DeathProtection, NbtTag::Compound(nbt.copy()), &regs).unwrap();
    let ComponentValue::DeathProtection(protection) = &value else {
        panic!("death protection implementation");
    };
    assert_eq!(protection.death_effects.len(), 2);
    let written = write_data(&value, &regs).expect("death protection should be stored");
    assert!(match_tags(&written, &NbtTag::Compound(nbt), false));
}

#[test]
fn death_protection_rejects_invalid_effect_counts_and_tags() {
    let regs = wire_registries();
    let with_effect = |effect: NbtCompound| {
        let mut nbt = NbtCompound::new();
        nbt.put_list("death_effects", vec![NbtTag::Compound(effect)]);
        stored(DataComponent::DeathProtection, NbtTag::Compound(nbt), &regs)
    };
    let mut invalid_effect = NbtCompound::new();
    invalid_effect.put_string("type", "minecraft:not_a_consume_effect".to_owned());
    assert!(with_effect(invalid_effect).is_none());

    let mut wrong_type = NbtCompound::new();
    wrong_type.put_string("death_effects", "not a list".to_owned());
    assert!(stored(DataComponent::DeathProtection, NbtTag::Compound(wrong_type), &regs).is_none());

    let mut negative = Vec::new();
    write_var_int(&mut negative, -1);
    assert!(decode::<DeathProtectionImpl>(&mut negative.as_slice(), &regs).is_err());

    let mut too_many = Vec::new();
    write_var_int(&mut too_many, 257);
    assert!(decode::<DeathProtectionImpl>(&mut too_many.as_slice(), &regs).is_err());

    let mut huge_idset = Vec::new();
    write_var_int(&mut huge_idset, 1);
    write_var_int(&mut huge_idset, 1);
    write_var_int(&mut huge_idset, 258);
    assert!(decode::<DeathProtectionImpl>(&mut huge_idset.as_slice(), &regs).is_err());

    let mut unknown_remove = NbtCompound::new();
    unknown_remove.put_string("type", "minecraft:remove_effects".to_owned());
    unknown_remove.put_list("effects", vec![NbtTag::String("minecraft:not_a_status_effect".into())]);
    assert!(with_effect(unknown_remove).is_none());

    let mut unknown_sound = NbtCompound::new();
    unknown_sound.put_string("type", "minecraft:play_sound".to_owned());
    unknown_sound.put_string("sound", "minecraft:not_a_sound".to_owned());
    assert!(with_effect(unknown_sound).is_none());

    let mut unknown_status = NbtCompound::new();
    unknown_status.put_string("id", "minecraft:not_a_status_effect".to_owned());
    unknown_status.put_int("amplifier", 0);
    unknown_status.put_int("duration", 1);
    unknown_status.put_bool("ambient", false);
    unknown_status.put_bool("show_particles", true);
    unknown_status.put_bool("show_icon", true);
    let mut unknown_apply = NbtCompound::new();
    unknown_apply.put_string("type", "minecraft:apply_effects".to_owned());
    unknown_apply.put_float("probability", 1.0f32.to_bits());
    unknown_apply.put_list("effects", vec![NbtTag::Compound(unknown_status)]);
    assert!(with_effect(unknown_apply).is_none());
}

#[test]
fn tooltip_display_wire_round_trip_preserves_values_and_rejects_invalid_inputs() {
    let regs = wire_registries();
    let mut wire = Vec::new();
    write_bool(&mut wire, true);
    write_var_int(&mut wire, 2);
    write_var_int(&mut wire, DataComponent::TooltipStyle.to_id() as i32);
    write_var_int(&mut wire, DataComponent::Lore.to_id() as i32);

    let mut input = wire.as_slice();
    let decoded = decode_any(DataComponent::TooltipDisplay, &mut input, &regs).unwrap();
    assert!(input.is_empty());

    let hidden = |name: &str, second: Option<&str>| {
        let mut tag = NbtCompound::new();
        tag.put_bool("hide_tooltip", true);
        let mut list = vec![NbtTag::String(name.to_owned())];
        list.extend(second.map(|t| NbtTag::String(t.to_owned())));
        tag.put_list("hidden_components", list);
        NbtTag::Compound(tag)
    };
    let expected =
        || hidden(&DataComponent::TooltipStyle.to_name(), Some(&DataComponent::Lore.to_name()));
    let nbt_decoded =
        stored(DataComponent::TooltipDisplay, expected(), &regs).expect("TooltipDisplay NBT should decode");
    let ComponentValue::TooltipDisplay(display) = &nbt_decoded else {
        panic!("tooltip display implementation");
    };
    assert!(display.hide_tooltip);
    assert!(display.hidden_components == vec![DataComponent::TooltipStyle, DataComponent::Lore]);
    let written = write_data(&decoded, &regs).expect("tooltip display should be stored");
    assert!(match_tags(&written, &expected(), false));

    assert!(stored(DataComponent::TooltipDisplay, hidden("minecraft:not_a_component", None), &regs).is_none());

    assert_eq!(encode_any(&decoded, &regs), wire);

    let mut unknown_id = Vec::new();
    write_bool(&mut unknown_id, false);
    write_var_int(&mut unknown_id, 1);
    write_var_int(&mut unknown_id, 255);
    assert!(decode_any(DataComponent::TooltipDisplay, &mut unknown_id.as_slice(), &regs).is_err());

    let mut negative_count = Vec::new();
    write_bool(&mut negative_count, false);
    write_var_int(&mut negative_count, -1);
    assert!(decode_any(DataComponent::TooltipDisplay, &mut negative_count.as_slice(), &regs).is_err());
}

fn write_modifier(
    wire: &mut Vec<u8>,
    attribute: i32,
    id: &str,
    amount: f64,
    operation: i32,
    slot: i32,
    display: i32,
) {
    write_var_int(wire, attribute);
    write_string(wire, id).unwrap();
    write_u64(wire, amount.to_bits());
    write_var_int(wire, operation);
    write_var_int(wire, slot);
    write_var_int(wire, display);
}

#[test]
fn independent_wire_round_trip_preserves_all_modifier_fields() {
    let regs = wire_registries();
    let mut wire = Vec::new();
    write_var_int(&mut wire, 3);
    write_modifier(&mut wire, 3, "minecraft:base_attack_damage", -2.5, 0, 1, 0);
    write_modifier(
        &mut wire,
        26,
        "custom:non_finite_nan",
        f64::from_bits(0x7ff8_0000_0000_0042),
        2,
        10,
        1,
    );
    write_modifier(&mut wire, 23, "minecraft:health_bonus", f64::INFINITY, 1, 8, 2);
    let mut display = NbtCompound::new();
    display.put_string("text", "override".to_owned());
    write_nbt(&NbtTag::Compound(display), &mut wire).unwrap();
    let mut input = wire.as_slice();
    let decoded: AttributeModifiersImpl = decode(&mut input, &regs).unwrap();
    assert!(input.is_empty());
    let modifiers = &decoded.attribute_modifiers;
    assert_eq!(modifiers.len(), 3);
    assert_eq!(modifiers[0].attribute, 3);
    assert_eq!(modifiers[0].id, "minecraft:base_attack_damage");
    assert_eq!(f64::from_bits(modifiers[0].amount), -2.5);
    assert_eq!(modifiers[0].operation, Operation::AddValue);
    assert_eq!(modifiers[0].slot, AttributeModifierSlot::MainHand);
    assert!(matches!(modifiers[0].display, ModifierDisplay::Default));
    assert_eq!(regs.attributes[modifiers[1].attribute as usize], "minecraft:movement_speed");
    assert_eq!(modifiers[1].amount, 0x7ff8_0000_0000_0042);
    assert_eq!(modifiers[1].operation, Operation::AddMultipliedTotal);
    assert_eq!(modifiers[1].slot, AttributeModifierSlot::Saddle);
    assert!(matches!(modifiers[1].display, ModifierDisplay::Hidden));
    assert!(f64::from_bits(modifiers[2].amount).is_infinite());
    assert!(matches!(modifiers[2].display, ModifierDisplay::Override(_)));

    assert_eq!(encode(&decoded, &regs).unwrap(), wire);
}

#[test]
fn attribute_modifier_rejects_invalid_counts_ids_and_enums() {
    let regs = wire_registries();
    let refused = |bytes: &[u8]| decode::<AttributeModifiersImpl>(&mut &*bytes, &regs).is_err();
    assert!(refused(&[0xff, 0xff, 0xff, 0xff, 0x0f]));
    assert!(refused(&[1, 40]));

    let one = |id: &str, operation: i32, slot: i32, display: i32| {
        let mut wire = Vec::new();
        write_var_int(&mut wire, 1);
        write_modifier(&mut wire, 0, id, 0.0, operation, slot, display);
        wire
    };
    assert!(refused(&one("minecraft:test", 3, 0, 0)));
    assert!(refused(&one("minecraft:test", 0, 11, 0)));
    assert!(refused(&one("minecraft:test", 0, 0, 3)));
    assert!(refused(&one("minecraft:not a resource id", 0, 0, 0)));
    assert!(!refused(&one("minecraft:test", 0, 0, 0)));
}

fn block_number(regs: &Registries, name: &str) -> i32 {
    regs.blocks.iter().position(|b| b.name == name).expect(name) as i32
}

fn first_predicate(tag: &NbtTag) -> &NbtCompound {
    tag.extract_list().unwrap()[0].extract_compound().unwrap()
}

fn check_modifiers(predicate: &NbtCompound) {
    let components = predicate.get_compound("components").unwrap().get_compound("components").unwrap();
    let modifiers = components.get_list("minecraft:attribute_modifiers").unwrap();
    assert_eq!(modifiers.len(), 1);
    assert_eq!(
        modifiers[0].extract_compound().unwrap().get_string("type").map(String::as_str),
        Some("minecraft:attack_damage")
    );
}

#[test]
fn can_place_on_wire_round_trip_preserves_predicate_fields() {
    let regs = wire_registries();
    let mut wire = Vec::new();
    write_var_int(&mut wire, 1);
    write_bool(&mut wire, true);
    write_var_int(&mut wire, 2);
    write_var_int(&mut wire, block_number(&regs, "stone"));
    write_bool(&mut wire, true);
    write_var_int(&mut wire, 2);
    write_string(&mut wire, "facing").unwrap();
    write_bool(&mut wire, true);
    write_string(&mut wire, "north").unwrap();
    write_string(&mut wire, "age").unwrap();
    write_bool(&mut wire, false);
    write_bool(&mut wire, true);
    write_string(&mut wire, "1").unwrap();
    write_bool(&mut wire, true);
    write_string(&mut wire, "3").unwrap();
    write_bool(&mut wire, true);
    let mut nbt = NbtCompound::new();
    nbt.put_string("id", "minecraft:chest".to_string());
    write_nbt(&NbtTag::Compound(nbt), &mut wire).unwrap();
    write_var_int(&mut wire, 3);
    write_var_int(&mut wire, DataComponent::CustomData.to_id() as i32);
    let mut custom = NbtCompound::new();
    custom.put_string("marker", "preserved".to_string());
    write_nbt(&NbtTag::Compound(custom), &mut wire).unwrap();
    write_var_int(&mut wire, DataComponent::AttributeModifiers.to_id() as i32);
    write_var_int(&mut wire, 1);
    write_var_int(&mut wire, 3);
    write_string(&mut wire, "minecraft:nested_exact").unwrap();
    write_u64(&mut wire, 1.25f64.to_bits());
    write_var_int(&mut wire, 2);
    write_var_int(&mut wire, 3);
    write_var_int(&mut wire, 1);
    write_var_int(&mut wire, DataComponent::TooltipDisplay.to_id() as i32);
    write_bool(&mut wire, true);
    write_var_int(&mut wire, 1);
    write_var_int(&mut wire, DataComponent::TooltipStyle.to_id() as i32);
    write_var_int(&mut wire, 1);
    write_var_int(&mut wire, DataComponent::TooltipDisplay.to_id() as i32);

    let mut input = wire.as_slice();
    let decoded = predicates_place(&mut input, &regs).unwrap();
    assert!(input.is_empty());
    check_modifiers(first_predicate(&decoded.predicate));
    let mut encoded = Vec::new();
    decoded.serialize(&mut encoded, &Context::new(&regs)).unwrap();
    let mut redecoded_input = encoded.as_slice();
    let redecoded = predicates_place(&mut redecoded_input, &regs).unwrap();
    assert!(redecoded_input.is_empty());
    assert!(match_tags(&redecoded.predicate, &decoded.predicate, false));
}

#[test]
fn nested_attribute_modifier_exact_matcher_round_trips_wire_and_type() {
    let regs = wire_registries();
    let mut wire = Vec::new();
    write_var_int(&mut wire, 1);
    write_bool(&mut wire, false);
    write_bool(&mut wire, false);
    write_bool(&mut wire, false);
    write_var_int(&mut wire, 1);
    write_var_int(&mut wire, DataComponent::AttributeModifiers.to_id() as i32);
    write_var_int(&mut wire, 1);
    write_var_int(&mut wire, 3);
    write_string(&mut wire, "minecraft:nested_exact").unwrap();
    write_u64(&mut wire, 1.25f64.to_bits());
    write_var_int(&mut wire, 0);
    write_var_int(&mut wire, 0);
    write_var_int(&mut wire, 0);
    write_var_int(&mut wire, 0);

    let mut input = wire.as_slice();
    let decoded = predicates_place(&mut input, &regs).unwrap();
    assert!(input.is_empty());
    check_modifiers(first_predicate(&decoded.predicate));

    let mut encoded = Vec::new();
    decoded.serialize(&mut encoded, &Context::new(&regs)).unwrap();
    assert_eq!(encoded, wire);
}

#[test]
fn can_break_rejects_negative_and_unknown_component_ids() {
    let regs = wire_registries();
    let mut negative = &[0xff, 0xff, 0xff, 0xff, 0x0f][..];
    assert!(predicates_break(&mut negative, &regs).is_err());
    let unknown = vec![1, 0, 0, 0, 1, 0xff, 0xff, 0xff, 0x0f];
    let mut input = unknown.as_slice();
    assert!(predicates_break(&mut input, &regs).is_err());
}

#[test]
fn empty_predicate_lists_keep_the_official_zero_count_wire() {
    let regs = wire_registries();
    let mut place_on = Vec::new();
    CanPlaceOnImpl { predicate: NbtTag::List(Vec::new()) }
        .serialize(&mut place_on, &Context::new(&regs))
        .unwrap();
    assert_eq!(place_on, [0]);

    let mut breaks = Vec::new();
    CanBreakImpl { predicate: NbtTag::List(Vec::new()) }.serialize(&mut breaks, &Context::new(&regs)).unwrap();
    assert_eq!(breaks, [0]);
}

#[test]
fn adventure_predicate_limits_and_write_errors_are_rejected() {
    let regs = wire_registries();
    let mut too_many = Vec::new();
    write_var_int(&mut too_many, 257);
    let mut input = too_many.as_slice();
    assert!(predicates_place(&mut input, &regs).is_err());

    let mut unknown_block = NbtCompound::new();
    unknown_block.put_string("blocks", "minecraft:not_a_block".to_owned());
    let mut output = Vec::new();
    assert!(CanBreakImpl { predicate: NbtTag::Compound(unknown_block) }
        .serialize(&mut output, &Context::new(&regs))
        .is_err());

    let mut unknown_component = NbtCompound::new();
    unknown_component.put_string("minecraft:not_a_component", "value".to_owned());
    let mut components = NbtCompound::new();
    components.put("components", NbtTag::Compound(unknown_component));
    let mut predicate = NbtCompound::new();
    predicate.put("components", NbtTag::Compound(components));
    let mut output = Vec::new();
    assert!(CanPlaceOnImpl { predicate: NbtTag::Compound(predicate) }
        .serialize(&mut output, &Context::new(&regs))
        .is_err());
}

fn refused(value: &NbtTag, regs: &Registries) -> WritingError {
    CanPlaceOnImpl { predicate: value.clone() }.serialize(&mut Vec::new(), &Context::new(regs)).unwrap_err()
}

fn under(key: &str, tag: NbtTag) -> NbtTag {
    let mut c = NbtCompound::new();
    c.put(key, tag);
    NbtTag::Compound(c)
}

#[test]
fn refused_predicates_tell_the_name_that_is_wrong() {
    let regs = wire_registries();
    let named = |text: &'static str, name: &str| WritingError::Message(Detail { text, value: None, bound: None, name: Some(name.to_owned()) });
    let no_block = NbtTag::String("minecraft:not_a_block".to_owned());
    assert_eq!(refused(&under("blocks", no_block), &regs), named("Unknown adventure block: {}", "minecraft:not_a_block"));
    assert_eq!(
        refused(&under("state", under("axis", NbtTag::Int(1))), &regs),
        named("Invalid adventure state value: {}", "axis")
    );
    assert_eq!(
        refused(&under("state", under("axis", under("middle", NbtTag::String("x".to_owned())))), &regs),
        named("Unknown adventure state range field: {}", "axis")
    );
    assert_eq!(
        refused(&under("components", under("components", under("minecraft:none", NbtTag::Int(1)))), &regs),
        named("Unknown data component in adventure predicate: {}", "minecraft:none")
    );
    assert_eq!(
        refused(&under("components", under("components", under("minecraft:damage", NbtTag::String("x".to_owned())))), &regs),
        named("Invalid data for component {}", "minecraft:damage")
    );

    let mut wire = Vec::new();
    write_var_int(&mut wire, 1);
    write_bool(&mut wire, false);
    write_bool(&mut wire, true);
    write_var_int(&mut wire, 2);
    for _ in 0..2 {
        write_string(&mut wire, "axis").unwrap();
        write_bool(&mut wire, true);
        write_string(&mut wire, "x").unwrap();
    }
    assert_eq!(
        predicates_place(&mut wire.as_slice(), &regs).unwrap_err(),
        ReadingError::Message(Detail { text: "Duplicate adventure state property: {}", value: None, bound: None, name: Some("axis".to_owned()) })
    );

    let mut wire = Vec::new();
    write_var_int(&mut wire, 2);
    for _ in 0..2 {
        write_var_int(&mut wire, DataComponent::Damage.to_id() as i32);
        write_var_int(&mut wire, 5);
    }
    assert_eq!(
        read_components(&mut wire.as_slice(), &regs).unwrap_err(),
        ReadingError::Message(Detail {
            text: "Duplicate adventure exact component: {}",
            value: None,
            bound: None,
            name: Some("minecraft:damage".to_owned())
        })
    );
}

#[test]
fn exact_components_use_the_stored_forms_that_are_given() {
    let mut regs = wire_registries();
    let mut wire = Vec::new();
    write_var_int(&mut wire, 1);
    write_var_int(&mut wire, DataComponent::Enchantable.to_id() as i32);
    write_var_int(&mut wire, 9);
    write_var_int(&mut wire, 0);
    assert_eq!(
        read_components(&mut wire.as_slice(), &regs).unwrap_err(),
        ReadingError::Message(Detail { text: "component has no stored form", value: None, bound: None, name: None })
    );
    let tag = under("value", NbtTag::Int(9));
    regs.stored_forms.push(StoredForm { id: DataComponent::Enchantable, data: vec![9], tag: tag.clone() });
    let read = read_components(&mut wire.as_slice(), &regs).unwrap();
    assert_eq!(tag_wire(&read), tag_wire(&under("components", under("minecraft:enchantable", tag))));
    assert_eq!(write_components(&read, &regs), wire);
}

#[test]
fn too_many_predicates_are_told_by_their_number() {
    let regs = wire_registries();
    let mut wire = Vec::new();
    write_var_int(&mut wire, 257);
    assert_eq!(
        predicates_place(&mut wire.as_slice(), &regs).unwrap_err(),
        ReadingError::TooLarge(Detail { text: "adventure predicate count {} exceeds 256", value: Some(257), bound: None, name: None })
    );
}

#[test]
fn a_negative_count_of_colours_is_told_as_the_count_it_stands_for() {
    let regs = wire_registries();
    let mut wire = Vec::new();
    write_var_int(&mut wire, 0);
    write_var_int(&mut wire, -1);
    assert_eq!(
        decode_any(DataComponent::FireworkExplosion, &mut wire.as_slice(), &regs).unwrap_err(),
        ReadingError::Message(Detail {
            text: "FireworkExplosionImpl colors_len {} exceeds maximum of 256",
            value: Some(u64::MAX as i128),
            bound: None,
            name: None
        })
    );
}

#[test]
fn predicates_may_be_nested_as_deeply_as_the_input_is_long() {
    let regs = wire_registries();
    let mut wire = vec![0u8];
    for _ in 0..100 {
        let mut outer = vec![1, 0, 0, 0, 1];
        write_var_int(&mut outer, DataComponent::CanBreak.to_id() as i32);
        outer.extend_from_slice(&wire);
        outer.push(0);
        wire = outer;
    }
    let mut input = wire.as_slice();
    let read = predicates_place(&mut input, &regs).unwrap();
    assert!(input.is_empty());
    let mut written = Vec::new();
    read.serialize(&mut written, &Context::new(&regs)).unwrap();
    assert_eq!(written, wire);
}
