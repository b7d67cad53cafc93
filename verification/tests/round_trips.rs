#![allow(dead_code, unused_imports)]
use pumpkin_items::basic::{MaxDamageImpl, MaxStackSizeImpl};
use pumpkin_items::components::{ComponentValue, DataComponentImpl};
use pumpkin_items::data_component::DataComponent;
use pumpkin_items::item_stack::{BundleContentsImpl, Item, ItemStack, ItemStackIdGenerator, UseRemainderImpl};
use pumpkin_items::registry::{Block, Registries, VersionMap};
use pumpkin_items::version::JavaMinecraftVersion;
use std::sync::Arc;
use pumpkin_items::basic::DamageImpl;
use pumpkin_items::client_packets::CGameTestHighlightPos;
use pumpkin_items::codec::Context;
use pumpkin_items::elements::{data_to_proto_sound, proto_to_data_sound, IdOr, SoundEvent, TextComponent};
use pumpkin_items::errors::{NbtError, ReadingError};
use pumpkin_items::identifier::{parse_identifier, strip_namespace, strip_prefix};
use pumpkin_items::nbt_read::{NbtReadHelper, NbtReadHelperBedrock, NbtReadHelperJava};
use pumpkin_items::nbt_source::{ByteCursor, NbtAccounter, NbtDataSource};
use pumpkin_items::nbt_tag::{NbtCompound, NbtTag};
use pumpkin_items::serializer::ItemStackSerializer;
use pumpkin_items::server_packets::{ArgumentSignature, GameRuleEntry, SChatCommandSigned, SSetGameRule};
use pumpkin_items::wire::{get_bool, get_str_bounded, get_var_int, write_string_bounded, write_var_int};

/// An item with its number, its tags and its default components.
fn item(key: &str, id: u16, tags: &[&str], components: Vec<ComponentValue>) -> Arc<Item> {
    Arc::new(Item {
        id,
        registry_key: key.to_owned(),
        tags: tags.iter().map(|t| t.to_string()).collect(),
        components: components
            .into_iter()
            .map(|v| (v.get_self_enum(), Arc::new(v)))
            .collect(),
    })
}

fn stack_size(size: u8) -> ComponentValue {
    MaxStackSizeImpl { size }.to_dyn()
}

fn worn_out_at(max_damage: i32) -> Vec<ComponentValue> {
    vec![stack_size(1), MaxDamageImpl { max_damage }.to_dyn()]
}

fn names(list: &[&str]) -> Vec<String> {
    list.iter().map(|t| t.to_string()).collect()
}

fn block(name: &str, properties: &[&str], tags: &[&str]) -> Block {
    Block { name: name.to_owned(), properties: names(properties), tags: names(tags) }
}

/// The numbers of items and components in version 26.1, which lacks one component of the current
/// version.
fn older_version() -> VersionMap {
    let missing = DataComponent::SulfurCubeContent.to_id() as u32;
    let mut items_out: Vec<u16> = (0..2000).collect();
    items_out[920] = 893;
    let mut components_out: Vec<u32> = Vec::new();
    let mut components_in: Vec<u32> = Vec::new();
    for id in 0..111u32 {
        if id < missing {
            components_out.push(id);
        } else if id == missing {
            components_out.push(0);
        } else {
            components_out.push(id - 1);
        }
        components_in.push(if id < missing { id } else { id + 1 });
    }
    VersionMap {
        version: JavaMinecraftVersion::V_26_1,
        items_out,
        items_in: (0..2000).collect(),
        components_out,
        components_in,
    }
}

/// A small set of registries.
fn registries() -> Registries {
    let tools = |kind: &str, from: u16| -> Vec<Arc<Item>> {
        let tag = format!("minecraft:{kind}s");
        ["wooden", "stone", "iron", "golden", "diamond", "netherite"]
            .iter()
            .enumerate()
            .map(|(i, material)| {
                let max = if *material == "netherite" { 2031 } else { 250 };
                item(&format!("{material}_{kind}"), from + i as u16, &[&tag], worn_out_at(max))
            })
            .collect()
    };
    let plain = |key: &str, id: u16| item(key, id, &[], vec![stack_size(64)]);
    let mut items = vec![
        item("air", 0, &[], vec![]),
        plain("stone", 1),
        plain("bowl", 920),
        plain("coal", 30),
        plain("bucket", 31),
        plain("glass_bottle", 32),
        item("filled_map", 33, &[], vec![stack_size(64)]),
        item("totem_of_undying", 34, &[], vec![stack_size(1)]),
        item("music_disc_13", 35, &[], vec![stack_size(1)]),
        item("knowledge_book", 36, &[], vec![stack_size(1)]),
        item("crossbow", 37, &[], worn_out_at(465)),
        item("diamond_chestplate", 38, &["minecraft:enchantable/armor"], worn_out_at(528)),
        plain("oak_planks", 39),
        plain("oak_log", 43),
        plain("cobblestone", 40),
        item("shield", 41, &[], worn_out_at(336)),
        item("bundle", 42, &[], vec![stack_size(1), BundleContentsImpl { items: vec![] }.to_dyn()]),
    ];
    for (key, id, remainder) in [
        ("milk_bucket", 50, "bucket"),
        ("honey_bottle", 51, "glass_bottle"),
        ("mushroom_stew", 52, "bowl"),
        ("beetroot_soup", 53, "bowl"),
    ] {
        let into = items.iter().find(|i| i.registry_key == remainder).unwrap().clone();
        let convert_into = ItemStack::static_new_java(1, into);
        items.push(item(key, id, &[], vec![stack_size(1), UseRemainderImpl { convert_into }.to_dyn()]));
    }
    items.extend(tools("axe", 100));
    items.extend(tools("pickaxe", 110));
    items.extend(tools("shovel", 120));
    items.extend(tools("hoe", 130));
    items.extend(tools("sword", 140));
    let mut enchantments: Vec<String> = (0..39).map(|i| format!("minecraft:enchantment_{i}")).collect();
    enchantments.push("minecraft:unbreaking".to_owned());
    Registries {
        items,
        enchantments,
        effects: names(&["minecraft:speed", "minecraft:regeneration", "minecraft:absorption"]),
        sounds: names(&["ambient.cave", "entity.generic.eat", "item.armor.equip_generic"]),
        entity_types: names(&["minecraft:player", "minecraft:zombie"]),
        blocks: vec![
            block("air", &[], &[]),
            block("stone", &[], &["minecraft:base_stone_overworld"]),
            block("oak_log", &["axis"], &["minecraft:logs"]),
            block("oak_fence_gate", &["facing", "open"], &[]),
        ],
        attributes: names(&["minecraft:armor", "minecraft:armor_toughness", "minecraft:attack_damage"]),
        damage_types: names(&["in_fire", "lava"]),
        songs: names(&["13", "cat", "blocks"]),
        versions: vec![older_version()],
        stored_forms: vec![],
    }
}

fn find(regs: &Registries, key: &str) -> Arc<Item> {
    regs.items.iter().find(|i| i.registry_key == key).expect(key).clone()
}

fn stack_of(regs: &Registries, count: u8, key: &str) -> ItemStack {
    ItemStack::new(count, find(regs, key), &mut ItemStackIdGenerator::new())
}

fn ids() -> ItemStackIdGenerator {
    ItemStackIdGenerator::new()
}

fn through_the_wire(stack: ItemStack, version: JavaMinecraftVersion, regs: &Registries) -> ItemStack {
    let ctx = Context::new(regs);
    let mut bytes = Vec::new();
    ItemStackSerializer::from(stack).write_with_version(&mut bytes, &version, &ctx).unwrap();
    bytes.push(0x7f);
    let mut rest = bytes.as_slice();
    let back = ItemStackSerializer::read_with_version(&mut rest, &version, &ctx, &mut ids()).unwrap();
    assert_eq!(rest, [0x7f]);
    back.to_stack()
}

#[test]
fn stacks_come_back_in_every_version_with_components() {
    let regs = registries();
    for version in [
        JavaMinecraftVersion::V_1_20_5,
        JavaMinecraftVersion::V_1_21,
        JavaMinecraftVersion::V_26_1,
        JavaMinecraftVersion::V_26_2,
    ] {
        let mut sword = stack_of(&regs, 3, "iron_sword");
        sword.set_data_component(DamageImpl { damage: 9 });
        sword.remove_data_component(DataComponent::MaxDamage);
        let back = through_the_wire(sword.copy(), version, &regs);
        assert!(back.are_equal(&sword), "{version:?}");
    }
}

#[test]
fn stacks_keep_their_item_and_count_before_components() {
    let regs = registries();
    for version in [
        JavaMinecraftVersion::V_1_8,
        JavaMinecraftVersion::V_1_13,
        JavaMinecraftVersion::V_1_13_2,
        JavaMinecraftVersion::V_1_20_3,
    ] {
        let mut sword = stack_of(&regs, 200, "iron_sword");
        sword.set_data_component(DamageImpl { damage: 9 });
        let back = through_the_wire(sword, version, &regs);
        assert_eq!((back.item.id, back.item_count, back.patch.len()), (142, 200, 0), "{version:?}");
    }
}

#[test]
fn an_empty_stack_comes_back_empty_in_every_version() {
    let regs = registries();
    for version in [
        JavaMinecraftVersion::V_1_8,
        JavaMinecraftVersion::V_1_13,
        JavaMinecraftVersion::V_1_13_2,
        JavaMinecraftVersion::V_1_20_5,
        JavaMinecraftVersion::V_26_2,
    ] {
        assert!(through_the_wire(ItemStack::empty(), version, &regs).is_empty());
        assert!(through_the_wire(stack_of(&regs, 0, "stone"), version, &regs).is_empty());
    }
}

#[test]
fn stacks_come_back_from_their_stored_form() {
    let regs = registries();
    let mut sword = stack_of(&regs, 1, "iron_sword");
    sword.set_data_component(DamageImpl { damage: 9 });
    sword.set_custom_name("Thorn".to_owned());
    sword.set_custom_data("a", "x", NbtTag::Int(4));
    sword.remove_data_component(DataComponent::MaxDamage);
    let mut stored = NbtCompound::new();
    assert!(sword.write_item_stack(&mut stored, &regs).is_empty());
    let back = ItemStack::read_item_stack(&stored, &regs, &mut ids()).unwrap();
    assert!(back.are_equal(&sword));
}

#[test]
fn an_identifier_spells_itself() {
    for (given, written) in [
        ("stone", "minecraft:stone"),
        (":stone", "minecraft:stone"),
        ("a-b.c_d:e/f", "a-b.c_d:e/f"),
        ("", "minecraft:"),
    ] {
        let once = parse_identifier(given).unwrap();
        assert_eq!(once, written);
        assert_eq!(parse_identifier(&once), Some(once.clone()));
    }
    for bad in ["Stone", "a b", "a:b:c", "a/b:c", "é"] {
        assert_eq!(parse_identifier(bad), None);
    }
    assert_eq!(strip_namespace("minecraft:stone"), "stone");
    assert_eq!(strip_prefix("minecraft:stone", "minecraft:"), Some("stone".to_owned()));
    assert_eq!(strip_prefix("stone", "minecraft:"), None);
}

#[test]
fn game_rules_come_back() {
    let version = JavaMinecraftVersion::V_1_21_5;
    let packet = SSetGameRule {
        entries: vec![
            GameRuleEntry { game_rule_key: "keepInventory".to_owned(), value: "false".to_owned() },
            GameRuleEntry { game_rule_key: "é".to_owned(), value: String::new() },
        ],
    };
    let mut bytes = Vec::new();
    packet.write_packet_data(&mut bytes, &version).unwrap();
    let mut rest = bytes.as_slice();
    let back = SSetGameRule::read(&mut rest, &version).unwrap();
    assert!(rest.is_empty());
    let pairs: Vec<(&str, &str)> = back.entries.iter().map(|e| (e.game_rule_key.as_str(), e.value.as_str())).collect();
    assert_eq!(pairs, vec![("keepInventory", "false"), ("é", "")]);
}

#[test]
fn signed_commands_come_back() {
    let version = JavaMinecraftVersion::V_1_21_5;
    let packet = SChatCommandSigned {
        command: "msg a b".to_owned(),
        timestamp: -5,
        salt: 77,
        argument_signatures: vec![ArgumentSignature { name: "target".to_owned(), signature: vec![9; 256] }],
        message_count: 3,
        acknowledged: vec![1, 2, 3],
        checksum: 200,
    };
    let mut bytes = Vec::new();
    packet.write_packet_data(&mut bytes, &version).unwrap();
    let mut rest = bytes.as_slice();
    let back = SChatCommandSigned::read(&mut rest, &version).unwrap();
    assert!(rest.is_empty());
    assert_eq!((back.command.as_str(), back.timestamp, back.salt, back.message_count, back.checksum), ("msg a b", -5, 77, 3, 200));
    assert_eq!(back.acknowledged, vec![1, 2, 3]);
    assert_eq!((back.argument_signatures[0].name.as_str(), back.argument_signatures[0].signature.len()), ("target", 256));
}

#[test]
fn highlighted_positions_come_back() {
    let version = JavaMinecraftVersion::V_26_2;
    let packet = CGameTestHighlightPos::new(
        pumpkin_items::elements::BlockPos { x: -1, y: 70, z: i32::MAX },
        pumpkin_items::elements::BlockPos { x: 0, y: i32::MIN, z: 5 },
    );
    let mut bytes = Vec::new();
    packet.write_packet_data(&mut bytes, &version).unwrap();
    let mut rest = bytes.as_slice();
    let back = CGameTestHighlightPos::read(&mut rest, &version).unwrap();
    assert!(rest.is_empty());
    assert_eq!((back.absolute_pos.x, back.absolute_pos.y, back.absolute_pos.z), (-1, 70, i32::MAX));
    assert_eq!((back.relative_pos.x, back.relative_pos.y, back.relative_pos.z), (0, i32::MIN, 5));
}

#[test]
fn numbers_and_texts_come_back_within_their_bounds() {
    for v in [0, 1, 127, 128, 255, i32::MAX, -1, i32::MIN] {
        let mut bytes = Vec::new();
        write_var_int(&mut bytes, v);
        assert_eq!(get_var_int(&mut bytes.as_slice()), Ok(v));
    }
    assert_eq!(get_var_int(&mut [0x80u8].as_slice()), Err(ReadingError::Incomplete));
    assert!(matches!(get_var_int(&mut [0xffu8; 6].as_slice()), Err(ReadingError::TooLarge(_))));
    assert_eq!(get_bool(&mut [].as_slice()), Err(ReadingError::Incomplete));
    let mut bytes = Vec::new();
    write_string_bounded(&mut bytes, "aé🌱", 8).unwrap();
    assert_eq!(bytes, [7, b'a', 0xc3, 0xa9, 0xf0, 0x9f, 0x8c, 0xb1]);
    assert_eq!(get_str_bounded(&mut bytes.as_slice(), 8).unwrap(), "aé🌱");
    assert!(matches!(get_str_bounded(&mut bytes.as_slice(), 1), Err(ReadingError::TooLarge(_))));
    assert!(matches!(get_str_bounded(&mut [1u8, 0xff].as_slice(), 8), Err(ReadingError::Message(_))));
}

#[test]
fn the_limits_of_tags_are_told_apart() {
    let mut cursor = ByteCursor::new(&[1, 2, 3]);
    assert_eq!(cursor.seek_relative(-1), Err(NbtError::InvalidSeek));
    assert_eq!(cursor.seek_relative(2), Ok(()));
    let mut reader = NbtReadHelperJava::new(cursor);
    assert_eq!(reader.get_u8(), Ok(3));
    assert_eq!(reader.get_u8(), Err(NbtError::Incomplete));
    let mut quota = NbtAccounter::new(10);
    assert_eq!(quota.charge(7), Ok(()));
    assert_eq!(quota.charge(4), Err(NbtError::NbtQuotaExceeded { quota: 10 }));
    assert_eq!(quota.accounted(), 7);
    let mut bedrock = NbtReadHelperBedrock::new(ByteCursor::new(&[2, b'h', b'i', 5, 0]));
    assert_eq!(bedrock.get_string().unwrap(), "hi");
    assert_eq!(bedrock.get_i16(), Ok(5));
}

#[test]
fn texts_have_one_form_as_json() {
    assert_eq!(pumpkin_items::json::SentText::text("a\"b\\c\n\u{1}é".to_owned()).json, "{\"text\":\"a\\\"b\\\\c\\n\\u0001é\"}");
}

#[test]
fn sounds_of_packets_are_known_by_number_or_carry_their_names() {
    let regs = registries();
    let direct = IdOr::Value(SoundEvent { sound_name: "custom:ring".to_owned(), range: Some(4.0f32.to_bits()) });
    assert_eq!(proto_to_data_sound(&direct, &regs), Some(data_to_proto_sound(&direct)));
    assert_eq!(data_to_proto_sound(&direct), direct);
    assert_eq!(proto_to_data_sound(&IdOr::Id(2), &regs), Some(IdOr::Id(2)));
    assert_eq!(proto_to_data_sound(&IdOr::Id(3), &regs), None);
}
