#![allow(dead_code, unused_imports)]
use pumpkin_items::basic::{MaxDamageImpl, MaxStackSizeImpl};
use pumpkin_items::components::{ComponentValue, DataComponentImpl};
use pumpkin_items::data_component::DataComponent;
use pumpkin_items::item_stack::{BundleContentsImpl, Item, ItemStack, ItemStackIdGenerator, UseRemainderImpl};
use pumpkin_items::registry::{Block, Registries, VersionMap};
use pumpkin_items::version::JavaMinecraftVersion;
use std::sync::Arc;
use pumpkin_items::client_packets::{CChunksBiomes, CConfigAddResourcePack, CConfigDisconnect, CGameTestHighlightPos, CKeepAlive, CPlaceGhostRecipe, CServerData, CTestInstanceBlockStatus, CWaypoint, ChunkBiomeEntry, RecipeDisplay, SlotDisplay, TrackedWaypoint, WaypointIcon, WaypointIdentifier, WaypointOperation, WaypointTarget};
use pumpkin_items::codec::Context;
use pumpkin_items::elements::{BlockPos, TextComponent};
use pumpkin_items::json::{SentText, TextForm};
use pumpkin_items::errors::{Detail, ReadingError, WritingError};
use pumpkin_items::login::{offline_player_uuid, SLoginStart};
use pumpkin_items::nbt_tag::{NbtCompound, NbtTag};
use pumpkin_items::recipes::{resolve_ingredient, stack_of_result, write_generated_vanilla, write_ingredient, CUpdateRecipes, CookingKind, CookingRecipe, RecipeBook, RecipeIngredientTypes, RecipeResultStruct, SmithingRecipe, StonecuttingRecipe};
use pumpkin_items::serializer_write::ItemStackTemplateSerializer;
use pumpkin_items::server_packets::{ArgumentSignature, GameRuleEntry, SChatCommandSigned, SChatMessage, SClientInformationPlay, SSetGameRule, SSetPlayerGround, MAX_ARGUMENT_SIGNATURES};
use pumpkin_items::wire::{get_i64_be, get_var_int, write_i64_be, write_string, write_var_int};
use std::collections::BTreeMap;

/// An item with its number, its tags and its default components.
fn item(key: &str, id: u16, tags: &[&str], components: Vec<ComponentValue>) -> Arc<Item> {
    Arc::new(Item {
        id,
        registry_key: key.to_owned(),
        tags: tags.iter().map(|t| t.to_string()).collect(),
        components: components
            .into_iter()
            .map(|v| (v.get_self_enum(), Arc::new(v)))
            .collect(),
    })
}

fn stack_size(size: u8) -> ComponentValue {
    MaxStackSizeImpl { size }.to_dyn()
}

fn worn_out_at(max_damage: i32) -> Vec<ComponentValue> {
    vec![stack_size(1), MaxDamageImpl { max_damage }.to_dyn()]
}

fn names(list: &[&str]) -> Vec<String> {
    list.iter().map(|t| t.to_string()).collect()
}

fn block(name: &str, properties: &[&str], tags: &[&str]) -> Block {
    Block { name: name.to_owned(), properties: names(properties), tags: names(tags) }
}

/// The numbers of items and components in version 26.1, which lacks one component of the current
/// version.
fn older_version() -> VersionMap {
    let missing = DataComponent::SulfurCubeContent.to_id() as u32;
    let mut items_out: Vec<u16> = (0..2000).collect();
    items_out[920] = 893;
    let mut components_out: Vec<u32> = Vec::new();
    let mut components_in: Vec<u32> = Vec::new();
    for id in 0..111u32 {
        if id < missing {
            components_out.push(id);
        } else if id == missing {
            components_out.push(0);
        } else {
            components_out.push(id - 1);
        }
        components_in.push(if id < missing { id } else { id + 1 });
    }
    VersionMap {
        version: JavaMinecraftVersion::V_26_1,
        items_out,
        items_in: (0..2000).collect(),
        components_out,
        components_in,
    }
}

/// A small set of registries.
fn registries() -> Registries {
    let tools = |kind: &str, from: u16| -> Vec<Arc<Item>> {
        let tag = format!("minecraft:{kind}s");
        ["wooden", "stone", "iron", "golden", "diamond", "netherite"]
            .iter()
            .enumerate()
            .map(|(i, material)| {
                let max = if *material == "netherite" { 2031 } else { 250 };
                item(&format!("{material}_{kind}"), from + i as u16, &[&tag], worn_out_at(max))
            })
            .collect()
    };
    let plain = |key: &str, id: u16| item(key, id, &[], vec![stack_size(64)]);
    let mut items = vec![
        item("air", 0, &[], vec![]),
        plain("stone", 1),
        plain("bowl", 920),
        plain("coal", 30),
        plain("bucket", 31),
        plain("glass_bottle", 32),
        item("filled_map", 33, &[], vec![stack_size(64)]),
        item("totem_of_undying", 34, &[], vec![stack_size(1)]),
        item("music_disc_13", 35, &[], vec![stack_size(1)]),
        item("knowledge_book", 36, &[], vec![stack_size(1)]),
        item("crossbow", 37, &[], worn_out_at(465)),
        item("diamond_chestplate", 38, &["minecraft:enchantable/armor"], worn_out_at(528)),
        plain("oak_planks", 39),
        plain("oak_log", 43),
        plain("cobblestone", 40),
        item("shield", 41, &[], worn_out_at(336)),
        item("bundle", 42, &[], vec![stack_size(1), BundleContentsImpl { items: vec![] }.to_dyn()]),
    ];
    for (key, id, remainder) in [
        ("milk_bucket", 50, "bucket"),
        ("honey_bottle", 51, "glass_bottle"),
        ("mushroom_stew", 52, "bowl"),
        ("beetroot_soup", 53, "bowl"),
    ] {
        let into = items.iter().find(|i| i.registry_key == remainder).unwrap().clone();
        let convert_into = ItemStack::static_new_java(1, into);
        items.push(item(key, id, &[], vec![stack_size(1), UseRemainderImpl { convert_into }.to_dyn()]));
    }
    items.extend(tools("axe", 100));
    items.extend(tools("pickaxe", 110));
    items.extend(tools("shovel", 120));
    items.extend(tools("hoe", 130));
    items.extend(tools("sword", 140));
    let mut enchantments: Vec<String> = (0..39).map(|i| format!("minecraft:enchantment_{i}")).collect();
    enchantments.push("minecraft:unbreaking".to_owned());
    Registries {
        items,
        enchantments,
        effects: names(&["minecraft:speed", "minecraft:regeneration", "minecraft:absorption"]),
        sounds: names(&["ambient.cave", "entity.generic.eat", "item.armor.equip_generic"]),
        entity_types: names(&["minecraft:player", "minecraft:zombie"]),
        blocks: vec![
            block("air", &[], &[]),
            block("stone", &[], &["minecraft:base_stone_overworld"]),
            block("oak_log", &["axis"], &["minecraft:logs"]),
            block("oak_fence_gate", &["facing", "open"], &[]),
        ],
        attributes: names(&["minecraft:armor", "minecraft:armor_toughness", "minecraft:attack_damage"]),
        damage_types: names(&["in_fire", "lava"]),
        songs: names(&["13", "cat", "blocks"]),
        versions: vec![older_version()],
        stored_forms: vec![],
    }
}

fn find(regs: &Registries, key: &str) -> Arc<Item> {
    regs.items.iter().find(|i| i.registry_key == key).expect(key).clone()
}

fn stack_of(regs: &Registries, count: u8, key: &str) -> ItemStack {
    ItemStack::new(count, find(regs, key), &mut ItemStackIdGenerator::new())
}

const CURRENT: JavaMinecraftVersion = JavaMinecraftVersion::V_26_2;

fn literal(t: &str) -> SentText {
    SentText::text(t.to_owned())
}

fn position(x: i32, y: i32, z: i32) -> BlockPos {
    BlockPos { x, y, z }
}

fn write_hash(hash: &str) -> Result<(), WritingError> {
    let packet = CConfigAddResourcePack::new([0; 16], String::new(), hash.to_owned(), false, None);
    packet.write_packet_data(&mut Vec::new(), &CURRENT)
}

#[test]
fn accepts_40_byte_hash() {
    assert!(write_hash(&"a".repeat(40)).is_ok());
}

#[test]
fn rejects_41_byte_hash() {
    assert!(write_hash(&"a".repeat(41)).is_err());
}

#[test]
fn config_disconnect_uses_component_wire_codec_for_version() {
    let packet = CConfigDisconnect::new(literal("kicked"));

    let mut legacy = Vec::new();
    packet.write_packet_data(&mut legacy, &JavaMinecraftVersion::V_1_20_2).unwrap();
    assert_eq!(legacy, b"\x11{\"text\":\"kicked\"}");

    let mut current = Vec::new();
    packet.write_packet_data(&mut current, &CURRENT).unwrap();
    // An unnamed tag: no field for the name of the root.
    assert_eq!(current, &[0x08, 0, 6, b'k', b'i', b'c', b'k', b'e', b'd']);
}

#[test]
fn configuration_keep_alive_uses_a_big_endian_long() {
    let packet = CKeepAlive::new(0x0102_0304_0506_0708);
    let mut payload = Vec::new();
    packet.write_packet_data(&mut payload, &CURRENT).unwrap();
    assert_eq!(payload, [1, 2, 3, 4, 5, 6, 7, 8]);

    let mut read = payload.as_slice();
    assert_eq!(get_i64_be(&mut read).unwrap(), packet.keep_alive_id);
    assert!(read.is_empty());
}

#[test]
fn writes_official_chunk_position_and_length_prefixed_biomes() {
    let data: Vec<u8> = (0..128).collect();
    let chunks = vec![ChunkBiomeEntry { chunk_x: 0x0102_0304, chunk_z: 0x0506_0708, data }];
    let mut bytes = Vec::new();
    CChunksBiomes::new(chunks).write_packet_data(&mut bytes, &CURRENT).unwrap();

    let mut expected: Vec<u8> = vec![
        0x01, // one chunk
        0x05, 0x06, 0x07, 0x08, // packed ChunkPos long, big-endian high (z) half
        0x01, 0x02, 0x03, 0x04, // low (x) half
        0x80, 0x01, // VarInt(128) byte-array length
    ];
    expected.extend(0..128);
    assert_eq!(bytes, expected);
}

#[test]
fn writes_two_vec3i_positions_as_varints() {
    let packet = CGameTestHighlightPos::new(position(1, -2, 300), position(4, 5, 6));
    let mut bytes = Vec::new();
    packet.write_packet_data(&mut bytes, &CURRENT).unwrap();
    assert_eq!(bytes, [1, 0xFE, 0xFF, 0xFF, 0xFF, 0x0F, 0xAC, 0x02, 4, 5, 6]);
    let mut input = bytes.as_slice();
    let decoded = CGameTestHighlightPos::read(&mut input, &CURRENT).unwrap();
    assert_eq!(decoded.absolute_pos, packet.absolute_pos);
    assert_eq!(decoded.relative_pos, packet.relative_pos);
    assert!(input.is_empty());
}

fn encode_display(display: RecipeDisplay, regs: &Registries) -> Vec<u8> {
    let packet = CPlaceGhostRecipe::with_display(2, display);
    let mut bytes = Vec::new();
    packet.write_packet_data(&mut bytes, &CURRENT, regs).expect("encode ghost recipe");
    bytes
}

fn check_varints(bytes: &[u8], expected: &[i32]) {
    let mut cursor = bytes;
    for expected in expected {
        assert_eq!(get_var_int(&mut cursor).expect("decode VarInt"), *expected);
    }
    assert!(cursor.is_empty());
}

#[test]
fn typed_display_is_rejected_before_26_2() {
    let regs = registries();
    let stone = find(&regs, "stone");
    let display = RecipeDisplay::Shapeless {
        ingredients: vec![SlotDisplay::Item(stone.clone())],
        result: SlotDisplay::Item(stone),
        crafting_station: SlotDisplay::Empty,
    };
    let packet = CPlaceGhostRecipe::with_display(2, display);
    assert!(matches!(
        packet.write_packet_data(&mut Vec::new(), &JavaMinecraftVersion::V_26_1, &regs),
        Err(WritingError::Message(_))
    ));
}

#[test]
fn legacy_recipe_26_1_golden() {
    let packet = CPlaceGhostRecipe::new(2, "minecraft:stone".to_owned());
    let mut bytes = Vec::new();
    packet
        .write_packet_data(&mut bytes, &JavaMinecraftVersion::V_26_1, &registries())
        .expect("encode legacy ghost recipe");
    assert_eq!(bytes, b"\x02\x0fminecraft:stone");
}

#[test]
fn shapeless_display_26_2_golden() {
    let regs = registries();
    let stone = find(&regs, "stone");
    let display = RecipeDisplay::Shapeless {
        ingredients: vec![SlotDisplay::Item(stone.clone()), SlotDisplay::Item(stone.clone())],
        result: SlotDisplay::Item(stone),
        crafting_station: SlotDisplay::Empty,
    };
    let golden = [2, 0, 2, 4, 1, 4, 1, 4, 1, 0];
    assert_eq!(encode_display(display, &regs), golden);
    check_varints(&golden, &[2, 0, 2, 4, 1, 4, 1, 4, 1, 0]);
}

#[test]
fn shaped_display_26_2_golden_and_legacy_adapter_is_unsupported() {
    let regs = registries();
    let stone = find(&regs, "stone");
    let display = RecipeDisplay::Shaped {
        width: 2,
        height: 1,
        ingredients: vec![SlotDisplay::Item(stone.clone()), SlotDisplay::Empty],
        result: SlotDisplay::Item(stone.clone()),
        crafting_station: SlotDisplay::Empty,
    };
    let golden = [2, 1, 2, 1, 2, 4, 1, 0, 4, 1, 0];
    let encoded = encode_display(display, &regs);
    assert_eq!(encoded, golden);

    // Window, shaped display, width, height, ingredient count, an item and an empty slot, then the
    // result and the station.
    let stone_id = stone.id as i32;
    check_varints(&encoded, &[2, 1, 2, 1, 2, 4, stone_id, 0, 4, stone_id, 0]);

    let legacy = CPlaceGhostRecipe::new(2, "minecraft:stone".to_owned());
    assert!(matches!(
        legacy.write_packet_data(&mut Vec::new(), &CURRENT, &regs),
        Err(WritingError::Message(_))
    ));
}

#[test]
fn favicon_uses_byte_array_length_prefix() {
    let packet = CServerData::new(literal("hello"), Some("AQID".to_owned()));
    let mut bytes = Vec::new();
    packet.write_packet_data(&mut bytes, &CURRENT).unwrap();

    let mut expected = literal("hello").encode_for_version(&CURRENT).unwrap();
    expected.extend_from_slice(&[1, 3, 1, 2, 3]);
    assert_eq!(bytes, expected);
}

#[test]
fn absent_favicon_writes_only_false_presence() {
    let packet = CServerData::new(literal("hello"), None);
    let mut bytes = Vec::new();
    packet.write_packet_data(&mut bytes, &CURRENT).unwrap();

    let mut expected = literal("hello").encode_for_version(&CURRENT).unwrap();
    expected.push(0);
    assert_eq!(bytes, expected);
}

#[test]
fn a_favicon_that_is_no_base64_has_no_bytes() {
    let packet = CServerData::new(literal("hello"), Some("A?".to_owned()));
    let mut bytes = Vec::new();
    packet.write_packet_data(&mut bytes, &CURRENT).unwrap();
    assert_eq!(&bytes[bytes.len() - 2..], [1, 0]);

    let packet = CServerData::new(literal("hello"), Some("data:image/png;base64,AQID".to_owned()));
    let mut bytes = Vec::new();
    packet.write_packet_data(&mut bytes, &CURRENT).unwrap();
    assert_eq!(&bytes[bytes.len() - 5..], [1, 3, 1, 2, 3]);
}

#[test]
fn writes_status_and_optional_size() {
    let packet = CTestInstanceBlockStatus::new(literal("ready"), Some(position(2, -1, 3)));
    let mut bytes = Vec::new();
    packet.write_packet_data(&mut bytes, &CURRENT).unwrap();

    let mut expected = literal("ready").encode_for_version(&CURRENT).unwrap();
    expected.extend_from_slice(&[1, 2, 0xFF, 0xFF, 0xFF, 0xFF, 0x0F, 3]);
    assert_eq!(bytes, expected);

    let mut input = bytes.as_slice();
    let decoded = CTestInstanceBlockStatus::read(&mut input, &CURRENT).unwrap();
    assert_eq!(decoded.size, packet.size);
    assert!(input.is_empty());
}

fn simple(id: &str) -> RecipeIngredientTypes {
    RecipeIngredientTypes::Simple(id.to_owned())
}

fn tagged(id: &str) -> RecipeIngredientTypes {
    RecipeIngredientTypes::Tagged(id.to_owned())
}

#[test]
fn holderset_direct_and_named_tag_fixtures() {
    let regs = recipe_registries();
    let mut direct = Vec::new();
    write_ingredient(&mut direct, &simple("minecraft:stone"), CURRENT, &regs).unwrap();
    assert_eq!(direct, [2, regs.remap_item_id_for_version(find(&regs, "stone").id, CURRENT) as u8]);

    let mut named = Vec::new();
    write_ingredient(&mut named, &tagged("#minecraft:logs_that_burn"), CURRENT, &regs).unwrap();
    let mut expected = vec![0, 24]; // named-set marker + identifier byte length
    expected.extend_from_slice(b"minecraft:logs_that_burn");
    assert_eq!(named, expected);
}

fn next_string(input: &mut &[u8]) -> String {
    let len = get_var_int(input).unwrap() as usize;
    let (head, tail) = input.split_at(len);
    *input = tail;
    String::from_utf8(head.to_vec()).unwrap()
}

fn recipe_registries() -> Registries {
    let mut regs = registries();
    let more = [
        ("diamond_spear", 200, vec![]),
        ("netherite_spear", 201, vec![]),
        ("netherite_ingot", 202, vec![]),
        ("iron_helmet", 203, vec!["minecraft:trimmable_armor"]),
        ("netherite_upgrade_smithing_template", 204, vec![]),
        ("raw_iron", 205, vec![]),
        ("beef", 206, vec![]),
        ("potato", 207, vec![]),
        ("sentry_armor_trim_smithing_template", 208, vec![]),
        ("oak_log", 210, vec!["minecraft:logs_that_burn"]),
        ("amethyst_shard", 209, vec!["minecraft:trim_materials"]),
    ];
    for (key, id, tags) in more {
        regs.items.push(item(key, id, &tags, vec![stack_size(64)]));
    }
    regs
}

fn recipe_book() -> RecipeBook {
    let cooking = |kind: CookingKind, id: &str| CookingRecipe { kind, ingredient: simple(id) };
    let cut = |from: &str, id: &str, count: u8| StonecuttingRecipe {
        ingredient: simple(from),
        result: RecipeResultStruct { id: id.to_owned(), count },
    };
    RecipeBook {
        cooking: vec![
            cooking(CookingKind::Blasting, "minecraft:raw_iron"),
            cooking(CookingKind::Smelting, "minecraft:raw_iron"),
            cooking(CookingKind::Smelting, "minecraft:cobblestone"),
            cooking(CookingKind::Smoking, "minecraft:beef"),
            cooking(CookingKind::CampfireCooking, "minecraft:potato"),
        ],
        smithing_transform: vec![SmithingRecipe {
            template: simple("minecraft:netherite_upgrade_smithing_template"),
            base: simple("minecraft:diamond_spear"),
            addition: simple("minecraft:netherite_ingot"),
        }],
        smithing_trim: vec![SmithingRecipe {
            template: simple("minecraft:sentry_armor_trim_smithing_template"),
            base: tagged("#minecraft:trimmable_armor"),
            addition: tagged("#minecraft:trim_materials"),
        }],
        stonecutting: vec![
            cut("minecraft:stone", "minecraft:cobblestone", 1),
            cut("minecraft:cobblestone", "minecraft:stone", 2),
        ],
    }
}

#[test]
fn generated_26_2_baseline_has_all_property_sets_and_stonecutter_count() {
    let regs = recipe_registries();
    let ctx = Context::new(&regs);
    let book = recipe_book();
    let mut bytes = Vec::new();
    write_generated_vanilla(&mut bytes, CURRENT, &book, &ctx).unwrap();
    let mut input = bytes.as_slice();
    assert_eq!(get_var_int(&mut input).unwrap(), 7);
    let mut keys = BTreeMap::new();
    for _ in 0..7 {
        let key = next_string(&mut input);
        let count = get_var_int(&mut input).unwrap();
        let mut ids = Vec::new();
        for _ in 0..count {
            ids.push(get_var_int(&mut input).unwrap() as u32);
        }
        assert!(keys.insert(key, ids).is_none());
    }
    assert_eq!(keys.len(), 7);
    let number = |key: &str| regs.remap_item_id_for_version(find(&regs, key).id, CURRENT) as u32;
    let smithing_base = &keys["minecraft:smithing_base"];
    assert!(smithing_base.contains(&number("diamond_spear")));
    assert!(keys["minecraft:smithing_addition"].contains(&number("netherite_ingot")));
    assert!(smithing_base.contains(&number("iron_helmet"))); // expanded trimmable_armor tag
    assert!(!keys.values().flatten().any(|id| *id == number("air")));

    let rest = input;
    let mut expected = Vec::new();
    write_var_int(&mut expected, book.stonecutting.len() as i32);
    for recipe in &book.stonecutting {
        write_ingredient(&mut expected, &recipe.ingredient, CURRENT, &regs).unwrap();
        write_var_int(&mut expected, 5);
        let stack = stack_of_result(&recipe.result, &regs, &mut ItemStackIdGenerator::new());
        ItemStackTemplateSerializer::from(stack).write_with_version(&mut expected, &CURRENT, &ctx).unwrap();
    }
    assert_eq!(rest, expected);

    let mut packet = Vec::new();
    CUpdateRecipes::generated_vanilla().write_packet_data(&mut packet, &CURRENT, &book, &ctx).unwrap();
    assert_eq!(packet, bytes);
}

#[test]
fn recipes_of_unknown_items_are_refused() {
    let regs = registries();
    assert!(write_ingredient(&mut Vec::new(), &simple("minecraft:no_such_item"), CURRENT, &regs).is_err());
}

fn icon(color: Option<u32>) -> WaypointIcon {
    WaypointIcon { style: "minecraft:default".to_owned(), color }
}

fn encode_waypoint(packet: &CWaypoint) -> Vec<u8> {
    let mut bytes = Vec::new();
    packet.write_packet_data(&mut bytes, &JavaMinecraftVersion::V_1_21_2).unwrap();
    bytes
}

#[test]
fn uuid_identifier_required_icon_absent_rgb_and_vec3i_golden() {
    let packet = CWaypoint::add_position([0; 16], icon(None), position(1, -1, 2));
    assert_eq!(
        encode_waypoint(&packet),
        [
            0x00, 0x01, // Track, UUID identifier
            0x00, 0x00, 0x00, 0x00, 0x00, 0x00, 0x00, 0x00, 0x00, 0x00, 0x00, 0x00, 0x00, 0x00,
            0x00, 0x00, // UUID
            0x11, b'm', b'i', b'n', b'e', b'c', b'r', b'a', b'f', b't', b':', b'd', b'e', b'f',
            b'a', b'u', b'l', b't', 0x00, // absent RGB
            0x01, 0x01, 0xff, 0xff, 0xff, 0xff, 0x0f, 0x02, // Vec3i target
        ]
    );
}

#[test]
fn string_identifier_and_present_rgb_golden() {
    let packet = CWaypoint::new(
        WaypointOperation::Update,
        TrackedWaypoint {
            identifier: WaypointIdentifier::String("home".to_owned()),
            icon: icon(Some(0x12_3456)),
            target: WaypointTarget::Empty,
        },
    );
    assert_eq!(
        encode_waypoint(&packet),
        [
            0x02, 0x00, 0x04, b'h', b'o', b'm', b'e', // Update, String identifier
            0x11, b'm', b'i', b'n', b'e', b'c', b'r', b'a', b'f', b't', b':', b'd', b'e', b'f',
            b'a', b'u', b'l', b't', 0x01, 0x00, 0x12, 0x34,
            0x56, // required Icon, present RGB
            0x00, // Empty target
        ]
    );
}

#[test]
fn colored_icon_full_packet_uses_rgb_bytes() {
    let packet = CWaypoint::add_position([0; 16], icon(Some(0x12_3456)), position(1, -1, 2));
    let mut bytes = vec![0x8a, 0x01]; // 26.2 Waypoint packet ID
    packet.write_packet_data(&mut bytes, &CURRENT).unwrap();
    assert_eq!(
        bytes,
        [
            0x8a, 0x01, // 26.2 Waypoint packet ID
            0x00, 0x01, // Track, UUID identifier
            0x00, 0x00, 0x00, 0x00, 0x00, 0x00, 0x00, 0x00, 0x00, 0x00, 0x00, 0x00, 0x00,
            0x00, 0x00, 0x00, // UUID
            0x11, b'm', b'i', b'n', b'e', b'c', b'r', b'a', b'f', b't', b':', b'd', b'e', b'f',
            b'a', b'u', b'l', b't', 0x01, 0x12, 0x34, 0x56, // Present RGB in R,G,B order
            0x01, 0x01, 0xff, 0xff, 0xff, 0xff, 0x0f, 0x02, // Vec3i target
        ]
    );
}

#[test]
fn chunk_azimuth_and_untrack_tombstone_golden() {
    let chunk = CWaypoint::new(
        WaypointOperation::Track,
        TrackedWaypoint {
            identifier: WaypointIdentifier::String("x".to_owned()),
            icon: icon(None),
            target: WaypointTarget::Chunk { x: -1, z: 2 },
        },
    );
    assert_eq!(
        encode_waypoint(&chunk),
        [
            0x00, 0x00, 0x01, b'x', 0x11, b'm', b'i', b'n', b'e', b'c', b'r', b'a', b'f', b't',
            b':', b'd', b'e', b'f', b'a', b'u', b'l', b't', 0x00, 0x02, 0xff, 0xff, 0xff, 0xff,
            0x0f, 0x02,
        ]
    );

    let azimuth = CWaypoint::new(
        WaypointOperation::Update,
        TrackedWaypoint {
            identifier: WaypointIdentifier::Uuid([0; 16]),
            icon: icon(None),
            target: WaypointTarget::Azimuth(1.0f32.to_bits()),
        },
    );
    let mut azimuth_golden = vec![
        0x02, 0x01, 0, 0, 0, 0, 0, 0, 0, 0, 0, 0, 0, 0, 0, 0, 0, 0, 0x11, b'm', b'i', b'n',
        b'e', b'c', b'r', b'a', b'f', b't', b':', b'd', b'e', b'f', b'a', b'u', b'l', b't',
        0x00, 0x03,
    ];
    azimuth_golden.extend_from_slice(&1.0_f32.to_be_bytes());
    assert_eq!(encode_waypoint(&azimuth), azimuth_golden);

    let tombstone = CWaypoint::remove([0; 16]);
    assert_eq!(
        encode_waypoint(&tombstone),
        [
            0x01, 0x01, 0, 0, 0, 0, 0, 0, 0, 0, 0, 0, 0, 0, 0, 0, 0, 0, 0x11, b'm', b'i', b'n',
            b'e', b'c', b'r', b'a', b'f', b't', b':', b'd', b'e', b'f', b'a', b'u', b'l', b't',
            0x00, 0x00,
        ]
    );
}

const OFFLINE: [u8; 16] = [
    0x5c, 0xd8, 0x59, 0x36, 0xba, 0x17, 0x30, 0x80, 0x89, 0x70, 0xd7, 0x78, 0x2f, 0x16, 0xc9, 0xb5,
];

#[test]
fn missing_uuid_uses_minecraft_offline_uuid() {
    let mut input = &[7, b'U', b'u', b'i', b'd', b'B', b'o', b't'][..];
    let packet = SLoginStart::read(&mut input, &JavaMinecraftVersion::V_1_18_2).unwrap();
    assert_eq!(packet.uuid, OFFLINE);
    assert_eq!(offline_player_uuid("UuidBot"), OFFLINE);
}

#[test]
fn login_start_round_trip() {
    let packet = SLoginStart { name: "UuidBot".to_owned(), uuid: [7; 16] };
    for version in [JavaMinecraftVersion::V_1_19_1, JavaMinecraftVersion::V_1_20_2, CURRENT] {
        let mut bytes = Vec::new();
        packet.write_packet_data(&mut bytes, &version).unwrap();
        let mut input = bytes.as_slice();
        let read = SLoginStart::read(&mut input, &version).unwrap();
        assert!(input.is_empty());
        assert_eq!(read.name, "UuidBot");
        assert_eq!(read.uuid, [7; 16]);
    }
    let long = SLoginStart { name: "a".repeat(17), uuid: [7; 16] };
    assert!(long.write_packet_data(&mut Vec::new(), &CURRENT).is_err());
}

fn signed_command_prefix(count: i32) -> Vec<u8> {
    let mut bytes = Vec::new();
    write_var_int(&mut bytes, 0);
    write_i64_be(&mut bytes, 0);
    write_i64_be(&mut bytes, 0);
    write_var_int(&mut bytes, count);
    bytes
}

fn read_signed(bytes: &[u8]) -> Result<SChatCommandSigned, ReadingError> {
    SChatCommandSigned::read(&mut &*bytes, &JavaMinecraftVersion::V_1_21_5)
}

#[test]
fn rejects_negative_signed_command_argument_count() {
    assert!(matches!(read_signed(&signed_command_prefix(-1)), Err(ReadingError::Message(_))));
}

#[test]
fn rejects_signed_command_count_that_cannot_fit_payload() {
    assert!(matches!(read_signed(&signed_command_prefix(i32::MAX)), Err(ReadingError::TooLarge(_))));
}

#[test]
fn rejects_signed_command_argument_count_above_official_maximum() {
    let signature = [7u8; 256];
    let mut bytes = signed_command_prefix((MAX_ARGUMENT_SIGNATURES + 1) as i32);
    for _ in 0..=MAX_ARGUMENT_SIGNATURES {
        write_string(&mut bytes, "target").expect("argument name");
        bytes.extend_from_slice(&signature);
    }
    write_var_int(&mut bytes, 0);
    bytes.extend_from_slice(&[0; 3]);
    bytes.push(0);

    assert!(matches!(read_signed(&bytes), Err(ReadingError::TooLarge(_))));
}

#[test]
fn accepts_signed_command_with_wire_fit_argument_signature() {
    let packet = SChatCommandSigned {
        command: "say hello".to_owned(),
        timestamp: 1,
        salt: 2,
        argument_signatures: vec![ArgumentSignature { name: "target".to_owned(), signature: vec![7; 256] }],
        message_count: 0,
        acknowledged: vec![0; 3],
        checksum: 0,
    };
    let version = JavaMinecraftVersion::V_1_21_5;
    let mut bytes = Vec::new();
    packet.write_packet_data(&mut bytes, &version).expect("encode signed command");

    let decoded = read_signed(&bytes).expect("wire-fit signed command");
    assert_eq!(decoded.command, packet.command);
    assert_eq!(decoded.argument_signatures.len(), 1);
    assert_eq!(decoded.argument_signatures[0].signature, [7; 256]);
}

#[test]
fn reads_legacy_last_seen_messages_completely() {
    let mut payload = vec![1, b'x'];
    payload.extend_from_slice(&[0; 8]);
    payload.extend_from_slice(&[0; 8]);
    payload.push(0); // absent signature
    payload.push(0); // signed preview
    payload.push(1); // one previous message
    payload.extend_from_slice(&[0; 16]); // sender UUID
    payload.extend_from_slice(&[0x80, 0x02]); // 256-byte signature
    payload.extend_from_slice(&[0; 256]);
    payload.push(0); // no rejected message

    let mut remaining = payload.as_slice();
    let packet = SChatMessage::read(&mut remaining, &JavaMinecraftVersion::V_1_19_1).unwrap();
    assert_eq!(packet.message, "x");
    assert!(remaining.is_empty(), "{} bytes remain", remaining.len());
}

#[test]
fn chat_message_round_trip() {
    let packet = SChatMessage {
        message: "hello".to_owned(),
        timestamp: 5,
        salt: -6,
        signature: Some(vec![9; 256]),
        message_count: 3,
        acknowledged: vec![1, 2, 3],
        checksum: 77,
    };
    let mut bytes = Vec::new();
    packet.write_packet_data(&mut bytes, &CURRENT).unwrap();
    let mut input = bytes.as_slice();
    let read = SChatMessage::read(&mut input, &CURRENT).unwrap();
    assert!(input.is_empty());
    assert_eq!(read.message, "hello");
    assert_eq!((read.timestamp, read.salt), (5, -6));
    assert_eq!(read.signature, Some(vec![9; 256]));
    assert_eq!((read.message_count, read.acknowledged, read.checksum), (3, vec![1, 2, 3], 77));
}

#[test]
fn client_information_round_trip() {
    let packet = SClientInformationPlay {
        locale: "en_us".to_owned(),
        view_distance: 12,
        chat_mode: 0,
        chat_colors: true,
        skin_parts: 0x7f,
        main_hand: 1,
        text_filtering: false,
        server_listing: true,
        particle_status: 2,
    };
    let mut bytes = Vec::new();
    packet.write_packet_data(&mut bytes, &CURRENT).unwrap();
    let mut input = bytes.as_slice();
    let read = SClientInformationPlay::read(&mut input, &CURRENT).unwrap();
    assert!(input.is_empty());
    assert_eq!(read.locale, "en_us");
    assert_eq!((read.view_distance, read.chat_mode, read.main_hand), (12, 0, 1));
    assert_eq!((read.chat_colors, read.text_filtering, read.server_listing), (true, false, true));
    assert_eq!((read.skin_parts, read.particle_status), (0x7f, 2));
}

#[test]
fn movement_on_ground_uses_only_flag_bit_zero() {
    for flags in 0..=0x03u8 {
        let expected = flags & 0x01 != 0;
        assert_eq!(
            SSetPlayerGround::read(&mut [flags].as_slice(), &CURRENT).unwrap().on_ground,
            expected,
            "status flags {flags:#04x}"
        );
    }
}

fn read_rules(bytes: &[u8]) -> Result<SSetGameRule, ReadingError> {
    SSetGameRule::read(&mut &*bytes, &JavaMinecraftVersion::V_1_21_5)
}

#[test]
fn rejects_negative_game_rule_entry_count() {
    let mut bytes = Vec::new();
    write_var_int(&mut bytes, -1);
    assert!(matches!(read_rules(&bytes), Err(ReadingError::Message(_))));
}

#[test]
fn rejects_game_rule_count_that_cannot_fit_payload() {
    let mut bytes = Vec::new();
    write_var_int(&mut bytes, i32::MAX);
    assert!(matches!(read_rules(&bytes), Err(ReadingError::TooLarge(_))));
}

#[test]
fn accepts_game_rule_entries_with_wire_fit_count() {
    let packet = SSetGameRule {
        entries: vec![GameRuleEntry { game_rule_key: "doDaylightCycle".to_owned(), value: "true".to_owned() }],
    };
    let version = JavaMinecraftVersion::V_1_21_5;
    let mut bytes = Vec::new();
    packet.write_packet_data(&mut bytes, &version).expect("encode game rule");

    let decoded = read_rules(&bytes).expect("wire-fit game rule");
    assert_eq!(decoded.entries.len(), 1);
    assert_eq!(decoded.entries[0].game_rule_key, packet.entries[0].game_rule_key);
    assert_eq!(decoded.entries[0].value, packet.entries[0].value);
}

fn named(text: &'static str, name: &str) -> WritingError {
    WritingError::Message(Detail { text, value: None, bound: None, name: Some(name.to_owned()) })
}

#[test]
fn refused_recipes_tell_the_name_that_is_unknown() {
    let regs = recipe_registries();
    let unknown = simple("minecraft:no_such_item");
    assert_eq!(resolve_ingredient(&unknown, &regs), Err(named("Unknown recipe item: {}", "minecraft:no_such_item")));
    let one_of = RecipeIngredientTypes::OneOf(vec!["minecraft:stone".to_owned(), "none".to_owned(), "nil".to_owned()]);
    assert_eq!(resolve_ingredient(&one_of, &regs), Err(named("Unknown recipe item: {}", "none")));
    let none = RecipeIngredientTypes::OneOf(vec![]);
    assert_eq!(
        resolve_ingredient(&none, &regs),
        Err(WritingError::Message(Detail { text: "Recipe ingredient resolved to no items", value: None, bound: None, name: None }))
    );
    let no_tag = tagged("#minecraft:no_such_tag");
    assert_eq!(resolve_ingredient(&no_tag, &regs), Err(named("Unknown recipe item tag: {}", "no_such_tag")));
    let mut out = Vec::new();
    assert_eq!(
        write_ingredient(&mut out, &no_tag, CURRENT, &regs),
        Err(named("Unknown recipe item tag: {}", "minecraft:no_such_tag"))
    );
    assert!(out.is_empty());
}

#[test]
fn numbers_that_cannot_be_written_are_told() {
    let packet = SClientInformationPlay {
        locale: "en_us".to_owned(),
        view_distance: 12,
        chat_mode: 0,
        chat_colors: true,
        skin_parts: 0x7f,
        main_hand: 1,
        text_filtering: false,
        server_listing: true,
        particle_status: 3,
    };
    assert_eq!(
        packet.write_packet_data(&mut Vec::new(), &CURRENT),
        Err(WritingError::Message(Detail { text: "Invalid particle status: {}", value: Some(3), bound: None, name: None }))
    );
}

#[test]
fn limits_tell_the_number_that_exceeds_them() {
    let told = |text: &'static str, value: i128, bound: i128| {
        ReadingError::TooLarge(Detail { text, value: Some(value), bound: Some(bound), name: None })
    };
    assert_eq!(
        read_signed(&signed_command_prefix(9)).unwrap_err(),
        told("argument signature count {} exceeds official maximum {}", 9, 8)
    );
    assert_eq!(
        read_signed(&signed_command_prefix(2)).unwrap_err(),
        told("argument signature count {} cannot fit in {} remaining bytes", 2, 0)
    );
    let mut bytes = Vec::new();
    write_var_int(&mut bytes, 3);
    assert_eq!(read_rules(&bytes).unwrap_err(), told("game rule entry count {} cannot fit in {} remaining bytes", 3, 0));
}

/// A bold text, with the JSON form that its sender has for it.
fn bold() -> SentText {
    let mut c = NbtCompound::new();
    c.put_string("text", "stop".to_owned());
    c.put_bool("bold", true);
    SentText::new(TextComponent { tag: NbtTag::Compound(c) }, "{\"text\":\"stop\",\"bold\":true}".to_owned())
}

#[test]
fn styled_texts_are_sent_to_every_version_and_come_back() {
    let old = JavaMinecraftVersion::V_1_20_2;
    let mut bytes = Vec::new();
    CConfigDisconnect::new(bold()).write_packet_data(&mut bytes, &old).unwrap();
    assert_eq!(bytes, b"\x1b{\"text\":\"stop\",\"bold\":true}");

    for version in [JavaMinecraftVersion::V_1_19_1, old, CURRENT] {
        let mut bytes = Vec::new();
        CServerData::new(bold(), None).write_packet_data(&mut bytes, &version).unwrap();
        assert!(bytes.len() > 20);
        let packet = CTestInstanceBlockStatus::new(bold(), Some(position(1, 2, 3)));
        let mut bytes = Vec::new();
        packet.write_packet_data(&mut bytes, &version).unwrap();
        let mut input = bytes.as_slice();
        let read = CTestInstanceBlockStatus::read(&mut input, &version).unwrap();
        assert!(input.is_empty());
        assert_eq!(read.size, packet.size);
        match read.status {
            TextForm::Json(json) => assert_eq!((json, version != CURRENT), (bold().json, true)),
            TextForm::Tag(tag) => {
                assert_eq!((tag.extract_compound().unwrap().get_bool("bold"), version == CURRENT), (Some(true), true))
            }
        }
    }
}

#[test]
fn colours_have_four_bytes_in_one_version_only() {
    let packet = CWaypoint::new(
        WaypointOperation::Update,
        TrackedWaypoint {
            identifier: WaypointIdentifier::String("home".to_owned()),
            icon: icon(Some(0x12_3456)),
            target: WaypointTarget::Empty,
        },
    );
    for (version, colour) in [
        (JavaMinecraftVersion::V_1_21_2, &[0, 0x12, 0x34, 0x56][..]),
        (JavaMinecraftVersion::V_1_21_4, &[0x12, 0x34, 0x56][..]),
        (CURRENT, &[0x12, 0x34, 0x56][..]),
    ] {
        let mut bytes = Vec::new();
        packet.write_packet_data(&mut bytes, &version).unwrap();
        assert_eq!(&bytes[25..bytes.len() - 1], [&[1], colour].concat());
    }
}
