#![allow(dead_code, unused_imports)]
use pumpkin_items::basic::{MaxDamageImpl, MaxStackSizeImpl};
use pumpkin_items::components::{ComponentValue, DataComponentImpl};
use pumpkin_items::data_component::DataComponent;
use pumpkin_items::item_stack::{BundleContentsImpl, Item, ItemStack, ItemStackIdGenerator, UseRemainderImpl};
use pumpkin_items::registry::{Block, Registries, VersionMap};
use pumpkin_items::version::JavaMinecraftVersion;
use std::sync::Arc;
use pumpkin_items::basic::DamageImpl;
use pumpkin_items::codec::Context;
use pumpkin_items::component_hash::get_hash;
use pumpkin_items::errors::{ReadingError, WritingError};
use pumpkin_items::serializer::ItemStackSerializer;
use pumpkin_items::serializer_write::{ItemStackOptionalTemplateSerializer, ItemStackTemplateSerializer};
use pumpkin_items::stack_hash::{ItemComponentHash, ItemStackHash, OptionalItemStackHash};

/// An item with its number, its tags and its default components.
fn item(key: &str, id: u16, tags: &[&str], components: Vec<ComponentValue>) -> Arc<Item> {
    Arc::new(Item {
        id,
        registry_key: key.to_owned(),
        tags: tags.iter().map(|t| t.to_string()).collect(),
        components: components
            .into_iter()
            .map(|v| (v.get_self_enum(), Arc::new(v)))
            .collect(),
    })
}

fn stack_size(size: u8) -> ComponentValue {
    MaxStackSizeImpl { size }.to_dyn()
}

fn worn_out_at(max_damage: i32) -> Vec<ComponentValue> {
    vec![stack_size(1), MaxDamageImpl { max_damage }.to_dyn()]
}

fn names(list: &[&str]) -> Vec<String> {
    list.iter().map(|t| t.to_string()).collect()
}

fn block(name: &str, properties: &[&str], tags: &[&str]) -> Block {
    Block { name: name.to_owned(), properties: names(properties), tags: names(tags) }
}

/// The numbers of items and components in version 26.1, which lacks one component of the current
/// version.
fn older_version() -> VersionMap {
    let missing = DataComponent::SulfurCubeContent.to_id() as u32;
    let mut items_out: Vec<u16> = (0..2000).collect();
    items_out[920] = 893;
    let mut components_out: Vec<u32> = Vec::new();
    let mut components_in: Vec<u32> = Vec::new();
    for id in 0..111u32 {
        if id < missing {
            components_out.push(id);
        } else if id == missing {
            components_out.push(0);
        } else {
            components_out.push(id - 1);
        }
        components_in.push(if id < missing { id } else { id + 1 });
    }
    VersionMap {
        version: JavaMinecraftVersion::V_26_1,
        items_out,
        items_in: (0..2000).collect(),
        components_out,
        components_in,
    }
}

/// A small set of registries.
fn registries() -> Registries {
    let tools = |kind: &str, from: u16| -> Vec<Arc<Item>> {
        let tag = format!("minecraft:{kind}s");
        ["wooden", "stone", "iron", "golden", "diamond", "netherite"]
            .iter()
            .enumerate()
            .map(|(i, material)| {
                let max = if *material == "netherite" { 2031 } else { 250 };
                item(&format!("{material}_{kind}"), from + i as u16, &[&tag], worn_out_at(max))
            })
            .collect()
    };
    let plain = |key: &str, id: u16| item(key, id, &[], vec![stack_size(64)]);
    let mut items = vec![
        item("air", 0, &[], vec![]),
        plain("stone", 1),
        plain("bowl", 920),
        plain("coal", 30),
        plain("bucket", 31),
        plain("glass_bottle", 32),
        item("filled_map", 33, &[], vec![stack_size(64)]),
        item("totem_of_undying", 34, &[], vec![stack_size(1)]),
        item("music_disc_13", 35, &[], vec![stack_size(1)]),
        item("knowledge_book", 36, &[], vec![stack_size(1)]),
        item("crossbow", 37, &[], worn_out_at(465)),
        item("diamond_chestplate", 38, &["minecraft:enchantable/armor"], worn_out_at(528)),
        plain("oak_planks", 39),
        plain("oak_log", 43),
        plain("cobblestone", 40),
        item("shield", 41, &[], worn_out_at(336)),
        item("bundle", 42, &[], vec![stack_size(1), BundleContentsImpl { items: vec![] }.to_dyn()]),
    ];
    for (key, id, remainder) in [
        ("milk_bucket", 50, "bucket"),
        ("honey_bottle", 51, "glass_bottle"),
        ("mushroom_stew", 52, "bowl"),
        ("beetroot_soup", 53, "bowl"),
    ] {
        let into = items.iter().find(|i| i.registry_key == remainder).unwrap().clone();
        let convert_into = ItemStack::static_new_java(1, into);
        items.push(item(key, id, &[], vec![stack_size(1), UseRemainderImpl { convert_into }.to_dyn()]));
    }
    items.extend(tools("axe", 100));
    items.extend(tools("pickaxe", 110));
    items.extend(tools("shovel", 120));
    items.extend(tools("hoe", 130));
    items.extend(tools("sword", 140));
    let mut enchantments: Vec<String> = (0..39).map(|i| format!("minecraft:enchantment_{i}")).collect();
    enchantments.push("minecraft:unbreaking".to_owned());
    Registries {
        items,
        enchantments,
        effects: names(&["minecraft:speed", "minecraft:regeneration", "minecraft:absorption"]),
        sounds: names(&["ambient.cave", "entity.generic.eat", "item.armor.equip_generic"]),
        entity_types: names(&["minecraft:player", "minecraft:zombie"]),
        blocks: vec![
            block("air", &[], &[]),
            block("stone", &[], &["minecraft:base_stone_overworld"]),
            block("oak_log", &["axis"], &["minecraft:logs"]),
            block("oak_fence_gate", &["facing", "open"], &[]),
        ],
        attributes: names(&["minecraft:armor", "minecraft:armor_toughness", "minecraft:attack_damage"]),
        damage_types: names(&["in_fire", "lava"]),
        songs: names(&["13", "cat", "blocks"]),
        versions: vec![older_version()],
        stored_forms: vec![],
    }
}

fn find(regs: &Registries, key: &str) -> Arc<Item> {
    regs.items.iter().find(|i| i.registry_key == key).expect(key).clone()
}

fn stack_of(regs: &Registries, count: u8, key: &str) -> ItemStack {
    ItemStack::new(count, find(regs, key), &mut ItemStackIdGenerator::new())
}

const ORDINARY_DUPLICATES: &[u8] =
    &[0x01, 0x98, 0x07, 0x03, 0x02, 0x03, 0x01, 0x03, 0x02, 0x02, 0x05, 0x03, 0x03, 0x7f];
const ORDINARY_CANONICAL: &[u8] = &[0x01, 0x98, 0x07, 0x01, 0x01, 0x02, 0x05, 0x03, 0x7f];
const TEMPLATE_DUPLICATES: &[u8] =
    &[0x98, 0x07, 0x01, 0x03, 0x02, 0x03, 0x01, 0x03, 0x02, 0x02, 0x05, 0x03, 0x03, 0x7f];
const TEMPLATE_CANONICAL: &[u8] = &[0x98, 0x07, 0x01, 0x01, 0x01, 0x02, 0x05, 0x03, 0x7f];
const LENGTH_DUPLICATES: &[u8] = &[
    0x01, 0x98, 0x07, 0x03, 0x02, 0x03, 0x01, 0x01, 0x03, 0x01, 0x02, 0x02, 0x01, 0x05, 0x03, 0x03, 0x7f,
];
const LENGTH_CANONICAL: &[u8] = &[0x01, 0x98, 0x07, 0x01, 0x01, 0x02, 0x01, 0x05, 0x03, 0x7f];

fn ids() -> ItemStackIdGenerator {
    ItemStackIdGenerator::new()
}

fn read(input: &mut &[u8], regs: &Registries) -> Result<ItemStack, ReadingError> {
    ItemStackSerializer::read(input, &Context::new(regs), &mut ids()).map(|s| s.to_stack())
}

fn read_filled(
    input: &mut &[u8],
    version: JavaMinecraftVersion,
    regs: &Registries,
) -> Result<ItemStack, ReadingError> {
    ItemStackSerializer::read_template0(input, &version, &Context::new(regs), &mut ids()).map(|s| s.to_stack())
}

fn read_lengths(input: &mut &[u8], regs: &Registries) -> Result<ItemStack, ReadingError> {
    ItemStackSerializer::read_length_prefixed_optional(input, &Context::new(regs), &mut ids()).map(|s| s.to_stack())
}

fn entry(v: ComponentValue) -> (DataComponent, Option<Arc<ComponentValue>>) {
    (v.get_self_enum(), Some(Arc::new(v)))
}

fn bowl_with(regs: &Registries, patch: Vec<(DataComponent, Option<Arc<ComponentValue>>)>) -> ItemStack {
    ItemStack::new_with_component(1, find(regs, "bowl"), patch, &mut ids())
}

fn assert_effective(stack: &ItemStack) {
    assert!(!stack.has_data_component(DataComponent::Damage));
    assert_eq!(stack.get_data_component::<MaxDamageImpl>().map(|c| c.max_damage), Some(5));
}

#[test]
fn duplicate_readers_are_lww_and_leave_sentinel() {
    let regs = registries();
    let mut ordinary = ORDINARY_DUPLICATES;
    let stack = read(&mut ordinary, &regs).unwrap();
    assert_effective(&stack);
    assert_eq!(ordinary, [0x7f]);

    let mut template = TEMPLATE_DUPLICATES;
    let stack = read_filled(&mut template, JavaMinecraftVersion::V_26_2, &regs).unwrap();
    assert_effective(&stack);
    assert_eq!(template, [0x7f]);

    let mut length = LENGTH_DUPLICATES;
    let stack = read_lengths(&mut length, &regs).unwrap();
    assert_effective(&stack);
    assert_eq!(length, [0x7f]);
}

#[test]
fn duplicate_writers_use_one_canonical_patch_view() {
    let regs = registries();
    let ctx = Context::new(&regs);
    let mut input = ORDINARY_DUPLICATES;
    let stack = read(&mut input, &regs).unwrap();
    let serializer = ItemStackSerializer::from(stack);

    let mut output = Vec::new();
    serializer.write(&mut output, &ctx).unwrap();
    output.push(0x7f);
    assert_eq!(output, ORDINARY_CANONICAL);

    let mut output = Vec::new();
    serializer.write_template_with_version(&mut output, &JavaMinecraftVersion::V_26_2, &ctx).unwrap();
    output.push(0x7f);
    assert_eq!(output, TEMPLATE_CANONICAL);

    let mut output = Vec::new();
    serializer.write_length_prefixed_with_version(&mut output, &JavaMinecraftVersion::V_26_2, &ctx).unwrap();
    output.push(0x7f);
    assert_eq!(output, LENGTH_CANONICAL);
}

#[test]
fn version_775_template_duplicate_fixture_preserves_effective_state() {
    let regs = registries();
    let mut input = TEMPLATE_DUPLICATES;
    let stack = read_filled(&mut input, JavaMinecraftVersion::V_26_1, &regs).unwrap();
    assert_effective(&stack);
    assert_eq!(input, [0x7f]);
}

#[test]
fn malformed_first_duplicate_and_unknown_id_are_rejected() {
    let regs = registries();
    assert!(read(&mut [0x01, 0x98, 0x07, 0x02, 0x00, 0x03, 0x80].as_slice(), &regs).is_err());
    assert!(read(&mut [0x01, 0x98, 0x07, 0x01, 0x00, 0x80, 0x02].as_slice(), &regs).is_err());
}

#[test]
fn public_duplicate_order_uses_first_seen_wire_key_order() {
    let regs = registries();
    let stack = bowl_with(
        &regs,
        vec![
            entry(DamageImpl { damage: 1 }.to_dyn()),
            entry(MaxDamageImpl { max_damage: 5 }.to_dyn()),
            entry(DamageImpl { damage: 2 }.to_dyn()),
        ],
    );
    let mut output = Vec::new();
    ItemStackSerializer::from(stack)
        .write_with_version(&mut output, &JavaMinecraftVersion::V_26_2, &Context::new(&regs))
        .unwrap();
    assert_eq!(output, [0x01, 0x98, 0x07, 0x02, 0x00, 0x03, 0x02, 0x02, 0x05]);
}

#[test]
fn versioned_readers_remap_26_1_component_ids_before_codec_dispatch() {
    let regs = registries();
    let ctx = Context::new(&regs);
    let version = JavaMinecraftVersion::V_26_1;
    let mut ordinary = [0x01, 0x98, 0x07, 0x01, 0x00, 0x4e, 0x7f].as_slice();
    let stack =
        ItemStackSerializer::read_with_version(&mut ordinary, &version, &ctx, &mut ids()).unwrap().to_stack();
    assert!(stack.has_data_component(DataComponent::Lock));
    assert_eq!(ordinary[0], 0x7f);

    let mut length = [0x01, 0x98, 0x07, 0x01, 0x00, 0x4e, 0x00, 0x7f].as_slice();
    let stack = ItemStackSerializer::read_untrusted_with_version(&mut length, &version, &ctx, &mut ids())
        .unwrap()
        .to_stack();
    assert!(stack.has_data_component(DataComponent::Lock));
    assert_eq!(length[0], 0x7f);

    let mut template = [0x98, 0x07, 0x01, 0x01, 0x00, 0x4e, 0x7f].as_slice();
    let stack = read_filled(&mut template, version, &regs).unwrap();
    assert!(stack.has_data_component(DataComponent::Lock));
    assert_eq!(template[0], 0x7f);
}

#[test]
fn versioned_writer_omits_unsupported_component_sentinel_ids() {
    let regs = registries();
    let stack = bowl_with(&regs, vec![(DataComponent::SulfurCubeContent, None)]);
    let mut output = Vec::new();
    ItemStackSerializer::from(stack)
        .write_with_version(&mut output, &JavaMinecraftVersion::V_26_1, &Context::new(&regs))
        .unwrap();
    assert_eq!(output, [0x01, 0xfd, 0x06, 0x00, 0x00]);
}

#[test]
fn high_component_ids_are_rejected_by_all_current_patch_readers() {
    let regs = registries();
    assert!(read(&mut [0x01, 0x98, 0x07, 0x00, 0x01, 0x80, 0x02].as_slice(), &regs).is_err());
    let version = JavaMinecraftVersion::V_26_2;
    assert!(read_filled(&mut [0x98, 0x07, 0x00, 0x01, 0x80, 0x02].as_slice(), version, &regs).is_err());
    assert!(read_lengths(&mut [0x01, 0x98, 0x07, 0x00, 0x01, 0x80, 0x02].as_slice(), &regs).is_err());
}

fn worn_bowl(regs: &Registries) -> ItemStack {
    bowl_with(
        regs,
        vec![
            entry(DamageImpl { damage: 1 }.to_dyn()),
            entry(DamageImpl { damage: 2 }.to_dyn()),
            entry(MaxDamageImpl { max_damage: 5 }.to_dyn()),
            (DataComponent::Damage, None),
        ],
    )
}

fn hash_of_worn_bowl() -> ItemStackHash {
    ItemStackHash {
        item_id: 920,
        count: 1,
        components: ItemComponentHash {
            added: vec![(DataComponent::MaxDamage.to_id() as i32, get_hash(&MaxDamageImpl { max_damage: 5 }.to_dyn()))],
            removed: vec![DataComponent::Damage.to_id() as i32],
        },
    }
}

#[test]
fn forwarded_hash_uses_the_same_effective_patch_view() {
    let regs = registries();
    let hash = OptionalItemStackHash(Some(hash_of_worn_bowl()));
    assert!(hash.hash_equals(&worn_bowl(&regs)));
}

#[test]
fn forwarded_hash_tells_stacks_apart() {
    let regs = registries();
    let stack = worn_bowl(&regs);
    assert!(OptionalItemStackHash(None).hash_equals(&stack_of(&regs, 0, "bowl")));
    assert!(!OptionalItemStackHash(None).hash_equals(&stack));

    let mut other_count = hash_of_worn_bowl();
    other_count.count = 2;
    assert!(!OptionalItemStackHash(Some(other_count)).hash_equals(&stack));
    let mut other_item = hash_of_worn_bowl();
    other_item.item_id = 1;
    assert!(!OptionalItemStackHash(Some(other_item)).hash_equals(&stack));
    let mut other_hash = hash_of_worn_bowl();
    other_hash.components.added[0].1 ^= 1;
    assert!(!OptionalItemStackHash(Some(other_hash)).hash_equals(&stack));
    let mut nothing_removed = hash_of_worn_bowl();
    nothing_removed.components.removed.clear();
    assert!(!OptionalItemStackHash(Some(nothing_removed)).hash_equals(&stack));
}

#[test]
fn forwarded_hash_round_trip() {
    let mut bytes = Vec::new();
    OptionalItemStackHash(Some(hash_of_worn_bowl())).write(&mut bytes);
    let mut input = bytes.as_slice();
    let read = OptionalItemStackHash::read(&mut input).unwrap().0.unwrap();
    assert!(input.is_empty());
    assert_eq!(read.item_id, 920);
    assert_eq!(read.count, 1);
    assert_eq!(read.components.added, hash_of_worn_bowl().components.added);
    assert_eq!(read.components.removed, hash_of_worn_bowl().components.removed);

    let mut bytes = Vec::new();
    OptionalItemStackHash(None).write(&mut bytes);
    assert_eq!(bytes, [0]);
    assert!(OptionalItemStackHash::read(&mut bytes.as_slice()).unwrap().0.is_none());
    assert!(OptionalItemStackHash::read(&mut [].as_slice()).is_err());
}

#[test]
fn empty_stacks_are_a_single_zero() {
    let regs = registries();
    let ctx = Context::new(&regs);
    let version = JavaMinecraftVersion::V_26_2;
    let mut output = Vec::new();
    ItemStackSerializer::from_option(None).write_with_version(&mut output, &version, &ctx).unwrap();
    assert_eq!(output, [0]);
    let read = ItemStackSerializer::read_with_version(&mut output.as_slice(), &version, &ctx, &mut ids()).unwrap();
    assert!(read.to_stack().is_empty());

    let mut output = Vec::new();
    ItemStackOptionalTemplateSerializer::from_option(None)
        .write_with_version(&mut output, &version, &ctx)
        .unwrap();
    assert_eq!(output, [0]);
}

#[test]
fn an_empty_stack_is_no_template() {
    let regs = registries();
    let ctx = Context::new(&regs);
    let empty = ItemStackTemplateSerializer::from(ItemStack::empty());
    assert!(matches!(
        empty.write_with_version(&mut Vec::new(), &JavaMinecraftVersion::V_26_2, &ctx),
        Err(WritingError::Message(_))
    ));
}

#[test]
fn stacks_keep_their_number_across_versions() {
    let regs = registries();
    let ctx = Context::new(&regs);
    let version = JavaMinecraftVersion::V_26_1;
    let stack = bowl_with(&regs, vec![entry(MaxDamageImpl { max_damage: 300 }.to_dyn())]);
    let mut output = Vec::new();
    ItemStackSerializer::from(stack).write_with_version(&mut output, &version, &ctx).unwrap();
    assert_eq!(output, [0x01, 0xfd, 0x06, 0x01, 0x00, 0x02, 0xac, 0x02]);
}
