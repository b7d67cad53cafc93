#![allow(dead_code, unused_imports)]
use pumpkin_items::basic::{MaxDamageImpl, MaxStackSizeImpl};
use pumpkin_items::components::{ComponentValue, DataComponentImpl};
use pumpkin_items::data_component::DataComponent;
use pumpkin_items::item_stack::{BundleContentsImpl, Item, ItemStack, ItemStackIdGenerator, UseRemainderImpl};
use pumpkin_items::registry::{Block, Registries, VersionMap};
use pumpkin_items::version::JavaMinecraftVersion;
use std::sync::Arc;
use pumpkin_items::basic::{CustomNameImpl, DamageImpl, Rarity, RarityImpl};
use pumpkin_items::consumable::{ConsumableImpl, ConsumeAnimation};
use pumpkin_items::elements::{IDSet, IdOr};
use pumpkin_items::equal::equal_components;
use pumpkin_items::equipment::{EquipmentSlot, EquippableImpl, RepairCostImpl, RepairableImpl, ToolImpl, ToolRule};
use pumpkin_items::float::{f32_of_f64, f32_of_int, f32_times, f32_to_i32, f32_to_i64, f64_of_f32, f64_of_int, f64_to_i32, f64_to_i64};
use pumpkin_items::codec::Context;
use pumpkin_items::nbt_tag::{NbtCompound, NbtTag};
use pumpkin_items::nested::serialize;
use pumpkin_items::registry::StoredForm;
use pumpkin_items::screen::{PlayerAction, PlayerScreenHandler};
use pumpkin_items::stack_use::{should_apply_durability_damage_with, DamageResult, GameMode};

/// An item with its number, its tags and its default components.
fn item(key: &str, id: u16, tags: &[&str], components: Vec<ComponentValue>) -> Arc<Item> {
    Arc::new(Item {
        id,
        registry_key: key.to_owned(),
        tags: tags.iter().map(|t| t.to_string()).collect(),
        components: components
            .into_iter()
            .map(|v| (v.get_self_enum(), Arc::new(v)))
            .collect(),
    })
}

fn stack_size(size: u8) -> ComponentValue {
    MaxStackSizeImpl { size }.to_dyn()
}

fn worn_out_at(max_damage: i32) -> Vec<ComponentValue> {
    vec![stack_size(1), MaxDamageImpl { max_damage }.to_dyn()]
}

fn names(list: &[&str]) -> Vec<String> {
    list.iter().map(|t| t.to_string()).collect()
}

fn block(name: &str, properties: &[&str], tags: &[&str]) -> Block {
    Block { name: name.to_owned(), properties: names(properties), tags: names(tags) }
}

/// The numbers of items and components in version 26.1, which lacks one component of the current
/// version.
fn older_version() -> VersionMap {
    let missing = DataComponent::SulfurCubeContent.to_id() as u32;
    let mut items_out: Vec<u16> = (0..2000).collect();
    items_out[920] = 893;
    let mut components_out: Vec<u32> = Vec::new();
    let mut components_in: Vec<u32> = Vec::new();
    for id in 0..111u32 {
        if id < missing {
            components_out.push(id);
        } else if id == missing {
            components_out.push(0);
        } else {
            components_out.push(id - 1);
        }
        components_in.push(if id < missing { id } else { id + 1 });
    }
    VersionMap {
        version: JavaMinecraftVersion::V_26_1,
        items_out,
        items_in: (0..2000).collect(),
        components_out,
        components_in,
    }
}

/// A small set of registries.
fn registries() -> Registries {
    let tools = |kind: &str, from: u16| -> Vec<Arc<Item>> {
        let tag = format!("minecraft:{kind}s");
        ["wooden", "stone", "iron", "golden", "diamond", "netherite"]
            .iter()
            .enumerate()
            .map(|(i, material)| {
                let max = if *material == "netherite" { 2031 } else { 250 };
                item(&format!("{material}_{kind}"), from + i as u16, &[&tag], worn_out_at(max))
            })
            .collect()
    };
    let plain = |key: &str, id: u16| item(key, id, &[], vec![stack_size(64)]);
    let mut items = vec![
        item("air", 0, &[], vec![]),
        plain("stone", 1),
        plain("bowl", 920),
        plain("coal", 30),
        plain("bucket", 31),
        plain("glass_bottle", 32),
        item("filled_map", 33, &[], vec![stack_size(64)]),
        item("totem_of_undying", 34, &[], vec![stack_size(1)]),
        item("music_disc_13", 35, &[], vec![stack_size(1)]),
        item("knowledge_book", 36, &[], vec![stack_size(1)]),
        item("crossbow", 37, &[], worn_out_at(465)),
        item("diamond_chestplate", 38, &["minecraft:enchantable/armor"], worn_out_at(528)),
        plain("oak_planks", 39),
        plain("oak_log", 43),
        plain("cobblestone", 40),
        item("shield", 41, &[], worn_out_at(336)),
        item("bundle", 42, &[], vec![stack_size(1), BundleContentsImpl { items: vec![] }.to_dyn()]),
    ];
    for (key, id, remainder) in [
        ("milk_bucket", 50, "bucket"),
        ("honey_bottle", 51, "glass_bottle"),
        ("mushroom_stew", 52, "bowl"),
        ("beetroot_soup", 53, "bowl"),
    ] {
        let into = items.iter().find(|i| i.registry_key == remainder).unwrap().clone();
        let convert_into = ItemStack::static_new_java(1, into);
        items.push(item(key, id, &[], vec![stack_size(1), UseRemainderImpl { convert_into }.to_dyn()]));
    }
    items.extend(tools("axe", 100));
    items.extend(tools("pickaxe", 110));
    items.extend(tools("shovel", 120));
    items.extend(tools("hoe", 130));
    items.extend(tools("sword", 140));
    let mut enchantments: Vec<String> = (0..39).map(|i| format!("minecraft:enchantment_{i}")).collect();
    enchantments.push("minecraft:unbreaking".to_owned());
    Registries {
        items,
        enchantments,
        effects: names(&["minecraft:speed", "minecraft:regeneration", "minecraft:absorption"]),
        sounds: names(&["ambient.cave", "entity.generic.eat", "item.armor.equip_generic"]),
        entity_types: names(&["minecraft:player", "minecraft:zombie"]),
        blocks: vec![
            block("air", &[], &[]),
            block("stone", &[], &["minecraft:base_stone_overworld"]),
            block("oak_log", &["axis"], &["minecraft:logs"]),
            block("oak_fence_gate", &["facing", "open"], &[]),
        ],
        attributes: names(&["minecraft:armor", "minecraft:armor_toughness", "minecraft:attack_damage"]),
        damage_types: names(&["in_fire", "lava"]),
        songs: names(&["13", "cat", "blocks"]),
        versions: vec![older_version()],
        stored_forms: vec![],
    }
}

fn find(regs: &Registries, key: &str) -> Arc<Item> {
    regs.items.iter().find(|i| i.registry_key == key).expect(key).clone()
}

fn stack_of(regs: &Registries, count: u8, key: &str) -> ItemStack {
    ItemStack::new(count, find(regs, key), &mut ItemStackIdGenerator::new())
}

fn ids() -> ItemStackIdGenerator {
    ItemStackIdGenerator::new()
}

/// Numbers that look random and are the same every time.
fn numbers(n: usize) -> Vec<u64> {
    let mut x: u64 = 0x9e37_79b9_7f4a_7c15;
    (0..n)
        .map(|_| {
            x ^= x << 13;
            x ^= x >> 7;
            x ^= x << 17;
            x
        })
        .collect()
}

#[test]
fn a_component_that_was_set_is_read_and_leaves_the_others() {
    let regs = registries();
    let mut sword = stack_of(&regs, 1, "iron_sword");
    sword.set_repair_cost(7);
    sword.set_data_component(DamageImpl { damage: 5 });
    assert_eq!(sword.get_data_component::<DamageImpl>().unwrap().damage, 5);
    assert_eq!(sword.get_data_component::<RepairCostImpl>().unwrap().cost, 7);
    sword.remove_data_component(DataComponent::Damage);
    assert!(sword.get_data_component::<DamageImpl>().is_none());
    assert!(!sword.has_data_component(DataComponent::Damage));
    assert_eq!(sword.get_repair_cost(), 7);
    sword.remove_data_component(DataComponent::MaxDamage);
    assert_eq!(sword.get_max_damage(), None);
    assert!(!sword.is_damageable());
}

#[test]
fn repair_undoes_wear_and_gives_back_what_is_left_over() {
    let regs = registries();
    let mut sword = stack_of(&regs, 1, "iron_sword");
    assert_eq!(sword.apply_damage(100), DamageResult::Damaged);
    assert_eq!(sword.apply_damage(20), DamageResult::Damaged);
    assert_eq!(sword.get_damage(), 120);
    let whole = stack_of(&regs, 1, "iron_sword");
    let whole_again = sword.repair_item(50);
    assert_eq!((whole_again, sword.get_damage()), (50, 70));
    sword.repair_item(1000);
    assert_eq!(sword.get_damage(), 0);
    assert!(sword.are_items_and_components_equal(&whole));
}

#[test]
fn a_broken_item_takes_one_from_the_stack() {
    let regs = registries();
    let mut swords = stack_of(&regs, 3, "iron_sword");
    swords.set_data_component(DamageImpl { damage: 249 });
    assert_eq!(swords.apply_damage(1), DamageResult::Broken);
    assert_eq!(swords.item_count, 2);
    assert_eq!(swords.get_damage(), 0);
}

#[test]
fn armor_wears_as_single_precision_says() {
    for level in 1..=40i32 {
        let chance = 0.6f32 + 0.4f32 / (level + 1) as f32;
        let near = (chance * 16_777_216.0) as i64;
        for k in (near - 40)..(near + 40) {
            let roll = (k as u32) << 8 | 0x5a;
            let drawn = (k as f32) / 16_777_216.0;
            assert_eq!(should_apply_durability_damage_with(true, level, roll), drawn < chance, "{level} {k}");
        }
    }
    assert!(should_apply_durability_damage_with(true, 0, u32::MAX));
    assert!(should_apply_durability_damage_with(false, -1, 1));
    for roll in 0..100u32 {
        assert_eq!(should_apply_durability_damage_with(false, 3, roll), roll % 4 == 0);
    }
}

#[test]
fn floats_convert_as_the_machine_converts_them() {
    let mut wide: Vec<u64> = numbers(4000);
    for v in [0.0f64, -0.0, 0.5, 1.5, -1.5, 2147483647.5, -2147483649.0, 1e300, f64::NAN, f64::INFINITY, f64::NEG_INFINITY, 1e-310, 16777217.0] {
        wide.push(v.to_bits());
    }
    for bits in wide {
        let d = f64::from_bits(bits);
        let f = f32::from_bits(bits as u32);
        assert_eq!(f64_to_i32(bits), d as i32);
        assert_eq!(f64_to_i64(bits), d as i64);
        assert_eq!(f32_to_i32(bits as u32), f as i32);
        assert_eq!(f32_to_i64(bits as u32), f as i64);
        if !d.is_nan() {
            assert_eq!(f32_of_f64(bits), (d as f32).to_bits());
        }
        if !f.is_nan() {
            assert_eq!(f64_of_f32(bits as u32), (f as f64).to_bits());
            assert_eq!(f32_times(bits as u32, 20), (f * 20.0).to_bits());
        }
        assert_eq!(f64_of_int(bits as i64), (bits as i64 as f64).to_bits());
        assert_eq!(f32_of_int(bits as i64), (bits as i64 as f32).to_bits());
    }
    for v in [0i64, 1, -1, i64::MAX, i64::MIN, 16_777_217, 9_007_199_254_740_993] {
        assert_eq!(f64_of_int(v), (v as f64).to_bits());
        assert_eq!(f32_of_int(v), (v as f32).to_bits());
    }
}

#[test]
fn time_to_consume_is_twenty_ticks_a_second() {
    let ticks = |seconds: f32| {
        ConsumableImpl {
            consume_seconds: seconds.to_bits(),
            animation: ConsumeAnimation::Eat,
            sound_event: IdOr::Id(1),
            consume_particles: true,
            effects: vec![],
        }
        .consume_ticks()
    };
    assert_eq!(ticks(1.6), 32);
    assert_eq!(ticks(0.8), 16);
    assert_eq!(ticks(0.0), 0);
    assert_eq!(ticks(f32::NAN), 0);
    assert_eq!(ticks(1e30), i32::MAX);
}

#[test]
fn a_split_loses_no_item() {
    let regs = registries();
    for amount in [0u8, 1, 20, 30, 31, 255] {
        let mut rest = stack_of(&regs, 30, "stone");
        let taken = rest.split(amount, &mut ids());
        assert_eq!(taken.item_count, amount.min(30));
        assert_eq!(taken.item_count + rest.item_count, 30);
        assert!(taken.item_count == 0 || taken.item.id == 1);
    }
    let mut kept = stack_of(&regs, 30, "stone");
    let taken = kept.split_unless_creative(GameMode::Creative, 12, &mut ids());
    assert_eq!((taken.item_count, kept.item_count), (12, 30));
    let taken = kept.split_unless_creative(GameMode::Survival, 12, &mut ids());
    assert_eq!((taken.item_count, kept.item_count), (12, 18));
    kept.decrement_unless_creative(GameMode::Creative, 3);
    assert_eq!(kept.item_count, 18);
    kept.decrement_unless_creative(GameMode::Adventure, 3);
    assert_eq!(kept.item_count, 15);
    kept.increment(4);
    assert_eq!(kept.item_count, 19);
    kept.clear();
    assert!(kept.is_empty());
}

#[test]
fn numbers_of_stacks_differ_and_are_not_compared() {
    let regs = registries();
    let mut ids = ItemStackIdGenerator::new();
    let a = ItemStack::new(1, find(&regs, "stone"), &mut ids);
    let b = ItemStack::new(1, find(&regs, "stone"), &mut ids);
    assert_ne!(a.uid, b.uid);
    assert!(a.are_equal(&b));
    assert!(!a.are_equal(&ItemStack::new(2, find(&regs, "stone"), &mut ids)));
}

#[test]
fn an_enchantment_has_the_level_it_was_given() {
    let regs = registries();
    let mut sword = stack_of(&regs, 1, "iron_sword");
    assert!(!sword.has_enchantments());
    assert_eq!(sword.get_rarity(), Rarity::Common);
    sword.enchant(3, 2);
    sword.enchant(5, 1);
    assert_eq!((sword.get_enchantment_level(3), sword.get_enchantment_level(5), sword.get_enchantment_level(4)), (2, 1, 0));
    sword.enchant(3, 4);
    assert_eq!((sword.get_enchantment_level(3), sword.get_enchantment_level(5)), (4, 1));
    assert_eq!(sword.get_rarity(), Rarity::Rare);
    sword.set_data_component(RarityImpl { rarity: Rarity::Rare });
    assert_eq!(sword.get_rarity(), Rarity::Epic);
}

#[test]
fn the_name_that_is_shown_is_the_one_that_was_given() {
    let regs = registries();
    let mut sword = stack_of(&regs, 1, "iron_sword");
    assert_eq!(sword.get_hover_name(), "iron_sword");
    assert!(!sword.has_custom_name());
    sword.set_custom_name("Thorn".to_owned());
    assert!(sword.has_custom_name());
    assert_eq!(sword.get_hover_name(), "Thorn");
    assert!(matches!(&sword.get_data_component::<CustomNameImpl>().unwrap().name.tag, NbtTag::String(t) if t == "Thorn"));
    sword.remove_custom_name();
    assert!(sword.get_custom_name().is_none());
}

#[test]
fn custom_data_that_was_set_is_read_until_it_is_removed() {
    let regs = registries();
    let mut s = stack_of(&regs, 1, "stone");
    assert!(!s.has_custom_data("a", "x"));
    s.set_custom_data("a", "x", NbtTag::Int(4));
    s.set_custom_data("a", "y", NbtTag::Int(5));
    s.set_custom_data("b", "x", NbtTag::Int(6));
    let int = |s: &ItemStack, n: &str, k: &str| match s.get_custom_data(n, k) {
        Some(NbtTag::Int(v)) => Some(v),
        _ => None,
    };
    assert_eq!((int(&s, "a", "x"), int(&s, "a", "y"), int(&s, "b", "x")), (Some(4), Some(5), Some(6)));
    s.set_custom_data("a", "x", NbtTag::Int(7));
    assert_eq!((int(&s, "a", "x"), int(&s, "a", "y"), int(&s, "b", "x")), (Some(7), Some(5), Some(6)));
    s.remove_custom_data("a", "x");
    assert_eq!((int(&s, "a", "x"), int(&s, "a", "y"), int(&s, "b", "x")), (None, Some(5), Some(6)));
}

#[test]
fn tools_go_by_their_first_rule_that_says_something() {
    let regs = registries();
    let mut tool = stack_of(&regs, 1, "stone");
    let stone = &regs.blocks[1];
    assert_eq!(tool.get_speed(1, stone), 1.0f32.to_bits());
    assert!(!tool.is_correct_for_drops(1, stone));
    tool.set_data_component(ToolImpl {
        rules: vec![
            ToolRule { blocks: IDSet::IDs(vec![2]), speed: Some(9.0f32.to_bits()), correct_for_drops: Some(false) },
            ToolRule { blocks: IDSet::Tag("minecraft:base_stone_overworld".to_owned()), speed: None, correct_for_drops: Some(true) },
            ToolRule { blocks: IDSet::IDs(vec![1]), speed: Some(4.0f32.to_bits()), correct_for_drops: None },
        ],
        default_mining_speed: 2.0f32.to_bits(),
        damage_per_block: 1,
        can_destroy_blocks_in_creative: true,
    });
    assert_eq!(f32::from_bits(tool.get_speed(1, stone)), 4.0);
    assert!(tool.is_correct_for_drops(1, stone));
    assert_eq!(f32::from_bits(tool.get_speed(2, &regs.blocks[2])), 9.0);
    assert!(!tool.is_correct_for_drops(2, &regs.blocks[2]));
    assert_eq!(f32::from_bits(tool.get_speed(3, &regs.blocks[3])), 2.0);
}

#[test]
fn what_repairs_an_item_is_what_it_says() {
    let regs = registries();
    let mut sword = stack_of(&regs, 1, "iron_sword");
    let coal = stack_of(&regs, 1, "coal");
    assert!(!sword.is_valid_repair_item(&coal));
    sword.set_data_component(RepairableImpl { items: IDSet::IDs(vec![coal.item.id]) });
    assert!(sword.is_valid_repair_item(&coal));
    assert!(!sword.is_valid_repair_item(&stack_of(&regs, 1, "bowl")));
}

#[test]
fn a_bundle_takes_what_fits_and_loses_nothing() {
    let regs = registries();
    let mut bundle = BundleContentsImpl { items: vec![] };
    let mut stone = stack_of(&regs, 40, "stone");
    assert!(bundle.try_insert(&mut stone, &mut ids()));
    assert_eq!((bundle.get_weight(), stone.item_count), (40, 0));
    let mut coal = stack_of(&regs, 30, "coal");
    assert!(bundle.try_insert(&mut coal, &mut ids()));
    assert_eq!((bundle.get_weight(), coal.item_count), (64, 6));
    assert!(!bundle.try_insert(&mut coal, &mut ids()));
    assert_eq!(coal.item_count, 6);
    let first = bundle.try_extract().unwrap();
    assert_eq!((first.item.id, first.item_count), (30, 24));
    let mut sword = stack_of(&regs, 1, "iron_sword");
    assert!(!bundle.try_insert(&mut sword, &mut ids()));
    assert_eq!(bundle.try_extract().unwrap().item_count, 40);
    assert!(bundle.try_extract().is_none());
    assert!(bundle.try_insert(&mut sword, &mut ids()));
    assert_eq!(bundle.get_weight(), 64);
}

fn inventory(regs: &Registries, held: &[(usize, u8, &str)]) -> Vec<ItemStack> {
    let mut all: Vec<ItemStack> = (0..41).map(|_| ItemStack::empty()).collect();
    for (slot, count, key) in held {
        all[*slot] = stack_of(regs, *count, key);
    }
    all
}

fn counts(screen: &PlayerScreenHandler) -> Vec<(usize, u16, u8)> {
    (0..46)
        .filter(|i| !screen.get_slot(*i).is_empty())
        .map(|i| (i, screen.get_slot(i).item.id, screen.get_slot(i).item_count))
        .collect()
}

#[test]
fn the_screen_shows_the_inventory() {
    let regs = registries();
    let screen = PlayerScreenHandler::new(&inventory(&regs, &[(0, 5, "stone"), (9, 6, "coal"), (40, 1, "shield")]), 3);
    assert_eq!(screen.sync_id, 3);
    assert_eq!(counts(&screen), vec![(9, 30, 6), (36, 1, 5), (45, 41, 1)]);
    for slot in 0..=255u8 {
        assert_eq!(PlayerScreenHandler::is_in_hotbar(slot), (36..=44).contains(&slot));
    }
}

#[test]
fn a_quick_move_goes_between_hotbar_and_inventory_and_loses_nothing() {
    let regs = registries();
    let mut screen = PlayerScreenHandler::new(&inventory(&regs, &[(0, 50, "stone"), (10, 40, "stone"), (11, 9, "coal")]), 0);
    let moved = screen.quick_move(36, &mut ids());
    assert_eq!(moved.moved.unwrap().item_count, 50);
    assert_eq!(counts(&screen), vec![(9, 1, 26), (10, 1, 64), (11, 30, 9)]);
    assert!(matches!(&moved.actions[..], [PlayerAction::TakeItem(36, s)] if s.item_count == 50));
    let nothing = screen.quick_move(36, &mut ids());
    assert!(nothing.moved.is_none() && nothing.actions.is_empty());
    screen.quick_move(11, &mut ids());
    assert_eq!(counts(&screen), vec![(9, 1, 26), (10, 1, 64), (36, 30, 9)]);
}

#[test]
fn a_quick_move_puts_armor_on_and_takes_it_off() {
    let regs = registries();
    let mut items = inventory(&regs, &[(10, 1, "diamond_chestplate")]);
    items[10].set_data_component(EquippableImpl {
        slot: EquipmentSlot::Chest,
        equip_sound: IdOr::Id(2),
        asset_id: None,
        camera_overlay: None,
        allowed_entities: None,
        dispensable: true,
        swappable: true,
        damage_on_hurt: true,
        equip_on_interact: false,
        can_be_sheared: false,
        shearing_sound: IdOr::Id(2),
    });
    let mut screen = PlayerScreenHandler::new(&items, 0);
    let on = screen.quick_move(10, &mut ids());
    assert_eq!(counts(&screen), vec![(6, 38, 1)]);
    assert!(matches!(&on.actions[..], [PlayerAction::EquipmentChange(EquipmentSlot::Chest, Some(_)), PlayerAction::TakeItem(10, _)]));
    let off = screen.quick_move(6, &mut ids());
    assert_eq!(counts(&screen), vec![(9, 38, 1)]);
    assert!(matches!(&off.actions[..], [PlayerAction::EquipmentChange(EquipmentSlot::Chest, None), PlayerAction::TakeItem(6, _)]));
}

#[test]
fn a_result_that_does_not_fit_falls_to_the_ground() {
    let regs = registries();
    let held: Vec<(usize, u8, &str)> = (0..36).map(|i| (i, if i == 20 { 60 } else { 64 }, "stone")).collect();
    let mut screen = PlayerScreenHandler::new(&inventory(&regs, &held), 0);
    screen.slots[0] = stack_of(&regs, 10, "stone");
    let moved = screen.quick_move(0, &mut ids());
    assert!(matches!(&moved.actions[..],
        [PlayerAction::TakeItem(0, t), PlayerAction::Crafted(left, before), PlayerAction::DropItem(d)]
            if t.item_count == 4 && left.item_count == 6 && before.item_count == 10 && d.item_count == 6));
    assert_eq!(screen.get_slot(20).item_count, 64);
    assert!(screen.get_slot(0).is_empty());
}

#[test]
fn what_lies_in_the_crafting_slots_is_given_back() {
    let regs = registries();
    let mut screen = PlayerScreenHandler::new(&inventory(&regs, &[(0, 5, "stone")]), 0);
    screen.slots[1] = stack_of(&regs, 2, "coal");
    screen.slots[4] = stack_of(&regs, 3, "bowl");
    screen.cursor_stack = stack_of(&regs, 7, "stone");
    assert!(screen.on_closed(&mut ids()).is_empty());
    assert!(screen.cursor_stack.is_empty());
    assert_eq!(counts(&screen), vec![(9, 30, 2), (10, 920, 3), (36, 1, 12)]);
}

#[test]
fn a_stack_fills_the_slots_from_the_end_that_is_asked_for() {
    let regs = registries();
    let mut screen = PlayerScreenHandler::new(&inventory(&regs, &[]), 0);
    let mut stone = stack_of(&regs, 3, "stone");
    assert!(screen.insert_item(&mut stone, 9, 45, true, &mut ids()));
    assert!(stone.is_empty());
    let mut coal = stack_of(&regs, 3, "coal");
    assert!(screen.insert_item(&mut coal, 9, 45, false, &mut ids()));
    assert_eq!(counts(&screen), vec![(9, 30, 3), (44, 1, 3)]);
    let mut more = stack_of(&regs, 3, "bowl");
    assert!(!screen.insert_item(&mut more, 9, 10, false, &mut ids()));
    assert_eq!(more.item_count, 3);
}

#[test]
fn equal_components_have_equal_checksums() {
    let regs = registries();
    let mut a = stack_of(&regs, 9, "stone");
    let mut b = stack_of(&regs, 9, "stone");
    a.set_custom_data("n", "x", NbtTag::Int(1));
    a.set_custom_data("n", "y", NbtTag::Int(2));
    b.set_custom_data("n", "y", NbtTag::Int(2));
    b.set_custom_data("n", "x", NbtTag::Int(1));
    assert!(a.are_items_and_components_equal(&b));
    assert_eq!(a.get_hash(), b.get_hash());
    let value = |s: &ItemStack| s.patch[0].1.clone().unwrap();
    assert!(equal_components(&value(&a), &value(&b)));
    assert_eq!(pumpkin_items::component_hash::get_hash(&value(&a)), pumpkin_items::component_hash::get_hash(&value(&b)));
    b.set_custom_data("n", "x", NbtTag::Int(3));
    assert!(!a.are_items_and_components_equal(&b));
}

#[test]
fn sameness_of_stacks_is_an_equivalence() {
    let regs = registries();
    let with = |keys: &[(&str, i32)]| {
        let mut s = stack_of(&regs, 2, "stone");
        for (key, v) in keys {
            s.set_custom_data("n", key, NbtTag::Int(*v));
        }
        s
    };
    let a = with(&[("x", 1), ("y", 2), ("z", 3)]);
    let b = with(&[("z", 3), ("x", 1), ("y", 2)]);
    let c = with(&[("y", 2), ("z", 3), ("x", 1)]);
    assert!(a.are_equal(&a));
    assert!(a.are_equal(&b) && b.are_equal(&a));
    assert!(b.are_equal(&c) && a.are_equal(&c));
    let d = with(&[("y", 2), ("z", 3)]);
    assert!(!a.are_equal(&d) && !d.are_equal(&a));
}

#[test]
fn every_stack_is_stored_and_tells_what_has_no_form() {
    let mut regs = registries();
    let mut stack = stack_of(&regs, 3, "stone");
    stack.set_custom_name("Pebble".to_owned());
    stack.set_data_component(pumpkin_items::equipment::GliderImpl);
    stack.remove_data_component(DataComponent::Lore);
    let mut stored = NbtCompound::new();
    stored.put_int("other", 7);
    let untold = stack.write_item_stack(&mut stored, &regs);
    assert_eq!(untold.iter().map(|v| v.get_self_enum()).collect::<Vec<_>>(), vec![DataComponent::Glider]);
    assert_eq!((stored.get_string("id").map(|s| s.as_str()), stored.get_int("count"), stored.get_int("other")), (Some("minecraft:stone"), Some(3), Some(7)));
    let components = stored.get_compound("components").unwrap();
    let keys: Vec<&str> = components.child_tags.iter().map(|(k, _)| k.as_str()).collect();
    assert_eq!(keys, vec!["minecraft:custom_name", "!minecraft:lore"]);

    let mut data = Vec::new();
    serialize(DataComponent::Glider, &untold[0], &mut data, &Context::new(&regs)).unwrap();
    regs.stored_forms.push(StoredForm { id: DataComponent::Glider, data, tag: NbtTag::Compound(NbtCompound::new()) });
    let mut stored = NbtCompound::new();
    assert!(stack.write_item_stack(&mut stored, &regs).is_empty());
    let back = ItemStack::read_item_stack(&stored, &regs, &mut ids()).unwrap();
    assert!(back.are_equal(&stack));
    assert!(back.has_data_component(DataComponent::Glider));
}

#[test]
fn what_nested_stacks_leave_out_is_told() {
    let regs = registries();
    let mut inner = stack_of(&regs, 1, "stone");
    inner.set_data_component(pumpkin_items::equipment::GliderImpl);
    let mut bundle = stack_of(&regs, 1, "bundle");
    bundle.set_data_component(BundleContentsImpl { items: vec![inner] });
    let mut stored = NbtCompound::new();
    let untold = bundle.write_item_stack(&mut stored, &regs);
    assert_eq!(untold.iter().map(|v| v.get_self_enum()).collect::<Vec<_>>(), vec![DataComponent::Glider]);
    let back = ItemStack::read_item_stack(&stored, &regs, &mut ids()).unwrap();
    assert_eq!(back.get_data_component::<BundleContentsImpl>().unwrap().items[0].item_count, 1);
}

#[test]
fn numbers_are_handed_out_in_turn_and_start_over() {
    let mut ids = ItemStackIdGenerator::new();
    assert_eq!((ids.next_id(), ids.next_id(), ids.next_id()), (1, 2, 3));
    ids.counter = 0x7fff_ffff;
    assert_eq!((ids.next_id(), ids.next_id(), ids.next_id()), (i32::MAX, 1, 2));
    ids.counter = u32::MAX;
    assert_eq!((ids.next_id(), ids.next_id(), ids.next_id()), (i32::MAX, 1, 2));
}

#[test]
fn a_stored_stack_draws_its_number_before_those_it_holds() {
    let regs = registries();
    let mut bundle = stack_of(&regs, 1, "bundle");
    bundle.set_data_component(BundleContentsImpl { items: vec![stack_of(&regs, 1, "stone"), stack_of(&regs, 2, "coal")] });
    let mut stored = NbtCompound::new();
    assert!(bundle.write_item_stack(&mut stored, &regs).is_empty());
    let mut ids = ItemStackIdGenerator::new();
    ids.counter = 40;
    let back = ItemStack::read_item_stack(&stored, &regs, &mut ids).unwrap();
    let held: Vec<i32> = back.get_data_component::<BundleContentsImpl>().unwrap().items.iter().map(|s| s.uid).collect();
    assert_eq!((back.uid, held, ids.counter), (40, vec![41, 42], 43));
}

#[test]
fn a_checksum_is_the_remainder_of_the_bytes() {
    for n in [0usize, 1, 2, 9, 64, 1000] {
        let bytes: Vec<u8> = numbers(n).iter().map(|x| *x as u8).collect();
        let mut rest = 0xffff_ffffu32;
        for b in &bytes {
            rest ^= *b as u32;
            for _ in 0..8 {
                rest = if rest % 2 == 1 { (rest >> 1) ^ 0x82f6_3b78 } else { rest >> 1 };
            }
        }
        assert_eq!(pumpkin_items::hash::digest(&bytes), (rest ^ 0xffff_ffff) as i32);
    }
    assert_eq!(pumpkin_items::hash::digest(b"123456789"), 0xe306_9283u32 as i32);
}

#[test]
fn what_finds_no_room_when_the_screen_closes_falls_to_the_ground() {
    let regs = registries();
    let held: Vec<(usize, u8, &str)> = (0..36).map(|i| (i, if i == 20 { 60 } else { 64 }, "stone")).collect();
    let mut screen = PlayerScreenHandler::new(&inventory(&regs, &held), 0);
    let mut ids = ids();
    ids.counter = 500;
    screen.cursor_stack = ItemStack::new(9, find(&regs, "stone"), &mut ids);
    screen.slots[2] = ItemStack::new(1, find(&regs, "coal"), &mut ids);
    let fallen = screen.on_closed(&mut ids);
    assert_eq!(fallen.iter().map(|s| (s.item.id, s.item_count, s.uid)).collect::<Vec<_>>(), vec![(1, 5, 500), (30, 1, 501)]);
    assert_eq!((screen.get_slot(20).item_count, ids.counter), (64, 502));
    assert!(screen.cursor_stack.is_empty() && (0..5).all(|i| screen.get_slot(i).is_empty()));
}

#[test]
fn stacks_that_are_moved_keep_their_numbers_and_new_ones_get_the_next() {
    let regs = registries();
    let mut ids = ids();
    ids.counter = 7;
    let mut items: Vec<ItemStack> = (0..41).map(|_| ItemStack::empty()).collect();
    items[0] = ItemStack::new(5, find(&regs, "stone"), &mut ids);
    let mut screen = PlayerScreenHandler::new(&items, 0);
    assert_eq!(screen.get_slot(36).uid, 7);
    let moved = screen.quick_move(36, &mut ids);
    assert_eq!((moved.moved.unwrap().uid, screen.get_slot(9).uid, ids.counter), (7, 8, 9));
    assert_eq!(screen.get_slot(36).uid, i32::MIN);

    let mut bundle = BundleContentsImpl { items: vec![] };
    let mut stack = ItemStack::new(3, find(&regs, "stone"), &mut ids);
    assert!(bundle.try_insert(&mut stack, &mut ids));
    let mut coal = ItemStack::new(2, find(&regs, "coal"), &mut ids);
    assert!(bundle.try_insert(&mut coal, &mut ids));
    assert_eq!((bundle.items.iter().map(|s| s.uid).collect::<Vec<_>>(), ids.counter), (vec![12, 10], 13));
}

/// A player at the screen who crafts planks: four from each log in the first crafting slot.
struct Crafter {
    regs: Registries,
    screen: PlayerScreenHandler,
    dropped: u32,
}

impl Crafter {
    fn new(held: &[(usize, u8, &str)], logs: u8) -> Self {
        let regs = registries();
        let mut screen = PlayerScreenHandler::new(&inventory(&regs, held), 0);
        screen.slots[1] = stack_of(&regs, logs, "oak_log");
        let mut crafter = Crafter { regs, screen, dropped: 0 };
        crafter.refill();
        assert_eq!(crafter.screen.get_slot(0).item_count, 4);
        crafter
    }

    fn refill(&mut self) {
        self.screen.slots[0] =
            if self.screen.slots[1].is_empty() { ItemStack::empty() } else { stack_of(&self.regs, 4, "oak_planks") };
    }

    fn shift_click_result(&mut self) {
        loop {
            let moved = self.screen.quick_move(0, &mut ids());
            for action in moved.actions {
                match action {
                    PlayerAction::TakeItem(0, _) => self.screen.slots[1].decrement(1),
                    PlayerAction::Crafted(..) => self.refill(),
                    PlayerAction::DropItem(s) => self.dropped += s.item_count as u32,
                    _ => unreachable!(),
                }
            }
            if moved.moved.is_none() {
                return;
            }
        }
    }

    fn planks(&self) -> u32 {
        (9..46)
            .map(|i| self.screen.get_slot(i))
            .filter(|s| s.item.registry_key == "oak_planks")
            .map(|s| s.item_count as u32)
            .sum()
    }

    fn owned_output_total(&self) -> u32 {
        self.planks() + self.screen.cursor_stack.item_count as u32 + self.dropped
    }

    fn all_within_limit(&self) -> bool {
        (9..45).all(|i| self.screen.get_slot(i).item_count <= self.screen.get_slot(i).get_max_stack_size())
    }
}

#[test]
fn player_screen_partial_result_shift_click_preserves_output() {
    let held: Vec<(usize, u8, &str)> =
        (0..36).map(|i| if i == 0 { (0, 62, "oak_planks") } else { (i, 64, "cobblestone") }).collect();
    let mut crafter = Crafter::new(&held, 1);
    let before = crafter.owned_output_total();
    crafter.shift_click_result();
    assert_eq!(crafter.owned_output_total(), before + 4);
    assert_eq!(crafter.screen.get_slot(36).item_count, 64);
    assert_eq!(crafter.dropped, 2);
    assert!(crafter.screen.get_slot(0).is_empty());
    assert!(crafter.screen.get_slot(1).is_empty());
    assert!(crafter.screen.cursor_stack.is_empty());
    assert!(crafter.all_within_limit());
}

#[test]
fn player_screen_partial_empty_result_shift_click_preserves_output() {
    let held: Vec<(usize, u8, &str)> =
        (0..35).map(|i| if i == 0 { (0, 62, "oak_planks") } else { (i, 64, "cobblestone") }).collect();
    let mut crafter = Crafter::new(&held, 1);
    let before = crafter.owned_output_total();
    crafter.shift_click_result();
    assert_eq!(crafter.owned_output_total(), before + 4);
    assert_eq!(crafter.screen.get_slot(36).item_count, 64);
    assert_eq!(crafter.screen.get_slot(35).item_count, 2);
    assert_eq!(crafter.dropped, 0);
    assert!(crafter.screen.get_slot(0).is_empty());
    assert!(crafter.screen.get_slot(1).is_empty());
    assert!(crafter.all_within_limit());
}

#[test]
fn player_screen_full_inventory_does_not_consume_recipe() {
    let held: Vec<(usize, u8, &str)> = (0..36).map(|i| (i, 64, "cobblestone")).collect();
    let mut crafter = Crafter::new(&held, 1);
    crafter.shift_click_result();
    assert_eq!(crafter.planks(), 0);
    assert_eq!(crafter.dropped, 0);
    assert_eq!(crafter.screen.get_slot(0).item_count, 4);
    assert_eq!(crafter.screen.get_slot(1).item_count, 1);
    assert!(crafter.screen.cursor_stack.is_empty());
}

#[test]
fn player_screen_repeated_result_shift_click_consumes_all_available_recipes() {
    let mut crafter = Crafter::new(&[], 2);
    crafter.shift_click_result();
    assert_eq!(crafter.owned_output_total(), 8);
    assert_eq!(crafter.planks(), 8);
    assert!(crafter.screen.get_slot(1).is_empty());
    assert!(crafter.screen.get_slot(0).is_empty());
    crafter.shift_click_result();
    assert_eq!(crafter.owned_output_total(), 8);
    assert!(crafter.screen.get_slot(0).is_empty());
    assert!(crafter.screen.get_slot(1).is_empty());
    assert_eq!(crafter.dropped, 0);
    assert!(crafter.all_within_limit());
}
