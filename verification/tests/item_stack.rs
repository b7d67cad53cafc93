#![allow(dead_code, unused_imports)]
use pumpkin_items::basic::{MaxDamageImpl, MaxStackSizeImpl};
use pumpkin_items::components::{ComponentValue, DataComponentImpl};
use pumpkin_items::data_component::DataComponent;
use pumpkin_items::item_stack::{BundleContentsImpl, Item, ItemStack, ItemStackIdGenerator, UseRemainderImpl};
use pumpkin_items::registry::{Block, Registries, VersionMap};
use pumpkin_items::version::JavaMinecraftVersion;
use std::sync::Arc;
use pumpkin_items::basic::{CustomDataImpl, CustomNameImpl, DamageImpl, ItemNameImpl, LoreImpl, UnbreakableImpl};
use pumpkin_items::consumable::{ConsumableImpl, ConsumeEffect, DeathProtectionImpl};
use pumpkin_items::elements::{ItemName, StatusEffectInstance, TextComponent};
use pumpkin_items::equal::equal_components;
use pumpkin_items::equipment::EnchantmentsImpl;
use pumpkin_items::item_stack::ContainerImpl;
use pumpkin_items::nbt_tag::{NbtCompound, NbtTag};
use pumpkin_items::nested_stored::read_data;
use pumpkin_items::same::match_compounds;
use pumpkin_items::stack_use::DamageResult;
use pumpkin_items::stored::{MapDecorationsImpl, RecipesImpl};
use pumpkin_items::utility::JukeboxPlayableImpl;

/// An item with its number, its tags and its default components.
fn item(key: &str, id: u16, tags: &[&str], components: Vec<ComponentValue>) -> Arc<Item> {
    Arc::new(Item {
        id,
        registry_key: key.to_owned(),
        tags: tags.iter().map(|t| t.to_string()).collect(),
        components: components
            .into_iter()
            .map(|v| (v.get_self_enum(), Arc::new(v)))
            .collect(),
    })
}

fn stack_size(size: u8) -> ComponentValue {
    MaxStackSizeImpl { size }.to_dyn()
}

fn worn_out_at(max_damage: i32) -> Vec<ComponentValue> {
    vec![stack_size(1), MaxDamageImpl { max_damage }.to_dyn()]
}

fn names(list: &[&str]) -> Vec<String> {
    list.iter().map(|t| t.to_string()).collect()
}

fn block(name: &str, properties: &[&str], tags: &[&str]) -> Block {
    Block { name: name.to_owned(), properties: names(properties), tags: names(tags) }
}

/// The numbers of items and components in version 26.1, which lacks one component of the current
/// version.
fn older_version() -> VersionMap {
    let missing = DataComponent::SulfurCubeContent.to_id() as u32;
    let mut items_out: Vec<u16> = (0..2000).collect();
    items_out[920] = 893;
    let mut components_out: Vec<u32> = Vec::new();
    let mut components_in: Vec<u32> = Vec::new();
    for id in 0..111u32 {
        if id < missing {
            components_out.push(id);
        } else if id == missing {
            components_out.push(0);
        } else {
            components_out.push(id - 1);
        }
        components_in.push(if id < missing { id } else { id + 1 });
    }
    VersionMap {
        version: JavaMinecraftVersion::V_26_1,
        items_out,
        items_in: (0..2000).collect(),
        components_out,
        components_in,
    }
}

/// A small set of registries.
fn registries() -> Registries {
    let tools = |kind: &str, from: u16| -> Vec<Arc<Item>> {
        let tag = format!("minecraft:{kind}s");
        ["wooden", "stone", "iron", "golden", "diamond", "netherite"]
            .iter()
            .enumerate()
            .map(|(i, material)| {
                let max = if *material == "netherite" { 2031 } else { 250 };
                item(&format!("{material}_{kind}"), from + i as u16, &[&tag], worn_out_at(max))
            })
            .collect()
    };
    let plain = |key: &str, id: u16| item(key, id, &[], vec![stack_size(64)]);
    let mut items = vec![
        item("air", 0, &[], vec![]),
        plain("stone", 1),
        plain("bowl", 920),
        plain("coal", 30),
        plain("bucket", 31),
        plain("glass_bottle", 32),
        item("filled_map", 33, &[], vec![stack_size(64)]),
        item("totem_of_undying", 34, &[], vec![stack_size(1)]),
        item("music_disc_13", 35, &[], vec![stack_size(1)]),
        item("knowledge_book", 36, &[], vec![stack_size(1)]),
        item("crossbow", 37, &[], worn_out_at(465)),
        item("diamond_chestplate", 38, &["minecraft:enchantable/armor"], worn_out_at(528)),
        plain("oak_planks", 39),
        plain("oak_log", 43),
        plain("cobblestone", 40),
        item("shield", 41, &[], worn_out_at(336)),
        item("bundle", 42, &[], vec![stack_size(1), BundleContentsImpl { items: vec![] }.to_dyn()]),
    ];
    for (key, id, remainder) in [
        ("milk_bucket", 50, "bucket"),
        ("honey_bottle", 51, "glass_bottle"),
        ("mushroom_stew", 52, "bowl"),
        ("beetroot_soup", 53, "bowl"),
    ] {
        let into = items.iter().find(|i| i.registry_key == remainder).unwrap().clone();
        let convert_into = ItemStack::static_new_java(1, into);
        items.push(item(key, id, &[], vec![stack_size(1), UseRemainderImpl { convert_into }.to_dyn()]));
    }
    items.extend(tools("axe", 100));
    items.extend(tools("pickaxe", 110));
    items.extend(tools("shovel", 120));
    items.extend(tools("hoe", 130));
    items.extend(tools("sword", 140));
    let mut enchantments: Vec<String> = (0..39).map(|i| format!("minecraft:enchantment_{i}")).collect();
    enchantments.push("minecraft:unbreaking".to_owned());
    Registries {
        items,
        enchantments,
        effects: names(&["minecraft:speed", "minecraft:regeneration", "minecraft:absorption"]),
        sounds: names(&["ambient.cave", "entity.generic.eat", "item.armor.equip_generic"]),
        entity_types: names(&["minecraft:player", "minecraft:zombie"]),
        blocks: vec![
            block("air", &[], &[]),
            block("stone", &[], &["minecraft:base_stone_overworld"]),
            block("oak_log", &["axis"], &["minecraft:logs"]),
            block("oak_fence_gate", &["facing", "open"], &[]),
        ],
        attributes: names(&["minecraft:armor", "minecraft:armor_toughness", "minecraft:attack_damage"]),
        damage_types: names(&["in_fire", "lava"]),
        songs: names(&["13", "cat", "blocks"]),
        versions: vec![older_version()],
        stored_forms: vec![],
    }
}

fn find(regs: &Registries, key: &str) -> Arc<Item> {
    regs.items.iter().find(|i| i.registry_key == key).expect(key).clone()
}

fn stack_of(regs: &Registries, count: u8, key: &str) -> ItemStack {
    ItemStack::new(count, find(regs, key), &mut ItemStackIdGenerator::new())
}

fn text(t: &str) -> String {
    t.to_owned()
}

fn entry(v: ComponentValue) -> (DataComponent, Option<Arc<ComponentValue>>) {
    (v.get_self_enum(), Some(Arc::new(v)))
}

fn new_with(regs: &Registries, key: &str, patch: Vec<(DataComponent, Option<Arc<ComponentValue>>)>) -> ItemStack {
    ItemStack::new_with_component(1, find(regs, key), patch, &mut ItemStackIdGenerator::new())
}

fn read_stack(compound: &NbtCompound, regs: &Registries) -> Option<ItemStack> {
    ItemStack::read_item_stack(compound, regs, &mut ItemStackIdGenerator::new())
}

fn same(a: Option<&NbtCompound>, b: &NbtCompound) -> bool {
    a.is_some_and(|a| match_compounds(a, b, false))
}

fn iron_sword(regs: &Registries) -> ItemStack {
    stack_of(regs, 1, "iron_sword")
}

fn has_key(c: &NbtCompound, key: &str) -> bool {
    c.child_tags.iter().any(|(name, _)| name == key)
}

fn remainder_of(tag: &NbtTag, regs: &Registries) -> Option<UseRemainderImpl> {
    match read_data(DataComponent::UseRemainder, tag, regs, &mut ItemStackIdGenerator::new())? {
        ComponentValue::UseRemainder(v) => Some(v),
        _ => None,
    }
}

#[test]
fn map_decorations_item_stack_nbt_round_trip_preserves_entries() {
    let regs = registries();
    let mut player = NbtCompound::new();
    player.put_string("type", text("minecraft:player"));
    player.put_double("x", 1234.5f64.to_bits());
    player.put_double("z", (-987.25f64).to_bits());
    player.put_float("rotation", 1.5f32.to_bits());

    let mut custom = NbtCompound::new();
    custom.put_string("type", text("custom:marker"));
    custom.put_double("x", (-0.25f64).to_bits());
    custom.put_double("z", 4.0f64.to_bits());
    custom.put_float("rotation", (-2.25f32).to_bits());

    let mut decorations = NbtCompound::new();
    decorations.put_compound("player", player);
    decorations.put_compound("custom marker", custom);
    let mut components = NbtCompound::new();
    components.put("minecraft:map_decorations", NbtTag::Compound(decorations.copy()));

    let mut input = NbtCompound::new();
    input.put_string("id", text("minecraft:filled_map"));
    input.put_int("count", 1);
    input.put_compound("components", components.copy());

    let decoded = read_stack(&input, &regs).expect("map stack should decode");
    let map = decoded.get_data_component::<MapDecorationsImpl>().expect("map decorations should decode");
    assert_eq!(map.decorations.len(), 2);

    let mut output = NbtCompound::new();
    assert!(decoded.write_item_stack(&mut output, &regs).is_empty());
    assert!(same(output.get_compound("components"), &components));
}

#[test]
fn death_protection_item_stack_nbt_round_trip_preserves_effects() {
    let regs = registries();
    let mut effect = NbtCompound::new();
    effect.put_string("type", text("minecraft:clear_all_effects"));
    let mut death_protection = NbtCompound::new();
    death_protection.put_list("death_effects", vec![NbtTag::Compound(effect)]);
    let mut components = NbtCompound::new();
    components.put("minecraft:death_protection", NbtTag::Compound(death_protection));

    let mut input = NbtCompound::new();
    input.put_string("id", text("minecraft:totem_of_undying"));
    input.put_int("count", 1);
    input.put_compound("components", components.copy());

    let decoded = read_stack(&input, &regs).expect("stack should decode");
    let death_protection = decoded.get_data_component::<DeathProtectionImpl>().expect("death protection should decode");
    assert_eq!(death_protection.death_effects.len(), 1);

    let mut output = NbtCompound::new();
    assert!(decoded.write_item_stack(&mut output, &regs).is_empty());
    assert!(same(output.get_compound("components"), &components));
}

#[test]
fn death_protection_nbt_applies_official_optional_defaults() {
    let regs = registries();
    let absent = DeathProtectionImpl::read_data(&NbtTag::Compound(NbtCompound::new()), &regs)
        .expect("absent death_effects defaults to an empty list");
    assert!(absent.death_effects.is_empty());

    let mut status = NbtCompound::new();
    status.put_string("id", text("minecraft:regeneration"));

    let mut apply = NbtCompound::new();
    apply.put_string("type", text("minecraft:apply_effects"));
    apply.put_list("effects", vec![NbtTag::Compound(status)]);

    let mut teleport = NbtCompound::new();
    teleport.put_string("type", text("minecraft:teleport_randomly"));
    let mut death_protection = NbtCompound::new();
    death_protection.put_list("death_effects", vec![NbtTag::Compound(apply), NbtTag::Compound(teleport)]);
    let mut components = NbtCompound::new();
    components.put("minecraft:death_protection", NbtTag::Compound(death_protection));
    let mut input = NbtCompound::new();
    input.put_string("id", text("minecraft:totem_of_undying"));
    input.put_int("count", 1);
    input.put_compound("components", components);

    let stack = read_stack(&input, &regs).expect("official optional fields decode");
    let protection = stack.get_data_component::<DeathProtectionImpl>().expect("death protection component");
    let ConsumeEffect::ApplyEffects((effects, probability)) = &protection.death_effects[0] else {
        panic!("expected apply effects");
    };
    assert_eq!(f32::from_bits(*probability), 1.0);
    assert_eq!(effects[0].amplifier, 0);
    assert_eq!(effects[0].duration, 0);
    assert!(!effects[0].ambient);
    assert!(effects[0].show_particles);
    assert!(effects[0].show_icon);
    match &protection.death_effects[1] {
        ConsumeEffect::TeleportRandomly(diameter) => {
            assert!((f32::from_bits(*diameter) - 16.0).abs() < f32::EPSILON);
        }
        _ => panic!("expected teleport effect"),
    }
}

#[test]
fn death_protection_show_icon_defaults_to_show_particles() {
    let regs = registries();
    let mut status = NbtCompound::new();
    status.put_string("id", text("minecraft:regeneration"));
    status.put_bool("show_particles", false);
    let mut apply = NbtCompound::new();
    apply.put_string("type", text("minecraft:apply_effects"));
    apply.put_list("effects", vec![NbtTag::Compound(status)]);
    let mut protection = NbtCompound::new();
    protection.put_list("death_effects", vec![NbtTag::Compound(apply)]);
    let decoded = DeathProtectionImpl::read_data(&NbtTag::Compound(protection), &regs)
        .expect("optional show_icon should decode");
    let ConsumeEffect::ApplyEffects((effects, _)) = &decoded.death_effects[0] else {
        panic!("expected apply effects");
    };
    assert!(!effects[0].show_particles);
    assert!(!effects[0].show_icon);
}

#[test]
fn death_protection_accepts_official_numeric_conversions() {
    let regs = registries();
    let mut status = NbtCompound::new();
    status.put_string("id", text("minecraft:regeneration"));
    status.put_byte("amplifier", 1);
    status.put_long("duration", 900);
    status.put_int("ambient", 0);
    status.put_short("show_particles", 1);
    status.put_int("show_icon", 1);
    let mut apply = NbtCompound::new();
    apply.put_string("type", text("minecraft:apply_effects"));
    apply.put_int("probability", 1);
    apply.put_list("effects", vec![NbtTag::Compound(status)]);
    let mut teleport = NbtCompound::new();
    teleport.put_string("type", text("minecraft:teleport_randomly"));
    teleport.put_int("diameter", 16);
    let mut protection = NbtCompound::new();
    protection.put_list("death_effects", vec![NbtTag::Compound(apply), NbtTag::Compound(teleport)]);
    let decoded = DeathProtectionImpl::read_data(&NbtTag::Compound(protection), &regs)
        .expect("numeric NBT values should use official number conversion");
    assert_eq!(decoded.death_effects.len(), 2);
}

#[test]
fn death_protection_numeric_narrowing_matches_java_number() {
    let regs = registries();
    let decode_duration = |tag| {
        let mut status = NbtCompound::new();
        status.put_string("id", text("minecraft:regeneration"));
        status.put("duration", tag);
        StatusEffectInstance::read_data(&NbtTag::Compound(status), &regs)
            .expect("numeric duration should decode")
            .duration
    };

    assert_eq!(decode_duration(NbtTag::Long(i64::MAX)), -1);
    assert_eq!(decode_duration(NbtTag::Double(f64::INFINITY.to_bits())), i32::MAX);
    assert_eq!(decode_duration(NbtTag::Double(f64::NEG_INFINITY.to_bits())), i32::MIN);
    assert_eq!(decode_duration(NbtTag::Double(f64::NAN.to_bits())), 0);
}

fn protected_by(effect: NbtCompound) -> NbtTag {
    let mut protection = NbtCompound::new();
    protection.put_list("death_effects", vec![NbtTag::Compound(effect)]);
    NbtTag::Compound(protection)
}

#[test]
fn death_protection_rejects_wrong_types_in_optional_fields() {
    let regs = registries();
    let mut status = NbtCompound::new();
    status.put_string("id", text("minecraft:regeneration"));
    status.put_string("amplifier", text("not a number"));
    let mut apply = NbtCompound::new();
    apply.put_string("type", text("minecraft:apply_effects"));
    apply.put_list("effects", vec![NbtTag::Compound(status)]);
    assert!(DeathProtectionImpl::read_data(&protected_by(apply), &regs).is_none());

    let mut apply = NbtCompound::new();
    apply.put_string("type", text("minecraft:apply_effects"));
    apply.put_string("probability", text("not a number"));
    apply.put_list("effects", Vec::new());
    assert!(DeathProtectionImpl::read_data(&protected_by(apply), &regs).is_none());

    let mut teleport = NbtCompound::new();
    teleport.put_string("type", text("minecraft:teleport_randomly"));
    teleport.put_string("diameter", text("not a number"));
    assert!(DeathProtectionImpl::read_data(&protected_by(teleport), &regs).is_none());

    let mut status = NbtCompound::new();
    status.put_string("id", text("minecraft:regeneration"));
    status.put_string("ambient", text("not a boolean"));
    let mut apply = NbtCompound::new();
    apply.put_string("type", text("minecraft:apply_effects"));
    apply.put_list("effects", vec![NbtTag::Compound(status)]);
    assert!(DeathProtectionImpl::read_data(&protected_by(apply), &regs).is_none());
}

#[test]
fn death_protection_rejects_values_outside_official_codecs() {
    let regs = registries();
    let mut apply = NbtCompound::new();
    apply.put_string("type", text("minecraft:apply_effects"));
    apply.put_float("probability", 1.01f32.to_bits());
    apply.put_list("effects", Vec::new());
    assert!(DeathProtectionImpl::read_data(&protected_by(apply), &regs).is_none());

    for probability in [f32::NAN, f32::INFINITY, f32::NEG_INFINITY] {
        let mut apply = NbtCompound::new();
        apply.put_string("type", text("minecraft:apply_effects"));
        apply.put_float("probability", probability.to_bits());
        apply.put_list("effects", Vec::new());
        assert!(DeathProtectionImpl::read_data(&protected_by(apply), &regs).is_none());
    }

    let mut teleport = NbtCompound::new();
    teleport.put_string("type", text("minecraft:teleport_randomly"));
    teleport.put_float("diameter", 0.0f32.to_bits());
    assert!(DeathProtectionImpl::read_data(&protected_by(teleport), &regs).is_none());

    let mut status = NbtCompound::new();
    status.put_string("id", text("minecraft:regeneration"));
    status.put_int("amplifier", 256);
    let mut apply = NbtCompound::new();
    apply.put_string("type", text("minecraft:apply_effects"));
    apply.put_list("effects", vec![NbtTag::Compound(status)]);
    assert!(DeathProtectionImpl::read_data(&protected_by(apply), &regs).is_none());
}

#[test]
fn jukebox_playable_nbt_round_trip_preserves_song() {
    let regs = registries();
    let mut component = NbtCompound::new();
    component.put_string("song", text("minecraft:13"));
    let mut components = NbtCompound::new();
    components.put("minecraft:jukebox_playable", NbtTag::Compound(component.copy()));
    let mut input = NbtCompound::new();
    input.put_string("id", text("minecraft:music_disc_13"));
    input.put_int("count", 1);
    input.put_compound("components", components.copy());

    let stack = read_stack(&input, &regs).expect("jukebox component should decode");
    assert_eq!(
        stack.get_data_component::<JukeboxPlayableImpl>().expect("jukebox component").song,
        "minecraft:13"
    );

    let mut output = NbtCompound::new();
    assert!(stack.write_item_stack(&mut output, &regs).is_empty());
    assert!(same(output.get_compound("components"), &components));
}

#[test]
fn jukebox_playable_rejects_unknown_song_and_wrong_type() {
    let regs = registries();
    let mut component = NbtCompound::new();
    component.put_string("song", text("minecraft:not_a_song"));
    assert!(JukeboxPlayableImpl::read_data(&NbtTag::Compound(component), &regs).is_none());
    assert!(JukeboxPlayableImpl::read_data(&NbtTag::String(text("minecraft:13")), &regs).is_none());
}

#[test]
fn recipes_nbt_round_trip_preserves_identifier_list() {
    let input = NbtTag::List(vec![
        NbtTag::String(text("minecraft:iron_ingot_from_nuggets")),
        NbtTag::String(text("example:custom_recipe")),
    ]);
    let decoded = RecipesImpl::read_data(&input).expect("recipes list should decode");
    assert_eq!(
        decoded.recipes,
        vec![text("minecraft:iron_ingot_from_nuggets"), text("example:custom_recipe")]
    );
    assert_eq!(decoded.write_data(), input);

    let empty = NbtTag::List(Vec::new());
    assert_eq!(
        RecipesImpl::read_data(&empty).expect("empty recipes list should decode").write_data(),
        empty
    );
}

#[test]
fn recipes_item_stack_nbt_round_trip_preserves_component_shape() {
    let regs = registries();
    let mut components = NbtCompound::new();
    components.put_list(
        "minecraft:recipes",
        vec![NbtTag::String(text("minecraft:iron_ingot_from_nuggets"))],
    );
    let mut input = NbtCompound::new();
    input.put_string("id", text("minecraft:knowledge_book"));
    input.put_int("count", 1);
    input.put_compound("components", components.copy());

    let stack = read_stack(&input, &regs).expect("knowledge book should decode");
    assert_eq!(
        stack.get_data_component::<RecipesImpl>().expect("recipes component").recipes,
        vec![text("minecraft:iron_ingot_from_nuggets")]
    );
    let mut output = NbtCompound::new();
    assert!(stack.write_item_stack(&mut output, &regs).is_empty());
    assert!(same(output.get_compound("components"), &components));
}

#[test]
fn recipes_nbt_rejects_missing_invalid_and_wrong_entries() {
    assert!(RecipesImpl::read_data(&NbtTag::End).is_none());
    assert!(RecipesImpl::read_data(&NbtTag::Int(0)).is_none());
    assert!(RecipesImpl::read_data(&NbtTag::List(vec![NbtTag::Int(1)])).is_none());
    assert!(RecipesImpl::read_data(&NbtTag::List(vec![NbtTag::String(text("a:b:c"))])).is_none());
    assert!(RecipesImpl::read_data(&NbtTag::List(vec![NbtTag::String(text("bad namespace:path"))])).is_none());
}

#[test]
fn recipes_nbt_uses_official_identifier_parse_defaults() {
    let input = NbtTag::List(vec![
        NbtTag::String(text(":custom_recipe")),
        NbtTag::String(text("unqualified_recipe")),
        NbtTag::String(text("example:")),
        NbtTag::String(text(":")),
        NbtTag::String(text("")),
    ]);
    assert_eq!(
        RecipesImpl::read_data(&input).unwrap().recipes,
        vec![
            text("minecraft:custom_recipe"),
            text("minecraft:unqualified_recipe"),
            text("example:"),
            text("minecraft:"),
            text("minecraft:"),
        ]
    );
}

#[test]
fn item_enabled_requires_all_required_features_without_mutating_stack() {
    let regs = registries();
    let stack = stack_of(&regs, 1, "diamond_sword");
    assert!(stack.is_item_enabled(&["minecraft:vanilla"]));
    assert!(!stack.is_item_enabled(&[]));
    assert_eq!(stack.item_count, 1);
    assert!(stack.patch.is_empty());
}

#[test]
fn empty_stack_is_enabled_without_feature_flags() {
    let regs = registries();
    let stack = ItemStack::static_new_java(0, find(&regs, "air"));
    assert!(stack.is_empty());
    assert!(stack.is_item_enabled(&[]));
}

#[test]
fn items_with_different_components_are_not_equal_in_either_direction() {
    let regs = registries();
    let plain = stack_of(&regs, 1, "coal");
    let mut customized = stack_of(&regs, 1, "coal");
    customized.patch.push(entry(UnbreakableImpl.to_dyn()));

    assert!(!plain.are_items_and_components_equal(&customized));
    assert!(!customized.are_items_and_components_equal(&plain));
    assert!(customized.are_items_and_components_equal(&customized.copy()));
}

#[test]
fn duplicate_component_set_replaces_tombstone_for_all_model_views() {
    let regs = registries();
    let mut stack = new_with(
        &regs,
        "iron_sword",
        vec![entry(DamageImpl { damage: 3 }.to_dyn()), (DataComponent::Damage, None)],
    );
    stack.set_data_component(DamageImpl { damage: 7 });

    let mut expected = iron_sword(&regs);
    expected.set_data_component(DamageImpl { damage: 7 });
    assert_eq!(stack.get_data_component::<DamageImpl>().map(|damage| damage.damage), Some(7));
    assert!(stack.has_data_component(DataComponent::Damage));
    assert!(stack.are_items_and_components_equal(&expected));
    assert_eq!(stack.get_hash(), expected.get_hash());

    let mut encoded = NbtCompound::new();
    assert!(stack.write_item_stack(&mut encoded, &regs).is_empty());
    let components = encoded.get_compound("components").expect("components should be encoded");
    assert!(has_key(components, DataComponent::Damage.to_name()));
    assert!(!has_key(components, &format!("!{}", DataComponent::Damage.to_name())));

    let decoded = read_stack(&encoded, &regs).expect("stack should round-trip");
    assert_eq!(decoded.get_data_component::<DamageImpl>().map(|damage| damage.damage), Some(7));
    assert!(decoded.has_data_component(DataComponent::Damage));
    assert!(decoded.are_items_and_components_equal(&expected));
    assert_eq!(decoded.get_hash(), expected.get_hash());
}

#[test]
fn duplicate_component_remove_replaces_late_value_with_tombstone() {
    let regs = registries();
    let mut stack = new_with(
        &regs,
        "iron_sword",
        vec![(DataComponent::Damage, None), entry(DamageImpl { damage: 7 }.to_dyn())],
    );
    stack.remove_data_component(DataComponent::Damage);

    let expected = new_with(&regs, "iron_sword", vec![(DataComponent::Damage, None)]);
    assert!(!stack.has_data_component(DataComponent::Damage));
    assert!(stack.get_data_component::<DamageImpl>().is_none());
    assert!(stack.are_items_and_components_equal(&expected));
    assert_eq!(stack.get_hash(), expected.get_hash());

    let mut encoded = NbtCompound::new();
    assert!(stack.write_item_stack(&mut encoded, &regs).is_empty());
    let components = encoded.get_compound("components").expect("components should be encoded");
    assert!(!has_key(components, DataComponent::Damage.to_name()));
    assert!(has_key(components, &format!("!{}", DataComponent::Damage.to_name())));

    let decoded = read_stack(&encoded, &regs).expect("stack should round-trip");
    assert!(!decoded.has_data_component(DataComponent::Damage));
    assert!(decoded.get_data_component::<DamageImpl>().is_none());
    assert!(decoded.are_items_and_components_equal(&expected));
    assert_eq!(decoded.get_hash(), expected.get_hash());
}

#[test]
fn duplicate_component_set_updates_the_latest_value() {
    let regs = registries();
    let mut stack = new_with(
        &regs,
        "iron_sword",
        vec![entry(DamageImpl { damage: 3 }.to_dyn()), entry(DamageImpl { damage: 5 }.to_dyn())],
    );
    stack.set_data_component(DamageImpl { damage: 9 });

    let mut expected = iron_sword(&regs);
    expected.set_data_component(DamageImpl { damage: 9 });
    assert_eq!(stack.get_damage(), 9);
    assert!(stack.are_items_and_components_equal(&expected));
    assert_eq!(stack.get_hash(), expected.get_hash());
}

#[test]
fn duplicate_lore_set_updates_the_latest_value_and_roundtrips() {
    let regs = registries();
    let lore = |line: &str| LoreImpl { lines: vec![TextComponent::text(text(line))] };
    let mut stack = new_with(
        &regs,
        "wooden_axe",
        vec![entry(lore("old first").to_dyn()), entry(lore("old latest").to_dyn())],
    );
    stack.set_lore(vec![TextComponent::text(text("new latest"))]);

    let mut expected = stack_of(&regs, 1, "wooden_axe");
    expected.set_lore(vec![TextComponent::text(text("new latest"))]);
    assert_eq!(
        stack.get_data_component::<LoreImpl>().expect("lore should be present").lines[0].clone().get_text(),
        "new latest"
    );
    assert!(stack.are_items_and_components_equal(&expected));
    assert_eq!(stack.get_hash(), expected.get_hash());

    let mut encoded = NbtCompound::new();
    assert!(stack.write_item_stack(&mut encoded, &regs).is_empty());
    let decoded = read_stack(&encoded, &regs).expect("stack should round-trip");
    assert_eq!(
        decoded.get_data_component::<LoreImpl>().expect("lore should round-trip").lines[0].clone().get_text(),
        "new latest"
    );
    assert!(decoded.are_items_and_components_equal(&expected));
    assert_eq!(decoded.get_hash(), expected.get_hash());
}

#[test]
fn custom_data_sets_and_reads_typed_values() {
    let regs = registries();
    let mut stack = stack_of(&regs, 1, "wooden_axe");

    stack.set_custom_data("test_plugin", "marker", NbtTag::Byte(1));
    stack.set_custom_data("test_plugin", "mode", NbtTag::String(text("pos1")));
    stack.set_custom_data("test_plugin", "payload", NbtTag::ByteArray(vec![0, 1, 127, -128, -1]));

    assert_eq!(stack.get_custom_data("test_plugin", "marker"), Some(NbtTag::Byte(1)));
    assert_eq!(stack.get_custom_data("test_plugin", "mode"), Some(NbtTag::String(text("pos1"))));
    assert_eq!(
        stack.get_custom_data("test_plugin", "payload"),
        Some(NbtTag::ByteArray(vec![0, 1, 127, -128, -1]))
    );
    assert!(stack.has_custom_data("test_plugin", "marker"));
}

#[test]
fn custom_data_sets_and_reads_full_nbt_tags() {
    let regs = registries();
    let mut stack = stack_of(&regs, 1, "wooden_axe");
    let mut compound = NbtCompound::new();
    compound.put("byte", NbtTag::Byte(1));
    compound.put("short", NbtTag::Short(2));
    compound.put("int", NbtTag::Int(3));
    compound.put("long", NbtTag::Long(4));
    compound.put("float", NbtTag::Float(5.0f32.to_bits()));
    compound.put("double", NbtTag::Double(6.0f64.to_bits()));
    compound.put("string", NbtTag::String(text("value")));
    compound.put("list", NbtTag::List(vec![NbtTag::Int(1), NbtTag::Int(2)]));
    compound.put("byte_array", NbtTag::ByteArray(vec![1, 2]));
    compound.put("int_array", NbtTag::IntArray(vec![3, 4]));
    compound.put("long_array", NbtTag::LongArray(vec![5, 6]));

    let tag = NbtTag::Compound(compound);
    stack.set_custom_data("test_plugin", "full", tag.copy());

    assert_eq!(stack.get_custom_data("test_plugin", "full"), Some(tag));
}

#[test]
fn custom_data_preserves_sibling_namespaces_and_keys() {
    let regs = registries();
    let mut stack = stack_of(&regs, 1, "wooden_axe");

    stack.set_custom_data("test_plugin", "marker", NbtTag::Byte(1));
    stack.set_custom_data("test_plugin", "mode", NbtTag::String(text("pos1")));
    stack.set_custom_data("other_plugin", "flag", NbtTag::Byte(1));
    stack.set_custom_data("test_plugin", "marker", NbtTag::Byte(0));

    assert_eq!(stack.get_custom_data("test_plugin", "marker"), Some(NbtTag::Byte(0)));
    assert_eq!(stack.get_custom_data("test_plugin", "mode"), Some(NbtTag::String(text("pos1"))));
    assert_eq!(stack.get_custom_data("other_plugin", "flag"), Some(NbtTag::Byte(1)));
}

#[test]
fn remove_custom_data_removes_only_target_key_and_cleans_empty_component() {
    let regs = registries();
    let mut stack = stack_of(&regs, 1, "wooden_axe");

    stack.set_custom_data("test_plugin", "marker", NbtTag::Byte(1));
    stack.set_custom_data("test_plugin", "mode", NbtTag::String(text("pos1")));
    stack.set_custom_data("other_plugin", "flag", NbtTag::Byte(1));

    stack.remove_custom_data("test_plugin", "marker");
    assert!(!stack.has_custom_data("test_plugin", "marker"));
    assert_eq!(stack.get_custom_data("test_plugin", "mode"), Some(NbtTag::String(text("pos1"))));
    assert_eq!(stack.get_custom_data("other_plugin", "flag"), Some(NbtTag::Byte(1)));
    assert!(stack.get_data_component::<CustomDataImpl>().is_some());

    stack.remove_custom_data("test_plugin", "mode");
    stack.remove_custom_data("other_plugin", "flag");
    assert!(stack.get_data_component::<CustomDataImpl>().is_none());
}

#[test]
fn custom_data_preserves_other_item_components() {
    let regs = registries();
    let mut stack = stack_of(&regs, 1, "wooden_axe");
    stack.patch.push(entry(CustomNameImpl { name: TextComponent::text(text("Marked Item")) }.to_dyn()));
    stack.patch.push(entry(UnbreakableImpl.to_dyn()));

    stack.set_custom_data("test_plugin", "marker", NbtTag::Byte(1));
    stack.remove_custom_data("test_plugin", "missing");

    assert!(stack.get_data_component::<CustomNameImpl>().is_some());
    assert!(stack.get_data_component::<UnbreakableImpl>().is_some());
    assert_eq!(stack.get_custom_data("test_plugin", "marker"), Some(NbtTag::Byte(1)));
}

#[test]
fn lore_can_be_set_and_appended() {
    let regs = registries();
    let mut stack = stack_of(&regs, 1, "wooden_axe");
    stack.set_lore(vec![TextComponent::text(text("First line"))]);
    stack.add_lore(TextComponent::text(text("Second line")));

    let lore = stack.get_data_component::<LoreImpl>().expect("lore component should be present");
    assert_eq!(lore.lines.len(), 2);
    assert_eq!(lore.lines[0].clone().get_text(), "First line");
    assert_eq!(lore.lines[1].clone().get_text(), "Second line");
}

#[test]
fn custom_data_survives_item_stack_nbt_roundtrip() {
    let regs = registries();
    let mut stack = stack_of(&regs, 1, "wooden_axe");
    stack.set_custom_data("test_plugin", "marker", NbtTag::Byte(1));
    stack.set_custom_data("test_plugin", "mode", NbtTag::String(text("pos1")));
    stack.patch.push(entry(UnbreakableImpl.to_dyn()));

    let mut compound = NbtCompound::new();
    assert!(stack.write_item_stack(&mut compound, &regs).is_empty());
    let decoded = read_stack(&compound, &regs).expect("stack should decode");

    assert_eq!(decoded.get_custom_data("test_plugin", "marker"), Some(NbtTag::Byte(1)));
    assert_eq!(decoded.get_custom_data("test_plugin", "mode"), Some(NbtTag::String(text("pos1"))));
    assert!(decoded.get_data_component::<UnbreakableImpl>().is_some());
}

#[test]
fn use_remainder_nbt_preserves_template_and_custom_components() {
    let regs = registries();
    let mut custom_data = NbtCompound::new();
    custom_data.put_int("x", 7);
    let mut components = NbtCompound::new();
    components.put("minecraft:custom_data", NbtTag::Compound(custom_data));

    let mut template = NbtCompound::new();
    template.put_string("id", text("minecraft:bowl"));
    template.put_int("count", 2);
    template.put_compound("components", components.copy());

    let remainder =
        remainder_of(&NbtTag::Compound(template), &regs).expect("official remainder template should decode");
    assert_eq!(remainder.convert_into.item.registry_key, "bowl");
    assert_eq!(remainder.convert_into.item_count, 2);
    assert_eq!(
        remainder
            .convert_into
            .get_data_component::<CustomDataImpl>()
            .expect("custom data should survive")
            .data
            .get_int("x"),
        Some(7)
    );

    let mut encoded = NbtCompound::new();
    assert!(remainder.convert_into.write_item_stack(&mut encoded, &regs).is_empty());
    assert!(same(encoded.get_compound("components"), &components));
}

#[test]
fn use_remainder_accepts_official_bare_item_template() {
    let regs = registries();
    let remainder = remainder_of(&NbtTag::String(text("minecraft:bowl")), &regs).expect("bare item template should decode");
    assert_eq!(remainder.convert_into.item.registry_key, "bowl");
    assert_eq!(remainder.convert_into.item_count, 1);
    assert!(remainder.convert_into.patch.is_empty());
}

#[test]
fn item_stack_count_uses_java_number_narrowing_before_range() {
    let regs = registries();
    for tag in [
        NbtTag::Byte(2),
        NbtTag::Short(2),
        NbtTag::Long(2),
        NbtTag::Float(2.9f32.to_bits()),
        NbtTag::Double(2.9f64.to_bits()),
    ] {
        let mut stack = NbtCompound::new();
        stack.put_string("id", text("minecraft:bucket"));
        stack.put("count", tag);
        assert_eq!(read_stack(&stack, &regs).unwrap().item_count, 2);
    }
    for tag in [NbtTag::String(text("2")), NbtTag::List(Vec::new())] {
        let mut stack = NbtCompound::new();
        stack.put_string("id", text("minecraft:bucket"));
        stack.put("count", tag);
        assert!(read_stack(&stack, &regs).is_none());
    }
}

#[test]
fn item_stack_nbt_uses_official_defaults_and_rejects_invalid_templates() {
    let regs = registries();
    let mut missing_count = NbtCompound::new();
    missing_count.put_string("id", text("minecraft:bucket"));
    let decoded = read_stack(&missing_count, &regs).expect("count defaults to one");
    assert_eq!(decoded.item_count, 1);
    assert!(decoded.patch.is_empty());

    let mut wrong_shape = NbtCompound::new();
    wrong_shape.put_string("id", text("minecraft:bucket"));
    wrong_shape.put_string("count", text("one"));
    assert!(read_stack(&wrong_shape, &regs).is_none());

    let mut wrong_components = NbtCompound::new();
    wrong_components.put_string("id", text("minecraft:bucket"));
    wrong_components.put_string("components", text("not a compound"));
    assert!(read_stack(&wrong_components, &regs).is_none());

    for count in [0, -1, 100] {
        let mut invalid = NbtCompound::new();
        invalid.put_string("id", text("minecraft:bucket"));
        invalid.put_int("count", count);
        assert!(read_stack(&invalid, &regs).is_none(), "count={count}");
    }

    for id in ["minecraft:air", "minecraft:not_an_item"] {
        let mut invalid = NbtCompound::new();
        invalid.put_string("id", text(id));
        assert!(read_stack(&invalid, &regs).is_none(), "id={id}");
    }
}

#[test]
fn generated_use_remainder_defaults_keep_official_templates() {
    let regs = registries();
    for (key, remainder, count) in [
        ("milk_bucket", "bucket", 1),
        ("honey_bottle", "glass_bottle", 1),
        ("mushroom_stew", "bowl", 1),
        ("beetroot_soup", "bowl", 1),
    ] {
        let item = find(&regs, key);
        let component = item
            .components
            .iter()
            .find(|(id, _)| *id == DataComponent::UseRemainder)
            .and_then(|(_, component)| UseRemainderImpl::of(component))
            .expect("generated use_remainder component");
        assert_eq!(component.convert_into.item.registry_key, remainder);
        assert_eq!(component.convert_into.item_count, count);
        assert!(component.convert_into.patch.is_empty());
    }
}

#[test]
fn nested_item_stack_components_are_reflexive_and_hash_consistent() {
    let regs = registries();
    let nested = stack_of(&regs, 1, "bowl");
    let mut first = stack_of(&regs, 1, "crossbow");
    first.patch.push(entry(ContainerImpl { items: vec![(0, nested.copy())] }.to_dyn()));
    first.patch.push(entry(BundleContentsImpl { items: vec![nested.copy()] }.to_dyn()));
    let second = first.copy();
    assert!(first.are_equal(&first));
    assert!(first.are_equal(&second));
    assert_eq!(first.get_hash(), second.get_hash());
    assert!(equal_components(
        &UseRemainderImpl { convert_into: first.copy() }.to_dyn(),
        &UseRemainderImpl { convert_into: second }.to_dyn(),
    ));
}

#[test]
fn translated_item_name_survives_item_stack_nbt_roundtrip() {
    let regs = registries();
    let mut stack = stack_of(&regs, 1, "filled_map");
    stack.patch.push(entry(ItemNameImpl { name: ItemName::translated("filled_map.mansion") }.to_dyn()));

    let mut compound = NbtCompound::new();
    assert!(stack.write_item_stack(&mut compound, &regs).is_empty());
    let decoded = read_stack(&compound, &regs).expect("stack should decode");

    assert_eq!(
        decoded.get_data_component::<ItemNameImpl>().expect("item name should decode").name,
        ItemName::Component(TextComponent::translate("filled_map.mansion"))
    );
}

#[test]
fn damage_zero_amount_is_noop() {
    let regs = registries();
    let mut stack = iron_sword(&regs);
    assert_eq!(stack.damage_item(0, &regs), DamageResult::Untouched);
    assert_eq!(stack.get_damage(), 0);
}

#[test]
fn damage_negative_amount_is_noop() {
    let regs = registries();
    let cases: &[i32] = &[-1, -5, -10, -100];
    for &amount in cases {
        let mut stack = iron_sword(&regs);
        assert_eq!(
            stack.damage_item(amount, &regs),
            DamageResult::Untouched,
            "expected no damage for amount={amount}"
        );
        assert_eq!(stack.get_damage(), 0, "damage mismatch for amount={amount}");
    }
}

#[test]
fn damage_non_damageable_item_is_noop() {
    let regs = registries();
    let mut stack = stack_of(&regs, 1, "air");
    assert_eq!(stack.damage_item(1, &regs), DamageResult::Untouched);
}

#[test]
fn damage_unbreakable_item_is_noop() {
    let regs = registries();
    let cases: &[i32] = &[1, 5, 10, 100, 250];
    for &amount in cases {
        let mut stack = iron_sword(&regs);
        stack.patch.push(entry(UnbreakableImpl.to_dyn()));
        assert_eq!(
            stack.damage_item(amount, &regs),
            DamageResult::Untouched,
            "expected no damage for unbreakable item, amount={amount}"
        );
        assert_eq!(stack.get_damage(), 0, "damage mismatch for unbreakable item, amount={amount}");
    }
}

#[test]
fn damage_increases_damage_value() {
    let regs = registries();
    let cases: &[(i32, i32)] = &[(1, 1), (5, 5), (10, 10), (100, 100), (249, 249)];
    for &(amount, expected) in cases {
        let mut stack = iron_sword(&regs);
        assert_eq!(
            stack.damage_item(amount, &regs),
            DamageResult::Damaged,
            "expected damage_item to return Damaged for amount={amount}"
        );
        assert_eq!(stack.get_damage(), expected, "damage mismatch for amount={amount}");
    }
}

#[test]
fn damage_accumulates() {
    let regs = registries();
    let cases: &[(i32, i32, i32)] = &[(100, 50, 150), (10, 20, 30), (1, 1, 2), (50, 100, 150)];
    for &(first, second, expected) in cases {
        let mut stack = iron_sword(&regs);
        let _ = stack.damage_item(first, &regs);
        let _ = stack.damage_item(second, &regs);
        assert_eq!(
            stack.get_damage(),
            expected,
            "accumulated damage mismatch for first={first}, second={second}"
        );
    }
}

#[test]
fn damage_breaks_item_when_exceeding_max() {
    let regs = registries();
    let cases: &[i32] = &[250, 260, 300, 1000];
    for &amount in cases {
        let mut stack = iron_sword(&regs);
        assert_eq!(
            stack.damage_item(amount, &regs),
            DamageResult::Broken,
            "expected item to break for amount={amount}"
        );
        assert!(stack.is_empty(), "item should be destroyed for amount={amount}");
    }
}

#[test]
fn damage_item_changes_component_equality() {
    let regs = registries();
    let mut stack = iron_sword(&regs);
    let original = stack.copy();
    assert_eq!(stack.damage_item(1, &regs), DamageResult::Damaged);
    assert!(!stack.are_equal(&original), "durability patch must differ so inventory sync sends SET_SLOT");
    assert_eq!(stack.get_damage(), 1);
}

#[test]
fn damage_breaks_single_item_to_empty() {
    let regs = registries();
    let mut stack = iron_sword(&regs);
    let _ = stack.damage_item(300, &regs);
    assert!(stack.is_empty());
    assert_eq!(stack.item_count, 0);
}

#[test]
fn repair_zero_amount_is_noop() {
    let regs = registries();
    let initial_damages: &[i32] = &[1, 5, 10, 100, 249];
    for &initial in initial_damages {
        let mut stack = iron_sword(&regs);
        stack.set_damage(initial);
        assert_eq!(stack.repair_item(0), 0, "repair(0) should return 0 for initial={initial}");
        assert_eq!(stack.get_damage(), initial, "damage should be unchanged for initial={initial}");
    }
}

#[test]
fn repair_negative_amount_is_noop() {
    let regs = registries();
    let cases: &[i32] = &[-1, -5, -10, -100];
    for &amount in cases {
        let mut stack = iron_sword(&regs);
        stack.set_damage(10);
        assert_eq!(stack.repair_item(amount), 0, "repair({amount}) should return 0");
        assert_eq!(stack.get_damage(), 10, "damage should be unchanged for repair({amount})");
    }
}

#[test]
fn repair_undamaged_item_is_noop() {
    let regs = registries();
    let amounts: &[i32] = &[1, 5, 10, 100];
    for &amount in amounts {
        let mut stack = iron_sword(&regs);
        assert_eq!(stack.repair_item(amount), 0, "repair({amount}) on undamaged item should return 0");
        assert_eq!(stack.get_damage(), 0, "undamaged item should remain at 0 after repair({amount})");
    }
}

#[test]
fn repair_partial() {
    let regs = registries();
    let cases: &[(i32, i32, i32, i32)] = &[(20, 8, 8, 12), (50, 25, 25, 25), (100, 30, 30, 70), (249, 1, 1, 248)];
    for &(initial, repair, exp_repaired, exp_remaining) in cases {
        let mut stack = iron_sword(&regs);
        stack.set_damage(initial);
        let repaired = stack.repair_item(repair);
        assert_eq!(
            repaired, exp_repaired,
            "repaired amount mismatch for initial={initial}, repair={repair}"
        );
        assert_eq!(
            stack.get_damage(),
            exp_remaining,
            "remaining damage mismatch for initial={initial}, repair={repair}"
        );
    }
}

#[test]
fn repair_capped_at_current_damage() {
    let regs = registries();
    let cases: &[(i32, i32)] = &[(5, 6), (5, 100), (10, 11), (100, 200)];
    for &(initial, repair) in cases {
        let mut stack = iron_sword(&regs);
        stack.set_damage(initial);
        let repaired = stack.repair_item(repair);
        assert_eq!(repaired, initial, "repaired amount mismatch for initial={initial}, repair={repair}");
        assert_eq!(stack.get_damage(), 0, "damage should be 0 after over-repair for initial={initial}");
    }
}

#[test]
fn repair_fully_clears_damage_component() {
    let regs = registries();
    let mut stack = iron_sword(&regs);
    stack.set_damage(10);
    stack.repair_item(10);
    assert_eq!(stack.get_damage(), 0);
    assert!(!stack.patch.iter().any(|(id, _)| *id == DataComponent::Damage));
}

#[test]
fn damage_stacked_item_breaks_one_and_resets_durability() {
    let regs = registries();
    let mut stack = stack_of(&regs, 2, "iron_sword");
    stack.set_damage(249);

    let result = stack.damage_item(1, &regs);

    assert_eq!(result, DamageResult::Broken, "stacked item at max damage should return Broken");
    assert_eq!(stack.item_count, 1, "stack count should drop from 2 to 1");
    assert_eq!(stack.get_damage(), 0, "remaining sword's durability should reset to 0 after breaking");
    assert!(!stack.is_empty(), "one sword should still remain in the stack");
}

#[test]
fn weapon_categories_identify_2_cost_items() {
    let regs = registries();
    let materials = ["wooden", "stone", "iron", "golden", "diamond", "netherite"];
    for material in materials {
        let stack = stack_of(&regs, 1, &format!("{material}_axe"));
        assert!(stack.is_axe(), "{material}_axe should be an axe");
        assert!(!stack.is_sword(), "{material}_axe should not be a sword");

        let stack = stack_of(&regs, 1, &format!("{material}_pickaxe"));
        assert!(stack.is_pickaxe(), "{material}_pickaxe should be a pickaxe");

        let stack = stack_of(&regs, 1, &format!("{material}_shovel"));
        assert!(stack.is_shovel(), "{material}_shovel should be a shovel");

        let stack = stack_of(&regs, 1, &format!("{material}_hoe"));
        assert!(stack.is_hoe(), "{material}_hoe should be a hoe");
    }
    for material in ["iron", "diamond", "netherite"] {
        let stack = stack_of(&regs, 1, &format!("{material}_sword"));
        assert!(stack.is_sword(), "{material}_sword should be a sword");
        assert!(!stack.is_axe(), "{material}_sword should not be an axe");
        assert!(!stack.is_pickaxe(), "{material}_sword should not be a pickaxe");
    }
}

fn with_unbreaking(regs: &Registries, key: &str, level: i32) -> ItemStack {
    let mut s = stack_of(regs, 1, key);
    s.patch.push(entry(EnchantmentsImpl { enchantment: vec![(39, level)] }.to_dyn()));
    s
}

#[test]
fn unbreaking_iii_tool_applies_roughly_25_percent_of_hits() {
    let regs = registries();
    let mut stack = with_unbreaking(&regs, "netherite_pickaxe", 3);
    let mut applied: u32 = 0;
    for _ in 0..4_000 {
        if stack.damage_item(1, &regs) != DamageResult::Untouched {
            applied += 1;
        }
    }
    assert!(
        (865..=1_135).contains(&applied),
        "Unbreaking III tool: expected ~1 000 applications in 4 000 trials, got {applied}"
    );
}

#[test]
fn unbreaking_iii_armor_applies_roughly_70_percent_of_hits() {
    let regs = registries();
    let mut stack = with_unbreaking(&regs, "diamond_chestplate", 3);
    let mut applied: u32 = 0;
    for _ in 0..500 {
        if stack.damage_item(1, &regs) != DamageResult::Untouched {
            applied += 1;
        }
    }
    assert!(
        (300..=400).contains(&applied),
        "Unbreaking III armor: expected ~350 applications in 500 trials, got {applied}"
    );
}

#[test]
fn set_damage_negative_clamps_to_zero() {
    let regs = registries();
    let cases: &[i32] = &[-1, -10, -100, i32::MIN];
    for &amount in cases {
        let mut stack = iron_sword(&regs);
        stack.set_damage(amount);
        assert_eq!(stack.get_damage(), 0, "damage should clamp to 0 for set_damage({amount})");
    }
}

#[test]
fn consumable_rejects_invalid_inline_effect() {
    let regs = registries();
    let mut invalid_effect = NbtCompound::new();
    invalid_effect.put_string("type", text("minecraft:not_a_consume_effect"));
    let mut consumable = NbtCompound::new();
    consumable.put_float("consume_seconds", 1.6f32.to_bits());
    consumable.put_string("animation", text("eat"));
    consumable.put_string("sound", text("minecraft:entity.generic.eat"));
    consumable.put_bool("has_consume_particles", true);
    consumable.put_list("on_consume_effects", vec![NbtTag::Compound(invalid_effect)]);

    assert!(ConsumableImpl::read_data(&NbtTag::Compound(consumable), &regs).is_none());
}

#[test]
fn consumables_come_back_from_their_stored_form() {
    let regs = registries();
    let mut effect = NbtCompound::new();
    effect.put_string("type", text("minecraft:clear_all_effects"));
    let mut consumable = NbtCompound::new();
    consumable.put_float("consume_seconds", 0.8f32.to_bits());
    consumable.put_string("animation", text("drink"));
    consumable.put_string("sound", text("minecraft:ambient.cave"));
    consumable.put_bool("has_consume_particles", false);
    consumable.put_list("on_consume_effects", vec![NbtTag::Compound(effect)]);
    let tag = NbtTag::Compound(consumable);
    let value = ConsumableImpl::read_data(&tag, &regs).expect("consumable");
    assert_eq!((value.consume_ticks(), value.consume_particles, value.effects.len()), (16, false, 1));
    assert_eq!(value.write_data(&regs), Some(tag));

    let food = ConsumableImpl::read_data(&NbtTag::Compound(NbtCompound::new()), &regs).expect("defaults");
    assert_eq!((food.consume_ticks(), food.consume_particles, food.effects.len()), (32, true, 0));
    assert!(ConsumableImpl::read_data(&NbtTag::Int(1), &regs).is_none());
}
