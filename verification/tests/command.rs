#![allow(dead_code, unused_imports)]
use pumpkin_items::basic::{MaxDamageImpl, MaxStackSizeImpl};
use pumpkin_items::components::{ComponentValue, DataComponentImpl};
use pumpkin_items::data_component::DataComponent;
use pumpkin_items::item_stack::{BundleContentsImpl, Item, ItemStack, ItemStackIdGenerator, UseRemainderImpl};
use pumpkin_items::registry::{Block, Registries, VersionMap};
use pumpkin_items::version::JavaMinecraftVersion;
use std::sync::Arc;
use pumpkin_items::command::{CommandContext, CommandErrorType, CommandSyntaxError, GivenValue, ItemArgument, ItemStackArgumentType, JavaClientArgumentType, SoundArgumentType, StringReader, SuggestionProviders};
use pumpkin_items::nbt_tag::{NbtCompound, NbtTag};

/// An item with its number, its tags and its default components.
fn item(key: &str, id: u16, tags: &[&str], components: Vec<ComponentValue>) -> Arc<Item> {
    Arc::new(Item {
        id,
        registry_key: key.to_owned(),
        tags: tags.iter().map(|t| t.to_string()).collect(),
        components: components
            .into_iter()
            .map(|v| (v.get_self_enum(), Arc::new(v)))
            .collect(),
    })
}

fn stack_size(size: u8) -> ComponentValue {
    MaxStackSizeImpl { size }.to_dyn()
}

fn worn_out_at(max_damage: i32) -> Vec<ComponentValue> {
    vec![stack_size(1), MaxDamageImpl { max_damage }.to_dyn()]
}

fn names(list: &[&str]) -> Vec<String> {
    list.iter().map(|t| t.to_string()).collect()
}

fn block(name: &str, properties: &[&str], tags: &[&str]) -> Block {
    Block { name: name.to_owned(), properties: names(properties), tags: names(tags) }
}

/// The numbers of items and components in version 26.1, which lacks one component of the current
/// version.
fn older_version() -> VersionMap {
    let missing = DataComponent::SulfurCubeContent.to_id() as u32;
    let mut items_out: Vec<u16> = (0..2000).collect();
    items_out[920] = 893;
    let mut components_out: Vec<u32> = Vec::new();
    let mut components_in: Vec<u32> = Vec::new();
    for id in 0..111u32 {
        if id < missing {
            components_out.push(id);
        } else if id == missing {
            components_out.push(0);
        } else {
            components_out.push(id - 1);
        }
        components_in.push(if id < missing { id } else { id + 1 });
    }
    VersionMap {
        version: JavaMinecraftVersion::V_26_1,
        items_out,
        items_in: (0..2000).collect(),
        components_out,
        components_in,
    }
}

/// A small set of registries.
fn registries() -> Registries {
    let tools = |kind: &str, from: u16| -> Vec<Arc<Item>> {
        let tag = format!("minecraft:{kind}s");
        ["wooden", "stone", "iron", "golden", "diamond", "netherite"]
            .iter()
            .enumerate()
            .map(|(i, material)| {
                let max = if *material == "netherite" { 2031 } else { 250 };
                item(&format!("{material}_{kind}"), from + i as u16, &[&tag], worn_out_at(max))
            })
            .collect()
    };
    let plain = |key: &str, id: u16| item(key, id, &[], vec![stack_size(64)]);
    let mut items = vec![
        item("air", 0, &[], vec![]),
        plain("stone", 1),
        plain("bowl", 920),
        plain("coal", 30),
        plain("bucket", 31),
        plain("glass_bottle", 32),
        item("filled_map", 33, &[], vec![stack_size(64)]),
        item("totem_of_undying", 34, &[], vec![stack_size(1)]),
        item("music_disc_13", 35, &[], vec![stack_size(1)]),
        item("knowledge_book", 36, &[], vec![stack_size(1)]),
        item("crossbow", 37, &[], worn_out_at(465)),
        item("diamond_chestplate", 38, &["minecraft:enchantable/armor"], worn_out_at(528)),
        plain("oak_planks", 39),
        plain("oak_log", 43),
        plain("cobblestone", 40),
        item("shield", 41, &[], worn_out_at(336)),
        item("bundle", 42, &[], vec![stack_size(1), BundleContentsImpl { items: vec![] }.to_dyn()]),
    ];
    for (key, id, remainder) in [
        ("milk_bucket", 50, "bucket"),
        ("honey_bottle", 51, "glass_bottle"),
        ("mushroom_stew", 52, "bowl"),
        ("beetroot_soup", 53, "bowl"),
    ] {
        let into = items.iter().find(|i| i.registry_key == remainder).unwrap().clone();
        let convert_into = ItemStack::static_new_java(1, into);
        items.push(item(key, id, &[], vec![stack_size(1), UseRemainderImpl { convert_into }.to_dyn()]));
    }
    items.extend(tools("axe", 100));
    items.extend(tools("pickaxe", 110));
    items.extend(tools("shovel", 120));
    items.extend(tools("hoe", 130));
    items.extend(tools("sword", 140));
    let mut enchantments: Vec<String> = (0..39).map(|i| format!("minecraft:enchantment_{i}")).collect();
    enchantments.push("minecraft:unbreaking".to_owned());
    Registries {
        items,
        enchantments,
        effects: names(&["minecraft:speed", "minecraft:regeneration", "minecraft:absorption"]),
        sounds: names(&["ambient.cave", "entity.generic.eat", "item.armor.equip_generic"]),
        entity_types: names(&["minecraft:player", "minecraft:zombie"]),
        blocks: vec![
            block("air", &[], &[]),
            block("stone", &[], &["minecraft:base_stone_overworld"]),
            block("oak_log", &["axis"], &["minecraft:logs"]),
            block("oak_fence_gate", &["facing", "open"], &[]),
        ],
        attributes: names(&["minecraft:armor", "minecraft:armor_toughness", "minecraft:attack_damage"]),
        damage_types: names(&["in_fire", "lava"]),
        songs: names(&["13", "cat", "blocks"]),
        versions: vec![older_version()],
        stored_forms: vec![],
    }
}

fn find(regs: &Registries, key: &str) -> Arc<Item> {
    regs.items.iter().find(|i| i.registry_key == key).expect(key).clone()
}

fn stack_of(regs: &Registries, count: u8, key: &str) -> ItemStack {
    ItemStack::new(count, find(regs, key), &mut ItemStackIdGenerator::new())
}

/// Reads one value written in the text form of tags: compounds, lists, quoted texts and numbers.
/// What is returned is the value and the place behind it.
fn value_at(t: &[char], i: usize) -> Option<(NbtTag, usize)> {
    match t.get(i)? {
        '{' => {
            let mut out = NbtCompound::new();
            let mut i = i + 1;
            while t[i] != '}' {
                let colon = i + t[i..].iter().position(|c| *c == ':')?;
                let key: String = t[i..colon].iter().collect();
                let (tag, next) = value_at(t, colon + 1)?;
                out.put(&key, tag);
                i = if t[next] == ',' { next + 1 } else { next };
            }
            Some((NbtTag::Compound(out), i + 1))
        }
        '[' => {
            let mut out = Vec::new();
            let mut i = i + 1;
            while t[i] != ']' {
                let (tag, next) = value_at(t, i)?;
                out.push(tag);
                i = if t[next] == ',' { next + 1 } else { next };
            }
            Some((NbtTag::List(out), i + 1))
        }
        '"' => {
            let mut out = String::new();
            let mut i = i + 1;
            while t[i] != '"' {
                if t[i] == '\\' {
                    i += 1;
                }
                out.push(t[i]);
                i += 1;
            }
            Some((NbtTag::String(out), i + 1))
        }
        _ => {
            let end = i + t[i..].iter().take_while(|c| c.is_ascii_digit()).count();
            let number: String = t[i..end].iter().collect();
            Some((NbtTag::Int(number.parse().ok()?), end))
        }
    }
}

fn parse(input: &str) -> Result<ItemStack, CommandSyntaxError> {
    let regs = registries();
    let text: Vec<char> = input.chars().collect();
    let mut values: Vec<GivenValue> = Vec::new();
    loop {
        let mut reader = StringReader::new(input);
        let mut ids = ItemStackIdGenerator::new();
        match ItemStackArgumentType.parse(&mut reader, &values, &regs, &mut ids)? {
            ItemArgument::Stack(stack) => return Ok(stack),
            ItemArgument::NeedsValue(start) => values.push(match value_at(&text, start) {
                Some((tag, end)) => GivenValue { start, end, tag: Some(tag) },
                None => GivenValue { start, end: start, tag: None },
            }),
        }
    }
}

#[test]
fn duplicate_command_components_reject_values_aliases_and_removals() {
    for input in [
        "minecraft:iron_sword[damage=1,damage=2]",
        "iron_sword[minecraft:damage=1,damage=2]",
        "iron_sword[!damage,damage=1]",
        "iron_sword[damage=1,!minecraft:damage]",
        "iron_sword[!damage,!minecraft:damage]",
    ] {
        let Err(error) = parse(input) else {
            panic!("{input}");
        };
        assert!(error.error_type == CommandErrorType::ComponentRepeated, "{input}");
        assert!(error.cursor.is_none(), "{input}");
    }
}

#[test]
fn unknown_command_component_reports_name_start() {
    let input = "iron_sword[!missing]";
    let error = match parse(input) {
        Ok(_) => panic!("{input}"),
        Err(error) => error,
    };
    assert!(error.error_type == CommandErrorType::ComponentUnknown);
    assert_eq!(error.cursor.unwrap(), "iron_sword[!".len());
}

#[test]
fn command_component_remove_and_distinct_values_parse() {
    let removed = parse("iron_sword[!damage]").expect("removed component");
    assert_eq!(removed.patch.len(), 1);
    assert!(removed.patch[0].0 == DataComponent::Damage);
    assert!(removed.patch[0].1.is_none());

    let distinct = parse("iron_sword[damage=1,unbreakable={}]").expect("distinct components");
    assert_eq!(distinct.patch.len(), 2);
}

#[test]
fn command_component_invalid_shapes_match_vanilla_errors_and_cursors() {
    for (input, cursor) in [
        ("iron_sword[!damage=1]", "iron_sword[!damage".len()),
        ("iron_sword[damage]", "iron_sword[damage".len()),
    ] {
        let error = match parse(input) {
            Ok(_) => panic!("{input}"),
            Err(error) => error,
        };
        assert!(error.error_type == CommandErrorType::ExpectedSymbol, "{input}");
        assert_eq!(error.cursor.unwrap(), cursor, "{input}");
    }
}

#[test]
fn command_components_accept_whitespace_nested_snbt_and_quoted_text() {
    let stack = parse(
        r#"iron_sword[ custom_data = {foo:[1,2,{text:"a,b"}]} , custom_name = {text:"quoted \"text\" and ]"} ]"#,
    )
    .expect("valid component syntax");
    assert_eq!(stack.patch.len(), 2);
}

#[test]
fn malformed_component_value_reports_the_value_start() {
    let input = "iron_sword[damage={}]";
    let error = match parse(input) {
        Ok(_) => panic!("damage requires an integer"),
        Err(error) => error,
    };
    assert!(error.cursor.is_some_and(|cursor| cursor == input.find('{').expect("value start")));
}

#[test]
fn an_unknown_item_is_refused() {
    let error = match parse("no_such_item") {
        Ok(_) => panic!("unknown item"),
        Err(error) => error,
    };
    assert!(error.error_type == CommandErrorType::UnknownItem);
}

#[test]
fn items_are_found_with_and_without_namespace() {
    assert_eq!(parse("stone").unwrap().item.registry_key, "stone");
    assert_eq!(parse("minecraft:stone").unwrap().item.registry_key, "stone");
    assert!(parse("stone").unwrap().patch.is_empty());
}

#[test]
fn arguments_are_found_by_their_names() {
    let regs = registries();
    let context = CommandContext { stacks: vec![("item".to_owned(), stack_of(&regs, 3, "stone"))] };
    let stack = ItemStackArgumentType::get(&context, "item").unwrap();
    assert_eq!((stack.item.id, stack.item_count), (1, 3));
    let Err(error) = ItemStackArgumentType::get(&context, "other") else {
        panic!("no such argument");
    };
    assert!(error.error_type == CommandErrorType::UnknownArgument);
}

#[test]
fn sounds_are_identifiers_and_suggested_by_their_beginning() {
    let regs = registries();
    let mut reader = StringReader::new("ambient.cave rest");
    assert_eq!(SoundArgumentType.parse(&mut reader).unwrap(), "minecraft:ambient.cave");
    assert_eq!(reader.cursor, "ambient.cave".len());
    let suggested = SoundArgumentType.list_suggestions("minecraft:amb", &regs);
    assert_eq!(suggested, ["minecraft:ambient.cave"]);
    assert!(!SoundArgumentType.examples().is_empty());
}

#[test]
fn clients_parse_arguments_by_themselves() {
    assert_eq!(ItemStackArgumentType.client_side_parser(), JavaClientArgumentType::ItemStack);
    assert_eq!(SoundArgumentType.client_side_parser(), JavaClientArgumentType::ResourceLocation);
    assert_eq!(SoundArgumentType.override_suggestion_providers(), Some(SuggestionProviders::AvailableSounds));
    assert_eq!(SoundArgumentType.examples(), vec!["minecraft:ambient.cave".to_owned()]);
}
