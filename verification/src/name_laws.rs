//! The numbers and names of the component types.
use vstd::prelude::*;
use crate::component_names::lemma_component_of_own_name;
use crate::data_component::{component_id, component_name, component_of_id, component_of_name, first_named, names_component, DataComponent, COMPONENT_COUNT};
use crate::identifier::{bare_name, identifier_of, lemma_colon_place, lemma_first_colon, namespace_char, path_char};

verus! {

/// The component types from the number 0 on, with their names.
pub open spec fn first_components() -> Seq<(DataComponent, Seq<char>)> {
    seq![
        (DataComponent::CustomData, "minecraft:custom_data"@),
        (DataComponent::MaxStackSize, "minecraft:max_stack_size"@),
        (DataComponent::MaxDamage, "minecraft:max_damage"@),
        (DataComponent::Damage, "minecraft:damage"@),
        (DataComponent::Unbreakable, "minecraft:unbreakable"@),
        (DataComponent::UseEffects, "minecraft:use_effects"@),
        (DataComponent::CustomName, "minecraft:custom_name"@),
        (DataComponent::MinimumAttackCharge, "minecraft:minimum_attack_charge"@),
        (DataComponent::DamageType, "minecraft:damage_type"@),
        (DataComponent::ItemName, "minecraft:item_name"@),
        (DataComponent::ItemModel, "minecraft:item_model"@),
        (DataComponent::Lore, "minecraft:lore"@),
        (DataComponent::Rarity, "minecraft:rarity"@),
        (DataComponent::Enchantments, "minecraft:enchantments"@),
        (DataComponent::CanPlaceOn, "minecraft:can_place_on"@),
        (DataComponent::CanBreak, "minecraft:can_break"@),
        (DataComponent::AttributeModifiers, "minecraft:attribute_modifiers"@),
        (DataComponent::CustomModelData, "minecraft:custom_model_data"@),
        (DataComponent::TooltipDisplay, "minecraft:tooltip_display"@),
        (DataComponent::RepairCost, "minecraft:repair_cost"@),
        (DataComponent::CreativeSlotLock, "minecraft:creative_slot_lock"@),
        (DataComponent::EnchantmentGlintOverride, "minecraft:enchantment_glint_override"@),
    ]
}

/// The component types from the number 22 on, with their names.
pub open spec fn second_components() -> Seq<(DataComponent, Seq<char>)> {
    seq![
        (DataComponent::IntangibleProjectile, "minecraft:intangible_projectile"@),
        (DataComponent::Food, "minecraft:food"@),
        (DataComponent::Consumable, "minecraft:consumable"@),
        (DataComponent::UseRemainder, "minecraft:use_remainder"@),
        (DataComponent::UseCooldown, "minecraft:use_cooldown"@),
        (DataComponent::DamageResistant, "minecraft:damage_resistant"@),
        (DataComponent::Tool, "minecraft:tool"@),
        (DataComponent::Weapon, "minecraft:weapon"@),
        (DataComponent::AttackRange, "minecraft:attack_range"@),
        (DataComponent::Enchantable, "minecraft:enchantable"@),
        (DataComponent::Equippable, "minecraft:equippable"@),
        (DataComponent::Repairable, "minecraft:repairable"@),
        (DataComponent::Glider, "minecraft:glider"@),
        (DataComponent::TooltipStyle, "minecraft:tooltip_style"@),
        (DataComponent::DeathProtection, "minecraft:death_protection"@),
        (DataComponent::BlocksAttacks, "minecraft:blocks_attacks"@),
        (DataComponent::PiercingWeapon, "minecraft:piercing_weapon"@),
        (DataComponent::KineticWeapon, "minecraft:kinetic_weapon"@),
        (DataComponent::SwingAnimation, "minecraft:swing_animation"@),
        (DataComponent::AdditionalTradeCost, "minecraft:additional_trade_cost"@),
        (DataComponent::StoredEnchantments, "minecraft:stored_enchantments"@),
        (DataComponent::Dye, "minecraft:dye"@),
    ]
}

/// The component types from the number 44 on, with their names.
pub open spec fn third_components() -> Seq<(DataComponent, Seq<char>)> {
    seq![
        (DataComponent::DyedColor, "minecraft:dyed_color"@),
        (DataComponent::MapColor, "minecraft:map_color"@),
        (DataComponent::MapId, "minecraft:map_id"@),
        (DataComponent::MapDecorations, "minecraft:map_decorations"@),
        (DataComponent::MapPostProcessing, "minecraft:map_post_processing"@),
        (DataComponent::ChargedProjectiles, "minecraft:charged_projectiles"@),
        (DataComponent::BundleContents, "minecraft:bundle_contents"@),
        (DataComponent::PotionContents, "minecraft:potion_contents"@),
        (DataComponent::PotionDurationScale, "minecraft:potion_duration_scale"@),
        (DataComponent::SuspiciousStewEffects, "minecraft:suspicious_stew_effects"@),
        (DataComponent::WritableBookContent, "minecraft:writable_book_content"@),
        (DataComponent::WrittenBookContent, "minecraft:written_book_content"@),
        (DataComponent::Trim, "minecraft:trim"@),
        (DataComponent::DebugStickState, "minecraft:debug_stick_state"@),
        (DataComponent::EntityData, "minecraft:entity_data"@),
        (DataComponent::BucketEntityData, "minecraft:bucket_entity_data"@),
        (DataComponent::BlockEntityData, "minecraft:block_entity_data"@),
        (DataComponent::Instrument, "minecraft:instrument"@),
        (DataComponent::ProvidesTrimMaterial, "minecraft:provides_trim_material"@),
        (DataComponent::OminousBottleAmplifier, "minecraft:ominous_bottle_amplifier"@),
        (DataComponent::JukeboxPlayable, "minecraft:jukebox_playable"@),
        (DataComponent::ProvidesBannerPatterns, "minecraft:provides_banner_patterns"@),
    ]
}

/// The component types from the number 66 on, with their names.
pub open spec fn fourth_components() -> Seq<(DataComponent, Seq<char>)> {
    seq![
        (DataComponent::Recipes, "minecraft:recipes"@),
        (DataComponent::LodestoneTracker, "minecraft:lodestone_tracker"@),
        (DataComponent::FireworkExplosion, "minecraft:firework_explosion"@),
        (DataComponent::Fireworks, "minecraft:fireworks"@),
        (DataComponent::Profile, "minecraft:profile"@),
        (DataComponent::NoteBlockSound, "minecraft:note_block_sound"@),
        (DataComponent::BannerPatterns, "minecraft:banner_patterns"@),
        (DataComponent::BaseColor, "minecraft:base_color"@),
        (DataComponent::PotDecorations, "minecraft:pot_decorations"@),
        (DataComponent::Container, "minecraft:container"@),
        (DataComponent::BlockState, "minecraft:block_state"@),
        (DataComponent::Bees, "minecraft:bees"@),
        (DataComponent::SulfurCubeContent, "minecraft:sulfur_cube_content"@),
        (DataComponent::Lock, "minecraft:lock"@),
        (DataComponent::ContainerLoot, "minecraft:container_loot"@),
        (DataComponent::BreakSound, "minecraft:break_sound"@),
        (DataComponent::VillagerVariant, "minecraft:villager/variant"@),
        (DataComponent::WolfVariant, "minecraft:wolf/variant"@),
        (DataComponent::WolfSoundVariant, "minecraft:wolf/sound_variant"@),
        (DataComponent::WolfCollar, "minecraft:wolf/collar"@),
        (DataComponent::FoxVariant, "minecraft:fox/variant"@),
        (DataComponent::SalmonSize, "minecraft:salmon/size"@),
    ]
}

/// The component types from the number 88 on, with their names.
pub open spec fn fifth_components() -> Seq<(DataComponent, Seq<char>)> {
    seq![
        (DataComponent::ParrotVariant, "minecraft:parrot/variant"@),
        (DataComponent::TropicalFishPattern, "minecraft:tropical_fish/pattern"@),
        (DataComponent::TropicalFishBaseColor, "minecraft:tropical_fish/base_color"@),
        (DataComponent::TropicalFishPatternColor, "minecraft:tropical_fish/pattern_color"@),
        (DataComponent::MooshroomVariant, "minecraft:mooshroom/variant"@),
        (DataComponent::RabbitVariant, "minecraft:rabbit/variant"@),
        (DataComponent::PigVariant, "minecraft:pig/variant"@),
        (DataComponent::PigSoundVariant, "minecraft:pig/sound_variant"@),
        (DataComponent::CowVariant, "minecraft:cow/variant"@),
        (DataComponent::CowSoundVariant, "minecraft:cow/sound_variant"@),
        (DataComponent::ChickenVariant, "minecraft:chicken/variant"@),
        (DataComponent::ChickenSoundVariant, "minecraft:chicken/sound_variant"@),
        (DataComponent::ZombieNautilusVariant, "minecraft:zombie_nautilus/variant"@),
        (DataComponent::FrogVariant, "minecraft:frog/variant"@),
        (DataComponent::HorseVariant, "minecraft:horse/variant"@),
        (DataComponent::PaintingVariant, "minecraft:painting/variant"@),
        (DataComponent::LlamaVariant, "minecraft:llama/variant"@),
        (DataComponent::AxolotlVariant, "minecraft:axolotl/variant"@),
        (DataComponent::CatVariant, "minecraft:cat/variant"@),
        (DataComponent::CatSoundVariant, "minecraft:cat/sound_variant"@),
        (DataComponent::CatCollar, "minecraft:cat/collar"@),
        (DataComponent::SheepColor, "minecraft:sheep/color"@),
    ]
}

/// The component types from the number 110 on, with their names.
pub open spec fn sixth_components() -> Seq<(DataComponent, Seq<char>)> {
    seq![
        (DataComponent::ShulkerColor, "minecraft:shulker/color"@),
    ]
}

/// The component types of the list are numbered from 0 on.
pub proof fn lemma_first_components(i: int)
    requires
        0 <= i < 22,
    ensures
        component_id(first_components()[i].0) == 0 + i,
        component_of_id(0 + i) == Some(first_components()[i].0),
        component_name(first_components()[i].0) == first_components()[i].1,
{
}

/// The component types of the list are numbered from 22 on.
pub proof fn lemma_second_components(i: int)
    requires
        0 <= i < 22,
    ensures
        component_id(second_components()[i].0) == 22 + i,
        component_of_id(22 + i) == Some(second_components()[i].0),
        component_name(second_components()[i].0) == second_components()[i].1,
{
}

/// The component types of the list are numbered from 44 on.
pub proof fn lemma_third_components(i: int)
    requires
        0 <= i < 22,
    ensures
        component_id(third_components()[i].0) == 44 + i,
        component_of_id(44 + i) == Some(third_components()[i].0),
        component_name(third_components()[i].0) == third_components()[i].1,
{
}

/// The component types of the list are numbered from 66 on.
pub proof fn lemma_fourth_components(i: int)
    requires
        0 <= i < 22,
    ensures
        component_id(fourth_components()[i].0) == 66 + i,
        component_of_id(66 + i) == Some(fourth_components()[i].0),
        component_name(fourth_components()[i].0) == fourth_components()[i].1,
{
}

/// The component types of the list are numbered from 88 on.
pub proof fn lemma_fifth_components(i: int)
    requires
        0 <= i < 22,
    ensures
        component_id(fifth_components()[i].0) == 88 + i,
        component_of_id(88 + i) == Some(fifth_components()[i].0),
        component_name(fifth_components()[i].0) == fifth_components()[i].1,
{
}

/// The component types of the list are numbered from 110 on.
pub proof fn lemma_sixth_components(i: int)
    requires
        0 <= i < 1,
    ensures
        component_id(sixth_components()[i].0) == 110 + i,
        component_of_id(110 + i) == Some(sixth_components()[i].0),
        component_name(sixth_components()[i].0) == sixth_components()[i].1,
{
}

/// Without a colon an identifier is in the namespace of the game; with one, what stands before the first is
/// the namespace and what stands behind it the path.
pub proof fn lemma_identifier_parts(namespace: Seq<char>, path: Seq<char>)
    requires
        forall|i: int| 0 <= i < namespace.len() ==> #[trigger] namespace[i] != ':',
    ensures
        namespace.len() > 0 ==> identifier_of(namespace + ":"@ + path) == if (forall|i: int|
            0 <= i < namespace.len() ==> namespace_char(#[trigger] namespace[i])) && (forall|i: int|
            0 <= i < path.len() ==> path_char(#[trigger] path[i])) {
            Some(namespace + ":"@ + path)
        } else {
            None
        },
        (forall|i: int| 0 <= i < namespace.len() ==> path_char(#[trigger] namespace[i])) ==> identifier_of(namespace) == Some(
            "minecraft:"@ + namespace,
        ),
{
    reveal_strlit(":");
    reveal_strlit("minecraft");
    reveal_strlit("minecraft:");
    let t = namespace + ":"@ + path;
    lemma_colon_place(namespace, 0);
    assert(t[namespace.len() as int] == ':');
    assert forall|i: int| 0 <= i < namespace.len() implies #[trigger] t[i] != ':' by {
        assert(t[i] == namespace[i]);
    }
    lemma_first_colon(t, 0, namespace.len() as int);
    assert(t.take(namespace.len() as int) =~= namespace);
    assert(t.skip(namespace.len() as int + 1) =~= path);
    assert("minecraft"@ + ":"@ + namespace =~= "minecraft:"@ + namespace);
    let m = "minecraft"@;
    assert forall|i: int| 0 <= i < m.len() implies namespace_char(#[trigger] m[i]) by {
    }
}

/// The characters of a namespace are small letters, digits, underscores, hyphens and dots; a path may have
/// slashes too.
pub proof fn lemma_identifier_characters(c: char)
    ensures
        namespace_char(c) <==> ('a' <= c <= 'z') || ('0' <= c <= '9') || c == '_' || c == '-' || c == '.',
        path_char(c) <==> namespace_char(c) || c == '/',
{
}

/// A name in the namespace of the game is the same without it; any other name stays.
pub proof fn lemma_bare_names(t: Seq<char>)
    ensures
        bare_name("minecraft:"@ + t) == t,
        !"minecraft:"@.is_prefix_of(t) ==> bare_name(t) == t,
{
    let h = "minecraft:"@;
    assert((h + t).subrange(0, h.len() as int) =~= h);
    assert((h + t).skip(h.len() as int) =~= t);
}

/// A component is named by its full name, or by that without the namespace of the game.
pub proof fn lemma_component_of_either_name(k: DataComponent, t: Seq<char>)
    ensures
        component_of_name(component_name(k)) == Some(k),
        component_of_name(t) == Some(k) ==> t == component_name(k) || "minecraft:"@ + t == component_name(k),
{
    lemma_component_of_own_name(k);
    lemma_named_from(t, 0);
}

proof fn lemma_named_from(t: Seq<char>, id: int)
    requires
        0 <= id,
    ensures
        first_named(t, id) matches Some(k) ==> t == component_name(k) || "minecraft:"@ + t == component_name(k),
    decreases COMPONENT_COUNT - id,
{
    match component_of_id(id) {
        Some(c) => {
            if !names_component(t, c) && id < COMPONENT_COUNT {
                lemma_named_from(t, id + 1);
            }
        },
        None => {},
    }
}

} // verus!
