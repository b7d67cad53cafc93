//! The component types: what a property of an item can be about.
use vstd::prelude::*;
use crate::text::same_text;

verus! {

/// A component type.
#[derive(Clone, Copy, Debug, PartialEq, Eq, Structural)]
pub enum DataComponent {
    CustomData,
    MaxStackSize,
    MaxDamage,
    Damage,
    Unbreakable,
    UseEffects,
    CustomName,
    MinimumAttackCharge,
    DamageType,
    ItemName,
    ItemModel,
    Lore,
    Rarity,
    Enchantments,
    CanPlaceOn,
    CanBreak,
    AttributeModifiers,
    CustomModelData,
    TooltipDisplay,
    RepairCost,
    CreativeSlotLock,
    EnchantmentGlintOverride,
    IntangibleProjectile,
    Food,
    Consumable,
    UseRemainder,
    UseCooldown,
    DamageResistant,
    Tool,
    Weapon,
    AttackRange,
    Enchantable,
    Equippable,
    Repairable,
    Glider,
    TooltipStyle,
    DeathProtection,
    BlocksAttacks,
    PiercingWeapon,
    KineticWeapon,
    SwingAnimation,
    AdditionalTradeCost,
    StoredEnchantments,
    Dye,
    DyedColor,
    MapColor,
    MapId,
    MapDecorations,
    MapPostProcessing,
    ChargedProjectiles,
    BundleContents,
    PotionContents,
    PotionDurationScale,
    SuspiciousStewEffects,
    WritableBookContent,
    WrittenBookContent,
    Trim,
    DebugStickState,
    EntityData,
    BucketEntityData,
    BlockEntityData,
    Instrument,
    ProvidesTrimMaterial,
    OminousBottleAmplifier,
    JukeboxPlayable,
    ProvidesBannerPatterns,
    Recipes,
    LodestoneTracker,
    FireworkExplosion,
    Fireworks,
    Profile,
    NoteBlockSound,
    BannerPatterns,
    BaseColor,
    PotDecorations,
    Container,
    BlockState,
    Bees,
    SulfurCubeContent,
    Lock,
    ContainerLoot,
    BreakSound,
    VillagerVariant,
    WolfVariant,
    WolfSoundVariant,
    WolfCollar,
    FoxVariant,
    SalmonSize,
    ParrotVariant,
    TropicalFishPattern,
    TropicalFishBaseColor,
    TropicalFishPatternColor,
    MooshroomVariant,
    RabbitVariant,
    PigVariant,
    PigSoundVariant,
    CowVariant,
    CowSoundVariant,
    ChickenVariant,
    ChickenSoundVariant,
    ZombieNautilusVariant,
    FrogVariant,
    HorseVariant,
    PaintingVariant,
    LlamaVariant,
    AxolotlVariant,
    CatVariant,
    CatSoundVariant,
    CatCollar,
    SheepColor,
    ShulkerColor,
}

/// The number of component types.
pub const COMPONENT_COUNT: u8 = 111;

/// The number of a component type.
pub open spec fn component_id(c: DataComponent) -> u8 {
    match c {
        DataComponent::CustomData => 0,
        DataComponent::MaxStackSize => 1,
        DataComponent::MaxDamage => 2,
        DataComponent::Damage => 3,
        DataComponent::Unbreakable => 4,
        DataComponent::UseEffects => 5,
        DataComponent::CustomName => 6,
        DataComponent::MinimumAttackCharge => 7,
        DataComponent::DamageType => 8,
        DataComponent::ItemName => 9,
        DataComponent::ItemModel => 10,
        DataComponent::Lore => 11,
        DataComponent::Rarity => 12,
        DataComponent::Enchantments => 13,
        DataComponent::CanPlaceOn => 14,
        DataComponent::CanBreak => 15,
        DataComponent::AttributeModifiers => 16,
        DataComponent::CustomModelData => 17,
        DataComponent::TooltipDisplay => 18,
        DataComponent::RepairCost => 19,
        DataComponent::CreativeSlotLock => 20,
        DataComponent::EnchantmentGlintOverride => 21,
        DataComponent::IntangibleProjectile => 22,
        DataComponent::Food => 23,
        DataComponent::Consumable => 24,
        DataComponent::UseRemainder => 25,
        DataComponent::UseCooldown => 26,
        DataComponent::DamageResistant => 27,
        DataComponent::Tool => 28,
        DataComponent::Weapon => 29,
        DataComponent::AttackRange => 30,
        DataComponent::Enchantable => 31,
        DataComponent::Equippable => 32,
        DataComponent::Repairable => 33,
        DataComponent::Glider => 34,
        DataComponent::TooltipStyle => 35,
        DataComponent::DeathProtection => 36,
        DataComponent::BlocksAttacks => 37,
        DataComponent::PiercingWeapon => 38,
        DataComponent::KineticWeapon => 39,
        DataComponent::SwingAnimation => 40,
        DataComponent::AdditionalTradeCost => 41,
        DataComponent::StoredEnchantments => 42,
        DataComponent::Dye => 43,
        DataComponent::DyedColor => 44,
        DataComponent::MapColor => 45,
        DataComponent::MapId => 46,
        DataComponent::MapDecorations => 47,
        DataComponent::MapPostProcessing => 48,
        DataComponent::ChargedProjectiles => 49,
        DataComponent::BundleContents => 50,
        DataComponent::PotionContents => 51,
        DataComponent::PotionDurationScale => 52,
        DataComponent::SuspiciousStewEffects => 53,
        DataComponent::WritableBookContent => 54,
        DataComponent::WrittenBookContent => 55,
        DataComponent::Trim => 56,
        DataComponent::DebugStickState => 57,
        DataComponent::EntityData => 58,
        DataComponent::BucketEntityData => 59,
        DataComponent::BlockEntityData => 60,
        DataComponent::Instrument => 61,
        DataComponent::ProvidesTrimMaterial => 62,
        DataComponent::OminousBottleAmplifier => 63,
        DataComponent::JukeboxPlayable => 64,
        DataComponent::ProvidesBannerPatterns => 65,
        DataComponent::Recipes => 66,
        DataComponent::LodestoneTracker => 67,
        DataComponent::FireworkExplosion => 68,
        DataComponent::Fireworks => 69,
        DataComponent::Profile => 70,
        DataComponent::NoteBlockSound => 71,
        DataComponent::BannerPatterns => 72,
        DataComponent::BaseColor => 73,
        DataComponent::PotDecorations => 74,
        DataComponent::Container => 75,
        DataComponent::BlockState => 76,
        DataComponent::Bees => 77,
        DataComponent::SulfurCubeContent => 78,
        DataComponent::Lock => 79,
        DataComponent::ContainerLoot => 80,
        DataComponent::BreakSound => 81,
        DataComponent::VillagerVariant => 82,
        DataComponent::WolfVariant => 83,
        DataComponent::WolfSoundVariant => 84,
        DataComponent::WolfCollar => 85,
        DataComponent::FoxVariant => 86,
        DataComponent::SalmonSize => 87,
        DataComponent::ParrotVariant => 88,
        DataComponent::TropicalFishPattern => 89,
        DataComponent::TropicalFishBaseColor => 90,
        DataComponent::TropicalFishPatternColor => 91,
        DataComponent::MooshroomVariant => 92,
        DataComponent::RabbitVariant => 93,
        DataComponent::PigVariant => 94,
        DataComponent::PigSoundVariant => 95,
        DataComponent::CowVariant => 96,
        DataComponent::CowSoundVariant => 97,
        DataComponent::ChickenVariant => 98,
        DataComponent::ChickenSoundVariant => 99,
        DataComponent::ZombieNautilusVariant => 100,
        DataComponent::FrogVariant => 101,
        DataComponent::HorseVariant => 102,
        DataComponent::PaintingVariant => 103,
        DataComponent::LlamaVariant => 104,
        DataComponent::AxolotlVariant => 105,
        DataComponent::CatVariant => 106,
        DataComponent::CatSoundVariant => 107,
        DataComponent::CatCollar => 108,
        DataComponent::SheepColor => 109,
        DataComponent::ShulkerColor => 110,
    }
}

/// The component type with this number.
pub open spec fn component_of_id(id: int) -> Option<DataComponent> {
    if id == 0 {
        Some(DataComponent::CustomData)
    } else if id == 1 {
        Some(DataComponent::MaxStackSize)
    } else if id == 2 {
        Some(DataComponent::MaxDamage)
    } else if id == 3 {
        Some(DataComponent::Damage)
    } else if id == 4 {
        Some(DataComponent::Unbreakable)
    } else if id == 5 {
        Some(DataComponent::UseEffects)
    } else if id == 6 {
        Some(DataComponent::CustomName)
    } else if id == 7 {
        Some(DataComponent::MinimumAttackCharge)
    } else if id == 8 {
        Some(DataComponent::DamageType)
    } else if id == 9 {
        Some(DataComponent::ItemName)
    } else if id == 10 {
        Some(DataComponent::ItemModel)
    } else if id == 11 {
        Some(DataComponent::Lore)
    } else if id == 12 {
        Some(DataComponent::Rarity)
    } else if id == 13 {
        Some(DataComponent::Enchantments)
    } else if id == 14 {
        Some(DataComponent::CanPlaceOn)
    } else if id == 15 {
        Some(DataComponent::CanBreak)
    } else if id == 16 {
        Some(DataComponent::AttributeModifiers)
    } else if id == 17 {
        Some(DataComponent::CustomModelData)
    } else if id == 18 {
        Some(DataComponent::TooltipDisplay)
    } else if id == 19 {
        Some(DataComponent::RepairCost)
    } else if id == 20 {
        Some(DataComponent::CreativeSlotLock)
    } else if id == 21 {
        Some(DataComponent::EnchantmentGlintOverride)
    } else if id == 22 {
        Some(DataComponent::IntangibleProjectile)
    } else if id == 23 {
        Some(DataComponent::Food)
    } else if id == 24 {
        Some(DataComponent::Consumable)
    } else if id == 25 {
        Some(DataComponent::UseRemainder)
    } else if id == 26 {
        Some(DataComponent::UseCooldown)
    } else if id == 27 {
        Some(DataComponent::DamageResistant)
    } else if id == 28 {
        Some(DataComponent::Tool)
    } else if id == 29 {
        Some(DataComponent::Weapon)
    } else if id == 30 {
        Some(DataComponent::AttackRange)
    } else if id == 31 {
        Some(DataComponent::Enchantable)
    } else if id == 32 {
        Some(DataComponent::Equippable)
    } else if id == 33 {
        Some(DataComponent::Repairable)
    } else if id == 34 {
        Some(DataComponent::Glider)
    } else if id == 35 {
        Some(DataComponent::TooltipStyle)
    } else if id == 36 {
        Some(DataComponent::DeathProtection)
    } else if id == 37 {
        Some(DataComponent::BlocksAttacks)
    } else if id == 38 {
        Some(DataComponent::PiercingWeapon)
    } else if id == 39 {
        Some(DataComponent::KineticWeapon)
    } else if id == 40 {
        Some(DataComponent::SwingAnimation)
    } else if id == 41 {
        Some(DataComponent::AdditionalTradeCost)
    } else if id == 42 {
        Some(DataComponent::StoredEnchantments)
    } else if id == 43 {
        Some(DataComponent::Dye)
    } else if id == 44 {
        Some(DataComponent::DyedColor)
    } else if id == 45 {
        Some(DataComponent::MapColor)
    } else if id == 46 {
        Some(DataComponent::MapId)
    } else if id == 47 {
        Some(DataComponent::MapDecorations)
    } else if id == 48 {
        Some(DataComponent::MapPostProcessing)
    } else if id == 49 {
        Some(DataComponent::ChargedProjectiles)
    } else if id == 50 {
        Some(DataComponent::BundleContents)
    } else if id == 51 {
        Some(DataComponent::PotionContents)
    } else if id == 52 {
        Some(DataComponent::PotionDurationScale)
    } else if id == 53 {
        Some(DataComponent::SuspiciousStewEffects)
    } else if id == 54 {
        Some(DataComponent::WritableBookContent)
    } else if id == 55 {
        Some(DataComponent::WrittenBookContent)
    } else if id == 56 {
        Some(DataComponent::Trim)
    } else if id == 57 {
        Some(DataComponent::DebugStickState)
    } else if id == 58 {
        Some(DataComponent::EntityData)
    } else if id == 59 {
        Some(DataComponent::BucketEntityData)
    } else if id == 60 {
        Some(DataComponent::BlockEntityData)
    } else if id == 61 {
        Some(DataComponent::Instrument)
    } else if id == 62 {
        Some(DataComponent::ProvidesTrimMaterial)
    } else if id == 63 {
        Some(DataComponent::OminousBottleAmplifier)
    } else if id == 64 {
        Some(DataComponent::JukeboxPlayable)
    } else if id == 65 {
        Some(DataComponent::ProvidesBannerPatterns)
    } else if id == 66 {
        Some(DataComponent::Recipes)
    } else if id == 67 {
        Some(DataComponent::LodestoneTracker)
    } else if id == 68 {
        Some(DataComponent::FireworkExplosion)
    } else if id == 69 {
        Some(DataComponent::Fireworks)
    } else if id == 70 {
        Some(DataComponent::Profile)
    } else if id == 71 {
        Some(DataComponent::NoteBlockSound)
    } else if id == 72 {
        Some(DataComponent::BannerPatterns)
    } else if id == 73 {
        Some(DataComponent::BaseColor)
    } else if id == 74 {
        Some(DataComponent::PotDecorations)
    } else if id == 75 {
        Some(DataComponent::Container)
    } else if id == 76 {
        Some(DataComponent::BlockState)
    } else if id == 77 {
        Some(DataComponent::Bees)
    } else if id == 78 {
        Some(DataComponent::SulfurCubeContent)
    } else if id == 79 {
        Some(DataComponent::Lock)
    } else if id == 80 {
        Some(DataComponent::ContainerLoot)
    } else if id == 81 {
        Some(DataComponent::BreakSound)
    } else if id == 82 {
        Some(DataComponent::VillagerVariant)
    } else if id == 83 {
        Some(DataComponent::WolfVariant)
    } else if id == 84 {
        Some(DataComponent::WolfSoundVariant)
    } else if id == 85 {
        Some(DataComponent::WolfCollar)
    } else if id == 86 {
        Some(DataComponent::FoxVariant)
    } else if id == 87 {
        Some(DataComponent::SalmonSize)
    } else if id == 88 {
        Some(DataComponent::ParrotVariant)
    } else if id == 89 {
        Some(DataComponent::TropicalFishPattern)
    } else if id == 90 {
        Some(DataComponent::TropicalFishBaseColor)
    } else if id == 91 {
        Some(DataComponent::TropicalFishPatternColor)
    } else if id == 92 {
        Some(DataComponent::MooshroomVariant)
    } else if id == 93 {
        Some(DataComponent::RabbitVariant)
    } else if id == 94 {
        Some(DataComponent::PigVariant)
    } else if id == 95 {
        Some(DataComponent::PigSoundVariant)
    } else if id == 96 {
        Some(DataComponent::CowVariant)
    } else if id == 97 {
        Some(DataComponent::CowSoundVariant)
    } else if id == 98 {
        Some(DataComponent::ChickenVariant)
    } else if id == 99 {
        Some(DataComponent::ChickenSoundVariant)
    } else if id == 100 {
        Some(DataComponent::ZombieNautilusVariant)
    } else if id == 101 {
        Some(DataComponent::FrogVariant)
    } else if id == 102 {
        Some(DataComponent::HorseVariant)
    } else if id == 103 {
        Some(DataComponent::PaintingVariant)
    } else if id == 104 {
        Some(DataComponent::LlamaVariant)
    } else if id == 105 {
        Some(DataComponent::AxolotlVariant)
    } else if id == 106 {
        Some(DataComponent::CatVariant)
    } else if id == 107 {
        Some(DataComponent::CatSoundVariant)
    } else if id == 108 {
        Some(DataComponent::CatCollar)
    } else if id == 109 {
        Some(DataComponent::SheepColor)
    } else if id == 110 {
        Some(DataComponent::ShulkerColor)
    } else {
        None
    }
}

/// The registry name of a component type.
pub open spec fn component_name(c: DataComponent) -> Seq<char> {
    match c {
        DataComponent::CustomData => "minecraft:custom_data"@,
        DataComponent::MaxStackSize => "minecraft:max_stack_size"@,
        DataComponent::MaxDamage => "minecraft:max_damage"@,
        DataComponent::Damage => "minecraft:damage"@,
        DataComponent::Unbreakable => "minecraft:unbreakable"@,
        DataComponent::UseEffects => "minecraft:use_effects"@,
        DataComponent::CustomName => "minecraft:custom_name"@,
        DataComponent::MinimumAttackCharge => "minecraft:minimum_attack_charge"@,
        DataComponent::DamageType => "minecraft:damage_type"@,
        DataComponent::ItemName => "minecraft:item_name"@,
        DataComponent::ItemModel => "minecraft:item_model"@,
        DataComponent::Lore => "minecraft:lore"@,
        DataComponent::Rarity => "minecraft:rarity"@,
        DataComponent::Enchantments => "minecraft:enchantments"@,
        DataComponent::CanPlaceOn => "minecraft:can_place_on"@,
        DataComponent::CanBreak => "minecraft:can_break"@,
        DataComponent::AttributeModifiers => "minecraft:attribute_modifiers"@,
        DataComponent::CustomModelData => "minecraft:custom_model_data"@,
        DataComponent::TooltipDisplay => "minecraft:tooltip_display"@,
        DataComponent::RepairCost => "minecraft:repair_cost"@,
        DataComponent::CreativeSlotLock => "minecraft:creative_slot_lock"@,
        DataComponent::EnchantmentGlintOverride => "minecraft:enchantment_glint_override"@,
        DataComponent::IntangibleProjectile => "minecraft:intangible_projectile"@,
        DataComponent::Food => "minecraft:food"@,
        DataComponent::Consumable => "minecraft:consumable"@,
        DataComponent::UseRemainder => "minecraft:use_remainder"@,
        DataComponent::UseCooldown => "minecraft:use_cooldown"@,
        DataComponent::DamageResistant => "minecraft:damage_resistant"@,
        DataComponent::Tool => "minecraft:tool"@,
        DataComponent::Weapon => "minecraft:weapon"@,
        DataComponent::AttackRange => "minecraft:attack_range"@,
        DataComponent::Enchantable => "minecraft:enchantable"@,
        DataComponent::Equippable => "minecraft:equippable"@,
        DataComponent::Repairable => "minecraft:repairable"@,
        DataComponent::Glider => "minecraft:glider"@,
        DataComponent::TooltipStyle => "minecraft:tooltip_style"@,
        DataComponent::DeathProtection => "minecraft:death_protection"@,
        DataComponent::BlocksAttacks => "minecraft:blocks_attacks"@,
        DataComponent::PiercingWeapon => "minecraft:piercing_weapon"@,
        DataComponent::KineticWeapon => "minecraft:kinetic_weapon"@,
        DataComponent::SwingAnimation => "minecraft:swing_animation"@,
        DataComponent::AdditionalTradeCost => "minecraft:additional_trade_cost"@,
        DataComponent::StoredEnchantments => "minecraft:stored_enchantments"@,
        DataComponent::Dye => "minecraft:dye"@,
        DataComponent::DyedColor => "minecraft:dyed_color"@,
        DataComponent::MapColor => "minecraft:map_color"@,
        DataComponent::MapId => "minecraft:map_id"@,
        DataComponent::MapDecorations => "minecraft:map_decorations"@,
        DataComponent::MapPostProcessing => "minecraft:map_post_processing"@,
        DataComponent::ChargedProjectiles => "minecraft:charged_projectiles"@,
        DataComponent::BundleContents => "minecraft:bundle_contents"@,
        DataComponent::PotionContents => "minecraft:potion_contents"@,
        DataComponent::PotionDurationScale => "minecraft:potion_duration_scale"@,
        DataComponent::SuspiciousStewEffects => "minecraft:suspicious_stew_effects"@,
        DataComponent::WritableBookContent => "minecraft:writable_book_content"@,
        DataComponent::WrittenBookContent => "minecraft:written_book_content"@,
        DataComponent::Trim => "minecraft:trim"@,
        DataComponent::DebugStickState => "minecraft:debug_stick_state"@,
        DataComponent::EntityData => "minecraft:entity_data"@,
        DataComponent::BucketEntityData => "minecraft:bucket_entity_data"@,
        DataComponent::BlockEntityData => "minecraft:block_entity_data"@,
        DataComponent::Instrument => "minecraft:instrument"@,
        DataComponent::ProvidesTrimMaterial => "minecraft:provides_trim_material"@,
        DataComponent::OminousBottleAmplifier => "minecraft:ominous_bottle_amplifier"@,
        DataComponent::JukeboxPlayable => "minecraft:jukebox_playable"@,
        DataComponent::ProvidesBannerPatterns => "minecraft:provides_banner_patterns"@,
        DataComponent::Recipes => "minecraft:recipes"@,
        DataComponent::LodestoneTracker => "minecraft:lodestone_tracker"@,
        DataComponent::FireworkExplosion => "minecraft:firework_explosion"@,
        DataComponent::Fireworks => "minecraft:fireworks"@,
        DataComponent::Profile => "minecraft:profile"@,
        DataComponent::NoteBlockSound => "minecraft:note_block_sound"@,
        DataComponent::BannerPatterns => "minecraft:banner_patterns"@,
        DataComponent::BaseColor => "minecraft:base_color"@,
        DataComponent::PotDecorations => "minecraft:pot_decorations"@,
        DataComponent::Container => "minecraft:container"@,
        DataComponent::BlockState => "minecraft:block_state"@,
        DataComponent::Bees => "minecraft:bees"@,
        DataComponent::SulfurCubeContent => "minecraft:sulfur_cube_content"@,
        DataComponent::Lock => "minecraft:lock"@,
        DataComponent::ContainerLoot => "minecraft:container_loot"@,
        DataComponent::BreakSound => "minecraft:break_sound"@,
        DataComponent::VillagerVariant => "minecraft:villager/variant"@,
        DataComponent::WolfVariant => "minecraft:wolf/variant"@,
        DataComponent::WolfSoundVariant => "minecraft:wolf/sound_variant"@,
        DataComponent::WolfCollar => "minecraft:wolf/collar"@,
        DataComponent::FoxVariant => "minecraft:fox/variant"@,
        DataComponent::SalmonSize => "minecraft:salmon/size"@,
        DataComponent::ParrotVariant => "minecraft:parrot/variant"@,
        DataComponent::TropicalFishPattern => "minecraft:tropical_fish/pattern"@,
        DataComponent::TropicalFishBaseColor => "minecraft:tropical_fish/base_color"@,
        DataComponent::TropicalFishPatternColor => "minecraft:tropical_fish/pattern_color"@,
        DataComponent::MooshroomVariant => "minecraft:mooshroom/variant"@,
        DataComponent::RabbitVariant => "minecraft:rabbit/variant"@,
        DataComponent::PigVariant => "minecraft:pig/variant"@,
        DataComponent::PigSoundVariant => "minecraft:pig/sound_variant"@,
        DataComponent::CowVariant => "minecraft:cow/variant"@,
        DataComponent::CowSoundVariant => "minecraft:cow/sound_variant"@,
        DataComponent::ChickenVariant => "minecraft:chicken/variant"@,
        DataComponent::ChickenSoundVariant => "minecraft:chicken/sound_variant"@,
        DataComponent::ZombieNautilusVariant => "minecraft:zombie_nautilus/variant"@,
        DataComponent::FrogVariant => "minecraft:frog/variant"@,
        DataComponent::HorseVariant => "minecraft:horse/variant"@,
        DataComponent::PaintingVariant => "minecraft:painting/variant"@,
        DataComponent::LlamaVariant => "minecraft:llama/variant"@,
        DataComponent::AxolotlVariant => "minecraft:axolotl/variant"@,
        DataComponent::CatVariant => "minecraft:cat/variant"@,
        DataComponent::CatSoundVariant => "minecraft:cat/sound_variant"@,
        DataComponent::CatCollar => "minecraft:cat/collar"@,
        DataComponent::SheepColor => "minecraft:sheep/color"@,
        DataComponent::ShulkerColor => "minecraft:shulker/color"@,
    }
}

/// Numbers name component types uniquely.
pub broadcast proof fn lemma_component_of_own_id(c: DataComponent)
    ensures
        component_of_id(#[trigger] component_id(c) as int) == Some(c),
{
}

/// Each number below the count names a component type, which has that number.
pub proof fn lemma_component_id_of(id: int)
    ensures
        component_of_id(id) is Some <==> 0 <= id < COMPONENT_COUNT,
        component_of_id(id) is Some ==> component_id(component_of_id(id)->0) == id,
{
}

/// Whether `text` names a component type: by its registry name, whose `minecraft:` may be left
/// out.
pub open spec fn names_component(text: Seq<char>, c: DataComponent) -> bool {
    text == component_name(c) || "minecraft:"@ + text == component_name(c)
}

/// The first component type that `text` names, among those with a number from `id` on.
pub open spec fn first_named(text: Seq<char>, id: int) -> Option<DataComponent>
    decreases COMPONENT_COUNT - id,
{
    match component_of_id(id) {
        None => None,
        Some(c) => if names_component(text, c) {
            Some(c)
        } else if id < COMPONENT_COUNT {
            first_named(text, id + 1)
        } else {
            None
        },
    }
}

/// The component type that `text` names.
pub open spec fn component_of_name(text: Seq<char>) -> Option<DataComponent> {
    first_named(text, 0)
}

impl DataComponent {
    /// The number.
    pub fn to_id(self) -> (r: u8)
        ensures
            r == component_id(self),
    {
        match self {
            DataComponent::CustomData => 0,
            DataComponent::MaxStackSize => 1,
            DataComponent::MaxDamage => 2,
            DataComponent::Damage => 3,
            DataComponent::Unbreakable => 4,
            DataComponent::UseEffects => 5,
            DataComponent::CustomName => 6,
            DataComponent::MinimumAttackCharge => 7,
            DataComponent::DamageType => 8,
            DataComponent::ItemName => 9,
            DataComponent::ItemModel => 10,
            DataComponent::Lore => 11,
            DataComponent::Rarity => 12,
            DataComponent::Enchantments => 13,
            DataComponent::CanPlaceOn => 14,
            DataComponent::CanBreak => 15,
            DataComponent::AttributeModifiers => 16,
            DataComponent::CustomModelData => 17,
            DataComponent::TooltipDisplay => 18,
            DataComponent::RepairCost => 19,
            DataComponent::CreativeSlotLock => 20,
            DataComponent::EnchantmentGlintOverride => 21,
            DataComponent::IntangibleProjectile => 22,
            DataComponent::Food => 23,
            DataComponent::Consumable => 24,
            DataComponent::UseRemainder => 25,
            DataComponent::UseCooldown => 26,
            DataComponent::DamageResistant => 27,
            DataComponent::Tool => 28,
            DataComponent::Weapon => 29,
            DataComponent::AttackRange => 30,
            DataComponent::Enchantable => 31,
            DataComponent::Equippable => 32,
            DataComponent::Repairable => 33,
            DataComponent::Glider => 34,
            DataComponent::TooltipStyle => 35,
            DataComponent::DeathProtection => 36,
            DataComponent::BlocksAttacks => 37,
            DataComponent::PiercingWeapon => 38,
            DataComponent::KineticWeapon => 39,
            DataComponent::SwingAnimation => 40,
            DataComponent::AdditionalTradeCost => 41,
            DataComponent::StoredEnchantments => 42,
            DataComponent::Dye => 43,
            DataComponent::DyedColor => 44,
            DataComponent::MapColor => 45,
            DataComponent::MapId => 46,
            DataComponent::MapDecorations => 47,
            DataComponent::MapPostProcessing => 48,
            DataComponent::ChargedProjectiles => 49,
            DataComponent::BundleContents => 50,
            DataComponent::PotionContents => 51,
            DataComponent::PotionDurationScale => 52,
            DataComponent::SuspiciousStewEffects => 53,
            DataComponent::WritableBookContent => 54,
            DataComponent::WrittenBookContent => 55,
            DataComponent::Trim => 56,
            DataComponent::DebugStickState => 57,
            DataComponent::EntityData => 58,
            DataComponent::BucketEntityData => 59,
            DataComponent::BlockEntityData => 60,
            DataComponent::Instrument => 61,
            DataComponent::ProvidesTrimMaterial => 62,
            DataComponent::OminousBottleAmplifier => 63,
            DataComponent::JukeboxPlayable => 64,
            DataComponent::ProvidesBannerPatterns => 65,
            DataComponent::Recipes => 66,
            DataComponent::LodestoneTracker => 67,
            DataComponent::FireworkExplosion => 68,
            DataComponent::Fireworks => 69,
            DataComponent::Profile => 70,
            DataComponent::NoteBlockSound => 71,
            DataComponent::BannerPatterns => 72,
            DataComponent::BaseColor => 73,
            DataComponent::PotDecorations => 74,
            DataComponent::Container => 75,
            DataComponent::BlockState => 76,
            DataComponent::Bees => 77,
            DataComponent::SulfurCubeContent => 78,
            DataComponent::Lock => 79,
            DataComponent::ContainerLoot => 80,
            DataComponent::BreakSound => 81,
            DataComponent::VillagerVariant => 82,
            DataComponent::WolfVariant => 83,
            DataComponent::WolfSoundVariant => 84,
            DataComponent::WolfCollar => 85,
            DataComponent::FoxVariant => 86,
            DataComponent::SalmonSize => 87,
            DataComponent::ParrotVariant => 88,
            DataComponent::TropicalFishPattern => 89,
            DataComponent::TropicalFishBaseColor => 90,
            DataComponent::TropicalFishPatternColor => 91,
            DataComponent::MooshroomVariant => 92,
            DataComponent::RabbitVariant => 93,
            DataComponent::PigVariant => 94,
            DataComponent::PigSoundVariant => 95,
            DataComponent::CowVariant => 96,
            DataComponent::CowSoundVariant => 97,
            DataComponent::ChickenVariant => 98,
            DataComponent::ChickenSoundVariant => 99,
            DataComponent::ZombieNautilusVariant => 100,
            DataComponent::FrogVariant => 101,
            DataComponent::HorseVariant => 102,
            DataComponent::PaintingVariant => 103,
            DataComponent::LlamaVariant => 104,
            DataComponent::AxolotlVariant => 105,
            DataComponent::CatVariant => 106,
            DataComponent::CatSoundVariant => 107,
            DataComponent::CatCollar => 108,
            DataComponent::SheepColor => 109,
            DataComponent::ShulkerColor => 110,
        }
    }

    /// The registry name.
    pub fn to_name(self) -> (r: &'static str)
        ensures
            r@ == component_name(self),
    {
        match self {
            DataComponent::CustomData => "minecraft:custom_data",
            DataComponent::MaxStackSize => "minecraft:max_stack_size",
            DataComponent::MaxDamage => "minecraft:max_damage",
            DataComponent::Damage => "minecraft:damage",
            DataComponent::Unbreakable => "minecraft:unbreakable",
            DataComponent::UseEffects => "minecraft:use_effects",
            DataComponent::CustomName => "minecraft:custom_name",
            DataComponent::MinimumAttackCharge => "minecraft:minimum_attack_charge",
            DataComponent::DamageType => "minecraft:damage_type",
            DataComponent::ItemName => "minecraft:item_name",
            DataComponent::ItemModel => "minecraft:item_model",
            DataComponent::Lore => "minecraft:lore",
            DataComponent::Rarity => "minecraft:rarity",
            DataComponent::Enchantments => "minecraft:enchantments",
            DataComponent::CanPlaceOn => "minecraft:can_place_on",
            DataComponent::CanBreak => "minecraft:can_break",
            DataComponent::AttributeModifiers => "minecraft:attribute_modifiers",
            DataComponent::CustomModelData => "minecraft:custom_model_data",
            DataComponent::TooltipDisplay => "minecraft:tooltip_display",
            DataComponent::RepairCost => "minecraft:repair_cost",
            DataComponent::CreativeSlotLock => "minecraft:creative_slot_lock",
            DataComponent::EnchantmentGlintOverride => "minecraft:enchantment_glint_override",
            DataComponent::IntangibleProjectile => "minecraft:intangible_projectile",
            DataComponent::Food => "minecraft:food",
            DataComponent::Consumable => "minecraft:consumable",
            DataComponent::UseRemainder => "minecraft:use_remainder",
            DataComponent::UseCooldown => "minecraft:use_cooldown",
            DataComponent::DamageResistant => "minecraft:damage_resistant",
            DataComponent::Tool => "minecraft:tool",
            DataComponent::Weapon => "minecraft:weapon",
            DataComponent::AttackRange => "minecraft:attack_range",
            DataComponent::Enchantable => "minecraft:enchantable",
            DataComponent::Equippable => "minecraft:equippable",
            DataComponent::Repairable => "minecraft:repairable",
            DataComponent::Glider => "minecraft:glider",
            DataComponent::TooltipStyle => "minecraft:tooltip_style",
            DataComponent::DeathProtection => "minecraft:death_protection",
            DataComponent::BlocksAttacks => "minecraft:blocks_attacks",
            DataComponent::PiercingWeapon => "minecraft:piercing_weapon",
            DataComponent::KineticWeapon => "minecraft:kinetic_weapon",
            DataComponent::SwingAnimation => "minecraft:swing_animation",
            DataComponent::AdditionalTradeCost => "minecraft:additional_trade_cost",
            DataComponent::StoredEnchantments => "minecraft:stored_enchantments",
            DataComponent::Dye => "minecraft:dye",
            DataComponent::DyedColor => "minecraft:dyed_color",
            DataComponent::MapColor => "minecraft:map_color",
            DataComponent::MapId => "minecraft:map_id",
            DataComponent::MapDecorations => "minecraft:map_decorations",
            DataComponent::MapPostProcessing => "minecraft:map_post_processing",
            DataComponent::ChargedProjectiles => "minecraft:charged_projectiles",
            DataComponent::BundleContents => "minecraft:bundle_contents",
            DataComponent::PotionContents => "minecraft:potion_contents",
            DataComponent::PotionDurationScale => "minecraft:potion_duration_scale",
            DataComponent::SuspiciousStewEffects => "minecraft:suspicious_stew_effects",
            DataComponent::WritableBookContent => "minecraft:writable_book_content",
            DataComponent::WrittenBookContent => "minecraft:written_book_content",
            DataComponent::Trim => "minecraft:trim",
            DataComponent::DebugStickState => "minecraft:debug_stick_state",
            DataComponent::EntityData => "minecraft:entity_data",
            DataComponent::BucketEntityData => "minecraft:bucket_entity_data",
            DataComponent::BlockEntityData => "minecraft:block_entity_data",
            DataComponent::Instrument => "minecraft:instrument",
            DataComponent::ProvidesTrimMaterial => "minecraft:provides_trim_material",
            DataComponent::OminousBottleAmplifier => "minecraft:ominous_bottle_amplifier",
            DataComponent::JukeboxPlayable => "minecraft:jukebox_playable",
            DataComponent::ProvidesBannerPatterns => "minecraft:provides_banner_patterns",
            DataComponent::Recipes => "minecraft:recipes",
            DataComponent::LodestoneTracker => "minecraft:lodestone_tracker",
            DataComponent::FireworkExplosion => "minecraft:firework_explosion",
            DataComponent::Fireworks => "minecraft:fireworks",
            DataComponent::Profile => "minecraft:profile",
            DataComponent::NoteBlockSound => "minecraft:note_block_sound",
            DataComponent::BannerPatterns => "minecraft:banner_patterns",
            DataComponent::BaseColor => "minecraft:base_color",
            DataComponent::PotDecorations => "minecraft:pot_decorations",
            DataComponent::Container => "minecraft:container",
            DataComponent::BlockState => "minecraft:block_state",
            DataComponent::Bees => "minecraft:bees",
            DataComponent::SulfurCubeContent => "minecraft:sulfur_cube_content",
            DataComponent::Lock => "minecraft:lock",
            DataComponent::ContainerLoot => "minecraft:container_loot",
            DataComponent::BreakSound => "minecraft:break_sound",
            DataComponent::VillagerVariant => "minecraft:villager/variant",
            DataComponent::WolfVariant => "minecraft:wolf/variant",
            DataComponent::WolfSoundVariant => "minecraft:wolf/sound_variant",
            DataComponent::WolfCollar => "minecraft:wolf/collar",
            DataComponent::FoxVariant => "minecraft:fox/variant",
            DataComponent::SalmonSize => "minecraft:salmon/size",
            DataComponent::ParrotVariant => "minecraft:parrot/variant",
            DataComponent::TropicalFishPattern => "minecraft:tropical_fish/pattern",
            DataComponent::TropicalFishBaseColor => "minecraft:tropical_fish/base_color",
            DataComponent::TropicalFishPatternColor => "minecraft:tropical_fish/pattern_color",
            DataComponent::MooshroomVariant => "minecraft:mooshroom/variant",
            DataComponent::RabbitVariant => "minecraft:rabbit/variant",
            DataComponent::PigVariant => "minecraft:pig/variant",
            DataComponent::PigSoundVariant => "minecraft:pig/sound_variant",
            DataComponent::CowVariant => "minecraft:cow/variant",
            DataComponent::CowSoundVariant => "minecraft:cow/sound_variant",
            DataComponent::ChickenVariant => "minecraft:chicken/variant",
            DataComponent::ChickenSoundVariant => "minecraft:chicken/sound_variant",
            DataComponent::ZombieNautilusVariant => "minecraft:zombie_nautilus/variant",
            DataComponent::FrogVariant => "minecraft:frog/variant",
            DataComponent::HorseVariant => "minecraft:horse/variant",
            DataComponent::PaintingVariant => "minecraft:painting/variant",
            DataComponent::LlamaVariant => "minecraft:llama/variant",
            DataComponent::AxolotlVariant => "minecraft:axolotl/variant",
            DataComponent::CatVariant => "minecraft:cat/variant",
            DataComponent::CatSoundVariant => "minecraft:cat/sound_variant",
            DataComponent::CatCollar => "minecraft:cat/collar",
            DataComponent::SheepColor => "minecraft:sheep/color",
            DataComponent::ShulkerColor => "minecraft:shulker/color",
        }
    }

    /// The component type with this number.
    pub fn try_from_id(id: u8) -> (r: Option<DataComponent>)
        ensures
            r == component_of_id(id as int),
    {
        match id {
            0 => Some(DataComponent::CustomData),
            1 => Some(DataComponent::MaxStackSize),
            2 => Some(DataComponent::MaxDamage),
            3 => Some(DataComponent::Damage),
            4 => Some(DataComponent::Unbreakable),
            5 => Some(DataComponent::UseEffects),
            6 => Some(DataComponent::CustomName),
            7 => Some(DataComponent::MinimumAttackCharge),
            8 => Some(DataComponent::DamageType),
            9 => Some(DataComponent::ItemName),
            10 => Some(DataComponent::ItemModel),
            11 => Some(DataComponent::Lore),
            12 => Some(DataComponent::Rarity),
            13 => Some(DataComponent::Enchantments),
            14 => Some(DataComponent::CanPlaceOn),
            15 => Some(DataComponent::CanBreak),
            16 => Some(DataComponent::AttributeModifiers),
            17 => Some(DataComponent::CustomModelData),
            18 => Some(DataComponent::TooltipDisplay),
            19 => Some(DataComponent::RepairCost),
            20 => Some(DataComponent::CreativeSlotLock),
            21 => Some(DataComponent::EnchantmentGlintOverride),
            22 => Some(DataComponent::IntangibleProjectile),
            23 => Some(DataComponent::Food),
            24 => Some(DataComponent::Consumable),
            25 => Some(DataComponent::UseRemainder),
            26 => Some(DataComponent::UseCooldown),
            27 => Some(DataComponent::DamageResistant),
            28 => Some(DataComponent::Tool),
            29 => Some(DataComponent::Weapon),
            30 => Some(DataComponent::AttackRange),
            31 => Some(DataComponent::Enchantable),
            32 => Some(DataComponent::Equippable),
            33 => Some(DataComponent::Repairable),
            34 => Some(DataComponent::Glider),
            35 => Some(DataComponent::TooltipStyle),
            36 => Some(DataComponent::DeathProtection),
            37 => Some(DataComponent::BlocksAttacks),
            38 => Some(DataComponent::PiercingWeapon),
            39 => Some(DataComponent::KineticWeapon),
            40 => Some(DataComponent::SwingAnimation),
            41 => Some(DataComponent::AdditionalTradeCost),
            42 => Some(DataComponent::StoredEnchantments),
            43 => Some(DataComponent::Dye),
            44 => Some(DataComponent::DyedColor),
            45 => Some(DataComponent::MapColor),
            46 => Some(DataComponent::MapId),
            47 => Some(DataComponent::MapDecorations),
            48 => Some(DataComponent::MapPostProcessing),
            49 => Some(DataComponent::ChargedProjectiles),
            50 => Some(DataComponent::BundleContents),
            51 => Some(DataComponent::PotionContents),
            52 => Some(DataComponent::PotionDurationScale),
            53 => Some(DataComponent::SuspiciousStewEffects),
            54 => Some(DataComponent::WritableBookContent),
            55 => Some(DataComponent::WrittenBookContent),
            56 => Some(DataComponent::Trim),
            57 => Some(DataComponent::DebugStickState),
            58 => Some(DataComponent::EntityData),
            59 => Some(DataComponent::BucketEntityData),
            60 => Some(DataComponent::BlockEntityData),
            61 => Some(DataComponent::Instrument),
            62 => Some(DataComponent::ProvidesTrimMaterial),
            63 => Some(DataComponent::OminousBottleAmplifier),
            64 => Some(DataComponent::JukeboxPlayable),
            65 => Some(DataComponent::ProvidesBannerPatterns),
            66 => Some(DataComponent::Recipes),
            67 => Some(DataComponent::LodestoneTracker),
            68 => Some(DataComponent::FireworkExplosion),
            69 => Some(DataComponent::Fireworks),
            70 => Some(DataComponent::Profile),
            71 => Some(DataComponent::NoteBlockSound),
            72 => Some(DataComponent::BannerPatterns),
            73 => Some(DataComponent::BaseColor),
            74 => Some(DataComponent::PotDecorations),
            75 => Some(DataComponent::Container),
            76 => Some(DataComponent::BlockState),
            77 => Some(DataComponent::Bees),
            78 => Some(DataComponent::SulfurCubeContent),
            79 => Some(DataComponent::Lock),
            80 => Some(DataComponent::ContainerLoot),
            81 => Some(DataComponent::BreakSound),
            82 => Some(DataComponent::VillagerVariant),
            83 => Some(DataComponent::WolfVariant),
            84 => Some(DataComponent::WolfSoundVariant),
            85 => Some(DataComponent::WolfCollar),
            86 => Some(DataComponent::FoxVariant),
            87 => Some(DataComponent::SalmonSize),
            88 => Some(DataComponent::ParrotVariant),
            89 => Some(DataComponent::TropicalFishPattern),
            90 => Some(DataComponent::TropicalFishBaseColor),
            91 => Some(DataComponent::TropicalFishPatternColor),
            92 => Some(DataComponent::MooshroomVariant),
            93 => Some(DataComponent::RabbitVariant),
            94 => Some(DataComponent::PigVariant),
            95 => Some(DataComponent::PigSoundVariant),
            96 => Some(DataComponent::CowVariant),
            97 => Some(DataComponent::CowSoundVariant),
            98 => Some(DataComponent::ChickenVariant),
            99 => Some(DataComponent::ChickenSoundVariant),
            100 => Some(DataComponent::ZombieNautilusVariant),
            101 => Some(DataComponent::FrogVariant),
            102 => Some(DataComponent::HorseVariant),
            103 => Some(DataComponent::PaintingVariant),
            104 => Some(DataComponent::LlamaVariant),
            105 => Some(DataComponent::AxolotlVariant),
            106 => Some(DataComponent::CatVariant),
            107 => Some(DataComponent::CatSoundVariant),
            108 => Some(DataComponent::CatCollar),
            109 => Some(DataComponent::SheepColor),
            110 => Some(DataComponent::ShulkerColor),
            _ => None,
        }
    }

    /// The component type that a text names.
    pub fn try_from_name(text: &str) -> (r: Option<DataComponent>)
        ensures
            r == component_of_name(text@),
    {
        let full: String = crate::text::concat("minecraft:", text);
        let mut id: u8 = 0;
        while id < COMPONENT_COUNT
            invariant
                id <= COMPONENT_COUNT,
                full@ == "minecraft:"@ + text@,
                component_of_name(text@) == first_named(text@, id as int),
            decreases COMPONENT_COUNT - id,
        {
            match DataComponent::try_from_id(id) {
                Some(c) => {
                    if same_text(c.to_name(), text) || same_text(c.to_name(), full.as_str()) {
                        return Some(c);
                    }
                },
                None => {},
            }
            id += 1;
        }
        None
    }
}

} // verus!
