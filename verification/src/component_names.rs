//! The names of components tell them apart.
use vstd::prelude::*;
use crate::data_component::{component_id, component_name, component_of_id, component_of_name, first_named, lemma_component_id_of, lemma_component_of_own_id, names_component, DataComponent};

verus! {

/// A number made of the length and some characters of a name.
pub open spec fn name_code(t: Seq<char>) -> int {
    t.len() + 0x100 * (t[10] as int) + 0x1_0000 * (t[11] as int) + 0x100_0000 * (t[t.len() - 2] as int)
}

/// The number that is made of the name of a component.
pub open spec fn code_of(k: DataComponent) -> int {
    match k {
        DataComponent::CustomData => 1953850133,
        DataComponent::MaxStackSize => 2053205272,
        DataComponent::MaxDamage => 1734438164,
        DataComponent::Damage => 1734435856,
        DataComponent::Unbreakable => 1819178261,
        DataComponent::UseEffects => 1953723669,
        DataComponent::CustomName => 1836409621,
        DataComponent::MinimumAttackCharge => 1734962463,
        DataComponent::DamageType => 1885430805,
        DataComponent::ItemName => 1836345619,
        DataComponent::ItemModel => 1702127892,
        DataComponent::Lore => 1919904782,
        DataComponent::Rarity => 1952543248,
        DataComponent::Enchantments => 1953391894,
        DataComponent::CanPlaceOn => 1868653334,
        DataComponent::CanBreak => 1633772307,
        DataComponent::AttributeModifiers => 1920229661,
        DataComponent::CustomModelData => 1953850139,
        DataComponent::TooltipDisplay => 1634694169,
        DataComponent::RepairCost => 1936028181,
        DataComponent::CreativeSlotLock => 1668440860,
        DataComponent::EnchantmentGlintOverride => 1684956452,
        DataComponent::IntangibleProjectile => 1819175199,
        DataComponent::Food => 1869571598,
        DataComponent::Consumable => 1819239188,
        DataComponent::UseRemainder => 1702065431,
        DataComponent::UseCooldown => 2004055318,
        DataComponent::DamageResistant => 1851876378,
        DataComponent::Tool => 1869575182,
        DataComponent::Weapon => 1868920592,
        DataComponent::AttackRange => 1735680278,
        DataComponent::Enchantable => 1819174165,
        DataComponent::Equippable => 1819370772,
        DataComponent::Repairable => 1818587668,
        DataComponent::Glider => 1701603088,
        DataComponent::TooltipStyle => 1819243543,
        DataComponent::DeathProtection => 1868915738,
        DataComponent::BlocksAttacks => 1802265112,
        DataComponent::PiercingWeapon => 1869180953,
        DataComponent::KineticWeapon => 1869179672,
        DataComponent::SwingAnimation => 1870099225,
        DataComponent::AdditionalTradeCost => 1935958303,
        DataComponent::StoredEnchantments => 1953788701,
        DataComponent::Dye => 2037998605,
        DataComponent::DyedColor => 1870226452,
        DataComponent::MapColor => 1868655891,
        DataComponent::MapId => 1767992592,
        DataComponent::MapDecorations => 1851878681,
        DataComponent::MapPostProcessing => 1851878685,
        DataComponent::ChargedProjectiles => 1701339933,
        DataComponent::BundleContents => 1953849881,
        DataComponent::PotionContents => 1953460249,
        DataComponent::PotionDurationScale => 1819242527,
        DataComponent::SuspiciousStewEffects => 1953854241,
        DataComponent::WritableBookContent => 1852995359,
        DataComponent::WrittenBookContent => 1852995358,
        DataComponent::Trim => 1769108494,
        DataComponent::DebugStickState => 1952801819,
        DataComponent::EntityData => 1953391893,
        DataComponent::BucketEntityData => 1953849884,
        DataComponent::BlockEntityData => 1953260059,
        DataComponent::Instrument => 1852729620,
        DataComponent::ProvidesTrimMaterial => 1634889760,
        DataComponent::OminousBottleAmplifier => 1701670690,
        DataComponent::JukeboxPlayable => 1819634202,
        DataComponent::ProvidesBannerPatterns => 1852993570,
        DataComponent::Recipes => 1701147153,
        DataComponent::LodestoneTracker => 1701800987,
        DataComponent::FireworkExplosion => 1869178396,
        DataComponent::Fireworks => 1802069523,
        DataComponent::Profile => 1819439121,
        DataComponent::NoteBlockSound => 1852796442,
        DataComponent::BannerPatterns => 1851875865,
        DataComponent::BaseColor => 1868653076,
        DataComponent::PotDecorations => 1852796953,
        DataComponent::Container => 1701798675,
        DataComponent::BlockState => 1953260053,
        DataComponent::Bees => 1701143054,
        DataComponent::SulfurCubeContent => 1853190941,
        DataComponent::Lock => 1668246542,
        DataComponent::ContainerLoot => 1869570840,
        DataComponent::BreakSound => 1852989973,
        DataComponent::VillagerVariant => 1852405274,
        DataComponent::WolfVariant => 1852798742,
        DataComponent::WolfSoundVariant => 1852798748,
        DataComponent::WolfCollar => 1634694933,
        DataComponent::FoxVariant => 1852794389,
        DataComponent::SalmonSize => 2053206805,
        DataComponent::ParrotVariant => 1851879448,
        DataComponent::TropicalFishPattern => 1920103455,
        DataComponent::TropicalFishBaseColor => 1869771810,
        DataComponent::TropicalFishPatternColor => 1869771813,
        DataComponent::MooshroomVariant => 1852796187,
        DataComponent::RabbitVariant => 1851879960,
        DataComponent::PigVariant => 1852403733,
        DataComponent::PigSoundVariant => 1852403739,
        DataComponent::CowVariant => 1852793621,
        DataComponent::CowSoundVariant => 1852793627,
        DataComponent::ChickenVariant => 1852334873,
        DataComponent::ChickenSoundVariant => 1852334879,
        DataComponent::ZombieNautilusVariant => 1852799521,
        DataComponent::FrogVariant => 1852990998,
        DataComponent::HorseVariant => 1852794903,
        DataComponent::PaintingVariant => 1851879450,
        DataComponent::LlamaVariant => 1852599319,
        DataComponent::AxolotlVariant => 1853382937,
        DataComponent::CatVariant => 1851876117,
        DataComponent::CatSoundVariant => 1851876123,
        DataComponent::CatCollar => 1633772308,
        DataComponent::SheepColor => 1869116181,
        DataComponent::ShulkerColor => 1869116183,
    }
}

/// The component whose name gives a number.
pub open spec fn of_code(v: int) -> Option<DataComponent> {
    if v == 1953850133 {
        Some(DataComponent::CustomData)
    } else if v == 2053205272 {
        Some(DataComponent::MaxStackSize)
    } else if v == 1734438164 {
        Some(DataComponent::MaxDamage)
    } else if v == 1734435856 {
        Some(DataComponent::Damage)
    } else if v == 1819178261 {
        Some(DataComponent::Unbreakable)
    } else if v == 1953723669 {
        Some(DataComponent::UseEffects)
    } else if v == 1836409621 {
        Some(DataComponent::CustomName)
    } else if v == 1734962463 {
        Some(DataComponent::MinimumAttackCharge)
    } else if v == 1885430805 {
        Some(DataComponent::DamageType)
    } else if v == 1836345619 {
        Some(DataComponent::ItemName)
    } else if v == 1702127892 {
        Some(DataComponent::ItemModel)
    } else if v == 1919904782 {
        Some(DataComponent::Lore)
    } else if v == 1952543248 {
        Some(DataComponent::Rarity)
    } else if v == 1953391894 {
        Some(DataComponent::Enchantments)
    } else if v == 1868653334 {
        Some(DataComponent::CanPlaceOn)
    } else if v == 1633772307 {
        Some(DataComponent::CanBreak)
    } else if v == 1920229661 {
        Some(DataComponent::AttributeModifiers)
    } else if v == 1953850139 {
        Some(DataComponent::CustomModelData)
    } else if v == 1634694169 {
        Some(DataComponent::TooltipDisplay)
    } else if v == 1936028181 {
        Some(DataComponent::RepairCost)
    } else if v == 1668440860 {
        Some(DataComponent::CreativeSlotLock)
    } else if v == 1684956452 {
        Some(DataComponent::EnchantmentGlintOverride)
    } else if v == 1819175199 {
        Some(DataComponent::IntangibleProjectile)
    } else if v == 1869571598 {
        Some(DataComponent::Food)
    } else if v == 1819239188 {
        Some(DataComponent::Consumable)
    } else if v == 1702065431 {
        Some(DataComponent::UseRemainder)
    } else if v == 2004055318 {
        Some(DataComponent::UseCooldown)
    } else if v == 1851876378 {
        Some(DataComponent::DamageResistant)
    } else if v == 1869575182 {
        Some(DataComponent::Tool)
    } else if v == 1868920592 {
        Some(DataComponent::Weapon)
    } else if v == 1735680278 {
        Some(DataComponent::AttackRange)
    } else if v == 1819174165 {
        Some(DataComponent::Enchantable)
    } else if v == 1819370772 {
        Some(DataComponent::Equippable)
    } else if v == 1818587668 {
        Some(DataComponent::Repairable)
    } else if v == 1701603088 {
        Some(DataComponent::Glider)
    } else if v == 1819243543 {
        Some(DataComponent::TooltipStyle)
    } else if v == 1868915738 {
        Some(DataComponent::DeathProtection)
    } else if v == 1802265112 {
        Some(DataComponent::BlocksAttacks)
    } else if v == 1869180953 {
        Some(DataComponent::PiercingWeapon)
    } else if v == 1869179672 {
        Some(DataComponent::KineticWeapon)
    } else if v == 1870099225 {
        Some(DataComponent::SwingAnimation)
    } else if v == 1935958303 {
        Some(DataComponent::AdditionalTradeCost)
    } else if v == 1953788701 {
        Some(DataComponent::StoredEnchantments)
    } else if v == 2037998605 {
        Some(DataComponent::Dye)
    } else if v == 1870226452 {
        Some(DataComponent::DyedColor)
    } else if v == 1868655891 {
        Some(DataComponent::MapColor)
    } else if v == 1767992592 {
        Some(DataComponent::MapId)
    } else if v == 1851878681 {
        Some(DataComponent::MapDecorations)
    } else if v == 1851878685 {
        Some(DataComponent::MapPostProcessing)
    } else if v == 1701339933 {
        Some(DataComponent::ChargedProjectiles)
    } else if v == 1953849881 {
        Some(DataComponent::BundleContents)
    } else if v == 1953460249 {
        Some(DataComponent::PotionContents)
    } else if v == 1819242527 {
        Some(DataComponent::PotionDurationScale)
    } else if v == 1953854241 {
        Some(DataComponent::SuspiciousStewEffects)
    } else if v == 1852995359 {
        Some(DataComponent::WritableBookContent)
    } else if v == 1852995358 {
        Some(DataComponent::WrittenBookContent)
    } else if v == 1769108494 {
        Some(DataComponent::Trim)
    } else if v == 1952801819 {
        Some(DataComponent::DebugStickState)
    } else if v == 1953391893 {
        Some(DataComponent::EntityData)
    } else if v == 1953849884 {
        Some(DataComponent::BucketEntityData)
    } else if v == 1953260059 {
        Some(DataComponent::BlockEntityData)
    } else if v == 1852729620 {
        Some(DataComponent::Instrument)
    } else if v == 1634889760 {
        Some(DataComponent::ProvidesTrimMaterial)
    } else if v == 1701670690 {
        Some(DataComponent::OminousBottleAmplifier)
    } else if v == 1819634202 {
        Some(DataComponent::JukeboxPlayable)
    } else if v == 1852993570 {
        Some(DataComponent::ProvidesBannerPatterns)
    } else if v == 1701147153 {
        Some(DataComponent::Recipes)
    } else if v == 1701800987 {
        Some(DataComponent::LodestoneTracker)
    } else if v == 1869178396 {
        Some(DataComponent::FireworkExplosion)
    } else if v == 1802069523 {
        Some(DataComponent::Fireworks)
    } else if v == 1819439121 {
        Some(DataComponent::Profile)
    } else if v == 1852796442 {
        Some(DataComponent::NoteBlockSound)
    } else if v == 1851875865 {
        Some(DataComponent::BannerPatterns)
    } else if v == 1868653076 {
        Some(DataComponent::BaseColor)
    } else if v == 1852796953 {
        Some(DataComponent::PotDecorations)
    } else if v == 1701798675 {
        Some(DataComponent::Container)
    } else if v == 1953260053 {
        Some(DataComponent::BlockState)
    } else if v == 1701143054 {
        Some(DataComponent::Bees)
    } else if v == 1853190941 {
        Some(DataComponent::SulfurCubeContent)
    } else if v == 1668246542 {
        Some(DataComponent::Lock)
    } else if v == 1869570840 {
        Some(DataComponent::ContainerLoot)
    } else if v == 1852989973 {
        Some(DataComponent::BreakSound)
    } else if v == 1852405274 {
        Some(DataComponent::VillagerVariant)
    } else if v == 1852798742 {
        Some(DataComponent::WolfVariant)
    } else if v == 1852798748 {
        Some(DataComponent::WolfSoundVariant)
    } else if v == 1634694933 {
        Some(DataComponent::WolfCollar)
    } else if v == 1852794389 {
        Some(DataComponent::FoxVariant)
    } else if v == 2053206805 {
        Some(DataComponent::SalmonSize)
    } else if v == 1851879448 {
        Some(DataComponent::ParrotVariant)
    } else if v == 1920103455 {
        Some(DataComponent::TropicalFishPattern)
    } else if v == 1869771810 {
        Some(DataComponent::TropicalFishBaseColor)
    } else if v == 1869771813 {
        Some(DataComponent::TropicalFishPatternColor)
    } else if v == 1852796187 {
        Some(DataComponent::MooshroomVariant)
    } else if v == 1851879960 {
        Some(DataComponent::RabbitVariant)
    } else if v == 1852403733 {
        Some(DataComponent::PigVariant)
    } else if v == 1852403739 {
        Some(DataComponent::PigSoundVariant)
    } else if v == 1852793621 {
        Some(DataComponent::CowVariant)
    } else if v == 1852793627 {
        Some(DataComponent::CowSoundVariant)
    } else if v == 1852334873 {
        Some(DataComponent::ChickenVariant)
    } else if v == 1852334879 {
        Some(DataComponent::ChickenSoundVariant)
    } else if v == 1852799521 {
        Some(DataComponent::ZombieNautilusVariant)
    } else if v == 1852990998 {
        Some(DataComponent::FrogVariant)
    } else if v == 1852794903 {
        Some(DataComponent::HorseVariant)
    } else if v == 1851879450 {
        Some(DataComponent::PaintingVariant)
    } else if v == 1852599319 {
        Some(DataComponent::LlamaVariant)
    } else if v == 1853382937 {
        Some(DataComponent::AxolotlVariant)
    } else if v == 1851876117 {
        Some(DataComponent::CatVariant)
    } else if v == 1851876123 {
        Some(DataComponent::CatSoundVariant)
    } else if v == 1633772308 {
        Some(DataComponent::CatCollar)
    } else if v == 1869116181 {
        Some(DataComponent::SheepColor)
    } else if v == 1869116183 {
        Some(DataComponent::ShulkerColor)
    } else {
        None
    }
}

proof fn lemma_of_code(k: DataComponent)
    ensures
        of_code(code_of(k)) == Some(k),
{
}

/// A name begins with the namespace, holds no other colon where a second namespace would end, and gives
/// the number of its component.
proof fn lemma_name(k: DataComponent)
    ensures
        ({
            let t = component_name(k);
            t.len() >= 13 && t[0] == 'm' && t[9] == ':' && (t.len() > 19 ==> t[19] != ':') && name_code(t) == code_of(k)
        }),
{
    match k {
        DataComponent::CustomData => {
            reveal_strlit("minecraft:custom_data");
        },
        DataComponent::MaxStackSize => {
            reveal_strlit("minecraft:max_stack_size");
        },
        DataComponent::MaxDamage => {
            reveal_strlit("minecraft:max_damage");
        },
        DataComponent::Damage => {
            reveal_strlit("minecraft:damage");
        },
        DataComponent::Unbreakable => {
            reveal_strlit("minecraft:unbreakable");
        },
        DataComponent::UseEffects => {
            reveal_strlit("minecraft:use_effects");
        },
        DataComponent::CustomName => {
            reveal_strlit("minecraft:custom_name");
        },
        DataComponent::MinimumAttackCharge => {
            reveal_strlit("minecraft:minimum_attack_charge");
        },
        DataComponent::DamageType => {
            reveal_strlit("minecraft:damage_type");
        },
        DataComponent::ItemName => {
            reveal_strlit("minecraft:item_name");
        },
        DataComponent::ItemModel => {
            reveal_strlit("minecraft:item_model");
        },
        DataComponent::Lore => {
            reveal_strlit("minecraft:lore");
        },
        DataComponent::Rarity => {
            reveal_strlit("minecraft:rarity");
        },
        DataComponent::Enchantments => {
            reveal_strlit("minecraft:enchantments");
        },
        DataComponent::CanPlaceOn => {
            reveal_strlit("minecraft:can_place_on");
        },
        DataComponent::CanBreak => {
            reveal_strlit("minecraft:can_break");
        },
        DataComponent::AttributeModifiers => {
            reveal_strlit("minecraft:attribute_modifiers");
        },
        DataComponent::CustomModelData => {
            reveal_strlit("minecraft:custom_model_data");
        },
        DataComponent::TooltipDisplay => {
            reveal_strlit("minecraft:tooltip_display");
        },
        DataComponent::RepairCost => {
            reveal_strlit("minecraft:repair_cost");
        },
        DataComponent::CreativeSlotLock => {
            reveal_strlit("minecraft:creative_slot_lock");
        },
        DataComponent::EnchantmentGlintOverride => {
            reveal_strlit("minecraft:enchantment_glint_override");
        },
        DataComponent::IntangibleProjectile => {
            reveal_strlit("minecraft:intangible_projectile");
        },
        DataComponent::Food => {
            reveal_strlit("minecraft:food");
        },
        DataComponent::Consumable => {
            reveal_strlit("minecraft:consumable");
        },
        DataComponent::UseRemainder => {
            reveal_strlit("minecraft:use_remainder");
        },
        DataComponent::UseCooldown => {
            reveal_strlit("minecraft:use_cooldown");
        },
        DataComponent::DamageResistant => {
            reveal_strlit("minecraft:damage_resistant");
        },
        DataComponent::Tool => {
            reveal_strlit("minecraft:tool");
        },
        DataComponent::Weapon => {
            reveal_strlit("minecraft:weapon");
        },
        DataComponent::AttackRange => {
            reveal_strlit("minecraft:attack_range");
        },
        DataComponent::Enchantable => {
            reveal_strlit("minecraft:enchantable");
        },
        DataComponent::Equippable => {
            reveal_strlit("minecraft:equippable");
        },
        DataComponent::Repairable => {
            reveal_strlit("minecraft:repairable");
        },
        DataComponent::Glider => {
            reveal_strlit("minecraft:glider");
        },
        DataComponent::TooltipStyle => {
            reveal_strlit("minecraft:tooltip_style");
        },
        DataComponent::DeathProtection => {
            reveal_strlit("minecraft:death_protection");
        },
        DataComponent::BlocksAttacks => {
            reveal_strlit("minecraft:blocks_attacks");
        },
        DataComponent::PiercingWeapon => {
            reveal_strlit("minecraft:piercing_weapon");
        },
        DataComponent::KineticWeapon => {
            reveal_strlit("minecraft:kinetic_weapon");
        },
        DataComponent::SwingAnimation => {
            reveal_strlit("minecraft:swing_animation");
        },
        DataComponent::AdditionalTradeCost => {
            reveal_strlit("minecraft:additional_trade_cost");
        },
        DataComponent::StoredEnchantments => {
            reveal_strlit("minecraft:stored_enchantments");
        },
        DataComponent::Dye => {
            reveal_strlit("minecraft:dye");
        },
        DataComponent::DyedColor => {
            reveal_strlit("minecraft:dyed_color");
        },
        DataComponent::MapColor => {
            reveal_strlit("minecraft:map_color");
        },
        DataComponent::MapId => {
            reveal_strlit("minecraft:map_id");
        },
        DataComponent::MapDecorations => {
            reveal_strlit("minecraft:map_decorations");
        },
        DataComponent::MapPostProcessing => {
            reveal_strlit("minecraft:map_post_processing");
        },
        DataComponent::ChargedProjectiles => {
            reveal_strlit("minecraft:charged_projectiles");
        },
        DataComponent::BundleContents => {
            reveal_strlit("minecraft:bundle_contents");
        },
        DataComponent::PotionContents => {
            reveal_strlit("minecraft:potion_contents");
        },
        DataComponent::PotionDurationScale => {
            reveal_strlit("minecraft:potion_duration_scale");
        },
        DataComponent::SuspiciousStewEffects => {
            reveal_strlit("minecraft:suspicious_stew_effects");
        },
        DataComponent::WritableBookContent => {
            reveal_strlit("minecraft:writable_book_content");
        },
        DataComponent::WrittenBookContent => {
            reveal_strlit("minecraft:written_book_content");
        },
        DataComponent::Trim => {
            reveal_strlit("minecraft:trim");
        },
        DataComponent::DebugStickState => {
            reveal_strlit("minecraft:debug_stick_state");
        },
        DataComponent::EntityData => {
            reveal_strlit("minecraft:entity_data");
        },
        DataComponent::BucketEntityData => {
            reveal_strlit("minecraft:bucket_entity_data");
        },
        DataComponent::BlockEntityData => {
            reveal_strlit("minecraft:block_entity_data");
        },
        DataComponent::Instrument => {
            reveal_strlit("minecraft:instrument");
        },
        DataComponent::ProvidesTrimMaterial => {
            reveal_strlit("minecraft:provides_trim_material");
        },
        DataComponent::OminousBottleAmplifier => {
            reveal_strlit("minecraft:ominous_bottle_amplifier");
        },
        DataComponent::JukeboxPlayable => {
            reveal_strlit("minecraft:jukebox_playable");
        },
        DataComponent::ProvidesBannerPatterns => {
            reveal_strlit("minecraft:provides_banner_patterns");
        },
        DataComponent::Recipes => {
            reveal_strlit("minecraft:recipes");
        },
        DataComponent::LodestoneTracker => {
            reveal_strlit("minecraft:lodestone_tracker");
        },
        DataComponent::FireworkExplosion => {
            reveal_strlit("minecraft:firework_explosion");
        },
        DataComponent::Fireworks => {
            reveal_strlit("minecraft:fireworks");
        },
        DataComponent::Profile => {
            reveal_strlit("minecraft:profile");
        },
        DataComponent::NoteBlockSound => {
            reveal_strlit("minecraft:note_block_sound");
        },
        DataComponent::BannerPatterns => {
            reveal_strlit("minecraft:banner_patterns");
        },
        DataComponent::BaseColor => {
            reveal_strlit("minecraft:base_color");
        },
        DataComponent::PotDecorations => {
            reveal_strlit("minecraft:pot_decorations");
        },
        DataComponent::Container => {
            reveal_strlit("minecraft:container");
        },
        DataComponent::BlockState => {
            reveal_strlit("minecraft:block_state");
        },
        DataComponent::Bees => {
            reveal_strlit("minecraft:bees");
        },
        DataComponent::SulfurCubeContent => {
            reveal_strlit("minecraft:sulfur_cube_content");
        },
        DataComponent::Lock => {
            reveal_strlit("minecraft:lock");
        },
        DataComponent::ContainerLoot => {
            reveal_strlit("minecraft:container_loot");
        },
        DataComponent::BreakSound => {
            reveal_strlit("minecraft:break_sound");
        },
        DataComponent::VillagerVariant => {
            reveal_strlit("minecraft:villager/variant");
        },
        DataComponent::WolfVariant => {
            reveal_strlit("minecraft:wolf/variant");
        },
        DataComponent::WolfSoundVariant => {
            reveal_strlit("minecraft:wolf/sound_variant");
        },
        DataComponent::WolfCollar => {
            reveal_strlit("minecraft:wolf/collar");
        },
        DataComponent::FoxVariant => {
            reveal_strlit("minecraft:fox/variant");
        },
        DataComponent::SalmonSize => {
            reveal_strlit("minecraft:salmon/size");
        },
        DataComponent::ParrotVariant => {
            reveal_strlit("minecraft:parrot/variant");
        },
        DataComponent::TropicalFishPattern => {
            reveal_strlit("minecraft:tropical_fish/pattern");
        },
        DataComponent::TropicalFishBaseColor => {
            reveal_strlit("minecraft:tropical_fish/base_color");
        },
        DataComponent::TropicalFishPatternColor => {
            reveal_strlit("minecraft:tropical_fish/pattern_color");
        },
        DataComponent::MooshroomVariant => {
            reveal_strlit("minecraft:mooshroom/variant");
        },
        DataComponent::RabbitVariant => {
            reveal_strlit("minecraft:rabbit/variant");
        },
        DataComponent::PigVariant => {
            reveal_strlit("minecraft:pig/variant");
        },
        DataComponent::PigSoundVariant => {
            reveal_strlit("minecraft:pig/sound_variant");
        },
        DataComponent::CowVariant => {
            reveal_strlit("minecraft:cow/variant");
        },
        DataComponent::CowSoundVariant => {
            reveal_strlit("minecraft:cow/sound_variant");
        },
        DataComponent::ChickenVariant => {
            reveal_strlit("minecraft:chicken/variant");
        },
        DataComponent::ChickenSoundVariant => {
            reveal_strlit("minecraft:chicken/sound_variant");
        },
        DataComponent::ZombieNautilusVariant => {
            reveal_strlit("minecraft:zombie_nautilus/variant");
        },
        DataComponent::FrogVariant => {
            reveal_strlit("minecraft:frog/variant");
        },
        DataComponent::HorseVariant => {
            reveal_strlit("minecraft:horse/variant");
        },
        DataComponent::PaintingVariant => {
            reveal_strlit("minecraft:painting/variant");
        },
        DataComponent::LlamaVariant => {
            reveal_strlit("minecraft:llama/variant");
        },
        DataComponent::AxolotlVariant => {
            reveal_strlit("minecraft:axolotl/variant");
        },
        DataComponent::CatVariant => {
            reveal_strlit("minecraft:cat/variant");
        },
        DataComponent::CatSoundVariant => {
            reveal_strlit("minecraft:cat/sound_variant");
        },
        DataComponent::CatCollar => {
            reveal_strlit("minecraft:cat/collar");
        },
        DataComponent::SheepColor => {
            reveal_strlit("minecraft:sheep/color");
        },
        DataComponent::ShulkerColor => {
            reveal_strlit("minecraft:shulker/color");
        },
    }
}

/// Different components have different names.
pub proof fn lemma_names_differ(a: DataComponent, b: DataComponent)
    requires
        component_name(a) == component_name(b),
    ensures
        a == b,
{
    lemma_name(a);
    lemma_name(b);
    lemma_of_code(a);
    lemma_of_code(b);
}

proof fn lemma_only_names_itself(k: DataComponent, c: DataComponent)
    requires
        names_component(component_name(k), c),
    ensures
        k == c,
{
    let t = component_name(k);
    lemma_name(k);
    lemma_name(c);
    if t == component_name(c) {
        lemma_names_differ(k, c);
    } else {
        reveal_strlit("minecraft:");
        let u = "minecraft:"@ + t;
        assert(u[19] == t[9]);
    }
}

proof fn lemma_first_named(k: DataComponent, id: int)
    requires
        0 <= id <= component_id(k),
    ensures
        first_named(component_name(k), id) == Some(k),
    decreases component_id(k) - id,
{
    lemma_component_id_of(id);
    lemma_component_of_own_id(k);
    lemma_component_id_of(component_id(k) as int);
    let c = component_of_id(id)->0;
    if names_component(component_name(k), c) {
        lemma_only_names_itself(k, c);
    } else {
        assert(names_component(component_name(k), k));
        assert(c != k);
        lemma_first_named(k, id + 1);
    }
}

/// The name of a component names it.
pub proof fn lemma_component_of_own_name(k: DataComponent)
    ensures
        component_of_name(component_name(k)) == Some(k),
{
    lemma_first_named(k, 0);
}

/// No name of a component begins with an exclamation mark.
pub proof fn lemma_no_mark(k: DataComponent)
    ensures
        !"!"@.is_prefix_of(component_name(k)),
        component_name(k).len() > 0,
{
    reveal_strlit("!");
    lemma_name(k);
    let t = component_name(k);
    if "!"@.is_prefix_of(t) {
        assert("!"@[0] == t.subrange(0, 1)[0]);
    }
}

} // verus!
