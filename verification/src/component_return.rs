//! Which components come back from the wire whatever their values are.
use vstd::prelude::*;
use crate::basic::{BreakSoundImpl, CreativeSlotLockImpl, DamageImpl, EnchantmentGlintOverrideImpl, InstrumentImpl, ItemModelImpl, MaxDamageImpl, MaxStackSizeImpl, NoteBlockSoundImpl, PotDecorationsImpl, ProvidesTrimMaterialImpl, RarityImpl, TooltipStyleImpl, UnbreakableImpl};
use crate::block_entity::{BeesImpl, BucketEntityDataImpl, EntityDataImpl};
use crate::consumable::{OminousBottleAmplifierImpl, PotionDurationScaleImpl};
use crate::equipment::{AdditionalTradeCostImpl, AttackRangeImpl, BlocksAttacksImpl, DamageResistantImpl, EnchantableImpl, FoodImpl, GliderImpl, MinimumAttackChargeImpl, RepairCostImpl, SwingAnimationImpl, UseEffectsImpl, WeaponImpl};
use crate::utility::{DyeImpl, DyedColorImpl, MapColorImpl, MapIdImpl};
use crate::variant::{AxolotlVariantImpl, CatCollarImpl, CatSoundVariantImpl, CatVariantImpl, ChickenSoundVariantImpl, ChickenVariantImpl, CowSoundVariantImpl, CowVariantImpl, FoxVariantImpl, FrogVariantImpl, HorseVariantImpl, LlamaVariantImpl, MooshroomVariantImpl, PaintingVariantImpl, ParrotVariantImpl, PigSoundVariantImpl, PigVariantImpl, RabbitVariantImpl, SalmonSizeImpl, SheepColorImpl, ShulkerColorImpl, TropicalFishBaseColorImpl, TropicalFishPatternColorImpl, TropicalFishPatternImpl, VillagerVariantImpl, WolfCollarImpl, WolfSoundVariantImpl, WolfVariantImpl, ZombieNautilusVariantImpl};
use crate::bytes::lemma_pow256;
use crate::codec::DataComponentCodec;
use crate::coded::CodedComponent;
use crate::components::{component_format, value_kind, value_val, ComponentValue};
use crate::format::{put, read_val, write_val, Ctx};
use crate::wire::{done, text_fits, MAX_TEXT_BYTES};
use crate::wire_return::{keeps, lemma_values_return, val_bytes};

verus! {

/// Whether a component comes back whatever its value is: its fields are numbers, flags and choices, or
/// nothing of it is sent.
pub open spec fn is_plain(v: ComponentValue) -> bool {
    match v {
        ComponentValue::MaxStackSize(_) => true,
        ComponentValue::MaxDamage(_) => true,
        ComponentValue::Damage(_) => true,
        ComponentValue::Unbreakable(_) => true,
        ComponentValue::UseEffects(_) => true,
        ComponentValue::MinimumAttackCharge(_) => true,
        ComponentValue::Rarity(_) => true,
        ComponentValue::RepairCost(_) => true,
        ComponentValue::CreativeSlotLock(_) => true,
        ComponentValue::EnchantmentGlintOverride(_) => true,
        ComponentValue::Food(_) => true,
        ComponentValue::Weapon(_) => true,
        ComponentValue::AttackRange(_) => true,
        ComponentValue::Enchantable(_) => true,
        ComponentValue::Glider(_) => true,
        ComponentValue::BlocksAttacks(_) => true,
        ComponentValue::SwingAnimation(_) => true,
        ComponentValue::AdditionalTradeCost(_) => true,
        ComponentValue::Dye(_) => true,
        ComponentValue::DyedColor(_) => true,
        ComponentValue::MapColor(_) => true,
        ComponentValue::MapId(_) => true,
        ComponentValue::PotionDurationScale(_) => true,
        ComponentValue::EntityData(_) => true,
        ComponentValue::BucketEntityData(_) => true,
        ComponentValue::Instrument(_) => true,
        ComponentValue::ProvidesTrimMaterial(_) => true,
        ComponentValue::OminousBottleAmplifier(_) => true,
        ComponentValue::PotDecorations(_) => true,
        ComponentValue::Bees(_) => true,
        ComponentValue::BreakSound(_) => true,
        _ => false,
    }
}

/// The text that a component consists of, where it consists of one.
pub open spec fn only_text(v: ComponentValue) -> Option<Seq<char>> {
    match v {
        ComponentValue::ItemModel(x) => Some(x.id@),
        ComponentValue::DamageResistant(x) => Some(x.res_type@),
        ComponentValue::TooltipStyle(x) => Some(x.id@),
        ComponentValue::NoteBlockSound(x) => Some(x.sound@),
        ComponentValue::VillagerVariant(x) => Some(x.value@),
        ComponentValue::WolfVariant(x) => Some(x.value@),
        ComponentValue::WolfSoundVariant(x) => Some(x.value@),
        ComponentValue::WolfCollar(x) => Some(x.value@),
        ComponentValue::FoxVariant(x) => Some(x.value@),
        ComponentValue::SalmonSize(x) => Some(x.value@),
        ComponentValue::ParrotVariant(x) => Some(x.value@),
        ComponentValue::TropicalFishPattern(x) => Some(x.value@),
        ComponentValue::TropicalFishBaseColor(x) => Some(x.value@),
        ComponentValue::TropicalFishPatternColor(x) => Some(x.value@),
        ComponentValue::MooshroomVariant(x) => Some(x.value@),
        ComponentValue::RabbitVariant(x) => Some(x.value@),
        ComponentValue::PigVariant(x) => Some(x.value@),
        ComponentValue::PigSoundVariant(x) => Some(x.value@),
        ComponentValue::CowVariant(x) => Some(x.value@),
        ComponentValue::CowSoundVariant(x) => Some(x.value@),
        ComponentValue::ChickenVariant(x) => Some(x.value@),
        ComponentValue::ChickenSoundVariant(x) => Some(x.value@),
        ComponentValue::ZombieNautilusVariant(x) => Some(x.value@),
        ComponentValue::FrogVariant(x) => Some(x.value@),
        ComponentValue::HorseVariant(x) => Some(x.value@),
        ComponentValue::PaintingVariant(x) => Some(x.value@),
        ComponentValue::LlamaVariant(x) => Some(x.value@),
        ComponentValue::AxolotlVariant(x) => Some(x.value@),
        ComponentValue::CatVariant(x) => Some(x.value@),
        ComponentValue::CatSoundVariant(x) => Some(x.value@),
        ComponentValue::CatCollar(x) => Some(x.value@),
        ComponentValue::SheepColor(x) => Some(x.value@),
        ComponentValue::ShulkerColor(x) => Some(x.value@),
        _ => None,
    }
}

proof fn lemma_plain_keeps(v: ComponentValue, c: Ctx)
    requires
        is_plain(v),
    ensures
        keeps(component_format(value_kind(v)), c, value_val(v)),
{
    reveal_with_fuel(keeps, 10);
    lemma_pow256();
    match v {
        ComponentValue::MaxStackSize(x) => {
            MaxStackSizeImpl::lemma_format();
            MaxStackSizeImpl::lemma_value(x);
        },
        ComponentValue::MaxDamage(x) => {
            MaxDamageImpl::lemma_format();
            MaxDamageImpl::lemma_value(x);
        },
        ComponentValue::Damage(x) => {
            DamageImpl::lemma_format();
            DamageImpl::lemma_value(x);
        },
        ComponentValue::Unbreakable(x) => {
            UnbreakableImpl::lemma_format();
            UnbreakableImpl::lemma_value(x);
        },
        ComponentValue::UseEffects(x) => {
            UseEffectsImpl::lemma_format();
            UseEffectsImpl::lemma_value(x);
        },
        ComponentValue::MinimumAttackCharge(x) => {
            MinimumAttackChargeImpl::lemma_format();
            MinimumAttackChargeImpl::lemma_value(x);
        },
        ComponentValue::Rarity(x) => {
            RarityImpl::lemma_format();
            RarityImpl::lemma_value(x);
        },
        ComponentValue::RepairCost(x) => {
            RepairCostImpl::lemma_format();
            RepairCostImpl::lemma_value(x);
        },
        ComponentValue::CreativeSlotLock(x) => {
            CreativeSlotLockImpl::lemma_format();
            CreativeSlotLockImpl::lemma_value(x);
        },
        ComponentValue::EnchantmentGlintOverride(x) => {
            EnchantmentGlintOverrideImpl::lemma_format();
            EnchantmentGlintOverrideImpl::lemma_value(x);
        },
        ComponentValue::Food(x) => {
            FoodImpl::lemma_format();
            FoodImpl::lemma_value(x);
        },
        ComponentValue::Weapon(x) => {
            WeaponImpl::lemma_format();
            WeaponImpl::lemma_value(x);
        },
        ComponentValue::AttackRange(x) => {
            AttackRangeImpl::lemma_format();
            AttackRangeImpl::lemma_value(x);
        },
        ComponentValue::Enchantable(x) => {
            EnchantableImpl::lemma_format();
            EnchantableImpl::lemma_value(x);
        },
        ComponentValue::Glider(x) => {
            GliderImpl::lemma_format();
            GliderImpl::lemma_value(x);
        },
        ComponentValue::BlocksAttacks(x) => {
            BlocksAttacksImpl::lemma_format();
            BlocksAttacksImpl::lemma_value(x);
        },
        ComponentValue::SwingAnimation(x) => {
            SwingAnimationImpl::lemma_format();
            SwingAnimationImpl::lemma_value(x);
        },
        ComponentValue::AdditionalTradeCost(x) => {
            AdditionalTradeCostImpl::lemma_format();
            AdditionalTradeCostImpl::lemma_value(x);
        },
        ComponentValue::Dye(x) => {
            DyeImpl::lemma_format();
            DyeImpl::lemma_value(x);
        },
        ComponentValue::DyedColor(x) => {
            DyedColorImpl::lemma_format();
            DyedColorImpl::lemma_value(x);
        },
        ComponentValue::MapColor(x) => {
            MapColorImpl::lemma_format();
            MapColorImpl::lemma_value(x);
        },
        ComponentValue::MapId(x) => {
            MapIdImpl::lemma_format();
            MapIdImpl::lemma_value(x);
        },
        ComponentValue::PotionDurationScale(x) => {
            PotionDurationScaleImpl::lemma_format();
            PotionDurationScaleImpl::lemma_value(x);
        },
        ComponentValue::EntityData(x) => {
            EntityDataImpl::lemma_format();
            EntityDataImpl::lemma_value(x);
        },
        ComponentValue::BucketEntityData(x) => {
            BucketEntityDataImpl::lemma_format();
            BucketEntityDataImpl::lemma_value(x);
        },
        ComponentValue::Instrument(x) => {
            InstrumentImpl::lemma_format();
            InstrumentImpl::lemma_value(x);
        },
        ComponentValue::ProvidesTrimMaterial(x) => {
            ProvidesTrimMaterialImpl::lemma_format();
            ProvidesTrimMaterialImpl::lemma_value(x);
        },
        ComponentValue::OminousBottleAmplifier(x) => {
            OminousBottleAmplifierImpl::lemma_format();
            OminousBottleAmplifierImpl::lemma_value(x);
        },
        ComponentValue::PotDecorations(x) => {
            PotDecorationsImpl::lemma_format();
            PotDecorationsImpl::lemma_value(x);
        },
        ComponentValue::Bees(x) => {
            BeesImpl::lemma_format();
            BeesImpl::lemma_value(x);
        },
        ComponentValue::BreakSound(x) => {
            BreakSoundImpl::lemma_format();
            BreakSoundImpl::lemma_value(x);
        },
        _ => {},
    }
}

#[verifier::rlimit(60)]
proof fn lemma_text_keeps(v: ComponentValue, c: Ctx)
    requires
        only_text(v) matches Some(t) && text_fits(t, MAX_TEXT_BYTES as nat),
    ensures
        keeps(component_format(value_kind(v)), c, value_val(v)),
{
    match v {
        ComponentValue::ItemModel(x) => {
            ItemModelImpl::lemma_format();
            ItemModelImpl::lemma_value(x);
        },
        ComponentValue::DamageResistant(x) => {
            DamageResistantImpl::lemma_format();
            DamageResistantImpl::lemma_value(x);
        },
        ComponentValue::TooltipStyle(x) => {
            TooltipStyleImpl::lemma_format();
            TooltipStyleImpl::lemma_value(x);
        },
        ComponentValue::NoteBlockSound(x) => {
            NoteBlockSoundImpl::lemma_format();
            NoteBlockSoundImpl::lemma_value(x);
        },
        ComponentValue::VillagerVariant(x) => {
            VillagerVariantImpl::lemma_format();
            VillagerVariantImpl::lemma_value(x);
        },
        ComponentValue::WolfVariant(x) => {
            WolfVariantImpl::lemma_format();
            WolfVariantImpl::lemma_value(x);
        },
        ComponentValue::WolfSoundVariant(x) => {
            WolfSoundVariantImpl::lemma_format();
            WolfSoundVariantImpl::lemma_value(x);
        },
        ComponentValue::WolfCollar(x) => {
            WolfCollarImpl::lemma_format();
            WolfCollarImpl::lemma_value(x);
        },
        ComponentValue::FoxVariant(x) => {
            FoxVariantImpl::lemma_format();
            FoxVariantImpl::lemma_value(x);
        },
        ComponentValue::SalmonSize(x) => {
            SalmonSizeImpl::lemma_format();
            SalmonSizeImpl::lemma_value(x);
        },
        ComponentValue::ParrotVariant(x) => {
            ParrotVariantImpl::lemma_format();
            ParrotVariantImpl::lemma_value(x);
        },
        ComponentValue::TropicalFishPattern(x) => {
            TropicalFishPatternImpl::lemma_format();
            TropicalFishPatternImpl::lemma_value(x);
        },
        ComponentValue::TropicalFishBaseColor(x) => {
            TropicalFishBaseColorImpl::lemma_format();
            TropicalFishBaseColorImpl::lemma_value(x);
        },
        ComponentValue::TropicalFishPatternColor(x) => {
            TropicalFishPatternColorImpl::lemma_format();
            TropicalFishPatternColorImpl::lemma_value(x);
        },
        ComponentValue::MooshroomVariant(x) => {
            MooshroomVariantImpl::lemma_format();
            MooshroomVariantImpl::lemma_value(x);
        },
        ComponentValue::RabbitVariant(x) => {
            RabbitVariantImpl::lemma_format();
            RabbitVariantImpl::lemma_value(x);
        },
        ComponentValue::PigVariant(x) => {
            PigVariantImpl::lemma_format();
            PigVariantImpl::lemma_value(x);
        },
        ComponentValue::PigSoundVariant(x) => {
            PigSoundVariantImpl::lemma_format();
            PigSoundVariantImpl::lemma_value(x);
        },
        ComponentValue::CowVariant(x) => {
            CowVariantImpl::lemma_format();
            CowVariantImpl::lemma_value(x);
        },
        ComponentValue::CowSoundVariant(x) => {
            CowSoundVariantImpl::lemma_format();
            CowSoundVariantImpl::lemma_value(x);
        },
        ComponentValue::ChickenVariant(x) => {
            ChickenVariantImpl::lemma_format();
            ChickenVariantImpl::lemma_value(x);
        },
        ComponentValue::ChickenSoundVariant(x) => {
            ChickenSoundVariantImpl::lemma_format();
            ChickenSoundVariantImpl::lemma_value(x);
        },
        ComponentValue::ZombieNautilusVariant(x) => {
            ZombieNautilusVariantImpl::lemma_format();
            ZombieNautilusVariantImpl::lemma_value(x);
        },
        ComponentValue::FrogVariant(x) => {
            FrogVariantImpl::lemma_format();
            FrogVariantImpl::lemma_value(x);
        },
        ComponentValue::HorseVariant(x) => {
            HorseVariantImpl::lemma_format();
            HorseVariantImpl::lemma_value(x);
        },
        ComponentValue::PaintingVariant(x) => {
            PaintingVariantImpl::lemma_format();
            PaintingVariantImpl::lemma_value(x);
        },
        ComponentValue::LlamaVariant(x) => {
            LlamaVariantImpl::lemma_format();
            LlamaVariantImpl::lemma_value(x);
        },
        ComponentValue::AxolotlVariant(x) => {
            AxolotlVariantImpl::lemma_format();
            AxolotlVariantImpl::lemma_value(x);
        },
        ComponentValue::CatVariant(x) => {
            CatVariantImpl::lemma_format();
            CatVariantImpl::lemma_value(x);
        },
        ComponentValue::CatSoundVariant(x) => {
            CatSoundVariantImpl::lemma_format();
            CatSoundVariantImpl::lemma_value(x);
        },
        ComponentValue::CatCollar(x) => {
            CatCollarImpl::lemma_format();
            CatCollarImpl::lemma_value(x);
        },
        ComponentValue::SheepColor(x) => {
            SheepColorImpl::lemma_format();
            SheepColorImpl::lemma_value(x);
        },
        ComponentValue::ShulkerColor(x) => {
            ShulkerColorImpl::lemma_format();
            ShulkerColorImpl::lemma_value(x);
        },
        _ => {},
    }
}

/// Every value of a plain component, and every text that is not too long, comes back from the wire.
pub proof fn lemma_components_return(v: ComponentValue, c: Ctx, out: Seq<u8>, r: Seq<u8>)
    requires
        is_plain(v) || (only_text(v) matches Some(t) && text_fits(t, MAX_TEXT_BYTES as nat)),
    ensures
        ({
            let f = component_format(value_kind(v));
            let b = val_bytes(f, c, value_val(v));
            write_val(f, c, out, value_val(v)) == put(out, b) && read_val(f, c, b + r) == done(value_val(v), r)
        }),
{
    if is_plain(v) {
        lemma_plain_keeps(v, c);
    } else {
        lemma_text_keeps(v, c);
    }
    lemma_values_return(component_format(value_kind(v)), c, out, value_val(v), r);
}

} // verus!
