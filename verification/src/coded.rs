//! The components whose values have a codec of their own.
use vstd::prelude::*;
use crate::basic::{BannerPatternsImpl, BaseColorImpl, BreakSoundImpl, CreativeSlotLockImpl, CustomDataImpl, CustomModelDataImpl, CustomNameImpl, DamageImpl, EnchantmentGlintOverrideImpl, InstrumentImpl, ItemModelImpl, ItemNameImpl, LockImpl, LoreImpl, MaxDamageImpl, MaxStackSizeImpl, NoteBlockSoundImpl, PotDecorationsImpl, ProvidesBannerPatternsImpl, ProvidesTrimMaterialImpl, RarityImpl, TooltipDisplayImpl, TooltipStyleImpl, UnbreakableImpl};
use crate::block_entity::{BeesImpl, BlockEntityDataImpl, BlockStateImpl, BucketEntityDataImpl, EntityDataImpl};
use crate::book::{WritableBookContentImpl, WrittenBookContentImpl};
use crate::consumable::{ConsumableImpl, DeathProtectionImpl, OminousBottleAmplifierImpl, PotionContentsImpl, PotionDurationScaleImpl, SuspiciousStewEffectsImpl};
use crate::equipment::{AdditionalTradeCostImpl, AttackRangeImpl, AttributeModifiersImpl, BlocksAttacksImpl, DamageResistantImpl, DamageTypeImpl, EnchantableImpl, EnchantmentsImpl, EquippableImpl, FoodImpl, GliderImpl, KineticWeaponImpl, MinimumAttackChargeImpl, PiercingWeaponImpl, RepairCostImpl, RepairableImpl, StoredEnchantmentsImpl, SwingAnimationImpl, ToolImpl, TrimImpl, UseCooldownImpl, UseEffectsImpl, WeaponImpl};
use crate::utility::{DyeImpl, DyedColorImpl, FireworkExplosionImpl, FireworksImpl, JukeboxPlayableImpl, LodestoneTrackerImpl, MapColorImpl, MapIdImpl, MapPostProcessingImpl, ProfileImpl};
use crate::variant::{AxolotlVariantImpl, CatCollarImpl, CatSoundVariantImpl, CatVariantImpl, ChickenSoundVariantImpl, ChickenVariantImpl, CowSoundVariantImpl, CowVariantImpl, FoxVariantImpl, FrogVariantImpl, HorseVariantImpl, LlamaVariantImpl, MooshroomVariantImpl, PaintingVariantImpl, ParrotVariantImpl, PigSoundVariantImpl, PigVariantImpl, RabbitVariantImpl, SalmonSizeImpl, SheepColorImpl, ShulkerColorImpl, TropicalFishBaseColorImpl, TropicalFishPatternColorImpl, TropicalFishPatternImpl, VillagerVariantImpl, WolfCollarImpl, WolfSoundVariantImpl, WolfVariantImpl, ZombieNautilusVariantImpl};
use crate::codec::{decodes, encodes, Context, DataComponentCodec};
use crate::components::{component_format, value_kind, value_val, ComponentValue, DataComponentImpl};
use crate::errors::{ReadingError, WritingError};
use crate::format::{read_val, write_val};

verus! {

/// A component whose values have a codec: its format is the one that the component has on the wire.
pub trait CodedComponent: DataComponentImpl + DataComponentCodec<Value = Self> {
    proof fn lemma_format()
        ensures
            component_format(Self::component()) == Self::format(),
    ;

    proof fn lemma_value(v: Self)
        ensures
            value_val(v.wrap()) == Self::val(v),
    ;
}

/// Reads the value of a component.
pub fn read_as<C: CodedComponent>(seq: &mut &[u8], ctx: &Context) -> (r: Result<ComponentValue, ReadingError>)
    ensures
        decodes(read_val(component_format(C::component()), ctx@, old(seq)@), r, final(seq)@, |v: ComponentValue| value_val(v)),
        r matches Ok(v) ==> value_kind(v) == C::component(),
{
    proof {
        C::lemma_format();
    }
    match C::deserialize(seq, ctx) {
        Ok(v) => {
            proof {
                C::lemma_value(v);
            }
            Ok(v.to_dyn())
        },
        Err(e) => Err(e),
    }
}

/// Appends the value of a component.
pub fn write_as<C: CodedComponent>(v: &C, out: &mut Vec<u8>, ctx: &Context) -> (r: Result<(), WritingError>)
    ensures
        encodes(write_val(component_format(C::component()), ctx@, old(out)@, value_val((*v).wrap())), r, final(out)@),
{
    proof {
        C::lemma_format();
        C::lemma_value(*v);
    }
    C::serialize(v, out, ctx)
}

impl CodedComponent for CustomDataImpl {
    proof fn lemma_format() {
        reveal(component_format);
    }

    proof fn lemma_value(v: Self) {
        reveal(value_val);
    }
}

impl CodedComponent for MaxStackSizeImpl {
    proof fn lemma_format() {
        reveal(component_format);
    }

    proof fn lemma_value(v: Self) {
        reveal(value_val);
    }
}

impl CodedComponent for MaxDamageImpl {
    proof fn lemma_format() {
        reveal(component_format);
    }

    proof fn lemma_value(v: Self) {
        reveal(value_val);
    }
}

impl CodedComponent for DamageImpl {
    proof fn lemma_format() {
        reveal(component_format);
    }

    proof fn lemma_value(v: Self) {
        reveal(value_val);
    }
}

impl CodedComponent for UnbreakableImpl {
    proof fn lemma_format() {
        reveal(component_format);
    }

    proof fn lemma_value(v: Self) {
        reveal(value_val);
    }
}

impl CodedComponent for UseEffectsImpl {
    proof fn lemma_format() {
        reveal(component_format);
    }

    proof fn lemma_value(v: Self) {
        reveal(value_val);
    }
}

impl CodedComponent for CustomNameImpl {
    proof fn lemma_format() {
        reveal(component_format);
    }

    proof fn lemma_value(v: Self) {
        reveal(value_val);
    }
}

impl CodedComponent for MinimumAttackChargeImpl {
    proof fn lemma_format() {
        reveal(component_format);
    }

    proof fn lemma_value(v: Self) {
        reveal(value_val);
    }
}

impl CodedComponent for DamageTypeImpl {
    proof fn lemma_format() {
        reveal(component_format);
    }

    proof fn lemma_value(v: Self) {
        reveal(value_val);
    }
}

impl CodedComponent for ItemNameImpl {
    proof fn lemma_format() {
        reveal(component_format);
    }

    proof fn lemma_value(v: Self) {
        reveal(value_val);
    }
}

impl CodedComponent for ItemModelImpl {
    proof fn lemma_format() {
        reveal(component_format);
    }

    proof fn lemma_value(v: Self) {
        reveal(value_val);
    }
}

impl CodedComponent for LoreImpl {
    proof fn lemma_format() {
        reveal(component_format);
    }

    proof fn lemma_value(v: Self) {
        reveal(value_val);
    }
}

impl CodedComponent for RarityImpl {
    proof fn lemma_format() {
        reveal(component_format);
    }

    proof fn lemma_value(v: Self) {
        reveal(value_val);
    }
}

impl CodedComponent for EnchantmentsImpl {
    proof fn lemma_format() {
        reveal(component_format);
    }

    proof fn lemma_value(v: Self) {
        reveal(value_val);
    }
}

impl CodedComponent for AttributeModifiersImpl {
    proof fn lemma_format() {
        reveal(component_format);
    }

    proof fn lemma_value(v: Self) {
        reveal(value_val);
    }
}

impl CodedComponent for CustomModelDataImpl {
    proof fn lemma_format() {
        reveal(component_format);
    }

    proof fn lemma_value(v: Self) {
        reveal(value_val);
    }
}

impl CodedComponent for TooltipDisplayImpl {
    proof fn lemma_format() {
        reveal(component_format);
    }

    proof fn lemma_value(v: Self) {
        reveal(value_val);
    }
}

impl CodedComponent for RepairCostImpl {
    proof fn lemma_format() {
        reveal(component_format);
    }

    proof fn lemma_value(v: Self) {
        reveal(value_val);
    }
}

impl CodedComponent for CreativeSlotLockImpl {
    proof fn lemma_format() {
        reveal(component_format);
    }

    proof fn lemma_value(v: Self) {
        reveal(value_val);
    }
}

impl CodedComponent for EnchantmentGlintOverrideImpl {
    proof fn lemma_format() {
        reveal(component_format);
    }

    proof fn lemma_value(v: Self) {
        reveal(value_val);
    }
}

impl CodedComponent for FoodImpl {
    proof fn lemma_format() {
        reveal(component_format);
    }

    proof fn lemma_value(v: Self) {
        reveal(value_val);
    }
}

impl CodedComponent for ConsumableImpl {
    proof fn lemma_format() {
        reveal(component_format);
    }

    proof fn lemma_value(v: Self) {
        reveal(value_val);
    }
}

impl CodedComponent for UseCooldownImpl {
    proof fn lemma_format() {
        reveal(component_format);
    }

    proof fn lemma_value(v: Self) {
        reveal(value_val);
    }
}

impl CodedComponent for DamageResistantImpl {
    proof fn lemma_format() {
        reveal(component_format);
    }

    proof fn lemma_value(v: Self) {
        reveal(value_val);
    }
}

impl CodedComponent for ToolImpl {
    proof fn lemma_format() {
        reveal(component_format);
    }

    proof fn lemma_value(v: Self) {
        reveal(value_val);
    }
}

impl CodedComponent for WeaponImpl {
    proof fn lemma_format() {
        reveal(component_format);
    }

    proof fn lemma_value(v: Self) {
        reveal(value_val);
    }
}

impl CodedComponent for AttackRangeImpl {
    proof fn lemma_format() {
        reveal(component_format);
    }

    proof fn lemma_value(v: Self) {
        reveal(value_val);
    }
}

impl CodedComponent for EnchantableImpl {
    proof fn lemma_format() {
        reveal(component_format);
    }

    proof fn lemma_value(v: Self) {
        reveal(value_val);
    }
}

impl CodedComponent for EquippableImpl {
    proof fn lemma_format() {
        reveal(component_format);
    }

    proof fn lemma_value(v: Self) {
        reveal(value_val);
    }
}

impl CodedComponent for RepairableImpl {
    proof fn lemma_format() {
        reveal(component_format);
    }

    proof fn lemma_value(v: Self) {
        reveal(value_val);
    }
}

impl CodedComponent for GliderImpl {
    proof fn lemma_format() {
        reveal(component_format);
    }

    proof fn lemma_value(v: Self) {
        reveal(value_val);
    }
}

impl CodedComponent for TooltipStyleImpl {
    proof fn lemma_format() {
        reveal(component_format);
    }

    proof fn lemma_value(v: Self) {
        reveal(value_val);
    }
}

impl CodedComponent for DeathProtectionImpl {
    proof fn lemma_format() {
        reveal(component_format);
    }

    proof fn lemma_value(v: Self) {
        reveal(value_val);
    }
}

impl CodedComponent for BlocksAttacksImpl {
    proof fn lemma_format() {
        reveal(component_format);
    }

    proof fn lemma_value(v: Self) {
        reveal(value_val);
    }
}

impl CodedComponent for PiercingWeaponImpl {
    proof fn lemma_format() {
        reveal(component_format);
    }

    proof fn lemma_value(v: Self) {
        reveal(value_val);
    }
}

impl CodedComponent for KineticWeaponImpl {
    proof fn lemma_format() {
        reveal(component_format);
    }

    proof fn lemma_value(v: Self) {
        reveal(value_val);
    }
}

impl CodedComponent for SwingAnimationImpl {
    proof fn lemma_format() {
        reveal(component_format);
    }

    proof fn lemma_value(v: Self) {
        reveal(value_val);
    }
}

impl CodedComponent for AdditionalTradeCostImpl {
    proof fn lemma_format() {
        reveal(component_format);
    }

    proof fn lemma_value(v: Self) {
        reveal(value_val);
    }
}

impl CodedComponent for StoredEnchantmentsImpl {
    proof fn lemma_format() {
        reveal(component_format);
    }

    proof fn lemma_value(v: Self) {
        reveal(value_val);
    }
}

impl CodedComponent for DyeImpl {
    proof fn lemma_format() {
        reveal(component_format);
    }

    proof fn lemma_value(v: Self) {
        reveal(value_val);
    }
}

impl CodedComponent for DyedColorImpl {
    proof fn lemma_format() {
        reveal(component_format);
    }

    proof fn lemma_value(v: Self) {
        reveal(value_val);
    }
}

impl CodedComponent for MapColorImpl {
    proof fn lemma_format() {
        reveal(component_format);
    }

    proof fn lemma_value(v: Self) {
        reveal(value_val);
    }
}

impl CodedComponent for MapIdImpl {
    proof fn lemma_format() {
        reveal(component_format);
    }

    proof fn lemma_value(v: Self) {
        reveal(value_val);
    }
}

impl CodedComponent for MapPostProcessingImpl {
    proof fn lemma_format() {
        reveal(component_format);
    }

    proof fn lemma_value(v: Self) {
        reveal(value_val);
    }
}

impl CodedComponent for PotionContentsImpl {
    proof fn lemma_format() {
        reveal(component_format);
    }

    proof fn lemma_value(v: Self) {
        reveal(value_val);
    }
}

impl CodedComponent for PotionDurationScaleImpl {
    proof fn lemma_format() {
        reveal(component_format);
    }

    proof fn lemma_value(v: Self) {
        reveal(value_val);
    }
}

impl CodedComponent for SuspiciousStewEffectsImpl {
    proof fn lemma_format() {
        reveal(component_format);
    }

    proof fn lemma_value(v: Self) {
        reveal(value_val);
    }
}

impl CodedComponent for WritableBookContentImpl {
    proof fn lemma_format() {
        reveal(component_format);
    }

    proof fn lemma_value(v: Self) {
        reveal(value_val);
    }
}

impl CodedComponent for WrittenBookContentImpl {
    proof fn lemma_format() {
        reveal(component_format);
    }

    proof fn lemma_value(v: Self) {
        reveal(value_val);
    }
}

impl CodedComponent for TrimImpl {
    proof fn lemma_format() {
        reveal(component_format);
    }

    proof fn lemma_value(v: Self) {
        reveal(value_val);
    }
}

impl CodedComponent for EntityDataImpl {
    proof fn lemma_format() {
        reveal(component_format);
    }

    proof fn lemma_value(v: Self) {
        reveal(value_val);
    }
}

impl CodedComponent for BucketEntityDataImpl {
    proof fn lemma_format() {
        reveal(component_format);
    }

    proof fn lemma_value(v: Self) {
        reveal(value_val);
    }
}

impl CodedComponent for BlockEntityDataImpl {
    proof fn lemma_format() {
        reveal(component_format);
    }

    proof fn lemma_value(v: Self) {
        reveal(value_val);
    }
}

impl CodedComponent for InstrumentImpl {
    proof fn lemma_format() {
        reveal(component_format);
    }

    proof fn lemma_value(v: Self) {
        reveal(value_val);
    }
}

impl CodedComponent for ProvidesTrimMaterialImpl {
    proof fn lemma_format() {
        reveal(component_format);
    }

    proof fn lemma_value(v: Self) {
        reveal(value_val);
    }
}

impl CodedComponent for OminousBottleAmplifierImpl {
    proof fn lemma_format() {
        reveal(component_format);
    }

    proof fn lemma_value(v: Self) {
        reveal(value_val);
    }
}

impl CodedComponent for JukeboxPlayableImpl {
    proof fn lemma_format() {
        reveal(component_format);
    }

    proof fn lemma_value(v: Self) {
        reveal(value_val);
    }
}

impl CodedComponent for ProvidesBannerPatternsImpl {
    proof fn lemma_format() {
        reveal(component_format);
    }

    proof fn lemma_value(v: Self) {
        reveal(value_val);
    }
}

impl CodedComponent for LodestoneTrackerImpl {
    proof fn lemma_format() {
        reveal(component_format);
    }

    proof fn lemma_value(v: Self) {
        reveal(value_val);
    }
}

impl CodedComponent for FireworkExplosionImpl {
    proof fn lemma_format() {
        reveal(component_format);
    }

    proof fn lemma_value(v: Self) {
        reveal(value_val);
    }
}

impl CodedComponent for FireworksImpl {
    proof fn lemma_format() {
        reveal(component_format);
    }

    proof fn lemma_value(v: Self) {
        reveal(value_val);
    }
}

impl CodedComponent for ProfileImpl {
    proof fn lemma_format() {
        reveal(component_format);
    }

    proof fn lemma_value(v: Self) {
        reveal(value_val);
    }
}

impl CodedComponent for NoteBlockSoundImpl {
    proof fn lemma_format() {
        reveal(component_format);
    }

    proof fn lemma_value(v: Self) {
        reveal(value_val);
    }
}

impl CodedComponent for BannerPatternsImpl {
    proof fn lemma_format() {
        reveal(component_format);
    }

    proof fn lemma_value(v: Self) {
        reveal(value_val);
    }
}

impl CodedComponent for BaseColorImpl {
    proof fn lemma_format() {
        reveal(component_format);
    }

    proof fn lemma_value(v: Self) {
        reveal(value_val);
    }
}

impl CodedComponent for PotDecorationsImpl {
    proof fn lemma_format() {
        reveal(component_format);
    }

    proof fn lemma_value(v: Self) {
        reveal(value_val);
    }
}

impl CodedComponent for BlockStateImpl {
    proof fn lemma_format() {
        reveal(component_format);
    }

    proof fn lemma_value(v: Self) {
        reveal(value_val);
    }
}

impl CodedComponent for BeesImpl {
    proof fn lemma_format() {
        reveal(component_format);
    }

    proof fn lemma_value(v: Self) {
        reveal(value_val);
    }
}

impl CodedComponent for LockImpl {
    proof fn lemma_format() {
        reveal(component_format);
    }

    proof fn lemma_value(v: Self) {
        reveal(value_val);
    }
}

impl CodedComponent for BreakSoundImpl {
    proof fn lemma_format() {
        reveal(component_format);
    }

    proof fn lemma_value(v: Self) {
        reveal(value_val);
    }
}

impl CodedComponent for VillagerVariantImpl {
    proof fn lemma_format() {
        reveal(component_format);
    }

    proof fn lemma_value(v: Self) {
        reveal(value_val);
    }
}

impl CodedComponent for WolfVariantImpl {
    proof fn lemma_format() {
        reveal(component_format);
    }

    proof fn lemma_value(v: Self) {
        reveal(value_val);
    }
}

impl CodedComponent for WolfSoundVariantImpl {
    proof fn lemma_format() {
        reveal(component_format);
    }

    proof fn lemma_value(v: Self) {
        reveal(value_val);
    }
}

impl CodedComponent for WolfCollarImpl {
    proof fn lemma_format() {
        reveal(component_format);
    }

    proof fn lemma_value(v: Self) {
        reveal(value_val);
    }
}

impl CodedComponent for FoxVariantImpl {
    proof fn lemma_format() {
        reveal(component_format);
    }

    proof fn lemma_value(v: Self) {
        reveal(value_val);
    }
}

impl CodedComponent for SalmonSizeImpl {
    proof fn lemma_format() {
        reveal(component_format);
    }

    proof fn lemma_value(v: Self) {
        reveal(value_val);
    }
}

impl CodedComponent for ParrotVariantImpl {
    proof fn lemma_format() {
        reveal(component_format);
    }

    proof fn lemma_value(v: Self) {
        reveal(value_val);
    }
}

impl CodedComponent for TropicalFishPatternImpl {
    proof fn lemma_format() {
        reveal(component_format);
    }

    proof fn lemma_value(v: Self) {
        reveal(value_val);
    }
}

impl CodedComponent for TropicalFishBaseColorImpl {
    proof fn lemma_format() {
        reveal(component_format);
    }

    proof fn lemma_value(v: Self) {
        reveal(value_val);
    }
}

impl CodedComponent for TropicalFishPatternColorImpl {
    proof fn lemma_format() {
        reveal(component_format);
    }

    proof fn lemma_value(v: Self) {
        reveal(value_val);
    }
}

impl CodedComponent for MooshroomVariantImpl {
    proof fn lemma_format() {
        reveal(component_format);
    }

    proof fn lemma_value(v: Self) {
        reveal(value_val);
    }
}

impl CodedComponent for RabbitVariantImpl {
    proof fn lemma_format() {
        reveal(component_format);
    }

    proof fn lemma_value(v: Self) {
        reveal(value_val);
    }
}

impl CodedComponent for PigVariantImpl {
    proof fn lemma_format() {
        reveal(component_format);
    }

    proof fn lemma_value(v: Self) {
        reveal(value_val);
    }
}

impl CodedComponent for PigSoundVariantImpl {
    proof fn lemma_format() {
        reveal(component_format);
    }

    proof fn lemma_value(v: Self) {
        reveal(value_val);
    }
}

impl CodedComponent for CowVariantImpl {
    proof fn lemma_format() {
        reveal(component_format);
    }

    proof fn lemma_value(v: Self) {
        reveal(value_val);
    }
}

impl CodedComponent for CowSoundVariantImpl {
    proof fn lemma_format() {
        reveal(component_format);
    }

    proof fn lemma_value(v: Self) {
        reveal(value_val);
    }
}

impl CodedComponent for ChickenVariantImpl {
    proof fn lemma_format() {
        reveal(component_format);
    }

    proof fn lemma_value(v: Self) {
        reveal(value_val);
    }
}

impl CodedComponent for ChickenSoundVariantImpl {
    proof fn lemma_format() {
        reveal(component_format);
    }

    proof fn lemma_value(v: Self) {
        reveal(value_val);
    }
}

impl CodedComponent for ZombieNautilusVariantImpl {
    proof fn lemma_format() {
        reveal(component_format);
    }

    proof fn lemma_value(v: Self) {
        reveal(value_val);
    }
}

impl CodedComponent for FrogVariantImpl {
    proof fn lemma_format() {
        reveal(component_format);
    }

    proof fn lemma_value(v: Self) {
        reveal(value_val);
    }
}

impl CodedComponent for HorseVariantImpl {
    proof fn lemma_format() {
        reveal(component_format);
    }

    proof fn lemma_value(v: Self) {
        reveal(value_val);
    }
}

impl CodedComponent for PaintingVariantImpl {
    proof fn lemma_format() {
        reveal(component_format);
    }

    proof fn lemma_value(v: Self) {
        reveal(value_val);
    }
}

impl CodedComponent for LlamaVariantImpl {
    proof fn lemma_format() {
        reveal(component_format);
    }

    proof fn lemma_value(v: Self) {
        reveal(value_val);
    }
}

impl CodedComponent for AxolotlVariantImpl {
    proof fn lemma_format() {
        reveal(component_format);
    }

    proof fn lemma_value(v: Self) {
        reveal(value_val);
    }
}

impl CodedComponent for CatVariantImpl {
    proof fn lemma_format() {
        reveal(component_format);
    }

    proof fn lemma_value(v: Self) {
        reveal(value_val);
    }
}

impl CodedComponent for CatSoundVariantImpl {
    proof fn lemma_format() {
        reveal(component_format);
    }

    proof fn lemma_value(v: Self) {
        reveal(value_val);
    }
}

impl CodedComponent for CatCollarImpl {
    proof fn lemma_format() {
        reveal(component_format);
    }

    proof fn lemma_value(v: Self) {
        reveal(value_val);
    }
}

impl CodedComponent for SheepColorImpl {
    proof fn lemma_format() {
        reveal(component_format);
    }

    proof fn lemma_value(v: Self) {
        reveal(value_val);
    }
}

impl CodedComponent for ShulkerColorImpl {
    proof fn lemma_format() {
        reveal(component_format);
    }

    proof fn lemma_value(v: Self) {
        reveal(value_val);
    }
}

} // verus!
