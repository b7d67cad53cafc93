//! The components that an item can have, with their formats and their values.
use vstd::prelude::*;
use crate::codec::{DataComponentCodec, ListRule, Numbered};
use crate::data_component::DataComponent;
use crate::basic::{AsDye, AsDyeName, AsRarity, BannerPatternsImpl, BaseColorImpl, BreakSoundImpl, CreativeSlotLockImpl, CustomDataImpl, CustomModelDataImpl, CustomNameImpl, DamageImpl, EnchantmentGlintOverrideImpl, HiddenComponent, HiddenCount, InstrumentImpl, ItemModelImpl, ItemNameImpl, LockImpl, LoreCount, LoreImpl, MaxDamageImpl, MaxStackSizeImpl, NoteBlockSoundImpl, PotDecorationsImpl, ProvidesBannerPatternsImpl, ProvidesTrimMaterialImpl, RarityImpl, StackSize, TooltipDisplayImpl, TooltipStyleImpl, UnbreakableImpl};
use crate::block_entity::{BeesImpl, BlockEntityDataImpl, BlockStateImpl, BucketEntityDataImpl, EntityDataImpl};
use crate::book::{WritableBookContentImpl, WrittenBookContentImpl};
use crate::consumable::{AsAnimation, AsStewEffect, ConsumableImpl, ConsumeEffectCount, DeathEffectCount, DeathProtectionImpl, EffectCount, InvalidConsumeSound, OminousBottleAmplifierImpl, PotionContentsImpl, PotionDurationScaleImpl, StewEffectCount, SuspiciousStewEffectsImpl, UnknownSound, UnreadableSound};
use crate::elements::{OfKind, Wording};
use crate::equipment::{AdditionalTradeCostImpl, AsAttribute, AsDamageType, AsEquipmentSlot, AsModifierSlot, AsOperation, AsSwing, AttackRangeImpl, AttributeModifiersImpl, BlocksAttacksImpl, DamageResistantImpl, DamageTypeImpl, EnchantableImpl, EnchantmentCount, EnchantmentsImpl, EquippableImpl, FoodImpl, GliderImpl, InvalidEquipSound, InvalidShearingSound, KineticWeaponImpl, MinimumAttackChargeImpl, MissingDisplay, ModifierCount, NoSound, OfBlock, OfEffect, OfEntityType, OfItem, PiercingWeaponImpl, RepairCostImpl, RepairableImpl, StoredEnchantmentsImpl, SwingAnimationImpl, ToolImpl, TrimImpl, UnknownEnchantment, UnknownStoredEnchantment, UseCooldownImpl, UseEffectsImpl, WeaponImpl};
use crate::item_stack::{slot_vals, stack_val, stack_vals, BundleContentsImpl, BundleCount, CanBreakImpl, CanPlaceOnImpl, ChargedProjectilesImpl, ContainerImpl, ProjectileCount, SulfurCubeContentImpl, UseRemainderImpl};
use crate::stored::{container_loot_val, debug_stick_state_val, intangible_projectile_val, map_decorations_val, recipes_val, ContainerLootImpl, DebugStickStateImpl, IntangibleProjectileImpl, MapDecorationsImpl, RecipesImpl};
use crate::utility::{AsProcessing, AsShape, AsSong, ColorCount, DyeImpl, DyedColorImpl, ExplosionCount, FadeColorCount, FireworkExplosionImpl, FireworksImpl, FlightDuration, JukeboxPlayableImpl, LodestoneTrackerImpl, MapColorImpl, MapIdImpl, MapPostProcessingImpl, ProfileImpl};
use crate::variant::{AxolotlVariantImpl, CatCollarImpl, CatSoundVariantImpl, CatVariantImpl, ChickenSoundVariantImpl, ChickenVariantImpl, CowSoundVariantImpl, CowVariantImpl, FoxVariantImpl, FrogVariantImpl, HorseVariantImpl, LlamaVariantImpl, MooshroomVariantImpl, PaintingVariantImpl, ParrotVariantImpl, PigSoundVariantImpl, PigVariantImpl, RabbitVariantImpl, SalmonSizeImpl, SheepColorImpl, ShulkerColorImpl, TropicalFishBaseColorImpl, TropicalFishPatternColorImpl, TropicalFishPatternImpl, VillagerVariantImpl, WolfCollarImpl, WolfSoundVariantImpl, WolfVariantImpl, ZombieNautilusVariantImpl};
use crate::format::{both, fixed, list, opt, pair, plain, raw_list, Blame, Format, NbtRole, SoundRule, Val};
use crate::nbt_tag::Tag;

verus! {

/// The wire format of a component.
#[verifier::opaque]
pub open spec fn component_format(k: DataComponent) -> Format {
    match k {
        DataComponent::CustomData => Format::Nbt(NbtRole::Compound),
        DataComponent::MaxStackSize => Format::Checked(StackSize::check()),
        DataComponent::MaxDamage => Format::VarInt,
        DataComponent::Damage => Format::VarInt,
        DataComponent::Unbreakable => Format::Unit,
        DataComponent::UseEffects => fixed(both(Format::Bool, both(Format::Bool, Format::Float(4))), pair(Val::Bool(false), pair(Val::Bool(true), Val::Float(4, 0x3e4c_cccd))), Val::Unit),
        DataComponent::CustomName => Format::Nbt(NbtRole::Name),
        DataComponent::MinimumAttackCharge => Format::Float(4),
        DataComponent::DamageType => Format::Checked(AsDamageType::check()),
        DataComponent::ItemName => Format::Nbt(NbtRole::ItemName),
        DataComponent::ItemModel => plain(),
        DataComponent::Lore => list(LoreCount::rule(), LoreCount::limit(), Format::Nbt(NbtRole::Line)),
        DataComponent::Rarity => Format::Checked(AsRarity::check()),
        DataComponent::Enchantments => list(EnchantmentCount::rule(), EnchantmentCount::limit(), Format::Leveled(UnknownEnchantment::spec_text())),
        DataComponent::CanPlaceOn => Format::Predicates,
        DataComponent::CanBreak => Format::Predicates,
        DataComponent::AttributeModifiers => list(ModifierCount::rule(), ModifierCount::limit(), both(Format::Checked(AsAttribute::check()), both(Format::Identifier, both(Format::Float(8), both(Format::Checked(AsOperation::check()), both(Format::Checked(AsModifierSlot::check()), Format::Choice(seq![Format::Unit, Format::Unit, Format::Nbt(NbtRole::Required(MissingDisplay::spec_text()))], Blame { text: "Invalid attribute modifier display type id: {}", number: true }))))))),
        DataComponent::CustomModelData => both(raw_list(Format::Float(4)), both(raw_list(Format::Bool), both(raw_list(plain()), raw_list(Format::Signed(4))))),
        DataComponent::TooltipDisplay => both(Format::Bool, Format::Distinct(HiddenCount::rule(), HiddenCount::limit(), Box::new(Format::Checked(HiddenComponent::check())))),
        DataComponent::RepairCost => Format::VarInt,
        DataComponent::CreativeSlotLock => Format::Unit,
        DataComponent::EnchantmentGlintOverride => fixed(Format::Bool, Val::Bool(true), Val::Unit),
        DataComponent::IntangibleProjectile => Format::Stored(DataComponent::IntangibleProjectile),
        DataComponent::Food => both(Format::VarInt, both(Format::Float(4), Format::Bool)),
        DataComponent::Consumable => both(Format::Float(4), both(Format::Checked(AsAnimation::check()), both(Format::Sound(SoundRule::KnownThenFlag(InvalidConsumeSound::spec_text())), list(ConsumeEffectCount::rule(), ConsumeEffectCount::limit(), Format::Choice(seq![both(list(EffectCount::rule(), EffectCount::limit(), Format::Effect), Format::Float(4)), Format::IdSet(OfEffect::spec_kind()), Format::Unit, Format::Float(4), Format::Sound(SoundRule::Renamed(UnreadableSound::spec_text(), UnknownSound::spec_text()))], Blame { text: "Invalid effect_type in ConsumeEffect", number: false }))))),
        DataComponent::UseRemainder => Format::Template,
        DataComponent::UseCooldown => both(Format::Float(4), opt(plain())),
        DataComponent::DamageResistant => plain(),
        DataComponent::Tool => both(raw_list(both(Format::IdSet(OfBlock::spec_kind()), both(opt(Format::Float(4)), opt(Format::Bool)))), both(Format::Float(4), both(Format::VarU32, Format::Bool))),
        DataComponent::Weapon => both(Format::VarU32, fixed(Format::Float(4), Val::Float(4, 0), Val::Unit)),
        DataComponent::AttackRange => both(Format::Float(4), both(Format::Float(4), both(Format::Float(4), both(Format::Float(4), both(Format::Float(4), Format::Float(4)))))),
        DataComponent::Enchantable => Format::VarInt,
        DataComponent::Equippable => both(Format::Checked(AsEquipmentSlot::check()), both(Format::Sound(SoundRule::Known(InvalidEquipSound::spec_text())), both(opt(plain()), both(opt(plain()), both(opt(Format::IdSet(OfEntityType::spec_kind())), both(Format::Bool, both(Format::Bool, both(Format::Bool, both(Format::Bool, both(Format::Bool, Format::Sound(SoundRule::Known(InvalidShearingSound::spec_text())))))))))))),
        DataComponent::Repairable => Format::IdSet(OfItem::spec_kind()),
        DataComponent::Glider => Format::Unit,
        DataComponent::TooltipStyle => plain(),
        DataComponent::DeathProtection => list(DeathEffectCount::rule(), DeathEffectCount::limit(), Format::Choice(seq![both(list(EffectCount::rule(), EffectCount::limit(), Format::Effect), Format::Float(4)), Format::IdSet(OfEffect::spec_kind()), Format::Unit, Format::Float(4), Format::Sound(SoundRule::Renamed(UnreadableSound::spec_text(), UnknownSound::spec_text()))], Blame { text: "Invalid effect_type in ConsumeEffect", number: false })),
        DataComponent::BlocksAttacks => fixed(both(Format::Float(4), both(Format::Float(4), both(raw_list(both(Format::Float(4), both(opt(Format::SkippedSet), both(Format::Float(4), Format::Float(4))))), both(Format::SkippedDamage, both(opt(Format::SkippedSet), both(opt(Format::VarInt), opt(Format::VarInt))))))), pair(Val::Float(4, 0), pair(Val::Float(4, 0x3f80_0000), pair(Val::List(Seq::empty()), pair(Val::Unit, pair(Val::Absent, pair(Val::Absent, Val::Absent)))))), Val::Unit),
        DataComponent::PiercingWeapon => both(Format::Bool, both(Format::Bool, both(Format::Sound(SoundRule::Optional(NoSound::spec_text())), Format::Sound(SoundRule::Optional(NoSound::spec_text()))))),
        DataComponent::KineticWeapon => both(Format::VarInt, both(Format::VarInt, both(opt(both(Format::VarInt, both(Format::Float(4), Format::Float(4)))), both(opt(both(Format::VarInt, both(Format::Float(4), Format::Float(4)))), both(opt(both(Format::VarInt, both(Format::Float(4), Format::Float(4)))), both(Format::Float(4), both(Format::Float(4), both(Format::Sound(SoundRule::Optional(NoSound::spec_text())), Format::Sound(SoundRule::Optional(NoSound::spec_text())))))))))),
        DataComponent::SwingAnimation => both(Format::Checked(AsSwing::check()), Format::VarInt),
        DataComponent::AdditionalTradeCost => fixed(Format::VarInt, Val::Int(0), Val::Unit),
        DataComponent::StoredEnchantments => list(EnchantmentCount::rule(), EnchantmentCount::limit(), Format::Leveled(UnknownStoredEnchantment::spec_text())),
        DataComponent::Dye => fixed(Format::VarInt, Val::Int(0), Val::Unit),
        DataComponent::DyedColor => Format::Signed(4),
        DataComponent::MapColor => fixed(Format::Signed(4), Val::Int(0), Val::Unit),
        DataComponent::MapId => Format::VarInt,
        DataComponent::MapDecorations => Format::Stored(DataComponent::MapDecorations),
        DataComponent::MapPostProcessing => Format::Checked(AsProcessing::check()),
        DataComponent::ChargedProjectiles => list(ProjectileCount::rule(), ProjectileCount::limit(), Format::Template),
        DataComponent::BundleContents => list(BundleCount::rule(), BundleCount::limit(), Format::Template),
        DataComponent::PotionContents => both(opt(Format::VarInt), both(opt(Format::Signed(4)), both(list(EffectCount::rule(), EffectCount::limit(), Format::Effect), opt(plain())))),
        DataComponent::PotionDurationScale => Format::Float(4),
        DataComponent::SuspiciousStewEffects => list(StewEffectCount::rule(), StewEffectCount::limit(), both(Format::Checked(AsStewEffect::check()), Format::VarInt)),
        DataComponent::WritableBookContent => raw_list(both(plain(), fixed(opt(plain()), Val::Absent, Val::Unit))),
        DataComponent::WrittenBookContent => both(both(plain(), fixed(opt(plain()), Val::Absent, Val::Unit)), both(plain(), both(fixed(Format::VarInt, Val::Int(0), Val::Unit), both(raw_list(both(Format::Nbt(NbtRole::Page), fixed(opt(Format::Nbt(NbtRole::Any)), Val::Absent, Val::Unit))), fixed(Format::Bool, Val::Bool(true), Val::Unit))))),
        DataComponent::Trim => fixed(both(Format::VarInt, Format::VarInt), pair(Val::Int(0), Val::Int(0)), pair(Val::Nbt(Tag::String("minecraft:quartz"@)), Val::Nbt(Tag::String("minecraft:coast"@)))),
        DataComponent::DebugStickState => Format::Stored(DataComponent::DebugStickState),
        DataComponent::EntityData => fixed(both(Format::VarInt, Format::Nbt(NbtRole::Any)), pair(Val::Int(0), Val::Nbt(Tag::Compound(Seq::empty()))), Val::Unit),
        DataComponent::BucketEntityData => fixed(Format::Nbt(NbtRole::Any), Val::Nbt(Tag::Compound(Seq::empty())), Val::Unit),
        DataComponent::BlockEntityData => both(fixed(Format::VarInt, Val::Int(0), Val::Unit), Format::Nbt(NbtRole::LenientCompound)),
        DataComponent::Instrument => fixed(Format::VarInt, Val::Int(0), Val::Unit),
        DataComponent::ProvidesTrimMaterial => fixed(Format::VarInt, Val::Int(0), Val::Unit),
        DataComponent::OminousBottleAmplifier => Format::VarInt,
        DataComponent::JukeboxPlayable => Format::Checked(AsSong::check()),
        DataComponent::ProvidesBannerPatterns => Format::SkippedSet,
        DataComponent::Recipes => Format::Stored(DataComponent::Recipes),
        DataComponent::LodestoneTracker => both(opt(both(plain(), Format::BlockPos)), Format::Bool),
        DataComponent::FireworkExplosion => both(Format::Checked(AsShape::check()), both(list(ColorCount::rule(), ColorCount::limit(), Format::Signed(4)), both(list(FadeColorCount::rule(), FadeColorCount::limit(), Format::Signed(4)), both(Format::Bool, Format::Bool)))),
        DataComponent::Fireworks => both(Format::Checked(FlightDuration::check()), list(ExplosionCount::rule(), ExplosionCount::limit(), both(Format::Checked(AsShape::check()), both(list(ColorCount::rule(), ColorCount::limit(), Format::Signed(4)), both(list(FadeColorCount::rule(), FadeColorCount::limit(), Format::Signed(4)), both(Format::Bool, Format::Bool)))))),
        DataComponent::Profile => both(Format::ProfileHead, both(raw_list(both(plain(), both(plain(), opt(plain())))), both(opt(plain()), both(opt(plain()), both(opt(plain()), opt(fixed(Format::VarInt, Val::Int(0), Val::Text("wide"@)))))))),
        DataComponent::NoteBlockSound => plain(),
        DataComponent::BannerPatterns => raw_list(both(fixed(Format::VarInt, Val::Int(0), Val::Text(Seq::empty())), Format::Checked(AsDye::check()))),
        DataComponent::BaseColor => Format::Checked(AsDyeName::check()),
        DataComponent::PotDecorations => fixed(raw_list(Format::VarInt), Val::List(Seq::empty()), Val::Unit),
        DataComponent::Container => Format::Slots,
        DataComponent::BlockState => raw_list(both(plain(), plain())),
        DataComponent::Bees => fixed(raw_list(both(Format::VarInt, both(Format::Nbt(NbtRole::Any), both(Format::VarInt, Format::VarInt)))), Val::List(Seq::empty()), Val::Unit),
        DataComponent::SulfurCubeContent => Format::Template,
        DataComponent::Lock => fixed(Format::Unit, Val::Unit, Val::Nbt(Tag::Compound(Seq::empty()))),
        DataComponent::ContainerLoot => Format::Stored(DataComponent::ContainerLoot),
        DataComponent::BreakSound => fixed(Format::VarInt, Val::Int(0), Val::Unit),
        DataComponent::VillagerVariant => plain(),
        DataComponent::WolfVariant => plain(),
        DataComponent::WolfSoundVariant => plain(),
        DataComponent::WolfCollar => plain(),
        DataComponent::FoxVariant => plain(),
        DataComponent::SalmonSize => plain(),
        DataComponent::ParrotVariant => plain(),
        DataComponent::TropicalFishPattern => plain(),
        DataComponent::TropicalFishBaseColor => plain(),
        DataComponent::TropicalFishPatternColor => plain(),
        DataComponent::MooshroomVariant => plain(),
        DataComponent::RabbitVariant => plain(),
        DataComponent::PigVariant => plain(),
        DataComponent::PigSoundVariant => plain(),
        DataComponent::CowVariant => plain(),
        DataComponent::CowSoundVariant => plain(),
        DataComponent::ChickenVariant => plain(),
        DataComponent::ChickenSoundVariant => plain(),
        DataComponent::ZombieNautilusVariant => plain(),
        DataComponent::FrogVariant => plain(),
        DataComponent::HorseVariant => plain(),
        DataComponent::PaintingVariant => plain(),
        DataComponent::LlamaVariant => plain(),
        DataComponent::AxolotlVariant => plain(),
        DataComponent::CatVariant => plain(),
        DataComponent::CatSoundVariant => plain(),
        DataComponent::CatCollar => plain(),
        DataComponent::SheepColor => plain(),
        DataComponent::ShulkerColor => plain(),
    }
}

/// The value of a component.
#[derive(Debug)]
pub enum ComponentValue {
    CustomData(CustomDataImpl),
    MaxStackSize(MaxStackSizeImpl),
    MaxDamage(MaxDamageImpl),
    Damage(DamageImpl),
    Unbreakable(UnbreakableImpl),
    UseEffects(UseEffectsImpl),
    CustomName(CustomNameImpl),
    MinimumAttackCharge(MinimumAttackChargeImpl),
    DamageType(DamageTypeImpl),
    ItemName(ItemNameImpl),
    ItemModel(ItemModelImpl),
    Lore(LoreImpl),
    Rarity(RarityImpl),
    Enchantments(EnchantmentsImpl),
    CanPlaceOn(CanPlaceOnImpl),
    CanBreak(CanBreakImpl),
    AttributeModifiers(AttributeModifiersImpl),
    CustomModelData(CustomModelDataImpl),
    TooltipDisplay(TooltipDisplayImpl),
    RepairCost(RepairCostImpl),
    CreativeSlotLock(CreativeSlotLockImpl),
    EnchantmentGlintOverride(EnchantmentGlintOverrideImpl),
    IntangibleProjectile(IntangibleProjectileImpl),
    Food(FoodImpl),
    Consumable(ConsumableImpl),
    UseRemainder(UseRemainderImpl),
    UseCooldown(UseCooldownImpl),
    DamageResistant(DamageResistantImpl),
    Tool(ToolImpl),
    Weapon(WeaponImpl),
    AttackRange(AttackRangeImpl),
    Enchantable(EnchantableImpl),
    Equippable(EquippableImpl),
    Repairable(RepairableImpl),
    Glider(GliderImpl),
    TooltipStyle(TooltipStyleImpl),
    DeathProtection(DeathProtectionImpl),
    BlocksAttacks(BlocksAttacksImpl),
    PiercingWeapon(PiercingWeaponImpl),
    KineticWeapon(KineticWeaponImpl),
    SwingAnimation(SwingAnimationImpl),
    AdditionalTradeCost(AdditionalTradeCostImpl),
    StoredEnchantments(StoredEnchantmentsImpl),
    Dye(DyeImpl),
    DyedColor(DyedColorImpl),
    MapColor(MapColorImpl),
    MapId(MapIdImpl),
    MapDecorations(MapDecorationsImpl),
    MapPostProcessing(MapPostProcessingImpl),
    ChargedProjectiles(ChargedProjectilesImpl),
    BundleContents(BundleContentsImpl),
    PotionContents(PotionContentsImpl),
    PotionDurationScale(PotionDurationScaleImpl),
    SuspiciousStewEffects(SuspiciousStewEffectsImpl),
    WritableBookContent(WritableBookContentImpl),
    WrittenBookContent(WrittenBookContentImpl),
    Trim(TrimImpl),
    DebugStickState(DebugStickStateImpl),
    EntityData(EntityDataImpl),
    BucketEntityData(BucketEntityDataImpl),
    BlockEntityData(BlockEntityDataImpl),
    Instrument(InstrumentImpl),
    ProvidesTrimMaterial(ProvidesTrimMaterialImpl),
    OminousBottleAmplifier(OminousBottleAmplifierImpl),
    JukeboxPlayable(JukeboxPlayableImpl),
    ProvidesBannerPatterns(ProvidesBannerPatternsImpl),
    Recipes(RecipesImpl),
    LodestoneTracker(LodestoneTrackerImpl),
    FireworkExplosion(FireworkExplosionImpl),
    Fireworks(FireworksImpl),
    Profile(ProfileImpl),
    NoteBlockSound(NoteBlockSoundImpl),
    BannerPatterns(BannerPatternsImpl),
    BaseColor(BaseColorImpl),
    PotDecorations(PotDecorationsImpl),
    Container(ContainerImpl),
    BlockState(BlockStateImpl),
    Bees(BeesImpl),
    SulfurCubeContent(SulfurCubeContentImpl),
    Lock(LockImpl),
    ContainerLoot(ContainerLootImpl),
    BreakSound(BreakSoundImpl),
    VillagerVariant(VillagerVariantImpl),
    WolfVariant(WolfVariantImpl),
    WolfSoundVariant(WolfSoundVariantImpl),
    WolfCollar(WolfCollarImpl),
    FoxVariant(FoxVariantImpl),
    SalmonSize(SalmonSizeImpl),
    ParrotVariant(ParrotVariantImpl),
    TropicalFishPattern(TropicalFishPatternImpl),
    TropicalFishBaseColor(TropicalFishBaseColorImpl),
    TropicalFishPatternColor(TropicalFishPatternColorImpl),
    MooshroomVariant(MooshroomVariantImpl),
    RabbitVariant(RabbitVariantImpl),
    PigVariant(PigVariantImpl),
    PigSoundVariant(PigSoundVariantImpl),
    CowVariant(CowVariantImpl),
    CowSoundVariant(CowSoundVariantImpl),
    ChickenVariant(ChickenVariantImpl),
    ChickenSoundVariant(ChickenSoundVariantImpl),
    ZombieNautilusVariant(ZombieNautilusVariantImpl),
    FrogVariant(FrogVariantImpl),
    HorseVariant(HorseVariantImpl),
    PaintingVariant(PaintingVariantImpl),
    LlamaVariant(LlamaVariantImpl),
    AxolotlVariant(AxolotlVariantImpl),
    CatVariant(CatVariantImpl),
    CatSoundVariant(CatSoundVariantImpl),
    CatCollar(CatCollarImpl),
    SheepColor(SheepColorImpl),
    ShulkerColor(ShulkerColorImpl),
}

/// Which component a value belongs to.
pub open spec fn value_kind(v: ComponentValue) -> DataComponent {
    match v {
        ComponentValue::CustomData(_) => DataComponent::CustomData,
        ComponentValue::MaxStackSize(_) => DataComponent::MaxStackSize,
        ComponentValue::MaxDamage(_) => DataComponent::MaxDamage,
        ComponentValue::Damage(_) => DataComponent::Damage,
        ComponentValue::Unbreakable(_) => DataComponent::Unbreakable,
        ComponentValue::UseEffects(_) => DataComponent::UseEffects,
        ComponentValue::CustomName(_) => DataComponent::CustomName,
        ComponentValue::MinimumAttackCharge(_) => DataComponent::MinimumAttackCharge,
        ComponentValue::DamageType(_) => DataComponent::DamageType,
        ComponentValue::ItemName(_) => DataComponent::ItemName,
        ComponentValue::ItemModel(_) => DataComponent::ItemModel,
        ComponentValue::Lore(_) => DataComponent::Lore,
        ComponentValue::Rarity(_) => DataComponent::Rarity,
        ComponentValue::Enchantments(_) => DataComponent::Enchantments,
        ComponentValue::CanPlaceOn(_) => DataComponent::CanPlaceOn,
        ComponentValue::CanBreak(_) => DataComponent::CanBreak,
        ComponentValue::AttributeModifiers(_) => DataComponent::AttributeModifiers,
        ComponentValue::CustomModelData(_) => DataComponent::CustomModelData,
        ComponentValue::TooltipDisplay(_) => DataComponent::TooltipDisplay,
        ComponentValue::RepairCost(_) => DataComponent::RepairCost,
        ComponentValue::CreativeSlotLock(_) => DataComponent::CreativeSlotLock,
        ComponentValue::EnchantmentGlintOverride(_) => DataComponent::EnchantmentGlintOverride,
        ComponentValue::IntangibleProjectile(_) => DataComponent::IntangibleProjectile,
        ComponentValue::Food(_) => DataComponent::Food,
        ComponentValue::Consumable(_) => DataComponent::Consumable,
        ComponentValue::UseRemainder(_) => DataComponent::UseRemainder,
        ComponentValue::UseCooldown(_) => DataComponent::UseCooldown,
        ComponentValue::DamageResistant(_) => DataComponent::DamageResistant,
        ComponentValue::Tool(_) => DataComponent::Tool,
        ComponentValue::Weapon(_) => DataComponent::Weapon,
        ComponentValue::AttackRange(_) => DataComponent::AttackRange,
        ComponentValue::Enchantable(_) => DataComponent::Enchantable,
        ComponentValue::Equippable(_) => DataComponent::Equippable,
        ComponentValue::Repairable(_) => DataComponent::Repairable,
        ComponentValue::Glider(_) => DataComponent::Glider,
        ComponentValue::TooltipStyle(_) => DataComponent::TooltipStyle,
        ComponentValue::DeathProtection(_) => DataComponent::DeathProtection,
        ComponentValue::BlocksAttacks(_) => DataComponent::BlocksAttacks,
        ComponentValue::PiercingWeapon(_) => DataComponent::PiercingWeapon,
        ComponentValue::KineticWeapon(_) => DataComponent::KineticWeapon,
        ComponentValue::SwingAnimation(_) => DataComponent::SwingAnimation,
        ComponentValue::AdditionalTradeCost(_) => DataComponent::AdditionalTradeCost,
        ComponentValue::StoredEnchantments(_) => DataComponent::StoredEnchantments,
        ComponentValue::Dye(_) => DataComponent::Dye,
        ComponentValue::DyedColor(_) => DataComponent::DyedColor,
        ComponentValue::MapColor(_) => DataComponent::MapColor,
        ComponentValue::MapId(_) => DataComponent::MapId,
        ComponentValue::MapDecorations(_) => DataComponent::MapDecorations,
        ComponentValue::MapPostProcessing(_) => DataComponent::MapPostProcessing,
        ComponentValue::ChargedProjectiles(_) => DataComponent::ChargedProjectiles,
        ComponentValue::BundleContents(_) => DataComponent::BundleContents,
        ComponentValue::PotionContents(_) => DataComponent::PotionContents,
        ComponentValue::PotionDurationScale(_) => DataComponent::PotionDurationScale,
        ComponentValue::SuspiciousStewEffects(_) => DataComponent::SuspiciousStewEffects,
        ComponentValue::WritableBookContent(_) => DataComponent::WritableBookContent,
        ComponentValue::WrittenBookContent(_) => DataComponent::WrittenBookContent,
        ComponentValue::Trim(_) => DataComponent::Trim,
        ComponentValue::DebugStickState(_) => DataComponent::DebugStickState,
        ComponentValue::EntityData(_) => DataComponent::EntityData,
        ComponentValue::BucketEntityData(_) => DataComponent::BucketEntityData,
        ComponentValue::BlockEntityData(_) => DataComponent::BlockEntityData,
        ComponentValue::Instrument(_) => DataComponent::Instrument,
        ComponentValue::ProvidesTrimMaterial(_) => DataComponent::ProvidesTrimMaterial,
        ComponentValue::OminousBottleAmplifier(_) => DataComponent::OminousBottleAmplifier,
        ComponentValue::JukeboxPlayable(_) => DataComponent::JukeboxPlayable,
        ComponentValue::ProvidesBannerPatterns(_) => DataComponent::ProvidesBannerPatterns,
        ComponentValue::Recipes(_) => DataComponent::Recipes,
        ComponentValue::LodestoneTracker(_) => DataComponent::LodestoneTracker,
        ComponentValue::FireworkExplosion(_) => DataComponent::FireworkExplosion,
        ComponentValue::Fireworks(_) => DataComponent::Fireworks,
        ComponentValue::Profile(_) => DataComponent::Profile,
        ComponentValue::NoteBlockSound(_) => DataComponent::NoteBlockSound,
        ComponentValue::BannerPatterns(_) => DataComponent::BannerPatterns,
        ComponentValue::BaseColor(_) => DataComponent::BaseColor,
        ComponentValue::PotDecorations(_) => DataComponent::PotDecorations,
        ComponentValue::Container(_) => DataComponent::Container,
        ComponentValue::BlockState(_) => DataComponent::BlockState,
        ComponentValue::Bees(_) => DataComponent::Bees,
        ComponentValue::SulfurCubeContent(_) => DataComponent::SulfurCubeContent,
        ComponentValue::Lock(_) => DataComponent::Lock,
        ComponentValue::ContainerLoot(_) => DataComponent::ContainerLoot,
        ComponentValue::BreakSound(_) => DataComponent::BreakSound,
        ComponentValue::VillagerVariant(_) => DataComponent::VillagerVariant,
        ComponentValue::WolfVariant(_) => DataComponent::WolfVariant,
        ComponentValue::WolfSoundVariant(_) => DataComponent::WolfSoundVariant,
        ComponentValue::WolfCollar(_) => DataComponent::WolfCollar,
        ComponentValue::FoxVariant(_) => DataComponent::FoxVariant,
        ComponentValue::SalmonSize(_) => DataComponent::SalmonSize,
        ComponentValue::ParrotVariant(_) => DataComponent::ParrotVariant,
        ComponentValue::TropicalFishPattern(_) => DataComponent::TropicalFishPattern,
        ComponentValue::TropicalFishBaseColor(_) => DataComponent::TropicalFishBaseColor,
        ComponentValue::TropicalFishPatternColor(_) => DataComponent::TropicalFishPatternColor,
        ComponentValue::MooshroomVariant(_) => DataComponent::MooshroomVariant,
        ComponentValue::RabbitVariant(_) => DataComponent::RabbitVariant,
        ComponentValue::PigVariant(_) => DataComponent::PigVariant,
        ComponentValue::PigSoundVariant(_) => DataComponent::PigSoundVariant,
        ComponentValue::CowVariant(_) => DataComponent::CowVariant,
        ComponentValue::CowSoundVariant(_) => DataComponent::CowSoundVariant,
        ComponentValue::ChickenVariant(_) => DataComponent::ChickenVariant,
        ComponentValue::ChickenSoundVariant(_) => DataComponent::ChickenSoundVariant,
        ComponentValue::ZombieNautilusVariant(_) => DataComponent::ZombieNautilusVariant,
        ComponentValue::FrogVariant(_) => DataComponent::FrogVariant,
        ComponentValue::HorseVariant(_) => DataComponent::HorseVariant,
        ComponentValue::PaintingVariant(_) => DataComponent::PaintingVariant,
        ComponentValue::LlamaVariant(_) => DataComponent::LlamaVariant,
        ComponentValue::AxolotlVariant(_) => DataComponent::AxolotlVariant,
        ComponentValue::CatVariant(_) => DataComponent::CatVariant,
        ComponentValue::CatSoundVariant(_) => DataComponent::CatSoundVariant,
        ComponentValue::CatCollar(_) => DataComponent::CatCollar,
        ComponentValue::SheepColor(_) => DataComponent::SheepColor,
        ComponentValue::ShulkerColor(_) => DataComponent::ShulkerColor,
    }
}

impl ComponentValue {
    /// Which component the value belongs to.
    pub fn get_self_enum(&self) -> (r: DataComponent)
        ensures
            r == value_kind(*self),
    {
        match self {
            ComponentValue::CustomData(_) => DataComponent::CustomData,
            ComponentValue::MaxStackSize(_) => DataComponent::MaxStackSize,
            ComponentValue::MaxDamage(_) => DataComponent::MaxDamage,
            ComponentValue::Damage(_) => DataComponent::Damage,
            ComponentValue::Unbreakable(_) => DataComponent::Unbreakable,
            ComponentValue::UseEffects(_) => DataComponent::UseEffects,
            ComponentValue::CustomName(_) => DataComponent::CustomName,
            ComponentValue::MinimumAttackCharge(_) => DataComponent::MinimumAttackCharge,
            ComponentValue::DamageType(_) => DataComponent::DamageType,
            ComponentValue::ItemName(_) => DataComponent::ItemName,
            ComponentValue::ItemModel(_) => DataComponent::ItemModel,
            ComponentValue::Lore(_) => DataComponent::Lore,
            ComponentValue::Rarity(_) => DataComponent::Rarity,
            ComponentValue::Enchantments(_) => DataComponent::Enchantments,
            ComponentValue::CanPlaceOn(_) => DataComponent::CanPlaceOn,
            ComponentValue::CanBreak(_) => DataComponent::CanBreak,
            ComponentValue::AttributeModifiers(_) => DataComponent::AttributeModifiers,
            ComponentValue::CustomModelData(_) => DataComponent::CustomModelData,
            ComponentValue::TooltipDisplay(_) => DataComponent::TooltipDisplay,
            ComponentValue::RepairCost(_) => DataComponent::RepairCost,
            ComponentValue::CreativeSlotLock(_) => DataComponent::CreativeSlotLock,
            ComponentValue::EnchantmentGlintOverride(_) => DataComponent::EnchantmentGlintOverride,
            ComponentValue::IntangibleProjectile(_) => DataComponent::IntangibleProjectile,
            ComponentValue::Food(_) => DataComponent::Food,
            ComponentValue::Consumable(_) => DataComponent::Consumable,
            ComponentValue::UseRemainder(_) => DataComponent::UseRemainder,
            ComponentValue::UseCooldown(_) => DataComponent::UseCooldown,
            ComponentValue::DamageResistant(_) => DataComponent::DamageResistant,
            ComponentValue::Tool(_) => DataComponent::Tool,
            ComponentValue::Weapon(_) => DataComponent::Weapon,
            ComponentValue::AttackRange(_) => DataComponent::AttackRange,
            ComponentValue::Enchantable(_) => DataComponent::Enchantable,
            ComponentValue::Equippable(_) => DataComponent::Equippable,
            ComponentValue::Repairable(_) => DataComponent::Repairable,
            ComponentValue::Glider(_) => DataComponent::Glider,
            ComponentValue::TooltipStyle(_) => DataComponent::TooltipStyle,
            ComponentValue::DeathProtection(_) => DataComponent::DeathProtection,
            ComponentValue::BlocksAttacks(_) => DataComponent::BlocksAttacks,
            ComponentValue::PiercingWeapon(_) => DataComponent::PiercingWeapon,
            ComponentValue::KineticWeapon(_) => DataComponent::KineticWeapon,
            ComponentValue::SwingAnimation(_) => DataComponent::SwingAnimation,
            ComponentValue::AdditionalTradeCost(_) => DataComponent::AdditionalTradeCost,
            ComponentValue::StoredEnchantments(_) => DataComponent::StoredEnchantments,
            ComponentValue::Dye(_) => DataComponent::Dye,
            ComponentValue::DyedColor(_) => DataComponent::DyedColor,
            ComponentValue::MapColor(_) => DataComponent::MapColor,
            ComponentValue::MapId(_) => DataComponent::MapId,
            ComponentValue::MapDecorations(_) => DataComponent::MapDecorations,
            ComponentValue::MapPostProcessing(_) => DataComponent::MapPostProcessing,
            ComponentValue::ChargedProjectiles(_) => DataComponent::ChargedProjectiles,
            ComponentValue::BundleContents(_) => DataComponent::BundleContents,
            ComponentValue::PotionContents(_) => DataComponent::PotionContents,
            ComponentValue::PotionDurationScale(_) => DataComponent::PotionDurationScale,
            ComponentValue::SuspiciousStewEffects(_) => DataComponent::SuspiciousStewEffects,
            ComponentValue::WritableBookContent(_) => DataComponent::WritableBookContent,
            ComponentValue::WrittenBookContent(_) => DataComponent::WrittenBookContent,
            ComponentValue::Trim(_) => DataComponent::Trim,
            ComponentValue::DebugStickState(_) => DataComponent::DebugStickState,
            ComponentValue::EntityData(_) => DataComponent::EntityData,
            ComponentValue::BucketEntityData(_) => DataComponent::BucketEntityData,
            ComponentValue::BlockEntityData(_) => DataComponent::BlockEntityData,
            ComponentValue::Instrument(_) => DataComponent::Instrument,
            ComponentValue::ProvidesTrimMaterial(_) => DataComponent::ProvidesTrimMaterial,
            ComponentValue::OminousBottleAmplifier(_) => DataComponent::OminousBottleAmplifier,
            ComponentValue::JukeboxPlayable(_) => DataComponent::JukeboxPlayable,
            ComponentValue::ProvidesBannerPatterns(_) => DataComponent::ProvidesBannerPatterns,
            ComponentValue::Recipes(_) => DataComponent::Recipes,
            ComponentValue::LodestoneTracker(_) => DataComponent::LodestoneTracker,
            ComponentValue::FireworkExplosion(_) => DataComponent::FireworkExplosion,
            ComponentValue::Fireworks(_) => DataComponent::Fireworks,
            ComponentValue::Profile(_) => DataComponent::Profile,
            ComponentValue::NoteBlockSound(_) => DataComponent::NoteBlockSound,
            ComponentValue::BannerPatterns(_) => DataComponent::BannerPatterns,
            ComponentValue::BaseColor(_) => DataComponent::BaseColor,
            ComponentValue::PotDecorations(_) => DataComponent::PotDecorations,
            ComponentValue::Container(_) => DataComponent::Container,
            ComponentValue::BlockState(_) => DataComponent::BlockState,
            ComponentValue::Bees(_) => DataComponent::Bees,
            ComponentValue::SulfurCubeContent(_) => DataComponent::SulfurCubeContent,
            ComponentValue::Lock(_) => DataComponent::Lock,
            ComponentValue::ContainerLoot(_) => DataComponent::ContainerLoot,
            ComponentValue::BreakSound(_) => DataComponent::BreakSound,
            ComponentValue::VillagerVariant(_) => DataComponent::VillagerVariant,
            ComponentValue::WolfVariant(_) => DataComponent::WolfVariant,
            ComponentValue::WolfSoundVariant(_) => DataComponent::WolfSoundVariant,
            ComponentValue::WolfCollar(_) => DataComponent::WolfCollar,
            ComponentValue::FoxVariant(_) => DataComponent::FoxVariant,
            ComponentValue::SalmonSize(_) => DataComponent::SalmonSize,
            ComponentValue::ParrotVariant(_) => DataComponent::ParrotVariant,
            ComponentValue::TropicalFishPattern(_) => DataComponent::TropicalFishPattern,
            ComponentValue::TropicalFishBaseColor(_) => DataComponent::TropicalFishBaseColor,
            ComponentValue::TropicalFishPatternColor(_) => DataComponent::TropicalFishPatternColor,
            ComponentValue::MooshroomVariant(_) => DataComponent::MooshroomVariant,
            ComponentValue::RabbitVariant(_) => DataComponent::RabbitVariant,
            ComponentValue::PigVariant(_) => DataComponent::PigVariant,
            ComponentValue::PigSoundVariant(_) => DataComponent::PigSoundVariant,
            ComponentValue::CowVariant(_) => DataComponent::CowVariant,
            ComponentValue::CowSoundVariant(_) => DataComponent::CowSoundVariant,
            ComponentValue::ChickenVariant(_) => DataComponent::ChickenVariant,
            ComponentValue::ChickenSoundVariant(_) => DataComponent::ChickenSoundVariant,
            ComponentValue::ZombieNautilusVariant(_) => DataComponent::ZombieNautilusVariant,
            ComponentValue::FrogVariant(_) => DataComponent::FrogVariant,
            ComponentValue::HorseVariant(_) => DataComponent::HorseVariant,
            ComponentValue::PaintingVariant(_) => DataComponent::PaintingVariant,
            ComponentValue::LlamaVariant(_) => DataComponent::LlamaVariant,
            ComponentValue::AxolotlVariant(_) => DataComponent::AxolotlVariant,
            ComponentValue::CatVariant(_) => DataComponent::CatVariant,
            ComponentValue::CatSoundVariant(_) => DataComponent::CatSoundVariant,
            ComponentValue::CatCollar(_) => DataComponent::CatCollar,
            ComponentValue::SheepColor(_) => DataComponent::SheepColor,
            ComponentValue::ShulkerColor(_) => DataComponent::ShulkerColor,
        }
    }
}

/// The type of the values of one component.
pub trait DataComponentImpl: Sized {
    /// The component.
    spec fn component() -> DataComponent;

    /// A value among those of all components.
    spec fn wrap(self) -> ComponentValue;

    /// The component.
    fn get_enum() -> (r: DataComponent)
        ensures
            r == Self::component(),
    ;

    /// A value among those of all components.
    fn to_dyn(self) -> (r: ComponentValue)
        ensures
            r == self.wrap(),
            value_kind(r) == Self::component(),
    ;

    /// The value, where it is one of this component.
    fn of(v: &ComponentValue) -> (r: Option<&Self>)
        ensures
            match r {
                Some(x) => *v == x.wrap() && value_kind(*v) == Self::component(),
                None => value_kind(*v) != Self::component(),
            },
    ;
}

impl DataComponentImpl for CustomDataImpl {
    open spec fn component() -> DataComponent {
        DataComponent::CustomData
    }

    open spec fn wrap(self) -> ComponentValue {
        ComponentValue::CustomData(self)
    }

    fn get_enum() -> (r: DataComponent) {
        DataComponent::CustomData
    }

    fn to_dyn(self) -> (r: ComponentValue) {
        ComponentValue::CustomData(self)
    }

    fn of(v: &ComponentValue) -> (r: Option<&Self>) {
        match v {
            ComponentValue::CustomData(x) => Some(x),
            _ => None,
        }
    }
}

impl DataComponentImpl for MaxStackSizeImpl {
    open spec fn component() -> DataComponent {
        DataComponent::MaxStackSize
    }

    open spec fn wrap(self) -> ComponentValue {
        ComponentValue::MaxStackSize(self)
    }

    fn get_enum() -> (r: DataComponent) {
        DataComponent::MaxStackSize
    }

    fn to_dyn(self) -> (r: ComponentValue) {
        ComponentValue::MaxStackSize(self)
    }

    fn of(v: &ComponentValue) -> (r: Option<&Self>) {
        match v {
            ComponentValue::MaxStackSize(x) => Some(x),
            _ => None,
        }
    }
}

impl DataComponentImpl for MaxDamageImpl {
    open spec fn component() -> DataComponent {
        DataComponent::MaxDamage
    }

    open spec fn wrap(self) -> ComponentValue {
        ComponentValue::MaxDamage(self)
    }

    fn get_enum() -> (r: DataComponent) {
        DataComponent::MaxDamage
    }

    fn to_dyn(self) -> (r: ComponentValue) {
        ComponentValue::MaxDamage(self)
    }

    fn of(v: &ComponentValue) -> (r: Option<&Self>) {
        match v {
            ComponentValue::MaxDamage(x) => Some(x),
            _ => None,
        }
    }
}

impl DataComponentImpl for DamageImpl {
    open spec fn component() -> DataComponent {
        DataComponent::Damage
    }

    open spec fn wrap(self) -> ComponentValue {
        ComponentValue::Damage(self)
    }

    fn get_enum() -> (r: DataComponent) {
        DataComponent::Damage
    }

    fn to_dyn(self) -> (r: ComponentValue) {
        ComponentValue::Damage(self)
    }

    fn of(v: &ComponentValue) -> (r: Option<&Self>) {
        match v {
            ComponentValue::Damage(x) => Some(x),
            _ => None,
        }
    }
}

impl DataComponentImpl for UnbreakableImpl {
    open spec fn component() -> DataComponent {
        DataComponent::Unbreakable
    }

    open spec fn wrap(self) -> ComponentValue {
        ComponentValue::Unbreakable(self)
    }

    fn get_enum() -> (r: DataComponent) {
        DataComponent::Unbreakable
    }

    fn to_dyn(self) -> (r: ComponentValue) {
        ComponentValue::Unbreakable(self)
    }

    fn of(v: &ComponentValue) -> (r: Option<&Self>) {
        match v {
            ComponentValue::Unbreakable(x) => Some(x),
            _ => None,
        }
    }
}

impl DataComponentImpl for UseEffectsImpl {
    open spec fn component() -> DataComponent {
        DataComponent::UseEffects
    }

    open spec fn wrap(self) -> ComponentValue {
        ComponentValue::UseEffects(self)
    }

    fn get_enum() -> (r: DataComponent) {
        DataComponent::UseEffects
    }

    fn to_dyn(self) -> (r: ComponentValue) {
        ComponentValue::UseEffects(self)
    }

    fn of(v: &ComponentValue) -> (r: Option<&Self>) {
        match v {
            ComponentValue::UseEffects(x) => Some(x),
            _ => None,
        }
    }
}

impl DataComponentImpl for CustomNameImpl {
    open spec fn component() -> DataComponent {
        DataComponent::CustomName
    }

    open spec fn wrap(self) -> ComponentValue {
        ComponentValue::CustomName(self)
    }

    fn get_enum() -> (r: DataComponent) {
        DataComponent::CustomName
    }

    fn to_dyn(self) -> (r: ComponentValue) {
        ComponentValue::CustomName(self)
    }

    fn of(v: &ComponentValue) -> (r: Option<&Self>) {
        match v {
            ComponentValue::CustomName(x) => Some(x),
            _ => None,
        }
    }
}

impl DataComponentImpl for MinimumAttackChargeImpl {
    open spec fn component() -> DataComponent {
        DataComponent::MinimumAttackCharge
    }

    open spec fn wrap(self) -> ComponentValue {
        ComponentValue::MinimumAttackCharge(self)
    }

    fn get_enum() -> (r: DataComponent) {
        DataComponent::MinimumAttackCharge
    }

    fn to_dyn(self) -> (r: ComponentValue) {
        ComponentValue::MinimumAttackCharge(self)
    }

    fn of(v: &ComponentValue) -> (r: Option<&Self>) {
        match v {
            ComponentValue::MinimumAttackCharge(x) => Some(x),
            _ => None,
        }
    }
}

impl DataComponentImpl for DamageTypeImpl {
    open spec fn component() -> DataComponent {
        DataComponent::DamageType
    }

    open spec fn wrap(self) -> ComponentValue {
        ComponentValue::DamageType(self)
    }

    fn get_enum() -> (r: DataComponent) {
        DataComponent::DamageType
    }

    fn to_dyn(self) -> (r: ComponentValue) {
        ComponentValue::DamageType(self)
    }

    fn of(v: &ComponentValue) -> (r: Option<&Self>) {
        match v {
            ComponentValue::DamageType(x) => Some(x),
            _ => None,
        }
    }
}

impl DataComponentImpl for ItemNameImpl {
    open spec fn component() -> DataComponent {
        DataComponent::ItemName
    }

    open spec fn wrap(self) -> ComponentValue {
        ComponentValue::ItemName(self)
    }

    fn get_enum() -> (r: DataComponent) {
        DataComponent::ItemName
    }

    fn to_dyn(self) -> (r: ComponentValue) {
        ComponentValue::ItemName(self)
    }

    fn of(v: &ComponentValue) -> (r: Option<&Self>) {
        match v {
            ComponentValue::ItemName(x) => Some(x),
            _ => None,
        }
    }
}

impl DataComponentImpl for ItemModelImpl {
    open spec fn component() -> DataComponent {
        DataComponent::ItemModel
    }

    open spec fn wrap(self) -> ComponentValue {
        ComponentValue::ItemModel(self)
    }

    fn get_enum() -> (r: DataComponent) {
        DataComponent::ItemModel
    }

    fn to_dyn(self) -> (r: ComponentValue) {
        ComponentValue::ItemModel(self)
    }

    fn of(v: &ComponentValue) -> (r: Option<&Self>) {
        match v {
            ComponentValue::ItemModel(x) => Some(x),
            _ => None,
        }
    }
}

impl DataComponentImpl for LoreImpl {
    open spec fn component() -> DataComponent {
        DataComponent::Lore
    }

    open spec fn wrap(self) -> ComponentValue {
        ComponentValue::Lore(self)
    }

    fn get_enum() -> (r: DataComponent) {
        DataComponent::Lore
    }

    fn to_dyn(self) -> (r: ComponentValue) {
        ComponentValue::Lore(self)
    }

    fn of(v: &ComponentValue) -> (r: Option<&Self>) {
        match v {
            ComponentValue::Lore(x) => Some(x),
            _ => None,
        }
    }
}

impl DataComponentImpl for RarityImpl {
    open spec fn component() -> DataComponent {
        DataComponent::Rarity
    }

    open spec fn wrap(self) -> ComponentValue {
        ComponentValue::Rarity(self)
    }

    fn get_enum() -> (r: DataComponent) {
        DataComponent::Rarity
    }

    fn to_dyn(self) -> (r: ComponentValue) {
        ComponentValue::Rarity(self)
    }

    fn of(v: &ComponentValue) -> (r: Option<&Self>) {
        match v {
            ComponentValue::Rarity(x) => Some(x),
            _ => None,
        }
    }
}

impl DataComponentImpl for EnchantmentsImpl {
    open spec fn component() -> DataComponent {
        DataComponent::Enchantments
    }

    open spec fn wrap(self) -> ComponentValue {
        ComponentValue::Enchantments(self)
    }

    fn get_enum() -> (r: DataComponent) {
        DataComponent::Enchantments
    }

    fn to_dyn(self) -> (r: ComponentValue) {
        ComponentValue::Enchantments(self)
    }

    fn of(v: &ComponentValue) -> (r: Option<&Self>) {
        match v {
            ComponentValue::Enchantments(x) => Some(x),
            _ => None,
        }
    }
}

impl DataComponentImpl for CanPlaceOnImpl {
    open spec fn component() -> DataComponent {
        DataComponent::CanPlaceOn
    }

    open spec fn wrap(self) -> ComponentValue {
        ComponentValue::CanPlaceOn(self)
    }

    fn get_enum() -> (r: DataComponent) {
        DataComponent::CanPlaceOn
    }

    fn to_dyn(self) -> (r: ComponentValue) {
        ComponentValue::CanPlaceOn(self)
    }

    fn of(v: &ComponentValue) -> (r: Option<&Self>) {
        match v {
            ComponentValue::CanPlaceOn(x) => Some(x),
            _ => None,
        }
    }
}

impl DataComponentImpl for CanBreakImpl {
    open spec fn component() -> DataComponent {
        DataComponent::CanBreak
    }

    open spec fn wrap(self) -> ComponentValue {
        ComponentValue::CanBreak(self)
    }

    fn get_enum() -> (r: DataComponent) {
        DataComponent::CanBreak
    }

    fn to_dyn(self) -> (r: ComponentValue) {
        ComponentValue::CanBreak(self)
    }

    fn of(v: &ComponentValue) -> (r: Option<&Self>) {
        match v {
            ComponentValue::CanBreak(x) => Some(x),
            _ => None,
        }
    }
}

impl DataComponentImpl for AttributeModifiersImpl {
    open spec fn component() -> DataComponent {
        DataComponent::AttributeModifiers
    }

    open spec fn wrap(self) -> ComponentValue {
        ComponentValue::AttributeModifiers(self)
    }

    fn get_enum() -> (r: DataComponent) {
        DataComponent::AttributeModifiers
    }

    fn to_dyn(self) -> (r: ComponentValue) {
        ComponentValue::AttributeModifiers(self)
    }

    fn of(v: &ComponentValue) -> (r: Option<&Self>) {
        match v {
            ComponentValue::AttributeModifiers(x) => Some(x),
            _ => None,
        }
    }
}

impl DataComponentImpl for CustomModelDataImpl {
    open spec fn component() -> DataComponent {
        DataComponent::CustomModelData
    }

    open spec fn wrap(self) -> ComponentValue {
        ComponentValue::CustomModelData(self)
    }

    fn get_enum() -> (r: DataComponent) {
        DataComponent::CustomModelData
    }

    fn to_dyn(self) -> (r: ComponentValue) {
        ComponentValue::CustomModelData(self)
    }

    fn of(v: &ComponentValue) -> (r: Option<&Self>) {
        match v {
            ComponentValue::CustomModelData(x) => Some(x),
            _ => None,
        }
    }
}

impl DataComponentImpl for TooltipDisplayImpl {
    open spec fn component() -> DataComponent {
        DataComponent::TooltipDisplay
    }

    open spec fn wrap(self) -> ComponentValue {
        ComponentValue::TooltipDisplay(self)
    }

    fn get_enum() -> (r: DataComponent) {
        DataComponent::TooltipDisplay
    }

    fn to_dyn(self) -> (r: ComponentValue) {
        ComponentValue::TooltipDisplay(self)
    }

    fn of(v: &ComponentValue) -> (r: Option<&Self>) {
        match v {
            ComponentValue::TooltipDisplay(x) => Some(x),
            _ => None,
        }
    }
}

impl DataComponentImpl for RepairCostImpl {
    open spec fn component() -> DataComponent {
        DataComponent::RepairCost
    }

    open spec fn wrap(self) -> ComponentValue {
        ComponentValue::RepairCost(self)
    }

    fn get_enum() -> (r: DataComponent) {
        DataComponent::RepairCost
    }

    fn to_dyn(self) -> (r: ComponentValue) {
        ComponentValue::RepairCost(self)
    }

    fn of(v: &ComponentValue) -> (r: Option<&Self>) {
        match v {
            ComponentValue::RepairCost(x) => Some(x),
            _ => None,
        }
    }
}

impl DataComponentImpl for CreativeSlotLockImpl {
    open spec fn component() -> DataComponent {
        DataComponent::CreativeSlotLock
    }

    open spec fn wrap(self) -> ComponentValue {
        ComponentValue::CreativeSlotLock(self)
    }

    fn get_enum() -> (r: DataComponent) {
        DataComponent::CreativeSlotLock
    }

    fn to_dyn(self) -> (r: ComponentValue) {
        ComponentValue::CreativeSlotLock(self)
    }

    fn of(v: &ComponentValue) -> (r: Option<&Self>) {
        match v {
            ComponentValue::CreativeSlotLock(x) => Some(x),
            _ => None,
        }
    }
}

impl DataComponentImpl for EnchantmentGlintOverrideImpl {
    open spec fn component() -> DataComponent {
        DataComponent::EnchantmentGlintOverride
    }

    open spec fn wrap(self) -> ComponentValue {
        ComponentValue::EnchantmentGlintOverride(self)
    }

    fn get_enum() -> (r: DataComponent) {
        DataComponent::EnchantmentGlintOverride
    }

    fn to_dyn(self) -> (r: ComponentValue) {
        ComponentValue::EnchantmentGlintOverride(self)
    }

    fn of(v: &ComponentValue) -> (r: Option<&Self>) {
        match v {
            ComponentValue::EnchantmentGlintOverride(x) => Some(x),
            _ => None,
        }
    }
}

impl DataComponentImpl for IntangibleProjectileImpl {
    open spec fn component() -> DataComponent {
        DataComponent::IntangibleProjectile
    }

    open spec fn wrap(self) -> ComponentValue {
        ComponentValue::IntangibleProjectile(self)
    }

    fn get_enum() -> (r: DataComponent) {
        DataComponent::IntangibleProjectile
    }

    fn to_dyn(self) -> (r: ComponentValue) {
        ComponentValue::IntangibleProjectile(self)
    }

    fn of(v: &ComponentValue) -> (r: Option<&Self>) {
        match v {
            ComponentValue::IntangibleProjectile(x) => Some(x),
            _ => None,
        }
    }
}

impl DataComponentImpl for FoodImpl {
    open spec fn component() -> DataComponent {
        DataComponent::Food
    }

    open spec fn wrap(self) -> ComponentValue {
        ComponentValue::Food(self)
    }

    fn get_enum() -> (r: DataComponent) {
        DataComponent::Food
    }

    fn to_dyn(self) -> (r: ComponentValue) {
        ComponentValue::Food(self)
    }

    fn of(v: &ComponentValue) -> (r: Option<&Self>) {
        match v {
            ComponentValue::Food(x) => Some(x),
            _ => None,
        }
    }
}

impl DataComponentImpl for ConsumableImpl {
    open spec fn component() -> DataComponent {
        DataComponent::Consumable
    }

    open spec fn wrap(self) -> ComponentValue {
        ComponentValue::Consumable(self)
    }

    fn get_enum() -> (r: DataComponent) {
        DataComponent::Consumable
    }

    fn to_dyn(self) -> (r: ComponentValue) {
        ComponentValue::Consumable(self)
    }

    fn of(v: &ComponentValue) -> (r: Option<&Self>) {
        match v {
            ComponentValue::Consumable(x) => Some(x),
            _ => None,
        }
    }
}

impl DataComponentImpl for UseRemainderImpl {
    open spec fn component() -> DataComponent {
        DataComponent::UseRemainder
    }

    open spec fn wrap(self) -> ComponentValue {
        ComponentValue::UseRemainder(self)
    }

    fn get_enum() -> (r: DataComponent) {
        DataComponent::UseRemainder
    }

    fn to_dyn(self) -> (r: ComponentValue) {
        ComponentValue::UseRemainder(self)
    }

    fn of(v: &ComponentValue) -> (r: Option<&Self>) {
        match v {
            ComponentValue::UseRemainder(x) => Some(x),
            _ => None,
        }
    }
}

impl DataComponentImpl for UseCooldownImpl {
    open spec fn component() -> DataComponent {
        DataComponent::UseCooldown
    }

    open spec fn wrap(self) -> ComponentValue {
        ComponentValue::UseCooldown(self)
    }

    fn get_enum() -> (r: DataComponent) {
        DataComponent::UseCooldown
    }

    fn to_dyn(self) -> (r: ComponentValue) {
        ComponentValue::UseCooldown(self)
    }

    fn of(v: &ComponentValue) -> (r: Option<&Self>) {
        match v {
            ComponentValue::UseCooldown(x) => Some(x),
            _ => None,
        }
    }
}

impl DataComponentImpl for DamageResistantImpl {
    open spec fn component() -> DataComponent {
        DataComponent::DamageResistant
    }

    open spec fn wrap(self) -> ComponentValue {
        ComponentValue::DamageResistant(self)
    }

    fn get_enum() -> (r: DataComponent) {
        DataComponent::DamageResistant
    }

    fn to_dyn(self) -> (r: ComponentValue) {
        ComponentValue::DamageResistant(self)
    }

    fn of(v: &ComponentValue) -> (r: Option<&Self>) {
        match v {
            ComponentValue::DamageResistant(x) => Some(x),
            _ => None,
        }
    }
}

impl DataComponentImpl for ToolImpl {
    open spec fn component() -> DataComponent {
        DataComponent::Tool
    }

    open spec fn wrap(self) -> ComponentValue {
        ComponentValue::Tool(self)
    }

    fn get_enum() -> (r: DataComponent) {
        DataComponent::Tool
    }

    fn to_dyn(self) -> (r: ComponentValue) {
        ComponentValue::Tool(self)
    }

    fn of(v: &ComponentValue) -> (r: Option<&Self>) {
        match v {
            ComponentValue::Tool(x) => Some(x),
            _ => None,
        }
    }
}

impl DataComponentImpl for WeaponImpl {
    open spec fn component() -> DataComponent {
        DataComponent::Weapon
    }

    open spec fn wrap(self) -> ComponentValue {
        ComponentValue::Weapon(self)
    }

    fn get_enum() -> (r: DataComponent) {
        DataComponent::Weapon
    }

    fn to_dyn(self) -> (r: ComponentValue) {
        ComponentValue::Weapon(self)
    }

    fn of(v: &ComponentValue) -> (r: Option<&Self>) {
        match v {
            ComponentValue::Weapon(x) => Some(x),
            _ => None,
        }
    }
}

impl DataComponentImpl for AttackRangeImpl {
    open spec fn component() -> DataComponent {
        DataComponent::AttackRange
    }

    open spec fn wrap(self) -> ComponentValue {
        ComponentValue::AttackRange(self)
    }

    fn get_enum() -> (r: DataComponent) {
        DataComponent::AttackRange
    }

    fn to_dyn(self) -> (r: ComponentValue) {
        ComponentValue::AttackRange(self)
    }

    fn of(v: &ComponentValue) -> (r: Option<&Self>) {
        match v {
            ComponentValue::AttackRange(x) => Some(x),
            _ => None,
        }
    }
}

impl DataComponentImpl for EnchantableImpl {
    open spec fn component() -> DataComponent {
        DataComponent::Enchantable
    }

    open spec fn wrap(self) -> ComponentValue {
        ComponentValue::Enchantable(self)
    }

    fn get_enum() -> (r: DataComponent) {
        DataComponent::Enchantable
    }

    fn to_dyn(self) -> (r: ComponentValue) {
        ComponentValue::Enchantable(self)
    }

    fn of(v: &ComponentValue) -> (r: Option<&Self>) {
        match v {
            ComponentValue::Enchantable(x) => Some(x),
            _ => None,
        }
    }
}

impl DataComponentImpl for EquippableImpl {
    open spec fn component() -> DataComponent {
        DataComponent::Equippable
    }

    open spec fn wrap(self) -> ComponentValue {
        ComponentValue::Equippable(self)
    }

    fn get_enum() -> (r: DataComponent) {
        DataComponent::Equippable
    }

    fn to_dyn(self) -> (r: ComponentValue) {
        ComponentValue::Equippable(self)
    }

    fn of(v: &ComponentValue) -> (r: Option<&Self>) {
        match v {
            ComponentValue::Equippable(x) => Some(x),
            _ => None,
        }
    }
}

impl DataComponentImpl for RepairableImpl {
    open spec fn component() -> DataComponent {
        DataComponent::Repairable
    }

    open spec fn wrap(self) -> ComponentValue {
        ComponentValue::Repairable(self)
    }

    fn get_enum() -> (r: DataComponent) {
        DataComponent::Repairable
    }

    fn to_dyn(self) -> (r: ComponentValue) {
        ComponentValue::Repairable(self)
    }

    fn of(v: &ComponentValue) -> (r: Option<&Self>) {
        match v {
            ComponentValue::Repairable(x) => Some(x),
            _ => None,
        }
    }
}

impl DataComponentImpl for GliderImpl {
    open spec fn component() -> DataComponent {
        DataComponent::Glider
    }

    open spec fn wrap(self) -> ComponentValue {
        ComponentValue::Glider(self)
    }

    fn get_enum() -> (r: DataComponent) {
        DataComponent::Glider
    }

    fn to_dyn(self) -> (r: ComponentValue) {
        ComponentValue::Glider(self)
    }

    fn of(v: &ComponentValue) -> (r: Option<&Self>) {
        match v {
            ComponentValue::Glider(x) => Some(x),
            _ => None,
        }
    }
}

impl DataComponentImpl for TooltipStyleImpl {
    open spec fn component() -> DataComponent {
        DataComponent::TooltipStyle
    }

    open spec fn wrap(self) -> ComponentValue {
        ComponentValue::TooltipStyle(self)
    }

    fn get_enum() -> (r: DataComponent) {
        DataComponent::TooltipStyle
    }

    fn to_dyn(self) -> (r: ComponentValue) {
        ComponentValue::TooltipStyle(self)
    }

    fn of(v: &ComponentValue) -> (r: Option<&Self>) {
        match v {
            ComponentValue::TooltipStyle(x) => Some(x),
            _ => None,
        }
    }
}

impl DataComponentImpl for DeathProtectionImpl {
    open spec fn component() -> DataComponent {
        DataComponent::DeathProtection
    }

    open spec fn wrap(self) -> ComponentValue {
        ComponentValue::DeathProtection(self)
    }

    fn get_enum() -> (r: DataComponent) {
        DataComponent::DeathProtection
    }

    fn to_dyn(self) -> (r: ComponentValue) {
        ComponentValue::DeathProtection(self)
    }

    fn of(v: &ComponentValue) -> (r: Option<&Self>) {
        match v {
            ComponentValue::DeathProtection(x) => Some(x),
            _ => None,
        }
    }
}

impl DataComponentImpl for BlocksAttacksImpl {
    open spec fn component() -> DataComponent {
        DataComponent::BlocksAttacks
    }

    open spec fn wrap(self) -> ComponentValue {
        ComponentValue::BlocksAttacks(self)
    }

    fn get_enum() -> (r: DataComponent) {
        DataComponent::BlocksAttacks
    }

    fn to_dyn(self) -> (r: ComponentValue) {
        ComponentValue::BlocksAttacks(self)
    }

    fn of(v: &ComponentValue) -> (r: Option<&Self>) {
        match v {
            ComponentValue::BlocksAttacks(x) => Some(x),
            _ => None,
        }
    }
}

impl DataComponentImpl for PiercingWeaponImpl {
    open spec fn component() -> DataComponent {
        DataComponent::PiercingWeapon
    }

    open spec fn wrap(self) -> ComponentValue {
        ComponentValue::PiercingWeapon(self)
    }

    fn get_enum() -> (r: DataComponent) {
        DataComponent::PiercingWeapon
    }

    fn to_dyn(self) -> (r: ComponentValue) {
        ComponentValue::PiercingWeapon(self)
    }

    fn of(v: &ComponentValue) -> (r: Option<&Self>) {
        match v {
            ComponentValue::PiercingWeapon(x) => Some(x),
            _ => None,
        }
    }
}

impl DataComponentImpl for KineticWeaponImpl {
    open spec fn component() -> DataComponent {
        DataComponent::KineticWeapon
    }

    open spec fn wrap(self) -> ComponentValue {
        ComponentValue::KineticWeapon(self)
    }

    fn get_enum() -> (r: DataComponent) {
        DataComponent::KineticWeapon
    }

    fn to_dyn(self) -> (r: ComponentValue) {
        ComponentValue::KineticWeapon(self)
    }

    fn of(v: &ComponentValue) -> (r: Option<&Self>) {
        match v {
            ComponentValue::KineticWeapon(x) => Some(x),
            _ => None,
        }
    }
}

impl DataComponentImpl for SwingAnimationImpl {
    open spec fn component() -> DataComponent {
        DataComponent::SwingAnimation
    }

    open spec fn wrap(self) -> ComponentValue {
        ComponentValue::SwingAnimation(self)
    }

    fn get_enum() -> (r: DataComponent) {
        DataComponent::SwingAnimation
    }

    fn to_dyn(self) -> (r: ComponentValue) {
        ComponentValue::SwingAnimation(self)
    }

    fn of(v: &ComponentValue) -> (r: Option<&Self>) {
        match v {
            ComponentValue::SwingAnimation(x) => Some(x),
            _ => None,
        }
    }
}

impl DataComponentImpl for AdditionalTradeCostImpl {
    open spec fn component() -> DataComponent {
        DataComponent::AdditionalTradeCost
    }

    open spec fn wrap(self) -> ComponentValue {
        ComponentValue::AdditionalTradeCost(self)
    }

    fn get_enum() -> (r: DataComponent) {
        DataComponent::AdditionalTradeCost
    }

    fn to_dyn(self) -> (r: ComponentValue) {
        ComponentValue::AdditionalTradeCost(self)
    }

    fn of(v: &ComponentValue) -> (r: Option<&Self>) {
        match v {
            ComponentValue::AdditionalTradeCost(x) => Some(x),
            _ => None,
        }
    }
}

impl DataComponentImpl for StoredEnchantmentsImpl {
    open spec fn component() -> DataComponent {
        DataComponent::StoredEnchantments
    }

    open spec fn wrap(self) -> ComponentValue {
        ComponentValue::StoredEnchantments(self)
    }

    fn get_enum() -> (r: DataComponent) {
        DataComponent::StoredEnchantments
    }

    fn to_dyn(self) -> (r: ComponentValue) {
        ComponentValue::StoredEnchantments(self)
    }

    fn of(v: &ComponentValue) -> (r: Option<&Self>) {
        match v {
            ComponentValue::StoredEnchantments(x) => Some(x),
            _ => None,
        }
    }
}

impl DataComponentImpl for DyeImpl {
    open spec fn component() -> DataComponent {
        DataComponent::Dye
    }

    open spec fn wrap(self) -> ComponentValue {
        ComponentValue::Dye(self)
    }

    fn get_enum() -> (r: DataComponent) {
        DataComponent::Dye
    }

    fn to_dyn(self) -> (r: ComponentValue) {
        ComponentValue::Dye(self)
    }

    fn of(v: &ComponentValue) -> (r: Option<&Self>) {
        match v {
            ComponentValue::Dye(x) => Some(x),
            _ => None,
        }
    }
}

impl DataComponentImpl for DyedColorImpl {
    open spec fn component() -> DataComponent {
        DataComponent::DyedColor
    }

    open spec fn wrap(self) -> ComponentValue {
        ComponentValue::DyedColor(self)
    }

    fn get_enum() -> (r: DataComponent) {
        DataComponent::DyedColor
    }

    fn to_dyn(self) -> (r: ComponentValue) {
        ComponentValue::DyedColor(self)
    }

    fn of(v: &ComponentValue) -> (r: Option<&Self>) {
        match v {
            ComponentValue::DyedColor(x) => Some(x),
            _ => None,
        }
    }
}

impl DataComponentImpl for MapColorImpl {
    open spec fn component() -> DataComponent {
        DataComponent::MapColor
    }

    open spec fn wrap(self) -> ComponentValue {
        ComponentValue::MapColor(self)
    }

    fn get_enum() -> (r: DataComponent) {
        DataComponent::MapColor
    }

    fn to_dyn(self) -> (r: ComponentValue) {
        ComponentValue::MapColor(self)
    }

    fn of(v: &ComponentValue) -> (r: Option<&Self>) {
        match v {
            ComponentValue::MapColor(x) => Some(x),
            _ => None,
        }
    }
}

impl DataComponentImpl for MapIdImpl {
    open spec fn component() -> DataComponent {
        DataComponent::MapId
    }

    open spec fn wrap(self) -> ComponentValue {
        ComponentValue::MapId(self)
    }

    fn get_enum() -> (r: DataComponent) {
        DataComponent::MapId
    }

    fn to_dyn(self) -> (r: ComponentValue) {
        ComponentValue::MapId(self)
    }

    fn of(v: &ComponentValue) -> (r: Option<&Self>) {
        match v {
            ComponentValue::MapId(x) => Some(x),
            _ => None,
        }
    }
}

impl DataComponentImpl for MapDecorationsImpl {
    open spec fn component() -> DataComponent {
        DataComponent::MapDecorations
    }

    open spec fn wrap(self) -> ComponentValue {
        ComponentValue::MapDecorations(self)
    }

    fn get_enum() -> (r: DataComponent) {
        DataComponent::MapDecorations
    }

    fn to_dyn(self) -> (r: ComponentValue) {
        ComponentValue::MapDecorations(self)
    }

    fn of(v: &ComponentValue) -> (r: Option<&Self>) {
        match v {
            ComponentValue::MapDecorations(x) => Some(x),
            _ => None,
        }
    }
}

impl DataComponentImpl for MapPostProcessingImpl {
    open spec fn component() -> DataComponent {
        DataComponent::MapPostProcessing
    }

    open spec fn wrap(self) -> ComponentValue {
        ComponentValue::MapPostProcessing(self)
    }

    fn get_enum() -> (r: DataComponent) {
        DataComponent::MapPostProcessing
    }

    fn to_dyn(self) -> (r: ComponentValue) {
        ComponentValue::MapPostProcessing(self)
    }

    fn of(v: &ComponentValue) -> (r: Option<&Self>) {
        match v {
            ComponentValue::MapPostProcessing(x) => Some(x),
            _ => None,
        }
    }
}

impl DataComponentImpl for ChargedProjectilesImpl {
    open spec fn component() -> DataComponent {
        DataComponent::ChargedProjectiles
    }

    open spec fn wrap(self) -> ComponentValue {
        ComponentValue::ChargedProjectiles(self)
    }

    fn get_enum() -> (r: DataComponent) {
        DataComponent::ChargedProjectiles
    }

    fn to_dyn(self) -> (r: ComponentValue) {
        ComponentValue::ChargedProjectiles(self)
    }

    fn of(v: &ComponentValue) -> (r: Option<&Self>) {
        match v {
            ComponentValue::ChargedProjectiles(x) => Some(x),
            _ => None,
        }
    }
}

impl DataComponentImpl for BundleContentsImpl {
    open spec fn component() -> DataComponent {
        DataComponent::BundleContents
    }

    open spec fn wrap(self) -> ComponentValue {
        ComponentValue::BundleContents(self)
    }

    fn get_enum() -> (r: DataComponent) {
        DataComponent::BundleContents
    }

    fn to_dyn(self) -> (r: ComponentValue) {
        ComponentValue::BundleContents(self)
    }

    fn of(v: &ComponentValue) -> (r: Option<&Self>) {
        match v {
            ComponentValue::BundleContents(x) => Some(x),
            _ => None,
        }
    }
}

impl DataComponentImpl for PotionContentsImpl {
    open spec fn component() -> DataComponent {
        DataComponent::PotionContents
    }

    open spec fn wrap(self) -> ComponentValue {
        ComponentValue::PotionContents(self)
    }

    fn get_enum() -> (r: DataComponent) {
        DataComponent::PotionContents
    }

    fn to_dyn(self) -> (r: ComponentValue) {
        ComponentValue::PotionContents(self)
    }

    fn of(v: &ComponentValue) -> (r: Option<&Self>) {
        match v {
            ComponentValue::PotionContents(x) => Some(x),
            _ => None,
        }
    }
}

impl DataComponentImpl for PotionDurationScaleImpl {
    open spec fn component() -> DataComponent {
        DataComponent::PotionDurationScale
    }

    open spec fn wrap(self) -> ComponentValue {
        ComponentValue::PotionDurationScale(self)
    }

    fn get_enum() -> (r: DataComponent) {
        DataComponent::PotionDurationScale
    }

    fn to_dyn(self) -> (r: ComponentValue) {
        ComponentValue::PotionDurationScale(self)
    }

    fn of(v: &ComponentValue) -> (r: Option<&Self>) {
        match v {
            ComponentValue::PotionDurationScale(x) => Some(x),
            _ => None,
        }
    }
}

impl DataComponentImpl for SuspiciousStewEffectsImpl {
    open spec fn component() -> DataComponent {
        DataComponent::SuspiciousStewEffects
    }

    open spec fn wrap(self) -> ComponentValue {
        ComponentValue::SuspiciousStewEffects(self)
    }

    fn get_enum() -> (r: DataComponent) {
        DataComponent::SuspiciousStewEffects
    }

    fn to_dyn(self) -> (r: ComponentValue) {
        ComponentValue::SuspiciousStewEffects(self)
    }

    fn of(v: &ComponentValue) -> (r: Option<&Self>) {
        match v {
            ComponentValue::SuspiciousStewEffects(x) => Some(x),
            _ => None,
        }
    }
}

impl DataComponentImpl for WritableBookContentImpl {
    open spec fn component() -> DataComponent {
        DataComponent::WritableBookContent
    }

    open spec fn wrap(self) -> ComponentValue {
        ComponentValue::WritableBookContent(self)
    }

    fn get_enum() -> (r: DataComponent) {
        DataComponent::WritableBookContent
    }

    fn to_dyn(self) -> (r: ComponentValue) {
        ComponentValue::WritableBookContent(self)
    }

    fn of(v: &ComponentValue) -> (r: Option<&Self>) {
        match v {
            ComponentValue::WritableBookContent(x) => Some(x),
            _ => None,
        }
    }
}

impl DataComponentImpl for WrittenBookContentImpl {
    open spec fn component() -> DataComponent {
        DataComponent::WrittenBookContent
    }

    open spec fn wrap(self) -> ComponentValue {
        ComponentValue::WrittenBookContent(self)
    }

    fn get_enum() -> (r: DataComponent) {
        DataComponent::WrittenBookContent
    }

    fn to_dyn(self) -> (r: ComponentValue) {
        ComponentValue::WrittenBookContent(self)
    }

    fn of(v: &ComponentValue) -> (r: Option<&Self>) {
        match v {
            ComponentValue::WrittenBookContent(x) => Some(x),
            _ => None,
        }
    }
}

impl DataComponentImpl for TrimImpl {
    open spec fn component() -> DataComponent {
        DataComponent::Trim
    }

    open spec fn wrap(self) -> ComponentValue {
        ComponentValue::Trim(self)
    }

    fn get_enum() -> (r: DataComponent) {
        DataComponent::Trim
    }

    fn to_dyn(self) -> (r: ComponentValue) {
        ComponentValue::Trim(self)
    }

    fn of(v: &ComponentValue) -> (r: Option<&Self>) {
        match v {
            ComponentValue::Trim(x) => Some(x),
            _ => None,
        }
    }
}

impl DataComponentImpl for DebugStickStateImpl {
    open spec fn component() -> DataComponent {
        DataComponent::DebugStickState
    }

    open spec fn wrap(self) -> ComponentValue {
        ComponentValue::DebugStickState(self)
    }

    fn get_enum() -> (r: DataComponent) {
        DataComponent::DebugStickState
    }

    fn to_dyn(self) -> (r: ComponentValue) {
        ComponentValue::DebugStickState(self)
    }

    fn of(v: &ComponentValue) -> (r: Option<&Self>) {
        match v {
            ComponentValue::DebugStickState(x) => Some(x),
            _ => None,
        }
    }
}

impl DataComponentImpl for EntityDataImpl {
    open spec fn component() -> DataComponent {
        DataComponent::EntityData
    }

    open spec fn wrap(self) -> ComponentValue {
        ComponentValue::EntityData(self)
    }

    fn get_enum() -> (r: DataComponent) {
        DataComponent::EntityData
    }

    fn to_dyn(self) -> (r: ComponentValue) {
        ComponentValue::EntityData(self)
    }

    fn of(v: &ComponentValue) -> (r: Option<&Self>) {
        match v {
            ComponentValue::EntityData(x) => Some(x),
            _ => None,
        }
    }
}

impl DataComponentImpl for BucketEntityDataImpl {
    open spec fn component() -> DataComponent {
        DataComponent::BucketEntityData
    }

    open spec fn wrap(self) -> ComponentValue {
        ComponentValue::BucketEntityData(self)
    }

    fn get_enum() -> (r: DataComponent) {
        DataComponent::BucketEntityData
    }

    fn to_dyn(self) -> (r: ComponentValue) {
        ComponentValue::BucketEntityData(self)
    }

    fn of(v: &ComponentValue) -> (r: Option<&Self>) {
        match v {
            ComponentValue::BucketEntityData(x) => Some(x),
            _ => None,
        }
    }
}

impl DataComponentImpl for BlockEntityDataImpl {
    open spec fn component() -> DataComponent {
        DataComponent::BlockEntityData
    }

    open spec fn wrap(self) -> ComponentValue {
        ComponentValue::BlockEntityData(self)
    }

    fn get_enum() -> (r: DataComponent) {
        DataComponent::BlockEntityData
    }

    fn to_dyn(self) -> (r: ComponentValue) {
        ComponentValue::BlockEntityData(self)
    }

    fn of(v: &ComponentValue) -> (r: Option<&Self>) {
        match v {
            ComponentValue::BlockEntityData(x) => Some(x),
            _ => None,
        }
    }
}

impl DataComponentImpl for InstrumentImpl {
    open spec fn component() -> DataComponent {
        DataComponent::Instrument
    }

    open spec fn wrap(self) -> ComponentValue {
        ComponentValue::Instrument(self)
    }

    fn get_enum() -> (r: DataComponent) {
        DataComponent::Instrument
    }

    fn to_dyn(self) -> (r: ComponentValue) {
        ComponentValue::Instrument(self)
    }

    fn of(v: &ComponentValue) -> (r: Option<&Self>) {
        match v {
            ComponentValue::Instrument(x) => Some(x),
            _ => None,
        }
    }
}

impl DataComponentImpl for ProvidesTrimMaterialImpl {
    open spec fn component() -> DataComponent {
        DataComponent::ProvidesTrimMaterial
    }

    open spec fn wrap(self) -> ComponentValue {
        ComponentValue::ProvidesTrimMaterial(self)
    }

    fn get_enum() -> (r: DataComponent) {
        DataComponent::ProvidesTrimMaterial
    }

    fn to_dyn(self) -> (r: ComponentValue) {
        ComponentValue::ProvidesTrimMaterial(self)
    }

    fn of(v: &ComponentValue) -> (r: Option<&Self>) {
        match v {
            ComponentValue::ProvidesTrimMaterial(x) => Some(x),
            _ => None,
        }
    }
}

impl DataComponentImpl for OminousBottleAmplifierImpl {
    open spec fn component() -> DataComponent {
        DataComponent::OminousBottleAmplifier
    }

    open spec fn wrap(self) -> ComponentValue {
        ComponentValue::OminousBottleAmplifier(self)
    }

    fn get_enum() -> (r: DataComponent) {
        DataComponent::OminousBottleAmplifier
    }

    fn to_dyn(self) -> (r: ComponentValue) {
        ComponentValue::OminousBottleAmplifier(self)
    }

    fn of(v: &ComponentValue) -> (r: Option<&Self>) {
        match v {
            ComponentValue::OminousBottleAmplifier(x) => Some(x),
            _ => None,
        }
    }
}

impl DataComponentImpl for JukeboxPlayableImpl {
    open spec fn component() -> DataComponent {
        DataComponent::JukeboxPlayable
    }

    open spec fn wrap(self) -> ComponentValue {
        ComponentValue::JukeboxPlayable(self)
    }

    fn get_enum() -> (r: DataComponent) {
        DataComponent::JukeboxPlayable
    }

    fn to_dyn(self) -> (r: ComponentValue) {
        ComponentValue::JukeboxPlayable(self)
    }

    fn of(v: &ComponentValue) -> (r: Option<&Self>) {
        match v {
            ComponentValue::JukeboxPlayable(x) => Some(x),
            _ => None,
        }
    }
}

impl DataComponentImpl for ProvidesBannerPatternsImpl {
    open spec fn component() -> DataComponent {
        DataComponent::ProvidesBannerPatterns
    }

    open spec fn wrap(self) -> ComponentValue {
        ComponentValue::ProvidesBannerPatterns(self)
    }

    fn get_enum() -> (r: DataComponent) {
        DataComponent::ProvidesBannerPatterns
    }

    fn to_dyn(self) -> (r: ComponentValue) {
        ComponentValue::ProvidesBannerPatterns(self)
    }

    fn of(v: &ComponentValue) -> (r: Option<&Self>) {
        match v {
            ComponentValue::ProvidesBannerPatterns(x) => Some(x),
            _ => None,
        }
    }
}

impl DataComponentImpl for RecipesImpl {
    open spec fn component() -> DataComponent {
        DataComponent::Recipes
    }

    open spec fn wrap(self) -> ComponentValue {
        ComponentValue::Recipes(self)
    }

    fn get_enum() -> (r: DataComponent) {
        DataComponent::Recipes
    }

    fn to_dyn(self) -> (r: ComponentValue) {
        ComponentValue::Recipes(self)
    }

    fn of(v: &ComponentValue) -> (r: Option<&Self>) {
        match v {
            ComponentValue::Recipes(x) => Some(x),
            _ => None,
        }
    }
}

impl DataComponentImpl for LodestoneTrackerImpl {
    open spec fn component() -> DataComponent {
        DataComponent::LodestoneTracker
    }

    open spec fn wrap(self) -> ComponentValue {
        ComponentValue::LodestoneTracker(self)
    }

    fn get_enum() -> (r: DataComponent) {
        DataComponent::LodestoneTracker
    }

    fn to_dyn(self) -> (r: ComponentValue) {
        ComponentValue::LodestoneTracker(self)
    }

    fn of(v: &ComponentValue) -> (r: Option<&Self>) {
        match v {
            ComponentValue::LodestoneTracker(x) => Some(x),
            _ => None,
        }
    }
}

impl DataComponentImpl for FireworkExplosionImpl {
    open spec fn component() -> DataComponent {
        DataComponent::FireworkExplosion
    }

    open spec fn wrap(self) -> ComponentValue {
        ComponentValue::FireworkExplosion(self)
    }

    fn get_enum() -> (r: DataComponent) {
        DataComponent::FireworkExplosion
    }

    fn to_dyn(self) -> (r: ComponentValue) {
        ComponentValue::FireworkExplosion(self)
    }

    fn of(v: &ComponentValue) -> (r: Option<&Self>) {
        match v {
            ComponentValue::FireworkExplosion(x) => Some(x),
            _ => None,
        }
    }
}

impl DataComponentImpl for FireworksImpl {
    open spec fn component() -> DataComponent {
        DataComponent::Fireworks
    }

    open spec fn wrap(self) -> ComponentValue {
        ComponentValue::Fireworks(self)
    }

    fn get_enum() -> (r: DataComponent) {
        DataComponent::Fireworks
    }

    fn to_dyn(self) -> (r: ComponentValue) {
        ComponentValue::Fireworks(self)
    }

    fn of(v: &ComponentValue) -> (r: Option<&Self>) {
        match v {
            ComponentValue::Fireworks(x) => Some(x),
            _ => None,
        }
    }
}

impl DataComponentImpl for ProfileImpl {
    open spec fn component() -> DataComponent {
        DataComponent::Profile
    }

    open spec fn wrap(self) -> ComponentValue {
        ComponentValue::Profile(self)
    }

    fn get_enum() -> (r: DataComponent) {
        DataComponent::Profile
    }

    fn to_dyn(self) -> (r: ComponentValue) {
        ComponentValue::Profile(self)
    }

    fn of(v: &ComponentValue) -> (r: Option<&Self>) {
        match v {
            ComponentValue::Profile(x) => Some(x),
            _ => None,
        }
    }
}

impl DataComponentImpl for NoteBlockSoundImpl {
    open spec fn component() -> DataComponent {
        DataComponent::NoteBlockSound
    }

    open spec fn wrap(self) -> ComponentValue {
        ComponentValue::NoteBlockSound(self)
    }

    fn get_enum() -> (r: DataComponent) {
        DataComponent::NoteBlockSound
    }

    fn to_dyn(self) -> (r: ComponentValue) {
        ComponentValue::NoteBlockSound(self)
    }

    fn of(v: &ComponentValue) -> (r: Option<&Self>) {
        match v {
            ComponentValue::NoteBlockSound(x) => Some(x),
            _ => None,
        }
    }
}

impl DataComponentImpl for BannerPatternsImpl {
    open spec fn component() -> DataComponent {
        DataComponent::BannerPatterns
    }

    open spec fn wrap(self) -> ComponentValue {
        ComponentValue::BannerPatterns(self)
    }

    fn get_enum() -> (r: DataComponent) {
        DataComponent::BannerPatterns
    }

    fn to_dyn(self) -> (r: ComponentValue) {
        ComponentValue::BannerPatterns(self)
    }

    fn of(v: &ComponentValue) -> (r: Option<&Self>) {
        match v {
            ComponentValue::BannerPatterns(x) => Some(x),
            _ => None,
        }
    }
}

impl DataComponentImpl for BaseColorImpl {
    open spec fn component() -> DataComponent {
        DataComponent::BaseColor
    }

    open spec fn wrap(self) -> ComponentValue {
        ComponentValue::BaseColor(self)
    }

    fn get_enum() -> (r: DataComponent) {
        DataComponent::BaseColor
    }

    fn to_dyn(self) -> (r: ComponentValue) {
        ComponentValue::BaseColor(self)
    }

    fn of(v: &ComponentValue) -> (r: Option<&Self>) {
        match v {
            ComponentValue::BaseColor(x) => Some(x),
            _ => None,
        }
    }
}

impl DataComponentImpl for PotDecorationsImpl {
    open spec fn component() -> DataComponent {
        DataComponent::PotDecorations
    }

    open spec fn wrap(self) -> ComponentValue {
        ComponentValue::PotDecorations(self)
    }

    fn get_enum() -> (r: DataComponent) {
        DataComponent::PotDecorations
    }

    fn to_dyn(self) -> (r: ComponentValue) {
        ComponentValue::PotDecorations(self)
    }

    fn of(v: &ComponentValue) -> (r: Option<&Self>) {
        match v {
            ComponentValue::PotDecorations(x) => Some(x),
            _ => None,
        }
    }
}

impl DataComponentImpl for ContainerImpl {
    open spec fn component() -> DataComponent {
        DataComponent::Container
    }

    open spec fn wrap(self) -> ComponentValue {
        ComponentValue::Container(self)
    }

    fn get_enum() -> (r: DataComponent) {
        DataComponent::Container
    }

    fn to_dyn(self) -> (r: ComponentValue) {
        ComponentValue::Container(self)
    }

    fn of(v: &ComponentValue) -> (r: Option<&Self>) {
        match v {
            ComponentValue::Container(x) => Some(x),
            _ => None,
        }
    }
}

impl DataComponentImpl for BlockStateImpl {
    open spec fn component() -> DataComponent {
        DataComponent::BlockState
    }

    open spec fn wrap(self) -> ComponentValue {
        ComponentValue::BlockState(self)
    }

    fn get_enum() -> (r: DataComponent) {
        DataComponent::BlockState
    }

    fn to_dyn(self) -> (r: ComponentValue) {
        ComponentValue::BlockState(self)
    }

    fn of(v: &ComponentValue) -> (r: Option<&Self>) {
        match v {
            ComponentValue::BlockState(x) => Some(x),
            _ => None,
        }
    }
}

impl DataComponentImpl for BeesImpl {
    open spec fn component() -> DataComponent {
        DataComponent::Bees
    }

    open spec fn wrap(self) -> ComponentValue {
        ComponentValue::Bees(self)
    }

    fn get_enum() -> (r: DataComponent) {
        DataComponent::Bees
    }

    fn to_dyn(self) -> (r: ComponentValue) {
        ComponentValue::Bees(self)
    }

    fn of(v: &ComponentValue) -> (r: Option<&Self>) {
        match v {
            ComponentValue::Bees(x) => Some(x),
            _ => None,
        }
    }
}

impl DataComponentImpl for SulfurCubeContentImpl {
    open spec fn component() -> DataComponent {
        DataComponent::SulfurCubeContent
    }

    open spec fn wrap(self) -> ComponentValue {
        ComponentValue::SulfurCubeContent(self)
    }

    fn get_enum() -> (r: DataComponent) {
        DataComponent::SulfurCubeContent
    }

    fn to_dyn(self) -> (r: ComponentValue) {
        ComponentValue::SulfurCubeContent(self)
    }

    fn of(v: &ComponentValue) -> (r: Option<&Self>) {
        match v {
            ComponentValue::SulfurCubeContent(x) => Some(x),
            _ => None,
        }
    }
}

impl DataComponentImpl for LockImpl {
    open spec fn component() -> DataComponent {
        DataComponent::Lock
    }

    open spec fn wrap(self) -> ComponentValue {
        ComponentValue::Lock(self)
    }

    fn get_enum() -> (r: DataComponent) {
        DataComponent::Lock
    }

    fn to_dyn(self) -> (r: ComponentValue) {
        ComponentValue::Lock(self)
    }

    fn of(v: &ComponentValue) -> (r: Option<&Self>) {
        match v {
            ComponentValue::Lock(x) => Some(x),
            _ => None,
        }
    }
}

impl DataComponentImpl for ContainerLootImpl {
    open spec fn component() -> DataComponent {
        DataComponent::ContainerLoot
    }

    open spec fn wrap(self) -> ComponentValue {
        ComponentValue::ContainerLoot(self)
    }

    fn get_enum() -> (r: DataComponent) {
        DataComponent::ContainerLoot
    }

    fn to_dyn(self) -> (r: ComponentValue) {
        ComponentValue::ContainerLoot(self)
    }

    fn of(v: &ComponentValue) -> (r: Option<&Self>) {
        match v {
            ComponentValue::ContainerLoot(x) => Some(x),
            _ => None,
        }
    }
}

impl DataComponentImpl for BreakSoundImpl {
    open spec fn component() -> DataComponent {
        DataComponent::BreakSound
    }

    open spec fn wrap(self) -> ComponentValue {
        ComponentValue::BreakSound(self)
    }

    fn get_enum() -> (r: DataComponent) {
        DataComponent::BreakSound
    }

    fn to_dyn(self) -> (r: ComponentValue) {
        ComponentValue::BreakSound(self)
    }

    fn of(v: &ComponentValue) -> (r: Option<&Self>) {
        match v {
            ComponentValue::BreakSound(x) => Some(x),
            _ => None,
        }
    }
}

impl DataComponentImpl for VillagerVariantImpl {
    open spec fn component() -> DataComponent {
        DataComponent::VillagerVariant
    }

    open spec fn wrap(self) -> ComponentValue {
        ComponentValue::VillagerVariant(self)
    }

    fn get_enum() -> (r: DataComponent) {
        DataComponent::VillagerVariant
    }

    fn to_dyn(self) -> (r: ComponentValue) {
        ComponentValue::VillagerVariant(self)
    }

    fn of(v: &ComponentValue) -> (r: Option<&Self>) {
        match v {
            ComponentValue::VillagerVariant(x) => Some(x),
            _ => None,
        }
    }
}

impl DataComponentImpl for WolfVariantImpl {
    open spec fn component() -> DataComponent {
        DataComponent::WolfVariant
    }

    open spec fn wrap(self) -> ComponentValue {
        ComponentValue::WolfVariant(self)
    }

    fn get_enum() -> (r: DataComponent) {
        DataComponent::WolfVariant
    }

    fn to_dyn(self) -> (r: ComponentValue) {
        ComponentValue::WolfVariant(self)
    }

    fn of(v: &ComponentValue) -> (r: Option<&Self>) {
        match v {
            ComponentValue::WolfVariant(x) => Some(x),
            _ => None,
        }
    }
}

impl DataComponentImpl for WolfSoundVariantImpl {
    open spec fn component() -> DataComponent {
        DataComponent::WolfSoundVariant
    }

    open spec fn wrap(self) -> ComponentValue {
        ComponentValue::WolfSoundVariant(self)
    }

    fn get_enum() -> (r: DataComponent) {
        DataComponent::WolfSoundVariant
    }

    fn to_dyn(self) -> (r: ComponentValue) {
        ComponentValue::WolfSoundVariant(self)
    }

    fn of(v: &ComponentValue) -> (r: Option<&Self>) {
        match v {
            ComponentValue::WolfSoundVariant(x) => Some(x),
            _ => None,
        }
    }
}

impl DataComponentImpl for WolfCollarImpl {
    open spec fn component() -> DataComponent {
        DataComponent::WolfCollar
    }

    open spec fn wrap(self) -> ComponentValue {
        ComponentValue::WolfCollar(self)
    }

    fn get_enum() -> (r: DataComponent) {
        DataComponent::WolfCollar
    }

    fn to_dyn(self) -> (r: ComponentValue) {
        ComponentValue::WolfCollar(self)
    }

    fn of(v: &ComponentValue) -> (r: Option<&Self>) {
        match v {
            ComponentValue::WolfCollar(x) => Some(x),
            _ => None,
        }
    }
}

impl DataComponentImpl for FoxVariantImpl {
    open spec fn component() -> DataComponent {
        DataComponent::FoxVariant
    }

    open spec fn wrap(self) -> ComponentValue {
        ComponentValue::FoxVariant(self)
    }

    fn get_enum() -> (r: DataComponent) {
        DataComponent::FoxVariant
    }

    fn to_dyn(self) -> (r: ComponentValue) {
        ComponentValue::FoxVariant(self)
    }

    fn of(v: &ComponentValue) -> (r: Option<&Self>) {
        match v {
            ComponentValue::FoxVariant(x) => Some(x),
            _ => None,
        }
    }
}

impl DataComponentImpl for SalmonSizeImpl {
    open spec fn component() -> DataComponent {
        DataComponent::SalmonSize
    }

    open spec fn wrap(self) -> ComponentValue {
        ComponentValue::SalmonSize(self)
    }

    fn get_enum() -> (r: DataComponent) {
        DataComponent::SalmonSize
    }

    fn to_dyn(self) -> (r: ComponentValue) {
        ComponentValue::SalmonSize(self)
    }

    fn of(v: &ComponentValue) -> (r: Option<&Self>) {
        match v {
            ComponentValue::SalmonSize(x) => Some(x),
            _ => None,
        }
    }
}

impl DataComponentImpl for ParrotVariantImpl {
    open spec fn component() -> DataComponent {
        DataComponent::ParrotVariant
    }

    open spec fn wrap(self) -> ComponentValue {
        ComponentValue::ParrotVariant(self)
    }

    fn get_enum() -> (r: DataComponent) {
        DataComponent::ParrotVariant
    }

    fn to_dyn(self) -> (r: ComponentValue) {
        ComponentValue::ParrotVariant(self)
    }

    fn of(v: &ComponentValue) -> (r: Option<&Self>) {
        match v {
            ComponentValue::ParrotVariant(x) => Some(x),
            _ => None,
        }
    }
}

impl DataComponentImpl for TropicalFishPatternImpl {
    open spec fn component() -> DataComponent {
        DataComponent::TropicalFishPattern
    }

    open spec fn wrap(self) -> ComponentValue {
        ComponentValue::TropicalFishPattern(self)
    }

    fn get_enum() -> (r: DataComponent) {
        DataComponent::TropicalFishPattern
    }

    fn to_dyn(self) -> (r: ComponentValue) {
        ComponentValue::TropicalFishPattern(self)
    }

    fn of(v: &ComponentValue) -> (r: Option<&Self>) {
        match v {
            ComponentValue::TropicalFishPattern(x) => Some(x),
            _ => None,
        }
    }
}

impl DataComponentImpl for TropicalFishBaseColorImpl {
    open spec fn component() -> DataComponent {
        DataComponent::TropicalFishBaseColor
    }

    open spec fn wrap(self) -> ComponentValue {
        ComponentValue::TropicalFishBaseColor(self)
    }

    fn get_enum() -> (r: DataComponent) {
        DataComponent::TropicalFishBaseColor
    }

    fn to_dyn(self) -> (r: ComponentValue) {
        ComponentValue::TropicalFishBaseColor(self)
    }

    fn of(v: &ComponentValue) -> (r: Option<&Self>) {
        match v {
            ComponentValue::TropicalFishBaseColor(x) => Some(x),
            _ => None,
        }
    }
}

impl DataComponentImpl for TropicalFishPatternColorImpl {
    open spec fn component() -> DataComponent {
        DataComponent::TropicalFishPatternColor
    }

    open spec fn wrap(self) -> ComponentValue {
        ComponentValue::TropicalFishPatternColor(self)
    }

    fn get_enum() -> (r: DataComponent) {
        DataComponent::TropicalFishPatternColor
    }

    fn to_dyn(self) -> (r: ComponentValue) {
        ComponentValue::TropicalFishPatternColor(self)
    }

    fn of(v: &ComponentValue) -> (r: Option<&Self>) {
        match v {
            ComponentValue::TropicalFishPatternColor(x) => Some(x),
            _ => None,
        }
    }
}

impl DataComponentImpl for MooshroomVariantImpl {
    open spec fn component() -> DataComponent {
        DataComponent::MooshroomVariant
    }

    open spec fn wrap(self) -> ComponentValue {
        ComponentValue::MooshroomVariant(self)
    }

    fn get_enum() -> (r: DataComponent) {
        DataComponent::MooshroomVariant
    }

    fn to_dyn(self) -> (r: ComponentValue) {
        ComponentValue::MooshroomVariant(self)
    }

    fn of(v: &ComponentValue) -> (r: Option<&Self>) {
        match v {
            ComponentValue::MooshroomVariant(x) => Some(x),
            _ => None,
        }
    }
}

impl DataComponentImpl for RabbitVariantImpl {
    open spec fn component() -> DataComponent {
        DataComponent::RabbitVariant
    }

    open spec fn wrap(self) -> ComponentValue {
        ComponentValue::RabbitVariant(self)
    }

    fn get_enum() -> (r: DataComponent) {
        DataComponent::RabbitVariant
    }

    fn to_dyn(self) -> (r: ComponentValue) {
        ComponentValue::RabbitVariant(self)
    }

    fn of(v: &ComponentValue) -> (r: Option<&Self>) {
        match v {
            ComponentValue::RabbitVariant(x) => Some(x),
            _ => None,
        }
    }
}

impl DataComponentImpl for PigVariantImpl {
    open spec fn component() -> DataComponent {
        DataComponent::PigVariant
    }

    open spec fn wrap(self) -> ComponentValue {
        ComponentValue::PigVariant(self)
    }

    fn get_enum() -> (r: DataComponent) {
        DataComponent::PigVariant
    }

    fn to_dyn(self) -> (r: ComponentValue) {
        ComponentValue::PigVariant(self)
    }

    fn of(v: &ComponentValue) -> (r: Option<&Self>) {
        match v {
            ComponentValue::PigVariant(x) => Some(x),
            _ => None,
        }
    }
}

impl DataComponentImpl for PigSoundVariantImpl {
    open spec fn component() -> DataComponent {
        DataComponent::PigSoundVariant
    }

    open spec fn wrap(self) -> ComponentValue {
        ComponentValue::PigSoundVariant(self)
    }

    fn get_enum() -> (r: DataComponent) {
        DataComponent::PigSoundVariant
    }

    fn to_dyn(self) -> (r: ComponentValue) {
        ComponentValue::PigSoundVariant(self)
    }

    fn of(v: &ComponentValue) -> (r: Option<&Self>) {
        match v {
            ComponentValue::PigSoundVariant(x) => Some(x),
            _ => None,
        }
    }
}

impl DataComponentImpl for CowVariantImpl {
    open spec fn component() -> DataComponent {
        DataComponent::CowVariant
    }

    open spec fn wrap(self) -> ComponentValue {
        ComponentValue::CowVariant(self)
    }

    fn get_enum() -> (r: DataComponent) {
        DataComponent::CowVariant
    }

    fn to_dyn(self) -> (r: ComponentValue) {
        ComponentValue::CowVariant(self)
    }

    fn of(v: &ComponentValue) -> (r: Option<&Self>) {
        match v {
            ComponentValue::CowVariant(x) => Some(x),
            _ => None,
        }
    }
}

impl DataComponentImpl for CowSoundVariantImpl {
    open spec fn component() -> DataComponent {
        DataComponent::CowSoundVariant
    }

    open spec fn wrap(self) -> ComponentValue {
        ComponentValue::CowSoundVariant(self)
    }

    fn get_enum() -> (r: DataComponent) {
        DataComponent::CowSoundVariant
    }

    fn to_dyn(self) -> (r: ComponentValue) {
        ComponentValue::CowSoundVariant(self)
    }

    fn of(v: &ComponentValue) -> (r: Option<&Self>) {
        match v {
            ComponentValue::CowSoundVariant(x) => Some(x),
            _ => None,
        }
    }
}

impl DataComponentImpl for ChickenVariantImpl {
    open spec fn component() -> DataComponent {
        DataComponent::ChickenVariant
    }

    open spec fn wrap(self) -> ComponentValue {
        ComponentValue::ChickenVariant(self)
    }

    fn get_enum() -> (r: DataComponent) {
        DataComponent::ChickenVariant
    }

    fn to_dyn(self) -> (r: ComponentValue) {
        ComponentValue::ChickenVariant(self)
    }

    fn of(v: &ComponentValue) -> (r: Option<&Self>) {
        match v {
            ComponentValue::ChickenVariant(x) => Some(x),
            _ => None,
        }
    }
}

impl DataComponentImpl for ChickenSoundVariantImpl {
    open spec fn component() -> DataComponent {
        DataComponent::ChickenSoundVariant
    }

    open spec fn wrap(self) -> ComponentValue {
        ComponentValue::ChickenSoundVariant(self)
    }

    fn get_enum() -> (r: DataComponent) {
        DataComponent::ChickenSoundVariant
    }

    fn to_dyn(self) -> (r: ComponentValue) {
        ComponentValue::ChickenSoundVariant(self)
    }

    fn of(v: &ComponentValue) -> (r: Option<&Self>) {
        match v {
            ComponentValue::ChickenSoundVariant(x) => Some(x),
            _ => None,
        }
    }
}

impl DataComponentImpl for ZombieNautilusVariantImpl {
    open spec fn component() -> DataComponent {
        DataComponent::ZombieNautilusVariant
    }

    open spec fn wrap(self) -> ComponentValue {
        ComponentValue::ZombieNautilusVariant(self)
    }

    fn get_enum() -> (r: DataComponent) {
        DataComponent::ZombieNautilusVariant
    }

    fn to_dyn(self) -> (r: ComponentValue) {
        ComponentValue::ZombieNautilusVariant(self)
    }

    fn of(v: &ComponentValue) -> (r: Option<&Self>) {
        match v {
            ComponentValue::ZombieNautilusVariant(x) => Some(x),
            _ => None,
        }
    }
}

impl DataComponentImpl for FrogVariantImpl {
    open spec fn component() -> DataComponent {
        DataComponent::FrogVariant
    }

    open spec fn wrap(self) -> ComponentValue {
        ComponentValue::FrogVariant(self)
    }

    fn get_enum() -> (r: DataComponent) {
        DataComponent::FrogVariant
    }

    fn to_dyn(self) -> (r: ComponentValue) {
        ComponentValue::FrogVariant(self)
    }

    fn of(v: &ComponentValue) -> (r: Option<&Self>) {
        match v {
            ComponentValue::FrogVariant(x) => Some(x),
            _ => None,
        }
    }
}

impl DataComponentImpl for HorseVariantImpl {
    open spec fn component() -> DataComponent {
        DataComponent::HorseVariant
    }

    open spec fn wrap(self) -> ComponentValue {
        ComponentValue::HorseVariant(self)
    }

    fn get_enum() -> (r: DataComponent) {
        DataComponent::HorseVariant
    }

    fn to_dyn(self) -> (r: ComponentValue) {
        ComponentValue::HorseVariant(self)
    }

    fn of(v: &ComponentValue) -> (r: Option<&Self>) {
        match v {
            ComponentValue::HorseVariant(x) => Some(x),
            _ => None,
        }
    }
}

impl DataComponentImpl for PaintingVariantImpl {
    open spec fn component() -> DataComponent {
        DataComponent::PaintingVariant
    }

    open spec fn wrap(self) -> ComponentValue {
        ComponentValue::PaintingVariant(self)
    }

    fn get_enum() -> (r: DataComponent) {
        DataComponent::PaintingVariant
    }

    fn to_dyn(self) -> (r: ComponentValue) {
        ComponentValue::PaintingVariant(self)
    }

    fn of(v: &ComponentValue) -> (r: Option<&Self>) {
        match v {
            ComponentValue::PaintingVariant(x) => Some(x),
            _ => None,
        }
    }
}

impl DataComponentImpl for LlamaVariantImpl {
    open spec fn component() -> DataComponent {
        DataComponent::LlamaVariant
    }

    open spec fn wrap(self) -> ComponentValue {
        ComponentValue::LlamaVariant(self)
    }

    fn get_enum() -> (r: DataComponent) {
        DataComponent::LlamaVariant
    }

    fn to_dyn(self) -> (r: ComponentValue) {
        ComponentValue::LlamaVariant(self)
    }

    fn of(v: &ComponentValue) -> (r: Option<&Self>) {
        match v {
            ComponentValue::LlamaVariant(x) => Some(x),
            _ => None,
        }
    }
}

impl DataComponentImpl for AxolotlVariantImpl {
    open spec fn component() -> DataComponent {
        DataComponent::AxolotlVariant
    }

    open spec fn wrap(self) -> ComponentValue {
        ComponentValue::AxolotlVariant(self)
    }

    fn get_enum() -> (r: DataComponent) {
        DataComponent::AxolotlVariant
    }

    fn to_dyn(self) -> (r: ComponentValue) {
        ComponentValue::AxolotlVariant(self)
    }

    fn of(v: &ComponentValue) -> (r: Option<&Self>) {
        match v {
            ComponentValue::AxolotlVariant(x) => Some(x),
            _ => None,
        }
    }
}

impl DataComponentImpl for CatVariantImpl {
    open spec fn component() -> DataComponent {
        DataComponent::CatVariant
    }

    open spec fn wrap(self) -> ComponentValue {
        ComponentValue::CatVariant(self)
    }

    fn get_enum() -> (r: DataComponent) {
        DataComponent::CatVariant
    }

    fn to_dyn(self) -> (r: ComponentValue) {
        ComponentValue::CatVariant(self)
    }

    fn of(v: &ComponentValue) -> (r: Option<&Self>) {
        match v {
            ComponentValue::CatVariant(x) => Some(x),
            _ => None,
        }
    }
}

impl DataComponentImpl for CatSoundVariantImpl {
    open spec fn component() -> DataComponent {
        DataComponent::CatSoundVariant
    }

    open spec fn wrap(self) -> ComponentValue {
        ComponentValue::CatSoundVariant(self)
    }

    fn get_enum() -> (r: DataComponent) {
        DataComponent::CatSoundVariant
    }

    fn to_dyn(self) -> (r: ComponentValue) {
        ComponentValue::CatSoundVariant(self)
    }

    fn of(v: &ComponentValue) -> (r: Option<&Self>) {
        match v {
            ComponentValue::CatSoundVariant(x) => Some(x),
            _ => None,
        }
    }
}

impl DataComponentImpl for CatCollarImpl {
    open spec fn component() -> DataComponent {
        DataComponent::CatCollar
    }

    open spec fn wrap(self) -> ComponentValue {
        ComponentValue::CatCollar(self)
    }

    fn get_enum() -> (r: DataComponent) {
        DataComponent::CatCollar
    }

    fn to_dyn(self) -> (r: ComponentValue) {
        ComponentValue::CatCollar(self)
    }

    fn of(v: &ComponentValue) -> (r: Option<&Self>) {
        match v {
            ComponentValue::CatCollar(x) => Some(x),
            _ => None,
        }
    }
}

impl DataComponentImpl for SheepColorImpl {
    open spec fn component() -> DataComponent {
        DataComponent::SheepColor
    }

    open spec fn wrap(self) -> ComponentValue {
        ComponentValue::SheepColor(self)
    }

    fn get_enum() -> (r: DataComponent) {
        DataComponent::SheepColor
    }

    fn to_dyn(self) -> (r: ComponentValue) {
        ComponentValue::SheepColor(self)
    }

    fn of(v: &ComponentValue) -> (r: Option<&Self>) {
        match v {
            ComponentValue::SheepColor(x) => Some(x),
            _ => None,
        }
    }
}

impl DataComponentImpl for ShulkerColorImpl {
    open spec fn component() -> DataComponent {
        DataComponent::ShulkerColor
    }

    open spec fn wrap(self) -> ComponentValue {
        ComponentValue::ShulkerColor(self)
    }

    fn get_enum() -> (r: DataComponent) {
        DataComponent::ShulkerColor
    }

    fn to_dyn(self) -> (r: ComponentValue) {
        ComponentValue::ShulkerColor(self)
    }

    fn of(v: &ComponentValue) -> (r: Option<&Self>) {
        match v {
            ComponentValue::ShulkerColor(x) => Some(x),
            _ => None,
        }
    }
}

/// The formats of the components that hold stacks or predicates or are sent as they are stored.
pub proof fn lemma_nested_formats()
    ensures
        component_format(DataComponent::UseRemainder) == Format::Template,
        component_format(DataComponent::SulfurCubeContent) == Format::Template,
        component_format(DataComponent::CanPlaceOn) == Format::Predicates,
        component_format(DataComponent::CanBreak) == Format::Predicates,
        component_format(DataComponent::Container) == Format::Slots,
        component_format(DataComponent::IntangibleProjectile) == Format::Stored(DataComponent::IntangibleProjectile),
        component_format(DataComponent::MapDecorations) == Format::Stored(DataComponent::MapDecorations),
        component_format(DataComponent::DebugStickState) == Format::Stored(DataComponent::DebugStickState),
        component_format(DataComponent::Recipes) == Format::Stored(DataComponent::Recipes),
        component_format(DataComponent::ContainerLoot) == Format::Stored(DataComponent::ContainerLoot),
{
    reveal(component_format);
}

/// What a value is to its format.
#[verifier::opaque]
pub open spec fn value_val(v: ComponentValue) -> Val
    decreases v, 0nat,
{
    match v {
        ComponentValue::CustomData(x) => CustomDataImpl::val(x),
        ComponentValue::MaxStackSize(x) => MaxStackSizeImpl::val(x),
        ComponentValue::MaxDamage(x) => MaxDamageImpl::val(x),
        ComponentValue::Damage(x) => DamageImpl::val(x),
        ComponentValue::Unbreakable(x) => UnbreakableImpl::val(x),
        ComponentValue::UseEffects(x) => UseEffectsImpl::val(x),
        ComponentValue::CustomName(x) => CustomNameImpl::val(x),
        ComponentValue::MinimumAttackCharge(x) => MinimumAttackChargeImpl::val(x),
        ComponentValue::DamageType(x) => DamageTypeImpl::val(x),
        ComponentValue::ItemName(x) => ItemNameImpl::val(x),
        ComponentValue::ItemModel(x) => ItemModelImpl::val(x),
        ComponentValue::Lore(x) => LoreImpl::val(x),
        ComponentValue::Rarity(x) => RarityImpl::val(x),
        ComponentValue::Enchantments(x) => EnchantmentsImpl::val(x),
        ComponentValue::CanPlaceOn(x) => Val::Nbt(x.predicate@),
        ComponentValue::CanBreak(x) => Val::Nbt(x.predicate@),
        ComponentValue::AttributeModifiers(x) => AttributeModifiersImpl::val(x),
        ComponentValue::CustomModelData(x) => CustomModelDataImpl::val(x),
        ComponentValue::TooltipDisplay(x) => TooltipDisplayImpl::val(x),
        ComponentValue::RepairCost(x) => RepairCostImpl::val(x),
        ComponentValue::CreativeSlotLock(x) => CreativeSlotLockImpl::val(x),
        ComponentValue::EnchantmentGlintOverride(x) => EnchantmentGlintOverrideImpl::val(x),
        ComponentValue::IntangibleProjectile(x) => intangible_projectile_val(x),
        ComponentValue::Food(x) => FoodImpl::val(x),
        ComponentValue::Consumable(x) => ConsumableImpl::val(x),
        ComponentValue::UseRemainder(x) => Val::Stack(stack_val(x.convert_into)),
        ComponentValue::UseCooldown(x) => UseCooldownImpl::val(x),
        ComponentValue::DamageResistant(x) => DamageResistantImpl::val(x),
        ComponentValue::Tool(x) => ToolImpl::val(x),
        ComponentValue::Weapon(x) => WeaponImpl::val(x),
        ComponentValue::AttackRange(x) => AttackRangeImpl::val(x),
        ComponentValue::Enchantable(x) => EnchantableImpl::val(x),
        ComponentValue::Equippable(x) => EquippableImpl::val(x),
        ComponentValue::Repairable(x) => RepairableImpl::val(x),
        ComponentValue::Glider(x) => GliderImpl::val(x),
        ComponentValue::TooltipStyle(x) => TooltipStyleImpl::val(x),
        ComponentValue::DeathProtection(x) => DeathProtectionImpl::val(x),
        ComponentValue::BlocksAttacks(x) => BlocksAttacksImpl::val(x),
        ComponentValue::PiercingWeapon(x) => PiercingWeaponImpl::val(x),
        ComponentValue::KineticWeapon(x) => KineticWeaponImpl::val(x),
        ComponentValue::SwingAnimation(x) => SwingAnimationImpl::val(x),
        ComponentValue::AdditionalTradeCost(x) => AdditionalTradeCostImpl::val(x),
        ComponentValue::StoredEnchantments(x) => StoredEnchantmentsImpl::val(x),
        ComponentValue::Dye(x) => DyeImpl::val(x),
        ComponentValue::DyedColor(x) => DyedColorImpl::val(x),
        ComponentValue::MapColor(x) => MapColorImpl::val(x),
        ComponentValue::MapId(x) => MapIdImpl::val(x),
        ComponentValue::MapDecorations(x) => map_decorations_val(x),
        ComponentValue::MapPostProcessing(x) => MapPostProcessingImpl::val(x),
        ComponentValue::ChargedProjectiles(x) => Val::List(stack_vals(x.projectiles@, x.projectiles@.len())),
        ComponentValue::BundleContents(x) => Val::List(stack_vals(x.items@, x.items@.len())),
        ComponentValue::PotionContents(x) => PotionContentsImpl::val(x),
        ComponentValue::PotionDurationScale(x) => PotionDurationScaleImpl::val(x),
        ComponentValue::SuspiciousStewEffects(x) => SuspiciousStewEffectsImpl::val(x),
        ComponentValue::WritableBookContent(x) => WritableBookContentImpl::val(x),
        ComponentValue::WrittenBookContent(x) => WrittenBookContentImpl::val(x),
        ComponentValue::Trim(x) => TrimImpl::val(x),
        ComponentValue::DebugStickState(x) => debug_stick_state_val(x),
        ComponentValue::EntityData(x) => EntityDataImpl::val(x),
        ComponentValue::BucketEntityData(x) => BucketEntityDataImpl::val(x),
        ComponentValue::BlockEntityData(x) => BlockEntityDataImpl::val(x),
        ComponentValue::Instrument(x) => InstrumentImpl::val(x),
        ComponentValue::ProvidesTrimMaterial(x) => ProvidesTrimMaterialImpl::val(x),
        ComponentValue::OminousBottleAmplifier(x) => OminousBottleAmplifierImpl::val(x),
        ComponentValue::JukeboxPlayable(x) => JukeboxPlayableImpl::val(x),
        ComponentValue::ProvidesBannerPatterns(x) => ProvidesBannerPatternsImpl::val(x),
        ComponentValue::Recipes(x) => recipes_val(x),
        ComponentValue::LodestoneTracker(x) => LodestoneTrackerImpl::val(x),
        ComponentValue::FireworkExplosion(x) => FireworkExplosionImpl::val(x),
        ComponentValue::Fireworks(x) => FireworksImpl::val(x),
        ComponentValue::Profile(x) => ProfileImpl::val(x),
        ComponentValue::NoteBlockSound(x) => NoteBlockSoundImpl::val(x),
        ComponentValue::BannerPatterns(x) => BannerPatternsImpl::val(x),
        ComponentValue::BaseColor(x) => BaseColorImpl::val(x),
        ComponentValue::PotDecorations(x) => PotDecorationsImpl::val(x),
        ComponentValue::Container(x) => Val::List(slot_vals(x.items@, x.items@.len())),
        ComponentValue::BlockState(x) => BlockStateImpl::val(x),
        ComponentValue::Bees(x) => BeesImpl::val(x),
        ComponentValue::SulfurCubeContent(x) => Val::Stack(stack_val(x.absorbed_block_item_stack)),
        ComponentValue::Lock(x) => LockImpl::val(x),
        ComponentValue::ContainerLoot(x) => container_loot_val(x),
        ComponentValue::BreakSound(x) => BreakSoundImpl::val(x),
        ComponentValue::VillagerVariant(x) => VillagerVariantImpl::val(x),
        ComponentValue::WolfVariant(x) => WolfVariantImpl::val(x),
        ComponentValue::WolfSoundVariant(x) => WolfSoundVariantImpl::val(x),
        ComponentValue::WolfCollar(x) => WolfCollarImpl::val(x),
        ComponentValue::FoxVariant(x) => FoxVariantImpl::val(x),
        ComponentValue::SalmonSize(x) => SalmonSizeImpl::val(x),
        ComponentValue::ParrotVariant(x) => ParrotVariantImpl::val(x),
        ComponentValue::TropicalFishPattern(x) => TropicalFishPatternImpl::val(x),
        ComponentValue::TropicalFishBaseColor(x) => TropicalFishBaseColorImpl::val(x),
        ComponentValue::TropicalFishPatternColor(x) => TropicalFishPatternColorImpl::val(x),
        ComponentValue::MooshroomVariant(x) => MooshroomVariantImpl::val(x),
        ComponentValue::RabbitVariant(x) => RabbitVariantImpl::val(x),
        ComponentValue::PigVariant(x) => PigVariantImpl::val(x),
        ComponentValue::PigSoundVariant(x) => PigSoundVariantImpl::val(x),
        ComponentValue::CowVariant(x) => CowVariantImpl::val(x),
        ComponentValue::CowSoundVariant(x) => CowSoundVariantImpl::val(x),
        ComponentValue::ChickenVariant(x) => ChickenVariantImpl::val(x),
        ComponentValue::ChickenSoundVariant(x) => ChickenSoundVariantImpl::val(x),
        ComponentValue::ZombieNautilusVariant(x) => ZombieNautilusVariantImpl::val(x),
        ComponentValue::FrogVariant(x) => FrogVariantImpl::val(x),
        ComponentValue::HorseVariant(x) => HorseVariantImpl::val(x),
        ComponentValue::PaintingVariant(x) => PaintingVariantImpl::val(x),
        ComponentValue::LlamaVariant(x) => LlamaVariantImpl::val(x),
        ComponentValue::AxolotlVariant(x) => AxolotlVariantImpl::val(x),
        ComponentValue::CatVariant(x) => CatVariantImpl::val(x),
        ComponentValue::CatSoundVariant(x) => CatSoundVariantImpl::val(x),
        ComponentValue::CatCollar(x) => CatCollarImpl::val(x),
        ComponentValue::SheepColor(x) => SheepColorImpl::val(x),
        ComponentValue::ShulkerColor(x) => ShulkerColorImpl::val(x),
    }
}

} // verus!
