//! Components that hold no stack, no predicate and no tag of their own: their wire forms, apart from
//! those of other components.
use vstd::prelude::*;
use crate::basic::{BannerPatternsImpl, BaseColorImpl, BreakSoundImpl, CreativeSlotLockImpl, CustomDataImpl, CustomModelDataImpl, CustomNameImpl, DamageImpl, EnchantmentGlintOverrideImpl, InstrumentImpl, ItemModelImpl, ItemNameImpl, LockImpl, LoreImpl, MaxDamageImpl, MaxStackSizeImpl, NoteBlockSoundImpl, PotDecorationsImpl, ProvidesBannerPatternsImpl, ProvidesTrimMaterialImpl, RarityImpl, TooltipDisplayImpl, TooltipStyleImpl, UnbreakableImpl};
use crate::block_entity::{BeesImpl, BlockEntityDataImpl, BlockStateImpl, BucketEntityDataImpl, EntityDataImpl};
use crate::book::{WritableBookContentImpl, WrittenBookContentImpl};
use crate::consumable::{ConsumableImpl, DeathProtectionImpl, OminousBottleAmplifierImpl, PotionContentsImpl, PotionDurationScaleImpl, SuspiciousStewEffectsImpl};
use crate::equipment::{AdditionalTradeCostImpl, AttackRangeImpl, AttributeModifiersImpl, BlocksAttacksImpl, DamageResistantImpl, DamageTypeImpl, EnchantableImpl, EnchantmentsImpl, EquippableImpl, FoodImpl, GliderImpl, KineticWeaponImpl, MinimumAttackChargeImpl, PiercingWeaponImpl, RepairCostImpl, RepairableImpl, StoredEnchantmentsImpl, SwingAnimationImpl, ToolImpl, TrimImpl, UseCooldownImpl, UseEffectsImpl, WeaponImpl};
use crate::utility::{DyeImpl, DyedColorImpl, FireworkExplosionImpl, FireworksImpl, JukeboxPlayableImpl, LodestoneTrackerImpl, MapColorImpl, MapIdImpl, MapPostProcessingImpl, ProfileImpl};
use crate::variant::{AxolotlVariantImpl, CatCollarImpl, CatSoundVariantImpl, CatVariantImpl, ChickenSoundVariantImpl, ChickenVariantImpl, CowSoundVariantImpl, CowVariantImpl, FoxVariantImpl, FrogVariantImpl, HorseVariantImpl, LlamaVariantImpl, MooshroomVariantImpl, PaintingVariantImpl, ParrotVariantImpl, PigSoundVariantImpl, PigVariantImpl, RabbitVariantImpl, SalmonSizeImpl, SheepColorImpl, ShulkerColorImpl, TropicalFishBaseColorImpl, TropicalFishPatternColorImpl, TropicalFishPatternImpl, VillagerVariantImpl, WolfCollarImpl, WolfSoundVariantImpl, WolfVariantImpl, ZombieNautilusVariantImpl};
use crate::codec::{decodes, encodes, Context};
use crate::coded::{read_as, write_as};
use crate::components::{component_format, value_kind, value_val, ComponentValue};
use crate::data_component::DataComponent;
use crate::errors::{ReadingError, WritingError};
use crate::format::{blame, check_limit, keep_distinct, optional, pair, put, read_count, read_items, read_leaf, read_val, refuse, write_items, write_leaf, write_val, written_count, Ctx, Format, Sink, Val};
use crate::registry::Registries;
use crate::wire::{done, fail, flag, read_bool, read_var_int, var_int, Outcome};

verus! {

/// Whether values of a format hold no stack and no predicate.
pub open spec fn flat(f: Format) -> bool
    decreases f,
{
    match f {
        Format::Pair(a, b) => flat(*a) && flat(*b),
        Format::Opt(a) => flat(*a),
        Format::List(_, _, a) => flat(*a),
        Format::Distinct(_, _, a) => flat(*a),
        Format::Choice(alts, _) => forall|i: int| 0 <= i < alts.len() ==> flat(#[trigger] alts[i]),
        Format::Fixed(a, _, _) => flat(*a),
        Format::Slots | Format::Template | Format::Predicates => false,
        _ => true,
    }
}

/// Reading a value of a format whose values hold no stack and no predicate.
#[verifier::opaque]
pub open spec fn flat_read(f: Format, regs: Registries, s: Seq<u8>) -> Outcome<Val>
    decreases f, 0int,
{
    match f {
        Format::Pair(a, b) => match flat_read(*a, regs, s) {
            Outcome { value: Err(e), rest } => fail(e, rest),
            Outcome { value: Ok(x), rest } => match flat_read(*b, regs, rest) {
                Outcome { value: Err(e), rest } => fail(e, rest),
                Outcome { value: Ok(y), rest } => done(pair(x, y), rest),
            },
        },
        Format::Opt(a) => match read_bool(s) {
            Outcome { value: Err(e), rest } => fail(e, rest),
            Outcome { value: Ok(false), rest } => done(Val::Absent, rest),
            Outcome { value: Ok(true), rest } => match flat_read(*a, regs, rest) {
                Outcome { value: Err(e), rest } => fail(e, rest),
                Outcome { value: Ok(x), rest } => done(optional(Some(x)), rest),
            },
        },
        Format::List(rule, _, a) => match read_count(rule, s) {
            Outcome { value: Err(e), rest } => fail(e, rest),
            Outcome { value: Ok(n), rest } => flat_items_read(*a, n, regs, rest, Seq::empty()),
        },
        Format::Distinct(rule, _, a) => match read_count(rule, s) {
            Outcome { value: Err(e), rest } => fail(e, rest),
            Outcome { value: Ok(n), rest } => keep_distinct(flat_items_read(*a, n, regs, rest, Seq::empty())),
        },
        Format::Choice(alts, other) => match read_var_int(s) {
            Outcome { value: Err(e), rest } => fail(e, rest),
            Outcome { value: Ok(v), rest } => if 0 <= v < alts.len() {
                match flat_read(alts[v], regs, rest) {
                    Outcome { value: Err(e), rest } => fail(e, rest),
                    Outcome { value: Ok(x), rest } => done(pair(Val::Int(v), x), rest),
                }
            } else {
                fail(blame(other, v), rest)
            },
        },
        Format::Fixed(a, _, v) => match flat_read(*a, regs, s) {
            Outcome { value: Err(e), rest } => fail(e, rest),
            Outcome { value: Ok(_), rest } => done(*v, rest),
        },
        _ => read_leaf(f, regs, s),
    }
}

/// Reading `n` more such values behind those in `head`.
pub open spec fn flat_items_read(f: Format, n: nat, regs: Registries, s: Seq<u8>, head: Seq<Val>) -> Outcome<Val>
    decreases f, n + 1,
{
    if n == 0 {
        done(Val::List(head), s)
    } else {
        match flat_read(f, regs, s) {
            Outcome { value: Err(e), rest } => fail(e, rest),
            Outcome { value: Ok(x), rest } => flat_items_read(f, (n - 1) as nat, regs, rest, head.push(x)),
        }
    }
}

/// Appending a value of a format whose values hold no stack and no predicate.
#[verifier::opaque]
pub open spec fn flat_write(f: Format, regs: Registries, out: Seq<u8>, v: Val) -> Sink
    decreases f, 0int,
{
    match f {
        Format::Pair(a, b) => match v {
            Val::Pair(x, y) => match flat_write(*a, regs, out, *x) {
                Sink { result: Err(e), out } => refuse(e, out),
                Sink { result: Ok(_), out } => flat_write(*b, regs, out, *y),
            },
            _ => arbitrary(),
        },
        Format::Opt(a) => match v {
            Val::Present(x) => flat_write(*a, regs, out + flag(true), *x),
            _ => put(out, flag(false)),
        },
        Format::List(_, limit, a) | Format::Distinct(_, limit, a) => match v {
            Val::List(l) => match check_limit(limit, l.len()) {
                Err(e) => refuse(e, out),
                Ok(_) => flat_items_write(*a, regs, out + var_int(written_count(l.len())), l, 0),
            },
            _ => arbitrary(),
        },
        Format::Choice(alts, _) => match v {
            Val::Pair(i, x) => match *i {
                Val::Int(i) => if 0 <= i < alts.len() {
                    flat_write(alts[i], regs, out + var_int(i), *x)
                } else {
                    arbitrary()
                },
                _ => arbitrary(),
            },
            _ => arbitrary(),
        },
        Format::Fixed(a, w, _) => flat_write(*a, regs, out, *w),
        _ => write_leaf(f, regs, out, v),
    }
}

/// Appending such values of `l` from the `i`th on.
pub open spec fn flat_items_write(f: Format, regs: Registries, out: Seq<u8>, l: Seq<Val>, i: int) -> Sink
    decreases f, l.len() - i + 1,
{
    if i < 0 || i >= l.len() {
        Sink { result: Ok(()), out }
    } else {
        match flat_write(f, regs, out, l[i]) {
            Sink { result: Err(e), out } => refuse(e, out),
            Sink { result: Ok(_), out } => flat_items_write(f, regs, out, l, i + 1),
        }
    }
}

/// Reading a value that holds no stack and no predicate is reading it apart from others.
pub proof fn lemma_flat_read(f: Format, c: Ctx, s: Seq<u8>)
    requires
        flat(f),
    ensures
        read_val(f, c, s) == flat_read(f, c.regs, s),
    decreases f, 0int,
{
    reveal(read_val);
    reveal(flat_read);
    match f {
        Format::Pair(a, b) => {
            lemma_flat_read(*a, c, s);
            lemma_flat_read(*b, c, read_val(*a, c, s).rest);
        },
        Format::Opt(a) => {
            lemma_flat_read(*a, c, read_bool(s).rest);
        },
        Format::List(rule, _, a) => {
            let o = read_count(rule, s);
            if o.value is Ok {
                lemma_flat_items_read(*a, o.value->Ok_0, c, o.rest, Seq::empty());
            }
        },
        Format::Distinct(rule, _, a) => {
            let o = read_count(rule, s);
            if o.value is Ok {
                lemma_flat_items_read(*a, o.value->Ok_0, c, o.rest, Seq::empty());
            }
        },
        Format::Choice(alts, _) => {
            let o = read_var_int(s);
            if o.value is Ok && 0 <= o.value->Ok_0 < alts.len() {
                assert(flat(alts[o.value->Ok_0]));
                lemma_flat_read(alts[o.value->Ok_0], c, o.rest);
            }
        },
        Format::Fixed(a, _, _) => {
            lemma_flat_read(*a, c, s);
        },
        _ => {},
    }
}

proof fn lemma_flat_items_read(f: Format, n: nat, c: Ctx, s: Seq<u8>, head: Seq<Val>)
    requires
        flat(f),
    ensures
        read_items(f, n, c, s, head) == flat_items_read(f, n, c.regs, s, head),
    decreases f, n + 1,
{
    reveal(read_val);
    reveal(flat_read);
    if n > 0 {
        lemma_flat_read(f, c, s);
        let o = read_val(f, c, s);
        if o.value is Ok {
            lemma_flat_items_read(f, (n - 1) as nat, c, o.rest, head.push(o.value->Ok_0));
        }
    }
}

/// Appending a value that holds no stack and no predicate is appending it apart from others.
pub proof fn lemma_flat_write(f: Format, c: Ctx, out: Seq<u8>, v: Val)
    requires
        flat(f),
    ensures
        write_val(f, c, out, v) == flat_write(f, c.regs, out, v),
    decreases f, 0int,
{
    reveal(write_val);
    reveal(flat_write);
    match f {
        Format::Pair(a, b) => {
            if v is Pair {
                lemma_flat_write(*a, c, out, *v->Pair_0);
                lemma_flat_write(*b, c, write_val(*a, c, out, *v->Pair_0).out, *v->Pair_1);
            }
        },
        Format::Opt(a) => {
            if v is Present {
                lemma_flat_write(*a, c, out + flag(true), *v->Present_0);
            }
        },
        Format::List(_, _, a) => {
            if v is List {
                lemma_flat_items_write(*a, c, out + var_int(written_count(v->List_0.len())), v->List_0, 0);
            }
        },
        Format::Distinct(_, _, a) => {
            if v is List {
                lemma_flat_items_write(*a, c, out + var_int(written_count(v->List_0.len())), v->List_0, 0);
            }
        },
        Format::Choice(alts, _) => {
            if v is Pair && *v->Pair_0 is Int && 0 <= (*v->Pair_0)->Int_0 < alts.len() {
                let i = (*v->Pair_0)->Int_0;
                assert(flat(alts[i]));
                lemma_flat_write(alts[i], c, out + var_int(i), *v->Pair_1);
            }
        },
        Format::Fixed(a, w, _) => {
            lemma_flat_write(*a, c, out, *w);
        },
        _ => {},
    }
}

proof fn lemma_flat_items_write(f: Format, c: Ctx, out: Seq<u8>, l: Seq<Val>, i: int)
    requires
        flat(f),
        0 <= i,
    ensures
        write_items(f, c, out, l, i) == flat_items_write(f, c.regs, out, l, i),
    decreases f, l.len() - i + 1,
{
    reveal(write_val);
    reveal(flat_write);
    if i < l.len() {
        lemma_flat_write(f, c, out, l[i]);
        lemma_flat_items_write(f, c, write_val(f, c, out, l[i]).out, l, i + 1);
    }
}

/// Whether the values of a component type hold no stack, no predicate and no tag of their own.
pub open spec fn flat_kind(k: DataComponent) -> bool {
    match k {
        DataComponent::UseRemainder
        | DataComponent::SulfurCubeContent
        | DataComponent::BundleContents
        | DataComponent::ChargedProjectiles
        | DataComponent::Container
        | DataComponent::CanPlaceOn
        | DataComponent::CanBreak
        | DataComponent::IntangibleProjectile
        | DataComponent::MapDecorations
        | DataComponent::DebugStickState
        | DataComponent::Recipes
        | DataComponent::ContainerLoot => false,
        _ => true,
    }
}

proof fn lemma_flat_formats_a()
    ensures
        flat(component_format(DataComponent::CustomData)),
        flat(component_format(DataComponent::MaxStackSize)),
        flat(component_format(DataComponent::MaxDamage)),
        flat(component_format(DataComponent::Damage)),
        flat(component_format(DataComponent::Unbreakable)),
        flat(component_format(DataComponent::UseEffects)),
        flat(component_format(DataComponent::CustomName)),
        flat(component_format(DataComponent::MinimumAttackCharge)),
        flat(component_format(DataComponent::DamageType)),
        flat(component_format(DataComponent::ItemName)),
        flat(component_format(DataComponent::ItemModel)),
        flat(component_format(DataComponent::Lore)),
        flat(component_format(DataComponent::Rarity)),
        flat(component_format(DataComponent::Enchantments)),
        flat(component_format(DataComponent::AttributeModifiers)),
        flat(component_format(DataComponent::CustomModelData)),
        flat(component_format(DataComponent::TooltipDisplay)),
        flat(component_format(DataComponent::RepairCost)),
        flat(component_format(DataComponent::CreativeSlotLock)),
        flat(component_format(DataComponent::EnchantmentGlintOverride)),
{
    reveal(component_format);
    reveal_with_fuel(flat, 24);
}

proof fn lemma_flat_formats_b()
    ensures
        flat(component_format(DataComponent::Food)),
        flat(component_format(DataComponent::Consumable)),
        flat(component_format(DataComponent::UseCooldown)),
        flat(component_format(DataComponent::DamageResistant)),
        flat(component_format(DataComponent::Tool)),
        flat(component_format(DataComponent::Weapon)),
        flat(component_format(DataComponent::AttackRange)),
        flat(component_format(DataComponent::Enchantable)),
        flat(component_format(DataComponent::Equippable)),
        flat(component_format(DataComponent::Repairable)),
        flat(component_format(DataComponent::Glider)),
        flat(component_format(DataComponent::TooltipStyle)),
        flat(component_format(DataComponent::DeathProtection)),
        flat(component_format(DataComponent::BlocksAttacks)),
        flat(component_format(DataComponent::PiercingWeapon)),
        flat(component_format(DataComponent::KineticWeapon)),
        flat(component_format(DataComponent::SwingAnimation)),
        flat(component_format(DataComponent::AdditionalTradeCost)),
        flat(component_format(DataComponent::StoredEnchantments)),
        flat(component_format(DataComponent::Dye)),
{
    reveal(component_format);
    reveal_with_fuel(flat, 24);
}

proof fn lemma_flat_formats_c()
    ensures
        flat(component_format(DataComponent::DyedColor)),
        flat(component_format(DataComponent::MapColor)),
        flat(component_format(DataComponent::MapId)),
        flat(component_format(DataComponent::MapPostProcessing)),
        flat(component_format(DataComponent::PotionContents)),
        flat(component_format(DataComponent::PotionDurationScale)),
        flat(component_format(DataComponent::SuspiciousStewEffects)),
        flat(component_format(DataComponent::WritableBookContent)),
        flat(component_format(DataComponent::WrittenBookContent)),
        flat(component_format(DataComponent::Trim)),
        flat(component_format(DataComponent::EntityData)),
        flat(component_format(DataComponent::BucketEntityData)),
        flat(component_format(DataComponent::BlockEntityData)),
        flat(component_format(DataComponent::Instrument)),
        flat(component_format(DataComponent::ProvidesTrimMaterial)),
        flat(component_format(DataComponent::OminousBottleAmplifier)),
        flat(component_format(DataComponent::JukeboxPlayable)),
        flat(component_format(DataComponent::ProvidesBannerPatterns)),
        flat(component_format(DataComponent::LodestoneTracker)),
        flat(component_format(DataComponent::FireworkExplosion)),
{
    reveal(component_format);
    reveal_with_fuel(flat, 24);
}

proof fn lemma_flat_formats_d()
    ensures
        flat(component_format(DataComponent::Fireworks)),
        flat(component_format(DataComponent::Profile)),
        flat(component_format(DataComponent::NoteBlockSound)),
        flat(component_format(DataComponent::BannerPatterns)),
        flat(component_format(DataComponent::BaseColor)),
        flat(component_format(DataComponent::PotDecorations)),
        flat(component_format(DataComponent::BlockState)),
        flat(component_format(DataComponent::Bees)),
        flat(component_format(DataComponent::Lock)),
        flat(component_format(DataComponent::BreakSound)),
        flat(component_format(DataComponent::VillagerVariant)),
        flat(component_format(DataComponent::WolfVariant)),
        flat(component_format(DataComponent::WolfSoundVariant)),
        flat(component_format(DataComponent::WolfCollar)),
        flat(component_format(DataComponent::FoxVariant)),
        flat(component_format(DataComponent::SalmonSize)),
        flat(component_format(DataComponent::ParrotVariant)),
        flat(component_format(DataComponent::TropicalFishPattern)),
        flat(component_format(DataComponent::TropicalFishBaseColor)),
        flat(component_format(DataComponent::TropicalFishPatternColor)),
{
    reveal(component_format);
    reveal_with_fuel(flat, 24);
}

proof fn lemma_flat_formats_e()
    ensures
        flat(component_format(DataComponent::MooshroomVariant)),
        flat(component_format(DataComponent::RabbitVariant)),
        flat(component_format(DataComponent::PigVariant)),
        flat(component_format(DataComponent::PigSoundVariant)),
        flat(component_format(DataComponent::CowVariant)),
        flat(component_format(DataComponent::CowSoundVariant)),
        flat(component_format(DataComponent::ChickenVariant)),
        flat(component_format(DataComponent::ChickenSoundVariant)),
        flat(component_format(DataComponent::ZombieNautilusVariant)),
        flat(component_format(DataComponent::FrogVariant)),
        flat(component_format(DataComponent::HorseVariant)),
        flat(component_format(DataComponent::PaintingVariant)),
        flat(component_format(DataComponent::LlamaVariant)),
        flat(component_format(DataComponent::AxolotlVariant)),
        flat(component_format(DataComponent::CatVariant)),
        flat(component_format(DataComponent::CatSoundVariant)),
        flat(component_format(DataComponent::CatCollar)),
        flat(component_format(DataComponent::SheepColor)),
        flat(component_format(DataComponent::ShulkerColor)),
{
    reveal(component_format);
    reveal_with_fuel(flat, 24);
}

/// The formats of such component types hold no stack and no predicate.
pub proof fn lemma_flat_formats(k: DataComponent)
    requires
        flat_kind(k),
    ensures
        flat(component_format(k)),
{
    lemma_flat_formats_a();
    lemma_flat_formats_b();
    lemma_flat_formats_c();
    lemma_flat_formats_d();
    lemma_flat_formats_e();
}

/// Reads the value of a component that holds no stack, no predicate and no tag of its own.
pub fn read_flat(id: DataComponent, seq: &mut &[u8], ctx: &Context) -> (r: Result<ComponentValue, ReadingError>)
    requires
        flat_kind(id),
    ensures
        decodes(read_val(component_format(id), ctx@, old(seq)@), r, final(seq)@, |v: ComponentValue| value_val(v)),
        r matches Ok(v) ==> value_kind(v) == id,
{
    match id {
        DataComponent::CustomData => read_as::<CustomDataImpl>(seq, ctx),
        DataComponent::MaxStackSize => read_as::<MaxStackSizeImpl>(seq, ctx),
        DataComponent::MaxDamage => read_as::<MaxDamageImpl>(seq, ctx),
        DataComponent::Damage => read_as::<DamageImpl>(seq, ctx),
        DataComponent::Unbreakable => read_as::<UnbreakableImpl>(seq, ctx),
        DataComponent::UseEffects => read_as::<UseEffectsImpl>(seq, ctx),
        DataComponent::CustomName => read_as::<CustomNameImpl>(seq, ctx),
        DataComponent::MinimumAttackCharge => read_as::<MinimumAttackChargeImpl>(seq, ctx),
        DataComponent::DamageType => read_as::<DamageTypeImpl>(seq, ctx),
        DataComponent::ItemName => read_as::<ItemNameImpl>(seq, ctx),
        DataComponent::ItemModel => read_as::<ItemModelImpl>(seq, ctx),
        DataComponent::Lore => read_as::<LoreImpl>(seq, ctx),
        DataComponent::Rarity => read_as::<RarityImpl>(seq, ctx),
        DataComponent::Enchantments => read_as::<EnchantmentsImpl>(seq, ctx),
        DataComponent::AttributeModifiers => read_as::<AttributeModifiersImpl>(seq, ctx),
        DataComponent::CustomModelData => read_as::<CustomModelDataImpl>(seq, ctx),
        DataComponent::TooltipDisplay => read_as::<TooltipDisplayImpl>(seq, ctx),
        DataComponent::RepairCost => read_as::<RepairCostImpl>(seq, ctx),
        DataComponent::CreativeSlotLock => read_as::<CreativeSlotLockImpl>(seq, ctx),
        DataComponent::EnchantmentGlintOverride => read_as::<EnchantmentGlintOverrideImpl>(seq, ctx),
        DataComponent::Food => read_as::<FoodImpl>(seq, ctx),
        DataComponent::Consumable => read_as::<ConsumableImpl>(seq, ctx),
        DataComponent::UseCooldown => read_as::<UseCooldownImpl>(seq, ctx),
        DataComponent::DamageResistant => read_as::<DamageResistantImpl>(seq, ctx),
        DataComponent::Tool => read_as::<ToolImpl>(seq, ctx),
        DataComponent::Weapon => read_as::<WeaponImpl>(seq, ctx),
        DataComponent::AttackRange => read_as::<AttackRangeImpl>(seq, ctx),
        DataComponent::Enchantable => read_as::<EnchantableImpl>(seq, ctx),
        DataComponent::Equippable => read_as::<EquippableImpl>(seq, ctx),
        DataComponent::Repairable => read_as::<RepairableImpl>(seq, ctx),
        DataComponent::Glider => read_as::<GliderImpl>(seq, ctx),
        DataComponent::TooltipStyle => read_as::<TooltipStyleImpl>(seq, ctx),
        DataComponent::DeathProtection => read_as::<DeathProtectionImpl>(seq, ctx),
        DataComponent::BlocksAttacks => read_as::<BlocksAttacksImpl>(seq, ctx),
        DataComponent::PiercingWeapon => read_as::<PiercingWeaponImpl>(seq, ctx),
        DataComponent::KineticWeapon => read_as::<KineticWeaponImpl>(seq, ctx),
        DataComponent::SwingAnimation => read_as::<SwingAnimationImpl>(seq, ctx),
        DataComponent::AdditionalTradeCost => read_as::<AdditionalTradeCostImpl>(seq, ctx),
        DataComponent::StoredEnchantments => read_as::<StoredEnchantmentsImpl>(seq, ctx),
        DataComponent::Dye => read_as::<DyeImpl>(seq, ctx),
        DataComponent::DyedColor => read_as::<DyedColorImpl>(seq, ctx),
        DataComponent::MapColor => read_as::<MapColorImpl>(seq, ctx),
        DataComponent::MapId => read_as::<MapIdImpl>(seq, ctx),
        DataComponent::MapPostProcessing => read_as::<MapPostProcessingImpl>(seq, ctx),
        DataComponent::PotionContents => read_as::<PotionContentsImpl>(seq, ctx),
        DataComponent::PotionDurationScale => read_as::<PotionDurationScaleImpl>(seq, ctx),
        DataComponent::SuspiciousStewEffects => read_as::<SuspiciousStewEffectsImpl>(seq, ctx),
        DataComponent::WritableBookContent => read_as::<WritableBookContentImpl>(seq, ctx),
        DataComponent::WrittenBookContent => read_as::<WrittenBookContentImpl>(seq, ctx),
        DataComponent::Trim => read_as::<TrimImpl>(seq, ctx),
        DataComponent::EntityData => read_as::<EntityDataImpl>(seq, ctx),
        DataComponent::BucketEntityData => read_as::<BucketEntityDataImpl>(seq, ctx),
        DataComponent::BlockEntityData => read_as::<BlockEntityDataImpl>(seq, ctx),
        DataComponent::Instrument => read_as::<InstrumentImpl>(seq, ctx),
        DataComponent::ProvidesTrimMaterial => read_as::<ProvidesTrimMaterialImpl>(seq, ctx),
        DataComponent::OminousBottleAmplifier => read_as::<OminousBottleAmplifierImpl>(seq, ctx),
        DataComponent::JukeboxPlayable => read_as::<JukeboxPlayableImpl>(seq, ctx),
        DataComponent::ProvidesBannerPatterns => read_as::<ProvidesBannerPatternsImpl>(seq, ctx),
        DataComponent::LodestoneTracker => read_as::<LodestoneTrackerImpl>(seq, ctx),
        DataComponent::FireworkExplosion => read_as::<FireworkExplosionImpl>(seq, ctx),
        DataComponent::Fireworks => read_as::<FireworksImpl>(seq, ctx),
        DataComponent::Profile => read_as::<ProfileImpl>(seq, ctx),
        DataComponent::NoteBlockSound => read_as::<NoteBlockSoundImpl>(seq, ctx),
        DataComponent::BannerPatterns => read_as::<BannerPatternsImpl>(seq, ctx),
        DataComponent::BaseColor => read_as::<BaseColorImpl>(seq, ctx),
        DataComponent::PotDecorations => read_as::<PotDecorationsImpl>(seq, ctx),
        DataComponent::BlockState => read_as::<BlockStateImpl>(seq, ctx),
        DataComponent::Bees => read_as::<BeesImpl>(seq, ctx),
        DataComponent::Lock => read_as::<LockImpl>(seq, ctx),
        DataComponent::BreakSound => read_as::<BreakSoundImpl>(seq, ctx),
        DataComponent::VillagerVariant => read_as::<VillagerVariantImpl>(seq, ctx),
        DataComponent::WolfVariant => read_as::<WolfVariantImpl>(seq, ctx),
        DataComponent::WolfSoundVariant => read_as::<WolfSoundVariantImpl>(seq, ctx),
        DataComponent::WolfCollar => read_as::<WolfCollarImpl>(seq, ctx),
        DataComponent::FoxVariant => read_as::<FoxVariantImpl>(seq, ctx),
        DataComponent::SalmonSize => read_as::<SalmonSizeImpl>(seq, ctx),
        DataComponent::ParrotVariant => read_as::<ParrotVariantImpl>(seq, ctx),
        DataComponent::TropicalFishPattern => read_as::<TropicalFishPatternImpl>(seq, ctx),
        DataComponent::TropicalFishBaseColor => read_as::<TropicalFishBaseColorImpl>(seq, ctx),
        DataComponent::TropicalFishPatternColor => read_as::<TropicalFishPatternColorImpl>(seq, ctx),
        DataComponent::MooshroomVariant => read_as::<MooshroomVariantImpl>(seq, ctx),
        DataComponent::RabbitVariant => read_as::<RabbitVariantImpl>(seq, ctx),
        DataComponent::PigVariant => read_as::<PigVariantImpl>(seq, ctx),
        DataComponent::PigSoundVariant => read_as::<PigSoundVariantImpl>(seq, ctx),
        DataComponent::CowVariant => read_as::<CowVariantImpl>(seq, ctx),
        DataComponent::CowSoundVariant => read_as::<CowSoundVariantImpl>(seq, ctx),
        DataComponent::ChickenVariant => read_as::<ChickenVariantImpl>(seq, ctx),
        DataComponent::ChickenSoundVariant => read_as::<ChickenSoundVariantImpl>(seq, ctx),
        DataComponent::ZombieNautilusVariant => read_as::<ZombieNautilusVariantImpl>(seq, ctx),
        DataComponent::FrogVariant => read_as::<FrogVariantImpl>(seq, ctx),
        DataComponent::HorseVariant => read_as::<HorseVariantImpl>(seq, ctx),
        DataComponent::PaintingVariant => read_as::<PaintingVariantImpl>(seq, ctx),
        DataComponent::LlamaVariant => read_as::<LlamaVariantImpl>(seq, ctx),
        DataComponent::AxolotlVariant => read_as::<AxolotlVariantImpl>(seq, ctx),
        DataComponent::CatVariant => read_as::<CatVariantImpl>(seq, ctx),
        DataComponent::CatSoundVariant => read_as::<CatSoundVariantImpl>(seq, ctx),
        DataComponent::CatCollar => read_as::<CatCollarImpl>(seq, ctx),
        DataComponent::SheepColor => read_as::<SheepColorImpl>(seq, ctx),
        DataComponent::ShulkerColor => read_as::<ShulkerColorImpl>(seq, ctx),
        _ => Err(crate::errors::message("component is nested")),
    }
}

/// Appends the value of a component that holds no stack, no predicate and no tag of its own.
pub fn write_flat(value: &ComponentValue, out: &mut Vec<u8>, ctx: &Context) -> (r: Result<(), WritingError>)
    requires
        flat_kind(value_kind(*value)),
    ensures
        encodes(write_val(component_format(value_kind(*value)), ctx@, old(out)@, value_val(*value)), r, final(out)@),
{
    match value {
        ComponentValue::CustomData(v) => write_as(v, out, ctx),
        ComponentValue::MaxStackSize(v) => write_as(v, out, ctx),
        ComponentValue::MaxDamage(v) => write_as(v, out, ctx),
        ComponentValue::Damage(v) => write_as(v, out, ctx),
        ComponentValue::Unbreakable(v) => write_as(v, out, ctx),
        ComponentValue::UseEffects(v) => write_as(v, out, ctx),
        ComponentValue::CustomName(v) => write_as(v, out, ctx),
        ComponentValue::MinimumAttackCharge(v) => write_as(v, out, ctx),
        ComponentValue::DamageType(v) => write_as(v, out, ctx),
        ComponentValue::ItemName(v) => write_as(v, out, ctx),
        ComponentValue::ItemModel(v) => write_as(v, out, ctx),
        ComponentValue::Lore(v) => write_as(v, out, ctx),
        ComponentValue::Rarity(v) => write_as(v, out, ctx),
        ComponentValue::Enchantments(v) => write_as(v, out, ctx),
        ComponentValue::AttributeModifiers(v) => write_as(v, out, ctx),
        ComponentValue::CustomModelData(v) => write_as(v, out, ctx),
        ComponentValue::TooltipDisplay(v) => write_as(v, out, ctx),
        ComponentValue::RepairCost(v) => write_as(v, out, ctx),
        ComponentValue::CreativeSlotLock(v) => write_as(v, out, ctx),
        ComponentValue::EnchantmentGlintOverride(v) => write_as(v, out, ctx),
        ComponentValue::Food(v) => write_as(v, out, ctx),
        ComponentValue::Consumable(v) => write_as(v, out, ctx),
        ComponentValue::UseCooldown(v) => write_as(v, out, ctx),
        ComponentValue::DamageResistant(v) => write_as(v, out, ctx),
        ComponentValue::Tool(v) => write_as(v, out, ctx),
        ComponentValue::Weapon(v) => write_as(v, out, ctx),
        ComponentValue::AttackRange(v) => write_as(v, out, ctx),
        ComponentValue::Enchantable(v) => write_as(v, out, ctx),
        ComponentValue::Equippable(v) => write_as(v, out, ctx),
        ComponentValue::Repairable(v) => write_as(v, out, ctx),
        ComponentValue::Glider(v) => write_as(v, out, ctx),
        ComponentValue::TooltipStyle(v) => write_as(v, out, ctx),
        ComponentValue::DeathProtection(v) => write_as(v, out, ctx),
        ComponentValue::BlocksAttacks(v) => write_as(v, out, ctx),
        ComponentValue::PiercingWeapon(v) => write_as(v, out, ctx),
        ComponentValue::KineticWeapon(v) => write_as(v, out, ctx),
        ComponentValue::SwingAnimation(v) => write_as(v, out, ctx),
        ComponentValue::AdditionalTradeCost(v) => write_as(v, out, ctx),
        ComponentValue::StoredEnchantments(v) => write_as(v, out, ctx),
        ComponentValue::Dye(v) => write_as(v, out, ctx),
        ComponentValue::DyedColor(v) => write_as(v, out, ctx),
        ComponentValue::MapColor(v) => write_as(v, out, ctx),
        ComponentValue::MapId(v) => write_as(v, out, ctx),
        ComponentValue::MapPostProcessing(v) => write_as(v, out, ctx),
        ComponentValue::PotionContents(v) => write_as(v, out, ctx),
        ComponentValue::PotionDurationScale(v) => write_as(v, out, ctx),
        ComponentValue::SuspiciousStewEffects(v) => write_as(v, out, ctx),
        ComponentValue::WritableBookContent(v) => write_as(v, out, ctx),
        ComponentValue::WrittenBookContent(v) => write_as(v, out, ctx),
        ComponentValue::Trim(v) => write_as(v, out, ctx),
        ComponentValue::EntityData(v) => write_as(v, out, ctx),
        ComponentValue::BucketEntityData(v) => write_as(v, out, ctx),
        ComponentValue::BlockEntityData(v) => write_as(v, out, ctx),
        ComponentValue::Instrument(v) => write_as(v, out, ctx),
        ComponentValue::ProvidesTrimMaterial(v) => write_as(v, out, ctx),
        ComponentValue::OminousBottleAmplifier(v) => write_as(v, out, ctx),
        ComponentValue::JukeboxPlayable(v) => write_as(v, out, ctx),
        ComponentValue::ProvidesBannerPatterns(v) => write_as(v, out, ctx),
        ComponentValue::LodestoneTracker(v) => write_as(v, out, ctx),
        ComponentValue::FireworkExplosion(v) => write_as(v, out, ctx),
        ComponentValue::Fireworks(v) => write_as(v, out, ctx),
        ComponentValue::Profile(v) => write_as(v, out, ctx),
        ComponentValue::NoteBlockSound(v) => write_as(v, out, ctx),
        ComponentValue::BannerPatterns(v) => write_as(v, out, ctx),
        ComponentValue::BaseColor(v) => write_as(v, out, ctx),
        ComponentValue::PotDecorations(v) => write_as(v, out, ctx),
        ComponentValue::BlockState(v) => write_as(v, out, ctx),
        ComponentValue::Bees(v) => write_as(v, out, ctx),
        ComponentValue::Lock(v) => write_as(v, out, ctx),
        ComponentValue::BreakSound(v) => write_as(v, out, ctx),
        ComponentValue::VillagerVariant(v) => write_as(v, out, ctx),
        ComponentValue::WolfVariant(v) => write_as(v, out, ctx),
        ComponentValue::WolfSoundVariant(v) => write_as(v, out, ctx),
        ComponentValue::WolfCollar(v) => write_as(v, out, ctx),
        ComponentValue::FoxVariant(v) => write_as(v, out, ctx),
        ComponentValue::SalmonSize(v) => write_as(v, out, ctx),
        ComponentValue::ParrotVariant(v) => write_as(v, out, ctx),
        ComponentValue::TropicalFishPattern(v) => write_as(v, out, ctx),
        ComponentValue::TropicalFishBaseColor(v) => write_as(v, out, ctx),
        ComponentValue::TropicalFishPatternColor(v) => write_as(v, out, ctx),
        ComponentValue::MooshroomVariant(v) => write_as(v, out, ctx),
        ComponentValue::RabbitVariant(v) => write_as(v, out, ctx),
        ComponentValue::PigVariant(v) => write_as(v, out, ctx),
        ComponentValue::PigSoundVariant(v) => write_as(v, out, ctx),
        ComponentValue::CowVariant(v) => write_as(v, out, ctx),
        ComponentValue::CowSoundVariant(v) => write_as(v, out, ctx),
        ComponentValue::ChickenVariant(v) => write_as(v, out, ctx),
        ComponentValue::ChickenSoundVariant(v) => write_as(v, out, ctx),
        ComponentValue::ZombieNautilusVariant(v) => write_as(v, out, ctx),
        ComponentValue::FrogVariant(v) => write_as(v, out, ctx),
        ComponentValue::HorseVariant(v) => write_as(v, out, ctx),
        ComponentValue::PaintingVariant(v) => write_as(v, out, ctx),
        ComponentValue::LlamaVariant(v) => write_as(v, out, ctx),
        ComponentValue::AxolotlVariant(v) => write_as(v, out, ctx),
        ComponentValue::CatVariant(v) => write_as(v, out, ctx),
        ComponentValue::CatSoundVariant(v) => write_as(v, out, ctx),
        ComponentValue::CatCollar(v) => write_as(v, out, ctx),
        ComponentValue::SheepColor(v) => write_as(v, out, ctx),
        ComponentValue::ShulkerColor(v) => write_as(v, out, ctx),
        _ => Err(crate::errors::cannot_write("component is nested")),
    }
}

} // verus!
