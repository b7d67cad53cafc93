//! Storing and reading back components and stacks.
use std::sync::Arc;
use vstd::prelude::*;
use crate::basic::{BannerPatternLayer, BannerPatternsImpl, BaseColorImpl, BreakSoundImpl, CreativeSlotLockImpl, CustomDataImpl, CustomModelDataImpl, CustomNameImpl, DamageImpl, EnchantmentGlintOverrideImpl, InstrumentImpl, ItemModelImpl, ItemNameImpl, LockImpl, LoreImpl, MaxDamageImpl, MaxStackSizeImpl, NoteBlockSoundImpl, PotDecorationsImpl, ProvidesBannerPatternsImpl, ProvidesTrimMaterialImpl, RarityImpl, TooltipDisplayImpl, TooltipStyleImpl, UnbreakableImpl};
use crate::block_entity::{BeesImpl, BlockEntityDataImpl, BlockStateImpl, BucketEntityDataImpl, EntityDataImpl};
use crate::book::{WritableBookContentImpl, WrittenBookContentImpl};
use crate::consumable::{ConsumableImpl, DeathProtectionImpl};
use crate::equipment::AttributeModifiersImpl;
use crate::stored::{ContainerLootImpl, DebugStickStateImpl, IntangibleProjectileImpl, MapDecorationsImpl, RecipesImpl};
use crate::utility::{DyeImpl, DyedColorImpl, FireworkExplosionImpl, FireworksImpl, JukeboxPlayableImpl, LodestoneTrackerImpl, MapColorImpl, MapIdImpl, MapPostProcessingImpl, ProfileImpl};
use crate::codec::{vals, Context, DataComponentCodec};
use crate::components::{component_format, value_kind, value_val, ComponentValue};
use crate::data_component::{component_of_name, DataComponent};
use crate::flat::{flat_kind, lemma_flat_formats, lemma_flat_read, lemma_flat_write, read_flat, write_flat};
use crate::format::{pair, ComponentVal, PatchVal, Val};
use crate::identifier::{strip_namespace, strip_prefix};
use crate::item_stack::{advanced, after_uid, next_uid, group_advanced, component_val, entry_val, group_stack_vals, patch_val, slot_vals, stack_val, stack_vals, BundleContentsImpl, CanBreakImpl, CanPlaceOnImpl, ChargedProjectilesImpl, ContainerImpl, ItemStack, ItemStackIdGenerator, SulfurCubeContentImpl, UseRemainderImpl, AIR_ID};
use crate::nbt_tag::{compound_get, lemma_entry_views, lemma_tag_views, tags_of, NbtCompound, NbtTag, Tag};
use crate::persist::{bundle_from, component_entries, data_from_tag, data_given, data_to_tag, form_given, own_from_tag, own_to_tag, patch_from, projectiles_from, slot_from, slot_tag, slot_tags, slots_from, stack_entries, stack_from, stack_tag, stack_tags, tag_given, template_from, untold, untold_in, untold_slot, untold_slots, untold_stack, untold_stacks, val_given, Entries};
use crate::stored_stack_return::lemma_stored_stack_entries;
use crate::registry::{share, Registries};
use crate::same::{last_place, match_tags};
use crate::tag_lists::stores;
use crate::tag_numbers::nbt_i32;
use crate::text::{concat, same_bytes};

verus! {

broadcast use {group_advanced, group_stack_vals, lemma_tag_views, lemma_entry_views};

/// The value of a component that holds no stack, as a tag describes it.
#[verifier::rlimit(60)]
fn read_plain_data(id: DataComponent, tag: &NbtTag, regs: &Registries) -> (r: Option<ComponentValue>)
    requires
        !nests(id),
    ensures
        stores(own_from_tag(id, *regs, tag@), r, |v: ComponentValue| value_val(v)),
        r matches Some(v) ==> value_kind(v) == id,
{
    proof {
        reveal(own_from_tag);
        reveal(value_val);
        lemma_no_values();
    }
    match id {
        DataComponent::CustomData => match CustomDataImpl::read_data(tag) {
            Some(v) => Some(ComponentValue::CustomData(v)),
            None => None,
        },
        DataComponent::MaxStackSize => match MaxStackSizeImpl::read_data(tag) {
            Some(v) => Some(ComponentValue::MaxStackSize(v)),
            None => None,
        },
        DataComponent::MaxDamage => match MaxDamageImpl::read_data(tag) {
            Some(v) => Some(ComponentValue::MaxDamage(v)),
            None => None,
        },
        DataComponent::Damage => match DamageImpl::read_data(tag) {
            Some(v) => Some(ComponentValue::Damage(v)),
            None => None,
        },
        DataComponent::DyedColor => match DyedColorImpl::read_data(tag) {
            Some(v) => Some(ComponentValue::DyedColor(v)),
            None => None,
        },
        DataComponent::MapId => match MapIdImpl::read_data(tag) {
            Some(v) => Some(ComponentValue::MapId(v)),
            None => None,
        },
        DataComponent::CustomName => match CustomNameImpl::read_data(tag) {
            Some(v) => Some(ComponentValue::CustomName(v)),
            None => None,
        },
        DataComponent::ItemName => match ItemNameImpl::read_data(tag) {
            Some(v) => Some(ComponentValue::ItemName(v)),
            None => None,
        },
        DataComponent::ItemModel => match ItemModelImpl::read_data(tag) {
            Some(v) => Some(ComponentValue::ItemModel(v)),
            None => None,
        },
        DataComponent::TooltipStyle => match TooltipStyleImpl::read_data(tag) {
            Some(v) => Some(ComponentValue::TooltipStyle(v)),
            None => None,
        },
        DataComponent::NoteBlockSound => match NoteBlockSoundImpl::read_data(tag) {
            Some(v) => Some(ComponentValue::NoteBlockSound(v)),
            None => None,
        },
        DataComponent::BaseColor => match BaseColorImpl::read_data(tag) {
            Some(v) => Some(ComponentValue::BaseColor(v)),
            None => None,
        },
        DataComponent::Lore => match LoreImpl::read_data(tag) {
            Some(v) => Some(ComponentValue::Lore(v)),
            None => None,
        },
        DataComponent::Rarity => match RarityImpl::read_data(tag) {
            Some(v) => Some(ComponentValue::Rarity(v)),
            None => None,
        },
        DataComponent::CustomModelData => match CustomModelDataImpl::read_data(tag) {
            Some(v) => Some(ComponentValue::CustomModelData(v)),
            None => None,
        },
        DataComponent::TooltipDisplay => match TooltipDisplayImpl::read_data(tag) {
            Some(v) => Some(ComponentValue::TooltipDisplay(v)),
            None => None,
        },
        DataComponent::BannerPatterns => match BannerPatternsImpl::read_data(tag) {
            Some(v) => Some(ComponentValue::BannerPatterns(v)),
            None => None,
        },
        DataComponent::Lock => match LockImpl::read_data(tag) {
            Some(v) => Some(ComponentValue::Lock(v)),
            None => None,
        },
        DataComponent::BlockEntityData => match BlockEntityDataImpl::read_data(tag) {
            Some(v) => Some(ComponentValue::BlockEntityData(v)),
            None => None,
        },
        DataComponent::MapPostProcessing => match MapPostProcessingImpl::read_data(tag) {
            Some(v) => Some(ComponentValue::MapPostProcessing(v)),
            None => None,
        },
        DataComponent::LodestoneTracker => match LodestoneTrackerImpl::read_data(tag) {
            Some(v) => Some(ComponentValue::LodestoneTracker(v)),
            None => None,
        },
        DataComponent::FireworkExplosion => match FireworkExplosionImpl::read_data(tag) {
            Some(v) => Some(ComponentValue::FireworkExplosion(v)),
            None => None,
        },
        DataComponent::Fireworks => match FireworksImpl::read_data(tag) {
            Some(v) => Some(ComponentValue::Fireworks(v)),
            None => None,
        },
        DataComponent::Profile => match ProfileImpl::read_data(tag) {
            Some(v) => Some(ComponentValue::Profile(v)),
            None => None,
        },
        DataComponent::JukeboxPlayable => match JukeboxPlayableImpl::read_data(tag, regs) {
            Some(v) => Some(ComponentValue::JukeboxPlayable(v)),
            None => None,
        },
        DataComponent::Recipes => match RecipesImpl::read_data(tag) {
            Some(v) => Some(ComponentValue::Recipes(v)),
            None => None,
        },
        DataComponent::MapDecorations => match MapDecorationsImpl::read_data(tag) {
            Some(v) => Some(ComponentValue::MapDecorations(v)),
            None => None,
        },
        DataComponent::BlockState => match BlockStateImpl::read_data(tag) {
            Some(v) => Some(ComponentValue::BlockState(v)),
            None => None,
        },
        DataComponent::ContainerLoot => match ContainerLootImpl::read_data(tag) {
            Some(v) => Some(ComponentValue::ContainerLoot(v)),
            None => None,
        },
        DataComponent::WritableBookContent => match WritableBookContentImpl::read_data(tag) {
            Some(v) => Some(ComponentValue::WritableBookContent(v)),
            None => None,
        },
        DataComponent::WrittenBookContent => match WrittenBookContentImpl::read_data(tag) {
            Some(v) => Some(ComponentValue::WrittenBookContent(v)),
            None => None,
        },
        DataComponent::DebugStickState => match DebugStickStateImpl::read_data(tag, regs) {
            Some(v) => Some(ComponentValue::DebugStickState(v)),
            None => None,
        },
        DataComponent::IntangibleProjectile => match IntangibleProjectileImpl::read_data(tag) {
            Some(v) => Some(ComponentValue::IntangibleProjectile(v)),
            None => None,
        },
        DataComponent::DeathProtection => match DeathProtectionImpl::read_data(tag, regs) {
            Some(v) => Some(ComponentValue::DeathProtection(v)),
            None => None,
        },
        DataComponent::Consumable => match ConsumableImpl::read_data(tag, regs) {
            Some(v) => Some(ComponentValue::Consumable(v)),
            None => None,
        },
        DataComponent::AttributeModifiers => match AttributeModifiersImpl::read_data(tag, regs) {
            Some(v) => Some(ComponentValue::AttributeModifiers(v)),
            None => None,
        },
        DataComponent::Unbreakable => match UnbreakableImpl::read_data(tag) {
            Some(v) => Some(ComponentValue::Unbreakable(v)),
            None => None,
        },
        DataComponent::CreativeSlotLock => match CreativeSlotLockImpl::read_data(tag) {
            Some(v) => Some(ComponentValue::CreativeSlotLock(v)),
            None => None,
        },
        DataComponent::EnchantmentGlintOverride => match EnchantmentGlintOverrideImpl::read_data(tag) {
            Some(v) => Some(ComponentValue::EnchantmentGlintOverride(v)),
            None => None,
        },
        DataComponent::Instrument => match InstrumentImpl::read_data(tag) {
            Some(v) => Some(ComponentValue::Instrument(v)),
            None => None,
        },
        DataComponent::ProvidesTrimMaterial => match ProvidesTrimMaterialImpl::read_data(tag) {
            Some(v) => Some(ComponentValue::ProvidesTrimMaterial(v)),
            None => None,
        },
        DataComponent::ProvidesBannerPatterns => match ProvidesBannerPatternsImpl::read_data(tag) {
            Some(v) => Some(ComponentValue::ProvidesBannerPatterns(v)),
            None => None,
        },
        DataComponent::PotDecorations => match PotDecorationsImpl::read_data(tag) {
            Some(v) => Some(ComponentValue::PotDecorations(v)),
            None => None,
        },
        DataComponent::BreakSound => match BreakSoundImpl::read_data(tag) {
            Some(v) => Some(ComponentValue::BreakSound(v)),
            None => None,
        },
        DataComponent::Dye => match DyeImpl::read_data(tag) {
            Some(v) => Some(ComponentValue::Dye(v)),
            None => None,
        },
        DataComponent::MapColor => match MapColorImpl::read_data(tag) {
            Some(v) => Some(ComponentValue::MapColor(v)),
            None => None,
        },
        DataComponent::EntityData => match EntityDataImpl::read_data(tag) {
            Some(v) => Some(ComponentValue::EntityData(v)),
            None => None,
        },
        DataComponent::BucketEntityData => match BucketEntityDataImpl::read_data(tag) {
            Some(v) => Some(ComponentValue::BucketEntityData(v)),
            None => None,
        },
        DataComponent::Bees => match BeesImpl::read_data(tag) {
            Some(v) => Some(ComponentValue::Bees(v)),
            None => None,
        },
        _ => None,
    }
}

/// The tag of the value of a component that holds no stack.
#[verifier::rlimit(60)]
fn write_plain_data(value: &ComponentValue, regs: &Registries) -> (r: Option<NbtTag>)
    requires
        !nests(value_kind(*value)),
    ensures
        is_tag(own_to_tag(value_kind(*value), *regs, value_val(*value)), r),
{
    proof {
        reveal(own_to_tag);
        reveal(value_val);
    }
    match value {
        ComponentValue::CustomData(v) => Some(v.write_data()),
        ComponentValue::MaxStackSize(v) => Some(v.write_data()),
        ComponentValue::MaxDamage(v) => Some(v.write_data()),
        ComponentValue::Damage(v) => Some(v.write_data()),
        ComponentValue::DyedColor(v) => Some(v.write_data()),
        ComponentValue::MapId(v) => Some(v.write_data()),
        ComponentValue::CustomName(v) => Some(v.write_data()),
        ComponentValue::ItemName(v) => Some(v.write_data()),
        ComponentValue::ItemModel(v) => Some(v.write_data()),
        ComponentValue::TooltipStyle(v) => Some(v.write_data()),
        ComponentValue::NoteBlockSound(v) => Some(v.write_data()),
        ComponentValue::BaseColor(v) => Some(v.write_data()),
        ComponentValue::Lore(v) => Some(v.write_data()),
        ComponentValue::Rarity(v) => Some(v.write_data()),
        ComponentValue::CustomModelData(v) => Some(v.write_data()),
        ComponentValue::TooltipDisplay(v) => Some(v.write_data()),
        ComponentValue::BannerPatterns(v) => Some(v.write_data()),
        ComponentValue::Lock(v) => Some(v.write_data()),
        ComponentValue::BlockEntityData(v) => Some(v.write_data()),
        ComponentValue::MapPostProcessing(v) => Some(v.write_data()),
        ComponentValue::LodestoneTracker(v) => Some(v.write_data()),
        ComponentValue::FireworkExplosion(v) => Some(v.write_data()),
        ComponentValue::Fireworks(v) => Some(v.write_data()),
        ComponentValue::Profile(v) => Some(v.write_data()),
        ComponentValue::JukeboxPlayable(v) => Some(v.write_data()),
        ComponentValue::Recipes(v) => Some(v.write_data()),
        ComponentValue::MapDecorations(v) => Some(v.write_data()),
        ComponentValue::BlockState(v) => Some(v.write_data()),
        ComponentValue::ContainerLoot(v) => Some(v.write_data()),
        ComponentValue::WritableBookContent(v) => Some(v.write_data()),
        ComponentValue::WrittenBookContent(v) => Some(v.write_data()),
        ComponentValue::DebugStickState(v) => Some(v.write_data()),
        ComponentValue::IntangibleProjectile(v) => Some(v.write_data()),
        ComponentValue::DeathProtection(v) => v.write_data(regs),
        ComponentValue::Consumable(v) => v.write_data(regs),
        ComponentValue::AttributeModifiers(v) => v.write_data(regs),
        ComponentValue::Unbreakable(v) => Some(v.write_data()),
        ComponentValue::CreativeSlotLock(v) => Some(v.write_data()),
        ComponentValue::EnchantmentGlintOverride(v) => Some(v.write_data()),
        ComponentValue::Instrument(v) => Some(v.write_data()),
        ComponentValue::ProvidesTrimMaterial(v) => Some(v.write_data()),
        ComponentValue::ProvidesBannerPatterns(v) => Some(v.write_data()),
        ComponentValue::PotDecorations(v) => Some(v.write_data()),
        ComponentValue::BreakSound(v) => Some(v.write_data()),
        ComponentValue::Dye(v) => Some(v.write_data()),
        ComponentValue::MapColor(v) => Some(v.write_data()),
        ComponentValue::EntityData(v) => Some(v.write_data()),
        ComponentValue::BucketEntityData(v) => Some(v.write_data()),
        ComponentValue::Bees(v) => Some(v.write_data()),
        _ => None,
    }
}

/// Whether a component holds stacks or predicates.
pub open spec fn nests(id: DataComponent) -> bool {
    id == DataComponent::UseRemainder || id == DataComponent::SulfurCubeContent || id == DataComponent::BundleContents || id
        == DataComponent::ChargedProjectiles || id == DataComponent::Container || id == DataComponent::CanPlaceOn || id
        == DataComponent::CanBreak
}

/// Whether a tag that was made is `o`.
pub open spec fn is_tag(o: Option<Tag>, r: Option<NbtTag>) -> bool {
    match r {
        Some(t) => o == Some(t@),
        None => o is None,
    }
}

proof fn lemma_no_values()
    ensures
        vals::<BannerPatternLayer>(Seq::empty()) == Seq::<Val>::empty(),
{
    assert(vals::<BannerPatternLayer>(Seq::empty()) =~= Seq::<Val>::empty());
}

/// The value of a component, as a tag describes it in a form that the registries hold.
fn find_value(id: DataComponent, tag: &NbtTag, regs: &Registries) -> (r: Option<ComponentValue>)
    ensures
        stores(val_given(*regs, id, tag@), r, |v: ComponentValue| value_val(v)),
        r matches Some(v) ==> value_kind(v) == id,
{
    if !is_flat_kind(id) {
        return None;
    }
    let ctx = Context::new(regs);
    let mut i: usize = 0;
    while i < regs.stored_forms.len()
        invariant
            i <= regs.stored_forms.len(),
            flat_kind(id),
            ctx@.regs == *regs,
            data_given(regs.stored_forms@, id, tag@, 0) == data_given(regs.stored_forms@, id, tag@, i as int),
        decreases regs.stored_forms.len() - i,
    {
        let form = &regs.stored_forms[i];
        if form.id == id && match_tags(&form.tag, tag, true) {
            let mut seq: &[u8] = form.data.as_slice();
            proof {
                lemma_flat_formats(id);
                lemma_flat_read(component_format(id), ctx@, seq@);
            }
            return match read_flat(id, &mut seq, &ctx) {
                Ok(v) => Some(v),
                Err(_) => None,
            };
        }
        i += 1;
    }
    None
}

/// The tag of a component in a form that the registries hold.
fn find_tag(value: &ComponentValue, regs: &Registries) -> (r: Option<NbtTag>)
    ensures
        is_tag(tag_given(*regs, value_kind(*value), value_val(*value)), r),
{
    let id = value.get_self_enum();
    if !is_flat_kind(id) {
        return None;
    }
    let ctx = Context::new(regs);
    let mut data: Vec<u8> = Vec::new();
    assert(data@ =~= Seq::<u8>::empty());
    proof {
        lemma_flat_formats(id);
        lemma_flat_write(component_format(id), ctx@, data@, value_val(*value));
    }
    match write_flat(value, &mut data, &ctx) {
        Ok(_) => {},
        Err(_) => {
            return None;
        },
    }
    let mut i: usize = 0;
    while i < regs.stored_forms.len()
        invariant
            i <= regs.stored_forms.len(),
            tag_given(*regs, value_kind(*value), value_val(*value)) == form_given(regs.stored_forms@, id, data@, i as int),
        decreases regs.stored_forms.len() - i,
    {
        let form = &regs.stored_forms[i];
        if form.id == id && same_bytes(form.data.as_slice(), data.as_slice()) {
            return Some(form.tag.copy());
        }
        i += 1;
    }
    None
}

/// Whether the values of a component type hold no stack, no predicate and no tag of their own.
fn is_flat_kind(id: DataComponent) -> (r: bool)
    ensures
        r == flat_kind(id),
{
    match id {
        DataComponent::UseRemainder
        | DataComponent::SulfurCubeContent
        | DataComponent::BundleContents
        | DataComponent::ChargedProjectiles
        | DataComponent::Container
        | DataComponent::CanPlaceOn
        | DataComponent::CanBreak
        | DataComponent::IntangibleProjectile
        | DataComponent::MapDecorations
        | DataComponent::DebugStickState
        | DataComponent::Recipes
        | DataComponent::ContainerLoot => false,
        _ => true,
    }
}

/// The value of a component, as a tag describes it: in the library's own form, or in one that the
/// registries hold.
pub fn read_data(id: DataComponent, tag: &NbtTag, regs: &Registries, ids: &mut ItemStackIdGenerator) -> (r: Option<ComponentValue>)
    ensures
        advanced(old(ids).counter, final(ids).counter),
        stores(data_from_tag(id, *regs, tag@), r, |v: ComponentValue| value_val(v)),
        r matches Some(v) ==> value_kind(v) == id,
    decreases *tag, 5nat,
{
    proof {
        reveal(own_from_tag);
    }
    match read_own_data(id, tag, regs, ids) {
        Some(v) => Some(v),
        None => find_value(id, tag, regs),
    }
}

/// The value of a component, as a tag in the library's own form describes it.
pub fn read_own_data(id: DataComponent, tag: &NbtTag, regs: &Registries, ids: &mut ItemStackIdGenerator) -> (r: Option<ComponentValue>)
    ensures
        advanced(old(ids).counter, final(ids).counter),
        stores(own_from_tag(id, *regs, tag@), r, |v: ComponentValue| value_val(v)),
        r matches Some(v) ==> value_kind(v) == id,
    decreases *tag, 4nat,
{
    proof {
        reveal(own_from_tag);
        reveal(value_val);
    }
    match id {
        DataComponent::UseRemainder => match ItemStack::read_item_stack_template(tag, regs, ids) {
            Some(convert_into) => Some(ComponentValue::UseRemainder(UseRemainderImpl { convert_into })),
            None => None,
        },
        DataComponent::SulfurCubeContent => match ItemStack::read_item_stack_template(tag, regs, ids) {
            Some(absorbed_block_item_stack) => Some(
                ComponentValue::SulfurCubeContent(SulfurCubeContentImpl { absorbed_block_item_stack }),
            ),
            None => None,
        },
        DataComponent::BundleContents => match tag {
            NbtTag::List(l) => Some(ComponentValue::BundleContents(BundleContentsImpl { items: read_bundle(l, regs, ids) })),
            _ => {
                let items: Vec<ItemStack> = Vec::new();
                assert(stack_vals(items@, 0) =~= Seq::<Val>::empty());
                Some(ComponentValue::BundleContents(BundleContentsImpl { items }))
            },
        },
        DataComponent::ChargedProjectiles => match tag {
            NbtTag::List(l) => match read_projectiles(l, regs, ids) {
                Some(projectiles) => Some(ComponentValue::ChargedProjectiles(ChargedProjectilesImpl { projectiles })),
                None => None,
            },
            _ => None,
        },
        DataComponent::Container => match tag {
            NbtTag::List(l) => match read_slots(l, regs, ids) {
                Some(items) => Some(ComponentValue::Container(ContainerImpl { items })),
                None => None,
            },
            _ => None,
        },
        DataComponent::CanPlaceOn => Some(ComponentValue::CanPlaceOn(CanPlaceOnImpl { predicate: tag.copy() })),
        DataComponent::CanBreak => Some(ComponentValue::CanBreak(CanBreakImpl { predicate: tag.copy() })),
        _ => read_plain_data(id, tag, regs),
    }
}

/// The stacks that a list of tags describes; what describes none is left out.
fn read_bundle(l: &Vec<NbtTag>, regs: &Registries, ids: &mut ItemStackIdGenerator) -> (r: Vec<ItemStack>)
    ensures
        advanced(old(ids).counter, final(ids).counter),
        stack_vals(r@, r@.len()) == bundle_from(*regs, tags_of(l@), l@.len()),
    decreases *l, 3nat,
{
    let ghost tags = tags_of(l@);
    let mut out: Vec<ItemStack> = Vec::new();
    assert(stack_vals(out@, 0) =~= bundle_from(*regs, tags, 0));
    let mut i: usize = 0;
    while i < l.len()
        invariant
            advanced(old(ids).counter, ids.counter),
            i <= l.len(),
            tags == tags_of(l@),
            stack_vals(out@, out@.len()) == bundle_from(*regs, tags, i as nat),
        decreases l.len() - i,
    {
        assert(tags[i as int] == l@[i as int]@);
        match &l[i] {
            NbtTag::Compound(c) => {
                assert(decreases_to!(*l => l@[i as int]));
                match ItemStack::read_item_stack(c, regs, ids) {
                    Some(s) => {
                        let ghost before = stack_vals(out@, out@.len());
                        let ghost v = Val::Stack(stack_val(s));
                        out.push(s);
                        assert(stack_vals(out@, out@.len()) =~= before.push(v));
                    },
                    None => {},
                }
            },
            _ => {},
        }
        i += 1;
    }
    out
}

proof fn lemma_projectiles_none(regs: Registries, l: Seq<Tag>, i: nat, n: nat)
    requires
        i < n <= l.len(),
        projectiles_from(regs, l, i + 1) is None,
    ensures
        projectiles_from(regs, l, n) is None,
    decreases n,
{
    if i + 1 < n {
        lemma_projectiles_none(regs, l, i, (n - 1) as nat);
    }
}

/// The stacks that a list of tags describes.
fn read_projectiles(l: &Vec<NbtTag>, regs: &Registries, ids: &mut ItemStackIdGenerator) -> (r: Option<Vec<ItemStack>>)
    ensures
        advanced(old(ids).counter, final(ids).counter),
        match r {
            Some(v) => projectiles_from(*regs, tags_of(l@), l@.len()) == Some(stack_vals(v@, v@.len())),
            None => projectiles_from(*regs, tags_of(l@), l@.len()) is None,
        },
    decreases *l, 3nat,
{
    let ghost tags = tags_of(l@);
    let mut out: Vec<ItemStack> = Vec::new();
    assert(stack_vals(out@, 0) =~= Seq::<Val>::empty());
    let mut i: usize = 0;
    while i < l.len()
        invariant
            advanced(old(ids).counter, ids.counter),
            i <= l.len(),
            tags == tags_of(l@),
            projectiles_from(*regs, tags, i as nat) == Some(stack_vals(out@, out@.len())),
        decreases l.len() - i,
    {
        assert(tags[i as int] == l@[i as int]@);
        let stack: Option<ItemStack> = match &l[i] {
            NbtTag::Compound(c) => {
                assert(decreases_to!(*l => l@[i as int]));
                ItemStack::read_item_stack(c, regs, ids)
            },
            _ => None,
        };
        match stack {
            Some(s) => {
                let ghost before = stack_vals(out@, out@.len());
                let ghost v = Val::Stack(stack_val(s));
                out.push(s);
                assert(stack_vals(out@, out@.len()) =~= before.push(v));
            },
            None => {
                proof {
                    assert(projectiles_from(*regs, tags, (i + 1) as nat) is None);
                    lemma_projectiles_none(*regs, tags, i as nat, tags.len());
                }
                return None;
            },
        }
        i += 1;
    }
    Some(out)
}

/// The slot and the stack that a tag describes.
fn read_slot(t: &NbtTag, regs: &Registries, ids: &mut ItemStackIdGenerator) -> (r: Option<(u8, ItemStack)>)
    ensures
        advanced(old(ids).counter, final(ids).counter),
        stores(
            slot_from(*regs, t@),
            r,
            |v: (u8, ItemStack)| pair(Val::Int(v.0 as int), Val::Stack(stack_val(v.1))),
        ),
    decreases *t, 3nat,
{
    let c = match t {
        NbtTag::Compound(c) => c,
        _ => {
            return None;
        },
    };
    let slot: i32 = match c.get("slot") {
        Some(s) => match nbt_i32(s) {
            Some(v) => v,
            None => {
                return None;
            },
        },
        None => {
            return None;
        },
    };
    let i: usize = match c.find("item") {
        Some(i) => i,
        None => {
            return None;
        },
    };
    if slot < 0 || slot > 255 {
        return None;
    }
    assert(c@[i as int].1 == c.child_tags@[i as int].1@);
    assert(decreases_to!(*c => c.child_tags@[i as int].1));
    match ItemStack::read_item_stack_template(&c.child_tags[i].1, regs, ids) {
        Some(s) => Some((slot as u8, s)),
        None => None,
    }
}

proof fn lemma_slots_none(regs: Registries, l: Seq<Tag>, i: nat, n: nat)
    requires
        i < n <= l.len(),
        slot_from(regs, l[i as int]) is None,
    ensures
        slots_from(regs, l, n) is None,
    decreases n,
{
    if i + 1 < n {
        lemma_slots_none(regs, l, i, (n - 1) as nat);
    }
}

/// The slots and the stacks that a list of tags describes.
fn read_slots(l: &Vec<NbtTag>, regs: &Registries, ids: &mut ItemStackIdGenerator) -> (r: Option<Vec<(u8, ItemStack)>>)
    ensures
        advanced(old(ids).counter, final(ids).counter),
        match r {
            Some(v) => slots_from(*regs, tags_of(l@), l@.len()) == Some(slot_vals(v@, v@.len())),
            None => slots_from(*regs, tags_of(l@), l@.len()) is None,
        },
    decreases *l, 3nat,
{
    let ghost tags = tags_of(l@);
    let mut out: Vec<(u8, ItemStack)> = Vec::new();
    assert(slot_vals(out@, 0) =~= Seq::<Val>::empty());
    let mut i: usize = 0;
    while i < l.len()
        invariant
            advanced(old(ids).counter, ids.counter),
            i <= l.len(),
            tags == tags_of(l@),
            slots_from(*regs, tags, i as nat) == Some(slot_vals(out@, out@.len())),
        decreases l.len() - i,
    {
        assert(tags[i as int] == l@[i as int]@);
        assert(decreases_to!(*l => l@[i as int]));
        match read_slot(&l[i], regs, ids) {
            Some(s) => {
                let ghost before = slot_vals(out@, out@.len());
                let ghost v = pair(Val::Int(s.0 as int), Val::Stack(stack_val(s.1)));
                out.push(s);
                assert(slot_vals(out@, out@.len()) =~= before.push(v));
            },
            None => {
                proof {
                    lemma_slots_none(*regs, tags, i as nat, tags.len());
                }
                return None;
            },
        }
        i += 1;
    }
    Some(out)
}

proof fn lemma_patch_none(regs: Registries, c: Entries, i: nat, n: nat)
    requires
        i < n <= c.len(),
        patch_from(regs, c, i + 1) is None,
    ensures
        patch_from(regs, c, n) is None,
    decreases n,
{
    if i + 1 < n {
        lemma_patch_none(regs, c, i, (n - 1) as nat);
    }
}

/// The entry of a patch that a named tag describes.
fn read_entry(name: &str, tag: &NbtTag, regs: &Registries, ids: &mut ItemStackIdGenerator) -> (r: Option<
    (DataComponent, Option<Arc<ComponentValue>>),
>)
    ensures
        advanced(old(ids).counter, final(ids).counter),
        match r {
            Some(e) => forall|head: PatchVal| #[trigger]
                entry_from(*regs, name@, tag@, head) == Some(head.push(entry_val(e))),
            None => forall|head: PatchVal| #[trigger] entry_from(*regs, name@, tag@, head) is None,
        },
    decreases *tag, 6nat,
{
    match strip_prefix(name, "!") {
        Some(rest) => match DataComponent::try_from_name(rest.as_str()) {
            Some(k) => Some((k, None)),
            None => None,
        },
        None => match DataComponent::try_from_name(name) {
            Some(k) => match read_data(k, tag, regs, ids) {
                Some(v) => Some((k, Some(Arc::new(v)))),
                None => None,
            },
            None => None,
        },
    }
}

/// The patch with the entry that a named tag describes.
pub open spec fn entry_from(regs: Registries, name: Seq<char>, tag: Tag, head: PatchVal) -> Option<PatchVal> {
    if "!"@.is_prefix_of(name) {
        match component_of_name(name.skip("!"@.len() as int)) {
            Some(k) => Some(head.push((k, None))),
            None => None,
        }
    } else {
        match component_of_name(name) {
            Some(k) => match data_from_tag(k, regs, tag) {
                Some(val) => Some(head.push((k, Some(ComponentVal { kind: k, val })))),
                None => None,
            },
            None => None,
        }
    }
}

/// The patch that the entries of a compound describe.
fn read_patch(c: &NbtCompound, regs: &Registries, ids: &mut ItemStackIdGenerator) -> (r: Option<
    Vec<(DataComponent, Option<Arc<ComponentValue>>)>,
>)
    ensures
        advanced(old(ids).counter, final(ids).counter),
        match r {
            Some(p) => patch_from(*regs, c@, c@.len()) == Some(patch_val(p@)),
            None => patch_from(*regs, c@, c@.len()) is None,
        },
    decreases *c, 0nat,
{
    let mut patch: Vec<(DataComponent, Option<Arc<ComponentValue>>)> = Vec::new();
    assert(patch_val(patch@) =~= Seq::empty());
    let mut i: usize = 0;
    while i < c.child_tags.len()
        invariant
            advanced(old(ids).counter, ids.counter),
            i <= c.child_tags.len(),
            c@.len() == c.child_tags@.len(),
            patch_from(*regs, c@, i as nat) == Some(patch_val(patch@)),
        decreases c.child_tags.len() - i,
    {
        assert(c@[i as int] == (c.child_tags@[i as int].0@, c.child_tags@[i as int].1@));
        assert(decreases_to!(*c => c.child_tags@[i as int].1));
        let ghost before = patch_val(patch@);
        proof {
            reveal(own_from_tag);
        }
        assert(patch_from(*regs, c@, (i + 1) as nat) == entry_from(*regs, c@[i as int].0, c@[i as int].1, before));
        match read_entry(c.child_tags[i].0.as_str(), &c.child_tags[i].1, regs, ids) {
            Some(e) => {
                let ghost v = entry_val(e);
                patch.push(e);
                assert(patch_val(patch@) =~= before.push(v));
            },
            None => {
                proof {
                    lemma_patch_none(*regs, c@, i as nat, c@.len());
                }
                return None;
            },
        }
        i += 1;
    }
    Some(patch)
}

impl ItemStack {
    /// The stack that a compound describes.
    pub fn read_item_stack(compound: &NbtCompound, regs: &Registries, ids: &mut ItemStackIdGenerator) -> (r: Option<Self>)
        ensures
            advanced(old(ids).counter, final(ids).counter),
            match r {
                Some(s) => stack_from(*regs, compound@) == Some(stack_val(s)) && s.uid == next_uid(old(ids).counter) && advanced(
                    after_uid(old(ids).counter),
                    final(ids).counter,
                ),
                None => stack_from(*regs, compound@) is None,
            },
        decreases *compound, 1nat,
    {
        let item = match compound.get_string("id") {
            Some(id) => match regs.item_by_key(strip_namespace(id.as_str()).as_str()) {
                Some(item) => item,
                None => {
                    return None;
                },
            },
            None => {
                return None;
            },
        };
        if item.id == AIR_ID {
            return None;
        }
        let count: u8 = match compound.get("count") {
            None => 1,
            Some(t) => match nbt_i32(t) {
                Some(v) => {
                    if v < 1 || v > 99 {
                        return None;
                    }
                    v as u8
                },
                None => {
                    return None;
                },
            },
        };
        let uid: i32 = ids.next_id();
        let patch: Vec<(DataComponent, Option<Arc<ComponentValue>>)> = match compound.find("components") {
            None => {
                let none: Vec<(DataComponent, Option<Arc<ComponentValue>>)> = Vec::new();
                assert(patch_val(none@) =~= Seq::empty());
                none
            },
            Some(i) => {
                assert(compound@[i as int].1 == compound.child_tags@[i as int].1@);
                match &compound.child_tags[i].1 {
                    NbtTag::Compound(m) => {
                        assert(decreases_to!(*compound => compound.child_tags@[i as int].1));
                        match read_patch(m, regs, ids) {
                            Some(p) => p,
                            None => {
                                return None;
                            },
                        }
                    },
                    _ => {
                        return None;
                    },
                }
            },
        };
        Some(ItemStack { item_count: count, item, patch, uid })
    }

    /// The stack that a tag describes: a compound, or the name of an item.
    pub fn read_item_stack_template(data: &NbtTag, regs: &Registries, ids: &mut ItemStackIdGenerator) -> (r: Option<Self>)
        ensures
            advanced(old(ids).counter, final(ids).counter),
            match r {
                Some(s) => template_from(*regs, data@) == Some(stack_val(s)) && s.uid == next_uid(old(ids).counter) && advanced(
                    after_uid(old(ids).counter),
                    final(ids).counter,
                ),
                None => template_from(*regs, data@) is None,
            },
        decreases *data, 2nat,
    {
        match data {
            NbtTag::String(id) => match regs.item_by_key(strip_namespace(id.as_str()).as_str()) {
                Some(item) => {
                    if item.id == AIR_ID {
                        None
                    } else {
                        Some(ItemStack::new(1, item, ids))
                    }
                },
                None => None,
            },
            NbtTag::Compound(c) => ItemStack::read_item_stack(c, regs, ids),
            _ => None,
        }
    }

    /// Sets the entries that describe the stack, and tells which components were left out because
    /// they have no stored form: neither one of the library's own, nor one that the registries hold.
    pub fn write_item_stack(&self, compound: &mut NbtCompound, regs: &Registries) -> (r: Vec<Arc<ComponentValue>>)
        ensures
            final(compound)@ == stack_entries(*regs, stack_val(*self), old(compound)@),
            compound_get(final(compound)@, "id"@) == Some(Tag::String("minecraft:"@ + self.item.registry_key@)),
            compound_get(final(compound)@, "count"@) == Some(Tag::Int(self.item_count as int)),
            compound_get(final(compound)@, "components"@) == Some(
                Tag::Compound(component_entries(*regs, stack_val(*self).patch, 0, Seq::empty())),
            ),
            forall|key: Seq<char>|
                key != "id"@ && key != "count"@ && key != "components"@ ==> #[trigger] compound_get(final(compound)@, key)
                    == compound_get(old(compound)@, key),
            component_vals(r@) == untold(*regs, stack_val(*self).patch, 0),
    {
        put_stack(self, compound, regs);
        assert forall|key: Seq<char>| key != "id"@ && key != "count"@ && key != "components"@ implies #[trigger] compound_get(
            compound@,
            key,
        ) == compound_get(old(compound)@, key) by {
            lemma_stored_stack_entries(*regs, stack_val(*self), old(compound)@, key);
        }
        proof {
            lemma_stored_stack_entries(*regs, stack_val(*self), old(compound)@, "id"@);
        }
        let mut out: Vec<Arc<ComponentValue>> = Vec::new();
        add_untold(self, regs, &mut out);
        assert(component_vals(out@) =~= untold(*regs, stack_val(*self).patch, 0));
        out
    }
}

/// What components are.
pub open spec fn component_vals(v: Seq<Arc<ComponentValue>>) -> Seq<ComponentVal> {
    Seq::new(v.len(), |i: int| component_val(*v[i]))
}

/// The place of the last entry for a component among the first `n` of a patch.
pub fn find_last(patch: &Vec<(DataComponent, Option<Arc<ComponentValue>>)>, id: DataComponent, n: usize) -> (r: Option<usize>)
    requires
        n <= patch@.len(),
    ensures
        match r {
            Some(i) => last_place(patch_val(patch@), id, n as nat) == Some(i as int) && i < n,
            None => last_place(patch_val(patch@), id, n as nat) is None,
        },
{
    let ghost p = patch_val(patch@);
    let mut i: usize = n;
    while i > 0
        invariant
            i <= n <= patch@.len(),
            p == patch_val(patch@),
            last_place(p, id, n as nat) == last_place(p, id, i as nat),
        decreases i,
    {
        assert(p[i - 1] == entry_val(patch@[i - 1]));
        if patch[i - 1].0 == id {
            return Some(i - 1);
        }
        i -= 1;
    }
    None
}

/// The compound of the effective components of a stack.
fn write_patch(stack: &ItemStack, regs: &Registries) -> (r: NbtCompound)
    ensures
        r@ == component_entries(*regs, stack_val(*stack).patch, 0, Seq::empty()),
    decreases *stack, 0nat,
{
    proof {
        reveal(own_to_tag);
    }
    let ghost p = patch_val(stack.patch@);
    let ghost o = component_entries(*regs, p, 0, Seq::empty());
    let n: usize = stack.patch.len();
    let mut c = NbtCompound::new();
    let mut i: usize = 0;
    while i < n
        invariant
            i <= n,
            n == stack.patch@.len(),
            p == patch_val(stack.patch@),
            o == component_entries(*regs, p, 0, Seq::empty()),
            o == component_entries(*regs, p, i as nat, c@),
        decreases n - i,
    {
        proof {
            reveal(own_to_tag);
        }
        let id = stack.patch[i].0;
        assert(p[i as int] == entry_val(stack.patch@[i as int]));
        if find_last(&stack.patch, id, i).is_none() {
            match find_last(&stack.patch, id, n) {
                Some(j) => {
                    assert(p[j as int] == entry_val(stack.patch@[j as int]));
                    match &stack.patch[j].1 {
                        None => {
                            c.put_compound(concat("!", id.to_name()).as_str(), NbtCompound::new());
                        },
                        Some(v) => {
                            assert(decreases_to!(*stack => stack.patch@[j as int].1));
                            match write_data(v, regs) {
                                Some(t) => {
                                    c.put(id.to_name(), t);
                                },
                                None => {},
                            }
                        },
                    }
                },
                None => {
                    return c;
                },
            }
        }
        i += 1;
    }
    c
}

/// Sets the entries that describe a stack.
fn put_stack(stack: &ItemStack, compound: &mut NbtCompound, regs: &Registries)
    ensures
        final(compound)@ == stack_entries(*regs, stack_val(*stack), old(compound)@),
    decreases *stack, 1nat,
{
    let components = write_patch(stack, regs);
    compound.put_string("id", concat("minecraft:", stack.item.registry_key.as_str()));
    compound.put_int("count", stack.item_count as i32);
    compound.put_compound("components", components);
}

/// The tag of a stack.
fn write_stack(stack: &ItemStack, regs: &Registries) -> (r: NbtTag)
    ensures
        r@ == stack_tag(*regs, Val::Stack(stack_val(*stack))),
    decreases *stack, 2nat,
{
    let mut c = NbtCompound::new();
    put_stack(stack, &mut c, regs);
    NbtTag::Compound(c)
}

/// The tags of the stacks in a list.
fn write_stacks(v: &Vec<ItemStack>, regs: &Registries) -> (r: NbtTag)
    ensures
        r@ == Tag::List(stack_tags(*regs, stack_vals(v@, v@.len()), v@.len())),
    decreases *v, 3nat,
{
    let ghost l = stack_vals(v@, v@.len());
    let mut out: Vec<NbtTag> = Vec::new();
    assert(tags_of(out@) =~= Seq::<Tag>::empty());
    let mut i: usize = 0;
    while i < v.len()
        invariant
            i <= v.len(),
            l == stack_vals(v@, v@.len()),
            stack_tags(*regs, l, i as nat) == tags_of(out@),
        decreases v.len() - i,
    {
        assert(l[i as int] == Val::Stack(stack_val(v@[i as int])));
        assert(decreases_to!(*v => v@[i as int]));
        let t = write_stack(&v[i], regs);
        let ghost before = tags_of(out@);
        let ghost x = t@;
        out.push(t);
        assert(tags_of(out@) =~= before.push(x));
        i += 1;
    }
    NbtTag::List(out)
}

/// The tags of the stacks in a container.
fn write_slots(v: &Vec<(u8, ItemStack)>, regs: &Registries) -> (r: NbtTag)
    ensures
        r@ == Tag::List(slot_tags(*regs, slot_vals(v@, v@.len()), v@.len())),
    decreases *v, 3nat,
{
    let ghost l = slot_vals(v@, v@.len());
    let mut out: Vec<NbtTag> = Vec::new();
    assert(tags_of(out@) =~= Seq::<Tag>::empty());
    let mut i: usize = 0;
    while i < v.len()
        invariant
            i <= v.len(),
            l == slot_vals(v@, v@.len()),
            slot_tags(*regs, l, i as nat) == tags_of(out@),
        decreases v.len() - i,
    {
        assert(l[i as int] == pair(Val::Int(v@[i as int].0 as int), Val::Stack(stack_val(v@[i as int].1))));
        assert(decreases_to!(*v => v@[i as int].1));
        let mut c = NbtCompound::new();
        c.put_int("slot", v[i].0 as i32);
        c.put("item", write_stack(&v[i].1, regs));
        let ghost before = tags_of(out@);
        let entry = NbtTag::Compound(c);
        let ghost x = entry@;
        assert(slot_tag(*regs, l[i as int]) == x);
        out.push(entry);
        assert(tags_of(out@) =~= before.push(x));
        i += 1;
    }
    NbtTag::List(out)
}

/// The tag of the value of a component, where the library has a form of its own for it.
fn write_own_data(value: &ComponentValue, regs: &Registries) -> (r: Option<NbtTag>)
    ensures
        is_tag(own_to_tag(value_kind(*value), *regs, value_val(*value)), r),
    decreases *value, 4nat,
{
    proof {
        reveal(own_to_tag);
        reveal(value_val);
    }
    match value {
        ComponentValue::UseRemainder(v) => Some(write_stack(&v.convert_into, regs)),
        ComponentValue::SulfurCubeContent(v) => Some(write_stack(&v.absorbed_block_item_stack, regs)),
        ComponentValue::BundleContents(v) => Some(write_stacks(&v.items, regs)),
        ComponentValue::ChargedProjectiles(v) => Some(write_stacks(&v.projectiles, regs)),
        ComponentValue::Container(v) => Some(write_slots(&v.items, regs)),
        ComponentValue::CanPlaceOn(v) => Some(v.predicate.copy()),
        ComponentValue::CanBreak(v) => Some(v.predicate.copy()),
        _ => write_plain_data(value, regs),
    }
}

/// The tag of the value of a component, where it has a stored form: the library's own, or one that
/// the registries hold.
pub fn write_data(value: &ComponentValue, regs: &Registries) -> (r: Option<NbtTag>)
    ensures
        is_tag(data_to_tag(value_kind(*value), *regs, value_val(*value)), r),
    decreases *value, 5nat,
{
    proof {
        reveal(own_to_tag);
    }
    match write_own_data(value, regs) {
        Some(t) => Some(t),
        None => find_tag(value, regs),
    }
}

/// Adds the components of a stack that have no stored form.
fn add_untold(stack: &ItemStack, regs: &Registries, out: &mut Vec<Arc<ComponentValue>>)
    ensures
        component_vals(final(out)@) == component_vals(old(out)@) + untold(*regs, stack_val(*stack).patch, 0),
    decreases *stack, 2nat,
{
    let ghost p = patch_val(stack.patch@);
    let ghost before = component_vals(out@);
    let n: usize = stack.patch.len();
    let mut i: usize = 0;
    while i < n
        invariant
            i <= n,
            n == stack.patch@.len(),
            p == patch_val(stack.patch@),
            before == component_vals(old(out)@),
            before + untold(*regs, p, 0) == component_vals(out@) + untold(*regs, p, i as nat),
        decreases n - i,
    {
        let id = stack.patch[i].0;
        let ghost here = component_vals(out@);
        assert(p[i as int] == entry_val(stack.patch@[i as int]));
        if find_last(&stack.patch, id, i).is_none() {
            match find_last(&stack.patch, id, n) {
                Some(j) => {
                    assert(p[j as int] == entry_val(stack.patch@[j as int]));
                    match &stack.patch[j].1 {
                        None => {},
                        Some(v) => {
                            assert(decreases_to!(*stack => stack.patch@[j as int].1));
                            add_untold_in(v, regs, out);
                            proof {
                                let c = p[j as int].1->0;
                                lemma_joined(here, untold_in(c.kind, *regs, c.val), untold(*regs, p, (i + 1) as nat));
                            }
                        },
                    }
                },
                None => {
                    assert(untold(*regs, p, i as nat) == Seq::<ComponentVal>::empty());
                    assert(here + Seq::<ComponentVal>::empty() =~= here);
                    return;
                },
            }
        }
        i += 1;
    }
    assert(component_vals(out@) + Seq::<ComponentVal>::empty() =~= component_vals(out@));
}

proof fn lemma_joined(a: Seq<ComponentVal>, b: Seq<ComponentVal>, c: Seq<ComponentVal>)
    ensures
        (a + b) + c == a + (b + c),
{
    assert((a + b) + c =~= a + (b + c));
}

/// The components without a stored form in the value of a component: itself, or those of the stacks
/// that it holds.
pub fn untold_components(value: &Arc<ComponentValue>, regs: &Registries) -> (r: Vec<Arc<ComponentValue>>)
    ensures
        component_vals(r@) == untold_in(value_kind(**value), *regs, value_val(**value)),
{
    let mut out: Vec<Arc<ComponentValue>> = Vec::new();
    add_untold_in(value, regs, &mut out);
    assert(component_vals(out@) =~= untold_in(value_kind(**value), *regs, value_val(**value)));
    out
}

/// Adds the components without a stored form in the value of a component.
fn add_untold_in(value: &Arc<ComponentValue>, regs: &Registries, out: &mut Vec<Arc<ComponentValue>>)
    ensures
        component_vals(final(out)@) == component_vals(old(out)@) + untold_in(value_kind(**value), *regs, value_val(**value)),
    decreases **value, 5nat,
{
    proof {
        reveal(value_val);
    }
    let ghost before = component_vals(out@);
    let v: &ComponentValue = value;
    match v {
        ComponentValue::UseRemainder(v) => add_untold(&v.convert_into, regs, out),
        ComponentValue::SulfurCubeContent(v) => add_untold(&v.absorbed_block_item_stack, regs, out),
        ComponentValue::BundleContents(v) => add_untold_stacks(&v.items, regs, out),
        ComponentValue::ChargedProjectiles(v) => add_untold_stacks(&v.projectiles, regs, out),
        ComponentValue::Container(v) => add_untold_slots(&v.items, regs, out),
        _ => {
            if write_data(v, regs).is_none() {
                out.push(share(value));
                assert(component_vals(out@) =~= before.push(component_val(**value)));
                assert(before.push(component_val(**value)) =~= before + seq![component_val(**value)]);
            } else {
                assert(before + Seq::<ComponentVal>::empty() =~= before);
            }
        },
    }
}

/// Adds the components without a stored form of the stacks in a list.
fn add_untold_stacks(v: &Vec<ItemStack>, regs: &Registries, out: &mut Vec<Arc<ComponentValue>>)
    ensures
        component_vals(final(out)@) == component_vals(old(out)@) + untold_stacks(*regs, stack_vals(v@, v@.len()), v@.len()),
    decreases *v, 3nat,
{
    let ghost l = stack_vals(v@, v@.len());
    let ghost before = component_vals(out@);
    assert(before + Seq::<ComponentVal>::empty() =~= before);
    let mut i: usize = 0;
    while i < v.len()
        invariant
            i <= v.len(),
            l == stack_vals(v@, v@.len()),
            component_vals(out@) == before + untold_stacks(*regs, l, i as nat),
        decreases v.len() - i,
    {
        assert(l[i as int] == Val::Stack(stack_val(v@[i as int])));
        assert(decreases_to!(*v => v@[i as int]));
        add_untold(&v[i], regs, out);
        proof {
            lemma_joined(before, untold_stacks(*regs, l, i as nat), untold_stack(*regs, l[i as int]));
        }
        i += 1;
    }
}

/// Adds the components without a stored form of the stacks in a container.
fn add_untold_slots(v: &Vec<(u8, ItemStack)>, regs: &Registries, out: &mut Vec<Arc<ComponentValue>>)
    ensures
        component_vals(final(out)@) == component_vals(old(out)@) + untold_slots(*regs, slot_vals(v@, v@.len()), v@.len()),
    decreases *v, 3nat,
{
    let ghost l = slot_vals(v@, v@.len());
    let ghost before = component_vals(out@);
    assert(before + Seq::<ComponentVal>::empty() =~= before);
    let mut i: usize = 0;
    while i < v.len()
        invariant
            i <= v.len(),
            l == slot_vals(v@, v@.len()),
            component_vals(out@) == before + untold_slots(*regs, l, i as nat),
        decreases v.len() - i,
    {
        assert(l[i as int] == pair(Val::Int(v@[i as int].0 as int), Val::Stack(stack_val(v@[i as int].1))));
        assert(decreases_to!(*v => v@[i as int].1));
        add_untold(&v[i].1, regs, out);
        proof {
            let st = Val::Stack(stack_val(v@[i as int].1));
            assert(untold_stack(*regs, st) == untold(*regs, stack_val(v@[i as int].1).patch, 0));
            assert(untold_slot(*regs, l[i as int]) == untold_stack(*regs, st));
            lemma_joined(before, untold_slots(*regs, l, i as nat), untold_stack(*regs, st));
        }
        i += 1;
    }
}

impl ContainerImpl {
    /// What a container holds, as a tag describes it.
    pub fn read_data(tag: &NbtTag, regs: &Registries, ids: &mut ItemStackIdGenerator) -> (r: Option<Self>)
        ensures
            advanced(old(ids).counter, final(ids).counter),
            stores(own_from_tag(DataComponent::Container, *regs, tag@), r, |v: Self| value_val(ComponentValue::Container(v))),
    {
        match read_own_data(DataComponent::Container, tag, regs, ids) {
            Some(ComponentValue::Container(v)) => Some(v),
            _ => None,
        }
    }
}

impl SulfurCubeContentImpl {
    /// What a sulfur cube has absorbed, as a tag describes it.
    pub fn read_data(tag: &NbtTag, regs: &Registries, ids: &mut ItemStackIdGenerator) -> (r: Option<Self>)
        ensures
            advanced(old(ids).counter, final(ids).counter),
            stores(own_from_tag(DataComponent::SulfurCubeContent, *regs, tag@), r, |v: Self| value_val(ComponentValue::SulfurCubeContent(v))),
    {
        match read_own_data(DataComponent::SulfurCubeContent, tag, regs, ids) {
            Some(ComponentValue::SulfurCubeContent(v)) => Some(v),
            _ => None,
        }
    }
}

impl ChargedProjectilesImpl {
    /// The loaded projectiles, as a tag describes it.
    pub fn read_data(tag: &NbtTag, regs: &Registries, ids: &mut ItemStackIdGenerator) -> (r: Option<Self>)
        ensures
            advanced(old(ids).counter, final(ids).counter),
            stores(own_from_tag(DataComponent::ChargedProjectiles, *regs, tag@), r, |v: Self| value_val(ComponentValue::ChargedProjectiles(v))),
    {
        match read_own_data(DataComponent::ChargedProjectiles, tag, regs, ids) {
            Some(ComponentValue::ChargedProjectiles(v)) => Some(v),
            _ => None,
        }
    }
}

impl BundleContentsImpl {
    /// What a bundle holds, as a tag describes it.
    pub fn read_data(tag: &NbtTag, regs: &Registries, ids: &mut ItemStackIdGenerator) -> (r: Option<Self>)
        ensures
            advanced(old(ids).counter, final(ids).counter),
            stores(own_from_tag(DataComponent::BundleContents, *regs, tag@), r, |v: Self| value_val(ComponentValue::BundleContents(v))),
    {
        match read_own_data(DataComponent::BundleContents, tag, regs, ids) {
            Some(ComponentValue::BundleContents(v)) => Some(v),
            _ => None,
        }
    }
}

} // verus!
