//! Reading and writing components that can hold other components.
use std::sync::Arc;
use vstd::prelude::*;
use crate::codec::{count_as_i32, decodes, encodes, Context, ListRule};
use crate::components::{component_format, lemma_nested_formats, value_kind, value_val, ComponentValue};
use crate::data_component::{component_of_id, lemma_component_id_of, DataComponent};
use crate::elements::{get_nbt, write_nbt};
use crate::errors::{cannot_write, limit_exceeded, message, message_value, ReadingError, WritingError};
use crate::flat::{read_flat, write_flat};
use crate::format::{count_added, deeper, first_entry, inside, invalid_nbt, is_last, last_entries, missing_nbt, pair, read_added, read_items, read_removed, read_slots, read_template, read_val, removed_bytes, set_entry, slot_count, slot_stack, write_added, write_items, write_slots, write_template, write_val, Format, PatchVal, Val, MAX_COMPONENTS};
use crate::item_stack::{advanced, drawn_last, group_advanced, entry_val, group_stack_vals, patch_val, slot_vals, stack_val, stack_vals, BundleContentsImpl, BundleCount, CanBreakImpl, CanPlaceOnImpl, ChargedProjectilesImpl, ContainerImpl, ItemStack, ItemStackIdGenerator, ProjectileCount, SulfurCubeContentImpl, UseRemainderImpl, AIR_ID};
use crate::nested_predicate::{get_predicates, put_predicates};
use crate::stored::{ContainerLootImpl, DebugStickStateImpl, IntangibleProjectileImpl, MapDecorationsImpl, RecipesImpl};
use crate::wire::{done, fail, get_bool, get_var_int, write_bool, write_var_int};

verus! {

broadcast use {group_advanced, group_stack_vals};

/// Reads the value of a component.
pub fn deserialize(id: DataComponent, seq: &mut &[u8], ctx: &Context, ids: &mut ItemStackIdGenerator) -> (r: Result<
    ComponentValue,
    ReadingError,
>)
    ensures
        advanced(old(ids).counter, final(ids).counter),
        decodes(read_val(component_format(id), ctx@, old(seq)@), r, final(seq)@, |v: ComponentValue| value_val(v)),
        r matches Ok(v) ==> value_kind(v) == id,
    decreases ctx.budget, 3nat,
{
    proof {
        lemma_nested_formats();
        reveal(value_val);
    }
    match id {
        DataComponent::CanPlaceOn => match get_predicates(seq, ctx, ids) {
            Ok(predicate) => Ok(ComponentValue::CanPlaceOn(CanPlaceOnImpl { predicate })),
            Err(e) => Err(e),
        },
        DataComponent::CanBreak => match get_predicates(seq, ctx, ids) {
            Ok(predicate) => Ok(ComponentValue::CanBreak(CanBreakImpl { predicate })),
            Err(e) => Err(e),
        },
        DataComponent::IntangibleProjectile => get_stored(id, seq, ctx),
        DataComponent::UseRemainder => match get_stack(seq, ctx, ids) {
            Ok(convert_into) => Ok(ComponentValue::UseRemainder(UseRemainderImpl { convert_into })),
            Err(e) => Err(e),
        },
        DataComponent::MapDecorations => get_stored(id, seq, ctx),
        DataComponent::ChargedProjectiles => match get_projectiles(seq, ctx, ids) {
            Ok(projectiles) => Ok(ComponentValue::ChargedProjectiles(ChargedProjectilesImpl { projectiles })),
            Err(e) => Err(e),
        },
        DataComponent::BundleContents => match get_bundle(seq, ctx, ids) {
            Ok(items) => Ok(ComponentValue::BundleContents(BundleContentsImpl { items })),
            Err(e) => Err(e),
        },
        DataComponent::DebugStickState => get_stored(id, seq, ctx),
        DataComponent::Recipes => get_stored(id, seq, ctx),
        DataComponent::Container => match get_container(seq, ctx, ids) {
            Ok(items) => Ok(ComponentValue::Container(ContainerImpl { items })),
            Err(e) => Err(e),
        },
        DataComponent::SulfurCubeContent => match get_stack(seq, ctx, ids) {
            Ok(absorbed_block_item_stack) => Ok(
                ComponentValue::SulfurCubeContent(SulfurCubeContentImpl { absorbed_block_item_stack }),
            ),
            Err(e) => Err(e),
        },
        DataComponent::ContainerLoot => get_stored(id, seq, ctx),
        _ => read_flat(id, seq, ctx),
    }
}

/// Appends the value of a component.
pub fn serialize(id: DataComponent, value: &ComponentValue, out: &mut Vec<u8>, ctx: &Context) -> (r: Result<(), WritingError>)
    requires
        value_kind(*value) == id,
    ensures
        encodes(write_val(component_format(id), ctx@, old(out)@, value_val(*value)), r, final(out)@),
    decreases ctx.budget, 3nat,
{
    proof {
        lemma_nested_formats();
        reveal(value_val);
    }
    match value {
        ComponentValue::CanPlaceOn(v) => put_predicates(&v.predicate, out, ctx),
        ComponentValue::CanBreak(v) => put_predicates(&v.predicate, out, ctx),
        ComponentValue::IntangibleProjectile(_) => put_stored(value, out, ctx),
        ComponentValue::UseRemainder(v) => put_stack(&v.convert_into, out, ctx),
        ComponentValue::MapDecorations(_) => put_stored(value, out, ctx),
        ComponentValue::ChargedProjectiles(v) => put_projectiles(&v.projectiles, out, ctx),
        ComponentValue::BundleContents(v) => put_bundle(&v.items, out, ctx),
        ComponentValue::DebugStickState(_) => put_stored(value, out, ctx),
        ComponentValue::Recipes(_) => put_stored(value, out, ctx),
        ComponentValue::Container(v) => put_container(&v.items, out, ctx),
        ComponentValue::SulfurCubeContent(v) => put_stack(&v.absorbed_block_item_stack, out, ctx),
        ComponentValue::ContainerLoot(_) => put_stored(value, out, ctx),
        _ => write_flat(value, out, ctx),
    }
}

fn missing_text(id: DataComponent) -> (r: &'static str)
    ensures
        r == missing_nbt(id),
{
    match id {
        DataComponent::IntangibleProjectile => "Missing intangible_projectile component NBT",
        DataComponent::MapDecorations => "Missing map_decorations component NBT",
        DataComponent::DebugStickState => "Missing debug_stick_state component NBT",
        DataComponent::Recipes => "Missing recipes component NBT",
        DataComponent::ContainerLoot => "Missing container_loot component NBT",
        _ => "Missing component NBT",
    }
}

fn invalid_text(id: DataComponent) -> (r: &'static str)
    ensures
        r == invalid_nbt(id),
{
    match id {
        DataComponent::IntangibleProjectile => "Invalid intangible_projectile component NBT",
        DataComponent::MapDecorations => "Invalid map_decorations component NBT",
        DataComponent::DebugStickState => "Invalid debug_stick_state component NBT",
        DataComponent::Recipes => "Invalid recipes component NBT",
        DataComponent::ContainerLoot => "Invalid container_loot component NBT",
        _ => "Invalid component NBT",
    }
}

/// Reads the value of a component that is sent as it is stored.
fn get_stored(id: DataComponent, seq: &mut &[u8], ctx: &Context) -> (r: Result<ComponentValue, ReadingError>)
    requires
        component_format(id) == Format::Stored(id),
    ensures
        decodes(read_val(component_format(id), ctx@, old(seq)@), r, final(seq)@, |v: ComponentValue| value_val(v)),
        r matches Ok(v) ==> value_kind(v) == id,
{
    proof {
        reveal(read_val);
        reveal(component_format);
        reveal(value_val);
    }
    let tag = match get_nbt(seq)? {
        Some(tag) => tag,
        None => {
            return Err(message(missing_text(id)));
        },
    };
    let value: Option<ComponentValue> = match id {
        DataComponent::IntangibleProjectile => match IntangibleProjectileImpl::read_data(&tag) {
            Some(v) => Some(ComponentValue::IntangibleProjectile(v)),
            None => None,
        },
        DataComponent::MapDecorations => match MapDecorationsImpl::read_data(&tag) {
            Some(v) => Some(ComponentValue::MapDecorations(v)),
            None => None,
        },
        DataComponent::DebugStickState => match DebugStickStateImpl::read_data(&tag, ctx.regs) {
            Some(v) => Some(ComponentValue::DebugStickState(v)),
            None => None,
        },
        DataComponent::Recipes => match RecipesImpl::read_data(&tag) {
            Some(v) => Some(ComponentValue::Recipes(v)),
            None => None,
        },
        DataComponent::ContainerLoot => match ContainerLootImpl::read_data(&tag) {
            Some(v) => Some(ComponentValue::ContainerLoot(v)),
            None => None,
        },
        _ => None,
    };
    match value {
        Some(v) => Ok(v),
        None => Err(message(invalid_text(id))),
    }
}

/// Appends the value of a component that is sent as it is stored.
fn put_stored(value: &ComponentValue, out: &mut Vec<u8>, ctx: &Context) -> (r: Result<(), WritingError>)
    requires
        component_format(value_kind(*value)) == Format::Stored(value_kind(*value)),
    ensures
        encodes(write_val(component_format(value_kind(*value)), ctx@, old(out)@, value_val(*value)), r, final(out)@),
{
    proof {
        reveal(write_val);
        reveal(component_format);
        reveal(value_val);
    }
    match value {
        ComponentValue::IntangibleProjectile(v) => write_nbt(&v.write_data(), out),
        ComponentValue::MapDecorations(v) => write_nbt(&v.write_data(), out),
        ComponentValue::DebugStickState(v) => write_nbt(&v.write_data(), out),
        ComponentValue::Recipes(v) => write_nbt(&v.write_data(), out),
        ComponentValue::ContainerLoot(v) => write_nbt(&v.write_data(), out),
        _ => Ok(()),
    }
}

/// Reads a stack that is nested in a component.
fn get_stack(seq: &mut &[u8], ctx: &Context, ids: &mut ItemStackIdGenerator) -> (r: Result<ItemStack, ReadingError>)
    ensures
        advanced(old(ids).counter, final(ids).counter),
        decodes(read_val(Format::Template, ctx@, old(seq)@), r, final(seq)@, |v: ItemStack| Val::Stack(stack_val(v))),
    decreases ctx.budget, 0nat,
{
    proof {
        reveal(read_val);
        reveal(component_format);
    }
    if ctx.budget == 0 {
        return Err(limit_exceeded("components are nested too deeply"));
    }
    deserialize_item_stack_template(seq, &ctx.deeper(), ids)
}

/// Appends a stack that is nested in a component.
fn put_stack(stack: &ItemStack, out: &mut Vec<u8>, ctx: &Context) -> (r: Result<(), WritingError>)
    ensures
        encodes(write_val(Format::Template, ctx@, old(out)@, Val::Stack(stack_val(*stack))), r, final(out)@),
    decreases ctx.budget, 0nat,
{
    proof {
        reveal(write_val);
        reveal(component_format);
    }
    if ctx.budget == 0 {
        return Err(cannot_write("components are nested too deeply"));
    }
    serialize_item_stack_template(stack, out, &ctx.deeper())
}

/// Reads `n` stacks.
fn get_stacks(seq: &mut &[u8], n: u64, ctx: &Context, ids: &mut ItemStackIdGenerator) -> (r: Result<Vec<ItemStack>, ReadingError>)
    ensures
        advanced(old(ids).counter, final(ids).counter),
        decodes(
            read_items(Format::Template, n as nat, ctx@, old(seq)@, Seq::empty()),
            r,
            final(seq)@,
            |v: Vec<ItemStack>| Val::List(stack_vals(v@, v@.len())),
        ),
    decreases ctx.budget, 1nat,
{
    let ghost o = read_items(Format::Template, n as nat, ctx@, seq@, Seq::empty());
    let mut out: Vec<ItemStack> = Vec::new();
    assert(stack_vals(out@, 0) =~= Seq::<Val>::empty());
    let mut i: u64 = 0;
    while i < n
        invariant
            advanced(old(ids).counter, ids.counter),
            i <= n,
            o == read_items(Format::Template, n as nat, ctx@, old(seq)@, Seq::empty()),
            o == read_items(Format::Template, (n - i) as nat, ctx@, seq@, stack_vals(out@, out@.len())),
        decreases n - i,
    {
        proof {
            reveal(read_val);
        reveal(component_format);
        }
        let v = get_stack(seq, ctx, ids)?;
        let ghost head = stack_vals(out@, out@.len());
        let ghost x = Val::Stack(stack_val(v));
        out.push(v);
        assert(stack_vals(out@, out@.len()) =~= head.push(x));
        i += 1;
    }
    Ok(out)
}

/// Appends stacks.
fn put_stacks(values: &Vec<ItemStack>, out: &mut Vec<u8>, ctx: &Context) -> (r: Result<(), WritingError>)
    ensures
        encodes(write_items(Format::Template, ctx@, old(out)@, stack_vals(values@, values@.len()), 0), r, final(out)@),
    decreases ctx.budget, 1nat,
{
    let ghost all = stack_vals(values@, values@.len());
    let ghost w = write_items(Format::Template, ctx@, out@, all, 0);
    let mut i: usize = 0;
    while i < values.len()
        invariant
            i <= values@.len(),
            all == stack_vals(values@, values@.len()),
            w == write_items(Format::Template, ctx@, old(out)@, all, 0),
            w == write_items(Format::Template, ctx@, out@, all, i as int),
        decreases values.len() - i,
    {
        proof {
            reveal(write_val);
        reveal(component_format);
        }
        assert(all[i as int] == Val::Stack(stack_val(values@[i as int])));
        put_stack(&values[i], out, ctx)?;
        i += 1;
    }
    Ok(())
}

/// Reads the stacks in a bundle.
fn get_bundle(seq: &mut &[u8], ctx: &Context, ids: &mut ItemStackIdGenerator) -> (r: Result<Vec<ItemStack>, ReadingError>)
    ensures
        advanced(old(ids).counter, final(ids).counter),
        decodes(
            read_val(component_format(DataComponent::BundleContents), ctx@, old(seq)@),
            r,
            final(seq)@,
            |v: Vec<ItemStack>| Val::List(stack_vals(v@, v@.len())),
        ),
    decreases ctx.budget, 2nat,
{
    proof {
        reveal(read_val);
        reveal(component_format);
    }
    let n: u64 = BundleCount::count(seq)?;
    get_stacks(seq, n, ctx, ids)
}

/// Appends the stacks in a bundle.
fn put_bundle(items: &Vec<ItemStack>, out: &mut Vec<u8>, ctx: &Context) -> (r: Result<(), WritingError>)
    ensures
        encodes(
            write_val(component_format(DataComponent::BundleContents), ctx@, old(out)@, Val::List(stack_vals(items@, items@.len()))),
            r,
            final(out)@,
        ),
    decreases ctx.budget, 2nat,
{
    proof {
        reveal(write_val);
        reveal(component_format);
    }
    BundleCount::allowed(items.len())?;
    write_var_int(out, count_as_i32(items.len()));
    put_stacks(items, out, ctx)
}

/// Reads loaded projectiles.
fn get_projectiles(seq: &mut &[u8], ctx: &Context, ids: &mut ItemStackIdGenerator) -> (r: Result<Vec<ItemStack>, ReadingError>)
    ensures
        advanced(old(ids).counter, final(ids).counter),
        decodes(
            read_val(component_format(DataComponent::ChargedProjectiles), ctx@, old(seq)@),
            r,
            final(seq)@,
            |v: Vec<ItemStack>| Val::List(stack_vals(v@, v@.len())),
        ),
    decreases ctx.budget, 2nat,
{
    proof {
        reveal(read_val);
        reveal(component_format);
    }
    let n: u64 = ProjectileCount::count(seq)?;
    get_stacks(seq, n, ctx, ids)
}

/// Appends loaded projectiles.
fn put_projectiles(items: &Vec<ItemStack>, out: &mut Vec<u8>, ctx: &Context) -> (r: Result<(), WritingError>)
    ensures
        encodes(
            write_val(component_format(DataComponent::ChargedProjectiles), ctx@, old(out)@, Val::List(stack_vals(items@, items@.len()))),
            r,
            final(out)@,
        ),
    decreases ctx.budget, 2nat,
{
    proof {
        reveal(write_val);
        reveal(component_format);
    }
    ProjectileCount::allowed(items.len())?;
    write_var_int(out, count_as_i32(items.len()));
    put_stacks(items, out, ctx)
}

/// Reads the stacks in a container.
fn get_container(seq: &mut &[u8], ctx: &Context, ids: &mut ItemStackIdGenerator) -> (r: Result<Vec<(u8, ItemStack)>, ReadingError>)
    ensures
        advanced(old(ids).counter, final(ids).counter),
        decodes(
            read_val(Format::Slots, ctx@, old(seq)@),
            r,
            final(seq)@,
            |v: Vec<(u8, ItemStack)>| Val::List(slot_vals(v@, v@.len())),
        ),
    decreases ctx.budget, 2nat,
{
    proof {
        reveal(read_val);
        reveal(component_format);
    }
    let v: i32 = get_var_int(seq)?;
    if v < 0 {
        return Err(message("Negative Container count"));
    }
    if v > 256 {
        return Err(limit_exceeded("Too many Container slots for official limit"));
    }
    if ctx.budget == 0 {
        return Err(limit_exceeded("components are nested too deeply"));
    }
    get_slots(seq, v, &ctx.deeper(), ids)
}

/// Reads the slots of a container.
fn get_slots(seq: &mut &[u8], n: i32, ctx: &Context, ids: &mut ItemStackIdGenerator) -> (r: Result<Vec<(u8, ItemStack)>, ReadingError>)
    requires
        0 <= n <= 256,
    ensures
        advanced(old(ids).counter, final(ids).counter),
        decodes(
            read_slots(0, n as int, ctx@, old(seq)@, Seq::empty()),
            r,
            final(seq)@,
            |v: Vec<(u8, ItemStack)>| Val::List(slot_vals(v@, v@.len())),
        ),
    decreases ctx.budget, 6nat,
{
    let ghost o = read_slots(0, n as int, ctx@, seq@, Seq::empty());
    let mut out: Vec<(u8, ItemStack)> = Vec::new();
    assert(slot_vals(out@, 0) =~= Seq::<Val>::empty());
    let mut i: i32 = 0;
    while i < n
        invariant
            advanced(old(ids).counter, ids.counter),
            0 <= i <= n <= 256,
            o == read_slots(0, n as int, ctx@, old(seq)@, Seq::empty()),
            o == read_slots(i as int, n as int, ctx@, seq@, slot_vals(out@, out@.len())),
        decreases n - i,
    {
        if get_bool(seq)? {
            let v = deserialize_item_stack_template(seq, ctx, ids)?;
            let ghost head = slot_vals(out@, out@.len());
            let ghost x = pair(Val::Int(i as int), Val::Stack(stack_val(v)));
            out.push((i as u8, v));
            assert(slot_vals(out@, out@.len()) =~= head.push(x));
        }
        i += 1;
    }
    Ok(out)
}

/// One more than the highest slot of a container.
fn count_slots(items: &Vec<(u8, ItemStack)>) -> (r: i32)
    ensures
        r == slot_count(slot_vals(items@, items@.len()), items@.len()),
        0 <= r <= 256,
{
    let ghost l = slot_vals(items@, items@.len());
    let mut r: i32 = 0;
    let mut i: usize = 0;
    while i < items.len()
        invariant
            i <= items.len(),
            l == slot_vals(items@, items@.len()),
            r == slot_count(l, i as nat),
            0 <= r <= 256,
        decreases items.len() - i,
    {
        let slot: i32 = items[i].0 as i32 + 1;
        assert(l[i as int] == pair(Val::Int(items@[i as int].0 as int), Val::Stack(stack_val(items@[i as int].1))));
        if slot > r {
            r = slot;
        }
        i += 1;
    }
    r
}

/// The place of the last stack for a slot.
fn last_in_slot(items: &Vec<(u8, ItemStack)>, slot: i32) -> (r: Option<usize>)
    ensures
        match r {
            Some(i) => i < items@.len() && slot_stack(slot_vals(items@, items@.len()), items@.len(), slot as int) == Some(
                stack_val(items@[i as int].1),
            ),
            None => slot_stack(slot_vals(items@, items@.len()), items@.len(), slot as int) is None,
        },
{
    let ghost l = slot_vals(items@, items@.len());
    let mut i: usize = items.len();
    while i > 0
        invariant
            i <= items.len(),
            l == slot_vals(items@, items@.len()),
            slot_stack(l, items@.len(), slot as int) == slot_stack(l, i as nat, slot as int),
        decreases i,
    {
        assert(l[i - 1] == pair(Val::Int(items@[i - 1].0 as int), Val::Stack(stack_val(items@[i - 1].1))));
        if items[i - 1].0 as i32 == slot {
            return Some(i - 1);
        }
        i -= 1;
    }
    None
}

/// Appends the stacks in a container.
fn put_container(items: &Vec<(u8, ItemStack)>, out: &mut Vec<u8>, ctx: &Context) -> (r: Result<(), WritingError>)
    ensures
        encodes(write_val(Format::Slots, ctx@, old(out)@, Val::List(slot_vals(items@, items@.len()))), r, final(out)@),
    decreases ctx.budget, 2nat,
{
    proof {
        reveal(write_val);
        reveal(component_format);
    }
    if ctx.budget == 0 {
        return Err(cannot_write("components are nested too deeply"));
    }
    let n: i32 = count_slots(items);
    write_var_int(out, n);
    put_slots(items, n, out, &ctx.deeper())
}

/// Appends the slots of a container.
fn put_slots(items: &Vec<(u8, ItemStack)>, n: i32, out: &mut Vec<u8>, ctx: &Context) -> (r: Result<(), WritingError>)
    requires
        0 <= n <= 256,
    ensures
        encodes(write_slots(slot_vals(items@, items@.len()), 0, n as int, ctx@, old(out)@), r, final(out)@),
    decreases ctx.budget, 6nat,
{
    let ghost l = slot_vals(items@, items@.len());
    let ghost w = write_slots(l, 0, n as int, ctx@, out@);
    let mut i: i32 = 0;
    while i < n
        invariant
            0 <= i <= n <= 256,
            l == slot_vals(items@, items@.len()),
            w == write_slots(l, 0, n as int, ctx@, old(out)@),
            w == write_slots(l, i as int, n as int, ctx@, out@),
        decreases n - i,
    {
        match last_in_slot(items, i) {
            Some(j) => {
                write_bool(out, true);
                serialize_item_stack_template(&items[j].1, out, ctx)?;
            },
            None => {
                write_bool(out, false);
            },
        }
        i += 1;
    }
    Ok(())
}

/// The place of the first entry of a patch for a component.
pub fn find_entry(patch: &Vec<(DataComponent, Option<Arc<ComponentValue>>)>, id: DataComponent) -> (r: Option<usize>)
    ensures
        match r {
            Some(i) => first_entry(patch_val(patch@), id, 0) == Some(i as int) && i < patch@.len(),
            None => first_entry(patch_val(patch@), id, 0) is None,
        },
{
    let ghost p = patch_val(patch@);
    let mut i: usize = 0;
    while i < patch.len()
        invariant
            i <= patch.len(),
            p == patch_val(patch@),
            first_entry(p, id, 0) == first_entry(p, id, i as int),
        decreases patch.len() - i,
    {
        assert(p[i as int] == entry_val(patch@[i as int]));
        if patch[i].0 == id {
            return Some(i);
        }
        i += 1;
    }
    None
}

/// Sets the entry of a patch for a component.
pub fn set_patch_entry(
    patch: &mut Vec<(DataComponent, Option<Arc<ComponentValue>>)>,
    id: DataComponent,
    value: Option<Arc<ComponentValue>>,
)
    ensures
        patch_val(final(patch)@) == set_entry(patch_val(old(patch)@), id, entry_val((id, value)).1),
{
    let ghost before = patch_val(patch@);
    let ghost e = entry_val((id, value));
    match find_entry(patch, id) {
        Some(i) => {
            patch.set(i, (id, value));
            assert(patch_val(patch@) =~= before.update(i as int, e));
        },
        None => {
            patch.push((id, value));
            assert(patch_val(patch@) =~= before.push(e));
        },
    }
}

/// The component type with a number.
pub fn component_with_id(v: i32) -> (r: Option<DataComponent>)
    ensures
        r == component_of_id(v as int),
{
    proof {
        lemma_component_id_of(v as int);
    }
    if v < 0 || v > 255 {
        None
    } else {
        DataComponent::try_from_id(v as u8)
    }
}

/// Reads the components that a patch adds.
#[verifier::rlimit(60)]
fn get_added(seq: &mut &[u8], n: i32, ctx: &Context, ids: &mut ItemStackIdGenerator) -> (r: Result<
    Vec<(DataComponent, Option<Arc<ComponentValue>>)>,
    ReadingError,
>)
    requires
        n >= 0,
    ensures
        advanced(old(ids).counter, final(ids).counter),
        match r {
            Ok(p) => read_added(ctx@, n as nat, old(seq)@, Seq::empty()) == done(patch_val(p@), final(seq)@),
            Err(e) => read_added(ctx@, n as nat, old(seq)@, Seq::empty()) == fail::<PatchVal>(e@, final(seq)@),
        },
    decreases ctx.budget, 4nat,
{
    let ghost o = read_added(ctx@, n as nat, seq@, Seq::empty());
    let mut patch: Vec<(DataComponent, Option<Arc<ComponentValue>>)> = Vec::new();
    assert(patch_val(patch@) =~= Seq::empty());
    let mut i: i32 = 0;
    while i < n
        invariant
            advanced(old(ids).counter, ids.counter),
            0 <= i <= n,
            o == read_added(ctx@, n as nat, old(seq)@, Seq::empty()),
            o == read_added(ctx@, (n - i) as nat, seq@, patch_val(patch@)),
        decreases n - i,
    {
        proof {
            reveal(read_val);
        reveal(component_format);
        }
        let number: i32 = get_var_int(seq)?;
        let id = match component_with_id(number) {
            Some(id) => id,
            None => {
                return Err(message_value("Unknown component ID: {}", number as i128));
            },
        };
        let value = deserialize(id, seq, ctx, ids)?;
        set_patch_entry(&mut patch, id, Some(Arc::new(value)));
        i += 1;
    }
    Ok(patch)
}

/// Reads the components that a patch removes.
fn get_removed(seq: &mut &[u8], n: i32, patch: &mut Vec<(DataComponent, Option<Arc<ComponentValue>>)>) -> (r: Result<(), ReadingError>)
    requires
        n >= 0,
    ensures
        match r {
            Ok(_) => read_removed(n as nat, old(seq)@, patch_val(old(patch)@)) == done(patch_val(final(patch)@), final(seq)@),
            Err(e) => read_removed(n as nat, old(seq)@, patch_val(old(patch)@)) == fail::<PatchVal>(e@, final(seq)@),
        },
{
    let ghost o = read_removed(n as nat, seq@, patch_val(patch@));
    let mut i: i32 = 0;
    while i < n
        invariant
            0 <= i <= n,
            o == read_removed(n as nat, old(seq)@, patch_val(old(patch)@)),
            o == read_removed((n - i) as nat, seq@, patch_val(patch@)),
        decreases n - i,
    {
        let number: i32 = get_var_int(seq)?;
        let id = match component_with_id(number) {
            Some(id) => id,
            None => {
                return Err(message("Unknown component ID"));
            },
        };
        set_patch_entry(patch, id, None);
        i += 1;
    }
    Ok(())
}

/// Reads a stack that is not empty.
pub fn deserialize_item_stack_template(seq: &mut &[u8], ctx: &Context, ids: &mut ItemStackIdGenerator) -> (r: Result<
    ItemStack,
    ReadingError,
>)
    ensures
        advanced(old(ids).counter, final(ids).counter),
        decodes(read_template(ctx@, old(seq)@), r, final(seq)@, |v: ItemStack| Val::Stack(stack_val(v))),
        r matches Ok(v) ==> drawn_last(old(ids).counter, final(ids).counter, v.uid as int),
    decreases ctx.budget, 5nat,
{
    if ctx.depth == 0 {
        return Err(limit_exceeded("ItemStackTemplate nesting exceeded"));
    }
    if ctx.budget == 0 {
        return Err(limit_exceeded("components are nested too deeply"));
    }
    let id: i32 = get_var_int(seq)?;
    if id < 0 || id > 0xffff {
        return Err(message("Invalid item ID in ItemStackTemplate"));
    }
    if id == 0 {
        return Err(message("Unknown or empty item ID in ItemStackTemplate"));
    }
    let item = match ctx.regs.item_by_id(id as u16) {
        Some(item) => item,
        None => {
            return Err(message("Unknown or empty item ID in ItemStackTemplate"));
        },
    };
    let count: i32 = get_var_int(seq)?;
    if count <= 0 || count > 255 {
        return Err(message("Invalid ItemStackTemplate count"));
    }
    let num_to_add: i32 = get_var_int(seq)?;
    let num_to_remove: i32 = get_var_int(seq)?;
    if num_to_add < 0 || num_to_remove < 0 {
        return Err(message("Negative component count"));
    }
    let total: i64 = num_to_add as i64 + num_to_remove as i64;
    if total > 0x7fff_ffff {
        return Err(message("Component count overflow"));
    }
    if total > MAX_COMPONENTS as i64 {
        return Err(message("Too many components in ItemStackTemplate patch"));
    }
    let mut patch = get_added(seq, num_to_add, &ctx.inside(), ids)?;
    get_removed(seq, num_to_remove, &mut patch)?;
    Ok(ItemStack::new_with_component(count as u8, item, patch, ids))
}

/// The entries of a patch at these places.
pub open spec fn entries_at(p: PatchVal, places: Seq<usize>) -> PatchVal {
    Seq::new(places.len(), |i: int| p[places[i] as int])
}

/// Whether no later entry of a patch is for the same component.
fn is_last_entry(patch: &Vec<(DataComponent, Option<Arc<ComponentValue>>)>, i: usize) -> (r: bool)
    requires
        i < patch@.len(),
    ensures
        r == is_last(patch_val(patch@), i as int),
{
    let ghost p = patch_val(patch@);
    let n: usize = patch.len();
    assert(i < n);
    let mut j: usize = i + 1;
    while j < patch.len()
        invariant
            i < j <= patch.len(),
            p == patch_val(patch@),
            forall|k: int| i < k < j ==> (#[trigger] p[k]).0 != p[i as int].0,
        decreases patch.len() - j,
    {
        assert(p[j as int].0 == patch@[j as int].0);
        if patch[j].0 == patch[i].0 {
            return false;
        }
        j += 1;
    }
    true
}

/// The places of the entries of a patch that no later entry overrides.
pub fn last_places(patch: &Vec<(DataComponent, Option<Arc<ComponentValue>>)>) -> (r: Vec<usize>)
    ensures
        entries_at(patch_val(patch@), r@) == last_entries(patch_val(patch@), 0),
        forall|i: int| 0 <= i < r@.len() ==> (#[trigger] r@[i]) < patch@.len(),
{
    let ghost p = patch_val(patch@);
    let mut out: Vec<usize> = Vec::new();
    assert(entries_at(p, out@) + last_entries(p, 0) =~= last_entries(p, 0));
    let mut i: usize = 0;
    while i < patch.len()
        invariant
            i <= patch.len(),
            p == patch_val(patch@),
            entries_at(p, out@) + last_entries(p, i as int) == last_entries(p, 0),
            forall|k: int| 0 <= k < out@.len() ==> (#[trigger] out@[k]) < patch@.len(),
        decreases patch.len() - i,
    {
        let ghost head = entries_at(p, out@);
        if is_last_entry(patch, i) {
            out.push(i);
            assert(entries_at(p, out@) =~= head.push(p[i as int]));
            assert(head.push(p[i as int]) + last_entries(p, i + 1) =~= head + (seq![p[i as int]] + last_entries(p, i + 1)));
        }
        i += 1;
    }
    assert(entries_at(p, out@) + last_entries(p, i as int) =~= entries_at(p, out@));
    out
}

/// How many of the entries of a patch at these places add a component.
fn count_adding(patch: &Vec<(DataComponent, Option<Arc<ComponentValue>>)>, places: &Vec<usize>) -> (r: usize)
    requires
        forall|i: int| 0 <= i < places@.len() ==> (#[trigger] places@[i]) < patch@.len(),
    ensures
        r == count_added(entries_at(patch_val(patch@), places@), 0),
        r <= places@.len(),
{
    let ghost q = entries_at(patch_val(patch@), places@);
    let mut r: usize = 0;
    let mut i: usize = places.len();
    while i > 0
        invariant
            i <= places.len(),
            q == entries_at(patch_val(patch@), places@),
            forall|k: int| 0 <= k < places@.len() ==> (#[trigger] places@[k]) < patch@.len(),
            r == count_added(q, i as int),
            r <= places@.len() - i,
        decreases i,
    {
        i -= 1;
        assert(q[i as int] == entry_val(patch@[places@[i as int] as int]));
        if patch[places[i]].1.is_some() {
            r += 1;
        }
    }
    r
}

/// Appends the components that the entries of a patch at these places add.
fn put_added(
    patch: &Vec<(DataComponent, Option<Arc<ComponentValue>>)>,
    places: &Vec<usize>,
    out: &mut Vec<u8>,
    ctx: &Context,
) -> (r: Result<(), WritingError>)
    requires
        forall|i: int| 0 <= i < places@.len() ==> (#[trigger] places@[i]) < patch@.len(),
    ensures
        encodes(write_added(ctx@, old(out)@, entries_at(patch_val(patch@), places@), 0), r, final(out)@),
    decreases ctx.budget, 4nat,
{
    let ghost q = entries_at(patch_val(patch@), places@);
    let ghost w = write_added(ctx@, out@, q, 0);
    let mut i: usize = 0;
    while i < places.len()
        invariant
            i <= places.len(),
            q == entries_at(patch_val(patch@), places@),
            forall|k: int| 0 <= k < places@.len() ==> (#[trigger] places@[k]) < patch@.len(),
            w == write_added(ctx@, old(out)@, q, 0),
            w == write_added(ctx@, out@, q, i as int),
        decreases places.len() - i,
    {
        proof {
            reveal(write_val);
        reveal(component_format);
        }
        let place: usize = places[i];
        assert(q[i as int] == entry_val(patch@[place as int]));
        match &patch[place].1 {
            Some(v) => {
                let id = patch[place].0;
                write_var_int(out, id.to_id() as i32);
                if v.get_self_enum() != id {
                    return Err(cannot_write("component value has another type"));
                }
                serialize(id, v, out, ctx)?;
            },
            None => {},
        }
        i += 1;
    }
    Ok(())
}

/// Appends the numbers of the components that the entries of a patch at these places remove.
fn put_removed(patch: &Vec<(DataComponent, Option<Arc<ComponentValue>>)>, places: &Vec<usize>, out: &mut Vec<u8>)
    requires
        forall|i: int| 0 <= i < places@.len() ==> (#[trigger] places@[i]) < patch@.len(),
    ensures
        final(out)@ == old(out)@ + removed_bytes(entries_at(patch_val(patch@), places@), 0),
{
    let ghost q = entries_at(patch_val(patch@), places@);
    let ghost target = out@ + removed_bytes(q, 0);
    let mut i: usize = 0;
    while i < places.len()
        invariant
            i <= places.len(),
            q == entries_at(patch_val(patch@), places@),
            forall|k: int| 0 <= k < places@.len() ==> (#[trigger] places@[k]) < patch@.len(),
            target == out@ + removed_bytes(q, i as int),
        decreases places.len() - i,
    {
        let place: usize = places[i];
        assert(q[i as int] == entry_val(patch@[place as int]));
        let ghost before = out@;
        if patch[place].1.is_none() {
            write_var_int(out, patch[place].0.to_id() as i32);
            assert(before + removed_bytes(q, i as int) =~= out@ + removed_bytes(q, i + 1));
        }
        i += 1;
    }
    assert(out@ + removed_bytes(q, i as int) =~= out@);
}

/// Appends a stack that is not empty.
pub fn serialize_item_stack_template(stack: &ItemStack, out: &mut Vec<u8>, ctx: &Context) -> (r: Result<(), WritingError>)
    ensures
        encodes(write_template(ctx@, old(out)@, stack_val(*stack)), r, final(out)@),
    decreases ctx.budget, 5nat,
{
    if ctx.depth == 0 {
        return Err(cannot_write("ItemStackTemplate nesting exceeded"));
    }
    if ctx.budget == 0 {
        return Err(cannot_write("components are nested too deeply"));
    }
    if stack.item.id == AIR_ID || stack.item_count == 0 {
        return Err(cannot_write("Invalid ItemStackTemplate item/count"));
    }
    write_var_int(out, stack.item.id as i32);
    write_var_int(out, stack.item_count as i32);
    let places = last_places(&stack.patch);
    if places.len() > MAX_COMPONENTS as usize {
        return Err(cannot_write("Too many ItemStackTemplate components"));
    }
    let to_add: usize = count_adding(&stack.patch, &places);
    write_var_int(out, to_add as i32);
    write_var_int(out, (places.len() - to_add) as i32);
    put_added(&stack.patch, &places, out, &ctx.inside())?;
    put_removed(&stack.patch, &places, out);
    Ok(())
}

impl UseRemainderImpl {
    /// Reads a remainder.
    pub fn deserialize(seq: &mut &[u8], ctx: &Context, ids: &mut ItemStackIdGenerator) -> (r: Result<Self, ReadingError>)
        ensures
            advanced(old(ids).counter, final(ids).counter),
            decodes(
                read_val(component_format(DataComponent::UseRemainder), ctx@, old(seq)@),
                r,
                final(seq)@,
                |v: UseRemainderImpl| Val::Stack(stack_val(v.convert_into)),
            ),
    {
        proof {
            lemma_nested_formats();
        }
        Ok(UseRemainderImpl { convert_into: get_stack(seq, ctx, ids)? })
    }

    /// Appends a remainder.
    pub fn serialize(&self, out: &mut Vec<u8>, ctx: &Context) -> (r: Result<(), WritingError>)
        ensures
            encodes(
                write_val(component_format(DataComponent::UseRemainder), ctx@, old(out)@, Val::Stack(stack_val(self.convert_into))),
                r,
                final(out)@,
            ),
    {
        proof {
            lemma_nested_formats();
        }
        put_stack(&self.convert_into, out, ctx)
    }
}

impl SulfurCubeContentImpl {
    /// Reads what a cube has absorbed.
    pub fn deserialize(seq: &mut &[u8], ctx: &Context, ids: &mut ItemStackIdGenerator) -> (r: Result<Self, ReadingError>)
        ensures
            advanced(old(ids).counter, final(ids).counter),
            decodes(
                read_val(component_format(DataComponent::SulfurCubeContent), ctx@, old(seq)@),
                r,
                final(seq)@,
                |v: SulfurCubeContentImpl| Val::Stack(stack_val(v.absorbed_block_item_stack)),
            ),
    {
        proof {
            lemma_nested_formats();
        }
        Ok(SulfurCubeContentImpl { absorbed_block_item_stack: get_stack(seq, ctx, ids)? })
    }

    /// Appends what a cube has absorbed.
    pub fn serialize(&self, out: &mut Vec<u8>, ctx: &Context) -> (r: Result<(), WritingError>)
        ensures
            encodes(
                write_val(
                    component_format(DataComponent::SulfurCubeContent),
                    ctx@,
                    old(out)@,
                    Val::Stack(stack_val(self.absorbed_block_item_stack)),
                ),
                r,
                final(out)@,
            ),
    {
        proof {
            lemma_nested_formats();
        }
        put_stack(&self.absorbed_block_item_stack, out, ctx)
    }
}

impl ContainerImpl {
    /// Reads the stacks in a container.
    pub fn deserialize(seq: &mut &[u8], ctx: &Context, ids: &mut ItemStackIdGenerator) -> (r: Result<Self, ReadingError>)
        ensures
            advanced(old(ids).counter, final(ids).counter),
            decodes(
                read_val(component_format(DataComponent::Container), ctx@, old(seq)@),
                r,
                final(seq)@,
                |v: ContainerImpl| Val::List(slot_vals(v.items@, v.items@.len())),
            ),
    {
        proof {
            lemma_nested_formats();
        }
        Ok(ContainerImpl { items: get_container(seq, ctx, ids)? })
    }

    /// Appends the stacks in a container.
    pub fn serialize(&self, out: &mut Vec<u8>, ctx: &Context) -> (r: Result<(), WritingError>)
        ensures
            encodes(
                write_val(
                    component_format(DataComponent::Container),
                    ctx@,
                    old(out)@,
                    Val::List(slot_vals(self.items@, self.items@.len())),
                ),
                r,
                final(out)@,
            ),
    {
        proof {
            lemma_nested_formats();
        }
        put_container(&self.items, out, ctx)
    }
}

impl BundleContentsImpl {
    /// Reads the stacks in a bundle.
    pub fn deserialize(seq: &mut &[u8], ctx: &Context, ids: &mut ItemStackIdGenerator) -> (r: Result<Self, ReadingError>)
        ensures
            advanced(old(ids).counter, final(ids).counter),
            decodes(
                read_val(component_format(DataComponent::BundleContents), ctx@, old(seq)@),
                r,
                final(seq)@,
                |v: BundleContentsImpl| Val::List(stack_vals(v.items@, v.items@.len())),
            ),
    {
        proof {
            lemma_nested_formats();
        }
        Ok(BundleContentsImpl { items: get_bundle(seq, ctx, ids)? })
    }

    /// Appends the stacks in a bundle.
    pub fn serialize(&self, out: &mut Vec<u8>, ctx: &Context) -> (r: Result<(), WritingError>)
        ensures
            encodes(
                write_val(
                    component_format(DataComponent::BundleContents),
                    ctx@,
                    old(out)@,
                    Val::List(stack_vals(self.items@, self.items@.len())),
                ),
                r,
                final(out)@,
            ),
    {
        proof {
            lemma_nested_formats();
        }
        put_bundle(&self.items, out, ctx)
    }
}

impl ChargedProjectilesImpl {
    /// Reads loaded projectiles.
    pub fn deserialize(seq: &mut &[u8], ctx: &Context, ids: &mut ItemStackIdGenerator) -> (r: Result<Self, ReadingError>)
        ensures
            advanced(old(ids).counter, final(ids).counter),
            decodes(
                read_val(component_format(DataComponent::ChargedProjectiles), ctx@, old(seq)@),
                r,
                final(seq)@,
                |v: ChargedProjectilesImpl| Val::List(stack_vals(v.projectiles@, v.projectiles@.len())),
            ),
    {
        proof {
            lemma_nested_formats();
        }
        Ok(ChargedProjectilesImpl { projectiles: get_projectiles(seq, ctx, ids)? })
    }

    /// Appends loaded projectiles.
    pub fn serialize(&self, out: &mut Vec<u8>, ctx: &Context) -> (r: Result<(), WritingError>)
        ensures
            encodes(
                write_val(
                    component_format(DataComponent::ChargedProjectiles),
                    ctx@,
                    old(out)@,
                    Val::List(stack_vals(self.projectiles@, self.projectiles@.len())),
                ),
                r,
                final(out)@,
            ),
    {
        proof {
            lemma_nested_formats();
        }
        put_projectiles(&self.projectiles, out, ctx)
    }
}

impl CanPlaceOnImpl {
    /// Reads predicates.
    pub fn deserialize(seq: &mut &[u8], ctx: &Context, ids: &mut ItemStackIdGenerator) -> (r: Result<Self, ReadingError>)
        ensures
            advanced(old(ids).counter, final(ids).counter),
            decodes(
                read_val(component_format(DataComponent::CanPlaceOn), ctx@, old(seq)@),
                r,
                final(seq)@,
                |v: CanPlaceOnImpl| Val::Nbt(v.predicate@),
            ),
    {
        proof {
            lemma_nested_formats();
        }
        Ok(CanPlaceOnImpl { predicate: get_predicates(seq, ctx, ids)? })
    }

    /// Appends predicates.
    pub fn serialize(&self, out: &mut Vec<u8>, ctx: &Context) -> (r: Result<(), WritingError>)
        ensures
            encodes(
                write_val(component_format(DataComponent::CanPlaceOn), ctx@, old(out)@, Val::Nbt(self.predicate@)),
                r,
                final(out)@,
            ),
    {
        proof {
            lemma_nested_formats();
        }
        put_predicates(&self.predicate, out, ctx)
    }
}

impl CanBreakImpl {
    /// Reads predicates.
    pub fn deserialize(seq: &mut &[u8], ctx: &Context, ids: &mut ItemStackIdGenerator) -> (r: Result<Self, ReadingError>)
        ensures
            advanced(old(ids).counter, final(ids).counter),
            decodes(
                read_val(component_format(DataComponent::CanBreak), ctx@, old(seq)@),
                r,
                final(seq)@,
                |v: CanBreakImpl| Val::Nbt(v.predicate@),
            ),
    {
        proof {
            lemma_nested_formats();
        }
        Ok(CanBreakImpl { predicate: get_predicates(seq, ctx, ids)? })
    }

    /// Appends predicates.
    pub fn serialize(&self, out: &mut Vec<u8>, ctx: &Context) -> (r: Result<(), WritingError>)
        ensures
            encodes(
                write_val(component_format(DataComponent::CanBreak), ctx@, old(out)@, Val::Nbt(self.predicate@)),
                r,
                final(out)@,
            ),
    {
        proof {
            lemma_nested_formats();
        }
        put_predicates(&self.predicate, out, ctx)
    }
}

} // verus!
