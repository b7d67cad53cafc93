//! What stacks are, and where their components come from.
use vstd::prelude::*;
use crate::components::{value_kind, value_val, ComponentValue};
use crate::data_component::DataComponent;
use crate::equipment::EquipmentSlot;
use crate::format::{
    is_component, nbt_role, plain, read_id_set, read_leveled, read_sound, read_val, write_val, ComponentVal, Ctx, NbtRole, SoundRule, StackVal, Val,
};
use crate::item_stack::{component_val, lemma_patch_vals, ItemStack};
use crate::nbt_tag::Tag;
use crate::registry::{find_item, Registries, RegistryKind};
use crate::screen::{ActionView, PlayerAction};
use crate::stack::{component_in, first_default, lemma_last_place, value_in};
use crate::stack_data::smaller;
use crate::wire::{lemma_read_var_int, text, var_int};
use vstd::utf8::encode_utf8;
use std::sync::Arc;

verus! {

/// A stack is its item, its count and its patch, entry by entry.
pub proof fn lemma_stack_fields(s: ItemStack, i: int)
    requires
        0 <= i < s.patch@.len(),
    ensures
        s@.item == *s.item,
        s@.count == s.item_count,
        s@.patch.len() == s.patch@.len(),
        s@.patch[i].0 == s.patch@[i].0,
        s@.patch[i].1 is Some <==> s.patch@[i].1 is Some,
        s.patch@[i].1 matches Some(v) ==> s@.patch[i].1->0.kind == value_kind(*v) && s@.patch[i].1->0.val == value_val(*v),
{
    lemma_patch_vals(s.patch@, s.patch@.len());
}

proof fn lemma_default_at(c: Seq<(DataComponent, Arc<ComponentValue>)>, k: DataComponent, i: int, j: int)
    requires
        0 <= i <= j < c.len(),
        c[j].0 == k,
        forall|m: int| i <= m < j ==> (#[trigger] c[m]).0 != k,
    ensures
        first_default(c, k, i) == Some(component_val(*c[j].1)),
    decreases j - i,
{
    if i < j {
        assert(c[i].0 != k);
        lemma_default_at(c, k, i + 1, j);
    }
}

proof fn lemma_no_default(c: Seq<(DataComponent, Arc<ComponentValue>)>, k: DataComponent, i: int)
    requires
        0 <= i,
        forall|m: int| i <= m < c.len() ==> (#[trigger] c[m]).0 != k,
    ensures
        first_default(c, k, i) is None,
    decreases c.len() - i,
{
    if i < c.len() {
        assert(c[i].0 != k);
        lemma_no_default(c, k, i + 1);
    }
}

/// A component comes from the last entry of the patch for it, which hides the default of the item also where
/// it removes the component.
pub proof fn lemma_patch_comes_first(s: StackVal, k: DataComponent, i: int)
    requires
        0 <= i < s.patch.len(),
        s.patch[i].0 == k,
        forall|j: int| i < j < s.patch.len() ==> (#[trigger] s.patch[j]).0 != k,
    ensures
        component_in(s, k) == s.patch[i].1,
        s.patch[i].1 is None ==> value_in(s, k) is None,
        s.patch[i].1 matches Some(v) ==> v.kind == k ==> value_in(s, k) == Some(v.val),
{
    lemma_last_place(s.patch, k, s.patch.len());
}

/// A component that the patch says nothing of has the first default of the item for it, where there is one.
pub proof fn lemma_defaults_come_last(s: StackVal, k: DataComponent, j: int)
    requires
        forall|i: int| 0 <= i < s.patch.len() ==> (#[trigger] s.patch[i]).0 != k,
    ensures
        0 <= j < s.item.components@.len() && s.item.components@[j].0 == k && (forall|m: int|
            0 <= m < j ==> (#[trigger] s.item.components@[m]).0 != k) ==> component_in(s, k) == Some(
            ComponentVal { kind: value_kind(*s.item.components@[j].1), val: value_val(*s.item.components@[j].1) },
        ),
        (forall|m: int| 0 <= m < s.item.components@.len() ==> (#[trigger] s.item.components@[m]).0 != k) ==> component_in(s, k) is None,
{
    let c = s.item.components@;
    lemma_last_place(s.patch, k, s.patch.len());
    if 0 <= j < c.len() && c[j].0 == k && (forall|m: int| 0 <= m < j ==> (#[trigger] c[m]).0 != k) {
        lemma_default_at(c, k, 0, j);
    }
    if forall|m: int| 0 <= m < c.len() ==> (#[trigger] c[m]).0 != k {
        lemma_no_default(c, k, 0);
    }
}

/// As many items are split off as are asked for, or all where there are fewer.
pub proof fn lemma_split_off(amount: int, count: int)
    ensures
        amount <= count ==> smaller(amount, count) == amount,
        count <= amount ==> smaller(amount, count) == count,
{
}

/// What an action says is what it is about.
pub proof fn lemma_action_fields(place: EquipmentSlot, i: usize, s: ItemStack, t: ItemStack)
    ensures
        PlayerAction::EquipmentChange(place, Some(s))@ == ActionView::EquipmentChange(place, Some(s@)),
        PlayerAction::EquipmentChange(place, None)@ == ActionView::EquipmentChange(place, None),
        PlayerAction::TakeItem(i, s)@ == ActionView::TakeItem(i as int, s@),
        PlayerAction::Crafted(s, t)@ == ActionView::Crafted(s@, t@),
        PlayerAction::DropItem(s)@ == ActionView::DropItem(s@),
{
}

/// Sets of registry entries are refused where they are too large or where an entry is not known.
pub proof fn lemma_wrong_sets_are_refused(kind: RegistryKind, regs: Registries, n: int, v: int, r: Seq<u8>)
    requires
        i32::MIN <= n <= i32::MAX,
        0 <= v <= 65535,
    ensures
        n < 0 || n > 257 ==> read_id_set(kind, regs, var_int(n) + r).value is Err,
        1 < n <= 257 && !is_entry(kind, regs, v) ==> read_id_set(kind, regs, var_int(n) + (var_int(v) + r)).value is Err,
{
    lemma_read_var_int(n, r);
    lemma_read_var_int(n, var_int(v) + r);
    lemma_read_var_int(v, r);
}

/// Whether a registry has an entry with this number.
pub open spec fn is_entry(kind: RegistryKind, regs: Registries, v: int) -> bool {
    match kind {
        RegistryKind::Effect => v < regs.effects@.len(),
        RegistryKind::EntityType => v < regs.entity_types@.len(),
        RegistryKind::Item => find_item(regs, v) is Some,
        RegistryKind::Block => v < regs.blocks@.len(),
    }
}

/// Enchantments and sounds that are not known are refused.
pub proof fn lemma_unknown_entries_are_refused(unknown: &'static str, regs: Registries, v: int, level: int, r: Seq<u8>)
    requires
        0 <= v < i32::MAX,
        i32::MIN <= level <= i32::MAX,
    ensures
        v % 256 >= regs.enchantments@.len() ==> read_leveled(unknown, regs, var_int(v) + (var_int(level) + r)).value is Err,
        regs.sounds@.len() <= v <= 65535 ==> read_sound(SoundRule::Known(unknown), regs, var_int(v + 1) + r).value is Err,
{
    lemma_read_var_int(v, var_int(level) + r);
    lemma_read_var_int(level, r);
    lemma_read_var_int(v + 1, r);
}

/// Texts of more than 32767 bytes are neither written nor read.
pub proof fn lemma_long_texts(c: Ctx, out: Seq<u8>, t: Seq<char>, r: Seq<u8>)
    requires
        32767 < encode_utf8(t).len() <= i32::MAX,
    ensures
        write_val(plain(), c, out, Val::Text(t)).result is Err,
        read_val(plain(), c, text(t) + r).value is Err,
{
    reveal(read_val);
    reveal(write_val);
    crate::byte_laws::lemma_text_layout(t, 32767, r);
}

/// Where a tag has to be a compound, another is refused, or counts as an empty one where that is allowed; the
/// name of an item has to be a text component.
pub proof fn lemma_roles_of_tags(t: Tag, c: Seq<(Seq<char>, Tag)>)
    ensures
        nbt_role(NbtRole::Compound, Some(Tag::Compound(c))) is Ok,
        !(t is Compound) ==> nbt_role(NbtRole::Compound, Some(t)) is Err,
        nbt_role(NbtRole::LenientCompound, Some(t)) is Ok,
        nbt_role(NbtRole::ItemName, None) is Err,
        nbt_role(NbtRole::ItemName, Some(t)) is Ok <==> is_component(t),
{
}

} // verus!
