//! What is too much to be read or written, and how lists of stacks are sent.
use vstd::prelude::*;
use crate::basic::{AsDye, AsDyeName, AsRarity, BannerPatternLayer, BaseColorImpl, DistinctComponents, HiddenComponent, HiddenCount, LoreCount, LoreImpl, StackSize, TooltipDisplayImpl};
use crate::bytes::{be_signed, lemma_pow256};
use crate::codec::{vals, Coded, DataComponentCodec, ListRule, Numbered};
use crate::components::component_format;
use crate::consumable::{AsAnimation, AsStewEffect, ConsumeEffect, ConsumeEffectCount, DeathEffectCount, DeathProtectionImpl, EffectCount, StewEffectCount, SuspiciousStewEffect, SuspiciousStewEffectsImpl};
use crate::data_component::{component_id, DataComponent};
use crate::elements::{AsLeveled, AsLine, AsProfileHead};
use crate::equipment::{AsAttribute, AsDamageType, AsEquipmentSlot, AsModifierSlot, AsOperation, AsSwing, EnchantmentCount, EnchantmentsImpl, StoredEnchantmentsImpl, UnknownEnchantment, UnknownStoredEnchantment};
use crate::errors::ReadFault;
use crate::format::{
    both, check_limit, check_read, deeper, distinct, list, pair, put, read_count, read_val, slot_count, slot_rule, slot_stack, write_items, write_slots, write_template,
    write_val, CountRule, Ctx, Format, Limit, StackVal, Val,
};
use crate::item_stack::{BundleCount, ProjectileCount};
use crate::leaf_return::lemma_small_count;
use crate::registry::Registries;
use crate::sent::in_turn;
use crate::stored_laws::{dye_names, lemma_dye_names};
use crate::utility::{AsProcessing, AsShape, AsSong, ColorCount, ExplosionCount, FadeColorCount, FlightDuration};
use crate::wire::{lemma_read_var_int, text, text_fits, var_int, MAX_TEXT_BYTES};

verus! {

/// Whether a rule takes the counts from zero up to `most` and no others.
pub open spec fn takes_up_to(rule: CountRule, most: int) -> bool {
    forall|n: int, r: Seq<u8>|
        i32::MIN <= n <= i32::MAX ==> (#[trigger] read_count(rule, var_int(n) + r)).value is Ok == (0 <= n <= most) && (0 <= n <= most ==> read_count(
            rule,
            var_int(n) + r,
        ) == crate::wire::done(n as nat, r))
}

/// Whether a limit lets as many as `most` be written and no more.
pub open spec fn writes_up_to(limit: Limit, most: nat) -> bool {
    forall|n: nat| (#[trigger] check_limit(limit, n)) is Ok == (n <= most)
}

/// No more lines of a description than 256 are read.
pub proof fn lemma_lore_count()
    ensures
        takes_up_to(LoreCount::rule(), 256),
{
    assert forall|n: int, r: Seq<u8>| i32::MIN <= n <= i32::MAX implies (#[trigger] read_count(LoreCount::rule(), var_int(n) + r)).value is Ok == (0 <= n
        <= 256) && (0 <= n <= 256 ==> read_count(LoreCount::rule(), var_int(n) + r) == crate::wire::done(n as nat, r)) by {
        lemma_read_var_int(n, r);
    }
}

/// No more hidden components than 256 are read or written.
pub proof fn lemma_hidden_count()
    ensures
        takes_up_to(HiddenCount::rule(), 256),
        writes_up_to(HiddenCount::limit(), 256),
{
    assert forall|n: int, r: Seq<u8>| i32::MIN <= n <= i32::MAX implies (#[trigger] read_count(HiddenCount::rule(), var_int(n) + r)).value is Ok == (0 <= n
        <= 256) && (0 <= n <= 256 ==> read_count(HiddenCount::rule(), var_int(n) + r) == crate::wire::done(n as nat, r)) by {
        lemma_read_var_int(n, r);
    }
}

/// No more status effects of an effect than 128 are read.
pub proof fn lemma_effect_count()
    ensures
        takes_up_to(EffectCount::rule(), 128),
{
    assert forall|n: int, r: Seq<u8>| i32::MIN <= n <= i32::MAX implies (#[trigger] read_count(EffectCount::rule(), var_int(n) + r)).value is Ok == (0 <= n
        <= 128) && (0 <= n <= 128 ==> read_count(EffectCount::rule(), var_int(n) + r) == crate::wire::done(n as nat, r)) by {
        lemma_read_var_int(n, r);
    }
}

/// No more effects of consuming than 256 are read.
pub proof fn lemma_consume_effect_count()
    ensures
        takes_up_to(ConsumeEffectCount::rule(), 256),
{
    assert forall|n: int, r: Seq<u8>| i32::MIN <= n <= i32::MAX implies (#[trigger] read_count(ConsumeEffectCount::rule(), var_int(n) + r)).value is Ok == (0 <= n
        <= 256) && (0 <= n <= 256 ==> read_count(ConsumeEffectCount::rule(), var_int(n) + r) == crate::wire::done(n as nat, r)) by {
        lemma_read_var_int(n, r);
    }
}

/// No more effects of a rescue than 256 are read or written.
pub proof fn lemma_death_effect_count()
    ensures
        takes_up_to(DeathEffectCount::rule(), 256),
        writes_up_to(DeathEffectCount::limit(), 256),
{
    assert forall|n: int, r: Seq<u8>| i32::MIN <= n <= i32::MAX implies (#[trigger] read_count(DeathEffectCount::rule(), var_int(n) + r)).value is Ok == (0 <= n
        <= 256) && (0 <= n <= 256 ==> read_count(DeathEffectCount::rule(), var_int(n) + r) == crate::wire::done(n as nat, r)) by {
        lemma_read_var_int(n, r);
    }
}

/// No more effects of a stew than 128 are read.
pub proof fn lemma_stew_effect_count()
    ensures
        takes_up_to(StewEffectCount::rule(), 128),
{
    assert forall|n: int, r: Seq<u8>| i32::MIN <= n <= i32::MAX implies (#[trigger] read_count(StewEffectCount::rule(), var_int(n) + r)).value is Ok == (0 <= n
        <= 128) && (0 <= n <= 128 ==> read_count(StewEffectCount::rule(), var_int(n) + r) == crate::wire::done(n as nat, r)) by {
        lemma_read_var_int(n, r);
    }
}

/// No more enchantments than 256 are read.
pub proof fn lemma_enchantment_count()
    ensures
        takes_up_to(EnchantmentCount::rule(), 256),
{
    assert forall|n: int, r: Seq<u8>| i32::MIN <= n <= i32::MAX implies (#[trigger] read_count(EnchantmentCount::rule(), var_int(n) + r)).value is Ok == (0 <= n
        <= 256) && (0 <= n <= 256 ==> read_count(EnchantmentCount::rule(), var_int(n) + r) == crate::wire::done(n as nat, r)) by {
        lemma_read_var_int(n, r);
    }
}

/// No more stacks in a bundle than 64 are read or written.
pub proof fn lemma_bundle_count()
    ensures
        takes_up_to(BundleCount::rule(), 64),
        writes_up_to(BundleCount::limit(), 64),
{
    assert forall|n: int, r: Seq<u8>| i32::MIN <= n <= i32::MAX implies (#[trigger] read_count(BundleCount::rule(), var_int(n) + r)).value is Ok == (0 <= n
        <= 64) && (0 <= n <= 64 ==> read_count(BundleCount::rule(), var_int(n) + r) == crate::wire::done(n as nat, r)) by {
        lemma_read_var_int(n, r);
    }
}

/// No more projectiles than 1024 are read or written.
pub proof fn lemma_projectile_count()
    ensures
        takes_up_to(ProjectileCount::rule(), 1024),
        writes_up_to(ProjectileCount::limit(), 1024),
{
    assert forall|n: int, r: Seq<u8>| i32::MIN <= n <= i32::MAX implies (#[trigger] read_count(ProjectileCount::rule(), var_int(n) + r)).value is Ok == (0 <= n
        <= 1024) && (0 <= n <= 1024 ==> read_count(ProjectileCount::rule(), var_int(n) + r) == crate::wire::done(n as nat, r)) by {
        lemma_read_var_int(n, r);
    }
}

/// No more colours than 256 are read.
pub proof fn lemma_color_count()
    ensures
        takes_up_to(ColorCount::rule(), 256),
{
    assert forall|n: int, r: Seq<u8>| i32::MIN <= n <= i32::MAX implies (#[trigger] read_count(ColorCount::rule(), var_int(n) + r)).value is Ok == (0 <= n
        <= 256) && (0 <= n <= 256 ==> read_count(ColorCount::rule(), var_int(n) + r) == crate::wire::done(n as nat, r)) by {
        lemma_read_var_int(n, r);
    }
}

/// No more colours to fade to than 256 are read.
pub proof fn lemma_fade_color_count()
    ensures
        takes_up_to(FadeColorCount::rule(), 256),
{
    assert forall|n: int, r: Seq<u8>| i32::MIN <= n <= i32::MAX implies (#[trigger] read_count(FadeColorCount::rule(), var_int(n) + r)).value is Ok == (0 <= n
        <= 256) && (0 <= n <= 256 ==> read_count(FadeColorCount::rule(), var_int(n) + r) == crate::wire::done(n as nat, r)) by {
        lemma_read_var_int(n, r);
    }
}

/// No more explosions than 256 are read.
pub proof fn lemma_explosion_count()
    ensures
        takes_up_to(ExplosionCount::rule(), 256),
{
    assert forall|n: int, r: Seq<u8>| i32::MIN <= n <= i32::MAX implies (#[trigger] read_count(ExplosionCount::rule(), var_int(n) + r)).value is Ok == (0 <= n
        <= 256) && (0 <= n <= 256 ==> read_count(ExplosionCount::rule(), var_int(n) + r) == crate::wire::done(n as nat, r)) by {
        lemma_read_var_int(n, r);
    }
}

/// No more than 256 slots of a container are read.
pub proof fn lemma_slot_count_rule()
    ensures
        takes_up_to(slot_rule(), 256),
{
    assert forall|n: int, r: Seq<u8>| i32::MIN <= n <= i32::MAX implies (#[trigger] read_count(slot_rule(), var_int(n) + r)).value is Ok == (0 <= n
        <= 256) && (0 <= n <= 256 ==> read_count(slot_rule(), var_int(n) + r) == crate::wire::done(n as nat, r)) by {
        lemma_read_var_int(n, r);
    }
}

proof fn lemma_bad_count(rule: CountRule, limit: Limit, f: Format, c: Ctx, s: Seq<u8>)
    requires
        read_count(rule, s).value is Err,
    ensures
        read_val(list(rule, limit, f), c, s).value is Err,
        read_val(Format::Distinct(rule, limit, Box::new(f)), c, s).value is Err,
{
    reveal(read_val);
}

/// Components that are lists are refused where they say to be longer than they may.
pub proof fn lemma_long_components_are_refused(c: Ctx, n: int, r: Seq<u8>)
    requires
        i32::MIN <= n <= i32::MAX,
    ensures
        n < 0 || n > 256 ==> read_val(LoreImpl::format(), c, var_int(n) + r).value is Err,
        n < 0 || n > 256 ==> read_val(EnchantmentsImpl::format(), c, var_int(n) + r).value is Err,
        n < 0 || n > 256 ==> read_val(StoredEnchantmentsImpl::format(), c, var_int(n) + r).value is Err,
        n < 0 || n > 256 ==> read_val(DeathProtectionImpl::format(), c, var_int(n) + r).value is Err,
        n < 0 || n > 128 ==> read_val(SuspiciousStewEffectsImpl::format(), c, var_int(n) + r).value is Err,
        n < 0 || n > 256 ==> read_val(DistinctComponents::format(), c, var_int(n) + r).value is Err,
{
    let s = var_int(n) + r;
    lemma_read_var_int(n, r);
    if n < 0 || n > 128 {
        lemma_bad_count(StewEffectCount::rule(), StewEffectCount::limit(), SuspiciousStewEffect::format(), c, s);
    }
    if n < 0 || n > 256 {
        lemma_bad_count(LoreCount::rule(), LoreCount::limit(), AsLine::format(), c, s);
        lemma_bad_count(
            EnchantmentCount::rule(),
            EnchantmentCount::limit(),
            <AsLeveled<UnknownEnchantment> as DataComponentCodec>::format(),
            c,
            s,
        );
        lemma_bad_count(
            EnchantmentCount::rule(),
            EnchantmentCount::limit(),
            <AsLeveled<UnknownStoredEnchantment> as DataComponentCodec>::format(),
            c,
            s,
        );
        lemma_bad_count(DeathEffectCount::rule(), DeathEffectCount::limit(), ConsumeEffect::format(), c, s);
        lemma_bad_count(HiddenCount::rule(), HiddenCount::limit(), <Coded<HiddenComponent> as DataComponentCodec>::format(), c, s);
    }
}

/// A bundle, projectiles and a container are refused where they say to be longer than they may.
pub proof fn lemma_long_stack_lists_are_refused(c: Ctx, n: int, r: Seq<u8>)
    requires
        i32::MIN <= n <= i32::MAX,
    ensures
        n < 0 || n > 64 ==> read_val(component_format(DataComponent::BundleContents), c, var_int(n) + r).value is Err,
        n < 0 || n > 1024 ==> read_val(component_format(DataComponent::ChargedProjectiles), c, var_int(n) + r).value is Err,
        n < 0 || n > 256 ==> read_val(component_format(DataComponent::Container), c, var_int(n) + r).value is Err,
{
    lemma_stack_formats();
    let s = var_int(n) + r;
    lemma_read_var_int(n, r);
    if n < 0 || n > 64 {
        lemma_bad_count(BundleCount::rule(), BundleCount::limit(), Format::Template, c, s);
    }
    if n < 0 || n > 1024 {
        lemma_bad_count(ProjectileCount::rule(), ProjectileCount::limit(), Format::Template, c, s);
    }
    if n < 0 || n > 256 {
        lemma_bad_slots(c, s);
    }
}

proof fn lemma_bad_slots(c: Ctx, s: Seq<u8>)
    requires
        read_count(slot_rule(), s).value is Err,
    ensures
        read_val(Format::Slots, c, s).value is Err,
{
    reveal(read_val);
}

proof fn lemma_stack_formats()
    ensures
        component_format(DataComponent::BundleContents) == list(BundleCount::rule(), BundleCount::limit(), Format::Template),
        component_format(DataComponent::ChargedProjectiles) == list(ProjectileCount::rule(), ProjectileCount::limit(), Format::Template),
        component_format(DataComponent::Container) == Format::Slots,
        component_format(DataComponent::UseRemainder) == Format::Template,
        component_format(DataComponent::SulfurCubeContent) == Format::Template,
{
    reveal(component_format);
}

/// Whether a number is taken from zero up to `most` and no other.
pub open spec fn numbers_up_to(f: Format, most: int) -> bool {
    forall|c: Ctx, n: int, r: Seq<u8>|
        i32::MIN <= n <= i32::MAX ==> (#[trigger] read_val(f, c, var_int(n) + r)).value is Ok == (0 <= n <= most)
}

proof fn lemma_numbers_up_to<T: Numbered>(most: int)
    requires
        forall|regs: Registries, n: int| i32::MIN <= n <= i32::MAX ==> (#[trigger] check_read(T::check(), regs, n)) is Ok == (0 <= n <= most),
    ensures
        numbers_up_to(<Coded<T> as DataComponentCodec>::format(), most),
{
    reveal(read_val);
    assert forall|c: Ctx, n: int, r: Seq<u8>| i32::MIN <= n <= i32::MAX implies (#[trigger] read_val(
        <Coded<T> as DataComponentCodec>::format(),
        c,
        var_int(n) + r,
    )).value is Ok == (0 <= n <= most) by {
        lemma_read_var_int(n, r);
        assert(check_read(T::check(), c.regs, n) is Ok == (0 <= n <= most));
    }
}

/// Numbers that stand for something are refused where they stand for nothing.
pub proof fn lemma_unknown_numbers_are_refused()
    ensures
        numbers_up_to(<Coded<StackSize> as DataComponentCodec>::format(), 255),
        numbers_up_to(<Coded<AsRarity> as DataComponentCodec>::format(), 3),
        numbers_up_to(<Coded<AsAnimation> as DataComponentCodec>::format(), 11),
        numbers_up_to(<Coded<AsOperation> as DataComponentCodec>::format(), 2),
        numbers_up_to(<Coded<AsModifierSlot> as DataComponentCodec>::format(), 10),
        numbers_up_to(<Coded<AsEquipmentSlot> as DataComponentCodec>::format(), 7),
        numbers_up_to(<Coded<AsSwing> as DataComponentCodec>::format(), 2),
        numbers_up_to(<Coded<AsShape> as DataComponentCodec>::format(), 4),
        numbers_up_to(<Coded<FlightDuration> as DataComponentCodec>::format(), 255),
{
    lemma_numbers_up_to::<StackSize>(255);
    lemma_numbers_up_to::<AsRarity>(3);
    lemma_numbers_up_to::<AsAnimation>(11);
    lemma_numbers_up_to::<AsOperation>(2);
    lemma_numbers_up_to::<AsModifierSlot>(10);
    lemma_numbers_up_to::<AsEquipmentSlot>(7);
    lemma_numbers_up_to::<AsSwing>(2);
    lemma_numbers_up_to::<AsShape>(4);
    lemma_numbers_up_to::<FlightDuration>(255);
}

/// Whether a value is written as these bytes.
pub open spec fn written_as(f: Format, c: Ctx, v: Val, b: Seq<u8>) -> bool {
    forall|out: Seq<u8>| #[trigger] write_val(f, c, out, v) == put(out, b)
}

proof fn lemma_items_written(f: Format, c: Ctx, out: Seq<u8>, l: Seq<Val>, piece: spec_fn(int) -> Seq<u8>, i: nat)
    requires
        i <= l.len(),
        forall|k: int| 0 <= k < l.len() ==> written_as(f, c, #[trigger] l[k], piece(k)),
    ensures
        write_items(f, c, out, l, i as int) == put(out, in_turn(l.len(), piece, i)),
    decreases l.len() - i,
{
    reveal(write_val);
    if i < l.len() {
        assert(written_as(f, c, l[i as int], piece(i as int)));
        assert(write_val(f, c, out, l[i as int]) == put(out, piece(i as int)));
        lemma_items_written(f, c, out + piece(i as int), l, piece, i + 1);
        assert(out + piece(i as int) + in_turn(l.len(), piece, i + 1) =~= out + (piece(i as int) + in_turn(l.len(), piece, i + 1)));
    } else {
        assert(out + in_turn(l.len(), piece, i) =~= out);
    }
}

/// A bundle and projectiles are sent as how many stacks there are, and these in their order; more than they
/// may hold are refused.
pub proof fn lemma_stack_lists_are_written(c: Ctx, l: Seq<Val>, piece: spec_fn(int) -> Seq<u8>, out: Seq<u8>)
    requires
        forall|k: int| 0 <= k < l.len() ==> written_as(Format::Template, c, #[trigger] l[k], piece(k)),
    ensures
        l.len() <= 64 ==> write_val(component_format(DataComponent::BundleContents), c, out, Val::List(l)) == put(
            out,
            var_int(l.len() as int) + in_turn(l.len(), piece, 0),
        ),
        l.len() > 64 ==> write_val(component_format(DataComponent::BundleContents), c, out, Val::List(l)).result is Err,
        l.len() <= 1024 ==> write_val(component_format(DataComponent::ChargedProjectiles), c, out, Val::List(l)) == put(
            out,
            var_int(l.len() as int) + in_turn(l.len(), piece, 0),
        ),
        l.len() > 1024 ==> write_val(component_format(DataComponent::ChargedProjectiles), c, out, Val::List(l)).result is Err,
{
    lemma_stack_formats();
    lemma_list_written(BundleCount::rule(), BundleCount::limit(), Format::Template, c, out, l, piece);
    lemma_list_written(ProjectileCount::rule(), ProjectileCount::limit(), Format::Template, c, out, l, piece);
}

pub(crate) proof fn lemma_list_written(rule: CountRule, limit: Limit, f: Format, c: Ctx, out: Seq<u8>, l: Seq<Val>, piece: spec_fn(int) -> Seq<u8>)
    requires
        forall|k: int| 0 <= k < l.len() ==> written_as(f, c, #[trigger] l[k], piece(k)),
    ensures
        l.len() <= i32::MAX && check_limit(limit, l.len()) is Ok ==> write_val(list(rule, limit, f), c, out, Val::List(l)) == put(
            out,
            var_int(l.len() as int) + in_turn(l.len(), piece, 0),
        ) && write_val(Format::Distinct(rule, limit, Box::new(f)), c, out, Val::List(l)) == put(
            out,
            var_int(l.len() as int) + in_turn(l.len(), piece, 0),
        ),
        check_limit(limit, l.len()) is Err ==> write_val(list(rule, limit, f), c, out, Val::List(l)).result is Err,
{
    reveal(write_val);
    let n = var_int(l.len() as int);
    if l.len() <= i32::MAX {
        lemma_small_count(l.len());
        lemma_items_written(f, c, out + n, l, piece, 0);
        assert(out + n + in_turn(l.len(), piece, 0) =~= out + (n + in_turn(l.len(), piece, 0)));
    }
}

/// A stack inside a component is sent as the stack that cannot be empty.
pub proof fn lemma_inner_stacks_are_templates(c: Ctx, s: StackVal, out: Seq<u8>)
    requires
        c.budget > 0,
    ensures
        write_val(component_format(DataComponent::UseRemainder), c, out, Val::Stack(s)) == write_template(deeper(c), out, s),
        write_val(component_format(DataComponent::SulfurCubeContent), c, out, Val::Stack(s)) == write_template(deeper(c), out, s),
        write_val(Format::Template, c, out, Val::Stack(s)) == write_template(deeper(c), out, s),
{
    lemma_stack_formats();
    lemma_template_written(c, s, out);
}

proof fn lemma_template_written(c: Ctx, s: StackVal, out: Seq<u8>)
    requires
        c.budget > 0,
    ensures
        write_val(Format::Template, c, out, Val::Stack(s)) == write_template(deeper(c), out, s),
{
    reveal(write_val);
}

proof fn lemma_slots_written(c: Ctx, l: Seq<Val>, out: Seq<u8>)
    requires
        c.budget > 0,
    ensures
        write_val(Format::Slots, c, out, Val::List(l)) == write_slots(
            l,
            0,
            slot_count(l, l.len()),
            deeper(c),
            out + var_int(slot_count(l, l.len())),
        ),
{
    reveal(write_val);
}

/// The slot and the stack of an entry of a container.
pub open spec fn in_slot(slot: int, s: StackVal) -> Val {
    pair(Val::Int(slot), Val::Stack(s))
}

/// Whether every entry of a container is a stack in a slot, and no slot comes twice.
pub open spec fn is_container(l: Seq<Val>, slots: Seq<int>, stacks: Seq<StackVal>) -> bool {
    &&& slots.len() == l.len() && stacks.len() == l.len()
    &&& forall|k: int| 0 <= k < l.len() ==> #[trigger] l[k] == in_slot(slots[k], stacks[k]) && slots[k] >= 0
    &&& forall|a: int, b: int| 0 <= a < b < l.len() ==> #[trigger] slots[a] != #[trigger] slots[b]
}

proof fn lemma_slot_found(l: Seq<Val>, slots: Seq<int>, stacks: Seq<StackVal>, n: nat, slot: int)
    requires
        is_container(l, slots, stacks),
        n <= l.len(),
    ensures
        forall|k: int| 0 <= k < n && #[trigger] slots[k] == slot ==> slot_stack(l, n, slot) == Some(stacks[k]),
        (forall|k: int| 0 <= k < n ==> #[trigger] slots[k] != slot) ==> slot_stack(l, n, slot) is None,
        forall|k: int| 0 <= k < n ==> #[trigger] slots[k] < slot_count(l, n),
        slot_count(l, n) == 0 || exists|k: int| 0 <= k < n && slot_count(l, n) == #[trigger] slots[k] + 1,
        slot_count(l, n) >= 0,
    decreases n,
{
    if n > 0 {
        lemma_slot_found(l, slots, stacks, (n - 1) as nat, slot);
        assert(l[n - 1] == in_slot(slots[n - 1], stacks[n - 1]));
        let e = l[n - 1];
        assert(e is Pair && *e->Pair_0 == Val::Int(slots[n - 1]) && *e->Pair_1 == Val::Stack(stacks[n - 1]));
        let m = slot_count(l, (n - 1) as nat);
        if m != 0 && slot_count(l, n) == m {
            let k = choose|k: int| 0 <= k < n - 1 && m == #[trigger] slots[k] + 1;
            assert(slots[k] + 1 == slot_count(l, n));
        } else if slot_count(l, n) == slots[n - 1] + 1 {
            assert(slots[n - 1] + 1 == slot_count(l, n));
        }
    }
}

/// A container is sent as one more than its last slot that holds something, and each slot up to it as a flag,
/// and its stack where there is one.
pub proof fn lemma_container_slots(l: Seq<Val>, slots: Seq<int>, stacks: Seq<StackVal>, c: Ctx, out: Seq<u8>, k: int)
    requires
        is_container(l, slots, stacks),
        c.budget > 0,
        0 <= k < l.len(),
    ensures
        write_val(component_format(DataComponent::Container), c, out, Val::List(l)) == write_slots(
            l,
            0,
            slot_count(l, l.len()),
            deeper(c),
            out + var_int(slot_count(l, l.len())),
        ),
        slots[k] < slot_count(l, l.len()),
        exists|j: int| 0 <= j < l.len() && slot_count(l, l.len()) == #[trigger] slots[j] + 1,
        slot_stack(l, l.len(), slots[k]) == Some(stacks[k]),
{
    lemma_stack_formats();
    lemma_slots_written(c, l, out);
    lemma_slot_found(l, slots, stacks, l.len(), slots[k]);
}

/// Each slot is sent as a flag, and its stack where there is one.
pub proof fn lemma_slots_are_written(l: Seq<Val>, i: int, n: int, c: Ctx, out: Seq<u8>, piece: spec_fn(int) -> Seq<u8>)
    requires
        0 <= i <= n,
        forall|k: int, o: Seq<u8>|
            i <= k < n && slot_stack(l, l.len(), k) is Some ==> #[trigger] write_template(c, o, slot_stack(l, l.len(), k)->0) == put(o, piece(k)),
    ensures
        write_slots(l, i, n, c, out) == put(
            out,
            in_turn(
                n as nat,
                |k: int|
                    if slot_stack(l, l.len(), k) is Some {
                        seq![1u8] + piece(k)
                    } else {
                        seq![0u8]
                    },
                i as nat,
            ),
        ),
    decreases n - i,
{
    let f = |k: int|
        if slot_stack(l, l.len(), k) is Some {
            seq![1u8] + piece(k)
        } else {
            seq![0u8]
        };
    if i < n {
        let p = f(i);
        lemma_slots_are_written(l, i + 1, n, c, out + p, piece);
        assert(out + p + in_turn(n as nat, f, (i + 1) as nat) =~= out + (p + in_turn(n as nat, f, (i + 1) as nat)));
        match slot_stack(l, l.len(), i) {
            Some(s) => {
                assert(write_template(c, out + seq![1u8], s) == put(out + seq![1u8], piece(i)));
                assert(out + seq![1u8] + piece(i) =~= out + p);
            },
            None => {},
        }
    } else {
        assert(out + in_turn(n as nat, f, i as nat) =~= out);
    }
}

/// What a tooltip hides is sent as whether all of it is hidden, and the numbers of the components that are.
pub proof fn lemma_tooltip_is_written(v: TooltipDisplayImpl, c: Ctx, out: Seq<u8>)
    requires
        v.hidden_components@.len() <= 256,
    ensures
        write_val(TooltipDisplayImpl::format(), c, out, TooltipDisplayImpl::val(v)) == put(
            out,
            seq![if v.hide_tooltip { 1u8 } else { 0u8 }] + (var_int(v.hidden_components@.len() as int) + in_turn(
                v.hidden_components@.len(),
                |k: int| var_int(component_id(v.hidden_components@[k]) as int),
                0,
            )),
        ),
{
    let l = vals::<Coded<HiddenComponent>>(v.hidden_components@);
    let f = <Coded<HiddenComponent> as DataComponentCodec>::format();
    let piece = |k: int| var_int(component_id(v.hidden_components@[k]) as int);
    assert forall|k: int| 0 <= k < l.len() implies written_as(f, c, #[trigger] l[k], piece(k)) by {
        assert(l[k] == <Coded<HiddenComponent> as DataComponentCodec>::val(v.hidden_components@[k]));
        lemma_hidden_written(v.hidden_components@[k], c);
    }
    let h = seq![if v.hide_tooltip { 1u8 } else { 0u8 }];
    lemma_list_written(HiddenCount::rule(), HiddenCount::limit(), f, c, out + h, l, piece);
    lemma_flag_first(DistinctComponents::format(), c, out, v.hide_tooltip, DistinctComponents::val(v.hidden_components));
    let b = var_int(l.len() as int) + in_turn(l.len(), piece, 0);
    assert(out + h + b =~= out + (h + b));
}

proof fn lemma_hidden_written(k: DataComponent, c: Ctx)
    ensures
        written_as(
            <Coded<HiddenComponent> as DataComponentCodec>::format(),
            c,
            <Coded<HiddenComponent> as DataComponentCodec>::val(k),
            var_int(component_id(k) as int),
        ),
{
    reveal(write_val);
}

proof fn lemma_flag_first(f: Format, c: Ctx, out: Seq<u8>, b: bool, v: Val)
    ensures
        write_val(both(Format::Bool, f), c, out, pair(Val::Bool(b), v)) == write_val(f, c, out + seq![if b { 1u8 } else { 0u8 }], v),
{
    reveal_with_fuel(write_val, 2);
    assert(write_val(Format::Bool, c, out, Val::Bool(b)) == put(out, seq![if b { 1u8 } else { 0u8 }]));
}

/// A layer of a banner is sent as zero, in place of its pattern, and the number of its dye.
pub proof fn lemma_layer_is_written(v: BannerPatternLayer, c: Ctx, out: Seq<u8>)
    ensures
        write_val(BannerPatternLayer::format(), c, out, BannerPatternLayer::val(v)) == put(out, seq![0u8] + var_int(v.color.id as int)),
{
    reveal_with_fuel(write_val, 4);
    lemma_pow256();
    reveal_with_fuel(crate::wire::groups, 2);
    assert(var_int(0) =~= seq![0u8]);
    let d = var_int(v.color.id as int);
    assert(out + seq![0u8] + d =~= out + (seq![0u8] + d));
}

/// A colour is sent as the number of the dye with its name.
pub proof fn lemma_color_is_written(w: BaseColorImpl, i: int, c: Ctx, out: Seq<u8>)
    requires
        0 <= i < 16,
        w.color@ == dye_names()[i],
    ensures
        write_val(BaseColorImpl::format(), c, out, BaseColorImpl::val(w)) == put(out, var_int(i)),
{
    reveal(write_val);
    lemma_dye_names(i);
}

/// The head of a profile is sent as one, the name and the number, each behind a flag where it is known.
pub proof fn lemma_profile_head_is_written(name: Option<String>, id: Option<[i32; 4]>, c: Ctx, out: Seq<u8>)
    requires
        name matches Some(t) ==> text_fits(t@, MAX_TEXT_BYTES as nat),
    ensures
        write_val(AsProfileHead::format(), c, out, AsProfileHead::val((name, id))) == put(
            out,
            seq![1u8] + (match name {
                Some(t) => seq![1u8] + text(t@),
                None => seq![0u8],
            }) + (match id {
                Some(b) => seq![1u8] + (be_signed(b@[0] as int, 4) + be_signed(b@[1] as int, 4) + be_signed(b@[2] as int, 4) + be_signed(
                    b@[3] as int,
                    4,
                )),
                None => seq![0u8],
            }),
        ),
{
    reveal(write_val);
    lemma_pow256();
    reveal_with_fuel(crate::wire::groups, 2);
    assert(var_int(1) =~= seq![1u8]);
    let a = match name {
        Some(t) => seq![1u8] + text(t@),
        None => seq![0u8],
    };
    let o = out + seq![1u8];
    match name {
        Some(t) => {
            assert(o + seq![1u8] + text(t@) =~= out + (seq![1u8] + a));
        },
        None => {
            assert(o + seq![0u8] =~= out + (seq![1u8] + a));
        },
    }
    let h = out + (seq![1u8] + a);
    match id {
        Some(b) => {
            let x = be_signed(b@[0] as int, 4);
            let y = be_signed(b@[1] as int, 4);
            let z = be_signed(b@[2] as int, 4);
            let w = be_signed(b@[3] as int, 4);
            assert(h + seq![1u8] + x + y + z + w =~= out + (seq![1u8] + a + (seq![1u8] + (x + y + z + w))));
        },
        None => {
            assert(h + seq![0u8] =~= out + (seq![1u8] + a + seq![0u8]));
        },
    }
}

/// Of values that come more than once, only the first is kept.
pub proof fn lemma_distinct(l: Seq<Val>)
    ensures
        forall|v: Val| #[trigger] distinct(l).contains(v) <==> l.contains(v),
        forall|a: int, b: int| 0 <= a < b < distinct(l).len() ==> #[trigger] distinct(l)[a] != #[trigger] distinct(l)[b],
        (forall|a: int, b: int| 0 <= a < b < l.len() ==> #[trigger] l[a] != #[trigger] l[b]) ==> distinct(l) == l,
    decreases l.len(),
{
    if l.len() > 0 {
        let h = l.drop_last();
        lemma_distinct(h);
        let d = distinct(h);
        assert forall|v: Val| #[trigger] distinct(l).contains(v) <==> l.contains(v) by {
            if l.contains(v) {
                let k = choose|k: int| 0 <= k < l.len() && l[k] == v;
                if k < l.len() - 1 {
                    assert(h[k] == v);
                    assert(d.contains(v));
                    let j = choose|j: int| 0 <= j < d.len() && d[j] == v;
                    assert(distinct(l)[j] == v);
                } else if !d.contains(v) {
                    assert(distinct(l)[d.len() as int] == v);
                }
            }
            if distinct(l).contains(v) {
                let j = choose|j: int| 0 <= j < distinct(l).len() && distinct(l)[j] == v;
                if j < d.len() {
                    assert(d[j] == v);
                    assert(d.contains(v));
                    let k = choose|k: int| 0 <= k < h.len() && h[k] == v;
                    assert(l[k] == v);
                } else {
                    assert(l[l.len() - 1] == v);
                }
            }
        }
        if forall|a: int, b: int| 0 <= a < b < l.len() ==> #[trigger] l[a] != #[trigger] l[b] {
            assert forall|a: int, b: int| 0 <= a < b < h.len() implies #[trigger] h[a] != #[trigger] h[b] by {
                assert(l[a] != l[b]);
            }
            if d.contains(l.last()) {
                let k = choose|k: int| 0 <= k < h.len() && h[k] == l.last();
                assert(l[k] != l[l.len() - 1]);
            }
            assert(distinct(l) =~= l);
        }
    } else {
        assert(distinct(l) =~= l);
    }
}

/// What numbers from a registry stand for: damage types and dyes are counted modulo 256, a dye that there is
/// not is white, songs are counted from one, and what is not known is refused.
pub proof fn lemma_registry_numbers(regs: Registries, v: int)
    requires
        i32::MIN <= v <= i32::MAX,
    ensures
        check_read(AsDye::check(), regs, v) == Ok::<Val, ReadFault>(Val::Int(if v % 256 < 16 { v % 256 } else { 0 })),
        0 <= v % 256 < 16 ==> check_read(AsDyeName::check(), regs, v) == Ok::<Val, ReadFault>(Val::Text(dye_names()[v % 256])),
        v % 256 < regs.damage_types@.len() ==> check_read(AsDamageType::check(), regs, v) == Ok::<Val, ReadFault>(Val::Int(v % 256)),
        v % 256 >= regs.damage_types@.len() ==> check_read(AsDamageType::check(), regs, v) is Err,
        0 <= v < regs.attributes@.len() ==> check_read(AsAttribute::check(), regs, v) == Ok::<Val, ReadFault>(Val::Int(v)),
        v < 0 || v >= regs.attributes@.len() ==> check_read(AsAttribute::check(), regs, v) is Err,
        1 <= v <= regs.songs@.len() ==> check_read(AsSong::check(), regs, v) == Ok::<Val, ReadFault>(
            Val::Text("minecraft:"@ + regs.songs@[v - 1]@),
        ),
        v < 1 || v > regs.songs@.len() ==> check_read(AsSong::check(), regs, v) is Err,
        0 <= v < regs.effects@.len() && v <= 65535 ==> check_read(AsStewEffect::check(), regs, v) == Ok::<Val, ReadFault>(Val::Text(regs.effects@[v]@)),
        v < 0 || v >= regs.effects@.len() ==> check_read(AsStewEffect::check(), regs, v) is Err,
        check_read(AsProcessing::check(), regs, v) == Ok::<Val, ReadFault>(
            if v == 0 || v == 1 {
                Val::Present(Box::new(Val::Int(v)))
            } else {
                Val::Absent
            },
        ),
{
    if 0 <= v % 256 < 16 {
        lemma_dye_names(v % 256);
    }
}

} // verus!
