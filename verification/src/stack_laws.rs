//! What holds of stacks whatever is done with them: wear and repair, counts, custom data,
//! enchantments, bundles and the slots of a screen.
use vstd::prelude::*;
use crate::bundle::{insert_all, insert_one, item_total, item_weight, weight, BUNDLE_SIZE};
use crate::data_component::DataComponent;
use crate::format::{pair, ComponentVal, StackVal, Val};
use crate::nbt_tag::{compound_get, compound_put, key_index, keys_distinct, lemma_get_of_put, lemma_key_index, lemma_key_index_is, lemma_key_index_none, Tag};
use crate::patch_laws::{lemma_component_replaced, lemma_dropped_entry};
use crate::persist::{as_int, first, second};
use crate::same::items_same;
use crate::screen::{action_views, capacity, fill, give_all_back, insert, is_emptied, is_quick_move, lemma_given_elsewhere, lemma_insert_elsewhere, merge, merge_at, nth_slot, route, sent, taken_actions, worn_actions, ActionView, Closing, Inserted, QuickMove, SLOT_COUNT};
use crate::equipment::EquipmentSlot;
use crate::stack::{component_in, first_default, holds_nothing, is_nothing};
use crate::stack_data::{data_get, data_of, data_with, data_without, enchanted, group_of, place_of, smaller, with_data, without};
use crate::stack_use::{armor_rolls, capped, damage_of, int_in, is_worn, level_in, max_damage_of, max_stack_size, points, with_count, with_int, with_positive, DamageResult};

verus! {

/// Setting a number for a component gives the stack that number and leaves every other component as it
/// was.
pub proof fn lemma_int_set(s: StackVal, k: DataComponent, v: int, other: DataComponent)
    ensures
        int_in(with_int(s, k, v), k) == Some(v),
        other != k ==> component_in(with_int(s, k, v), other) == component_in(s, other),
        with_int(s, k, v).item == s.item && with_int(s, k, v).count == s.count,
{
    lemma_component_replaced(s, k, Some(ComponentVal { kind: k, val: Val::Int(v) }), k);
    lemma_component_replaced(s, k, Some(ComponentVal { kind: k, val: Val::Int(v) }), other);
}

/// Setting a number that is not above zero gives the stack the default of its item, and leaves every
/// other component as it was.
pub proof fn lemma_positive_set(s: StackVal, k: DataComponent, v: int, other: DataComponent)
    ensures
        v > 0 ==> int_in(with_positive(s, k, v), k) == Some(v),
        v <= 0 ==> component_in(with_positive(s, k, v), k) == first_default(s.item.components@, k, 0),
        other != k ==> component_in(with_positive(s, k, v), other) == component_in(s, other),
{
    if v > 0 {
        lemma_int_set(s, k, v, other);
    } else {
        lemma_dropped_entry(s.patch, k, k);
        lemma_dropped_entry(s.patch, k, other);
    }
}

/// Whether the item of a stack starts without damage.
pub open spec fn starts_whole(s: StackVal) -> bool {
    first_default(s.item.components@, DataComponent::Damage, 0) is None
}

/// Damage adds up and stays below what breaks the item; the rest of the stack does not change.
pub proof fn lemma_wear_adds_up(s: StackVal, applied: int, t: StackVal, r: DamageResult)
    requires
        damage_of(s) >= 0,
        is_worn(s, applied, t, r),
        r == DamageResult::Damaged,
    ensures
        damage_of(t) == capped(damage_of(s) + applied),
        damage_of(t) < max_damage_of(t),
        max_damage_of(t) == max_damage_of(s),
        t.count == s.count && t.item == s.item,
{
    let d = capped(damage_of(s) + applied);
    lemma_positive_set(s, DataComponent::Damage, d, DataComponent::MaxDamage);
}

/// An item that breaks is taken from its stack, and what is left of the stack is whole.
pub proof fn lemma_breaking_takes_one(s: StackVal, applied: int, t: StackVal, r: DamageResult)
    requires
        s.count >= 1,
        starts_whole(s),
        is_worn(s, applied, t, r),
        r == DamageResult::Broken,
    ensures
        t.count == s.count - 1,
        s.count > 1 ==> t.item == s.item && damage_of(t) == 0 && max_damage_of(t) == max_damage_of(s),
        s.count == 1 ==> is_nothing(t),
        damage_of(s) + applied >= max_damage_of(s),
{
    let one = with_count(s, s.count - 1);
    lemma_positive_set(one, DataComponent::Damage, 0, DataComponent::MaxDamage);
}

/// Damage only leaves a stack alone or whole where nothing was applied.
pub proof fn lemma_no_wear_no_change(s: StackVal, applied: int, t: StackVal, r: DamageResult)
    requires
        is_worn(s, applied, t, r),
    ensures
        r == DamageResult::Untouched <==> applied <= 0,
        r == DamageResult::Untouched ==> t == s,
{
}

/// Repairing takes away what it says, and no more than there is: damage and repair add up to the
/// damage before.
pub proof fn lemma_repair_adds_up(s: StackVal, repaired: int)
    requires
        starts_whole(s),
        0 < repaired <= damage_of(s),
    ensures
        ({
            let t = with_positive(s, DataComponent::Damage, damage_of(s) - repaired);
            damage_of(t) + repaired == damage_of(s) && damage_of(t) >= 0 && max_damage_of(t) == max_damage_of(s) && t.count == s.count
                && t.item == s.item
        }),
{
    lemma_positive_set(s, DataComponent::Damage, damage_of(s) - repaired, DataComponent::MaxDamage);
}

/// Repairing as much as was damaged gives back the damage before.
pub proof fn lemma_repair_undoes_wear(s: StackVal, applied: int, t: StackVal, r: DamageResult)
    requires
        starts_whole(s),
        damage_of(s) >= 0,
        applied > 0,
        damage_of(s) + applied <= i32::MAX,
        is_worn(s, applied, t, r),
        r == DamageResult::Damaged,
    ensures
        damage_of(with_positive(t, DataComponent::Damage, damage_of(t) - applied)) == damage_of(s),
{
    lemma_wear_adds_up(s, applied, t, r);
    lemma_positive_set(t, DataComponent::Damage, damage_of(t) - applied, DataComponent::MaxDamage);
    assert(starts_whole(t));
}

/// Of some points of damage, none to all are applied; without Unbreaking all are.
pub proof fn lemma_points_bounds(is_armor: bool, level: int, rolls: Seq<u32>)
    ensures
        0 <= points(is_armor, level, rolls) <= rolls.len(),
        level <= 0 ==> points(is_armor, level, rolls) == rolls.len(),
    decreases rolls.len(),
{
    if rolls.len() > 0 {
        lemma_points_bounds(is_armor, level, rolls.drop_last());
    }
}

/// Unbreaking spares armour at most four times out of ten: the chance of wear stays between 0.6 and 1,
/// counted in rolls out of 2^24.
pub proof fn lemma_armor_chance(level: int)
    requires
        level >= 1,
    ensures
        10066330 <= armor_rolls(level) < 16777216,
{
    let d = (2 * (level + 1)) as nat;
    let n: int = 13421773;
    let m = d as int;
    assert(n / m <= 3355443) by (nonlinear_arith)
        requires
            m >= 4,
            n == 13421773,
    ;
    assert(n / m >= 0) by (nonlinear_arith)
        requires
            m >= 4,
            n == 13421773,
    ;
}

/// Splitting a stack loses no item.
pub proof fn lemma_split_keeps_items(s: StackVal, amount: int)
    requires
        0 <= amount,
        0 <= s.count,
    ensures
        ({
            let n = smaller(amount, s.count);
            with_count(s, n).count + with_count(s, s.count - n).count == s.count && 0 <= n <= amount && s.count - n >= 0
        }),
{
}

proof fn lemma_without(c: Seq<(Seq<char>, Tag)>, key: Seq<char>, other: Seq<char>)
    requires
        keys_distinct(c),
    ensures
        keys_distinct(without(c, key)),
        compound_get(without(c, key), key) is None,
        other != key ==> compound_get(without(c, key), other) == compound_get(c, other),
{
    lemma_key_index(c, key);
    lemma_key_index(c, other);
    let d = without(c, key);
    match key_index(c, key) {
        Some(i) => {
            assert forall|a: int, b: int| 0 <= a < b < d.len() implies (#[trigger] d[a]).0 != (#[trigger] d[b]).0 by {
                let p = if a < i {
                    a
                } else {
                    a + 1
                };
                let q = if b < i {
                    b
                } else {
                    b + 1
                };
                assert(c[p].0 != c[q].0);
            }
            assert forall|j: int| 0 <= j < d.len() implies (#[trigger] d[j]).0 != key by {
                let p = if j < i {
                    j
                } else {
                    j + 1
                };
                if p < i {
                    assert(c[p].0 != c[i].0);
                } else {
                    assert(c[i].0 != c[p].0);
                }
            }
            lemma_key_index_none(d, key);
            if other != key {
                match key_index(c, other) {
                    Some(j) => {
                        let k = if j < i {
                            j
                        } else {
                            j - 1
                        };
                        assert(d[k] == c[j]);
                        assert forall|m: int| k < m < d.len() implies (#[trigger] d[m]).0 != other by {
                            assert(d[k].0 != d[m].0);
                        }
                        lemma_key_index_is(d, other, k);
                    },
                    None => {
                        assert forall|m: int| 0 <= m < d.len() implies (#[trigger] d[m]).0 != other by {
                            let p = if m < i {
                                m
                            } else {
                                m + 1
                            };
                            assert(d[m] == c[p]);
                        }
                        lemma_key_index_none(d, other);
                    },
                }
            }
        },
        None => {},
    }
}

/// The custom data that a stack is given is the custom data that it has.
pub proof fn lemma_data_given(s: StackVal, c: Seq<(Seq<char>, Tag)>)
    ensures
        data_of(with_data(s, c)) == c,
{
    lemma_component_replaced(
        s,
        DataComponent::CustomData,
        Some(ComponentVal { kind: DataComponent::CustomData, val: Val::Nbt(Tag::Compound(c)) }),
        DataComponent::CustomData,
    );
}

/// A value that was set under a namespace and a key is there, and no other value has changed.
pub proof fn lemma_data_set(s: StackVal, namespace: Seq<char>, key: Seq<char>, value: Tag, n: Seq<char>, k: Seq<char>)
    requires
        keys_distinct(data_of(s)),
    ensures
        data_get(with_data(s, data_with(data_of(s), namespace, key, value)), n, k) == if n == namespace && k == key {
            Some(value)
        } else {
            data_get(s, n, k)
        },
{
    let c = data_of(s);
    let inner = compound_put(group_of(c, namespace), key, value);
    lemma_data_given(s, data_with(c, namespace, key, value));
    lemma_without(c, namespace, n);
    lemma_get_of_put(without(c, namespace), namespace, Tag::Compound(inner), n);
    lemma_get_of_put(group_of(c, namespace), key, value, k);
}

/// A value that was removed is gone, and no other value has changed.
pub proof fn lemma_data_removed(s: StackVal, namespace: Seq<char>, key: Seq<char>, n: Seq<char>, k: Seq<char>)
    requires
        keys_distinct(data_of(s)),
        keys_distinct(group_of(data_of(s), namespace)),
    ensures
        data_get(with_data(s, data_without(data_of(s), namespace, key)), n, k) == if n == namespace && k == key {
            None
        } else {
            data_get(s, n, k)
        },
{
    let c = data_of(s);
    let g = group_of(c, namespace);
    let inner = without(g, key);
    lemma_data_given(s, data_without(c, namespace, key));
    lemma_without(c, namespace, n);
    lemma_without(g, key, k);
    lemma_get_of_put(without(c, namespace), namespace, Tag::Compound(inner), n);
    if inner.len() == 0 && n == namespace {
        lemma_key_index(inner, k);
        lemma_key_index_none(Seq::<(Seq<char>, Tag)>::empty(), k);
        assert(compound_get(inner, k) is None);
    }
}

pub(crate) proof fn lemma_place_of(l: Seq<Val>, enchantment: int, i: int)
    requires
        0 <= i,
    ensures
        match place_of(l, enchantment, i) {
            Some(j) => i <= j < l.len() && as_int(first(l[j])) == enchantment && level_in(l, enchantment, i) == as_int(second(l[j])) && (
            forall|k: int| i <= k < j ==> as_int(first(#[trigger] l[k])) != enchantment),
            None => level_in(l, enchantment, i) == 0 && forall|k: int| i <= k < l.len() ==> as_int(first(#[trigger] l[k])) != enchantment,
        },
    decreases l.len() - i,
{
    if i < l.len() && as_int(first(l[i])) != enchantment {
        lemma_place_of(l, enchantment, i + 1);
    }
}

/// Enchanting gives at least the level, never lowers it, and leaves every other enchantment as it was.
pub proof fn lemma_enchanted_level(l: Seq<Val>, enchantment: int, level: int, other: int)
    requires
        level > 0,
    ensures
        level_in(enchanted(l, enchantment, level), enchantment, 0) == (if level_in(l, enchantment, 0) > level {
            level_in(l, enchantment, 0)
        } else {
            level
        }),
        other != enchantment ==> level_in(enchanted(l, enchantment, level), other, 0) == level_in(l, other, 0),
{
    let m = enchanted(l, enchantment, level);
    lemma_place_of(l, enchantment, 0);
    lemma_place_of(m, enchantment, 0);
    lemma_place_of(l, other, 0);
    lemma_place_of(m, other, 0);
    match place_of(l, enchantment, 0) {
        Some(i) => {
            assert(as_int(first(m[i])) == enchantment);
        },
        None => {
            assert(m.last() == pair(Val::Int(enchantment), Val::Int(level)));
            assert(as_int(first(m[l.len() as int])) == enchantment);
        },
    }
    if other != enchantment {
        assert forall|k: int| 0 <= k < l.len() implies as_int(first(#[trigger] l[k])) == other <==> as_int(first(m[k])) == other by {}
        match place_of(l, other, 0) {
            Some(i) => {
                assert(as_int(first(m[i])) == other);
                assert(m[i] == l[i]);
            },
            None => {},
        }
        match place_of(m, other, 0) {
            Some(j) => {
                assert(j < l.len());
                assert(as_int(first(l[j])) == other);
                assert(m[j] == l[j]);
            },
            None => {},
        }
    }
}

proof fn lemma_total_front(l: Seq<StackVal>, n: nat)
    requires
        0 < n <= l.len(),
    ensures
        item_total(l, n) == l[0].count + item_total(l.skip(1), (n - 1) as nat),
    decreases n,
{
    if n > 1 {
        lemma_total_front(l, (n - 1) as nat);
        assert(l.skip(1)[n - 2] == l[n - 1]);
    } else {
        assert(item_total(l, 0) == 0 && item_total(l.skip(1), 0) == 0);
    }
}

proof fn lemma_one_adds(l: Seq<StackVal>, s: StackVal)
    ensures
        item_total(insert_one(l, s), insert_one(l, s).len()) == item_total(l, l.len()) + 1,
{
    let m = insert_one(l, s);
    if l.len() > 0 && items_same(l[0], s) && l[0].count < max_stack_size(l[0]) {
        lemma_total_front(l, l.len());
        lemma_total_front(m, m.len());
        assert(m.skip(1) =~= l.skip(1));
    } else {
        lemma_total_front(m, m.len());
        assert(m.skip(1) =~= l);
    }
}

/// Putting items into a bundle loses none: what the bundle and the stack hold together stays.
pub proof fn lemma_bundle_keeps_items(l: Seq<StackVal>, s: StackVal)
    ensures
        ({
            let (m, t) = insert_all(l, s);
            item_total(m, m.len()) + t.count == item_total(l, l.len()) + s.count
        }),
    decreases s.count,
{
    if s.count > 0 && weight(l, l.len()) + item_weight(s) <= BUNDLE_SIZE {
        lemma_one_adds(l, s);
        lemma_bundle_keeps_items(insert_one(l, s), with_count(s, s.count - 1));
    }
}

proof fn lemma_weight_front(l: Seq<StackVal>, n: nat)
    requires
        0 < n <= l.len(),
    ensures
        weight(l, n) == l[0].count * item_weight(l[0]) + weight(l.skip(1), (n - 1) as nat),
    decreases n,
{
    if n > 1 {
        lemma_weight_front(l, (n - 1) as nat);
        assert(l.skip(1)[n - 2] == l[n - 1]);
    } else {
        assert(weight(l, 0) == 0 && weight(l.skip(1), 0) == 0);
    }
}

/// Whether stacks of the same kind weigh the same.
pub open spec fn weighs_alike(l: Seq<StackVal>, s: StackVal) -> bool {
    forall|i: int| 0 <= i < l.len() && items_same(#[trigger] l[i], s) ==> item_weight(l[i]) == item_weight(s)
}

proof fn lemma_one_weighs(l: Seq<StackVal>, s: StackVal)
    requires
        weighs_alike(l, s),
    ensures
        weight(insert_one(l, s), insert_one(l, s).len()) == weight(l, l.len()) + item_weight(s),
{
    let m = insert_one(l, s);
    if l.len() > 0 && items_same(l[0], s) && l[0].count < max_stack_size(l[0]) {
        lemma_weight_front(l, l.len());
        lemma_weight_front(m, m.len());
        assert(m.skip(1) =~= l.skip(1));
        assert(item_weight(m[0]) == item_weight(l[0]));
        assert((l[0].count + 1) * item_weight(l[0]) == l[0].count * item_weight(l[0]) + item_weight(l[0])) by (nonlinear_arith);
    } else {
        lemma_weight_front(m, m.len());
        assert(m.skip(1) =~= l);
        assert(m[0].count * item_weight(m[0]) == item_weight(s)) by (nonlinear_arith)
            requires
                m[0].count == 1,
                item_weight(m[0]) == item_weight(s),
        ;
    }
}

proof fn lemma_same_without_count(a: StackVal, b: StackVal, n: int, m: int)
    ensures
        items_same(with_count(a, n), with_count(b, m)) == items_same(a, b),
{
}

proof fn lemma_still_alike(l: Seq<StackVal>, s: StackVal)
    requires
        weighs_alike(l, s),
    ensures
        weighs_alike(insert_one(l, s), with_count(s, s.count - 1)),
{
    let m = insert_one(l, s);
    let t = with_count(s, s.count - 1);
    assert forall|i: int| 0 <= i < m.len() && items_same(#[trigger] m[i], t) implies item_weight(m[i]) == item_weight(t) by {
        if l.len() > 0 && items_same(l[0], s) && l[0].count < max_stack_size(l[0]) {
            lemma_same_without_count(l[i], s, m[i].count, t.count);
            assert(m[i] == with_count(l[i], m[i].count));
            assert(items_same(l[i], s));
        } else if i > 0 {
            lemma_same_without_count(l[i - 1], s, m[i].count, t.count);
            assert(m[i] == with_count(l[i - 1], m[i].count));
            assert(items_same(l[i - 1], s));
        }
    }
}

/// A bundle that is not too heavy never becomes so, whatever is put into it.
pub proof fn lemma_bundle_holds_its_weight(l: Seq<StackVal>, s: StackVal)
    requires
        weighs_alike(l, s),
        weight(l, l.len()) <= BUNDLE_SIZE,
    ensures
        ({
            let (m, t) = insert_all(l, s);
            weight(m, m.len()) <= BUNDLE_SIZE
        }),
    decreases s.count,
{
    if s.count > 0 && weight(l, l.len()) + item_weight(s) <= BUNDLE_SIZE {
        lemma_one_weighs(l, s);
        lemma_still_alike(l, s);
        lemma_bundle_holds_its_weight(insert_one(l, s), with_count(s, s.count - 1));
    }
}

/// How many items a stack holds.
pub open spec fn held_count(s: StackVal) -> int {
    if holds_nothing(s) {
        0
    } else {
        s.count
    }
}

/// How many items the first `n` slots hold.
pub open spec fn slots_total(l: Seq<StackVal>, n: nat) -> int
    decreases n,
{
    if n == 0 || n > l.len() {
        0
    } else {
        slots_total(l, (n - 1) as nat) + held_count(l[n - 1])
    }
}

proof fn lemma_total_update(l: Seq<StackVal>, i: int, s: StackVal, n: nat)
    requires
        0 <= i < l.len(),
        n <= l.len(),
    ensures
        slots_total(l.update(i, s), n) == slots_total(l, n) + if i < n {
            held_count(s) - held_count(l[i])
        } else {
            0
        },
    decreases n,
{
    if n > 0 {
        lemma_total_update(l, i, s, (n - 1) as nat);
    }
}

/// What the slots and the stack hold together.
pub open spec fn all_items(x: Inserted) -> int {
    slots_total(x.slots, x.slots.len()) + held_count(x.stack)
}

proof fn lemma_merge_keeps(x: Inserted, lo: int, hi: int, from_last: bool, k: int)
    requires
        0 <= lo <= hi <= x.slots.len(),
        0 <= k,
        x.stack.count >= 0,
    ensures
        all_items(merge(x, lo, hi, from_last, k)) == all_items(x),
        merge(x, lo, hi, from_last, k).slots.len() == x.slots.len(),
        merge(x, lo, hi, from_last, k).stack.count >= 0,
        merge(x, lo, hi, from_last, k).stack == with_count(x.stack, merge(x, lo, hi, from_last, k).stack.count),
    decreases hi - lo - k,
{
    if k < hi - lo && !holds_nothing(x.stack) {
        let i = nth_slot(lo, hi, from_last, k);
        let y = merge_at(x, i);
        let a = x.slots[i];
        lemma_total_update(x.slots, i, with_count(a, a.count + x.stack.count), x.slots.len());
        lemma_total_update(x.slots, i, with_count(a, capacity(i, a)), x.slots.len());
        assert(all_items(y) == all_items(x));
        lemma_merge_keeps(y, lo, hi, from_last, k + 1);
    }
}

proof fn lemma_fill_keeps(x: Inserted, lo: int, hi: int, from_last: bool, k: int)
    requires
        0 <= lo <= hi <= x.slots.len(),
        0 <= k,
        x.stack.count >= 0,
        max_stack_size(x.stack) >= 0,
    ensures
        all_items(fill(x, lo, hi, from_last, k)) == all_items(x),
        fill(x, lo, hi, from_last, k).slots.len() == x.slots.len(),
    decreases hi - lo - k,
{
    if k < hi - lo && !holds_nothing(x.stack) {
        let i = nth_slot(lo, hi, from_last, k);
        if holds_nothing(x.slots[i]) {
            let n = smaller(x.stack.count, capacity(i, x.stack));
            lemma_total_update(x.slots, i, with_count(x.stack, n), x.slots.len());
        } else {
            lemma_fill_keeps(x, lo, hi, from_last, k + 1);
        }
    }
}

/// Putting a stack into slots loses no item: what the slots and the stack hold together stays.
pub proof fn lemma_insert_keeps_items(slots: Seq<StackVal>, s: StackVal, lo: int, hi: int, from_last: bool)
    requires
        0 <= lo <= hi <= slots.len(),
        s.count >= 0,
        max_stack_size(s) >= 0,
    ensures
        all_items(insert(slots, s, lo, hi, from_last)) == slots_total(slots, slots.len()) + held_count(s),
        insert(slots, s, lo, hi, from_last).slots.len() == slots.len(),
{
    let x = Inserted { slots, stack: s, moved: false };
    lemma_merge_keeps(x, lo, hi, from_last, 0);
    let y = if max_stack_size(s) > 1 {
        merge(x, lo, hi, from_last, 0)
    } else {
        x
    };
    assert(max_stack_size(y.stack) == max_stack_size(s));
    lemma_fill_keeps(y, lo, hi, from_last, 0);
}

/// How many items fall to the ground by the first `n` actions.
pub open spec fn fallen_total(a: Seq<ActionView>, n: nat) -> int
    decreases n,
{
    if n == 0 || n > a.len() {
        0
    } else {
        fallen_total(a, (n - 1) as nat) + match a[n - 1] {
            ActionView::DropItem(s) => held_count(s),
            _ => 0,
        }
    }
}

proof fn lemma_nothing_falls(a: Seq<ActionView>, n: nat)
    requires
        forall|k: int| 0 <= k < a.len() ==> !(#[trigger] a[k] is DropItem),
    ensures
        fallen_total(a, n) == 0,
    decreases n,
{
    if n > 0 {
        lemma_nothing_falls(a, (n - 1) as nat);
    }
}

/// A click that moves a stack between slots neither loses nor doubles an item: the slots and what
/// falls to the ground hold together as many as the slots did before.
pub proof fn lemma_quick_move_keeps_items(slots: Seq<StackVal>, i: int, after: Seq<StackVal>, r: QuickMove, place: EquipmentSlot)
    requires
        slots.len() == SLOT_COUNT,
        0 <= i < SLOT_COUNT,
        forall|j: int| 0 <= j < slots.len() ==> (#[trigger] slots[j]).count >= 0 && max_stack_size(slots[j]) >= 0,
        is_quick_move(slots, i, after, r, place),
    ensures
        slots_total(after, after.len()) + fallen_total(action_views(r.actions@), r.actions@.len()) == slots_total(slots, slots.len()),
{
    let a = action_views(r.actions@);
    if !holds_nothing(slots[i]) && sent(slots, i).moved {
        let s = slots[i];
        let w = route(slots, i);
        let x = sent(slots, i);
        lemma_insert_keeps_items(slots, s, w.lo, w.hi, w.from_last);
        lemma_insert_elsewhere(slots, s, w.lo, w.hi, w.from_last, i);
        assert(after =~= x.slots.update(i, after[i]));
        lemma_total_update(x.slots, i, after[i], x.slots.len());
        if is_emptied(slots, i) && !holds_nothing(x.stack) {
            assert(worn_actions(slots, i, place).len() == 0);
            assert(a =~= taken_actions(slots, i));
            reveal_with_fuel(fallen_total, 4);
            assert(fallen_total(a, 3) == held_count(x.stack));
        } else {
            lemma_nothing_falls(a, a.len());
        }
    } else {
        lemma_nothing_falls(a, a.len());
    }
}

/// A click on the result of crafting that moves any of it leaves none of it in its slot.
pub proof fn lemma_result_is_taken(slots: Seq<StackVal>, after: Seq<StackVal>, r: QuickMove, place: EquipmentSlot)
    requires
        slots.len() == SLOT_COUNT,
        is_quick_move(slots, 0, after, r, place),
        r.moved is Some,
    ensures
        is_nothing(after[0]),
{
}

/// What the cursor carries and what the slots for crafting before the one with a number hold.
spec fn offered(slots: Seq<StackVal>, cursor: StackVal, end: int) -> int
    decreases end,
{
    if end <= 1 {
        held_count(cursor)
    } else {
        offered(slots, cursor, end - 1) + held_count(slots[end - 1])
    }
}

proof fn lemma_given_keeps(slots: Seq<StackVal>, n: Seq<int>, cursor: StackVal, uid: int, counter: u32, end: int)
    requires
        slots.len() == SLOT_COUNT,
        n.len() == SLOT_COUNT,
        end <= 5,
        forall|j: int| 0 <= j < slots.len() ==> (#[trigger] slots[j]).count >= 0 && max_stack_size(slots[j]) >= 0,
        cursor.count >= 0 && max_stack_size(cursor) >= 0,
    ensures
        ({
            let c = give_all_back(slots, n, cursor, uid, counter, end);
            slots_total(c.slots, c.slots.len()) + slots_total(c.fallen, c.fallen.len()) == slots_total(slots, slots.len()) + offered(
                slots,
                cursor,
                end,
            )
        }),
    decreases end,
{
    let (b, s) = if end <= 1 {
        (Closing { slots, numbers: n, fallen: Seq::empty(), fallen_numbers: Seq::empty(), counter }, cursor)
    } else {
        (give_all_back(slots, n, cursor, uid, counter, end - 1), slots[end - 1])
    };
    if end > 1 {
        lemma_given_keeps(slots, n, cursor, uid, counter, end - 1);
        lemma_given_elsewhere(slots, n, cursor, uid, counter, end - 1);
    }
    lemma_insert_keeps_items(b.slots, s, 9, 45, false);
    let left = insert(b.slots, s, 9, 45, false).stack;
    lemma_total_push(b.fallen, left, b.fallen.len());
}

proof fn lemma_total_push(l: Seq<StackVal>, s: StackVal, n: nat)
    requires
        n <= l.len(),
    ensures
        slots_total(l.push(s), n) == slots_total(l, n),
        slots_total(l.push(s), (l.len() + 1) as nat) == slots_total(l.push(s), l.len()) + held_count(s),
    decreases n,
{
    if n > 0 {
        lemma_total_push(l, s, (n - 1) as nat);
    }
}

/// Closing the screen neither loses nor doubles an item: what the slots held and the cursor carried is
/// what the slots hold and what falls to the ground.
pub proof fn lemma_close_keeps_items(
    slots: Seq<StackVal>,
    n: Seq<int>,
    cursor: StackVal,
    uid: int,
    counter: u32,
    after: Seq<StackVal>,
)
    requires
        slots.len() == SLOT_COUNT,
        n.len() == SLOT_COUNT,
        after.len() == SLOT_COUNT,
        forall|j: int| 0 <= j < slots.len() ==> (#[trigger] slots[j]).count >= 0 && max_stack_size(slots[j]) >= 0,
        cursor.count >= 0 && max_stack_size(cursor) >= 0,
        forall|j: int|
            0 <= j < SLOT_COUNT ==> if 1 <= j < 5 {
                is_nothing(#[trigger] after[j])
            } else {
                after[j] == give_all_back(slots, n, cursor, uid, counter, 5).slots[j]
            },
    ensures
        ({
            let fallen = give_all_back(slots, n, cursor, uid, counter, 5).fallen;
            slots_total(after, after.len()) + slots_total(fallen, fallen.len()) == slots_total(slots, slots.len()) + held_count(cursor)
        }),
{
    let c = give_all_back(slots, n, cursor, uid, counter, 5);
    lemma_given_keeps(slots, n, cursor, uid, counter, 5);
    lemma_given_elsewhere(slots, n, cursor, uid, counter, 5);
    let l1 = c.slots.update(1, after[1]);
    let l2 = l1.update(2, after[2]);
    let l3 = l2.update(3, after[3]);
    lemma_total_update(c.slots, 1, after[1], SLOT_COUNT as nat);
    lemma_total_update(l1, 2, after[2], SLOT_COUNT as nat);
    lemma_total_update(l2, 3, after[3], SLOT_COUNT as nat);
    lemma_total_update(l3, 4, after[4], SLOT_COUNT as nat);
    assert(after =~= l3.update(4, after[4]));
    reveal_with_fuel(offered, 6);
}

} // verus!
