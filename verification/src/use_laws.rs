//! What the components of a stack mean for its use.
use vstd::prelude::*;
use crate::basic::{CustomNameImpl, DamageImpl, MaxDamageImpl, MaxStackSizeImpl, Rarity, RarityImpl};
use crate::bundle::{insert_all, insert_one, item_weight, numbers_after, weight};
use crate::codec::{vals, DataComponentCodec};
use crate::data_component::DataComponent;
use crate::elements::AsLeveled;
use crate::equipment::{EnchantmentsImpl, UnknownEnchantment};
use crate::format::{plain_text, ComponentVal, StackVal, Val};
use crate::item_stack::{after_uid, next_uid};
use crate::nbt_tag::Tag;
use crate::patch_laws::lemma_component_replaced;
use crate::persist::{as_int, first, second};
use crate::registry::{find_item, find_item_from, find_key, find_key_from, find_name, find_name_from, Registries};
use crate::same::items_same;
use crate::stack::value_in;
use crate::stack_data::{enchanted, hover_name, lore_of, place_of, rarity_of, with_value};
use crate::stack_laws::lemma_place_of;
use crate::stack_use::{damage_of, enchantments_of, has_tag, level_of, max_damage_of, max_stack_size, points, takes_damage, unbreaking_of, wears, with_count};
use crate::tool_laws::unmarked;
use crate::wire_laws::rarity_number;

verus! {

/// A stack holds as many items as its component says, or one; it has the damage that its component says, or
/// none, and breaks at what its component says, or never.
pub proof fn lemma_sizes_and_damage(s: StackVal, a: MaxStackSizeImpl, b: DamageImpl, c: MaxDamageImpl)
    ensures
        value_in(s, DataComponent::MaxStackSize) == Some(MaxStackSizeImpl::val(a)) ==> max_stack_size(s) == a.size,
        value_in(s, DataComponent::MaxStackSize) is None ==> max_stack_size(s) == 1,
        value_in(s, DataComponent::Damage) == Some(DamageImpl::val(b)) ==> damage_of(s) == b.damage,
        value_in(s, DataComponent::Damage) is None ==> damage_of(s) == 0,
        value_in(s, DataComponent::MaxDamage) == Some(MaxDamageImpl::val(c)) ==> max_damage_of(s) == c.max_damage,
        value_in(s, DataComponent::MaxDamage) is None ==> max_damage_of(s) == 0,
        value_in(s, DataComponent::MaxDamage) == Some(MaxDamageImpl::val(c)) && c.max_damage > 0 ==> takes_damage(s) == (value_in(
            s,
            DataComponent::Unbreakable,
        ) is None),
        value_in(s, DataComponent::MaxDamage) is None ==> !takes_damage(s),
{
}

/// The name of a stack is the one that it was given, else that of its item, else the key of the item.
pub proof fn lemma_hover_name(s: StackVal, v: CustomNameImpl, t: Tag)
    ensures
        value_in(s, DataComponent::CustomName) == Some(CustomNameImpl::val(v)) ==> hover_name(s) == plain_text(v.name@),
        value_in(s, DataComponent::CustomName) is None && value_in(s, DataComponent::ItemName) == Some(Val::Nbt(t)) ==> hover_name(s) == plain_text(
            t,
        ),
        value_in(s, DataComponent::CustomName) is None && value_in(s, DataComponent::ItemName) is None ==> hover_name(s)
            == s.item.registry_key@,
{
}

/// The rarity of a stack without enchantments is that of its component, or common; with enchantments it is
/// at least rare, and one above rare.
pub proof fn lemma_rarity(s: StackVal, v: RarityImpl)
    requires
        value_in(s, DataComponent::Rarity) == Some(RarityImpl::val(v)) || (value_in(s, DataComponent::Rarity) is None && v.rarity == Rarity::Common),
    ensures
        enchantments_of(s).len() == 0 ==> rarity_of(s) == rarity_number(v.rarity),
        enchantments_of(s).len() > 0 ==> rarity_of(s) == rarity_number(
            match v.rarity {
                Rarity::Common => Rarity::Rare,
                Rarity::Uncommon => Rarity::Rare,
                Rarity::Rare => Rarity::Epic,
                Rarity::Epic => Rarity::Epic,
            },
        ),
{
}

/// The level of an enchantment is that of the first entry for it, and zero where there is none.
pub proof fn lemma_level(s: StackVal, e: EnchantmentsImpl, enchantment: u8, i: int)
    requires
        value_in(s, DataComponent::Enchantments) == Some(EnchantmentsImpl::val(e)),
    ensures
        enchantments_of(s).len() == e.enchantment@.len(),
        0 <= i < e.enchantment@.len() && e.enchantment@[i].0 == enchantment && (forall|k: int| 0 <= k < i ==> (#[trigger] e.enchantment@[k]).0
            != enchantment) ==> level_of(s, enchantment as int) == e.enchantment@[i].1,
        (forall|k: int| 0 <= k < e.enchantment@.len() ==> (#[trigger] e.enchantment@[k]).0 != enchantment) ==> level_of(s, enchantment as int) == 0,
{
    let l = enchantments_of(s);
    assert(l == vals::<AsLeveled<UnknownEnchantment>>(e.enchantment@));
    assert forall|k: int| 0 <= k < l.len() implies as_int(first(#[trigger] l[k])) == e.enchantment@[k].0 && as_int(second(l[k]))
        == e.enchantment@[k].1 by {
        assert(l[k] == <AsLeveled<UnknownEnchantment> as DataComponentCodec>::val(e.enchantment@[k]));
    }
    lemma_place_of(l, enchantment as int, 0);
    match place_of(l, enchantment as int, 0) {
        Some(j) => {
            assert(as_int(first(l[j])) == e.enchantment@[j].0);
            if 0 <= i < l.len() {
                assert(as_int(first(l[i])) == e.enchantment@[i].0);
                if j < i {
                    assert(e.enchantment@[j].0 == enchantment);
                }
                assert forall|k: int| 0 <= k < j implies (#[trigger] e.enchantment@[k]).0 != enchantment by {
                    assert(as_int(first(l[k])) != enchantment as int);
                }
            }
        },
        None => {
            if 0 <= i < l.len() {
                assert(as_int(first(l[i])) == e.enchantment@[i].0);
            }
        },
    }
}

/// Enchanting keeps every entry in its place but the one whose level rises, and adds at most one at the end.
pub proof fn lemma_enchanting_keeps_places(l: Seq<Val>, enchantment: int, level: int, i: int)
    requires
        0 <= i < l.len(),
    ensures
        l.len() <= enchanted(l, enchantment, level).len() <= l.len() + 1,
        as_int(first(l[i])) != enchantment ==> enchanted(l, enchantment, level)[i] == l[i],
        as_int(first(l[i])) == enchantment ==> enchanted(l, enchantment, level).len() == l.len(),
{
    lemma_place_of(l, enchantment, 0);
    match place_of(l, enchantment, 0) {
        Some(_) => {},
        None => {},
    }
}

/// Without Unbreaking every point of damage counts. With it, a tool takes the point only for the rolls that
/// its level plus one divides.
pub proof fn lemma_tool_chance(level: int, q: int, r: int)
    requires
        level > 0,
        0 <= q,
        0 <= r <= level,
        q * (level + 1) + r <= u32::MAX,
    ensures
        wears(false, level, (q * (level + 1) + r) as u32) <==> r == 0,
{
    let roll = q * (level + 1) + r;
    assert(q * (level + 1) >= 0) by (nonlinear_arith)
        requires
            q >= 0,
            level > 0,
    ;
    vstd::arithmetic::div_mod::lemma_fundamental_div_mod_converse(roll, level + 1, q, r);
}

/// Without Unbreaking every point of damage counts.
pub proof fn lemma_no_unbreaking(is_armor: bool, level: int, rolls: Seq<u32>)
    requires
        level <= 0,
    ensures
        points(is_armor, level, rolls) == rolls.len(),
    decreases rolls.len(),
{
    if rolls.len() > 0 {
        lemma_no_unbreaking(is_armor, level, rolls.drop_last());
    }
}

/// The points of damage for rolls one behind the other add up.
pub proof fn lemma_points_add(is_armor: bool, level: int, a: Seq<u32>, b: Seq<u32>)
    ensures
        points(is_armor, level, a + b) == points(is_armor, level, a) + points(is_armor, level, b),
    decreases b.len(),
{
    if b.len() > 0 {
        lemma_points_add(is_armor, level, a, b.drop_last());
        assert((a + b).drop_last() =~= a + b.drop_last());
    } else {
        assert(a + b =~= a);
    }
}

/// An item has a tag if it is listed, whether it is asked for with the mark of a tag or without.
pub proof fn lemma_tags(tags: Seq<String>, t: Seq<char>)
    ensures
        has_tag(tags, t) <==> exists|i: int| 0 <= i < tags.len() && (#[trigger] tags[i])@ == unmarked(t),
{
    reveal_strlit("#");
    let mark = "#"@;
    assert(mark =~= seq!['#']);
    if t.len() > 0 && t[0] == '#' {
        assert(t.subrange(0, 1) =~= mark);
    } else if t.len() > 0 {
        assert(t.subrange(0, 1)[0] == t[0]);
    }
}

proof fn lemma_name_from(names: Seq<String>, t: Seq<char>, i: int)
    requires
        0 <= i,
    ensures
        match find_name_from(names, t, i) {
            Some(j) => i <= j < names.len() && names[j]@ == t && forall|k: int| i <= k < j ==> (#[trigger] names[k])@ != t,
            None => forall|k: int| i <= k < names.len() ==> (#[trigger] names[k])@ != t,
        },
    decreases names.len() - i,
{
    if i < names.len() && names[i]@ != t {
        lemma_name_from(names, t, i + 1);
    }
}

/// A name stands for the place of the first entry that has it.
pub proof fn lemma_name_is_found(names: Seq<String>, t: Seq<char>, j: int)
    ensures
        find_name(names, t) == Some(j) <==> 0 <= j < names.len() && names[j]@ == t && forall|k: int| 0 <= k < j ==> (#[trigger] names[k])@ != t,
        find_name(names, t) is None <==> forall|k: int| 0 <= k < names.len() ==> (#[trigger] names[k])@ != t,
{
    lemma_name_from(names, t, 0);
}

proof fn lemma_item_from(regs: Registries, id: int, i: int)
    requires
        0 <= i,
    ensures
        match find_item_from(regs.items@, id, i) {
            Some(j) => i <= j < regs.items@.len() && regs.items@[j].id == id && forall|k: int| i <= k < j ==> (#[trigger] regs.items@[k]).id != id,
            None => forall|k: int| i <= k < regs.items@.len() ==> (#[trigger] regs.items@[k]).id != id,
        },
    decreases regs.items@.len() - i,
{
    if i < regs.items@.len() && regs.items@[i].id != id {
        lemma_item_from(regs, id, i + 1);
    }
}

/// The item with a number has that number, and there is none only where no item has it.
pub proof fn lemma_item_is_found(regs: Registries, id: int)
    ensures
        find_item(regs, id) matches Some(item) ==> item.id == id,
        find_item(regs, id) is None <==> forall|k: int| 0 <= k < regs.items@.len() ==> (#[trigger] regs.items@[k]).id != id,
{
    lemma_item_from(regs, id, 0);
}

proof fn lemma_key_from(regs: Registries, key: Seq<char>, i: int)
    requires
        0 <= i,
    ensures
        match find_key_from(regs.items@, key, i) {
            Some(j) => i <= j < regs.items@.len() && regs.items@[j].registry_key@ == key,
            None => forall|k: int| i <= k < regs.items@.len() ==> (#[trigger] regs.items@[k]).registry_key@ != key,
        },
    decreases regs.items@.len() - i,
{
    if i < regs.items@.len() && regs.items@[i].registry_key@ != key {
        lemma_key_from(regs, key, i + 1);
    }
}

/// The item with a key has that key, and there is none only where no item has it.
pub proof fn lemma_key_is_found(regs: Registries, key: Seq<char>)
    ensures
        find_key(regs, key) matches Some(item) ==> item.registry_key@ == key,
        find_key(regs, key) is None <==> forall|k: int| 0 <= k < regs.items@.len() ==> (#[trigger] regs.items@[k]).registry_key@ != key,
{
    lemma_key_from(regs, key, 0);
}

/// The level of Unbreaking is that of the enchantment which the registry has under its name.
pub proof fn lemma_unbreaking(s: StackVal, regs: Registries, i: int)
    requires
        0 <= i < regs.enchantments@.len(),
        regs.enchantments@[i]@ == "minecraft:unbreaking"@,
        forall|k: int| 0 <= k < i ==> (#[trigger] regs.enchantments@[k])@ != "minecraft:unbreaking"@,
    ensures
        i < 256 ==> unbreaking_of(s, regs) == level_of(s, i),
{
    lemma_name_from(regs.enchantments@, "minecraft:unbreaking"@, 0);
}

/// A full stack fills a bundle: what fits 64 times weighs one, what fits 16 times four, and what does not
/// stack 64.
pub proof fn lemma_item_weights(s: StackVal)
    ensures
        max_stack_size(s) == 64 ==> item_weight(s) == 1,
        max_stack_size(s) == 16 ==> item_weight(s) == 4,
        max_stack_size(s) == 1 ==> item_weight(s) == 64,
        max_stack_size(s) > 64 ==> item_weight(s) == 1,
        0 < max_stack_size(s) <= 64 ==> item_weight(s) * max_stack_size(s) <= 64 < (item_weight(s) + 1) * max_stack_size(s),
{
    let m = max_stack_size(s);
    if 0 < m <= 64 {
        assert((64int / m) * m <= 64 < (64int / m + 1) * m) by (nonlinear_arith)
            requires
                0 < m,
        ;
    }
    if m == 64 {
        assert(64int / m == 1) by (nonlinear_arith)
            requires
                m == 64,
        ;
    } else if m == 16 {
        assert(64int / m == 4) by (nonlinear_arith)
            requires
                m == 16,
        ;
    } else if m == 1 {
        assert(64int / m == 64) by (nonlinear_arith)
            requires
                m == 1,
        ;
    }
}

/// One item that comes into a bundle goes on top of its first stack where that is of the same kind and not
/// full, and otherwise before it; the other stacks stay.
pub proof fn lemma_one_comes_first(l: Seq<StackVal>, s: StackVal)
    ensures
        ({
            let m = insert_one(l, s);
            if l.len() > 0 && items_same(l[0], s) && l[0].count < max_stack_size(l[0]) {
                &&& m.len() == l.len()
                &&& m[0] == (StackVal { count: l[0].count + 1, ..l[0] })
                &&& forall|i: int| 1 <= i < l.len() ==> #[trigger] m[i] == l[i]
            } else {
                &&& m.len() == l.len() + 1
                &&& m[0] == (StackVal { count: 1, ..s })
                &&& forall|i: int| 0 <= i < l.len() ==> #[trigger] l[i] == m[i + 1]
            }
        }),
{
}

/// A bundle takes items until nothing is left of the stack or one more would weigh too much.
pub proof fn lemma_bundle_takes_what_fits(l: Seq<StackVal>, s: StackVal)
    requires
        s.count >= 0,
    ensures
        ({
            let (m, left) = insert_all(l, s);
            &&& left == (StackVal { count: left.count, ..s })
            &&& 0 <= left.count <= s.count
            &&& (left.count > 0 ==> weight(m, m.len()) + item_weight(s) > 64)
            &&& (weight(l, l.len()) + item_weight(s) > 64 ==> m == l && left == s)
        }),
    decreases s.count,
{
    if s.count > 0 && weight(l, l.len()) + item_weight(s) <= 64 {
        lemma_bundle_takes_what_fits(insert_one(l, s), with_count(s, s.count - 1));
    }
}

/// A line that is added to a description comes last, and those before it stay.
pub proof fn lemma_lore_grows(s: StackVal, line: Tag, i: int)
    ensures
        ({
            let t = with_value(s, DataComponent::Lore, Val::List(lore_of(s).push(Val::Nbt(line))));
            &&& lore_of(t).len() == lore_of(s).len() + 1
            &&& lore_of(t).last() == Val::Nbt(line)
            &&& (0 <= i < lore_of(s).len() ==> lore_of(t)[i] == lore_of(s)[i])
        }),
        value_in(s, DataComponent::Lore) is None ==> lore_of(s).len() == 0,
{
    lemma_component_replaced(
        s,
        DataComponent::Lore,
        Some(ComponentVal { kind: DataComponent::Lore, val: Val::List(lore_of(s).push(Val::Nbt(line))) }),
        DataComponent::Lore,
    );
}

/// Of the items that come into a bundle, each that is a stack of its own has a number of its own, drawn in
/// turn; the stacks that were there keep theirs, behind the new ones.
pub proof fn lemma_bundle_numbers(l: Seq<StackVal>, s: StackVal, n: Seq<int>, counter: u32)
    requires
        s.count >= 0,
        n.len() == l.len(),
    ensures
        ({
            let (m, left) = insert_all(l, s);
            let (k, after) = numbers_after(l, s, n, counter);
            &&& k.len() == m.len()
            &&& k.len() >= n.len()
            &&& k.skip(k.len() - n.len()) == n
        }),
    decreases s.count,
{
    if s.count > 0 && weight(l, l.len()) + item_weight(s) <= 64 {
        let rest = with_count(s, s.count - 1);
        if crate::bundle::goes_on_top(l, s) {
            lemma_bundle_numbers(insert_one(l, s), rest, n, counter);
        } else {
            let o = n.insert(0, next_uid(counter));
            lemma_bundle_numbers(insert_one(l, s), rest, o, after_uid(counter));
            let (k, _) = numbers_after(l, s, n, counter);
            assert(k.skip(k.len() - n.len()) =~= k.skip(k.len() - o.len()).skip(1));
            assert(o.skip(1) =~= n);
        }
    } else {
        assert(n.skip(0) =~= n);
    }
}

} // verus!
