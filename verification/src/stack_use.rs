//! What a stack is used for: wear, enchantments, names, custom data and tools.
use std::sync::Arc;
use vstd::prelude::*;
use crate::basic::{DamageImpl, MaxDamageImpl, MaxStackSizeImpl, UnbreakableImpl};
use crate::codec::{vals, DataComponentCodec};
use crate::coded::CodedComponent;
use crate::components::DataComponentImpl;
use crate::consumable::ConsumableImpl;
use crate::data_component::DataComponent;
use crate::elements::{id_set_val, id_vals, AsLeveled, IDSet};
use crate::equipment::{BlocksAttacksImpl, EnchantmentsImpl, UnknownEnchantment, UseCooldownImpl};
use crate::float::{f32_times, f32_to_i32, float_times, float_to_int, round_even};
use crate::format::{pair, ComponentVal, StackVal, Val};
use crate::identifier::strip_prefix;
use crate::item_stack::{Item, ItemStack};
use crate::nbt_tag::Tag;
use crate::persist::{as_bits, as_int, as_list, as_text, first, second};
use crate::registry::{find_name, position_of, share, Registries};
use crate::stack::{drop_entries, holds_nothing, is_air, is_nothing, replaced, value_in, with_patch};
use crate::text::same_text;

verus! {

/// A game mode.
#[derive(Clone, Copy, Debug, PartialEq, Eq, Structural)]
pub enum GameMode {
    Survival,
    Creative,
    Adventure,
    Spectator,
}

/// The outcome of [`ItemStack::damage_item`].
#[derive(Clone, Copy, Debug, PartialEq, Eq, Structural)]
pub enum DamageResult {
    /// No damage was applied.
    Untouched,
    /// Damage was applied and the item is still whole.
    Damaged,
    /// The item broke: one item was taken from the stack and the rest is undamaged, or nothing is
    /// left of it.
    Broken,
}

/// The number that a stack has for a component.
pub open spec fn int_in(s: StackVal, k: DataComponent) -> Option<int> {
    match value_in(s, k) {
        Some(v) => Some(as_int(v)),
        None => None,
    }
}

/// The number that a stack has for a component, or another one.
pub open spec fn int_or(s: StackVal, k: DataComponent, other: int) -> int {
    match int_in(s, k) {
        Some(v) => v,
        None => other,
    }
}

/// How many items a full stack holds.
pub open spec fn max_stack_size(s: StackVal) -> int {
    int_or(s, DataComponent::MaxStackSize, 1)
}

/// The damage that a stack has.
pub open spec fn damage_of(s: StackVal) -> int {
    int_or(s, DataComponent::Damage, 0)
}

/// The damage at which an item breaks; zero where it takes none.
pub open spec fn max_damage_of(s: StackVal) -> int {
    int_or(s, DataComponent::MaxDamage, 0)
}

/// A stack with a number for a component.
pub open spec fn with_int(s: StackVal, k: DataComponent, v: int) -> StackVal {
    with_patch(s, replaced(s.patch, k, Some(ComponentVal { kind: k, val: Val::Int(v) })))
}

/// A stack with a number for a component, or without one where it is not above zero.
pub open spec fn with_positive(s: StackVal, k: DataComponent, v: int) -> StackVal {
    if v <= 0 {
        with_patch(s, drop_entries(s.patch, k, 0))
    } else {
        with_int(s, k, v)
    }
}

/// A stack with another count.
pub open spec fn with_count(s: StackVal, count: int) -> StackVal {
    StackVal { count, ..s }
}

/// A sum that does not go above the largest number.
pub open spec fn capped(v: int) -> int {
    if v > i32::MAX {
        i32::MAX as int
    } else {
        v
    }
}

/// Whether `t` and `r` are what becomes of the stack `s` when some points of damage are applied.
pub open spec fn is_worn(s: StackVal, applied: int, t: StackVal, r: DamageResult) -> bool {
    if applied <= 0 {
        r == DamageResult::Untouched && t == s
    } else if capped(damage_of(s) + applied) < max_damage_of(s) {
        r == DamageResult::Damaged && t == with_positive(s, DataComponent::Damage, capped(damage_of(s) + applied))
    } else {
        r == DamageResult::Broken && if s.count > 1 {
            t == with_positive(with_count(s, s.count - 1), DataComponent::Damage, 0)
        } else {
            is_nothing(t)
        }
    }
}

/// How many of 2^24 equally likely rolls are below the chance that armour takes a point of damage,
/// which is `0.6 + 0.4 / (level + 1)` in single precision.
pub open spec fn armor_rolls(level: int) -> int {
    10066330 + round_even(13421773, (2 * (level + 1)) as nat) as int
}

/// Whether a point of damage is applied to an item with some level of Unbreaking.
pub open spec fn wears(is_armor: bool, level: int, roll: u32) -> bool {
    level <= 0 || if is_armor {
        ((roll / 256) as int) < armor_rolls(level)
    } else {
        roll as int % (level + 1) == 0
    }
}

/// How many points of damage are applied for some rolls.
pub open spec fn points(is_armor: bool, level: int, rolls: Seq<u32>) -> int
    decreases rolls.len(),
{
    if rolls.len() == 0 {
        0
    } else {
        points(is_armor, level, rolls.drop_last()) + if wears(is_armor, level, rolls.last()) {
            1int
        } else {
            0int
        }
    }
}

/// The name of a tag without the mark of a tag.
pub open spec fn bare_tag(t: Seq<char>) -> Seq<char> {
    if "#"@.is_prefix_of(t) {
        t.skip("#"@.len() as int)
    } else {
        t
    }
}

/// Whether one of the tags is `t`, with or without the mark of a tag.
pub open spec fn has_tag(tags: Seq<String>, t: Seq<char>) -> bool {
    exists|i: int| 0 <= i < tags.len() && (#[trigger] tags[i])@ == bare_tag(t)
}

/// Whether a set holds an entry of a registry, which has a number and tags.
pub open spec fn set_holds(v: Val, id: int, tags: Seq<String>) -> bool {
    if as_int(first(v)) == 0 {
        has_tag(tags, as_text(second(v)))
    } else {
        as_list(second(v)).contains(Val::Int(id))
    }
}

/// The level of an enchantment in a list, from the `i`th on.
pub open spec fn level_in(l: Seq<Val>, enchantment: int, i: int) -> int
    decreases l.len() - i,
{
    if i < 0 || i >= l.len() {
        0
    } else if as_int(first(l[i])) == enchantment {
        as_int(second(l[i]))
    } else {
        level_in(l, enchantment, i + 1)
    }
}

/// The enchantments of a stack.
pub open spec fn enchantments_of(s: StackVal) -> Seq<Val> {
    match value_in(s, DataComponent::Enchantments) {
        Some(v) => as_list(v),
        None => Seq::empty(),
    }
}

/// The level of an enchantment on a stack.
pub open spec fn level_of(s: StackVal, enchantment: int) -> int {
    level_in(enchantments_of(s), enchantment, 0)
}

/// The level of Unbreaking on a stack; the numbers of enchantments fit in a byte.
pub open spec fn unbreaking_of(s: StackVal, regs: Registries) -> int {
    match find_name(regs.enchantments@, "minecraft:unbreaking"@) {
        Some(i) => if i < 256 {
            level_of(s, i)
        } else {
            0
        },
        None => 0,
    }
}

/// Whether a stack takes damage.
pub open spec fn takes_damage(s: StackVal) -> bool {
    max_damage_of(s) > 0 && value_in(s, DataComponent::Unbreakable) is None
}

/// Calls `rand::random`, of whose result nothing is promised.
#[verifier::external_body]
fn random_u32() -> u32 {
    rand::random::<u32>()
}

/// Whether one of the tags is `t`, with or without the mark of a tag.
pub fn is_tagged_with(tags: &Vec<String>, t: &str) -> (r: bool)
    ensures
        r == has_tag(tags@, t@),
{
    let bare: String = match strip_prefix(t, "#") {
        Some(rest) => rest,
        None => t.to_owned(),
    };
    let mut i: usize = 0;
    while i < tags.len()
        invariant
            i <= tags.len(),
            bare@ == bare_tag(t@),
            forall|k: int| 0 <= k < i ==> (#[trigger] tags@[k])@ != bare@,
        decreases tags.len() - i,
    {
        if same_text(tags[i].as_str(), bare.as_str()) {
            return true;
        }
        i += 1;
    }
    false
}

/// Whether a set holds an entry of a registry.
pub fn holds(set: &IDSet, id: u16, tags: &Vec<String>) -> (r: bool)
    ensures
        r == set_holds(id_set_val(*set), id as int, tags@),
{
    match set {
        IDSet::Tag(t) => is_tagged_with(tags, t.as_str()),
        IDSet::IDs(l) => {
            let ghost all = id_vals(l@);
            let mut i: usize = 0;
            while i < l.len()
                invariant
                    i <= l.len(),
                    *set == IDSet::IDs(*l),
                    all == id_vals(l@),
                    forall|k: int| 0 <= k < i ==> #[trigger] all[k] != Val::Int(id as int),
                decreases l.len() - i,
            {
                assert(all[i as int] == Val::Int(l@[i as int] as int));
                if l[i] == id {
                    return true;
                }
                i += 1;
            }
            false
        },
    }
}

/// Whether a point of damage is applied to an item with some level of Unbreaking.
pub fn should_apply_durability_damage_with(is_armor: bool, unbreaking_level: i32, roll: u32) -> (r: bool)
    ensures
        r == wears(is_armor, unbreaking_level as int, roll),
{
    if unbreaking_level <= 0 {
        return true;
    }
    if is_armor {
        let d: u64 = 2 * (unbreaking_level as u64 + 1);
        let q: u64 = 13421773 / d;
        let twice: u64 = 2 * (13421773 % d);
        let up: u64 = if twice > d || (twice == d && q % 2 == 1) {
            1
        } else {
            0
        };
        assert(q + up == round_even(13421773, d as nat));
        ((roll / 256) as u64) < 10066330 + q + up
    } else {
        roll % (unbreaking_level as u32 + 1) == 0
    }
}

impl ConsumableImpl {
    /// How many ticks it takes to consume the item.
    pub fn consume_ticks(&self) -> (r: i32)
        ensures
            r == float_to_int(4, float_times(4, self.consume_seconds as int, 20), i32::MIN as int, i32::MAX as int),
    {
        f32_to_i32(f32_times(self.consume_seconds, 20))
    }
}

impl ItemStack {
    /// Whether the stack has any enchantment.
    pub fn has_enchantments(&self) -> (r: bool)
        ensures
            r == (enchantments_of(self@).len() > 0),
    {
        match self.get_data_component::<EnchantmentsImpl>() {
            Some(e) => {
                proof {
                    EnchantmentsImpl::lemma_value(*e);
                }
                e.enchantment.len() > 0
            },
            None => false,
        }
    }

    /// How many items a full stack holds.
    pub fn get_max_stack_size(&self) -> (r: u8)
        ensures
            r == max_stack_size(self@),
    {
        match self.get_data_component::<MaxStackSizeImpl>() {
            Some(v) => {
                proof {
                    MaxStackSizeImpl::lemma_value(*v);
                }
                v.size
            },
            None => 1,
        }
    }

    /// The damage at which the item breaks.
    pub fn get_max_damage(&self) -> (r: Option<i32>)
        ensures
            match r {
                Some(v) => int_in(self@, DataComponent::MaxDamage) == Some(v as int),
                None => int_in(self@, DataComponent::MaxDamage) is None,
            },
    {
        match self.get_data_component::<MaxDamageImpl>() {
            Some(v) => {
                proof {
                    MaxDamageImpl::lemma_value(*v);
                }
                Some(v.max_damage)
            },
            None => None,
        }
    }

    /// How long the item cannot be used again.
    pub fn get_use_cooldown(&self) -> (r: Option<&UseCooldownImpl>)
        ensures
            match r {
                Some(v) => value_in(self@, DataComponent::UseCooldown) == Some(UseCooldownImpl::val(*v)),
                None => value_in(self@, DataComponent::UseCooldown) is None,
            },
    {
        let r = self.get_data_component::<UseCooldownImpl>();
        proof {
            match r {
                Some(v) => {
                    UseCooldownImpl::lemma_value(*v);
                },
                None => {},
            }
        }
        r
    }

    /// The damage that the item has.
    pub fn get_damage(&self) -> (r: i32)
        ensures
            r == damage_of(self@),
    {
        match self.get_data_component::<DamageImpl>() {
            Some(v) => {
                proof {
                    DamageImpl::lemma_value(*v);
                }
                v.damage
            },
            None => 0,
        }
    }

    /// The level of an enchantment.
    pub fn get_enchantment_level(&self, enchantment: u8) -> (r: i32)
        ensures
            r == level_of(self@, enchantment as int),
    {
        let data = match self.get_data_component::<EnchantmentsImpl>() {
            Some(e) => e,
            None => {
                return 0;
            },
        };
        proof {
            EnchantmentsImpl::lemma_value(*data);
        }
        let ghost l = vals::<AsLeveled<UnknownEnchantment>>(data.enchantment@);
        let mut i: usize = 0;
        while i < data.enchantment.len()
            invariant
                i <= data.enchantment.len(),
                l == vals::<AsLeveled<UnknownEnchantment>>(data.enchantment@),
                level_in(l, enchantment as int, 0) == level_in(l, enchantment as int, i as int),
                l == enchantments_of(self@),
            decreases data.enchantment.len() - i,
        {
            assert(l[i as int] == pair(Val::Int(data.enchantment@[i as int].0 as int), Val::Int(data.enchantment@[i as int].1 as int)));
            if data.enchantment[i].0 == enchantment {
                return data.enchantment[i].1;
            }
            i += 1;
        }
        0
    }

    /// Whether the item takes no damage at all.
    pub fn is_unbreakable(&self) -> (r: bool)
        ensures
            r == (value_in(self@, DataComponent::Unbreakable) is Some),
    {
        self.get_data_component::<UnbreakableImpl>().is_some()
    }

    /// Sets the damage; none is recorded where it is not above zero.
    pub fn set_damage(&mut self, damage: i32)
        ensures
            final(self)@ == with_positive(old(self)@, DataComponent::Damage, damage as int),
            final(self).uid == old(self).uid,
    {
        if damage <= 0 {
            self.drop_patch_entries(DataComponent::Damage);
            return;
        }
        let component = DamageImpl { damage };
        proof {
            DamageImpl::lemma_value(component);
        }
        self.set_data_component(component);
    }

    /// Whether the item can take damage.
    pub fn is_damageable(&self) -> (r: bool)
        ensures
            r == (max_damage_of(self@) > 0),
    {
        match self.get_max_damage() {
            Some(v) => v > 0,
            None => false,
        }
    }

    /// Takes damage away, and says how much.
    pub fn repair_item(&mut self, amount: i32) -> (r: i32)
        ensures
            if amount <= 0 || damage_of(old(self)@) <= 0 {
                r == 0 && final(self)@ == old(self)@
            } else {
                r == (if amount < damage_of(old(self)@) {
                    amount as int
                } else {
                    damage_of(old(self)@)
                }) && final(self)@ == with_positive(old(self)@, DataComponent::Damage, damage_of(old(self)@) - r)
            },
            final(self).uid == old(self).uid,
    {
        if amount <= 0 {
            return 0;
        }
        let damage: i32 = self.get_damage();
        if damage <= 0 {
            return 0;
        }
        let repaired: i32 = if amount < damage {
            amount
        } else {
            damage
        };
        self.set_damage(damage - repaired);
        repaired
    }

    /// Whether the item is armour.
    pub fn is_armor(&self) -> (r: bool)
        ensures
            r == has_tag(self.item.tags@, "minecraft:enchantable/armor"@),
    {
        is_tagged_with(&self.item.tags, "minecraft:enchantable/armor")
    }

    /// Whether the item is a sword.
    pub fn is_sword(&self) -> (r: bool)
        ensures
            r == has_tag(self.item.tags@, "minecraft:swords"@),
    {
        is_tagged_with(&self.item.tags, "minecraft:swords")
    }

    /// Whether the item is an axe.
    pub fn is_axe(&self) -> (r: bool)
        ensures
            r == has_tag(self.item.tags@, "minecraft:axes"@),
    {
        is_tagged_with(&self.item.tags, "minecraft:axes")
    }

    /// Whether the item is a pickaxe.
    pub fn is_pickaxe(&self) -> (r: bool)
        ensures
            r == has_tag(self.item.tags@, "minecraft:pickaxes"@),
    {
        is_tagged_with(&self.item.tags, "minecraft:pickaxes")
    }

    /// Whether the item is a shovel.
    pub fn is_shovel(&self) -> (r: bool)
        ensures
            r == has_tag(self.item.tags@, "minecraft:shovels"@),
    {
        is_tagged_with(&self.item.tags, "minecraft:shovels")
    }

    /// Whether the item is a hoe.
    pub fn is_hoe(&self) -> (r: bool)
        ensures
            r == has_tag(self.item.tags@, "minecraft:hoes"@),
    {
        is_tagged_with(&self.item.tags, "minecraft:hoes")
    }

    /// Applies some points of damage to an item that takes damage.
    pub fn apply_damage(&mut self, applied: i32) -> (r: DamageResult)
        ensures
            is_worn(old(self)@, applied as int, final(self)@, r),
            final(self).uid == (if is_nothing(final(self)@) && r == DamageResult::Broken && old(self)@.count <= 1 {
                i32::MIN
            } else {
                old(self).uid
            }),
    {
        if applied <= 0 {
            return DamageResult::Untouched;
        }
        let max_damage: i32 = match self.get_max_damage() {
            Some(v) => v,
            None => 0,
        };
        let sum: i64 = self.get_damage() as i64 + applied as i64;
        let new_damage: i32 = if sum > 0x7fff_ffff {
            0x7fff_ffff
        } else {
            sum as i32
        };
        if new_damage >= max_damage {
            if self.item_count > 1 {
                self.item_count = self.item_count - 1;
                assert(self@ == with_count(old(self)@, old(self)@.count - 1));
                self.set_damage(0);
            } else {
                *self = ItemStack::empty();
            }
            return DamageResult::Broken;
        }
        self.set_damage(new_damage);
        DamageResult::Damaged
    }

    /// Damages the item; each point is applied or not by the roll of a die.
    pub fn damage_item(&mut self, amount: i32, regs: &Registries) -> (r: DamageResult)
        ensures
            amount <= 0 || !takes_damage(old(self)@) ==> r == DamageResult::Untouched && final(self)@ == old(self)@,
            final(self).uid == (if is_nothing(final(self)@) && r == DamageResult::Broken && old(self)@.count <= 1 {
                i32::MIN
            } else {
                old(self).uid
            }),
            amount > 0 && takes_damage(old(self)@) ==> exists|rolls: Seq<u32>|
                rolls.len() == amount && is_worn(
                    old(self)@,
                    #[trigger] points(
                        has_tag(old(self).item.tags@, "minecraft:enchantable/armor"@),
                        unbreaking_of(old(self)@, *regs),
                        rolls,
                    ),
                    final(self)@,
                    r,
                ),
    {
        if amount <= 0 || !self.is_damageable() || self.is_unbreakable() {
            return DamageResult::Untouched;
        }
        let is_armor: bool = self.is_armor();
        let unbreaking_level: i32 = match position_of(&regs.enchantments, "minecraft:unbreaking") {
            Some(i) => if i < 256 {
                self.get_enchantment_level(i as u8)
            } else {
                0
            },
            None => 0,
        };
        let ghost mut rolls: Seq<u32> = Seq::empty();
        let mut applied: i32 = 0;
        let mut i: i32 = 0;
        while i < amount
            invariant
                0 <= applied <= i <= amount,
                *self == *old(self),
                is_armor == has_tag(old(self).item.tags@, "minecraft:enchantable/armor"@),
                unbreaking_level == unbreaking_of(old(self)@, *regs),
                rolls.len() == i,
                applied == points(is_armor, unbreaking_level as int, rolls),
            decreases amount - i,
        {
            let roll: u32 = random_u32();
            let ghost before = rolls;
            proof {
                rolls = rolls.push(roll);
                assert(rolls.drop_last() =~= before);
            }
            if should_apply_durability_damage_with(is_armor, unbreaking_level, roll) {
                applied += 1;
            }
            i += 1;
        }
        self.apply_damage(applied)
    }

    /// How many ticks the item can be used without a break.
    pub fn get_max_use_time(&self) -> (r: i32)
        ensures
            r == match value_in(self@, DataComponent::Consumable) {
                Some(v) => float_to_int(4, float_times(4, as_bits(first(v)), 20), i32::MIN as int, i32::MAX as int),
                None => if value_in(self@, DataComponent::BlocksAttacks) is Some {
                    72000
                } else {
                    0
                },
            },
    {
        match self.get_data_component::<ConsumableImpl>() {
            Some(v) => {
                proof {
                    ConsumableImpl::lemma_value(*v);
                }
                return v.consume_ticks();
            },
            None => {},
        }
        if self.get_data_component::<BlocksAttacksImpl>().is_some() {
            return 72000;
        }
        0
    }

    /// The item; the one that stands for nothing where the stack is empty.
    pub fn get_item(&self) -> (r: Arc<Item>)
        ensures
            if holds_nothing(self@) {
                is_air(*r)
            } else {
                *r == self@.item
            },
    {
        if self.is_empty() {
            Arc::new(Item::air())
        } else {
            share(&self.item)
        }
    }

    /// Whether more than one item fits in the stack.
    pub fn is_stackable(&self) -> (r: bool)
        ensures
            r == (max_stack_size(self@) > 1),
    {
        self.get_max_stack_size() > 1
    }
}

} // verus!
