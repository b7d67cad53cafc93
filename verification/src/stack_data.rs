//! The count, the names, the enchantments, the custom data and the tool rules of a stack.
use vstd::prelude::*;
use crate::basic::{rarity_id, CustomDataImpl, CustomNameImpl, ItemNameImpl, LoreImpl, Rarity, RarityImpl};
use crate::codec::{vals, DataComponentCodec};
use crate::coded::CodedComponent;
use crate::components::DataComponentImpl;
use crate::data_component::DataComponent;
use crate::elements::{AsLeveled, AsLine, TextComponent};
use crate::equipment::{EnchantmentsImpl, RepairCostImpl, RepairableImpl, SwingAnimationImpl, SwingAnimationType, ToolImpl, ToolRule, UnknownEnchantment};
use crate::format::{pair, plain_text, ComponentVal, StackVal, Val};
use crate::item_stack::{after_uid, next_uid, ItemStack, ItemStackIdGenerator};
use crate::nbt_tag::{compound_get, compound_put, key_index, lemma_entry_views, NbtCompound, NbtTag, Tag};
use crate::persist::{as_bits, as_bool, as_int, as_list, as_nbt, first, second};
use crate::registry::Block;
use crate::stack::{drop_entries, is_nothing, replaced, value_in, with_patch};
use crate::stack_use::{enchantments_of, holds, int_or, set_holds, with_count, with_positive, GameMode};

verus! {

broadcast use lemma_entry_views;

/// The smaller of two numbers.
pub open spec fn smaller(a: int, b: int) -> int {
    if a < b {
        a
    } else {
        b
    }
}

/// A stack with another value for a component.
pub open spec fn with_value(s: StackVal, k: DataComponent, v: Val) -> StackVal {
    with_patch(s, replaced(s.patch, k, Some(ComponentVal { kind: k, val: v })))
}

/// The lines of the description of a stack.
pub open spec fn lore_of(s: StackVal) -> Seq<Val> {
    match value_in(s, DataComponent::Lore) {
        Some(v) => as_list(v),
        None => Seq::empty(),
    }
}

/// The name that is shown for a stack.
pub open spec fn hover_name(s: StackVal) -> Seq<char> {
    match value_in(s, DataComponent::CustomName) {
        Some(v) => plain_text(as_nbt(v)),
        None => match value_in(s, DataComponent::ItemName) {
            Some(v) => plain_text(as_nbt(v)),
            None => s.item.registry_key@,
        },
    }
}

/// The number of the rarity of a stack.
pub open spec fn rarity_of(s: StackVal) -> int {
    let base = int_or(s, DataComponent::Rarity, 0);
    if enchantments_of(s).len() == 0 {
        base
    } else if base <= 1 {
        2
    } else {
        3
    }
}

/// The entries of the custom data of a stack.
pub open spec fn data_of(s: StackVal) -> Seq<(Seq<char>, Tag)> {
    match value_in(s, DataComponent::CustomData) {
        Some(v) => match as_nbt(v) {
            Tag::Compound(c) => c,
            _ => Seq::empty(),
        },
        None => Seq::empty(),
    }
}

/// The entries under a namespace.
pub open spec fn group_of(c: Seq<(Seq<char>, Tag)>, namespace: Seq<char>) -> Seq<(Seq<char>, Tag)> {
    match compound_get(c, namespace) {
        Some(Tag::Compound(n)) => n,
        _ => Seq::empty(),
    }
}

/// A compound without the entry under a key.
pub open spec fn without(c: Seq<(Seq<char>, Tag)>, key: Seq<char>) -> Seq<(Seq<char>, Tag)> {
    match key_index(c, key) {
        Some(i) => c.remove(i),
        None => c,
    }
}

/// Custom data with a value under a namespace and a key.
pub open spec fn data_with(
    c: Seq<(Seq<char>, Tag)>,
    namespace: Seq<char>,
    key: Seq<char>,
    value: Tag,
) -> Seq<(Seq<char>, Tag)> {
    compound_put(without(c, namespace), namespace, Tag::Compound(compound_put(group_of(c, namespace), key, value)))
}

/// Custom data without the value under a namespace and a key; a namespace without values goes too.
pub open spec fn data_without(c: Seq<(Seq<char>, Tag)>, namespace: Seq<char>, key: Seq<char>) -> Seq<(Seq<char>, Tag)> {
    let n = without(group_of(c, namespace), key);
    if n.len() > 0 {
        compound_put(without(c, namespace), namespace, Tag::Compound(n))
    } else {
        without(c, namespace)
    }
}

/// The value under a namespace and a key.
pub open spec fn data_get(s: StackVal, namespace: Seq<char>, key: Seq<char>) -> Option<Tag> {
    compound_get(group_of(data_of(s), namespace), key)
}

/// A stack with custom data.
pub open spec fn with_data(s: StackVal, c: Seq<(Seq<char>, Tag)>) -> StackVal {
    with_value(s, DataComponent::CustomData, Val::Nbt(Tag::Compound(c)))
}

/// The place of an enchantment in a list, from the `i`th on.
pub open spec fn place_of(l: Seq<Val>, enchantment: int, i: int) -> Option<int>
    decreases l.len() - i,
{
    if i < 0 || i >= l.len() {
        None
    } else if as_int(first(l[i])) == enchantment {
        Some(i)
    } else {
        place_of(l, enchantment, i + 1)
    }
}

/// A list with an enchantment of at least this level.
pub open spec fn enchanted(l: Seq<Val>, enchantment: int, level: int) -> Seq<Val> {
    match place_of(l, enchantment, 0) {
        Some(i) => if as_int(second(l[i])) < level {
            l.update(i, pair(Val::Int(enchantment), Val::Int(level)))
        } else {
            l
        },
        None => l.push(pair(Val::Int(enchantment), Val::Int(level))),
    }
}

/// What the first rule that applies to a block and says something says, from the `i`th on.
pub open spec fn rule_speed(l: Seq<Val>, block: int, tags: Seq<String>, i: int) -> Option<int>
    decreases l.len() - i,
{
    if i < 0 || i >= l.len() {
        None
    } else {
        match first(second(l[i])) {
            Val::Present(v) => if set_holds(first(l[i]), block, tags) {
                Some(as_bits(*v))
            } else {
                rule_speed(l, block, tags, i + 1)
            },
            _ => rule_speed(l, block, tags, i + 1),
        }
    }
}

/// Whether the first rule that applies to a block and says something lets it drop, from the `i`th
/// on.
pub open spec fn rule_drops(l: Seq<Val>, block: int, tags: Seq<String>, i: int) -> bool
    decreases l.len() - i,
{
    if i < 0 || i >= l.len() {
        false
    } else {
        match second(second(l[i])) {
            Val::Present(v) => if set_holds(first(l[i]), block, tags) {
                as_bool(*v)
            } else {
                rule_drops(l, block, tags, i + 1)
            },
            _ => rule_drops(l, block, tags, i + 1),
        }
    }
}

/// A copy of a list of enchantments.
fn copy_enchantments(v: &Vec<(u8, i32)>) -> (r: Vec<(u8, i32)>)
    ensures
        r@ == v@,
{
    let mut out: Vec<(u8, i32)> = Vec::new();
    let mut i: usize = 0;
    while i < v.len()
        invariant
            i <= v.len(),
            out@ == v@.take(i as int),
        decreases v.len() - i,
    {
        out.push((v[i].0, v[i].1));
        assert(out@ =~= v@.take(i + 1));
        i += 1;
    }
    assert(v@.take(v@.len() as int) =~= v@);
    out
}

/// A copy of the lines of a description.
fn copy_lines(v: &Vec<TextComponent>) -> (r: Vec<TextComponent>)
    ensures
        vals::<AsLine>(r@) == vals::<AsLine>(v@),
{
    let mut out: Vec<TextComponent> = Vec::new();
    let mut i: usize = 0;
    while i < v.len()
        invariant
            i <= v.len(),
            out@.len() == i,
            forall|k: int| 0 <= k < i ==> (#[trigger] out@[k])@ == v@[k]@,
        decreases v.len() - i,
    {
        out.push(v[i].copy());
        i += 1;
    }
    assert(vals::<AsLine>(out@) =~= vals::<AsLine>(v@));
    out
}

impl ItemStack {
    /// The enchantments, as a list of their own.
    fn list_enchantments(&self) -> (r: Vec<(u8, i32)>)
        ensures
            vals::<AsLeveled<UnknownEnchantment>>(r@) == enchantments_of(self@),
    {
        match self.get_data_component::<EnchantmentsImpl>() {
            Some(e) => {
                proof {
                    EnchantmentsImpl::lemma_value(*e);
                }
                copy_enchantments(&e.enchantment)
            },
            None => {
                let none: Vec<(u8, i32)> = Vec::new();
                assert(vals::<AsLeveled<UnknownEnchantment>>(none@) =~= Seq::<Val>::empty());
                none
            },
        }
    }

    /// Adds an enchantment behind those that there are.
    pub fn add_enchantment(&mut self, enchantment: u8, level: u16)
        ensures
            final(self)@ == with_value(
                old(self)@,
                DataComponent::Enchantments,
                Val::List(enchantments_of(old(self)@).push(pair(Val::Int(enchantment as int), Val::Int(level as int)))),
            ),
            final(self).uid == old(self).uid,
    {
        let mut list = self.list_enchantments();
        let ghost before = vals::<AsLeveled<UnknownEnchantment>>(list@);
        list.push((enchantment, level as i32));
        assert(vals::<AsLeveled<UnknownEnchantment>>(list@) =~= before.push(pair(Val::Int(enchantment as int), Val::Int(level as int))));
        let component = EnchantmentsImpl { enchantment: list };
        proof {
            EnchantmentsImpl::lemma_value(component);
        }
        self.set_data_component(component);
    }

    /// Gives the stack at least this level of an enchantment, at most 255.
    pub fn enchant(&mut self, enchantment: u8, level: i32)
        ensures
            final(self)@ == (if level <= 0 {
                old(self)@
            } else {
                with_value(
                    old(self)@,
                    DataComponent::Enchantments,
                    Val::List(enchanted(enchantments_of(old(self)@), enchantment as int, smaller(level as int, 255))),
                )
            }),
            final(self).uid == old(self).uid,
    {
        if level <= 0 {
            return;
        }
        let level: i32 = if level < 255 {
            level
        } else {
            255
        };
        let mut list = self.list_enchantments();
        let ghost l = vals::<AsLeveled<UnknownEnchantment>>(list@);
        let mut i: usize = 0;
        while i < list.len() && list[i].0 != enchantment
            invariant
                i <= list.len(),
                l == vals::<AsLeveled<UnknownEnchantment>>(list@),
                place_of(l, enchantment as int, 0) == place_of(l, enchantment as int, i as int),
            decreases list.len() - i,
        {
            assert(l[i as int] == pair(Val::Int(list@[i as int].0 as int), Val::Int(list@[i as int].1 as int)));
            i += 1;
        }
        if i < list.len() {
            assert(l[i as int] == pair(Val::Int(list@[i as int].0 as int), Val::Int(list@[i as int].1 as int)));
            if list[i].1 < level {
                list.set(i, (enchantment, level));
                assert(vals::<AsLeveled<UnknownEnchantment>>(list@) =~= l.update(
                    i as int,
                    pair(Val::Int(enchantment as int), Val::Int(level as int)),
                ));
            }
        } else {
            list.push((enchantment, level));
            assert(vals::<AsLeveled<UnknownEnchantment>>(list@) =~= l.push(
                pair(Val::Int(enchantment as int), Val::Int(level as int)),
            ));
        }
        let component = EnchantmentsImpl { enchantment: list };
        proof {
            EnchantmentsImpl::lemma_value(component);
        }
        self.set_data_component(component);
    }

    /// Sets the description.
    pub fn set_lore(&mut self, lines: Vec<TextComponent>)
        ensures
            final(self)@ == with_value(old(self)@, DataComponent::Lore, Val::List(vals::<AsLine>(lines@))),
            final(self).uid == old(self).uid,
    {
        let component = LoreImpl { lines };
        proof {
            LoreImpl::lemma_value(component);
        }
        self.set_data_component(component);
    }

    /// Adds a line to the description.
    pub fn add_lore(&mut self, line: TextComponent)
        ensures
            final(self)@ == with_value(old(self)@, DataComponent::Lore, Val::List(lore_of(old(self)@).push(Val::Nbt(line@)))),
            final(self).uid == old(self).uid,
    {
        let mut lines: Vec<TextComponent> = match self.get_data_component::<LoreImpl>() {
            Some(lore) => {
                proof {
                    LoreImpl::lemma_value(*lore);
                }
                copy_lines(&lore.lines)
            },
            None => Vec::new(),
        };
        let ghost before = vals::<AsLine>(lines@);
        assert(before =~= lore_of(self@));
        lines.push(line);
        assert(vals::<AsLine>(lines@) =~= before.push(Val::Nbt(line@)));
        self.set_lore(lines);
    }

    /// Sets the name that a player gave.
    pub fn set_custom_name(&mut self, name: String)
        ensures
            final(self)@ == with_value(old(self)@, DataComponent::CustomName, Val::Nbt(Tag::String(name@))),
            final(self).uid == old(self).uid,
    {
        let component = CustomNameImpl { name: TextComponent::text(name) };
        proof {
            CustomNameImpl::lemma_value(component);
        }
        self.set_data_component(component);
    }

    /// Whether a player gave a name.
    pub fn has_custom_name(&self) -> (r: bool)
        ensures
            r == (value_in(self@, DataComponent::CustomName) is Some),
    {
        self.get_data_component::<CustomNameImpl>().is_some()
    }

    /// The name that a player gave.
    pub fn get_custom_name(&self) -> (r: Option<&TextComponent>)
        ensures
            match r {
                Some(t) => value_in(self@, DataComponent::CustomName) == Some(Val::Nbt(t@)),
                None => value_in(self@, DataComponent::CustomName) is None,
            },
    {
        match self.get_data_component::<CustomNameImpl>() {
            Some(v) => {
                proof {
                    CustomNameImpl::lemma_value(*v);
                }
                Some(&v.name)
            },
            None => None,
        }
    }

    /// Drops the name that a player gave.
    pub fn remove_custom_name(&mut self)
        ensures
            final(self)@ == with_patch(old(self)@, drop_entries(old(self)@.patch, DataComponent::CustomName, 0)),
            final(self).uid == old(self).uid,
    {
        self.drop_patch_entries(DataComponent::CustomName);
    }

    /// The name that is shown.
    pub fn get_hover_name(&self) -> (r: String)
        ensures
            r@ == hover_name(self@),
    {
        match self.get_data_component::<CustomNameImpl>() {
            Some(v) => {
                proof {
                    CustomNameImpl::lemma_value(*v);
                }
                return v.name.get_text();
            },
            None => {},
        }
        match self.get_data_component::<ItemNameImpl>() {
            Some(v) => {
                proof {
                    ItemNameImpl::lemma_value(*v);
                }
                return v.name.as_component().get_text();
            },
            None => {},
        }
        self.item.registry_key.clone()
    }

    /// What a further repair costs.
    pub fn get_repair_cost(&self) -> (r: i32)
        ensures
            r == int_or(self@, DataComponent::RepairCost, 0),
    {
        match self.get_data_component::<RepairCostImpl>() {
            Some(v) => {
                proof {
                    RepairCostImpl::lemma_value(*v);
                }
                v.cost
            },
            None => 0,
        }
    }

    /// Sets what a further repair costs; nothing is recorded where it is not above zero.
    pub fn set_repair_cost(&mut self, cost: i32)
        ensures
            final(self)@ == with_positive(old(self)@, DataComponent::RepairCost, cost as int),
            final(self).uid == old(self).uid,
    {
        if cost <= 0 {
            self.drop_patch_entries(DataComponent::RepairCost);
            return;
        }
        let component = RepairCostImpl { cost };
        proof {
            RepairCostImpl::lemma_value(component);
        }
        self.set_data_component(component);
    }

    /// Whether the item can be repaired with another.
    pub fn is_valid_repair_item(&self, repair_item: &ItemStack) -> (r: bool)
        ensures
            r == match value_in(self@, DataComponent::Repairable) {
                Some(v) => set_holds(v, repair_item.item.id as int, repair_item.item.tags@),
                None => false,
            },
    {
        match self.get_data_component::<RepairableImpl>() {
            Some(v) => {
                proof {
                    RepairableImpl::lemma_value(*v);
                }
                holds(&v.items, repair_item.item.id, &repair_item.item.tags)
            },
            None => false,
        }
    }

    /// How the arm swings.
    pub fn get_swing_animation(&self) -> (r: SwingAnimationImpl)
        ensures
            match value_in(self@, DataComponent::SwingAnimation) {
                Some(v) => SwingAnimationImpl::val(r) == v,
                None => r.animation_type == SwingAnimationType::Whack && r.duration == 6,
            },
    {
        match self.get_data_component::<SwingAnimationImpl>() {
            Some(v) => {
                proof {
                    SwingAnimationImpl::lemma_value(*v);
                }
                *v
            },
            None => SwingAnimationImpl { animation_type: SwingAnimationType::Whack, duration: 6 },
        }
    }

    /// How rare the stack is; enchantments make it rarer.
    pub fn get_rarity(&self) -> (r: Rarity)
        ensures
            rarity_id(r) == rarity_of(self@),
    {
        let base: Rarity = match self.get_data_component::<RarityImpl>() {
            Some(v) => {
                proof {
                    RarityImpl::lemma_value(*v);
                }
                v.rarity
            },
            None => Rarity::Common,
        };
        if !self.has_enchantments() {
            return base;
        }
        match base {
            Rarity::Common => Rarity::Rare,
            Rarity::Uncommon => Rarity::Rare,
            Rarity::Rare => Rarity::Epic,
            Rarity::Epic => Rarity::Epic,
        }
    }

    /// The custom data.
    pub fn custom_data_compound(&self) -> (r: Option<&NbtCompound>)
        ensures
            match r {
                Some(c) => value_in(self@, DataComponent::CustomData) == Some(Val::Nbt(Tag::Compound(c@))),
                None => value_in(self@, DataComponent::CustomData) is None,
            },
    {
        match self.get_data_component::<CustomDataImpl>() {
            Some(v) => {
                proof {
                    CustomDataImpl::lemma_value(*v);
                }
                Some(&v.data)
            },
            None => None,
        }
    }

    /// Sets the custom data.
    fn set_custom_data_component(&mut self, custom_data: NbtCompound)
        ensures
            final(self)@ == with_data(old(self)@, custom_data@),
            final(self).uid == old(self).uid,
    {
        let component = CustomDataImpl { data: custom_data };
        proof {
            CustomDataImpl::lemma_value(component);
        }
        self.set_data_component(component);
    }

    /// Sets a value of the custom data, under a namespace and a key.
    pub fn set_custom_data(&mut self, namespace: &str, key: &str, value: NbtTag)
        ensures
            final(self)@ == with_data(old(self)@, data_with(data_of(old(self)@), namespace@, key@, value@)),
            final(self).uid == old(self).uid,
    {
        let mut custom_data: NbtCompound = match self.custom_data_compound() {
            Some(c) => c.copy(),
            None => NbtCompound::new(),
        };
        assert(custom_data@ =~= data_of(self@));
        let mut namespace_data: NbtCompound = match custom_data.remove(namespace) {
            Some(NbtTag::Compound(c)) => c,
            _ => NbtCompound::new(),
        };
        assert(namespace_data@ =~= group_of(data_of(self@), namespace@));
        namespace_data.put(key, value);
        custom_data.put_compound(namespace, namespace_data);
        self.set_custom_data_component(custom_data);
    }

    /// A value of the custom data.
    pub fn get_custom_data(&self, namespace: &str, key: &str) -> (r: Option<NbtTag>)
        ensures
            match r {
                Some(t) => data_get(self@, namespace@, key@) == Some(t@),
                None => data_get(self@, namespace@, key@) is None,
            },
    {
        let c = match self.custom_data_compound() {
            Some(c) => c,
            None => {
                return None;
            },
        };
        match c.get_compound(namespace) {
            Some(n) => match n.get(key) {
                Some(t) => Some(t.copy()),
                None => None,
            },
            None => None,
        }
    }

    /// Removes a value of the custom data; what is then empty goes too.
    pub fn remove_custom_data(&mut self, namespace: &str, key: &str)
        ensures
            final(self)@ == (match compound_get(data_of(old(self)@), namespace@) {
                Some(Tag::Compound(_)) => {
                    let c = data_without(data_of(old(self)@), namespace@, key@);
                    if c.len() == 0 {
                        with_patch(old(self)@, drop_entries(old(self)@.patch, DataComponent::CustomData, 0))
                    } else {
                        with_data(old(self)@, c)
                    }
                },
                _ => old(self)@,
            }),
            final(self).uid == old(self).uid,
    {
        let mut custom_data: NbtCompound = match self.custom_data_compound() {
            Some(c) => c.copy(),
            None => {
                return;
            },
        };
        let mut namespace_data: NbtCompound = match custom_data.remove(namespace) {
            Some(NbtTag::Compound(c)) => c,
            _ => {
                return;
            },
        };
        let _ = namespace_data.remove(key);
        if !namespace_data.is_empty() {
            custom_data.put_compound(namespace, namespace_data);
        }
        if custom_data.is_empty() {
            self.drop_patch_entries(DataComponent::CustomData);
        } else {
            self.set_custom_data_component(custom_data);
        }
    }

    /// Whether the custom data has a value.
    pub fn has_custom_data(&self, namespace: &str, key: &str) -> (r: bool)
        ensures
            r == (data_get(self@, namespace@, key@) is Some),
    {
        self.get_custom_data(namespace, key).is_some()
    }

    /// A copy with another count and a number of its own.
    pub fn copy_with_count(&self, count: u8, ids: &mut ItemStackIdGenerator) -> (r: Self)
        ensures
            r@ == with_count(self@, count as int),
            r.uid == next_uid(old(ids).counter),
            final(ids).counter == after_uid(old(ids).counter),
    {
        let mut stack = self.copy();
        stack.uid = ids.next_id();
        stack.item_count = count;
        stack
    }

    /// Takes items away, as a stack of their own.
    pub fn split(&mut self, amount: u8, ids: &mut ItemStackIdGenerator) -> (r: Self)
        ensures
            r@ == with_count(old(self)@, smaller(amount as int, old(self)@.count)),
            final(self)@ == with_count(old(self)@, old(self)@.count - smaller(amount as int, old(self)@.count)),
            final(self).uid == old(self).uid,
            r.uid == next_uid(old(ids).counter),
            final(ids).counter == after_uid(old(ids).counter),
    {
        let min: u8 = if amount < self.item_count {
            amount
        } else {
            self.item_count
        };
        let stack = self.copy_with_count(min, ids);
        self.decrement(min);
        stack
    }

    /// Takes items away, as a stack of their own.
    pub fn split_off(&mut self, amount: u8, ids: &mut ItemStackIdGenerator) -> (r: Self)
        ensures
            r@ == with_count(old(self)@, smaller(amount as int, old(self)@.count)),
            final(self)@ == with_count(old(self)@, old(self)@.count - smaller(amount as int, old(self)@.count)),
            final(self).uid == old(self).uid,
            r.uid == next_uid(old(ids).counter),
            final(ids).counter == after_uid(old(ids).counter),
    {
        self.split(amount, ids)
    }

    /// Takes items away, as a stack of their own; in creative mode the stack keeps them.
    pub fn split_unless_creative(&mut self, gamemode: GameMode, amount: u8, ids: &mut ItemStackIdGenerator) -> (r: Self)
        ensures
            r@ == with_count(old(self)@, smaller(amount as int, old(self)@.count)),
            final(self)@ == (if gamemode == GameMode::Creative {
                old(self)@
            } else {
                with_count(old(self)@, old(self)@.count - smaller(amount as int, old(self)@.count))
            }),
            final(self).uid == old(self).uid,
            r.uid == next_uid(old(ids).counter),
            final(ids).counter == after_uid(old(ids).counter),
    {
        let min: u8 = if amount < self.item_count {
            amount
        } else {
            self.item_count
        };
        let stack = self.copy_with_count(min, ids);
        if gamemode != GameMode::Creative {
            self.decrement(min);
        }
        stack
    }

    /// Sets the count.
    pub fn set_count(&mut self, count: u8)
        ensures
            final(self)@ == with_count(old(self)@, count as int),
            final(self).uid == old(self).uid,
    {
        self.item_count = count;
    }

    /// Lowers the count, to zero at the least.
    pub fn decrement(&mut self, amount: u8)
        ensures
            final(self)@ == with_count(old(self)@, old(self)@.count - smaller(amount as int, old(self)@.count)),
            final(self).uid == old(self).uid,
    {
        if amount < self.item_count {
            self.item_count = self.item_count - amount;
        } else {
            self.item_count = 0;
        }
    }

    /// Lowers the count unless the mode is creative; nothing is left where it reaches zero.
    pub fn decrement_unless_creative(&mut self, gamemode: GameMode, amount: u8)
        ensures
            if gamemode == GameMode::Creative {
                final(self)@ == old(self)@ && final(self).uid == old(self).uid
            } else if amount < old(self)@.count {
                final(self)@ == with_count(old(self)@, old(self)@.count - amount) && final(self).uid == old(self).uid
            } else {
                is_nothing(final(self)@) && final(self).uid == i32::MIN
            },
    {
        if gamemode != GameMode::Creative {
            self.decrement(amount);
            if self.item_count == 0 {
                self.clear();
            }
        }
    }

    /// Raises the count, to 255 at the most.
    pub fn increment(&mut self, amount: u8)
        ensures
            final(self)@ == with_count(old(self)@, smaller(old(self)@.count + amount, 255)),
            final(self).uid == old(self).uid,
    {
        let sum: u16 = self.item_count as u16 + amount as u16;
        self.item_count = if sum < 255 {
            sum as u8
        } else {
            255
        };
    }

    /// Makes the stack stand for nothing.
    pub fn clear(&mut self)
        ensures
            is_nothing(final(self)@),
            final(self).uid == i32::MIN,
    {
        *self = ItemStack::empty();
    }

    /// How fast the stack mines a block, as the bit pattern of a 32-bit floating-point number.
    pub fn get_speed(&self, id: u16, block: &Block) -> (r: u32)
        ensures
            r == match value_in(self@, DataComponent::Tool) {
                Some(v) => match rule_speed(as_list(first(v)), id as int, block.tags@, 0) {
                    Some(speed) => speed,
                    None => as_bits(first(second(v))),
                },
                None => 0x3f80_0000,
            },
    {
        let tool = match self.get_data_component::<ToolImpl>() {
            Some(v) => v,
            None => {
                return 0x3f80_0000;
            },
        };
        proof {
            ToolImpl::lemma_value(*tool);
        }
        let ghost l = vals::<ToolRule>(tool.rules@);
        let mut i: usize = 0;
        while i < tool.rules.len()
            invariant
                i <= tool.rules.len(),
                l == vals::<ToolRule>(tool.rules@),
                value_in(self@, DataComponent::Tool) == Some(ToolImpl::val(*tool)),
                rule_speed(l, id as int, block.tags@, 0) == rule_speed(l, id as int, block.tags@, i as int),
            decreases tool.rules.len() - i,
        {
            assert(l[i as int] == ToolRule::val(tool.rules@[i as int]));
            match tool.rules[i].speed {
                Some(speed) => {
                    if holds(&tool.rules[i].blocks, id, &block.tags) {
                        return speed;
                    }
                },
                None => {},
            }
            i += 1;
        }
        tool.default_mining_speed
    }

    /// Whether a block that is mined with the stack drops anything.
    pub fn is_correct_for_drops(&self, id: u16, block: &Block) -> (r: bool)
        ensures
            r == match value_in(self@, DataComponent::Tool) {
                Some(v) => rule_drops(as_list(first(v)), id as int, block.tags@, 0),
                None => false,
            },
    {
        let tool = match self.get_data_component::<ToolImpl>() {
            Some(v) => v,
            None => {
                return false;
            },
        };
        proof {
            ToolImpl::lemma_value(*tool);
        }
        let ghost l = vals::<ToolRule>(tool.rules@);
        let mut i: usize = 0;
        while i < tool.rules.len()
            invariant
                i <= tool.rules.len(),
                l == vals::<ToolRule>(tool.rules@),
                value_in(self@, DataComponent::Tool) == Some(ToolImpl::val(*tool)),
                rule_drops(l, id as int, block.tags@, 0) == rule_drops(l, id as int, block.tags@, i as int),
            decreases tool.rules.len() - i,
        {
            assert(l[i as int] == ToolRule::val(tool.rules@[i as int]));
            match tool.rules[i].correct_for_drops {
                Some(correct) => {
                    if holds(&tool.rules[i].blocks, id, &block.tags) {
                        return correct;
                    }
                },
                None => {},
            }
            i += 1;
        }
        false
    }
}

} // verus!
