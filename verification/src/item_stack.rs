//! Items and stacks of items.
use std::sync::Arc;
use vstd::prelude::*;
use crate::codec::ListRule;
use crate::components::{value_kind, value_val, ComponentValue};
use crate::data_component::DataComponent;
use crate::errors::{cannot_write, limit_exceeded, message, ReadingError, WritingError};
use crate::format::{pair, Blame, ComponentVal, CountRule, Limit, PatchVal, StackVal, Val};
use crate::nbt_tag::NbtTag;
use crate::wire::get_var_int;

verus! {

/// A kind of item, with the components that every stack of it has unless its patch says otherwise.
#[derive(Debug)]
pub struct Item {
    pub id: u16,
    /// The name, without the namespace.
    pub registry_key: String,
    pub tags: Vec<String>,
    pub components: Vec<(DataComponent, Arc<ComponentValue>)>,
}

/// The number of the item that stands for nothing.
pub const AIR_ID: u16 = 0;

/// Hands out the numbers that tell stacks apart: positive, one after the other, starting over
/// after the last.
#[derive(Debug)]
pub struct ItemStackIdGenerator {
    pub counter: u32,
}

/// The number that comes next.
pub open spec fn next_uid(counter: u32) -> int {
    if counter % 0x8000_0000 == 0 {
        1
    } else {
        counter as int % 0x8000_0000
    }
}

/// The counter after a number was handed out.
pub open spec fn after_uid(counter: u32) -> u32 {
    if counter % 0x8000_0000 == 0 {
        ((counter + 2) % 0x1_0000_0000) as u32
    } else {
        ((counter + 1) % 0x1_0000_0000) as u32
    }
}

impl ItemStackIdGenerator {
    /// Starts at one.
    pub fn new() -> (r: Self)
        ensures
            r.counter == 1,
    {
        ItemStackIdGenerator { counter: 1 }
    }

    /// The next number.
    pub fn next_id(&mut self) -> (r: i32)
        ensures
            r == next_uid(old(self).counter),
            r > 0,
            final(self).counter == after_uid(old(self).counter),
    {
        let value: u32 = self.counter;
        self.counter = value.wrapping_add(1);
        if value % 0x8000_0000 == 0 {
            self.counter = self.counter.wrapping_add(1);
            1
        } else {
            (value % 0x8000_0000) as i32
        }
    }
}

impl Default for ItemStackIdGenerator {
    fn default() -> (r: Self)
        ensures
            r.counter == 1,
    {
        ItemStackIdGenerator::new()
    }
}

/// The counter after `n` numbers were handed out.
pub open spec fn counter_after(counter: u32, n: nat) -> u32
    decreases n,
{
    if n == 0 {
        counter
    } else {
        after_uid(counter_after(counter, (n - 1) as nat))
    }
}

/// Whether a counter gets from one state to another by handing out numbers.
pub closed spec fn advanced(before: u32, after: u32) -> bool {
    exists|n: nat| #[trigger] counter_after(before, n) == after
}

/// Whether a number is the last that was handed out between two states of a counter.
pub open spec fn drawn_last(before: u32, after: u32, uid: int) -> bool {
    exists|c: u32| #[trigger] advanced(before, c) && uid == next_uid(c) && after == after_uid(c)
}

proof fn lemma_counter_after(counter: u32, m: nat, n: nat)
    ensures
        counter_after(counter_after(counter, m), n) == counter_after(counter, m + n),
    decreases n,
{
    if n > 0 {
        lemma_counter_after(counter, m, (n - 1) as nat);
    }
}

/// A counter stays where no number is handed out.
pub broadcast proof fn lemma_advanced_by_none(counter: u32)
    ensures
        #[trigger] advanced(counter, counter),
{
    assert(counter_after(counter, 0) == counter);
}

/// Handing out one number advances a counter.
pub broadcast proof fn lemma_advanced_by_one(counter: u32)
    ensures
        advanced(counter, #[trigger] after_uid(counter)),
{
    assert(counter_after(counter, 0) == counter);
    assert(counter_after(counter, 1) == after_uid(counter));
}

/// Handing out numbers and then more of them is handing out numbers.
pub broadcast proof fn lemma_advanced_on(a: u32, b: u32, c: u32)
    requires
        #[trigger] advanced(a, b),
        #[trigger] advanced(b, c),
    ensures
        advanced(a, c),
{
    let m = choose|m: nat| #[trigger] counter_after(a, m) == b;
    let n = choose|n: nat| #[trigger] counter_after(b, n) == c;
    lemma_counter_after(a, m, n);
}

pub broadcast group group_advanced {
    lemma_advanced_by_none,
    lemma_advanced_by_one,
    lemma_advanced_on,
}

proof fn lemma_next_uid(c: u32)
    ensures
        next_uid(after_uid(c)) == if next_uid(c) == 0x7fff_ffff {
            1
        } else {
            next_uid(c) + 1
        },
{
}

proof fn lemma_one_more(x: int)
    requires
        x >= 0,
    ensures
        (x + 1) % 0x7fff_ffff == if x % 0x7fff_ffff == 0x7fff_fffe {
            0
        } else {
            x % 0x7fff_ffff + 1
        },
{
}

/// Numbers are handed out in turn, from one up to the largest and then from one again.
pub proof fn lemma_uids_in_turn(counter: u32, n: nat)
    ensures
        next_uid(counter_after(counter, n)) == (next_uid(counter) - 1 + n) % 0x7fff_ffff + 1,
    decreases n,
{
    if n > 0 {
        lemma_uids_in_turn(counter, (n - 1) as nat);
        lemma_next_uid(counter_after(counter, (n - 1) as nat));
        lemma_one_more(next_uid(counter) - 1 + n - 1);
    }
}

/// A number differs from the others of a whole turn.
pub proof fn lemma_uids_differ(counter: u32, n: nat)
    requires
        0 < n < 0x7fff_ffff,
    ensures
        next_uid(counter_after(counter, n)) != next_uid(counter),
{
    lemma_uids_in_turn(counter, n);
}

/// A stack of items.
#[derive(Debug)]
pub struct ItemStack {
    pub item_count: u8,
    pub item: Arc<Item>,
    /// The components that the stack adds and, where the value is absent, removes.
    pub patch: Vec<(DataComponent, Option<Arc<ComponentValue>>)>,
    /// A number that tells stacks apart on the network; never stored or compared.
    pub uid: i32,
}

/// What is left of an item after it was used.
#[derive(Debug)]
pub struct UseRemainderImpl {
    pub convert_into: ItemStack,
}

/// The stacks in a container, with their slots.
#[derive(Debug)]
pub struct ContainerImpl {
    pub items: Vec<(u8, ItemStack)>,
}

/// The stacks in a bundle, the one put in last first.
#[derive(Debug)]
pub struct BundleContentsImpl {
    pub items: Vec<ItemStack>,
}

/// The projectiles that a crossbow is loaded with.
#[derive(Debug)]
pub struct ChargedProjectilesImpl {
    pub projectiles: Vec<ItemStack>,
}

/// What a sulfur cube has absorbed.
#[derive(Debug)]
pub struct SulfurCubeContentImpl {
    pub absorbed_block_item_stack: ItemStack,
}

/// The blocks that an item can be placed on in adventure mode.
#[derive(Debug)]
pub struct CanPlaceOnImpl {
    pub predicate: NbtTag,
}

/// The blocks that an item can break in adventure mode.
#[derive(Debug)]
pub struct CanBreakImpl {
    pub predicate: NbtTag,
}

/// The first `n` entries of a patch.
pub open spec fn patch_vals(p: Seq<(DataComponent, Option<Arc<ComponentValue>>)>, n: nat) -> PatchVal
    decreases p, n,
{
    if n == 0 || n > p.len() {
        Seq::empty()
    } else {
        patch_vals(p, (n - 1) as nat).push(
            (
                p[n - 1].0,
                match p[n - 1].1 {
                    Some(v) => Some(ComponentVal { kind: value_kind(*v), val: value_val(*v) }),
                    None => None,
                },
            ),
        )
    }
}

/// What a stack is.
pub open spec fn stack_val(s: ItemStack) -> StackVal
    decreases s, 0nat,
{
    StackVal { item: *s.item, count: s.item_count as int, patch: patch_vals(s.patch@, s.patch@.len()) }
}

/// The first `n` stacks of a list.
pub open spec fn stack_vals(v: Seq<ItemStack>, n: nat) -> Seq<Val>
    decreases v, n,
{
    if n == 0 || n > v.len() {
        Seq::empty()
    } else {
        stack_vals(v, (n - 1) as nat).push(Val::Stack(stack_val(v[n - 1])))
    }
}

/// The first `n` stacks of a container.
pub open spec fn slot_vals(v: Seq<(u8, ItemStack)>, n: nat) -> Seq<Val>
    decreases v, n,
{
    if n == 0 || n > v.len() {
        Seq::empty()
    } else {
        slot_vals(v, (n - 1) as nat).push(pair(Val::Int(v[n - 1].0 as int), Val::Stack(stack_val(v[n - 1].1))))
    }
}

/// How the stacks in a bundle are counted.
pub struct BundleCount;

impl ListRule for BundleCount {
    open spec fn rule() -> CountRule {
        CountRule::Signed {
            negative: Blame { text: "Negative BundleContents count", number: false },
            max: 64,
            over: "Too many BundleContents items for Pumpkin limit",
        }
    }

    open spec fn limit() -> Limit {
        Limit::AtMost { max: 64, over: "Too many BundleContents items for Pumpkin limit" }
    }

    fn count(seq: &mut &[u8]) -> (r: Result<u64, ReadingError>) {
        let v: i32 = get_var_int(seq)?;
        if v < 0 {
            return Err(message("Negative BundleContents count"));
        }
        if v > 64 {
            return Err(message("Too many BundleContents items for Pumpkin limit"));
        }
        Ok(v as u64)
    }

    fn allowed(n: usize) -> (r: Result<(), WritingError>) {
        if n > 64 {
            return Err(cannot_write("Too many BundleContents items for Pumpkin limit"));
        }
        Ok(())
    }
}

/// How loaded projectiles are counted.
pub struct ProjectileCount;

impl ListRule for ProjectileCount {
    open spec fn rule() -> CountRule {
        CountRule::Limited {
            negative: Blame { text: "Negative ChargedProjectiles count", number: false },
            max: 1024,
            over: Blame { text: "Too many ChargedProjectiles items for official limit", number: false },
        }
    }

    open spec fn limit() -> Limit {
        Limit::AtMost { max: 1024, over: "Too many ChargedProjectiles items for official limit" }
    }

    fn count(seq: &mut &[u8]) -> (r: Result<u64, ReadingError>) {
        let v: i32 = get_var_int(seq)?;
        if v < 0 {
            return Err(message("Negative ChargedProjectiles count"));
        }
        if v > 1024 {
            return Err(limit_exceeded("Too many ChargedProjectiles items for official limit"));
        }
        Ok(v as u64)
    }

    fn allowed(n: usize) -> (r: Result<(), WritingError>) {
        if n > 1024 {
            return Err(cannot_write("Too many ChargedProjectiles items for official limit"));
        }
        Ok(())
    }
}

/// A value of a component.
pub open spec fn component_val(v: ComponentValue) -> ComponentVal {
    ComponentVal { kind: value_kind(v), val: value_val(v) }
}

/// An entry of a patch.
pub open spec fn entry_val(e: (DataComponent, Option<Arc<ComponentValue>>)) -> (DataComponent, Option<ComponentVal>) {
    (
        e.0,
        match e.1 {
            Some(v) => Some(component_val(*v)),
            None => None,
        },
    )
}

/// What the entries of a patch are, one by one.
pub broadcast proof fn lemma_patch_vals(p: Seq<(DataComponent, Option<Arc<ComponentValue>>)>, n: nat)
    requires
        n <= p.len(),
    ensures
        (#[trigger] patch_vals(p, n)).len() == n,
        forall|i: int| 0 <= i < n ==> (#[trigger] patch_vals(p, n)[i]) == entry_val(p[i]),
    decreases n,
{
    reveal(value_val);
    if n > 0 {
        lemma_patch_vals(p, (n - 1) as nat);
    }
}

/// What stacks are, one by one.
pub broadcast proof fn lemma_stack_vals(v: Seq<ItemStack>, n: nat)
    requires
        n <= v.len(),
    ensures
        (#[trigger] stack_vals(v, n)).len() == n,
        forall|i: int| 0 <= i < n ==> (#[trigger] stack_vals(v, n)[i]) == Val::Stack(stack_val(v[i])),
    decreases n,
{
    if n > 0 {
        lemma_stack_vals(v, (n - 1) as nat);
    }
}

/// What the stacks of a container are, one by one.
pub broadcast proof fn lemma_slot_vals(v: Seq<(u8, ItemStack)>, n: nat)
    requires
        n <= v.len(),
    ensures
        (#[trigger] slot_vals(v, n)).len() == n,
        forall|i: int| 0 <= i < n ==> (#[trigger] slot_vals(v, n)[i]) == pair(Val::Int(v[i].0 as int), Val::Stack(stack_val(v[i].1))),
    decreases n,
{
    if n > 0 {
        lemma_slot_vals(v, (n - 1) as nat);
    }
}

pub broadcast group group_stack_vals {
    lemma_patch_vals,
    lemma_stack_vals,
    lemma_slot_vals,
}

/// The entries of a patch.
pub open spec fn patch_val(p: Seq<(DataComponent, Option<Arc<ComponentValue>>)>) -> PatchVal {
    patch_vals(p, p.len())
}

/// The numbers of stacks.
pub open spec fn numbers(v: Seq<ItemStack>) -> Seq<int> {
    Seq::new(v.len(), |i: int| v[i].uid as int)
}

impl ItemStack {
    /// What the stack is: its item, its count and its patch, apart from its number, which contracts speak
    /// of by itself.
    pub open spec fn view(&self) -> StackVal {
        stack_val(*self)
    }

    /// A stack without a patch.
    pub fn new(item_count: u8, item: Arc<Item>, ids: &mut ItemStackIdGenerator) -> (r: Self)
        ensures
            r@ == (StackVal { item: *item, count: item_count as int, patch: Seq::empty() }),
            r.uid == next_uid(old(ids).counter),
            final(ids).counter == after_uid(old(ids).counter),
    {
        let r = ItemStack { item_count, item, patch: Vec::new(), uid: ids.next_id() };
        assert(patch_vals(r.patch@, 0) =~= Seq::empty());
        r
    }

    /// A stack with a patch.
    pub fn new_with_component(
        item_count: u8,
        item: Arc<Item>,
        component: Vec<(DataComponent, Option<Arc<ComponentValue>>)>,
        ids: &mut ItemStackIdGenerator,
    ) -> (r: Self)
        ensures
            r@ == (StackVal { item: *item, count: item_count as int, patch: patch_val(component@) }),
            r.uid == next_uid(old(ids).counter),
            final(ids).counter == after_uid(old(ids).counter),
    {
        ItemStack { item_count, item, patch: component, uid: ids.next_id() }
    }

    /// A stack without a patch, for a network where stacks are not told apart.
    pub fn static_new_java(item_count: u8, item: Arc<Item>) -> (r: Self)
        ensures
            r@ == (StackVal { item: *item, count: item_count as int, patch: Seq::empty() }),
            r.uid == 1,
    {
        let r = ItemStack { item_count, item, patch: Vec::new(), uid: 1 };
        assert(patch_vals(r.patch@, 0) =~= Seq::empty());
        r
    }
}

} // verus!
