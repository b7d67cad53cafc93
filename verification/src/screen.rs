//! The screen of a player's inventory.
use vstd::prelude::*;
use crate::coded::CodedComponent;
use crate::codec::DataComponentCodec;
use crate::components::DataComponentImpl;
use crate::data_component::DataComponent;
use crate::equipment::{equipment_slot_id, EquipmentSlot, EquippableImpl};
use crate::format::StackVal;
use crate::item_stack::{after_uid, next_uid, numbers, ItemStack, ItemStackIdGenerator};
use crate::persist::{as_int, first};
use crate::same::items_same;
use crate::stack::{holds_nothing, is_nothing, value_in};
use crate::stack_data::smaller;
use crate::stack_use::{max_stack_size, with_count};

verus! {

/// How many slots the screen has: the result of crafting, four for crafting, four for armour, 27 of
/// the inventory, nine of the hotbar and one for the other hand.
pub const SLOT_COUNT: usize = 46;

/// How many slots the inventory of a player has.
pub const INVENTORY_SIZE: usize = 41;

/// How many items a slot holds at the most.
pub const MAX_SLOT_COUNT: u8 = 99;

/// The screen of a player's inventory.
#[derive(Debug)]
pub struct PlayerScreenHandler {
    pub sync_id: u8,
    pub slots: Vec<ItemStack>,
    /// What the cursor carries.
    pub cursor_stack: ItemStack,
}

/// What has to be done about the player and the slots once items were moved.
#[derive(Debug)]
pub enum PlayerAction {
    /// What is worn in a place has changed; nothing is worn where there is no stack.
    EquipmentChange(EquipmentSlot, Option<ItemStack>),
    /// The stack was taken out of the slot.
    TakeItem(usize, ItemStack),
    /// The result of crafting was moved away, and is to be made anew where there is enough for
    /// another: what found no room, and what was there before.
    Crafted(ItemStack, ItemStack),
    /// The stack falls to the ground.
    DropItem(ItemStack),
}

/// What has to be done about the player and the slots.
pub enum ActionView {
    EquipmentChange(EquipmentSlot, Option<StackVal>),
    TakeItem(int, StackVal),
    Crafted(StackVal, StackVal),
    DropItem(StackVal),
}

impl PlayerAction {
    pub open spec fn view(&self) -> ActionView {
        match self {
            PlayerAction::EquipmentChange(slot, Some(s)) => ActionView::EquipmentChange(*slot, Some(s@)),
            PlayerAction::EquipmentChange(slot, None) => ActionView::EquipmentChange(*slot, None),
            PlayerAction::TakeItem(i, s) => ActionView::TakeItem(*i as int, s@),
            PlayerAction::Crafted(a, b) => ActionView::Crafted(a@, b@),
            PlayerAction::DropItem(s) => ActionView::DropItem(s@),
        }
    }
}

/// What became of a click: the stack that was there where anything was moved, and what has to be
/// done.
#[derive(Debug)]
pub struct QuickMove {
    pub moved: Option<ItemStack>,
    pub actions: Vec<PlayerAction>,
}

/// Whether the stacks that an action speaks of all have this number.
pub open spec fn all_numbered(a: PlayerAction, uid: i32) -> bool {
    match a {
        PlayerAction::EquipmentChange(_, s) => s matches Some(s) ==> s.uid == uid,
        PlayerAction::TakeItem(_, s) => s.uid == uid,
        PlayerAction::Crafted(s, t) => s.uid == uid && t.uid == uid,
        PlayerAction::DropItem(s) => s.uid == uid,
    }
}

/// What the slots hold.
pub open spec fn held(v: Seq<ItemStack>) -> Seq<StackVal> {
    Seq::new(v.len(), |i: int| v[i]@)
}

/// What the actions are.
pub open spec fn action_views(v: Seq<PlayerAction>) -> Seq<ActionView> {
    Seq::new(v.len(), |i: int| v[i]@)
}

/// The place in the inventory that a slot of the screen shows.
pub open spec fn source_of(slot: int) -> Option<int> {
    if slot < 5 {
        None
    } else if slot < 9 {
        Some(44 - slot)
    } else if slot < 36 {
        Some(slot)
    } else if slot < 45 {
        Some(slot - 36)
    } else {
        Some(40)
    }
}

/// How many items of a stack a slot can hold.
pub open spec fn capacity(slot: int, s: StackVal) -> int {
    if 5 <= slot < 9 {
        1
    } else {
        smaller(MAX_SLOT_COUNT as int, max_stack_size(s))
    }
}

/// Slots, what is left of a stack, and whether any of it was moved.
pub struct Inserted {
    pub slots: Seq<StackVal>,
    pub stack: StackVal,
    pub moved: bool,
}

/// The `k`th of the slots from `lo` up to `hi`, from the first or from the last on.
pub open spec fn nth_slot(lo: int, hi: int, from_last: bool, k: int) -> int {
    if from_last {
        hi - 1 - k
    } else {
        lo + k
    }
}

/// A stack put on top of what a slot holds, where both are of the same kind.
pub open spec fn merge_at(x: Inserted, i: int) -> Inserted {
    let a = x.slots[i];
    let cap = capacity(i, a);
    if holds_nothing(a) || !items_same(a, x.stack) {
        x
    } else if a.count + x.stack.count <= cap {
        Inserted {
            slots: x.slots.update(i, with_count(a, a.count + x.stack.count)),
            stack: with_count(x.stack, 0),
            moved: true,
        }
    } else if a.count < cap {
        Inserted {
            slots: x.slots.update(i, with_count(a, cap)),
            stack: with_count(x.stack, x.stack.count - (cap - a.count)),
            moved: true,
        }
    } else {
        x
    }
}

/// A stack put on top of what slots hold, from the `k`th on.
pub open spec fn merge(x: Inserted, lo: int, hi: int, from_last: bool, k: int) -> Inserted
    decreases hi - lo - k,
{
    if k >= hi - lo || holds_nothing(x.stack) {
        x
    } else {
        merge(merge_at(x, nth_slot(lo, hi, from_last, k)), lo, hi, from_last, k + 1)
    }
}

/// A stack put into the first slot that is empty, from the `k`th on.
pub open spec fn fill(x: Inserted, lo: int, hi: int, from_last: bool, k: int) -> Inserted
    decreases hi - lo - k,
{
    if k >= hi - lo || holds_nothing(x.stack) {
        x
    } else {
        let i = nth_slot(lo, hi, from_last, k);
        if holds_nothing(x.slots[i]) {
            let n = smaller(x.stack.count, capacity(i, x.stack));
            Inserted { slots: x.slots.update(i, with_count(x.stack, n)), stack: with_count(x.stack, x.stack.count - n), moved: true }
        } else {
            fill(x, lo, hi, from_last, k + 1)
        }
    }
}

/// A stack put into slots: on top of what is of the same kind, then into one that is empty.
pub open spec fn insert(slots: Seq<StackVal>, s: StackVal, lo: int, hi: int, from_last: bool) -> Inserted {
    let x = Inserted { slots, stack: s, moved: false };
    fill(
        if max_stack_size(s) > 1 {
            merge(x, lo, hi, from_last, 0)
        } else {
            x
        },
        lo,
        hi,
        from_last,
        0,
    )
}

/// The first slot that is empty, from the `k`th on, where something is left to put there.
pub open spec fn free_place(x: Inserted, lo: int, hi: int, from_last: bool, k: int) -> Option<int>
    decreases hi - lo - k,
{
    if k >= hi - lo || holds_nothing(x.stack) {
        None
    } else if holds_nothing(x.slots[nth_slot(lo, hi, from_last, k)]) {
        Some(nth_slot(lo, hi, from_last, k))
    } else {
        free_place(x, lo, hi, from_last, k + 1)
    }
}

/// The slot into which a new stack comes when a stack is put into slots.
pub open spec fn insert_place(slots: Seq<StackVal>, s: StackVal, lo: int, hi: int, from_last: bool) -> Option<int> {
    let x = Inserted { slots, stack: s, moved: false };
    free_place(
        if max_stack_size(s) > 1 {
            merge(x, lo, hi, from_last, 0)
        } else {
            x
        },
        lo,
        hi,
        from_last,
        0,
    )
}

/// Numbers of stacks with that of a new one in its place.
pub open spec fn renumbered(n: Seq<int>, place: Option<int>, counter: u32) -> Seq<int> {
    match place {
        Some(i) => n.update(i, next_uid(counter)),
        None => n,
    }
}

/// The counter after a stack may have got a number.
pub open spec fn counted(place: Option<int>, counter: u32) -> u32 {
    match place {
        Some(_) => after_uid(counter),
        None => counter,
    }
}

/// Where a stack is worn, by its number.
pub open spec fn worn_at(s: StackVal) -> int {
    match value_in(s, DataComponent::Equippable) {
        Some(v) => as_int(first(v)),
        None => 0,
    }
}

/// Whether a place of the body takes armour.
pub open spec fn takes_armor(place: int) -> bool {
    1 <= place <= 4
}

/// The slots into which a stack goes, from which end they are tried, and what it means for what is
/// worn.
pub struct Route {
    pub lo: int,
    pub hi: int,
    pub from_last: bool,
    pub taken_off: bool,
    pub put_on: bool,
}

/// Slots that have nothing to do with what is worn.
pub open spec fn plain_route(lo: int, hi: int, from_last: bool) -> Route {
    Route { lo, hi, from_last, taken_off: false, put_on: false }
}

/// Where the stack in a slot goes.
pub open spec fn route(slots: Seq<StackVal>, i: int) -> Route {
    let place = worn_at(slots[i]);
    if i == 0 {
        plain_route(9, 45, true)
    } else if i < 5 {
        plain_route(9, 45, false)
    } else if i < 9 {
        Route { taken_off: true, ..plain_route(9, 45, false) }
    } else if takes_armor(place) && holds_nothing(slots[9 - place]) {
        Route { put_on: true, ..plain_route(9 - place, 10 - place, false) }
    } else if place == 5 && i != 45 && holds_nothing(slots[45]) {
        plain_route(45, 46, false)
    } else if i < 36 {
        plain_route(36, 45, false)
    } else if i < 45 {
        plain_route(9, 36, false)
    } else {
        plain_route(9, 45, false)
    }
}

/// What becomes of the stack in a slot that is sent to its route.
pub open spec fn sent(slots: Seq<StackVal>, i: int) -> Inserted {
    let w = route(slots, i);
    insert(slots, slots[i], w.lo, w.hi, w.from_last)
}

/// What has to be done about what is worn.
pub open spec fn worn_actions(slots: Seq<StackVal>, i: int, place: EquipmentSlot) -> Seq<ActionView> {
    let w = route(slots, i);
    if !sent(slots, i).moved {
        Seq::empty()
    } else if w.taken_off {
        seq![ActionView::EquipmentChange(place, None)]
    } else if w.put_on {
        seq![ActionView::EquipmentChange(place, Some(slots[i]))]
    } else {
        Seq::empty()
    }
}

/// What has to be done about the slot that items were taken from.
pub open spec fn taken_actions(slots: Seq<StackVal>, i: int) -> Seq<ActionView> {
    let left = sent(slots, i).stack;
    let taken = ActionView::TakeItem(i, with_count(slots[i], slots[i].count - left.count));
    if left.count == slots[i].count {
        Seq::empty()
    } else if i != 0 {
        seq![taken]
    } else if holds_nothing(left) {
        seq![taken, ActionView::Crafted(left, slots[i])]
    } else {
        seq![taken, ActionView::Crafted(left, slots[i]), ActionView::DropItem(left)]
    }
}

/// Whether a click on a slot empties it: nothing is left of the stack, or what is left of the result
/// of crafting falls to the ground.
pub open spec fn is_emptied(slots: Seq<StackVal>, i: int) -> bool {
    let left = sent(slots, i).stack;
    holds_nothing(left) || (i == 0 && left.count != slots[i].count)
}

/// Whether slots are those after a click on one: what was inserted, and what is left in the slot.
pub open spec fn is_sent(slots: Seq<StackVal>, i: int, after: Seq<StackVal>) -> bool {
    let x = sent(slots, i);
    after.len() == slots.len() && (forall|j: int| 0 <= j < slots.len() && j != i ==> #[trigger] after[j] == x.slots[j])
        && if is_emptied(slots, i) {
        is_nothing(after[i])
    } else {
        after[i] == x.stack
    }
}

/// The slot into which a new stack comes at a click on one.
pub open spec fn sent_place(slots: Seq<StackVal>, i: int) -> Option<int> {
    let w = route(slots, i);
    if holds_nothing(slots[i]) {
        None
    } else {
        insert_place(slots, slots[i], w.lo, w.hi, w.from_last)
    }
}

/// The numbers of the stacks in the slots after a click on one.
pub open spec fn sent_numbers(slots: Seq<StackVal>, i: int, n: Seq<int>, counter: u32) -> Seq<int> {
    let m = renumbered(n, sent_place(slots, i), counter);
    if !holds_nothing(slots[i]) && sent(slots, i).moved && is_emptied(slots, i) {
        m.update(i, i32::MIN as int)
    } else {
        m
    }
}

/// Whether this is what becomes of a click on a slot.
pub open spec fn is_quick_move(slots: Seq<StackVal>, i: int, after: Seq<StackVal>, r: QuickMove, place: EquipmentSlot) -> bool {
    if holds_nothing(slots[i]) || !sent(slots, i).moved {
        after == slots && r.moved is None && r.actions@.len() == 0
    } else {
        is_sent(slots, i, after) && action_views(r.actions@) == worn_actions(slots, i, place) + taken_actions(slots, i) && if sent(
            slots,
            i,
        ).stack.count == slots[i].count {
            r.moved is None
        } else {
            r.moved is Some && r.moved->0@ == slots[i]
        }
    }
}

/// A screen that is being closed: what its slots hold, what has fallen to the ground, their numbers,
/// and the counter of the numbers.
#[verifier::ext_equal]
pub struct Closing {
    pub slots: Seq<StackVal>,
    pub numbers: Seq<int>,
    pub fallen: Seq<StackVal>,
    pub fallen_numbers: Seq<int>,
    pub counter: u32,
}

/// A stack given back to the inventory: it goes where there is room, and what is left of it falls.
pub open spec fn give_back(c: Closing, s: StackVal, uid: int) -> Closing {
    if holds_nothing(s) {
        c
    } else {
        let x = insert(c.slots, s, 9, 45, false);
        let place = insert_place(c.slots, s, 9, 45, false);
        Closing {
            slots: x.slots,
            numbers: renumbered(c.numbers, place, c.counter),
            fallen: if holds_nothing(x.stack) {
                c.fallen
            } else {
                c.fallen.push(x.stack)
            },
            fallen_numbers: if holds_nothing(x.stack) {
                c.fallen_numbers
            } else {
                c.fallen_numbers.push(uid)
            },
            counter: counted(place, c.counter),
        }
    }
}

/// What the cursor carries and what lies in the slots for crafting before the one with a number given
/// back, with their numbers.
pub open spec fn give_all_back(
    slots: Seq<StackVal>,
    n: Seq<int>,
    cursor: StackVal,
    cursor_uid: int,
    counter: u32,
    end: int,
) -> Closing
    decreases end,
{
    if end <= 1 {
        give_back(
            Closing { slots, numbers: n, fallen: Seq::empty(), fallen_numbers: Seq::empty(), counter },
            cursor,
            cursor_uid,
        )
    } else {
        give_back(give_all_back(slots, n, cursor, cursor_uid, counter, end - 1), slots[end - 1], n[end - 1])
    }
}

/// What a screen that is being closed has come to.
spec fn closing(slots: Seq<ItemStack>, fallen: Seq<ItemStack>, counter: u32) -> Closing {
    Closing { slots: held(slots), numbers: numbers(slots), fallen: held(fallen), fallen_numbers: numbers(fallen), counter }
}

impl EquipmentSlot {
    /// Where a stack is worn.
    pub fn of_stack(s: &ItemStack) -> (r: Self)
        ensures
            equipment_slot_id(r) == worn_at(s@),
    {
        match s.get_data_component::<EquippableImpl>() {
            Some(v) => {
                proof {
                    EquippableImpl::lemma_value(*v);
                }
                v.slot
            },
            None => EquipmentSlot::MainHand,
        }
    }
}

proof fn lemma_slot_ids(a: EquipmentSlot, b: EquipmentSlot)
    ensures
        equipment_slot_id(a) == equipment_slot_id(b) ==> a == b,
        0 <= equipment_slot_id(a) <= 7,
{
}

/// How many items of a stack a slot can hold.
fn slot_capacity(slot: usize, s: &ItemStack) -> (r: u8)
    ensures
        r == capacity(slot as int, s@),
{
    if 5 <= slot && slot < 9 {
        1
    } else {
        let n: u8 = s.get_max_stack_size();
        if MAX_SLOT_COUNT < n {
            MAX_SLOT_COUNT
        } else {
            n
        }
    }
}

impl PlayerScreenHandler {
    /// Whether the screen has all its slots.
    pub open spec fn valid(&self) -> bool {
        self.slots@.len() == SLOT_COUNT
    }

    /// Whether a slot is one of the hotbar.
    pub fn is_in_hotbar(slot: u8) -> (r: bool)
        ensures
            r == (36 <= slot <= 44),
    {
        36 <= slot && slot <= 44
    }

    /// The screen that shows an inventory.
    pub fn new(inventory: &Vec<ItemStack>, sync_id: u8) -> (r: Self)
        requires
            inventory@.len() == INVENTORY_SIZE,
        ensures
            r.valid(),
            r.sync_id == sync_id,
            forall|i: int|
                0 <= i < SLOT_COUNT ==> match source_of(i) {
                    Some(j) => (#[trigger] r.slots@[i])@ == inventory@[j]@ && r.slots@[i].uid == inventory@[j].uid,
                    None => is_nothing(r.slots@[i]@) && r.slots@[i].uid == i32::MIN,
                },
            is_nothing(r.cursor_stack@),
            r.cursor_stack.uid == i32::MIN,
    {
        let mut slots: Vec<ItemStack> = Vec::new();
        let mut i: usize = 0;
        while i < SLOT_COUNT
            invariant
                i <= SLOT_COUNT,
                slots@.len() == i,
                inventory@.len() == INVENTORY_SIZE,
                forall|k: int|
                    0 <= k < i ==> match source_of(k) {
                        Some(j) => (#[trigger] slots@[k])@ == inventory@[j]@ && slots@[k].uid == inventory@[j].uid,
                        None => is_nothing(slots@[k]@) && slots@[k].uid == i32::MIN,
                    },
            decreases SLOT_COUNT - i,
        {
            if i < 5 {
                slots.push(ItemStack::empty());
            } else if i < 9 {
                slots.push(inventory[44 - i].copy());
            } else if i < 36 {
                slots.push(inventory[i].copy());
            } else if i < 45 {
                slots.push(inventory[i - 36].copy());
            } else {
                slots.push(inventory[40].copy());
            }
            i += 1;
        }
        PlayerScreenHandler { sync_id, slots, cursor_stack: ItemStack::empty() }
    }

    /// What a slot holds.
    pub fn get_slot(&self, slot: usize) -> (r: &ItemStack)
        requires
            slot < self.slots@.len(),
        ensures
            *r == self.slots@[slot as int],
    {
        &self.slots[slot]
    }

    /// Puts a stack into slots, and says whether any of it was moved.
    pub fn insert_item(&mut self, stack: &mut ItemStack, lo: usize, hi: usize, from_last: bool, ids: &mut ItemStackIdGenerator) -> (r: bool)
        requires
            lo <= hi <= old(self).slots@.len(),
        ensures
            ({
                let x = insert(held(old(self).slots@), old(stack)@, lo as int, hi as int, from_last);
                held(final(self).slots@) == x.slots && final(stack)@ == x.stack && r == x.moved
            }),
            ({
                let place = insert_place(held(old(self).slots@), old(stack)@, lo as int, hi as int, from_last);
                &&& numbers(final(self).slots@) == renumbered(numbers(old(self).slots@), place, old(ids).counter)
                &&& final(ids).counter == counted(place, old(ids).counter)
            }),
            final(stack).uid == old(stack).uid,
            final(self).sync_id == old(self).sync_id,
            final(self).cursor_stack == old(self).cursor_stack,
    {
        let ghost start = Inserted { slots: held(self.slots@), stack: stack@, moved: false };
        let mut moved: bool = false;
        if stack.is_stackable() {
            moved = self.merge_item(stack, lo, hi, from_last);
        }
        let ghost x = Inserted { slots: held(self.slots@), stack: stack@, moved };
        assert(x == if max_stack_size(start.stack) > 1 {
            merge(start, lo as int, hi as int, from_last, 0)
        } else {
            start
        });
        let n: usize = hi - lo;
        let mut k: usize = 0;
        while k < n && !stack.is_empty()
            invariant
                k <= n,
                n == hi - lo,
                hi <= self.slots@.len(),
                self.sync_id == old(self).sync_id,
                self.cursor_stack == old(self).cursor_stack,
                stack.uid == old(stack).uid,
                ids.counter == old(ids).counter,
                numbers(self.slots@) == numbers(old(self).slots@),
                insert_place(held(old(self).slots@), old(stack)@, lo as int, hi as int, from_last) == free_place(
                    x,
                    lo as int,
                    hi as int,
                    from_last,
                    k as int,
                ),
                x == (Inserted { slots: held(self.slots@), stack: stack@, moved }),
                insert(held(old(self).slots@), old(stack)@, lo as int, hi as int, from_last) == fill(
                    x,
                    lo as int,
                    hi as int,
                    from_last,
                    k as int,
                ),
            decreases n - k,
        {
            let i: usize = if from_last {
                hi - 1 - k
            } else {
                lo + k
            };
            assert(held(self.slots@)[i as int] == self.slots@[i as int]@);
            if self.slots[i].is_empty() {
                let ghost before = held(self.slots@);
                let cap: u8 = slot_capacity(i, stack);
                let part = stack.split(cap, ids);
                let ghost p = part@;
                let ghost n = numbers(self.slots@);
                let ghost u = part.uid as int;
                self.slots.set(i, part);
                assert(held(self.slots@) =~= before.update(i as int, p));
                assert(numbers(self.slots@) =~= n.update(i as int, u));
                return true;
            }
            k += 1;
        }
        moved
    }

    /// Puts a stack on top of what slots hold.
    fn merge_item(&mut self, stack: &mut ItemStack, lo: usize, hi: usize, from_last: bool) -> (r: bool)
        requires
            lo <= hi <= old(self).slots@.len(),
        ensures
            (Inserted { slots: held(final(self).slots@), stack: final(stack)@, moved: r }) == merge(
                (Inserted { slots: held(old(self).slots@), stack: old(stack)@, moved: false }),
                lo as int,
                hi as int,
                from_last,
                0,
            ),
            final(self).slots@.len() == old(self).slots@.len(),
            numbers(final(self).slots@) == numbers(old(self).slots@),
            final(stack).uid == old(stack).uid,
            final(self).sync_id == old(self).sync_id,
            final(self).cursor_stack == old(self).cursor_stack,
    {
        let mut moved: bool = false;
        let n: usize = hi - lo;
        let ghost all = merge(
            (Inserted { slots: held(self.slots@), stack: stack@, moved: false }),
            lo as int,
            hi as int,
            from_last,
            0,
        );
        let mut k: usize = 0;
        while k < n && !stack.is_empty()
            invariant
                k <= n,
                n == hi - lo,
                hi <= self.slots@.len(),
                self.slots@.len() == old(self).slots@.len(),
                numbers(self.slots@) == numbers(old(self).slots@),
                stack.uid == old(stack).uid,
                self.sync_id == old(self).sync_id,
                self.cursor_stack == old(self).cursor_stack,
                all == merge(
                    (Inserted { slots: held(old(self).slots@), stack: old(stack)@, moved: false }),
                    lo as int,
                    hi as int,
                    from_last,
                    0,
                ),
                all == merge(
                    (Inserted { slots: held(self.slots@), stack: stack@, moved }),
                    lo as int,
                    hi as int,
                    from_last,
                    k as int,
                ),
            decreases n - k,
        {
            let i: usize = if from_last {
                hi - 1 - k
            } else {
                lo + k
            };
            let ghost x = Inserted { slots: held(self.slots@), stack: stack@, moved };
            assert(x.slots[i as int] == self.slots@[i as int]@);
            if !self.slots[i].is_empty() && self.slots[i].are_items_and_components_equal(stack) {
                let cap: u8 = slot_capacity(i, &self.slots[i]);
                let there: u8 = self.slots[i].item_count;
                let sum: u16 = there as u16 + stack.item_count as u16;
                if sum <= cap as u16 {
                    self.set_slot_count(i, sum as u8);
                    stack.set_count(0);
                    moved = true;
                } else if there < cap {
                    stack.set_count(stack.item_count - (cap - there));
                    self.set_slot_count(i, cap);
                    moved = true;
                }
            }
            assert((Inserted { slots: held(self.slots@), stack: stack@, moved }) == merge_at(x, i as int));
            k += 1;
        }
        moved
    }

    /// Sets the count of what a slot holds.
    fn set_slot_count(&mut self, i: usize, count: u8)
        requires
            i < old(self).slots@.len(),
        ensures
            held(final(self).slots@) == held(old(self).slots@).update(i as int, with_count(old(self).slots@[i as int]@, count as int)),
            final(self).slots@.len() == old(self).slots@.len(),
            numbers(final(self).slots@) == numbers(old(self).slots@),
            final(self).sync_id == old(self).sync_id,
            final(self).cursor_stack == old(self).cursor_stack,
    {
        let ghost before = held(self.slots@);
        let s = &mut self.slots[i];
        s.item_count = count;
        assert(numbers(self.slots@) =~= numbers(old(self).slots@));
        assert(held(self.slots@) =~= before.update(i as int, with_count(before[i as int], count as int)));
    }

    /// Gives a stack back to the inventory; what finds no room is put behind `fallen`.
    fn offer(&mut self, mut stack: ItemStack, fallen: &mut Vec<ItemStack>, ids: &mut ItemStackIdGenerator)
        requires
            old(self).valid(),
        ensures
            final(self).valid(),
            final(self).sync_id == old(self).sync_id,
            final(self).cursor_stack == old(self).cursor_stack,
            closing(final(self).slots@, final(fallen)@, final(ids).counter) == give_back(
                closing(old(self).slots@, old(fallen)@, old(ids).counter),
                stack@,
                stack.uid as int,
            ),
    {
        if stack.is_empty() {
            return ;
        }
        let ghost before = closing(self.slots@, fallen@, ids.counter);
        let ghost given = stack@;
        self.insert_item(&mut stack, 9, 45, false, ids);
        proof {
            lemma_insert_len(before.slots, given, 9, 45, false);
        }
        assert(held(self.slots@).len() == self.slots@.len());
        if !stack.is_empty() {
            let ghost s = stack@;
            let ghost u = stack.uid as int;
            fallen.push(stack);
            assert(held(fallen@) =~= before.fallen.push(s));
            assert(numbers(fallen@) =~= before.fallen_numbers.push(u));
        }
    }

    /// Closes the screen: what the cursor carries and what lies in the slots for crafting goes back to
    /// the inventory, and what finds no room there is returned, to fall to the ground.
    pub fn on_closed(&mut self, ids: &mut ItemStackIdGenerator) -> (r: Vec<ItemStack>)
        requires
            old(self).valid(),
        ensures
            final(self).valid(),
            final(self).sync_id == old(self).sync_id,
            is_nothing(final(self).cursor_stack@),
            final(self).cursor_stack.uid == i32::MIN,
            ({
                let c = give_all_back(
                    held(old(self).slots@),
                    numbers(old(self).slots@),
                    old(self).cursor_stack@,
                    old(self).cursor_stack.uid as int,
                    old(ids).counter,
                    5,
                );
                &&& held(r@) == c.fallen
                &&& numbers(r@) == c.fallen_numbers
                &&& final(ids).counter == c.counter
                &&& forall|i: int|
                    0 <= i < SLOT_COUNT ==> if 1 <= i < 5 {
                        is_nothing((#[trigger] final(self).slots@[i])@) && final(self).slots@[i].uid == i32::MIN
                    } else {
                        final(self).slots@[i]@ == c.slots[i] && final(self).slots@[i].uid == c.numbers[i]
                    }
            }),
    {
        let ghost slots = held(self.slots@);
        let ghost n = numbers(self.slots@);
        let ghost cursor = self.cursor_stack@;
        let ghost uid = self.cursor_stack.uid as int;
        let ghost counter = ids.counter;
        let mut out: Vec<ItemStack> = Vec::new();
        assert(held(out@) =~= Seq::empty());
        assert(numbers(out@) =~= Seq::empty());
        let carried = self.cursor_stack.copy();
        self.cursor_stack = ItemStack::empty();
        self.offer(carried, &mut out, ids);
        let mut i: usize = 1;
        proof {
            lemma_given_elsewhere(slots, n, cursor, uid, counter, 1);
        }
        while i < 5
            invariant
                1 <= i <= 5,
                self.valid(),
                self.sync_id == old(self).sync_id,
                is_nothing(self.cursor_stack@),
                self.cursor_stack.uid == i32::MIN,
                slots == held(old(self).slots@),
                n == numbers(old(self).slots@),
                slots.len() == SLOT_COUNT,
                closing(self.slots@, out@, ids.counter) == give_all_back(slots, n, cursor, uid, counter, i as int),
            decreases 5 - i,
        {
            proof {
                lemma_given_elsewhere(slots, n, cursor, uid, counter, i as int);
            }
            assert(held(self.slots@)[i as int] == self.slots@[i as int]@);
            assert(numbers(self.slots@)[i as int] == self.slots@[i as int].uid);
            let stack = self.slots[i].copy();
            self.offer(stack, &mut out, ids);
            i += 1;
        }
        let ghost c = give_all_back(slots, n, cursor, uid, counter, 5);
        assert forall|k: int| 0 <= k < SLOT_COUNT implies (#[trigger] self.slots@[k])@ == c.slots[k] && self.slots@[k].uid == c.numbers[k] by {
            assert(held(self.slots@)[k] == self.slots@[k]@);
            assert(numbers(self.slots@)[k] == self.slots@[k].uid);
        }
        let mut k: usize = 1;
        while k < 5
            invariant
                1 <= k <= 5,
                self.valid(),
                self.sync_id == old(self).sync_id,
                is_nothing(self.cursor_stack@),
                self.cursor_stack.uid == i32::MIN,
                forall|j: int|
                    0 <= j < SLOT_COUNT ==> if 1 <= j < k {
                        is_nothing((#[trigger] self.slots@[j])@) && self.slots@[j].uid == i32::MIN
                    } else {
                        self.slots@[j]@ == c.slots[j] && self.slots@[j].uid == c.numbers[j]
                    },
            decreases 5 - k,
        {
            self.slots.set(k, ItemStack::empty());
            k += 1;
        }
        out
    }

    /// Moves the stack in a slot to where it belongs, as a click with the shift key does.
    #[verifier::rlimit(60)]
    pub fn quick_move(&mut self, slot_index: usize, ids: &mut ItemStackIdGenerator) -> (r: QuickMove)
        requires
            old(self).valid(),
            slot_index < SLOT_COUNT,
        ensures
            final(self).valid(),
            final(self).sync_id == old(self).sync_id,
            exists|place: EquipmentSlot|
                equipment_slot_id(place) == worn_at(old(self).slots@[slot_index as int]@) && #[trigger] is_quick_move(
                    held(old(self).slots@),
                    slot_index as int,
                    held(final(self).slots@),
                    r,
                    place,
                ),
            numbers(final(self).slots@) == sent_numbers(
                held(old(self).slots@),
                slot_index as int,
                numbers(old(self).slots@),
                old(ids).counter,
            ),
            final(ids).counter == counted(sent_place(held(old(self).slots@), slot_index as int), old(ids).counter),
            r.moved matches Some(s) ==> s.uid == old(self).slots@[slot_index as int].uid,
            forall|k: int|
                0 <= k < r.actions@.len() ==> all_numbered(#[trigger] r.actions@[k], old(self).slots@[slot_index as int].uid),
            final(self).cursor_stack == old(self).cursor_stack,
    {
        let ghost slots = held(self.slots@);
        let ghost i = slot_index as int;
        let place = EquipmentSlot::of_stack(&self.slots[slot_index]);
        proof {
            lemma_slot_ids(place, place);
        }
        assert(slots[i] == self.slots@[i]@);
        if self.slots[slot_index].is_empty() {
            let r = QuickMove { moved: None, actions: Vec::new() };
            assert(is_quick_move(slots, i, held(self.slots@), r, place));
            return r;
        }
        let size: u8 = self.slots[slot_index].get_max_stack_size();
        assert(max_stack_size(slots[i]) == size);
        let mut stack = self.slots[slot_index].copy();
        let stack_prev = self.slots[slot_index].copy();
        let number: usize = match place {
            EquipmentSlot::MainHand => 0,
            EquipmentSlot::Feet => 1,
            EquipmentSlot::Legs => 2,
            EquipmentSlot::Chest => 3,
            EquipmentSlot::Head => 4,
            EquipmentSlot::OffHand => 5,
            EquipmentSlot::Body => 6,
            EquipmentSlot::Saddle => 7,
        };
        assert(number == worn_at(slots[i]));
        let (lo, hi, from_last, taken_off, put_on): (usize, usize, bool, bool, bool) = if slot_index == 0 {
            (9, 45, true, false, false)
        } else if slot_index < 5 {
            (9, 45, false, false, false)
        } else if slot_index < 9 {
            (9, 45, false, true, false)
        } else if 1 <= number && number <= 4 && self.slots[9 - number].is_empty() {
            (9 - number, 10 - number, false, false, true)
        } else if number == 5 && slot_index != 45 && self.slots[45].is_empty() {
            (45, 46, false, false, false)
        } else if slot_index < 36 {
            (36, 45, false, false, false)
        } else if slot_index < 45 {
            (9, 36, false, false, false)
        } else {
            (9, 45, false, false, false)
        };
        assert(forall|j: int| 0 <= j < SLOT_COUNT ==> slots[j] == (#[trigger] self.slots@[j])@);
        assert(route(slots, i) == (Route { lo: lo as int, hi: hi as int, from_last, taken_off, put_on }));
        let ghost x = sent(slots, i);
        let moved: bool = self.insert_item(&mut stack, lo, hi, from_last, ids);
        proof {
            lemma_insert_len(slots, slots[i], lo as int, hi as int, from_last);
            lemma_insert_place(slots, slots[i], lo as int, hi as int, from_last);
        }
        let mut actions: Vec<PlayerAction> = Vec::new();
        if !moved {
            proof {
                lemma_nothing_moved(slots, slots[i], lo as int, hi as int, from_last);
            }
            let r = QuickMove { moved: None, actions };
            assert(is_quick_move(slots, i, held(self.slots@), r, place));
            return r;
        }
        if taken_off {
            actions.push(PlayerAction::EquipmentChange(place, None));
        } else if put_on {
            actions.push(PlayerAction::EquipmentChange(place, Some(stack_prev.copy())));
        }
        assert(action_views(actions@) =~= worn_actions(slots, i, place));
        let ghost n = numbers(self.slots@);
        if stack.is_empty() || (slot_index == 0 && stack.item_count != stack_prev.item_count) {
            self.slots.set(slot_index, ItemStack::empty());
            assert(numbers(self.slots@) =~= n.update(i, i32::MIN as int));
        } else {
            self.slots.set(slot_index, stack.copy());
            assert(numbers(self.slots@) =~= n);
        }
        assert(is_sent(slots, i, held(self.slots@)));
        if stack.item_count == stack_prev.item_count {
            let r = QuickMove { moved: None, actions };
            assert(action_views(actions@) =~= worn_actions(slots, i, place) + taken_actions(slots, i));
            assert(is_quick_move(slots, i, held(self.slots@), r, place));
            return r;
        }
        proof {
            lemma_insert_bounds(slots, slots[i], lo as int, hi as int, from_last);
        }
        let ghost before = action_views(actions@);
        let mut taken = stack_prev.copy();
        taken.set_count(stack_prev.item_count - stack.item_count);
        actions.push(PlayerAction::TakeItem(slot_index, taken));
        if slot_index == 0 {
            actions.push(PlayerAction::Crafted(stack.copy(), stack_prev.copy()));
            if !stack.is_empty() {
                actions.push(PlayerAction::DropItem(stack));
            }
        }
        assert(action_views(actions@) =~= before + taken_actions(slots, i));
        let r = QuickMove { moved: Some(stack_prev), actions };
        assert(is_quick_move(slots, i, held(self.slots@), r, place));
        r
    }
}

proof fn lemma_free_place(x: Inserted, lo: int, hi: int, from_last: bool, k: int)
    requires
        0 <= k,
    ensures
        free_place(x, lo, hi, from_last, k) matches Some(i) ==> lo <= i < hi && fill(x, lo, hi, from_last, k).moved,
        free_place(x, lo, hi, from_last, k) is None ==> fill(x, lo, hi, from_last, k) == x,
    decreases hi - lo - k,
{
    if k < hi - lo && !holds_nothing(x.stack) {
        if !holds_nothing(x.slots[nth_slot(lo, hi, from_last, k)]) {
            lemma_free_place(x, lo, hi, from_last, k + 1);
        }
    }
}

/// A new stack comes only into one of the slots that are tried, and then something was moved.
proof fn lemma_insert_place(slots: Seq<StackVal>, s: StackVal, lo: int, hi: int, from_last: bool)
    ensures
        insert_place(slots, s, lo, hi, from_last) matches Some(i) ==> lo <= i < hi && insert(slots, s, lo, hi, from_last).moved,
{
    let x = Inserted { slots, stack: s, moved: false };
    let y = if max_stack_size(s) > 1 {
        merge(x, lo, hi, from_last, 0)
    } else {
        x
    };
    lemma_free_place(y, lo, hi, from_last, 0);
}

proof fn lemma_merge_elsewhere(x: Inserted, lo: int, hi: int, from_last: bool, k: int, i: int)
    requires
        0 <= lo <= hi <= x.slots.len(),
        0 <= k,
        0 <= i < lo || hi <= i < x.slots.len(),
    ensures
        merge(x, lo, hi, from_last, k).slots[i] == x.slots[i],
        merge(x, lo, hi, from_last, k).slots.len() == x.slots.len(),
    decreases hi - lo - k,
{
    if k < hi - lo && !holds_nothing(x.stack) {
        lemma_merge_elsewhere(merge_at(x, nth_slot(lo, hi, from_last, k)), lo, hi, from_last, k + 1, i);
    }
}

proof fn lemma_fill_elsewhere(x: Inserted, lo: int, hi: int, from_last: bool, k: int, i: int)
    requires
        0 <= lo <= hi <= x.slots.len(),
        0 <= k,
        0 <= i < lo || hi <= i < x.slots.len(),
    ensures
        fill(x, lo, hi, from_last, k).slots[i] == x.slots[i],
        fill(x, lo, hi, from_last, k).slots.len() == x.slots.len(),
    decreases hi - lo - k,
{
    if k < hi - lo && !holds_nothing(x.stack) {
        if !holds_nothing(x.slots[nth_slot(lo, hi, from_last, k)]) {
            lemma_fill_elsewhere(x, lo, hi, from_last, k + 1, i);
        }
    }
}

/// Putting a stack into slots leaves the others.
pub proof fn lemma_insert_elsewhere(slots: Seq<StackVal>, s: StackVal, lo: int, hi: int, from_last: bool, i: int)
    requires
        0 <= lo <= hi <= slots.len(),
        0 <= i < lo || hi <= i < slots.len(),
    ensures
        insert(slots, s, lo, hi, from_last).slots[i] == slots[i],
        insert(slots, s, lo, hi, from_last).slots.len() == slots.len(),
{
    let x = Inserted { slots, stack: s, moved: false };
    let y = if max_stack_size(s) > 1 {
        merge(x, lo, hi, from_last, 0)
    } else {
        x
    };
    lemma_merge_elsewhere(x, lo, hi, from_last, 0, i);
    lemma_fill_elsewhere(y, lo, hi, from_last, 0, i);
}

/// Giving stacks back to the inventory leaves the slots before it.
pub proof fn lemma_given_elsewhere(slots: Seq<StackVal>, n: Seq<int>, cursor: StackVal, uid: int, counter: u32, end: int)
    requires
        slots.len() == SLOT_COUNT,
        n.len() == SLOT_COUNT,
    ensures
        ({
            let c = give_all_back(slots, n, cursor, uid, counter, end);
            &&& c.slots.len() == SLOT_COUNT
            &&& c.numbers.len() == SLOT_COUNT
            &&& forall|j: int| 0 <= j < 9 ==> #[trigger] c.slots[j] == slots[j]
            &&& forall|j: int| 0 <= j < 9 ==> #[trigger] c.numbers[j] == n[j]
        }),
    decreases end,
{
    let c = if end <= 1 {
        Closing { slots, numbers: n, fallen: Seq::empty(), fallen_numbers: Seq::empty(), counter }
    } else {
        give_all_back(slots, n, cursor, uid, counter, end - 1)
    };
    let s = if end <= 1 {
        cursor
    } else {
        slots[end - 1]
    };
    if end > 1 {
        lemma_given_elsewhere(slots, n, cursor, uid, counter, end - 1);
    }
    lemma_insert_elsewhere(c.slots, s, 9, 45, false, 0);
    lemma_insert_place(c.slots, s, 9, 45, false);
    assert forall|j: int| 0 <= j < 9 implies #[trigger] insert(c.slots, s, 9, 45, false).slots[j] == slots[j] by {
        lemma_insert_elsewhere(c.slots, s, 9, 45, false, j);
    }
}

proof fn lemma_merge_len(x: Inserted, lo: int, hi: int, from_last: bool, k: int)
    requires
        0 <= lo <= hi <= x.slots.len(),
        0 <= k,
    ensures
        merge(x, lo, hi, from_last, k).slots.len() == x.slots.len(),
    decreases hi - lo - k,
{
    if k < hi - lo && !holds_nothing(x.stack) {
        lemma_merge_len(merge_at(x, nth_slot(lo, hi, from_last, k)), lo, hi, from_last, k + 1);
    }
}

proof fn lemma_fill_len(x: Inserted, lo: int, hi: int, from_last: bool, k: int)
    requires
        0 <= lo <= hi <= x.slots.len(),
        0 <= k,
    ensures
        fill(x, lo, hi, from_last, k).slots.len() == x.slots.len(),
    decreases hi - lo - k,
{
    if k < hi - lo && !holds_nothing(x.stack) {
        if !holds_nothing(x.slots[nth_slot(lo, hi, from_last, k)]) {
            lemma_fill_len(x, lo, hi, from_last, k + 1);
        }
    }
}

proof fn lemma_insert_len(slots: Seq<StackVal>, s: StackVal, lo: int, hi: int, from_last: bool)
    requires
        0 <= lo <= hi <= slots.len(),
    ensures
        insert(slots, s, lo, hi, from_last).slots.len() == slots.len(),
{
    let x = Inserted { slots, stack: s, moved: false };
    lemma_merge_len(x, lo, hi, from_last, 0);
    lemma_fill_len(merge(x, lo, hi, from_last, 0), lo, hi, from_last, 0);
    lemma_fill_len(x, lo, hi, from_last, 0);
}

proof fn lemma_merge_moved(x: Inserted, lo: int, hi: int, from_last: bool, k: int)
    ensures
        x.moved ==> merge(x, lo, hi, from_last, k).moved,
        !merge(x, lo, hi, from_last, k).moved ==> merge(x, lo, hi, from_last, k) == x,
    decreases hi - lo - k,
{
    if k < hi - lo && !holds_nothing(x.stack) {
        lemma_merge_moved(merge_at(x, nth_slot(lo, hi, from_last, k)), lo, hi, from_last, k + 1);
    }
}

proof fn lemma_fill_moved(x: Inserted, lo: int, hi: int, from_last: bool, k: int)
    ensures
        x.moved ==> fill(x, lo, hi, from_last, k).moved,
        !fill(x, lo, hi, from_last, k).moved ==> fill(x, lo, hi, from_last, k) == x,
    decreases hi - lo - k,
{
    if k < hi - lo && !holds_nothing(x.stack) {
        if !holds_nothing(x.slots[nth_slot(lo, hi, from_last, k)]) {
            lemma_fill_moved(x, lo, hi, from_last, k + 1);
        }
    }
}

/// Where nothing was moved, the slots and the stack are as they were.
pub proof fn lemma_nothing_moved(slots: Seq<StackVal>, s: StackVal, lo: int, hi: int, from_last: bool)
    requires
        !insert(slots, s, lo, hi, from_last).moved,
    ensures
        insert(slots, s, lo, hi, from_last).slots == slots,
        insert(slots, s, lo, hi, from_last).stack == s,
{
    let x = Inserted { slots, stack: s, moved: false };
    let y = if max_stack_size(s) > 1 {
        merge(x, lo, hi, from_last, 0)
    } else {
        x
    };
    lemma_merge_moved(x, lo, hi, from_last, 0);
    lemma_fill_moved(y, lo, hi, from_last, 0);
}

proof fn lemma_merge_bounds(x: Inserted, lo: int, hi: int, from_last: bool, k: int)
    requires
        x.stack.count >= 0,
    ensures
        0 <= merge(x, lo, hi, from_last, k).stack.count <= x.stack.count,
        merge(x, lo, hi, from_last, k).stack == with_count(x.stack, merge(x, lo, hi, from_last, k).stack.count),
    decreases hi - lo - k,
{
    if k < hi - lo && !holds_nothing(x.stack) {
        let i = nth_slot(lo, hi, from_last, k);
        lemma_merge_bounds(merge_at(x, i), lo, hi, from_last, k + 1);
    }
}

proof fn lemma_fill_bounds(x: Inserted, lo: int, hi: int, from_last: bool, k: int)
    requires
        x.stack.count >= 0,
        max_stack_size(x.stack) >= 0,
    ensures
        0 <= fill(x, lo, hi, from_last, k).stack.count <= x.stack.count,
        fill(x, lo, hi, from_last, k).stack == with_count(x.stack, fill(x, lo, hi, from_last, k).stack.count),
    decreases hi - lo - k,
{
    if k < hi - lo && !holds_nothing(x.stack) {
        if !holds_nothing(x.slots[nth_slot(lo, hi, from_last, k)]) {
            lemma_fill_bounds(x, lo, hi, from_last, k + 1);
        }
    }
}

proof fn lemma_insert_bounds(slots: Seq<StackVal>, s: StackVal, lo: int, hi: int, from_last: bool)
    requires
        s.count >= 0,
        max_stack_size(s) >= 0,
    ensures
        0 <= insert(slots, s, lo, hi, from_last).stack.count <= s.count,
{
    let x = Inserted { slots, stack: s, moved: false };
    lemma_merge_bounds(x, lo, hi, from_last, 0);
    let y = if max_stack_size(s) > 1 {
        merge(x, lo, hi, from_last, 0)
    } else {
        x
    };
    assert(max_stack_size(y.stack) == max_stack_size(s));
    lemma_fill_bounds(y, lo, hi, from_last, 0);
}

} // verus!
