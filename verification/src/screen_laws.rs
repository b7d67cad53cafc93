//! Where stacks go on the screen of a player's inventory.
use vstd::prelude::*;
use crate::codec::DataComponentCodec;
use crate::data_component::DataComponent;
use crate::equipment::{equipment_slot_id, EquipmentSlot, EquippableImpl};
use crate::format::StackVal;
use crate::item_stack::{after_uid, next_uid};
use crate::same::items_same;
use crate::screen::{
    action_views, counted, fill, free_place, give_all_back, insert, insert_place, is_quick_move, merge, merge_at, nth_slot, renumbered, route, sent, sent_numbers, sent_place, source_of, worn_at, ActionView, Inserted, QuickMove,
    SLOT_COUNT,
};
use crate::stack::{holds_nothing, is_nothing, value_in};
use crate::stack_use::max_stack_size;

verus! {

/// Whether the slot `j` of those from `lo` up to `hi` comes before the slot `m`.
pub open spec fn comes_before(from_last: bool, j: int, m: int) -> bool {
    if from_last {
        m < j
    } else {
        j < m
    }
}

/// Whether a slot from `lo` up to `hi` comes at the `k`th place or later.
spec fn still_ahead(lo: int, hi: int, from_last: bool, k: int, j: int) -> bool {
    if from_last {
        lo <= j <= hi - 1 - k
    } else {
        lo + k <= j < hi
    }
}

/// The most items of a stack that a slot holds: one piece of armour, and elsewhere no more than the
/// stack allows and than 99.
pub open spec fn most_in(slot: int, s: StackVal) -> int {
    if slot == 5 || slot == 6 || slot == 7 || slot == 8 {
        1
    } else if max_stack_size(s) >= 99 {
        99
    } else {
        max_stack_size(s)
    }
}

/// What putting a stack on top of others made of the slots and of the stack.
spec fn is_merged(x: Inserted, y: Inserted, lo: int, hi: int, from_last: bool, k: int) -> bool {
    &&& y.slots.len() == x.slots.len()
    &&& y.stack == (StackVal { count: y.stack.count, ..x.stack })
    &&& 0 <= y.stack.count <= x.stack.count
    &&& (y.moved == (x.moved || y.slots != x.slots))
    &&& (y.slots == x.slots ==> y == x)
    &&& forall|j: int|
        0 <= j < x.slots.len() ==> {
            let b = #[trigger] y.slots[j];
            let a = x.slots[j];
            &&& b == (StackVal { count: b.count, ..a })
            &&& (b != a ==> still_ahead(lo, hi, from_last, k, j) && !holds_nothing(a) && items_same(a, x.stack) && a.count < b.count
                && b.count <= most_in(j, a))
        }
    &&& (!holds_nothing(y.stack) ==> forall|j: int|
        still_ahead(lo, hi, from_last, k, j) && !holds_nothing(x.slots[j]) && items_same(x.slots[j], x.stack) ==> (#[trigger] y.slots[j]).count
            >= most_in(j, x.slots[j]))
    &&& forall|j: int, m: int|
        still_ahead(lo, hi, from_last, k, j) && !holds_nothing(x.slots[j]) && items_same(x.slots[j], x.stack) && comes_before(from_last, j, m)
            && 0 <= m < x.slots.len() && #[trigger] y.slots[m] != x.slots[m] ==> (#[trigger] y.slots[j]).count >= most_in(j, x.slots[j])
}

proof fn lemma_merged_at(x: Inserted, lo: int, hi: int, from_last: bool, k: int)
    requires
        0 <= lo <= hi <= x.slots.len(),
        0 <= k < hi - lo,
        x.stack.count > 0,
        forall|j: int| 0 <= j < x.slots.len() ==> (#[trigger] x.slots[j]).count >= 0,
    ensures
        ({
            let i = nth_slot(lo, hi, from_last, k);
            let y = merge_at(x, i);
            let b = y.slots[i];
            let a = x.slots[i];
            &&& 0 <= i < x.slots.len()
            &&& y.slots == x.slots.update(i, b)
            &&& y.stack == (StackVal { count: y.stack.count, ..x.stack })
            &&& 0 <= y.stack.count <= x.stack.count
            &&& (y.moved == (x.moved || b != a))
            &&& b == (StackVal { count: b.count, ..a })
            &&& (b == a ==> y == x)
            &&& (b != a ==> !holds_nothing(a) && items_same(a, x.stack) && a.count < b.count && b.count <= most_in(i, a))
            &&& (y.stack.count > 0 && !holds_nothing(a) && items_same(a, x.stack) ==> b.count >= most_in(i, a))
        }),
{
    let i = nth_slot(lo, hi, from_last, k);
    let y = merge_at(x, i);
    assert(y.slots =~= x.slots.update(i, y.slots[i]));
    if y.slots[i] == x.slots[i] {
        assert(y == x);
    }
}

#[verifier::rlimit(60)]
proof fn lemma_merged(x: Inserted, lo: int, hi: int, from_last: bool, k: int)
    requires
        0 <= lo <= hi <= x.slots.len(),
        0 <= k,
        x.stack.count >= 0,
        forall|j: int| 0 <= j < x.slots.len() ==> (#[trigger] x.slots[j]).count >= 0,
    ensures
        is_merged(x, merge(x, lo, hi, from_last, k), lo, hi, from_last, k),
    decreases hi - lo - k,
{
    if k < hi - lo && !holds_nothing(x.stack) {
        let i = nth_slot(lo, hi, from_last, k);
        let y = merge_at(x, i);
        lemma_merged_at(x, lo, hi, from_last, k);
        lemma_merged(y, lo, hi, from_last, k + 1);
        let z = merge(y, lo, hi, from_last, k + 1);
        assert(z == merge(x, lo, hi, from_last, k));
        assert(!still_ahead(lo, hi, from_last, k + 1, i));
        assert(z.slots[i] == y.slots[i]);
        assert forall|j: int| 0 <= j < x.slots.len() implies {
            let b = #[trigger] z.slots[j];
            let a = x.slots[j];
            &&& b == (StackVal { count: b.count, ..a })
            &&& (b != a ==> still_ahead(lo, hi, from_last, k, j) && !holds_nothing(a) && items_same(a, x.stack) && a.count < b.count
                && b.count <= most_in(j, a))
        } by {
            if j != i {
                assert(y.slots[j] == x.slots[j]);
            }
        }
        assert(z.slots == x.slots ==> z == x) by {
            if z.slots == x.slots {
                assert(y.slots[i] == x.slots[i]);
            }
        }
        if z.slots != x.slots && y == x {
            assert(z.slots != y.slots);
        }
        if y.slots[i] != x.slots[i] {
            assert(z.slots[i] != x.slots[i]);
        }
        if !holds_nothing(z.stack) {
            assert forall|j: int|
                still_ahead(lo, hi, from_last, k, j) && !holds_nothing(x.slots[j]) && items_same(x.slots[j], x.stack) implies (#[trigger] z.slots[j]).count
                >= most_in(j, x.slots[j]) by {
                if j != i {
                    assert(still_ahead(lo, hi, from_last, k + 1, j));
                    assert(y.slots[j] == x.slots[j]);
                }
            }
        }
        assert forall|j: int, m: int|
            still_ahead(lo, hi, from_last, k, j) && !holds_nothing(x.slots[j]) && items_same(x.slots[j], x.stack) && comes_before(from_last, j, m)
                && 0 <= m < x.slots.len() && #[trigger] z.slots[m] != x.slots[m] implies (#[trigger] z.slots[j]).count >= most_in(
            j,
            x.slots[j],
        ) by {
            assert(m != i);
            assert(y.slots[m] == x.slots[m]);
            if j != i {
                assert(still_ahead(lo, hi, from_last, k + 1, j));
                assert(y.slots[j] == x.slots[j]);
            } else {
                if y.stack.count == 0 {
                    assert(z == y);
                }
            }
        }
    }
}

proof fn lemma_filled(x: Inserted, lo: int, hi: int, from_last: bool, k: int)
    requires
        0 <= lo <= hi <= x.slots.len(),
        0 <= k,
    ensures
        ({
            let y = fill(x, lo, hi, from_last, k);
            if holds_nothing(x.stack) || forall|j: int| still_ahead(lo, hi, from_last, k, j) ==> !holds_nothing(#[trigger] x.slots[j]) {
                y == x
            } else {
                exists|i: int|
                    {
                        &&& still_ahead(lo, hi, from_last, k, i)
                        &&& #[trigger] holds_nothing(x.slots[i])
                        &&& forall|j: int|
                            still_ahead(lo, hi, from_last, k, j) && comes_before(from_last, j, i) ==> !holds_nothing(#[trigger] x.slots[j])
                        &&& y == put_at(x, i)
                    }
            }
        }),
    decreases hi - lo - k,
{
    if k < hi - lo && !holds_nothing(x.stack) {
        let i = nth_slot(lo, hi, from_last, k);
        let y = fill(x, lo, hi, from_last, k);
        assert(still_ahead(lo, hi, from_last, k, i));
        if holds_nothing(x.slots[i]) {
            assert(y == put_at(x, i));
        } else {
            lemma_filled(x, lo, hi, from_last, k + 1);
            assert forall|j: int| #[trigger] still_ahead(lo, hi, from_last, k, j) implies j == i || still_ahead(lo, hi, from_last, k + 1, j) by {
            }
            assert forall|j: int| #[trigger] still_ahead(lo, hi, from_last, k + 1, j) implies still_ahead(lo, hi, from_last, k, j) by {
            }
        }
    }
}

/// A stack put into an empty slot, as far as it holds it.
spec fn put_at(x: Inserted, i: int) -> Inserted {
    let most = most_in(i, x.stack);
    let n = if x.stack.count < most {
        x.stack.count
    } else {
        most
    };
    Inserted {
        slots: x.slots.update(i, StackVal { count: n, ..x.stack }),
        stack: StackVal { count: x.stack.count - n, ..x.stack },
        moved: true,
    }
}

/// What putting a stack into slots makes of them. The slots outside the range stay. A stack in the
/// range only grows, only where it is of the same kind, only if more than one fits on a stack, and
/// never above what its slot holds; what comes before it has then no room left.
pub proof fn lemma_insert_grows_only_alike(slots: Seq<StackVal>, s: StackVal, lo: int, hi: int, from_last: bool)
    requires
        0 <= lo <= hi <= slots.len(),
        s.count >= 0,
        forall|j: int| 0 <= j < slots.len() ==> (#[trigger] slots[j]).count >= 0,
    ensures
        ({
            let x = insert(slots, s, lo, hi, from_last);
            &&& x.slots.len() == slots.len()
            &&& forall|j: int| 0 <= j < slots.len() && !(lo <= j < hi) ==> #[trigger] x.slots[j] == slots[j]
            &&& forall|j: int|
                lo <= j < hi && !holds_nothing(slots[j]) ==> {
                    let b = #[trigger] x.slots[j];
                    &&& b.item == slots[j].item
                    &&& b.patch == slots[j].patch
                    &&& (b.count != slots[j].count ==> items_same(slots[j], s) && max_stack_size(s) > 1 && slots[j].count < b.count && b.count
                        <= most_in(j, slots[j]))
                }
            &&& forall|j: int, m: int|
                lo <= j < hi && !holds_nothing(slots[j]) && items_same(slots[j], s) && max_stack_size(s) > 1 && lo <= m < hi && (comes_before(
                    from_last,
                    j,
                    m,
                ) || holds_nothing(slots[m])) && #[trigger] x.slots[m] != slots[m] ==> (#[trigger] x.slots[j]).count >= most_in(j, slots[j])
        }),
{
    lemma_inserted(slots, s, lo, hi, from_last);
}

/// A stack that was put into slots and of which something is left found each stack of its kind among
/// them full, and no slot among them empty, or an empty one that does not hold all of it.
pub proof fn lemma_insert_leaves_no_room(slots: Seq<StackVal>, s: StackVal, lo: int, hi: int, from_last: bool)
    requires
        0 <= lo <= hi <= slots.len(),
        s.count >= 0,
        forall|j: int| 0 <= j < slots.len() ==> (#[trigger] slots[j]).count >= 0,
    ensures
        ({
            let x = insert(slots, s, lo, hi, from_last);
            &&& x.stack.item == s.item
            &&& x.stack.patch == s.patch
            &&& (x.stack.count > 0 && !holds_nothing(s) ==> {
                &&& forall|j: int|
                    lo <= j < hi && !holds_nothing(slots[j]) && items_same(slots[j], s) && max_stack_size(s) > 1 ==> (#[trigger] x.slots[j]).count
                        >= most_in(j, slots[j])
                &&& forall|j: int|
                    lo <= j < hi && #[trigger] holds_nothing(slots[j]) ==> exists|m: int|
                        lo <= m < hi && holds_nothing(slots[m]) && (#[trigger] x.slots[m]) == (StackVal { count: most_in(m, s), ..s })
            })
            &&& (!x.moved ==> x.slots == slots && x.stack == s)
        }),
{
    lemma_inserted(slots, s, lo, hi, from_last);
    let x = insert(slots, s, lo, hi, from_last);
    let y = stacked(slots, s, lo, hi, from_last);
    if x.stack.count > 0 && !holds_nothing(s) {
        assert(!holds_nothing(y.stack));
        assert forall|j: int| lo <= j < hi && #[trigger] holds_nothing(slots[j]) implies exists|m: int|
            lo <= m < hi && holds_nothing(slots[m]) && (#[trigger] x.slots[m]) == (StackVal { count: most_in(m, s), ..s }) by {
            let m = choose|m: int|
                {
                    &&& lo <= m < hi
                    &&& #[trigger] holds_nothing(slots[m])
                    &&& y.slots[m] == slots[m]
                    &&& x == put_at(y, m)
                };
            assert(most_in(m, y.stack) == most_in(m, s));
            assert(x.slots[m] == (StackVal { count: most_in(m, s), ..s }));
        }
    }
}

/// A stack that is put into slots fills at most one empty slot, the first of them in the order asked
/// for.
pub proof fn lemma_insert_fills_the_first_free(slots: Seq<StackVal>, s: StackVal, lo: int, hi: int, from_last: bool)
    requires
        0 <= lo <= hi <= slots.len(),
        s.count >= 0,
        forall|j: int| 0 <= j < slots.len() ==> (#[trigger] slots[j]).count >= 0,
    ensures
        ({
            let x = insert(slots, s, lo, hi, from_last);
            forall|m: int|
                lo <= m < hi && holds_nothing(slots[m]) && #[trigger] x.slots[m] != slots[m] ==> {
                    &&& x.slots[m].item == s.item
                    &&& x.slots[m].patch == s.patch
                    &&& x.slots[m].count <= most_in(m, s)
                    &&& x.slots[m].count <= s.count
                    &&& forall|j: int| lo <= j < hi && comes_before(from_last, j, m) ==> !#[trigger] holds_nothing(slots[j])
                    &&& forall|j: int| lo <= j < hi && comes_before(from_last, m, j) && holds_nothing(slots[j]) ==> #[trigger] x.slots[j] == slots[j]
                }
        }),
{
    lemma_inserted(slots, s, lo, hi, from_last);
}

/// A stack that was put on top of others, before an empty slot is looked for.
spec fn stacked(slots: Seq<StackVal>, s: StackVal, lo: int, hi: int, from_last: bool) -> Inserted {
    let start = Inserted { slots, stack: s, moved: false };
    if max_stack_size(s) > 1 {
        merge(start, lo, hi, from_last, 0)
    } else {
        start
    }
}

#[verifier::rlimit(60)]
proof fn lemma_inserted(slots: Seq<StackVal>, s: StackVal, lo: int, hi: int, from_last: bool)
    requires
        0 <= lo <= hi <= slots.len(),
        s.count >= 0,
        forall|j: int| 0 <= j < slots.len() ==> (#[trigger] slots[j]).count >= 0,
    ensures
        ({
            let start = Inserted { slots, stack: s, moved: false };
            let y = stacked(slots, s, lo, hi, from_last);
            let x = insert(slots, s, lo, hi, from_last);
            &&& (max_stack_size(s) > 1 ==> is_merged(start, y, lo, hi, from_last, 0))
            &&& (max_stack_size(s) <= 1 ==> y == start)
            &&& y.slots.len() == slots.len()
            &&& forall|j: int| lo <= j < hi ==> holds_nothing(#[trigger] y.slots[j]) == holds_nothing(slots[j])
            &&& if holds_nothing(y.stack) || forall|j: int| lo <= j < hi ==> !#[trigger] holds_nothing(slots[j]) {
                x == y
            } else {
                exists|i: int|
                    {
                        &&& lo <= i < hi
                        &&& #[trigger] holds_nothing(slots[i])
                        &&& forall|j: int| lo <= j < hi && comes_before(from_last, j, i) ==> !#[trigger] holds_nothing(slots[j])
                        &&& y.slots[i] == slots[i]
                        &&& x == put_at(y, i)
                    }
            }
        }),
{
    let start = Inserted { slots, stack: s, moved: false };
    lemma_merged(start, lo, hi, from_last, 0);
    let y = stacked(slots, s, lo, hi, from_last);
    lemma_filled(y, lo, hi, from_last, 0);
    assert forall|j: int| lo <= j < hi implies holds_nothing(#[trigger] y.slots[j]) == holds_nothing(slots[j]) by {
    }
    assert forall|j: int| lo <= j < hi implies #[trigger] holds_nothing(slots[j]) == holds_nothing(y.slots[j]) by {
    }
}

/// The slot in which armour for a place of the body is worn.
pub open spec fn armor_slot(place: EquipmentSlot) -> Option<int> {
    match place {
        EquipmentSlot::Head => Some(5),
        EquipmentSlot::Chest => Some(6),
        EquipmentSlot::Legs => Some(7),
        EquipmentSlot::Feet => Some(8),
        _ => None,
    }
}

/// Whether a stack is worn in a place of the body.
pub open spec fn is_worn_in(s: StackVal, e: EquippableImpl) -> bool {
    value_in(s, DataComponent::Equippable) == Some(EquippableImpl::val(e))
}

proof fn lemma_worn_at(s: StackVal, e: EquippableImpl)
    requires
        is_worn_in(s, e),
    ensures
        worn_at(s) == equipment_slot_id(e.slot),
        e.slot == EquipmentSlot::MainHand ==> worn_at(s) == 0,
        e.slot == EquipmentSlot::Feet ==> worn_at(s) == 1,
        e.slot == EquipmentSlot::Legs ==> worn_at(s) == 2,
        e.slot == EquipmentSlot::Chest ==> worn_at(s) == 3,
        e.slot == EquipmentSlot::Head ==> worn_at(s) == 4,
        e.slot == EquipmentSlot::OffHand ==> worn_at(s) == 5,
        e.slot == EquipmentSlot::Body ==> worn_at(s) == 6,
        e.slot == EquipmentSlot::Saddle ==> worn_at(s) == 7,
{
}

/// A click on armour, outside the slots in which it is worn, puts one piece of it on where nothing is
/// worn in its place, says so first, and leaves the rest where it was and all else as it is.
pub proof fn lemma_armor_is_put_on(
    slots: Seq<StackVal>,
    i: int,
    after: Seq<StackVal>,
    r: QuickMove,
    place: EquipmentSlot,
    e: EquippableImpl,
    a: int,
)
    requires
        slots.len() == SLOT_COUNT,
        9 <= i < SLOT_COUNT,
        forall|j: int| 0 <= j < slots.len() ==> (#[trigger] slots[j]).count >= 0,
        !holds_nothing(slots[i]),
        is_worn_in(slots[i], e),
        armor_slot(e.slot) == Some(a),
        holds_nothing(slots[a]),
        equipment_slot_id(place) == worn_at(slots[i]),
        is_quick_move(slots, i, after, r, place),
    ensures
        after.len() == slots.len(),
        after[a] == (StackVal { count: 1, ..slots[i] }),
        slots[i].count == 1 ==> is_nothing(after[i]),
        slots[i].count > 1 ==> after[i] == (StackVal { count: slots[i].count - 1, ..slots[i] }),
        forall|j: int| 0 <= j < slots.len() && j != i && j != a ==> #[trigger] after[j] == slots[j],
        r.moved is Some && r.moved->0@ == slots[i],
        action_views(r.actions@) =~= seq![
            ActionView::EquipmentChange(e.slot, Some(slots[i])),
            ActionView::TakeItem(i, StackVal { count: 1, ..slots[i] }),
        ],
{
    lemma_worn_at(slots[i], e);
    assert(place == e.slot);
    let w = route(slots, i);
    assert(w.lo == a && w.hi == a + 1 && w.put_on);
    let x = sent(slots, i);
    lemma_inserted(slots, slots[i], a, a + 1, w.from_last);
    let y = stacked(slots, slots[i], a, a + 1, w.from_last);
    assert(y.slots =~= slots) by {
        assert forall|j: int| 0 <= j < slots.len() implies y.slots[j] == slots[j] by {
        }
    }
    assert(y.stack == slots[i]);
    assert(x == put_at(y, a));
    assert(x.moved);
}

/// Whether a stack has its own slot, and that is empty.
pub open spec fn is_put_on(slots: Seq<StackVal>, i: int) -> bool {
    exists|e: EquippableImpl, a: int|
        #![trigger is_worn_in(slots[i], e), slots[a]]
        is_worn_in(slots[i], e) && holds_nothing(slots[a]) && (armor_slot(e.slot) == Some(a) || (e.slot == EquipmentSlot::OffHand && a == 45 && i
            != 45))
}

/// A click on what is carried in the other hand puts it there where that hand is empty.
pub proof fn lemma_shield_is_taken_up(
    slots: Seq<StackVal>,
    i: int,
    after: Seq<StackVal>,
    r: QuickMove,
    place: EquipmentSlot,
    e: EquippableImpl,
)
    requires
        slots.len() == SLOT_COUNT,
        9 <= i < 45,
        forall|j: int| 0 <= j < slots.len() ==> (#[trigger] slots[j]).count >= 0,
        !holds_nothing(slots[i]),
        is_worn_in(slots[i], e),
        e.slot == EquipmentSlot::OffHand,
        holds_nothing(slots[45]),
        is_quick_move(slots, i, after, r, place),
    ensures
        after.len() == slots.len(),
        slots[i].count <= most_in(45, slots[i]) ==> after[45] == slots[i] && is_nothing(after[i]) && action_views(r.actions@) =~= seq![
            ActionView::TakeItem(i, slots[i]),
        ],
        forall|j: int| 0 <= j < slots.len() && j != i && j != 45 ==> #[trigger] after[j] == slots[j],
{
    lemma_worn_at(slots[i], e);
    let w = route(slots, i);
    assert(w.lo == 45 && w.hi == 46);
    let x = sent(slots, i);
    lemma_inserted(slots, slots[i], 45, 46, w.from_last);
    let y = stacked(slots, slots[i], 45, 46, w.from_last);
    assert(y.slots =~= slots) by {
        assert forall|j: int| 0 <= j < slots.len() implies y.slots[j] == slots[j] by {
        }
    }
    assert(y.stack == slots[i]);
    assert(x == put_at(y, 45));
    assert(x.moved);
}

/// A click on what is worn takes it off: it comes to the inventory or the hotbar, and where any of it
/// was moved, that nothing is worn there any more is said first.
pub proof fn lemma_armor_is_taken_off(
    slots: Seq<StackVal>,
    i: int,
    after: Seq<StackVal>,
    r: QuickMove,
    place: EquipmentSlot,
)
    requires
        slots.len() == SLOT_COUNT,
        5 <= i < 9,
        forall|j: int| 0 <= j < slots.len() ==> (#[trigger] slots[j]).count >= 0,
        is_quick_move(slots, i, after, r, place),
    ensures
        after != slots ==> r.actions@.len() > 0 && r.actions@[0]@ == ActionView::EquipmentChange(place, None),
        after.len() == slots.len(),
        forall|j: int| 0 <= j < slots.len() && j != i && !(9 <= j < 45) ==> #[trigger] after[j] == slots[j],
{
    let x = sent(slots, i);
    lemma_insert_grows_only_alike(slots, slots[i], 9, 45, false);
    if x.moved && !holds_nothing(slots[i]) {
        assert(action_views(r.actions@).len() >= 1);
        assert(action_views(r.actions@)[0] == ActionView::EquipmentChange(place, None));
        assert(action_views(r.actions@)[0] == r.actions@[0]@);
    }
}

/// A click on a stack moves it to the slots that are meant for it, in order, and changes no others: from
/// the inventory to the hotbar, from the hotbar to the inventory, and from the other hand, from
/// crafting and from what is worn to both; what was crafted comes to the last of them first.
pub proof fn lemma_click_moves_to(slots: Seq<StackVal>, i: int, after: Seq<StackVal>, r: QuickMove, place: EquipmentSlot, j: int)
    requires
        slots.len() == SLOT_COUNT,
        0 <= i < SLOT_COUNT,
        forall|j: int| 0 <= j < slots.len() ==> (#[trigger] slots[j]).count >= 0,
        i >= 9 ==> !is_put_on(slots, i) && exists|e: EquippableImpl| is_worn_in(slots[i], e) || worn_at(slots[i]) == 0,
        is_quick_move(slots, i, after, r, place),
        !holds_nothing(slots[i]),
        0 <= j < SLOT_COUNT,
        j != i,
    ensures
        after.len() == slots.len(),
        9 <= i < 36 ==> after[j] == insert(slots, slots[i], 36, 45, false).slots[j],
        36 <= i < 45 ==> after[j] == insert(slots, slots[i], 9, 36, false).slots[j],
        1 <= i < 9 || i == 45 ==> after[j] == insert(slots, slots[i], 9, 45, false).slots[j],
        i == 0 ==> after[j] == insert(slots, slots[i], 9, 45, true).slots[j],
        9 <= i < 36 && !(36 <= j < 45) ==> after[j] == slots[j],
        36 <= i < 45 && !(9 <= j < 36) ==> after[j] == slots[j],
        (i < 9 || i == 45) && !(9 <= j < 45) ==> after[j] == slots[j],
{
    if i >= 9 {
        let e = choose|e: EquippableImpl| is_worn_in(slots[i], e) || worn_at(slots[i]) == 0;
        if is_worn_in(slots[i], e) {
            lemma_worn_at(slots[i], e);
            assert(armor_slot(e.slot) matches Some(a) ==> !holds_nothing(slots[a]));
        }
    }
    lemma_insert_grows_only_alike(slots, slots[i], 36, 45, false);
    lemma_insert_grows_only_alike(slots, slots[i], 9, 36, false);
    lemma_insert_grows_only_alike(slots, slots[i], 9, 45, false);
    lemma_insert_grows_only_alike(slots, slots[i], 9, 45, true);
    lemma_insert_leaves_no_room(slots, slots[i], 36, 45, false);
    lemma_insert_leaves_no_room(slots, slots[i], 9, 36, false);
    lemma_insert_leaves_no_room(slots, slots[i], 9, 45, false);
    lemma_insert_leaves_no_room(slots, slots[i], 9, 45, true);
}

/// The screen shows every place of the inventory once: the armour from the helmet down to the boots, the
/// inventory, the hotbar and the other hand; the slots for crafting show none.
pub proof fn lemma_every_place_is_shown(slot: int, place: int)
    requires
        0 <= slot < 46,
        0 <= place < 41,
    ensures
        source_of(slot) is None <==> slot < 5,
        source_of(5) == Some(39int) && source_of(6) == Some(38int) && source_of(7) == Some(37int) && source_of(8) == Some(36int),
        source_of(45) == Some(40int),
        9 <= slot < 36 ==> source_of(slot) == Some(slot),
        0 <= place < 9 ==> source_of(place + 36) == Some(place),
        source_of(slot) == Some(place) <==> slot == if place < 9 {
            place + 36
        } else if place < 36 {
            place
        } else if place < 40 {
            44 - place
        } else {
            45
        },
{
}

proof fn lemma_place_found(x: Inserted, lo: int, hi: int, from_last: bool, k: int)
    requires
        0 <= lo <= hi <= x.slots.len(),
        0 <= k,
    ensures
        match free_place(x, lo, hi, from_last, k) {
            Some(i) => lo <= i < hi && holds_nothing(x.slots[i]) && fill(x, lo, hi, from_last, k) == put_at(x, i),
            None => fill(x, lo, hi, from_last, k) == x,
        },
    decreases hi - lo - k,
{
    if k < hi - lo && !holds_nothing(x.stack) {
        let i = nth_slot(lo, hi, from_last, k);
        if !holds_nothing(x.slots[i]) {
            lemma_place_found(x, lo, hi, from_last, k + 1);
        }
    }
}

/// A number is drawn exactly where a stack comes into a slot that was empty; all others keep theirs.
pub proof fn lemma_new_stacks_are_numbered(slots: Seq<StackVal>, s: StackVal, lo: int, hi: int, from_last: bool, n: Seq<int>, counter: u32, j: int)
    requires
        0 <= lo <= hi <= slots.len(),
        n.len() == slots.len(),
        s.count >= 0,
        max_stack_size(s) >= 1,
        forall|j: int| 0 <= j < slots.len() ==> (#[trigger] slots[j]).count >= 0,
        0 <= j < slots.len(),
    ensures
        ({
            let x = insert(slots, s, lo, hi, from_last);
            let place = insert_place(slots, s, lo, hi, from_last);
            let m = renumbered(n, place, counter);
            if holds_nothing(slots[j]) && !holds_nothing(x.slots[j]) {
                place == Some(j) && m[j] == next_uid(counter) && counted(place, counter) == after_uid(counter)
            } else {
                m[j] == n[j]
            }
        }),
{
    let y = stacked(slots, s, lo, hi, from_last);
    let x = insert(slots, s, lo, hi, from_last);
    lemma_inserted(slots, s, lo, hi, from_last);
    lemma_place_found(y, lo, hi, from_last, 0);
    if max_stack_size(s) > 1 {
        assert(y.slots[j] == (StackVal { count: y.slots[j].count, ..slots[j] }));
    }
    match insert_place(slots, s, lo, hi, from_last) {
        Some(i) => {
            assert(x == put_at(y, i));
            assert(!holds_nothing(y.stack)) by {
                if holds_nothing(y.stack) {
                    assert(free_place(y, lo, hi, from_last, 0) is None);
                }
            }
            assert(!holds_nothing(x.slots[i]));
        },
        None => {},
    }
}

/// Closing the screen gives back what the cursor carries first, and then what lies in the slots for crafting,
/// in their order.
pub proof fn lemma_given_back_in_order(slots: Seq<StackVal>, n: Seq<int>, cursor: StackVal, uid: int, counter: u32, k: int)
    requires
        1 <= k < 5,
    ensures
        ({
            let all = give_all_back(slots, n, cursor, uid, counter, k + 1);
            let before = give_all_back(slots, n, cursor, uid, counter, k);
            let first = give_all_back(slots, n, cursor, uid, counter, 1);
            &&& (holds_nothing(slots[k]) ==> all == before)
            &&& (!holds_nothing(slots[k]) ==> {
                let x = insert(before.slots, slots[k], 9, 45, false);
                all.slots == x.slots && all.fallen == if holds_nothing(x.stack) {
                    before.fallen
                } else {
                    before.fallen.push(x.stack)
                }
            })
            &&& (holds_nothing(cursor) ==> first.slots == slots && first.fallen.len() == 0)
            &&& (!holds_nothing(cursor) ==> {
                let x = insert(slots, cursor, 9, 45, false);
                first.slots == x.slots && first.fallen =~= if holds_nothing(x.stack) {
                    Seq::empty()
                } else {
                    seq![x.stack]
                }
            })
        }),
{
    reveal_with_fuel(give_all_back, 2);
}

/// A click numbers stacks as putting them into slots does, and the slot that it empties loses its number.
pub proof fn lemma_click_numbers(slots: Seq<StackVal>, i: int, n: Seq<int>, counter: u32, j: int)
    requires
        slots.len() == SLOT_COUNT,
        n.len() == SLOT_COUNT,
        0 <= i < SLOT_COUNT,
        0 <= j < SLOT_COUNT,
        forall|j: int| 0 <= j < slots.len() ==> (#[trigger] slots[j]).count >= 0,
    ensures
        ({
            let m = sent_numbers(slots, i, n, counter);
            let x = sent(slots, i);
            &&& m.len() == SLOT_COUNT
            &&& (holds_nothing(slots[i]) ==> m == n && sent_place(slots, i) is None)
            &&& (!holds_nothing(slots[i]) && x.moved && x.stack.count == 0 ==> m[i] == -0x8000_0000)
            &&& (j != i && sent_place(slots, i) != Some(j) ==> m[j] == n[j])
            &&& (j != i && sent_place(slots, i) == Some(j) ==> m[j] == next_uid(counter))
        }),
{
    let w = route(slots, i);
    if !holds_nothing(slots[i]) {
        lemma_merged(Inserted { slots, stack: slots[i], moved: false }, w.lo, w.hi, w.from_last, 0);
        lemma_place_found(stacked(slots, slots[i], w.lo, w.hi, w.from_last), w.lo, w.hi, w.from_last, 0);
    }
}

/// A click on the result of crafting that moves any of it says how much was taken, that it was crafted, with
/// what is left and what there was, and that what is left falls; the slot is empty then.
pub proof fn lemma_crafting_is_told(slots: Seq<StackVal>, after: Seq<StackVal>, r: QuickMove, place: EquipmentSlot)
    requires
        slots.len() == SLOT_COUNT,
        forall|j: int| 0 <= j < slots.len() ==> (#[trigger] slots[j]).count >= 0,
        is_quick_move(slots, 0, after, r, place),
        !holds_nothing(slots[0]),
    ensures
        ({
            let x = insert(slots, slots[0], 9, 45, true);
            let left = x.stack;
            let taken = ActionView::TakeItem(0, StackVal { count: slots[0].count - left.count, ..slots[0] });
            let said = action_views(r.actions@);
            &&& (left.count == slots[0].count ==> said.len() == 0 && r.moved is None)
            &&& (left.count != slots[0].count && left.count == 0 ==> said =~= seq![taken, ActionView::Crafted(left, slots[0])])
            &&& (left.count != slots[0].count && left.count != 0 ==> said =~= seq![
                taken,
                ActionView::Crafted(left, slots[0]),
                ActionView::DropItem(left),
            ])
            &&& (left.count != slots[0].count ==> is_nothing(after[0]) && r.moved is Some && r.moved->0@ == slots[0])
        }),
{
    lemma_insert_leaves_no_room(slots, slots[0], 9, 45, true);
}

/// A click on a stack that is not put on or taken off says how much of it was taken, and tells the stack that
/// was there; where nothing was moved it says nothing.
pub proof fn lemma_moving_is_told(slots: Seq<StackVal>, i: int, after: Seq<StackVal>, r: QuickMove, place: EquipmentSlot, lo: int, hi: int)
    requires
        slots.len() == SLOT_COUNT,
        forall|j: int| 0 <= j < slots.len() ==> (#[trigger] slots[j]).count >= 0,
        1 <= i < 5 && lo == 9 && hi == 45 || 9 <= i < 36 && worn_at(slots[i]) == 0 && lo == 36 && hi == 45 || 36 <= i < 45 && worn_at(slots[i]) == 0
            && lo == 9 && hi == 36 || i == 45 && worn_at(slots[i]) == 0 && lo == 9 && hi == 45,
        is_quick_move(slots, i, after, r, place),
        !holds_nothing(slots[i]),
    ensures
        ({
            let left = insert(slots, slots[i], lo, hi, false).stack;
            let said = action_views(r.actions@);
            &&& (left.count == slots[i].count ==> said.len() == 0 && r.moved is None)
            &&& (left.count != slots[i].count ==> said =~= seq![
                ActionView::TakeItem(i, StackVal { count: slots[i].count - left.count, ..slots[i] }),
            ] && r.moved is Some && r.moved->0@ == slots[i])
            &&& (left.count == 0 ==> is_nothing(after[i]))
            &&& (0 < left.count < slots[i].count ==> after[i] == left)
        }),
{
    lemma_insert_leaves_no_room(slots, slots[i], lo, hi, false);
}

} // verus!
