//! What goes into a bundle and comes out of it.
use vstd::prelude::*;
use crate::data_component::DataComponent;
use crate::format::StackVal;
use crate::item_stack::{after_uid, next_uid, numbers, BundleContentsImpl, ItemStack, ItemStackIdGenerator};
use crate::same::items_same;
use crate::stack::{holds_nothing, value_in};
use crate::stack_use::{max_stack_size, with_count};

verus! {

/// How much a bundle holds.
pub const BUNDLE_SIZE: u32 = 64;

/// What one item of a stack weighs in a bundle.
pub open spec fn item_weight(s: StackVal) -> int {
    if max_stack_size(s) > 64 {
        1
    } else {
        64int / max_stack_size(s)
    }
}

/// What the stacks are.
pub open spec fn contents(v: Seq<ItemStack>) -> Seq<StackVal> {
    Seq::new(v.len(), |i: int| v[i]@)
}

/// What the first `n` stacks weigh.
pub open spec fn weight(l: Seq<StackVal>, n: nat) -> int
    decreases n,
{
    if n == 0 || n > l.len() {
        0
    } else {
        weight(l, (n - 1) as nat) + l[n - 1].count * item_weight(l[n - 1])
    }
}

/// How many items the first `n` stacks hold.
pub open spec fn item_total(l: Seq<StackVal>, n: nat) -> int
    decreases n,
{
    if n == 0 || n > l.len() {
        0
    } else {
        item_total(l, (n - 1) as nat) + l[n - 1].count
    }
}

/// Whether every stack can hold items.
pub open spec fn all_hold(l: Seq<StackVal>) -> bool {
    forall|i: int| 0 <= i < l.len() ==> max_stack_size(#[trigger] l[i]) > 0
}

/// The stacks with one item more: on top of the first stack where it is of the same kind and not
/// full, and before it otherwise.
pub open spec fn insert_one(l: Seq<StackVal>, s: StackVal) -> Seq<StackVal> {
    if goes_on_top(l, s) {
        l.update(0, with_count(l[0], l[0].count + 1))
    } else {
        l.insert(0, with_count(s, 1))
    }
}

/// The stacks and what is left of `s` once as many of its items as fit are inserted one by one.
pub open spec fn insert_all(l: Seq<StackVal>, s: StackVal) -> (Seq<StackVal>, StackVal)
    decreases s.count,
{
    if s.count > 0 && weight(l, l.len()) + item_weight(s) <= BUNDLE_SIZE {
        insert_all(insert_one(l, s), with_count(s, s.count - 1))
    } else {
        (l, s)
    }
}

/// Whether one item of `s` comes on top of the first stack.
pub open spec fn goes_on_top(l: Seq<StackVal>, s: StackVal) -> bool {
    l.len() > 0 && items_same(l[0], s) && l[0].count < max_stack_size(l[0])
}

/// The numbers of the stacks once as many items of `s` as fit are inserted one by one, and the counter
/// after them: each item that does not come on top of a stack is a stack with a number of its own.
pub open spec fn numbers_after(l: Seq<StackVal>, s: StackVal, n: Seq<int>, counter: u32) -> (Seq<int>, u32)
    decreases s.count,
{
    if s.count > 0 && weight(l, l.len()) + item_weight(s) <= BUNDLE_SIZE {
        let left = with_count(s, s.count - 1);
        if goes_on_top(l, s) {
            numbers_after(insert_one(l, s), left, n, counter)
        } else {
            numbers_after(insert_one(l, s), left, n.insert(0, next_uid(counter)), after_uid(counter))
        }
    } else {
        (n, counter)
    }
}

proof fn lemma_weight_grows(l: Seq<StackVal>, i: nat, n: nat)
    requires
        i <= n <= l.len(),
        all_hold(l),
        forall|k: int| 0 <= k < l.len() ==> 0 <= (#[trigger] l[k]).count,
    ensures
        0 <= weight(l, i) <= weight(l, n),
    decreases n,
{
    if n > 0 {
        assert(l[n - 1].count * item_weight(l[n - 1]) >= 0) by (nonlinear_arith)
            requires
                l[n - 1].count >= 0,
                item_weight(l[n - 1]) >= 0,
        ;
        if i < n {
            lemma_weight_grows(l, i, (n - 1) as nat);
        } else {
            lemma_weight_grows(l, (n - 1) as nat, (n - 1) as nat);
        }
    }
}

/// What one item of a stack weighs in a bundle.
fn weight_per_item(stack: &ItemStack) -> (r: u32)
    requires
        max_stack_size(stack@) > 0,
    ensures
        r == item_weight(stack@),
        1 <= r <= 64,
{
    let size: u32 = stack.get_max_stack_size() as u32;
    if size > 64 {
        1
    } else {
        assert(64int / (size as int) >= 1) by (nonlinear_arith)
            requires
                0 < size <= 64,
        ;
        assert(64int / (size as int) <= 64) by (nonlinear_arith)
            requires
                0 < size <= 64,
        ;
        64 / size
    }
}

impl BundleContentsImpl {
    /// What the stacks in the bundle weigh together.
    pub fn get_weight(&self) -> (r: u32)
        requires
            all_hold(contents(self.items@)),
            weight(contents(self.items@), self.items@.len()) <= u32::MAX,
        ensures
            r == weight(contents(self.items@), self.items@.len()),
    {
        let ghost l = contents(self.items@);
        let mut sum: u32 = 0;
        let mut i: usize = 0;
        while i < self.items.len()
            invariant
                i <= self.items.len(),
                l == contents(self.items@),
                all_hold(l),
                weight(l, l.len()) <= u32::MAX,
                sum == weight(l, i as nat),
            decreases self.items.len() - i,
        {
            assert(l[i as int] == self.items@[i as int]@);
            let unit: u32 = weight_per_item(&self.items[i]);
            let count: u32 = self.items[i].item_count as u32;
            proof {
                lemma_weight_grows(l, (i + 1) as nat, l.len());
                assert(count * unit >= 0 && count * unit <= 255 * 64) by (nonlinear_arith)
                    requires
                        0 <= count <= 255,
                        0 <= unit <= 64,
                ;
            }
            sum = sum + count * unit;
            i += 1;
        }
        sum
    }

    /// Moves as many items as fit from a stack into the bundle, and says whether any did.
    pub fn try_insert(&mut self, stack: &mut ItemStack, ids: &mut ItemStackIdGenerator) -> (r: bool)
        requires
            all_hold(contents(old(self).items@)),
            weight(contents(old(self).items@), old(self).items@.len()) <= u32::MAX - 64,
            max_stack_size(old(stack)@) > 0,
        ensures
            ({
                let taken = insert_all(contents(old(self).items@), old(stack)@);
                if holds_nothing(old(stack)@) || value_in(old(stack)@, DataComponent::BundleContents) is Some {
                    !r && final(self).items@ == old(self).items@ && final(stack)@ == old(stack)@ && final(ids).counter == old(ids).counter
                } else {
                    contents(final(self).items@) == taken.0 && final(stack)@ == taken.1 && r == (taken.1.count < old(stack)@.count) && (
                    numbers(final(self).items@), final(ids).counter) == numbers_after(
                        contents(old(self).items@),
                        old(stack)@,
                        numbers(old(self).items@),
                        old(ids).counter,
                    )
                }
            }),
            final(stack).uid == old(stack).uid,
    {
        if stack.is_empty() || stack.get_data_component::<BundleContentsImpl>().is_some() {
            return false;
        }
        let ghost taken = insert_all(contents(self.items@), stack@);
        let ghost given = numbers_after(contents(self.items@), stack@, numbers(self.items@), ids.counter);
        let unit: u32 = weight_per_item(stack);
        let mut inserted_anything: bool = false;
        let mut fits: bool = true;
        while fits
            invariant
                all_hold(contents(self.items@)),
                weight(contents(self.items@), self.items@.len()) <= u32::MAX - 64,
                max_stack_size(stack@) > 0,
                unit == item_weight(stack@),
                unit <= 64,
                stack.uid == old(stack).uid,
                stack@ == with_count(old(stack)@, stack@.count),
                stack@.count <= old(stack)@.count,
                inserted_anything == (stack@.count < old(stack)@.count),
                taken == insert_all(contents(old(self).items@), old(stack)@),
                taken == insert_all(contents(self.items@), stack@),
                given == numbers_after(contents(old(self).items@), old(stack)@, numbers(old(self).items@), old(ids).counter),
                given == numbers_after(contents(self.items@), stack@, numbers(self.items@), ids.counter),
                !fits ==> given == (numbers(self.items@), ids.counter),
                !holds_nothing(old(stack)@) && value_in(old(stack)@, DataComponent::BundleContents) is None,
                !fits ==> taken == (contents(self.items@), stack@),
            decreases stack.item_count + if fits { 1int } else { 0int },
        {
            let ghost l = contents(self.items@);
            if stack.item_count == 0 || self.get_weight() + unit > BUNDLE_SIZE {
                fits = false;
            } else {
                let ghost s = stack@;
                let ghost n = numbers(self.items@);
                let onto: bool = self.items.len() > 0 && self.items[0].are_items_and_components_equal(stack)
                    && self.items[0].item_count < self.items[0].get_max_stack_size();
                if onto {
                    assert(l[0] == self.items@[0]@);
                    let top = &mut self.items[0];
                    top.item_count = top.item_count + 1;
                    assert(contents(self.items@) =~= insert_one(l, s));
                    assert(numbers(self.items@) =~= n);
                } else {
                    let one = stack.copy_with_count(1, ids);
                    let ghost u = one.uid as int;
                    self.items.insert(0, one);
                    assert(contents(self.items@) =~= insert_one(l, s));
                    assert(numbers(self.items@) =~= n.insert(0, u));
                }
                stack.item_count = stack.item_count - 1;
                inserted_anything = true;
                proof {
                    assert(stack@ == with_count(s, s.count - 1));
                    lemma_one_holds(l, s);
                    lemma_one_weighs(l, s);
                }
            }
        }
        inserted_anything
    }

    /// Takes out the stack that came last.
    pub fn try_extract(&mut self) -> (r: Option<ItemStack>)
        ensures
            match r {
                Some(s) => old(self).items@.len() > 0 && s == old(self).items@[0] && final(self).items@ == old(self).items@.skip(1),
                None => old(self).items@.len() == 0 && final(self).items@ == old(self).items@,
            },
    {
        if self.items.len() == 0 {
            None
        } else {
            let ghost before = self.items@;
            let s = self.items.remove(0);
            assert(self.items@ =~= before.skip(1));
            Some(s)
        }
    }
}

proof fn lemma_one_holds(l: Seq<StackVal>, s: StackVal)
    requires
        all_hold(l),
        max_stack_size(s) > 0,
    ensures
        all_hold(insert_one(l, s)),
{
    let m = insert_one(l, s);
    assert forall|i: int| 0 <= i < m.len() implies max_stack_size(#[trigger] m[i]) > 0 by {
        if l.len() > 0 && items_same(l[0], s) && l[0].count < max_stack_size(l[0]) {
            if i > 0 {
                assert(m[i] == l[i]);
            } else {
                assert(max_stack_size(l[0]) > 0);
            }
        } else if i > 0 {
            assert(m[i] == l[i - 1]);
        }
    }
}

/// The weight of a list is that of its first stack and of the rest.
proof fn lemma_weight_front(l: Seq<StackVal>, n: nat)
    requires
        0 < n <= l.len(),
    ensures
        weight(l, n) == l[0].count * item_weight(l[0]) + weight(l.skip(1), (n - 1) as nat),
    decreases n,
{
    if n > 1 {
        lemma_weight_front(l, (n - 1) as nat);
        assert(l.skip(1)[n - 2] == l[n - 1]);
    } else {
        assert(weight(l, 0) == 0 && weight(l.skip(1), 0) == 0);
    }
}

proof fn lemma_one_weighs(l: Seq<StackVal>, s: StackVal)
    requires
        all_hold(l),
        max_stack_size(s) > 0,
    ensures
        weight(insert_one(l, s), insert_one(l, s).len()) <= weight(l, l.len()) + 64,
{
    let m = insert_one(l, s);
    if l.len() > 0 && items_same(l[0], s) && l[0].count < max_stack_size(l[0]) {
        lemma_weight_front(l, l.len());
        lemma_weight_front(m, m.len());
        assert(m.skip(1) =~= l.skip(1));
        assert(item_weight(m[0]) == item_weight(l[0]));
        assert((l[0].count + 1) * item_weight(l[0]) == l[0].count * item_weight(l[0]) + item_weight(l[0])) by (nonlinear_arith);
        lemma_unit(l[0]);
    } else {
        lemma_weight_front(m, m.len());
        assert(m.skip(1) =~= l);
        assert(item_weight(m[0]) == item_weight(s));
        assert(m[0].count == 1);
        assert(m[0].count * item_weight(m[0]) == item_weight(s)) by (nonlinear_arith)
            requires
                m[0].count == 1,
                item_weight(m[0]) == item_weight(s),
        ;
        lemma_unit(s);
    }
}

proof fn lemma_unit(s: StackVal)
    requires
        max_stack_size(s) > 0,
    ensures
        1 <= item_weight(s) <= 64,
{
    let size = max_stack_size(s);
    if size <= 64 {
        assert(64int / size >= 1 && 64int / size <= 64) by (nonlinear_arith)
            requires
                0 < size <= 64,
        ;
    }
}

} // verus!
