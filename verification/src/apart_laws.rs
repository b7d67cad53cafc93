//! What tells values apart.
use vstd::prelude::*;
use crate::data_component::DataComponent;
use crate::equal_laws::{lemma_first_slot, lemma_patch_at};
use crate::format::{ComponentVal, PatchVal, StackVal, Val};
use crate::nbt_tag::{compound_get, Tag};
use crate::same::{component_same, covered, entries_match, first_slot, float_same, items_same, last_place, lists_match, patch_same, slot_of, slots_same, stack_same, tags_match, val_same, vals_same};
use crate::stack::lemma_last_place;

verus! {

/// Whether the last entries that two patches have for a component say the same, or neither has one.
pub open spec fn says_the_same(p: PatchVal, q: PatchVal, k: DataComponent) -> bool {
    match (last_place(p, k, p.len()), last_place(q, k, q.len())) {
        (None, None) => true,
        (Some(i), Some(j)) => match (p[i].1, q[j].1) {
            (None, None) => true,
            (Some(a), Some(b)) => component_same(a, b),
            _ => false,
        },
        _ => false,
    }
}

proof fn lemma_patch_upto(p: PatchVal, q: PatchVal, n: nat)
    requires
        n <= p.len(),
        forall|k: DataComponent| #[trigger] says_the_same(p, q, k),
    ensures
        patch_same(p, q, n),
    decreases n,
{
    if n > 0 {
        lemma_patch_upto(p, q, (n - 1) as nat);
        assert(says_the_same(p, q, p[n - 1].0));
    }
}

/// Stacks are of the same kind exactly if their items are the same and their patches say the same of every
/// component.
pub proof fn lemma_same_items_exactly(x: StackVal, y: StackVal)
    ensures
        items_same(x, y) <==> x.item.id == y.item.id && forall|k: DataComponent| #[trigger] says_the_same(x.patch, y.patch, k),
        stack_same(x, y) <==> x.count == y.count && items_same(x, y),
{
    let p = x.patch;
    let q = y.patch;
    if items_same(x, y) {
        assert forall|k: DataComponent| #[trigger] says_the_same(p, q, k) by {
            lemma_last_place(p, k, p.len());
            lemma_last_place(q, k, q.len());
            match last_place(p, k, p.len()) {
                Some(i) => {
                    lemma_patch_at(p, q, p.len(), i);
                },
                None => {
                    match last_place(q, k, q.len()) {
                        Some(j) => {
                            assert(last_place(p, q[j].0, p.len()) is Some);
                        },
                        None => {},
                    }
                },
            }
        }
    }
    if x.item.id == y.item.id && forall|k: DataComponent| #[trigger] says_the_same(p, q, k) {
        lemma_patch_upto(p, q, p.len());
        assert forall|i: int| 0 <= i < q.len() implies last_place(p, (#[trigger] q[i]).0, p.len()) is Some by {
            assert(says_the_same(p, q, q[i].0));
            lemma_last_place(q, q[i].0, q.len());
        }
        assert(covered(q, p));
    }
}

/// Values of components are the same only where the components are, and numbers, texts and flags only where
/// they are equal.
pub proof fn lemma_plain_values_exactly(k: DataComponent, m: DataComponent, x: Val, y: Val, a: int, b: int, s: Seq<char>, t: Seq<char>, f: bool, g: bool)
    ensures
        k != m ==> !component_same(ComponentVal { kind: k, val: x }, ComponentVal { kind: m, val: y }),
        k != DataComponent::CustomData && k != DataComponent::BlockState && k != DataComponent::MapDecorations && k != DataComponent::Container
            ==> component_same(ComponentVal { kind: k, val: x }, ComponentVal { kind: k, val: y }) == val_same(x, y),
        val_same(Val::Int(a), Val::Int(b)) <==> a == b,
        val_same(Val::Text(s), Val::Text(t)) <==> s == t,
        val_same(Val::Bool(f), Val::Bool(g)) <==> f == g,
        !val_same(Val::Absent, Val::Present(Box::new(x))),
        val_same(Val::Present(Box::new(x)), Val::Present(Box::new(y))) <==> val_same(x, y),
{
    reveal_with_fuel(val_same, 2);
}

proof fn lemma_vals_upto(x: Seq<Val>, y: Seq<Val>, n: nat)
    requires
        n <= x.len(),
    ensures
        vals_same(x, y, n) <==> forall|i: int| 0 <= i < n ==> val_same(#[trigger] x[i], y[i]),
    decreases n,
{
    if n > 0 {
        lemma_vals_upto(x, y, (n - 1) as nat);
        assert(val_same(x[n - 1], y[n - 1]) || !val_same(x[n - 1], y[n - 1]));
    }
}

/// Lists of values are the same exactly if they are as long and the same at every place.
pub proof fn lemma_lists_exactly(x: Seq<Val>, y: Seq<Val>)
    ensures
        val_same(Val::List(x), Val::List(y)) <==> x.len() == y.len() && forall|i: int| 0 <= i < x.len() ==> val_same(#[trigger] x[i], y[i]),
{
    lemma_vals_upto(x, y, x.len());
}

/// Pairs of values are the same exactly if both of their parts are.
pub proof fn lemma_pairs_exactly(a: Val, b: Val, x: Val, y: Val)
    ensures
        val_same(crate::format::pair(a, b), crate::format::pair(x, y)) <==> val_same(a, x) && val_same(b, y),
{
    reveal_with_fuel(val_same, 2);
}

/// Whether two tags are of the same type.
pub open spec fn same_type(a: Tag, b: Tag) -> bool {
    crate::byte_laws::type_number(a) == crate::byte_laws::type_number(b)
}

/// Tags of different types never match; numbers and texts match exactly if they are equal.
pub proof fn lemma_tags_exactly(a: Tag, b: Tag, by_pattern: bool)
    ensures
        tags_match(a, b, by_pattern) ==> same_type(a, b),
        same_type(a, b) && !(a is Float) && !(a is Double) && !(a is List) && !(a is Compound) ==> (tags_match(a, b, by_pattern) <==> a == b),
{
}

proof fn lemma_lists_upto(x: Seq<Tag>, y: Seq<Tag>, n: nat, by_pattern: bool)
    requires
        n <= x.len(),
    ensures
        lists_match(x, y, n, by_pattern) <==> forall|i: int| 0 <= i < n ==> tags_match(#[trigger] x[i], y[i], by_pattern),
    decreases n,
{
    if n > 0 {
        lemma_lists_upto(x, y, (n - 1) as nat, by_pattern);
        assert(tags_match(x[n - 1], y[n - 1], by_pattern) || !tags_match(x[n - 1], y[n - 1], by_pattern));
    }
}

/// Lists match exactly if they are as long and match at every place.
pub proof fn lemma_tag_lists_exactly(x: Seq<Tag>, y: Seq<Tag>, by_pattern: bool)
    ensures
        tags_match(Tag::List(x), Tag::List(y), by_pattern) <==> x.len() == y.len() && forall|i: int|
            0 <= i < x.len() ==> tags_match(#[trigger] x[i], y[i], by_pattern),
{
    lemma_lists_upto(x, y, x.len(), by_pattern);
}

/// Whether an entry has its match under the same key of a compound.
pub open spec fn has_match(e: (Seq<char>, Tag), y: Seq<(Seq<char>, Tag)>, by_pattern: bool) -> bool {
    compound_get(y, e.0) matches Some(t) && tags_match(e.1, t, by_pattern)
}

proof fn lemma_entries_upto(x: Seq<(Seq<char>, Tag)>, y: Seq<(Seq<char>, Tag)>, n: nat, by_pattern: bool)
    requires
        n <= x.len(),
    ensures
        entries_match(x, y, n, by_pattern) <==> forall|i: int| 0 <= i < n ==> has_match(#[trigger] x[i], y, by_pattern),
    decreases n,
{
    if n > 0 {
        lemma_entries_upto(x, y, (n - 1) as nat, by_pattern);
        assert(has_match(x[n - 1], y, by_pattern) || !has_match(x[n - 1], y, by_pattern));
    }
}

/// Compounds match exactly if they have as many entries and each has its match under the same key.
pub proof fn lemma_compounds_exactly(x: Seq<(Seq<char>, Tag)>, y: Seq<(Seq<char>, Tag)>, by_pattern: bool)
    ensures
        tags_match(Tag::Compound(x), Tag::Compound(y), by_pattern) <==> x.len() == y.len() && forall|i: int|
            0 <= i < x.len() ==> has_match(#[trigger] x[i], y, by_pattern),
{
    lemma_entries_upto(x, y, x.len(), by_pattern);
}

/// By its pattern, a floating-point number matches its like and no other, except that all that are not
/// numbers match each other; as a number, it matches its like and zero either zero, and what is not a number
/// matches nothing.
pub proof fn lemma_floats_exactly(a: u32, b: u32)
    ensures
        ({
            let magnitude = |v: u32| v as int % 0x8000_0000;
            let number = |v: u32| magnitude(v) <= 0x7f80_0000;
            &&& tags_match(Tag::Float(a as int), Tag::Float(b as int), true) <==> a == b || (!number(a) && !number(b))
            &&& tags_match(Tag::Float(a as int), Tag::Float(b as int), false) <==> number(a) && number(b) && (a == b || (magnitude(a) == 0
                && magnitude(b) == 0))
        }),
{
}

/// As for floating-point numbers of half the width.
pub proof fn lemma_doubles_exactly(a: u64, b: u64)
    ensures
        ({
            let magnitude = |v: u64| v as int % 0x8000_0000_0000_0000;
            let number = |v: u64| magnitude(v) <= 0x7ff0_0000_0000_0000;
            &&& tags_match(Tag::Double(a as int), Tag::Double(b as int), true) <==> a == b || (!number(a) && !number(b))
            &&& tags_match(Tag::Double(a as int), Tag::Double(b as int), false) <==> number(a) && number(b) && (a == b || (magnitude(a) == 0
                && magnitude(b) == 0))
            &&& float_same(8, a as int, b as int) == tags_match(Tag::Double(a as int), Tag::Double(b as int), false)
        }),
{
}

/// Containers with one stack in each slot are the same only where the stack in each slot is.
pub proof fn lemma_slots_exactly(x: Seq<Val>, y: Seq<Val>, i: int)
    requires
        0 <= i < x.len(),
        component_same(
            ComponentVal { kind: DataComponent::Container, val: Val::List(x) },
            ComponentVal { kind: DataComponent::Container, val: Val::List(y) },
        ),
    ensures
        x.len() == y.len(),
        exists|j: int| 0 <= j < y.len() && slot_of(#[trigger] y[j]) == slot_of(x[i]) && val_same(x[i], y[j]),
{
    lemma_slot_upto(x, y, x.len(), i);
    lemma_first_slot(y, slot_of(x[i]), 0);
    let j = first_slot(y, slot_of(x[i]), 0)->0;
    assert(slot_of(y[j]) == slot_of(x[i]) && val_same(x[i], y[j]));
}

proof fn lemma_slot_upto(x: Seq<Val>, y: Seq<Val>, n: nat, i: int)
    requires
        0 <= i < n <= x.len(),
        slots_same(x, y, n),
    ensures
        first_slot(y, slot_of(x[i]), 0) matches Some(j) && val_same(x[i], y[j]),
    decreases n,
{
    if i < n - 1 {
        lemma_slot_upto(x, y, (n - 1) as nat, i);
    }
}

} // verus!
