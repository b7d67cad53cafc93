//! Sameness of stacks and components is transitive.
use vstd::prelude::*;
use crate::data_component::DataComponent;
use crate::equal_laws::{lemma_first_slot, lemma_keyed_at, lemma_last_key, lemma_patch_at, lemma_slots_at};
use crate::format::{ComponentVal, PatchVal, StackVal, Val};
use crate::hash_laws::lemma_entry_match;
use crate::nbt_tag::{compound_get, key_index, lemma_key_index, Tag};
use crate::same::{component_same, covered, entries_match, first_slot, items_same, key_of, keyed_same, last_key, last_place, lists_match, patch_same, slot_of, slots_same, stack_same, tags_match, val_same, vals_same, values_of};
use crate::stack::lemma_last_place;

verus! {

/// Tags that match the same tag match one another.
pub proof fn lemma_tags_match_on(a: Tag, b: Tag, c: Tag, by_pattern: bool)
    requires
        tags_match(a, b, by_pattern),
        tags_match(b, c, by_pattern),
    ensures
        tags_match(a, c, by_pattern),
    decreases a, 0nat,
{
    match (a, b, c) {
        (Tag::List(x), Tag::List(y), Tag::List(z)) => {
            lemma_lists_match_on(x, y, z, x.len(), by_pattern);
        },
        (Tag::Compound(x), Tag::Compound(y), Tag::Compound(z)) => {
            lemma_entries_match_on(x, y, z, x.len(), by_pattern);
        },
        _ => {},
    }
}

proof fn lemma_lists_match_on(x: Seq<Tag>, y: Seq<Tag>, z: Seq<Tag>, n: nat, by_pattern: bool)
    requires
        n <= x.len(),
        x.len() == y.len(),
        lists_match(x, y, n, by_pattern),
        lists_match(y, z, n, by_pattern),
    ensures
        lists_match(x, z, n, by_pattern),
    decreases x, n,
{
    if n > 0 {
        lemma_lists_match_on(x, y, z, (n - 1) as nat, by_pattern);
        lemma_tags_match_on(x[n - 1], y[n - 1], z[n - 1], by_pattern);
    }
}

proof fn lemma_entries_match_on(
    x: Seq<(Seq<char>, Tag)>,
    y: Seq<(Seq<char>, Tag)>,
    z: Seq<(Seq<char>, Tag)>,
    n: nat,
    by_pattern: bool,
)
    requires
        n <= x.len(),
        entries_match(x, y, n, by_pattern),
        entries_match(y, z, y.len(), by_pattern),
    ensures
        entries_match(x, z, n, by_pattern),
    decreases x, n,
{
    if n > 0 {
        let k = x[n - 1].0;
        lemma_entries_match_on(x, y, z, (n - 1) as nat, by_pattern);
        lemma_key_index(y, k);
        let j = key_index(y, k)->0;
        lemma_entry_match(y, z, y.len(), j, by_pattern);
        lemma_tags_match_on(x[n - 1].1, y[j].1, compound_get(z, k)->0, by_pattern);
    }
}

/// Values that are the same as one value are the same as one another.
pub proof fn lemma_val_same_on(a: Val, b: Val, c: Val)
    requires
        val_same(a, b),
        val_same(b, c),
    ensures
        val_same(a, c),
    decreases a, 0nat,
{
    match (a, b, c) {
        (Val::Pair(x, u), Val::Pair(y, v), Val::Pair(z, w)) => {
            lemma_val_same_on(*x, *y, *z);
            lemma_val_same_on(*u, *v, *w);
        },
        (Val::List(x), Val::List(y), Val::List(z)) => {
            lemma_vals_same_on(x, y, z, x.len());
        },
        (Val::Present(x), Val::Present(y), Val::Present(z)) => {
            lemma_val_same_on(*x, *y, *z);
        },
        (Val::Nbt(x), Val::Nbt(y), Val::Nbt(z)) => {
            lemma_tags_match_on(x, y, z, false);
        },
        (Val::Stack(x), Val::Stack(y), Val::Stack(z)) => {
            assert(stack_same(x, y));
            assert(items_same(x, y));
            assert(stack_same(y, z));
            assert(items_same(y, z));
            lemma_patch_same_on(x.patch, y.patch, z.patch, x.patch.len());
            lemma_covered_on(z.patch, y.patch, x.patch);
            assert(items_same(x, z));
            assert(stack_same(x, z));
        },
        _ => {},
    }
}

proof fn lemma_vals_same_on(x: Seq<Val>, y: Seq<Val>, z: Seq<Val>, n: nat)
    requires
        n <= x.len(),
        x.len() == y.len(),
        vals_same(x, y, n),
        vals_same(y, z, n),
    ensures
        vals_same(x, z, n),
    decreases x, n,
{
    if n > 0 {
        lemma_vals_same_on(x, y, z, (n - 1) as nat);
        lemma_val_same_on(x[n - 1], y[n - 1], z[n - 1]);
    }
}

proof fn lemma_covered_on(p: PatchVal, q: PatchVal, r: PatchVal)
    requires
        covered(p, q),
        covered(q, r),
    ensures
        covered(p, r),
{
    assert forall|i: int| 0 <= i < p.len() implies last_place(r, (#[trigger] p[i]).0, r.len()) is Some by {
        lemma_last_place(q, p[i].0, q.len());
        let j = last_place(q, p[i].0, q.len())->0;
        assert(last_place(r, q[j].0, r.len()) is Some);
    }
}

proof fn lemma_patch_same_on(p: PatchVal, q: PatchVal, r: PatchVal, n: nat)
    requires
        n <= p.len(),
        patch_same(p, q, n),
        patch_same(q, r, q.len()),
    ensures
        patch_same(p, r, n),
    decreases p, n,
{
    if n > 0 {
        let k = p[n - 1].0;
        lemma_patch_same_on(p, q, r, (n - 1) as nat);
        if last_place(p, k, p.len()) == Some(n - 1) {
            lemma_last_place(q, k, q.len());
            let j = last_place(q, k, q.len())->0;
            lemma_patch_at(q, r, q.len(), j);
            let m = last_place(r, k, r.len())->0;
            match (p[n - 1].1, q[j].1, r[m].1) {
                (Some(a), Some(b), Some(c)) => {
                    lemma_component_same_on(a, b, c);
                },
                _ => {},
            }
        }
    }
}

proof fn lemma_keyed_same_on(x: Seq<Val>, y: Seq<Val>, z: Seq<Val>, n: nat)
    requires
        n <= x.len(),
        keyed_same(x, y, n),
        keyed_same(y, z, y.len()),
    ensures
        keyed_same(x, z, n),
    decreases x, n,
{
    if n > 0 {
        let k = key_of(x[n - 1]);
        lemma_keyed_same_on(x, y, z, (n - 1) as nat);
        if last_key(x, k, x.len()) == Some(n - 1) {
            lemma_last_key(y, k, y.len());
            let j = last_key(y, k, y.len())->0;
            lemma_keyed_at(y, z, y.len(), j);
            lemma_val_same_on(x[n - 1], y[j], z[last_key(z, k, z.len())->0]);
        }
    }
}

proof fn lemma_slots_same_on(x: Seq<Val>, y: Seq<Val>, z: Seq<Val>, n: nat)
    requires
        n <= x.len(),
        slots_same(x, y, n),
        slots_same(y, z, y.len()),
    ensures
        slots_same(x, z, n),
    decreases x, n,
{
    if n > 0 {
        let slot = slot_of(x[n - 1]);
        lemma_slots_same_on(x, y, z, (n - 1) as nat);
        lemma_first_slot(y, slot, 0);
        let j = first_slot(y, slot, 0)->0;
        lemma_slots_at(y, z, y.len(), j);
        lemma_val_same_on(x[n - 1], y[j], z[first_slot(z, slot, 0)->0]);
    }
}

/// Components that are the same as one component are the same as one another.
pub proof fn lemma_component_same_on(a: ComponentVal, b: ComponentVal, c: ComponentVal)
    requires
        component_same(a, b),
        component_same(b, c),
    ensures
        component_same(a, c),
    decreases a, 1nat,
{
    if a.kind == DataComponent::CustomData {
        lemma_tags_match_on(a.val->Nbt_0, b.val->Nbt_0, c.val->Nbt_0, true);
    } else if a.kind == DataComponent::BlockState {
        let x = a.val->List_0;
        let y = b.val->List_0;
        let z = c.val->List_0;
        assert forall|k: Seq<char>| #[trigger] values_of(x, k) == values_of(z, k) by {
            assert(values_of(x, k) == values_of(y, k));
            assert(values_of(y, k) == values_of(z, k));
        }
    } else if a.kind == DataComponent::MapDecorations {
        let x = a.val->List_0;
        let y = b.val->List_0;
        let z = c.val->List_0;
        lemma_keyed_same_on(x, y, z, x.len());
        assert forall|i: int| 0 <= i < z.len() implies last_key(x, key_of(#[trigger] z[i]), x.len()) is Some by {
            assert(last_key(y, key_of(z[i]), y.len()) is Some);
            lemma_last_key(y, key_of(z[i]), y.len());
            let j = last_key(y, key_of(z[i]), y.len())->0;
            assert(last_key(x, key_of(y[j]), x.len()) is Some);
        }
    } else if a.kind == DataComponent::Container {
        lemma_slots_same_on(a.val->List_0, b.val->List_0, c.val->List_0, a.val->List_0.len());
    } else {
        lemma_val_same_on(a.val, b.val, c.val);
    }
}

/// Stacks with the same item and components as one stack have them in common.
pub proof fn lemma_items_same_on(x: StackVal, y: StackVal, z: StackVal)
    ensures
        items_same(x, y) && items_same(y, z) ==> items_same(x, z),
        stack_same(x, y) && stack_same(y, z) ==> stack_same(x, z),
{
    if items_same(x, y) && items_same(y, z) {
        lemma_patch_same_on(x.patch, y.patch, z.patch, x.patch.len());
        lemma_covered_on(z.patch, y.patch, x.patch);
    }
}

} // verus!
