//! Sameness of stacks and components is reflexive and symmetric.
use vstd::prelude::*;
use vstd::set_lib::lemma_subset_equality;
use crate::data_component::DataComponent;
use crate::format::{ComponentVal, PatchVal, StackVal, Val};
use crate::hash_laws::{lemma_entry_match, lemma_tag_matches_itself, numeric, tidy, tidy_entries, tidy_items};
use crate::nbt_tag::{compound_get, key_index, keys_distinct, lemma_key_index, lemma_key_index_is, Tag};
use crate::same::{component_same, covered, entries_match, first_slot, float_nan, items_same, key_of, keyed_same, keys_covered, last_key, last_place, lists_match, patch_same, slot_of, slots_same, stack_same, tags_match, val_same, vals_same};
use crate::stack::lemma_last_place;

verus! {

/// Whether the stacks of a container lie in different slots.
pub open spec fn slots_distinct(l: Seq<Val>) -> bool {
    forall|i: int, j: int| 0 <= i < j < l.len() ==> slot_of(#[trigger] l[i]) != slot_of(#[trigger] l[j])
}

/// Whether no compound in a value has a key twice and no container a slot.
pub open spec fn tidy_val(v: Val) -> bool
    decreases v, 0nat,
{
    match v {
        Val::Pair(a, b) => tidy_val(*a) && tidy_val(*b),
        Val::List(l) => tidy_vals(l, l.len()),
        Val::Present(a) => tidy_val(*a),
        Val::Nbt(t) => tidy(t),
        Val::Stack(s) => tidy_patch(s.patch, s.patch.len()),
        _ => true,
    }
}

/// Whether the first `n` values are tidy.
pub open spec fn tidy_vals(l: Seq<Val>, n: nat) -> bool
    decreases l, n,
{
    if n == 0 || n > l.len() {
        true
    } else {
        tidy_vals(l, (n - 1) as nat) && tidy_val(l[n - 1])
    }
}

/// Whether the values of the first `n` entries of a patch are tidy.
pub open spec fn tidy_patch(p: PatchVal, n: nat) -> bool
    decreases p, n,
{
    if n == 0 || n > p.len() {
        true
    } else {
        tidy_patch(p, (n - 1) as nat) && match p[n - 1].1 {
            Some(c) => tidy_component(c),
            None => true,
        }
    }
}

/// Whether the value of a component is tidy, and has the shape of its component.
pub open spec fn tidy_component(c: ComponentVal) -> bool
    decreases c, 1nat,
{
    tidy_val(c.val) && (c.kind == DataComponent::CustomData ==> c.val is Nbt) && (c.kind == DataComponent::BlockState || c.kind
        == DataComponent::MapDecorations ==> c.val is List) && (c.kind == DataComponent::Container ==> (c.val matches Val::List(l)
        && slots_distinct(l)))
}

/// Whether no floating-point number in a value is not a number.
pub open spec fn numeric_val(v: Val) -> bool
    decreases v, 0nat,
{
    match v {
        Val::Float(n, bits) => !float_nan(n, bits as int),
        Val::Pair(a, b) => numeric_val(*a) && numeric_val(*b),
        Val::List(l) => numeric_vals(l, l.len()),
        Val::Present(a) => numeric_val(*a),
        Val::Nbt(t) => numeric(t),
        Val::Stack(s) => numeric_patch(s.patch, s.patch.len()),
        _ => true,
    }
}

/// Whether no floating-point number in the first `n` values is not a number.
pub open spec fn numeric_vals(l: Seq<Val>, n: nat) -> bool
    decreases l, n,
{
    if n == 0 || n > l.len() {
        true
    } else {
        numeric_vals(l, (n - 1) as nat) && numeric_val(l[n - 1])
    }
}

/// Whether no floating-point number in the first `n` entries of a patch is not a number; custom data
/// may hold such numbers.
pub open spec fn numeric_patch(p: PatchVal, n: nat) -> bool
    decreases p, n,
{
    if n == 0 || n > p.len() {
        true
    } else {
        numeric_patch(p, (n - 1) as nat) && match p[n - 1].1 {
            Some(c) => c.kind == DataComponent::CustomData || numeric_val(c.val),
            None => true,
        }
    }
}

/// Each of tidy values is tidy.
pub proof fn lemma_tidy_at(l: Seq<Val>, n: nat, i: int)
    requires
        0 <= i < n <= l.len(),
        tidy_vals(l, n),
    ensures
        tidy_val(l[i]),
    decreases n,
{
    if i < n - 1 {
        lemma_tidy_at(l, (n - 1) as nat, i);
    }
}

/// Each component of a tidy patch is tidy.
pub proof fn lemma_tidy_entry_at(p: PatchVal, n: nat, i: int)
    requires
        0 <= i < n <= p.len(),
        tidy_patch(p, n),
    ensures
        p[i].1 matches Some(c) ==> tidy_component(c),
    decreases n,
{
    if i < n - 1 {
        lemma_tidy_entry_at(p, (n - 1) as nat, i);
    }
}

proof fn lemma_vals_at(x: Seq<Val>, y: Seq<Val>, n: nat, i: int)
    requires
        0 <= i < n <= x.len(),
        vals_same(x, y, n),
    ensures
        val_same(x[i], y[i]),
    decreases n,
{
    if i < n - 1 {
        lemma_vals_at(x, y, (n - 1) as nat, i);
    }
}

/// What the last place of a key is.
pub proof fn lemma_last_key(l: Seq<Val>, k: Seq<char>, n: nat)
    requires
        n <= l.len(),
    ensures
        match last_key(l, k, n) {
            Some(i) => 0 <= i < n && key_of(l[i]) == k && (forall|j: int| i < j < n ==> key_of(#[trigger] l[j]) != k),
            None => forall|j: int| 0 <= j < n ==> key_of(#[trigger] l[j]) != k,
        },
    decreases n,
{
    if n > 0 {
        lemma_last_key(l, k, (n - 1) as nat);
    }
}

/// What the first place of a slot is.
pub proof fn lemma_first_slot(l: Seq<Val>, slot: int, i: int)
    requires
        0 <= i <= l.len(),
    ensures
        match first_slot(l, slot, i) {
            Some(j) => i <= j < l.len() && slot_of(l[j]) == slot,
            None => forall|j: int| i <= j < l.len() ==> slot_of(#[trigger] l[j]) != slot,
        },
    decreases l.len() - i,
{
    if i < l.len() && slot_of(l[i]) != slot {
        lemma_first_slot(l, slot, i + 1);
    }
}

/// A value is the same as itself.
pub proof fn lemma_val_same_as_itself(v: Val)
    requires
        tidy_val(v),
        numeric_val(v),
    ensures
        val_same(v, v),
    decreases v, 0nat,
{
    match v {
        Val::Pair(a, b) => {
            lemma_val_same_as_itself(*a);
            lemma_val_same_as_itself(*b);
        },
        Val::List(l) => {
            lemma_vals_same_as_themselves(l, l.len());
        },
        Val::Present(a) => {
            lemma_val_same_as_itself(*a);
        },
        Val::Nbt(t) => {
            lemma_tag_matches_itself(t, false);
        },
        Val::Stack(s) => {
            lemma_patch_same_as_itself(s.patch, s.patch.len());
            lemma_covers_itself(s.patch);
            assert(items_same(s, s));
            assert(stack_same(s, s));
        },
        _ => {},
    }
}

proof fn lemma_vals_same_as_themselves(l: Seq<Val>, n: nat)
    requires
        n <= l.len(),
        tidy_vals(l, n),
        numeric_vals(l, n),
    ensures
        vals_same(l, l, n),
    decreases l, n,
{
    if n > 0 {
        lemma_vals_same_as_themselves(l, (n - 1) as nat);
        lemma_val_same_as_itself(l[n - 1]);
    }
}

proof fn lemma_covers_itself(p: PatchVal)
    ensures
        covered(p, p),
{
    assert forall|i: int| 0 <= i < p.len() implies last_place(p, (#[trigger] p[i]).0, p.len()) is Some by {
        lemma_last_place(p, p[i].0, p.len());
    }
}

proof fn lemma_patch_same_as_itself(p: PatchVal, n: nat)
    requires
        n <= p.len(),
        tidy_patch(p, n),
        numeric_patch(p, n),
    ensures
        patch_same(p, p, n),
    decreases p, n,
{
    if n > 0 {
        lemma_patch_same_as_itself(p, (n - 1) as nat);
        match p[n - 1].1 {
            Some(c) => {
                lemma_component_same_as_itself(c);
            },
            None => {},
        }
    }
}

proof fn lemma_keyed_same_as_itself(l: Seq<Val>, n: nat)
    requires
        n <= l.len(),
        tidy_vals(l, n),
        numeric_vals(l, n),
    ensures
        keyed_same(l, l, n),
    decreases l, n,
{
    if n > 0 {
        lemma_keyed_same_as_itself(l, (n - 1) as nat);
        lemma_val_same_as_itself(l[n - 1]);
    }
}

proof fn lemma_slots_same_as_themselves(l: Seq<Val>, n: nat)
    requires
        n <= l.len(),
        slots_distinct(l),
        tidy_vals(l, n),
        numeric_vals(l, n),
    ensures
        slots_same(l, l, n),
    decreases l, n,
{
    if n > 0 {
        lemma_slots_same_as_themselves(l, (n - 1) as nat);
        lemma_val_same_as_itself(l[n - 1]);
        lemma_first_slot(l, slot_of(l[n - 1]), 0);
        match first_slot(l, slot_of(l[n - 1]), 0) {
            Some(j) => {
                if j < n - 1 {
                    assert(slot_of(l[j]) != slot_of(l[n - 1]));
                } else if j > n - 1 {
                    assert(slot_of(l[n - 1]) != slot_of(l[j]));
                }
            },
            None => {
                assert(slot_of(l[n - 1]) != slot_of(l[n - 1]));
            },
        }
    }
}

/// The value of a component is the same as itself.
pub proof fn lemma_component_same_as_itself(c: ComponentVal)
    requires
        tidy_component(c),
        c.kind == DataComponent::CustomData || numeric_val(c.val),
    ensures
        component_same(c, c),
    decreases c, 1nat,
{
    if c.kind == DataComponent::CustomData {
        lemma_tag_matches_itself(c.val->Nbt_0, true);
    } else if c.kind == DataComponent::BlockState {
    } else if c.kind == DataComponent::MapDecorations {
        let l = c.val->List_0;
        lemma_keyed_same_as_itself(l, l.len());
        assert forall|i: int| 0 <= i < l.len() implies last_key(l, key_of(#[trigger] l[i]), l.len()) is Some by {
            lemma_last_key(l, key_of(l[i]), l.len());
        }
    } else if c.kind == DataComponent::Container {
        let l = c.val->List_0;
        lemma_slots_same_as_themselves(l, l.len());
    } else {
        lemma_val_same_as_itself(c.val);
    }
}

/// A stack has the same item and components as itself.
pub proof fn lemma_items_same_as_themselves(s: StackVal)
    requires
        tidy_patch(s.patch, s.patch.len()),
        numeric_patch(s.patch, s.patch.len()),
    ensures
        items_same(s, s),
        stack_same(s, s),
{
    lemma_patch_same_as_itself(s.patch, s.patch.len());
    lemma_covers_itself(s.patch);
}

/// The keys of a compound.
pub open spec fn keys_of(c: Seq<(Seq<char>, Tag)>) -> Seq<Seq<char>> {
    Seq::new(c.len(), |i: int| c[i].0)
}

/// Keys that are among as many others are those others.
proof fn lemma_all_keys<K>(x: Seq<K>, y: Seq<K>)
    requires
        x.len() == y.len(),
        x.no_duplicates(),
        y.no_duplicates(),
        forall|i: int| 0 <= i < x.len() ==> y.contains(#[trigger] x[i]),
    ensures
        forall|j: int| 0 <= j < y.len() ==> x.contains(#[trigger] y[j]),
{
    x.unique_seq_to_set();
    y.unique_seq_to_set();
    assert(x.to_set().subset_of(y.to_set())) by {
        assert forall|k: K| x.to_set().contains(k) implies y.to_set().contains(k) by {
            let i = choose|i: int| 0 <= i < x.len() && x[i] == k;
            assert(y.contains(x[i]));
        }
    }
    lemma_subset_equality(x.to_set(), y.to_set());
    assert forall|j: int| 0 <= j < y.len() implies x.contains(#[trigger] y[j]) by {
        assert(y.to_set().contains(y[j]));
    }
}

/// Of two compounds with as many entries, where one has every key of the other, the other has every key of the one.
pub proof fn lemma_keys_covered(x: Seq<(Seq<char>, Tag)>, y: Seq<(Seq<char>, Tag)>, j: int)
    requires
        x.len() == y.len(),
        keys_distinct(x),
        keys_distinct(y),
        forall|i: int| 0 <= i < x.len() ==> compound_get(y, (#[trigger] x[i]).0) is Some,
        0 <= j < y.len(),
    ensures
        compound_get(x, y[j].0) is Some,
{
    let a = keys_of(x);
    let b = keys_of(y);
    assert forall|i: int, k: int| 0 <= i < a.len() && 0 <= k < a.len() && i != k implies a[i] != a[k] by {
        if i < k {
            assert(x[i].0 != x[k].0);
        } else {
            assert(x[k].0 != x[i].0);
        }
    }
    assert forall|i: int, k: int| 0 <= i < b.len() && 0 <= k < b.len() && i != k implies b[i] != b[k] by {
        if i < k {
            assert(y[i].0 != y[k].0);
        } else {
            assert(y[k].0 != y[i].0);
        }
    }
    assert forall|i: int| 0 <= i < a.len() implies b.contains(#[trigger] a[i]) by {
        lemma_key_index(y, x[i].0);
        let k = key_index(y, x[i].0)->0;
        assert(b[k] == a[i]);
    }
    lemma_all_keys(a, b);
    assert(a.contains(b[j]));
    let i = choose|i: int| 0 <= i < a.len() && a[i] == b[j];
    lemma_key_index(x, y[j].0);
    assert(x[i].0 == y[j].0);
}

proof fn lemma_tidy_tag_at(c: Seq<(Seq<char>, Tag)>, n: nat, i: int)
    requires
        0 <= i < n <= c.len(),
        tidy_entries(c, n),
    ensures
        tidy(c[i].1),
    decreases n,
{
    if i < n - 1 {
        lemma_tidy_tag_at(c, (n - 1) as nat, i);
    }
}

/// Matching is symmetric.
pub proof fn lemma_tags_match_back(a: Tag, b: Tag, by_pattern: bool)
    requires
        tidy(a),
        tidy(b),
        tags_match(a, b, by_pattern),
    ensures
        tags_match(b, a, by_pattern),
    decreases a, 0nat, 0nat,
{
    match (a, b) {
        (Tag::List(x), Tag::List(y)) => {
            lemma_lists_match_back(x, y, x.len(), by_pattern);
        },
        (Tag::Compound(x), Tag::Compound(y)) => {
            assert forall|i: int| 0 <= i < x.len() implies compound_get(y, (#[trigger] x[i]).0) is Some by {
                lemma_entry_match(x, y, x.len(), i, by_pattern);
            }
            lemma_entries_match_back(x, y, y.len(), by_pattern);
        },
        _ => {},
    }
}

proof fn lemma_lists_match_back(x: Seq<Tag>, y: Seq<Tag>, n: nat, by_pattern: bool)
    requires
        n <= x.len(),
        x.len() == y.len(),
        tidy_items(x, n),
        tidy_items(y, n),
        lists_match(x, y, n, by_pattern),
    ensures
        lists_match(y, x, n, by_pattern),
    decreases x, n, 0nat,
{
    if n > 0 {
        lemma_lists_match_back(x, y, (n - 1) as nat, by_pattern);
        lemma_tags_match_back(x[n - 1], y[n - 1], by_pattern);
    }
}

proof fn lemma_entries_match_back(x: Seq<(Seq<char>, Tag)>, y: Seq<(Seq<char>, Tag)>, n: nat, by_pattern: bool)
    requires
        n <= y.len(),
        x.len() == y.len(),
        keys_distinct(x),
        keys_distinct(y),
        tidy_entries(x, x.len()),
        tidy_entries(y, y.len()),
        entries_match(x, y, x.len(), by_pattern),
        forall|i: int| 0 <= i < x.len() ==> compound_get(y, (#[trigger] x[i]).0) is Some,
    ensures
        entries_match(y, x, n, by_pattern),
    decreases x, n, 0nat,
{
    if n > 0 {
        let j = n - 1;
        lemma_entries_match_back(x, y, (n - 1) as nat, by_pattern);
        lemma_keys_covered(x, y, j);
        lemma_key_index(x, y[j].0);
        let i = key_index(x, y[j].0)->0;
        lemma_entry_match(x, y, x.len(), i, by_pattern);
        assert forall|k: int| j < k < y.len() implies (#[trigger] y[k]).0 != y[j].0 by {
            assert(y[j].0 != y[k].0);
        }
        lemma_key_index_is(y, y[j].0, j);
        lemma_tidy_tag_at(x, x.len(), i);
        lemma_tidy_tag_at(y, y.len(), j);
        lemma_tags_match_back(x[i].1, y[j].1, by_pattern);
    }
}

/// Sameness of values is symmetric.
pub proof fn lemma_val_same_back(a: Val, b: Val)
    requires
        tidy_val(a),
        tidy_val(b),
        val_same(a, b),
    ensures
        val_same(b, a),
    decreases a, 0nat, 0nat,
{
    match (a, b) {
        (Val::Pair(x, z), Val::Pair(y, w)) => {
            lemma_val_same_back(*x, *y);
            lemma_val_same_back(*z, *w);
        },
        (Val::List(x), Val::List(y)) => {
            lemma_vals_same_back(x, y, x.len());
        },
        (Val::Present(x), Val::Present(y)) => {
            lemma_val_same_back(*x, *y);
        },
        (Val::Nbt(x), Val::Nbt(y)) => {
            lemma_tags_match_back(x, y, false);
        },
        (Val::Stack(x), Val::Stack(y)) => {
            assert(stack_same(x, y));
            assert(items_same(x, y));
            lemma_patch_same_back(x.patch, y.patch, y.patch.len());
            lemma_covered_back(x.patch, y.patch);
            assert(items_same(y, x));
            assert(stack_same(y, x));
        },
        _ => {},
    }
}

proof fn lemma_vals_same_back(x: Seq<Val>, y: Seq<Val>, n: nat)
    requires
        n <= x.len(),
        x.len() == y.len(),
        tidy_vals(x, n),
        tidy_vals(y, n),
        vals_same(x, y, n),
    ensures
        vals_same(y, x, n),
    decreases x, n, 0nat,
{
    if n > 0 {
        lemma_vals_same_back(x, y, (n - 1) as nat);
        lemma_val_same_back(x[n - 1], y[n - 1]);
    }
}

/// Where an effective entry of a patch is found in a patch that is the same.
pub proof fn lemma_patch_at(p: PatchVal, q: PatchVal, n: nat, i: int)
    requires
        0 <= i < n <= p.len(),
        patch_same(p, q, n),
        last_place(p, p[i].0, p.len()) == Some(i),
    ensures
        match last_place(q, p[i].0, q.len()) {
            None => false,
            Some(j) => match (p[i].1, q[j].1) {
                (None, None) => true,
                (Some(a), Some(b)) => component_same(a, b),
                _ => false,
            },
        },
    decreases n,
{
    if i < n - 1 {
        lemma_patch_at(p, q, (n - 1) as nat, i);
    }
}

proof fn lemma_covered_back(p: PatchVal, q: PatchVal)
    requires
        patch_same(p, q, p.len()),
    ensures
        covered(p, q),
{
    assert forall|i: int| 0 <= i < p.len() implies last_place(q, (#[trigger] p[i]).0, q.len()) is Some by {
        let k = p[i].0;
        lemma_last_place(p, k, p.len());
        lemma_patch_at(p, q, p.len(), last_place(p, k, p.len())->0);
    }
}

proof fn lemma_patch_same_back(p: PatchVal, q: PatchVal, n: nat)
    requires
        n <= q.len(),
        tidy_patch(p, p.len()),
        tidy_patch(q, q.len()),
        patch_same(p, q, p.len()),
        covered(q, p),
    ensures
        patch_same(q, p, n),
    decreases p, n, 0nat,
{
    if n > 0 {
        let j = n - 1;
        let k = q[j].0;
        lemma_patch_same_back(p, q, (n - 1) as nat);
        if last_place(q, k, q.len()) == Some(j) {
            assert(last_place(p, q[j].0, p.len()) is Some);
            lemma_last_place(p, k, p.len());
            let i = last_place(p, k, p.len())->0;
            lemma_patch_at(p, q, p.len(), i);
            lemma_tidy_entry_at(p, p.len(), i);
            lemma_tidy_entry_at(q, q.len(), j);
            match (p[i].1, q[j].1) {
                (Some(a), Some(b)) => {
                    lemma_component_same_back(a, b);
                },
                _ => {},
            }
        }
    }
}

/// Where a value is found among values that are the same by their keys.
pub proof fn lemma_keyed_at(x: Seq<Val>, y: Seq<Val>, n: nat, i: int)
    requires
        0 <= i < n <= x.len(),
        keyed_same(x, y, n),
        last_key(x, key_of(x[i]), x.len()) == Some(i),
    ensures
        last_key(y, key_of(x[i]), y.len()) matches Some(j) && val_same(x[i], y[j]),
    decreases n,
{
    if i < n - 1 {
        lemma_keyed_at(x, y, (n - 1) as nat, i);
    }
}

proof fn lemma_keyed_same_back(x: Seq<Val>, y: Seq<Val>, n: nat)
    requires
        n <= y.len(),
        tidy_vals(x, x.len()),
        tidy_vals(y, y.len()),
        keyed_same(x, y, x.len()),
        keys_covered(y, x),
    ensures
        keyed_same(y, x, n),
    decreases x, n, 0nat,
{
    if n > 0 {
        let j = n - 1;
        let k = key_of(y[j]);
        lemma_keyed_same_back(x, y, (n - 1) as nat);
        if last_key(y, k, y.len()) == Some(j) {
            assert(last_key(x, key_of(y[j]), x.len()) is Some);
            lemma_last_key(x, k, x.len());
            let i = last_key(x, k, x.len())->0;
            lemma_keyed_at(x, y, x.len(), i);
            lemma_tidy_at(x, x.len(), i);
            lemma_tidy_at(y, y.len(), j);
            lemma_val_same_back(x[i], y[j]);
        }
    }
}

/// Where a stack is found in a container that is the same.
pub proof fn lemma_slots_at(x: Seq<Val>, y: Seq<Val>, n: nat, i: int)
    requires
        0 <= i < n <= x.len(),
        slots_same(x, y, n),
    ensures
        first_slot(y, slot_of(x[i]), 0) matches Some(j) && val_same(x[i], y[j]),
    decreases n,
{
    if i < n - 1 {
        lemma_slots_at(x, y, (n - 1) as nat, i);
    }
}

/// The slots of the stacks of a container.
pub open spec fn slots_in(l: Seq<Val>) -> Seq<int> {
    Seq::new(l.len(), |i: int| slot_of(l[i]))
}

/// Containers that are the same have the same slots.
pub proof fn lemma_slot_back(x: Seq<Val>, y: Seq<Val>, j: int)
    requires
        x.len() == y.len(),
        slots_distinct(x),
        slots_distinct(y),
        slots_same(x, y, x.len()),
        0 <= j < y.len(),
    ensures
        first_slot(x, slot_of(y[j]), 0) matches Some(i) && 0 <= i < x.len() && slot_of(x[i]) == slot_of(y[j]) && first_slot(
            y,
            slot_of(x[i]),
            0,
        ) == Some(j),
{
    let a = slots_in(x);
    let b = slots_in(y);
    assert forall|i: int, k: int| 0 <= i < a.len() && 0 <= k < a.len() && i != k implies a[i] != a[k] by {
        if i < k {
            assert(slot_of(x[i]) != slot_of(x[k]));
        } else {
            assert(slot_of(x[k]) != slot_of(x[i]));
        }
    }
    assert forall|i: int, k: int| 0 <= i < b.len() && 0 <= k < b.len() && i != k implies b[i] != b[k] by {
        if i < k {
            assert(slot_of(y[i]) != slot_of(y[k]));
        } else {
            assert(slot_of(y[k]) != slot_of(y[i]));
        }
    }
    assert forall|i: int| 0 <= i < a.len() implies b.contains(#[trigger] a[i]) by {
        lemma_slots_at(x, y, x.len(), i);
        lemma_first_slot(y, slot_of(x[i]), 0);
        let k = first_slot(y, slot_of(x[i]), 0)->0;
        assert(b[k] == a[i]);
    }
    lemma_all_keys(a, b);
    assert(a.contains(b[j]));
    let i = choose|i: int| 0 <= i < a.len() && a[i] == b[j];
    lemma_first_slot(x, slot_of(y[j]), 0);
    assert(slot_of(x[i]) == slot_of(y[j]));
    lemma_first_slot(y, slot_of(y[j]), 0);
    let m = first_slot(y, slot_of(y[j]), 0);
    match m {
        Some(m) => {
            if m != j {
                assert(b[m] != b[j]);
            }
        },
        None => {
            assert(slot_of(y[j]) != slot_of(y[j]));
        },
    }
}

proof fn lemma_slots_same_back(x: Seq<Val>, y: Seq<Val>, n: nat)
    requires
        n <= y.len(),
        x.len() == y.len(),
        slots_distinct(x),
        slots_distinct(y),
        tidy_vals(x, x.len()),
        tidy_vals(y, y.len()),
        slots_same(x, y, x.len()),
    ensures
        slots_same(y, x, n),
    decreases x, n, 0nat,
{
    if n > 0 {
        let j = n - 1;
        lemma_slots_same_back(x, y, (n - 1) as nat);
        lemma_slot_back(x, y, j);
        let i = first_slot(x, slot_of(y[j]), 0)->0;
        lemma_slots_at(x, y, x.len(), i);
        lemma_tidy_at(x, x.len(), i);
        lemma_tidy_at(y, y.len(), j);
        lemma_val_same_back(x[i], y[j]);
    }
}

/// Sameness of components is symmetric.
pub proof fn lemma_component_same_back(a: ComponentVal, b: ComponentVal)
    requires
        tidy_component(a),
        tidy_component(b),
        component_same(a, b),
    ensures
        component_same(b, a),
    decreases a, 1nat, 0nat,
{
    if a.kind == DataComponent::CustomData {
        lemma_tags_match_back(a.val->Nbt_0, b.val->Nbt_0, true);
    } else if a.kind == DataComponent::BlockState {
        let x = a.val->List_0;
        let y = b.val->List_0;
        assert forall|k: Seq<char>| #[trigger] crate::same::values_of(y, k) == crate::same::values_of(x, k) by {
            assert(crate::same::values_of(x, k) == crate::same::values_of(y, k));
        }
    } else if a.kind == DataComponent::MapDecorations {
        let x = a.val->List_0;
        let y = b.val->List_0;
        lemma_keyed_same_back(x, y, y.len());
        assert forall|i: int| 0 <= i < x.len() implies last_key(y, key_of(#[trigger] x[i]), y.len()) is Some by {
            lemma_last_key(x, key_of(x[i]), x.len());
            lemma_keyed_at(x, y, x.len(), last_key(x, key_of(x[i]), x.len())->0);
        }
    } else if a.kind == DataComponent::Container {
        lemma_slots_same_back(a.val->List_0, b.val->List_0, b.val->List_0.len());
    } else {
        lemma_val_same_back(a.val, b.val);
    }
}

/// Two stacks have the same item and components in either direction or in none.
pub proof fn lemma_items_same_either_way(x: StackVal, y: StackVal)
    requires
        tidy_patch(x.patch, x.patch.len()),
        tidy_patch(y.patch, y.patch.len()),
    ensures
        items_same(x, y) == items_same(y, x),
        stack_same(x, y) == stack_same(y, x),
{
    if items_same(x, y) {
        lemma_patch_same_back(x.patch, y.patch, y.patch.len());
        lemma_covered_back(x.patch, y.patch);
    }
    if items_same(y, x) {
        lemma_patch_same_back(y.patch, x.patch, x.patch.len());
        lemma_covered_back(y.patch, x.patch);
    }
}

} // verus!
