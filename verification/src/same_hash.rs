//! Components and stacks that are the same have the same checksum.
use vstd::prelude::*;
use crate::component_hash::{component_hash, decoration_bytes, decorations_bytes, flat_hash, in_key_order, keyed_after, patch_hashes, slot_hash, slot_hashes, stack_hash};
use crate::data_component::{component_id, lemma_component_of_own_id, DataComponent};
use crate::equal_laws::{lemma_first_slot, lemma_keyed_at, lemma_keys_covered, lemma_last_key, lemma_patch_at, lemma_slot_back, lemma_slots_at, lemma_tidy_at, lemma_tidy_entry_at, slots_distinct, tidy_component, tidy_patch, tidy_val, tidy_vals};
use crate::format::{plain_text, ComponentVal, PatchVal, StackVal, Val};
use crate::hash_laws::{lemma_entry_match, lemma_matching_tags_hash_alike, lemma_placed_last, placed_all, told_apart};
use crate::nbt_tag::{compound_get, key_index, lemma_key_index, Tag};
use crate::patch_laws::{entry_in, lemma_effective_entry};
use crate::persist::{as_list, as_nbt, canonical, text_less};
use crate::same::{component_same, covered, first_slot, items_same, key_of, keyed_same, keys_covered, last_key, last_place, patch_same, same_groups, slot_of, slots_same, stack_same, tags_match, val_same, vals_same, values_of};
use crate::sorted::{ascending, lemma_canonical_ascends, lemma_less_is_strict, lemma_less_is_total, lemma_less_is_transitive, lemma_sorted_put};
use crate::stack::{effective, lemma_last_place};
use crate::wire_return::single;

verus! {

/// Whether entries have different numbers.
pub open spec fn numbers_distinct<T>(s: Seq<(u64, T)>) -> bool {
    forall|i: int, j: int| 0 <= i < j < s.len() ==> (#[trigger] s[i]).0 != (#[trigger] s[j]).0
}

/// The same entries are placed alike, whatever their order.
pub proof fn lemma_placed_alike<T>(a: Seq<(u64, T)>, b: Seq<(u64, T)>)
    requires
        numbers_distinct(a),
        numbers_distinct(b),
        forall|i: int| 0 <= i < a.len() ==> b.contains(#[trigger] a[i]),
        forall|i: int| 0 <= i < b.len() ==> a.contains(#[trigger] b[i]),
    ensures
        placed_all(a) == placed_all(b),
    decreases a.len(),
{
    if a.len() == 0 {
        if b.len() > 0 {
            assert(a.contains(b[0]));
        }
        assert(a =~= b);
    } else {
        let n = a.len() - 1;
        let e = a[n];
        assert(b.contains(e));
        let j = choose|j: int| 0 <= j < b.len() && b[j] == e;
        let x = a.drop_last();
        let y = b.remove(j);
        assert forall|i: int, k: int| 0 <= i < b.len() && 0 <= k < b.len() implies told_apart(#[trigger] b[i], #[trigger] b[k]) by {
            if i < k {
                assert(b[i].0 != b[k].0);
            } else if k < i {
                assert(b[k].0 != b[i].0);
            }
        }
        lemma_placed_last(b, j);
        assert forall|i: int, k: int| 0 <= i < k < x.len() implies (#[trigger] x[i]).0 != (#[trigger] x[k]).0 by {
            assert(a[i].0 != a[k].0);
        }
        assert forall|i: int, k: int| 0 <= i < k < y.len() implies (#[trigger] y[i]).0 != (#[trigger] y[k]).0 by {
            let p = if i < j {
                i
            } else {
                i + 1
            };
            let q = if k < j {
                k
            } else {
                k + 1
            };
            assert(b[p].0 != b[q].0);
        }
        assert forall|i: int| 0 <= i < x.len() implies y.contains(#[trigger] x[i]) by {
            assert(b.contains(a[i]));
            let m = choose|m: int| 0 <= m < b.len() && b[m] == a[i];
            assert(a[i].0 != a[n].0);
            let k = if m < j {
                m
            } else {
                m - 1
            };
            assert(y[k] == b[m]);
        }
        assert forall|k: int| 0 <= k < y.len() implies x.contains(#[trigger] y[k]) by {
            let m = if k < j {
                k
            } else {
                k + 1
            };
            assert(y[k] == b[m]);
            assert(a.contains(b[m]));
            let i = choose|i: int| 0 <= i < a.len() && a[i] == b[m];
            if m < j {
                assert(b[m].0 != b[j].0);
            } else {
                assert(b[j].0 != b[m].0);
            }
            assert(x[i] == a[i]);
        }
        lemma_placed_alike(x, y);
    }
}

/// Whether a value holds no floating-point number, tag or stack.
pub open spec fn rigid(v: Val) -> bool
    decreases v, 0nat,
{
    match v {
        Val::Float(_, _) => false,
        Val::Nbt(_) => false,
        Val::Stack(_) => false,
        Val::Pair(a, b) => rigid(*a) && rigid(*b),
        Val::Present(a) => rigid(*a),
        Val::List(l) => rigid_vals(l, l.len()),
        _ => true,
    }
}

/// Whether the first `n` values hold no floating-point number, tag or stack.
pub open spec fn rigid_vals(l: Seq<Val>, n: nat) -> bool
    decreases l, n,
{
    if n == 0 || n > l.len() {
        true
    } else {
        rigid_vals(l, (n - 1) as nat) && rigid(l[n - 1])
    }
}

proof fn lemma_rigid(a: Val, b: Val)
    requires
        rigid(a),
        val_same(a, b),
    ensures
        a == b,
    decreases a, 0nat,
{
    match (a, b) {
        (Val::Pair(x, z), Val::Pair(y, w)) => {
            lemma_rigid(*x, *y);
            lemma_rigid(*z, *w);
        },
        (Val::Present(x), Val::Present(y)) => {
            lemma_rigid(*x, *y);
        },
        (Val::List(x), Val::List(y)) => {
            lemma_rigid_vals(x, y, x.len());
            assert(x =~= y);
        },
        _ => {},
    }
}

proof fn lemma_rigid_vals(x: Seq<Val>, y: Seq<Val>, n: nat)
    requires
        n <= x.len(),
        x.len() == y.len(),
        rigid_vals(x, n),
        vals_same(x, y, n),
    ensures
        forall|i: int| 0 <= i < n ==> #[trigger] x[i] == y[i],
    decreases x, n,
{
    if n > 0 {
        lemma_rigid_vals(x, y, (n - 1) as nat);
        lemma_rigid(x[n - 1], y[n - 1]);
    }
}

proof fn lemma_same_text_at(x: Seq<(Seq<char>, Tag)>, y: Seq<(Seq<char>, Tag)>, key: Seq<char>)
    requires
        crate::hash_laws::tidy(Tag::Compound(x)),
        crate::hash_laws::tidy(Tag::Compound(y)),
        tags_match(Tag::Compound(x), Tag::Compound(y), false),
    ensures
        match (compound_get(x, key), compound_get(y, key)) {
            (Some(Tag::String(s)), Some(Tag::String(t))) => s == t,
            (Some(Tag::String(_)), _) => false,
            (_, Some(Tag::String(_))) => false,
            _ => true,
        },
{
    assert forall|i: int| 0 <= i < x.len() implies compound_get(y, (#[trigger] x[i]).0) is Some by {
        lemma_entry_match(x, y, x.len(), i, false);
    }
    lemma_key_index(x, key);
    lemma_key_index(y, key);
    match key_index(x, key) {
        Some(i) => {
            lemma_entry_match(x, y, x.len(), i, false);
        },
        None => {
            match key_index(y, key) {
                Some(j) => {
                    lemma_keys_covered(x, y, j);
                },
                None => {},
            }
        },
    }
}

proof fn lemma_same_plain_text(a: Tag, b: Tag)
    requires
        crate::hash_laws::tidy(a),
        crate::hash_laws::tidy(b),
        tags_match(a, b, false),
    ensures
        plain_text(a) == plain_text(b),
{
    match (a, b) {
        (Tag::Compound(x), Tag::Compound(y)) => {
            lemma_same_text_at(x, y, "text"@);
            lemma_same_text_at(x, y, "translate"@);
        },
        _ => {},
    }
}

/// Whether a value has the shape of a marker on a map.
pub open spec fn marker(v: Val) -> bool {
    v matches Val::Pair(k, e) && *k is Text && (*e matches Val::Pair(kind, p) && *kind is Text && (*p matches Val::Pair(x, q) && (
    *x matches Val::Float(n, _) && n == 8) && (*q matches Val::Pair(z, r) && (*z matches Val::Float(n, _) && n == 8) && (*r matches Val::Float(
        n,
        _,
    ) && n == 4))))
}

proof fn lemma_marker_bytes(a: Val, b: Val)
    requires
        marker(a),
        val_same(a, b),
    ensures
        decoration_bytes(a) == decoration_bytes(b),
        key_of(a) == key_of(b),
{
    reveal_with_fuel(val_same, 6);
}

proof fn lemma_canonical_has(l: Seq<Val>, n: nat)
    requires
        n <= l.len(),
    ensures
        forall|i: int| 0 <= i < canonical(l, n).len() ==> (last_key(l, key_of(#[trigger] canonical(l, n)[i]), n) matches Some(j) && l[j]
            == canonical(l, n)[i]),
        forall|j: int| 0 <= j < n && last_key(l, key_of(#[trigger] l[j]), n) == Some(j) ==> canonical(l, n).contains(l[j]),
    decreases n,
{
    if n > 0 {
        let m = (n - 1) as nat;
        let v = l[n - 1];
        let c = canonical(l, m);
        let d = canonical(l, n);
        lemma_canonical_has(l, m);
        lemma_canonical_ascends(l, m);
        lemma_sorted_put(c, v);
        assert forall|i: int| 0 <= i < d.len() implies (last_key(l, key_of(#[trigger] d[i]), n) matches Some(j) && l[j] == d[i]) by {
            assert(d.contains(d[i]));
            if d[i] != v {
                assert(c.contains(d[i]) && key_of(d[i]) != key_of(v));
                let k = choose|k: int| 0 <= k < c.len() && c[k] == d[i];
                assert(last_key(l, key_of(c[k]), m) is Some);
            }
        }
        assert forall|j: int| 0 <= j < n && last_key(l, key_of(#[trigger] l[j]), n) == Some(j) implies d.contains(l[j]) by {
            if j < m {
                assert(key_of(l[j]) != key_of(v));
                assert(last_key(l, key_of(l[j]), m) == Some(j));
                assert(c.contains(l[j]));
            }
        }
    }
}

/// Whether two markers have the same key and the same bytes.
#[verifier::opaque]
pub open spec fn alike(a: Val, b: Val) -> bool {
    key_of(a) == key_of(b) && decoration_bytes(a) == decoration_bytes(b)
}

/// The key of a marker, and what its checksum is taken of.
proof fn lemma_alike(a: Val, b: Val)
    requires
        alike(a, b),
    ensures
        key_of(a) == key_of(b),
        decoration_bytes(a) == decoration_bytes(b),
{
    reveal(alike);
}

/// Whether a list has a marker that is alike.
pub open spec fn marker_in(b: Seq<Val>, v: Val) -> bool {
    exists|j: int| 0 <= j < b.len() && alike(v, #[trigger] b[j])
}

/// Whether every marker of `a` has one in `b` that is alike.
pub open spec fn markers_covered(a: Seq<Val>, b: Seq<Val>) -> bool {
    forall|i: int| 0 <= i < a.len() ==> marker_in(b, #[trigger] a[i])
}

proof fn lemma_last_key_covered(a: Seq<Val>, b: Seq<Val>)
    requires
        ascending(b),
        a.len() > 0,
        b.len() > 0,
        markers_covered(a, b),
    ensures
        !text_less(key_of(b.last()), key_of(a.last())),
        key_of(a.last()) == key_of(b.last()) ==> alike(a.last(), b.last()),
{
    let v = a[a.len() - 1];
    let m = b.len() - 1;
    assert(marker_in(b, v));
    let j = choose|j: int| 0 <= j < b.len() && alike(v, #[trigger] b[j]);
    lemma_alike(v, b[j]);
    if j < m {
        assert(text_less(key_of(b[j]), key_of(b[m])));
        lemma_less_is_strict(key_of(b[j]));
        if text_less(key_of(b[m]), key_of(v)) {
            lemma_less_is_transitive(key_of(b[j]), key_of(b[m]), key_of(v));
        }
    } else {
        lemma_less_is_strict(key_of(v));
    }
}

proof fn lemma_same_markers(a: Seq<Val>, b: Seq<Val>)
    requires
        ascending(a),
        ascending(b),
        markers_covered(a, b),
        markers_covered(b, a),
    ensures
        a.len() == b.len(),
        decorations_bytes(a, a.len()) == decorations_bytes(b, b.len()),
    decreases a.len(),
{
    if a.len() == 0 || b.len() == 0 {
        if a.len() > 0 {
            assert(marker_in(b, a[0]));
        }
        if b.len() > 0 {
            assert(marker_in(a, b[0]));
        }
    } else {
        lemma_last_key_covered(a, b);
        lemma_last_key_covered(b, a);
        if key_of(a.last()) != key_of(b.last()) {
            lemma_less_is_total(key_of(a.last()), key_of(b.last()));
        }
        lemma_alike(a.last(), b.last());
        let x = a.drop_last();
        let y = b.drop_last();
        lemma_drop_last_marker(a, b);
        lemma_drop_last_marker(b, a);
        lemma_same_markers(x, y);
        lemma_decorations_prefix(a, x.len());
        lemma_decorations_prefix(b, y.len());
        assert(a[a.len() - 1] == a.last() && b[b.len() - 1] == b.last());
    }
}

proof fn lemma_drop_last_marker(a: Seq<Val>, b: Seq<Val>)
    requires
        ascending(a),
        a.len() > 0,
        b.len() > 0,
        key_of(a.last()) == key_of(b.last()),
        markers_covered(a, b),
    ensures
        ascending(a.drop_last()),
        markers_covered(a.drop_last(), b.drop_last()),
{
    let x = a.drop_last();
    let y = b.drop_last();
    assert forall|i: int, j: int| 0 <= i < j < x.len() implies text_less(key_of(#[trigger] x[i]), key_of(#[trigger] x[j])) by {
        assert(text_less(key_of(a[i]), key_of(a[j])));
    }
    assert forall|i: int| 0 <= i < x.len() implies marker_in(y, #[trigger] x[i]) by {
        assert(x[i] == a[i]);
        assert(marker_in(b, a[i]));
        let j = choose|j: int| 0 <= j < b.len() && alike(a[i], #[trigger] b[j]);
        lemma_alike(a[i], b[j]);
        assert(text_less(key_of(a[i]), key_of(a[a.len() - 1])));
        lemma_less_is_strict(key_of(a[i]));
        assert(j < y.len());
        assert(y[j] == b[j]);
    }
}

proof fn lemma_decorations_prefix(l: Seq<Val>, n: nat)
    requires
        n < l.len(),
    ensures
        decorations_bytes(l.drop_last(), n) == decorations_bytes(l, n),
    decreases n,
{
    if n > 0 {
        lemma_decorations_prefix(l, (n - 1) as nat);
        assert(l.drop_last()[n - 1] == l[n - 1]);
    }
}

/// Whether every value has the shape of a marker on a map.
pub open spec fn all_markers(l: Seq<Val>) -> bool {
    forall|i: int| 0 <= i < l.len() ==> marker(#[trigger] l[i])
}

proof fn lemma_canonical_covered(x: Seq<Val>, y: Seq<Val>)
    requires
        all_markers(x),
        keyed_same(x, y, x.len()),
    ensures
        markers_covered(canonical(x, x.len()), canonical(y, y.len())),
{
    let a = canonical(x, x.len());
    let b = canonical(y, y.len());
    lemma_canonical_has(x, x.len());
    lemma_canonical_has(y, y.len());
    assert forall|i: int| 0 <= i < a.len() implies marker_in(b, #[trigger] a[i]) by {
        let k = last_key(x, key_of(a[i]), x.len())->0;
        lemma_last_key(x, key_of(a[i]), x.len());
        lemma_keyed_at(x, y, x.len(), k);
        let m = last_key(y, key_of(x[k]), y.len())->0;
        lemma_last_key(y, key_of(x[k]), y.len());
        assert(marker(x[k]));
        lemma_marker_bytes(x[k], y[m]);
        assert(last_key(y, key_of(y[m]), y.len()) == Some(m));
        assert(b.contains(y[m]));
        let j = choose|j: int| 0 <= j < b.len() && b[j] == y[m];
        assert(alike(a[i], b[j])) by {
            reveal(alike);
        }
    }
}

proof fn lemma_canonical_covered_back(x: Seq<Val>, y: Seq<Val>)
    requires
        all_markers(x),
        keyed_same(x, y, x.len()),
        keys_covered(y, x),
    ensures
        markers_covered(canonical(y, y.len()), canonical(x, x.len())),
{
    let a = canonical(x, x.len());
    let b = canonical(y, y.len());
    lemma_canonical_has(x, x.len());
    lemma_canonical_has(y, y.len());
    assert forall|j: int| 0 <= j < b.len() implies marker_in(a, #[trigger] b[j]) by {
        let m = last_key(y, key_of(b[j]), y.len())->0;
        lemma_last_key(y, key_of(b[j]), y.len());
        assert(last_key(x, key_of(y[m]), x.len()) is Some);
        let k = last_key(x, key_of(y[m]), x.len())->0;
        lemma_last_key(x, key_of(y[m]), x.len());
        lemma_keyed_at(x, y, x.len(), k);
        assert(marker(x[k]));
        lemma_marker_bytes(x[k], y[m]);
        assert(last_key(x, key_of(x[k]), x.len()) == Some(k));
        assert(a.contains(x[k]));
        let i = choose|i: int| 0 <= i < a.len() && a[i] == x[k];
        assert(alike(b[j], a[i])) by {
            reveal(alike);
        }
    }
}

proof fn lemma_same_decorations(x: Seq<Val>, y: Seq<Val>)
    requires
        all_markers(x),
        keyed_same(x, y, x.len()),
        keys_covered(y, x),
    ensures
        ({
            let a = canonical(x, x.len());
            let b = canonical(y, y.len());
            decorations_bytes(a, a.len()) == decorations_bytes(b, b.len())
        }),
{
    lemma_canonical_ascends(x, x.len());
    lemma_canonical_ascends(y, y.len());
    lemma_canonical_covered(x, y);
    lemma_canonical_covered_back(x, y);
    lemma_same_markers(canonical(x, x.len()), canonical(y, y.len()));
}

/// Whether the keys of a list do not descend.
pub open spec fn in_order(l: Seq<Val>) -> bool {
    forall|i: int, j: int| 0 <= i < j < l.len() ==> !text_less(key_of(#[trigger] l[j]), key_of(#[trigger] l[i]))
}

proof fn lemma_values_pushed(l: Seq<Val>, v: Val, k: Seq<char>)
    ensures
        values_of(l.push(v), k) == if key_of(v) == k {
            values_of(l, k).push(v)
        } else {
            values_of(l, k)
        },
{
    reveal(Seq::filter);
    assert(l.push(v).drop_last() =~= l);
}

proof fn lemma_keyed_after(l: Seq<Val>, v: Val, k: Seq<char>)
    requires
        in_order(l),
    ensures
        in_order(keyed_after(l, v)),
        keyed_after(l, v).len() == l.len() + 1,
        values_of(keyed_after(l, v), k) == values_of(l.push(v), k),
        forall|i: int| 0 <= i < keyed_after(l, v).len() ==> #[trigger] keyed_after(l, v)[i] == v || l.contains(keyed_after(l, v)[i]),
    decreases l.len(),
{
    let r = keyed_after(l, v);
    if l.len() == 0 {
        assert(r =~= l.push(v));
    } else if !text_less(key_of(v), key_of(l.last())) {
        assert forall|i: int, j: int| 0 <= i < j < r.len() implies !text_less(key_of(#[trigger] r[j]), key_of(#[trigger] r[i])) by {
            if j == l.len() {
                if i < l.len() - 1 {
                    let x = key_of(l[i]);
                    let y = key_of(l[l.len() - 1]);
                    assert(!text_less(y, x));
                    if text_less(key_of(v), x) {
                        if x == y {
                        } else {
                            lemma_less_is_total(x, y);
                            lemma_less_is_transitive(key_of(v), x, y);
                        }
                    }
                }
            } else {
                assert(!text_less(key_of(l[j]), key_of(l[i])));
            }
        }
    } else {
        let m = l.drop_last();
        let x = l.last();
        assert forall|i: int, j: int| 0 <= i < j < m.len() implies !text_less(key_of(#[trigger] m[j]), key_of(#[trigger] m[i])) by {
            assert(!text_less(key_of(l[j]), key_of(l[i])));
        }
        lemma_keyed_after(m, v, k);
        let t = keyed_after(m, v);
        lemma_values_pushed(t, x, k);
        lemma_values_pushed(m, v, k);
        lemma_values_pushed(m, x, k);
        lemma_values_pushed(l, v, k);
        assert(m.push(x) =~= l);
        lemma_less_is_strict(key_of(v));
        assert forall|i: int, j: int| 0 <= i < j < r.len() implies !text_less(key_of(#[trigger] r[j]), key_of(#[trigger] r[i])) by {
            if j == t.len() {
                if t[i] == v {
                    if text_less(key_of(x), key_of(v)) {
                        lemma_less_is_transitive(key_of(v), key_of(x), key_of(v));
                    }
                } else {
                    assert(m.contains(t[i]));
                    let a = choose|a: int| 0 <= a < m.len() && m[a] == t[i];
                    assert(!text_less(key_of(l[l.len() - 1]), key_of(l[a])));
                }
            } else {
                assert(!text_less(key_of(t[j]), key_of(t[i])));
            }
        }
        assert forall|i: int| 0 <= i < r.len() implies #[trigger] r[i] == v || l.contains(r[i]) by {
            if i < t.len() {
                assert(r[i] == t[i]);
                if t[i] != v {
                    assert(m.contains(t[i]));
                    let a = choose|a: int| 0 <= a < m.len() && m[a] == t[i];
                    assert(l[a] == t[i]);
                }
            } else {
                assert(l[l.len() - 1] == x);
            }
        }
    }
}

proof fn lemma_in_key_order(l: Seq<Val>, n: nat, k: Seq<char>)
    requires
        n <= l.len(),
    ensures
        in_order(in_key_order(l, n)),
        in_key_order(l, n).len() == n,
        values_of(in_key_order(l, n), k) == values_of(l.take(n as int), k),
    decreases n,
{
    if n > 0 {
        lemma_in_key_order(l, (n - 1) as nat, k);
        let r = in_key_order(l, (n - 1) as nat);
        let head = l.take(n - 1);
        lemma_keyed_after(r, l[n - 1], k);
        lemma_values_pushed(r, l[n - 1], k);
        lemma_values_pushed(head, l[n - 1], k);
        assert(l.take(n as int) =~= head.push(l[n - 1]));
    } else {
        assert(l.take(0) =~= Seq::empty());
    }
}

proof fn lemma_value_in_group(l: Seq<Val>, i: int)
    requires
        0 <= i < l.len(),
    ensures
        values_of(l, key_of(l[i])).len() > 0,
    decreases l.len(),
{
    let k = key_of(l[i]);
    let m = l.drop_last();
    assert(m.push(l.last()) =~= l);
    lemma_values_pushed(m, l.last(), k);
    if i < l.len() - 1 {
        assert(m[i] == l[i]);
        lemma_value_in_group(m, i);
    }
}

proof fn lemma_group_member(l: Seq<Val>, k: Seq<char>)
    requires
        values_of(l, k).len() > 0,
    ensures
        exists|i: int| 0 <= i < l.len() && key_of(#[trigger] l[i]) == k,
    decreases l.len(),
{
    reveal(Seq::filter);
    let m = l.drop_last();
    assert(l.len() > 0);
    assert(m.push(l.last()) =~= l);
    lemma_values_pushed(m, l.last(), k);
    if key_of(l.last()) == k {
        assert(key_of(l[l.len() - 1]) == k);
    } else {
        lemma_group_member(m, k);
        let i = choose|i: int| 0 <= i < m.len() && key_of(#[trigger] m[i]) == k;
        assert(l[i] == m[i]);
    }
}

proof fn lemma_last_not_below(a: Seq<Val>, b: Seq<Val>)
    requires
        in_order(b),
        a.len() > 0,
        b.len() > 0,
        same_groups(a, b),
    ensures
        !text_less(key_of(b.last()), key_of(a.last())),
{
    let k = key_of(a.last());
    lemma_value_in_group(a, a.len() - 1);
    assert(values_of(a, k) == values_of(b, k));
    lemma_group_member(b, k);
    let i = choose|i: int| 0 <= i < b.len() && key_of(#[trigger] b[i]) == k;
    lemma_less_is_strict(k);
    if i < b.len() - 1 {
        assert(!text_less(key_of(b[b.len() - 1]), key_of(b[i])));
    }
}

/// Lists in order with the same values for every key are the same.
proof fn lemma_same_order(a: Seq<Val>, b: Seq<Val>)
    requires
        in_order(a),
        in_order(b),
        same_groups(a, b),
    ensures
        a == b,
    decreases a.len(),
{
    if a.len() == 0 || b.len() == 0 {
        reveal(Seq::filter);
        if a.len() > 0 {
            lemma_value_in_group(a, 0);
            assert(values_of(a, key_of(a[0])) == values_of(b, key_of(a[0])));
        }
        if b.len() > 0 {
            lemma_value_in_group(b, 0);
            assert(values_of(a, key_of(b[0])) == values_of(b, key_of(b[0])));
        }
        assert(a =~= b);
    } else {
        assert(same_groups(b, a)) by {
            assert forall|k: Seq<char>| #[trigger] values_of(b, k) == values_of(a, k) by {
                assert(values_of(a, k) == values_of(b, k));
            }
        }
        lemma_last_not_below(a, b);
        lemma_last_not_below(b, a);
        let k = key_of(a.last());
        if k != key_of(b.last()) {
            lemma_less_is_total(k, key_of(b.last()));
        }
        let x = a.drop_last();
        let y = b.drop_last();
        assert(x.push(a.last()) =~= a);
        assert(y.push(b.last()) =~= b);
        lemma_values_pushed(x, a.last(), k);
        lemma_values_pushed(y, b.last(), k);
        assert(values_of(a, k) == values_of(b, k));
        assert(values_of(a, k).last() == a.last());
        assert(values_of(b, k).last() == b.last());
        assert forall|c: Seq<char>| #[trigger] values_of(x, c) == values_of(y, c) by {
            lemma_values_pushed(x, a.last(), c);
            lemma_values_pushed(y, b.last(), c);
            assert(values_of(a, c) == values_of(b, c));
            if c == k {
                assert(values_of(x, c) =~= values_of(a, c).drop_last());
                assert(values_of(y, c) =~= values_of(b, c).drop_last());
            }
        }
        assert forall|i: int, j: int| 0 <= i < j < x.len() implies !text_less(key_of(#[trigger] x[j]), key_of(#[trigger] x[i])) by {
            assert(!text_less(key_of(a[j]), key_of(a[i])));
        }
        assert forall|i: int, j: int| 0 <= i < j < y.len() implies !text_less(key_of(#[trigger] y[j]), key_of(#[trigger] y[i])) by {
            assert(!text_less(key_of(b[j]), key_of(b[i])));
        }
        lemma_same_order(x, y);
    }
}

proof fn lemma_same_block_state(x: Seq<Val>, y: Seq<Val>)
    requires
        same_groups(x, y),
    ensures
        in_key_order(x, x.len()) == in_key_order(y, y.len()),
        x.len() == y.len(),
{
    let a = in_key_order(x, x.len());
    let b = in_key_order(y, y.len());
    assert(x.take(x.len() as int) =~= x);
    assert(y.take(y.len() as int) =~= y);
    lemma_in_key_order(x, x.len(), Seq::empty());
    lemma_in_key_order(y, y.len(), Seq::empty());
    assert forall|k: Seq<char>| #[trigger] values_of(a, k) == values_of(b, k) by {
        lemma_in_key_order(x, x.len(), k);
        lemma_in_key_order(y, y.len(), k);
        assert(values_of(x, k) == values_of(y, k));
    }
    lemma_same_order(a, b);
}

/// Whether a value has the shape of its component, and so have the stacks in it.
pub open spec fn shaped(c: ComponentVal) -> bool
    decreases c, 1nat,
{
    match c.kind {
        DataComponent::CustomName | DataComponent::ItemName => c.val is Nbt,
        DataComponent::MapDecorations => c.val matches Val::List(l) && all_markers(l),
        DataComponent::FireworkExplosion | DataComponent::Fireworks | DataComponent::Profile | DataComponent::DebugStickState => rigid(c.val),
        DataComponent::Container => match c.val {
            Val::List(l) => shaped_slots(l, l.len()),
            _ => false,
        },
        DataComponent::SulfurCubeContent => match c.val {
            Val::Stack(s) => shaped_patch(s.patch, s.patch.len()),
            _ => false,
        },
        _ => true,
    }
}

/// Whether the first `n` values are stacks in slots, and shaped.
pub open spec fn shaped_slots(l: Seq<Val>, n: nat) -> bool
    decreases l, n,
{
    if n == 0 || n > l.len() {
        true
    } else {
        shaped_slots(l, (n - 1) as nat) && match l[n - 1] {
            Val::Pair(slot, st) => (*slot matches Val::Int(i) && 0 <= i <= 255) && match *st {
                Val::Stack(s) => shaped_patch(s.patch, s.patch.len()),
                _ => false,
            },
            _ => false,
        }
    }
}

/// Whether the values of the first `n` entries of a patch are shaped.
pub open spec fn shaped_patch(p: PatchVal, n: nat) -> bool
    decreases p, n,
{
    if n == 0 || n > p.len() {
        true
    } else {
        shaped_patch(p, (n - 1) as nat) && match p[n - 1].1 {
            Some(c) => shaped(c),
            None => true,
        }
    }
}

proof fn lemma_shaped_at(p: PatchVal, n: nat, i: int)
    requires
        0 <= i < n <= p.len(),
        shaped_patch(p, n),
    ensures
        p[i].1 matches Some(c) ==> shaped(c),
    decreases n,
{
    if i < n - 1 {
        lemma_shaped_at(p, (n - 1) as nat, i);
    }
}

proof fn lemma_shaped_slot(l: Seq<Val>, n: nat, i: int)
    requires
        0 <= i < n <= l.len(),
        shaped_slots(l, n),
    ensures
        l[i] matches Val::Pair(slot, st) && (*slot matches Val::Int(i) && 0 <= i <= 255) && (*st matches Val::Stack(s) && shaped_patch(
            s.patch,
            s.patch.len(),
        )),
    decreases n,
{
    if i < n - 1 {
        lemma_shaped_slot(l, (n - 1) as nat, i);
    }
}

/// The checksum of an entry of a patch and the number by which it is ordered.
pub open spec fn hash_key(e: (DataComponent, Option<ComponentVal>)) -> (u64, (bool, i32)) {
    (
        component_id(e.0) as u64,
        match e.1 {
            Some(c) => (true, component_hash(c) as i32),
            None => (false, 0i32),
        },
    )
}

/// The checksums of the entries of a patch.
pub open spec fn hash_keys(q: PatchVal) -> Seq<(u64, (bool, i32))> {
    Seq::new(q.len(), |i: int| hash_key(q[i]))
}

proof fn lemma_patch_placed(p: PatchVal, n: nat)
    requires
        n <= p.len(),
    ensures
        patch_hashes(p, n) == placed_all(hash_keys(effective(p, n))),
    decreases n,
{
    if n > 0 {
        let m = (n - 1) as nat;
        let own = p[n - 1].0;
        lemma_patch_placed(p, m);
        lemma_last_place(p, own, p.len());
        if last_place(p, own, m) is None {
            let j = last_place(p, own, p.len())->0;
            let s = hash_keys(effective(p, n));
            assert(s.drop_last() =~= hash_keys(effective(p, m)));
            assert(s.last() == hash_key((own, p[j].1)));
        }
    } else {
        assert(hash_keys(effective(p, 0)) =~= Seq::empty());
    }
}

proof fn lemma_keys_apart(q: PatchVal)
    requires
        single(q),
    ensures
        numbers_distinct(hash_keys(q)),
{
    let s = hash_keys(q);
    assert forall|i: int, j: int| 0 <= i < j < s.len() implies (#[trigger] s[i]).0 != (#[trigger] s[j]).0 by {
        lemma_component_of_own_id(q[i].0);
        lemma_component_of_own_id(q[j].0);
        assert(q[i].0 != q[j].0);
    }
}

proof fn lemma_entry_of_single(q: PatchVal, i: int)
    requires
        single(q),
        0 <= i < q.len(),
    ensures
        entry_in(q, q[i].0) == Some(q[i].1),
{
    let k = q[i].0;
    lemma_last_place(q, k, q.len());
    let j = last_place(q, k, q.len());
    match j {
        Some(j) => {
            if j != i {
                if i < j {
                    assert(q[i].0 != q[j].0);
                } else {
                    assert(q[j].0 != q[i].0);
                }
            }
        },
        None => {
            assert(q[i].0 != k);
        },
    }
}

proof fn lemma_entry_place(q: PatchVal, k: DataComponent, v: Option<ComponentVal>)
    requires
        entry_in(q, k) == Some(v),
    ensures
        q.contains((k, v)),
{
    lemma_last_place(q, k, q.len());
    let j = last_place(q, k, q.len())->0;
    assert(q[j] == (k, v));
}

/// Whether what two patches say of a component has the same checksum.
pub open spec fn said_alike(p: PatchVal, q: PatchVal, k: DataComponent) -> bool {
    match (entry_in(p, k), entry_in(q, k)) {
        (Some(a), Some(b)) => hash_key((k, a)) == hash_key((k, b)),
        (None, None) => true,
        _ => false,
    }
}

proof fn lemma_placed_patches(p: PatchVal, q: PatchVal)
    requires
        forall|k: DataComponent| #[trigger] said_alike(p, q, k),
    ensures
        patch_hashes(p, p.len()) == patch_hashes(q, q.len()),
{
    let a = effective(p, p.len());
    let b = effective(q, q.len());
    lemma_effective_entry(p, DataComponent::CustomData);
    lemma_effective_entry(q, DataComponent::CustomData);
    lemma_patch_placed(p, p.len());
    lemma_patch_placed(q, q.len());
    lemma_keys_apart(a);
    lemma_keys_apart(b);
    let x = hash_keys(a);
    let y = hash_keys(b);
    assert forall|i: int| 0 <= i < x.len() implies y.contains(#[trigger] x[i]) by {
        let k = a[i].0;
        lemma_entry_of_single(a, i);
        lemma_effective_entry(p, k);
        lemma_effective_entry(q, k);
        assert(said_alike(p, q, k));
        let w = entry_in(q, k)->0;
        lemma_entry_place(b, k, w);
        let j = choose|j: int| 0 <= j < b.len() && b[j] == (k, w);
        assert(y[j] == x[i]);
    }
    assert forall|j: int| 0 <= j < y.len() implies x.contains(#[trigger] y[j]) by {
        let k = b[j].0;
        lemma_entry_of_single(b, j);
        lemma_effective_entry(p, k);
        lemma_effective_entry(q, k);
        assert(said_alike(p, q, k));
        let w = entry_in(p, k)->0;
        lemma_entry_place(a, k, w);
        let i = choose|i: int| 0 <= i < a.len() && a[i] == (k, w);
        assert(x[i] == y[j]);
    }
    lemma_placed_alike(x, y);
}

proof fn lemma_flat(a: ComponentVal, b: ComponentVal)
    requires
        tidy_component(a),
        tidy_component(b),
        shaped(a),
        component_same(a, b),
        a.kind != DataComponent::Container,
        a.kind != DataComponent::SulfurCubeContent,
    ensures
        flat_hash(a.kind, a.val) == flat_hash(b.kind, b.val),
{
    match a.kind {
        DataComponent::CustomData => {
            lemma_matching_tags_hash_alike(as_nbt(a.val), as_nbt(b.val));
        },
        DataComponent::CustomName | DataComponent::ItemName => {
            lemma_same_plain_text(as_nbt(a.val), as_nbt(b.val));
        },
        DataComponent::MapDecorations => {
            lemma_same_decorations(as_list(a.val), as_list(b.val));
        },
        DataComponent::BlockState => {
            lemma_same_block_state(as_list(a.val), as_list(b.val));
        },
        DataComponent::FireworkExplosion | DataComponent::Fireworks | DataComponent::Profile | DataComponent::DebugStickState => {
            lemma_rigid(a.val, b.val);
        },
        _ => {},
    }
}

/// Components that are the same have the same checksum.
pub proof fn lemma_same_components_hash_alike(a: ComponentVal, b: ComponentVal)
    requires
        tidy_component(a),
        tidy_component(b),
        shaped(a),
        shaped(b),
        component_same(a, b),
    ensures
        component_hash(a) == component_hash(b),
    decreases a, 1nat, 0nat,
{
    match a.kind {
        DataComponent::Container => {
            lemma_same_containers(a.val->List_0, b.val->List_0);
        },
        DataComponent::SulfurCubeContent => {
            let x = a.val->Stack_0;
            let y = b.val->Stack_0;
            assert(stack_same(x, y));
            lemma_same_stack_values(a.val, b.val);
        },
        _ => {
            lemma_flat(a, b);
        },
    }
}

proof fn lemma_same_stack_values(a: Val, b: Val)
    requires
        a matches Val::Stack(x) && shaped_patch(x.patch, x.patch.len()) && tidy_patch(x.patch, x.patch.len()),
        b matches Val::Stack(y) && shaped_patch(y.patch, y.patch.len()) && tidy_patch(y.patch, y.patch.len()),
        val_same(a, b),
    ensures
        stack_hash(a->Stack_0) == stack_hash(b->Stack_0),
    decreases a, 0nat, 0nat,
{
    let x = a->Stack_0;
    let y = b->Stack_0;
    assert(stack_same(x, y));
    assert(items_same(x, y));
    lemma_same_patches(x.patch, y.patch);
}

proof fn lemma_same_patches(p: PatchVal, q: PatchVal)
    requires
        shaped_patch(p, p.len()),
        shaped_patch(q, q.len()),
        tidy_patch(p, p.len()),
        tidy_patch(q, q.len()),
        patch_same(p, q, p.len()),
        covered(q, p),
    ensures
        patch_hashes(p, p.len()) == patch_hashes(q, q.len()),
    decreases p, p.len() + 1, 0nat,
{
    assert forall|k: DataComponent| #[trigger] said_alike(p, q, k) by {
        lemma_last_place(p, k, p.len());
        lemma_last_place(q, k, q.len());
        match last_place(p, k, p.len()) {
            Some(i) => {
                lemma_patch_at(p, q, p.len(), i);
                let j = last_place(q, k, q.len())->0;
                lemma_shaped_at(p, p.len(), i);
                lemma_shaped_at(q, q.len(), j);
                lemma_tidy_entry_at(p, p.len(), i);
                lemma_tidy_entry_at(q, q.len(), j);
                match (p[i].1, q[j].1) {
                    (Some(a), Some(b)) => {
                        assert(decreases_to!(p => a));
                        lemma_same_components_hash_alike(a, b);
                    },
                    _ => {},
                }
            },
            None => {
                match last_place(q, k, q.len()) {
                    Some(j) => {
                        assert(last_place(p, q[j].0, p.len()) is Some);
                    },
                    None => {},
                }
            },
        }
    }
    lemma_placed_patches(p, q);
}

/// The checksums of the stacks in a container.
pub open spec fn slot_keys(l: Seq<Val>) -> Seq<(u64, i32)> {
    Seq::new(l.len(), |i: int| (slot_of(l[i]) as u64, slot_hash(l[i]) as i32))
}

proof fn lemma_slots_placed(l: Seq<Val>, n: nat)
    requires
        n <= l.len(),
    ensures
        slot_hashes(l, n) == placed_all(slot_keys(l).take(n as int)),
    decreases n,
{
    if n > 0 {
        lemma_slots_placed(l, (n - 1) as nat);
        let s = slot_keys(l).take(n as int);
        assert(s.drop_last() =~= slot_keys(l).take(n - 1));
    } else {
        assert(slot_keys(l).take(0) =~= Seq::empty());
    }
}

proof fn lemma_slot_keys_apart(l: Seq<Val>)
    requires
        slots_distinct(l),
        shaped_slots(l, l.len()),
    ensures
        numbers_distinct(slot_keys(l)),
{
    let s = slot_keys(l);
    assert forall|i: int, j: int| 0 <= i < j < s.len() implies (#[trigger] s[i]).0 != (#[trigger] s[j]).0 by {
        lemma_shaped_slot(l, l.len(), i);
        lemma_shaped_slot(l, l.len(), j);
        assert(slot_of(l[i]) != slot_of(l[j]));
    }
}

proof fn lemma_same_slot(a: Val, b: Val)
    requires
        a matches Val::Pair(_, s) && (*s matches Val::Stack(x) && shaped_patch(x.patch, x.patch.len())),
        b matches Val::Pair(_, t) && (*t matches Val::Stack(y) && shaped_patch(y.patch, y.patch.len())),
        tidy_val(a),
        tidy_val(b),
        val_same(a, b),
    ensures
        slot_hash(a) == slot_hash(b),
    decreases a, 0nat, 0nat,
{
    let s = *a->Pair_1;
    let t = *b->Pair_1;
    assert(val_same(s, t));
    assert(tidy_val(s) && tidy_val(t));
    lemma_same_stack_values(s, t);
}

proof fn lemma_same_containers(x: Seq<Val>, y: Seq<Val>)
    requires
        shaped_slots(x, x.len()),
        shaped_slots(y, y.len()),
        slots_distinct(x),
        slots_distinct(y),
        tidy_vals(x, x.len()),
        tidy_vals(y, y.len()),
        x.len() == y.len(),
        slots_same(x, y, x.len()),
    ensures
        slot_hashes(x, x.len()) == slot_hashes(y, y.len()),
    decreases x, x.len() + 1, 0nat,
{
    let a = slot_keys(x);
    let b = slot_keys(y);
    lemma_slots_placed(x, x.len());
    lemma_slots_placed(y, y.len());
    assert(a.take(x.len() as int) =~= a);
    assert(b.take(y.len() as int) =~= b);
    lemma_slot_keys_apart(x);
    lemma_slot_keys_apart(y);
    assert forall|i: int| 0 <= i < a.len() implies b.contains(#[trigger] a[i]) by {
        lemma_slots_at(x, y, x.len(), i);
        lemma_first_slot(y, slot_of(x[i]), 0);
        let j = first_slot(y, slot_of(x[i]), 0)->0;
        lemma_shaped_slot(x, x.len(), i);
        lemma_shaped_slot(y, y.len(), j);
        lemma_tidy_at(x, x.len(), i);
        lemma_tidy_at(y, y.len(), j);
        lemma_same_slot(x[i], y[j]);
        assert(b[j] == a[i]);
    }
    assert forall|j: int| 0 <= j < b.len() implies a.contains(#[trigger] b[j]) by {
        lemma_slot_back(x, y, j);
        let i = first_slot(x, slot_of(y[j]), 0)->0;
        lemma_slots_at(x, y, x.len(), i);
        lemma_shaped_slot(x, x.len(), i);
        lemma_shaped_slot(y, y.len(), j);
        lemma_tidy_at(x, x.len(), i);
        lemma_tidy_at(y, y.len(), j);
        lemma_same_slot(x[i], y[j]);
        assert(a[i] == b[j]);
    }
    lemma_placed_alike(a, b);
}

/// Stacks that are the same have the same checksum.
pub proof fn lemma_same_stacks_hash_alike(x: StackVal, y: StackVal)
    requires
        tidy_patch(x.patch, x.patch.len()),
        tidy_patch(y.patch, y.patch.len()),
        shaped_patch(x.patch, x.patch.len()),
        shaped_patch(y.patch, y.patch.len()),
        stack_same(x, y),
    ensures
        stack_hash(x) == stack_hash(y),
{
    lemma_same_patches(x.patch, y.patch);
}

} // verus!
