//! Stacks come back from their stored forms.
use vstd::prelude::*;
use crate::component_names::{lemma_component_of_own_name, lemma_names_differ, lemma_no_mark};
use crate::components::value_val;
use crate::data_component::{component_name, DataComponent};
use crate::format::{ComponentVal, PatchVal, StackVal, Val};
use crate::item_stack::{entry_val, lemma_patch_vals, ItemStack, AIR_ID};
use crate::nbt_tag::{compound_get, keys_distinct, lemma_get_of_put, lemma_key_index, lemma_key_index_none, lemma_put_keeps_keys_distinct, Tag};
use crate::patch_laws::{entry_in, lemma_effective_of_single, lemma_effective_known, lemma_effective_values};
use crate::persist::{as_int, bundle_from, component_entries, components_from, data_from_tag, data_to_tag, first, own_from_tag, own_to_tag, patch_from, plain_to_tag, projectiles_from, second, slot_from, slot_tag, slot_tags, slots_from, stack_entries, stack_from, stack_tag, stack_tags, tag_given, template_from, untold, untold_in, val_given, with_entry, Entries};
use crate::registry::{find_key, Registries};
use crate::same::last_place;
use crate::stack::{effective, lemma_last_place};
use crate::stored_return::{lemma_plain_returns, plain_keeps};
use crate::wire_return::single;

verus! {

/// Whether a stack comes back from its stored form, but for entries of its patch that later ones
/// override.
pub open spec fn stored_stack(regs: Registries, st: StackVal) -> bool
    decreases st, 0nat,
{
    find_key(regs, st.item.registry_key@) == Some(st.item) && st.item.id != AIR_ID && 1 <= st.count <= 99 && stored_patch(
        regs,
        st.patch,
        st.patch.len(),
    )
}

/// Whether the values of the first `n` entries of a patch come back from their stored forms.
pub open spec fn stored_patch(regs: Registries, p: PatchVal, n: nat) -> bool
    decreases p, n,
{
    if n == 0 || n > p.len() {
        true
    } else {
        stored_patch(regs, p, (n - 1) as nat) && match p[n - 1].1 {
            Some(v) => v.kind == p[n - 1].0 && stored_keeps(v.kind, regs, v.val),
            None => true,
        }
    }
}

/// Whether a value is a stack that comes back as it is.
pub open spec fn stack_keeps(regs: Registries, v: Val) -> bool
    decreases v, 1nat,
{
    match v {
        Val::Stack(st) => stored_stack(regs, st) && single(st.patch),
        _ => false,
    }
}

/// Whether the first `n` values are stacks that come back as they are.
pub open spec fn stacks_keep(regs: Registries, l: Seq<Val>, n: nat) -> bool
    decreases l, n,
{
    if n == 0 || n > l.len() {
        true
    } else {
        stacks_keep(regs, l, (n - 1) as nat) && stack_keeps(regs, l[n - 1])
    }
}

/// Whether a value is a slot and a stack that comes back as it is.
pub open spec fn slot_keeps(regs: Registries, v: Val) -> bool
    decreases v, 2nat,
{
    match v {
        Val::Pair(slot, st) => (*slot matches Val::Int(i) && 0 <= i <= 255) && stack_keeps(regs, *st),
        _ => false,
    }
}

/// Whether the first `n` values are slots and stacks that come back as they are.
pub open spec fn slots_keep(regs: Registries, l: Seq<Val>, n: nat) -> bool
    decreases l, n,
{
    if n == 0 || n > l.len() {
        true
    } else {
        slots_keep(regs, l, (n - 1) as nat) && slot_keeps(regs, l[n - 1])
    }
}

/// Whether a value that the library has no form of its own for comes back from the form that the
/// registries hold.
pub open spec fn given_keeps(k: DataComponent, regs: Registries, v: Val) -> bool {
    plain_to_tag(k, regs, v) is None && (tag_given(regs, k, v) matches Some(t) && own_from_tag(k, regs, t) is None
        && val_given(regs, k, t) == Some(v))
}

/// Whether a value of a component comes back from its stored form.
pub open spec fn stored_keeps(k: DataComponent, regs: Registries, v: Val) -> bool
    decreases v, 3nat,
{
    match k {
        DataComponent::UseRemainder | DataComponent::SulfurCubeContent => stack_keeps(regs, v),
        DataComponent::BundleContents | DataComponent::ChargedProjectiles => match v {
            Val::List(l) => stacks_keep(regs, l, l.len()),
            _ => false,
        },
        DataComponent::Container => match v {
            Val::List(l) => slots_keep(regs, l, l.len()),
            _ => false,
        },
        DataComponent::CanPlaceOn | DataComponent::CanBreak => v is Nbt,
        _ => plain_keeps(k, regs, v) || given_keeps(k, regs, v),
    }
}

/// Whether a value comes back from its stored form.
pub open spec fn comes_back(k: DataComponent, regs: Registries, v: Val) -> bool {
    data_to_tag(k, regs, v) matches Some(t) && data_from_tag(k, regs, t) == Some(v)
}

/// The entry that a component has in the stored form of a patch.
pub open spec fn stored_entry(regs: Registries, e: (DataComponent, Option<ComponentVal>)) -> (Seq<char>, Tag) {
    match e.1 {
        None => ("!"@ + component_name(e.0), Tag::Compound(Seq::empty())),
        Some(v) => (component_name(e.0), data_to_tag(v.kind, regs, v.val)->0),
    }
}

/// The entries that components have in the stored form of a patch.
pub open spec fn stored_entries(regs: Registries, q: PatchVal) -> Entries {
    Seq::new(q.len(), |i: int| stored_entry(regs, q[i]))
}

proof fn lemma_entry_keys(regs: Registries, a: (DataComponent, Option<ComponentVal>), b: (DataComponent, Option<ComponentVal>))
    requires
        a.0 != b.0,
    ensures
        stored_entry(regs, a).0 != stored_entry(regs, b).0,
{
    let x = component_name(a.0);
    let y = component_name(b.0);
    let mark = "!"@;
    reveal_strlit("!");
    if x == y {
        lemma_names_differ(a.0, b.0);
    }
    lemma_no_mark(a.0);
    lemma_no_mark(b.0);
    assert((mark + x).skip(1) =~= x);
    assert((mark + y).skip(1) =~= y);
    assert((mark + x).subrange(0, mark.len() as int) =~= mark);
    assert((mark + y).subrange(0, mark.len() as int) =~= mark);
}

/// Whether the values that a patch adds are of their components and come back.
pub open spec fn values_back(regs: Registries, p: PatchVal) -> bool {
    forall|i: int| 0 <= i < p.len() ==> (#[trigger] p[i].1 matches Some(v) ==> v.kind == p[i].0 && comes_back(v.kind, regs, v.val))
}

/// The last entry of a component is among the effective ones.
proof fn lemma_effective_holds(p: PatchVal, i: nat, n: nat) -> (a: int)
    requires
        i < n <= p.len(),
        last_place(p, p[i as int].0, i) is None,
    ensures
        0 <= a < effective(p, n).len(),
        effective(p, n)[a] == (p[i as int].0, p[last_place(p, p[i as int].0, p.len())->0].1),
    decreases n,
{
    lemma_last_place(p, p[i as int].0, p.len());
    if i + 1 == n {
        effective(p, n).len() - 1
    } else {
        let a = lemma_effective_holds(p, i, (n - 1) as nat);
        a
    }
}

proof fn lemma_component_entries(regs: Registries, p: PatchVal, i: nat)
    requires
        i <= p.len(),
        values_back(regs, effective(p, p.len())),
    ensures
        component_entries(regs, p, i, stored_entries(regs, effective(p, i))) == stored_entries(regs, effective(p, p.len())),
    decreases p.len() - i,
{
    reveal(own_to_tag);
    if i < p.len() {
        let k = p[i as int].0;
        let q = effective(p, i);
        let c = stored_entries(regs, q);
        lemma_component_entries(regs, p, i + 1);
        lemma_last_place(p, k, p.len());
        if last_place(p, k, i) is None {
            let j = last_place(p, k, p.len())->0;
            let e = (k, p[j].1);
            lemma_effective_known(p, i, k);
            assert forall|a: int| 0 <= a < c.len() implies (#[trigger] c[a]).0 != stored_entry(regs, e).0 by {
                lemma_entry_keys(regs, q[a], e);
            }
            lemma_key_index_none(c, stored_entry(regs, e).0);
            assert(stored_entries(regs, q.push(e)) =~= c.push(stored_entry(regs, e)));
            let a = lemma_effective_holds(p, i, p.len());
            assert(effective(p, p.len())[a].1 == p[j].1);
            assert(p[j].1 matches Some(v) ==> comes_back(v.kind, regs, v.val));
        }
    }
}

proof fn lemma_patch_from(regs: Registries, q: PatchVal, n: nat)
    requires
        n <= q.len(),
        values_back(regs, q),
    ensures
        patch_from(regs, stored_entries(regs, q), n) == Some(q.take(n as int)),
    decreases n,
{
    reveal(own_from_tag);
    if n > 0 {
        lemma_patch_from(regs, q, (n - 1) as nat);
        let e = q[n - 1];
        let name = component_name(e.0);
        let mark = "!"@;
        reveal_strlit("!");
        lemma_component_of_own_name(e.0);
        lemma_no_mark(e.0);
        assert((mark + name).subrange(0, mark.len() as int) =~= mark);
        assert((mark + name).skip(mark.len() as int) =~= name);
        assert(stored_entries(regs, q)[n - 1] == stored_entry(regs, e));
        assert(q[n - 1].1 matches Some(v) ==> v.kind == e.0 && comes_back(v.kind, regs, v.val));
        match e.1 {
            Some(v) => {
                assert(v == (ComponentVal { kind: e.0, val: v.val }));
            },
            None => {},
        }
        assert(e == (e.0, e.1));
        assert(q.take(n as int) =~= q.take(n - 1).push(e));
    } else {
        assert(q.take(0) =~= Seq::empty());
    }
}

proof fn lemma_stack_keys()
    ensures
        "id"@ != "count"@,
        "id"@ != "components"@,
        "count"@ != "components"@,
        "slot"@ != "item"@,
{
    reveal_strlit("id");
    reveal_strlit("count");
    reveal_strlit("components");
    reveal_strlit("slot");
    reveal_strlit("item");
    assert("id"@.len() == 2);
    assert("count"@.len() == 5);
    assert("components"@.len() == 10);
    assert("slot"@[0] != "item"@[0]);
}

proof fn lemma_values_back(regs: Registries, p: PatchVal)
    requires
        values_back(regs, p),
    ensures
        values_back(regs, effective(p, p.len())),
{
    let q = effective(p, p.len());
    assert forall|a: int| 0 <= a < q.len() implies (#[trigger] q[a].1 matches Some(v) ==> v.kind == q[a].0 && comes_back(v.kind, regs, v.val)) by {
        lemma_effective_values(p, p.len(), a);
        let j = choose|j: int| 0 <= j < p.len() && #[trigger] p[j] == q[a];
        assert(p[j].1 == q[a].1);
    }
}

/// A stack comes back from its stored form, whatever else the compound holds, wherever the values of
/// its effective components do: the same item, as many of it, and one entry for each component that
/// its patch sets or removes.
pub proof fn lemma_stack_of_returning_values(regs: Registries, st: StackVal, c: Entries)
    requires
        find_key(regs, st.item.registry_key@) == Some(st.item),
        st.item.id != AIR_ID,
        1 <= st.count <= 99,
        values_back(regs, effective(st.patch, st.patch.len())),
    ensures
        stack_from(regs, stack_entries(regs, st, c)) == Some(
            StackVal { item: st.item, count: st.count, patch: effective(st.patch, st.patch.len()) },
        ),
{
    reveal(own_to_tag);
    reveal(own_from_tag);
    lemma_stack_keys();
    let p = st.patch;
    let q = effective(p, p.len());
    let key = st.item.registry_key@;
    let m = "minecraft:"@;
    let none: Entries = Seq::empty();
    assert(stored_entries(regs, effective(p, 0)) =~= none);
    lemma_component_entries(regs, p, 0);
    let inner = stored_entries(regs, q);
    let id = Tag::String(m + key);
    let c1 = with_entry(c, "id"@, id);
    let c2 = with_entry(c1, "count"@, Tag::Int(st.count));
    let c3 = with_entry(c2, "components"@, Tag::Compound(inner));
    lemma_get_of_put(c, "id"@, id, "id"@);
    lemma_get_of_put(c1, "count"@, Tag::Int(st.count), "id"@);
    lemma_get_of_put(c2, "components"@, Tag::Compound(inner), "id"@);
    lemma_get_of_put(c2, "components"@, Tag::Compound(inner), "count"@);
    lemma_key_index(c3, "components"@);
    assert((m + key).subrange(0, m.len() as int) =~= m);
    assert((m + key).skip(m.len() as int) =~= key);
    lemma_patch_from(regs, q, q.len());
    assert(q.take(q.len() as int) =~= q);
    assert(components_from(regs, c3) == Some(q));
}

proof fn lemma_stored_patch(regs: Registries, p: PatchVal, n: nat)
    requires
        n <= p.len(),
        stored_patch(regs, p, n),
    ensures
        forall|i: int| 0 <= i < n ==> (#[trigger] p[i].1 matches Some(v) ==> v.kind == p[i].0 && comes_back(v.kind, regs, v.val)),
    decreases p, n,
{
    if n > 0 {
        lemma_stored_patch(regs, p, (n - 1) as nat);
        match p[n - 1].1 {
            Some(v) => {
                lemma_stored(v.kind, regs, v.val);
            },
            None => {},
        }
    }
}

proof fn lemma_stack_value(regs: Registries, v: Val)
    requires
        stack_keeps(regs, v),
    ensures
        template_from(regs, stack_tag(regs, v)) matches Some(st) && Val::Stack(st) == v,
        stack_tag(regs, v) matches Tag::Compound(c) && (stack_from(regs, c) matches Some(st) && Val::Stack(st) == v),
    decreases v, 1nat,
{
    reveal(own_to_tag);
    reveal(own_from_tag);
    let st = v->Stack_0;
    lemma_stored_patch(regs, st.patch, st.patch.len());
    lemma_values_back(regs, st.patch);
    lemma_stack_of_returning_values(regs, st, Seq::empty());
    lemma_effective_of_single(st.patch);
}

proof fn lemma_stack_values(regs: Registries, l: Seq<Val>, n: nat)
    requires
        n <= l.len(),
        stacks_keep(regs, l, n),
    ensures
        stack_tags(regs, l, n).len() == n,
        bundle_from(regs, stack_tags(regs, l, n), n) == l.take(n as int),
        projectiles_from(regs, stack_tags(regs, l, n), n) == Some(l.take(n as int)),
    decreases l, n,
{
    reveal(own_to_tag);
    reveal(own_from_tag);
    if n > 0 {
        lemma_stack_values(regs, l, (n - 1) as nat);
        lemma_stack_value(regs, l[n - 1]);
        let head = stack_tags(regs, l, (n - 1) as nat);
        let t = stack_tag(regs, l[n - 1]);
        lemma_bundle_prefix(regs, head, t, (n - 1) as nat);
        assert(stack_tags(regs, l, n) == head.push(t));
        assert(l.take(n as int) =~= l.take(n - 1).push(l[n - 1]));
    } else {
        assert(l.take(0) =~= Seq::empty());
    }
}

proof fn lemma_bundle_prefix(regs: Registries, l: Seq<Tag>, t: Tag, n: nat)
    requires
        n <= l.len(),
    ensures
        bundle_from(regs, l.push(t), n) == bundle_from(regs, l, n),
        projectiles_from(regs, l.push(t), n) == projectiles_from(regs, l, n),
        slots_from(regs, l.push(t), n) == slots_from(regs, l, n),
    decreases n,
{
    reveal(own_from_tag);
    if n > 0 {
        lemma_bundle_prefix(regs, l, t, (n - 1) as nat);
        assert(l.push(t)[n - 1] == l[n - 1]);
    }
}

proof fn lemma_slot_value(regs: Registries, v: Val)
    requires
        slot_keeps(regs, v),
    ensures
        slot_from(regs, slot_tag(regs, v)) == Some(v),
    decreases v, 2nat,
{
    reveal(own_to_tag);
    reveal(own_from_tag);
    lemma_stack_keys();
    let slot = as_int(first(v));
    let st = second(v);
    lemma_stack_value(regs, st);
    let t = stack_tag(regs, st);
    let c1 = with_entry(Seq::empty(), "slot"@, Tag::Int(slot));
    let c2 = with_entry(c1, "item"@, t);
    lemma_get_of_put(Seq::empty(), "slot"@, Tag::Int(slot), "slot"@);
    lemma_get_of_put(c1, "item"@, t, "slot"@);
    lemma_key_index(c2, "item"@);
}

proof fn lemma_slot_values(regs: Registries, l: Seq<Val>, n: nat)
    requires
        n <= l.len(),
        slots_keep(regs, l, n),
    ensures
        slot_tags(regs, l, n).len() == n,
        slots_from(regs, slot_tags(regs, l, n), n) == Some(l.take(n as int)),
    decreases l, n,
{
    reveal(own_to_tag);
    reveal(own_from_tag);
    if n > 0 {
        lemma_slot_values(regs, l, (n - 1) as nat);
        lemma_slot_value(regs, l[n - 1]);
        let head = slot_tags(regs, l, (n - 1) as nat);
        let t = slot_tag(regs, l[n - 1]);
        lemma_bundle_prefix(regs, head, t, (n - 1) as nat);
        assert(slot_tags(regs, l, n) == head.push(t));
        assert(l.take(n as int) =~= l.take(n - 1).push(l[n - 1]));
    } else {
        assert(l.take(0) =~= Seq::empty());
    }
}

proof fn lemma_stored(k: DataComponent, regs: Registries, v: Val)
    requires
        stored_keeps(k, regs, v),
    ensures
        comes_back(k, regs, v),
    decreases v, 3nat,
{
    reveal(own_to_tag);
    reveal(own_from_tag);
    match k {
        DataComponent::UseRemainder | DataComponent::SulfurCubeContent => {
            lemma_stack_value(regs, v);
        },
        DataComponent::BundleContents | DataComponent::ChargedProjectiles => {
            let l = v->List_0;
            lemma_stack_values(regs, l, l.len());
            assert(l.take(l.len() as int) =~= l);
        },
        DataComponent::Container => {
            let l = v->List_0;
            lemma_slot_values(regs, l, l.len());
            assert(l.take(l.len() as int) =~= l);
        },
        DataComponent::CanPlaceOn | DataComponent::CanBreak => {},
        _ => {
            if plain_keeps(k, regs, v) {
                lemma_plain_returns(k, regs, v);
            }
        },
    }
}

/// A value of a component comes back from its stored form.
pub proof fn lemma_stored_values_return(k: DataComponent, regs: Registries, v: Val)
    requires
        stored_keeps(k, regs, v),
    ensures
        data_to_tag(k, regs, v) matches Some(t) && data_from_tag(k, regs, t) == Some(v),
{
    lemma_stored(k, regs, v);
}

/// A stack comes back from its stored form, whatever else the compound holds: the same item, as many of
/// it, and one entry for each component that its patch sets or removes.
pub proof fn lemma_stored_stacks_return(regs: Registries, st: StackVal, c: Entries)
    requires
        stored_stack(regs, st),
    ensures
        stack_from(regs, stack_entries(regs, st, c)) == Some(
            StackVal { item: st.item, count: st.count, patch: effective(st.patch, st.patch.len()) },
        ),
{
    lemma_stored_patch(regs, st.patch, st.patch.len());
    lemma_values_back(regs, st.patch);
    lemma_stack_of_returning_values(regs, st, c);
}

proof fn lemma_keys_apart(a: DataComponent, b: DataComponent)
    ensures
        a != b ==> component_name(a) != component_name(b) && "!"@ + component_name(a) != "!"@ + component_name(b),
        component_name(a) != "!"@ + component_name(b),
{
    let mark = "!"@;
    let y = component_name(b);
    let x = component_name(a);
    if a != b {
        if x == y {
            lemma_names_differ(a, b);
        }
        if mark + x == mark + y {
            assert((mark + x).skip(mark.len() as int) =~= x);
            assert((mark + y).skip(mark.len() as int) =~= y);
        }
    }
    lemma_no_mark(a);
    assert((mark + y).subrange(0, mark.len() as int) =~= mark);
}

/// What the entries of a patch from the `i`th on make of what `c` says of a component.
proof fn lemma_entries_of(regs: Registries, p: PatchVal, i: nat, c: Entries, k: DataComponent)
    requires
        i <= p.len(),
        keys_distinct(c),
    ensures
        ({
            let m = component_entries(regs, p, i, c);
            let name = component_name(k);
            let mark = "!"@ + component_name(k);
            &&& keys_distinct(m)
            &&& match (last_place(p, k, i), entry_in(p, k)) {
                (None, Some(None)) => compound_get(m, mark) == Some(Tag::Compound(Seq::empty())) && compound_get(m, name) == compound_get(c, name),
                (None, Some(Some(v))) => compound_get(m, mark) == compound_get(c, mark) && compound_get(m, name) == match data_to_tag(
                    v.kind,
                    regs,
                    v.val,
                ) {
                    Some(t) => Some(t),
                    None => compound_get(c, name),
                },
                _ => compound_get(m, mark) == compound_get(c, mark) && compound_get(m, name) == compound_get(c, name),
            }
        }),
    decreases p.len() - i,
{
    reveal(own_to_tag);
    let name = component_name(k);
    let mark = "!"@ + component_name(k);
    lemma_last_place(p, k, p.len());
    if i < p.len() {
        let k0 = p[i as int].0;
        lemma_last_place(p, k0, p.len());
        lemma_last_place(p, k, i);
        if last_place(p, k0, i) is Some {
            lemma_entries_of(regs, p, i + 1, c, k);
        } else {
            let j = last_place(p, k0, p.len())->0;
            let key = match p[j].1 {
                None => "!"@ + component_name(k0),
                Some(_) => component_name(k0),
            };
            let t = match p[j].1 {
                None => Some(Tag::Compound(Seq::empty())),
                Some(v) => data_to_tag(v.kind, regs, v.val),
            };
            lemma_keys_apart(k0, k);
            lemma_keys_apart(k, k0);
            match t {
                Some(t) => {
                    let c2 = with_entry(c, key, t);
                    lemma_put_keeps_keys_distinct(c, key, t);
                    lemma_get_of_put(c, key, t, name);
                    lemma_get_of_put(c, key, t, mark);
                    lemma_entries_of(regs, p, i + 1, c2, k);
                },
                None => {
                    lemma_entries_of(regs, p, i + 1, c, k);
                },
            }
        }
    }
}

/// The stored form of a stack has one entry for each component that its patch sets, under its name,
/// one for each that it removes, under its name behind an exclamation mark, and no other for a
/// component; only a component without a stored form has none.
pub proof fn lemma_stored_components(regs: Registries, p: PatchVal, k: DataComponent)
    ensures
        ({
            let m = component_entries(regs, p, 0, Seq::empty());
            let told = compound_get(m, component_name(k));
            let removed = compound_get(m, "!"@ + component_name(k));
            &&& keys_distinct(m)
            &&& match entry_in(p, k) {
                None => told is None && removed is None,
                Some(None) => told is None && removed == Some(Tag::Compound(Seq::empty())),
                Some(Some(v)) => told == data_to_tag(v.kind, regs, v.val) && removed is None,
            }
        }),
{
    lemma_entries_of(regs, p, 0, Seq::empty(), k);
}

/// Whether a key is that of a component in a patch: its name, or its name behind an exclamation mark.
pub open spec fn patch_key(p: PatchVal, key: Seq<char>) -> bool {
    exists|j: int|
        0 <= j < p.len() && (key == component_name((#[trigger] p[j]).0) || key == "!"@ + component_name(p[j].0))
}

proof fn lemma_patch_keys(regs: Registries, p: PatchVal, i: nat, c: Entries)
    requires
        forall|j: int| 0 <= j < c.len() ==> patch_key(p, (#[trigger] c[j]).0),
    ensures
        ({
            let m = component_entries(regs, p, i, c);
            forall|j: int| 0 <= j < m.len() ==> patch_key(p, (#[trigger] m[j]).0)
        }),
    decreases p.len() - i,
{
    reveal(own_to_tag);
    if i < p.len() {
        let k = p[i as int].0;
        lemma_last_place(p, k, p.len());
        let m = component_entries(regs, p, i, c);
        assert(patch_key(p, component_name(k)) && patch_key(p, "!"@ + component_name(k)));
        if last_place(p, k, i) is Some {
            lemma_patch_keys(regs, p, i + 1, c);
            assert(m == component_entries(regs, p, i + 1, c));
        } else {
            match p[last_place(p, k, p.len())->0].1 {
                None => {
                    let key = "!"@ + component_name(k);
                    lemma_key_index(c, key);
                    let c2 = with_entry(c, key, Tag::Compound(Seq::empty()));
                    lemma_patch_keys(regs, p, i + 1, c2);
                    assert(m == component_entries(regs, p, i + 1, c2));
                },
                Some(v) => match data_to_tag(v.kind, regs, v.val) {
                    Some(t) => {
                        lemma_key_index(c, component_name(k));
                        let c2 = with_entry(c, component_name(k), t);
                        lemma_patch_keys(regs, p, i + 1, c2);
                        assert(m == component_entries(regs, p, i + 1, c2));
                    },
                    None => {
                        lemma_patch_keys(regs, p, i + 1, c);
                        assert(m == component_entries(regs, p, i + 1, c));
                    },
                },
            }
        }
    }
}

/// The stored form of a stack has entries for the components of its patch and for nothing else.
pub proof fn lemma_stored_keys(regs: Registries, p: PatchVal, j: int)
    requires
        0 <= j < component_entries(regs, p, 0, Seq::empty()).len(),
    ensures
        patch_key(p, component_entries(regs, p, 0, Seq::empty())[j].0),
{
    lemma_patch_keys(regs, p, 0, Seq::empty());
}

/// Whether the value of a component that holds several stacks is a list.
spec fn listed(v: ComponentVal) -> bool {
    v.kind == DataComponent::BundleContents || v.kind == DataComponent::ChargedProjectiles || v.kind == DataComponent::Container
        ==> v.val is List
}

proof fn lemma_told(regs: Registries, p: PatchVal, i: nat, k: DataComponent)
    requires
        i <= p.len(),
        untold(regs, p, i).len() == 0,
        last_place(p, k, i) is None,
        forall|j: int| 0 <= j < p.len() ==> ((#[trigger] p[j]).1 matches Some(v) ==> listed(v)),
    ensures
        entry_in(p, k) matches Some(Some(v)) ==> data_to_tag(v.kind, regs, v.val) is Some,
    decreases p.len() - i,
{
    reveal(own_to_tag);
    lemma_last_place(p, k, p.len());
    lemma_last_place(p, k, i);
    if i < p.len() {
        let k0 = p[i as int].0;
        lemma_last_place(p, k0, p.len());
        lemma_last_place(p, k0, i);
        if k0 == k {
            match p[last_place(p, k, p.len())->0].1 {
                Some(v) => {
                    assert(listed(v));
                    assert(untold(regs, p, i) == untold_in(v.kind, regs, v.val) + untold(regs, p, i + 1));
                    assert(data_to_tag(v.kind, regs, v.val) is Some);
                },
                None => {},
            }
        } else {
            lemma_last_place(p, k, (i + 1) as nat);
            lemma_told(regs, p, i + 1, k);
        }
    }
}

/// Where nothing was left out, the stored form of a stack has the value of every component that its
/// patch sets.
pub proof fn lemma_nothing_left_out(regs: Registries, stack: ItemStack, k: DataComponent)
    requires
        untold(regs, stack@.patch, 0).len() == 0,
    ensures
        entry_in(stack@.patch, k) matches Some(Some(_)) ==> compound_get(
            component_entries(regs, stack@.patch, 0, Seq::empty()),
            component_name(k),
        ) is Some,
{
    reveal(value_val);
    let p = stack@.patch;
    lemma_patch_vals(stack.patch@, stack.patch@.len());
    assert forall|j: int| 0 <= j < p.len() implies ((#[trigger] p[j]).1 matches Some(v) ==> listed(v)) by {
        assert(p[j] == entry_val(stack.patch@[j]));
    }
    lemma_told(regs, p, 0, k);
    lemma_stored_components(regs, p, k);
}

/// A stack is stored as its item, its count and its components; what else the compound holds stays.
pub proof fn lemma_stored_stack_entries(regs: Registries, st: StackVal, c: Entries, other: Seq<char>)
    ensures
        ({
            let m = stack_entries(regs, st, c);
            &&& compound_get(m, "id"@) == Some(Tag::String("minecraft:"@ + st.item.registry_key@))
            &&& compound_get(m, "count"@) == Some(Tag::Int(st.count))
            &&& compound_get(m, "components"@) == Some(Tag::Compound(component_entries(regs, st.patch, 0, Seq::empty())))
            &&& other != "id"@ && other != "count"@ && other != "components"@ ==> compound_get(m, other) == compound_get(c, other)
        }),
{
    reveal(own_to_tag);
    lemma_stack_keys();
    let id = Tag::String("minecraft:"@ + st.item.registry_key@);
    let count = Tag::Int(st.count);
    let inner = Tag::Compound(component_entries(regs, st.patch, 0, Seq::empty()));
    let c1 = with_entry(c, "id"@, id);
    let c2 = with_entry(c1, "count"@, count);
    lemma_get_of_put(c, "id"@, id, other);
    lemma_get_of_put(c1, "count"@, count, other);
    lemma_get_of_put(c1, "count"@, count, "id"@);
    lemma_get_of_put(c2, "components"@, inner, other);
    lemma_get_of_put(c2, "components"@, inner, "id"@);
    lemma_get_of_put(c2, "components"@, inner, "count"@);
}

} // verus!
