//! What holds of the components of stacks whatever is done to them.
use vstd::prelude::*;
use crate::data_component::DataComponent;
use crate::format::{is_last, last_entries, ComponentVal, PatchVal, StackVal};
use crate::same::last_place;
use crate::stack::{component_in, drop_entries, effective, lemma_first_entry, lemma_last_place, normalized, replaced, with_patch};
use crate::wire_return::{added_from, lemma_last_single, removed_from, settled, single};

verus! {

/// What a patch says of a component: nothing, that it is taken away, or its value.
pub open spec fn entry_in(p: PatchVal, k: DataComponent) -> Option<Option<ComponentVal>> {
    match last_place(p, k, p.len()) {
        Some(i) => Some(p[i].1),
        None => None,
    }
}

proof fn lemma_entry_none(p: PatchVal, k: DataComponent)
    ensures
        entry_in(p, k) is None <==> (forall|j: int| 0 <= j < p.len() ==> (#[trigger] p[j]).0 != k),
{
    lemma_last_place(p, k, p.len());
}

proof fn lemma_entry_at(p: PatchVal, k: DataComponent, i: int)
    requires
        0 <= i < p.len(),
        p[i].0 == k,
        forall|j: int| i < j < p.len() ==> (#[trigger] p[j]).0 != k,
    ensures
        entry_in(p, k) == Some(p[i].1),
{
    lemma_last_place(p, k, p.len());
}

/// Of two patches one behind the other, the second says what is so.
pub proof fn lemma_entry_concat(a: PatchVal, b: PatchVal, k: DataComponent)
    ensures
        entry_in(a + b, k) == match entry_in(b, k) {
            Some(v) => Some(v),
            None => entry_in(a, k),
        },
{
    lemma_last_place(a, k, a.len());
    lemma_last_place(b, k, b.len());
    let p = a + b;
    match last_place(b, k, b.len()) {
        Some(i) => {
            assert forall|j: int| i + a.len() < j < p.len() implies (#[trigger] p[j]).0 != k by {
                assert(p[j] == b[j - a.len()]);
            }
            assert(p[i + a.len()] == b[i]);
            lemma_entry_at(p, k, i + a.len());
        },
        None => {
            match last_place(a, k, a.len()) {
                Some(i) => {
                    assert forall|j: int| i < j < p.len() implies (#[trigger] p[j]).0 != k by {
                        if j >= a.len() {
                            assert(p[j] == b[j - a.len()]);
                        } else {
                            assert(p[j] == a[j]);
                        }
                    }
                    assert(p[i] == a[i]);
                    lemma_entry_at(p, k, i);
                },
                None => {
                    assert forall|j: int| 0 <= j < p.len() implies (#[trigger] p[j]).0 != k by {
                        if j >= a.len() {
                            assert(p[j] == b[j - a.len()]);
                        } else {
                            assert(p[j] == a[j]);
                        }
                    }
                    lemma_entry_none(p, k);
                },
            }
        },
    }
}

proof fn lemma_entry_one(e: (DataComponent, Option<ComponentVal>), k: DataComponent)
    ensures
        entry_in(seq![e], k) == if e.0 == k {
            Some(e.1)
        } else {
            None
        },
{
    reveal_with_fuel(last_place, 2);
}

proof fn lemma_entry_front(p: PatchVal, i: int, k: DataComponent)
    requires
        0 <= i < p.len(),
    ensures
        entry_in(p.skip(i), k) == match entry_in(p.skip(i + 1), k) {
            Some(v) => Some(v),
            None => if p[i].0 == k {
                Some(p[i].1)
            } else {
                None
            },
        },
{
    assert(p.skip(i) =~= seq![p[i]] + p.skip(i + 1));
    lemma_entry_concat(seq![p[i]], p.skip(i + 1), k);
    lemma_entry_one(p[i], k);
}

proof fn lemma_drop(p: PatchVal, k: DataComponent, i: int, other: DataComponent)
    requires
        0 <= i <= p.len(),
    ensures
        entry_in(drop_entries(p, k, i), other) == if other == k {
            None
        } else {
            entry_in(p.skip(i), other)
        },
    decreases p.len() - i,
{
    if i < p.len() {
        lemma_drop(p, k, i + 1, other);
        lemma_entry_front(p, i, other);
        if p[i].0 != k {
            lemma_entry_concat(seq![p[i]], drop_entries(p, k, i + 1), other);
            lemma_entry_one(p[i], other);
        }
    } else {
        assert(p.skip(i) =~= PatchVal::empty());
    }
}

/// Setting or taking away a component does that, and leaves every other component as it was.
pub proof fn lemma_replaced_entry(p: PatchVal, k: DataComponent, v: Option<ComponentVal>, other: DataComponent)
    ensures
        entry_in(replaced(p, k, v), other) == if other == k {
            Some(v)
        } else {
            entry_in(p, other)
        },
{
    lemma_first_entry(p, k, 0);
    match crate::format::first_entry(p, k, 0) {
        Some(i) => {
            let head = p.take(i);
            let tail = drop_entries(p, k, i + 1);
            lemma_drop(p, k, i + 1, other);
            lemma_entry_concat(head.push((k, v)), tail, other);
            assert(head.push((k, v)) =~= head + seq![(k, v)]);
            lemma_entry_concat(head, seq![(k, v)], other);
            lemma_entry_one((k, v), other);
            lemma_entry_front(p, i, other);
            assert(p =~= head + p.skip(i));
            lemma_entry_concat(head, p.skip(i), other);
        },
        None => {
            assert(p.push((k, v)) =~= p + seq![(k, v)]);
            lemma_entry_concat(p, seq![(k, v)], other);
            lemma_entry_one((k, v), other);
        },
    }
}

/// Dropping the entries for a component gives its default back, and leaves every other component as
/// it was.
pub proof fn lemma_dropped_entry(p: PatchVal, k: DataComponent, other: DataComponent)
    ensures
        entry_in(drop_entries(p, k, 0), other) == if other == k {
            None
        } else {
            entry_in(p, other)
        },
{
    lemma_drop(p, k, 0, other);
    assert(p.skip(0) =~= p);
}

/// Of several entries for a component the last counts: letting it take the place of the first changes
/// nothing.
pub proof fn lemma_normalized_entry(p: PatchVal, k: DataComponent, other: DataComponent)
    ensures
        entry_in(normalized(p, k), other) == entry_in(p, other),
{
    match last_place(p, k, p.len()) {
        Some(i) => {
            lemma_replaced_entry(p, k, p[i].1, other);
        },
        None => {},
    }
}

proof fn lemma_effective_upto(p: PatchVal, n: nat, k: DataComponent)
    requires
        n <= p.len(),
    ensures
        entry_in(effective(p, n), k) == if last_place(p, k, n) is Some {
            entry_in(p, k)
        } else {
            None
        },
    decreases n,
{
    if n > 0 {
        let m = (n - 1) as nat;
        let own = p[n - 1].0;
        lemma_effective_upto(p, m, k);
        lemma_last_place(p, own, p.len());
        lemma_last_place(p, own, n);
        lemma_last_place(p, k, n);
        lemma_last_place(p, k, m);
        if last_place(p, own, m) is None {
            let j = last_place(p, own, p.len())->0;
            let head = effective(p, m);
            assert(head.push((own, p[j].1)) =~= head + seq![(own, p[j].1)]);
            lemma_entry_concat(head, seq![(own, p[j].1)], k);
            lemma_entry_one((own, p[j].1), k);
        }
    }
}

proof fn lemma_effective_single(p: PatchVal, n: nat)
    requires
        n <= p.len(),
    ensures
        single(effective(p, n)),
    decreases n,
{
    if n > 0 {
        let m = (n - 1) as nat;
        let own = p[n - 1].0;
        lemma_effective_single(p, m);
        lemma_effective_upto(p, m, own);
        lemma_entry_none(effective(p, m), own);
    }
}

/// The effective patch says of every component what the patch says, and has at most one entry for
/// each.
pub proof fn lemma_effective_entry(p: PatchVal, k: DataComponent)
    ensures
        entry_in(effective(p, p.len()), k) == entry_in(p, k),
        single(effective(p, p.len())),
{
    lemma_effective_upto(p, p.len(), k);
    lemma_effective_single(p, p.len());
}

/// The effective patch of the first entries has no entry for a component that they have none for.
pub proof fn lemma_effective_known(p: PatchVal, n: nat, k: DataComponent)
    requires
        n <= p.len(),
        last_place(p, k, n) is None,
    ensures
        forall|j: int| 0 <= j < effective(p, n).len() ==> (#[trigger] effective(p, n)[j]).0 != k,
{
    lemma_effective_upto(p, n, k);
    lemma_entry_none(effective(p, n), k);
}

/// Every entry of an effective patch is one of the patch.
pub proof fn lemma_effective_values(p: PatchVal, n: nat, i: int)
    requires
        n <= p.len(),
        0 <= i < effective(p, n).len(),
    ensures
        exists|j: int| 0 <= j < p.len() && #[trigger] p[j] == effective(p, n)[i],
    decreases n,
{
    if n > 0 {
        let m = (n - 1) as nat;
        let own = p[n - 1].0;
        lemma_last_place(p, own, p.len());
        if i < effective(p, m).len() {
            lemma_effective_values(p, m, i);
        } else {
            let j = last_place(p, own, p.len())->0;
            assert(p[j] == effective(p, n)[i]);
        }
    }
}

proof fn lemma_single_upto(p: PatchVal, n: nat)
    requires
        single(p),
        n <= p.len(),
    ensures
        effective(p, n) == p.take(n as int),
    decreases n,
{
    if n > 0 {
        let m = (n - 1) as nat;
        let own = p[n - 1].0;
        lemma_single_upto(p, m);
        lemma_last_place(p, own, m);
        lemma_last_place(p, own, p.len());
        match last_place(p, own, m) {
            Some(i) => {
                assert(p[i].0 != p[n - 1].0);
            },
            None => {},
        }
        let j = last_place(p, own, p.len())->0;
        if j > n - 1 {
            assert(p[n - 1].0 != p[j].0);
        }
        assert(p.take(n as int) =~= p.take(m as int).push(p[n - 1]));
    } else {
        assert(p.take(0) =~= PatchVal::empty());
    }
}

/// A patch with at most one entry for each component is its own effective patch.
pub proof fn lemma_effective_of_single(p: PatchVal)
    requires
        single(p),
    ensures
        effective(p, p.len()) == p,
{
    lemma_single_upto(p, p.len());
    assert(p.take(p.len() as int) =~= p);
}

/// Taking the effective patch twice gives no other patch.
pub proof fn lemma_effective_twice(p: PatchVal)
    ensures
        ({
            let q = effective(p, p.len());
            effective(q, q.len()) == q
        }),
{
    lemma_effective_entry(p, DataComponent::CustomData);
    lemma_effective_of_single(effective(p, p.len()));
}

proof fn lemma_last_entries_entry(p: PatchVal, i: int, k: DataComponent)
    requires
        0 <= i <= p.len(),
    ensures
        entry_in(last_entries(p, i), k) == entry_in(p.skip(i), k),
    decreases p.len() - i,
{
    if i < p.len() {
        lemma_last_entries_entry(p, i + 1, k);
        lemma_entry_front(p, i, k);
        if is_last(p, i) {
            lemma_entry_concat(seq![p[i]], last_entries(p, i + 1), k);
            lemma_entry_one(p[i], k);
        } else if p[i].0 == k {
            let j = choose|j: int| i < j < p.len() && (#[trigger] p[j]).0 == p[i].0;
            assert(p.skip(i + 1)[j - i - 1] == p[j]);
            lemma_entry_none(p.skip(i + 1), k);
        }
    } else {
        assert(p.skip(i) =~= PatchVal::empty());
    }
}

/// Putting the added components of a patch first changes what it says of none.
pub proof fn lemma_parted_entry(q: PatchVal, i: int, k: DataComponent)
    requires
        0 <= i <= q.len(),
        single(q),
    ensures
        entry_in(added_from(q, i) + removed_from(q, i), k) == entry_in(q.skip(i), k),
    decreases q.len() - i,
{
    let a = added_from(q, i);
    let r = removed_from(q, i);
    if i < q.len() {
        let a1 = added_from(q, i + 1);
        let r1 = removed_from(q, i + 1);
        lemma_parted_entry(q, i + 1, k);
        lemma_entry_front(q, i, k);
        lemma_entry_one(q[i], k);
        lemma_entry_concat(a1, r1, k);
        if q[i].1 is Some {
            assert(a + r =~= seq![q[i]] + (a1 + r1));
            lemma_entry_concat(seq![q[i]], a1 + r1, k);
        } else {
            lemma_entry_concat(a1, r, k);
            lemma_entry_concat(seq![q[i]], r1, k);
            if q[i].0 == k {
                assert forall|j: int| 0 <= j < q.skip(i + 1).len() implies (#[trigger] q.skip(i + 1)[j]).0 != k by {
                    assert(q.skip(i + 1)[j] == q[j + i + 1]);
                    assert(q[i].0 != q[j + i + 1].0);
                }
                lemma_entry_none(q.skip(i + 1), k);
            }
        }
    } else {
        assert(a + r =~= PatchVal::empty());
        assert(q.skip(i) =~= PatchVal::empty());
    }
}

/// A patch that comes back from the wire says of every component what the patch that was written
/// says.
pub proof fn lemma_settled_entry(p: PatchVal, k: DataComponent)
    ensures
        entry_in(settled(p), k) == entry_in(p, k),
{
    let q = last_entries(p, 0);
    lemma_last_single(p);
    lemma_parted_entry(q, 0, k);
    lemma_last_entries_entry(p, 0, k);
    assert(q.skip(0) =~= q);
    assert(p.skip(0) =~= p);
}

/// Patches that say the same of a component give stacks of the same item the same.
pub proof fn lemma_same_component(s: StackVal, p: PatchVal, k: DataComponent)
    requires
        entry_in(p, k) == entry_in(s.patch, k),
    ensures
        component_in(with_patch(s, p), k) == component_in(s, k),
{
}

/// A component that was set is there, one that was taken away is not, and every other component is
/// what it was.
pub proof fn lemma_component_replaced(s: StackVal, k: DataComponent, v: Option<ComponentVal>, other: DataComponent)
    ensures
        component_in(with_patch(s, replaced(s.patch, k, v)), other) == if other == k {
            v
        } else {
            component_in(s, other)
        },
{
    lemma_replaced_entry(s.patch, k, v, other);
}

/// A stack that comes back from the wire has the components of the stack that was written.
pub proof fn lemma_component_settled(s: StackVal, k: DataComponent)
    ensures
        component_in(with_patch(s, settled(s.patch)), k) == component_in(s, k),
{
    lemma_settled_entry(s.patch, k);
}

/// The effective patch gives a stack the components that it has.
pub proof fn lemma_component_effective(s: StackVal, k: DataComponent)
    ensures
        component_in(with_patch(s, effective(s.patch, s.patch.len())), k) == component_in(s, k),
{
    lemma_effective_entry(s.patch, k);
}

} // verus!
