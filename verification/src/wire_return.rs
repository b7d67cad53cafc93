//! Values come back from the wire: reading what was written gives the value again.
use vstd::prelude::*;
use crate::bytes::lemma_regroup;
use crate::components::component_format;
use crate::data_component::{component_id, lemma_component_of_own_id, DataComponent};
use crate::format::{check_limit, count_added, deeper, distinct, first_entry, inside, is_last, last_entries, pair, put, read_added, read_count, read_items, read_removed, read_slots, read_template, read_val, removed_bytes, set_entry, slot_count, slot_stack, write_added, write_items, write_slots, write_template, write_val, written_count, ComponentVal, CountRule, Ctx, Format, Limit, PatchVal, StackVal, Val, MAX_COMPONENTS};
use crate::leaf_return::{leaf_keeps, lemma_leaf_returns};
use crate::predicate_return::{lemma_predicates, predicates_bytes, predicates_keep};
use crate::registry::find_item;
use crate::wire::{done, flag, lemma_read_bool, lemma_read_var_int, var_int};

verus! {

/// Whether a list of this length is written and its count is read back.
pub open spec fn count_keeps(rule: CountRule, limit: Limit, n: nat) -> bool {
    n <= i32::MAX && check_limit(limit, n) is Ok && match rule {
        CountRule::Raw => true,
        CountRule::Capped { max, .. } => n <= max,
        CountRule::Range { max, .. } => n <= max,
        CountRule::Limited { max, .. } => n <= max,
        CountRule::Signed { max, .. } => n <= max,
        CountRule::NonNegative { .. } => true,
    }
}

/// The slot of the `i`th stack of a container.
pub open spec fn slot_at(l: Seq<Val>, i: int) -> int {
    (*l[i]->Pair_0)->Int_0
}

/// Whether the stacks of a container stand in the order of their slots, one in each.
pub open spec fn slots_ascend(l: Seq<Val>) -> bool {
    forall|i: int, j: int| 0 <= i < j < l.len() ==> slot_at(l, i) < slot_at(l, j)
}

/// Whether the stack is written and comes back, but for the order of its patch and the entries that
/// later ones override.
pub open spec fn template_fits(c: Ctx, st: StackVal) -> bool
    decreases c.budget, 2int, Format::Unit, 0int,
{
    c.depth > 0 && c.budget > 0 && st.item.id != 0 && find_item(c.regs, st.item.id as int) == Some(st.item) && 1 <= st.count <= 255
        && patch_fits(inside(c), last_entries(st.patch, 0))
}

/// Whether the components that a patch adds are written and come back.
pub open spec fn patch_fits(c: Ctx, p: PatchVal) -> bool
    decreases c.budget + 1, 1int, Format::Unit, 0int,
{
    p.len() <= MAX_COMPONENTS && forall|i: int|
        0 <= i < p.len() ==> (#[trigger] p[i].1 matches Some(v) ==> v.kind == p[i].0 && keeps(component_format(v.kind), c, v.val))
}

/// Whether the value is one of the format that is written and comes back.
pub open spec fn keeps(f: Format, c: Ctx, v: Val) -> bool
    decreases c.budget, 0int, f, 0int,
{
    match f {
        Format::Pair(a, b) => v matches Val::Pair(x, y) && keeps(*a, c, *x) && keeps(*b, c, *y),
        Format::Opt(a) => v == Val::Absent || (v matches Val::Present(x) && keeps(*a, c, *x)),
        Format::List(rule, limit, a) => v matches Val::List(l) && count_keeps(rule, limit, l.len()) && forall|i: int|
            0 <= i < l.len() ==> keeps(*a, c, #[trigger] l[i]),
        Format::Distinct(rule, limit, a) => v matches Val::List(l) && count_keeps(rule, limit, l.len()) && distinct(l) == l && (forall|i: int|
            0 <= i < l.len() ==> keeps(*a, c, #[trigger] l[i])),
        Format::Choice(alts, _) => v matches Val::Pair(i, x) && (*i matches Val::Int(i) && 0 <= i < alts.len() && i <= i32::MAX
            && keeps(alts[i], c, *x)),
        Format::Fixed(a, w, read) => v == *read && keeps(*a, c, *w),
        Format::Slots => c.budget > 0 && (v matches Val::List(l) && slots_ascend(l) && forall|i: int|
            0 <= i < l.len() ==> (#[trigger] l[i] matches Val::Pair(slot, st) && (*slot matches Val::Int(slot) && 0 <= slot < 256) && (
            *st matches Val::Stack(st) && template_fits(deeper(c), st) && settled(st.patch) == st.patch))),
        Format::Template => c.budget > 0 && (v matches Val::Stack(st) && template_fits(deeper(c), st) && settled(st.patch) == st.patch),
        Format::Predicates => c.budget > 0 && (v matches Val::Nbt(t) && predicates_keep(deeper(c), t)),
        _ => leaf_keeps(f, c.regs, v),
    }
}

/// The entries from the `i`th on that add a component.
pub open spec fn added_from(p: PatchVal, i: int) -> PatchVal
    decreases p.len() - i,
{
    if i < 0 || i >= p.len() {
        Seq::empty()
    } else if p[i].1 is Some {
        seq![p[i]] + added_from(p, i + 1)
    } else {
        added_from(p, i + 1)
    }
}

/// The entries from the `i`th on that remove a component.
pub open spec fn removed_from(p: PatchVal, i: int) -> PatchVal
    decreases p.len() - i,
{
    if i < 0 || i >= p.len() {
        Seq::empty()
    } else if p[i].1 is None {
        seq![p[i]] + removed_from(p, i + 1)
    } else {
        removed_from(p, i + 1)
    }
}

/// A patch as it comes back: one entry for each component, those that add one first.
pub open spec fn settled(p: PatchVal) -> PatchVal {
    let q = last_entries(p, 0);
    added_from(q, 0) + removed_from(q, 0)
}

/// The bytes of a value.
pub open spec fn val_bytes(f: Format, c: Ctx, v: Val) -> Seq<u8> {
    write_val(f, c, Seq::empty(), v).out
}

/// The bytes of the values of `l` from the `i`th on.
pub open spec fn items_bytes(f: Format, c: Ctx, l: Seq<Val>, i: int) -> Seq<u8> {
    write_items(f, c, Seq::empty(), l, i).out
}

/// The bytes of the slots of a container from the `i`th on.
pub open spec fn slots_bytes(l: Seq<Val>, i: int, n: int, c: Ctx) -> Seq<u8> {
    write_slots(l, i, n, c, Seq::empty()).out
}

/// The bytes of a stack.
pub open spec fn template_bytes(c: Ctx, st: StackVal) -> Seq<u8> {
    write_template(c, Seq::empty(), st).out
}

/// The bytes of the components that the entries of a patch from the `i`th on add.
pub open spec fn added_bytes(c: Ctx, p: PatchVal, i: int) -> Seq<u8> {
    write_added(c, Seq::empty(), p, i).out
}

pub(crate) proof fn lemma_count(rule: CountRule, limit: Limit, n: nat, r: Seq<u8>)
    requires
        count_keeps(rule, limit, n),
    ensures
        read_count(rule, var_int(written_count(n)) + r) == done(n, r),
{
    crate::leaf_return::lemma_small_count(n);
    lemma_read_var_int(n as int, r);
}

proof fn lemma_last_distinct(p: PatchVal, i: int)
    requires
        0 <= i,
    ensures
        forall|a: int| 0 <= a < last_entries(p, i).len() ==> exists|k: int|
            i <= k < p.len() && #[trigger] p[k] == #[trigger] last_entries(p, i)[a] && is_last(p, k),
        forall|a: int, b: int|
            0 <= a < b < last_entries(p, i).len() ==> (#[trigger] last_entries(p, i)[a]).0 != (#[trigger] last_entries(p, i)[b]).0,
        last_entries(p, i).len() <= p.len() - i || p.len() <= i,
    decreases p.len() - i,
{
    if i < p.len() {
        lemma_last_distinct(p, i + 1);
        let q = last_entries(p, i);
        let t = last_entries(p, i + 1);
        if is_last(p, i) {
            assert forall|a: int| 0 <= a < q.len() implies exists|k: int|
                i <= k < p.len() && #[trigger] p[k] == #[trigger] q[a] && is_last(p, k) by {
                if a > 0 {
                    assert(q[a] == t[a - 1]);
                } else {
                    assert(q[a] == p[i]);
                }
            }
            assert forall|a: int, b: int| 0 <= a < b < q.len() implies (#[trigger] q[a]).0 != (#[trigger] q[b]).0 by {
                assert(q[b] == t[b - 1]);
                if a > 0 {
                    assert(q[a] == t[a - 1]);
                } else {
                    let k = choose|k: int| i + 1 <= k < p.len() && #[trigger] p[k] == t[b - 1] && is_last(p, k);
                    assert(p[k].0 != p[i].0);
                }
            }
        }
    }
}

/// Whether an entry is one of those of `p` from the `i`th on that add a component.
pub open spec fn adds(p: PatchVal, i: int, e: (DataComponent, Option<ComponentVal>)) -> bool {
    exists|k: int| i <= k < p.len() && #[trigger] p[k] == e && e.1 is Some
}

proof fn lemma_added_from(p: PatchVal, i: int)
    requires
        0 <= i,
    ensures
        forall|a: int| 0 <= a < added_from(p, i).len() ==> adds(p, i, #[trigger] added_from(p, i)[a]),
        added_from(p, i).len() == count_added(p, i),
    decreases p.len() - i,
{
    if i < p.len() {
        lemma_added_from(p, i + 1);
        let q = added_from(p, i);
        let t = added_from(p, i + 1);
        assert forall|a: int| 0 <= a < q.len() implies adds(p, i, #[trigger] q[a]) by {
            if p[i].1 is None {
                assert(q[a] == t[a]);
                assert(adds(p, i + 1, t[a]));
            } else if a > 0 {
                assert(q[a] == t[a - 1]);
                assert(adds(p, i + 1, t[a - 1]));
            } else {
                assert(q[a] == p[i]);
            }
        }
    }
}

proof fn lemma_no_entry(p: PatchVal, k: DataComponent, i: int)
    requires
        0 <= i,
        forall|a: int| 0 <= a < p.len() ==> (#[trigger] p[a]).0 != k,
    ensures
        first_entry(p, k, i) is None,
    decreases p.len() - i,
{
    if i < p.len() {
        assert(p[i].0 != k);
        lemma_no_entry(p, k, i + 1);
    }
}

/// An entry for a component that a patch has none for comes behind the others.
pub proof fn lemma_fresh_entry(p: PatchVal, k: DataComponent, v: Option<ComponentVal>)
    requires
        forall|a: int| 0 <= a < p.len() ==> (#[trigger] p[a]).0 != k,
    ensures
        set_entry(p, k, v) == p.push((k, v)),
{
    lemma_no_entry(p, k, 0);
}

/// Whether no entry of `head` is for a component that `p` has an entry for, from the `i`th on.
pub open spec fn apart(head: PatchVal, p: PatchVal, i: int, added: bool) -> bool {
    forall|a: int, j: int|
        #![trigger head[a], p[j]]
        0 <= a < head.len() && i <= j < p.len() && p[j].1 is Some == added ==> head[a].0 != p[j].0
}

/// Whether a patch has at most one entry for each component.
pub open spec fn single(p: PatchVal) -> bool {
    forall|a: int, b: int| 0 <= a < b < p.len() ==> (#[trigger] p[a]).0 != (#[trigger] p[b]).0
}

proof fn lemma_removed(p: PatchVal, i: int, head: PatchVal, r: Seq<u8>)
    requires
        0 <= i <= p.len(),
        single(p),
        apart(head, p, i, false),
    ensures
        read_removed((p.len() - i - count_added(p, i)) as nat, removed_bytes(p, i) + r, head) == done(head + removed_from(p, i), r),
        count_added(p, i) <= p.len() - i,
    decreases p.len() - i,
{
    lemma_regroup(r, r, r);
    if i < p.len() {
        let tail = removed_bytes(p, i + 1);
        if p[i].1 is None {
            let k = p[i].0;
            let id = component_id(k) as int;
            lemma_component_of_own_id(k);
            lemma_regroup(var_int(id), tail, r);
            lemma_read_var_int(id, tail + r);
            assert forall|a: int| 0 <= a < head.len() implies (#[trigger] head[a]).0 != k by {
                assert(p[i].1 is Some == false);
            }
            lemma_no_entry(head, k, 0);
            let more = head.push((k, None));
            assert(more == set_entry(head, k, None));
            lemma_removed(p, i + 1, more, r);
            assert(p[i] == (k, None::<ComponentVal>));
            assert(head + removed_from(p, i) =~= more + removed_from(p, i + 1));
        } else {
            lemma_removed(p, i + 1, head, r);
        }
    } else {
        assert(head + removed_from(p, i) =~= head);
    }
}

#[verifier::rlimit(60)]
proof fn lemma_added(c: Ctx, out: Seq<u8>, p: PatchVal, i: int, head: PatchVal, r: Seq<u8>)
    requires
        0 <= i <= p.len(),
        single(p),
        patch_fits(c, p),
        apart(head, p, i, true),
    ensures
        write_added(c, out, p, i) == put(out, added_bytes(c, p, i)),
        read_added(c, count_added(p, i), added_bytes(c, p, i) + r, head) == done(head + added_from(p, i), r),
    decreases c.budget + 1, 1int, Format::Unit, p.len() - i,
{
    reveal(read_val);
    reveal(write_val);
    let e = Seq::<u8>::empty();
    lemma_regroup(out, out, out);
    lemma_regroup(r, r, r);
    if i < p.len() {
        match p[i].1 {
            None => {
                lemma_added(c, out, p, i + 1, head, r);
                assert(head + added_from(p, i) == head + added_from(p, i + 1));
            },
            Some(v) => {
                let k = p[i].0;
                let id = component_id(k) as int;
                let f = component_format(k);
                let b = val_bytes(f, c, v.val);
                let tail = added_bytes(c, p, i + 1);
                let more = head.push((k, Some(v)));
                lemma_component_of_own_id(k);
                assert(v.kind == k && keeps(f, c, v.val));
                lemma_val(f, c, out + var_int(id), v.val, tail + r);
                lemma_val(f, c, e + var_int(id), v.val, tail + r);
                assert forall|a: int| 0 <= a < head.len() implies (#[trigger] head[a]).0 != k by {
                    assert(p[i].1 is Some == true);
                }
                lemma_no_entry(head, k, 0);
                assert(more == set_entry(head, k, Some(v)));
                assert(p[i] == (k, Some(v)));
                assert(v == (ComponentVal { kind: k, val: v.val }));
                lemma_added(c, out + var_int(id) + b, p, i + 1, more, r);
                lemma_added(c, e + var_int(id) + b, p, i + 1, more, r);
                lemma_regroup(var_int(id), b, tail);
                lemma_regroup(out, var_int(id), b);
                lemma_regroup(out, var_int(id) + b, tail);
                lemma_regroup(var_int(id) + b, tail, r);
                lemma_regroup(var_int(id), b, tail + r);
                assert(added_bytes(c, p, i) == var_int(id) + b + tail);
                lemma_read_var_int(id, b + (tail + r));
                assert(head + added_from(p, i) =~= more + added_from(p, i + 1));
            },
        }
    } else {
        assert(head + added_from(p, i) =~= head);
    }
}

/// The entries of a patch that add a component are for others than those that remove one.
pub proof fn lemma_added_parts(p: PatchVal)
    requires
        single(p),
    ensures
        apart(added_from(p, 0), p, 0, false),
{
    let added = added_from(p, 0);
    lemma_added_from(p, 0);
    assert forall|a: int, j: int|
        #![trigger added[a], p[j]]
        0 <= a < added.len() && 0 <= j < p.len() && p[j].1 is Some == false implies added[a].0 != p[j].0 by {
        assert(adds(p, 0, added[a]));
        let k = choose|k: int| 0 <= k < p.len() && #[trigger] p[k] == added[a] && added[a].1 is Some;
        if k < j {
            assert(p[k].0 != p[j].0);
        } else {
            assert(p[j].0 != p[k].0);
        }
    }
}

proof fn lemma_template(c: Ctx, out: Seq<u8>, st: StackVal, r: Seq<u8>)
    requires
        template_fits(c, st),
    ensures
        write_template(c, out, st) == put(out, template_bytes(c, st)),
        read_template(c, template_bytes(c, st) + r) == done(
            Val::Stack(StackVal { item: st.item, count: st.count, patch: settled(st.patch) }),
            r,
        ),
    decreases c.budget, 2int, Format::Unit, 0int,
{
    reveal(read_val);
    reveal(write_val);
    let e = Seq::<u8>::empty();
    let p = last_entries(st.patch, 0);
    lemma_last_distinct(st.patch, 0);
    lemma_added_from(p, 0);
    let none: PatchVal = Seq::empty();
    let added = added_from(p, 0);
    let n = count_added(p, 0);
    let first = added_bytes(inside(c), p, 0);
    let last = removed_bytes(p, 0);
    lemma_added_parts(p);
    lemma_removed(p, 0, added, r);
    let id = st.item.id as int;
    let m = p.len() - n;
    let a1 = var_int(id) + var_int(st.count);
    let a2 = a1 + var_int(n as int);
    let a3 = a2 + var_int(m);
    lemma_regroup(out, var_int(id), var_int(st.count));
    lemma_regroup(out, a1, var_int(n as int));
    lemma_regroup(out, a2, var_int(m));
    lemma_regroup(out, a3, first);
    lemma_regroup(out, a3 + first, last);
    lemma_regroup(var_int(id), r, r);
    lemma_added(inside(c), out + a3, p, 0, none, last + r);
    lemma_added(inside(c), a3, p, 0, none, last + r);
    assert(none + added =~= added);
    let b = template_bytes(c, st);
    assert(b == a3 + first + last);
    let r4 = first + (last + r);
    let r3 = var_int(m) + r4;
    let r2 = var_int(n as int) + r3;
    let r1 = var_int(st.count) + r2;
    lemma_regroup(a3 + first, last, r);
    lemma_regroup(a3, first, last + r);
    lemma_regroup(a2, var_int(m), r4);
    lemma_regroup(a1, var_int(n as int), r3);
    lemma_regroup(var_int(id), var_int(st.count), r2);
    lemma_read_var_int(id, r1);
    lemma_read_var_int(st.count, r2);
    lemma_read_var_int(n as int, r3);
    lemma_read_var_int(m, r4);
}

proof fn lemma_slot_last(l: Seq<Val>, n: nat)
    requires
        slots_ascend(l),
        n <= l.len(),
        forall|i: int| 0 <= i < l.len() ==> (#[trigger] l[i] matches Val::Pair(slot, st) && (*slot matches Val::Int(slot) && 0 <= slot < 256)),
    ensures
        slot_count(l, n) == if n == 0 {
            0
        } else {
            slot_at(l, n - 1) + 1
        },
    decreases n,
{
    if n > 0 {
        lemma_slot_last(l, (n - 1) as nat);
        assert(l[n - 1] is Pair);
        if n > 1 {
            assert(slot_at(l, n - 2) < slot_at(l, n - 1));
        }
    }
}

/// The stack in a slot of a container.
pub open spec fn stack_at(l: Seq<Val>, i: int) -> StackVal {
    (*l[i]->Pair_1)->Stack_0
}

proof fn lemma_slot_stack(l: Seq<Val>, n: nat, s: int)
    requires
        slots_ascend(l),
        n <= l.len(),
        forall|i: int|
            0 <= i < l.len() ==> (#[trigger] l[i] matches Val::Pair(slot, st) && (*slot matches Val::Int(slot) && 0 <= slot < 256) && *st is Stack),
    ensures
        forall|j: int| 0 <= j < n && #[trigger] slot_at(l, j) == s ==> slot_stack(l, n, s) == Some(stack_at(l, j)),
        (forall|j: int| 0 <= j < n ==> #[trigger] slot_at(l, j) != s) ==> slot_stack(l, n, s) is None,
    decreases n,
{
    if n > 0 {
        lemma_slot_stack(l, (n - 1) as nat, s);
        assert(l[n - 1] is Pair);
        assert forall|j: int| 0 <= j < n && #[trigger] slot_at(l, j) == s implies slot_stack(l, n, s) == Some(stack_at(l, j)) by {
            if j < n - 1 {
                assert(slot_at(l, j) < slot_at(l, n - 1));
            }
        }
        if forall|j: int| 0 <= j < n ==> #[trigger] slot_at(l, j) != s {
            assert(slot_at(l, n - 1) != s);
        }
    }
}

proof fn lemma_slots(l: Seq<Val>, i: int, k: int, n: int, c: Ctx, out: Seq<u8>, r: Seq<u8>)
    requires
        slots_ascend(l),
        0 <= k <= l.len(),
        0 <= i <= n,
        n == slot_count(l, l.len()),
        forall|j: int| 0 <= j < k ==> #[trigger] slot_at(l, j) < i,
        forall|j: int| k <= j < l.len() ==> #[trigger] slot_at(l, j) >= i,
        forall|j: int|
            0 <= j < l.len() ==> (#[trigger] l[j] matches Val::Pair(slot, st) && (*slot matches Val::Int(slot) && 0 <= slot < 256) && (
            *st matches Val::Stack(st) && template_fits(c, st) && settled(st.patch) == st.patch)),
    ensures
        write_slots(l, i, n, c, out) == put(out, slots_bytes(l, i, n, c)),
        read_slots(i, n, c, slots_bytes(l, i, n, c) + r, l.take(k)) == done(Val::List(l), r),
    decreases c.budget, 3int, Format::Unit, n - i,
{
    reveal(read_val);
    reveal(write_val);
    let e = Seq::<u8>::empty();
    lemma_regroup(out, out, out);
    lemma_regroup(r, r, r);
    lemma_slot_last(l, l.len());
    if i >= n {
        if k < l.len() {
            assert(slot_at(l, k) <= slot_at(l, l.len() - 1));
        }
        assert(l.take(k) =~= l);
    } else {
        lemma_slot_stack(l, l.len(), i);
        let tail = slots_bytes(l, i + 1, n, c);
        if k < l.len() && slot_at(l, k) == i {
            let st = stack_at(l, k);
            let b = template_bytes(c, st);
            assert(l[k] is Pair);
            lemma_template(c, out + flag(true), st, tail + r);
            lemma_template(c, e + flag(true), st, tail + r);
            assert forall|j: int| k + 1 <= j < l.len() implies #[trigger] slot_at(l, j) >= i + 1 by {
                assert(slot_at(l, k) < slot_at(l, j));
            }
            lemma_slots(l, i + 1, k + 1, n, c, out + flag(true) + b, r);
            lemma_slots(l, i + 1, k + 1, n, c, e + flag(true) + b, r);
            assert(l.take(k).push(l[k]) =~= l.take(k + 1));
            assert(l[k] == pair(Val::Int(i), Val::Stack(st)));
            assert(st == (StackVal { item: st.item, count: st.count, patch: settled(st.patch) }));
            lemma_regroup(flag(true), b, tail);
            lemma_regroup(out, flag(true), b);
            lemma_regroup(out, flag(true) + b, tail);
            lemma_regroup(flag(true) + b, tail, r);
            lemma_regroup(flag(true), b, tail + r);
            assert(slots_bytes(l, i, n, c) == flag(true) + b + tail);
            lemma_read_bool(true, b + (tail + r));
        } else {
            assert forall|j: int| 0 <= j < l.len() implies #[trigger] slot_at(l, j) != i by {
                if j > k {
                    assert(slot_at(l, k) < slot_at(l, j));
                }
            }
            lemma_slots(l, i + 1, k, n, c, out + flag(false), r);
            lemma_slots(l, i + 1, k, n, c, e + flag(false), r);
            lemma_regroup(out, flag(false), tail);
            lemma_regroup(flag(false), tail, r);
            assert(slots_bytes(l, i, n, c) == flag(false) + tail);
            lemma_read_bool(false, tail + r);
        }
    }
}

proof fn lemma_items(f: Format, c: Ctx, out: Seq<u8>, l: Seq<Val>, i: int, r: Seq<u8>)
    requires
        0 <= i <= l.len(),
        forall|i: int| 0 <= i < l.len() ==> keeps(f, c, #[trigger] l[i]),
    ensures
        write_items(f, c, out, l, i) == put(out, items_bytes(f, c, l, i)),
        read_items(f, (l.len() - i) as nat, c, items_bytes(f, c, l, i) + r, l.take(i)) == done(Val::List(l), r),
    decreases c.budget, 0int, f, l.len() - i + 1,
{
    reveal(read_val);
    reveal(write_val);
    let e = Seq::<u8>::empty();
    lemma_regroup(out, out, out);
    lemma_regroup(r, r, r);
    if i < l.len() {
        let b = val_bytes(f, c, l[i]);
        let tail = items_bytes(f, c, l, i + 1);
        lemma_val(f, c, out, l[i], tail + r);
        lemma_val(f, c, e, l[i], tail + r);
        lemma_items(f, c, out + b, l, i + 1, r);
        lemma_items(f, c, e + b, l, i + 1, r);
        lemma_regroup(out, b, tail);
        lemma_regroup(b, tail, r);
        assert(items_bytes(f, c, l, i) == b + tail);
        assert(l.take(i).push(l[i]) =~= l.take(i + 1));
    } else {
        assert(l.take(i) =~= l);
    }
}

pub(crate) proof fn lemma_val(f: Format, c: Ctx, out: Seq<u8>, v: Val, r: Seq<u8>)
    requires
        keeps(f, c, v),
    ensures
        write_val(f, c, out, v) == put(out, val_bytes(f, c, v)),
        read_val(f, c, val_bytes(f, c, v) + r) == done(v, r),
    decreases c.budget, 0int, f, 0int,
{
    reveal(read_val);
    reveal(write_val);
    let e = Seq::<u8>::empty();
    let b = val_bytes(f, c, v);
    lemma_regroup(out, out, out);
    lemma_regroup(r, r, r);
    match f {
        Format::Pair(x, y) => {
            let v1 = *v->Pair_0;
            let v2 = *v->Pair_1;
            let b1 = val_bytes(*x, c, v1);
            let b2 = val_bytes(*y, c, v2);
            lemma_val(*x, c, out, v1, b2 + r);
            lemma_val(*x, c, e, v1, b2 + r);
            lemma_val(*y, c, out + b1, v2, r);
            lemma_val(*y, c, e + b1, v2, r);
            lemma_regroup(b1, b2, r);
            lemma_regroup(out, b1, b2);
            assert(b == b1 + b2);
        },
        Format::Opt(x) => match v {
            Val::Present(p) => {
                let b1 = val_bytes(*x, c, *p);
                lemma_val(*x, c, out + flag(true), *p, r);
                lemma_val(*x, c, e + flag(true), *p, r);
                lemma_regroup(flag(true), b1, r);
                lemma_regroup(out, flag(true), b1);
                lemma_read_bool(true, b1 + r);
                assert(b == flag(true) + b1);
            },
            _ => {
                lemma_regroup(flag(false), r, r);
                lemma_read_bool(false, r);
            },
        },
        Format::Choice(alts, _) => {
            let i = (*v->Pair_0)->Int_0;
            let x = *v->Pair_1;
            let b1 = val_bytes(alts[i], c, x);
            lemma_val(alts[i], c, out + var_int(i), x, r);
            lemma_val(alts[i], c, e + var_int(i), x, r);
            lemma_regroup(var_int(i), b1, r);
            lemma_regroup(out, var_int(i), b1);
            lemma_read_var_int(i, b1 + r);
            assert(b == var_int(i) + b1);
        },
        Format::Fixed(a, w, _) => {
            lemma_val(*a, c, out, *w, r);
        },
        Format::List(rule, limit, a) => {
            lemma_counted(rule, limit, *a, c, out, v->List_0, r);
        },
        Format::Distinct(rule, limit, a) => {
            lemma_counted(rule, limit, *a, c, out, v->List_0, r);
        },
        Format::Slots => {
            let l = v->List_0;
            let n = slot_count(l, l.len());
            lemma_slot_last(l, l.len());
            if l.len() > 0 {
                assert(l[l.len() - 1] is Pair);
            }
            assert(l.take(0) =~= Seq::empty());
            let b1 = slots_bytes(l, 0, n, deeper(c));
            assert forall|j: int| 0 <= j < l.len() implies #[trigger] slot_at(l, j) >= 0 by {
                assert(l[j] is Pair);
            }
            lemma_slots(l, 0, 0, n, deeper(c), out + var_int(n), r);
            lemma_slots(l, 0, 0, n, deeper(c), e + var_int(n), r);
            lemma_regroup(var_int(n), b1, r);
            lemma_regroup(out, var_int(n), b1);
            lemma_read_var_int(n, b1 + r);
            assert(b == var_int(n) + b1);
        },
        Format::Template => {
            let st = v->Stack_0;
            lemma_template(deeper(c), out, st, r);
            assert(st == (StackVal { item: st.item, count: st.count, patch: settled(st.patch) }));
        },
        Format::Predicates => {
            lemma_predicates(deeper(c), out, v->Nbt_0, r);
            lemma_predicates(deeper(c), e, v->Nbt_0, r);
            lemma_regroup(predicates_bytes(deeper(c), v->Nbt_0), r, r);
        },
        _ => {
            lemma_leaf_returns(f, c.regs, out, v, r);
        },
    }
}

proof fn lemma_counted(rule: CountRule, limit: Limit, f: Format, c: Ctx, out: Seq<u8>, l: Seq<Val>, r: Seq<u8>)
    requires
        count_keeps(rule, limit, l.len()),
        forall|i: int| 0 <= i < l.len() ==> keeps(f, c, #[trigger] l[i]),
    ensures
        ({
            let n = var_int(written_count(l.len()));
            let b = n + items_bytes(f, c, l, 0);
            &&& write_items(f, c, out + n, l, 0) == put(out, b)
            &&& write_items(f, c, Seq::<u8>::empty() + n, l, 0) == put(Seq::empty(), b)
            &&& read_count(rule, b + r) == done(l.len(), items_bytes(f, c, l, 0) + r)
            &&& read_items(f, l.len(), c, items_bytes(f, c, l, 0) + r, Seq::empty()) == done(Val::List(l), r)
        }),
    decreases c.budget, 0int, f, l.len() + 2,
{
    reveal(read_val);
    reveal(write_val);
    let e = Seq::<u8>::empty();
    let n = var_int(written_count(l.len()));
    let b1 = items_bytes(f, c, l, 0);
    lemma_items(f, c, out + n, l, 0, r);
    lemma_items(f, c, e + n, l, 0, r);
    lemma_regroup(n, b1, r);
    lemma_regroup(out, n, b1);
    lemma_regroup(e, n, b1);
    lemma_count(rule, limit, l.len(), b1 + r);
    assert(l.take(0) =~= Seq::empty());
}

/// A value comes back from the wire: reading what was written gives the value again, whatever stands
/// before and behind it.
pub proof fn lemma_values_return(f: Format, c: Ctx, out: Seq<u8>, v: Val, r: Seq<u8>)
    ensures
        keeps(f, c, v) ==> write_val(f, c, out, v) == put(out, val_bytes(f, c, v)) && read_val(f, c, val_bytes(f, c, v) + r) == done(v, r),
{
    if keeps(f, c, v) {
        lemma_val(f, c, out, v, r);
    }
}

/// A stack comes back from the wire, with a patch that has one entry for each component.
pub proof fn lemma_stacks_return(c: Ctx, out: Seq<u8>, st: StackVal, r: Seq<u8>)
    ensures
        template_fits(c, st) ==> write_template(c, out, st) == put(out, template_bytes(c, st)) && read_template(
            c,
            template_bytes(c, st) + r,
        ) == done(Val::Stack(StackVal { item: st.item, count: st.count, patch: settled(st.patch) }), r),
{
    if template_fits(c, st) {
        lemma_template(c, out, st, r);
    }
}

/// The entries of a patch that no later entry overrides are for different components.
pub proof fn lemma_last_single(p: PatchVal)
    ensures
        single(last_entries(p, 0)),
{
    lemma_last_distinct(p, 0);
}

} // verus!
