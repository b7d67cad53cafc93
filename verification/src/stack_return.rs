//! Stacks come back from the wire in every version.
use vstd::prelude::*;
use crate::basic::{CustomDataImpl, CustomNameImpl, ItemNameImpl};
use crate::bytes::{be_bytes, be_signed, lemma_pow256, lemma_regroup, lemma_signed_roundtrip, to_signed};
use crate::codec::DataComponentCodec;
use crate::coded::CodedComponent;
use crate::components::{component_format, DataComponentImpl};
use crate::data_component::{component_id, lemma_component_of_own_id, DataComponent};
use crate::format::{put, role_tag, write_leaf, write_val, written_count, ComponentVal, Ctx, Format, NbtRole, PatchVal, StackVal, Val, MAX_COMPONENTS};
use crate::leaf_return::{leaf_keeps, lemma_small_count};
use crate::nbt_codec::{lemma_tag_returns, tag_bytes};
use crate::patch_laws::{entry_in, lemma_effective_entry, lemma_parted_entry};
use crate::registry::{component_id_out, item_id_out, Registries};
use crate::serializer::{current_id, decoded, has_components, has_marks, is_flat, item_for, item_name_tag, nothing, plain_stack, read_adds, read_component, read_component_id, read_counted_stack, read_filled, read_patch, read_removes, read_tail, read_versioned, tag_in, IdRule, ReadStack, MAX_PACKET_DATA_SIZE};
use crate::serializer_write::{find_wire, remapped, removes_bytes, wire_bytes, wire_entries, write_adds, write_component, write_entries, write_filled, write_stack, WireEntry};
use crate::stack::{effective, holds_nothing};
use crate::version::JavaMinecraftVersion;
use crate::wire::{done, flag, lemma_read_bool, lemma_read_bytes, lemma_read_signed, lemma_read_unsigned, lemma_read_var_int, var_int};
use crate::wire_return::{added_from, apart, keeps, lemma_added_parts, lemma_fresh_entry, lemma_values_return, removed_from, single, val_bytes};

verus! {

/// Whether the number that a version has for a component is known to a reader as that component.
pub open spec fn number_returns(rule: IdRule, regs: Registries, version: JavaMinecraftVersion, k: DataComponent) -> bool {
    let w = component_id_out(regs, component_id(k) as int, version);
    0 <= w <= i32::MAX && (w == 0 <==> k == DataComponent::CustomData) && current_id(rule, regs, w) == component_id(k)
}

/// Whether the value of a component comes back, also where its bytes are counted.
pub open spec fn value_returns(counted: bool, c: Ctx, v: ComponentVal) -> bool {
    keeps(component_format(v.kind), c, v.val) && (counted ==> val_bytes(component_format(v.kind), c, v.val).len() <= MAX_PACKET_DATA_SIZE && (
    v.kind == DataComponent::ItemName ==> (v.val matches Val::Nbt(t) && item_name_tag(t) == t)))
}

/// Whether the entries of a patch come back.
pub open spec fn entries_return(rule: IdRule, counted: bool, c: Ctx, version: JavaMinecraftVersion, p: PatchVal) -> bool {
    p.len() <= MAX_COMPONENTS && (forall|i: int| 0 <= i < p.len() ==> number_returns(rule, c.regs, version, (#[trigger] p[i]).0)) && (
    forall|i: int| 0 <= i < p.len() ==> (#[trigger] p[i].1 matches Some(v) ==> v.kind == p[i].0 && value_returns(counted, c, v)))
}

/// A patch with the entries that add a component before those that remove one.
pub open spec fn parted(p: PatchVal) -> PatchVal {
    added_from(p, 0) + removed_from(p, 0)
}

/// Whether a stack of a version with components comes back.
pub open spec fn stack_returns(
    rule: IdRule,
    counted: bool,
    items: Option<JavaMinecraftVersion>,
    c: Ctx,
    version: JavaMinecraftVersion,
    s: StackVal,
) -> bool {
    let id = item_id_out(c.regs, s.item.id as int, version);
    has_components(version) && !holds_nothing(s) && 1 <= s.count <= 255 && 0 <= id <= 0xffff && item_for(c.regs, id, items) == Some(s.item)
        && entries_return(rule, counted, c, version, effective(s.patch, s.patch.len()))
}

/// The entries with the numbers that a version has for them.
pub open spec fn numbered(regs: Registries, version: JavaMinecraftVersion, p: PatchVal) -> Seq<WireEntry> {
    Seq::new(
        p.len(),
        |i: int| WireEntry { wire_id: component_id_out(regs, component_id(p[i].0) as int, version), kind: p[i].0, value: p[i].1 },
    )
}

proof fn lemma_find_wire_none(l: Seq<WireEntry>, w: int, i: int)
    requires
        0 <= i,
        forall|j: int| 0 <= j < l.len() ==> (#[trigger] l[j]).wire_id != w,
    ensures
        find_wire(l, w, i) is None,
    decreases l.len() - i,
{
    if i < l.len() {
        assert(l[i].wire_id != w);
        lemma_find_wire_none(l, w, i + 1);
    }
}

pub(crate) proof fn lemma_remapped(rule: IdRule, regs: Registries, version: JavaMinecraftVersion, p: PatchVal, n: nat)
    requires
        n <= p.len(),
        single(p),
        forall|i: int| 0 <= i < p.len() ==> number_returns(rule, regs, version, (#[trigger] p[i]).0),
    ensures
        remapped(regs, version, p, n) == numbered(regs, version, p).take(n as int),
    decreases n,
{
    let all = numbered(regs, version, p);
    if n > 0 {
        let m = (n - 1) as nat;
        lemma_remapped(rule, regs, version, p, m);
        let head = remapped(regs, version, p, m);
        let e = all[n - 1];
        assert(number_returns(rule, regs, version, p[n - 1].0));
        assert forall|j: int| 0 <= j < head.len() implies (#[trigger] head[j]).wire_id != e.wire_id by {
            assert(head[j] == all[j]);
            assert(number_returns(rule, regs, version, p[j].0));
            lemma_component_of_own_id(p[j].0);
            lemma_component_of_own_id(p[n - 1].0);
            assert(p[j].0 != p[n - 1].0);
        }
        lemma_find_wire_none(head, e.wire_id, 0);
        assert(all.take(n as int) =~= all.take(m as int).push(e));
    } else {
        assert(all.take(0) =~= Seq::empty());
    }
}

proof fn lemma_number(rule: IdRule, adding: bool, regs: Registries, version: JavaMinecraftVersion, k: DataComponent, r: Seq<u8>)
    requires
        number_returns(rule, regs, version, k),
    ensures
        ({
            let w = component_id_out(regs, component_id(k) as int, version);
            wire_bytes(w) == var_int(w) && read_component_id(rule, adding, regs, wire_bytes(w) + r) == done(k, r)
        }),
{
    lemma_pow256();
    let w = component_id_out(regs, component_id(k) as int, version);
    lemma_signed_roundtrip(w, 4);
    lemma_read_var_int(w, r);
    lemma_component_of_own_id(k);
    if w != 0 && component_id(k) == 0 {
        lemma_component_of_own_id(DataComponent::CustomData);
        assert(false);
    }
}

proof fn lemma_tag_value(c: Ctx, role: NbtRole, v: Val)
    requires
        leaf_keeps(Format::Nbt(role), c.regs, v),
        v is Nbt,
    ensures
        tag_in(val_bytes(Format::Nbt(role), c, v)) == Some(v->Nbt_0),
{
    reveal(write_val);
    let t = v->Nbt_0;
    lemma_regroup(tag_bytes(role_tag(role, v)), Seq::empty(), Seq::empty());
    lemma_tag_returns(role_tag(role, v), Seq::empty());
    assert(val_bytes(Format::Nbt(role), c, v) == write_leaf(Format::Nbt(role), c.regs, Seq::empty(), v).out);
    assert(val_bytes(Format::Nbt(role), c, v) == tag_bytes(role_tag(role, v)));
}

proof fn lemma_decoded(c: Ctx, v: ComponentVal)
    requires
        value_returns(true, c, v),
    ensures
        decoded(v.kind, c, val_bytes(component_format(v.kind), c, v.val)) == Ok::<Val, crate::errors::ReadFault>(v.val),
{
    let b = val_bytes(component_format(v.kind), c, v.val);
    CustomNameImpl::lemma_format();
    ItemNameImpl::lemma_format();
    CustomDataImpl::lemma_format();
    if v.kind == DataComponent::CustomName {
        lemma_tag_value(c, NbtRole::Name, v.val);
    } else if v.kind == DataComponent::ItemName {
        lemma_tag_value(c, NbtRole::ItemName, v.val);
    } else if v.kind == DataComponent::CustomData {
        lemma_tag_value(c, NbtRole::Compound, v.val);
    } else {
        lemma_values_return(component_format(v.kind), c, Seq::empty(), v.val, Seq::empty());
        lemma_regroup(b, Seq::empty(), Seq::empty());
    }
}

proof fn lemma_component(counted: bool, c: Ctx, out: Seq<u8>, v: ComponentVal, r: Seq<u8>)
    requires
        value_returns(counted, c, v),
    ensures
        ({
            let b = write_component(c, counted, Seq::empty(), v).out;
            write_component(c, counted, out, v) == put(out, b) && read_component(counted, v.kind, c, b + r) == done(v.val, r)
        }),
{
    let e = Seq::<u8>::empty();
    let f = component_format(v.kind);
    let data = val_bytes(f, c, v.val);
    let b = write_component(c, counted, e, v).out;
    lemma_values_return(f, c, out, v.val, r);
    lemma_values_return(f, c, e, v.val, r);
    lemma_regroup(data, r, r);
    if counted {
        let n = var_int(written_count(data.len()));
        lemma_small_count(data.len());
        lemma_decoded(c, v);
        lemma_regroup(n, data, r);
        lemma_regroup(out, n, data);
        lemma_regroup(e, n, data);
        lemma_read_var_int(data.len() as int, data + r);
        lemma_read_bytes(data, r);
    }
}

/// The bytes of the components that the entries from the `i`th on add.
pub open spec fn adds_bytes(c: Ctx, counted: bool, l: Seq<WireEntry>, i: int) -> Seq<u8> {
    write_adds(c, counted, Seq::empty(), l, i).out
}

proof fn lemma_add_written(counted: bool, c: Ctx, out: Seq<u8>, l: Seq<WireEntry>, i: int)
    requires
        0 <= i < l.len(),
        l[i].value matches Some(v) && v.kind == l[i].kind && value_returns(counted, c, v),
    ensures
        ({
            let b = write_component(c, counted, Seq::empty(), l[i].value->0).out;
            write_adds(c, counted, out, l, i) == write_adds(c, counted, out + wire_bytes(l[i].wire_id) + b, l, i + 1)
        }),
{
    lemma_component(counted, c, out + wire_bytes(l[i].wire_id), l[i].value->0, Seq::empty());
}

proof fn lemma_add_read(rule: IdRule, counted: bool, c: Ctx, version: JavaMinecraftVersion, v: ComponentVal, n: nat, head: PatchVal, r: Seq<u8>)
    requires
        n > 0,
        number_returns(rule, c.regs, version, v.kind),
        value_returns(counted, c, v),
        forall|a: int| 0 <= a < head.len() ==> (#[trigger] head[a]).0 != v.kind,
    ensures
        ({
            let w = wire_bytes(component_id_out(c.regs, component_id(v.kind) as int, version));
            let b = write_component(c, counted, Seq::empty(), v).out;
            read_adds(rule, counted, c, n, w + (b + r), head) == read_adds(rule, counted, c, (n - 1) as nat, r, head.push((v.kind, Some(v))))
        }),
{
    let b = write_component(c, counted, Seq::empty(), v).out;
    lemma_component(counted, c, Seq::empty(), v, r);
    lemma_number(rule, true, c.regs, version, v.kind, b + r);
    lemma_fresh_entry(head, v.kind, Some(v));
    assert(v == (ComponentVal { kind: v.kind, val: v.val }));
}

proof fn lemma_adds_written(
    rule: IdRule,
    counted: bool,
    c: Ctx,
    version: JavaMinecraftVersion,
    out: Seq<u8>,
    p: PatchVal,
    i: int,
)
    requires
        0 <= i <= p.len(),
        entries_return(rule, counted, c, version, p),
    ensures
        ({
            let l = numbered(c.regs, version, p);
            write_adds(c, counted, out, l, i) == put(out, adds_bytes(c, counted, l, i))
        }),
    decreases p.len() - i,
{
    let e = Seq::<u8>::empty();
    let l = numbered(c.regs, version, p);
    lemma_regroup(out, out, out);
    if i < p.len() {
        assert(l[i].kind == p[i].0 && l[i].value == p[i].1);
        match p[i].1 {
            None => {
                lemma_adds_written(rule, counted, c, version, out, p, i + 1);
            },
            Some(v) => {
                let w = wire_bytes(l[i].wire_id);
                let b = write_component(c, counted, e, v).out;
                let tail = adds_bytes(c, counted, l, i + 1);
                assert(v.kind == p[i].0 && value_returns(counted, c, v));
                lemma_adds_written(rule, counted, c, version, out + w + b, p, i + 1);
                lemma_adds_written(rule, counted, c, version, e + w + b, p, i + 1);
                lemma_add_written(counted, c, out, l, i);
                lemma_add_written(counted, c, e, l, i);
                lemma_regroup(w, b, tail);
                lemma_regroup(out, w, b);
                lemma_regroup(out, w + b, tail);
            },
        }
    }
}

proof fn lemma_adds_parts(rule: IdRule, counted: bool, c: Ctx, version: JavaMinecraftVersion, p: PatchVal, i: int, v: ComponentVal)
    requires
        0 <= i < p.len(),
        p[i].1 == Some(v),
        entries_return(rule, counted, c, version, p),
    ensures
        ({
            let l = numbered(c.regs, version, p);
            let w = wire_bytes(component_id_out(c.regs, component_id(v.kind) as int, version));
            let b = write_component(c, counted, Seq::empty(), v).out;
            adds_bytes(c, counted, l, i) == w + b + adds_bytes(c, counted, l, i + 1)
        }),
{
    let e = Seq::<u8>::empty();
    let l = numbered(c.regs, version, p);
    let w = wire_bytes(l[i].wire_id);
    let b = write_component(c, counted, e, v).out;
    assert(l[i].kind == p[i].0 && l[i].value == p[i].1);
    assert(v.kind == p[i].0 && value_returns(counted, c, v));
    lemma_add_written(counted, c, e, l, i);
    lemma_adds_written(rule, counted, c, version, e + w + b, p, i + 1);
    lemma_regroup(w, b, e);
}

#[verifier::rlimit(60)]
proof fn lemma_adds(
    rule: IdRule,
    counted: bool,
    c: Ctx,
    version: JavaMinecraftVersion,
    p: PatchVal,
    i: int,
    head: PatchVal,
    r: Seq<u8>,
)
    requires
        0 <= i <= p.len(),
        single(p),
        entries_return(rule, counted, c, version, p),
        apart(head, p, i, true),
    ensures
        ({
            let l = numbered(c.regs, version, p);
            let n = crate::serializer_write::added_from(l, i);
            read_adds(rule, counted, c, n, adds_bytes(c, counted, l, i) + r, head) == done(head + added_from(p, i), r)
        }),
    decreases p.len() - i,
{
    let l = numbered(c.regs, version, p);
    lemma_regroup(r, r, r);
    if i < p.len() {
        assert(l[i].kind == p[i].0 && l[i].value == p[i].1);
        match p[i].1 {
            None => {
                lemma_adds(rule, counted, c, version, p, i + 1, head, r);
                assert(head + added_from(p, i) == head + added_from(p, i + 1));
            },
            Some(v) => {
                let k = p[i].0;
                let w = wire_bytes(l[i].wire_id);
                let b = write_component(c, counted, Seq::empty(), v).out;
                let tail = adds_bytes(c, counted, l, i + 1);
                let more = head.push((k, Some(v)));
                assert(number_returns(rule, c.regs, version, p[i].0));
                assert(v.kind == k && value_returns(counted, c, v));
                assert forall|a: int| 0 <= a < head.len() implies (#[trigger] head[a]).0 != k by {
                    assert(p[i].1 is Some == true);
                }
                assert(p[i] == (k, Some(v)));
                lemma_adds(rule, counted, c, version, p, i + 1, more, r);
                lemma_adds_parts(rule, counted, c, version, p, i, v);
                lemma_regroup(w + b, tail, r);
                lemma_regroup(w, b, tail + r);
                lemma_add_read(rule, counted, c, version, v, (crate::serializer_write::added_from(l, i + 1) + 1) as nat, head, tail + r);
                assert(head + added_from(p, i) =~= more + added_from(p, i + 1));
            },
        }
    } else {
        assert(head + added_from(p, i) =~= head);
    }
}

proof fn lemma_removes(rule: IdRule, regs: Registries, version: JavaMinecraftVersion, p: PatchVal, i: int, head: PatchVal, r: Seq<u8>)
    requires
        0 <= i <= p.len(),
        single(p),
        forall|i: int| 0 <= i < p.len() ==> number_returns(rule, regs, version, (#[trigger] p[i]).0),
        apart(head, p, i, false),
    ensures
        ({
            let l = numbered(regs, version, p);
            let n = crate::serializer_write::added_from(l, i);
            n <= p.len() - i && read_removes(rule, regs, (p.len() - i - n) as nat, removes_bytes(l, i) + r, head) == done(
                head + removed_from(p, i),
                r,
            )
        }),
    decreases p.len() - i,
{
    let l = numbered(regs, version, p);
    lemma_regroup(r, r, r);
    if i < p.len() {
        assert(l[i].kind == p[i].0 && l[i].value == p[i].1);
        let tail = removes_bytes(l, i + 1);
        if p[i].1 is None {
            let k = p[i].0;
            let w = wire_bytes(l[i].wire_id);
            lemma_regroup(w, tail, r);
            lemma_number(rule, false, regs, version, k, tail + r);
            assert forall|a: int| 0 <= a < head.len() implies (#[trigger] head[a]).0 != k by {
                assert(p[i].1 is Some == false);
            }
            lemma_fresh_entry(head, k, None);
            let more = head.push((k, None));
            lemma_removes(rule, regs, version, p, i + 1, more, r);
            assert(p[i] == (k, None::<ComponentVal>));
            assert(head + removed_from(p, i) =~= more + removed_from(p, i + 1));
        } else {
            lemma_removes(rule, regs, version, p, i + 1, head, r);
        }
    } else {
        assert(head + removed_from(p, i) =~= head);
    }
}

/// The bytes of the counts and components of a patch.
pub open spec fn patch_bytes(c: Ctx, counted: bool, l: Seq<WireEntry>) -> Seq<u8> {
    write_entries(c, counted, Seq::empty(), l).out
}

proof fn lemma_patch(rule: IdRule, counted: bool, c: Ctx, version: JavaMinecraftVersion, out: Seq<u8>, p: PatchVal, r: Seq<u8>)
    requires
        single(p),
        entries_return(rule, counted, c, version, p),
    ensures
        ({
            let l = numbered(c.regs, version, p);
            let b = patch_bytes(c, counted, l);
            write_entries(c, counted, out, l) == put(out, b) && read_patch(rule, counted, c, b + r) == done(parted(p), r)
        }),
{
    let e = Seq::<u8>::empty();
    let l = numbered(c.regs, version, p);
    let none: PatchVal = Seq::empty();
    let added = added_from(p, 0);
    let n = crate::serializer_write::added_from(l, 0);
    let m = (p.len() - n) as nat;
    let first = adds_bytes(c, counted, l, 0);
    let last = removes_bytes(l, 0);
    lemma_added_parts(p);
    lemma_removes(rule, c.regs, version, p, 0, added, r);
    lemma_small_count(n);
    lemma_small_count(m);
    let a1 = var_int(n as int);
    let a2 = a1 + var_int(m as int);
    lemma_regroup(out, a1, var_int(m as int));
    lemma_regroup(out, a2, first);
    lemma_regroup(out, a2 + first, last);
    lemma_regroup(a1, first, last);
    lemma_adds_written(rule, counted, c, version, out + a2, p, 0);
    lemma_adds_written(rule, counted, c, version, a2, p, 0);
    lemma_adds(rule, counted, c, version, p, 0, none, last + r);
    assert(none + added =~= added);
    let b = patch_bytes(c, counted, l);
    assert(b == a2 + first + last);
    let r2 = first + (last + r);
    let r1 = var_int(m as int) + r2;
    lemma_regroup(a2 + first, last, r);
    lemma_regroup(a2, first, last + r);
    lemma_regroup(a1, var_int(m as int), r2);
    lemma_read_var_int(n as int, r1);
    lemma_read_var_int(m as int, r2);
}

/// A stack comes back in every version with components, whether the bytes of its components are
/// counted or not: the same item, as many of it, and one entry for each component that its patch sets
/// or removes.
pub proof fn lemma_stack_returns(
    rule: IdRule,
    counted: bool,
    early: bool,
    items: Option<JavaMinecraftVersion>,
    c: Ctx,
    version: JavaMinecraftVersion,
    out: Seq<u8>,
    s: StackVal,
    r: Seq<u8>,
)
    ensures
        ({
            let b = write_stack(c, counted, version, Seq::empty(), s).out;
            stack_returns(rule, counted, items, c, version, s) ==> write_stack(c, counted, version, out, s) == put(out, b)
                && read_counted_stack(rule, counted, early, items, c, b + r) == done(
                ReadStack { item: Some(s.item), count: s.count, patch: parted(effective(s.patch, s.patch.len())) },
                r,
            )
        }),
{
    if stack_returns(rule, counted, items, c, version, s) {
        let p = effective(s.patch, s.patch.len());
        let l = wire_entries(c.regs, version, s);
        lemma_effective_entry(s.patch, DataComponent::CustomData);
        lemma_remapped(rule, c.regs, version, p, p.len());
        assert(numbered(c.regs, version, p).take(p.len() as int) =~= numbered(c.regs, version, p));
        let id = item_id_out(c.regs, s.item.id as int, version);
        let head = var_int(s.count) + var_int(id);
        let b1 = patch_bytes(c, counted, l);
        lemma_patch(rule, counted, c, version, out + head, p, r);
        lemma_patch(rule, counted, c, version, head, p, r);
        lemma_regroup(out, var_int(s.count), var_int(id));
        lemma_regroup(var_int(s.count), var_int(id), b1 + r);
        lemma_regroup(head, b1, r);
        lemma_regroup(out, head, b1);
        lemma_read_var_int(s.count, var_int(id) + (b1 + r));
        lemma_read_var_int(id, b1 + r);
    }
}

/// A stack that cannot be empty comes back.
pub proof fn lemma_filled_returns(c: Ctx, version: JavaMinecraftVersion, out: Seq<u8>, s: StackVal, r: Seq<u8>)
    ensures
        ({
            let b = write_filled(c, version, Seq::empty(), s).out;
            stack_returns(IdRule::Template(version), false, Some(version), c, version, s) ==> write_filled(c, version, out, s) == put(out, b)
                && read_filled(version, c, b + r) == done(
                ReadStack { item: Some(s.item), count: s.count, patch: parted(effective(s.patch, s.patch.len())) },
                r,
            )
        }),
{
    let rule = IdRule::Template(version);
    if stack_returns(rule, false, Some(version), c, version, s) {
        let p = effective(s.patch, s.patch.len());
        let l = wire_entries(c.regs, version, s);
        lemma_effective_entry(s.patch, DataComponent::CustomData);
        lemma_remapped(rule, c.regs, version, p, p.len());
        assert(numbered(c.regs, version, p).take(p.len() as int) =~= numbered(c.regs, version, p));
        let id = item_id_out(c.regs, s.item.id as int, version);
        let head = var_int(id) + var_int(s.count);
        let b1 = patch_bytes(c, false, l);
        lemma_patch(rule, false, c, version, out + head, p, r);
        lemma_patch(rule, false, c, version, head, p, r);
        lemma_regroup(out, var_int(id), var_int(s.count));
        lemma_regroup(var_int(id), var_int(s.count), b1 + r);
        lemma_regroup(head, b1, r);
        lemma_regroup(out, head, b1);
        lemma_read_var_int(id, var_int(s.count) + (b1 + r));
        lemma_read_var_int(s.count, b1 + r);
    }
}

/// The patch that comes back says of every component what the patch that was written says.
pub proof fn lemma_parted_effective(p: PatchVal, k: DataComponent)
    ensures
        entry_in(parted(effective(p, p.len())), k) == entry_in(p, k),
{
    let q = effective(p, p.len());
    lemma_effective_entry(p, k);
    lemma_parted_entry(q, 0, k);
    assert(q.skip(0) =~= q);
}

/// An empty stack comes back as the stack that stands for nothing, in every version.
pub proof fn lemma_nothing_returns(c: Ctx, version: JavaMinecraftVersion, out: Seq<u8>, s: StackVal, r: Seq<u8>)
    requires
        holds_nothing(s),
    ensures
        ({
            let b = write_stack(c, false, version, Seq::empty(), s).out;
            write_stack(c, false, version, out, s) == put(out, b) && read_versioned(version, c, b + r) == done(nothing(), r)
        }),
{
    lemma_pow256();
    lemma_regroup(var_int(0), r, r);
    lemma_regroup(flag(false), r, r);
    lemma_regroup(be_signed(-1, 2), r, r);
    lemma_read_var_int(0, r);
    lemma_read_bool(false, r);
    lemma_read_signed(-1, 2, r);
}

/// The item and the count of a stack as a version without components has them.
pub open spec fn legacy_fits(c: Ctx, version: JavaMinecraftVersion, s: StackVal) -> bool {
    let id = item_id_out(c.regs, s.item.id as int, version);
    !has_components(version) && !holds_nothing(s) && 1 <= s.count <= 255 && 0 <= id <= 0xffff && (!has_marks(version) ==> id <= 0x7fff)
        && item_for(c.regs, id, Some(version)) == Some(s.item)
}

proof fn lemma_tail(c: Ctx, version: JavaMinecraftVersion, id: int, damage: bool, count: int, r: Seq<u8>)
    requires
        1 <= count <= 255,
    ensures
        ({
            let d = if damage {
                be_signed(0, 2)
            } else {
                Seq::<u8>::empty()
            };
            read_tail(c.regs, id, damage, version, be_signed(to_signed(count as nat, 1), 1) + (d + (be_bytes(0, 1) + r))) == done(
                plain_stack(c.regs, id, count, version),
                r,
            )
        }),
{
    lemma_pow256();
    let n = to_signed(count as nat, 1);
    let z = be_bytes(0, 1);
    lemma_read_unsigned(0, 1, r);
    lemma_regroup(z + r, r, r);
    if damage {
        lemma_read_signed(n, 1, be_signed(0, 2) + (z + r));
        lemma_read_signed(0, 2, z + r);
    } else {
        lemma_read_signed(n, 1, z + r);
    }
}

#[verifier::rlimit(60)]
proof fn lemma_marked(c: Ctx, version: JavaMinecraftVersion, out: Seq<u8>, s: StackVal, r: Seq<u8>)
    requires
        legacy_fits(c, version, s),
        has_marks(version),
    ensures
        ({
            let id = item_id_out(c.regs, s.item.id as int, version);
            let b = flag(true) + var_int(id) + be_signed(to_signed(s.count as nat, 1), 1) + be_bytes(0, 1);
            write_stack(c, false, version, out, s) == put(out, b) && read_versioned(version, c, b + r) == done(
                ReadStack { item: Some(s.item), count: s.count, patch: Seq::empty() },
                r,
            )
        }),
{
    lemma_pow256();
    let id = item_id_out(c.regs, s.item.id as int, version);
    let n = be_signed(to_signed(s.count as nat, 1), 1);
    let z = be_bytes(0, 1);
    let tail = n + (z + r);
    lemma_tail(c, version, id, false, s.count, r);
    lemma_regroup(z + r, r, r);
    lemma_regroup(flag(true) + var_int(id) + n, z, r);
    lemma_regroup(flag(true) + var_int(id), n, z + r);
    lemma_regroup(flag(true), var_int(id), tail);
    lemma_read_bool(true, var_int(id) + tail);
    lemma_read_var_int(id, tail);
    lemma_regroup(out, flag(true), var_int(id));
    lemma_regroup(out, flag(true) + var_int(id), n);
    lemma_regroup(out, flag(true) + var_int(id) + n, z);
}

proof fn lemma_unmarked(c: Ctx, version: JavaMinecraftVersion, out: Seq<u8>, s: StackVal, r: Seq<u8>)
    requires
        legacy_fits(c, version, s),
        !has_marks(version),
    ensures
        ({
            let id = item_id_out(c.regs, s.item.id as int, version);
            let d = if is_flat(version) {
                Seq::<u8>::empty()
            } else {
                be_signed(0, 2)
            };
            let b = be_signed(id, 2) + be_signed(to_signed(s.count as nat, 1), 1) + d + be_bytes(0, 1);
            write_stack(c, false, version, out, s) == put(out, b) && read_versioned(version, c, b + r) == done(
                ReadStack { item: Some(s.item), count: s.count, patch: Seq::empty() },
                r,
            )
        }),
{
    lemma_pow256();
    let id = item_id_out(c.regs, s.item.id as int, version);
    let n = be_signed(to_signed(s.count as nat, 1), 1);
    let z = be_bytes(0, 1);
    let i = be_signed(id, 2);
    let d = if is_flat(version) {
        Seq::<u8>::empty()
    } else {
        be_signed(0, 2)
    };
    let tail = n + (d + (z + r));
    lemma_tail(c, version, id, !is_flat(version), s.count, r);
    lemma_regroup(i + n + d, z, r);
    lemma_regroup(i + n, d, z + r);
    lemma_regroup(i, n, d + (z + r));
    lemma_read_signed(id, 2, tail);
    lemma_regroup(out, i, n);
    lemma_regroup(out, i + n, d);
    lemma_regroup(i + n, d, z);
    lemma_regroup(out, i + n + d, z);
    lemma_regroup(out + (i + n), z, z);
}

/// A version without components keeps the item and the count of a stack.
pub proof fn lemma_legacy_returns(c: Ctx, version: JavaMinecraftVersion, out: Seq<u8>, s: StackVal, r: Seq<u8>)
    requires
        legacy_fits(c, version, s),
    ensures
        ({
            let b = write_stack(c, false, version, Seq::empty(), s).out;
            write_stack(c, false, version, out, s) == put(out, b) && read_versioned(version, c, b + r) == done(
                ReadStack { item: Some(s.item), count: s.count, patch: Seq::empty() },
                r,
            )
        }),
{
    let e = Seq::<u8>::empty();
    lemma_regroup(write_stack(c, false, version, e, s).out, e, e);
    if has_marks(version) {
        let id = item_id_out(c.regs, s.item.id as int, version);
        lemma_marked(c, version, out, s, r);
        lemma_marked(c, version, e, s, r);
        lemma_regroup(flag(true) + var_int(id) + be_signed(to_signed(s.count as nat, 1), 1) + be_bytes(0, 1), e, e);
    } else {
        let id = item_id_out(c.regs, s.item.id as int, version);
        let d = if is_flat(version) {
            e
        } else {
            be_signed(0, 2)
        };
        lemma_unmarked(c, version, out, s, r);
        lemma_unmarked(c, version, e, s, r);
        lemma_regroup(be_signed(id, 2) + be_signed(to_signed(s.count as nat, 1), 1) + d + be_bytes(0, 1), e, e);
    }
}

} // verus!
