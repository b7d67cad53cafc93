//! Which bytes stacks are made of.
use vstd::prelude::*;
use crate::bytes::{be_bytes, be_signed, lemma_pow256};
use crate::components::component_format;
use crate::data_component::{component_id, DataComponent};
use crate::format::{count_added, inside, is_last, last_entries, put, removed_bytes, write_added, write_template, write_val, ComponentVal, Ctx, PatchVal, Sink, StackVal};
use crate::leaf_return::lemma_small_count;
use crate::registry::item_id_out;
use crate::sent::{in_turn, sent};
use crate::serializer::{decoded, read_counted, counts_components, has_components, has_marks, has_templates, is_flat};
use crate::serializer_write::{
    added_from, removes_bytes, wire_bytes, wire_entries, write_adds, write_component, write_cost, write_entries, write_filled, write_optional_template, write_stack,
    WireEntry,
};
use crate::version::{version_rank, JavaMinecraftVersion};
use crate::wire::{lemma_read_bytes, lemma_read_var_int, var_int};

verus! {

/// The versions, in the order in which they came out.
pub open spec fn all_versions() -> Seq<JavaMinecraftVersion> {
    seq![
        JavaMinecraftVersion::V_1_8,
        JavaMinecraftVersion::V_1_9,
        JavaMinecraftVersion::V_1_10,
        JavaMinecraftVersion::V_1_11,
        JavaMinecraftVersion::V_1_12,
        JavaMinecraftVersion::V_1_12_2,
        JavaMinecraftVersion::V_1_13,
        JavaMinecraftVersion::V_1_13_1,
        JavaMinecraftVersion::V_1_13_2,
        JavaMinecraftVersion::V_1_14,
        JavaMinecraftVersion::V_1_15,
        JavaMinecraftVersion::V_1_16,
        JavaMinecraftVersion::V_1_17,
        JavaMinecraftVersion::V_1_18,
        JavaMinecraftVersion::V_1_18_2,
        JavaMinecraftVersion::V_1_19,
        JavaMinecraftVersion::V_1_19_1,
        JavaMinecraftVersion::V_1_19_3,
        JavaMinecraftVersion::V_1_19_4,
        JavaMinecraftVersion::V_1_20,
        JavaMinecraftVersion::V_1_20_2,
        JavaMinecraftVersion::V_1_20_3,
        JavaMinecraftVersion::V_1_20_5,
        JavaMinecraftVersion::V_1_21,
        JavaMinecraftVersion::V_1_21_2,
        JavaMinecraftVersion::V_1_21_4,
        JavaMinecraftVersion::V_1_21_5,
        JavaMinecraftVersion::V_1_21_6,
        JavaMinecraftVersion::V_1_21_9,
        JavaMinecraftVersion::V_1_21_11,
        JavaMinecraftVersion::V_26_1,
        JavaMinecraftVersion::V_26_2,
    ]
}

/// A version comes after those before it in the list of all.
pub proof fn lemma_versions_in_order(i: int)
    requires
        0 <= i < 32,
    ensures
        all_versions().len() == 32,
        version_rank(all_versions()[i]) == i,
{
}

/// Stacks have components since 1.20.5, are marked since 1.13.2, have no damage value since 1.13, count the
/// bytes of components since 1.21.5, and are never empty as templates since 26.1.
pub proof fn lemma_what_versions_have(v: JavaMinecraftVersion)
    ensures
        has_components(v) <==> v is V_1_20_5 || v is V_1_21 || v is V_1_21_2 || v is V_1_21_4 || counts_components(v),
        counts_components(v) <==> v is V_1_21_5 || v is V_1_21_6 || v is V_1_21_9 || v is V_1_21_11 || has_templates(v),
        has_templates(v) <==> v is V_26_1 || v is V_26_2,
        !has_marks(v) <==> v is V_1_13_1 || v is V_1_13 || !is_flat(v),
        !is_flat(v) <==> v is V_1_8 || v is V_1_9 || v is V_1_10 || v is V_1_11 || v is V_1_12 || v is V_1_12_2,
{
}

/// The bytes of what is added: the number of each component, then its value.
pub open spec fn added_pieces(a: Seq<WireEntry>, piece: spec_fn(int) -> Seq<u8>) -> Seq<u8> {
    in_turn(a.len(), |k: int| var_int(a[k].wire_id) + piece(k), 0)
}

/// The bytes of what is removed: the number of each component.
pub open spec fn removed_pieces(r: Seq<WireEntry>) -> Seq<u8> {
    in_turn(r.len(), |k: int| var_int(r[k].wire_id), 0)
}

/// Whether entries add components, with values that are sent as these pieces.
pub open spec fn all_sent(c: Ctx, a: Seq<WireEntry>, piece: spec_fn(int) -> Seq<u8>) -> bool {
    forall|k: int|
        0 <= k < a.len() ==> ((#[trigger] a[k]).value matches Some(v) && v.kind == a[k].kind && sent(component_format(v.kind), c, v.val, piece(k)) && 0
            <= a[k].wire_id <= i32::MAX)
}

/// Whether entries remove components.
pub open spec fn all_removed(r: Seq<WireEntry>) -> bool {
    forall|k: int| 0 <= k < r.len() ==> (#[trigger] r[k]).value is None && 0 <= r[k].wire_id <= i32::MAX
}

proof fn lemma_wire_number(w: int)
    requires
        0 <= w <= i32::MAX,
    ensures
        wire_bytes(w) == var_int(w),
{
    lemma_pow256();
}

proof fn lemma_adds_in_turn(c: Ctx, out: Seq<u8>, a: Seq<WireEntry>, r: Seq<WireEntry>, piece: spec_fn(int) -> Seq<u8>, i: nat)
    requires
        i <= a.len(),
        all_sent(c, a, piece),
        all_removed(r),
    ensures
        write_adds(c, false, out, a + r, i as int) == put(out, in_turn(a.len(), |k: int| var_int(a[k].wire_id) + piece(k), i)),
        added_from(a + r, i as int) == a.len() - i,
        removes_bytes(a + r, i as int) == removed_pieces(r),
    decreases a.len() - i,
{
    let l = a + r;
    let f = |k: int| var_int(a[k].wire_id) + piece(k);
    if i < a.len() {
        let w = var_int(a[i as int].wire_id);
        assert(l[i as int] == a[i as int]);
        lemma_wire_number(a[i as int].wire_id);
        let v = a[i as int].value->0;
        assert(crate::format::write_val(component_format(v.kind), c, out + w, v.val) == put(out + w, piece(i as int)));
        lemma_adds_in_turn(c, out + w + piece(i as int), a, r, piece, i + 1);
        assert(out + w + piece(i as int) + in_turn(a.len(), f, i + 1) =~= out + (w + piece(i as int) + in_turn(a.len(), f, i + 1)));
    } else {
        lemma_removes_in_turn(c, out, a, r, 0);
        assert(out + in_turn(a.len(), f, i) =~= out);
    }
}

proof fn lemma_removes_in_turn(c: Ctx, out: Seq<u8>, a: Seq<WireEntry>, r: Seq<WireEntry>, j: nat)
    requires
        j <= r.len(),
        all_removed(r),
    ensures
        write_adds(c, false, out, a + r, (a.len() + j) as int) == (Sink { result: Ok(()), out }),
        added_from(a + r, (a.len() + j) as int) == 0,
        removes_bytes(a + r, (a.len() + j) as int) =~= in_turn(r.len(), |k: int| var_int(r[k].wire_id), j),
    decreases r.len() - j,
{
    if j < r.len() {
        assert((a + r)[(a.len() + j) as int] == r[j as int]);
        lemma_wire_number(r[j as int].wire_id);
        lemma_removes_in_turn(c, out, a, r, j + 1);
    }
}

/// A patch is sent as the number of components that it adds and of those that it removes, then each that it
/// adds with its value, then those that it removes.
pub proof fn lemma_patch_layout(c: Ctx, out: Seq<u8>, a: Seq<WireEntry>, r: Seq<WireEntry>, piece: spec_fn(int) -> Seq<u8>)
    requires
        all_sent(c, a, piece),
        all_removed(r),
        a.len() + r.len() <= i32::MAX,
    ensures
        write_entries(c, false, out, a + r) == put(
            out,
            var_int(a.len() as int) + var_int(r.len() as int) + added_pieces(a, piece) + removed_pieces(r),
        ),
{
    lemma_small_count(a.len());
    lemma_small_count(r.len());
    let n = var_int(a.len() as int);
    let m = var_int(r.len() as int);
    lemma_adds_in_turn(c, out + n + m, a, r, piece, 0);
    assert(out + n + m + added_pieces(a, piece) + removed_pieces(r) =~= out + (n + m + added_pieces(a, piece) + removed_pieces(r)));
}

/// In versions with components a stack is sent as its count, its item and its patch, and an empty one as a
/// count of zero.
#[verifier::rlimit(60)]
pub proof fn lemma_stack_layout(
    c: Ctx,
    version: JavaMinecraftVersion,
    out: Seq<u8>,
    s: StackVal,
    a: Seq<WireEntry>,
    r: Seq<WireEntry>,
    piece: spec_fn(int) -> Seq<u8>,
)
    requires
        has_components(version),
        all_sent(c, a, piece),
        all_removed(r),
        a.len() + r.len() <= i32::MAX,
        wire_entries(c.regs, version, s) == a + r,
    ensures
        s.count == 0 || s.item.id == 0 ==> write_stack(c, false, version, out, s) == put(out, seq![0u8]),
        s.count != 0 && s.item.id != 0 ==> write_stack(c, false, version, out, s) == put(
            out,
            var_int(s.count) + var_int(item_id_out(c.regs, s.item.id as int, version)) + (var_int(a.len() as int) + var_int(r.len() as int)
                + added_pieces(a, piece) + removed_pieces(r)),
        ),
        s.count != 0 && s.item.id != 0 ==> write_filled(c, version, out, s) == put(
            out,
            var_int(item_id_out(c.regs, s.item.id as int, version)) + var_int(s.count) + (var_int(a.len() as int) + var_int(r.len() as int)
                + added_pieces(a, piece) + removed_pieces(r)),
        ),
        s.count == 0 || s.item.id == 0 ==> write_filled(c, version, out, s).result is Err,
        write_cost(c, version, out, s) == put(
            out,
            var_int(item_id_out(c.regs, s.item.id as int, version)) + var_int(s.count) + (var_int(a.len() as int) + added_pieces(a, piece)),
        ),
{
    let n = var_int(s.count);
    let id = var_int(item_id_out(c.regs, s.item.id as int, version));
    let k = var_int(a.len() as int);
    let b = k + var_int(r.len() as int) + added_pieces(a, piece) + removed_pieces(r);
    lemma_patch_layout(c, out + n + id, a, r, piece);
    lemma_patch_layout(c, out + id + n, a, r, piece);
    lemma_adds_in_turn(c, out + id + n + k, a, r, piece, 0);
    lemma_pow256();
    reveal_with_fuel(crate::wire::groups, 2);
    assert(var_int(0) =~= seq![0u8]);
    assert(out + n + id + b =~= out + (n + id + b));
    assert(out + id + n + b =~= out + (id + n + b));
    assert(out + id + n + k + added_pieces(a, piece) =~= out + (id + n + (k + added_pieces(a, piece))));
}

/// Since 26.1 a stack that may be absent is sent behind a flag; before, as any other.
pub proof fn lemma_optional_layout(c: Ctx, version: JavaMinecraftVersion, out: Seq<u8>, s: StackVal)
    ensures
        version is V_26_1 || version is V_26_2 ==> if s.count == 0 || s.item.id == 0 {
            write_optional_template(c, version, out, s) == put(out, seq![0u8])
        } else {
            write_optional_template(c, version, out, s) == write_filled(c, version, out + seq![1u8], s)
        },
        !(version is V_26_1 || version is V_26_2) ==> write_optional_template(c, version, out, s) == write_stack(c, false, version, out, s),
{
}

/// Before 1.20.5 a stack is sent as its item, its count and no more: behind a flag since 1.13.2, with a
/// damage value before 1.13, and always with an empty tag at the end.
pub proof fn lemma_legacy_layout(c: Ctx, version: JavaMinecraftVersion, counted: bool, out: Seq<u8>, s: StackVal)
    requires
        version_rank(version) < version_rank(JavaMinecraftVersion::V_1_20_5),
        0 <= s.count <= 127,
        0 <= item_id_out(c.regs, s.item.id as int, version) < 0x8000,
    ensures
        ({
            let id = item_id_out(c.regs, s.item.id as int, version);
            let w = write_stack(c, counted, version, out, s);
            let none = s.count == 0 || s.item.id == 0;
            if has_marks(version) {
                w == put(
                    out,
                    if none {
                        seq![0u8]
                    } else {
                        seq![1u8] + var_int(id) + seq![s.count as u8] + seq![0u8]
                    },
                )
            } else if none {
                w == put(out, seq![255u8, 255u8])
            } else {
                w == put(
                    out,
                    be_bytes(id as nat, 2) + seq![s.count as u8] + (if is_flat(version) {
                        Seq::<u8>::empty()
                    } else {
                        seq![0u8, 0u8]
                    }) + seq![0u8],
                )
            }
        }),
{
    lemma_pow256();
    reveal_with_fuel(be_bytes, 3);
    assert(be_bytes(0, 1) =~= seq![0u8]);
    assert(be_signed(0, 2) =~= seq![0u8, 0u8]);
    assert(be_signed(-1, 2) =~= seq![255u8, 255u8]);
    assert(be_signed(s.count, 1) =~= seq![s.count as u8]);
}

/// Whether the first entries of a patch add components, with values that are sent as these pieces, the others
/// remove some, and none comes twice.
pub open spec fn is_sent_patch(c: Ctx, p: PatchVal, n: nat, piece: spec_fn(int) -> Seq<u8>) -> bool {
    &&& n <= p.len()
    &&& forall|k: int|
        0 <= k < n ==> ((#[trigger] p[k]).1 matches Some(v) && v.kind == p[k].0 && sent(component_format(v.kind), c, v.val, piece(k)))
    &&& forall|k: int| n <= k < p.len() ==> (#[trigger] p[k]).1 is None
    &&& forall|a: int, b: int| 0 <= a < b < p.len() ==> (#[trigger] p[a]).0 != (#[trigger] p[b]).0
}

proof fn lemma_last_are_all(p: PatchVal, i: nat)
    requires
        i <= p.len(),
        forall|a: int, b: int| 0 <= a < b < p.len() ==> (#[trigger] p[a]).0 != (#[trigger] p[b]).0,
    ensures
        last_entries(p, i as int) =~= p.skip(i as int),
    decreases p.len() - i,
{
    if i < p.len() {
        lemma_last_are_all(p, i + 1);
        assert(is_last(p, i as int));
    }
}

proof fn lemma_added_in_turn(c: Ctx, out: Seq<u8>, p: PatchVal, n: nat, piece: spec_fn(int) -> Seq<u8>, i: nat)
    requires
        i <= n,
        is_sent_patch(c, p, n, piece),
    ensures
        write_added(c, out, p, i as int) == put(out, in_turn(n, |k: int| var_int(component_id(p[k].0) as int) + piece(k), i)),
        count_added(p, i as int) == n - i,
        removed_bytes(p, i as int) == removed_bytes(p, n as int),
    decreases n - i,
{
    let f = |k: int| var_int(component_id(p[k].0) as int) + piece(k);
    if i < n {
        let w = var_int(component_id(p[i as int].0) as int);
        let v = p[i as int].1->0;
        assert(crate::format::write_val(component_format(v.kind), c, out + w, v.val) == put(out + w, piece(i as int)));
        lemma_added_in_turn(c, out + w + piece(i as int), p, n, piece, i + 1);
        assert(out + w + piece(i as int) + in_turn(n, f, i + 1) =~= out + (w + piece(i as int) + in_turn(n, f, i + 1)));
    } else {
        lemma_none_added(c, out, p, n, piece, i);
        assert(out + in_turn(n, f, i) =~= out);
    }
}

proof fn lemma_none_added(c: Ctx, out: Seq<u8>, p: PatchVal, n: nat, piece: spec_fn(int) -> Seq<u8>, j: nat)
    requires
        n <= j <= p.len(),
        is_sent_patch(c, p, n, piece),
    ensures
        write_added(c, out, p, j as int) == (Sink { result: Ok(()), out }),
        count_added(p, j as int) == 0,
        removed_bytes(p, j as int) =~= in_turn(p.len(), |k: int| var_int(component_id(p[k].0) as int), j),
    decreases p.len() - j,
{
    if j < p.len() {
        lemma_none_added(c, out, p, n, piece, j + 1);
    }
}

/// A stack inside a component is sent as its item, its count and its patch: how many components it adds and
/// removes, those that it adds with their values, and those that it removes.
pub proof fn lemma_inner_stack_layout(c: Ctx, out: Seq<u8>, st: StackVal, n: nat, piece: spec_fn(int) -> Seq<u8>)
    requires
        c.depth > 0,
        c.budget > 0,
        st.item.id != 0,
        st.count != 0,
        st.patch.len() <= 256,
        is_sent_patch(inside(c), st.patch, n, piece),
    ensures
        write_template(c, out, st) == put(
            out,
            var_int(st.item.id as int) + var_int(st.count) + var_int(n as int) + var_int(st.patch.len() - n) + in_turn(
                n,
                |k: int| var_int(component_id(st.patch[k].0) as int) + piece(k),
                0,
            ) + in_turn(st.patch.len(), |k: int| var_int(component_id(st.patch[k].0) as int), n),
        ),
{
    let p = st.patch;
    lemma_last_are_all(p, 0);
    assert(p.skip(0) =~= p);
    let head = var_int(st.item.id as int) + var_int(st.count) + var_int(n as int) + var_int(p.len() - n);
    let o = out + var_int(st.item.id as int) + var_int(st.count) + var_int(n as int) + var_int(p.len() - n);
    assert(o =~= out + head);
    lemma_added_in_turn(inside(c), o, p, n, piece, 0);
    lemma_none_added(inside(c), o, p, n, piece, n);
    let a = in_turn(n, |k: int| var_int(component_id(p[k].0) as int) + piece(k), 0);
    let b = in_turn(p.len(), |k: int| var_int(component_id(p[k].0) as int), n);
    assert(o + a + b =~= out + (head + a + b));
}

/// No stack that is empty is sent inside a component.
pub proof fn lemma_no_empty_inner_stack(c: Ctx, out: Seq<u8>, st: StackVal)
    requires
        st.item.id == 0 || st.count == 0,
    ensures
        write_template(c, out, st).result is Err,
{
}

/// A component whose bytes are counted is sent as their number and these; any other as these alone.
pub proof fn lemma_counted_component(c: Ctx, out: Seq<u8>, v: ComponentVal, b: Seq<u8>)
    requires
        sent(component_format(v.kind), c, v.val, b),
        b.len() <= i32::MAX,
    ensures
        write_component(c, true, out, v) == put(out, var_int(b.len() as int) + b),
        write_component(c, false, out, v) == put(out, b),
{
    lemma_small_count(b.len());
    let none = Seq::<u8>::empty();
    assert(write_val(component_format(v.kind), c, none, v.val) == put(none, b));
    assert(none + b =~= b);
    assert(write_val(component_format(v.kind), c, out, v.val) == put(out, b));
    let n = var_int(b.len() as int);
    assert(out + n + b =~= out + (n + b));
}

/// A component whose bytes are counted is refused where the count is negative or too large, and
/// else read from that many bytes, whatever is left of them.
pub proof fn lemma_counted_component_is_read(k: DataComponent, c: Ctx, n: int, b: Seq<u8>, r: Seq<u8>)
    requires
        i32::MIN <= n <= i32::MAX,
    ensures
        n < 0 || n > 8388608 ==> read_counted(k, c, var_int(n) + r).value is Err,
        n == b.len() && n <= 8388608 ==> read_counted(k, c, var_int(n) + (b + r)).rest == r && read_counted(k, c, var_int(n) + (b + r)).value
            == decoded(k, c, b),
{
    lemma_read_var_int(n, r);
    lemma_read_var_int(n, b + r);
    lemma_read_bytes(b, r);
}

} // verus!
