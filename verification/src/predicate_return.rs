//! Block predicates come back from the wire.
use vstd::prelude::*;
use crate::bytes::lemma_regroup;
use crate::components::component_format;
use crate::data_component::{component_id, component_name, component_of_name, lemma_component_of_own_id, DataComponent};
use crate::format::{put, read_count, read_val, write_val, CountRule, Ctx, Format, Val};
use crate::identifier::bare_name;
use crate::leaf_return::{lemma_nbt, lemma_small_count, tag_returns};
use crate::nbt_codec::tag_bytes;
use crate::nbt_tag::{bool_of, compound_get, compound_put, lemma_key_index, Tag};
use crate::persist::{data_from_tag, data_to_tag, untold_in};
use crate::predicate::{entries_under, exact_rule, list_under, only_keys, partial_rule, predicate_keys, predicate_rule, property_rule, put_if, put_some, read_block_names, read_blocks, read_bound, read_component_names, read_components, read_data_tag, read_exact, read_exact_value, read_predicate, read_predicate_list, read_predicates, read_present, read_properties, read_property, read_state, read_tooltip, text_under, tooltip_rule, tooltip_tag, write_block_names, write_blocks, write_bound, write_component_names, write_components, write_data_tag, write_exact, write_exact_value, write_predicate, write_predicate_list, write_predicates, write_present, write_properties, write_property, write_state, write_tooltip, MAX_ADVENTURE};
use crate::registry::{find_block, find_block_from, Block, Registries};
use crate::wire::{done, flag, lemma_read_bool, lemma_read_text, lemma_read_var_int, text, text_fits, var_int, MAX_TEXT_BYTES};
use crate::wire_return::{keeps, lemma_val, val_bytes};

verus! {

/// The entries of a compound.
pub type Entries = Seq<(Seq<char>, Tag)>;

/// Whether a text is short enough to be sent.
pub open spec fn sendable(t: Seq<char>) -> bool {
    text_fits(t, MAX_TEXT_BYTES as nat)
}

/// Whether a tag is the name of a block as the registry has it.
pub open spec fn block_keeps(regs: Registries, t: Tag) -> bool {
    t matches Tag::String(name) && (find_block(regs, name) matches Some(id) && id <= 0xffff && regs.blocks@[id].name@ == name)
}

/// Whether a set of blocks comes back: a tag, or the names of some blocks.
pub open spec fn blocks_keep(regs: Registries, t: Tag) -> bool {
    match t {
        Tag::String(name) => "#"@.is_prefix_of(name) && sendable(name.skip("#"@.len() as int)),
        Tag::List(l) => l.len() <= MAX_ADVENTURE && forall|i: int| 0 <= i < l.len() ==> block_keeps(regs, #[trigger] l[i]),
        _ => false,
    }
}

/// Whether a bound of a property comes back.
pub open spec fn bound_keeps(t: Option<Tag>) -> bool {
    t matches Some(t) ==> t matches Tag::String(t) && sendable(t)
}

/// Whether what a property has to be comes back: a value, or a lower and then an upper bound.
pub open spec fn property_keeps(t: Tag) -> bool {
    match t {
        Tag::String(v) => sendable(v),
        Tag::Compound(c) => {
            let min = compound_get(c, "min"@);
            let max = compound_get(c, "max"@);
            only_keys(c, "min"@, "max"@) && bound_keeps(min) && bound_keeps(max) && c == put_some(put_some(Seq::empty(), "min", min), "max", max)
        },
        _ => false,
    }
}

/// Whether no two entries have the same key.
pub open spec fn keys_differ(c: Entries) -> bool {
    forall|i: int, j: int| 0 <= i < j < c.len() ==> (#[trigger] c[i]).0 != (#[trigger] c[j]).0
}

/// Whether what the state of a block has to be comes back.
pub open spec fn state_keeps(t: Tag) -> bool {
    t matches Tag::Compound(c) && c.len() <= MAX_ADVENTURE && keys_differ(c) && forall|i: int|
        0 <= i < c.len() ==> sendable((#[trigger] c[i]).0) && property_keeps(c[i].1)
}

/// Whether a tag is the name of a component type.
pub open spec fn type_keeps(t: Tag) -> bool {
    t matches Tag::String(name) && (component_of_name(name) matches Some(k) && component_name(k) == name)
}

/// Whether the display of a tooltip comes back.
pub open spec fn tooltip_keeps(t: Tag) -> bool {
    t matches Tag::Compound(c) && only_keys(c, "hide_tooltip"@, "hidden_components"@) && (compound_get(c, "hidden_components"@) matches Some(
        Tag::List(hidden),
    ) && hidden.len() <= MAX_ADVENTURE && (forall|i: int| 0 <= i < hidden.len() ==> type_keeps(#[trigger] hidden[i])) && (bool_of(
        compound_get(c, "hide_tooltip"@),
    ) matches Some(hides) && t == tooltip_tag(hides, hidden)))
}

proof fn lemma_found(blocks: Seq<Block>, name: Seq<char>, i: int)
    requires
        0 <= i,
    ensures
        find_block_from(blocks, name, i) matches Some(id) ==> i <= id < blocks.len(),
    decreases blocks.len() - i,
{
    if i < blocks.len() {
        lemma_found(blocks, name, i + 1);
    }
}

proof fn lemma_small(rule: CountRule, n: nat, r: Seq<u8>)
    requires
        rule is Limited,
        n <= rule->Limited_max,
        n <= i32::MAX,
    ensures
        read_count(rule, var_int(n as int) + r) == done(n, r),
{
    lemma_read_var_int(n as int, r);
}

proof fn lemma_new_key(c: Entries, key: Seq<char>, t: Tag)
    requires
        forall|i: int| 0 <= i < c.len() ==> (#[trigger] c[i]).0 != key,
    ensures
        compound_get(c, key) is None,
        compound_put(c, key, t) == c.push((key, t)),
{
    lemma_key_index(c, key);
}

/// The bytes of the names of blocks from the `i`th on.
pub open spec fn block_bytes(regs: Registries, l: Seq<Tag>, i: int) -> Seq<u8> {
    write_block_names(regs, Seq::empty(), l, i).out
}

proof fn lemma_block_names(regs: Registries, out: Seq<u8>, l: Seq<Tag>, i: int, r: Seq<u8>)
    requires
        0 <= i <= l.len(),
        forall|i: int| 0 <= i < l.len() ==> block_keeps(regs, #[trigger] l[i]),
    ensures
        write_block_names(regs, out, l, i) == put(out, block_bytes(regs, l, i)),
        read_block_names(regs, (l.len() - i) as nat, block_bytes(regs, l, i) + r, l.take(i)) == done(Tag::List(l), r),
    decreases l.len() - i,
{
    let e = Seq::<u8>::empty();
    lemma_regroup(out, out, out);
    lemma_regroup(r, r, r);
    if i < l.len() {
        assert(block_keeps(regs, l[i]));
        let name = l[i]->String_0;
        let id = find_block(regs, name)->0;
        lemma_found(regs.blocks@, bare_name(name), 0);
        lemma_small_count(id as nat);
        let b = var_int(id);
        let tail = block_bytes(regs, l, i + 1);
        lemma_block_names(regs, out + b, l, i + 1, r);
        lemma_block_names(regs, e + b, l, i + 1, r);
        lemma_regroup(b, tail, r);
        lemma_regroup(out, b, tail);
        assert(block_bytes(regs, l, i) == b + tail);
        lemma_read_var_int(id, tail + r);
        assert(l.take(i).push(l[i]) =~= l.take(i + 1));
    } else {
        assert(l.take(i) =~= l);
    }
}

proof fn lemma_blocks(regs: Registries, out: Seq<u8>, t: Tag, r: Seq<u8>)
    requires
        blocks_keep(regs, t),
    ensures
        ({
            let b = write_blocks(regs, Seq::empty(), t).out;
            write_blocks(regs, out, t) == put(out, b) && read_blocks(regs, b + r) == done(t, r)
        }),
{
    let e = Seq::<u8>::empty();
    let b = write_blocks(regs, e, t).out;
    lemma_regroup(out, out, out);
    match t {
        Tag::String(name) => {
            let rest = name.skip("#"@.len() as int);
            lemma_regroup(e + var_int(0), text(rest), r);
            lemma_regroup(var_int(0), text(rest), r);
            lemma_regroup(out, var_int(0), text(rest));
            lemma_read_var_int(0, text(rest) + r);
            lemma_read_text(rest, MAX_TEXT_BYTES as nat, r);
            assert("#"@ + rest =~= name);
        },
        Tag::List(l) => {
            let n = var_int(l.len() as int + 1);
            let b1 = block_bytes(regs, l, 0);
            lemma_block_names(regs, out + n, l, 0, r);
            lemma_block_names(regs, e + n, l, 0, r);
            lemma_regroup(n, b1, r);
            lemma_regroup(out, n, b1);
            lemma_regroup(e, n, b1);
            assert(b == n + b1);
            lemma_read_var_int(l.len() as int + 1, b1 + r);
            assert(l.take(0) =~= Seq::empty());
        },
        _ => {},
    }
}

/// The text that a bound is.
pub open spec fn bound_text(t: Option<Tag>) -> Option<Seq<char>> {
    match t {
        Some(Tag::String(t)) => Some(t),
        _ => None,
    }
}

/// The bytes of a bound.
pub open spec fn bound_bytes(t: Option<Tag>) -> Seq<u8> {
    match t {
        Some(Tag::String(t)) => flag(true) + text(t),
        _ => flag(false),
    }
}

proof fn lemma_bound(out: Seq<u8>, t: Option<Tag>, key: &'static str, c: Entries, r: Seq<u8>)
    requires
        bound_keeps(t),
    ensures
        write_bound(out, bound_text(t)) == put(out, bound_bytes(t)),
        read_bound(key, c, bound_bytes(t) + r) == done(put_some(c, key, t), r),
{
    match t {
        Some(Tag::String(v)) => {
            lemma_regroup(out, flag(true), text(v));
            lemma_regroup(flag(true), text(v), r);
            lemma_read_bool(true, text(v) + r);
            lemma_read_text(v, MAX_TEXT_BYTES as nat, r);
        },
        _ => {
            lemma_read_bool(false, r);
        },
    }
}

/// The bytes of what a property has to be.
pub open spec fn property_bytes(t: Tag) -> Seq<u8> {
    match t {
        Tag::String(v) => flag(true) + text(v),
        Tag::Compound(c) => flag(false) + (bound_bytes(compound_get(c, "min"@)) + bound_bytes(compound_get(c, "max"@))),
        _ => Seq::empty(),
    }
}

proof fn lemma_property(out: Seq<u8>, name: Seq<char>, t: Tag, r: Seq<u8>)
    requires
        property_keeps(t),
    ensures
        write_property(out, name, t) == put(out, property_bytes(t)),
        read_property(property_bytes(t) + r) == done(t, r),
{
    match t {
        Tag::String(v) => {
            lemma_regroup(out, flag(true), text(v));
            lemma_regroup(flag(true), text(v), r);
            lemma_read_bool(true, text(v) + r);
            lemma_read_text(v, MAX_TEXT_BYTES as nat, r);
        },
        Tag::Compound(c) => {
            let min = compound_get(c, "min"@);
            let max = compound_get(c, "max"@);
            let b1 = bound_bytes(min);
            let b2 = bound_bytes(max);
            let none: Entries = Seq::empty();
            lemma_bound(out + flag(false), min, "min", none, b2 + r);
            lemma_bound(out + flag(false) + b1, max, "max", put_some(none, "min", min), r);
            lemma_regroup(out, flag(false), b1);
            lemma_regroup(out, flag(false) + b1, b2);
            lemma_regroup(flag(false), b1, b2);
            lemma_regroup(flag(false), b1 + b2, r);
            lemma_regroup(b1, b2, r);
            lemma_read_bool(false, b1 + (b2 + r));
            assert(text_under(c, "min") == bound_text(min));
            assert(text_under(c, "max") == bound_text(max));
        },
        _ => {},
    }
}

/// The bytes of properties from the `i`th on.
pub open spec fn properties_bytes(c: Entries, i: int) -> Seq<u8>
    decreases c.len() - i,
{
    if i < 0 || i >= c.len() {
        Seq::empty()
    } else {
        text(c[i].0) + (property_bytes(c[i].1) + properties_bytes(c, i + 1))
    }
}

proof fn lemma_properties_written(out: Seq<u8>, c: Entries, i: int)
    requires
        0 <= i <= c.len(),
        forall|i: int| 0 <= i < c.len() ==> sendable((#[trigger] c[i]).0) && property_keeps(c[i].1),
    ensures
        write_properties(out, c, i) == put(out, properties_bytes(c, i)),
    decreases c.len() - i,
{
    lemma_regroup(out, out, out);
    if i < c.len() {
        let b1 = text(c[i].0);
        let b2 = property_bytes(c[i].1);
        let tail = properties_bytes(c, i + 1);
        assert(sendable(c[i].0) && property_keeps(c[i].1));
        lemma_property(out + b1, c[i].0, c[i].1, out);
        lemma_properties_written(out + b1 + b2, c, i + 1);
        lemma_regroup(out + b1, b2, tail);
        lemma_regroup(out, b1, b2 + tail);
    }
}

proof fn lemma_property_read(c: Entries, i: int, r: Seq<u8>)
    requires
        0 <= i < c.len(),
        keys_differ(c),
        sendable(c[i].0),
        property_keeps(c[i].1),
    ensures
        read_properties((c.len() - i) as nat, text(c[i].0) + (property_bytes(c[i].1) + r), c.take(i)) == read_properties(
            (c.len() - i - 1) as nat,
            r,
            c.take(i + 1),
        ),
{
    let name = c[i].0;
    let b = property_bytes(c[i].1);
    lemma_property(r, c[i].0, c[i].1, r);
    lemma_read_text(name, MAX_TEXT_BYTES as nat, b + r);
    lemma_new_key(c.take(i), name, c[i].1);
    assert(c.take(i).push((name, c[i].1)) =~= c.take(i + 1));
}

proof fn lemma_properties_read(c: Entries, i: int, r: Seq<u8>)
    requires
        0 <= i <= c.len(),
        keys_differ(c),
        forall|i: int| 0 <= i < c.len() ==> sendable((#[trigger] c[i]).0) && property_keeps(c[i].1),
    ensures
        read_properties((c.len() - i) as nat, properties_bytes(c, i) + r, c.take(i)) == done(Tag::Compound(c), r),
    decreases c.len() - i,
{
    lemma_regroup(r, r, r);
    if i < c.len() {
        let b1 = text(c[i].0);
        let b2 = property_bytes(c[i].1);
        let tail = properties_bytes(c, i + 1);
        assert(sendable(c[i].0) && property_keeps(c[i].1));
        lemma_properties_read(c, i + 1, r);
        lemma_regroup(b1, b2 + tail, r);
        lemma_regroup(b2, tail, r);
        lemma_property_read(c, i, tail + r);
    } else {
        assert(c.take(i) =~= c);
    }
}

proof fn lemma_state(out: Seq<u8>, t: Tag, r: Seq<u8>)
    requires
        state_keeps(t),
    ensures
        ({
            let b = write_state(Seq::empty(), t).out;
            write_state(out, t) == put(out, b) && read_state(b + r) == done(t, r)
        }),
{
    let e = Seq::<u8>::empty();
    let c = t->Compound_0;
    let n = var_int(c.len() as int);
    let b1 = properties_bytes(c, 0);
    lemma_properties_written(out + n, c, 0);
    lemma_properties_written(e + n, c, 0);
    lemma_properties_read(c, 0, r);
    lemma_regroup(out, n, b1);
    lemma_regroup(e, n, b1);
    lemma_regroup(n + b1, n, n);
    lemma_regroup(n, b1, r);
    lemma_small(property_rule(), c.len(), b1 + r);
    assert(c.take(0) =~= Seq::empty());
}

/// The bytes of the names of component types from the `i`th on.
pub open spec fn types_bytes(l: Seq<Tag>, i: int) -> Seq<u8>
    decreases l.len() - i,
{
    if i < 0 || i >= l.len() {
        Seq::empty()
    } else {
        var_int(component_id(component_of_name(l[i]->String_0)->0) as int) + types_bytes(l, i + 1)
    }
}

proof fn lemma_types(out: Seq<u8>, l: Seq<Tag>, i: int, wrong: &'static str, r: Seq<u8>)
    requires
        0 <= i <= l.len(),
        forall|i: int| 0 <= i < l.len() ==> type_keeps(#[trigger] l[i]),
    ensures
        write_component_names(out, l, i, wrong) == put(out, types_bytes(l, i)),
        read_component_names((l.len() - i) as nat, types_bytes(l, i) + r, l.take(i)) == done(l, r),
    decreases l.len() - i,
{
    lemma_regroup(out, out, out);
    lemma_regroup(r, r, r);
    if i < l.len() {
        assert(type_keeps(l[i]));
        let k = component_of_name(l[i]->String_0)->0;
        let b = var_int(component_id(k) as int);
        let tail = types_bytes(l, i + 1);
        lemma_component_of_own_id(k);
        lemma_types(out + b, l, i + 1, wrong, r);
        lemma_regroup(out, b, tail);
        lemma_regroup(b, tail, r);
        lemma_read_var_int(component_id(k) as int, tail + r);
        assert(l.take(i).push(l[i]) =~= l.take(i + 1));
    } else {
        assert(l.take(i) =~= l);
    }
}

proof fn lemma_tooltip(out: Seq<u8>, t: Tag, r: Seq<u8>)
    requires
        tooltip_keeps(t),
    ensures
        ({
            let b = write_tooltip(Seq::empty(), t->Compound_0).out;
            write_tooltip(out, t->Compound_0) == put(out, b) && read_tooltip(b + r) == done(t, r)
        }),
{
    let e = Seq::<u8>::empty();
    let c = t->Compound_0;
    let hidden = compound_get(c, "hidden_components"@)->0->List_0;
    let hides = bool_of(compound_get(c, "hide_tooltip"@))->0;
    let wrong = "TooltipDisplay hidden component ID must be a string";
    let n = var_int(hidden.len() as int);
    let b1 = types_bytes(hidden, 0);
    lemma_types(out + flag(hides) + n, hidden, 0, wrong, r);
    lemma_types(e + flag(hides) + n, hidden, 0, wrong, r);
    lemma_regroup(flag(hides), n, n);
    lemma_regroup(out, flag(hides), n);
    lemma_regroup(out, flag(hides) + n, b1);
    lemma_regroup(flag(hides) + n + b1, n, n);
    lemma_regroup(flag(hides) + n, b1, r);
    lemma_regroup(flag(hides), n, b1 + r);
    lemma_read_bool(hides, n + (b1 + r));
    lemma_small(tooltip_rule(), hidden.len(), b1 + r);
    assert(hidden.take(0) =~= Seq::empty());
}

proof fn lemma_data_tag(out: Seq<u8>, t: Tag, r: Seq<u8>)
    requires
        t is Compound,
        tag_returns(t),
    ensures
        write_data_tag(out, t) == put(out, tag_bytes(t)),
        read_data_tag(tag_bytes(t) + r) == done(t, r),
{
    lemma_nbt(out, t, r);
}

/// Whether the value of a component, as it is stored, is written and comes back.
pub open spec fn exact_keeps(k: DataComponent, c: Ctx, t: Tag) -> bool
    decreases c.budget, 4int, Format::Unit, 0int,
{
    if k == DataComponent::TooltipDisplay {
        tooltip_keeps(t)
    } else {
        data_from_tag(k, c.regs, t) matches Some(x) && keeps(component_format(k), c, x) && data_to_tag(k, c.regs, x) == Some(t)
            && untold_in(k, c.regs, x).len() == 0
    }
}

/// The component type that an entry is for.
pub open spec fn type_of(m: Entries, i: int) -> DataComponent {
    component_of_name(m[i].0)->0
}

/// Whether components are written and come back.
pub open spec fn exacts_keep(c: Ctx, m: Entries) -> bool
    decreases c.budget, 5int, Format::Unit, 0int,
{
    m.len() <= MAX_ADVENTURE && keys_differ(m) && forall|i: int|
        0 <= i < m.len() ==> component_of_name((#[trigger] m[i]).0) is Some && component_name(type_of(m, i)) == m[i].0 && exact_keeps(
            type_of(m, i),
            c,
            m[i].1,
        )
}

/// Whether what the components have to be is written and comes back.
pub open spec fn components_keep(c: Ctx, t: Tag) -> bool
    decreases c.budget, 6int, Format::Unit, 0int,
{
    t matches Tag::Compound(m) && m.len() > 0 && only_keys(m, "components"@, "predicates"@) && (entries_under(m, "components") matches Some(
        exact,
    ) && exacts_keep(c, exact) && (list_under(m, "predicates") matches Some(partial) && partial.len() <= MAX_ADVENTURE && (forall|i: int|
        0 <= i < partial.len() ==> type_keeps(#[trigger] partial[i])) && m == put_if(
        put_if(Seq::empty(), exact.len() > 0, "components", Tag::Compound(exact)),
        partial.len() > 0,
        "predicates",
        Tag::List(partial),
    )))
}

/// Whether a predicate is written and comes back.
pub open spec fn predicate_keeps(c: Ctx, m: Entries) -> bool
    decreases c.budget, 7int, Format::Unit, 0int,
{
    let blocks = compound_get(m, "blocks"@);
    let state = compound_get(m, "state"@);
    let data = compound_get(m, "nbt"@);
    let components = compound_get(m, "components"@);
    predicate_keys(m) && (blocks matches Some(t) ==> blocks_keep(c.regs, t)) && (state matches Some(t) ==> state_keeps(t)) && (
    data matches Some(t) ==> t is Compound && tag_returns(t)) && (components matches Some(t) ==> components_keep(c, t)) && m == put_some(
        put_some(put_some(put_some(Seq::empty(), "blocks", blocks), "state", state), "nbt", data),
        "components",
        components,
    )
}

/// Whether predicates are written and come back.
pub open spec fn predicates_keep(c: Ctx, t: Tag) -> bool
    decreases c.budget, 8int, Format::Unit, 0int,
{
    t matches Tag::List(l) && l.len() <= MAX_ADVENTURE && forall|i: int|
        0 <= i < l.len() ==> (#[trigger] l[i]) is Compound && predicate_keeps(c, l[i]->Compound_0)
}

/// The bytes of the value of a component.
pub open spec fn exact_value_bytes(k: DataComponent, c: Ctx, t: Tag) -> Seq<u8> {
    write_exact_value(k, component_name(k), c, Seq::empty(), t).out
}

proof fn lemma_exact_value(k: DataComponent, name: Seq<char>, c: Ctx, out: Seq<u8>, t: Tag, r: Seq<u8>)
    requires
        exact_keeps(k, c, t),
    ensures
        write_exact_value(k, name, c, out, t) == put(out, exact_value_bytes(k, c, t)),
        read_exact_value(k, c, exact_value_bytes(k, c, t) + r) == done(t, r),
    decreases c.budget, 4int, Format::Unit, 0int,
{
    reveal(read_val);
    reveal(write_val);
    if k == DataComponent::TooltipDisplay {
        lemma_tooltip(out, t, r);
    } else {
        let x = data_from_tag(k, c.regs, t)->0;
        lemma_val(component_format(k), c, out, x, r);
        lemma_val(component_format(k), c, Seq::empty(), x, r);
        lemma_regroup(val_bytes(component_format(k), c, x), r, r);
    }
}

/// The bytes of the components from the `i`th on.
pub open spec fn exacts_bytes(c: Ctx, m: Entries, i: int) -> Seq<u8>
    decreases m.len() - i,
{
    if i < 0 || i >= m.len() {
        Seq::empty()
    } else {
        let k = type_of(m, i);
        var_int(component_id(k) as int) + (exact_value_bytes(k, c, m[i].1) + exacts_bytes(c, m, i + 1))
    }
}

proof fn lemma_exacts_written(c: Ctx, out: Seq<u8>, m: Entries, i: int)
    requires
        0 <= i <= m.len(),
        exacts_keep(c, m),
    ensures
        write_exact(c, out, m, i) == put(out, exacts_bytes(c, m, i)),
    decreases c.budget, 5int, Format::Unit, m.len() - i,
{
    reveal(read_val);
    reveal(write_val);
    lemma_regroup(out, out, out);
    if i < m.len() {
        let k = type_of(m, i);
        let b1 = var_int(component_id(k) as int);
        let b2 = exact_value_bytes(k, c, m[i].1);
        let tail = exacts_bytes(c, m, i + 1);
        assert(component_of_name(m[i].0) == Some(k) && exact_keeps(k, c, m[i].1));
        lemma_exact_value(k, m[i].0, c, out + b1, m[i].1, out);
        lemma_exacts_written(c, out + b1 + b2, m, i + 1);
        lemma_regroup(out + b1, b2, tail);
        lemma_regroup(out, b1, b2 + tail);
    }
}

proof fn lemma_exact_read(c: Ctx, m: Entries, i: int, r: Seq<u8>)
    requires
        0 <= i < m.len(),
        exacts_keep(c, m),
    ensures
        ({
            let k = type_of(m, i);
            read_exact((m.len() - i) as nat, c, var_int(component_id(k) as int) + (exact_value_bytes(k, c, m[i].1) + r), m.take(i))
                == read_exact((m.len() - i - 1) as nat, c, r, m.take(i + 1))
        }),
    decreases c.budget, 5int, Format::Unit, 0int,
{
    reveal(read_val);
    reveal(write_val);
    let k = type_of(m, i);
    let b = exact_value_bytes(k, c, m[i].1);
    assert(component_of_name(m[i].0) == Some(k) && component_name(k) == m[i].0 && exact_keeps(k, c, m[i].1));
    lemma_exact_value(k, m[i].0, c, r, m[i].1, r);
    lemma_component_of_own_id(k);
    lemma_read_var_int(component_id(k) as int, b + r);
    lemma_new_key(m.take(i), m[i].0, m[i].1);
    assert(m.take(i).push((m[i].0, m[i].1)) =~= m.take(i + 1));
}

proof fn lemma_exacts_read(c: Ctx, m: Entries, i: int, r: Seq<u8>)
    requires
        0 <= i <= m.len(),
        exacts_keep(c, m),
    ensures
        read_exact((m.len() - i) as nat, c, exacts_bytes(c, m, i) + r, m.take(i)) == done(m, r),
    decreases c.budget, 5int, Format::Unit, m.len() - i,
{
    reveal(read_val);
    lemma_regroup(r, r, r);
    if i < m.len() {
        let k = type_of(m, i);
        let b1 = var_int(component_id(k) as int);
        let b2 = exact_value_bytes(k, c, m[i].1);
        let tail = exacts_bytes(c, m, i + 1);
        lemma_exacts_read(c, m, i + 1, r);
        lemma_regroup(b1, b2 + tail, r);
        lemma_regroup(b2, tail, r);
        lemma_exact_read(c, m, i, tail + r);
    } else {
        assert(m.take(i) =~= m);
    }
}

/// The bytes of what the components have to be.
pub open spec fn components_bytes(c: Ctx, exact: Entries, partial: Seq<Tag>) -> Seq<u8> {
    var_int(exact.len() as int) + (exacts_bytes(c, exact, 0) + (var_int(partial.len() as int) + types_bytes(partial, 0)))
}

proof fn lemma_components(c: Ctx, out: Seq<u8>, m: Entries, exact: Entries, partial: Seq<Tag>, r: Seq<u8>)
    requires
        exacts_keep(c, exact),
        partial.len() <= MAX_ADVENTURE,
        forall|i: int| 0 <= i < partial.len() ==> type_keeps(#[trigger] partial[i]),
    ensures
        only_keys(m, "components"@, "predicates"@) && entries_under(m, "components") == Some(exact) && list_under(m, "predicates") == Some(partial)
            ==> write_components(c, out, Tag::Compound(m)) == put(out, components_bytes(c, exact, partial)),
        read_components(c, components_bytes(c, exact, partial) + r) == done(
            put_if(
                put_if(Seq::empty(), exact.len() > 0, "components", Tag::Compound(exact)),
                partial.len() > 0,
                "predicates",
                Tag::List(partial),
            ),
            r,
        ),
    decreases c.budget, 6int, Format::Unit, 0int,
{
    reveal(read_val);
    reveal(write_val);
    let wrong = "Adventure partial component ID must be a string";
    let n = var_int(exact.len() as int);
    let b1 = exacts_bytes(c, exact, 0);
    let p = var_int(partial.len() as int);
    let b2 = types_bytes(partial, 0);
    lemma_exacts_written(c, out + n, exact, 0);
    lemma_types(out + n + b1 + p, partial, 0, wrong, r);
    lemma_regroup(out + n + b1, p, b2);
    lemma_regroup(out + n, b1, p + b2);
    lemma_regroup(out, n, b1 + (p + b2));
    lemma_regroup(n, b1 + (p + b2), r);
    lemma_regroup(b1, p + b2, r);
    lemma_regroup(p, b2, r);
    let r2 = p + (b2 + r);
    lemma_exacts_read(c, exact, 0, r2);
    lemma_small(exact_rule(), exact.len(), b1 + r2);
    lemma_small(partial_rule(), partial.len(), b2 + r);
    assert(exact.take(0) =~= Seq::empty());
    assert(partial.take(0) =~= Seq::empty());
}

/// The bytes of what may be absent.
pub open spec fn present_bytes(t: Option<Tag>, b: Seq<u8>) -> Seq<u8> {
    match t {
        Some(_) => flag(true) + b,
        None => flag(false),
    }
}

/// The bytes of the blocks, the state and the data of a predicate.
pub open spec fn first_parts(c: Ctx, m: Entries) -> (Seq<u8>, Seq<u8>, Seq<u8>) {
    let e = Seq::<u8>::empty();
    let blocks = compound_get(m, "blocks"@);
    let state = compound_get(m, "state"@);
    let data = compound_get(m, "nbt"@);
    (
        present_bytes(blocks, write_blocks(c.regs, e, blocks->0).out),
        present_bytes(state, write_state(e, state->0).out),
        present_bytes(data, tag_bytes(data->0)),
    )
}

/// The bytes of what the components have to be, if anything.
pub open spec fn last_part(c: Ctx, t: Option<Tag>) -> Seq<u8> {
    match t {
        Some(Tag::Compound(m)) => components_bytes(c, entries_under(m, "components")->0, list_under(m, "predicates")->0),
        _ => components_bytes(c, Seq::empty(), Seq::empty()),
    }
}

/// The bytes of a predicate.
pub open spec fn predicate_bytes(c: Ctx, m: Entries) -> Seq<u8> {
    let (b1, b2, b3) = first_parts(c, m);
    b1 + (b2 + (b3 + last_part(c, compound_get(m, "components"@))))
}

proof fn lemma_present_blocks(c: Ctx, out: Seq<u8>, t: Option<Tag>, r: Seq<u8>)
    requires
        t matches Some(t) ==> blocks_keep(c.regs, t),
    ensures
        ({
            let b = present_bytes(t, write_blocks(c.regs, Seq::empty(), t->0).out);
            write_present(out, t, |out: Seq<u8>, t: Tag| write_blocks(c.regs, out, t)) == put(out, b) && read_present(
                b + r,
                |s: Seq<u8>| read_blocks(c.regs, s),
            ) == done(t, r)
        }),
{
    match t {
        Some(t) => {
            let b = write_blocks(c.regs, Seq::empty(), t).out;
            lemma_blocks(c.regs, out + flag(true), t, r);
            lemma_regroup(out, flag(true), b);
            lemma_regroup(flag(true), b, r);
            lemma_read_bool(true, b + r);
        },
        None => {
            lemma_read_bool(false, r);
        },
    }
}

proof fn lemma_present_state(out: Seq<u8>, t: Option<Tag>, r: Seq<u8>)
    requires
        t matches Some(t) ==> state_keeps(t),
    ensures
        ({
            let b = present_bytes(t, write_state(Seq::empty(), t->0).out);
            write_present(out, t, |out: Seq<u8>, t: Tag| write_state(out, t)) == put(out, b) && read_present(
                b + r,
                |s: Seq<u8>| read_state(s),
            ) == done(t, r)
        }),
{
    match t {
        Some(t) => {
            let b = write_state(Seq::empty(), t).out;
            lemma_state(out + flag(true), t, r);
            lemma_regroup(out, flag(true), b);
            lemma_regroup(flag(true), b, r);
            lemma_read_bool(true, b + r);
        },
        None => {
            lemma_read_bool(false, r);
        },
    }
}

proof fn lemma_present_data(out: Seq<u8>, t: Option<Tag>, r: Seq<u8>)
    requires
        t matches Some(t) ==> t is Compound && tag_returns(t),
    ensures
        ({
            let b = present_bytes(t, tag_bytes(t->0));
            write_present(out, t, |out: Seq<u8>, t: Tag| write_data_tag(out, t)) == put(out, b) && read_present(
                b + r,
                |s: Seq<u8>| read_data_tag(s),
            ) == done(t, r)
        }),
{
    match t {
        Some(t) => {
            let b = tag_bytes(t);
            lemma_data_tag(out + flag(true), t, r);
            lemma_regroup(out, flag(true), b);
            lemma_regroup(flag(true), b, r);
            lemma_read_bool(true, b + r);
        },
        None => {
            lemma_read_bool(false, r);
        },
    }
}

proof fn lemma_no_components(c: Ctx)
    ensures
        exacts_keep(c, Seq::empty()),
        components_bytes(c, Seq::empty(), Seq::empty()) == var_int(0) + var_int(0),
{
    let e = Seq::<u8>::empty();
    lemma_regroup(var_int(0), e, e);
    assert(exacts_bytes(c, Seq::empty(), 0) == e);
    assert(types_bytes(Seq::empty(), 0) == e);
    lemma_regroup(e + var_int(0), e, e);
}

proof fn lemma_last_part(c: Ctx, out: Seq<u8>, t: Option<Tag>, r: Seq<u8>)
    requires
        t matches Some(t) ==> components_keep(c, t),
    ensures
        match t {
            Some(t) => write_components(c, out, t),
            None => put(out + var_int(0), var_int(0)),
        } == put(out, last_part(c, t)),
        read_components(c, last_part(c, t) + r) == done(
            match t {
                Some(t) => t->Compound_0,
                None => Seq::empty(),
            },
            r,
        ),
    decreases c.budget, 6int, Format::Unit, 1int,
{
    match t {
        Some(t) => {
            let m = t->Compound_0;
            lemma_components(c, out, m, entries_under(m, "components")->0, list_under(m, "predicates")->0, r);
        },
        None => {
            lemma_no_components(c);
            lemma_components(c, out, Seq::empty(), Seq::empty(), Seq::empty(), r);
            lemma_regroup(out, var_int(0), var_int(0));
        },
    }
}

proof fn lemma_predicate_written(c: Ctx, out: Seq<u8>, m: Entries)
    requires
        predicate_keeps(c, m),
    ensures
        write_predicate(c, out, m) == put(out, predicate_bytes(c, m)),
    decreases c.budget, 7int, Format::Unit, 0int,
{
    reveal(read_val);
    reveal(write_val);
    let (b1, b2, b3) = first_parts(c, m);
    let b4 = last_part(c, compound_get(m, "components"@));
    lemma_present_blocks(c, out, compound_get(m, "blocks"@), out);
    lemma_present_state(out + b1, compound_get(m, "state"@), out);
    lemma_present_data(out + b1 + b2, compound_get(m, "nbt"@), out);
    lemma_last_part(c, out + b1 + b2 + b3, compound_get(m, "components"@), out);
    lemma_regroup(out + b1 + b2, b3, b4);
    lemma_regroup(out + b1, b2, b3 + b4);
    lemma_regroup(out, b1, b2 + (b3 + b4));
}

proof fn lemma_predicate_read(c: Ctx, m: Entries, r: Seq<u8>)
    requires
        predicate_keeps(c, m),
    ensures
        read_predicate(c, predicate_bytes(c, m) + r) == done(Tag::Compound(m), r),
    decreases c.budget, 7int, Format::Unit, 0int,
{
    reveal(read_val);
    reveal(write_val);
    let (b1, b2, b3) = first_parts(c, m);
    let b4 = last_part(c, compound_get(m, "components"@));
    lemma_regroup(b1, b2 + (b3 + b4), r);
    lemma_regroup(b2, b3 + b4, r);
    lemma_regroup(b3, b4, r);
    lemma_present_blocks(c, r, compound_get(m, "blocks"@), b2 + (b3 + (b4 + r)));
    lemma_present_state(r, compound_get(m, "state"@), b3 + (b4 + r));
    lemma_present_data(r, compound_get(m, "nbt"@), b4 + r);
    lemma_last_part(c, r, compound_get(m, "components"@), r);
}

/// The bytes of predicates from the `i`th on.
pub open spec fn predicate_list_bytes(c: Ctx, l: Seq<Tag>, i: int) -> Seq<u8>
    decreases l.len() - i,
{
    if i < 0 || i >= l.len() {
        Seq::empty()
    } else {
        predicate_bytes(c, l[i]->Compound_0) + predicate_list_bytes(c, l, i + 1)
    }
}

proof fn lemma_predicate_list(c: Ctx, out: Seq<u8>, l: Seq<Tag>, i: int, r: Seq<u8>)
    requires
        0 <= i <= l.len(),
        predicates_keep(c, Tag::List(l)),
    ensures
        write_predicate_list(c, out, l, i) == put(out, predicate_list_bytes(c, l, i)),
        read_predicate_list((l.len() - i) as nat, c, predicate_list_bytes(c, l, i) + r, l.take(i)) == done(Val::Nbt(Tag::List(l)), r),
    decreases c.budget, 8int, Format::Unit, l.len() - i,
{
    reveal(read_val);
    reveal(write_val);
    lemma_regroup(out, out, out);
    lemma_regroup(r, r, r);
    if i < l.len() {
        let m = l[i]->Compound_0;
        let b = predicate_bytes(c, m);
        let tail = predicate_list_bytes(c, l, i + 1);
        assert(l[i] is Compound && predicate_keeps(c, m));
        lemma_predicate_written(c, out, m);
        lemma_predicate_read(c, m, tail + r);
        lemma_predicate_list(c, out + b, l, i + 1, r);
        lemma_regroup(out, b, tail);
        lemma_regroup(b, tail, r);
        assert(l.take(i).push(l[i]) =~= l.take(i + 1));
    } else {
        assert(l.take(i) =~= l);
    }
}

/// The bytes of a list of predicates.
pub open spec fn predicates_bytes(c: Ctx, t: Tag) -> Seq<u8> {
    var_int(t->List_0.len() as int) + predicate_list_bytes(c, t->List_0, 0)
}

pub(crate) proof fn lemma_predicates(c: Ctx, out: Seq<u8>, t: Tag, r: Seq<u8>)
    requires
        predicates_keep(c, t),
    ensures
        write_predicates(c, out, t) == put(out, predicates_bytes(c, t)),
        read_predicates(c, predicates_bytes(c, t) + r) == done(Val::Nbt(t), r),
    decreases c.budget, 9int, Format::Unit, 0int,
{
    reveal(read_val);
    reveal(write_val);
    let l = t->List_0;
    let n = var_int(l.len() as int);
    let b = predicate_list_bytes(c, l, 0);
    lemma_predicate_list(c, out + n, l, 0, r);
    lemma_regroup(out, n, b);
    lemma_regroup(n, b, r);
    lemma_small(predicate_rule(), l.len(), b + r);
    assert(l.take(0) =~= Seq::empty());
}

/// Predicates come back from the wire.
pub proof fn lemma_predicates_return(c: Ctx, out: Seq<u8>, t: Tag, r: Seq<u8>)
    ensures
        predicates_keep(c, t) ==> write_predicates(c, out, t) == put(out, predicates_bytes(c, t)) && read_predicates(
            c,
            predicates_bytes(c, t) + r,
        ) == done(Val::Nbt(t), r),
{
    if predicates_keep(c, t) {
        lemma_predicates(c, out, t, r);
    }
}

} // verus!
