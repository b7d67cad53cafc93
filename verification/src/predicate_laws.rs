//! Which bytes the block predicates of adventure mode are made of.
use vstd::prelude::*;
use crate::bytes::{lemma_pow256, lemma_regroup};
use crate::data_component::{component_id, component_of_name};
use crate::format::{put, put_nbt, Ctx, Sink};
use crate::leaf_return::lemma_small_count;
use crate::nbt_tag::{compound_get, Tag};
use crate::predicate::{
    only_keys, predicate_keys, write_block_names, write_blocks, write_component_names, write_components, write_data_tag, write_exact,
    write_exact_value, write_predicate, write_predicate_list, write_predicates, write_present, write_properties, write_property, write_state,
};
use crate::registry::{find_block, Registries};
use crate::sent::in_turn;
use crate::wire::{text, text_fits, var_int, MAX_TEXT_BYTES};

verus! {

/// The bytes of a text that may be absent: a flag, and the text where it is set.
pub open spec fn maybe_text(t: Option<Seq<char>>) -> Seq<u8> {
    match t {
        Some(t) => seq![1u8] + text(t),
        None => seq![0u8],
    }
}

/// The text under a key of a compound.
pub open spec fn text_of(c: Seq<(Seq<char>, Tag)>, key: Seq<char>) -> Option<Seq<char>> {
    match compound_get(c, key) {
        Some(Tag::String(t)) => Some(t),
        _ => None,
    }
}

/// Whether a text that may be absent is not too long.
pub open spec fn maybe_fits(t: Option<Seq<char>>) -> bool {
    t matches Some(t) ==> text_fits(t, MAX_TEXT_BYTES as nat)
}

/// The bytes of what a property has to be: one and a value, or zero and the least and the greatest.
pub open spec fn property_bytes(t: Tag) -> Seq<u8> {
    match t {
        Tag::String(v) => seq![1u8] + text(v),
        Tag::Compound(c) => seq![0u8] + maybe_text(text_of(c, "min"@)) + maybe_text(text_of(c, "max"@)),
        _ => Seq::empty(),
    }
}

/// Whether what a property has to be can be sent.
pub open spec fn property_fits(t: Tag) -> bool {
    match t {
        Tag::String(v) => text_fits(v, MAX_TEXT_BYTES as nat),
        Tag::Compound(c) => only_keys(c, "min"@, "max"@) && maybe_fits(text_of(c, "min"@)) && maybe_fits(text_of(c, "max"@)),
        _ => false,
    }
}

/// What a property has to be is sent as a value, or as two bounds, each of which may be absent.
pub proof fn lemma_property_layout(out: Seq<u8>, name: Seq<char>, t: Tag)
    ensures
        property_fits(t) ==> write_property(out, name, t) == put(out, property_bytes(t)),
        !(t is String) && !(t is Compound) ==> write_property(out, name, t).result is Err,
{
    match t {
        Tag::String(v) => {
            assert(out + seq![1u8] + text(v) =~= out + (seq![1u8] + text(v)));
        },
        Tag::Compound(c) => {
            let a = maybe_text(text_of(c, "min"@));
            let b = maybe_text(text_of(c, "max"@));
            let o = out + seq![0u8];
            match text_of(c, "min"@) {
                Some(x) => {
                    assert(o + seq![1u8] + text(x) =~= o + a);
                },
                None => {},
            }
            match text_of(c, "max"@) {
                Some(x) => {
                    assert(o + a + seq![1u8] + text(x) =~= o + a + b);
                },
                None => {},
            }
            assert(o + a + b =~= out + (seq![0u8] + a + b));
        },
        _ => {},
    }
}

proof fn lemma_properties_in_turn(out: Seq<u8>, c: Seq<(Seq<char>, Tag)>, i: nat)
    requires
        i <= c.len(),
        forall|k: int| 0 <= k < c.len() ==> text_fits((#[trigger] c[k]).0, MAX_TEXT_BYTES as nat) && property_fits(c[k].1),
    ensures
        write_properties(out, c, i as int) == put(out, in_turn(c.len(), |k: int| text(c[k].0) + property_bytes(c[k].1), i)),
    decreases c.len() - i,
{
    let f = |k: int| text(c[k].0) + property_bytes(c[k].1);
    if i < c.len() {
        let e = c[i as int];
        lemma_property_layout(out + text(e.0), e.0, e.1);
        lemma_properties_in_turn(out + text(e.0) + property_bytes(e.1), c, i + 1);
        assert(out + text(e.0) + property_bytes(e.1) + in_turn(c.len(), f, i + 1) =~= out + (text(e.0) + property_bytes(e.1) + in_turn(
            c.len(),
            f,
            i + 1,
        )));
    } else {
        assert(out + in_turn(c.len(), f, i) =~= out);
    }
}

/// What the state of a block has to be is sent as how many properties there are, and the name of each before
/// what it has to be; more than 256 are refused.
pub proof fn lemma_state_layout(out: Seq<u8>, c: Seq<(Seq<char>, Tag)>)
    requires
        forall|k: int| 0 <= k < c.len() ==> text_fits((#[trigger] c[k]).0, MAX_TEXT_BYTES as nat) && property_fits(c[k].1),
    ensures
        c.len() <= 256 ==> write_state(out, Tag::Compound(c)) == put(
            out,
            var_int(c.len() as int) + in_turn(c.len(), |k: int| text(c[k].0) + property_bytes(c[k].1), 0),
        ),
        c.len() > 256 ==> write_state(out, Tag::Compound(c)).result is Err,
{
    let n = var_int(c.len() as int);
    lemma_properties_in_turn(out + n, c, 0);
    let b = in_turn(c.len(), |k: int| text(c[k].0) + property_bytes(c[k].1), 0);
    assert(out + n + b =~= out + (n + b));
}

proof fn lemma_blocks_in_turn(regs: Registries, out: Seq<u8>, l: Seq<Tag>, i: nat)
    requires
        i <= l.len(),
        forall|k: int|
            0 <= k < l.len() ==> (#[trigger] l[k]) is String && (find_block(regs, l[k]->String_0) matches Some(id) && 0 <= id <= i32::MAX),
    ensures
        write_block_names(regs, out, l, i as int) == put(out, in_turn(l.len(), |k: int| var_int(find_block(regs, l[k]->String_0)->0), i)),
    decreases l.len() - i,
{
    let f = |k: int| var_int(find_block(regs, l[k]->String_0)->0);
    if i < l.len() {
        let t = l[i as int];
        assert(t is String);
        let id = find_block(regs, t->String_0)->0;
        lemma_small_count(id as nat);
        lemma_blocks_in_turn(regs, out + var_int(id), l, i + 1);
        assert(out + var_int(id) + in_turn(l.len(), f, i + 1) =~= out + (var_int(id) + in_turn(l.len(), f, i + 1)));
    } else {
        assert(out + in_turn(l.len(), f, i) =~= out);
    }
}

/// Blocks are sent as zero and the name of a tag, or as one more than how many there are and their numbers.
pub proof fn lemma_blocks_layout(regs: Registries, out: Seq<u8>, tag: Seq<char>, name: Seq<char>, l: Seq<Tag>)
    ensures
        text_fits(tag, MAX_TEXT_BYTES as nat) ==> write_blocks(regs, out, Tag::String("#"@ + tag)) == put(out, var_int(0) + text(tag)),
        !"#"@.is_prefix_of(name) ==> (find_block(regs, name) matches Some(id) ==> 0 <= id <= i32::MAX ==> write_blocks(regs, out, Tag::String(name))
            == put(out, var_int(2) + var_int(id))),
        !"#"@.is_prefix_of(name) && find_block(regs, name) is None ==> write_blocks(regs, out, Tag::String(name)).result is Err,
        l.len() <= 256 && (forall|k: int|
            0 <= k < l.len() ==> (#[trigger] l[k]) is String && (find_block(regs, l[k]->String_0) matches Some(id) && 0 <= id <= i32::MAX))
            ==> write_blocks(regs, out, Tag::List(l)) == put(
            out,
            var_int(l.len() as int + 1) + in_turn(l.len(), |k: int| var_int(find_block(regs, l[k]->String_0)->0), 0),
        ),
        l.len() > 256 ==> write_blocks(regs, out, Tag::List(l)).result is Err,
{
    let h = "#"@;
    assert((h + tag).subrange(0, h.len() as int) =~= h);
    assert((h + tag).skip(h.len() as int) =~= tag);
    assert(out + var_int(0) + text(tag) =~= out + (var_int(0) + text(tag)));
    match find_block(regs, name) {
        Some(id) => {
            if 0 <= id <= i32::MAX {
                lemma_small_count(id as nat);
            }
            assert(out + var_int(2) + var_int(id) =~= out + (var_int(2) + var_int(id)));
        },
        None => {},
    }
    if l.len() <= 256 && (forall|k: int|
        0 <= k < l.len() ==> (#[trigger] l[k]) is String && (find_block(regs, l[k]->String_0) matches Some(id) && 0 <= id <= i32::MAX)) {
        let n = var_int(l.len() as int + 1);
        lemma_blocks_in_turn(regs, out + n, l, 0);
        let b = in_turn(l.len(), |k: int| var_int(find_block(regs, l[k]->String_0)->0), 0);
        assert(out + n + b =~= out + (n + b));
    }
}

proof fn lemma_names_in_turn(out: Seq<u8>, l: Seq<Tag>, wrong: &'static str, i: nat)
    requires
        i <= l.len(),
        forall|k: int| 0 <= k < l.len() ==> (#[trigger] l[k]) is String && component_of_name(l[k]->String_0) is Some,
    ensures
        write_component_names(out, l, i as int, wrong) == put(
            out,
            in_turn(l.len(), |k: int| var_int(component_id(component_of_name(l[k]->String_0)->0) as int), i),
        ),
    decreases l.len() - i,
{
    let f = |k: int| var_int(component_id(component_of_name(l[k]->String_0)->0) as int);
    if i < l.len() {
        let t = l[i as int];
        assert(t is String);
        let b = f(i as int);
        lemma_names_in_turn(out + b, l, wrong, i + 1);
        assert(out + b + in_turn(l.len(), f, i + 1) =~= out + (b + in_turn(l.len(), f, i + 1)));
    } else {
        assert(out + in_turn(l.len(), f, i) =~= out);
    }
}

/// Whether components are sent as their numbers and these pieces.
pub open spec fn exact_as(c: Ctx, m: Seq<(Seq<char>, Tag)>, piece: spec_fn(int) -> Seq<u8>) -> bool {
    forall|k: int, o: Seq<u8>|
        #![trigger write_exact_value(component_of_name(m[k].0)->0, m[k].0, c, o, m[k].1)]
        0 <= k < m.len() ==> component_of_name(m[k].0) is Some && write_exact_value(component_of_name(m[k].0)->0, m[k].0, c, o, m[k].1) == put(
            o,
            piece(k),
        )
}

proof fn lemma_exact_in_turn(c: Ctx, out: Seq<u8>, m: Seq<(Seq<char>, Tag)>, piece: spec_fn(int) -> Seq<u8>, i: nat)
    requires
        i <= m.len(),
        exact_as(c, m, piece),
    ensures
        write_exact(c, out, m, i as int) == put(
            out,
            in_turn(m.len(), |k: int| var_int(component_id(component_of_name(m[k].0)->0) as int) + piece(k), i),
        ),
    decreases m.len() - i,
{
    let f = |k: int| var_int(component_id(component_of_name(m[k].0)->0) as int) + piece(k);
    if i < m.len() {
        let e = m[i as int];
        let k = component_of_name(e.0)->0;
        let n = var_int(component_id(k) as int);
        assert(write_exact_value(component_of_name(m[i as int].0)->0, m[i as int].0, c, out + n, m[i as int].1) == put(out + n, piece(i as int)));
        lemma_exact_in_turn(c, out + n + piece(i as int), m, piece, i + 1);
        assert(out + n + piece(i as int) + in_turn(m.len(), f, i + 1) =~= out + (n + piece(i as int) + in_turn(m.len(), f, i + 1)));
    } else {
        assert(out + in_turn(m.len(), f, i) =~= out);
    }
}

/// What the components have to be is sent as how many are given, each with its number and its value, and how
/// many have to be there, with their numbers; the former stand under `components`, the latter under
/// `predicates`.
pub proof fn lemma_components_layout(
    c: Ctx,
    out: Seq<u8>,
    m: Seq<(Seq<char>, Tag)>,
    exact: Seq<(Seq<char>, Tag)>,
    partial: Seq<Tag>,
    piece: spec_fn(int) -> Seq<u8>,
)
    requires
        only_keys(m, "components"@, "predicates"@),
        compound_get(m, "components"@) == Some(Tag::Compound(exact)) || (compound_get(m, "components"@) is None && exact.len() == 0),
        compound_get(m, "predicates"@) == Some(Tag::List(partial)) || (compound_get(m, "predicates"@) is None && partial.len() == 0),
        exact.len() <= 256,
        partial.len() <= 256,
        exact_as(c, exact, piece),
        forall|k: int| 0 <= k < partial.len() ==> (#[trigger] partial[k]) is String && component_of_name(partial[k]->String_0) is Some,
    ensures
        write_components(c, out, Tag::Compound(m)) == put(
            out,
            var_int(exact.len() as int) + in_turn(
                exact.len(),
                |k: int| var_int(component_id(component_of_name(exact[k].0)->0) as int) + piece(k),
                0,
            ) + var_int(partial.len() as int) + in_turn(
                partial.len(),
                |k: int| var_int(component_id(component_of_name(partial[k]->String_0)->0) as int),
                0,
            ),
        ),
{
    if compound_get(m, "components"@) is None {
        assert(exact =~= Seq::empty());
    }
    if compound_get(m, "predicates"@) is None {
        assert(partial =~= Seq::empty());
    }
    let n = var_int(exact.len() as int);
    let a = in_turn(exact.len(), |k: int| var_int(component_id(component_of_name(exact[k].0)->0) as int) + piece(k), 0);
    let q = var_int(partial.len() as int);
    let b = in_turn(partial.len(), |k: int| var_int(component_id(component_of_name(partial[k]->String_0)->0) as int), 0);
    lemma_exact_in_turn(c, out + n, exact, piece, 0);
    lemma_names_in_turn(out + n + a + q, partial, "Adventure partial component ID must be a string", 0);
    assert(out + n + a + q + b =~= out + (n + a + q + b));
}

/// What may be absent: a flag, and these bytes where it is there.
pub open spec fn behind_flag(t: Option<Tag>, b: Seq<u8>) -> Seq<u8> {
    if t is Some {
        seq![1u8] + b
    } else {
        seq![0u8]
    }
}

proof fn lemma_present(out: Seq<u8>, t: Option<Tag>, one: spec_fn(Seq<u8>, Tag) -> Sink, b: Seq<u8>)
    requires
        forall|o: Seq<u8>| t is Some ==> #[trigger] one(o, t->0) == put(o, b),
    ensures
        write_present(out, t, one) == put(out, behind_flag(t, b)),
{
    if t is Some {
        assert(one(out + seq![1u8], t->0) == put(out + seq![1u8], b));
        lemma_regroup(out, seq![1u8], b);
    }
}

proof fn lemma_two_zeros(o: Seq<u8>)
    ensures
        put(o + var_int(0), var_int(0)) == put(o, seq![0u8, 0u8]),
{
    lemma_pow256();
    reveal_with_fuel(crate::wire::groups, 2);
    assert(var_int(0) =~= seq![0u8]);
    assert(o + var_int(0) + var_int(0) =~= o + seq![0u8, 0u8]);
}

/// A predicate is sent as its blocks, its state and its data, each behind a flag, and its components; these
/// stand under `blocks`, `state`, `nbt` and `components`, and nothing else may stand there.
pub proof fn lemma_predicate_layout(
    c: Ctx,
    out: Seq<u8>,
    m: Seq<(Seq<char>, Tag)>,
    blocks: Seq<u8>,
    state: Seq<u8>,
    data: Seq<u8>,
    components: Seq<u8>,
)
    requires
        forall|o: Seq<u8>| compound_get(m, "blocks"@) is Some ==> #[trigger] write_blocks(c.regs, o, compound_get(m, "blocks"@)->0) == put(o, blocks),
        forall|o: Seq<u8>| compound_get(m, "state"@) is Some ==> #[trigger] write_state(o, compound_get(m, "state"@)->0) == put(o, state),
        forall|o: Seq<u8>| compound_get(m, "nbt"@) is Some ==> #[trigger] put_nbt(o, compound_get(m, "nbt"@)->0) == put(o, data),
        compound_get(m, "nbt"@) is Some ==> compound_get(m, "nbt"@)->0 is Compound,
        forall|o: Seq<u8>|
            compound_get(m, "components"@) is Some ==> #[trigger] write_components(c, o, compound_get(m, "components"@)->0) == put(o, components),
        compound_get(m, "components"@) is None ==> components == seq![0u8, 0u8],
    ensures
        predicate_keys(m) ==> write_predicate(c, out, m) == put(
            out,
            behind_flag(compound_get(m, "blocks"@), blocks) + behind_flag(compound_get(m, "state"@), state) + behind_flag(
                compound_get(m, "nbt"@),
                data,
            ) + components,
        ),
        !predicate_keys(m) ==> write_predicate(c, out, m).result is Err,
{
    let x1 = behind_flag(compound_get(m, "blocks"@), blocks);
    let x2 = behind_flag(compound_get(m, "state"@), state);
    let x3 = behind_flag(compound_get(m, "nbt"@), data);
    let f1 = |out: Seq<u8>, t: Tag| write_blocks(c.regs, out, t);
    let f2 = |out: Seq<u8>, t: Tag| write_state(out, t);
    let f3 = |out: Seq<u8>, t: Tag| write_data_tag(out, t);
    lemma_present(out, compound_get(m, "blocks"@), f1, blocks);
    lemma_present(out + x1, compound_get(m, "state"@), f2, state);
    lemma_present(out + x1 + x2, compound_get(m, "nbt"@), f3, data);
    let o = out + x1 + x2 + x3;
    if compound_get(m, "components"@) is Some {
        assert(write_components(c, o, compound_get(m, "components"@)->0) == put(o, components));
    } else {
        lemma_two_zeros(o);
    }
    lemma_regroup(out, x1, x2);
    lemma_regroup(out, x1 + x2, x3);
    lemma_regroup(out, x1 + x2 + x3, components);
}

proof fn lemma_predicates_in_turn(c: Ctx, out: Seq<u8>, l: Seq<Tag>, piece: spec_fn(int) -> Seq<u8>, i: nat)
    requires
        i <= l.len(),
        forall|k: int| 0 <= k < l.len() ==> #[trigger] l[k] is Compound,
        forall|k: int, o: Seq<u8>| 0 <= k < l.len() ==> #[trigger] write_predicate(c, o, l[k]->Compound_0) == put(o, piece(k)),
    ensures
        write_predicate_list(c, out, l, i as int) == put(out, in_turn(l.len(), piece, i)),
    decreases l.len() - i,
{
    if i < l.len() {
        assert(l[i as int] is Compound);
        assert(write_predicate(c, out, l[i as int]->Compound_0) == put(out, piece(i as int)));
        lemma_predicates_in_turn(c, out + piece(i as int), l, piece, i + 1);
        assert(out + piece(i as int) + in_turn(l.len(), piece, i + 1) =~= out + (piece(i as int) + in_turn(l.len(), piece, i + 1)));
    } else {
        assert(out + in_turn(l.len(), piece, i) =~= out);
    }
}

/// Predicates are sent as how many there are, and these in their order; a compound is one, and more than 256
/// are refused.
pub proof fn lemma_predicates_layout(c: Ctx, out: Seq<u8>, l: Seq<Tag>, m: Seq<(Seq<char>, Tag)>, piece: spec_fn(int) -> Seq<u8>)
    requires
        forall|k: int| 0 <= k < l.len() ==> #[trigger] l[k] is Compound,
        forall|k: int, o: Seq<u8>| 0 <= k < l.len() ==> #[trigger] write_predicate(c, o, l[k]->Compound_0) == put(o, piece(k)),
    ensures
        l.len() <= 256 ==> write_predicates(c, out, Tag::List(l)) == put(out, var_int(l.len() as int) + in_turn(l.len(), piece, 0)),
        l.len() > 256 ==> write_predicates(c, out, Tag::List(l)).result is Err,
        write_predicates(c, out, Tag::Compound(m)) == write_predicate(c, out + var_int(1), m),
{
    let n = var_int(l.len() as int);
    lemma_predicates_in_turn(c, out + n, l, piece, 0);
    assert(out + n + in_turn(l.len(), piece, 0) =~= out + (n + in_turn(l.len(), piece, 0)));
}

} // verus!
