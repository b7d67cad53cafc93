//! Reading and writing the block predicates of adventure mode.
use std::sync::Arc;
use vstd::prelude::*;
use crate::codec::{count_as_i32, decodes, encodes, Context};
use crate::data_component::DataComponent;
use crate::elements::{get_nbt, write_nbt};
use crate::errors::{cannot_write, cannot_write_name, limit_exceeded, limit_exceeded_by, message, message_name, message_value, told, ReadingError, WritingError};
use crate::format::{read_count, read_val, write_val, Format, Val};
use crate::identifier::strip_prefix;
use crate::item_stack::{advanced, group_advanced, ItemStackIdGenerator};
use crate::nbt_tag::{lemma_entry_views, lemma_tag_views, tags_of, NbtCompound, NbtTag, Tag};
use crate::nested::{deserialize, serialize};
use crate::nested_stored::{read_data, untold_components, write_data};
use crate::persist::Entries;
use crate::predicate::{adventure_component, adventure_rule, entries_under, list_under, only_keys, predicate_keys, read_block_names, read_blocks, read_bound, read_component_names, read_components, read_data_tag, read_exact, read_exact_value, read_predicate, read_predicate_list, read_predicates, read_properties, read_property, read_state, read_tooltip, text_under, write_block_names, write_blocks, write_bound, write_component_names, write_components, write_exact, write_exact_value, write_predicate, write_predicate_list, write_predicates, write_properties, write_property, write_state, write_tooltip, MAX_ADVENTURE};
use crate::registry::Registries;
use crate::text::{concat, same_text};
use crate::wire::{done, fail, get_bool, get_str, get_var_int, write_bool, write_string, write_var_int, Outcome};

verus! {

broadcast use {group_advanced, lemma_tag_views, lemma_entry_views};

/// Whether the tag and the rest of a read are those of `o`.
pub open spec fn reads_tag(o: Outcome<Tag>, r: Result<NbtTag, ReadingError>, rest: Seq<u8>) -> bool {
    match r {
        Ok(t) => o == done(t@, rest),
        Err(e) => o == fail::<Tag>(e@, rest),
    }
}

/// Whether the compound and the rest of a read are those of `o`.
pub open spec fn reads_entries(o: Outcome<Entries>, r: Result<NbtCompound, ReadingError>, rest: Seq<u8>) -> bool {
    match r {
        Ok(c) => o == done(c@, rest),
        Err(e) => o == fail::<Entries>(e@, rest),
    }
}

/// Reads how many things there are.
fn adventure_count(seq: &mut &[u8], negative: &'static str, over: &'static str) -> (r: Result<usize, ReadingError>)
    ensures
        match r {
            Ok(n) => n <= MAX_ADVENTURE && read_count(adventure_rule(negative, over), old(seq)@) == done(n as nat, final(seq)@),
            Err(e) => read_count(adventure_rule(negative, over), old(seq)@) == fail::<nat>(e@, final(seq)@),
        },
{
    let n: i32 = get_var_int(seq)?;
    if n < 0 {
        return Err(message_value(negative, n as i128));
    }
    if n > 256 {
        return Err(limit_exceeded_by(over, n as i128));
    }
    Ok(n as usize)
}

/// The component type with a number.
fn adventure_component_id(v: i32) -> (r: Result<DataComponent, ReadingError>)
    ensures
        told(r) == adventure_component(v as int),
{
    if v < 0 || v > 255 {
        return Err(message_value("Invalid data component id: {}", v as i128));
    }
    match DataComponent::try_from_id(v as u8) {
        Some(id) => Ok(id),
        None => Err(message_value("Unknown data component id: {}", v as i128)),
    }
}

/// Reads a set of blocks.
fn read_adventure_blocks(seq: &mut &[u8], regs: &Registries) -> (r: Result<NbtTag, ReadingError>)
    ensures
        reads_tag(read_blocks(*regs, old(seq)@), r, final(seq)@),
{
    let kind: i32 = get_var_int(seq)?;
    if kind == 0 {
        let name = get_str(seq)?;
        return Ok(NbtTag::String(concat("#", name.as_str())));
    }
    if kind < 0 {
        return Err(message("Negative adventure block set type/length"));
    }
    if kind - 1 > 256 {
        return Err(limit_exceeded("Too many adventure block IDs"));
    }
    let n: i32 = kind - 1;
    let ghost o = read_blocks(*regs, old(seq)@);
    let mut blocks: Vec<NbtTag> = Vec::new();
    assert(tags_of(blocks@) =~= Seq::<Tag>::empty());
    let mut i: i32 = 0;
    while i < n
        invariant
            0 <= i <= n,
            o == read_blocks(*regs, old(seq)@),
            o == read_block_names(*regs, (n - i) as nat, seq@, tags_of(blocks@)),
        decreases n - i,
    {
        let id: i32 = get_var_int(seq)?;
        if id < 0 || id > 0xffff {
            return Err(message("Invalid adventure block ID"));
        }
        if (id as usize) >= regs.blocks.len() {
            return Err(message_value("Unknown adventure block registry ID: {}", id as i128));
        }
        let tag = NbtTag::String(regs.blocks[id as usize].name.clone());
        let ghost before = tags_of(blocks@);
        let ghost x = tag@;
        blocks.push(tag);
        assert(tags_of(blocks@) =~= before.push(x));
        i += 1;
    }
    Ok(NbtTag::List(blocks))
}

/// Reads a text that may be absent, and sets `key` to it where it is not.
fn get_bound(key: &'static str, range: &mut NbtCompound, seq: &mut &[u8]) -> (r: Result<(), ReadingError>)
    ensures
        match r {
            Ok(_) => read_bound(key, old(range)@, old(seq)@) == done(final(range)@, final(seq)@),
            Err(e) => read_bound(key, old(range)@, old(seq)@) == fail::<Entries>(e@, final(seq)@),
        },
{
    if get_bool(seq)? {
        let t = get_str(seq)?;
        range.put_string(key, t);
    }
    Ok(())
}

/// Reads what a property has to be.
fn get_property(seq: &mut &[u8]) -> (r: Result<NbtTag, ReadingError>)
    ensures
        reads_tag(read_property(old(seq)@), r, final(seq)@),
{
    if get_bool(seq)? {
        let t = get_str(seq)?;
        return Ok(NbtTag::String(t));
    }
    let mut range = NbtCompound::new();
    get_bound("min", &mut range, seq)?;
    get_bound("max", &mut range, seq)?;
    Ok(NbtTag::Compound(range))
}

/// Reads what the state of a block has to be.
fn read_adventure_state(seq: &mut &[u8]) -> (r: Result<NbtTag, ReadingError>)
    ensures
        reads_tag(read_state(old(seq)@), r, final(seq)@),
{
    let ghost o = read_state(old(seq)@);
    let n: usize = adventure_count(
        seq,
        "Negative adventure state property count: {}",
        "adventure state property count {} exceeds 256",
    )?;
    let mut state = NbtCompound::new();
    let mut i: usize = 0;
    while i < n
        invariant
            0 <= i <= n,
            o == read_state(old(seq)@),
            o == read_properties((n - i) as nat, seq@, state@),
        decreases n - i,
    {
        let name = get_str(seq)?;
        if state.has(name.as_str()) {
            return Err(message_name("Duplicate adventure state property: {}", name.as_str()));
        }
        let t = get_property(seq)?;
        state.put(name.as_str(), t);
        i += 1;
    }
    Ok(NbtTag::Compound(state))
}

/// Reads the names of `n` component types.
fn get_component_names(n: usize, seq: &mut &[u8]) -> (r: Result<Vec<NbtTag>, ReadingError>)
    ensures
        match r {
            Ok(l) => read_component_names(n as nat, old(seq)@, Seq::empty()) == done(tags_of(l@), final(seq)@),
            Err(e) => read_component_names(n as nat, old(seq)@, Seq::empty()) == fail::<Seq<Tag>>(e@, final(seq)@),
        },
{
    let ghost o = read_component_names(n as nat, old(seq)@, Seq::empty());
    let mut names: Vec<NbtTag> = Vec::new();
    assert(tags_of(names@) =~= Seq::<Tag>::empty());
    let mut i: usize = 0;
    while i < n
        invariant
            0 <= i <= n,
            o == read_component_names(n as nat, old(seq)@, Seq::empty()),
            o == read_component_names((n - i) as nat, seq@, tags_of(names@)),
        decreases n - i,
    {
        let number: i32 = get_var_int(seq)?;
        let id = adventure_component_id(number)?;
        let tag = NbtTag::String(concat("", id.to_name()));
        let ghost before = tags_of(names@);
        let ghost x = tag@;
        proof {
            reveal_strlit("");
            assert(""@ + crate::data_component::component_name(id) =~= crate::data_component::component_name(id));
        }
        names.push(tag);
        assert(tags_of(names@) =~= before.push(x));
        i += 1;
    }
    Ok(names)
}

/// Reads the display of a tooltip.
fn read_adventure_tooltip(seq: &mut &[u8]) -> (r: Result<NbtTag, ReadingError>)
    ensures
        reads_tag(read_tooltip(old(seq)@), r, final(seq)@),
{
    let mut tooltip = NbtCompound::new();
    let hides: bool = get_bool(seq)?;
    tooltip.put_bool("hide_tooltip", hides);
    let n: usize = adventure_count(
        seq,
        "Negative tooltip hidden component count: {}",
        "tooltip hidden component count {} exceeds 256",
    )?;
    let hidden = get_component_names(n, seq)?;
    tooltip.put_list("hidden_components", hidden);
    Ok(NbtTag::Compound(tooltip))
}

/// Reads the value of a component, as it is stored.
fn get_exact_value(id: DataComponent, seq: &mut &[u8], ctx: &Context, ids: &mut ItemStackIdGenerator) -> (r: Result<NbtTag, ReadingError>)
    ensures
        advanced(old(ids).counter, final(ids).counter),
        reads_tag(read_exact_value(id, ctx@, old(seq)@), r, final(seq)@),
    decreases ctx.budget, 7nat,
{
    proof {
        reveal(read_val);
    }
    if id == DataComponent::TooltipDisplay {
        return read_adventure_tooltip(seq);
    }
    let value = Arc::new(deserialize(id, seq, ctx, ids)?);
    if !untold_components(&value, ctx.regs).is_empty() {
        return Err(message("component has no stored form"));
    }
    match write_data(&value, ctx.regs) {
        Some(t) => Ok(t),
        None => Err(message("component has no stored form")),
    }
}

/// Reads `n` components that have to match.
fn get_exact(n: usize, seq: &mut &[u8], ctx: &Context, ids: &mut ItemStackIdGenerator) -> (r: Result<NbtCompound, ReadingError>)
    ensures
        advanced(old(ids).counter, final(ids).counter),
        reads_entries(read_exact(n as nat, ctx@, old(seq)@, Seq::empty()), r, final(seq)@),
    decreases ctx.budget, 8nat,
{
    let ghost o = read_exact(n as nat, ctx@, old(seq)@, Seq::empty());
    let mut exact = NbtCompound::new();
    let mut i: usize = 0;
    while i < n
        invariant
            advanced(old(ids).counter, ids.counter),
            0 <= i <= n,
            o == read_exact(n as nat, ctx@, old(seq)@, Seq::empty()),
            o == read_exact((n - i) as nat, ctx@, seq@, exact@),
        decreases n - i,
    {
        let number: i32 = get_var_int(seq)?;
        let id = adventure_component_id(number)?;
        if exact.has(id.to_name()) {
            return Err(message_name("Duplicate adventure exact component: {}", id.to_name()));
        }
        let t = get_exact_value(id, seq, ctx, ids)?;
        exact.put(id.to_name(), t);
        i += 1;
    }
    Ok(exact)
}

/// Reads what the components have to be.
pub fn read_adventure_components(seq: &mut &[u8], ctx: &Context, ids: &mut ItemStackIdGenerator) -> (r: Result<NbtCompound, ReadingError>)
    ensures
        advanced(old(ids).counter, final(ids).counter),
        reads_entries(read_components(ctx@, old(seq)@), r, final(seq)@),
    decreases ctx.budget, 9nat,
{
    let n: usize = adventure_count(
        seq,
        "Negative adventure exact component count: {}",
        "adventure exact component count {} exceeds 256",
    )?;
    let exact = get_exact(n, seq, ctx, ids)?;
    let m: usize = adventure_count(
        seq,
        "Negative adventure partial component count: {}",
        "adventure partial component count {} exceeds 256",
    )?;
    let partial = get_component_names(m, seq)?;
    let mut result = NbtCompound::new();
    if !exact.is_empty() {
        result.put_compound("components", exact);
    }
    if partial.len() > 0 {
        result.put_list("predicates", partial);
    }
    Ok(result)
}

/// Reads the tag that the data of a block has to match.
fn get_data_tag(seq: &mut &[u8]) -> (r: Result<NbtTag, ReadingError>)
    ensures
        reads_tag(read_data_tag(old(seq)@), r, final(seq)@),
{
    match get_nbt(seq)? {
        None => Err(message("Adventure predicate NBT is missing")),
        Some(NbtTag::Compound(c)) => Ok(NbtTag::Compound(c)),
        Some(_) => Err(message("tag is not a compound")),
    }
}

/// Reads a predicate.
fn read_adventure_predicate(seq: &mut &[u8], ctx: &Context, ids: &mut ItemStackIdGenerator) -> (r: Result<NbtTag, ReadingError>)
    ensures
        advanced(old(ids).counter, final(ids).counter),
        reads_tag(read_predicate(ctx@, old(seq)@), r, final(seq)@),
    decreases ctx.budget, 10nat,
{
    let mut result = NbtCompound::new();
    if get_bool(seq)? {
        let blocks = read_adventure_blocks(seq, ctx.regs)?;
        result.put("blocks", blocks);
    }
    if get_bool(seq)? {
        let state = read_adventure_state(seq)?;
        result.put("state", state);
    }
    if get_bool(seq)? {
        let data = get_data_tag(seq)?;
        result.put("nbt", data);
    }
    let components = read_adventure_components(seq, ctx, ids)?;
    if !components.is_empty() {
        result.put_compound("components", components);
    }
    Ok(NbtTag::Compound(result))
}

/// Reads predicates.
fn read_adventure_predicates(seq: &mut &[u8], ctx: &Context, ids: &mut ItemStackIdGenerator) -> (r: Result<NbtTag, ReadingError>)
    ensures
        advanced(old(ids).counter, final(ids).counter),
        decodes(read_predicates(ctx@, old(seq)@), r, final(seq)@, |v: NbtTag| Val::Nbt(v@)),
    decreases ctx.budget, 11nat,
{
    let ghost o = read_predicates(ctx@, old(seq)@);
    let n: usize = adventure_count(
        seq,
        "Negative adventure predicate count: {}",
        "adventure predicate count {} exceeds 256",
    )?;
    let mut values: Vec<NbtTag> = Vec::new();
    assert(tags_of(values@) =~= Seq::<Tag>::empty());
    let mut i: usize = 0;
    while i < n
        invariant
            advanced(old(ids).counter, ids.counter),
            0 <= i <= n,
            o == read_predicates(ctx@, old(seq)@),
            o == read_predicate_list((n - i) as nat, ctx@, seq@, tags_of(values@)),
        decreases n - i,
    {
        let t = read_adventure_predicate(seq, ctx, ids)?;
        let ghost before = tags_of(values@);
        let ghost x = t@;
        values.push(t);
        assert(tags_of(values@) =~= before.push(x));
        i += 1;
    }
    Ok(NbtTag::List(values))
}

/// Reads predicates that are nested in a component.
pub fn get_predicates(seq: &mut &[u8], ctx: &Context, ids: &mut ItemStackIdGenerator) -> (r: Result<NbtTag, ReadingError>)
    ensures
        advanced(old(ids).counter, final(ids).counter),
        decodes(read_val(Format::Predicates, ctx@, old(seq)@), r, final(seq)@, |v: NbtTag| Val::Nbt(v@)),
    decreases ctx.budget, 0nat,
{
    proof {
        reveal(read_val);
    }
    if ctx.budget == 0 {
        return Err(limit_exceeded("components are nested too deeply"));
    }
    read_adventure_predicates(seq, &ctx.deeper(), ids)
}

/// Appends a set of blocks.
fn write_adventure_blocks(blocks: &NbtTag, out: &mut Vec<u8>, regs: &Registries) -> (r: Result<(), WritingError>)
    ensures
        encodes(write_blocks(*regs, old(out)@, blocks@), r, final(out)@),
{
    match blocks {
        NbtTag::String(name) => match strip_prefix(name.as_str(), "#") {
            Some(tag) => {
                write_var_int(out, 0);
                write_string(out, tag.as_str())
            },
            None => match regs.block_by_name(name.as_str()) {
                Some(id) => {
                    write_var_int(out, 2);
                    write_var_int(out, count_as_i32(id));
                    Ok(())
                },
                None => Err(cannot_write_name("Unknown adventure block: {}", name.as_str())),
            },
        },
        NbtTag::List(names) => {
            assert(blocks@ == Tag::List(tags_of(names@)));
            if names.len() > 256 {
                return Err(cannot_write("Too many adventure block IDs"));
            }
            let ghost w = write_blocks(*regs, old(out)@, blocks@);
            let ghost l = tags_of(names@);
            write_var_int(out, names.len() as i32 + 1);
            let mut i: usize = 0;
            while i < names.len()
                invariant
                    i <= names.len(),
                    l == tags_of(names@),
                    w == write_blocks(*regs, old(out)@, blocks@),
                    w == write_block_names(*regs, out@, l, i as int),
                decreases names.len() - i,
            {
                assert(l[i as int] == names@[i as int]@);
                match &names[i] {
                    NbtTag::String(name) => match regs.block_by_name(name.as_str()) {
                        Some(id) => {
                            write_var_int(out, count_as_i32(id));
                        },
                        None => {
                            return Err(cannot_write_name("Unknown adventure block: {}", name.as_str()));
                        },
                    },
                    _ => {
                        return Err(cannot_write("Adventure block ID must be a string"));
                    },
                }
                i += 1;
            }
            Ok(())
        },
        _ => Err(cannot_write("Adventure blocks must be a string or list")),
    }
}

/// Whether every key of a compound is one of two.
fn has_only(c: &NbtCompound, a: &str, b: &str) -> (r: bool)
    ensures
        r == only_keys(c@, a@, b@),
{
    let mut i: usize = 0;
    while i < c.child_tags.len()
        invariant
            i <= c.child_tags.len(),
            c@.len() == c.child_tags@.len(),
            forall|k: int| 0 <= k < i ==> (#[trigger] c@[k]).0 == a@ || c@[k].0 == b@,
        decreases c.child_tags.len() - i,
    {
        assert(c@[i as int].0 == c.child_tags@[i as int].0@);
        let key = c.child_tags[i].0.as_str();
        if !same_text(key, a) && !same_text(key, b) {
            return false;
        }
        i += 1;
    }
    true
}

/// Whether every key of a compound is one of a predicate.
fn has_predicate_keys(c: &NbtCompound) -> (r: bool)
    ensures
        r == predicate_keys(c@),
{
    let mut i: usize = 0;
    while i < c.child_tags.len()
        invariant
            i <= c.child_tags.len(),
            c@.len() == c.child_tags@.len(),
            forall|k: int|
                0 <= k < i ==> (#[trigger] c@[k]).0 == "blocks"@ || c@[k].0 == "state"@ || c@[k].0 == "nbt"@ || c@[k].0 == "components"@,
        decreases c.child_tags.len() - i,
    {
        assert(c@[i as int].0 == c.child_tags@[i as int].0@);
        let key = c.child_tags[i].0.as_str();
        if !same_text(key, "blocks") && !same_text(key, "state") && !same_text(key, "nbt") && !same_text(key, "components") {
            return false;
        }
        i += 1;
    }
    true
}

/// Appends the text under a key, which may be absent.
fn put_bound(range: &NbtCompound, key: &'static str, out: &mut Vec<u8>) -> (r: Result<(), WritingError>)
    ensures
        encodes(write_bound(old(out)@, text_under(range@, key)), r, final(out)@),
{
    match range.get_string(key) {
        Some(t) => {
            write_bool(out, true);
            write_string(out, t.as_str())
        },
        None => {
            write_bool(out, false);
            Ok(())
        },
    }
}

/// Appends what a property has to be.
fn put_property(name: &str, t: &NbtTag, out: &mut Vec<u8>) -> (r: Result<(), WritingError>)
    ensures
        encodes(write_property(old(out)@, name@, t@), r, final(out)@),
{
    match t {
        NbtTag::String(value) => {
            write_bool(out, true);
            write_string(out, value.as_str())
        },
        NbtTag::Compound(range) => {
            if !has_only(range, "min", "max") {
                return Err(cannot_write_name("Unknown adventure state range field: {}", name));
            }
            write_bool(out, false);
            put_bound(range, "min", out)?;
            put_bound(range, "max", out)
        },
        _ => Err(cannot_write_name("Invalid adventure state value: {}", name)),
    }
}

/// Appends what the state of a block has to be.
fn write_adventure_state(state: &NbtTag, out: &mut Vec<u8>) -> (r: Result<(), WritingError>)
    ensures
        encodes(write_state(old(out)@, state@), r, final(out)@),
{
    let c = match state {
        NbtTag::Compound(c) => c,
        _ => {
            return Err(cannot_write("Adventure state must be a compound"));
        },
    };
    if c.len() > 256 {
        return Err(cannot_write("Too many adventure state properties"));
    }
    let ghost w = write_state(old(out)@, state@);
    write_var_int(out, c.len() as i32);
    let mut i: usize = 0;
    while i < c.child_tags.len()
        invariant
            i <= c.child_tags.len(),
            c@.len() == c.child_tags@.len(),
            w == write_state(old(out)@, state@),
            w == write_properties(out@, c@, i as int),
        decreases c.child_tags.len() - i,
    {
        assert(c@[i as int] == (c.child_tags@[i as int].0@, c.child_tags@[i as int].1@));
        write_string(out, c.child_tags[i].0.as_str())?;
        put_property(c.child_tags[i].0.as_str(), &c.child_tags[i].1, out)?;
        i += 1;
    }
    Ok(())
}

/// Appends the numbers of the component types that tags name.
fn put_component_names(names: &Vec<NbtTag>, out: &mut Vec<u8>, wrong: &'static str) -> (r: Result<(), WritingError>)
    ensures
        encodes(write_component_names(old(out)@, tags_of(names@), 0, wrong), r, final(out)@),
{
    let ghost l = tags_of(names@);
    let ghost w = write_component_names(old(out)@, l, 0, wrong);
    let mut i: usize = 0;
    while i < names.len()
        invariant
            i <= names.len(),
            l == tags_of(names@),
            w == write_component_names(old(out)@, l, 0, wrong),
            w == write_component_names(out@, l, i as int, wrong),
        decreases names.len() - i,
    {
        assert(l[i as int] == names@[i as int]@);
        match &names[i] {
            NbtTag::String(name) => match DataComponent::try_from_name(name.as_str()) {
                Some(id) => {
                    write_var_int(out, id.to_id() as i32);
                },
                None => {
                    return Err(cannot_write_name("Unknown data component in adventure predicate: {}", name.as_str()));
                },
            },
            _ => {
                return Err(cannot_write(wrong));
            },
        }
        i += 1;
    }
    Ok(())
}

/// Appends the display of a tooltip.
fn write_adventure_tooltip(tooltip: &NbtCompound, out: &mut Vec<u8>) -> (r: Result<(), WritingError>)
    ensures
        encodes(write_tooltip(old(out)@, tooltip@), r, final(out)@),
{
    let hidden = match tooltip.get_list("hidden_components") {
        Some(hidden) => hidden,
        None => {
            return Err(cannot_write("TooltipDisplay matcher is missing hidden_components"));
        },
    };
    let hides: bool = match tooltip.get_bool("hide_tooltip") {
        Some(hides) => hides,
        None => {
            return Err(cannot_write("TooltipDisplay matcher is missing hide_tooltip"));
        },
    };
    if !has_only(tooltip, "hide_tooltip", "hidden_components") {
        return Err(cannot_write("Unknown TooltipDisplay matcher field"));
    }
    write_bool(out, hides);
    if hidden.len() > 0x7fff_ffff {
        return Err(cannot_write("TooltipDisplay hidden component count overflow"));
    }
    write_var_int(out, hidden.len() as i32);
    put_component_names(hidden, out, "TooltipDisplay hidden component ID must be a string")
}

/// Appends the value of a component that is given as it is stored.
fn put_exact_value(id: DataComponent, name: &str, t: &NbtTag, out: &mut Vec<u8>, ctx: &Context) -> (r: Result<(), WritingError>)
    ensures
        encodes(write_exact_value(id, name@, ctx@, old(out)@, t@), r, final(out)@),
    decreases ctx.budget, 7nat,
{
    proof {
        reveal(write_val);
    }
    if id == DataComponent::TooltipDisplay {
        match t {
            NbtTag::Compound(tooltip) => {
                return write_adventure_tooltip(tooltip, out);
            },
            _ => {},
        }
    }
    let mut ids = ItemStackIdGenerator::new();
    match read_data(id, t, ctx.regs, &mut ids) {
        Some(value) => serialize(id, &value, out, ctx),
        None => Err(cannot_write_name("Invalid data for component {}", name)),
    }
}

/// Appends the components that have to match.
fn put_exact(exact: &NbtCompound, out: &mut Vec<u8>, ctx: &Context) -> (r: Result<(), WritingError>)
    ensures
        encodes(write_exact(ctx@, old(out)@, exact@, 0), r, final(out)@),
    decreases ctx.budget, 8nat,
{
    let ghost w = write_exact(ctx@, old(out)@, exact@, 0);
    let mut i: usize = 0;
    while i < exact.child_tags.len()
        invariant
            i <= exact.child_tags.len(),
            exact@.len() == exact.child_tags@.len(),
            w == write_exact(ctx@, old(out)@, exact@, 0),
            w == write_exact(ctx@, out@, exact@, i as int),
        decreases exact.child_tags.len() - i,
    {
        assert(exact@[i as int] == (exact.child_tags@[i as int].0@, exact.child_tags@[i as int].1@));
        let id = match DataComponent::try_from_name(exact.child_tags[i].0.as_str()) {
            Some(id) => id,
            None => {
                return Err(cannot_write_name("Unknown data component in adventure predicate: {}", exact.child_tags[i].0.as_str()));
            },
        };
        write_var_int(out, id.to_id() as i32);
        put_exact_value(id, exact.child_tags[i].0.as_str(), &exact.child_tags[i].1, out, ctx)?;
        i += 1;
    }
    Ok(())
}

/// Appends what the components have to be.
pub fn write_adventure_components(value: &NbtTag, out: &mut Vec<u8>, ctx: &Context) -> (r: Result<(), WritingError>)
    ensures
        encodes(write_components(ctx@, old(out)@, value@), r, final(out)@),
    decreases ctx.budget, 9nat,
{
    let c = match value {
        NbtTag::Compound(c) => c,
        _ => {
            return Err(cannot_write("Adventure components must be a compound"));
        },
    };
    let no_exact = NbtCompound::new();
    let no_partial: Vec<NbtTag> = Vec::new();
    assert(tags_of(no_partial@) =~= Seq::<Tag>::empty());
    let exact = match c.get("components") {
        None => &no_exact,
        Some(NbtTag::Compound(exact)) => exact,
        Some(_) => {
            return Err(cannot_write("Adventure exact components must be a compound"));
        },
    };
    let partial = match c.get("predicates") {
        None => &no_partial,
        Some(NbtTag::List(partial)) => partial,
        Some(_) => {
            return Err(cannot_write("Adventure partial components must be a list"));
        },
    };
    assert(entries_under(c@, "components") == Some(exact@));
    assert(list_under(c@, "predicates") == Some(tags_of(partial@)));
    if !has_only(c, "components", "predicates") {
        return Err(cannot_write("Unknown adventure component matcher field"));
    }
    if exact.len() > 256 {
        return Err(cannot_write("Too many adventure exact components"));
    }
    write_var_int(out, exact.len() as i32);
    put_exact(exact, out, ctx)?;
    if partial.len() > 256 {
        return Err(cannot_write("Too many adventure partial components"));
    }
    write_var_int(out, partial.len() as i32);
    put_component_names(partial, out, "Adventure partial component ID must be a string")
}

/// Appends a predicate.
fn write_adventure_predicate(c: &NbtCompound, out: &mut Vec<u8>, ctx: &Context) -> (r: Result<(), WritingError>)
    ensures
        encodes(write_predicate(ctx@, old(out)@, c@), r, final(out)@),
    decreases ctx.budget, 10nat,
{
    if !has_predicate_keys(c) {
        return Err(cannot_write("Unknown adventure predicate field"));
    }
    match c.get("blocks") {
        Some(blocks) => {
            write_bool(out, true);
            write_adventure_blocks(blocks, out, ctx.regs)?;
        },
        None => {
            write_bool(out, false);
        },
    }
    match c.get("state") {
        Some(state) => {
            write_bool(out, true);
            write_adventure_state(state, out)?;
        },
        None => {
            write_bool(out, false);
        },
    }
    match c.get("nbt") {
        Some(data) => {
            write_bool(out, true);
            match data {
                NbtTag::Compound(_) => {
                    write_nbt(data, out)?;
                },
                _ => {
                    return Err(cannot_write("Adventure predicate NBT must be a compound"));
                },
            }
        },
        None => {
            write_bool(out, false);
        },
    }
    match c.get("components") {
        Some(components) => write_adventure_components(components, out, ctx),
        None => {
            write_var_int(out, 0);
            write_var_int(out, 0);
            Ok(())
        },
    }
}

/// Appends predicates.
fn write_adventure_predicates(value: &NbtTag, out: &mut Vec<u8>, ctx: &Context) -> (r: Result<(), WritingError>)
    ensures
        encodes(write_predicates(ctx@, old(out)@, value@), r, final(out)@),
    decreases ctx.budget, 11nat,
{
    match value {
        NbtTag::List(values) => {
            assert(value@ == Tag::List(tags_of(values@)));
            if values.len() > 256 {
                return Err(cannot_write("Too many adventure predicates"));
            }
            let ghost l = tags_of(values@);
            let ghost w = write_predicates(ctx@, old(out)@, value@);
            write_var_int(out, values.len() as i32);
            let mut i: usize = 0;
            while i < values.len()
                invariant
                    i <= values.len(),
                    l == tags_of(values@),
                    w == write_predicates(ctx@, old(out)@, value@),
                    w == write_predicate_list(ctx@, out@, l, i as int),
                decreases values.len() - i,
            {
                assert(l[i as int] == values@[i as int]@);
                match &values[i] {
                    NbtTag::Compound(c) => {
                        write_adventure_predicate(c, out, ctx)?;
                    },
                    _ => {
                        return Err(cannot_write("Adventure predicate must be a compound"));
                    },
                }
                i += 1;
            }
            Ok(())
        },
        NbtTag::Compound(c) => {
            write_var_int(out, 1);
            write_adventure_predicate(c, out, ctx)
        },
        _ => Err(cannot_write("Adventure predicate must be a compound or list")),
    }
}

/// Appends predicates that are nested in a component.
pub fn put_predicates(predicate: &NbtTag, out: &mut Vec<u8>, ctx: &Context) -> (r: Result<(), WritingError>)
    ensures
        encodes(write_val(Format::Predicates, ctx@, old(out)@, Val::Nbt(predicate@)), r, final(out)@),
    decreases ctx.budget, 0nat,
{
    proof {
        reveal(write_val);
    }
    if ctx.budget == 0 {
        return Err(cannot_write("components are nested too deeply"));
    }
    write_adventure_predicates(predicate, out, &ctx.deeper())
}

} // verus!
