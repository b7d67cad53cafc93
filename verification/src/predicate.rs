//! The block predicates of adventure mode, which are kept as tags.
use vstd::prelude::*;
use crate::components::component_format;
use crate::data_component::{component_id, component_name, component_of_id, component_of_name, DataComponent};
use crate::errors::{msg, msg_name, msg_value, too_large, wmsg, wmsg_name, ReadFault};
use crate::format::{put, put_nbt, put_text, read_count, read_nbt, read_val, refuse, write_val, written_count, Blame, CountRule, Ctx, Format, Sink, Val};
use crate::nbt_tag::{bool_of, bool_tag, compound_get, compound_put, Tag};
use crate::persist::{data_from_tag, data_to_tag, untold_in};
use crate::registry::{find_block, Registries};
use crate::wire::{done, fail, flag, read_bool, read_text, read_var_int, var_int, Outcome, MAX_TEXT_BYTES};

verus! {

/// How many predicates, blocks, properties and components there may be.
pub const MAX_ADVENTURE: usize = 256;

/// How things are counted.
pub open spec fn adventure_rule(negative: &'static str, over: &'static str) -> CountRule {
    CountRule::Limited { negative: Blame { text: negative, number: true }, max: MAX_ADVENTURE as nat, over: Blame { text: over, number: true } }
}

/// The component type with a number.
pub open spec fn adventure_component(v: int) -> Result<DataComponent, ReadFault> {
    if v < 0 || v > 255 {
        Err(msg_value("Invalid data component id: {}", v))
    } else {
        match component_of_id(v) {
            Some(k) => Ok(k),
            None => Err(msg_value("Unknown data component id: {}", v)),
        }
    }
}

/// Reading the names of `n` more blocks behind those in `head`.
pub open spec fn read_block_names(regs: Registries, n: nat, s: Seq<u8>, head: Seq<Tag>) -> Outcome<Tag>
    decreases n,
{
    if n == 0 {
        done(Tag::List(head), s)
    } else {
        match read_var_int(s) {
            Outcome { value: Err(e), rest } => fail(e, rest),
            Outcome { value: Ok(v), rest } => if v < 0 || v > 0xffff {
                fail(msg("Invalid adventure block ID"), rest)
            } else if v < regs.blocks@.len() {
                read_block_names(regs, (n - 1) as nat, rest, head.push(Tag::String(regs.blocks@[v].name@)))
            } else {
                fail(msg_value("Unknown adventure block registry ID: {}", v), rest)
            },
        }
    }
}

/// Reading a set of blocks: a tag, or the names of some.
pub open spec fn read_blocks(regs: Registries, s: Seq<u8>) -> Outcome<Tag> {
    match read_var_int(s) {
        Outcome { value: Err(e), rest } => fail(e, rest),
        Outcome { value: Ok(v), rest } => if v == 0 {
            match read_text(rest, MAX_TEXT_BYTES as nat) {
                Outcome { value: Err(e), rest } => fail(e, rest),
                Outcome { value: Ok(t), rest } => done(Tag::String("#"@ + t), rest),
            }
        } else if v < 0 {
            fail(msg("Negative adventure block set type/length"), rest)
        } else if v - 1 > MAX_ADVENTURE {
            fail(too_large("Too many adventure block IDs"), rest)
        } else {
            read_block_names(regs, (v - 1) as nat, rest, Seq::empty())
        },
    }
}

/// Reading a text that may be absent, and setting `key` to it where it is not.
pub open spec fn read_bound(key: &'static str, c: Seq<(Seq<char>, Tag)>, s: Seq<u8>) -> Outcome<Seq<(Seq<char>, Tag)>> {
    match read_bool(s) {
        Outcome { value: Err(e), rest } => fail(e, rest),
        Outcome { value: Ok(false), rest } => done(c, rest),
        Outcome { value: Ok(true), rest } => match read_text(rest, MAX_TEXT_BYTES as nat) {
            Outcome { value: Err(e), rest } => fail(e, rest),
            Outcome { value: Ok(t), rest } => done(compound_put(c, key@, Tag::String(t)), rest),
        },
    }
}

/// Reading what a property has to be: a value, or between two bounds.
pub open spec fn read_property(s: Seq<u8>) -> Outcome<Tag> {
    match read_bool(s) {
        Outcome { value: Err(e), rest } => fail(e, rest),
        Outcome { value: Ok(true), rest } => match read_text(rest, MAX_TEXT_BYTES as nat) {
            Outcome { value: Err(e), rest } => fail(e, rest),
            Outcome { value: Ok(t), rest } => done(Tag::String(t), rest),
        },
        Outcome { value: Ok(false), rest } => match read_bound("min", Seq::empty(), rest) {
            Outcome { value: Err(e), rest } => fail(e, rest),
            Outcome { value: Ok(c), rest } => match read_bound("max", c, rest) {
                Outcome { value: Err(e), rest } => fail(e, rest),
                Outcome { value: Ok(c), rest } => done(Tag::Compound(c), rest),
            },
        },
    }
}

/// Reading `n` more properties behind those in `head`.
pub open spec fn read_properties(n: nat, s: Seq<u8>, head: Seq<(Seq<char>, Tag)>) -> Outcome<Tag>
    decreases n,
{
    if n == 0 {
        done(Tag::Compound(head), s)
    } else {
        match read_text(s, MAX_TEXT_BYTES as nat) {
            Outcome { value: Err(e), rest } => fail(e, rest),
            Outcome { value: Ok(name), rest } => if compound_get(head, name) is Some {
                fail(msg_name("Duplicate adventure state property: {}", name), rest)
            } else {
                match read_property(rest) {
                    Outcome { value: Err(e), rest } => fail(e, rest),
                    Outcome { value: Ok(t), rest } => read_properties((n - 1) as nat, rest, compound_put(head, name, t)),
                }
            },
        }
    }
}

/// How properties are counted.
pub open spec fn property_rule() -> CountRule {
    adventure_rule("Negative adventure state property count: {}", "adventure state property count {} exceeds 256")
}

/// Reading what the state of a block has to be.
pub open spec fn read_state(s: Seq<u8>) -> Outcome<Tag> {
    match read_count(property_rule(), s) {
        Outcome { value: Err(e), rest } => fail(e, rest),
        Outcome { value: Ok(n), rest } => read_properties(n, rest, Seq::empty()),
    }
}

/// Reading the names of `n` more component types behind those in `head`.
pub open spec fn read_component_names(n: nat, s: Seq<u8>, head: Seq<Tag>) -> Outcome<Seq<Tag>>
    decreases n,
{
    if n == 0 {
        done(head, s)
    } else {
        match read_var_int(s) {
            Outcome { value: Err(e), rest } => fail(e, rest),
            Outcome { value: Ok(v), rest } => match adventure_component(v) {
                Err(e) => fail(e, rest),
                Ok(k) => read_component_names((n - 1) as nat, rest, head.push(Tag::String(component_name(k)))),
            },
        }
    }
}

/// How hidden components are counted.
pub open spec fn tooltip_rule() -> CountRule {
    adventure_rule("Negative tooltip hidden component count: {}", "tooltip hidden component count {} exceeds 256")
}

/// The tag for the display of a tooltip.
pub open spec fn tooltip_tag(hides: bool, hidden: Seq<Tag>) -> Tag {
    Tag::Compound(compound_put(compound_put(Seq::empty(), "hide_tooltip"@, bool_tag(hides)), "hidden_components"@, Tag::List(hidden)))
}

/// Reading the display of a tooltip.
pub open spec fn read_tooltip(s: Seq<u8>) -> Outcome<Tag> {
    match read_bool(s) {
        Outcome { value: Err(e), rest } => fail(e, rest),
        Outcome { value: Ok(hides), rest } => match read_count(tooltip_rule(), rest) {
            Outcome { value: Err(e), rest } => fail(e, rest),
            Outcome { value: Ok(n), rest } => match read_component_names(n, rest, Seq::empty()) {
                Outcome { value: Err(e), rest } => fail(e, rest),
                Outcome { value: Ok(l), rest } => done(tooltip_tag(hides, l), rest),
            },
        },
    }
}

/// Reading the value of a component, as it is stored.
pub open spec fn read_exact_value(k: DataComponent, c: Ctx, s: Seq<u8>) -> Outcome<Tag>
    decreases c.budget, 4int, Format::Unit, 0int,
{
    if k == DataComponent::TooltipDisplay {
        read_tooltip(s)
    } else {
        match read_val(component_format(k), c, s) {
            Outcome { value: Err(e), rest } => fail(e, rest),
            Outcome { value: Ok(x), rest } => match data_to_tag(k, c.regs, x) {
                Some(t) => if untold_in(k, c.regs, x).len() == 0 {
                    done(t, rest)
                } else {
                    fail(msg("component has no stored form"), rest)
                },
                None => fail(msg("component has no stored form"), rest),
            },
        }
    }
}

/// Reading `n` more components behind those in `head`.
pub open spec fn read_exact(n: nat, c: Ctx, s: Seq<u8>, head: Seq<(Seq<char>, Tag)>) -> Outcome<Seq<(Seq<char>, Tag)>>
    decreases c.budget, 5int, Format::Unit, n,
{
    if n == 0 {
        done(head, s)
    } else {
        match read_var_int(s) {
            Outcome { value: Err(e), rest } => fail(e, rest),
            Outcome { value: Ok(v), rest } => match adventure_component(v) {
                Err(e) => fail(e, rest),
                Ok(k) => if compound_get(head, component_name(k)) is Some {
                    fail(msg_name("Duplicate adventure exact component: {}", component_name(k)), rest)
                } else {
                    match read_exact_value(k, c, rest) {
                        Outcome { value: Err(e), rest } => fail(e, rest),
                        Outcome { value: Ok(t), rest } => read_exact(
                            (n - 1) as nat,
                            c,
                            rest,
                            compound_put(head, component_name(k), t),
                        ),
                    }
                },
            },
        }
    }
}

/// How components that have to match are counted.
pub open spec fn exact_rule() -> CountRule {
    adventure_rule("Negative adventure exact component count: {}", "adventure exact component count {} exceeds 256")
}

/// How components that have to be there are counted.
pub open spec fn partial_rule() -> CountRule {
    adventure_rule("Negative adventure partial component count: {}", "adventure partial component count {} exceeds 256")
}

/// The compound with `key` set to `t`, where `set` says so.
pub open spec fn put_if(c: Seq<(Seq<char>, Tag)>, set: bool, key: &'static str, t: Tag) -> Seq<(Seq<char>, Tag)> {
    if set {
        compound_put(c, key@, t)
    } else {
        c
    }
}

/// Reading what the components have to be.
pub open spec fn read_components(c: Ctx, s: Seq<u8>) -> Outcome<Seq<(Seq<char>, Tag)>>
    decreases c.budget, 6int, Format::Unit, 0int,
{
    match read_count(exact_rule(), s) {
        Outcome { value: Err(e), rest } => fail(e, rest),
        Outcome { value: Ok(n), rest } => match read_exact(n, c, rest, Seq::empty()) {
            Outcome { value: Err(e), rest } => fail(e, rest),
            Outcome { value: Ok(exact), rest } => match read_count(partial_rule(), rest) {
                Outcome { value: Err(e), rest } => fail(e, rest),
                Outcome { value: Ok(m), rest } => match read_component_names(m, rest, Seq::empty()) {
                    Outcome { value: Err(e), rest } => fail(e, rest),
                    Outcome { value: Ok(partial), rest } => done(
                        put_if(
                            put_if(Seq::empty(), exact.len() > 0, "components", Tag::Compound(exact)),
                            partial.len() > 0,
                            "predicates",
                            Tag::List(partial),
                        ),
                        rest,
                    ),
                },
            },
        },
    }
}

/// Reading the tag that the data of a block has to match.
pub open spec fn read_data_tag(s: Seq<u8>) -> Outcome<Tag> {
    match read_nbt(s) {
        Outcome { value: Err(e), rest } => fail(e, rest),
        Outcome { value: Ok(None), rest } => fail(msg("Adventure predicate NBT is missing"), rest),
        Outcome { value: Ok(Some(Tag::Compound(c))), rest } => done(Tag::Compound(c), rest),
        Outcome { value: Ok(Some(_)), rest } => fail(msg("tag is not a compound"), rest),
    }
}

/// Reading what may be absent.
pub open spec fn read_present(s: Seq<u8>, one: spec_fn(Seq<u8>) -> Outcome<Tag>) -> Outcome<Option<Tag>> {
    match read_bool(s) {
        Outcome { value: Err(e), rest } => fail(e, rest),
        Outcome { value: Ok(false), rest } => done(None, rest),
        Outcome { value: Ok(true), rest } => match one(rest) {
            Outcome { value: Err(e), rest } => fail(e, rest),
            Outcome { value: Ok(t), rest } => done(Some(t), rest),
        },
    }
}

/// The compound with `key` set to `t`, where there is one.
pub open spec fn put_some(c: Seq<(Seq<char>, Tag)>, key: &'static str, t: Option<Tag>) -> Seq<(Seq<char>, Tag)> {
    match t {
        Some(t) => compound_put(c, key@, t),
        None => c,
    }
}

/// Reading a predicate.
pub open spec fn read_predicate(c: Ctx, s: Seq<u8>) -> Outcome<Tag>
    decreases c.budget, 7int, Format::Unit, 0int,
{
    match read_present(s, |s: Seq<u8>| read_blocks(c.regs, s)) {
        Outcome { value: Err(e), rest } => fail(e, rest),
        Outcome { value: Ok(blocks), rest } => match read_present(rest, |s: Seq<u8>| read_state(s)) {
            Outcome { value: Err(e), rest } => fail(e, rest),
            Outcome { value: Ok(state), rest } => match read_present(rest, |s: Seq<u8>| read_data_tag(s)) {
                Outcome { value: Err(e), rest } => fail(e, rest),
                Outcome { value: Ok(data), rest } => match read_components(c, rest) {
                    Outcome { value: Err(e), rest } => fail(e, rest),
                    Outcome { value: Ok(components), rest } => done(
                        Tag::Compound(
                            put_if(
                                put_some(put_some(put_some(Seq::empty(), "blocks", blocks), "state", state), "nbt", data),
                                components.len() > 0,
                                "components",
                                Tag::Compound(components),
                            ),
                        ),
                        rest,
                    ),
                },
            },
        },
    }
}

/// Reading `n` more predicates behind those in `head`.
pub open spec fn read_predicate_list(n: nat, c: Ctx, s: Seq<u8>, head: Seq<Tag>) -> Outcome<Val>
    decreases c.budget, 8int, Format::Unit, n,
{
    if n == 0 {
        done(Val::Nbt(Tag::List(head)), s)
    } else {
        match read_predicate(c, s) {
            Outcome { value: Err(e), rest } => fail(e, rest),
            Outcome { value: Ok(t), rest } => read_predicate_list((n - 1) as nat, c, rest, head.push(t)),
        }
    }
}

/// How predicates are counted.
pub open spec fn predicate_rule() -> CountRule {
    adventure_rule("Negative adventure predicate count: {}", "adventure predicate count {} exceeds 256")
}

/// Reading predicates.
pub open spec fn read_predicates(c: Ctx, s: Seq<u8>) -> Outcome<Val>
    decreases c.budget, 9int, Format::Unit, 0int,
{
    match read_count(predicate_rule(), s) {
        Outcome { value: Err(e), rest } => fail(e, rest),
        Outcome { value: Ok(n), rest } => read_predicate_list(n, c, rest, Seq::empty()),
    }
}

/// Appending the numbers of the blocks that the tags of `l` name, from the `i`th on.
pub open spec fn write_block_names(regs: Registries, out: Seq<u8>, l: Seq<Tag>, i: int) -> Sink
    decreases l.len() - i,
{
    if i < 0 || i >= l.len() {
        Sink { result: Ok(()), out }
    } else {
        match l[i] {
            Tag::String(name) => match find_block(regs, name) {
                Some(id) => write_block_names(regs, out + var_int(written_count(id as nat)), l, i + 1),
                None => refuse(wmsg_name("Unknown adventure block: {}", name), out),
            },
            _ => refuse(wmsg("Adventure block ID must be a string"), out),
        }
    }
}

/// Appending a set of blocks.
pub open spec fn write_blocks(regs: Registries, out: Seq<u8>, t: Tag) -> Sink {
    match t {
        Tag::String(name) => if "#"@.is_prefix_of(name) {
            put_text(out + var_int(0), name.skip("#"@.len() as int), MAX_TEXT_BYTES as nat)
        } else {
            match find_block(regs, name) {
                Some(id) => put(out + var_int(2), var_int(written_count(id as nat))),
                None => refuse(wmsg_name("Unknown adventure block: {}", name), out),
            }
        },
        Tag::List(l) => if l.len() > MAX_ADVENTURE {
            refuse(wmsg("Too many adventure block IDs"), out)
        } else {
            write_block_names(regs, out + var_int(l.len() as int + 1), l, 0)
        },
        _ => refuse(wmsg("Adventure blocks must be a string or list"), out),
    }
}

/// Whether every key of a compound is one of two.
pub open spec fn only_keys(c: Seq<(Seq<char>, Tag)>, a: Seq<char>, b: Seq<char>) -> bool {
    forall|i: int| 0 <= i < c.len() ==> (#[trigger] c[i]).0 == a || c[i].0 == b
}

/// The text under a key.
pub open spec fn text_under(c: Seq<(Seq<char>, Tag)>, key: &'static str) -> Option<Seq<char>> {
    match compound_get(c, key@) {
        Some(Tag::String(t)) => Some(t),
        _ => None,
    }
}

/// Appending a text that may be absent.
pub open spec fn write_bound(out: Seq<u8>, t: Option<Seq<char>>) -> Sink {
    match t {
        Some(t) => put_text(out + flag(true), t, MAX_TEXT_BYTES as nat),
        None => put(out, flag(false)),
    }
}

/// Appending what a property has to be.
pub open spec fn write_property(out: Seq<u8>, name: Seq<char>, t: Tag) -> Sink {
    match t {
        Tag::String(v) => put_text(out + flag(true), v, MAX_TEXT_BYTES as nat),
        Tag::Compound(range) => if !only_keys(range, "min"@, "max"@) {
            refuse(wmsg_name("Unknown adventure state range field: {}", name), out)
        } else {
            match write_bound(out + flag(false), text_under(range, "min")) {
                Sink { result: Err(e), out } => refuse(e, out),
                Sink { result: Ok(_), out } => write_bound(out, text_under(range, "max")),
            }
        },
        _ => refuse(wmsg_name("Invalid adventure state value: {}", name), out),
    }
}

/// Appending the properties of `c` from the `i`th on.
pub open spec fn write_properties(out: Seq<u8>, c: Seq<(Seq<char>, Tag)>, i: int) -> Sink
    decreases c.len() - i,
{
    if i < 0 || i >= c.len() {
        Sink { result: Ok(()), out }
    } else {
        match put_text(out, c[i].0, MAX_TEXT_BYTES as nat) {
            Sink { result: Err(e), out } => refuse(e, out),
            Sink { result: Ok(_), out } => match write_property(out, c[i].0, c[i].1) {
                Sink { result: Err(e), out } => refuse(e, out),
                Sink { result: Ok(_), out } => write_properties(out, c, i + 1),
            },
        }
    }
}

/// Appending what the state of a block has to be.
pub open spec fn write_state(out: Seq<u8>, t: Tag) -> Sink {
    match t {
        Tag::Compound(c) => if c.len() > MAX_ADVENTURE {
            refuse(wmsg("Too many adventure state properties"), out)
        } else {
            write_properties(out + var_int(c.len() as int), c, 0)
        },
        _ => refuse(wmsg("Adventure state must be a compound"), out),
    }
}

/// Appending the numbers of the component types that the tags of `l` name, from the `i`th on.
pub open spec fn write_component_names(out: Seq<u8>, l: Seq<Tag>, i: int, wrong: &'static str) -> Sink
    decreases l.len() - i,
{
    if i < 0 || i >= l.len() {
        Sink { result: Ok(()), out }
    } else {
        match l[i] {
            Tag::String(name) => match component_of_name(name) {
                Some(k) => write_component_names(out + var_int(component_id(k) as int), l, i + 1, wrong),
                None => refuse(wmsg_name("Unknown data component in adventure predicate: {}", name), out),
            },
            _ => refuse(wmsg(wrong), out),
        }
    }
}

/// Appending the display of a tooltip.
pub open spec fn write_tooltip(out: Seq<u8>, c: Seq<(Seq<char>, Tag)>) -> Sink {
    match compound_get(c, "hidden_components"@) {
        Some(Tag::List(hidden)) => match bool_of(compound_get(c, "hide_tooltip"@)) {
            None => refuse(wmsg("TooltipDisplay matcher is missing hide_tooltip"), out),
            Some(hides) => if !only_keys(c, "hide_tooltip"@, "hidden_components"@) {
                refuse(wmsg("Unknown TooltipDisplay matcher field"), out)
            } else if hidden.len() > i32::MAX {
                refuse(wmsg("TooltipDisplay hidden component count overflow"), out + flag(hides))
            } else {
                write_component_names(
                    out + flag(hides) + var_int(hidden.len() as int),
                    hidden,
                    0,
                    "TooltipDisplay hidden component ID must be a string",
                )
            },
        },
        _ => refuse(wmsg("TooltipDisplay matcher is missing hidden_components"), out),
    }
}

/// Appending the components of `m` from the `i`th on.
pub open spec fn write_exact(c: Ctx, out: Seq<u8>, m: Seq<(Seq<char>, Tag)>, i: int) -> Sink
    decreases c.budget, 5int, Format::Unit, m.len() - i,
{
    if i < 0 || i >= m.len() {
        Sink { result: Ok(()), out }
    } else {
        match component_of_name(m[i].0) {
            None => refuse(wmsg_name("Unknown data component in adventure predicate: {}", m[i].0), out),
            Some(k) => match write_exact_value(k, m[i].0, c, out + var_int(component_id(k) as int), m[i].1) {
                Sink { result: Err(e), out } => refuse(e, out),
                Sink { result: Ok(_), out } => write_exact(c, out, m, i + 1),
            },
        }
    }
}

/// Appending the value of a component that is given as it is stored.
pub open spec fn write_exact_value(k: DataComponent, name: Seq<char>, c: Ctx, out: Seq<u8>, t: Tag) -> Sink
    decreases c.budget, 4int, Format::Unit, 0int,
{
    if k == DataComponent::TooltipDisplay && t is Compound {
        write_tooltip(out, t->Compound_0)
    } else {
        match data_from_tag(k, c.regs, t) {
            None => refuse(wmsg_name("Invalid data for component {}", name), out),
            Some(x) => write_val(component_format(k), c, out, x),
        }
    }
}

/// The entries of the compound under a key; none where there is nothing.
pub open spec fn entries_under(c: Seq<(Seq<char>, Tag)>, key: &'static str) -> Option<Seq<(Seq<char>, Tag)>> {
    match compound_get(c, key@) {
        None => Some(Seq::empty()),
        Some(Tag::Compound(m)) => Some(m),
        Some(_) => None,
    }
}

/// The list under a key; an empty one where there is nothing.
pub open spec fn list_under(c: Seq<(Seq<char>, Tag)>, key: &'static str) -> Option<Seq<Tag>> {
    match compound_get(c, key@) {
        None => Some(Seq::empty()),
        Some(Tag::List(l)) => Some(l),
        Some(_) => None,
    }
}

/// Appending what the components have to be.
pub open spec fn write_components(c: Ctx, out: Seq<u8>, t: Tag) -> Sink
    decreases c.budget, 6int, Format::Unit, 0int,
{
    match t {
        Tag::Compound(m) => match entries_under(m, "components") {
            None => refuse(wmsg("Adventure exact components must be a compound"), out),
            Some(exact) => match list_under(m, "predicates") {
                None => refuse(wmsg("Adventure partial components must be a list"), out),
                Some(partial) => if !only_keys(m, "components"@, "predicates"@) {
                    refuse(wmsg("Unknown adventure component matcher field"), out)
                } else if exact.len() > MAX_ADVENTURE {
                    refuse(wmsg("Too many adventure exact components"), out)
                } else {
                    match write_exact(c, out + var_int(exact.len() as int), exact, 0) {
                        Sink { result: Err(e), out } => refuse(e, out),
                        Sink { result: Ok(_), out } => if partial.len() > MAX_ADVENTURE {
                            refuse(wmsg("Too many adventure partial components"), out)
                        } else {
                            write_component_names(
                                out + var_int(partial.len() as int),
                                partial,
                                0,
                                "Adventure partial component ID must be a string",
                            )
                        },
                    }
                },
            },
        },
        _ => refuse(wmsg("Adventure components must be a compound"), out),
    }
}

/// Whether every key of a compound is one of a predicate.
pub open spec fn predicate_keys(c: Seq<(Seq<char>, Tag)>) -> bool {
    forall|i: int|
        0 <= i < c.len() ==> (#[trigger] c[i]).0 == "blocks"@ || c[i].0 == "state"@ || c[i].0 == "nbt"@ || c[i].0 == "components"@
}

/// Appending the tag that the data of a block has to match.
pub open spec fn write_data_tag(out: Seq<u8>, t: Tag) -> Sink {
    match t {
        Tag::Compound(_) => put_nbt(out, t),
        _ => refuse(wmsg("Adventure predicate NBT must be a compound"), out),
    }
}

/// Appending what may be absent.
pub open spec fn write_present(out: Seq<u8>, t: Option<Tag>, one: spec_fn(Seq<u8>, Tag) -> Sink) -> Sink {
    match t {
        Some(t) => one(out + flag(true), t),
        None => put(out, flag(false)),
    }
}

/// Appending a predicate.
pub open spec fn write_predicate(c: Ctx, out: Seq<u8>, m: Seq<(Seq<char>, Tag)>) -> Sink
    decreases c.budget, 7int, Format::Unit, 0int,
{
    if !predicate_keys(m) {
        refuse(wmsg("Unknown adventure predicate field"), out)
    } else {
        match write_present(out, compound_get(m, "blocks"@), |out: Seq<u8>, t: Tag| write_blocks(c.regs, out, t)) {
            Sink { result: Err(e), out } => refuse(e, out),
            Sink { result: Ok(_), out } => match write_present(
                out,
                compound_get(m, "state"@),
                |out: Seq<u8>, t: Tag| write_state(out, t),
            ) {
                Sink { result: Err(e), out } => refuse(e, out),
                Sink { result: Ok(_), out } => match write_present(
                    out,
                    compound_get(m, "nbt"@),
                    |out: Seq<u8>, t: Tag| write_data_tag(out, t),
                ) {
                    Sink { result: Err(e), out } => refuse(e, out),
                    Sink { result: Ok(_), out } => match compound_get(m, "components"@) {
                        Some(t) => write_components(c, out, t),
                        None => put(out + var_int(0), var_int(0)),
                    },
                },
            },
        }
    }
}

/// Appending the predicates of `l` from the `i`th on.
pub open spec fn write_predicate_list(c: Ctx, out: Seq<u8>, l: Seq<Tag>, i: int) -> Sink
    decreases c.budget, 8int, Format::Unit, l.len() - i,
{
    if i < 0 || i >= l.len() {
        Sink { result: Ok(()), out }
    } else {
        match l[i] {
            Tag::Compound(m) => match write_predicate(c, out, m) {
                Sink { result: Err(e), out } => refuse(e, out),
                Sink { result: Ok(_), out } => write_predicate_list(c, out, l, i + 1),
            },
            _ => refuse(wmsg("Adventure predicate must be a compound"), out),
        }
    }
}

/// Appending predicates.
pub open spec fn write_predicates(c: Ctx, out: Seq<u8>, t: Tag) -> Sink
    decreases c.budget, 9int, Format::Unit, 0int,
{
    match t {
        Tag::List(l) => if l.len() > MAX_ADVENTURE {
            refuse(wmsg("Too many adventure predicates"), out)
        } else {
            write_predicate_list(c, out + var_int(l.len() as int), l, 0)
        },
        Tag::Compound(m) => write_predicate(c, out + var_int(1), m),
        _ => refuse(wmsg("Adventure predicate must be a compound or list"), out),
    }
}

} // verus!
