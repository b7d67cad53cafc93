//! The bound on the nesting of components decides nothing: no input is long enough to reach it.
use vstd::prelude::*;
use crate::components::component_format;
use crate::data_component::{component_name, component_of_id, DataComponent};
use crate::format::{deeper, inside, pair, read_added, read_any_sound, read_block_pos, read_count, read_effect, read_effect_details, read_id_set, read_ids, read_items, read_leaf, read_leveled, read_opt_text, read_profile_head, read_removed, read_slots, read_sound, read_template, read_uuid, read_val, set_entry, skip_damage, skip_id_set, skip_var_ints, slot_rule, ComponentVal, Ctx, Format, PatchVal, SoundRule, Val, MAX_EFFECT_DEPTH};
use crate::nbt_tag::{compound_put, Tag};
use crate::predicate::{adventure_component, exact_rule, partial_rule, predicate_rule, property_rule, read_block_names, read_blocks, read_component_names, read_components, read_data_tag, read_exact, read_exact_value, read_predicate, read_predicate_list, read_predicates, read_present, read_properties, read_property, read_state, read_tooltip, tooltip_rule};
use crate::registry::{Registries, RegistryKind};
use crate::shrink::group_shrink;
use crate::wire::{read_bool, read_text, read_var_int, Outcome, MAX_TEXT_BYTES};

verus! {

broadcast use group_shrink;

proof fn lemma_ids_shrink(kind: RegistryKind, regs: Registries, n: nat, s: Seq<u8>, head: Seq<Val>)
    ensures
        read_ids(kind, regs, n, s, head).rest.len() <= s.len(),
    decreases n,
{
    if n > 0 && read_var_int(s).value is Ok {
        let v = read_var_int(s).value->Ok_0;
        lemma_ids_shrink(kind, regs, (n - 1) as nat, read_var_int(s).rest, head.push(Val::Int(v % 0x1_0000)));
    }
}

proof fn lemma_skips_shrink(n: nat, s: Seq<u8>)
    ensures
        skip_var_ints(n, s).rest.len() <= s.len(),
    decreases n,
{
    if n > 0 {
        lemma_skips_shrink((n - 1) as nat, read_var_int(s).rest);
    }
}

proof fn lemma_effect_shrinks(name: Seq<char>, left: nat, s: Seq<u8>)
    ensures
        read_effect_details(name, left, s).rest.len() <= s.len(),
    decreases left,
{
    let s1 = read_var_int(s).rest;
    let s2 = read_var_int(s1).rest;
    let s3 = read_bool(s2).rest;
    let s4 = read_bool(s3).rest;
    let s5 = read_bool(s4).rest;
    let s6 = read_bool(s5).rest;
    if left > 0 {
        lemma_effect_shrinks(name, (left - 1) as nat, s6);
    }
}

proof fn lemma_sound_shrinks(rule: SoundRule, regs: Registries, s: Seq<u8>)
    ensures
        read_sound(rule, regs, s).rest.len() <= s.len(),
{
    let a = read_any_sound(s);
    let b = read_any_sound(read_bool(s).rest);
    assert(a.rest.len() <= s.len());
    assert(b.rest.len() <= s.len());
}

proof fn lemma_id_set_shrinks(kind: RegistryKind, regs: Registries, s: Seq<u8>)
    ensures
        read_id_set(kind, regs, s).rest.len() <= s.len(),
{
    if read_var_int(s).value is Ok && read_var_int(s).value->Ok_0 > 0 {
        lemma_ids_shrink(kind, regs, (read_var_int(s).value->Ok_0 - 1) as nat, read_var_int(s).rest, Seq::empty());
    }
}

proof fn lemma_skipped_set_shrinks(s: Seq<u8>)
    ensures
        skip_id_set(s).rest.len() <= s.len(),
{
    if read_var_int(s).value is Ok && read_var_int(s).value->Ok_0 > 0 {
        lemma_skips_shrink((read_var_int(s).value->Ok_0 - 1) as nat, read_var_int(s).rest);
    }
}

proof fn lemma_small_shrink(unknown: &'static str, regs: Registries, s: Seq<u8>)
    ensures
        skip_damage(s).rest.len() <= s.len(),
        read_leveled(unknown, regs, s).rest.len() <= s.len(),
        read_block_pos(s).rest.len() <= s.len(),
{
}

proof fn lemma_status_shrinks(regs: Registries, s: Seq<u8>)
    ensures
        read_effect(regs, s).rest.len() <= s.len(),
{
    if read_var_int(s).value is Ok {
        lemma_effect_shrinks(regs.effects@[read_var_int(s).value->Ok_0]@, MAX_EFFECT_DEPTH as nat, read_var_int(s).rest);
    }
}

proof fn lemma_uuid_shrinks(s: Seq<u8>)
    ensures
        read_uuid(s).rest.len() <= s.len(),
{
}

proof fn lemma_profile_shrinks(s: Seq<u8>)
    ensures
        read_profile_head(s).rest.len() <= s.len(),
{
    let s1 = read_var_int(s).rest;
    let s2 = read_opt_text(s1).rest;
    assert(s2.len() <= s1.len());
    lemma_uuid_shrinks(s1);
    lemma_uuid_shrinks(read_bool(s2).rest);
}

proof fn lemma_leaf_shrinks(f: Format, regs: Registries, s: Seq<u8>)
    ensures
        read_leaf(f, regs, s).rest.len() <= s.len(),
{
    match f {
        Format::Sound(rule) => {
            lemma_sound_shrinks(rule, regs, s);
        },
        Format::IdSet(kind) => {
            lemma_id_set_shrinks(kind, regs, s);
        },
        Format::SkippedSet => {
            lemma_skipped_set_shrinks(s);
        },
        Format::SkippedDamage | Format::BlockPos => {
            lemma_small_shrink("", regs, s);
        },
        Format::Leveled(unknown) => {
            lemma_small_shrink(unknown, regs, s);
        },
        Format::Effect => {
            lemma_status_shrinks(regs, s);
        },
        Format::ProfileHead => {
            lemma_profile_shrinks(s);
        },
        _ => {},
    }
}

/// Whether two contexts differ only in how deeply components may be nested, and both allow more than
/// `n` bytes can hold.
pub open spec fn ample(a: Ctx, b: Ctx, n: nat) -> bool {
    a.regs == b.regs && a.depth == b.depth && a.budget >= n && b.budget >= n
}

proof fn lemma_removed_shrinks(n: nat, s: Seq<u8>, p: PatchVal)
    ensures
        read_removed(n, s, p).rest.len() <= s.len(),
    decreases n,
{
    if n > 0 && read_var_int(s).value is Ok {
        match component_of_id(read_var_int(s).value->Ok_0) {
            Some(k) => {
                lemma_removed_shrinks((n - 1) as nat, read_var_int(s).rest, set_entry(p, k, None));
            },
            None => {},
        }
    }
}

proof fn lemma_block_names_shrink(regs: Registries, n: nat, s: Seq<u8>, head: Seq<Tag>)
    ensures
        read_block_names(regs, n, s, head).rest.len() <= s.len(),
    decreases n,
{
    if n > 0 && read_var_int(s).value is Ok {
        let v = read_var_int(s).value->Ok_0;
        lemma_block_names_shrink(regs, (n - 1) as nat, read_var_int(s).rest, head.push(Tag::String(regs.blocks@[v].name@)));
    }
}

proof fn lemma_blocks_shrink(regs: Registries, s: Seq<u8>)
    ensures
        read_blocks(regs, s).rest.len() <= s.len(),
{
    if read_var_int(s).value is Ok && read_var_int(s).value->Ok_0 > 0 {
        lemma_block_names_shrink(regs, (read_var_int(s).value->Ok_0 - 1) as nat, read_var_int(s).rest, Seq::empty());
    }
}

proof fn lemma_properties_shrink(n: nat, s: Seq<u8>, head: Seq<(Seq<char>, Tag)>)
    ensures
        read_properties(n, s, head).rest.len() <= s.len(),
    decreases n,
{
    if n > 0 {
        match read_text(s, MAX_TEXT_BYTES as nat) {
            Outcome { value: Ok(name), rest } => {
                let o = read_property(rest);
                assert(o.rest.len() <= rest.len());
                if o.value is Ok {
                    lemma_properties_shrink((n - 1) as nat, o.rest, compound_put(head, name, o.value->Ok_0));
                }
            },
            _ => {},
        }
    }
}

proof fn lemma_names_shrink(n: nat, s: Seq<u8>, head: Seq<Tag>)
    ensures
        read_component_names(n, s, head).rest.len() <= s.len(),
    decreases n,
{
    if n > 0 && read_var_int(s).value is Ok {
        match adventure_component(read_var_int(s).value->Ok_0) {
            Ok(k) => {
                lemma_names_shrink((n - 1) as nat, read_var_int(s).rest, head.push(Tag::String(component_name(k))));
            },
            Err(_) => {},
        }
    }
}

proof fn lemma_tooltip_shrinks(s: Seq<u8>)
    ensures
        read_tooltip(s).rest.len() <= s.len(),
{
    let o = read_count(tooltip_rule(), read_bool(s).rest);
    if o.value is Ok {
        lemma_names_shrink(o.value->Ok_0, o.rest, Seq::empty());
    }
}

proof fn lemma_state_shrinks(s: Seq<u8>)
    ensures
        read_state(s).rest.len() <= s.len(),
{
    let o = read_count(property_rule(), s);
    if o.value is Ok {
        lemma_properties_shrink(o.value->Ok_0, o.rest, Seq::empty());
    }
}

/// How deeply components may be nested does not matter to what is read, as long as it is more than
/// the input has bytes; and reading never makes the input longer.
pub proof fn lemma_nesting_bound_decides_nothing(f: Format, a: Ctx, b: Ctx, s: Seq<u8>)
    requires
        ample(a, b, s.len() + 2),
    ensures
        read_val(f, a, s) == read_val(f, b, s),
        read_val(f, a, s).rest.len() <= s.len(),
    decreases a.budget, 0int, f, 0int,
{
    reveal(read_val);
    match f {
        Format::Pair(x, y) => {
            lemma_nesting_bound_decides_nothing(*x, a, b, s);
            let o = read_val(*x, a, s);
            if o.value is Ok {
                lemma_nesting_bound_decides_nothing(*y, a, b, o.rest);
            }
        },
        Format::Opt(x) => {
            if read_bool(s).value is Ok {
                lemma_nesting_bound_decides_nothing(*x, a, b, read_bool(s).rest);
            }
        },
        Format::List(rule, _, x) => {
            let o = read_count(rule, s);
            if o.value is Ok {
                lemma_items(*x, o.value->Ok_0, a, b, o.rest, Seq::empty());
            }
        },
        Format::Distinct(rule, _, x) => {
            let o = read_count(rule, s);
            if o.value is Ok {
                lemma_items(*x, o.value->Ok_0, a, b, o.rest, Seq::empty());
            }
        },
        Format::Choice(alts, _) => {
            let o = read_var_int(s);
            if o.value is Ok && 0 <= o.value->Ok_0 < alts.len() {
                lemma_nesting_bound_decides_nothing(alts[o.value->Ok_0], a, b, o.rest);
            }
        },
        Format::Fixed(x, _, _) => {
            lemma_nesting_bound_decides_nothing(*x, a, b, s);
        },
        Format::Slots => {
            let o = read_count(slot_rule(), s);
            if o.value is Ok {
                lemma_slots(0, o.value->Ok_0 as int, deeper(a), deeper(b), o.rest, Seq::empty());
            }
        },
        Format::Template => {
            lemma_template_nesting(deeper(a), deeper(b), s);
        },
        Format::Predicates => {
            lemma_predicates(deeper(a), deeper(b), s);
        },
        _ => {
            lemma_leaf_shrinks(f, a.regs, s);
        },
    }
}

proof fn lemma_items(f: Format, n: nat, a: Ctx, b: Ctx, s: Seq<u8>, head: Seq<Val>)
    requires
        ample(a, b, s.len() + 2),
    ensures
        read_items(f, n, a, s, head) == read_items(f, n, b, s, head),
        read_items(f, n, a, s, head).rest.len() <= s.len(),
    decreases a.budget, 0int, f, n + 1,
{
    reveal(read_val);
    if n > 0 {
        lemma_nesting_bound_decides_nothing(f, a, b, s);
        let o = read_val(f, a, s);
        if o.value is Ok {
            lemma_items(f, (n - 1) as nat, a, b, o.rest, head.push(o.value->Ok_0));
        }
    }
}

proof fn lemma_slots(i: int, n: int, a: Ctx, b: Ctx, s: Seq<u8>, head: Seq<Val>)
    requires
        ample(a, b, s.len() + 1),
    ensures
        read_slots(i, n, a, s, head) == read_slots(i, n, b, s, head),
        read_slots(i, n, a, s, head).rest.len() <= s.len(),
    decreases a.budget, 3int, Format::Unit, n - i,
{
    reveal(read_val);
    if i < n {
        match read_bool(s) {
            Outcome { value: Ok(true), rest } => {
                lemma_template_nesting(a, b, rest);
                let o = read_template(a, rest);
                if o.value is Ok {
                    lemma_slots(i + 1, n, a, b, o.rest, head.push(pair(Val::Int(i), o.value->Ok_0)));
                }
            },
            Outcome { value: Ok(false), rest } => {
                lemma_slots(i + 1, n, a, b, rest, head);
            },
            _ => {},
        }
    }
}

/// The same of a stack that is read inside a value.
pub proof fn lemma_template_nesting(a: Ctx, b: Ctx, s: Seq<u8>)
    requires
        ample(a, b, s.len() + 1),
    ensures
        read_template(a, s) == read_template(b, s),
        read_template(a, s).rest.len() <= s.len(),
    decreases a.budget, 2int, Format::Unit, 0int,
{
    reveal(read_val);
    if a.depth > 0 {
        let s1 = read_var_int(s).rest;
        let s2 = read_var_int(s1).rest;
        let s3 = read_var_int(s2).rest;
        let s4 = read_var_int(s3).rest;
        let add = read_var_int(s2).value;
        let remove = read_var_int(s3).value;
        if add is Ok && remove is Ok && add->Ok_0 >= 0 && remove->Ok_0 >= 0 {
            lemma_added(inside(a), inside(b), add->Ok_0 as nat, s4, Seq::empty());
            let o = read_added(inside(a), add->Ok_0 as nat, s4, Seq::empty());
            if o.value is Ok {
                lemma_removed_shrinks(remove->Ok_0 as nat, o.rest, o.value->Ok_0);
            }
        }
    }
}

proof fn lemma_added(a: Ctx, b: Ctx, n: nat, s: Seq<u8>, p: PatchVal)
    requires
        ample(a, b, s.len() + 1),
    ensures
        read_added(a, n, s, p) == read_added(b, n, s, p),
        read_added(a, n, s, p).rest.len() <= s.len(),
    decreases a.budget + 1, 1int, Format::Unit, n,
{
    reveal(read_val);
    if n > 0 && read_var_int(s).value is Ok {
        let rest = read_var_int(s).rest;
        match component_of_id(read_var_int(s).value->Ok_0) {
            Some(k) => {
                lemma_nesting_bound_decides_nothing(component_format(k), a, b, rest);
                let o = read_val(component_format(k), a, rest);
                if o.value is Ok {
                    lemma_added(
                        a,
                        b,
                        (n - 1) as nat,
                        o.rest,
                        set_entry(p, k, Some(ComponentVal { kind: k, val: o.value->Ok_0 })),
                    );
                }
            },
            None => {},
        }
    }
}

proof fn lemma_exact_value(k: DataComponent, a: Ctx, b: Ctx, s: Seq<u8>)
    requires
        ample(a, b, s.len() + 2),
    ensures
        read_exact_value(k, a, s) == read_exact_value(k, b, s),
        read_exact_value(k, a, s).rest.len() <= s.len(),
    decreases a.budget, 4int, Format::Unit, 0int,
{
    reveal(read_val);
    lemma_tooltip_shrinks(s);
    lemma_nesting_bound_decides_nothing(component_format(k), a, b, s);
}

proof fn lemma_exact(n: nat, a: Ctx, b: Ctx, s: Seq<u8>, head: Seq<(Seq<char>, Tag)>)
    requires
        ample(a, b, s.len() + 1),
    ensures
        read_exact(n, a, s, head) == read_exact(n, b, s, head),
        read_exact(n, a, s, head).rest.len() <= s.len(),
    decreases a.budget, 5int, Format::Unit, n,
{
    reveal(read_val);
    if n > 0 && read_var_int(s).value is Ok {
        let rest = read_var_int(s).rest;
        match adventure_component(read_var_int(s).value->Ok_0) {
            Ok(k) => {
                lemma_exact_value(k, a, b, rest);
                let o = read_exact_value(k, a, rest);
                if o.value is Ok {
                    lemma_exact((n - 1) as nat, a, b, o.rest, compound_put(head, component_name(k), o.value->Ok_0));
                }
            },
            Err(_) => {},
        }
    }
}

proof fn lemma_components(a: Ctx, b: Ctx, s: Seq<u8>)
    requires
        ample(a, b, s.len() + 1),
    ensures
        read_components(a, s) == read_components(b, s),
        read_components(a, s).rest.len() <= s.len(),
    decreases a.budget, 6int, Format::Unit, 0int,
{
    reveal(read_val);
    let o = read_count(exact_rule(), s);
    if o.value is Ok {
        lemma_exact(o.value->Ok_0, a, b, o.rest, Seq::empty());
        let m = read_count(partial_rule(), read_exact(o.value->Ok_0, a, o.rest, Seq::empty()).rest);
        if m.value is Ok {
            lemma_names_shrink(m.value->Ok_0, m.rest, Seq::empty());
        }
    }
}

proof fn lemma_predicate(a: Ctx, b: Ctx, s: Seq<u8>)
    requires
        ample(a, b, s.len() + 1),
    ensures
        read_predicate(a, s) == read_predicate(b, s),
        read_predicate(a, s).rest.len() <= s.len(),
    decreases a.budget, 7int, Format::Unit, 0int,
{
    reveal(read_val);
    lemma_blocks_shrink(a.regs, read_bool(s).rest);
    let s1 = read_present(s, |s: Seq<u8>| read_blocks(a.regs, s)).rest;
    assert(s1.len() <= s.len());
    lemma_state_shrinks(read_bool(s1).rest);
    let s2 = read_present(s1, |s: Seq<u8>| read_state(s)).rest;
    assert(s2.len() <= s1.len());
    let s3 = read_present(s2, |s: Seq<u8>| read_data_tag(s)).rest;
    assert(s3.len() <= s2.len());
    lemma_components(a, b, s3);
}

proof fn lemma_predicate_list(n: nat, a: Ctx, b: Ctx, s: Seq<u8>, head: Seq<Tag>)
    requires
        ample(a, b, s.len() + 1),
    ensures
        read_predicate_list(n, a, s, head) == read_predicate_list(n, b, s, head),
        read_predicate_list(n, a, s, head).rest.len() <= s.len(),
    decreases a.budget, 8int, Format::Unit, n,
{
    reveal(read_val);
    if n > 0 {
        lemma_predicate(a, b, s);
        let o = read_predicate(a, s);
        if o.value is Ok {
            lemma_predicate_list((n - 1) as nat, a, b, o.rest, head.push(o.value->Ok_0));
        }
    }
}

proof fn lemma_predicates(a: Ctx, b: Ctx, s: Seq<u8>)
    requires
        ample(a, b, s.len() + 1),
    ensures
        read_predicates(a, s) == read_predicates(b, s),
        read_predicates(a, s).rest.len() <= s.len(),
    decreases a.budget, 9int, Format::Unit, 0int,
{
    reveal(read_val);
    let o = read_count(predicate_rule(), s);
    if o.value is Ok {
        lemma_predicate_list(o.value->Ok_0, a, b, o.rest, Seq::empty());
    }
}

} // verus!
