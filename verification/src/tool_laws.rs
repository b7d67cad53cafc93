//! What the rules of a tool decide.
use vstd::prelude::*;
use crate::codec::{vals, DataComponentCodec};
use crate::elements::{id_set_val, id_vals, IDSet};
use crate::equipment::{ToolImpl, ToolRule};
use crate::format::Val;
use crate::persist::{as_bits, as_list, first, second};
use crate::stack_data::{rule_drops, rule_speed};
use crate::stack_use::set_holds;

verus! {

/// The name of a tag without the mark in front of it.
pub open spec fn unmarked(t: Seq<char>) -> Seq<char> {
    if t.len() > 0 && t[0] == '#' {
        t.skip(1)
    } else {
        t
    }
}

/// Whether a set holds an entry: it lists its number, or it names one of its tags.
pub open spec fn lists(s: IDSet, id: u16, tags: Seq<String>) -> bool {
    match s {
        IDSet::Tag(t) => exists|k: int| 0 <= k < tags.len() && (#[trigger] tags[k])@ == unmarked(t@),
        IDSet::IDs(l) => exists|k: int| 0 <= k < l@.len() && #[trigger] l@[k] == id,
    }
}

/// A set holds an entry whose number it lists or one of whose tags it names, and no other.
pub proof fn lemma_set_holds(s: IDSet, id: u16, tags: Seq<String>)
    ensures
        set_holds(id_set_val(s), id as int, tags) <==> lists(s, id, tags),
{
    match s {
        IDSet::Tag(t) => {
            reveal_strlit("#");
            let mark = "#"@;
            assert(mark =~= seq!['#']);
            if t@.len() > 0 && t@[0] == '#' {
                assert(t@.subrange(0, 1) =~= mark);
            } else if t@.len() > 0 {
                assert(t@.subrange(0, 1)[0] == t@[0]);
            }
        },
        IDSet::IDs(l) => {
            let x = id_vals(l@);
            if lists(s, id, tags) {
                let k = choose|k: int| 0 <= k < l@.len() && #[trigger] l@[k] == id;
                assert(x[k] == Val::Int(id as int));
            }
            if x.contains(Val::Int(id as int)) {
                let k = choose|k: int| 0 <= k < x.len() && x[k] == Val::Int(id as int);
                assert(x[k] == Val::Int(l@[k] as int));
            }
        },
    }
}

proof fn lemma_drops_from(rules: Seq<ToolRule>, id: u16, tags: Seq<String>, i: int, j: int)
    requires
        0 <= i <= j <= rules.len(),
        forall|k: int| i <= k < j ==> !(lists((#[trigger] rules[k]).blocks, id, tags) && rules[k].correct_for_drops is Some),
    ensures
        rule_drops(vals::<ToolRule>(rules), id as int, tags, i) == rule_drops(vals::<ToolRule>(rules), id as int, tags, j),
    decreases j - i,
{
    if i < j {
        assert(vals::<ToolRule>(rules)[i] == ToolRule::val(rules[i]));
        lemma_set_holds(rules[i].blocks, id, tags);
        lemma_drops_from(rules, id, tags, i + 1, j);
    }
}

/// The first rule that applies to a block and says whether it drops decides, whichever way it says and
/// whatever later rules say.
pub proof fn lemma_first_rule_decides_drops(tool: ToolImpl, id: u16, tags: Seq<String>, j: int)
    requires
        0 <= j < tool.rules@.len(),
        lists(tool.rules@[j].blocks, id, tags),
        tool.rules@[j].correct_for_drops is Some,
        forall|k: int| 0 <= k < j ==> !(lists((#[trigger] tool.rules@[k]).blocks, id, tags) && tool.rules@[k].correct_for_drops is Some),
    ensures
        rule_drops(as_list(first(ToolImpl::val(tool))), id as int, tags, 0) == tool.rules@[j].correct_for_drops->0,
{
    lemma_drops_from(tool.rules@, id, tags, 0, j);
    assert(vals::<ToolRule>(tool.rules@)[j] == ToolRule::val(tool.rules@[j]));
    lemma_set_holds(tool.rules@[j].blocks, id, tags);
}

/// A block of which no rule says that it drops does not drop.
pub proof fn lemma_no_rule_no_drops(tool: ToolImpl, id: u16, tags: Seq<String>)
    requires
        forall|k: int|
            0 <= k < tool.rules@.len() ==> !(lists((#[trigger] tool.rules@[k]).blocks, id, tags) && tool.rules@[k].correct_for_drops is Some),
    ensures
        !rule_drops(as_list(first(ToolImpl::val(tool))), id as int, tags, 0),
{
    lemma_drops_from(tool.rules@, id, tags, 0, tool.rules@.len() as int);
}

proof fn lemma_speed_from(rules: Seq<ToolRule>, id: u16, tags: Seq<String>, i: int, j: int)
    requires
        0 <= i <= j <= rules.len(),
        forall|k: int| i <= k < j ==> !(lists((#[trigger] rules[k]).blocks, id, tags) && rules[k].speed is Some),
    ensures
        rule_speed(vals::<ToolRule>(rules), id as int, tags, i) == rule_speed(vals::<ToolRule>(rules), id as int, tags, j),
    decreases j - i,
{
    if i < j {
        assert(vals::<ToolRule>(rules)[i] == ToolRule::val(rules[i]));
        lemma_set_holds(rules[i].blocks, id, tags);
        lemma_speed_from(rules, id, tags, i + 1, j);
    }
}

/// The first rule that applies to a block and gives a speed decides how fast it is mined.
pub proof fn lemma_first_rule_decides_speed(tool: ToolImpl, id: u16, tags: Seq<String>, j: int)
    requires
        0 <= j < tool.rules@.len(),
        lists(tool.rules@[j].blocks, id, tags),
        tool.rules@[j].speed is Some,
        forall|k: int| 0 <= k < j ==> !(lists((#[trigger] tool.rules@[k]).blocks, id, tags) && tool.rules@[k].speed is Some),
    ensures
        rule_speed(as_list(first(ToolImpl::val(tool))), id as int, tags, 0) == Some(tool.rules@[j].speed->0 as int),
{
    lemma_speed_from(tool.rules@, id, tags, 0, j);
    assert(vals::<ToolRule>(tool.rules@)[j] == ToolRule::val(tool.rules@[j]));
    lemma_set_holds(tool.rules@[j].blocks, id, tags);
}

/// A block of which no rule gives a speed is mined at the speed of the tool.
pub proof fn lemma_no_rule_no_speed(tool: ToolImpl, id: u16, tags: Seq<String>)
    requires
        forall|k: int|
            0 <= k < tool.rules@.len() ==> !(lists((#[trigger] tool.rules@[k]).blocks, id, tags) && tool.rules@[k].speed is Some),
    ensures
        rule_speed(as_list(first(ToolImpl::val(tool))), id as int, tags, 0) is None,
        as_bits(first(second(ToolImpl::val(tool)))) == tool.default_mining_speed,
{
    lemma_speed_from(tool.rules@, id, tags, 0, tool.rules@.len() as int);
}

} // verus!
