//! Reading never makes the input longer.
use vstd::prelude::*;
use crate::format::{read_count, read_nbt, CountRule};
use crate::nbt_codec::lemma_payload_shrinks;
use crate::nbt_read::{java_unsigned, MAX_TAG_DEPTH};
use crate::wire::{read_bool, read_groups, read_text, read_var_int};

verus! {

proof fn lemma_groups_shrink(s: Seq<u8>, left: nat)
    ensures
        read_groups(s, left).rest.len() <= s.len(),
        read_groups(s, left).value is Ok ==> read_groups(s, left).rest.len() < s.len(),
    decreases left,
{
    if left > 0 && s.len() > 0 && s[0] >= 128 {
        lemma_groups_shrink(s.skip(1), (left - 1) as nat);
    }
}

pub broadcast proof fn lemma_var_int_shrinks(s: Seq<u8>)
    ensures
        #![trigger read_var_int(s)]
        read_var_int(s).rest.len() <= s.len(),
        read_var_int(s).value is Ok ==> read_var_int(s).rest.len() < s.len(),
{
    lemma_groups_shrink(s, 5);
}

pub broadcast proof fn lemma_bool_shrinks(s: Seq<u8>)
    ensures
        #![trigger read_bool(s)]
        read_bool(s).rest.len() <= s.len(),
        read_bool(s).value is Ok ==> read_bool(s).rest.len() < s.len(),
{
}

pub broadcast proof fn lemma_text_shrinks(s: Seq<u8>, bound: nat)
    ensures
        #![trigger read_text(s, bound)]
        read_text(s, bound).rest.len() <= s.len(),
        read_text(s, bound).value is Ok ==> read_text(s, bound).rest.len() < s.len(),
{
    lemma_groups_shrink(s, 5);
}

pub broadcast proof fn lemma_count_shrinks(rule: CountRule, s: Seq<u8>)
    ensures
        #![trigger read_count(rule, s)]
        read_count(rule, s).rest.len() <= s.len(),
        read_count(rule, s).value is Ok ==> read_count(rule, s).rest.len() < s.len(),
{
    lemma_groups_shrink(s, 5);
}

pub broadcast proof fn lemma_nbt_shrinks(s: Seq<u8>)
    ensures
        (#[trigger] read_nbt(s)).rest.len() <= s.len(),
{
    let id = java_unsigned(s, 1);
    if id.value is Ok {
        lemma_payload_shrinks(id.value->Ok_0 as u8, MAX_TAG_DEPTH as nat, None, id.rest, 0);
    }
}

pub broadcast group group_shrink {
    lemma_var_int_shrinks,
    lemma_bool_shrinks,
    lemma_text_shrinks,
    lemma_count_shrinks,
    lemma_nbt_shrinks,
}

} // verus!
