//! What names, numbers and tags stand for.
use vstd::prelude::*;
use crate::command::{bytes_before, item_char, component_char, matching, stack_named, white_space, width, with_namespace, alphanumeric};
use crate::component_hash::component_hash;
use crate::data_component::component_id;
use crate::errors::{NbtError, ReadFault};
use crate::format::{check_patch_counts, is_component, plain_text, StackVal};
use crate::identifier::bare_name;
use crate::item_stack::ItemStack;
use crate::nbt_codec::{read_payload, utf16_len, TagParse};
use crate::nbt_read::charged;
use crate::nbt_tag::{compound_get, Tag};
use crate::registry::{component_id_in, component_id_out, find_block, find_block_from, find_version, item_id_in, item_id_out, Registries};
use crate::serializer::item_name_tag;
use crate::stack::effective;
use crate::stack_hash::{describes, HashView};
use crate::version::JavaMinecraftVersion;

verus! {

/// The plain text of a text component is the text itself, else what stands under `text`, else the key under
/// `translate`.
pub proof fn lemma_plain_text(s: Seq<char>, c: Seq<(Seq<char>, Tag)>)
    ensures
        plain_text(Tag::String(s)) == s,
        compound_get(c, "text"@) == Some(Tag::String(s)) ==> plain_text(Tag::Compound(c)) == s,
        compound_get(c, "text"@) is None && compound_get(c, "translate"@) == Some(Tag::String(s)) ==> plain_text(Tag::Compound(c)) == s,
        compound_get(c, "text"@) is None && compound_get(c, "translate"@) is None ==> plain_text(Tag::Compound(c)).len() == 0,
{
}

/// A text component is a text, a compound, or a list that is not empty.
pub proof fn lemma_text_components(t: Tag)
    ensures
        is_component(t) <==> t is String || t is Compound || (t matches Tag::List(l) && l.len() > 0),
{
}

/// The name of an item keeps its translation key, else its text.
pub proof fn lemma_item_names(s: Seq<char>, c: Seq<(Seq<char>, Tag)>)
    ensures
        item_name_tag(Tag::String(s)) == Tag::String(s),
        compound_get(c, "translate"@) == Some(Tag::String(s)) ==> item_name_tag(Tag::Compound(c)) == Tag::Compound(
            seq![("translate"@, Tag::String(s))],
        ),
        compound_get(c, "translate"@) is None && compound_get(c, "text"@) == Some(Tag::String(s)) ==> item_name_tag(Tag::Compound(c))
            == Tag::String(s),
{
}

proof fn lemma_version_from(regs: Registries, version: JavaMinecraftVersion, i: int)
    requires
        0 <= i,
    ensures
        match find_version(regs.versions@, version, i) {
            Some(j) => i <= j < regs.versions@.len() && regs.versions@[j].version == version && forall|k: int|
                i <= k < j ==> (#[trigger] regs.versions@[k]).version != version,
            None => forall|k: int| i <= k < regs.versions@.len() ==> (#[trigger] regs.versions@[k]).version != version,
        },
    decreases regs.versions@.len() - i,
{
    if i < regs.versions@.len() && regs.versions@[i].version != version {
        lemma_version_from(regs, version, i + 1);
    }
}

/// A version has its own numbers for items and components, in both directions; what it does not know is
/// zero.
pub proof fn lemma_numbers_of_a_version(regs: Registries, version: JavaMinecraftVersion, j: int, id: int)
    requires
        0 <= j < regs.versions@.len(),
        regs.versions@[j].version == version,
        forall|k: int| 0 <= k < j ==> (#[trigger] regs.versions@[k]).version != version,
        0 <= id,
    ensures
        ({
            let m = regs.versions@[j];
            &&& item_id_out(regs, id, version) == if id < m.items_out@.len() { m.items_out@[id] as int } else { 0 }
            &&& item_id_in(regs, id, version) == if id < m.items_in@.len() { m.items_in@[id] as int } else { 0 }
            &&& component_id_out(regs, id, version) == if id < m.components_out@.len() { m.components_out@[id] as int } else { 0 }
            &&& component_id_in(regs, id, version) == if id < m.components_in@.len() { m.components_in@[id] as int } else { 0 }
        }),
{
    lemma_version_from(regs, version, 0);
}

/// A version without numbers of its own has those of the current one.
pub proof fn lemma_numbers_of_the_current_version(regs: Registries, version: JavaMinecraftVersion, id: int)
    requires
        forall|k: int| 0 <= k < regs.versions@.len() ==> (#[trigger] regs.versions@[k]).version != version,
    ensures
        item_id_out(regs, id, version) == id && item_id_in(regs, id, version) == id && component_id_out(regs, id, version) == id
            && component_id_in(regs, id, version) == id,
{
    lemma_version_from(regs, version, 0);
}

proof fn lemma_block_from(regs: Registries, name: Seq<char>, i: int)
    requires
        0 <= i,
    ensures
        match find_block_from(regs.blocks@, name, i) {
            Some(j) => i <= j < regs.blocks@.len() && regs.blocks@[j].name@ == name && forall|k: int|
                i <= k < j ==> (#[trigger] regs.blocks@[k]).name@ != name,
            None => forall|k: int| i <= k < regs.blocks@.len() ==> (#[trigger] regs.blocks@[k]).name@ != name,
        },
    decreases regs.blocks@.len() - i,
{
    if i < regs.blocks@.len() && regs.blocks@[i].name@ != name {
        lemma_block_from(regs, name, i + 1);
    }
}

/// The name of a block stands for the first block that has it, with or without the namespace of the game.
pub proof fn lemma_block_is_found(regs: Registries, name: Seq<char>, j: int)
    ensures
        find_block(regs, name) == Some(j) <==> 0 <= j < regs.blocks@.len() && regs.blocks@[j].name@ == bare_name(name) && forall|k: int|
            0 <= k < j ==> (#[trigger] regs.blocks@[k]).name@ != bare_name(name),
        find_block(regs, name) is None <==> forall|k: int| 0 <= k < regs.blocks@.len() ==> (#[trigger] regs.blocks@[k]).name@ != bare_name(name),
{
    lemma_block_from(regs, bare_name(name), 0);
}

/// A patch may add and remove up to 256 components together.
pub proof fn lemma_patch_counts(add: int, remove: int, over: &'static str)
    requires
        add <= i32::MAX && remove <= i32::MAX,
    ensures
        check_patch_counts(add, remove, over) == Ok::<(), ReadFault>(()) <==> add >= 0 && remove >= 0 && add + remove <= 256,
{
}

/// What is charged is added up, and refused where it is more than the quota; without a quota nothing is.
pub proof fn lemma_charges(quota: nat, used: nat, amount: nat)
    requires
        quota <= usize::MAX,
    ensures
        charged(None, used, amount) == Ok::<nat, NbtError>(used),
        used + amount <= quota ==> charged(Some(quota), used, amount) == Ok::<nat, NbtError>(used + amount),
        used + amount > quota ==> charged(Some(quota), used, amount) == Err::<nat, NbtError>(NbtError::NbtQuotaExceeded { quota: quota as usize }),
{
}

/// What a tag costs, where it holds no others: eight and what it takes, a text 36 and two for each unit, an
/// array 24 and what its numbers take.
pub open spec fn cost(t: Tag) -> nat {
    match t {
        Tag::End => 8,
        Tag::Byte(_) => 9,
        Tag::Short(_) => 10,
        Tag::Int(_) => 12,
        Tag::Float(_) => 12,
        Tag::Long(_) => 16,
        Tag::Double(_) => 16,
        Tag::String(s) => 36 + 2 * utf16_len(s),
        Tag::ByteArray(l) => 24 + l.len(),
        Tag::IntArray(l) => 24 + 4 * l.len(),
        Tag::LongArray(l) => 24 + 8 * l.len(),
        _ => 0,
    }
}

/// A tag that holds no others is charged at its cost.
pub proof fn lemma_plain_tags_are_charged(id: u8, left: nat, quota: nat, s: Seq<u8>, used: nat)
    requires
        id != 9 && id != 10,
    ensures
        read_payload(id, left, Some(quota), s, used) matches TagParse { value: Ok(t), used: u, .. } ==> u == used + cost(t) && u <= quota,
        read_payload(id, left, None, s, used).used == used,
{
    reveal_with_fuel(read_payload, 1);
}

/// Lists and compounds are not read below the depth that is left, nor are types that are not known.
pub proof fn lemma_depth_is_bounded(id: u8, quota: Option<nat>, s: Seq<u8>, used: nat)
    ensures
        id == 9 || id == 10 ==> read_payload(id, 0, quota, s, used).value == Err::<Tag, NbtError>(NbtError::MaxDepthExceeded),
        id > 12 ==> forall|left: nat| (#[trigger] read_payload(id, left, quota, s, used)).value == Err::<Tag, NbtError>(NbtError::UnknownTagId(id)),
{
}

/// A character takes two units where it is beyond the basic plane, and else one.
pub proof fn lemma_units_add(t: Seq<char>, c: char)
    ensures
        utf16_len(Seq::empty()) == 0,
        utf16_len(t.push(c)) == utf16_len(t) + if (c as u32) < 0x1_0000 {
            1nat
        } else {
            2nat
        },
{
    assert(t.push(c).drop_last() =~= t);
}

/// The bytes before a place are those of the characters before it.
pub proof fn lemma_bytes_before(t: Seq<char>, n: int)
    requires
        0 <= n < t.len(),
    ensures
        bytes_before(t, 0) == 0,
        bytes_before(t, n + 1) == bytes_before(t, n) + width(t[n]),
        1 <= width(t[n]) <= 4,
        (t[n] as int) < 0x80 <==> width(t[n]) == 1,
{
}

proof fn lemma_matching_front(sounds: Seq<String>, more: Seq<String>, start: Seq<char>, n: nat)
    requires
        n <= sounds.len(),
    ensures
        matching(sounds + more, start, n) == matching(sounds, start, n),
    decreases n,
{
    if n > 0 {
        lemma_matching_front(sounds, more, start, (n - 1) as nat);
        assert((sounds + more)[n - 1] == sounds[n - 1]);
    }
}

proof fn lemma_matching_behind(sounds: Seq<String>, more: Seq<String>, start: Seq<char>, n: nat)
    requires
        n <= more.len(),
    ensures
        matching(sounds + more, start, sounds.len() + n) =~= matching(sounds, start, sounds.len()) + matching(more, start, n),
    decreases n,
{
    if n > 0 {
        lemma_matching_behind(sounds, more, start, (n - 1) as nat);
        assert((sounds + more)[sounds.len() + n - 1] == more[n - 1]);
    } else {
        lemma_matching_front(sounds, more, start, sounds.len());
    }
}

/// The sounds that are suggested are those whose full names begin with the text, in their order.
pub proof fn lemma_matching_one_by_one(sounds: Seq<String>, more: Seq<String>, start: Seq<char>, one: String)
    ensures
        matching(seq![one], start, 1) =~= if start.is_prefix_of("minecraft:"@ + one@) {
            seq!["minecraft:"@ + one@]
        } else {
            Seq::empty()
        },
        matching(sounds + more, start, (sounds + more).len()) == matching(sounds, start, sounds.len()) + matching(more, start, more.len()),
{
    reveal_with_fuel(matching, 2);
    lemma_matching_behind(sounds, more, start, more.len());
}

proof fn lemma_stack_from(l: Seq<(String, ItemStack)>, name: Seq<char>, i: int)
    requires
        0 <= i,
    ensures
        match stack_named(l, name, i) {
            Some(s) => exists|j: int| i <= j < l.len() && (#[trigger] l[j]).0@ == name && l[j].1 == s && forall|k: int|
                i <= k < j ==> (#[trigger] l[k]).0@ != name,
            None => forall|k: int| i <= k < l.len() ==> (#[trigger] l[k]).0@ != name,
        },
    decreases l.len() - i,
{
    if i < l.len() {
        if l[i].0@ != name {
            lemma_stack_from(l, name, i + 1);
            if stack_named(l, name, i) is Some {
                let s = stack_named(l, name, i)->0;
                let j = choose|j: int| i + 1 <= j < l.len() && (#[trigger] l[j]).0@ == name && l[j].1 == s && forall|k: int|
                    i + 1 <= k < j ==> (#[trigger] l[k]).0@ != name;
                assert(l[j].0@ == name);
            }
        } else {
            assert(l[i].0@ == name);
        }
    }
}

/// An argument of a command is the first one with its name.
pub proof fn lemma_argument_is_found(l: Seq<(String, ItemStack)>, name: Seq<char>)
    ensures
        match stack_named(l, name, 0) {
            Some(s) => exists|j: int| 0 <= j < l.len() && (#[trigger] l[j]).0@ == name && l[j].1 == s && forall|k: int|
                0 <= k < j ==> (#[trigger] l[k]).0@ != name,
            None => forall|k: int| 0 <= k < l.len() ==> (#[trigger] l[k]).0@ != name,
        },
{
    lemma_stack_from(l, name, 0);
}

/// The characters of the name of an item are letters, digits and five marks; that of a component has no
/// slash.
pub proof fn lemma_name_characters(c: char)
    ensures
        item_char(c) <==> alphanumeric(c) || c == '_' || c == ':' || c == '/' || c == '.' || c == '-',
        component_char(c) <==> alphanumeric(c) || c == '_' || c == ':' || c == '.' || c == '-',
        white_space(' ') && white_space('\n') && white_space('\t') && !white_space('a') && !white_space('[') && !white_space(',') && !white_space('='),
{
}

/// A name with a colon has a namespace; any other is in that of the game.
pub proof fn lemma_full_names(t: Seq<char>)
    ensures
        t.contains(':') ==> with_namespace(t) == t,
        !t.contains(':') ==> with_namespace(t) == "minecraft:"@ + t,
{
}

/// A description is that of a stack only where the item, the count and the checksum of every component that
/// was added are the same, and what was removed is.
pub proof fn lemma_description(h: HashView, s: StackVal, i: int)
    requires
        describes(Some(h), s),
        0 <= i < effective(s.patch, s.patch.len()).len(),
    ensures
        h.item_id == s.item.id,
        h.count == s.count,
        h.components.added.len() + h.components.removed.len() == effective(s.patch, s.patch.len()).len(),
        match effective(s.patch, s.patch.len())[i].1 {
            Some(c) => h.components.added.contains((component_id(effective(s.patch, s.patch.len())[i].0) as int, component_hash(c))),
            None => h.components.removed.contains(component_id(effective(s.patch, s.patch.len())[i].0) as int),
        },
{
    let p = effective(s.patch, s.patch.len());
    assert(crate::stack_hash::entry_described(h.components, p, i));
}

/// A stack that holds nothing is described by nothing, and only such a one.
pub proof fn lemma_nothing_is_described(s: StackVal)
    ensures
        describes(None, s) <==> s.count == 0 || s.item.id == 0,
{
}

} // verus!
