//! The form in which components and stacks are stored: tags.
use vstd::prelude::*;
use crate::basic::{rarity_name, Rarity};
use crate::components::component_format;
use crate::data_component::{component_id, component_name, component_of_id, component_of_name, DataComponent};
use crate::flat::{flat_kind, flat_read, flat_write};
use crate::float::{float_of_float, float_of_int, float_to_int};
use crate::format::{dye_id, dye_name, effect_val, is_component, optional, pair, plain_text, ComponentVal, PatchVal, Sink, StackVal, Val};
use crate::identifier::{bare_name, identifier_of};
use crate::item_stack::AIR_ID;
use crate::nbt_tag::{bool_of, bool_tag, compound_get, compound_put, key_index, Tag};
use crate::registry::{find_block_from, find_key, find_name, Registries, StoredForm};
use crate::same::{key_of, last_place, tags_match};
use crate::utility::{firework_explosion_shape_name, FireworkExplosionShape};

verus! {

/// The entries of a compound.
pub type Entries = Seq<(Seq<char>, Tag)>;

/// A number as an integer of 32 bits: a long number by its low bits, a floating-point number
/// truncated.
pub open spec fn tag_i32(t: Tag) -> Option<int> {
    match t {
        Tag::Byte(v) => Some(v),
        Tag::Short(v) => Some(v),
        Tag::Int(v) => Some(v),
        Tag::Long(v) => Some(low_i32(v)),
        Tag::Float(b) => Some(float_to_int(4, b, i32::MIN as int, i32::MAX as int)),
        Tag::Double(b) => Some(float_to_int(8, b, i32::MIN as int, i32::MAX as int)),
        _ => None,
    }
}

/// The low 32 bits of a number, as a signed number.
pub open spec fn low_i32(v: int) -> int {
    if v % 0x1_0000_0000 < 0x8000_0000 {
        v % 0x1_0000_0000
    } else {
        v % 0x1_0000_0000 - 0x1_0000_0000
    }
}

/// A number as an integer of 64 bits.
pub open spec fn tag_i64(t: Tag) -> Option<int> {
    match t {
        Tag::Byte(v) => Some(v),
        Tag::Short(v) => Some(v),
        Tag::Int(v) => Some(v),
        Tag::Long(v) => Some(v),
        Tag::Float(b) => Some(float_to_int(4, b, i64::MIN as int, i64::MAX as int)),
        Tag::Double(b) => Some(float_to_int(8, b, i64::MIN as int, i64::MAX as int)),
        _ => None,
    }
}

/// A number as a floating-point number of 64 bits.
pub open spec fn tag_f64(t: Tag) -> Option<int> {
    match t {
        Tag::Byte(v) => Some(float_of_int(8, v)),
        Tag::Short(v) => Some(float_of_int(8, v)),
        Tag::Int(v) => Some(float_of_int(8, v)),
        Tag::Long(v) => Some(float_of_int(8, v)),
        Tag::Float(b) => Some(float_of_float(8, 4, b)),
        Tag::Double(b) => Some(b),
        _ => None,
    }
}

/// A number as a floating-point number of 32 bits.
pub open spec fn tag_f32(t: Tag) -> Option<int> {
    match t {
        Tag::Byte(v) => Some(float_of_int(4, v)),
        Tag::Short(v) => Some(float_of_int(4, v)),
        Tag::Int(v) => Some(float_of_int(4, v)),
        Tag::Long(v) => Some(float_of_int(4, v)),
        Tag::Float(b) => Some(b),
        Tag::Double(b) => Some(float_of_float(4, 8, b)),
        _ => None,
    }
}

/// The text under a key.
pub open spec fn text_at(c: Entries, key: Seq<char>) -> Option<Seq<char>> {
    match compound_get(c, key) {
        Some(Tag::String(t)) => Some(t),
        _ => None,
    }
}

/// The text under a key, as a value that may be absent.
pub open spec fn opt_text_at(c: Entries, key: Seq<char>) -> Val {
    match text_at(c, key) {
        Some(t) => optional(Some(Val::Text(t))),
        None => Val::Absent,
    }
}

/// The list under a key; an empty one where there is none.
pub open spec fn list_at(c: Entries, key: Seq<char>) -> Seq<Tag> {
    match compound_get(c, key) {
        Some(Tag::List(l)) => l,
        _ => Seq::empty(),
    }
}

/// The numbers of the array under a key; none where there is no array.
pub open spec fn ints_at(c: Entries, key: Seq<char>) -> Seq<int> {
    match compound_get(c, key) {
        Some(Tag::IntArray(l)) => l,
        _ => Seq::empty(),
    }
}

/// Numbers as values.
pub open spec fn int_vals(l: Seq<int>) -> Seq<Val> {
    Seq::new(l.len(), |i: int| Val::Int(l[i]))
}

/// What a tag stands for among the items of a list.
pub enum Pick {
    Text,
    Line,
    Flag,
    Int,
    Float,
}

/// What a tag stands for, where it is of the right type.
pub open spec fn pick(p: Pick, t: Tag) -> Option<Val> {
    match (p, t) {
        (Pick::Text, Tag::String(s)) => Some(Val::Text(s)),
        (Pick::Line, Tag::String(s)) => Some(Val::Nbt(Tag::String(s))),
        (Pick::Flag, Tag::Byte(v)) => Some(Val::Bool(v != 0)),
        (Pick::Int, Tag::Int(v)) => Some(Val::Int(v)),
        (Pick::Float, Tag::Float(b)) => Some(Val::Float(4, b as nat)),
        _ => None,
    }
}

/// What the first `n` tags of a list stand for; those of another type are left out.
pub open spec fn picked(p: Pick, l: Seq<Tag>, n: nat) -> Seq<Val>
    decreases n,
{
    if n == 0 || n > l.len() {
        Seq::empty()
    } else {
        match pick(p, l[n - 1]) {
            Some(v) => picked(p, l, (n - 1) as nat).push(v),
            None => picked(p, l, (n - 1) as nat),
        }
    }
}

/// What a number that is stored under its own type stands for.
pub open spec fn int_from(t: Tag) -> Option<Val> {
    match t {
        Tag::Int(v) => Some(Val::Int(v)),
        _ => None,
    }
}

/// What a text that is stored as such stands for.
pub open spec fn text_from(t: Tag) -> Option<Val> {
    match t {
        Tag::String(s) => Some(Val::Text(s)),
        _ => None,
    }
}

/// What a tag that has to be a compound stands for.
pub open spec fn compound_from(t: Tag) -> Option<Val> {
    match t {
        Tag::Compound(c) => Some(Val::Nbt(Tag::Compound(c))),
        _ => None,
    }
}

/// The value under a key as a flag: `false` where there is nothing.
pub open spec fn flag_from(t: Option<Tag>) -> Option<bool> {
    match t {
        None => Some(false),
        Some(t) => bool_of(Some(t)),
    }
}

/// The numbers of the component types that the first `n` tags name, each once.
pub open spec fn hidden_from(l: Seq<Tag>, n: nat) -> Option<Seq<Val>>
    decreases n,
{
    if n == 0 || n > l.len() {
        Some(Seq::empty())
    } else {
        match (hidden_from(l, (n - 1) as nat), l[n - 1]) {
            (Some(head), Tag::String(s)) => match component_of_name(s) {
                Some(k) => {
                    let v = Val::Int(component_id(k) as int);
                    if head.contains(v) {
                        Some(head)
                    } else {
                        Some(head.push(v))
                    }
                },
                None => None,
            },
            _ => None,
        }
    }
}

/// The display of a tooltip.
pub open spec fn tooltip_from(t: Tag) -> Option<Val> {
    match t {
        Tag::Compound(c) => match flag_from(compound_get(c, "hide_tooltip"@)) {
            None => None,
            Some(hide) => match compound_get(c, "hidden_components"@) {
                None => Some(pair(Val::Bool(hide), Val::List(Seq::empty()))),
                Some(Tag::List(l)) => match hidden_from(l, l.len()) {
                    Some(hidden) => Some(pair(Val::Bool(hide), Val::List(hidden))),
                    None => None,
                },
                Some(_) => None,
            },
        },
        _ => None,
    }
}

/// The layers of a banner that the first `n` tags describe; what is no compound is left out.
pub open spec fn layers_from(l: Seq<Tag>, n: nat) -> Option<Seq<Val>>
    decreases n,
{
    if n == 0 || n > l.len() {
        Some(Seq::empty())
    } else {
        match (layers_from(l, (n - 1) as nat), l[n - 1]) {
            (None, _) => None,
            (Some(head), Tag::Compound(c)) => match (text_at(c, "pattern"@), text_at(c, "color"@)) {
                (Some(pattern), Some(color)) => Some(
                    head.push(
                        pair(
                            Val::Text(pattern),
                            Val::Int(
                                match dye_id(color, 0) {
                                    Some(i) => i,
                                    None => 0,
                                },
                            ),
                        ),
                    ),
                ),
                _ => None,
            },
            (Some(head), _) => Some(head),
        }
    }
}

/// What a resource pack selects a model by.
pub open spec fn model_data_from(t: Tag) -> Option<Val> {
    match t {
        Tag::Compound(c) => {
            let floats = list_at(c, "floats"@);
            let flags = list_at(c, "flags"@);
            let strings = list_at(c, "strings"@);
            let colors = match compound_get(c, "colors"@) {
                Some(Tag::IntArray(l)) => int_vals(l),
                Some(Tag::List(l)) => picked(Pick::Int, l, l.len()),
                _ => Seq::empty(),
            };
            Some(
                pair(
                    Val::List(picked(Pick::Float, floats, floats.len())),
                    pair(
                        Val::List(picked(Pick::Flag, flags, flags.len())),
                        pair(Val::List(picked(Pick::Text, strings, strings.len())), Val::List(colors)),
                    ),
                ),
            )
        },
        _ => None,
    }
}

/// The rarity with a name.
pub open spec fn rarity_from(t: Tag) -> Option<Val> {
    match t {
        Tag::String(s) => if s == rarity_name(Rarity::Common) {
            Some(Val::Int(0))
        } else if s == rarity_name(Rarity::Uncommon) {
            Some(Val::Int(1))
        } else if s == rarity_name(Rarity::Rare) {
            Some(Val::Int(2))
        } else if s == rarity_name(Rarity::Epic) {
            Some(Val::Int(3))
        } else {
            None
        },
        _ => None,
    }
}

/// How a map is processed.
pub open spec fn processing_from(t: Tag) -> Option<Val> {
    match t {
        Tag::Int(v) => Some(
            if v == 0 || v == 1 {
                optional(Some(Val::Int(v)))
            } else {
                Val::Absent
            },
        ),
        Tag::String(s) => Some(
            if s == "lock"@ {
                optional(Some(Val::Int(0)))
            } else if s == "scale"@ {
                optional(Some(Val::Int(1)))
            } else {
                Val::Absent
            },
        ),
        _ => None,
    }
}

/// The place that a lodestone compass points to.
pub open spec fn target_from(t: Option<Tag>) -> Val {
    match t {
        Some(Tag::Compound(c)) => match (text_at(c, "dimension"@), compound_get(c, "pos"@)) {
            (Some(dimension), Some(Tag::IntArray(p))) => if p.len() == 3 {
                optional(Some(pair(Val::Text(dimension), pair(Val::Int(p[0]), pair(Val::Int(p[1]), Val::Int(p[2]))))))
            } else {
                Val::Absent
            },
            _ => Val::Absent,
        },
        _ => Val::Absent,
    }
}

/// What a lodestone compass points to.
pub open spec fn tracker_from(t: Tag) -> Option<Val> {
    match t {
        Tag::Compound(c) => Some(
            pair(
                target_from(compound_get(c, "target"@)),
                Val::Bool(
                    match bool_of(compound_get(c, "tracked"@)) {
                        Some(b) => b,
                        None => true,
                    },
                ),
            ),
        ),
        _ => None,
    }
}

/// The number of the shape with a name.
pub open spec fn shape_from(s: Seq<char>) -> Option<int> {
    if s == firework_explosion_shape_name(FireworkExplosionShape::SmallBall) {
        Some(0int)
    } else if s == firework_explosion_shape_name(FireworkExplosionShape::LargeBall) {
        Some(1int)
    } else if s == firework_explosion_shape_name(FireworkExplosionShape::Star) {
        Some(2int)
    } else if s == firework_explosion_shape_name(FireworkExplosionShape::Creeper) {
        Some(3int)
    } else if s == firework_explosion_shape_name(FireworkExplosionShape::Burst) {
        Some(4int)
    } else {
        None
    }
}

/// A flag under a key, `false` where there is none.
pub open spec fn flag_at(c: Entries, key: Seq<char>) -> bool {
    bool_of(compound_get(c, key)) == Some(true)
}

/// An explosion of a firework.
pub open spec fn explosion_from(t: Tag) -> Option<Val> {
    match t {
        Tag::Compound(c) => match text_at(c, "shape"@) {
            None => None,
            Some(s) => match shape_from(s) {
                None => None,
                Some(shape) => Some(
                    pair(
                        Val::Int(shape),
                        pair(
                            Val::List(int_vals(ints_at(c, "colors"@))),
                            pair(
                                Val::List(int_vals(ints_at(c, "fade_colors"@))),
                                pair(Val::Bool(flag_at(c, "has_trail"@)), Val::Bool(flag_at(c, "has_twinkle"@))),
                            ),
                        ),
                    ),
                ),
            },
        },
        _ => None,
    }
}

/// The explosions that the first `n` tags describe; what describes none is left out.
pub open spec fn explosions_from(l: Seq<Tag>, n: nat) -> Seq<Val>
    decreases n,
{
    if n == 0 || n > l.len() {
        Seq::empty()
    } else {
        match explosion_from(l[n - 1]) {
            Some(v) => explosions_from(l, (n - 1) as nat).push(v),
            None => explosions_from(l, (n - 1) as nat),
        }
    }
}

/// A firework.
pub open spec fn fireworks_from(t: Tag) -> Option<Val> {
    match t {
        Tag::Compound(c) => Some(
            pair(
                Val::Int(
                    match compound_get(c, "flight_duration"@) {
                        Some(Tag::Byte(v)) => v,
                        Some(Tag::Int(v)) => v,
                        _ => 1,
                    },
                ),
                Val::List(explosions_from(list_at(c, "explosions"@), list_at(c, "explosions"@).len())),
            ),
        ),
        _ => None,
    }
}

/// The properties of a profile that the first `n` tags describe; what describes none is left out.
pub open spec fn properties_from(l: Seq<Tag>, n: nat) -> Seq<Val>
    decreases n,
{
    if n == 0 || n > l.len() {
        Seq::empty()
    } else {
        let head = properties_from(l, (n - 1) as nat);
        match l[n - 1] {
            Tag::Compound(c) => match (text_at(c, "name"@), text_at(c, "value"@)) {
                (Some(name), Some(value)) => head.push(pair(Val::Text(name), pair(Val::Text(value), opt_text_at(c, "signature"@)))),
                _ => head,
            },
            _ => head,
        }
    }
}

/// The profile of a player: a name, or everything that is known.
pub open spec fn profile_from(t: Tag) -> Option<Val> {
    match t {
        Tag::String(name) => Some(
            pair(
                pair(optional(Some(Val::Text(name))), Val::Absent),
                pair(Val::List(Seq::empty()), pair(Val::Absent, pair(Val::Absent, pair(Val::Absent, Val::Absent)))),
            ),
        ),
        Tag::Compound(c) => Some(
            pair(
                pair(
                    opt_text_at(c, "name"@),
                    if ints_at(c, "id"@).len() == 4 {
                        let id = ints_at(c, "id"@);
                        optional(Some(pair(Val::Int(id[0]), pair(Val::Int(id[1]), pair(Val::Int(id[2]), Val::Int(id[3]))))))
                    } else {
                        Val::Absent
                    },
                ),
                pair(
                    Val::List(properties_from(list_at(c, "properties"@), list_at(c, "properties"@).len())),
                    pair(
                        opt_text_at(c, "texture"@),
                        pair(opt_text_at(c, "cape"@), pair(opt_text_at(c, "elytra"@), opt_text_at(c, "model"@))),
                    ),
                ),
            ),
        ),
        _ => None,
    }
}

/// The song of a music disc.
pub open spec fn song_from(regs: Registries, t: Tag) -> Option<Val> {
    match t {
        Tag::Compound(c) => match text_at(c, "song"@) {
            Some(s) => match find_name(regs.songs@, bare_name(s)) {
                Some(_) => Some(Val::Text("minecraft:"@ + bare_name(s))),
                None => None,
            },
            None => None,
        },
        _ => None,
    }
}

/// The recipes that the first `n` tags name.
pub open spec fn recipes_from(l: Seq<Tag>, n: nat) -> Option<Seq<Val>>
    decreases n,
{
    if n == 0 || n > l.len() {
        Some(Seq::empty())
    } else {
        match (recipes_from(l, (n - 1) as nat), l[n - 1]) {
            (Some(head), Tag::String(s)) => match identifier_of(s) {
                Some(id) => Some(head.push(Val::Text(id))),
                None => None,
            },
            _ => None,
        }
    }
}

/// A marker on a map.
pub open spec fn decoration_from(key: Seq<char>, t: Tag) -> Option<Val> {
    match t {
        Tag::Compound(c) => match (
            text_at(c, "type"@),
            compound_get(c, "x"@),
            compound_get(c, "z"@),
            compound_get(c, "rotation"@),
        ) {
            (Some(kind), Some(x), Some(z), Some(rotation)) => match (identifier_of(kind), tag_f64(x), tag_f64(z), tag_f32(rotation)) {
                (Some(id), Some(x), Some(z), Some(rotation)) => Some(
                    pair(
                        Val::Text(key),
                        pair(
                            Val::Text(id),
                            pair(Val::Float(8, x as nat), pair(Val::Float(8, z as nat), Val::Float(4, rotation as nat))),
                        ),
                    ),
                ),
                _ => None,
            },
            _ => None,
        },
        _ => None,
    }
}

/// The markers that the first `n` entries of a compound describe.
pub open spec fn decorations_from(c: Entries, n: nat) -> Option<Seq<Val>>
    decreases n,
{
    if n == 0 || n > c.len() {
        Some(Seq::empty())
    } else {
        match (decorations_from(c, (n - 1) as nat), decoration_from(c[n - 1].0, c[n - 1].1)) {
            (Some(head), Some(v)) => Some(head.push(v)),
            _ => None,
        }
    }
}

/// The properties of a block that the first `n` entries of a compound give; what is no text is
/// left out.
pub open spec fn block_state_from(c: Entries, n: nat) -> Seq<Val>
    decreases n,
{
    if n == 0 || n > c.len() {
        Seq::empty()
    } else {
        match c[n - 1].1 {
            Tag::String(v) => block_state_from(c, (n - 1) as nat).push(pair(Val::Text(c[n - 1].0), Val::Text(v))),
            _ => block_state_from(c, (n - 1) as nat),
        }
    }
}

/// The loot of a container.
pub open spec fn loot_from(t: Tag) -> Option<Val> {
    match t {
        Tag::Compound(c) => match text_at(c, "loot_table"@) {
            None => None,
            Some(s) => match identifier_of(s) {
                None => None,
                Some(id) => match compound_get(c, "seed"@) {
                    None => Some(pair(Val::Text(id), Val::Int(0))),
                    Some(t) => match tag_i64(t) {
                        Some(seed) => Some(pair(Val::Text(id), Val::Int(seed))),
                        None => None,
                    },
                },
            },
        },
        _ => None,
    }
}

/// The pages of a book that is being written: texts, or compounds with the text under `raw`.
pub open spec fn raw_pages_from(l: Seq<Tag>, n: nat) -> Seq<Val>
    decreases n,
{
    if n == 0 || n > l.len() {
        Seq::empty()
    } else {
        let head = raw_pages_from(l, (n - 1) as nat);
        match l[n - 1] {
            Tag::String(s) => head.push(pair(Val::Text(s), Val::Unit)),
            Tag::Compound(c) => match text_at(c, "raw"@) {
                Some(s) => head.push(pair(Val::Text(s), Val::Unit)),
                None => head,
            },
            _ => head,
        }
    }
}

/// The pages of a signed book: texts.
pub open spec fn pages_from(l: Seq<Tag>, n: nat) -> Seq<Val>
    decreases n,
{
    if n == 0 || n > l.len() {
        Seq::empty()
    } else {
        let head = pages_from(l, (n - 1) as nat);
        match l[n - 1] {
            Tag::String(s) => head.push(pair(Val::Text(s), Val::Unit)),
            _ => head,
        }
    }
}

/// The entries of a compound; none for another tag.
pub open spec fn entries_of(t: Tag) -> Entries {
    match t {
        Tag::Compound(c) => c,
        _ => Seq::empty(),
    }
}

/// A text under a key; the empty text where there is none.
pub open spec fn text_or_empty(c: Entries, key: Seq<char>) -> Seq<char> {
    match text_at(c, key) {
        Some(t) => t,
        None => Seq::empty(),
    }
}

/// A signed book.
pub open spec fn written_book_from(t: Tag) -> Val {
    let c = entries_of(t);
    let l = list_at(c, "pages"@);
    pair(
        pair(Val::Text(text_or_empty(c, "title"@)), Val::Unit),
        pair(
            Val::Text(text_or_empty(c, "author"@)),
            pair(Val::Unit, pair(Val::List(pages_from(l, l.len())), Val::Unit)),
        ),
    )
}

/// Whether `a` comes before `b` in the order of their characters.
pub open spec fn text_less(a: Seq<char>, b: Seq<char>) -> bool
    decreases a.len(),
{
    if b.len() == 0 {
        false
    } else if a.len() == 0 {
        true
    } else if a[0] != b[0] {
        (a[0] as int) < (b[0] as int)
    } else {
        text_less(a.skip(1), b.skip(1))
    }
}

/// A list in the order of its keys, with a value set under its key.
pub open spec fn sorted_put(l: Seq<Val>, v: Val) -> Seq<Val>
    decreases l.len(),
{
    if l.len() == 0 {
        seq![v]
    } else if text_less(key_of(l.last()), key_of(v)) {
        l.push(v)
    } else if key_of(l.last()) == key_of(v) {
        l.drop_last().push(v)
    } else {
        sorted_put(l.drop_last(), v).push(l.last())
    }
}

/// The properties that a debug stick changes, from the first `n` entries of a compound.
pub open spec fn stick_from(regs: Registries, c: Entries, n: nat) -> Option<Seq<Val>>
    decreases n,
{
    if n == 0 || n > c.len() {
        Some(Seq::empty())
    } else {
        match (stick_from(regs, c, (n - 1) as nat), c[n - 1].1) {
            (Some(head), Tag::String(property)) => if !"minecraft:"@.is_prefix_of(c[n - 1].0) {
                None
            } else {
                match find_block_from(regs.blocks@, c[n - 1].0.skip("minecraft:"@.len() as int), 0) {
                    None => None,
                    Some(b) => if find_name(regs.blocks@[b].properties@, property) is None {
                        None
                    } else {
                        Some(sorted_put(head, pair(Val::Text("minecraft:"@ + regs.blocks@[b].name@), Val::Text(property))))
                    },
                }
            },
            _ => None,
        }
    }
}

/// The value of a component that holds no stack, as a tag describes it.
pub open spec fn plain_from_tag(k: DataComponent, regs: Registries, t: Tag) -> Option<Val> {
    match k {
        DataComponent::CustomData => compound_from(t),
        DataComponent::MaxStackSize => match t {
            Tag::Int(v) => Some(Val::Int(v % 256)),
            _ => None,
        },
        DataComponent::MaxDamage | DataComponent::Damage | DataComponent::DyedColor | DataComponent::MapId => int_from(t),
        DataComponent::CustomName => match t {
            Tag::String(_) => Some(Val::Nbt(t)),
            Tag::Compound(_) => Some(Val::Nbt(t)),
            _ => None,
        },
        DataComponent::ItemName => if is_component(t) {
            Some(Val::Nbt(t))
        } else {
            None
        },
        DataComponent::ItemModel | DataComponent::TooltipStyle | DataComponent::NoteBlockSound | DataComponent::BaseColor => text_from(t),
        DataComponent::Lore => match t {
            Tag::List(l) => Some(Val::List(picked(Pick::Line, l, l.len()))),
            _ => None,
        },
        DataComponent::Rarity => rarity_from(t),
        DataComponent::CustomModelData => model_data_from(t),
        DataComponent::TooltipDisplay => tooltip_from(t),
        DataComponent::BannerPatterns => match t {
            Tag::List(l) => match layers_from(l, l.len()) {
                Some(v) => Some(Val::List(v)),
                None => None,
            },
            _ => Some(Val::List(Seq::empty())),
        },
        DataComponent::Lock => compound_from(t),
        DataComponent::BlockEntityData => match t {
            Tag::Compound(_) => Some(pair(Val::Unit, Val::Nbt(t))),
            _ => None,
        },
        DataComponent::MapPostProcessing => processing_from(t),
        DataComponent::LodestoneTracker => tracker_from(t),
        DataComponent::FireworkExplosion => explosion_from(t),
        DataComponent::Fireworks => fireworks_from(t),
        DataComponent::Profile => profile_from(t),
        DataComponent::JukeboxPlayable => song_from(regs, t),
        DataComponent::Recipes => match t {
            Tag::List(l) => match recipes_from(l, l.len()) {
                Some(v) => Some(Val::List(v)),
                None => None,
            },
            _ => None,
        },
        DataComponent::MapDecorations => match t {
            Tag::Compound(c) => match decorations_from(c, c.len()) {
                Some(v) => Some(Val::List(v)),
                None => None,
            },
            _ => None,
        },
        DataComponent::BlockState => match t {
            Tag::Compound(c) => Some(Val::List(block_state_from(c, c.len()))),
            _ => None,
        },
        DataComponent::ContainerLoot => loot_from(t),
        DataComponent::WritableBookContent => Some(
            Val::List(raw_pages_from(list_at(entries_of(t), "pages"@), list_at(entries_of(t), "pages"@).len())),
        ),
        DataComponent::WrittenBookContent => Some(written_book_from(t)),
        DataComponent::DebugStickState => match t {
            Tag::Compound(c) => match stick_from(regs, c, c.len()) {
                Some(v) => Some(Val::List(v)),
                None => None,
            },
            _ => None,
        },
        DataComponent::IntangibleProjectile => match t {
            Tag::Compound(_) => Some(Val::Unit),
            _ => None,
        },
        DataComponent::Unbreakable
        | DataComponent::CreativeSlotLock
        | DataComponent::EnchantmentGlintOverride
        | DataComponent::Instrument
        | DataComponent::ProvidesTrimMaterial
        | DataComponent::ProvidesBannerPatterns
        | DataComponent::PotDecorations
        | DataComponent::BreakSound
        | DataComponent::Dye
        | DataComponent::MapColor
        | DataComponent::EntityData
        | DataComponent::BucketEntityData
        | DataComponent::Bees => Some(Val::Unit),
        _ => None,
    }
}

/// A number as a flag.
pub open spec fn tag_flag(t: Tag) -> Option<bool> {
    match tag_i32(t) {
        Some(v) => Some(v % 256 != 0),
        None => None,
    }
}

/// The flag under a key, `default` where there is nothing.
pub open spec fn flag_or(c: Entries, key: Seq<char>, default: bool) -> Option<bool> {
    match compound_get(c, key) {
        None => Some(default),
        Some(t) => tag_flag(t),
    }
}

/// The number under a key, `default` where there is nothing.
pub open spec fn int_or(c: Entries, key: Seq<char>, default: int) -> Option<int> {
    match compound_get(c, key) {
        None => Some(default),
        Some(t) => tag_i32(t),
    }
}

/// The floating-point number of 32 bits under a key, `default` where there is nothing.
pub open spec fn float_or(c: Entries, key: Seq<char>, default: int) -> Option<int> {
    match compound_get(c, key) {
        None => Some(default),
        Some(t) => tag_f32(t),
    }
}

/// The details of the status effect named `id`.
pub open spec fn effect_details_from(id: Seq<char>, c: Entries) -> Option<Val>
    decreases c,
{
    match (int_or(c, "amplifier"@, 0), int_or(c, "duration"@, 0), flag_or(c, "ambient"@, false), flag_or(c, "show_particles"@, true)) {
        (Some(amplifier), Some(duration), Some(ambient), Some(particles)) => match flag_or(c, "show_icon"@, particles) {
            None => None,
            Some(icon) => if amplifier < 0 || amplifier > 255 {
                None
            } else {
                match key_index(c, "hidden_effect"@) {
                    None => Some(effect_val(id, amplifier, duration, ambient, particles, icon, Val::Absent)),
                    Some(i) => if 0 <= i < c.len() {
                        match c[i].1 {
                            Tag::Compound(h) => match effect_details_from(id, h) {
                                Some(v) => Some(effect_val(id, amplifier, duration, ambient, particles, icon, optional(Some(v)))),
                                None => None,
                            },
                            _ => None,
                        }
                    } else {
                        None
                    },
                }
            },
        },
        _ => None,
    }
}

/// A status effect.
pub open spec fn effect_from(regs: Registries, t: Tag) -> Option<Val> {
    match t {
        Tag::Compound(c) => match text_at(c, "id"@) {
            Some(id) => match find_name(regs.effects@, id) {
                Some(_) => effect_details_from(id, c),
                None => None,
            },
            None => None,
        },
        _ => None,
    }
}

/// The status effects that the first `n` tags describe.
pub open spec fn effects_from(regs: Registries, l: Seq<Tag>, n: nat) -> Option<Seq<Val>>
    decreases n,
{
    if n == 0 || n > l.len() {
        Some(Seq::empty())
    } else {
        match (effects_from(regs, l, (n - 1) as nat), effect_from(regs, l[n - 1])) {
            (Some(head), Some(v)) => Some(head.push(v)),
            _ => None,
        }
    }
}

/// The numbers of the status effects that the first `n` tags name.
pub open spec fn effect_ids_from(regs: Registries, l: Seq<Tag>, n: nat) -> Option<Seq<Val>>
    decreases n,
{
    if n == 0 || n > l.len() {
        Some(Seq::empty())
    } else {
        match (effect_ids_from(regs, l, (n - 1) as nat), l[n - 1]) {
            (Some(head), Tag::String(name)) => match find_name(regs.effects@, name) {
                Some(i) => if i <= 0xffff {
                    Some(head.push(Val::Int(i)))
                } else {
                    None
                },
                None => None,
            },
            _ => None,
        }
    }
}

/// The status effects that are removed: those under a tag, or some by their names.
pub open spec fn removed_from(regs: Registries, t: Option<Tag>) -> Option<Val> {
    match t {
        Some(Tag::String(s)) => if "#"@.is_prefix_of(s) {
            Some(pair(Val::Int(0), Val::Text(s.skip("#"@.len() as int))))
        } else {
            match effect_ids_from(regs, seq![Tag::String(s)], 1) {
                Some(l) => Some(pair(Val::Int(1), Val::List(l))),
                None => None,
            }
        },
        Some(Tag::List(l)) => match effect_ids_from(regs, l, l.len()) {
            Some(l) => Some(pair(Val::Int(1), Val::List(l))),
            None => None,
        },
        _ => None,
    }
}

/// The sound with a name.
pub open spec fn sound_from(regs: Registries, t: Option<Tag>) -> Option<Val> {
    match t {
        Some(Tag::String(s)) => match find_name(regs.sounds@, bare_name(s)) {
            Some(i) => if i <= 0xffff {
                Some(Val::Int(i))
            } else {
                None
            },
            None => None,
        },
        _ => None,
    }
}

/// The bit pattern of one.
pub const ONE: u32 = 0x3f80_0000;

/// The bit pattern of sixteen.
pub const SIXTEEN: u32 = 0x4180_0000;

/// What consuming an item does.
pub open spec fn consume_effect_from(regs: Registries, t: Tag) -> Option<Val> {
    match t {
        Tag::Compound(c) => match text_at(c, "type"@) {
            None => None,
            Some(kind) => if kind == "minecraft:apply_effects"@ {
                let l = list_at(c, "effects"@);
                match (compound_get(c, "effects"@), effects_from(regs, l, l.len()), float_or(c, "probability"@, ONE as int)) {
                    // A probability is at most one; a bit pattern above that is larger, negative or no number.
                    (Some(Tag::List(_)), Some(effects), Some(probability)) => if probability <= ONE || probability == 0x8000_0000 {
                        Some(pair(Val::Int(0), pair(Val::List(effects), Val::Float(4, probability as nat))))
                    } else {
                        None
                    },
                    _ => None,
                }
            } else if kind == "minecraft:remove_effects"@ {
                match removed_from(regs, compound_get(c, "effects"@)) {
                    Some(v) => Some(pair(Val::Int(1), v)),
                    None => None,
                }
            } else if kind == "minecraft:clear_all_effects"@ {
                Some(pair(Val::Int(2), Val::Unit))
            } else if kind == "minecraft:teleport_randomly"@ {
                match float_or(c, "diameter"@, SIXTEEN as int) {
                    // A positive number that is not infinite.
                    Some(diameter) => if 0 < diameter < 0x7f80_0000 {
                        Some(pair(Val::Int(3), Val::Float(4, diameter as nat)))
                    } else {
                        None
                    },
                    None => None,
                }
            } else if kind == "minecraft:play_sound"@ {
                match sound_from(regs, compound_get(c, "sound"@)) {
                    Some(v) => Some(pair(Val::Int(4), v)),
                    None => None,
                }
            } else {
                None
            },
        },
        _ => None,
    }
}

/// What the first `n` tags say that consuming an item does.
pub open spec fn consume_effects_from(regs: Registries, l: Seq<Tag>, n: nat) -> Option<Seq<Val>>
    decreases n,
{
    if n == 0 || n > l.len() {
        Some(Seq::empty())
    } else {
        match (consume_effects_from(regs, l, (n - 1) as nat), consume_effect_from(regs, l[n - 1])) {
            (Some(head), Some(v)) => Some(head.push(v)),
            _ => None,
        }
    }
}

/// What an item does when it saves its holder from death.
pub open spec fn protection_from(regs: Registries, t: Tag) -> Option<Val> {
    match t {
        Tag::Compound(c) => match compound_get(c, "death_effects"@) {
            None => Some(Val::List(Seq::empty())),
            Some(Tag::List(l)) => match consume_effects_from(regs, l, l.len()) {
                Some(v) => Some(Val::List(v)),
                None => None,
            },
            Some(_) => None,
        },
        _ => None,
    }
}

/// The names of the looks of consuming an item, by their numbers.
pub open spec fn animation_name(i: int) -> Seq<char> {
    if i == 0 {
        "none"@
    } else if i == 1 {
        "eat"@
    } else if i == 2 {
        "drink"@
    } else if i == 3 {
        "block"@
    } else if i == 4 {
        "bow"@
    } else if i == 5 {
        "trident"@
    } else if i == 6 {
        "crossbow"@
    } else if i == 7 {
        "spyglass"@
    } else if i == 8 {
        "toot_horn"@
    } else if i == 9 {
        "brush"@
    } else if i == 10 {
        "bundle"@
    } else {
        "spear"@
    }
}

/// The number of the first look from the `i`th on with a name.
pub open spec fn animation_from(s: Seq<char>, i: int) -> Option<int>
    decreases 12 - i,
{
    if i >= 12 {
        None
    } else if animation_name(i) == s {
        Some(i)
    } else {
        animation_from(s, i + 1)
    }
}

/// The bit pattern of 1.6.
pub const EATING_SECONDS: u32 = 0x3fcc_cccd;

/// What consuming an item does and how it looks: as eating does, where nothing is said.
pub open spec fn consumable_from(regs: Registries, t: Tag) -> Option<Val> {
    match t {
        Tag::Compound(c) => match (
            float_or(c, "consume_seconds"@, EATING_SECONDS as int),
            match compound_get(c, "animation"@) {
                None => Some(1int),
                Some(Tag::String(s)) => animation_from(s, 0),
                Some(_) => None,
            },
            match compound_get(c, "sound"@) {
                None => sound_from(regs, Some(Tag::String("entity.generic.eat"@))),
                Some(t) => sound_from(regs, Some(t)),
            },
            flag_or(c, "has_consume_particles"@, true),
            match compound_get(c, "on_consume_effects"@) {
                None => Some(Seq::<Val>::empty()),
                Some(Tag::List(l)) => consume_effects_from(regs, l, l.len()),
                Some(_) => None,
            },
        ) {
            (Some(seconds), Some(animation), Some(sound), Some(particles), Some(effects)) => Some(
                pair(
                    Val::Float(4, seconds as nat),
                    pair(Val::Int(animation), pair(pair(sound, Val::Bool(particles)), Val::List(effects))),
                ),
            ),
            _ => None,
        },
        _ => None,
    }
}

/// The names of the operations, by their numbers.
pub open spec fn operation_name(i: int) -> Seq<char> {
    if i == 0 {
        "add_value"@
    } else if i == 1 {
        "add_multiplied_base"@
    } else {
        "add_multiplied_total"@
    }
}

/// The number of the operation with a name.
pub open spec fn operation_from(s: Seq<char>) -> Option<int> {
    if s == operation_name(0) {
        Some(0int)
    } else if s == operation_name(1) {
        Some(1int)
    } else if s == operation_name(2) {
        Some(2int)
    } else {
        None
    }
}

/// The names of the places that a modifier can be bound to, by their numbers.
pub open spec fn place_name(i: int) -> Seq<char> {
    if i == 0 {
        "any"@
    } else if i == 1 {
        "mainhand"@
    } else if i == 2 {
        "offhand"@
    } else if i == 3 {
        "hand"@
    } else if i == 4 {
        "feet"@
    } else if i == 5 {
        "legs"@
    } else if i == 6 {
        "chest"@
    } else if i == 7 {
        "head"@
    } else if i == 8 {
        "armor"@
    } else if i == 9 {
        "body"@
    } else {
        "saddle"@
    }
}

/// The number of the first place from the `i`th on with a name.
pub open spec fn place_from(s: Seq<char>, i: int) -> Option<int>
    decreases 11 - i,
{
    if i >= 11 {
        None
    } else if place_name(i) == s {
        Some(i)
    } else {
        place_from(s, i + 1)
    }
}

/// How a modifier is shown.
pub open spec fn display_from(t: Option<Tag>) -> Option<Val> {
    match t {
        None => Some(pair(Val::Int(0), Val::Unit)),
        Some(Tag::Compound(c)) => match text_at(c, "type"@) {
            None => None,
            Some(s) => if s == "default"@ {
                Some(pair(Val::Int(0), Val::Unit))
            } else if s == "hidden"@ {
                Some(pair(Val::Int(1), Val::Unit))
            } else if s == "override"@ {
                match compound_get(c, "value"@) {
                    Some(v) => Some(pair(Val::Int(2), Val::Nbt(v))),
                    None => None,
                }
            } else {
                None
            },
        },
        Some(_) => None,
    }
}

/// A change of an attribute.
pub open spec fn modifier_from(regs: Registries, t: Tag) -> Option<Val> {
    match t {
        Tag::Compound(c) => match (text_at(c, "type"@), text_at(c, "id"@), compound_get(c, "amount"@), text_at(c, "operation"@)) {
            (Some(kind), Some(id), Some(amount), Some(operation)) => match (
                find_name(regs.attributes@, kind),
                tag_f64(amount),
                operation_from(operation),
                place_from(
                    match text_at(c, "slot"@) {
                        Some(s) => s,
                        None => "any"@,
                    },
                    0,
                ),
                display_from(compound_get(c, "display"@)),
            ) {
                (Some(attribute), Some(amount), Some(operation), Some(place), Some(display)) => if attribute <= i32::MAX {
                    Some(
                        pair(
                            Val::Int(attribute),
                            pair(
                                Val::Text(id),
                                pair(Val::Float(8, amount as nat), pair(Val::Int(operation), pair(Val::Int(place), display))),
                            ),
                        ),
                    )
                } else {
                    None
                },
                _ => None,
            },
            _ => None,
        },
        _ => None,
    }
}

/// The changes of attributes that the first `n` tags describe.
pub open spec fn modifiers_from(regs: Registries, l: Seq<Tag>, n: nat) -> Option<Seq<Val>>
    decreases n,
{
    if n == 0 || n > l.len() {
        Some(Seq::empty())
    } else {
        match (modifiers_from(regs, l, (n - 1) as nat), modifier_from(regs, l[n - 1])) {
            (Some(head), Some(v)) => Some(head.push(v)),
            _ => None,
        }
    }
}

/// The count of a stack: one where there is none, and otherwise a number from 1 to 99.
pub open spec fn count_from(t: Option<Tag>) -> Option<int> {
    match t {
        None => Some(1int),
        Some(t) => match tag_i32(t) {
            Some(v) => if 1 <= v <= 99 {
                Some(v)
            } else {
                None
            },
            None => None,
        },
    }
}

/// The patch that the first `n` entries of a compound describe: a name behind an exclamation mark
/// removes a component.
pub open spec fn patch_from(regs: Registries, c: Entries, n: nat) -> Option<PatchVal>
    decreases c, n,
{
    if n == 0 || n > c.len() {
        Some(Seq::empty())
    } else {
        match patch_from(regs, c, (n - 1) as nat) {
            None => None,
            Some(head) => if "!"@.is_prefix_of(c[n - 1].0) {
                match component_of_name(c[n - 1].0.skip("!"@.len() as int)) {
                    Some(k) => Some(head.push((k, None))),
                    None => None,
                }
            } else {
                match component_of_name(c[n - 1].0) {
                    Some(k) => match data_from_tag(k, regs, c[n - 1].1) {
                        Some(val) => Some(head.push((k, Some(ComponentVal { kind: k, val })))),
                        None => None,
                    },
                    None => None,
                }
            },
        }
    }
}

/// The patch under `components`: none where there is nothing.
pub open spec fn components_from(regs: Registries, c: Entries) -> Option<PatchVal>
    decreases c, 0nat,
{
    match key_index(c, "components"@) {
        None => Some(Seq::empty()),
        Some(i) => if 0 <= i < c.len() {
            match c[i].1 {
                Tag::Compound(m) => patch_from(regs, m, m.len()),
                _ => None,
            }
        } else {
            None
        },
    }
}

/// The stack that a compound describes.
pub open spec fn stack_from(regs: Registries, c: Entries) -> Option<StackVal>
    decreases c, 1nat,
{
    match text_at(c, "id"@) {
        None => None,
        Some(id) => match find_key(regs, bare_name(id)) {
            None => None,
            Some(item) => if item.id == AIR_ID {
                None
            } else {
                match count_from(compound_get(c, "count"@)) {
                    None => None,
                    Some(count) => match components_from(regs, c) {
                        None => None,
                        Some(patch) => Some(StackVal { item, count, patch }),
                    },
                }
            },
        },
    }
}

/// The stack that a tag describes: a compound, or the name of an item.
pub open spec fn template_from(regs: Registries, t: Tag) -> Option<StackVal>
    decreases t, 2nat,
{
    match t {
        Tag::String(id) => match find_key(regs, bare_name(id)) {
            Some(item) => if item.id == AIR_ID {
                None
            } else {
                Some(StackVal { item, count: 1, patch: Seq::empty() })
            },
            None => None,
        },
        Tag::Compound(c) => stack_from(regs, c),
        _ => None,
    }
}

/// The stacks that the first `n` tags describe; what describes none is left out.
pub open spec fn bundle_from(regs: Registries, l: Seq<Tag>, n: nat) -> Seq<Val>
    decreases l, n,
{
    if n == 0 || n > l.len() {
        Seq::empty()
    } else {
        let head = bundle_from(regs, l, (n - 1) as nat);
        match l[n - 1] {
            Tag::Compound(c) => match stack_from(regs, c) {
                Some(st) => head.push(Val::Stack(st)),
                None => head,
            },
            _ => head,
        }
    }
}

/// The stacks that the first `n` tags describe.
pub open spec fn projectiles_from(regs: Registries, l: Seq<Tag>, n: nat) -> Option<Seq<Val>>
    decreases l, n,
{
    if n == 0 || n > l.len() {
        Some(Seq::empty())
    } else {
        match projectiles_from(regs, l, (n - 1) as nat) {
            None => None,
            Some(head) => match l[n - 1] {
                Tag::Compound(c) => match stack_from(regs, c) {
                    Some(st) => Some(head.push(Val::Stack(st))),
                    None => None,
                },
                _ => None,
            },
        }
    }
}

/// The slot and the stack that a tag describes.
pub open spec fn slot_from(regs: Registries, t: Tag) -> Option<Val>
    decreases t, 3nat,
{
    match t {
        Tag::Compound(c) => match compound_get(c, "slot"@) {
            None => None,
            Some(slot) => match (tag_i32(slot), key_index(c, "item"@)) {
                (Some(slot), Some(i)) => if 0 <= slot <= 255 && 0 <= i < c.len() {
                    match template_from(regs, c[i].1) {
                        Some(st) => Some(pair(Val::Int(slot), Val::Stack(st))),
                        None => None,
                    }
                } else {
                    None
                },
                _ => None,
            },
        },
        _ => None,
    }
}

/// The slots and the stacks that the first `n` tags describe.
pub open spec fn slots_from(regs: Registries, l: Seq<Tag>, n: nat) -> Option<Seq<Val>>
    decreases l, n,
{
    if n == 0 || n > l.len() {
        Some(Seq::empty())
    } else {
        match (slots_from(regs, l, (n - 1) as nat), slot_from(regs, l[n - 1])) {
            (Some(head), Some(v)) => Some(head.push(v)),
            _ => None,
        }
    }
}

/// The value of a component, as a tag in the library's own form describes it.
#[verifier::opaque]
pub open spec fn own_from_tag(k: DataComponent, regs: Registries, t: Tag) -> Option<Val>
    decreases t, 4nat,
{
    match k {
        DataComponent::UseRemainder | DataComponent::SulfurCubeContent => match template_from(regs, t) {
            Some(st) => Some(Val::Stack(st)),
            None => None,
        },
        DataComponent::BundleContents => match t {
            Tag::List(l) => Some(Val::List(bundle_from(regs, l, l.len()))),
            _ => Some(Val::List(Seq::empty())),
        },
        DataComponent::ChargedProjectiles => match t {
            Tag::List(l) => match projectiles_from(regs, l, l.len()) {
                Some(v) => Some(Val::List(v)),
                None => None,
            },
            _ => None,
        },
        DataComponent::Container => match t {
            Tag::List(l) => match slots_from(regs, l, l.len()) {
                Some(v) => Some(Val::List(v)),
                None => None,
            },
            _ => None,
        },
        DataComponent::CanPlaceOn | DataComponent::CanBreak => Some(Val::Nbt(t)),
        DataComponent::DeathProtection => protection_from(regs, t),
        DataComponent::Consumable => consumable_from(regs, t),
        DataComponent::AttributeModifiers => match t {
            Tag::List(l) => match modifiers_from(regs, l, l.len()) {
                Some(v) => Some(Val::List(v)),
                None => None,
            },
            _ => None,
        },
        _ => plain_from_tag(k, regs, t),
    }
}

/// The bytes on the wire that the forms from the `i`th on give for a tag of a component.
pub open spec fn data_given(forms: Seq<StoredForm>, k: DataComponent, t: Tag, i: int) -> Option<Seq<u8>>
    decreases forms.len() - i,
{
    if i < 0 || i >= forms.len() {
        None
    } else if forms[i].id == k && tags_match(forms[i].tag@, t, true) {
        Some(forms[i].data@)
    } else {
        data_given(forms, k, t, i + 1)
    }
}

/// The tag that the forms from the `i`th on give for the bytes of a component on the wire.
pub open spec fn form_given(forms: Seq<StoredForm>, k: DataComponent, data: Seq<u8>, i: int) -> Option<Tag>
    decreases forms.len() - i,
{
    if i < 0 || i >= forms.len() {
        None
    } else if forms[i].id == k && forms[i].data@ == data {
        Some(forms[i].tag@)
    } else {
        form_given(forms, k, data, i + 1)
    }
}

/// The value of a component, as a tag describes it in a form that the registries hold.
pub open spec fn val_given(regs: Registries, k: DataComponent, t: Tag) -> Option<Val> {
    if !flat_kind(k) {
        None
    } else {
        match data_given(regs.stored_forms@, k, t, 0) {
            Some(data) => match flat_read(component_format(k), regs, data).value {
                Ok(v) => Some(v),
                Err(_) => None,
            },
            None => None,
        }
    }
}

/// The tag of the value of a component in a form that the registries hold.
pub open spec fn tag_given(regs: Registries, k: DataComponent, v: Val) -> Option<Tag> {
    if !flat_kind(k) {
        None
    } else {
        match flat_write(component_format(k), regs, Seq::empty(), v) {
            Sink { result: Ok(_), out } => form_given(regs.stored_forms@, k, out, 0),
            _ => None,
        }
    }
}

/// The value of a component, as a tag describes it: in the library's own form, or in one that the
/// registries hold.
pub open spec fn data_from_tag(k: DataComponent, regs: Registries, t: Tag) -> Option<Val>
    decreases t, 5nat,
{
    match own_from_tag(k, regs, t) {
        Some(v) => Some(v),
        None => val_given(regs, k, t),
    }
}

/// The text that a value is.
pub open spec fn as_text(v: Val) -> Seq<char> {
    match v {
        Val::Text(t) => t,
        _ => arbitrary(),
    }
}

/// The number that a value is.
pub open spec fn as_int(v: Val) -> int {
    match v {
        Val::Int(i) => i,
        _ => arbitrary(),
    }
}

/// The flag that a value is.
pub open spec fn as_bool(v: Val) -> bool {
    match v {
        Val::Bool(b) => b,
        _ => arbitrary(),
    }
}

/// The bit pattern that a value is.
pub open spec fn as_bits(v: Val) -> int {
    match v {
        Val::Float(_, b) => b as int,
        _ => arbitrary(),
    }
}

/// The list that a value is.
pub open spec fn as_list(v: Val) -> Seq<Val> {
    match v {
        Val::List(l) => l,
        _ => arbitrary(),
    }
}

/// The tag that a value is.
pub open spec fn as_nbt(v: Val) -> Tag {
    match v {
        Val::Nbt(t) => t,
        _ => arbitrary(),
    }
}

/// The first of two values.
pub open spec fn first(v: Val) -> Val {
    match v {
        Val::Pair(a, _) => *a,
        _ => arbitrary(),
    }
}

/// The second of two values.
pub open spec fn second(v: Val) -> Val {
    match v {
        Val::Pair(_, b) => *b,
        _ => arbitrary(),
    }
}

/// The tags of the texts in a list.
pub open spec fn text_tags(l: Seq<Val>) -> Seq<Tag> {
    Seq::new(l.len(), |i: int| Tag::String(as_text(l[i])))
}

/// The tags of the plain texts of the text components in a list.
pub open spec fn line_tags(l: Seq<Val>) -> Seq<Tag> {
    Seq::new(l.len(), |i: int| Tag::String(plain_text(as_nbt(l[i]))))
}

/// The tags of the numbers in a list.
pub open spec fn int_tags(l: Seq<Val>) -> Seq<Tag> {
    Seq::new(l.len(), |i: int| Tag::Int(as_int(l[i])))
}

/// The tags of the floating-point numbers in a list.
pub open spec fn float_tags(l: Seq<Val>) -> Seq<Tag> {
    Seq::new(l.len(), |i: int| Tag::Float(as_bits(l[i])))
}

/// The tags of the flags in a list.
pub open spec fn flag_tags(l: Seq<Val>) -> Seq<Tag> {
    Seq::new(l.len(), |i: int| bool_tag(as_bool(l[i])))
}

/// The tags of the names of the component types in a list.
pub open spec fn component_tags(l: Seq<Val>) -> Seq<Tag> {
    Seq::new(l.len(), |i: int| Tag::String(component_name(component_of_id(as_int(l[i]))->0)))
}

/// The numbers in a list.
pub open spec fn ints_in(l: Seq<Val>) -> Seq<int> {
    Seq::new(l.len(), |i: int| as_int(l[i]))
}

/// A compound with one entry more.
pub open spec fn with_entry(c: Entries, key: Seq<char>, t: Tag) -> Entries {
    compound_put(c, key, t)
}

/// A compound with an entry for a text, where it is not absent.
pub open spec fn with_text(c: Entries, key: Seq<char>, v: Val) -> Entries {
    match v {
        Val::Present(t) => compound_put(c, key, Tag::String(as_text(*t))),
        _ => c,
    }
}

/// The tag of a layer of a banner.
pub open spec fn layer_tag(v: Val) -> Tag {
    Tag::Compound(
        with_entry(
            with_entry(Seq::empty(), "pattern"@, Tag::String(as_text(first(v)))),
            "color"@,
            Tag::String(dye_name(as_int(second(v)))),
        ),
    )
}

/// The tags of the layers of a banner.
pub open spec fn layer_tags(l: Seq<Val>) -> Seq<Tag> {
    Seq::new(l.len(), |i: int| layer_tag(l[i]))
}

/// The tag of what a resource pack selects a model by.
pub open spec fn model_data_tag(v: Val) -> Tag {
    Tag::Compound(
        with_entry(
            with_entry(
                with_entry(
                    with_entry(Seq::empty(), "floats"@, Tag::List(float_tags(as_list(first(v))))),
                    "flags"@,
                    Tag::List(flag_tags(as_list(first(second(v))))),
                ),
                "strings"@,
                Tag::List(text_tags(as_list(first(second(second(v)))))),
            ),
            "colors"@,
            Tag::List(int_tags(as_list(second(second(second(v)))))),
        ),
    )
}

/// The tag of a display of a tooltip.
pub open spec fn tooltip_display_tag(v: Val) -> Tag {
    Tag::Compound(
        with_entry(
            with_entry(Seq::empty(), "hide_tooltip"@, bool_tag(as_bool(first(v)))),
            "hidden_components"@,
            Tag::List(component_tags(as_list(second(v)))),
        ),
    )
}

/// The tag of the place that a lodestone compass points to.
pub open spec fn target_tag(v: Val) -> Tag {
    Tag::Compound(
        with_entry(
            with_entry(Seq::empty(), "dimension"@, Tag::String(as_text(first(v)))),
            "pos"@,
            Tag::IntArray(seq![as_int(first(second(v))), as_int(first(second(second(v)))), as_int(second(second(second(v))))]),
        ),
    )
}

/// The tag of what a lodestone compass points to.
pub open spec fn tracker_tag(v: Val) -> Tag {
    Tag::Compound(
        with_entry(
            match first(v) {
                Val::Present(t) => with_entry(Seq::empty(), "target"@, target_tag(*t)),
                _ => Seq::empty(),
            },
            "tracked"@,
            bool_tag(as_bool(second(v))),
        ),
    )
}

/// The shape with a number.
pub open spec fn shape_of(i: int) -> FireworkExplosionShape {
    if i == 0 {
        FireworkExplosionShape::SmallBall
    } else if i == 1 {
        FireworkExplosionShape::LargeBall
    } else if i == 2 {
        FireworkExplosionShape::Star
    } else if i == 3 {
        FireworkExplosionShape::Creeper
    } else {
        FireworkExplosionShape::Burst
    }
}

/// The tag of an explosion of a firework.
pub open spec fn explosion_tag(v: Val) -> Tag {
    let colors = second(v);
    let fade = second(colors);
    let flags = second(fade);
    Tag::Compound(
        with_entry(
            with_entry(
                with_entry(
                    with_entry(
                        with_entry(
                            Seq::empty(),
                            "shape"@,
                            Tag::String(firework_explosion_shape_name(shape_of(as_int(first(v))))),
                        ),
                        "colors"@,
                        Tag::IntArray(ints_in(as_list(first(colors)))),
                    ),
                    "fade_colors"@,
                    Tag::IntArray(ints_in(as_list(first(fade)))),
                ),
                "has_trail"@,
                bool_tag(as_bool(first(flags))),
            ),
            "has_twinkle"@,
            bool_tag(as_bool(second(flags))),
        ),
    )
}

/// The tags of the explosions of a firework.
pub open spec fn explosion_tags(l: Seq<Val>) -> Seq<Tag> {
    Seq::new(l.len(), |i: int| explosion_tag(l[i]))
}

/// The tag of a firework.
pub open spec fn fireworks_tag(v: Val) -> Tag {
    Tag::Compound(
        with_entry(
            with_entry(Seq::empty(), "flight_duration"@, Tag::Int(as_int(first(v)))),
            "explosions"@,
            Tag::List(explosion_tags(as_list(second(v)))),
        ),
    )
}

/// The tag of a property of a profile.
pub open spec fn property_tag(v: Val) -> Tag {
    Tag::Compound(
        with_text(
            with_entry(
                with_entry(Seq::empty(), "name"@, Tag::String(as_text(first(v)))),
                "value"@,
                Tag::String(as_text(first(second(v)))),
            ),
            "signature"@,
            second(second(v)),
        ),
    )
}

/// The tags of the properties of a profile.
pub open spec fn property_tags(l: Seq<Val>) -> Seq<Tag> {
    Seq::new(l.len(), |i: int| property_tag(l[i]))
}

/// The entries for the name, the number and the properties of a profile.
pub open spec fn profile_head(v: Val) -> Entries {
    let c = with_text(Seq::empty(), "name"@, first(first(v)));
    let c = match second(first(v)) {
        Val::Present(id) => with_entry(
            c,
            "id"@,
            Tag::IntArray(
                seq![
                    as_int(first(*id)),
                    as_int(first(second(*id))),
                    as_int(first(second(second(*id)))),
                    as_int(second(second(second(*id)))),
                ],
            ),
        ),
        _ => c,
    };
    if as_list(first(second(v))).len() > 0 {
        with_entry(c, "properties"@, Tag::List(property_tags(as_list(first(second(v))))))
    } else {
        c
    }
}

/// The tag of a profile.
pub open spec fn profile_tag(v: Val) -> Tag {
    let looks = second(second(v));
    Tag::Compound(
        with_text(
            with_text(
                with_text(with_text(profile_head(v), "texture"@, first(looks)), "cape"@, first(second(looks))),
                "elytra"@,
                first(second(second(looks))),
            ),
            "model"@,
            second(second(second(looks))),
        ),
    )
}

/// The tag of a marker on a map.
pub open spec fn decoration_tag(v: Val) -> Tag {
    let e = second(v);
    Tag::Compound(
        with_entry(
            with_entry(
                with_entry(
                    with_entry(Seq::empty(), "type"@, Tag::String(as_text(first(e)))),
                    "x"@,
                    Tag::Double(as_bits(first(second(e)))),
                ),
                "z"@,
                Tag::Double(as_bits(first(second(second(e))))),
            ),
            "rotation"@,
            Tag::Float(as_bits(second(second(second(e))))),
        ),
    )
}

/// The first `n` values of a list in the order of their keys; the last one for a key counts.
pub open spec fn canonical(l: Seq<Val>, n: nat) -> Seq<Val>
    decreases n,
{
    if n == 0 || n > l.len() {
        Seq::empty()
    } else {
        sorted_put(canonical(l, (n - 1) as nat), l[n - 1])
    }
}

/// The entries of the markers from the `i`th on, behind those in `c`.
pub open spec fn decoration_entries(l: Seq<Val>, i: int, c: Entries) -> Entries
    decreases l.len() - i,
{
    if i < 0 || i >= l.len() {
        c
    } else {
        decoration_entries(l, i + 1, with_entry(c, key_of(l[i]), decoration_tag(l[i])))
    }
}

/// The entries of the pairs of texts from the `i`th on, behind those in `c`.
pub open spec fn pair_entries(l: Seq<Val>, i: int, c: Entries) -> Entries
    decreases l.len() - i,
{
    if i < 0 || i >= l.len() {
        c
    } else {
        pair_entries(l, i + 1, with_entry(c, key_of(l[i]), Tag::String(as_text(second(l[i])))))
    }
}

/// The tag of the loot of a container; the usual seed is left out.
pub open spec fn loot_tag(v: Val) -> Tag {
    let c = with_entry(Seq::empty(), "loot_table"@, Tag::String(as_text(first(v))));
    Tag::Compound(
        if as_int(second(v)) != 0 {
            with_entry(c, "seed"@, Tag::Long(as_int(second(v))))
        } else {
            c
        },
    )
}

/// The tags of the pages of a book.
pub open spec fn page_tags(l: Seq<Val>) -> Seq<Tag> {
    Seq::new(l.len(), |i: int| Tag::String(as_text(first(l[i]))))
}

/// The tag of a signed book.
pub open spec fn written_book_tag(v: Val) -> Tag {
    Tag::Compound(
        with_entry(
            with_entry(
                with_entry(Seq::empty(), "title"@, Tag::String(as_text(first(first(v))))),
                "author"@,
                Tag::String(as_text(first(second(v)))),
            ),
            "pages"@,
            Tag::List(page_tags(as_list(first(second(second(second(v))))))),
        ),
    )
}

/// The entries of the details of a status effect, behind those in `c`.
pub open spec fn effect_entries(v: Val, c: Entries) -> Entries
    decreases v,
{
    match v {
        Val::Pair(_, b) => match *b {
            Val::Pair(amplifier, b) => match *b {
                Val::Pair(duration, b) => match *b {
                    Val::Pair(ambient, b) => match *b {
                        Val::Pair(particles, b) => match *b {
                            Val::Pair(icon, hidden) => {
                                let c = with_entry(
                                    with_entry(
                                        with_entry(
                                            with_entry(
                                                with_entry(c, "amplifier"@, Tag::Int(as_int(*amplifier))),
                                                "duration"@,
                                                Tag::Int(as_int(*duration)),
                                            ),
                                            "ambient"@,
                                            bool_tag(as_bool(*ambient)),
                                        ),
                                        "show_particles"@,
                                        bool_tag(as_bool(*particles)),
                                    ),
                                    "show_icon"@,
                                    bool_tag(as_bool(*icon)),
                                );
                                match *hidden {
                                    Val::Present(h) => with_entry(c, "hidden_effect"@, Tag::Compound(effect_entries(*h, Seq::empty()))),
                                    _ => c,
                                }
                            },
                            _ => arbitrary(),
                        },
                        _ => arbitrary(),
                    },
                    _ => arbitrary(),
                },
                _ => arbitrary(),
            },
            _ => arbitrary(),
        },
        _ => arbitrary(),
    }
}

/// The tag of a status effect.
pub open spec fn effect_tag(v: Val) -> Tag {
    Tag::Compound(effect_entries(v, with_entry(Seq::empty(), "id"@, Tag::String(as_text(first(v))))))
}

/// The tags of the status effects in a list.
pub open spec fn effect_tags(l: Seq<Val>) -> Seq<Tag> {
    Seq::new(l.len(), |i: int| effect_tag(l[i]))
}

/// The tags of the registry entries with the numbers in a list, where all of them are known.
pub open spec fn names_of(names: Seq<String>, l: Seq<Val>, n: nat) -> Option<Seq<Tag>>
    decreases n,
{
    if n == 0 || n > l.len() {
        Some(Seq::empty())
    } else {
        match names_of(names, l, (n - 1) as nat) {
            Some(head) => if 0 <= as_int(l[n - 1]) < names.len() {
                Some(head.push(Tag::String(names[as_int(l[n - 1])]@)))
            } else {
                None
            },
            None => None,
        }
    }
}

/// The tag of the status effects that are removed.
pub open spec fn removed_tag(regs: Registries, v: Val) -> Option<Tag> {
    match second(v) {
        Val::Text(t) => Some(Tag::String("#"@ + t)),
        Val::List(l) => match names_of(regs.effects@, l, l.len()) {
            Some(tags) => Some(Tag::List(tags)),
            None => None,
        },
        _ => arbitrary(),
    }
}

/// The tag of a sound that is in the registry.
pub open spec fn sound_tag(regs: Registries, v: Val) -> Option<Tag> {
    match v {
        Val::Int(i) => if 0 <= i < regs.sounds@.len() {
            Some(Tag::String("minecraft:"@ + regs.sounds@[i]@))
        } else {
            None
        },
        _ => None,
    }
}

/// A compound with the type of an effect.
pub open spec fn typed(kind: Seq<char>) -> Entries {
    with_entry(Seq::empty(), "type"@, Tag::String(kind))
}

/// The tag of what consuming an item does.
pub open spec fn consume_effect_tag(regs: Registries, v: Val) -> Option<Tag> {
    let kind = as_int(first(v));
    if kind == 0 {
        Some(
            Tag::Compound(
                with_entry(
                    with_entry(typed("minecraft:apply_effects"@), "probability"@, Tag::Float(as_bits(second(second(v))))),
                    "effects"@,
                    Tag::List(effect_tags(as_list(first(second(v))))),
                ),
            ),
        )
    } else if kind == 1 {
        match removed_tag(regs, second(v)) {
            Some(t) => Some(Tag::Compound(with_entry(typed("minecraft:remove_effects"@), "effects"@, t))),
            None => None,
        }
    } else if kind == 2 {
        Some(Tag::Compound(typed("minecraft:clear_all_effects"@)))
    } else if kind == 3 {
        Some(Tag::Compound(with_entry(typed("minecraft:teleport_randomly"@), "diameter"@, Tag::Float(as_bits(second(v))))))
    } else {
        match sound_tag(regs, second(v)) {
            Some(t) => Some(Tag::Compound(with_entry(typed("minecraft:play_sound"@), "sound"@, t))),
            None => None,
        }
    }
}

/// The tags of what consuming an item does, for the first `n` effects.
pub open spec fn consume_effect_tags(regs: Registries, l: Seq<Val>, n: nat) -> Option<Seq<Tag>>
    decreases n,
{
    if n == 0 || n > l.len() {
        Some(Seq::empty())
    } else {
        match (consume_effect_tags(regs, l, (n - 1) as nat), consume_effect_tag(regs, l[n - 1])) {
            (Some(head), Some(t)) => Some(head.push(t)),
            _ => None,
        }
    }
}

/// The tag of what consuming an item does and how it looks.
pub open spec fn consumable_tag(regs: Registries, v: Val) -> Option<Tag> {
    let animation = second(v);
    let sound = first(second(animation));
    let effects = as_list(second(second(animation)));
    match (sound_tag(regs, first(sound)), consume_effect_tags(regs, effects, effects.len())) {
        (Some(t), Some(l)) => Some(
            Tag::Compound(
                with_entry(
                    with_entry(
                        with_entry(
                            with_entry(
                                with_entry(Seq::empty(), "consume_seconds"@, Tag::Float(as_bits(first(v)))),
                                "animation"@,
                                Tag::String(animation_name(as_int(first(animation)))),
                            ),
                            "sound"@,
                            t,
                        ),
                        "has_consume_particles"@,
                        bool_tag(as_bool(second(sound))),
                    ),
                    "on_consume_effects"@,
                    Tag::List(l),
                ),
            ),
        ),
        _ => None,
    }
}

/// The tag of how a modifier is shown.
pub open spec fn display_tag(v: Val) -> Tag {
    let kind = as_int(first(v));
    Tag::Compound(
        if kind == 0 {
            typed("default"@)
        } else if kind == 1 {
            typed("hidden"@)
        } else {
            with_entry(typed("override"@), "value"@, as_nbt(second(v)))
        },
    )
}

/// The tag of a change of an attribute.
pub open spec fn modifier_tag(regs: Registries, v: Val) -> Option<Tag> {
    let id = second(v);
    let amount = second(id);
    let operation = second(amount);
    let place = second(operation);
    if 0 <= as_int(first(v)) < regs.attributes@.len() {
        Some(
            Tag::Compound(
                with_entry(
                    with_entry(
                        with_entry(
                            with_entry(
                                with_entry(
                                    with_entry(Seq::empty(), "type"@, Tag::String(regs.attributes@[as_int(first(v))]@)),
                                    "id"@,
                                    Tag::String(as_text(first(id))),
                                ),
                                "amount"@,
                                Tag::Double(as_bits(first(amount))),
                            ),
                            "operation"@,
                            Tag::String(operation_name(as_int(first(operation)))),
                        ),
                        "slot"@,
                        Tag::String(place_name(as_int(first(place)))),
                    ),
                    "display"@,
                    display_tag(second(place)),
                ),
            ),
        )
    } else {
        None
    }
}

/// The tags of the first `n` changes of attributes.
pub open spec fn modifier_tags(regs: Registries, l: Seq<Val>, n: nat) -> Option<Seq<Tag>>
    decreases n,
{
    if n == 0 || n > l.len() {
        Some(Seq::empty())
    } else {
        match (modifier_tags(regs, l, (n - 1) as nat), modifier_tag(regs, l[n - 1])) {
            (Some(head), Some(t)) => Some(head.push(t)),
            _ => None,
        }
    }
}

/// The tag of the value of a component that holds no stack. The component types that are named last
/// are stored as an empty compound, which says only that the component is there.
pub open spec fn plain_to_tag(k: DataComponent, regs: Registries, v: Val) -> Option<Tag> {
    match k {
        DataComponent::CustomData | DataComponent::ItemName | DataComponent::Lock => Some(as_nbt(v)),
        DataComponent::MaxStackSize
        | DataComponent::MaxDamage
        | DataComponent::Damage
        | DataComponent::DyedColor
        | DataComponent::MapId => Some(Tag::Int(as_int(v))),
        DataComponent::CustomName => Some(Tag::String(plain_text(as_nbt(v)))),
        DataComponent::ItemModel | DataComponent::TooltipStyle | DataComponent::NoteBlockSound | DataComponent::BaseColor => Some(
            Tag::String(as_text(v)),
        ),
        DataComponent::Lore => Some(Tag::List(line_tags(as_list(v)))),
        DataComponent::Rarity => Some(
            Tag::String(
                rarity_name(
                    if as_int(v) == 0 {
                        Rarity::Common
                    } else if as_int(v) == 1 {
                        Rarity::Uncommon
                    } else if as_int(v) == 2 {
                        Rarity::Rare
                    } else {
                        Rarity::Epic
                    },
                ),
            ),
        ),
        DataComponent::CustomModelData => Some(model_data_tag(v)),
        DataComponent::TooltipDisplay => Some(tooltip_display_tag(v)),
        DataComponent::BannerPatterns => Some(Tag::List(layer_tags(as_list(v)))),
        DataComponent::BlockEntityData => Some(as_nbt(second(v))),
        DataComponent::MapPostProcessing => Some(
            Tag::Int(
                match v {
                    Val::Present(p) => as_int(*p),
                    _ => 0,
                },
            ),
        ),
        DataComponent::LodestoneTracker => Some(tracker_tag(v)),
        DataComponent::FireworkExplosion => Some(explosion_tag(v)),
        DataComponent::Fireworks => Some(fireworks_tag(v)),
        DataComponent::Profile => Some(profile_tag(v)),
        DataComponent::JukeboxPlayable => Some(
            Tag::Compound(with_entry(Seq::empty(), "song"@, Tag::String("minecraft:"@ + bare_name(as_text(v))))),
        ),
        DataComponent::Recipes => Some(Tag::List(text_tags(as_list(v)))),
        DataComponent::MapDecorations => Some(
            Tag::Compound(decoration_entries(canonical(as_list(v), as_list(v).len()), 0, Seq::empty())),
        ),
        DataComponent::BlockState | DataComponent::DebugStickState => Some(Tag::Compound(pair_entries(as_list(v), 0, Seq::empty()))),
        DataComponent::ContainerLoot => Some(loot_tag(v)),
        DataComponent::WritableBookContent => Some(
            Tag::Compound(with_entry(Seq::empty(), "pages"@, Tag::List(page_tags(as_list(v))))),
        ),
        DataComponent::WrittenBookContent => Some(written_book_tag(v)),
        DataComponent::DeathProtection => match consume_effect_tags(regs, as_list(v), as_list(v).len()) {
            Some(l) => Some(Tag::Compound(with_entry(Seq::empty(), "death_effects"@, Tag::List(l)))),
            None => None,
        },
        DataComponent::Consumable => consumable_tag(regs, v),
        DataComponent::AttributeModifiers => match modifier_tags(regs, as_list(v), as_list(v).len()) {
            Some(l) => Some(Tag::List(l)),
            None => None,
        },
        DataComponent::Unbreakable
        | DataComponent::IntangibleProjectile
        | DataComponent::CreativeSlotLock
        | DataComponent::EnchantmentGlintOverride
        | DataComponent::Instrument
        | DataComponent::ProvidesTrimMaterial
        | DataComponent::ProvidesBannerPatterns
        | DataComponent::PotDecorations
        | DataComponent::BreakSound
        | DataComponent::Dye
        | DataComponent::MapColor
        | DataComponent::EntityData
        | DataComponent::BucketEntityData
        | DataComponent::Bees => Some(Tag::Compound(Seq::empty())),
        _ => None,
    }
}

/// The entries that the effective components of a patch from the `i`th entry on add to `c`: each
/// under its name, or under its name behind an exclamation mark where it is removed. A component whose
/// value has no stored form is left out.
pub open spec fn component_entries(regs: Registries, p: PatchVal, i: nat, c: Entries) -> Entries
    decreases p, p.len() - i,
{
    if i >= p.len() {
        c
    } else if last_place(p, p[i as int].0, i) is Some {
        component_entries(regs, p, i + 1, c)
    } else {
        match last_place(p, p[i as int].0, p.len()) {
            Some(j) => if 0 <= j < p.len() {
                match p[j].1 {
                    None => component_entries(
                        regs,
                        p,
                        i + 1,
                        with_entry(c, "!"@ + component_name(p[i as int].0), Tag::Compound(Seq::empty())),
                    ),
                    Some(v) => match data_to_tag(v.kind, regs, v.val) {
                        Some(t) => component_entries(regs, p, i + 1, with_entry(c, component_name(p[i as int].0), t)),
                        None => component_entries(regs, p, i + 1, c),
                    },
                }
            } else {
                c
            },
            None => c,
        }
    }
}

/// The entries that a stack adds to `c`: its item, its count and its components.
pub open spec fn stack_entries(regs: Registries, st: StackVal, c: Entries) -> Entries
    decreases st, 0nat,
{
    with_entry(
        with_entry(with_entry(c, "id"@, Tag::String("minecraft:"@ + st.item.registry_key@)), "count"@, Tag::Int(st.count)),
        "components"@,
        Tag::Compound(component_entries(regs, st.patch, 0, Seq::empty())),
    )
}

/// The tag of a stack.
pub open spec fn stack_tag(regs: Registries, v: Val) -> Tag
    decreases v, 1nat,
{
    match v {
        Val::Stack(st) => Tag::Compound(stack_entries(regs, st, Seq::empty())),
        _ => arbitrary(),
    }
}

/// The tags of the first `n` stacks.
pub open spec fn stack_tags(regs: Registries, l: Seq<Val>, n: nat) -> Seq<Tag>
    decreases l, n,
{
    if n == 0 || n > l.len() {
        Seq::empty()
    } else {
        stack_tags(regs, l, (n - 1) as nat).push(stack_tag(regs, l[n - 1]))
    }
}

/// The tag of a stack in a slot.
pub open spec fn slot_tag(regs: Registries, v: Val) -> Tag
    decreases v, 2nat,
{
    match v {
        Val::Pair(slot, st) => Tag::Compound(
            with_entry(with_entry(Seq::empty(), "slot"@, Tag::Int(as_int(*slot))), "item"@, stack_tag(regs, *st)),
        ),
        _ => arbitrary(),
    }
}

/// The tags of the first `n` stacks of a container.
pub open spec fn slot_tags(regs: Registries, l: Seq<Val>, n: nat) -> Seq<Tag>
    decreases l, n,
{
    if n == 0 || n > l.len() {
        Seq::empty()
    } else {
        slot_tags(regs, l, (n - 1) as nat).push(slot_tag(regs, l[n - 1]))
    }
}

/// The tag of the value of a component, where the library has a form of its own for it.
#[verifier::opaque]
pub open spec fn own_to_tag(k: DataComponent, regs: Registries, v: Val) -> Option<Tag>
    decreases v, 3nat,
{
    match k {
        DataComponent::UseRemainder | DataComponent::SulfurCubeContent => Some(stack_tag(regs, v)),
        DataComponent::BundleContents | DataComponent::ChargedProjectiles => match v {
            Val::List(l) => Some(Tag::List(stack_tags(regs, l, l.len()))),
            _ => arbitrary(),
        },
        DataComponent::Container => match v {
            Val::List(l) => Some(Tag::List(slot_tags(regs, l, l.len()))),
            _ => arbitrary(),
        },
        DataComponent::CanPlaceOn | DataComponent::CanBreak => Some(as_nbt(v)),
        _ => plain_to_tag(k, regs, v),
    }
}

/// The tag of the value of a component, where it has a stored form: the library's own, or one that
/// the registries hold.
pub open spec fn data_to_tag(k: DataComponent, regs: Registries, v: Val) -> Option<Tag>
    decreases v, 4nat,
{
    match own_to_tag(k, regs, v) {
        Some(t) => Some(t),
        None => tag_given(regs, k, v),
    }
}

/// The effective components of a patch from the `i`th entry on that have no stored form, those of
/// nested stacks among them.
pub open spec fn untold(regs: Registries, p: PatchVal, i: nat) -> Seq<ComponentVal>
    decreases p, p.len() - i,
{
    if i >= p.len() {
        Seq::empty()
    } else if last_place(p, p[i as int].0, i) is Some {
        untold(regs, p, i + 1)
    } else {
        match last_place(p, p[i as int].0, p.len()) {
            Some(j) => if 0 <= j < p.len() {
                match p[j].1 {
                    None => untold(regs, p, i + 1),
                    Some(v) => untold_in(v.kind, regs, v.val) + untold(regs, p, i + 1),
                }
            } else {
                Seq::empty()
            },
            None => Seq::empty(),
        }
    }
}

/// The components without a stored form that a stack has.
pub open spec fn untold_stack(regs: Registries, v: Val) -> Seq<ComponentVal>
    decreases v, 1nat,
{
    match v {
        Val::Stack(st) => untold(regs, st.patch, 0),
        _ => arbitrary(),
    }
}

/// The components without a stored form that the first `n` stacks have.
pub open spec fn untold_stacks(regs: Registries, l: Seq<Val>, n: nat) -> Seq<ComponentVal>
    decreases l, n,
{
    if n == 0 || n > l.len() {
        Seq::empty()
    } else {
        untold_stacks(regs, l, (n - 1) as nat) + untold_stack(regs, l[n - 1])
    }
}

/// The components without a stored form that a stack in a slot has.
pub open spec fn untold_slot(regs: Registries, v: Val) -> Seq<ComponentVal>
    decreases v, 2nat,
{
    match v {
        Val::Pair(_, st) => untold_stack(regs, *st),
        _ => arbitrary(),
    }
}

/// The components without a stored form that the first `n` stacks of a container have.
pub open spec fn untold_slots(regs: Registries, l: Seq<Val>, n: nat) -> Seq<ComponentVal>
    decreases l, n,
{
    if n == 0 || n > l.len() {
        Seq::empty()
    } else {
        untold_slots(regs, l, (n - 1) as nat) + untold_slot(regs, l[n - 1])
    }
}

/// The components without a stored form in the value of a component: itself, or those of the stacks
/// that it holds.
pub open spec fn untold_in(k: DataComponent, regs: Registries, v: Val) -> Seq<ComponentVal>
    decreases v, 3nat,
{
    match k {
        DataComponent::UseRemainder | DataComponent::SulfurCubeContent => untold_stack(regs, v),
        DataComponent::BundleContents | DataComponent::ChargedProjectiles => match v {
            Val::List(l) => untold_stacks(regs, l, l.len()),
            _ => arbitrary(),
        },
        DataComponent::Container => match v {
            Val::List(l) => untold_slots(regs, l, l.len()),
            _ => arbitrary(),
        },
        _ => if data_to_tag(k, regs, v) is None {
            seq![ComponentVal { kind: k, val: v }]
        } else {
            Seq::empty()
        },
    }
}

} // verus!
