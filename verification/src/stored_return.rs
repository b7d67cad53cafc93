//! Components come back from their stored forms.
use vstd::prelude::*;
use crate::basic::Rarity;
use crate::component_names::lemma_component_of_own_name;
use crate::data_component::{component_name, component_of_id, lemma_component_id_of, DataComponent};
use crate::format::{dye_id, dye_name, effect_val, is_component, optional, pair, plain_text, Val};
use crate::identifier::{bare_name, identifier_of};
use crate::nbt_tag::{bool_tag, compound_get, compound_put, lemma_get_of_put, lemma_key_index, Tag};
use crate::persist::{animation_from, animation_name, as_bits, as_bool, as_int, as_list, as_nbt, as_text, block_state_from, canonical, component_tags, consumable_from, consume_effect_from, consume_effect_tag, consume_effect_tags, consume_effects_from, decoration_entries, decoration_from, decoration_tag, decorations_from, display_from, display_tag, effect_details_from, effect_entries, effect_ids_from, effect_tag, effect_tags, effects_from, explosion_from, explosion_tag, explosion_tags, explosions_from, fireworks_from, fireworks_tag, first, flag_tags, float_tags, hidden_from, int_tags, int_vals, ints_in, layer_tag, layer_tags, layers_from, line_tags, loot_from, loot_tag, model_data_from, model_data_tag, modifier_from, modifier_tag, modifier_tags, modifiers_from, names_of, operation_name, page_tags, pages_from, pair_entries, pick, picked, place_from, place_name, plain_from_tag, plain_to_tag, profile_from, profile_tag, properties_from, property_tag, property_tags, protection_from, raw_pages_from, recipes_from, removed_from, removed_tag, second, shape_of, song_from, sound_tag, stick_from, target_from, target_tag, text_less, text_tags, tooltip_display_tag, tooltip_from, tracker_from, tracker_tag, with_entry, with_text, written_book_from, written_book_tag, Entries, Pick, ONE};
use crate::registry::{find_block_from, find_name, Block, Registries};
use crate::same::key_of;
use crate::sorted::{ascending, lemma_less_is_strict};
use crate::utility::firework_explosion_shape_name;

verus! {

/// Every key of a compound with one entry more.
pub(crate) proof fn lemma_put(c: Entries, key: Seq<char>, t: Tag)
    ensures
        compound_get(compound_put(c, key, t), key) == Some(t),
        forall|other: Seq<char>|
            other != key ==> #[trigger] compound_get(compound_put(c, key, t), other) == compound_get(c, other),
{
    assert forall|other: Seq<char>| other != key implies #[trigger] compound_get(compound_put(c, key, t), other) == compound_get(c, other) by {
        lemma_get_of_put(c, key, t, other);
    }
    lemma_get_of_put(c, key, t, key);
}

pub(crate) proof fn lemma_no_entries()
    ensures
        forall|key: Seq<char>| #[trigger] compound_get(Seq::<(Seq<char>, Tag)>::empty(), key) is None,
{
}

/// What the items of a list are stored as and read back as.
pub open spec fn pick_tag(p: Pick, v: Val) -> Tag {
    match p {
        Pick::Text => Tag::String(as_text(v)),
        Pick::Line => Tag::String(plain_text(as_nbt(v))),
        Pick::Flag => bool_tag(as_bool(v)),
        Pick::Int => Tag::Int(as_int(v)),
        Pick::Float => Tag::Float(as_bits(v)),
    }
}

/// Whether a value is one that is read back from the items of a list.
pub open spec fn pick_keeps(p: Pick, v: Val) -> bool {
    match p {
        Pick::Text => v is Text,
        Pick::Line => v matches Val::Nbt(t) && t is String,
        Pick::Flag => v is Bool,
        Pick::Int => v is Int,
        Pick::Float => v matches Val::Float(n, _) && n == 4,
    }
}

/// Whether all values of a list are read back.
pub open spec fn all_picked(p: Pick, l: Seq<Val>) -> bool {
    forall|i: int| 0 <= i < l.len() ==> pick_keeps(p, #[trigger] l[i])
}

pub(crate) proof fn lemma_picked(p: Pick, l: Seq<Val>, tags: Seq<Tag>, n: nat)
    requires
        n <= l.len(),
        tags.len() == l.len(),
        all_picked(p, l),
        forall|i: int| 0 <= i < l.len() ==> #[trigger] tags[i] == pick_tag(p, l[i]),
    ensures
        picked(p, tags, n) == l.take(n as int),
    decreases n,
{
    if n > 0 {
        lemma_picked(p, l, tags, (n - 1) as nat);
        assert(tags[n - 1] == pick_tag(p, l[n - 1]));
        assert(pick(p, tags[n - 1]) == Some(l[n - 1]));
        assert(l.take(n as int) =~= l.take(n - 1).push(l[n - 1]));
    } else {
        assert(l.take(0) =~= Seq::empty());
    }
}

pub(crate) proof fn lemma_all_picked(p: Pick, l: Seq<Val>, tags: Seq<Tag>)
    requires
        tags.len() == l.len(),
        all_picked(p, l),
        forall|i: int| 0 <= i < l.len() ==> #[trigger] tags[i] == pick_tag(p, l[i]),
    ensures
        picked(p, tags, tags.len()) == l,
{
    lemma_picked(p, l, tags, l.len());
    assert(l.take(l.len() as int) =~= l);
}

/// Whether a value is a list of numbers.
pub open spec fn all_ints(v: Val) -> bool {
    v matches Val::List(l) && all_picked(Pick::Int, l)
}

pub(crate) proof fn lemma_ints(l: Seq<Val>)
    requires
        all_picked(Pick::Int, l),
    ensures
        int_vals(ints_in(l)) == l,
{
    assert forall|i: int| 0 <= i < l.len() implies #[trigger] l[i] == Val::Int(as_int(l[i])) by {
        assert(pick_keeps(Pick::Int, l[i]));
    }
    assert(int_vals(ints_in(l)) =~= l);
}

pub(crate) proof fn lemma_rarity_names()
    ensures
        "common"@ != "uncommon"@,
        "common"@ != "rare"@,
        "common"@ != "epic"@,
        "uncommon"@ != "rare"@,
        "uncommon"@ != "epic"@,
        "rare"@ != "epic"@,
{
    reveal_strlit("common");
    reveal_strlit("uncommon");
    reveal_strlit("rare");
    reveal_strlit("epic");
    assert("rare"@[0] != "epic"@[0]);
    assert("common"@.len() == 6);
    assert("uncommon"@.len() == 8);
    assert("rare"@.len() == 4);
    assert("epic"@.len() == 4);
}

/// Whether a value is what a resource pack selects a model by.
pub open spec fn model_data_keeps(v: Val) -> bool {
    v matches Val::Pair(a, x) && (*x matches Val::Pair(b, y) && (*y matches Val::Pair(c, d) && (*a matches Val::List(floats) && all_picked(
        Pick::Float,
        floats,
    )) && (*b matches Val::List(flags) && all_picked(Pick::Flag, flags)) && (*c matches Val::List(texts) && all_picked(Pick::Text, texts))
        && all_ints(*d)))
}

pub(crate) proof fn lemma_model_data_keys()
    ensures
        "floats"@ != "flags"@,
        "floats"@ != "strings"@,
        "floats"@ != "colors"@,
        "flags"@ != "strings"@,
        "flags"@ != "colors"@,
        "strings"@ != "colors"@,
{
    reveal_strlit("floats");
    reveal_strlit("flags");
    reveal_strlit("strings");
    reveal_strlit("colors");
    assert("floats"@[0] != "colors"@[0]);
    assert("floats"@.len() == 6);
    assert("flags"@.len() == 5);
    assert("strings"@.len() == 7);
    assert("colors"@.len() == 6);
}

pub(crate) proof fn lemma_model_data(v: Val)
    requires
        model_data_keeps(v),
    ensures
        model_data_from(model_data_tag(v)) == Some(v),
{
    lemma_model_data_keys();
    let floats = as_list(first(v));
    let flags = as_list(first(second(v)));
    let texts = as_list(first(second(second(v))));
    let colors = as_list(second(second(second(v))));
    let c1 = with_entry(Seq::empty(), "floats"@, Tag::List(float_tags(floats)));
    let c2 = with_entry(c1, "flags"@, Tag::List(flag_tags(flags)));
    let c3 = with_entry(c2, "strings"@, Tag::List(text_tags(texts)));
    lemma_put(Seq::empty(), "floats"@, Tag::List(float_tags(floats)));
    lemma_put(c1, "flags"@, Tag::List(flag_tags(flags)));
    lemma_put(c2, "strings"@, Tag::List(text_tags(texts)));
    lemma_put(c3, "colors"@, Tag::List(int_tags(colors)));
    lemma_all_picked(Pick::Float, floats, float_tags(floats));
    lemma_all_picked(Pick::Flag, flags, flag_tags(flags));
    lemma_all_picked(Pick::Text, texts, text_tags(texts));
    lemma_all_picked(Pick::Int, colors, int_tags(colors));
}

/// Whether a value is the display of a tooltip.
pub open spec fn tooltip_keeps(v: Val) -> bool {
    v matches Val::Pair(a, b) && *a is Bool && (*b matches Val::List(l) && (forall|i: int|
        0 <= i < l.len() ==> (#[trigger] l[i] matches Val::Int(id) && component_of_id(id) is Some)) && l.no_duplicates())
}

pub(crate) proof fn lemma_hidden(l: Seq<Val>, n: nat)
    requires
        n <= l.len(),
        forall|i: int| 0 <= i < l.len() ==> (#[trigger] l[i] matches Val::Int(id) && component_of_id(id) is Some),
        l.no_duplicates(),
    ensures
        hidden_from(component_tags(l), n) == Some(l.take(n as int)),
    decreases n,
{
    if n > 0 {
        lemma_hidden(l, (n - 1) as nat);
        let id = l[n - 1]->Int_0;
        let k = component_of_id(id)->0;
        assert(l[n - 1] == Val::Int(id));
        lemma_component_id_of(id);
        lemma_component_of_own_name(k);
        assert(component_tags(l)[n - 1] == Tag::String(component_name(k)));
        let head = l.take(n - 1);
        assert(!head.contains(l[n - 1])) by {
            assert forall|i: int| 0 <= i < head.len() implies head[i] != l[n - 1] by {
                assert(head[i] == l[i]);
            }
        }
        assert(l.take(n as int) =~= head.push(l[n - 1]));
    } else {
        assert(l.take(0) =~= Seq::empty());
    }
}

pub(crate) proof fn lemma_tooltip_keys()
    ensures
        "hide_tooltip"@ != "hidden_components"@,
{
    reveal_strlit("hide_tooltip");
    reveal_strlit("hidden_components");
    assert("hide_tooltip"@.len() == 12);
    assert("hidden_components"@.len() == 17);
}

pub(crate) proof fn lemma_tooltip(v: Val)
    requires
        tooltip_keeps(v),
    ensures
        tooltip_from(tooltip_display_tag(v)) == Some(v),
{
    lemma_tooltip_keys();
    let l = as_list(second(v));
    let hide = bool_tag(as_bool(first(v)));
    let c1 = with_entry(Seq::empty(), "hide_tooltip"@, hide);
    lemma_put(Seq::empty(), "hide_tooltip"@, hide);
    lemma_put(c1, "hidden_components"@, Tag::List(component_tags(l)));
    lemma_hidden(l, l.len());
    assert(l.take(l.len() as int) =~= l);
}

/// A number made of the length and some characters of the name of a dye colour.
pub open spec fn dye_code(t: Seq<char>) -> int {
    t.len() + 0x100 * (t[0] as int) + 0x1_0000 * (t[t.len() - 2] as int)
}

/// The number that is made of the name of a dye colour.
pub open spec fn dye_code_of(i: int) -> int {
    seq![7632645int, 6778630, 7630087, 7695370, 7305478, 7171076, 7237636, 6383364, 6384650, 6382340, 7106566, 7692804, 7823877, 6645509, 6648323, 6513157][i]
}

pub(crate) proof fn lemma_dye_code(i: int)
    requires
        0 <= i < 16,
    ensures
        dye_code(dye_name(i)) == dye_code_of(i),
{
    reveal_strlit("white");
    reveal_strlit("orange");
    reveal_strlit("magenta");
    reveal_strlit("light_blue");
    reveal_strlit("yellow");
    reveal_strlit("lime");
    reveal_strlit("pink");
    reveal_strlit("gray");
    reveal_strlit("light_gray");
    reveal_strlit("cyan");
    reveal_strlit("purple");
    reveal_strlit("blue");
    reveal_strlit("brown");
    reveal_strlit("green");
    reveal_strlit("red");
    reveal_strlit("black");
}

pub(crate) proof fn lemma_dye_back(i: int, from: int)
    requires
        0 <= from <= i < 16,
    ensures
        dye_id(dye_name(i), from) == Some(i),
    decreases i - from,
{
    lemma_dye_code(i);
    lemma_dye_code(from);
    if from < i {
        assert(dye_code_of(from) != dye_code_of(i));
        lemma_dye_back(i, from + 1);
    }
}

pub(crate) proof fn lemma_layer_keys()
    ensures
        "pattern"@ != "color"@,
{
    reveal_strlit("pattern");
    reveal_strlit("color");
    assert("pattern"@.len() == 7);
    assert("color"@.len() == 5);
}

/// Whether a value is the layers of a banner.
pub open spec fn layers_keep(v: Val) -> bool {
    v matches Val::List(l) && forall|i: int|
        0 <= i < l.len() ==> (#[trigger] l[i] matches Val::Pair(a, b) && *a is Text && (*b matches Val::Int(d) && 0 <= d < 16))
}

pub(crate) proof fn lemma_layers(l: Seq<Val>, n: nat)
    requires
        n <= l.len(),
        layers_keep(Val::List(l)),
    ensures
        layers_from(layer_tags(l), n) == Some(l.take(n as int)),
    decreases n,
{
    if n > 0 {
        lemma_layers(l, (n - 1) as nat);
        lemma_layer_keys();
        let v = l[n - 1];
        assert(v is Pair);
        let pattern = Tag::String(as_text(first(v)));
        let color = Tag::String(dye_name(as_int(second(v))));
        lemma_put(Seq::empty(), "pattern"@, pattern);
        lemma_put(with_entry(Seq::empty(), "pattern"@, pattern), "color"@, color);
        lemma_dye_back(as_int(second(v)), 0);
        assert(layer_tags(l)[n - 1] == layer_tag(v));
        assert(v == pair(Val::Text(as_text(first(v))), Val::Int(as_int(second(v)))));
        assert(l.take(n as int) =~= l.take(n - 1).push(v));
    } else {
        assert(l.take(0) =~= Seq::empty());
    }
}

pub(crate) proof fn lemma_tracker_keys()
    ensures
        "dimension"@ != "pos"@,
        "dimension"@ != "target"@,
        "dimension"@ != "tracked"@,
        "pos"@ != "target"@,
        "pos"@ != "tracked"@,
        "target"@ != "tracked"@,
{
    reveal_strlit("dimension");
    reveal_strlit("pos");
    reveal_strlit("target");
    reveal_strlit("tracked");
    assert("dimension"@.len() == 9);
    assert("pos"@.len() == 3);
    assert("target"@.len() == 6);
    assert("tracked"@.len() == 7);
}

/// Whether a value is what a lodestone compass points to.
pub open spec fn tracker_keeps(v: Val) -> bool {
    v matches Val::Pair(a, b) && *b is Bool && (*a == Val::Absent || (*a matches Val::Present(t) && (*t matches Val::Pair(d, x) && *d is Text
        && (*x matches Val::Pair(x, y) && *x is Int && (*y matches Val::Pair(y, z) && *y is Int && *z is Int)))))
}

pub(crate) proof fn lemma_tracker(v: Val)
    requires
        tracker_keeps(v),
    ensures
        tracker_from(tracker_tag(v)) == Some(v),
{
    lemma_tracker_keys();
    let b = bool_tag(as_bool(second(v)));
    match first(v) {
        Val::Present(t) => {
            let t = *t;
            let d = Tag::String(as_text(first(t)));
            let p = Tag::IntArray(seq![as_int(first(second(t))), as_int(first(second(second(t)))), as_int(second(second(second(t))))]);
            let c1 = with_entry(Seq::empty(), "dimension"@, d);
            let c2 = with_entry(c1, "pos"@, p);
            lemma_put(Seq::empty(), "dimension"@, d);
            lemma_put(c1, "pos"@, p);
            let e = with_entry(Seq::empty(), "target"@, Tag::Compound(c2));
            lemma_put(Seq::empty(), "target"@, Tag::Compound(c2));
            lemma_put(e, "tracked"@, b);
            assert(target_from(Some(target_tag(t))) == optional(Some(t)));
        },
        _ => {
            lemma_put(Seq::empty(), "tracked"@, b);
            lemma_no_entries();
        },
    }
}

pub(crate) proof fn lemma_shape_names()
    ensures
        "small_ball"@ != "large_ball"@,
        "small_ball"@ != "star"@,
        "small_ball"@ != "creeper"@,
        "small_ball"@ != "burst"@,
        "large_ball"@ != "star"@,
        "large_ball"@ != "creeper"@,
        "large_ball"@ != "burst"@,
        "star"@ != "creeper"@,
        "star"@ != "burst"@,
        "creeper"@ != "burst"@,
{
    reveal_strlit("small_ball");
    reveal_strlit("large_ball");
    reveal_strlit("star");
    reveal_strlit("creeper");
    reveal_strlit("burst");
    assert("small_ball"@[0] != "large_ball"@[0]);
    assert("small_ball"@.len() == 10);
    assert("large_ball"@.len() == 10);
    assert("star"@.len() == 4);
    assert("creeper"@.len() == 7);
    assert("burst"@.len() == 5);
}

pub(crate) proof fn lemma_explosion_keys()
    ensures
        "shape"@ != "colors"@,
        "shape"@ != "fade_colors"@,
        "shape"@ != "has_trail"@,
        "shape"@ != "has_twinkle"@,
        "colors"@ != "fade_colors"@,
        "colors"@ != "has_trail"@,
        "colors"@ != "has_twinkle"@,
        "fade_colors"@ != "has_trail"@,
        "fade_colors"@ != "has_twinkle"@,
        "has_trail"@ != "has_twinkle"@,
{
    reveal_strlit("shape");
    reveal_strlit("colors");
    reveal_strlit("fade_colors");
    reveal_strlit("has_trail");
    reveal_strlit("has_twinkle");
    assert("fade_colors"@[0] != "has_twinkle"@[0]);
    assert("shape"@.len() == 5);
    assert("colors"@.len() == 6);
    assert("fade_colors"@.len() == 11);
    assert("has_trail"@.len() == 9);
    assert("has_twinkle"@.len() == 11);
}

/// Whether a value is an explosion of a firework.
pub open spec fn explosion_keeps(v: Val) -> bool {
    v matches Val::Pair(a, x) && (*a matches Val::Int(i) && 0 <= i < 5) && (*x matches Val::Pair(b, y) && all_ints(*b) && (*y matches Val::Pair(
        c,
        z,
    ) && all_ints(*c) && (*z matches Val::Pair(d, e) && *d is Bool && *e is Bool)))
}

pub(crate) proof fn lemma_explosion(v: Val)
    requires
        explosion_keeps(v),
    ensures
        explosion_from(explosion_tag(v)) == Some(v),
{
    lemma_shape_names();
    lemma_explosion_keys();
    let colors = second(v);
    let fade = second(colors);
    let flags = second(fade);
    let shape = Tag::String(firework_explosion_shape_name(shape_of(as_int(first(v)))));
    let a = Tag::IntArray(ints_in(as_list(first(colors))));
    let b = Tag::IntArray(ints_in(as_list(first(fade))));
    let d = bool_tag(as_bool(first(flags)));
    let e = bool_tag(as_bool(second(flags)));
    let c1 = with_entry(Seq::empty(), "shape"@, shape);
    let c2 = with_entry(c1, "colors"@, a);
    let c3 = with_entry(c2, "fade_colors"@, b);
    let c4 = with_entry(c3, "has_trail"@, d);
    lemma_put(Seq::empty(), "shape"@, shape);
    lemma_put(c1, "colors"@, a);
    lemma_put(c2, "fade_colors"@, b);
    lemma_put(c3, "has_trail"@, d);
    lemma_put(c4, "has_twinkle"@, e);
    lemma_ints(as_list(first(colors)));
    lemma_ints(as_list(first(fade)));
}

/// Whether a value is a firework.
pub open spec fn fireworks_keep(v: Val) -> bool {
    v matches Val::Pair(a, b) && *a is Int && (*b matches Val::List(l) && forall|i: int| 0 <= i < l.len() ==> explosion_keeps(#[trigger] l[i]))
}

pub(crate) proof fn lemma_explosions(l: Seq<Val>, n: nat)
    requires
        n <= l.len(),
        forall|i: int| 0 <= i < l.len() ==> explosion_keeps(#[trigger] l[i]),
    ensures
        explosions_from(explosion_tags(l), n) == l.take(n as int),
    decreases n,
{
    if n > 0 {
        lemma_explosions(l, (n - 1) as nat);
        lemma_explosion(l[n - 1]);
        assert(explosion_tags(l)[n - 1] == explosion_tag(l[n - 1]));
        assert(l.take(n as int) =~= l.take(n - 1).push(l[n - 1]));
    } else {
        assert(l.take(0) =~= Seq::empty());
    }
}

pub(crate) proof fn lemma_fireworks_keys()
    ensures
        "flight_duration"@ != "explosions"@,
{
    reveal_strlit("flight_duration");
    reveal_strlit("explosions");
    assert("flight_duration"@.len() == 15);
    assert("explosions"@.len() == 10);
}

pub(crate) proof fn lemma_fireworks(v: Val)
    requires
        fireworks_keep(v),
    ensures
        fireworks_from(fireworks_tag(v)) == Some(v),
{
    lemma_fireworks_keys();
    let l = as_list(second(v));
    let d = Tag::Int(as_int(first(v)));
    let c1 = with_entry(Seq::empty(), "flight_duration"@, d);
    lemma_put(Seq::empty(), "flight_duration"@, d);
    lemma_put(c1, "explosions"@, Tag::List(explosion_tags(l)));
    lemma_explosions(l, l.len());
    assert(l.take(l.len() as int) =~= l);
}

/// Whether a value is a text that may be absent.
pub open spec fn is_opt_text(v: Val) -> bool {
    v == Val::Absent || (v matches Val::Present(t) && *t is Text)
}

pub(crate) proof fn lemma_property_keys()
    ensures
        "name"@ != "value"@,
        "name"@ != "signature"@,
        "value"@ != "signature"@,
{
    reveal_strlit("name");
    reveal_strlit("value");
    reveal_strlit("signature");
    assert("name"@.len() == 4);
    assert("value"@.len() == 5);
    assert("signature"@.len() == 9);
}

/// Whether a value is a property of a profile.
pub open spec fn property_keeps(v: Val) -> bool {
    v matches Val::Pair(a, x) && *a is Text && (*x matches Val::Pair(b, c) && *b is Text && is_opt_text(*c))
}

pub(crate) proof fn lemma_properties(l: Seq<Val>, n: nat)
    requires
        n <= l.len(),
        forall|i: int| 0 <= i < l.len() ==> property_keeps(#[trigger] l[i]),
    ensures
        properties_from(property_tags(l), n) == l.take(n as int),
    decreases n,
{
    if n > 0 {
        lemma_properties(l, (n - 1) as nat);
        lemma_property_keys();
        let v = l[n - 1];
        assert(property_keeps(v));
        let name = Tag::String(as_text(first(v)));
        let value = Tag::String(as_text(first(second(v))));
        let c1 = with_entry(Seq::empty(), "name"@, name);
        let c2 = with_entry(c1, "value"@, value);
        lemma_no_entries();
        lemma_put(Seq::empty(), "name"@, name);
        lemma_put(c1, "value"@, value);
        match second(second(v)) {
            Val::Present(t) => {
                lemma_put(c2, "signature"@, Tag::String(as_text(*t)));
            },
            _ => {},
        }
        assert(property_tags(l)[n - 1] == property_tag(v));
        assert(l.take(n as int) =~= l.take(n - 1).push(v));
    } else {
        assert(l.take(0) =~= Seq::empty());
    }
}

pub(crate) proof fn lemma_profile_keys()
    ensures
        "name"@ != "id"@,
        "name"@ != "properties"@,
        "name"@ != "texture"@,
        "name"@ != "cape"@,
        "name"@ != "elytra"@,
        "name"@ != "model"@,
        "id"@ != "properties"@,
        "id"@ != "texture"@,
        "id"@ != "cape"@,
        "id"@ != "elytra"@,
        "id"@ != "model"@,
        "properties"@ != "texture"@,
        "properties"@ != "cape"@,
        "properties"@ != "elytra"@,
        "properties"@ != "model"@,
        "texture"@ != "cape"@,
        "texture"@ != "elytra"@,
        "texture"@ != "model"@,
        "cape"@ != "elytra"@,
        "cape"@ != "model"@,
        "elytra"@ != "model"@,
{
    reveal_strlit("name");
    reveal_strlit("id");
    reveal_strlit("properties");
    reveal_strlit("texture");
    reveal_strlit("cape");
    reveal_strlit("elytra");
    reveal_strlit("model");
    assert("name"@[0] != "cape"@[0]);
    assert("name"@.len() == 4);
    assert("id"@.len() == 2);
    assert("properties"@.len() == 10);
    assert("texture"@.len() == 7);
    assert("cape"@.len() == 4);
    assert("elytra"@.len() == 6);
    assert("model"@.len() == 5);
}

/// Whether a value is the profile of a player.
pub open spec fn profile_keeps(v: Val) -> bool {
    let head = first(v);
    let looks = second(second(v));
    v == pair(
        pair(first(head), second(head)),
        pair(first(second(v)), pair(first(looks), pair(first(second(looks)), pair(first(second(second(looks))), second(second(second(looks))))))),
    ) && is_opt_text(first(head)) && (second(head) == Val::Absent || (second(head) matches Val::Present(id) && *id == pair(
        Val::Int(as_int(first(*id))),
        pair(
            Val::Int(as_int(first(second(*id)))),
            pair(Val::Int(as_int(first(second(second(*id))))), Val::Int(as_int(second(second(second(*id)))))),
        ),
    ))) && (first(second(v)) matches Val::List(l) && forall|i: int| 0 <= i < l.len() ==> property_keeps(#[trigger] l[i])) && is_opt_text(
        first(looks),
    ) && is_opt_text(first(second(looks))) && is_opt_text(first(second(second(looks)))) && is_opt_text(second(second(second(looks))))
}

/// Every key of a compound with one text more, where there is one.
pub(crate) proof fn lemma_put_text(c: Entries, key: Seq<char>, v: Val)
    requires
        is_opt_text(v),
        compound_get(c, key) is None,
    ensures
        crate::persist::opt_text_at(with_text(c, key, v), key) == v,
        forall|other: Seq<char>| other != key ==> #[trigger] compound_get(with_text(c, key, v), other) == compound_get(c, other),
{
    match v {
        Val::Present(t) => {
            lemma_put(c, key, Tag::String(as_text(*t)));
        },
        _ => {},
    }
}

pub(crate) proof fn lemma_profile(v: Val)
    requires
        profile_keeps(v),
    ensures
        profile_from(profile_tag(v)) == Some(v),
{
    lemma_profile_keys();
    lemma_no_entries();
    let head = first(v);
    let looks = second(second(v));
    let l = as_list(first(second(v)));
    let c1 = with_text(Seq::empty(), "name"@, first(head));
    lemma_put_text(Seq::empty(), "name"@, first(head));
    let c2 = match second(head) {
        Val::Present(id) => with_entry(
            c1,
            "id"@,
            Tag::IntArray(
                seq![
                    as_int(first(*id)),
                    as_int(first(second(*id))),
                    as_int(first(second(second(*id)))),
                    as_int(second(second(second(*id)))),
                ],
            ),
        ),
        _ => c1,
    };
    match second(head) {
        Val::Present(id) => {
            lemma_put(
                c1,
                "id"@,
                Tag::IntArray(
                    seq![
                        as_int(first(*id)),
                        as_int(first(second(*id))),
                        as_int(first(second(second(*id)))),
                        as_int(second(second(second(*id)))),
                    ],
                ),
            );
        },
        _ => {},
    }
    let c3 = crate::persist::profile_head(v);
    lemma_put(c2, "properties"@, Tag::List(property_tags(l)));
    lemma_properties(l, l.len());
    assert(l.take(l.len() as int) =~= l);
    if l.len() == 0 {
        assert(l =~= Seq::empty());
        assert(properties_from(Seq::empty(), 0) =~= Seq::<Val>::empty());
    }
    let c4 = with_text(c3, "texture"@, first(looks));
    let c5 = with_text(c4, "cape"@, first(second(looks)));
    let c6 = with_text(c5, "elytra"@, first(second(second(looks))));
    lemma_put_text(c3, "texture"@, first(looks));
    lemma_put_text(c4, "cape"@, first(second(looks)));
    lemma_put_text(c5, "elytra"@, first(second(second(looks))));
    lemma_put_text(c6, "model"@, second(second(second(looks))));
}

/// A name behind the default namespace is the name without it.
pub(crate) proof fn lemma_bare(t: Seq<char>)
    ensures
        bare_name("minecraft:"@ + t) == t,
        "minecraft:"@.is_prefix_of("minecraft:"@ + t),
{
    let m = "minecraft:"@;
    assert((m + t).subrange(0, m.len() as int) =~= m);
    assert((m + t).skip(m.len() as int) =~= t);
}

/// A name with the default namespace is that namespace and the rest.
pub(crate) proof fn lemma_full(t: Seq<char>)
    requires
        "minecraft:"@.is_prefix_of(t),
    ensures
        "minecraft:"@ + bare_name(t) == t,
{
    let m = "minecraft:"@;
    assert(t.subrange(0, m.len() as int) =~= m);
    assert(m + t.skip(m.len() as int) =~= t);
}

/// Whether a value is a song that is in the registry.
pub open spec fn song_keeps(regs: Registries, v: Val) -> bool {
    v matches Val::Text(t) && "minecraft:"@.is_prefix_of(t) && find_name(regs.songs@, bare_name(t)) is Some
}

pub(crate) proof fn lemma_song(regs: Registries, v: Val)
    requires
        song_keeps(regs, v),
    ensures
        song_from(regs, Tag::Compound(with_entry(Seq::empty(), "song"@, Tag::String("minecraft:"@ + bare_name(as_text(v)))))) == Some(v),
{
    let t = as_text(v);
    lemma_full(t);
    lemma_put(Seq::empty(), "song"@, Tag::String("minecraft:"@ + bare_name(t)));
}

/// Whether a value is a list of identifiers that are written out.
pub open spec fn recipes_keep(v: Val) -> bool {
    v matches Val::List(l) && forall|i: int| 0 <= i < l.len() ==> (#[trigger] l[i] matches Val::Text(t) && identifier_of(t) == Some(t))
}

pub(crate) proof fn lemma_recipes(l: Seq<Val>, n: nat)
    requires
        n <= l.len(),
        recipes_keep(Val::List(l)),
    ensures
        recipes_from(text_tags(l), n) == Some(l.take(n as int)),
    decreases n,
{
    if n > 0 {
        lemma_recipes(l, (n - 1) as nat);
        let v = l[n - 1];
        assert(v is Text);
        assert(text_tags(l)[n - 1] == Tag::String(as_text(v)));
        assert(l.take(n as int) =~= l.take(n - 1).push(v));
    } else {
        assert(l.take(0) =~= Seq::empty());
    }
}

pub(crate) proof fn lemma_decoration_keys()
    ensures
        "type"@ != "x"@,
        "type"@ != "z"@,
        "type"@ != "rotation"@,
        "x"@ != "z"@,
        "x"@ != "rotation"@,
        "z"@ != "rotation"@,
{
    reveal_strlit("type");
    reveal_strlit("x");
    reveal_strlit("z");
    reveal_strlit("rotation");
    assert("x"@[0] != "z"@[0]);
    assert("type"@.len() == 4);
    assert("x"@.len() == 1);
    assert("z"@.len() == 1);
    assert("rotation"@.len() == 8);
}

/// Whether a value is a marker on a map.
pub open spec fn decoration_keeps(v: Val) -> bool {
    v matches Val::Pair(k, e) && *k is Text && (*e matches Val::Pair(kind, p) && (*kind matches Val::Text(t) && identifier_of(t) == Some(t))
        && (*p matches Val::Pair(x, q) && (*x matches Val::Float(n, _) && n == 8) && (*q matches Val::Pair(z, r) && (*z matches Val::Float(n, _)
        && n == 8) && (*r matches Val::Float(n, _) && n == 4))))
}

pub(crate) proof fn lemma_decoration(v: Val)
    requires
        decoration_keeps(v),
    ensures
        decoration_from(key_of(v), decoration_tag(v)) == Some(v),
{
    lemma_decoration_keys();
    let e = second(v);
    let kind = Tag::String(as_text(first(e)));
    let x = Tag::Double(as_bits(first(second(e))));
    let z = Tag::Double(as_bits(first(second(second(e)))));
    let r = Tag::Float(as_bits(second(second(second(e)))));
    let c1 = with_entry(Seq::empty(), "type"@, kind);
    let c2 = with_entry(c1, "x"@, x);
    let c3 = with_entry(c2, "z"@, z);
    lemma_put(Seq::empty(), "type"@, kind);
    lemma_put(c1, "x"@, x);
    lemma_put(c2, "z"@, z);
    lemma_put(c3, "rotation"@, r);
}

/// Whether the keys of a list come once each.
pub open spec fn keys_single(l: Seq<Val>) -> bool {
    forall|i: int, j: int| 0 <= i < j < l.len() ==> key_of(#[trigger] l[i]) != key_of(#[trigger] l[j])
}

pub(crate) proof fn lemma_ascending_single(l: Seq<Val>)
    requires
        ascending(l),
    ensures
        keys_single(l),
{
    assert forall|i: int, j: int| 0 <= i < j < l.len() implies key_of(#[trigger] l[i]) != key_of(#[trigger] l[j]) by {
        lemma_less_is_strict(key_of(l[i]));
        assert(text_less(key_of(l[i]), key_of(l[j])));
    }
}

pub(crate) proof fn lemma_canonical_of_ascending(l: Seq<Val>, n: nat)
    requires
        n <= l.len(),
        ascending(l),
    ensures
        canonical(l, n) == l.take(n as int),
    decreases n,
{
    if n > 0 {
        lemma_canonical_of_ascending(l, (n - 1) as nat);
        let head = l.take(n - 1);
        if n > 1 {
            assert(head.last() == l[n - 2]);
            assert(text_less(key_of(l[n - 2]), key_of(l[n - 1])));
        } else {
            assert(head =~= Seq::empty());
        }
        assert(l.take(n as int) =~= head.push(l[n - 1]));
    } else {
        assert(l.take(0) =~= Seq::empty());
    }
}

/// The entries of a compound that has one for each key of a list.
pub open spec fn keyed_entries(l: Seq<Val>, tag: spec_fn(Val) -> Tag) -> Entries {
    Seq::new(l.len(), |i: int| (key_of(l[i]), tag(l[i])))
}

pub(crate) proof fn lemma_fresh_key(l: Seq<Val>, tag: spec_fn(Val) -> Tag, i: int)
    requires
        keys_single(l),
        0 <= i < l.len(),
    ensures
        compound_put(keyed_entries(l, tag).take(i), key_of(l[i]), tag(l[i])) == keyed_entries(l, tag).take(i + 1),
{
    let c = keyed_entries(l, tag).take(i);
    assert forall|j: int| 0 <= j < c.len() implies (#[trigger] c[j]).0 != key_of(l[i]) by {
        assert(key_of(l[j]) != key_of(l[i]));
    }
    crate::nbt_tag::lemma_key_index_none(c, key_of(l[i]));
    assert(keyed_entries(l, tag).take(i + 1) =~= c.push((key_of(l[i]), tag(l[i]))));
}

pub(crate) proof fn lemma_decoration_entries(l: Seq<Val>, i: int)
    requires
        keys_single(l),
        0 <= i <= l.len(),
    ensures
        decoration_entries(l, i, keyed_entries(l, |v: Val| decoration_tag(v)).take(i)) == keyed_entries(l, |v: Val| decoration_tag(v)),
    decreases l.len() - i,
{
    let all = keyed_entries(l, |v: Val| decoration_tag(v));
    if i < l.len() {
        lemma_fresh_key(l, |v: Val| decoration_tag(v), i);
        lemma_decoration_entries(l, i + 1);
    } else {
        assert(all.take(i) =~= all);
    }
}

/// Whether a value is the markers on a map, in the order of their keys.
pub open spec fn decorations_keep(v: Val) -> bool {
    v matches Val::List(l) && ascending(l) && forall|i: int| 0 <= i < l.len() ==> decoration_keeps(#[trigger] l[i])
}

pub(crate) proof fn lemma_decorations_upto(l: Seq<Val>, n: nat)
    requires
        n <= l.len(),
        forall|i: int| 0 <= i < l.len() ==> decoration_keeps(#[trigger] l[i]),
    ensures
        decorations_from(keyed_entries(l, |v: Val| decoration_tag(v)), n) == Some(l.take(n as int)),
    decreases n,
{
    if n > 0 {
        lemma_decorations_upto(l, (n - 1) as nat);
        lemma_decoration(l[n - 1]);
        assert(l.take(n as int) =~= l.take(n - 1).push(l[n - 1]));
    } else {
        assert(l.take(0) =~= Seq::empty());
    }
}

pub(crate) proof fn lemma_decorations(l: Seq<Val>)
    requires
        decorations_keep(Val::List(l)),
    ensures
        ({
            let c = decoration_entries(canonical(l, l.len()), 0, Seq::empty());
            decorations_from(c, c.len()) == Some(l)
        }),
{
    lemma_ascending_single(l);
    lemma_canonical_of_ascending(l, l.len());
    assert(l.take(l.len() as int) =~= l);
    lemma_decoration_entries(l, 0);
    assert(keyed_entries(l, |v: Val| decoration_tag(v)).take(0) =~= Seq::empty());
    lemma_decorations_upto(l, l.len());
}

/// The tag of the text of a pair.
pub open spec fn text_tag(v: Val) -> Tag {
    Tag::String(as_text(second(v)))
}

pub(crate) proof fn lemma_pair_entries(l: Seq<Val>, i: int)
    requires
        keys_single(l),
        0 <= i <= l.len(),
    ensures
        pair_entries(l, i, keyed_entries(l, |v: Val| text_tag(v)).take(i)) == keyed_entries(l, |v: Val| text_tag(v)),
    decreases l.len() - i,
{
    let all = keyed_entries(l, |v: Val| text_tag(v));
    if i < l.len() {
        lemma_fresh_key(l, |v: Val| text_tag(v), i);
        lemma_pair_entries(l, i + 1);
    } else {
        assert(all.take(i) =~= all);
    }
}

/// Whether a value is a pair of texts.
pub open spec fn is_text_pair(v: Val) -> bool {
    v matches Val::Pair(a, b) && *a is Text && *b is Text
}

/// Whether a value is the properties of a block, each once.
pub open spec fn block_state_keeps(v: Val) -> bool {
    v matches Val::List(l) && keys_single(l) && forall|i: int| 0 <= i < l.len() ==> is_text_pair(#[trigger] l[i])
}

pub(crate) proof fn lemma_block_state(l: Seq<Val>, n: nat)
    requires
        n <= l.len(),
        forall|i: int| 0 <= i < l.len() ==> is_text_pair(#[trigger] l[i]),
    ensures
        block_state_from(keyed_entries(l, |v: Val| text_tag(v)), n) == l.take(n as int),
    decreases n,
{
    if n > 0 {
        lemma_block_state(l, (n - 1) as nat);
        let v = l[n - 1];
        assert(is_text_pair(v));
        assert(v == pair(Val::Text(key_of(v)), Val::Text(as_text(second(v)))));
        assert(l.take(n as int) =~= l.take(n - 1).push(v));
    } else {
        assert(l.take(0) =~= Seq::empty());
    }
}

/// Whether a pair names a block and one of its properties.
pub open spec fn stick_pair_keeps(regs: Registries, v: Val) -> bool {
    is_text_pair(v) && "minecraft:"@.is_prefix_of(key_of(v)) && (find_block_from(regs.blocks@, bare_name(key_of(v)), 0) matches Some(b)
        && find_name(regs.blocks@[b].properties@, as_text(second(v))) is Some)
}

/// Whether a value is the properties that a debug stick changes, in the order of the blocks.
pub open spec fn stick_keeps(regs: Registries, v: Val) -> bool {
    v matches Val::List(l) && ascending(l) && forall|i: int| 0 <= i < l.len() ==> stick_pair_keeps(regs, #[trigger] l[i])
}

pub(crate) proof fn lemma_found_block(blocks: Seq<Block>, name: Seq<char>, i: int)
    requires
        0 <= i,
    ensures
        find_block_from(blocks, name, i) matches Some(b) ==> i <= b < blocks.len() && blocks[b].name@ == name,
    decreases blocks.len() - i,
{
    if i < blocks.len() && blocks[i].name@ != name {
        lemma_found_block(blocks, name, i + 1);
    }
}

pub(crate) proof fn lemma_stick(regs: Registries, l: Seq<Val>, n: nat)
    requires
        n <= l.len(),
        stick_keeps(regs, Val::List(l)),
    ensures
        stick_from(regs, keyed_entries(l, |v: Val| text_tag(v)), n) == Some(l.take(n as int)),
    decreases n,
{
    if n > 0 {
        lemma_stick(regs, l, (n - 1) as nat);
        let v = l[n - 1];
        let head = l.take(n - 1);
        assert(stick_pair_keeps(regs, v));
        lemma_found_block(regs.blocks@, bare_name(key_of(v)), 0);
        lemma_full(key_of(v));
        assert(v == pair(Val::Text(key_of(v)), Val::Text(as_text(second(v)))));
        if n > 1 {
            assert(head.last() == l[n - 2]);
            assert(text_less(key_of(l[n - 2]), key_of(l[n - 1])));
        } else {
            assert(head =~= Seq::empty());
        }
        assert(l.take(n as int) =~= head.push(v));
    } else {
        assert(l.take(0) =~= Seq::empty());
    }
}

pub(crate) proof fn lemma_loot_keys()
    ensures
        "loot_table"@ != "seed"@,
{
    reveal_strlit("loot_table");
    reveal_strlit("seed");
    assert("loot_table"@.len() == 10);
    assert("seed"@.len() == 4);
}

/// Whether a value is the loot of a container.
pub open spec fn loot_keeps(v: Val) -> bool {
    v matches Val::Pair(a, b) && (*a matches Val::Text(t) && identifier_of(t) == Some(t)) && *b is Int
}

pub(crate) proof fn lemma_loot(v: Val)
    requires
        loot_keeps(v),
    ensures
        loot_from(loot_tag(v)) == Some(v),
{
    lemma_loot_keys();
    lemma_no_entries();
    let t = Tag::String(as_text(first(v)));
    lemma_put(Seq::empty(), "loot_table"@, t);
    lemma_put(with_entry(Seq::empty(), "loot_table"@, t), "seed"@, Tag::Long(as_int(second(v))));
}

/// Whether a value is the pages of a book.
pub open spec fn pages_keep(v: Val) -> bool {
    v matches Val::List(l) && forall|i: int| 0 <= i < l.len() ==> (#[trigger] l[i] matches Val::Pair(a, b) && *a is Text && *b == Val::Unit)
}

pub(crate) proof fn lemma_pages(l: Seq<Val>, n: nat)
    requires
        n <= l.len(),
        pages_keep(Val::List(l)),
    ensures
        raw_pages_from(page_tags(l), n) == l.take(n as int),
        pages_from(page_tags(l), n) == l.take(n as int),
    decreases n,
{
    if n > 0 {
        lemma_pages(l, (n - 1) as nat);
        let v = l[n - 1];
        assert(v is Pair);
        assert(page_tags(l)[n - 1] == Tag::String(as_text(first(v))));
        assert(v == pair(Val::Text(as_text(first(v))), Val::Unit));
        assert(l.take(n as int) =~= l.take(n - 1).push(v));
    } else {
        assert(l.take(0) =~= Seq::empty());
    }
}

pub(crate) proof fn lemma_book_keys()
    ensures
        "title"@ != "author"@,
        "title"@ != "pages"@,
        "author"@ != "pages"@,
{
    reveal_strlit("title");
    reveal_strlit("author");
    reveal_strlit("pages");
    assert("title"@[0] != "pages"@[0]);
    assert("title"@.len() == 5);
    assert("author"@.len() == 6);
    assert("pages"@.len() == 5);
}

/// Whether a value is a signed book.
pub open spec fn book_keeps(v: Val) -> bool {
    let pages = first(second(second(second(v))));
    v == pair(
        pair(Val::Text(as_text(first(first(v)))), Val::Unit),
        pair(Val::Text(as_text(first(second(v)))), pair(Val::Unit, pair(pages, Val::Unit))),
    ) && pages_keep(pages)
}

pub(crate) proof fn lemma_book(v: Val)
    requires
        book_keeps(v),
    ensures
        written_book_from(written_book_tag(v)) == v,
{
    lemma_book_keys();
    let l = as_list(first(second(second(second(v)))));
    let title = Tag::String(as_text(first(first(v))));
    let author = Tag::String(as_text(first(second(v))));
    let c1 = with_entry(Seq::empty(), "title"@, title);
    let c2 = with_entry(c1, "author"@, author);
    lemma_put(Seq::empty(), "title"@, title);
    lemma_put(c1, "author"@, author);
    lemma_put(c2, "pages"@, Tag::List(page_tags(l)));
    lemma_pages(l, l.len());
    assert(l.take(l.len() as int) =~= l);
}

pub(crate) proof fn lemma_effect_keys()
    ensures
        "id"@ != "amplifier"@,
        "id"@ != "duration"@,
        "id"@ != "ambient"@,
        "id"@ != "show_particles"@,
        "id"@ != "show_icon"@,
        "id"@ != "hidden_effect"@,
        "amplifier"@ != "duration"@,
        "amplifier"@ != "ambient"@,
        "amplifier"@ != "show_particles"@,
        "amplifier"@ != "show_icon"@,
        "amplifier"@ != "hidden_effect"@,
        "duration"@ != "ambient"@,
        "duration"@ != "show_particles"@,
        "duration"@ != "show_icon"@,
        "duration"@ != "hidden_effect"@,
        "ambient"@ != "show_particles"@,
        "ambient"@ != "show_icon"@,
        "ambient"@ != "hidden_effect"@,
        "show_particles"@ != "show_icon"@,
        "show_particles"@ != "hidden_effect"@,
        "show_icon"@ != "hidden_effect"@,
{
    reveal_strlit("id");
    reveal_strlit("amplifier");
    reveal_strlit("duration");
    reveal_strlit("ambient");
    reveal_strlit("show_particles");
    reveal_strlit("show_icon");
    reveal_strlit("hidden_effect");
    assert("amplifier"@[0] != "show_icon"@[0]);
    assert("id"@.len() == 2);
    assert("amplifier"@.len() == 9);
    assert("duration"@.len() == 8);
    assert("ambient"@.len() == 7);
    assert("show_particles"@.len() == 14);
    assert("show_icon"@.len() == 9);
    assert("hidden_effect"@.len() == 13);
}

/// Whether a value is a status effect named `name`, with all effects hidden behind it of that name.
pub open spec fn stored_effect_keeps(name: Seq<char>, v: Val) -> bool
    decreases v,
{
    v matches Val::Pair(a, b) && *a == Val::Text(name) && (*b matches Val::Pair(b, c) && (*b matches Val::Int(amplifier) && 0 <= amplifier <= 255)
        && (*c matches Val::Pair(c, d) && *c is Int && (*d matches Val::Pair(d, e) && *d is Bool && (*e matches Val::Pair(e, f) && *e is Bool
        && (*f matches Val::Pair(f, g) && *f is Bool && (*g == Val::Absent || (*g matches Val::Present(h) && stored_effect_keeps(name, *h))))))))
}

/// The entries of the details of a status effect, but for what is hidden behind it.
pub open spec fn detail_entries(amplifier: int, duration: int, ambient: bool, particles: bool, icon: bool, c: Entries) -> Entries {
    with_entry(
        with_entry(
            with_entry(
                with_entry(with_entry(c, "amplifier"@, Tag::Int(amplifier)), "duration"@, Tag::Int(duration)),
                "ambient"@,
                bool_tag(ambient),
            ),
            "show_particles"@,
            bool_tag(particles),
        ),
        "show_icon"@,
        bool_tag(icon),
    )
}

pub(crate) proof fn lemma_detail_entries(amplifier: int, duration: int, ambient: bool, particles: bool, icon: bool, c: Entries)
    ensures
        ({
            let d = detail_entries(amplifier, duration, ambient, particles, icon, c);
            &&& compound_get(d, "amplifier"@) == Some(Tag::Int(amplifier))
            &&& compound_get(d, "duration"@) == Some(Tag::Int(duration))
            &&& compound_get(d, "ambient"@) == Some(bool_tag(ambient))
            &&& compound_get(d, "show_particles"@) == Some(bool_tag(particles))
            &&& compound_get(d, "show_icon"@) == Some(bool_tag(icon))
            &&& compound_get(d, "hidden_effect"@) == compound_get(c, "hidden_effect"@)
            &&& compound_get(d, "id"@) == compound_get(c, "id"@)
        }),
{
    lemma_effect_keys();
    let c1 = with_entry(c, "amplifier"@, Tag::Int(amplifier));
    let c2 = with_entry(c1, "duration"@, Tag::Int(duration));
    let c3 = with_entry(c2, "ambient"@, bool_tag(ambient));
    let c4 = with_entry(c3, "show_particles"@, bool_tag(particles));
    lemma_put(c, "amplifier"@, Tag::Int(amplifier));
    lemma_put(c1, "duration"@, Tag::Int(duration));
    lemma_put(c2, "ambient"@, bool_tag(ambient));
    lemma_put(c3, "show_particles"@, bool_tag(particles));
    lemma_put(c4, "show_icon"@, bool_tag(icon));
}

#[verifier::rlimit(60)]
pub(crate) proof fn lemma_stored_effect(name: Seq<char>, v: Val, c: Entries)
    requires
        stored_effect_keeps(name, v),
        compound_get(c, "hidden_effect"@) is None,
    ensures
        effect_details_from(name, effect_entries(v, c)) == Some(v),
        compound_get(effect_entries(v, c), "id"@) == compound_get(c, "id"@),
    decreases v,
{
    lemma_effect_keys();
    let v1 = second(v);
    let v2 = second(v1);
    let v3 = second(v2);
    let v4 = second(v3);
    let v5 = second(v4);
    let hidden = second(v5);
    let d = detail_entries(as_int(first(v1)), as_int(first(v2)), as_bool(first(v3)), as_bool(first(v4)), as_bool(first(v5)), c);
    lemma_detail_entries(as_int(first(v1)), as_int(first(v2)), as_bool(first(v3)), as_bool(first(v4)), as_bool(first(v5)), c);
    assert(v == effect_val(
        name,
        as_int(first(v1)),
        as_int(first(v2)),
        as_bool(first(v3)),
        as_bool(first(v4)),
        as_bool(first(v5)),
        hidden,
    ));
    match hidden {
        Val::Present(h) => {
            let inner = effect_entries(*h, Seq::empty());
            lemma_no_entries();
            lemma_stored_effect(name, *h, Seq::empty());
            let all = with_entry(d, "hidden_effect"@, Tag::Compound(inner));
            lemma_put(d, "hidden_effect"@, Tag::Compound(inner));
            assert(effect_entries(v, c) == all);
            lemma_key_index(all, "hidden_effect"@);
        },
        _ => {
            assert(effect_entries(v, c) == d);
            lemma_key_index(d, "hidden_effect"@);
        },
    }
}

/// Whether a value is a status effect that is in the registry.
pub open spec fn known_effect_keeps(regs: Registries, v: Val) -> bool {
    first(v) matches Val::Text(name) && find_name(regs.effects@, name) is Some && stored_effect_keeps(name, v)
}

pub(crate) proof fn lemma_known_effects(regs: Registries, l: Seq<Val>, n: nat)
    requires
        n <= l.len(),
        forall|i: int| 0 <= i < l.len() ==> known_effect_keeps(regs, #[trigger] l[i]),
    ensures
        effects_from(regs, effect_tags(l), n) == Some(l.take(n as int)),
    decreases n,
{
    if n > 0 {
        lemma_known_effects(regs, l, (n - 1) as nat);
        lemma_effect_keys();
        lemma_no_entries();
        let v = l[n - 1];
        assert(known_effect_keeps(regs, v));
        let name = as_text(first(v));
        let c = with_entry(Seq::empty(), "id"@, Tag::String(name));
        lemma_put(Seq::empty(), "id"@, Tag::String(name));
        lemma_stored_effect(name, v, c);
        assert(effect_tags(l)[n - 1] == effect_tag(v));
        assert(l.take(n as int) =~= l.take(n - 1).push(v));
    } else {
        assert(l.take(0) =~= Seq::empty());
    }
}

/// Whether the number of an entry of a registry is that of the first with its name.
pub open spec fn names_itself(names: Seq<String>, i: int) -> bool {
    0 <= i < names.len() && find_name(names, names[i]@) == Some(i)
}

/// Whether a value is a set of status effects that are removed.
pub open spec fn removed_keeps(regs: Registries, v: Val) -> bool {
    v matches Val::Pair(a, b) && ((*a == Val::Int(0) && *b is Text) || (*a == Val::Int(1) && (*b matches Val::List(l) && forall|i: int|
        0 <= i < l.len() ==> (#[trigger] l[i] matches Val::Int(id) && id <= 0xffff && names_itself(regs.effects@, id)))))
}

pub(crate) proof fn lemma_removed_ids(regs: Registries, l: Seq<Val>, n: nat)
    requires
        n <= l.len(),
        forall|i: int| 0 <= i < l.len() ==> (#[trigger] l[i] matches Val::Int(id) && id <= 0xffff && names_itself(regs.effects@, id)),
    ensures
        names_of(regs.effects@, l, n) matches Some(tags) && tags.len() == n && effect_ids_from(regs, tags, n) == Some(l.take(n as int)),
    decreases n,
{
    if n > 0 {
        lemma_removed_ids(regs, l, (n - 1) as nat);
        let head = names_of(regs.effects@, l, (n - 1) as nat)->0;
        let v = l[n - 1];
        assert(v is Int);
        let tags = names_of(regs.effects@, l, n)->0;
        lemma_ids_prefix(regs, head, Tag::String(regs.effects@[v->Int_0]@), (n - 1) as nat);
        assert(tags == head.push(Tag::String(regs.effects@[v->Int_0]@)));
        assert(l.take(n as int) =~= l.take(n - 1).push(v));
    } else {
        assert(l.take(0) =~= Seq::empty());
    }
}

pub(crate) proof fn lemma_ids_prefix(regs: Registries, l: Seq<Tag>, t: Tag, n: nat)
    requires
        n <= l.len(),
    ensures
        effect_ids_from(regs, l.push(t), n) == effect_ids_from(regs, l, n),
    decreases n,
{
    if n > 0 {
        lemma_ids_prefix(regs, l, t, (n - 1) as nat);
        assert(l.push(t)[n - 1] == l[n - 1]);
    }
}

pub(crate) proof fn lemma_removed_set(regs: Registries, v: Val)
    requires
        removed_keeps(regs, v),
    ensures
        removed_tag(regs, v) matches Some(t) && removed_from(regs, Some(t)) == Some(v),
{
    match second(v) {
        Val::Text(t) => {
            let mark = "#"@;
            assert((mark + t).subrange(0, mark.len() as int) =~= mark);
            assert((mark + t).skip(mark.len() as int) =~= t);
        },
        Val::List(l) => {
            lemma_removed_ids(regs, l, l.len());
            assert(l.take(l.len() as int) =~= l);
        },
        _ => {},
    }
}

/// Whether a value is what consuming an item does.
pub open spec fn consume_keeps(regs: Registries, v: Val) -> bool {
    v matches Val::Pair(k, x) && (*k matches Val::Int(k) && if k == 0 {
        *x matches Val::Pair(l, p) && (*l matches Val::List(l) && forall|i: int| 0 <= i < l.len() ==> known_effect_keeps(regs, #[trigger] l[i])) && (
        *p matches Val::Float(n, bits) && n == 4 && (bits <= ONE || bits == 0x8000_0000))
    } else if k == 1 {
        removed_keeps(regs, *x)
    } else if k == 2 {
        *x == Val::Unit
    } else if k == 3 {
        *x matches Val::Float(n, bits) && n == 4 && 0 < bits < 0x7f80_0000
    } else {
        k == 4 && (*x matches Val::Int(i) && i <= 0xffff && names_itself(regs.sounds@, i))
    })
}

pub(crate) proof fn lemma_consume_keys()
    ensures
        "type"@ != "probability"@,
        "type"@ != "effects"@,
        "type"@ != "diameter"@,
        "type"@ != "sound"@,
        "probability"@ != "effects"@,
        "probability"@ != "diameter"@,
        "probability"@ != "sound"@,
        "effects"@ != "diameter"@,
        "effects"@ != "sound"@,
        "diameter"@ != "sound"@,
{
    reveal_strlit("type");
    reveal_strlit("probability");
    reveal_strlit("effects");
    reveal_strlit("diameter");
    reveal_strlit("sound");
    assert("type"@.len() == 4);
    assert("probability"@.len() == 11);
    assert("effects"@.len() == 7);
    assert("diameter"@.len() == 8);
    assert("sound"@.len() == 5);
}

pub(crate) proof fn lemma_consume_types()
    ensures
        "minecraft:apply_effects"@ != "minecraft:remove_effects"@,
        "minecraft:apply_effects"@ != "minecraft:clear_all_effects"@,
        "minecraft:apply_effects"@ != "minecraft:teleport_randomly"@,
        "minecraft:apply_effects"@ != "minecraft:play_sound"@,
        "minecraft:remove_effects"@ != "minecraft:clear_all_effects"@,
        "minecraft:remove_effects"@ != "minecraft:teleport_randomly"@,
        "minecraft:remove_effects"@ != "minecraft:play_sound"@,
        "minecraft:clear_all_effects"@ != "minecraft:teleport_randomly"@,
        "minecraft:clear_all_effects"@ != "minecraft:play_sound"@,
        "minecraft:teleport_randomly"@ != "minecraft:play_sound"@,
{
    reveal_strlit("minecraft:apply_effects");
    reveal_strlit("minecraft:remove_effects");
    reveal_strlit("minecraft:clear_all_effects");
    reveal_strlit("minecraft:teleport_randomly");
    reveal_strlit("minecraft:play_sound");
    assert("minecraft:clear_all_effects"@[10] != "minecraft:teleport_randomly"@[10]);
    assert("minecraft:apply_effects"@.len() == 23);
    assert("minecraft:remove_effects"@.len() == 24);
    assert("minecraft:clear_all_effects"@.len() == 27);
    assert("minecraft:teleport_randomly"@.len() == 27);
    assert("minecraft:play_sound"@.len() == 20);
}

pub(crate) proof fn lemma_consume_effect(regs: Registries, v: Val)
    requires
        consume_keeps(regs, v),
    ensures
        consume_effect_tag(regs, v) matches Some(t) && consume_effect_from(regs, t) == Some(v),
{
    lemma_consume_keys();
    lemma_consume_types();
    lemma_no_entries();
    let k = as_int(first(v));
    let x = second(v);
    if k == 0 {
        let l = as_list(first(x));
        let kind = Tag::String("minecraft:apply_effects"@);
        let c1 = with_entry(Seq::empty(), "type"@, kind);
        let c2 = with_entry(c1, "probability"@, Tag::Float(as_bits(second(x))));
        lemma_put(Seq::empty(), "type"@, kind);
        lemma_put(c1, "probability"@, Tag::Float(as_bits(second(x))));
        lemma_put(c2, "effects"@, Tag::List(effect_tags(l)));
        lemma_known_effects(regs, l, l.len());
        assert(l.take(l.len() as int) =~= l);
    } else if k == 1 {
        let kind = Tag::String("minecraft:remove_effects"@);
        lemma_removed_set(regs, x);
        lemma_put(Seq::empty(), "type"@, kind);
        lemma_put(with_entry(Seq::empty(), "type"@, kind), "effects"@, removed_tag(regs, x)->0);
    } else if k == 2 {
        lemma_put(Seq::empty(), "type"@, Tag::String("minecraft:clear_all_effects"@));
    } else if k == 3 {
        let kind = Tag::String("minecraft:teleport_randomly"@);
        lemma_put(Seq::empty(), "type"@, kind);
        lemma_put(with_entry(Seq::empty(), "type"@, kind), "diameter"@, Tag::Float(as_bits(x)));
    } else {
        let kind = Tag::String("minecraft:play_sound"@);
        let name = regs.sounds@[as_int(x)]@;
        lemma_bare(name);
        lemma_put(Seq::empty(), "type"@, kind);
        lemma_put(with_entry(Seq::empty(), "type"@, kind), "sound"@, Tag::String("minecraft:"@ + name));
    }
}

/// Whether a value is what an item does when it saves its holder from death.
pub open spec fn protection_keeps(regs: Registries, v: Val) -> bool {
    v matches Val::List(l) && forall|i: int| 0 <= i < l.len() ==> consume_keeps(regs, #[trigger] l[i])
}

pub(crate) proof fn lemma_consume_prefix(regs: Registries, l: Seq<Tag>, t: Tag, n: nat)
    requires
        n <= l.len(),
    ensures
        consume_effects_from(regs, l.push(t), n) == consume_effects_from(regs, l, n),
    decreases n,
{
    if n > 0 {
        lemma_consume_prefix(regs, l, t, (n - 1) as nat);
        assert(l.push(t)[n - 1] == l[n - 1]);
    }
}

pub(crate) proof fn lemma_consume_effects(regs: Registries, l: Seq<Val>, n: nat)
    requires
        n <= l.len(),
        forall|i: int| 0 <= i < l.len() ==> consume_keeps(regs, #[trigger] l[i]),
    ensures
        consume_effect_tags(regs, l, n) matches Some(tags) && tags.len() == n && consume_effects_from(regs, tags, n) == Some(l.take(n as int)),
    decreases n,
{
    if n > 0 {
        lemma_consume_effects(regs, l, (n - 1) as nat);
        lemma_consume_effect(regs, l[n - 1]);
        let head = consume_effect_tags(regs, l, (n - 1) as nat)->0;
        let t = consume_effect_tag(regs, l[n - 1])->0;
        lemma_consume_prefix(regs, head, t, (n - 1) as nat);
        assert(consume_effect_tags(regs, l, n) == Some(head.push(t)));
        assert(l.take(n as int) =~= l.take(n - 1).push(l[n - 1]));
    } else {
        assert(l.take(0) =~= Seq::empty());
    }
}

pub(crate) proof fn lemma_protection(regs: Registries, v: Val)
    requires
        protection_keeps(regs, v),
    ensures
        plain_to_tag(DataComponent::DeathProtection, regs, v) matches Some(t) && protection_from(regs, t) == Some(v),
{
    let l = v->List_0;
    lemma_consume_effects(regs, l, l.len());
    let tags = consume_effect_tags(regs, l, l.len())->0;
    lemma_put(Seq::empty(), "death_effects"@, Tag::List(tags));
    assert(l.take(l.len() as int) =~= l);
}

/// Whether a value is what consuming an item does and how it looks, with a sound that the registry
/// names.
pub open spec fn consumable_keeps(regs: Registries, v: Val) -> bool {
    v matches Val::Pair(seconds, v) && (*seconds matches Val::Float(n, bits) && n == 4 && bits <= u32::MAX) && (*v matches Val::Pair(
        animation,
        v,
    ) && (*animation matches Val::Int(i) && 0 <= i < 12) && (*v matches Val::Pair(sound, effects) && (*sound matches Val::Pair(
        sound,
        particles,
    ) && (*sound matches Val::Int(i) && i <= 0xffff && names_itself(regs.sounds@, i)) && *particles is Bool) && protection_keeps(
        regs,
        *effects,
    )))
}

pub(crate) proof fn lemma_consumable_keys()
    ensures
        "consume_seconds"@ != "animation"@,
        "consume_seconds"@ != "sound"@,
        "consume_seconds"@ != "has_consume_particles"@,
        "consume_seconds"@ != "on_consume_effects"@,
        "animation"@ != "sound"@,
        "animation"@ != "has_consume_particles"@,
        "animation"@ != "on_consume_effects"@,
        "sound"@ != "has_consume_particles"@,
        "sound"@ != "on_consume_effects"@,
        "has_consume_particles"@ != "on_consume_effects"@,
{
    reveal_strlit("consume_seconds");
    reveal_strlit("animation");
    reveal_strlit("sound");
    reveal_strlit("has_consume_particles");
    reveal_strlit("on_consume_effects");
    assert("consume_seconds"@.len() == 15);
    assert("animation"@.len() == 9);
    assert("sound"@.len() == 5);
    assert("has_consume_particles"@.len() == 21);
    assert("on_consume_effects"@.len() == 18);
}

/// No two looks of consuming an item have the same name.
pub(crate) proof fn lemma_animation_names(i: int, j: int)
    requires
        0 <= i < j < 12,
    ensures
        animation_name(i) != animation_name(j),
{
    reveal_strlit("none");
    reveal_strlit("eat");
    reveal_strlit("drink");
    reveal_strlit("block");
    reveal_strlit("bow");
    reveal_strlit("trident");
    reveal_strlit("crossbow");
    reveal_strlit("spyglass");
    reveal_strlit("toot_horn");
    reveal_strlit("brush");
    reveal_strlit("bundle");
    reveal_strlit("spear");
    let a = animation_name(i);
    let b = animation_name(j);
    assert(a.len() != b.len() || a[0] != b[0] || a[1] != b[1]);
}

/// The number of a look is found by its name, whichever look the search starts from.
pub(crate) proof fn lemma_animation(i: int, from: int)
    requires
        0 <= from <= i < 12,
    ensures
        animation_from(animation_name(i), from) == Some(i),
    decreases i - from,
{
    if from < i {
        lemma_animation_names(from, i);
        lemma_animation(i, from + 1);
    }
}

pub(crate) proof fn lemma_consumable(regs: Registries, v: Val)
    requires
        consumable_keeps(regs, v),
    ensures
        plain_to_tag(DataComponent::Consumable, regs, v) matches Some(t) && consumable_from(regs, t) == Some(v),
{
    let animation = second(v);
    let sound = first(second(animation));
    let l = as_list(second(second(animation)));
    lemma_consume_effects(regs, l, l.len());
    assert(l.take(l.len() as int) =~= l);
    let tags = consume_effect_tags(regs, l, l.len())->0;
    lemma_consumable_keys();
    lemma_no_entries();
    lemma_animation(as_int(first(animation)), 0);
    lemma_bare(regs.sounds@[as_int(first(sound))]@);
    let t = sound_tag(regs, first(sound))->0;
    let seconds = Tag::Float(as_bits(first(v)));
    let look = Tag::String(animation_name(as_int(first(animation))));
    let c1 = with_entry(Seq::empty(), "consume_seconds"@, seconds);
    let c2 = with_entry(c1, "animation"@, look);
    let c3 = with_entry(c2, "sound"@, t);
    let c4 = with_entry(c3, "has_consume_particles"@, bool_tag(as_bool(second(sound))));
    lemma_put(Seq::empty(), "consume_seconds"@, seconds);
    lemma_put(c1, "animation"@, look);
    lemma_put(c2, "sound"@, t);
    lemma_put(c3, "has_consume_particles"@, bool_tag(as_bool(second(sound))));
    lemma_put(c4, "on_consume_effects"@, Tag::List(tags));
}

pub(crate) proof fn lemma_operation_names()
    ensures
        "add_value"@ != "add_multiplied_base"@,
        "add_value"@ != "add_multiplied_total"@,
        "add_multiplied_base"@ != "add_multiplied_total"@,
{
    reveal_strlit("add_value");
    reveal_strlit("add_multiplied_base");
    reveal_strlit("add_multiplied_total");
    assert("add_value"@.len() == 9);
    assert("add_multiplied_base"@.len() == 19);
    assert("add_multiplied_total"@.len() == 20);
}

pub(crate) proof fn lemma_place_names()
    ensures
        "any"@ != "mainhand"@,
        "any"@ != "offhand"@,
        "any"@ != "hand"@,
        "any"@ != "feet"@,
        "any"@ != "legs"@,
        "any"@ != "chest"@,
        "any"@ != "head"@,
        "any"@ != "armor"@,
        "any"@ != "body"@,
        "any"@ != "saddle"@,
        "mainhand"@ != "offhand"@,
        "mainhand"@ != "hand"@,
        "mainhand"@ != "feet"@,
        "mainhand"@ != "legs"@,
        "mainhand"@ != "chest"@,
        "mainhand"@ != "head"@,
        "mainhand"@ != "armor"@,
        "mainhand"@ != "body"@,
        "mainhand"@ != "saddle"@,
        "offhand"@ != "hand"@,
        "offhand"@ != "feet"@,
        "offhand"@ != "legs"@,
        "offhand"@ != "chest"@,
        "offhand"@ != "head"@,
        "offhand"@ != "armor"@,
        "offhand"@ != "body"@,
        "offhand"@ != "saddle"@,
        "hand"@ != "feet"@,
        "hand"@ != "legs"@,
        "hand"@ != "chest"@,
        "hand"@ != "head"@,
        "hand"@ != "armor"@,
        "hand"@ != "body"@,
        "hand"@ != "saddle"@,
        "feet"@ != "legs"@,
        "feet"@ != "chest"@,
        "feet"@ != "head"@,
        "feet"@ != "armor"@,
        "feet"@ != "body"@,
        "feet"@ != "saddle"@,
        "legs"@ != "chest"@,
        "legs"@ != "head"@,
        "legs"@ != "armor"@,
        "legs"@ != "body"@,
        "legs"@ != "saddle"@,
        "chest"@ != "head"@,
        "chest"@ != "armor"@,
        "chest"@ != "body"@,
        "chest"@ != "saddle"@,
        "head"@ != "armor"@,
        "head"@ != "body"@,
        "head"@ != "saddle"@,
        "armor"@ != "body"@,
        "armor"@ != "saddle"@,
        "body"@ != "saddle"@,
{
    reveal_strlit("any");
    reveal_strlit("mainhand");
    reveal_strlit("offhand");
    reveal_strlit("hand");
    reveal_strlit("feet");
    reveal_strlit("legs");
    reveal_strlit("chest");
    reveal_strlit("head");
    reveal_strlit("armor");
    reveal_strlit("body");
    reveal_strlit("saddle");
    assert("hand"@[0] != "feet"@[0]);
    assert("hand"@[0] != "legs"@[0]);
    assert("hand"@[1] != "head"@[1]);
    assert("hand"@[0] != "body"@[0]);
    assert("feet"@[0] != "legs"@[0]);
    assert("feet"@[0] != "head"@[0]);
    assert("feet"@[0] != "body"@[0]);
    assert("legs"@[0] != "head"@[0]);
    assert("legs"@[0] != "body"@[0]);
    assert("chest"@[0] != "armor"@[0]);
    assert("head"@[0] != "body"@[0]);
    assert("any"@.len() == 3);
    assert("mainhand"@.len() == 8);
    assert("offhand"@.len() == 7);
    assert("hand"@.len() == 4);
    assert("feet"@.len() == 4);
    assert("legs"@.len() == 4);
    assert("chest"@.len() == 5);
    assert("head"@.len() == 4);
    assert("armor"@.len() == 5);
    assert("body"@.len() == 4);
    assert("saddle"@.len() == 6);
}

pub(crate) proof fn lemma_display_types()
    ensures
        "default"@ != "hidden"@,
        "default"@ != "override"@,
        "hidden"@ != "override"@,
{
    reveal_strlit("default");
    reveal_strlit("hidden");
    reveal_strlit("override");
    assert("default"@.len() == 7);
    assert("hidden"@.len() == 6);
    assert("override"@.len() == 8);
}

pub(crate) proof fn lemma_display_keys()
    ensures
        "type"@ != "value"@,
{
    reveal_strlit("type");
    reveal_strlit("value");
    assert("type"@.len() == 4);
    assert("value"@.len() == 5);
}

pub(crate) proof fn lemma_modifier_keys()
    ensures
        "type"@ != "id"@,
        "type"@ != "amount"@,
        "type"@ != "operation"@,
        "type"@ != "slot"@,
        "type"@ != "display"@,
        "id"@ != "amount"@,
        "id"@ != "operation"@,
        "id"@ != "slot"@,
        "id"@ != "display"@,
        "amount"@ != "operation"@,
        "amount"@ != "slot"@,
        "amount"@ != "display"@,
        "operation"@ != "slot"@,
        "operation"@ != "display"@,
        "slot"@ != "display"@,
{
    reveal_strlit("type");
    reveal_strlit("id");
    reveal_strlit("amount");
    reveal_strlit("operation");
    reveal_strlit("slot");
    reveal_strlit("display");
    assert("type"@[0] != "slot"@[0]);
    assert("type"@.len() == 4);
    assert("id"@.len() == 2);
    assert("amount"@.len() == 6);
    assert("operation"@.len() == 9);
    assert("slot"@.len() == 4);
    assert("display"@.len() == 7);
}

pub(crate) proof fn lemma_place(i: int, from: int)
    requires
        0 <= from <= i < 11,
    ensures
        place_from(place_name(i), from) == Some(i),
    decreases i - from,
{
    lemma_place_names();
    if from < i {
        assert(place_name(from) != place_name(i));
        lemma_place(i, from + 1);
    }
}

/// Whether a value is how a modifier is shown.
pub open spec fn display_keeps(v: Val) -> bool {
    v matches Val::Pair(k, x) && ((*k == Val::Int(0) && *x == Val::Unit) || (*k == Val::Int(1) && *x == Val::Unit) || (*k == Val::Int(2) && *x is Nbt))
}

pub(crate) proof fn lemma_display(v: Val)
    requires
        display_keeps(v),
    ensures
        display_from(Some(display_tag(v))) == Some(v),
{
    lemma_display_types();
    lemma_display_keys();
    let k = as_int(first(v));
    lemma_put(Seq::empty(), "type"@, Tag::String("default"@));
    lemma_put(Seq::empty(), "type"@, Tag::String("hidden"@));
    lemma_put(Seq::empty(), "type"@, Tag::String("override"@));
    if k == 2 {
        lemma_put(with_entry(Seq::empty(), "type"@, Tag::String("override"@)), "value"@, as_nbt(second(v)));
    }
}

/// Whether a value is a change of an attribute.
pub open spec fn modifier_keeps(regs: Registries, v: Val) -> bool {
    v matches Val::Pair(a, x) && (*a matches Val::Int(a) && a <= i32::MAX && names_itself(regs.attributes@, a)) && (*x matches Val::Pair(id, x)
        && *id is Text && (*x matches Val::Pair(amount, x) && (*amount matches Val::Float(n, _) && n == 8) && (*x matches Val::Pair(o, x) && (
    *o matches Val::Int(o) && 0 <= o <= 2) && (*x matches Val::Pair(p, d) && (*p matches Val::Int(p) && 0 <= p < 11) && display_keeps(*d)))))
}

pub(crate) proof fn lemma_modifier(regs: Registries, v: Val)
    requires
        modifier_keeps(regs, v),
    ensures
        modifier_tag(regs, v) matches Some(t) && modifier_from(regs, t) == Some(v),
{
    lemma_modifier_keys();
    lemma_operation_names();
    let id = second(v);
    let amount = second(id);
    let operation = second(amount);
    let place = second(operation);
    let t1 = Tag::String(regs.attributes@[as_int(first(v))]@);
    let t2 = Tag::String(as_text(first(id)));
    let t3 = Tag::Double(as_bits(first(amount)));
    let t4 = Tag::String(operation_name(as_int(first(operation))));
    let t5 = Tag::String(place_name(as_int(first(place))));
    let t6 = display_tag(second(place));
    let c1 = with_entry(Seq::empty(), "type"@, t1);
    let c2 = with_entry(c1, "id"@, t2);
    let c3 = with_entry(c2, "amount"@, t3);
    let c4 = with_entry(c3, "operation"@, t4);
    let c5 = with_entry(c4, "slot"@, t5);
    lemma_put(Seq::empty(), "type"@, t1);
    lemma_put(c1, "id"@, t2);
    lemma_put(c2, "amount"@, t3);
    lemma_put(c3, "operation"@, t4);
    lemma_put(c4, "slot"@, t5);
    lemma_put(c5, "display"@, t6);
    lemma_place(as_int(first(place)), 0);
    lemma_display(second(place));
}

/// Whether a value is changes of attributes.
pub open spec fn modifiers_keep(regs: Registries, v: Val) -> bool {
    v matches Val::List(l) && forall|i: int| 0 <= i < l.len() ==> modifier_keeps(regs, #[trigger] l[i])
}

pub(crate) proof fn lemma_modifier_prefix(regs: Registries, l: Seq<Tag>, t: Tag, n: nat)
    requires
        n <= l.len(),
    ensures
        modifiers_from(regs, l.push(t), n) == modifiers_from(regs, l, n),
    decreases n,
{
    if n > 0 {
        lemma_modifier_prefix(regs, l, t, (n - 1) as nat);
        assert(l.push(t)[n - 1] == l[n - 1]);
    }
}

pub(crate) proof fn lemma_modifiers(regs: Registries, l: Seq<Val>, n: nat)
    requires
        n <= l.len(),
        forall|i: int| 0 <= i < l.len() ==> modifier_keeps(regs, #[trigger] l[i]),
    ensures
        modifier_tags(regs, l, n) matches Some(tags) && tags.len() == n && modifiers_from(regs, tags, n) == Some(l.take(n as int)),
    decreases n,
{
    if n > 0 {
        lemma_modifiers(regs, l, (n - 1) as nat);
        lemma_modifier(regs, l[n - 1]);
        let head = modifier_tags(regs, l, (n - 1) as nat)->0;
        let t = modifier_tag(regs, l[n - 1])->0;
        lemma_modifier_prefix(regs, head, t, (n - 1) as nat);
        assert(modifier_tags(regs, l, n) == Some(head.push(t)));
        assert(l.take(n as int) =~= l.take(n - 1).push(l[n - 1]));
    } else {
        assert(l.take(0) =~= Seq::empty());
    }
}

/// Whether a value of a component that holds no stack comes back from its stored form.
pub open spec fn plain_keeps(k: DataComponent, regs: Registries, v: Val) -> bool {
    match k {
        DataComponent::CustomData | DataComponent::Lock => v matches Val::Nbt(t) && t is Compound,
        DataComponent::MaxStackSize => v matches Val::Int(i) && 0 <= i < 256,
        DataComponent::MaxDamage | DataComponent::Damage | DataComponent::DyedColor | DataComponent::MapId => v is Int,
        DataComponent::CustomName => v matches Val::Nbt(t) && t is String,
        DataComponent::ItemName => v matches Val::Nbt(t) && is_component(t),
        DataComponent::ItemModel | DataComponent::TooltipStyle | DataComponent::NoteBlockSound | DataComponent::BaseColor => v is Text,
        DataComponent::Lore => v matches Val::List(l) && all_picked(Pick::Line, l),
        DataComponent::Rarity => v matches Val::Int(i) && 0 <= i <= 3,
        DataComponent::CustomModelData => model_data_keeps(v),
        DataComponent::TooltipDisplay => tooltip_keeps(v),
        DataComponent::BannerPatterns => layers_keep(v),
        DataComponent::BlockEntityData => v matches Val::Pair(a, b) && *a == Val::Unit && (*b matches Val::Nbt(t) && t is Compound),
        DataComponent::MapPostProcessing => v matches Val::Present(p) && (*p == Val::Int(0) || *p == Val::Int(1)),
        DataComponent::LodestoneTracker => tracker_keeps(v),
        DataComponent::FireworkExplosion => explosion_keeps(v),
        DataComponent::Fireworks => fireworks_keep(v),
        DataComponent::Profile => profile_keeps(v),
        DataComponent::JukeboxPlayable => song_keeps(regs, v),
        DataComponent::Recipes => recipes_keep(v),
        DataComponent::MapDecorations => decorations_keep(v),
        DataComponent::BlockState => block_state_keeps(v),
        DataComponent::ContainerLoot => loot_keeps(v),
        DataComponent::WritableBookContent => pages_keep(v),
        DataComponent::WrittenBookContent => book_keeps(v),
        DataComponent::DebugStickState => stick_keeps(regs, v),
        DataComponent::DeathProtection => protection_keeps(regs, v),
        DataComponent::Consumable => consumable_keeps(regs, v),
        DataComponent::AttributeModifiers => modifiers_keep(regs, v),
        DataComponent::Unbreakable
        | DataComponent::IntangibleProjectile
        | DataComponent::CreativeSlotLock
        | DataComponent::EnchantmentGlintOverride
        | DataComponent::Instrument
        | DataComponent::ProvidesTrimMaterial
        | DataComponent::ProvidesBannerPatterns
        | DataComponent::PotDecorations
        | DataComponent::BreakSound
        | DataComponent::Dye
        | DataComponent::MapColor
        | DataComponent::EntityData
        | DataComponent::BucketEntityData
        | DataComponent::Bees => v == Val::Unit,
        _ => false,
    }
}

pub(crate) proof fn lemma_listed(k: DataComponent, regs: Registries, v: Val)
    requires
        plain_keeps(k, regs, v),
        k == DataComponent::Lore || k == DataComponent::BannerPatterns || k == DataComponent::Recipes || k == DataComponent::MapDecorations || k
            == DataComponent::BlockState || k == DataComponent::DebugStickState || k == DataComponent::WritableBookContent,
    ensures
        plain_to_tag(k, regs, v) matches Some(t) && plain_from_tag(k, regs, t) == Some(v),
{
    let l = v->List_0;
    assert(l.take(l.len() as int) =~= l);
    match k {
        DataComponent::Lore => {
            lemma_all_picked(Pick::Line, l, line_tags(l));
        },
        DataComponent::BannerPatterns => {
            lemma_layers(l, l.len());
        },
        DataComponent::Recipes => {
            lemma_recipes(l, l.len());
        },
        DataComponent::MapDecorations => {
            lemma_decorations(l);
        },
        DataComponent::BlockState => {
            lemma_pair_entries(l, 0);
            assert(keyed_entries(l, |v: Val| text_tag(v)).take(0) =~= Seq::empty());
            lemma_block_state(l, l.len());
        },
        DataComponent::DebugStickState => {
            lemma_ascending_single(l);
            lemma_pair_entries(l, 0);
            assert(keyed_entries(l, |v: Val| text_tag(v)).take(0) =~= Seq::empty());
            lemma_stick(regs, l, l.len());
        },
        _ => {
            lemma_put(Seq::empty(), "pages"@, Tag::List(page_tags(l)));
            lemma_pages(l, l.len());
        },
    }
}

/// A value of a component that holds no stack comes back from its stored form.
pub proof fn lemma_plain_returns(k: DataComponent, regs: Registries, v: Val)
    requires
        plain_keeps(k, regs, v),
    ensures
        plain_to_tag(k, regs, v) matches Some(t) && (if k == DataComponent::DeathProtection {
            protection_from(regs, t)
        } else if k == DataComponent::Consumable {
            consumable_from(regs, t)
        } else if k == DataComponent::AttributeModifiers {
            modifiers_at(regs, t)
        } else {
            plain_from_tag(k, regs, t)
        }) == Some(v),
{
    match k {
        DataComponent::Lore
        | DataComponent::BannerPatterns
        | DataComponent::Recipes
        | DataComponent::MapDecorations
        | DataComponent::BlockState
        | DataComponent::DebugStickState
        | DataComponent::WritableBookContent => {
            lemma_listed(k, regs, v);
        },
        DataComponent::Rarity => {
            lemma_rarity_names();
        },
        DataComponent::CustomModelData => {
            lemma_model_data(v);
        },
        DataComponent::TooltipDisplay => {
            lemma_tooltip(v);
        },
        DataComponent::LodestoneTracker => {
            lemma_tracker(v);
        },
        DataComponent::FireworkExplosion => {
            lemma_explosion(v);
        },
        DataComponent::Fireworks => {
            lemma_fireworks(v);
        },
        DataComponent::Profile => {
            lemma_profile(v);
        },
        DataComponent::JukeboxPlayable => {
            lemma_song(regs, v);
        },
        DataComponent::ContainerLoot => {
            lemma_loot(v);
        },
        DataComponent::WrittenBookContent => {
            lemma_book(v);
        },
        DataComponent::DeathProtection => {
            lemma_protection(regs, v);
        },
        DataComponent::Consumable => {
            lemma_consumable(regs, v);
        },
        DataComponent::AttributeModifiers => {
            let l = v->List_0;
            lemma_modifiers(regs, l, l.len());
            assert(l.take(l.len() as int) =~= l);
        },
        _ => {},
    }
}

/// The changes of attributes that a tag describes.
pub open spec fn modifiers_at(regs: Registries, t: Tag) -> Option<Val> {
    match t {
        Tag::List(l) => match modifiers_from(regs, l, l.len()) {
            Some(v) => Some(Val::List(v)),
            None => None,
        },
        _ => None,
    }
}

} // verus!
