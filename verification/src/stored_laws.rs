//! What components are stored as, field by field.
use vstd::prelude::*;
use crate::basic::{BannerPatternLayer, BannerPatternsImpl, BaseColorImpl, CustomDataImpl, CustomModelDataImpl, CustomNameImpl, DamageImpl, HiddenComponent, ItemModelImpl, LockImpl, LoreImpl, MaxDamageImpl, MaxStackSizeImpl, NoteBlockSoundImpl, Rarity, RarityImpl, TooltipDisplayImpl, TooltipStyleImpl};
use crate::block_entity::BlockEntityDataImpl;
use crate::book::{RawText, WritableBookContentImpl, WrittenBookContentImpl, WrittenPage};
use crate::codec::{AsBool, AsF32, AsI32, AsText, Coded, DataComponentCodec, vals};
use crate::consumable::{ConsumableImpl, ConsumeAnimation, ConsumeEffect, DeathProtectionImpl, consume_animation_id};
use crate::data_component::{DataComponent, component_id, component_name, component_of_name, lemma_component_of_own_id};
use crate::elements::{AsEffect, AsLine, IDSet, IdOr, StatusEffectInstance, effect_instance_val, id_set_val, id_val, id_vals, opt_id_val, opt_text_val, sound_val};
use crate::equipment::{AttributeModifierSlot, Modifier, ModifierDisplay, Operation, attribute_modifier_slot_id, operation_id};
use crate::format::{PatchVal, StackVal, Val, dye_id, dye_name, optional, pair, plain_text};
use crate::identifier::{bare_name, identifier_of};
use crate::nbt_codec::sound;
use crate::nbt_tag::{Tag, compound_get, compound_put, lemma_key_index};
use crate::persist::{Entries, Pick, animation_from, animation_name, as_bits, as_bool, as_int, as_list, as_nbt, as_text, block_state_from, bundle_from, component_entries, component_tags, consumable_from, consumable_tag, consume_effect_from, consume_effect_tag, consume_effect_tags, consume_effects_from, data_from_tag, data_given, decoration_from, decoration_tag, decorations_from, display_from, display_tag, effect_details_from, effect_entries, effect_from, effect_ids_from, effect_tag, effect_tags, effects_from, explosion_from, explosion_tag, explosion_tags, explosions_from, fireworks_from, fireworks_tag, first, flag_or, flag_tags, float_tags, form_given, hidden_from, int_tags, int_vals, ints_at, ints_in, layer_tags, layers_from, line_tags, loot_from, model_data_from, model_data_tag, modifier_from, modifier_tag, modifiers_from, names_of, opt_text_at, own_from_tag, own_to_tag, page_tags, pages_from, pair_entries, patch_from, picked, place_from, place_name, processing_from, profile_from, profile_head, profile_tag, projectiles_from, properties_from, property_tag, property_tags, protection_from, rarity_from, raw_pages_from, recipes_from, second, shape_from, shape_of, slot_from, slot_tag, slot_tags, slots_from, song_from, stack_from, stack_tag, stack_tags, tag_f32, tag_f64, tag_flag, tag_i32, tag_i64, target_tag, text_at, text_tags, tooltip_display_tag, tooltip_from, tracker_from, tracker_tag, with_entry, with_text, written_book_from, written_book_tag};
use crate::registry::{Block, Registries, StoredForm, find_key, find_name};
use crate::same::{key_of, tags_match};
use crate::stored::{ContainerLootImpl, MapDecorationEntry, container_loot_val, decoration_val, text_pairs};
use crate::stored_return::{lemma_book_keys, lemma_consumable_keys, lemma_consume_keys, lemma_consume_types, lemma_decoration_keys, lemma_display_keys, lemma_display_types, lemma_dye_back, lemma_effect_keys, lemma_explosion_keys, lemma_fireworks_keys, lemma_layer_keys, lemma_loot_keys, lemma_model_data_keys, lemma_modifier_keys, lemma_no_entries, lemma_place_names, lemma_profile_keys, lemma_property_keys, lemma_put, lemma_put_text, lemma_rarity_names, lemma_tooltip_keys, lemma_tracker_keys};
use crate::utility::{DyedColorImpl, FireworkExplosionImpl, FireworkExplosionShape, FireworksImpl, JukeboxPlayableImpl, LodestoneTarget, LodestoneTrackerImpl, MapIdImpl, MapPostProcessing, MapPostProcessingImpl, ProfileImpl, ProfileProperty, firework_explosion_shape_id};

verus! {

/// The numbers of a list.
pub open spec fn numbers_of(l: Seq<i32>) -> Seq<int> {
    Seq::new(l.len(), |i: int| l[i] as int)
}

/// The tag of a flag: a byte that is one or zero.
pub open spec fn flag_tag(b: bool) -> Tag {
    Tag::Byte(if b { 1 } else { 0 })
}

/// Whether a byte other than zero stands under a key.
pub open spec fn is_flagged(c: Entries, key: Seq<char>) -> bool {
    compound_get(c, key) matches Some(Tag::Byte(b)) && b != 0
}

/// Whether the numbers of a list are those of the array under a key, or there are none of both.
pub open spec fn holds_numbers(c: Entries, key: Seq<char>, l: Seq<i32>) -> bool {
    match compound_get(c, key) {
        Some(Tag::IntArray(a)) => a == numbers_of(l),
        _ => l.len() == 0,
    }
}

/// Whether a text is the one under a key, or there is none of both.
pub open spec fn holds_text(c: Entries, key: Seq<char>, t: Option<String>) -> bool {
    match compound_get(c, key) {
        Some(Tag::String(s)) => t is Some && t->0@ == s,
        _ => t is None,
    }
}

proof fn lemma_new_key(c: Entries, key: Seq<char>, t: Tag)
    requires
        forall|i: int| 0 <= i < c.len() ==> (#[trigger] c[i]).0 != key,
    ensures
        compound_put(c, key, t) == c.push((key, t)),
{
    lemma_key_index(c, key);
}

proof fn lemma_same_numbers(a: Seq<int>, l: Seq<i32>)
    requires
        int_vals(a) == vals::<AsI32>(l),
    ensures
        a == numbers_of(l),
{
    assert(a.len() == int_vals(a).len());
    assert forall|i: int| 0 <= i < a.len() implies a[i] == l[i] as int by {
        assert(int_vals(a)[i] == Val::Int(a[i]));
        assert(vals::<AsI32>(l)[i] == AsI32::val(l[i]));
    }
    assert(a =~= numbers_of(l));
}

proof fn lemma_numbers_back(l: Seq<i32>)
    ensures
        ints_in(vals::<AsI32>(l)) == numbers_of(l),
{
    assert forall|i: int| 0 <= i < l.len() implies #[trigger] as_int(vals::<AsI32>(l)[i]) == l[i] as int by {
        assert(vals::<AsI32>(l)[i] == AsI32::val(l[i]));
    }
    assert(ints_in(vals::<AsI32>(l)) =~= numbers_of(l));
}

proof fn lemma_held_numbers(c: Entries, key: Seq<char>, l: Seq<i32>)
    requires
        int_vals(ints_at(c, key)) == vals::<AsI32>(l),
    ensures
        holds_numbers(c, key, l),
{
    lemma_same_numbers(ints_at(c, key), l);
}

/// The name under which a shape is stored.
pub open spec fn shape_text(s: FireworkExplosionShape) -> Seq<char> {
    match s {
        FireworkExplosionShape::SmallBall => "small_ball"@,
        FireworkExplosionShape::LargeBall => "large_ball"@,
        FireworkExplosionShape::Star => "star"@,
        FireworkExplosionShape::Creeper => "creeper"@,
        FireworkExplosionShape::Burst => "burst"@,
    }
}

/// The entries of an explosion.
pub open spec fn stored_explosion(v: FireworkExplosionImpl) -> Tag {
    Tag::Compound(
        seq![
            ("shape"@, Tag::String(shape_text(v.shape))),
            ("colors"@, Tag::IntArray(numbers_of(v.colors@))),
            ("fade_colors"@, Tag::IntArray(numbers_of(v.fade_colors@))),
            ("has_trail"@, flag_tag(v.has_trail)),
            ("has_twinkle"@, flag_tag(v.has_twinkle)),
        ],
    )
}

/// An explosion is stored with its shape by name, its colours under `colors`, those it fades to under
/// `fade_colors`, and its two flags.
pub proof fn lemma_explosion_is_stored(v: FireworkExplosionImpl, regs: Registries)
    ensures
        explosion_tag(FireworkExplosionImpl::val(v)) == stored_explosion(v),
        own_to_tag(DataComponent::FireworkExplosion, regs, FireworkExplosionImpl::val(v)) == Some(stored_explosion(v)),
{
    reveal(own_to_tag);
    lemma_explosion_keys();
    lemma_numbers_back(v.colors@);
    lemma_numbers_back(v.fade_colors@);
    let c0 = Seq::<(Seq<char>, Tag)>::empty();
    let c1 = c0.push(("shape"@, Tag::String(shape_text(v.shape))));
    lemma_new_key(c0, "shape"@, Tag::String(shape_text(v.shape)));
    let c2 = c1.push(("colors"@, Tag::IntArray(numbers_of(v.colors@))));
    lemma_new_key(c1, "colors"@, Tag::IntArray(numbers_of(v.colors@)));
    let c3 = c2.push(("fade_colors"@, Tag::IntArray(numbers_of(v.fade_colors@))));
    lemma_new_key(c2, "fade_colors"@, Tag::IntArray(numbers_of(v.fade_colors@)));
    let c4 = c3.push(("has_trail"@, flag_tag(v.has_trail)));
    lemma_new_key(c3, "has_trail"@, flag_tag(v.has_trail));
    let c5 = c4.push(("has_twinkle"@, flag_tag(v.has_twinkle)));
    lemma_new_key(c4, "has_twinkle"@, flag_tag(v.has_twinkle));
    assert(stored_explosion(v) == Tag::Compound(c5)) by {
        assert(stored_explosion(v)->Compound_0 =~= c5);
    }
}

/// An explosion that is read has the shape whose name stands under `shape`, the colours under `colors`,
/// those it fades to under `fade_colors`, and each of its flags where a byte says so.
pub proof fn lemma_explosion_is_read(t: Tag, v: FireworkExplosionImpl, regs: Registries)
    requires
        explosion_from(t) == Some(FireworkExplosionImpl::val(v)),
    ensures
        own_from_tag(DataComponent::FireworkExplosion, regs, t) == Some(FireworkExplosionImpl::val(v)),
        t is Compound,
        compound_get(t->Compound_0, "shape"@) == Some(Tag::String(shape_text(v.shape))),
        holds_numbers(t->Compound_0, "colors"@, v.colors@),
        holds_numbers(t->Compound_0, "fade_colors"@, v.fade_colors@),
        v.has_trail == is_flagged(t->Compound_0, "has_trail"@),
        v.has_twinkle == is_flagged(t->Compound_0, "has_twinkle"@),
{
    reveal(own_from_tag);
    let c = t->Compound_0;
    let w = explosion_from(t)->0;
    assert(w == FireworkExplosionImpl::val(v));
    assert(as_list(first(second(w))) == vals::<AsI32>(v.colors@));
    assert(as_list(first(second(second(w)))) == vals::<AsI32>(v.fade_colors@));
    lemma_held_numbers(c, "colors"@, v.colors@);
    lemma_held_numbers(c, "fade_colors"@, v.fade_colors@);
    assert(as_bool(first(second(second(second(w))))) == v.has_trail);
    assert(as_bool(second(second(second(second(w))))) == v.has_twinkle);
    assert(as_int(first(w)) == firework_explosion_shape_id(v.shape));
}

/// A tag describes an explosion exactly if it is a compound with the name of a shape.
pub proof fn lemma_explosion_needs_a_shape(t: Tag)
    ensures
        explosion_from(t) is Some == (t matches Tag::Compound(c) && exists|s: FireworkExplosionShape|
            compound_get(c, "shape"@) == Some(Tag::String(#[trigger] shape_text(s)))),
{
    if t is Compound {
        let c = t->Compound_0;
        assert(shape_text(FireworkExplosionShape::SmallBall) == "small_ball"@);
        assert(shape_text(FireworkExplosionShape::LargeBall) == "large_ball"@);
        assert(shape_text(FireworkExplosionShape::Star) == "star"@);
        assert(shape_text(FireworkExplosionShape::Creeper) == "creeper"@);
        assert(shape_text(FireworkExplosionShape::Burst) == "burst"@);
        if explosion_from(t) is Some {
            let n = shape_from(text_at(c, "shape"@)->0)->0;
            assert(shape_text(shape_of(n)) == text_at(c, "shape"@)->0);
        }
    }
}

proof fn lemma_explosions_front(l: Seq<Tag>, m: Seq<Tag>, n: nat)
    requires
        n <= l.len(),
    ensures
        explosions_from(l + m, n) == explosions_from(l, n),
    decreases n,
{
    if n > 0 {
        lemma_explosions_front(l, m, (n - 1) as nat);
        assert((l + m)[n - 1] == l[n - 1]);
    }
}

proof fn lemma_explosions_behind(l: Seq<Tag>, m: Seq<Tag>, n: nat)
    requires
        n <= m.len(),
    ensures
        explosions_from(l + m, l.len() + n) == explosions_from(l, l.len()) + explosions_from(m, n),
    decreases n,
{
    if n > 0 {
        lemma_explosions_behind(l, m, (n - 1) as nat);
        assert((l + m)[l.len() + n - 1] == m[n - 1]);
        assert(explosions_from(l + m, l.len() + n) =~= explosions_from(l, l.len()) + explosions_from(m, n));
    } else {
        lemma_explosions_front(l, m, l.len());
        assert(explosions_from(m, 0) =~= Seq::empty());
        assert(explosions_from(l + m, l.len()) =~= explosions_from(l, l.len()) + Seq::empty());
    }
}

/// The explosions of a firework are those that its tags describe, in their order; a tag that describes none
/// is passed over.
pub proof fn lemma_explosions_one_by_one(l: Seq<Tag>, m: Seq<Tag>, t: Tag)
    ensures
        explosions_from(Seq::empty(), 0) == Seq::<Val>::empty(),
        explosions_from(seq![t], 1) == (match explosion_from(t) {
            Some(v) => seq![v],
            None => Seq::empty(),
        }),
        explosions_from(l + m, (l + m).len()) == explosions_from(l, l.len()) + explosions_from(m, m.len()),
{
    reveal_with_fuel(explosions_from, 2);
    lemma_explosions_behind(l, m, m.len());
    assert(explosions_from(seq![t], 1) =~= (match explosion_from(t) {
            Some(v) => seq![v],
            None => Seq::empty(),
        }));
}

proof fn lemma_properties_front(l: Seq<Tag>, m: Seq<Tag>, n: nat)
    requires
        n <= l.len(),
    ensures
        properties_from(l + m, n) == properties_from(l, n),
    decreases n,
{
    if n > 0 {
        lemma_properties_front(l, m, (n - 1) as nat);
        assert((l + m)[n - 1] == l[n - 1]);
    }
}

proof fn lemma_properties_behind(l: Seq<Tag>, m: Seq<Tag>, n: nat)
    requires
        n <= m.len(),
    ensures
        properties_from(l + m, l.len() + n) == properties_from(l, l.len()) + properties_from(m, n),
    decreases n,
{
    if n > 0 {
        lemma_properties_behind(l, m, (n - 1) as nat);
        assert((l + m)[l.len() + n - 1] == m[n - 1]);
        assert(properties_from(l + m, l.len() + n) =~= properties_from(l, l.len()) + properties_from(m, n));
    } else {
        lemma_properties_front(l, m, l.len());
        assert(properties_from(m, 0) =~= Seq::empty());
        assert(properties_from(l + m, l.len()) =~= properties_from(l, l.len()) + Seq::empty());
    }
}

/// The properties of a profile are those of its tags that have a name and a value, in their order.
pub proof fn lemma_properties_one_by_one(l: Seq<Tag>, m: Seq<Tag>, t: Tag)
    ensures
        properties_from(Seq::empty(), 0) == Seq::<Val>::empty(),
        properties_from(seq![t], 1) == (if t is Compound && compound_get(t->Compound_0, "name"@) is Some && compound_get(t->Compound_0, "name"@)->0 is String && compound_get(
            t->Compound_0,
            "value"@,
        ) is Some && compound_get(t->Compound_0, "value"@)->0 is String {
            seq![
                pair(
                    Val::Text(compound_get(t->Compound_0, "name"@)->0->String_0),
                    pair(
                        Val::Text(compound_get(t->Compound_0, "value"@)->0->String_0),
                        match compound_get(t->Compound_0, "signature"@) {
                            Some(Tag::String(s)) => Val::Present(Box::new(Val::Text(s))),
                            _ => Val::Absent,
                        },
                    ),
                ),
            ]
        } else {
            Seq::empty()
        }),
        properties_from(l + m, (l + m).len()) == properties_from(l, l.len()) + properties_from(m, m.len()),
{
    reveal_with_fuel(properties_from, 2);
    lemma_properties_behind(l, m, m.len());
    assert(properties_from(seq![t], 1) =~= (if t is Compound && compound_get(t->Compound_0, "name"@) is Some && compound_get(t->Compound_0, "name"@)->0 is String && compound_get(
            t->Compound_0,
            "value"@,
        ) is Some && compound_get(t->Compound_0, "value"@)->0 is String {
            seq![
                pair(
                    Val::Text(compound_get(t->Compound_0, "name"@)->0->String_0),
                    pair(
                        Val::Text(compound_get(t->Compound_0, "value"@)->0->String_0),
                        match compound_get(t->Compound_0, "signature"@) {
                            Some(Tag::String(s)) => Val::Present(Box::new(Val::Text(s))),
                            _ => Val::Absent,
                        },
                    ),
                ),
            ]
        } else {
            Seq::empty()
        }));
}

proof fn lemma_raw_pages_front(l: Seq<Tag>, m: Seq<Tag>, n: nat)
    requires
        n <= l.len(),
    ensures
        raw_pages_from(l + m, n) == raw_pages_from(l, n),
    decreases n,
{
    if n > 0 {
        lemma_raw_pages_front(l, m, (n - 1) as nat);
        assert((l + m)[n - 1] == l[n - 1]);
    }
}

proof fn lemma_raw_pages_behind(l: Seq<Tag>, m: Seq<Tag>, n: nat)
    requires
        n <= m.len(),
    ensures
        raw_pages_from(l + m, l.len() + n) == raw_pages_from(l, l.len()) + raw_pages_from(m, n),
    decreases n,
{
    if n > 0 {
        lemma_raw_pages_behind(l, m, (n - 1) as nat);
        assert((l + m)[l.len() + n - 1] == m[n - 1]);
        assert(raw_pages_from(l + m, l.len() + n) =~= raw_pages_from(l, l.len()) + raw_pages_from(m, n));
    } else {
        lemma_raw_pages_front(l, m, l.len());
        assert(raw_pages_from(m, 0) =~= Seq::empty());
        assert(raw_pages_from(l + m, l.len()) =~= raw_pages_from(l, l.len()) + Seq::empty());
    }
}

/// The pages of a book that is being written are the texts of the list, and those under `raw` in its
/// compounds, in their order.
pub proof fn lemma_raw_pages_one_by_one(l: Seq<Tag>, m: Seq<Tag>, t: Tag)
    ensures
        raw_pages_from(Seq::empty(), 0) == Seq::<Val>::empty(),
        raw_pages_from(seq![t], 1) == (match t {
            Tag::String(s) => seq![pair(Val::Text(s), Val::Unit)],
            Tag::Compound(c) => match compound_get(c, "raw"@) {
                Some(Tag::String(s)) => seq![pair(Val::Text(s), Val::Unit)],
                _ => Seq::empty(),
            },
            _ => Seq::empty(),
        }),
        raw_pages_from(l + m, (l + m).len()) == raw_pages_from(l, l.len()) + raw_pages_from(m, m.len()),
{
    reveal_with_fuel(raw_pages_from, 2);
    lemma_raw_pages_behind(l, m, m.len());
    assert(raw_pages_from(seq![t], 1) =~= (match t {
            Tag::String(s) => seq![pair(Val::Text(s), Val::Unit)],
            Tag::Compound(c) => match compound_get(c, "raw"@) {
                Some(Tag::String(s)) => seq![pair(Val::Text(s), Val::Unit)],
                _ => Seq::empty(),
            },
            _ => Seq::empty(),
        }));
}

proof fn lemma_pages_front(l: Seq<Tag>, m: Seq<Tag>, n: nat)
    requires
        n <= l.len(),
    ensures
        pages_from(l + m, n) == pages_from(l, n),
    decreases n,
{
    if n > 0 {
        lemma_pages_front(l, m, (n - 1) as nat);
        assert((l + m)[n - 1] == l[n - 1]);
    }
}

proof fn lemma_pages_behind(l: Seq<Tag>, m: Seq<Tag>, n: nat)
    requires
        n <= m.len(),
    ensures
        pages_from(l + m, l.len() + n) == pages_from(l, l.len()) + pages_from(m, n),
    decreases n,
{
    if n > 0 {
        lemma_pages_behind(l, m, (n - 1) as nat);
        assert((l + m)[l.len() + n - 1] == m[n - 1]);
        assert(pages_from(l + m, l.len() + n) =~= pages_from(l, l.len()) + pages_from(m, n));
    } else {
        lemma_pages_front(l, m, l.len());
        assert(pages_from(m, 0) =~= Seq::empty());
        assert(pages_from(l + m, l.len()) =~= pages_from(l, l.len()) + Seq::empty());
    }
}

/// The pages of a signed book are the texts of the list, in their order.
pub proof fn lemma_pages_one_by_one(l: Seq<Tag>, m: Seq<Tag>, t: Tag)
    ensures
        pages_from(Seq::empty(), 0) == Seq::<Val>::empty(),
        pages_from(seq![t], 1) == (match t {
            Tag::String(s) => seq![pair(Val::Text(s), Val::Unit)],
            _ => Seq::empty(),
        }),
        pages_from(l + m, (l + m).len()) == pages_from(l, l.len()) + pages_from(m, m.len()),
{
    reveal_with_fuel(pages_from, 2);
    lemma_pages_behind(l, m, m.len());
    assert(pages_from(seq![t], 1) =~= (match t {
            Tag::String(s) => seq![pair(Val::Text(s), Val::Unit)],
            _ => Seq::empty(),
        }));
}

proof fn lemma_block_state_front(l: Seq<(Seq<char>, Tag)>, m: Seq<(Seq<char>, Tag)>, n: nat)
    requires
        n <= l.len(),
    ensures
        block_state_from(l + m, n) == block_state_from(l, n),
    decreases n,
{
    if n > 0 {
        lemma_block_state_front(l, m, (n - 1) as nat);
        assert((l + m)[n - 1] == l[n - 1]);
    }
}

proof fn lemma_block_state_behind(l: Seq<(Seq<char>, Tag)>, m: Seq<(Seq<char>, Tag)>, n: nat)
    requires
        n <= m.len(),
    ensures
        block_state_from(l + m, l.len() + n) == block_state_from(l, l.len()) + block_state_from(m, n),
    decreases n,
{
    if n > 0 {
        lemma_block_state_behind(l, m, (n - 1) as nat);
        assert((l + m)[l.len() + n - 1] == m[n - 1]);
        assert(block_state_from(l + m, l.len() + n) =~= block_state_from(l, l.len()) + block_state_from(m, n));
    } else {
        lemma_block_state_front(l, m, l.len());
        assert(block_state_from(m, 0) =~= Seq::empty());
        assert(block_state_from(l + m, l.len()) =~= block_state_from(l, l.len()) + Seq::empty());
    }
}

/// The properties of a block are the texts of the compound by their keys, in their order.
pub proof fn lemma_block_state_one_by_one(l: Seq<(Seq<char>, Tag)>, m: Seq<(Seq<char>, Tag)>, t: (Seq<char>, Tag))
    ensures
        block_state_from(Seq::empty(), 0) == Seq::<Val>::empty(),
        block_state_from(seq![t], 1) == (match t.1 {
            Tag::String(s) => seq![pair(Val::Text(t.0), Val::Text(s))],
            _ => Seq::empty(),
        }),
        block_state_from(l + m, (l + m).len()) == block_state_from(l, l.len()) + block_state_from(m, m.len()),
{
    reveal_with_fuel(block_state_from, 2);
    lemma_block_state_behind(l, m, m.len());
    assert(block_state_from(seq![t], 1) =~= (match t.1 {
            Tag::String(s) => seq![pair(Val::Text(t.0), Val::Text(s))],
            _ => Seq::empty(),
        }));
}

proof fn lemma_picked_front(p: Pick, l: Seq<Tag>, m: Seq<Tag>, n: nat)
    requires
        n <= l.len(),
    ensures
        picked(p, l + m, n) == picked(p, l, n),
    decreases n,
{
    if n > 0 {
        lemma_picked_front(p, l, m, (n - 1) as nat);
        assert((l + m)[n - 1] == l[n - 1]);
    }
}

proof fn lemma_picked_behind(p: Pick, l: Seq<Tag>, m: Seq<Tag>, n: nat)
    requires
        n <= m.len(),
    ensures
        picked(p, l + m, l.len() + n) == picked(p, l, l.len()) + picked(p, m, n),
    decreases n,
{
    if n > 0 {
        lemma_picked_behind(p, l, m, (n - 1) as nat);
        assert((l + m)[l.len() + n - 1] == m[n - 1]);
        assert(picked(p, l + m, l.len() + n) =~= picked(p, l, l.len()) + picked(p, m, n));
    } else {
        lemma_picked_front(p, l, m, l.len());
        assert(picked(p, m, 0) =~= Seq::empty());
        assert(picked(p, l + m, l.len()) =~= picked(p, l, l.len()) + Seq::empty());
    }
}

/// What is taken from a list are its tags of the type asked for, in their order.
pub proof fn lemma_picked_one_by_one(p: Pick, l: Seq<Tag>, m: Seq<Tag>, t: Tag)
    ensures
        picked(p, Seq::empty(), 0) == Seq::<Val>::empty(),
        picked(p, seq![t], 1) == (match (p, t) {
            (Pick::Text, Tag::String(s)) => seq![Val::Text(s)],
            (Pick::Line, Tag::String(s)) => seq![Val::Nbt(Tag::String(s))],
            (Pick::Flag, Tag::Byte(b)) => seq![Val::Bool(b != 0)],
            (Pick::Int, Tag::Int(i)) => seq![Val::Int(i)],
            (Pick::Float, Tag::Float(b)) => seq![Val::Float(4, b as nat)],
            _ => Seq::empty(),
        }),
        picked(p, l + m, (l + m).len()) == picked(p, l, l.len()) + picked(p, m, m.len()),
{
    reveal_with_fuel(picked, 2);
    lemma_picked_behind(p, l, m, m.len());
    assert(picked(p, seq![t], 1) =~= (match (p, t) {
            (Pick::Text, Tag::String(s)) => seq![Val::Text(s)],
            (Pick::Line, Tag::String(s)) => seq![Val::Nbt(Tag::String(s))],
            (Pick::Flag, Tag::Byte(b)) => seq![Val::Bool(b != 0)],
            (Pick::Int, Tag::Int(i)) => seq![Val::Int(i)],
            (Pick::Float, Tag::Float(b)) => seq![Val::Float(4, b as nat)],
            _ => Seq::empty(),
        }));
}

proof fn lemma_bundle_front(regs: Registries, l: Seq<Tag>, m: Seq<Tag>, n: nat)
    requires
        n <= l.len(),
    ensures
        bundle_from(regs, l + m, n) == bundle_from(regs, l, n),
    decreases n,
{
    if n > 0 {
        lemma_bundle_front(regs, l, m, (n - 1) as nat);
        assert((l + m)[n - 1] == l[n - 1]);
    }
}

proof fn lemma_bundle_behind(regs: Registries, l: Seq<Tag>, m: Seq<Tag>, n: nat)
    requires
        n <= m.len(),
    ensures
        bundle_from(regs, l + m, l.len() + n) == bundle_from(regs, l, l.len()) + bundle_from(regs, m, n),
    decreases n,
{
    if n > 0 {
        lemma_bundle_behind(regs, l, m, (n - 1) as nat);
        assert((l + m)[l.len() + n - 1] == m[n - 1]);
        assert(bundle_from(regs, l + m, l.len() + n) =~= bundle_from(regs, l, l.len()) + bundle_from(regs, m, n));
    } else {
        lemma_bundle_front(regs, l, m, l.len());
        assert(bundle_from(regs, m, 0) =~= Seq::empty());
        assert(bundle_from(regs, l + m, l.len()) =~= bundle_from(regs, l, l.len()) + Seq::empty());
    }
}

/// What a bundle holds are the stacks that its compounds describe, in their order.
pub proof fn lemma_bundle_one_by_one(regs: Registries, l: Seq<Tag>, m: Seq<Tag>, t: Tag)
    ensures
        bundle_from(regs, Seq::empty(), 0) == Seq::<Val>::empty(),
        bundle_from(regs, seq![t], 1) == (match t {
            Tag::Compound(c) => match stack_from(regs, c) {
                Some(s) => seq![Val::Stack(s)],
                None => Seq::empty(),
            },
            _ => Seq::empty(),
        }),
        bundle_from(regs, l + m, (l + m).len()) == bundle_from(regs, l, l.len()) + bundle_from(regs, m, m.len()),
{
    reveal_with_fuel(bundle_from, 2);
    lemma_bundle_behind(regs, l, m, m.len());
    assert(bundle_from(regs, seq![t], 1) =~= (match t {
            Tag::Compound(c) => match stack_from(regs, c) {
                Some(s) => seq![Val::Stack(s)],
                None => Seq::empty(),
            },
            _ => Seq::empty(),
        }));
}

/// The recipes are read if all tags are identifiers, and are these, in their order.
pub proof fn lemma_recipes_each(l: Seq<Tag>, n: nat)
    requires
        n <= l.len(),
    ensures
        recipes_from(l, n) is Some == (forall|i: int| 0 <= i < n ==> ((#[trigger] l[i]) is String && identifier_of(l[i]->String_0) is Some)),
        recipes_from(l, n) matches Some(q) ==> q.len() == n && forall|i: int| 0 <= i < n ==> #[trigger] q[i] == Val::Text(identifier_of(l[i]->String_0)->0),
    decreases n,
{
    if n > 0 {
        lemma_recipes_each(l, (n - 1) as nat);
        assert((l[n - 1] is String && identifier_of(l[n - 1]->String_0) is Some) || !(l[n - 1] is String && identifier_of(l[n - 1]->String_0) is Some));
    }
}

/// The markers of a map are read if all entries describe one, and are these, in their order.
pub proof fn lemma_decorations_each(l: Seq<(Seq<char>, Tag)>, n: nat)
    requires
        n <= l.len(),
    ensures
        decorations_from(l, n) is Some == (forall|i: int| 0 <= i < n ==> (decoration_from(l[i].0, (#[trigger] l[i]).1) is Some)),
        decorations_from(l, n) matches Some(q) ==> q.len() == n && forall|i: int| 0 <= i < n ==> #[trigger] q[i] == decoration_from(l[i].0, l[i].1)->0,
    decreases n,
{
    if n > 0 {
        lemma_decorations_each(l, (n - 1) as nat);
        assert((decoration_from(l[n - 1].0, l[n - 1].1) is Some) || !(decoration_from(l[n - 1].0, l[n - 1].1) is Some));
    }
}

/// Status effects are read if all tags describe one, and are these, in their order.
pub proof fn lemma_effects_each(regs: Registries, l: Seq<Tag>, n: nat)
    requires
        n <= l.len(),
    ensures
        effects_from(regs, l, n) is Some == (forall|i: int| 0 <= i < n ==> (effect_from(regs, (#[trigger] l[i])) is Some)),
        effects_from(regs, l, n) matches Some(q) ==> q.len() == n && forall|i: int| 0 <= i < n ==> #[trigger] q[i] == effect_from(regs, l[i])->0,
    decreases n,
{
    if n > 0 {
        lemma_effects_each(regs, l, (n - 1) as nat);
        assert((effect_from(regs, l[n - 1]) is Some) || !(effect_from(regs, l[n - 1]) is Some));
    }
}

/// Names of status effects are read if the registry knows them all, and stand for their numbers, in their order.
pub proof fn lemma_effect_ids_each(regs: Registries, l: Seq<Tag>, n: nat)
    requires
        n <= l.len(),
    ensures
        effect_ids_from(regs, l, n) is Some == (forall|i: int| 0 <= i < n ==> ((#[trigger] l[i]) is String && find_name(regs.effects@, l[i]->String_0) is Some && find_name(regs.effects@, l[i]->String_0)->0 <= 65535)),
        effect_ids_from(regs, l, n) matches Some(q) ==> q.len() == n && forall|i: int| 0 <= i < n ==> #[trigger] q[i] == Val::Int(find_name(regs.effects@, l[i]->String_0)->0),
    decreases n,
{
    if n > 0 {
        lemma_effect_ids_each(regs, l, (n - 1) as nat);
        assert((l[n - 1] is String && find_name(regs.effects@, l[n - 1]->String_0) is Some && find_name(regs.effects@, l[n - 1]->String_0)->0 <= 65535) || !(l[n - 1] is String && find_name(regs.effects@, l[n - 1]->String_0) is Some && find_name(regs.effects@, l[n - 1]->String_0)->0 <= 65535));
    }
}

/// What consuming an item does is read if all tags describe an effect, and is these, in their order.
pub proof fn lemma_consume_effects_each(regs: Registries, l: Seq<Tag>, n: nat)
    requires
        n <= l.len(),
    ensures
        consume_effects_from(regs, l, n) is Some == (forall|i: int| 0 <= i < n ==> (consume_effect_from(regs, (#[trigger] l[i])) is Some)),
        consume_effects_from(regs, l, n) matches Some(q) ==> q.len() == n && forall|i: int| 0 <= i < n ==> #[trigger] q[i] == consume_effect_from(regs, l[i])->0,
    decreases n,
{
    if n > 0 {
        lemma_consume_effects_each(regs, l, (n - 1) as nat);
        assert((consume_effect_from(regs, l[n - 1]) is Some) || !(consume_effect_from(regs, l[n - 1]) is Some));
    }
}

/// Changes of attributes are read if all tags describe one, and are these, in their order.
pub proof fn lemma_modifiers_each(regs: Registries, l: Seq<Tag>, n: nat)
    requires
        n <= l.len(),
    ensures
        modifiers_from(regs, l, n) is Some == (forall|i: int| 0 <= i < n ==> (modifier_from(regs, (#[trigger] l[i])) is Some)),
        modifiers_from(regs, l, n) matches Some(q) ==> q.len() == n && forall|i: int| 0 <= i < n ==> #[trigger] q[i] == modifier_from(regs, l[i])->0,
    decreases n,
{
    if n > 0 {
        lemma_modifiers_each(regs, l, (n - 1) as nat);
        assert((modifier_from(regs, l[n - 1]) is Some) || !(modifier_from(regs, l[n - 1]) is Some));
    }
}

/// Projectiles are read if all tags describe a stack, and are these, in their order.
pub proof fn lemma_projectiles_each(regs: Registries, l: Seq<Tag>, n: nat)
    requires
        n <= l.len(),
    ensures
        projectiles_from(regs, l, n) is Some == (forall|i: int| 0 <= i < n ==> ((#[trigger] l[i]) is Compound && stack_from(regs, l[i]->Compound_0) is Some)),
        projectiles_from(regs, l, n) matches Some(q) ==> q.len() == n && forall|i: int| 0 <= i < n ==> #[trigger] q[i] == Val::Stack(stack_from(regs, l[i]->Compound_0)->0),
    decreases n,
{
    if n > 0 {
        lemma_projectiles_each(regs, l, (n - 1) as nat);
        assert((l[n - 1] is Compound && stack_from(regs, l[n - 1]->Compound_0) is Some) || !(l[n - 1] is Compound && stack_from(regs, l[n - 1]->Compound_0) is Some));
    }
}

/// What a container holds is read if all tags describe a stack in a slot, and is these, in their order.
pub proof fn lemma_slots_each(regs: Registries, l: Seq<Tag>, n: nat)
    requires
        n <= l.len(),
    ensures
        slots_from(regs, l, n) is Some == (forall|i: int| 0 <= i < n ==> (slot_from(regs, (#[trigger] l[i])) is Some)),
        slots_from(regs, l, n) matches Some(q) ==> q.len() == n && forall|i: int| 0 <= i < n ==> #[trigger] q[i] == slot_from(regs, l[i])->0,
    decreases n,
{
    if n > 0 {
        lemma_slots_each(regs, l, (n - 1) as nat);
        assert((slot_from(regs, l[n - 1]) is Some) || !(slot_from(regs, l[n - 1]) is Some));
    }
}

/// The number is stored as an integer.
pub proof fn lemma_max_damage_is_stored(v: MaxDamageImpl, regs: Registries, t: Tag)
    ensures
        own_to_tag(DataComponent::MaxDamage, regs, MaxDamageImpl::val(v)) == Some(Tag::Int(v.max_damage as int)),
        own_from_tag(DataComponent::MaxDamage, regs, t) == Some(MaxDamageImpl::val(v)) <==> t == Tag::Int(v.max_damage as int),
        own_from_tag(DataComponent::MaxDamage, regs, t) is Some <==> t is Int,
{
    reveal(own_to_tag);
    reveal(own_from_tag);
}

/// The number is stored as an integer.
pub proof fn lemma_damage_is_stored(v: DamageImpl, regs: Registries, t: Tag)
    ensures
        own_to_tag(DataComponent::Damage, regs, DamageImpl::val(v)) == Some(Tag::Int(v.damage as int)),
        own_from_tag(DataComponent::Damage, regs, t) == Some(DamageImpl::val(v)) <==> t == Tag::Int(v.damage as int),
        own_from_tag(DataComponent::Damage, regs, t) is Some <==> t is Int,
{
    reveal(own_to_tag);
    reveal(own_from_tag);
}

/// The number is stored as an integer.
pub proof fn lemma_dyed_color_is_stored(v: DyedColorImpl, regs: Registries, t: Tag)
    ensures
        own_to_tag(DataComponent::DyedColor, regs, DyedColorImpl::val(v)) == Some(Tag::Int(v.rgb as int)),
        own_from_tag(DataComponent::DyedColor, regs, t) == Some(DyedColorImpl::val(v)) <==> t == Tag::Int(v.rgb as int),
        own_from_tag(DataComponent::DyedColor, regs, t) is Some <==> t is Int,
{
    reveal(own_to_tag);
    reveal(own_from_tag);
}

/// The number is stored as an integer.
pub proof fn lemma_map_id_is_stored(v: MapIdImpl, regs: Registries, t: Tag)
    ensures
        own_to_tag(DataComponent::MapId, regs, MapIdImpl::val(v)) == Some(Tag::Int(v.id as int)),
        own_from_tag(DataComponent::MapId, regs, t) == Some(MapIdImpl::val(v)) <==> t == Tag::Int(v.id as int),
        own_from_tag(DataComponent::MapId, regs, t) is Some <==> t is Int,
{
    reveal(own_to_tag);
    reveal(own_from_tag);
}

/// The text is stored as it is.
pub proof fn lemma_item_model_is_stored(v: ItemModelImpl, regs: Registries, t: Tag)
    ensures
        own_to_tag(DataComponent::ItemModel, regs, ItemModelImpl::val(v)) == Some(Tag::String(v.id@)),
        own_from_tag(DataComponent::ItemModel, regs, t) == Some(ItemModelImpl::val(v)) <==> t == Tag::String(v.id@),
        own_from_tag(DataComponent::ItemModel, regs, t) is Some <==> t is String,
{
    reveal(own_to_tag);
    reveal(own_from_tag);
}

/// The text is stored as it is.
pub proof fn lemma_tooltip_style_is_stored(v: TooltipStyleImpl, regs: Registries, t: Tag)
    ensures
        own_to_tag(DataComponent::TooltipStyle, regs, TooltipStyleImpl::val(v)) == Some(Tag::String(v.id@)),
        own_from_tag(DataComponent::TooltipStyle, regs, t) == Some(TooltipStyleImpl::val(v)) <==> t == Tag::String(v.id@),
        own_from_tag(DataComponent::TooltipStyle, regs, t) is Some <==> t is String,
{
    reveal(own_to_tag);
    reveal(own_from_tag);
}

/// The text is stored as it is.
pub proof fn lemma_note_block_sound_is_stored(v: NoteBlockSoundImpl, regs: Registries, t: Tag)
    ensures
        own_to_tag(DataComponent::NoteBlockSound, regs, NoteBlockSoundImpl::val(v)) == Some(Tag::String(v.sound@)),
        own_from_tag(DataComponent::NoteBlockSound, regs, t) == Some(NoteBlockSoundImpl::val(v)) <==> t == Tag::String(v.sound@),
        own_from_tag(DataComponent::NoteBlockSound, regs, t) is Some <==> t is String,
{
    reveal(own_to_tag);
    reveal(own_from_tag);
}

/// The text is stored as it is.
pub proof fn lemma_base_color_is_stored(v: BaseColorImpl, regs: Registries, t: Tag)
    ensures
        own_to_tag(DataComponent::BaseColor, regs, BaseColorImpl::val(v)) == Some(Tag::String(v.color@)),
        own_from_tag(DataComponent::BaseColor, regs, t) == Some(BaseColorImpl::val(v)) <==> t == Tag::String(v.color@),
        own_from_tag(DataComponent::BaseColor, regs, t) is Some <==> t is String,
{
    reveal(own_to_tag);
    reveal(own_from_tag);
}

/// The compound is stored as it is.
pub proof fn lemma_custom_data_is_stored(v: CustomDataImpl, regs: Registries, t: Tag)
    ensures
        own_to_tag(DataComponent::CustomData, regs, CustomDataImpl::val(v)) == Some(Tag::Compound(v.data@)),
        own_from_tag(DataComponent::CustomData, regs, t) == Some(CustomDataImpl::val(v)) <==> t == Tag::Compound(v.data@),
        own_from_tag(DataComponent::CustomData, regs, t) is Some <==> t is Compound,
{
    reveal(own_to_tag);
    reveal(own_from_tag);
}

/// The compound is stored as it is.
pub proof fn lemma_lock_is_stored(v: LockImpl, regs: Registries, t: Tag)
    ensures
        own_to_tag(DataComponent::Lock, regs, LockImpl::val(v)) == Some(Tag::Compound(v.predicate@)),
        own_from_tag(DataComponent::Lock, regs, t) == Some(LockImpl::val(v)) <==> t == Tag::Compound(v.predicate@),
        own_from_tag(DataComponent::Lock, regs, t) is Some <==> t is Compound,
{
    reveal(own_to_tag);
    reveal(own_from_tag);
}

/// The compound is stored as it is.
pub proof fn lemma_block_entity_data_is_stored(v: BlockEntityDataImpl, regs: Registries, t: Tag)
    ensures
        own_to_tag(DataComponent::BlockEntityData, regs, BlockEntityDataImpl::val(v)) == Some(Tag::Compound(v.nbt@)),
        own_from_tag(DataComponent::BlockEntityData, regs, t) == Some(BlockEntityDataImpl::val(v)) <==> t == Tag::Compound(v.nbt@),
        own_from_tag(DataComponent::BlockEntityData, regs, t) is Some <==> t is Compound,
{
    reveal(own_to_tag);
    reveal(own_from_tag);
}

/// The size of a stack is stored as an integer, of which the lowest eight bits are read.
pub proof fn lemma_max_stack_size_is_stored(v: MaxStackSizeImpl, regs: Registries, t: Tag)
    ensures
        own_to_tag(DataComponent::MaxStackSize, regs, MaxStackSizeImpl::val(v)) == Some(Tag::Int(v.size as int)),
        own_from_tag(DataComponent::MaxStackSize, regs, t) == Some(MaxStackSizeImpl::val(v)) <==> t is Int && t->Int_0 % 256 == v.size as int,
        own_from_tag(DataComponent::MaxStackSize, regs, t) is Some <==> t is Int,
{
    reveal(own_to_tag);
    reveal(own_from_tag);
}

/// The name under which a rarity is stored.
pub open spec fn rarity_text(r: Rarity) -> Seq<char> {
    match r {
        Rarity::Common => "common"@,
        Rarity::Uncommon => "uncommon"@,
        Rarity::Rare => "rare"@,
        Rarity::Epic => "epic"@,
    }
}

/// A rarity is stored by its name.
pub proof fn lemma_rarity_is_stored(v: RarityImpl, regs: Registries, t: Tag)
    ensures
        own_to_tag(DataComponent::Rarity, regs, RarityImpl::val(v)) == Some(Tag::String(rarity_text(v.rarity))),
        rarity_from(t) == Some(RarityImpl::val(v)) <==> t == Tag::String(rarity_text(v.rarity)),
        own_from_tag(DataComponent::Rarity, regs, t) == rarity_from(t),
        rarity_from(t) is Some ==> t is String,
{
    reveal(own_to_tag);
    reveal(own_from_tag);
    lemma_rarity_names();
}

/// How a map is processed is stored as a number, and read from a number or a name.
pub proof fn lemma_processing_is_stored(v: MapPostProcessingImpl, regs: Registries, t: Tag)
    ensures
        own_to_tag(DataComponent::MapPostProcessing, regs, MapPostProcessingImpl::val(v)) == Some(
            Tag::Int(
                match v.processing {
                    Some(MapPostProcessing::Scale) => 1,
                    _ => 0,
                },
            ),
        ),
        own_from_tag(DataComponent::MapPostProcessing, regs, t) == processing_from(t),
        processing_from(t) is Some <==> t is Int || t is String,
        processing_from(t) == Some(MapPostProcessingImpl::val(v)) ==> match v.processing {
            Some(MapPostProcessing::Lock) => t == Tag::Int(0) || t == Tag::String("lock"@),
            Some(MapPostProcessing::Scale) => t == Tag::Int(1) || t == Tag::String("scale"@),
            None => t != Tag::Int(0) && t != Tag::Int(1) && t != Tag::String("lock"@) && t != Tag::String("scale"@),
        },
{
    reveal(own_to_tag);
    reveal(own_from_tag);
    reveal_strlit("lock");
    reveal_strlit("scale");
    assert("lock"@.len() == 4);
    assert("scale"@.len() == 5);
}

/// What only has to be there is stored as an empty compound.
pub proof fn lemma_presence_is_stored(k: DataComponent, regs: Registries, t: Tag)
    requires
        k == DataComponent::Unbreakable || k == DataComponent::CreativeSlotLock || k == DataComponent::EnchantmentGlintOverride || k
            == DataComponent::Instrument || k == DataComponent::ProvidesTrimMaterial || k == DataComponent::ProvidesBannerPatterns || k
            == DataComponent::PotDecorations || k == DataComponent::BreakSound || k == DataComponent::Dye || k == DataComponent::MapColor || k
            == DataComponent::EntityData || k == DataComponent::BucketEntityData || k == DataComponent::Bees || k
            == DataComponent::IntangibleProjectile,
    ensures
        own_to_tag(k, regs, Val::Unit) == Some(Tag::Compound(Seq::empty())),
        k != DataComponent::IntangibleProjectile || t is Compound ==> own_from_tag(k, regs, t) == Some(Val::Unit),
        k == DataComponent::IntangibleProjectile && !(t is Compound) ==> own_from_tag(k, regs, t) is None,
{
    reveal(own_to_tag);
    reveal(own_from_tag);
}

/// A name is stored as the text that is shown, and read from a text or a compound.
pub proof fn lemma_name_is_stored(v: CustomNameImpl, regs: Registries, t: Tag)
    ensures
        own_to_tag(DataComponent::CustomName, regs, CustomNameImpl::val(v)) == Some(Tag::String(plain_text(v.name@))),
        own_from_tag(DataComponent::CustomName, regs, t) == Some(CustomNameImpl::val(v)) ==> v.name@ == t,
        own_from_tag(DataComponent::CustomName, regs, t) is Some <==> t is String || t is Compound,
{
    reveal(own_to_tag);
    reveal(own_from_tag);
}

/// The lines of a description are stored as the texts that are shown.
pub proof fn lemma_lore_is_stored(v: LoreImpl, regs: Registries)
    ensures
        own_to_tag(DataComponent::Lore, regs, LoreImpl::val(v)) == Some(
            Tag::List(Seq::new(v.lines@.len(), |i: int| Tag::String(plain_text(v.lines@[i]@)))),
        ),
{
    reveal(own_to_tag);
    let l = vals::<AsLine>(v.lines@);
    assert forall|i: int| 0 <= i < l.len() implies #[trigger] as_nbt(l[i]) == v.lines@[i]@ by {
        assert(l[i] == AsLine::val(v.lines@[i]));
    }
    assert(line_tags(l) =~= Seq::new(v.lines@.len(), |i: int| Tag::String(plain_text(v.lines@[i]@))));
}

/// The lines of a description are read from the texts of a list.
pub proof fn lemma_lore_is_read(v: LoreImpl, regs: Registries, l: Seq<Tag>)
    requires
        forall|i: int| 0 <= i < l.len() ==> #[trigger] l[i] is String,
        own_from_tag(DataComponent::Lore, regs, Tag::List(l)) == Some(LoreImpl::val(v)),
    ensures
        v.lines@.len() == l.len(),
        forall|i: int| 0 <= i < l.len() ==> #[trigger] v.lines@[i]@ == l[i],
{
    reveal(own_from_tag);
    lemma_lines_upto(l, l.len());
    assert(as_list(LoreImpl::val(v)) == vals::<AsLine>(v.lines@));
    let q = picked(Pick::Line, l, l.len());
    assert forall|i: int| 0 <= i < l.len() implies #[trigger] v.lines@[i]@ == l[i] by {
        assert(q[i] == Val::Nbt(l[i]));
        assert(vals::<AsLine>(v.lines@)[i] == AsLine::val(v.lines@[i]));
    }
}

proof fn lemma_lines_upto(l: Seq<Tag>, n: nat)
    requires
        n <= l.len(),
        forall|i: int| 0 <= i < l.len() ==> #[trigger] l[i] is String,
    ensures
        picked(Pick::Line, l, n).len() == n,
        forall|i: int| 0 <= i < n ==> #[trigger] picked(Pick::Line, l, n)[i] == Val::Nbt(l[i]),
    decreases n,
{
    if n > 0 {
        lemma_lines_upto(l, (n - 1) as nat);
        assert(l[n - 1] is String);
    }
}

/// A firework is stored with how long it flies and its explosions.
pub proof fn lemma_fireworks_are_stored(v: FireworksImpl, regs: Registries)
    ensures
        fireworks_tag(FireworksImpl::val(v)) == Tag::Compound(
            seq![
                ("flight_duration"@, Tag::Int(v.flight_duration as int)),
                ("explosions"@, Tag::List(Seq::new(v.explosions@.len(), |i: int| stored_explosion(v.explosions@[i])))),
            ],
        ),
        own_to_tag(DataComponent::Fireworks, regs, FireworksImpl::val(v)) == Some(fireworks_tag(FireworksImpl::val(v))),
{
    reveal(own_to_tag);
    lemma_fireworks_keys();
    let l = vals::<FireworkExplosionImpl>(v.explosions@);
    assert forall|i: int| 0 <= i < l.len() implies #[trigger] explosion_tag(l[i]) == stored_explosion(v.explosions@[i]) by {
        assert(l[i] == FireworkExplosionImpl::val(v.explosions@[i]));
        lemma_explosion_is_stored(v.explosions@[i], regs);
    }
    assert(explosion_tags(l) =~= Seq::new(v.explosions@.len(), |i: int| stored_explosion(v.explosions@[i])));
    let c0 = Seq::<(Seq<char>, Tag)>::empty();
    let c1 = c0.push(("flight_duration"@, Tag::Int(v.flight_duration as int)));
    lemma_new_key(c0, "flight_duration"@, Tag::Int(v.flight_duration as int));
    let c2 = c1.push(("explosions"@, Tag::List(Seq::new(v.explosions@.len(), |i: int| stored_explosion(v.explosions@[i])))));
    lemma_new_key(c1, "explosions"@, Tag::List(Seq::new(v.explosions@.len(), |i: int| stored_explosion(v.explosions@[i]))));
    assert(c2 =~= seq![
        ("flight_duration"@, Tag::Int(v.flight_duration as int)),
        ("explosions"@, Tag::List(Seq::new(v.explosions@.len(), |i: int| stored_explosion(v.explosions@[i])))),
    ]);
}

/// A firework that is read flies for the number under `flight_duration`, or one, and has the explosions
/// that the list under `explosions` describes.
pub proof fn lemma_fireworks_are_read(t: Tag, v: FireworksImpl, regs: Registries)
    requires
        fireworks_from(t) == Some(FireworksImpl::val(v)),
    ensures
        own_from_tag(DataComponent::Fireworks, regs, t) == Some(FireworksImpl::val(v)),
        t is Compound,
        v.flight_duration == (match compound_get(t->Compound_0, "flight_duration"@) {
            Some(Tag::Byte(n)) => n,
            Some(Tag::Int(n)) => n,
            _ => 1,
        }),
        vals::<FireworkExplosionImpl>(v.explosions@) == match compound_get(t->Compound_0, "explosions"@) {
            Some(Tag::List(l)) => explosions_from(l, l.len()),
            _ => Seq::empty(),
        },
{
    reveal(own_from_tag);
    let w = fireworks_from(t)->0;
    assert(as_int(first(w)) == v.flight_duration as int);
    assert(as_list(second(w)) == vals::<FireworkExplosionImpl>(v.explosions@));
}

/// The entries of the place that a compass points to.
pub open spec fn stored_target(v: LodestoneTarget) -> Tag {
    Tag::Compound(
        seq![
            ("dimension"@, Tag::String(v.dimension@)),
            ("pos"@, Tag::IntArray(seq![v.x as int, v.y as int, v.z as int])),
        ],
    )
}

/// A compass is stored with the place that it points to, where there is one, and whether it is tracked.
pub proof fn lemma_tracker_is_stored(v: LodestoneTrackerImpl, regs: Registries)
    ensures
        tracker_tag(LodestoneTrackerImpl::val(v)) == Tag::Compound(
            match v.target {
                Some(target) => seq![("target"@, stored_target(target)), ("tracked"@, flag_tag(v.is_tracked))],
                None => seq![("tracked"@, flag_tag(v.is_tracked))],
            },
        ),
        own_to_tag(DataComponent::LodestoneTracker, regs, LodestoneTrackerImpl::val(v)) == Some(tracker_tag(LodestoneTrackerImpl::val(v))),
{
    reveal(own_to_tag);
    lemma_tracker_keys();
    let c0 = Seq::<(Seq<char>, Tag)>::empty();
    match v.target {
        Some(target) => {
            let w = LodestoneTarget::val(target);
            let d = c0.push(("dimension"@, Tag::String(target.dimension@)));
            lemma_new_key(c0, "dimension"@, Tag::String(target.dimension@));
            let p = Tag::IntArray(seq![target.x as int, target.y as int, target.z as int]);
            lemma_new_key(d, "pos"@, p);
            assert(d.push(("pos"@, p)) =~= stored_target(target)->Compound_0);
            assert(target_tag(w) == stored_target(target));
            lemma_new_key(c0, "target"@, stored_target(target));
            let c1 = c0.push(("target"@, stored_target(target)));
            lemma_new_key(c1, "tracked"@, flag_tag(v.is_tracked));
            assert(c1.push(("tracked"@, flag_tag(v.is_tracked))) =~= seq![
                ("target"@, stored_target(target)),
                ("tracked"@, flag_tag(v.is_tracked)),
            ]);
        },
        None => {
            lemma_new_key(c0, "tracked"@, flag_tag(v.is_tracked));
            assert(c0.push(("tracked"@, flag_tag(v.is_tracked))) =~= seq![("tracked"@, flag_tag(v.is_tracked))]);
        },
    }
}

/// A compass that is read points to the place under `target` and is tracked, unless it says no.
pub proof fn lemma_tracker_is_read(t: Tag, v: LodestoneTrackerImpl, regs: Registries)
    requires
        tracker_from(t) == Some(LodestoneTrackerImpl::val(v)),
    ensures
        own_from_tag(DataComponent::LodestoneTracker, regs, t) == Some(LodestoneTrackerImpl::val(v)),
        t is Compound,
        v.is_tracked == !(compound_get(t->Compound_0, "tracked"@) matches Some(Tag::Byte(b)) && b == 0),
        v.target is Some <==> (compound_get(t->Compound_0, "target"@) matches Some(Tag::Compound(c)) && (compound_get(
            c,
            "dimension"@,
        ) matches Some(Tag::String(_))) && (compound_get(c, "pos"@) matches Some(Tag::IntArray(p)) && p.len() == 3)),
        v.target matches Some(target) ==> {
            let c = compound_get(t->Compound_0, "target"@)->0->Compound_0;
            &&& compound_get(c, "dimension"@) == Some(Tag::String(target.dimension@))
            &&& compound_get(c, "pos"@)->0->IntArray_0 =~= seq![target.x as int, target.y as int, target.z as int]
        },
{
    reveal(own_from_tag);
    let w = tracker_from(t)->0;
    assert(as_bool(second(w)) == v.is_tracked);
    match v.target {
        Some(target) => {
            assert(first(w) == optional(Some(LodestoneTarget::val(target))));
            let x = LodestoneTarget::val(target);
            assert(*first(w)->Present_0 == x);
            assert(as_text(first(x)) == target.dimension@);
            assert(as_int(first(second(x))) == target.x as int);
            assert(as_int(first(second(second(x)))) == target.y as int);
            assert(as_int(second(second(second(x)))) == target.z as int);
        },
        None => {
            assert(first(w) == Val::Absent);
        },
    }
}

/// What a model is selected by is stored as four lists, each under its name.
pub proof fn lemma_model_data_is_stored(v: CustomModelDataImpl, regs: Registries)
    ensures
        model_data_tag(CustomModelDataImpl::val(v)) == Tag::Compound(
            seq![
                ("floats"@, Tag::List(Seq::new(v.floats@.len(), |i: int| Tag::Float(v.floats@[i] as int)))),
                ("flags"@, Tag::List(Seq::new(v.flags@.len(), |i: int| flag_tag(v.flags@[i])))),
                ("strings"@, Tag::List(Seq::new(v.strings@.len(), |i: int| Tag::String(v.strings@[i]@)))),
                ("colors"@, Tag::List(Seq::new(v.colors@.len(), |i: int| Tag::Int(v.colors@[i] as int)))),
            ],
        ),
        own_to_tag(DataComponent::CustomModelData, regs, CustomModelDataImpl::val(v)) == Some(model_data_tag(CustomModelDataImpl::val(v))),
{
    reveal(own_to_tag);
    lemma_model_data_keys();
    let floats = Seq::new(v.floats@.len(), |i: int| Tag::Float(v.floats@[i] as int));
    let flags = Seq::new(v.flags@.len(), |i: int| flag_tag(v.flags@[i]));
    let strings = Seq::new(v.strings@.len(), |i: int| Tag::String(v.strings@[i]@));
    let colors = Seq::new(v.colors@.len(), |i: int| Tag::Int(v.colors@[i] as int));
    assert(float_tags(vals::<AsF32>(v.floats@)) =~= floats);
    assert(flag_tags(vals::<AsBool>(v.flags@)) =~= flags);
    assert(text_tags(vals::<AsText>(v.strings@)) =~= strings);
    assert(int_tags(vals::<AsI32>(v.colors@)) =~= colors);
    let c0 = Seq::<(Seq<char>, Tag)>::empty();
    let c1 = c0.push(("floats"@, Tag::List(floats)));
    lemma_new_key(c0, "floats"@, Tag::List(floats));
    let c2 = c1.push(("flags"@, Tag::List(flags)));
    lemma_new_key(c1, "flags"@, Tag::List(flags));
    let c3 = c2.push(("strings"@, Tag::List(strings)));
    lemma_new_key(c2, "strings"@, Tag::List(strings));
    let c4 = c3.push(("colors"@, Tag::List(colors)));
    lemma_new_key(c3, "colors"@, Tag::List(colors));
    assert(c4 =~= seq![("floats"@, Tag::List(floats)), ("flags"@, Tag::List(flags)), ("strings"@, Tag::List(strings)), ("colors"@, Tag::List(colors))]);
}

/// The tags of the list under a key; none where there is no list.
pub open spec fn listed_under(c: Entries, key: Seq<char>) -> Seq<Tag> {
    match compound_get(c, key) {
        Some(Tag::List(l)) => l,
        _ => Seq::empty(),
    }
}

/// What a model is selected by is read from the four lists, each under its name; the colours may stand in
/// an array.
pub proof fn lemma_model_data_is_read(t: Tag, v: CustomModelDataImpl, regs: Registries)
    requires
        model_data_from(t) == Some(CustomModelDataImpl::val(v)),
    ensures
        own_from_tag(DataComponent::CustomModelData, regs, t) == Some(CustomModelDataImpl::val(v)),
        t is Compound,
        ({
            let c = t->Compound_0;
            let floats = listed_under(c, "floats"@);
            let flags = listed_under(c, "flags"@);
            let strings = listed_under(c, "strings"@);
            let colors = listed_under(c, "colors"@);
            &&& vals::<AsF32>(v.floats@) == picked(Pick::Float, floats, floats.len())
            &&& vals::<AsBool>(v.flags@) == picked(Pick::Flag, flags, flags.len())
            &&& vals::<AsText>(v.strings@) == picked(Pick::Text, strings, strings.len())
            &&& match compound_get(c, "colors"@) {
                Some(Tag::IntArray(a)) => numbers_of(v.colors@) == a,
                _ => vals::<AsI32>(v.colors@) == picked(Pick::Int, colors, colors.len()),
            }
        }),
{
    reveal(own_from_tag);
    let c = t->Compound_0;
    let w = model_data_from(t)->0;
    assert(as_list(first(w)) == vals::<AsF32>(v.floats@));
    assert(as_list(first(second(w))) == vals::<AsBool>(v.flags@));
    assert(as_list(first(second(second(w)))) == vals::<AsText>(v.strings@));
    assert(as_list(second(second(second(w)))) == vals::<AsI32>(v.colors@));
    match compound_get(c, "colors"@) {
        Some(Tag::IntArray(a)) => {
            lemma_same_numbers(a, v.colors@);
        },
        _ => {},
    }
}

/// A signed book is stored with its title, its author and its pages.
pub proof fn lemma_written_book_is_stored(v: WrittenBookContentImpl, regs: Registries)
    ensures
        written_book_tag(WrittenBookContentImpl::val(v)) == Tag::Compound(
            seq![
                ("title"@, Tag::String(v.title@)),
                ("author"@, Tag::String(v.author@)),
                ("pages"@, Tag::List(Seq::new(v.pages@.len(), |i: int| Tag::String(v.pages@[i]@)))),
            ],
        ),
        own_to_tag(DataComponent::WrittenBookContent, regs, WrittenBookContentImpl::val(v)) == Some(
            written_book_tag(WrittenBookContentImpl::val(v)),
        ),
{
    reveal(own_to_tag);
    lemma_book_keys();
    let pages = Seq::new(v.pages@.len(), |i: int| Tag::String(v.pages@[i]@));
    assert(page_tags(vals::<WrittenPage>(v.pages@)) =~= pages);
    let c0 = Seq::<(Seq<char>, Tag)>::empty();
    let c1 = c0.push(("title"@, Tag::String(v.title@)));
    lemma_new_key(c0, "title"@, Tag::String(v.title@));
    let c2 = c1.push(("author"@, Tag::String(v.author@)));
    lemma_new_key(c1, "author"@, Tag::String(v.author@));
    let c3 = c2.push(("pages"@, Tag::List(pages)));
    lemma_new_key(c2, "pages"@, Tag::List(pages));
    assert(c3 =~= seq![("title"@, Tag::String(v.title@)), ("author"@, Tag::String(v.author@)), ("pages"@, Tag::List(pages))]);
}

/// A signed book that is read has the title under `title`, the author under `author` and the pages under
/// `pages`; what is missing is empty.
pub proof fn lemma_written_book_is_read(c: Entries, v: WrittenBookContentImpl, regs: Registries)
    requires
        written_book_from(Tag::Compound(c)) == WrittenBookContentImpl::val(v),
    ensures
        own_from_tag(DataComponent::WrittenBookContent, regs, Tag::Compound(c)) == Some(WrittenBookContentImpl::val(v)),
        match compound_get(c, "title"@) {
            Some(Tag::String(s)) => v.title@ == s,
            _ => v.title@.len() == 0,
        },
        match compound_get(c, "author"@) {
            Some(Tag::String(s)) => v.author@ == s,
            _ => v.author@.len() == 0,
        },
        vals::<WrittenPage>(v.pages@) == pages_from(listed_under(c, "pages"@), listed_under(c, "pages"@).len()),
{
    reveal(own_from_tag);
    let w = written_book_from(Tag::Compound(c));
    assert(as_text(first(first(w))) == v.title@);
    assert(as_text(first(second(w))) == v.author@);
    assert(as_list(first(second(second(second(w))))) == vals::<WrittenPage>(v.pages@));
}

/// A book that is being written is stored with its pages, and read from the list under `pages`.
pub proof fn lemma_writable_book_is_stored(v: WritableBookContentImpl, regs: Registries, c: Entries)
    ensures
        own_to_tag(DataComponent::WritableBookContent, regs, WritableBookContentImpl::val(v)) == Some(
            Tag::Compound(seq![("pages"@, Tag::List(Seq::new(v.pages@.len(), |i: int| Tag::String(v.pages@[i]@))))]),
        ),
        own_from_tag(DataComponent::WritableBookContent, regs, Tag::Compound(c)) == Some(
            Val::List(raw_pages_from(listed_under(c, "pages"@), listed_under(c, "pages"@).len())),
        ),
{
    reveal(own_to_tag);
    reveal(own_from_tag);
    let pages = Seq::new(v.pages@.len(), |i: int| Tag::String(v.pages@[i]@));
    assert(page_tags(vals::<RawText>(v.pages@)) =~= pages);
    let c0 = Seq::<(Seq<char>, Tag)>::empty();
    lemma_new_key(c0, "pages"@, Tag::List(pages));
    assert(c0.push(("pages"@, Tag::List(pages))) =~= seq![("pages"@, Tag::List(pages))]);
}

/// The names of the dyes, in the order of their numbers.
pub open spec fn dye_names() -> Seq<Seq<char>> {
    seq![
        "white"@,
        "orange"@,
        "magenta"@,
        "light_blue"@,
        "yellow"@,
        "lime"@,
        "pink"@,
        "gray"@,
        "light_gray"@,
        "cyan"@,
        "purple"@,
        "blue"@,
        "brown"@,
        "green"@,
        "red"@,
        "black"@,
    ]
}

/// Each dye has its own name.
pub proof fn lemma_dye_names(i: int)
    requires
        0 <= i < 16,
    ensures
        dye_name(i) == dye_names()[i],
        dye_id(dye_names()[i], 0) == Some(i),
{
    lemma_dye_back(i, 0);
}

/// The layers of a banner are stored with the pattern and the name of the dye.
pub proof fn lemma_banner_is_stored(v: BannerPatternsImpl, regs: Registries)
    requires
        forall|i: int| 0 <= i < v.layers@.len() ==> 0 <= (#[trigger] v.layers@[i]).color.id < 16,
    ensures
        own_to_tag(DataComponent::BannerPatterns, regs, BannerPatternsImpl::val(v)) == Some(
            Tag::List(
                Seq::new(
                    v.layers@.len(),
                    |i: int|
                        Tag::Compound(
                            seq![("pattern"@, Tag::String(v.layers@[i].pattern@)), ("color"@, Tag::String(dye_names()[v.layers@[i].color.id as int]))],
                        ),
                ),
            ),
        ),
{
    reveal(own_to_tag);
    lemma_layer_keys();
    let l = vals::<BannerPatternLayer>(v.layers@);
    let m = Seq::new(
        v.layers@.len(),
        |i: int|
            Tag::Compound(
                seq![("pattern"@, Tag::String(v.layers@[i].pattern@)), ("color"@, Tag::String(dye_names()[v.layers@[i].color.id as int]))],
            ),
    );
    assert forall|i: int| 0 <= i < l.len() implies #[trigger] layer_tags(l)[i] == m[i] by {
        assert(l[i] == BannerPatternLayer::val(v.layers@[i]));
        let p = Tag::String(v.layers@[i].pattern@);
        let d = Tag::String(dye_names()[v.layers@[i].color.id as int]);
        lemma_dye_names(v.layers@[i].color.id as int);
        let c0 = Seq::<(Seq<char>, Tag)>::empty();
        lemma_new_key(c0, "pattern"@, p);
        let c1 = c0.push(("pattern"@, p));
        lemma_new_key(c1, "color"@, d);
        assert(c1.push(("color"@, d)) =~= seq![("pattern"@, p), ("color"@, d)]);
    }
    assert(layer_tags(l) =~= m);
}

/// The layers of a banner are read from the compounds of a list: the pattern under `pattern`, and the
/// dye with the name under `color`, white where there is none.
pub proof fn lemma_layers_each(l: Seq<Tag>, n: nat)
    requires
        n <= l.len(),
        forall|i: int| 0 <= i < l.len() ==> #[trigger] l[i] is Compound,
    ensures
        layers_from(l, n) is Some == (forall|i: int|
            0 <= i < n ==> compound_get((#[trigger] l[i])->Compound_0, "pattern"@) is Some && compound_get(l[i]->Compound_0, "pattern"@)->0 is String
                && compound_get(l[i]->Compound_0, "color"@) is Some && compound_get(l[i]->Compound_0, "color"@)->0 is String),
        layers_from(l, n) matches Some(q) ==> q.len() == n && forall|i: int|
            0 <= i < n ==> #[trigger] q[i] == pair(
                Val::Text(compound_get(l[i]->Compound_0, "pattern"@)->0->String_0),
                Val::Int(
                    match dye_id(compound_get(l[i]->Compound_0, "color"@)->0->String_0, 0) {
                        Some(d) => d,
                        None => 0,
                    },
                ),
            ),
    decreases n,
{
    if n > 0 {
        lemma_layers_each(l, (n - 1) as nat);
        assert(l[n - 1] is Compound);
    }
}

/// What is no compound does not count among the layers of a banner.
pub proof fn lemma_layers_skip(l: Seq<Tag>, t: Tag)
    requires
        !(t is Compound),
    ensures
        layers_from(l.push(t), l.len() + 1) == layers_from(l, l.len()),
{
    lemma_layers_front(l, t, l.len());
    assert(l.push(t)[l.len() as int] == t);
}

proof fn lemma_layers_front(l: Seq<Tag>, t: Tag, n: nat)
    requires
        n <= l.len(),
    ensures
        layers_from(l.push(t), n) == layers_from(l, n),
    decreases n,
{
    if n > 0 {
        lemma_layers_front(l, t, (n - 1) as nat);
        assert(l.push(t)[n - 1] == l[n - 1]);
    }
}

/// A display of a tooltip is stored with whether it is hidden and the names of the components that are.
pub proof fn lemma_tooltip_is_stored(v: TooltipDisplayImpl, regs: Registries)
    ensures
        tooltip_display_tag(TooltipDisplayImpl::val(v)) == Tag::Compound(
            seq![
                ("hide_tooltip"@, flag_tag(v.hide_tooltip)),
                (
                    "hidden_components"@,
                    Tag::List(Seq::new(v.hidden_components@.len(), |i: int| Tag::String(component_name(v.hidden_components@[i])))),
                ),
            ],
        ),
        own_to_tag(DataComponent::TooltipDisplay, regs, TooltipDisplayImpl::val(v)) == Some(tooltip_display_tag(TooltipDisplayImpl::val(v))),
{
    reveal(own_to_tag);
    lemma_tooltip_keys();
    let names = Seq::new(v.hidden_components@.len(), |i: int| Tag::String(component_name(v.hidden_components@[i])));
    let l = vals::<Coded<HiddenComponent>>(v.hidden_components@);
    assert forall|i: int| 0 <= i < l.len() implies #[trigger] component_tags(l)[i] == names[i] by {
        assert(l[i] == <Coded<HiddenComponent> as DataComponentCodec>::val(v.hidden_components@[i]));
        lemma_component_of_own_id(v.hidden_components@[i]);
    }
    assert(component_tags(l) =~= names);
    let c0 = Seq::<(Seq<char>, Tag)>::empty();
    let c1 = c0.push(("hide_tooltip"@, flag_tag(v.hide_tooltip)));
    lemma_new_key(c0, "hide_tooltip"@, flag_tag(v.hide_tooltip));
    let c2 = c1.push(("hidden_components"@, Tag::List(names)));
    lemma_new_key(c1, "hidden_components"@, Tag::List(names));
    assert(c2 =~= seq![("hide_tooltip"@, flag_tag(v.hide_tooltip)), ("hidden_components"@, Tag::List(names))]);
}

/// The entries of a property of a profile.
pub open spec fn stored_property(v: ProfileProperty) -> Tag {
    Tag::Compound(
        match v.signature {
            Some(s) => seq![("name"@, Tag::String(v.name@)), ("value"@, Tag::String(v.value@)), ("signature"@, Tag::String(s@))],
            None => seq![("name"@, Tag::String(v.name@)), ("value"@, Tag::String(v.value@))],
        },
    )
}

/// A property of a profile is stored with its name, its value and its signature, where it has one.
pub proof fn lemma_property_is_stored(v: ProfileProperty)
    ensures
        property_tag(ProfileProperty::val(v)) == stored_property(v),
{
    lemma_property_keys();
    let c0 = Seq::<(Seq<char>, Tag)>::empty();
    let c1 = c0.push(("name"@, Tag::String(v.name@)));
    lemma_new_key(c0, "name"@, Tag::String(v.name@));
    let c2 = c1.push(("value"@, Tag::String(v.value@)));
    lemma_new_key(c1, "value"@, Tag::String(v.value@));
    match v.signature {
        Some(s) => {
            lemma_new_key(c2, "signature"@, Tag::String(s@));
            assert(c2.push(("signature"@, Tag::String(s@))) =~= stored_property(v)->Compound_0);
        },
        None => {
            assert(c2 =~= stored_property(v)->Compound_0);
        },
    }
}

/// A profile is stored with a text under each of its names, its number under `id` and its properties under
/// `properties`; what it lacks is left out.
pub proof fn lemma_profile_is_stored(v: ProfileImpl, regs: Registries)
    ensures
        own_to_tag(DataComponent::Profile, regs, ProfileImpl::val(v)) == Some(profile_tag(ProfileImpl::val(v))),
        profile_tag(ProfileImpl::val(v)) is Compound,
        ({
            let c = profile_tag(ProfileImpl::val(v))->Compound_0;
            &&& holds_text(c, "name"@, v.name)
            &&& holds_text(c, "texture"@, v.texture)
            &&& holds_text(c, "cape"@, v.cape)
            &&& holds_text(c, "elytra"@, v.elytra)
            &&& holds_text(c, "model"@, v.model)
            &&& (v.id matches Some(id) ==> compound_get(c, "id"@) == Some(
                Tag::IntArray(seq![id@[0] as int, id@[1] as int, id@[2] as int, id@[3] as int]),
            ))
            &&& (v.id is None ==> compound_get(c, "id"@) is None)
            &&& compound_get(c, "properties"@) == if v.properties@.len() == 0 {
                None
            } else {
                Some(Tag::List(Seq::new(v.properties@.len(), |i: int| stored_property(v.properties@[i]))))
            }
        }),
{
    reveal(own_to_tag);
    lemma_profile_keys();
    lemma_no_entries();
    let w = ProfileImpl::val(v);
    let l = vals::<ProfileProperty>(v.properties@);
    let m = Seq::new(v.properties@.len(), |i: int| stored_property(v.properties@[i]));
    assert forall|i: int| 0 <= i < l.len() implies #[trigger] property_tags(l)[i] == m[i] by {
        assert(l[i] == ProfileProperty::val(v.properties@[i]));
        lemma_property_is_stored(v.properties@[i]);
    }
    assert(property_tags(l) =~= m);
    let c0 = Seq::<(Seq<char>, Tag)>::empty();
    lemma_put_text(c0, "name"@, first(first(w)));
    let c1 = with_text(c0, "name"@, first(first(w)));
    let number = match v.id {
        Some(id) => seq![id@[0] as int, id@[1] as int, id@[2] as int, id@[3] as int],
        None => Seq::empty(),
    };
    lemma_put(c1, "id"@, Tag::IntArray(number));
    let c2 = match v.id {
        Some(_) => with_entry(c1, "id"@, Tag::IntArray(number)),
        None => c1,
    };
    lemma_put(c2, "properties"@, Tag::List(m));
    let c3 = profile_head(w);
    assert(c3 == if v.properties@.len() > 0 {
        with_entry(c2, "properties"@, Tag::List(m))
    } else {
        c2
    });
    let looks = second(second(w));
    lemma_put_text(c3, "texture"@, first(looks));
    let c4 = with_text(c3, "texture"@, first(looks));
    lemma_put_text(c4, "cape"@, first(second(looks)));
    let c5 = with_text(c4, "cape"@, first(second(looks)));
    lemma_put_text(c5, "elytra"@, first(second(second(looks))));
    let c6 = with_text(c5, "elytra"@, first(second(second(looks))));
    lemma_put_text(c6, "model"@, second(second(second(looks))));
}

/// A profile that is read has each text from under its name, and its number where four integers stand under
/// `id`.
pub proof fn lemma_profile_is_read(c: Entries, v: ProfileImpl, regs: Registries)
    requires
        profile_from(Tag::Compound(c)) == Some(ProfileImpl::val(v)),
    ensures
        own_from_tag(DataComponent::Profile, regs, Tag::Compound(c)) == Some(ProfileImpl::val(v)),
        holds_text(c, "name"@, v.name),
        holds_text(c, "texture"@, v.texture),
        holds_text(c, "cape"@, v.cape),
        holds_text(c, "elytra"@, v.elytra),
        holds_text(c, "model"@, v.model),
        v.id is Some <==> (compound_get(c, "id"@) matches Some(Tag::IntArray(a)) && a.len() == 4),
        v.id matches Some(id) ==> compound_get(c, "id"@)->0->IntArray_0 =~= seq![id@[0] as int, id@[1] as int, id@[2] as int, id@[3] as int],
        vals::<ProfileProperty>(v.properties@) == properties_from(listed_under(c, "properties"@), listed_under(c, "properties"@).len()),
{
    reveal(own_from_tag);
    let w = profile_from(Tag::Compound(c))->0;
    lemma_text_held(c, "name"@, v.name, first(first(w)));
    let looks = second(second(w));
    lemma_text_held(c, "texture"@, v.texture, first(looks));
    lemma_text_held(c, "cape"@, v.cape, first(second(looks)));
    lemma_text_held(c, "elytra"@, v.elytra, first(second(second(looks))));
    lemma_text_held(c, "model"@, v.model, second(second(second(looks))));
    assert(second(first(w)) == opt_id_val(v.id));
    assert(as_list(first(second(w))) == vals::<ProfileProperty>(v.properties@));
    match v.id {
        Some(id) => {
            let x = id_val(id);
            assert(*second(first(w))->Present_0 == x);
            assert(as_int(first(x)) == id@[0] as int);
            assert(as_int(first(second(x))) == id@[1] as int);
            assert(as_int(first(second(second(x)))) == id@[2] as int);
            assert(as_int(second(second(second(x)))) == id@[3] as int);
        },
        None => {},
    }
}

proof fn lemma_text_held(c: Entries, key: Seq<char>, t: Option<String>, v: Val)
    requires
        v == opt_text_at(c, key),
        v == (match t {
            Some(s) => optional(Some(Val::Text(s@))),
            None => Val::Absent,
        }),
    ensures
        holds_text(c, key, t),
{
    match t {
        Some(s) => {
            assert(as_text(*v->Present_0) == s@);
        },
        None => {},
    }
}

/// A profile that is given by its name alone has nothing else.
pub proof fn lemma_profile_of_name(name: Seq<char>, v: ProfileImpl)
    requires
        profile_from(Tag::String(name)) == Some(ProfileImpl::val(v)),
    ensures
        v.name is Some && v.name->0@ == name,
        v.id is None && v.properties@.len() == 0 && v.texture is None && v.cape is None && v.elytra is None && v.model is None,
{
    let w = profile_from(Tag::String(name))->0;
    assert(first(first(w)) == optional(Some(Val::Text(name))));
    assert(first(first(w)) == opt_text_val(v.name));
    assert(as_text(*first(first(w))->Present_0) == name);
    assert(second(first(w)) == opt_id_val(v.id));
    assert(as_list(first(second(w))) == vals::<ProfileProperty>(v.properties@));
    let looks = second(second(w));
    assert(first(looks) == Val::Absent && first(second(looks)) == Val::Absent);
    assert(first(second(second(looks))) == Val::Absent && second(second(second(looks))) == Val::Absent);
}

/// The song of a music disc is stored under `song`, in the namespace of the game.
pub proof fn lemma_song_is_stored(v: JukeboxPlayableImpl, regs: Registries)
    ensures
        own_to_tag(DataComponent::JukeboxPlayable, regs, JukeboxPlayableImpl::val(v)) == Some(
            Tag::Compound(seq![("song"@, Tag::String("minecraft:"@ + bare_name(v.song@)))]),
        ),
{
    reveal(own_to_tag);
    let t = Tag::String("minecraft:"@ + bare_name(v.song@));
    let c0 = Seq::<(Seq<char>, Tag)>::empty();
    lemma_new_key(c0, "song"@, t);
    assert(c0.push(("song"@, t)) =~= seq![("song"@, t)]);
}

/// The song of a music disc is read from under `song`, where the registry knows it.
pub proof fn lemma_song_is_read(t: Tag, v: JukeboxPlayableImpl, regs: Registries)
    ensures
        own_from_tag(DataComponent::JukeboxPlayable, regs, t) == song_from(regs, t),
        song_from(regs, t) is Some <==> (t matches Tag::Compound(c) && (compound_get(c, "song"@) matches Some(Tag::String(s)) && find_name(
            regs.songs@,
            bare_name(s),
        ) is Some)),
        song_from(regs, t) == Some(JukeboxPlayableImpl::val(v)) ==> v.song@ == "minecraft:"@ + bare_name(
            compound_get(t->Compound_0, "song"@)->0->String_0,
        ),
{
    reveal(own_from_tag);
}

/// The loot of a container is stored with its table, and its seed unless that is zero.
pub proof fn lemma_loot_is_stored(v: ContainerLootImpl, regs: Registries)
    ensures
        own_to_tag(DataComponent::ContainerLoot, regs, container_loot_val(v)) == Some(
            Tag::Compound(
                if v.seed == 0 {
                    seq![("loot_table"@, Tag::String(v.loot_table@))]
                } else {
                    seq![("loot_table"@, Tag::String(v.loot_table@)), ("seed"@, Tag::Long(v.seed as int))]
                },
            ),
        ),
{
    reveal(own_to_tag);
    lemma_loot_keys();
    let c0 = Seq::<(Seq<char>, Tag)>::empty();
    let c1 = c0.push(("loot_table"@, Tag::String(v.loot_table@)));
    lemma_new_key(c0, "loot_table"@, Tag::String(v.loot_table@));
    let c2 = c1.push(("seed"@, Tag::Long(v.seed as int)));
    lemma_new_key(c1, "seed"@, Tag::Long(v.seed as int));
    assert(c1 =~= seq![("loot_table"@, Tag::String(v.loot_table@))]);
    assert(c2 =~= seq![("loot_table"@, Tag::String(v.loot_table@)), ("seed"@, Tag::Long(v.seed as int))]);
}

/// The loot of a container is read with the table under `loot_table` and the number under `seed`, or zero.
pub proof fn lemma_loot_is_read(t: Tag, v: ContainerLootImpl, regs: Registries)
    requires
        loot_from(t) == Some(container_loot_val(v)),
    ensures
        own_from_tag(DataComponent::ContainerLoot, regs, t) == Some(container_loot_val(v)),
        t is Compound,
        compound_get(t->Compound_0, "loot_table"@) matches Some(Tag::String(s)) && identifier_of(s) == Some(v.loot_table@),
        match compound_get(t->Compound_0, "seed"@) {
            None => v.seed == 0,
            Some(Tag::Long(n)) => n == v.seed,
            Some(Tag::Int(n)) => n == v.seed,
            Some(Tag::Short(n)) => n == v.seed,
            Some(Tag::Byte(n)) => n == v.seed,
            _ => true,
        },
{
    reveal(own_from_tag);
    let w = loot_from(t)->0;
    assert(as_text(first(w)) == v.loot_table@);
    assert(as_int(second(w)) == v.seed as int);
}

/// A marker of a map is stored with its type, its place and its rotation.
pub proof fn lemma_decoration_is_stored(key: Seq<char>, e: MapDecorationEntry)
    ensures
        decoration_tag(decoration_val(key, e)) == Tag::Compound(
            seq![
                ("type"@, Tag::String(e.decoration_type@)),
                ("x"@, Tag::Double(e.x as int)),
                ("z"@, Tag::Double(e.z as int)),
                ("rotation"@, Tag::Float(e.rotation as int)),
            ],
        ),
{
    lemma_decoration_keys();
    let c0 = Seq::<(Seq<char>, Tag)>::empty();
    let c1 = c0.push(("type"@, Tag::String(e.decoration_type@)));
    lemma_new_key(c0, "type"@, Tag::String(e.decoration_type@));
    let c2 = c1.push(("x"@, Tag::Double(e.x as int)));
    lemma_new_key(c1, "x"@, Tag::Double(e.x as int));
    let c3 = c2.push(("z"@, Tag::Double(e.z as int)));
    lemma_new_key(c2, "z"@, Tag::Double(e.z as int));
    let c4 = c3.push(("rotation"@, Tag::Float(e.rotation as int)));
    lemma_new_key(c3, "rotation"@, Tag::Float(e.rotation as int));
    assert(c4 =~= seq![
        ("type"@, Tag::String(e.decoration_type@)),
        ("x"@, Tag::Double(e.x as int)),
        ("z"@, Tag::Double(e.z as int)),
        ("rotation"@, Tag::Float(e.rotation as int)),
    ]);
}

/// A marker of a map is read with the type under `type`, its place under `x` and `z` and its rotation under
/// `rotation`.
pub proof fn lemma_decoration_is_read(key: Seq<char>, t: Tag, e: MapDecorationEntry)
    requires
        decoration_from(key, t) == Some(decoration_val(key, e)),
    ensures
        t is Compound,
        compound_get(t->Compound_0, "type"@) matches Some(Tag::String(s)) && identifier_of(s) == Some(e.decoration_type@),
        compound_get(t->Compound_0, "x"@) matches Some(Tag::Double(b)) ==> b >= 0 ==> b == e.x,
        compound_get(t->Compound_0, "z"@) matches Some(Tag::Double(b)) ==> b >= 0 ==> b == e.z,
        compound_get(t->Compound_0, "rotation"@) matches Some(Tag::Float(b)) ==> b >= 0 ==> b == e.rotation,
{
    let w = decoration_from(key, t)->0;
    assert(as_text(first(second(w))) == e.decoration_type@);
    assert(as_bits(first(second(second(w)))) == e.x as int);
    assert(as_bits(first(second(second(second(w))))) == e.z as int);
    assert(as_bits(second(second(second(second(w))))) == e.rotation as int);
}

/// Numbers of any type are read as integers; those of the whole types keep their value.
pub proof fn lemma_whole_numbers(n: int)
    ensures
        tag_i32(Tag::Byte(n)) == Some(n) && tag_i32(Tag::Short(n)) == Some(n) && tag_i32(Tag::Int(n)) == Some(n),
        i32::MIN <= n <= i32::MAX ==> tag_i32(Tag::Long(n)) == Some(n),
        tag_i64(Tag::Byte(n)) == Some(n) && tag_i64(Tag::Short(n)) == Some(n) && tag_i64(Tag::Int(n)) == Some(n) && tag_i64(Tag::Long(n)) == Some(n),
        0 <= n < 256 ==> tag_flag(Tag::Byte(n)) == Some(n != 0),
        tag_f32(Tag::Float(n)) == Some(n),
        tag_f64(Tag::Double(n)) == Some(n),
        tag_i32(Tag::String("1"@)) is None && tag_i64(Tag::Compound(Seq::empty())) is None,
{
}

/// The entries of the details of a status effect, behind those in `c`.
pub open spec fn stored_details(v: StatusEffectInstance, c: Entries) -> Entries
    decreases v,
{
    let d = c + seq![
        ("amplifier"@, Tag::Int(v.amplifier as int)),
        ("duration"@, Tag::Int(v.duration as int)),
        ("ambient"@, flag_tag(v.ambient)),
        ("show_particles"@, flag_tag(v.show_particles)),
        ("show_icon"@, flag_tag(v.show_icon)),
    ];
    match v.hidden_effect {
        Some(h) => d.push(("hidden_effect"@, Tag::Compound(stored_details(*h, Seq::empty())))),
        None => d,
    }
}

/// The tag of a status effect.
pub open spec fn stored_effect(v: StatusEffectInstance) -> Tag {
    Tag::Compound(stored_details(v, seq![("id"@, Tag::String(v.effect_id@))]))
}

#[verifier::rlimit(60)]
proof fn lemma_details_are_stored(v: StatusEffectInstance, c: Entries)
    requires
        c.len() == 0 || (c.len() == 1 && c[0].0 == "id"@),
    ensures
        effect_entries(effect_instance_val(v), c) == stored_details(v, c),
    decreases v,
{
    lemma_effect_keys();
    reveal_with_fuel(effect_entries, 2);
    let a = Tag::Int(v.amplifier as int);
    let b = Tag::Int(v.duration as int);
    lemma_new_key(c, "amplifier"@, a);
    let c1 = c.push(("amplifier"@, a));
    lemma_new_key(c1, "duration"@, b);
    let c2 = c1.push(("duration"@, b));
    lemma_new_key(c2, "ambient"@, flag_tag(v.ambient));
    let c3 = c2.push(("ambient"@, flag_tag(v.ambient)));
    lemma_new_key(c3, "show_particles"@, flag_tag(v.show_particles));
    let c4 = c3.push(("show_particles"@, flag_tag(v.show_particles)));
    lemma_new_key(c4, "show_icon"@, flag_tag(v.show_icon));
    let c5 = c4.push(("show_icon"@, flag_tag(v.show_icon)));
    assert(c5 =~= c + seq![
        ("amplifier"@, Tag::Int(v.amplifier as int)),
        ("duration"@, Tag::Int(v.duration as int)),
        ("ambient"@, flag_tag(v.ambient)),
        ("show_particles"@, flag_tag(v.show_particles)),
        ("show_icon"@, flag_tag(v.show_icon)),
    ]);
    match v.hidden_effect {
        Some(h) => {
            lemma_details_are_stored(*h, Seq::empty());
            let t = Tag::Compound(stored_details(*h, Seq::empty()));
            assert forall|i: int| 0 <= i < c5.len() implies (#[trigger] c5[i]).0 != "hidden_effect"@ by {
            }
            lemma_new_key(c5, "hidden_effect"@, t);
        },
        None => {},
    }
}

/// A status effect is stored with its name and its details; one that is hidden behind it has no name.
pub proof fn lemma_effect_is_stored(v: StatusEffectInstance)
    ensures
        effect_tag(effect_instance_val(v)) == stored_effect(v),
{
    let c0 = Seq::<(Seq<char>, Tag)>::empty();
    let t = Tag::String(v.effect_id@);
    lemma_new_key(c0, "id"@, t);
    assert(c0.push(("id"@, t)) =~= seq![("id"@, t)]);
    lemma_details_are_stored(v, seq![("id"@, t)]);
}

/// Whether a number is the one under a key, or the usual one where there is nothing.
pub open spec fn holds_int(c: Entries, key: Seq<char>, n: int, usual: int) -> bool {
    match compound_get(c, key) {
        Some(t) => tag_i32(t) == Some(n),
        None => n == usual,
    }
}

/// Whether a flag is the one under a key, or the usual one where there is nothing.
pub open spec fn holds_flag(c: Entries, key: Seq<char>, b: bool, usual: bool) -> bool {
    match compound_get(c, key) {
        Some(t) => tag_flag(t) == Some(b),
        None => b == usual,
    }
}

/// The details of a status effect are read each from under its name; the icon is shown as the particles
/// are, where nothing is said.
pub proof fn lemma_effect_is_read(id: Seq<char>, c: Entries, v: StatusEffectInstance)
    requires
        effect_details_from(id, c) == Some(effect_instance_val(v)),
    ensures
        v.effect_id@ == id,
        holds_int(c, "amplifier"@, v.amplifier as int, 0),
        0 <= v.amplifier <= 255,
        holds_int(c, "duration"@, v.duration as int, 0),
        holds_flag(c, "ambient"@, v.ambient, false),
        holds_flag(c, "show_particles"@, v.show_particles, true),
        holds_flag(c, "show_icon"@, v.show_icon, v.show_particles),
        v.hidden_effect is Some <==> compound_get(c, "hidden_effect"@) is Some,
        v.hidden_effect matches Some(h) ==> (compound_get(c, "hidden_effect"@) matches Some(Tag::Compound(d)) && effect_details_from(id, d) == Some(
            effect_instance_val(*h),
        )),
{
    let w = effect_details_from(id, c)->0;
    lemma_key_index(c, "hidden_effect"@);
    assert(as_text(first(w)) == v.effect_id@);
    assert(as_int(first(second(w))) == v.amplifier as int);
    assert(as_int(first(second(second(w)))) == v.duration as int);
    assert(as_bool(first(second(second(second(w))))) == v.ambient);
    assert(as_bool(first(second(second(second(second(w)))))) == v.show_particles);
    assert(as_bool(first(second(second(second(second(second(w))))))) == v.show_icon);
    let hidden = second(second(second(second(second(second(w))))));
    match v.hidden_effect {
        Some(h) => {
            assert(hidden == optional(Some(effect_instance_val(*h))));
            assert(*hidden->Present_0 == effect_instance_val(*h));
        },
        None => {
            assert(hidden == Val::Absent);
        },
    }
}

/// The status effect that a compound describes is the one named under `id`, where the registry knows it.
pub proof fn lemma_effect_has_a_name(regs: Registries, t: Tag)
    ensures
        effect_from(regs, t) is Some ==> (t matches Tag::Compound(c) && (compound_get(c, "id"@) matches Some(Tag::String(id)) && find_name(
            regs.effects@,
            id,
        ) is Some && effect_from(regs, t) == effect_details_from(id, c))),
        (t matches Tag::Compound(c) && (compound_get(c, "id"@) matches Some(Tag::String(id)) && find_name(regs.effects@, id) is Some))
            ==> effect_from(regs, t) == effect_details_from(compound_get(t->Compound_0, "id"@)->0->String_0, t->Compound_0),
{
}

/// The entries of what consuming an item does, of which those in the registries are known.
pub open spec fn stored_consume_effect(regs: Registries, v: ConsumeEffect) -> Entries {
    match v {
        ConsumeEffect::ApplyEffects(e) => seq![
            ("type"@, Tag::String("minecraft:apply_effects"@)),
            ("probability"@, Tag::Float(e.1 as int)),
            ("effects"@, Tag::List(Seq::new(e.0@.len(), |i: int| stored_effect(e.0@[i])))),
        ],
        ConsumeEffect::RemoveEffects(IDSet::Tag(t)) => seq![
            ("type"@, Tag::String("minecraft:remove_effects"@)),
            ("effects"@, Tag::String("#"@ + t@)),
        ],
        ConsumeEffect::RemoveEffects(IDSet::IDs(l)) => seq![
            ("type"@, Tag::String("minecraft:remove_effects"@)),
            ("effects"@, Tag::List(Seq::new(l@.len(), |i: int| Tag::String(regs.effects@[l@[i] as int]@)))),
        ],
        ConsumeEffect::ClearAllEffects => seq![("type"@, Tag::String("minecraft:clear_all_effects"@))],
        ConsumeEffect::TeleportRandomly(d) => seq![
            ("type"@, Tag::String("minecraft:teleport_randomly"@)),
            ("diameter"@, Tag::Float(d as int)),
        ],
        ConsumeEffect::PlaySound(s) => seq![
            ("type"@, Tag::String("minecraft:play_sound"@)),
            ("sound"@, Tag::String("minecraft:"@ + regs.sounds@[s->Id_0 as int]@)),
        ],
    }
}

/// Whether the registries know what an effect speaks of.
pub open spec fn is_known_effect(regs: Registries, v: ConsumeEffect) -> bool {
    match v {
        ConsumeEffect::RemoveEffects(IDSet::IDs(l)) => forall|i: int| 0 <= i < l@.len() ==> (#[trigger] l@[i]) < regs.effects@.len(),
        ConsumeEffect::PlaySound(s) => s matches IdOr::Id(i) && i < regs.sounds@.len(),
        _ => true,
    }
}

proof fn lemma_named_upto(regs: Registries, l: Seq<u16>, n: nat)
    requires
        n <= l.len(),
    ensures
        names_of(regs.effects@, id_vals(l), n) is Some == (forall|i: int| 0 <= i < n ==> (#[trigger] l[i]) < regs.effects@.len()),
        names_of(regs.effects@, id_vals(l), n) matches Some(q) ==> q =~= Seq::new(n, |i: int| Tag::String(regs.effects@[l[i] as int]@)),
    decreases n,
{
    if n > 0 {
        lemma_named_upto(regs, l, (n - 1) as nat);
        assert(id_vals(l)[n - 1] == Val::Int(l[n - 1] as int));
        assert(l[n - 1] < regs.effects@.len() || !(l[n - 1] < regs.effects@.len()));
    }
}

/// What consuming an item does is stored with its type and what belongs to it, exactly if the registries
/// know what it speaks of.
pub proof fn lemma_consume_effect_is_stored(regs: Registries, v: ConsumeEffect)
    ensures
        consume_effect_tag(regs, ConsumeEffect::val(v)) == if is_known_effect(regs, v) {
            Some(Tag::Compound(stored_consume_effect(regs, v)))
        } else {
            None
        },
{
    lemma_consume_keys();
    let w = ConsumeEffect::val(v);
    let c0 = Seq::<(Seq<char>, Tag)>::empty();
    let s = stored_consume_effect(regs, v);
    lemma_new_key(c0, "type"@, s[0].1);
    let c1 = c0.push(("type"@, s[0].1));
    match v {
        ConsumeEffect::ApplyEffects(e) => {
            let l = vals::<AsEffect>(e.0@);
            let m = Seq::new(e.0@.len(), |i: int| stored_effect(e.0@[i]));
            assert forall|i: int| 0 <= i < l.len() implies #[trigger] effect_tags(l)[i] == m[i] by {
                assert(l[i] == AsEffect::val(e.0@[i]));
                lemma_effect_is_stored(e.0@[i]);
            }
            assert(effect_tags(l) =~= m);
            let p = Tag::Float(e.1 as int);
            lemma_new_key(c1, "probability"@, p);
            let c2 = c1.push(("probability"@, p));
            lemma_new_key(c2, "effects"@, Tag::List(m));
            assert(c2.push(("effects"@, Tag::List(m))) =~= s);
        },
        ConsumeEffect::RemoveEffects(set) => {
            match set {
                IDSet::Tag(t) => {
                    lemma_new_key(c1, "effects"@, Tag::String("#"@ + t@));
                    assert(c1.push(("effects"@, Tag::String("#"@ + t@))) =~= s);
                },
                IDSet::IDs(l) => {
                    lemma_named_upto(regs, l@, l@.len());
                    let m = Seq::new(l@.len(), |i: int| Tag::String(regs.effects@[l@[i] as int]@));
                    lemma_new_key(c1, "effects"@, Tag::List(m));
                    assert(c1.push(("effects"@, Tag::List(m))) =~= s);
                },
            }
        },
        ConsumeEffect::ClearAllEffects => {
            assert(c1 =~= s);
        },
        ConsumeEffect::TeleportRandomly(d) => {
            lemma_new_key(c1, "diameter"@, Tag::Float(d as int));
            assert(c1.push(("diameter"@, Tag::Float(d as int))) =~= s);
        },
        ConsumeEffect::PlaySound(x) => {
            lemma_new_key(c1, "sound"@, s[1].1);
            assert(c1.push(("sound"@, s[1].1)) =~= s);
        },
    }
}

/// The name of the type of what consuming an item does.
pub open spec fn consume_type(v: ConsumeEffect) -> Seq<char> {
    match v {
        ConsumeEffect::ApplyEffects(_) => "minecraft:apply_effects"@,
        ConsumeEffect::RemoveEffects(_) => "minecraft:remove_effects"@,
        ConsumeEffect::ClearAllEffects => "minecraft:clear_all_effects"@,
        ConsumeEffect::TeleportRandomly(_) => "minecraft:teleport_randomly"@,
        ConsumeEffect::PlaySound(_) => "minecraft:play_sound"@,
    }
}

/// What consuming an item does is read by its type, and what belongs to it from under its name.
pub proof fn lemma_consume_effect_is_read(regs: Registries, t: Tag, v: ConsumeEffect)
    requires
        consume_effect_from(regs, t) == Some(ConsumeEffect::val(v)),
    ensures
        t is Compound,
        compound_get(t->Compound_0, "type"@) == Some(Tag::String(consume_type(v))),
        v matches ConsumeEffect::ApplyEffects(e) ==> {
            let l = listed_under(t->Compound_0, "effects"@);
            &&& effects_from(regs, l, l.len()) == Some(vals::<AsEffect>(e.0@))
            &&& (compound_get(t->Compound_0, "probability"@) is None ==> e.1 == 0x3f80_0000)
            &&& (compound_get(t->Compound_0, "probability"@) matches Some(Tag::Float(b)) ==> b >= 0 ==> e.1 == b && (b <= 0x3f80_0000 || b == 0x8000_0000))
        },
        v matches ConsumeEffect::RemoveEffects(IDSet::Tag(name)) ==> compound_get(t->Compound_0, "effects"@) == Some(Tag::String("#"@ + name@)),
        v matches ConsumeEffect::RemoveEffects(IDSet::IDs(ids)) ==> match compound_get(t->Compound_0, "effects"@) {
            Some(Tag::List(l)) => effect_ids_from(regs, l, l.len()) == Some(id_vals(ids@)),
            Some(Tag::String(s)) => effect_ids_from(regs, seq![Tag::String(s)], 1) == Some(id_vals(ids@)),
            _ => false,
        },
        v matches ConsumeEffect::TeleportRandomly(d) ==> {
            &&& 0 < d < 0x7f80_0000
            &&& (compound_get(t->Compound_0, "diameter"@) is None ==> d == 0x4180_0000)
            &&& (compound_get(t->Compound_0, "diameter"@) matches Some(Tag::Float(b)) ==> b >= 0 ==> d == b)
        },
        v matches ConsumeEffect::PlaySound(IdOr::Id(i)) ==> (compound_get(t->Compound_0, "sound"@) matches Some(Tag::String(s)) && find_name(
            regs.sounds@,
            bare_name(s),
        ) == Some(i as int)),
        v matches ConsumeEffect::PlaySound(s) ==> s is Id,
{
    lemma_consume_types();
    let c = t->Compound_0;
    let w = consume_effect_from(regs, t)->0;
    let x = ConsumeEffect::val(v);
    assert(w == x);
    assert(as_int(first(w)) == as_int(first(x)));
    assert(second(w) == second(x));
    match v {
        ConsumeEffect::ApplyEffects(e) => {
            assert(as_list(first(second(x))) == vals::<AsEffect>(e.0@));
            assert(as_bits(second(second(x))) == e.1 as int);
        },
        ConsumeEffect::RemoveEffects(set) => {
            assert(second(x) == id_set_val(set));
            assert(as_int(first(second(x))) == if set is Tag { 0int } else { 1int });
            match set {
                IDSet::Tag(name) => {
                    assert(as_text(second(second(x))) == name@);
                    let s = compound_get(c, "effects"@)->0->String_0;
                    assert(s =~= "#"@ + s.skip("#"@.len() as int));
                },
                IDSet::IDs(ids) => {
                    assert(as_list(second(second(x))) == id_vals(ids@));
                },
            }
        },
        ConsumeEffect::ClearAllEffects => {},
        ConsumeEffect::TeleportRandomly(d) => {
            assert(as_bits(second(x)) == d as int);
        },
        ConsumeEffect::PlaySound(s) => {
            match s {
                IdOr::Id(i) => {
                    assert(as_int(second(x)) == i as int);
                },
                IdOr::Value(_) => {},
            }
        },
    }
}

/// The names of the looks of consuming an item.
pub open spec fn animation_text(v: ConsumeAnimation) -> Seq<char> {
    match v {
        ConsumeAnimation::NoAnimation => "none"@,
        ConsumeAnimation::Eat => "eat"@,
        ConsumeAnimation::Drink => "drink"@,
        ConsumeAnimation::Block => "block"@,
        ConsumeAnimation::Bow => "bow"@,
        ConsumeAnimation::Trident => "trident"@,
        ConsumeAnimation::Crossbow => "crossbow"@,
        ConsumeAnimation::Spyglass => "spyglass"@,
        ConsumeAnimation::TootHorn => "toot_horn"@,
        ConsumeAnimation::Brush => "brush"@,
        ConsumeAnimation::Bundle => "bundle"@,
        ConsumeAnimation::Spear => "spear"@,
    }
}

proof fn lemma_animation_found(s: Seq<char>, i: int)
    requires
        0 <= i,
    ensures
        animation_from(s, i) matches Some(n) ==> i <= n < 12 && animation_name(n) == s,
    decreases 12 - i,
{
    if i < 12 && animation_name(i) != s {
        lemma_animation_found(s, i + 1);
    }
}

proof fn lemma_effect_tags_upto(regs: Registries, l: Seq<ConsumeEffect>, n: nat)
    requires
        n <= l.len(),
    ensures
        consume_effect_tags(regs, vals::<ConsumeEffect>(l), n) is Some == (forall|i: int| 0 <= i < n ==> is_known_effect(regs, #[trigger] l[i])),
        consume_effect_tags(regs, vals::<ConsumeEffect>(l), n) matches Some(q) ==> q =~= Seq::new(
            n,
            |i: int| Tag::Compound(stored_consume_effect(regs, l[i])),
        ),
    decreases n,
{
    if n > 0 {
        lemma_effect_tags_upto(regs, l, (n - 1) as nat);
        lemma_consume_effect_is_stored(regs, l[n - 1]);
        assert(vals::<ConsumeEffect>(l)[n - 1] == ConsumeEffect::val(l[n - 1]));
        assert(is_known_effect(regs, l[n - 1]) || !is_known_effect(regs, l[n - 1]));
    }
}

/// What consuming an item does and how it looks is stored field by field, exactly if the registries know
/// its sound and its effects.
pub proof fn lemma_consumable_is_stored(v: ConsumableImpl, regs: Registries)
    ensures
        own_to_tag(DataComponent::Consumable, regs, ConsumableImpl::val(v)) == consumable_tag(regs, ConsumableImpl::val(v)),
        consumable_tag(regs, ConsumableImpl::val(v)) == if (v.sound_event matches IdOr::Id(i) && i < regs.sounds@.len()) && (forall|i: int|
            0 <= i < v.effects@.len() ==> is_known_effect(regs, #[trigger] v.effects@[i])) {
            Some(
                Tag::Compound(
                    seq![
                        ("consume_seconds"@, Tag::Float(v.consume_seconds as int)),
                        ("animation"@, Tag::String(animation_text(v.animation))),
                        ("sound"@, Tag::String("minecraft:"@ + regs.sounds@[v.sound_event->Id_0 as int]@)),
                        ("has_consume_particles"@, flag_tag(v.consume_particles)),
                        (
                            "on_consume_effects"@,
                            Tag::List(Seq::new(v.effects@.len(), |i: int| Tag::Compound(stored_consume_effect(regs, v.effects@[i])))),
                        ),
                    ],
                ),
            )
        } else {
            None
        },
{
    reveal(own_to_tag);
    lemma_consumable_keys();
    lemma_effect_tags_upto(regs, v.effects@, v.effects@.len());
    let w = ConsumableImpl::val(v);
    assert(as_list(second(second(second(w)))) == vals::<ConsumeEffect>(v.effects@));
    if (v.sound_event matches IdOr::Id(i) && i < regs.sounds@.len()) && (forall|i: int|
        0 <= i < v.effects@.len() ==> is_known_effect(regs, #[trigger] v.effects@[i])) {
        let sound = Tag::String("minecraft:"@ + regs.sounds@[v.sound_event->Id_0 as int]@);
        let l = Seq::new(v.effects@.len(), |i: int| Tag::Compound(stored_consume_effect(regs, v.effects@[i])));
    let c0 = Seq::<(Seq<char>, Tag)>::empty();
    let c1 = c0.push(("consume_seconds"@, Tag::Float(v.consume_seconds as int)));
    lemma_new_key(c0, "consume_seconds"@, Tag::Float(v.consume_seconds as int));
    let c2 = c1.push(("animation"@, Tag::String(animation_text(v.animation))));
    lemma_new_key(c1, "animation"@, Tag::String(animation_text(v.animation)));
    let c3 = c2.push(("sound"@, sound));
    lemma_new_key(c2, "sound"@, sound);
    let c4 = c3.push(("has_consume_particles"@, flag_tag(v.consume_particles)));
    lemma_new_key(c3, "has_consume_particles"@, flag_tag(v.consume_particles));
    let c5 = c4.push(("on_consume_effects"@, Tag::List(l)));
    lemma_new_key(c4, "on_consume_effects"@, Tag::List(l));
        assert(c5 =~= seq![
            ("consume_seconds"@, Tag::Float(v.consume_seconds as int)),
            ("animation"@, Tag::String(animation_text(v.animation))),
            ("sound"@, sound),
            ("has_consume_particles"@, flag_tag(v.consume_particles)),
            ("on_consume_effects"@, Tag::List(l)),
        ]);
        assert(consumable_tag(regs, w) == Some(Tag::Compound(c5)));
    }
}

/// What consuming an item does and how it looks is read field by field; an item that says nothing is
/// eaten.
pub proof fn lemma_consumable_is_read(t: Tag, v: ConsumableImpl, regs: Registries)
    requires
        consumable_from(regs, t) == Some(ConsumableImpl::val(v)),
    ensures
        own_from_tag(DataComponent::Consumable, regs, t) == Some(ConsumableImpl::val(v)),
        t is Compound,
        match compound_get(t->Compound_0, "consume_seconds"@) {
            None => v.consume_seconds == 0x3fcc_cccd,
            Some(Tag::Float(b)) => b >= 0 ==> v.consume_seconds == b,
            _ => true,
        },
        match compound_get(t->Compound_0, "animation"@) {
            None => v.animation == ConsumeAnimation::Eat,
            Some(x) => x == Tag::String(animation_text(v.animation)),
        },
        v.sound_event matches IdOr::Id(i) && find_name(
            regs.sounds@,
            match compound_get(t->Compound_0, "sound"@) {
                Some(Tag::String(s)) => bare_name(s),
                _ => bare_name("entity.generic.eat"@),
            },
        ) == Some(i as int),
        holds_flag(t->Compound_0, "has_consume_particles"@, v.consume_particles, true),
        match compound_get(t->Compound_0, "on_consume_effects"@) {
            None => v.effects@.len() == 0,
            Some(Tag::List(l)) => consume_effects_from(regs, l, l.len()) == Some(vals::<ConsumeEffect>(v.effects@)),
            _ => false,
        },
{
    reveal(own_from_tag);
    let c = t->Compound_0;
    let w = consumable_from(regs, t)->0;
    assert(as_bits(first(w)) == v.consume_seconds as int);
    assert(as_int(first(second(w))) == consume_animation_id(v.animation));
    assert(first(first(second(second(w)))) == sound_val(v.sound_event));
    assert(as_bool(second(first(second(second(w))))) == v.consume_particles);
    assert(as_list(second(second(second(w)))) == vals::<ConsumeEffect>(v.effects@));
    match compound_get(c, "animation"@) {
        Some(Tag::String(s)) => {
            lemma_animation_found(s, 0);
        },
        _ => {},
    }
    match v.sound_event {
        IdOr::Id(i) => {
            assert(as_int(sound_val(v.sound_event)) == i as int);
        },
        IdOr::Value(_) => {},
    }
    let effects = vals::<ConsumeEffect>(v.effects@);
    assert(effects.len() == v.effects@.len());
    match compound_get(c, "on_consume_effects"@) {
        None => {
            assert(effects == Seq::<Val>::empty());
        },
        Some(Tag::List(l)) => {
            assert(consume_effects_from(regs, l, l.len()) == Some(effects));
        },
        _ => {},
    }
    assert(flag_or(c, "has_consume_particles"@, true) == Some(v.consume_particles));
}

/// What saves a player from death is stored and read as what it does, under `death_effects`.
pub proof fn lemma_protection_is_stored(v: DeathProtectionImpl, regs: Registries, t: Tag)
    ensures
        own_to_tag(DataComponent::DeathProtection, regs, DeathProtectionImpl::val(v)) == if forall|i: int|
            0 <= i < v.death_effects@.len() ==> is_known_effect(regs, #[trigger] v.death_effects@[i]) {
            Some(
                Tag::Compound(
                    seq![
                        (
                            "death_effects"@,
                            Tag::List(Seq::new(v.death_effects@.len(), |i: int| Tag::Compound(stored_consume_effect(regs, v.death_effects@[i])))),
                        ),
                    ],
                ),
            )
        } else {
            None
        },
        own_from_tag(DataComponent::DeathProtection, regs, t) == protection_from(regs, t),
        protection_from(regs, t) == Some(DeathProtectionImpl::val(v)) ==> t is Compound && match compound_get(t->Compound_0, "death_effects"@) {
            None => v.death_effects@.len() == 0,
            Some(Tag::List(l)) => consume_effects_from(regs, l, l.len()) == Some(vals::<ConsumeEffect>(v.death_effects@)),
            _ => false,
        },
{
    reveal(own_to_tag);
    reveal(own_from_tag);
    lemma_effect_tags_upto(regs, v.death_effects@, v.death_effects@.len());
    let l = Seq::new(v.death_effects@.len(), |i: int| Tag::Compound(stored_consume_effect(regs, v.death_effects@[i])));
    let c0 = Seq::<(Seq<char>, Tag)>::empty();
    lemma_new_key(c0, "death_effects"@, Tag::List(l));
    assert(c0.push(("death_effects"@, Tag::List(l))) =~= seq![("death_effects"@, Tag::List(l))]);
    assert(as_list(DeathProtectionImpl::val(v)) == vals::<ConsumeEffect>(v.death_effects@));
}

/// The names of the operations of a modifier.
pub open spec fn operation_text(v: Operation) -> Seq<char> {
    match v {
        Operation::AddValue => "add_value"@,
        Operation::AddMultipliedBase => "add_multiplied_base"@,
        Operation::AddMultipliedTotal => "add_multiplied_total"@,
    }
}

/// The names of the places that a modifier is bound to.
pub open spec fn place_text(v: AttributeModifierSlot) -> Seq<char> {
    match v {
        AttributeModifierSlot::Any => "any"@,
        AttributeModifierSlot::MainHand => "mainhand"@,
        AttributeModifierSlot::OffHand => "offhand"@,
        AttributeModifierSlot::Hand => "hand"@,
        AttributeModifierSlot::Feet => "feet"@,
        AttributeModifierSlot::Legs => "legs"@,
        AttributeModifierSlot::Chest => "chest"@,
        AttributeModifierSlot::Head => "head"@,
        AttributeModifierSlot::Armor => "armor"@,
        AttributeModifierSlot::Body => "body"@,
        AttributeModifierSlot::Saddle => "saddle"@,
    }
}

/// The tag of how a modifier is shown.
pub open spec fn stored_display(v: ModifierDisplay) -> Tag {
    Tag::Compound(
        match v {
            ModifierDisplay::Default => seq![("type"@, Tag::String("default"@))],
            ModifierDisplay::Hidden => seq![("type"@, Tag::String("hidden"@))],
            ModifierDisplay::Override(t) => seq![("type"@, Tag::String("override"@)), ("value"@, t@)],
        },
    )
}

proof fn lemma_display_is_stored(v: ModifierDisplay)
    ensures
        display_tag(ModifierDisplay::val(v)) == stored_display(v),
{
    lemma_display_keys();
    let c0 = Seq::<(Seq<char>, Tag)>::empty();
    let s = stored_display(v)->Compound_0;
    lemma_new_key(c0, "type"@, s[0].1);
    let c1 = c0.push(("type"@, s[0].1));
    match v {
        ModifierDisplay::Override(t) => {
            lemma_new_key(c1, "value"@, t@);
            assert(c1.push(("value"@, t@)) =~= s);
        },
        _ => {
            assert(c1 =~= s);
        },
    }
}

/// A change of an attribute is stored field by field, exactly if the registry knows the attribute.
pub proof fn lemma_modifier_is_stored(v: Modifier, regs: Registries)
    ensures
        modifier_tag(regs, Modifier::val(v)) == if 0 <= v.attribute < regs.attributes@.len() {
            Some(
                Tag::Compound(
                    seq![
                        ("type"@, Tag::String(regs.attributes@[v.attribute as int]@)),
                        ("id"@, Tag::String(v.id@)),
                        ("amount"@, Tag::Double(v.amount as int)),
                        ("operation"@, Tag::String(operation_text(v.operation))),
                        ("slot"@, Tag::String(place_text(v.slot))),
                        ("display"@, stored_display(v.display)),
                    ],
                ),
            )
        } else {
            None
        },
{
    lemma_modifier_keys();
    lemma_display_is_stored(v.display);
    if 0 <= v.attribute < regs.attributes@.len() {
        let kind = Tag::String(regs.attributes@[v.attribute as int]@);
    let c0 = Seq::<(Seq<char>, Tag)>::empty();
    let c1 = c0.push(("type"@, kind));
    lemma_new_key(c0, "type"@, kind);
    let c2 = c1.push(("id"@, Tag::String(v.id@)));
    lemma_new_key(c1, "id"@, Tag::String(v.id@));
    let c3 = c2.push(("amount"@, Tag::Double(v.amount as int)));
    lemma_new_key(c2, "amount"@, Tag::Double(v.amount as int));
    let c4 = c3.push(("operation"@, Tag::String(operation_text(v.operation))));
    lemma_new_key(c3, "operation"@, Tag::String(operation_text(v.operation)));
    let c5 = c4.push(("slot"@, Tag::String(place_text(v.slot))));
    lemma_new_key(c4, "slot"@, Tag::String(place_text(v.slot)));
    let c6 = c5.push(("display"@, stored_display(v.display)));
    lemma_new_key(c5, "display"@, stored_display(v.display));
        assert(c6 =~= seq![
            ("type"@, kind),
            ("id"@, Tag::String(v.id@)),
            ("amount"@, Tag::Double(v.amount as int)),
            ("operation"@, Tag::String(operation_text(v.operation))),
            ("slot"@, Tag::String(place_text(v.slot))),
            ("display"@, stored_display(v.display)),
        ]);
        assert(modifier_tag(regs, Modifier::val(v)) == Some(Tag::Compound(c6)));
    }
}

proof fn lemma_place_found(s: Seq<char>, i: int)
    requires
        0 <= i,
    ensures
        place_from(s, i) matches Some(n) ==> i <= n < 11 && place_name(n) == s,
    decreases 11 - i,
{
    if i < 11 && place_name(i) != s {
        lemma_place_found(s, i + 1);
    }
}

/// A change of an attribute is read field by field; without a place it holds in any, and without a display
/// it is shown as usual.
pub proof fn lemma_modifier_is_read(t: Tag, v: Modifier, regs: Registries)
    requires
        modifier_from(regs, t) == Some(Modifier::val(v)),
    ensures
        t is Compound,
        compound_get(t->Compound_0, "type"@) matches Some(Tag::String(s)) && find_name(regs.attributes@, s) == Some(v.attribute as int),
        compound_get(t->Compound_0, "id"@) == Some(Tag::String(v.id@)),
        compound_get(t->Compound_0, "amount"@) is Some,
        compound_get(t->Compound_0, "amount"@) matches Some(Tag::Double(b)) ==> b >= 0 ==> b == v.amount,
        compound_get(t->Compound_0, "operation"@) == Some(Tag::String(operation_text(v.operation))),
        match compound_get(t->Compound_0, "slot"@) {
            Some(Tag::String(s)) => s == place_text(v.slot),
            _ => v.slot == AttributeModifierSlot::Any,
        },
        match compound_get(t->Compound_0, "display"@) {
            None => v.display is Default,
            Some(d) => d is Compound && match v.display {
                ModifierDisplay::Default => compound_get(d->Compound_0, "type"@) == Some(Tag::String("default"@)),
                ModifierDisplay::Hidden => compound_get(d->Compound_0, "type"@) == Some(Tag::String("hidden"@)),
                ModifierDisplay::Override(x) => compound_get(d->Compound_0, "type"@) == Some(Tag::String("override"@)) && compound_get(
                    d->Compound_0,
                    "value"@,
                ) == Some(x@),
            },
        },
{
    lemma_display_types();
    lemma_place_names();
    let c = t->Compound_0;
    let w = modifier_from(regs, t)->0;
    assert(as_int(first(w)) == v.attribute as int);
    assert(as_text(first(second(w))) == v.id@);
    assert(as_bits(first(second(second(w)))) == v.amount as int);
    assert(as_int(first(second(second(second(w))))) == operation_id(v.operation));
    assert(as_int(first(second(second(second(second(w)))))) == attribute_modifier_slot_id(v.slot));
    assert(second(second(second(second(second(w))))) == ModifierDisplay::val(v.display));
    let d = ModifierDisplay::val(v.display);
    assert(display_from(compound_get(c, "display"@)) == Some(d));
    assert(as_int(first(d)) == match v.display {
        ModifierDisplay::Default => 0int,
        ModifierDisplay::Hidden => 1int,
        ModifierDisplay::Override(_) => 2int,
    });
    match v.display {
        ModifierDisplay::Override(x) => {
            assert(as_nbt(second(d)) == x@);
        },
        _ => {},
    }
    lemma_place_found(
        match text_at(c, "slot"@) {
            Some(s) => s,
            None => "any"@,
        },
        0,
    );
}

/// The stack that a compound describes is of the item named under `id`, which is not air, has the count
/// under `count`, one where there is none and else from 1 to 99, and the patch under `components`.
pub proof fn lemma_stack_is_read(regs: Registries, c: Entries, s: StackVal)
    requires
        stack_from(regs, c) == Some(s),
    ensures
        compound_get(c, "id"@) matches Some(Tag::String(id)) && find_key(regs, bare_name(id)) == Some(s.item),
        s.item.id != 0,
        holds_int(c, "count"@, s.count, 1),
        1 <= s.count <= 99,
        match compound_get(c, "components"@) {
            None => s.patch.len() == 0,
            Some(Tag::Compound(m)) => patch_from(regs, m, m.len()) == Some(s.patch),
            _ => false,
        },
{
    lemma_key_index(c, "components"@);
}

/// A compound describes a stack exactly if it names an item other than air, its count is in range and its
/// components are known.
pub proof fn lemma_stack_is_owed(regs: Registries, c: Entries)
    ensures
        stack_from(regs, c) is Some <==> {
            &&& (compound_get(c, "id"@) matches Some(Tag::String(id)) && (find_key(regs, bare_name(id)) matches Some(item) && item.id != 0))
            &&& (compound_get(c, "count"@) matches Some(t) ==> (tag_i32(t) matches Some(n) && 1 <= n <= 99))
            &&& (compound_get(c, "components"@) matches Some(t) ==> (t matches Tag::Compound(m) && patch_from(regs, m, m.len()) is Some))
        },
{
    lemma_key_index(c, "components"@);
}

/// A patch is read entry by entry, in their order: a name behind an exclamation mark removes a component,
/// and a name alone sets it to what its tag describes.
pub proof fn lemma_patch_is_read(regs: Registries, c: Entries, n: nat, p: PatchVal)
    requires
        n <= c.len(),
        patch_from(regs, c, n) == Some(p),
    ensures
        p.len() == n,
        forall|i: int|
            0 <= i < n ==> match (#[trigger] p[i]).1 {
                None => exists|name: Seq<char>| #[trigger] component_of_name(name) == Some(p[i].0) && c[i].0 =~= "!"@ + name,
                Some(v) => v.kind == p[i].0 && component_of_name(c[i].0) == Some(p[i].0) && data_from_tag(p[i].0, regs, c[i].1) == Some(v.val),
            },
    decreases n,
{
    if n > 0 {
        let q = patch_from(regs, c, (n - 1) as nat)->0;
        lemma_patch_is_read(regs, c, (n - 1) as nat, q);
        assert(p == q.push(p.last()));
        if "!"@.is_prefix_of(c[n - 1].0) {
            let name = c[n - 1].0.skip("!"@.len() as int);
            assert(component_of_name(name) == Some(p[n - 1].0));
            assert(c[n - 1].0 =~= "!"@ + name);
        }
        assert forall|i: int| 0 <= i < n - 1 implies #[trigger] p[i] == q[i] by {
        }
    }
}

/// What stands in a slot of a container is read with its place under `slot` and its stack under `item`; an
/// item may be given by its name alone.
pub proof fn lemma_slot_is_read(regs: Registries, t: Tag, slot: int, s: StackVal)
    requires
        slot_from(regs, t) == Some(pair(Val::Int(slot), Val::Stack(s))),
    ensures
        t is Compound,
        compound_get(t->Compound_0, "slot"@) matches Some(x) && tag_i32(x) == Some(slot),
        0 <= slot <= 255,
        match compound_get(t->Compound_0, "item"@) {
            Some(Tag::Compound(c)) => stack_from(regs, c) == Some(s),
            Some(Tag::String(id)) => find_key(regs, bare_name(id)) == Some(s.item) && s.item.id != 0 && s.count == 1 && s.patch.len() == 0,
            _ => false,
        },
{
    let c = t->Compound_0;
    lemma_key_index(c, "item"@);
    let w = slot_from(regs, t)->0;
    assert(as_int(first(w)) == slot);
    assert(second(w) == Val::Stack(s));
}

/// The tag of a stack has its item under `id`, its count under `count` and its patch under `components`.
pub proof fn lemma_stack_is_stored(regs: Registries, s: StackVal)
    ensures
        stack_tag(regs, Val::Stack(s)) == Tag::Compound(
            seq![
                ("id"@, Tag::String("minecraft:"@ + s.item.registry_key@)),
                ("count"@, Tag::Int(s.count)),
                ("components"@, Tag::Compound(component_entries(regs, s.patch, 0, Seq::empty()))),
            ],
        ),
{
    reveal_strlit("id");
    reveal_strlit("count");
    reveal_strlit("components");
    assert("id"@.len() == 2 && "count"@.len() == 5 && "components"@.len() == 10);
    let d = Tag::Compound(component_entries(regs, s.patch, 0, Seq::empty()));
    let c0 = Seq::<(Seq<char>, Tag)>::empty();
    let c1 = c0.push(("id"@, Tag::String("minecraft:"@ + s.item.registry_key@)));
    lemma_new_key(c0, "id"@, Tag::String("minecraft:"@ + s.item.registry_key@));
    let c2 = c1.push(("count"@, Tag::Int(s.count)));
    lemma_new_key(c1, "count"@, Tag::Int(s.count));
    let c3 = c2.push(("components"@, d));
    lemma_new_key(c2, "components"@, d);
    assert(c3 =~= seq![
        ("id"@, Tag::String("minecraft:"@ + s.item.registry_key@)),
        ("count"@, Tag::Int(s.count)),
        ("components"@, d),
    ]);
}

proof fn lemma_hidden_upto(l: Seq<Tag>, n: nat)
    requires
        n <= l.len(),
    ensures
        hidden_from(l, n) is Some <==> forall|i: int| 0 <= i < n ==> (#[trigger] l[i]) is String && component_of_name(l[i]->String_0) is Some,
        hidden_from(l, n) matches Some(q) ==> forall|v: Val|
            #[trigger] q.contains(v) <==> exists|i: int| 0 <= i < n && Val::Int(component_id(component_of_name((#[trigger] l[i])->String_0)->0) as int) == v,
    decreases n,
{
    if n > 0 {
        lemma_hidden_upto(l, (n - 1) as nat);
        let t = l[n - 1];
        assert(t is String && component_of_name(t->String_0) is Some || !(t is String && component_of_name(t->String_0) is Some));
        match (hidden_from(l, (n - 1) as nat), hidden_from(l, n)) {
            (Some(h), Some(q)) => {
                let w = Val::Int(component_id(component_of_name(t->String_0)->0) as int);
                assert forall|v: Val|
                    #[trigger] q.contains(v) <==> exists|i: int|
                        0 <= i < n && Val::Int(component_id(component_of_name((#[trigger] l[i])->String_0)->0) as int) == v by {
                    if h.contains(v) {
                        let i = choose|i: int|
                            0 <= i < n - 1 && Val::Int(component_id(component_of_name((#[trigger] l[i])->String_0)->0) as int) == v;
                        assert(Val::Int(component_id(component_of_name(l[i]->String_0)->0) as int) == v);
                        let j = choose|j: int| 0 <= j < h.len() && h[j] == v;
                        assert(q[j] == v);
                    }
                    if v == w {
                        assert(Val::Int(component_id(component_of_name(l[n - 1]->String_0)->0) as int) == v);
                        if !h.contains(w) {
                            assert(q[h.len() as int] == w);
                        }
                    }
                    if q.contains(v) && v != w {
                        let j = choose|j: int| 0 <= j < q.len() && q[j] == v;
                        assert(h[j] == v);
                    }
                    if exists|i: int| 0 <= i < n && Val::Int(component_id(component_of_name((#[trigger] l[i])->String_0)->0) as int) == v {
                        let i = choose|i: int|
                            0 <= i < n && Val::Int(component_id(component_of_name((#[trigger] l[i])->String_0)->0) as int) == v;
                        if i < n - 1 {
                            assert(h.contains(v));
                        }
                    }
                }
            },
            _ => {},
        }
    }
}

/// A display of a tooltip that is read is hidden where a byte under `hide_tooltip` says so, and hides the
/// components whose names stand under `hidden_components`.
pub proof fn lemma_tooltip_is_read(t: Tag, v: TooltipDisplayImpl, regs: Registries, k: DataComponent)
    requires
        tooltip_from(t) == Some(TooltipDisplayImpl::val(v)),
    ensures
        own_from_tag(DataComponent::TooltipDisplay, regs, t) == Some(TooltipDisplayImpl::val(v)),
        t is Compound,
        v.hide_tooltip == is_flagged(t->Compound_0, "hide_tooltip"@),
        v.hidden_components@.contains(k) <==> exists|i: int|
            0 <= i < listed_under(t->Compound_0, "hidden_components"@).len() && component_of_name(
                (#[trigger] listed_under(t->Compound_0, "hidden_components"@)[i])->String_0,
            ) == Some(k),
{
    reveal(own_from_tag);
    let c = t->Compound_0;
    let w = tooltip_from(t)->0;
    assert(as_bool(first(w)) == v.hide_tooltip);
    let q = vals::<Coded<HiddenComponent>>(v.hidden_components@);
    assert(as_list(second(w)) == q);
    let l = listed_under(c, "hidden_components"@);
    lemma_hidden_upto(l, l.len());
    assert(hidden_from(l, l.len()) == Some(q)) by {
        if compound_get(c, "hidden_components"@) is None {
            assert(q.len() == 0);
            assert(q =~= Seq::empty());
        }
    }
    let x = Val::Int(component_id(k) as int);
    assert forall|i: int| 0 <= i < q.len() implies #[trigger] q[i] == Val::Int(component_id(v.hidden_components@[i]) as int) by {
        assert(q[i] == <Coded<HiddenComponent> as DataComponentCodec>::val(v.hidden_components@[i]));
    }
    if v.hidden_components@.contains(k) {
        let j = choose|j: int| 0 <= j < v.hidden_components@.len() && v.hidden_components@[j] == k;
        assert(q[j] == x);
        assert(q.contains(x));
        let i = choose|i: int| 0 <= i < l.len() && Val::Int(component_id(component_of_name((#[trigger] l[i])->String_0)->0) as int) == x;
        lemma_component_of_own_id(k);
        lemma_component_of_own_id(component_of_name(l[i]->String_0)->0);
        assert(component_of_name(l[i]->String_0) == Some(k));
    }
    if exists|i: int| 0 <= i < l.len() && component_of_name((#[trigger] l[i])->String_0) == Some(k) {
        let i = choose|i: int| 0 <= i < l.len() && component_of_name((#[trigger] l[i])->String_0) == Some(k);
        assert(Val::Int(component_id(component_of_name(l[i]->String_0)->0) as int) == x);
        assert(q.contains(x));
        let j = choose|j: int| 0 <= j < q.len() && q[j] == x;
        lemma_component_of_own_id(k);
        lemma_component_of_own_id(v.hidden_components@[j]);
        assert(v.hidden_components@[j] == k);
    }
}

/// What stands in a slot of a container is stored with its place under `slot` and its stack under `item`.
pub proof fn lemma_slot_is_stored(regs: Registries, slot: int, s: StackVal)
    ensures
        slot_tag(regs, pair(Val::Int(slot), Val::Stack(s))) == Tag::Compound(
            seq![("slot"@, Tag::Int(slot)), ("item"@, stack_tag(regs, Val::Stack(s)))],
        ),
{
    reveal_strlit("slot");
    reveal_strlit("item");
    assert("slot"@[0] != "item"@[0]);
    let t = stack_tag(regs, Val::Stack(s));
    let c0 = Seq::<(Seq<char>, Tag)>::empty();
    let c1 = c0.push(("slot"@, Tag::Int(slot)));
    lemma_new_key(c0, "slot"@, Tag::Int(slot));
    let c2 = c1.push(("item"@, t));
    lemma_new_key(c1, "item"@, t);
    assert(c2 =~= seq![("slot"@, Tag::Int(slot)), ("item"@, t)]);
}

proof fn lemma_stacks_in_turn(regs: Registries, l: Seq<Val>, n: nat)
    requires
        n <= l.len(),
    ensures
        stack_tags(regs, l, n) =~= Seq::new(n, |k: int| stack_tag(regs, l[k])),
        slot_tags(regs, l, n) =~= Seq::new(n, |k: int| slot_tag(regs, l[k])),
    decreases n,
{
    if n > 0 {
        lemma_stacks_in_turn(regs, l, (n - 1) as nat);
    }
}

/// Stacks in a bundle, projectiles and what a container holds are stored as lists, in their order; a remainder
/// as a stack alone.
pub proof fn lemma_stack_components_are_stored(regs: Registries, l: Seq<Val>, s: StackVal)
    ensures
        own_to_tag(DataComponent::BundleContents, regs, Val::List(l)) == Some(Tag::List(Seq::new(l.len(), |k: int| stack_tag(regs, l[k])))),
        own_to_tag(DataComponent::ChargedProjectiles, regs, Val::List(l)) == Some(Tag::List(Seq::new(l.len(), |k: int| stack_tag(regs, l[k])))),
        own_to_tag(DataComponent::Container, regs, Val::List(l)) == Some(Tag::List(Seq::new(l.len(), |k: int| slot_tag(regs, l[k])))),
        own_to_tag(DataComponent::UseRemainder, regs, Val::Stack(s)) == Some(stack_tag(regs, Val::Stack(s))),
        own_to_tag(DataComponent::SulfurCubeContent, regs, Val::Stack(s)) == Some(stack_tag(regs, Val::Stack(s))),
{
    reveal(own_to_tag);
    lemma_stacks_in_turn(regs, l, l.len());
}

/// A bundle, projectiles, a container and a remainder are read from what they are stored as; a bundle from
/// anything else is empty.
pub proof fn lemma_stack_components_are_read(regs: Registries, l: Seq<Tag>, c: Entries)
    ensures
        own_from_tag(DataComponent::BundleContents, regs, Tag::List(l)) == Some(Val::List(bundle_from(regs, l, l.len()))),
        own_from_tag(DataComponent::BundleContents, regs, Tag::Compound(c)) == Some(Val::List(Seq::empty())),
        own_from_tag(DataComponent::ChargedProjectiles, regs, Tag::List(l)) == match projectiles_from(regs, l, l.len()) {
            Some(q) => Some(Val::List(q)),
            None => None,
        },
        own_from_tag(DataComponent::Container, regs, Tag::List(l)) == match slots_from(regs, l, l.len()) {
            Some(q) => Some(Val::List(q)),
            None => None,
        },
        own_from_tag(DataComponent::UseRemainder, regs, Tag::Compound(c)) == match stack_from(regs, c) {
            Some(s) => Some(Val::Stack(s)),
            None => None,
        },
{
    reveal(own_from_tag);
}

proof fn lemma_form_from(forms: Seq<StoredForm>, k: DataComponent, t: Tag, data: Seq<u8>, i: int)
    requires
        0 <= i,
    ensures
        match data_given(forms, k, t, i) {
            Some(d) => exists|j: int| i <= j < forms.len() && (#[trigger] forms[j]).id == k && tags_match(forms[j].tag@, t, true) && forms[j].data@ == d,
            None => forall|j: int| i <= j < forms.len() ==> !((#[trigger] forms[j]).id == k && tags_match(forms[j].tag@, t, true)),
        },
        match form_given(forms, k, data, i) {
            Some(x) => exists|j: int| i <= j < forms.len() && (#[trigger] forms[j]).id == k && forms[j].data@ == data && forms[j].tag@ == x,
            None => forall|j: int| i <= j < forms.len() ==> !((#[trigger] forms[j]).id == k && forms[j].data@ == data),
        },
    decreases forms.len() - i,
{
    if i < forms.len() {
        lemma_form_from(forms, k, t, data, i + 1);
        let e = forms[i];
        assert(e.id == k || e.id != k);
        if !(e.id == k && tags_match(e.tag@, t, true)) && data_given(forms, k, t, i + 1) is Some {
            let d = data_given(forms, k, t, i + 1)->0;
            let j = choose|j: int|
                i + 1 <= j < forms.len() && (#[trigger] forms[j]).id == k && tags_match(forms[j].tag@, t, true) && forms[j].data@ == d;
            assert(forms[j].id == k);
        }
        if !(e.id == k && e.data@ == data) && form_given(forms, k, data, i + 1) is Some {
            let x = form_given(forms, k, data, i + 1)->0;
            let j = choose|j: int| i + 1 <= j < forms.len() && (#[trigger] forms[j]).id == k && forms[j].data@ == data && forms[j].tag@ == x;
            assert(forms[j].id == k);
        }
    }
}

/// A form that the registries hold is for the component asked for, and matches its tag or its bytes.
pub proof fn lemma_forms_of_the_registries(regs: Registries, k: DataComponent, t: Tag, data: Seq<u8>)
    ensures
        match data_given(regs.stored_forms@, k, t, 0) {
            Some(d) => exists|j: int|
                0 <= j < regs.stored_forms@.len() && (#[trigger] regs.stored_forms@[j]).id == k && tags_match(regs.stored_forms@[j].tag@, t, true)
                    && regs.stored_forms@[j].data@ == d,
            None => forall|j: int|
                0 <= j < regs.stored_forms@.len() ==> !((#[trigger] regs.stored_forms@[j]).id == k && tags_match(
                    regs.stored_forms@[j].tag@,
                    t,
                    true,
                )),
        },
        match form_given(regs.stored_forms@, k, data, 0) {
            Some(x) => exists|j: int|
                0 <= j < regs.stored_forms@.len() && (#[trigger] regs.stored_forms@[j]).id == k && regs.stored_forms@[j].data@ == data
                    && regs.stored_forms@[j].tag@ == x,
            None => forall|j: int|
                0 <= j < regs.stored_forms@.len() ==> !((#[trigger] regs.stored_forms@[j]).id == k && regs.stored_forms@[j].data@ == data),
        },
{
    lemma_form_from(regs.stored_forms@, k, t, data, 0);
}

/// Properties with different keys are stored under these, in their order.
pub proof fn lemma_properties_are_stored(v: Seq<(String, String)>, regs: Registries)
    requires
        forall|a: int, b: int| 0 <= a < b < v.len() ==> (#[trigger] v[a]).0@ != (#[trigger] v[b]).0@,
    ensures
        own_to_tag(DataComponent::BlockState, regs, Val::List(text_pairs(v))) == Some(
            Tag::Compound(Seq::new(v.len(), |k: int| (v[k].0@, Tag::String(v[k].1@)))),
        ),
        own_to_tag(DataComponent::DebugStickState, regs, Val::List(text_pairs(v))) == Some(
            Tag::Compound(Seq::new(v.len(), |k: int| (v[k].0@, Tag::String(v[k].1@)))),
        ),
{
    reveal(own_to_tag);
    let all = Seq::new(v.len(), |k: int| (v[k].0@, Tag::String(v[k].1@)));
    lemma_pairs_from(v, 0);
    assert(all.take(0) =~= Seq::empty());
}

proof fn lemma_pairs_from(v: Seq<(String, String)>, i: int)
    requires
        0 <= i <= v.len(),
        forall|a: int, b: int| 0 <= a < b < v.len() ==> (#[trigger] v[a]).0@ != (#[trigger] v[b]).0@,
    ensures
        pair_entries(text_pairs(v), i, Seq::new(v.len(), |k: int| (v[k].0@, Tag::String(v[k].1@))).take(i)) == Seq::new(
            v.len(),
            |k: int| (v[k].0@, Tag::String(v[k].1@)),
        ),
    decreases v.len() - i,
{
    let all = Seq::new(v.len(), |k: int| (v[k].0@, Tag::String(v[k].1@)));
    if i < v.len() {
        let c = all.take(i);
        let e = text_pairs(v)[i];
        assert(key_of(e) == v[i].0@);
        assert(as_text(second(e)) == v[i].1@);
        assert forall|j: int| 0 <= j < c.len() implies (#[trigger] c[j]).0 != v[i].0@ by {
            assert(v[j].0@ != v[i].0@);
        }
        lemma_new_key(c, v[i].0@, Tag::String(v[i].1@));
        assert(c.push((v[i].0@, Tag::String(v[i].1@))) =~= all.take(i + 1));
        lemma_pairs_from(v, i + 1);
    } else {
        assert(all.take(i) =~= all);
    }
}

} // verus!
