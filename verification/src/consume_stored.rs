//! How status effects, what an item does when it saves its holder, and attribute modifiers are
//! stored.
use vstd::prelude::*;
use crate::codec::{vals, DataComponentCodec, Numbered};
use crate::consumable::{consume_animation_id, ConsumableImpl, ConsumeAnimation, ConsumeEffect, DeathProtectionImpl};
use crate::elements::{effect_instance_val, id_set_val, id_vals, sound_val, AsEffect, IDSet, IdOr, SoundEvent, StatusEffectInstance};
use crate::equipment::{attribute_modifier_slot_id, operation_id, AttributeModifierSlot, AttributeModifiersImpl, Modifier, ModifierDisplay, Operation};
use crate::format::Val;
use crate::identifier::{strip_namespace, strip_prefix};
use crate::nbt_tag::{lemma_entry_views, lemma_tag_views, tags_of, NbtCompound, NbtTag, Tag};
use crate::persist::{animation_from, animation_name, consumable_from, consumable_tag, consume_effect_from, consume_effect_tag, consume_effect_tags, consume_effects_from, display_from, display_tag, effect_details_from, effect_entries, effect_from, effect_ids_from, effect_tag, effect_tags, effects_from, list_at, modifier_from, modifier_tag, modifier_tags, modifiers_from, names_of, operation_from, operation_name, place_from, place_name, protection_from, removed_from, removed_tag, sound_from, sound_tag, with_entry, EATING_SECONDS, ONE, SIXTEEN};
use crate::registry::{find_name, position_of, Registries};
use crate::tag_lists::{make_all, stores, Tagged};
use crate::tag_numbers::{get_flag_or, get_float_or, get_int_or, nbt_number_as_f64};
use crate::text::{concat, same_text};

verus! {

broadcast use {lemma_tag_views, lemma_entry_views};

/// The details of the status effect named `id`.
fn read_effect_details(id: &str, c: &NbtCompound) -> (r: Option<StatusEffectInstance>)
    ensures
        stores(effect_details_from(id@, c@), r, |x: StatusEffectInstance| effect_instance_val(x)),
    decreases *c,
{
    let amplifier: i32 = match get_int_or(c, "amplifier", 0) {
        Some(v) => v,
        None => {
            return None;
        },
    };
    let duration: i32 = match get_int_or(c, "duration", 0) {
        Some(v) => v,
        None => {
            return None;
        },
    };
    let ambient: bool = match get_flag_or(c, "ambient", false) {
        Some(v) => v,
        None => {
            return None;
        },
    };
    let show_particles: bool = match get_flag_or(c, "show_particles", true) {
        Some(v) => v,
        None => {
            return None;
        },
    };
    let show_icon: bool = match get_flag_or(c, "show_icon", show_particles) {
        Some(v) => v,
        None => {
            return None;
        },
    };
    if amplifier < 0 || amplifier > 255 {
        return None;
    }
    let hidden_effect: Option<Box<StatusEffectInstance>> = match c.find("hidden_effect") {
        None => None,
        Some(i) => {
            assert(c@[i as int].1 == c.child_tags@[i as int].1@);
            match &c.child_tags[i].1 {
                NbtTag::Compound(h) => {
                    assert(decreases_to!(*c => c.child_tags@[i as int].1));
                    match read_effect_details(id, h) {
                        Some(v) => Some(Box::new(v)),
                        None => {
                            return None;
                        },
                    }
                },
                _ => {
                    return None;
                },
            }
        },
    };
    Some(
        StatusEffectInstance { effect_id: id.to_owned(), amplifier, duration, ambient, show_particles, show_icon, hidden_effect },
    )
}

/// A compound with the details of a status effect behind the entries it has.
fn put_effect_details(v: &StatusEffectInstance, c: &mut NbtCompound)
    ensures
        final(c)@ == effect_entries(effect_instance_val(*v), old(c)@),
    decreases *v,
{
    c.put_int("amplifier", v.amplifier);
    c.put_int("duration", v.duration);
    c.put_bool("ambient", v.ambient);
    c.put_bool("show_particles", v.show_particles);
    c.put_bool("show_icon", v.show_icon);
    match &v.hidden_effect {
        Some(h) => {
            let mut inner = NbtCompound::new();
            put_effect_details(h, &mut inner);
            c.put_compound("hidden_effect", inner);
        },
        None => {},
    }
}

impl StatusEffectInstance {
    /// The status effect that a tag describes.
    pub fn read_data(tag: &NbtTag, regs: &Registries) -> (r: Option<Self>)
        ensures
            stores(effect_from(*regs, tag@), r, |x: StatusEffectInstance| effect_instance_val(x)),
    {
        match tag {
            NbtTag::Compound(c) => match c.get_string("id") {
                Some(id) => match position_of(&regs.effects, id.as_str()) {
                    Some(_) => read_effect_details(id.as_str(), c),
                    None => None,
                },
                None => None,
            },
            _ => None,
        }
    }

    /// The tag that describes the status effect.
    pub fn write_data(&self) -> (r: NbtTag)
        ensures
            r@ == effect_tag(effect_instance_val(*self)),
    {
        let mut c = NbtCompound::new();
        c.put_string("id", self.effect_id.clone());
        put_effect_details(self, &mut c);
        NbtTag::Compound(c)
    }
}

/// Status effects.
struct EffectTag;

impl Tagged for EffectTag {
    type Codec = AsEffect;

    open spec fn tag(v: Val) -> Tag {
        effect_tag(v)
    }

    fn make(v: &StatusEffectInstance) -> (r: NbtTag) {
        v.write_data()
    }
}

proof fn lemma_effects_none(regs: Registries, l: Seq<Tag>, i: nat, n: nat)
    requires
        i < n <= l.len(),
        effect_from(regs, l[i as int]) is None,
    ensures
        effects_from(regs, l, n) is None,
    decreases n,
{
    if i + 1 < n {
        lemma_effects_none(regs, l, i, (n - 1) as nat);
    }
}

/// The status effects that a list of tags describes.
fn read_effects(l: &Vec<NbtTag>, regs: &Registries) -> (r: Option<Vec<StatusEffectInstance>>)
    ensures
        match r {
            Some(v) => effects_from(*regs, tags_of(l@), l@.len()) == Some(vals::<AsEffect>(v@)),
            None => effects_from(*regs, tags_of(l@), l@.len()) is None,
        },
{
    let ghost tags = tags_of(l@);
    let mut out: Vec<StatusEffectInstance> = Vec::new();
    assert(vals::<AsEffect>(out@) =~= Seq::<Val>::empty());
    let mut i: usize = 0;
    while i < l.len()
        invariant
            i <= l.len(),
            tags == tags_of(l@),
            effects_from(*regs, tags, i as nat) == Some(vals::<AsEffect>(out@)),
        decreases l.len() - i,
    {
        assert(tags[i as int] == l@[i as int]@);
        match StatusEffectInstance::read_data(&l[i], regs) {
            Some(x) => {
                let ghost before = vals::<AsEffect>(out@);
                let ghost v = effect_instance_val(x);
                out.push(x);
                assert(vals::<AsEffect>(out@) =~= before.push(v));
            },
            None => {
                proof {
                    lemma_effects_none(*regs, tags, i as nat, tags.len());
                }
                return None;
            },
        }
        i += 1;
    }
    Some(out)
}

/// The number of the status effect with a name.
fn effect_number(name: &str, regs: &Registries) -> (r: Option<u16>)
    ensures
        match r {
            Some(i) => find_name(regs.effects@, name@) == Some(i as int),
            None => find_name(regs.effects@, name@) is None || find_name(regs.effects@, name@)->0 > 0xffff,
        },
{
    match position_of(&regs.effects, name) {
        Some(i) => if i <= 0xffff {
            Some(i as u16)
        } else {
            None
        },
        None => None,
    }
}

proof fn lemma_effect_ids_none(regs: Registries, l: Seq<Tag>, i: nat, n: nat)
    requires
        i < n <= l.len(),
        match l[i as int] {
            Tag::String(s) => find_name(regs.effects@, s) is None || find_name(regs.effects@, s)->0 > 0xffff,
            _ => true,
        },
    ensures
        effect_ids_from(regs, l, n) is None,
    decreases n,
{
    if i + 1 < n {
        lemma_effect_ids_none(regs, l, i, (n - 1) as nat);
    }
}

/// The numbers of the status effects that a list of tags names.
fn read_effect_ids(l: &Vec<NbtTag>, regs: &Registries) -> (r: Option<Vec<u16>>)
    ensures
        match r {
            Some(v) => effect_ids_from(*regs, tags_of(l@), l@.len()) == Some(id_vals(v@)),
            None => effect_ids_from(*regs, tags_of(l@), l@.len()) is None,
        },
{
    let ghost tags = tags_of(l@);
    let mut out: Vec<u16> = Vec::new();
    assert(id_vals(out@) =~= Seq::<Val>::empty());
    let mut i: usize = 0;
    while i < l.len()
        invariant
            i <= l.len(),
            tags == tags_of(l@),
            effect_ids_from(*regs, tags, i as nat) == Some(id_vals(out@)),
        decreases l.len() - i,
    {
        assert(tags[i as int] == l@[i as int]@);
        let id: Option<u16> = match &l[i] {
            NbtTag::String(s) => effect_number(s.as_str(), regs),
            _ => None,
        };
        match id {
            Some(id) => {
                let ghost before = id_vals(out@);
                out.push(id);
                assert(id_vals(out@) =~= before.push(Val::Int(id as int)));
            },
            None => {
                proof {
                    lemma_effect_ids_none(*regs, tags, i as nat, tags.len());
                }
                return None;
            },
        }
        i += 1;
    }
    Some(out)
}

/// The status effects that are removed.
fn read_removed_effects(t: Option<&NbtTag>, regs: &Registries) -> (r: Option<IDSet>)
    ensures
        stores(
            removed_from(
                *regs,
                match t {
                    Some(t) => Some(t@),
                    None => None,
                },
            ),
            r,
            |x: IDSet| id_set_val(x),
        ),
{
    match t {
        Some(NbtTag::String(s)) => match strip_prefix(s.as_str(), "#") {
            Some(tag) => Some(IDSet::Tag(tag)),
            None => {
                proof {
                    reveal_with_fuel(effect_ids_from, 2);
                }
                match effect_number(s.as_str(), regs) {
                    Some(id) => {
                        let ids: Vec<u16> = vec![id];
                        assert(id_vals(ids@) =~= seq![Val::Int(id as int)]);
                        assert(Seq::<Val>::empty().push(Val::Int(id as int)) =~= seq![Val::Int(id as int)]);
                        Some(IDSet::IDs(ids))
                    },
                    None => None,
                }
            },
        },
        Some(NbtTag::List(l)) => match read_effect_ids(l, regs) {
            Some(ids) => Some(IDSet::IDs(ids)),
            None => None,
        },
        _ => None,
    }
}

/// The sound with a name.
fn read_sound(t: Option<&NbtTag>, regs: &Registries) -> (r: Option<IdOr<SoundEvent>>)
    ensures
        stores(
            sound_from(
                *regs,
                match t {
                    Some(t) => Some(t@),
                    None => None,
                },
            ),
            r,
            |x: IdOr<SoundEvent>| sound_val(x),
        ),
{
    match t {
        Some(NbtTag::String(s)) => match position_of(&regs.sounds, strip_namespace(s.as_str()).as_str()) {
            Some(i) => if i <= 0xffff {
                Some(IdOr::Id(i as u16))
            } else {
                None
            },
            None => None,
        },
        _ => None,
    }
}

impl ConsumeEffect {
    /// What a tag says that consuming an item does.
    pub fn read_data(tag: &NbtTag, regs: &Registries) -> (r: Option<Self>)
        ensures
            stores(consume_effect_from(*regs, tag@), r, |x: ConsumeEffect| ConsumeEffect::val(x)),
    {
        let c = match tag {
            NbtTag::Compound(c) => c,
            _ => {
                return None;
            },
        };
        let kind = match c.get_string("type") {
            Some(kind) => kind.as_str(),
            None => {
                return None;
            },
        };
        if same_text(kind, "minecraft:apply_effects") {
            match c.get("effects") {
                Some(NbtTag::List(l)) => {
                    assert(list_at(c@, "effects"@) == tags_of(l@));
                    match (read_effects(l, regs), get_float_or(c, "probability", ONE)) {
                        (Some(effects), Some(probability)) => if probability <= ONE || probability == 0x8000_0000 {
                            Some(ConsumeEffect::ApplyEffects((effects, probability)))
                        } else {
                            None
                        },
                        _ => None,
                    }
                },
                _ => None,
            }
        } else if same_text(kind, "minecraft:remove_effects") {
            match read_removed_effects(c.get("effects"), regs) {
                Some(v) => Some(ConsumeEffect::RemoveEffects(v)),
                None => None,
            }
        } else if same_text(kind, "minecraft:clear_all_effects") {
            Some(ConsumeEffect::ClearAllEffects)
        } else if same_text(kind, "minecraft:teleport_randomly") {
            match get_float_or(c, "diameter", SIXTEEN) {
                Some(d) => if 0 < d && d < 0x7f80_0000 {
                    Some(ConsumeEffect::TeleportRandomly(d))
                } else {
                    None
                },
                None => None,
            }
        } else if same_text(kind, "minecraft:play_sound") {
            match read_sound(c.get("sound"), regs) {
                Some(v) => Some(ConsumeEffect::PlaySound(v)),
                None => None,
            }
        } else {
            None
        }
    }

    /// The tag that says what consuming an item does.
    pub fn write_data(&self, regs: &Registries) -> (r: Option<NbtTag>)
        ensures
            match r {
                Some(t) => consume_effect_tag(*regs, ConsumeEffect::val(*self)) == Some(t@),
                None => consume_effect_tag(*regs, ConsumeEffect::val(*self)) is None,
            },
    {
        let mut c = NbtCompound::new();
        match self {
            ConsumeEffect::ApplyEffects(e) => {
                let tags = make_all::<EffectTag>(&e.0);
                assert(tags_of(tags@) =~= effect_tags(vals::<AsEffect>(e.0@)));
                c.put_string("type", "minecraft:apply_effects".to_owned());
                c.put_float("probability", e.1);
                c.put_list("effects", tags);
                Some(NbtTag::Compound(c))
            },
            ConsumeEffect::RemoveEffects(s) => match removed_effects_tag(s, regs) {
                Some(t) => {
                    c.put_string("type", "minecraft:remove_effects".to_owned());
                    c.put("effects", t);
                    Some(NbtTag::Compound(c))
                },
                None => None,
            },
            ConsumeEffect::ClearAllEffects => {
                c.put_string("type", "minecraft:clear_all_effects".to_owned());
                Some(NbtTag::Compound(c))
            },
            ConsumeEffect::TeleportRandomly(d) => {
                c.put_string("type", "minecraft:teleport_randomly".to_owned());
                c.put_float("diameter", *d);
                Some(NbtTag::Compound(c))
            },
            ConsumeEffect::PlaySound(s) => match s {
                IdOr::Id(i) => if (*i as usize) < regs.sounds.len() {
                    c.put_string("type", "minecraft:play_sound".to_owned());
                    c.put_string("sound", concat("minecraft:", regs.sounds[*i as usize].as_str()));
                    Some(NbtTag::Compound(c))
                } else {
                    None
                },
                IdOr::Value(_) => None,
            },
        }
    }
}

proof fn lemma_names_none(names: Seq<String>, l: Seq<Val>, i: nat, n: nat)
    requires
        i < n <= l.len(),
        l[i as int] is Int,
        !(0 <= l[i as int]->Int_0 < names.len()),
    ensures
        names_of(names, l, n) is None,
    decreases n,
{
    if i + 1 < n {
        lemma_names_none(names, l, i, (n - 1) as nat);
    }
}

/// The tag of the status effects that are removed.
fn removed_effects_tag(s: &IDSet, regs: &Registries) -> (r: Option<NbtTag>)
    ensures
        match r {
            Some(t) => removed_tag(*regs, id_set_val(*s)) == Some(t@),
            None => removed_tag(*regs, id_set_val(*s)) is None,
        },
{
    match s {
        IDSet::Tag(t) => Some(NbtTag::String(concat("#", t.as_str()))),
        IDSet::IDs(ids) => {
            let ghost l = id_vals(ids@);
            let mut out: Vec<NbtTag> = Vec::new();
            assert(tags_of(out@) =~= Seq::<Tag>::empty());
            let mut i: usize = 0;
            while i < ids.len()
                invariant
                    i <= ids.len(),
                    l == id_vals(ids@),
                    *s == IDSet::IDs(*ids),
                    names_of(regs.effects@, l, i as nat) == Some(tags_of(out@)),
                decreases ids.len() - i,
            {
                let id: usize = ids[i] as usize;
                assert(l[i as int] == Val::Int(ids@[i as int] as int));
                if id >= regs.effects.len() {
                    proof {
                        lemma_names_none(regs.effects@, l, i as nat, l.len());
                    }
                    return None;
                }
                let ghost before = tags_of(out@);
                out.push(NbtTag::String(regs.effects[id].clone()));
                assert(tags_of(out@) =~= before.push(Tag::String(regs.effects@[id as int]@)));
                i += 1;
            }
            Some(NbtTag::List(out))
        },
    }
}

proof fn lemma_consume_none(regs: Registries, l: Seq<Tag>, i: nat, n: nat)
    requires
        i < n <= l.len(),
        consume_effect_from(regs, l[i as int]) is None,
    ensures
        consume_effects_from(regs, l, n) is None,
    decreases n,
{
    if i + 1 < n {
        lemma_consume_none(regs, l, i, (n - 1) as nat);
    }
}

proof fn lemma_consume_tags_none(regs: Registries, l: Seq<Val>, i: nat, n: nat)
    requires
        i < n <= l.len(),
        consume_effect_tag(regs, l[i as int]) is None,
    ensures
        consume_effect_tags(regs, l, n) is None,
    decreases n,
{
    if i + 1 < n {
        lemma_consume_tags_none(regs, l, i, (n - 1) as nat);
    }
}

/// What consuming an item does, as a list of tags describes it.
fn read_consume_effects(l: &Vec<NbtTag>, regs: &Registries) -> (r: Option<Vec<ConsumeEffect>>)
    ensures
        match r {
            Some(v) => consume_effects_from(*regs, tags_of(l@), l@.len()) == Some(vals::<ConsumeEffect>(v@)),
            None => consume_effects_from(*regs, tags_of(l@), l@.len()) is None,
        },
{
    let ghost tags = tags_of(l@);
    let mut out: Vec<ConsumeEffect> = Vec::new();
    assert(vals::<ConsumeEffect>(out@) =~= Seq::<Val>::empty());
    let mut i: usize = 0;
    while i < l.len()
        invariant
            i <= l.len(),
            tags == tags_of(l@),
            consume_effects_from(*regs, tags, i as nat) == Some(vals::<ConsumeEffect>(out@)),
        decreases l.len() - i,
    {
        assert(tags[i as int] == l@[i as int]@);
        match ConsumeEffect::read_data(&l[i], regs) {
            Some(x) => {
                let ghost before = vals::<ConsumeEffect>(out@);
                let ghost v = ConsumeEffect::val(x);
                out.push(x);
                assert(vals::<ConsumeEffect>(out@) =~= before.push(v));
            },
            None => {
                proof {
                    lemma_consume_none(*regs, tags, i as nat, tags.len());
                }
                return None;
            },
        }
        i += 1;
    }
    Some(out)
}

/// The tags of what consuming an item does, where every effect has one.
fn write_consume_effects(v: &Vec<ConsumeEffect>, regs: &Registries) -> (r: Option<Vec<NbtTag>>)
    ensures
        match r {
            Some(l) => consume_effect_tags(*regs, vals::<ConsumeEffect>(v@), v@.len()) == Some(tags_of(l@)),
            None => consume_effect_tags(*regs, vals::<ConsumeEffect>(v@), v@.len()) is None,
        },
{
    let ghost l = vals::<ConsumeEffect>(v@);
    let mut out: Vec<NbtTag> = Vec::new();
    assert(tags_of(out@) =~= Seq::<Tag>::empty());
    let mut i: usize = 0;
    while i < v.len()
        invariant
            i <= v.len(),
            l == vals::<ConsumeEffect>(v@),
            consume_effect_tags(*regs, l, i as nat) == Some(tags_of(out@)),
        decreases v.len() - i,
    {
        assert(l[i as int] == ConsumeEffect::val(v@[i as int]));
        match v[i].write_data(regs) {
            Some(t) => {
                let ghost before = tags_of(out@);
                let ghost x = t@;
                out.push(t);
                assert(tags_of(out@) =~= before.push(x));
            },
            None => {
                proof {
                    lemma_consume_tags_none(*regs, l, i as nat, l.len());
                }
                return None;
            },
        }
        i += 1;
    }
    Some(out)
}

impl DeathProtectionImpl {
    /// The value that a tag describes.
    pub fn read_data(data: &NbtTag, regs: &Registries) -> (r: Option<Self>)
        ensures
            stores(protection_from(*regs, data@), r, |x: DeathProtectionImpl| DeathProtectionImpl::val(x)),
    {
        let c = match data {
            NbtTag::Compound(c) => c,
            _ => {
                return None;
            },
        };
        match c.get("death_effects") {
            None => {
                let death_effects: Vec<ConsumeEffect> = Vec::new();
                assert(vals::<ConsumeEffect>(death_effects@) =~= Seq::<Val>::empty());
                Some(DeathProtectionImpl { death_effects })
            },
            Some(NbtTag::List(l)) => match read_consume_effects(l, regs) {
                Some(death_effects) => Some(DeathProtectionImpl { death_effects }),
                None => None,
            },
            Some(_) => None,
        }
    }

    /// The tag that describes the value, where every effect has one.
    pub fn write_data(&self, regs: &Registries) -> (r: Option<NbtTag>)
        ensures
            match r {
                Some(t) => match consume_effect_tags(*regs, vals::<ConsumeEffect>(self.death_effects@), self.death_effects@.len()) {
                    Some(l) => t@ == Tag::Compound(with_entry(Seq::empty(), "death_effects"@, Tag::List(l))),
                    None => false,
                },
                None => consume_effect_tags(*regs, vals::<ConsumeEffect>(self.death_effects@), self.death_effects@.len()) is None,
            },
    {
        match write_consume_effects(&self.death_effects, regs) {
            Some(l) => {
                let mut c = NbtCompound::new();
                c.put_list("death_effects", l);
                Some(NbtTag::Compound(c))
            },
            None => None,
        }
    }
}

/// The name of a look.
fn name_of_animation(i: i32) -> (r: &'static str)
    ensures
        r@ == animation_name(i as int),
{
    match i {
        0 => "none",
        1 => "eat",
        2 => "drink",
        3 => "block",
        4 => "bow",
        5 => "trident",
        6 => "crossbow",
        7 => "spyglass",
        8 => "toot_horn",
        9 => "brush",
        10 => "bundle",
        _ => "spear",
    }
}

/// The look with a name.
fn read_animation(s: &str) -> (r: Option<ConsumeAnimation>)
    ensures
        match r {
            Some(x) => animation_from(s@, 0) == Some(consume_animation_id(x)),
            None => animation_from(s@, 0) is None,
        },
{
    let mut i: i32 = 0;
    while i < 12
        invariant
            0 <= i <= 12,
            animation_from(s@, 0) == animation_from(s@, i as int),
        decreases 12 - i,
    {
        if same_text(name_of_animation(i), s) {
            return ConsumeAnimation::from_id(i);
        }
        i += 1;
    }
    None
}

/// The tag of a sound that is in the registry.
fn sound_to_tag(s: &IdOr<SoundEvent>, regs: &Registries) -> (r: Option<NbtTag>)
    ensures
        match r {
            Some(t) => sound_tag(*regs, sound_val(*s)) == Some(t@),
            None => sound_tag(*regs, sound_val(*s)) is None,
        },
{
    match s {
        IdOr::Id(i) => if (*i as usize) < regs.sounds.len() {
            Some(NbtTag::String(concat("minecraft:", regs.sounds[*i as usize].as_str())))
        } else {
            None
        },
        IdOr::Value(_) => None,
    }
}

impl ConsumableImpl {
    /// The value that a tag describes; what it does not say is as for food.
    pub fn read_data(data: &NbtTag, regs: &Registries) -> (r: Option<Self>)
        ensures
            stores(consumable_from(*regs, data@), r, |x: ConsumableImpl| ConsumableImpl::val(x)),
    {
        let c = match data {
            NbtTag::Compound(c) => c,
            _ => {
                return None;
            },
        };
        let consume_seconds: u32 = match get_float_or(c, "consume_seconds", EATING_SECONDS) {
            Some(v) => v,
            None => {
                return None;
            },
        };
        let animation: ConsumeAnimation = match c.get("animation") {
            None => ConsumeAnimation::Eat,
            Some(NbtTag::String(s)) => match read_animation(s.as_str()) {
                Some(v) => v,
                None => {
                    return None;
                },
            },
            Some(_) => {
                return None;
            },
        };
        let eating = NbtTag::String("entity.generic.eat".to_owned());
        let sound: Option<IdOr<SoundEvent>> = match c.get("sound") {
            None => read_sound(Some(&eating), regs),
            Some(t) => read_sound(Some(t), regs),
        };
        let sound_event: IdOr<SoundEvent> = match sound {
            Some(v) => v,
            None => {
                return None;
            },
        };
        let consume_particles: bool = match get_flag_or(c, "has_consume_particles", true) {
            Some(v) => v,
            None => {
                return None;
            },
        };
        let effects: Vec<ConsumeEffect> = match c.get("on_consume_effects") {
            None => {
                let none: Vec<ConsumeEffect> = Vec::new();
                assert(vals::<ConsumeEffect>(none@) =~= Seq::<Val>::empty());
                none
            },
            Some(NbtTag::List(l)) => match read_consume_effects(l, regs) {
                Some(v) => v,
                None => {
                    return None;
                },
            },
            Some(_) => {
                return None;
            },
        };
        Some(ConsumableImpl { consume_seconds, animation, sound_event, consume_particles, effects })
    }

    /// The tag that describes the value, where its sound and its effects have tags.
    pub fn write_data(&self, regs: &Registries) -> (r: Option<NbtTag>)
        ensures
            match r {
                Some(t) => consumable_tag(*regs, ConsumableImpl::val(*self)) == Some(t@),
                None => consumable_tag(*regs, ConsumableImpl::val(*self)) is None,
            },
    {
        match (sound_to_tag(&self.sound_event, regs), write_consume_effects(&self.effects, regs)) {
            (Some(sound), Some(effects)) => {
                let mut c = NbtCompound::new();
                c.put_float("consume_seconds", self.consume_seconds);
                c.put_string("animation", name_of_animation(self.animation.to_id()).to_owned());
                c.put("sound", sound);
                c.put_bool("has_consume_particles", self.consume_particles);
                c.put_list("on_consume_effects", effects);
                Some(NbtTag::Compound(c))
            },
            _ => None,
        }
    }
}

/// The operation with a name.
fn read_operation(s: &str) -> (r: Option<Operation>)
    ensures
        match r {
            Some(x) => operation_from(s@) == Some(operation_id(x)),
            None => operation_from(s@) is None,
        },
{
    if same_text(s, "add_value") {
        Some(Operation::AddValue)
    } else if same_text(s, "add_multiplied_base") {
        Some(Operation::AddMultipliedBase)
    } else if same_text(s, "add_multiplied_total") {
        Some(Operation::AddMultipliedTotal)
    } else {
        None
    }
}

/// The name of an operation.
fn name_of_operation(v: Operation) -> (r: &'static str)
    ensures
        r@ == operation_name(operation_id(v)),
{
    match v {
        Operation::AddValue => "add_value",
        Operation::AddMultipliedBase => "add_multiplied_base",
        Operation::AddMultipliedTotal => "add_multiplied_total",
    }
}

/// The name of the place with a number.
fn name_of_place(i: i32) -> (r: &'static str)
    requires
        0 <= i < 11,
    ensures
        r@ == place_name(i as int),
{
    match i {
        0 => "any",
        1 => "mainhand",
        2 => "offhand",
        3 => "hand",
        4 => "feet",
        5 => "legs",
        6 => "chest",
        7 => "head",
        8 => "armor",
        9 => "body",
        _ => "saddle",
    }
}

/// The place with a name.
fn read_place(s: &str) -> (r: Option<AttributeModifierSlot>)
    ensures
        match r {
            Some(x) => place_from(s@, 0) == Some(attribute_modifier_slot_id(x)),
            None => place_from(s@, 0) is None,
        },
{
    let mut i: i32 = 0;
    while i < 11
        invariant
            0 <= i <= 11,
            place_from(s@, 0) == place_from(s@, i as int),
        decreases 11 - i,
    {
        if same_text(name_of_place(i), s) {
            return AttributeModifierSlot::from_id(i);
        }
        i += 1;
    }
    None
}

/// How a modifier is shown.
fn read_display(t: Option<&NbtTag>) -> (r: Option<ModifierDisplay>)
    ensures
        stores(
            display_from(
                match t {
                    Some(t) => Some(t@),
                    None => None,
                },
            ),
            r,
            |x: ModifierDisplay| ModifierDisplay::val(x),
        ),
{
    let c = match t {
        None => {
            return Some(ModifierDisplay::Default);
        },
        Some(NbtTag::Compound(c)) => c,
        Some(_) => {
            return None;
        },
    };
    match c.get_string("type") {
        None => None,
        Some(s) => {
            if same_text(s.as_str(), "default") {
                Some(ModifierDisplay::Default)
            } else if same_text(s.as_str(), "hidden") {
                Some(ModifierDisplay::Hidden)
            } else if same_text(s.as_str(), "override") {
                match c.get("value") {
                    Some(v) => Some(ModifierDisplay::Override(v.copy())),
                    None => None,
                }
            } else {
                None
            }
        },
    }
}

/// The tag of how a modifier is shown.
fn display_to_tag(v: &ModifierDisplay) -> (r: NbtTag)
    ensures
        r@ == display_tag(ModifierDisplay::val(*v)),
{
    let mut c = NbtCompound::new();
    match v {
        ModifierDisplay::Default => {
            c.put_string("type", "default".to_owned());
        },
        ModifierDisplay::Hidden => {
            c.put_string("type", "hidden".to_owned());
        },
        ModifierDisplay::Override(t) => {
            c.put_string("type", "override".to_owned());
            c.put("value", t.copy());
        },
    }
    NbtTag::Compound(c)
}

impl Modifier {
    /// The change of an attribute that a tag describes.
    pub fn read_data(tag: &NbtTag, regs: &Registries) -> (r: Option<Self>)
        ensures
            stores(modifier_from(*regs, tag@), r, |x: Modifier| Modifier::val(x)),
    {
        let c = match tag {
            NbtTag::Compound(c) => c,
            _ => {
                return None;
            },
        };
        match (c.get_string("type"), c.get_string("id"), c.get("amount"), c.get_string("operation")) {
            (Some(kind), Some(id), Some(amount), Some(operation)) => {
                let place = match c.get_string("slot") {
                    Some(s) => read_place(s.as_str()),
                    None => read_place("any"),
                };
                match (
                    position_of(&regs.attributes, kind.as_str()),
                    nbt_number_as_f64(amount),
                    read_operation(operation.as_str()),
                    place,
                    read_display(c.get("display")),
                ) {
                    (Some(attribute), Some(amount), Some(operation), Some(slot), Some(display)) => if attribute <= 0x7fff_ffff {
                        Some(Modifier { attribute: attribute as i32, id: id.clone(), amount, operation, slot, display })
                    } else {
                        None
                    },
                    _ => None,
                }
            },
            _ => None,
        }
    }

    /// The tag that describes the change of an attribute.
    pub fn write_data(&self, regs: &Registries) -> (r: Option<NbtTag>)
        ensures
            match r {
                Some(t) => modifier_tag(*regs, Modifier::val(*self)) == Some(t@),
                None => modifier_tag(*regs, Modifier::val(*self)) is None,
            },
    {
        if self.attribute < 0 || self.attribute as usize >= regs.attributes.len() {
            return None;
        }
        let mut c = NbtCompound::new();
        c.put_string("type", regs.attributes[self.attribute as usize].clone());
        c.put_string("id", self.id.clone());
        c.put_double("amount", self.amount);
        c.put_string("operation", name_of_operation(self.operation).to_owned());
        c.put_string("slot", name_of_place(self.slot.to_id()).to_owned());
        c.put("display", display_to_tag(&self.display));
        Some(NbtTag::Compound(c))
    }
}

proof fn lemma_modifiers_none(regs: Registries, l: Seq<Tag>, i: nat, n: nat)
    requires
        i < n <= l.len(),
        modifier_from(regs, l[i as int]) is None,
    ensures
        modifiers_from(regs, l, n) is None,
    decreases n,
{
    if i + 1 < n {
        lemma_modifiers_none(regs, l, i, (n - 1) as nat);
    }
}

proof fn lemma_modifier_tags_none(regs: Registries, l: Seq<Val>, i: nat, n: nat)
    requires
        i < n <= l.len(),
        modifier_tag(regs, l[i as int]) is None,
    ensures
        modifier_tags(regs, l, n) is None,
    decreases n,
{
    if i + 1 < n {
        lemma_modifier_tags_none(regs, l, i, (n - 1) as nat);
    }
}

impl AttributeModifiersImpl {
    /// The value that a tag describes.
    pub fn read_data(data: &NbtTag, regs: &Registries) -> (r: Option<Self>)
        ensures
            match data@ {
                Tag::List(l) => match r {
                    Some(x) => modifiers_from(*regs, l, l.len()) == Some(vals::<Modifier>(x.attribute_modifiers@)),
                    None => modifiers_from(*regs, l, l.len()) is None,
                },
                _ => r is None,
            },
    {
        let l = match data {
            NbtTag::List(l) => l,
            _ => {
                return None;
            },
        };
        let ghost tags = tags_of(l@);
        let mut out: Vec<Modifier> = Vec::new();
        assert(vals::<Modifier>(out@) =~= Seq::<Val>::empty());
        let mut i: usize = 0;
        while i < l.len()
            invariant
                i <= l.len(),
                tags == tags_of(l@),
                data@ == Tag::List(tags),
                modifiers_from(*regs, tags, i as nat) == Some(vals::<Modifier>(out@)),
            decreases l.len() - i,
        {
            assert(tags[i as int] == l@[i as int]@);
            match Modifier::read_data(&l[i], regs) {
                Some(x) => {
                    let ghost before = vals::<Modifier>(out@);
                    let ghost v = Modifier::val(x);
                    out.push(x);
                    assert(vals::<Modifier>(out@) =~= before.push(v));
                },
                None => {
                    proof {
                        lemma_modifiers_none(*regs, tags, i as nat, tags.len());
                    }
                    return None;
                },
            }
            i += 1;
        }
        Some(AttributeModifiersImpl { attribute_modifiers: out })
    }

    /// The tag that describes the value, where every attribute is known.
    pub fn write_data(&self, regs: &Registries) -> (r: Option<NbtTag>)
        ensures
            match r {
                Some(t) => match modifier_tags(*regs, vals::<Modifier>(self.attribute_modifiers@), self.attribute_modifiers@.len()) {
                    Some(l) => t@ == Tag::List(l),
                    None => false,
                },
                None => modifier_tags(*regs, vals::<Modifier>(self.attribute_modifiers@), self.attribute_modifiers@.len()) is None,
            },
    {
        let ghost l = vals::<Modifier>(self.attribute_modifiers@);
        let mut out: Vec<NbtTag> = Vec::new();
        assert(tags_of(out@) =~= Seq::<Tag>::empty());
        let mut i: usize = 0;
        while i < self.attribute_modifiers.len()
            invariant
                i <= self.attribute_modifiers.len(),
                l == vals::<Modifier>(self.attribute_modifiers@),
                modifier_tags(*regs, l, i as nat) == Some(tags_of(out@)),
            decreases self.attribute_modifiers.len() - i,
        {
            assert(l[i as int] == Modifier::val(self.attribute_modifiers@[i as int]));
            match self.attribute_modifiers[i].write_data(regs) {
                Some(t) => {
                    let ghost before = tags_of(out@);
                    let ghost v = t@;
                    out.push(t);
                    assert(tags_of(out@) =~= before.push(v));
                },
                None => {
                    proof {
                        lemma_modifier_tags_none(*regs, l, i as nat, l.len());
                    }
                    return None;
                },
            }
            i += 1;
        }
        Some(NbtTag::List(out))
    }
}

} // verus!
