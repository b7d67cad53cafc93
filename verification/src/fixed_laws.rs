//! The bytes of components of which only some fields are kept, and of those that are sent as they are stored.
use vstd::prelude::*;
use crate::basic::{BannerPatternLayer, BannerPatternsImpl, PotDecorationsImpl, ProvidesBannerPatternsImpl, SkippedPattern};
use crate::block_entity::{BeesImpl, BlockEntityDataImpl, BucketEntityDataImpl, EntityDataImpl};
use crate::bound_laws::{lemma_layer_is_written, lemma_list_written, lemma_profile_head_is_written, written_as};
use crate::bytes::{be_bytes, be_signed, lemma_pow256, lemma_regroup};
use crate::codec::{vals, AsText, DataComponentCodec, ListRule, Opt, RawCount};
use crate::components::component_format;
use crate::data_component::DataComponent;
use crate::elements::AsProfileHead;
use crate::equipment::{BlocksAttacksImpl, TrimImpl, UseEffectsImpl};
use crate::format::{both, check_limit, fixed, list, opt, pair, plain, put, read_val, write_val, CountRule, Ctx, Format, Limit, NbtRole, Val};
use crate::nbt_codec::{entries_bytes, payload_bytes, tag_bytes, writable};
use crate::nbt_tag::Tag;
use crate::persist::plain_to_tag;
use crate::sent::{in_turn, maybe};
use crate::utility::{ProfileImpl, ProfileProperty, SkippedModel};
use crate::wire::{done, groups, lemma_read_var_int, text, text_fits, var_int, MAX_TEXT_BYTES};
use crate::wire_laws::lemma_profile_property_is_sent;

verus! {

proof fn lemma_pair_written(f: Format, g: Format, c: Ctx, x: Val, y: Val, a: Seq<u8>, b: Seq<u8>)
    requires
        written_as(f, c, x, a),
        written_as(g, c, y, b),
    ensures
        written_as(both(f, g), c, pair(x, y), a + b),
{
    reveal(write_val);
    assert forall|out: Seq<u8>| #[trigger] write_val(both(f, g), c, out, pair(x, y)) == put(out, a + b) by {
        assert(write_val(f, c, out, x) == put(out, a));
        assert(write_val(g, c, out + a, y) == put(out + a, b));
        lemma_regroup(out, a, b);
    }
}

proof fn lemma_fixed_written(f: Format, c: Ctx, w: Val, v: Val, x: Val, a: Seq<u8>)
    requires
        written_as(f, c, w, a),
    ensures
        written_as(fixed(f, w, v), c, x, a),
{
    reveal(write_val);
    assert forall|out: Seq<u8>| #[trigger] write_val(fixed(f, w, v), c, out, x) == put(out, a) by {
        assert(write_val(f, c, out, w) == put(out, a));
    }
}

proof fn lemma_small_parts(c: Ctx, b: bool, n: u32, f: Format, rule: CountRule, limit: Limit)
    requires
        check_limit(limit, 0) is Ok,
    ensures
        written_as(Format::Bool, c, Val::Bool(b), seq![if b { 1u8 } else { 0u8 }]),
        written_as(Format::VarInt, c, Val::Int(0), seq![0u8]),
        written_as(Format::Float(4), c, Val::Float(4, n as nat), be_bytes(n as nat, 4)),
        written_as(opt(f), c, Val::Absent, seq![0u8]),
        written_as(Format::SkippedDamage, c, Val::Unit, seq![0u8]),
        written_as(Format::SkippedSet, c, Val::Unit, seq![0u8]),
        written_as(list(rule, limit, f), c, Val::List(Seq::empty()), seq![0u8]),
{
    lemma_zero();
    assert(written_as(Format::Bool, c, Val::Bool(b), seq![if b { 1u8 } else { 0u8 }])) by {
        reveal(write_val);
    }
    assert(written_as(Format::VarInt, c, Val::Int(0), seq![0u8])) by {
        reveal(write_val);
    }
    assert(written_as(Format::Float(4), c, Val::Float(4, n as nat), be_bytes(n as nat, 4))) by {
        reveal(write_val);
    }
    assert(written_as(opt(f), c, Val::Absent, seq![0u8])) by {
        reveal(write_val);
    }
    assert(written_as(Format::SkippedDamage, c, Val::Unit, seq![0u8])) by {
        reveal(write_val);
    }
    assert(written_as(Format::SkippedSet, c, Val::Unit, seq![0u8])) by {
        reveal(write_val);
    }
    assert forall|out: Seq<u8>| #[trigger] write_val(list(rule, limit, f), c, out, Val::List(Seq::empty())) == put(out, seq![0u8]) by {
        let l = Seq::<Val>::empty();
        let piece = |k: int| Seq::<u8>::empty();
        lemma_list_written(rule, limit, f, c, out, l, piece);
        assert(seq![0u8] + in_turn(0, piece, 0) =~= seq![0u8]);
    }
}

proof fn lemma_zero()
    ensures
        var_int(0) == seq![0u8],
{
    lemma_pow256();
    reveal_with_fuel(groups, 2);
    assert(var_int(0) =~= seq![0u8]);
}

proof fn lemma_tag_written(role: NbtRole, c: Ctx, t: Tag)
    requires
        writable(t),
        role == NbtRole::Any || role == NbtRole::LenientCompound,
    ensures
        written_as(Format::Nbt(role), c, Val::Nbt(t), tag_bytes(t)),
{
    reveal(write_val);
}

proof fn lemma_empty_compound()
    ensures
        tag_bytes(Tag::Compound(Seq::empty())) == seq![10u8, 0u8],
        writable(Tag::Compound(Seq::empty())),
{
    reveal_with_fuel(be_bytes, 2);
    let t = Tag::Compound(Seq::<(Seq<char>, Tag)>::empty());
    assert(be_bytes(10, 1) =~= seq![10u8]);
    assert(be_bytes(0, 1) =~= seq![0u8]);
    assert(payload_bytes(t) == entries_bytes(Seq::<(Seq<char>, Tag)>::empty(), 0));
    assert(tag_bytes(t) =~= seq![10u8, 0u8]);
}

/// What is not kept is sent as it usually is: no sprinting, vibrations and a fifth of the speed for use, the
/// first material and pattern for a trim, and nothing for the rest.
pub proof fn lemma_usual_values_are_sent(c: Ctx, a: UseEffectsImpl, b: TrimImpl, d: PotDecorationsImpl, e: ProvidesBannerPatternsImpl, f: BeesImpl)
    ensures
        written_as(UseEffectsImpl::format(), c, UseEffectsImpl::val(a), seq![0u8] + (seq![1u8] + be_bytes(0x3e4c_cccd, 4))),
        written_as(TrimImpl::format(), c, TrimImpl::val(b), seq![0u8] + seq![0u8]),
        written_as(PotDecorationsImpl::format(), c, PotDecorationsImpl::val(d), seq![0u8]),
        written_as(ProvidesBannerPatternsImpl::format(), c, ProvidesBannerPatternsImpl::val(e), seq![0u8]),
        written_as(BeesImpl::format(), c, BeesImpl::val(f), seq![0u8]),
{
    let r = RawCount::rule();
    let l = RawCount::limit();
    let v = Format::VarInt;
    lemma_small_parts(c, false, 0x3e4c_cccd, v, r, l);
    lemma_small_parts(c, true, 0x3e4c_cccd, both(v, both(Format::Nbt(NbtRole::Any), both(v, v))), r, l);
    let x = Val::Float(4, 0x3e4c_cccd);
    lemma_pair_written(Format::Bool, Format::Float(4), c, Val::Bool(true), x, seq![1u8], be_bytes(0x3e4c_cccd, 4));
    lemma_pair_written(
        Format::Bool,
        both(Format::Bool, Format::Float(4)),
        c,
        Val::Bool(false),
        pair(Val::Bool(true), x),
        seq![0u8],
        seq![1u8] + be_bytes(0x3e4c_cccd, 4),
    );
    lemma_fixed_written(
        both(Format::Bool, both(Format::Bool, Format::Float(4))),
        c,
        pair(Val::Bool(false), pair(Val::Bool(true), x)),
        Val::Unit,
        UseEffectsImpl::val(a),
        seq![0u8] + (seq![1u8] + be_bytes(0x3e4c_cccd, 4)),
    );
    lemma_pair_written(v, v, c, Val::Int(0), Val::Int(0), seq![0u8], seq![0u8]);
    lemma_fixed_written(
        both(v, v),
        c,
        pair(Val::Int(0), Val::Int(0)),
        pair(Val::Nbt(Tag::String("minecraft:quartz"@)), Val::Nbt(Tag::String("minecraft:coast"@))),
        TrimImpl::val(b),
        seq![0u8] + seq![0u8],
    );
    lemma_fixed_written(list(r, l, v), c, Val::List(Seq::empty()), Val::Unit, PotDecorationsImpl::val(d), seq![0u8]);
    lemma_fixed_written(
        list(r, l, both(v, both(Format::Nbt(NbtRole::Any), both(v, v)))),
        c,
        Val::List(Seq::empty()),
        Val::Unit,
        BeesImpl::val(f),
        seq![0u8],
    );
}

/// The data of an entity is sent as zero, in place of its type, and an empty compound; that of one in a bucket
/// as an empty compound; that of a block as zero and its compound.
pub proof fn lemma_entity_data_is_sent(c: Ctx, a: EntityDataImpl, b: BucketEntityDataImpl, d: BlockEntityDataImpl)
    requires
        writable(Tag::Compound(d.nbt@)),
    ensures
        written_as(EntityDataImpl::format(), c, EntityDataImpl::val(a), seq![0u8] + seq![10u8, 0u8]),
        written_as(BucketEntityDataImpl::format(), c, BucketEntityDataImpl::val(b), seq![10u8, 0u8]),
        written_as(BlockEntityDataImpl::format(), c, BlockEntityDataImpl::val(d), seq![0u8] + tag_bytes(Tag::Compound(d.nbt@))),
{
    let none = Tag::Compound(Seq::<(Seq<char>, Tag)>::empty());
    let any = Format::Nbt(NbtRole::Any);
    lemma_empty_compound();
    lemma_small_parts(c, false, 0, Format::VarInt, RawCount::rule(), RawCount::limit());
    lemma_tag_written(NbtRole::Any, c, none);
    lemma_tag_written(NbtRole::LenientCompound, c, Tag::Compound(d.nbt@));
    lemma_pair_written(Format::VarInt, any, c, Val::Int(0), Val::Nbt(none), seq![0u8], seq![10u8, 0u8]);
    lemma_fixed_written(
        both(Format::VarInt, any),
        c,
        pair(Val::Int(0), Val::Nbt(none)),
        Val::Unit,
        EntityDataImpl::val(a),
        seq![0u8] + seq![10u8, 0u8],
    );
    lemma_fixed_written(any, c, Val::Nbt(none), Val::Unit, BucketEntityDataImpl::val(b), seq![10u8, 0u8]);
    lemma_fixed_written(Format::VarInt, c, Val::Int(0), Val::Unit, Val::Unit, seq![0u8]);
    lemma_pair_written(
        fixed(Format::VarInt, Val::Int(0), Val::Unit),
        Format::Nbt(NbtRole::LenientCompound),
        c,
        Val::Unit,
        Val::Nbt(Tag::Compound(d.nbt@)),
        seq![0u8],
        tag_bytes(Tag::Compound(d.nbt@)),
    );
}

/// A banner is sent as how many layers it has, and for each zero and the number of its dye.
pub proof fn lemma_banner_is_sent(c: Ctx, v: BannerPatternsImpl, out: Seq<u8>)
    requires
        v.layers@.len() <= i32::MAX,
    ensures
        write_val(BannerPatternsImpl::format(), c, out, BannerPatternsImpl::val(v)) == put(
            out,
            var_int(v.layers@.len() as int) + in_turn(v.layers@.len(), |k: int| seq![0u8] + var_int(v.layers@[k].color.id as int), 0),
        ),
{
    let l = vals::<BannerPatternLayer>(v.layers@);
    let piece = |k: int| seq![0u8] + var_int(v.layers@[k].color.id as int);
    assert forall|k: int| 0 <= k < l.len() implies written_as(BannerPatternLayer::format(), c, #[trigger] l[k], piece(k)) by {
        assert(l[k] == BannerPatternLayer::val(v.layers@[k]));
        assert forall|o: Seq<u8>| #[trigger] write_val(BannerPatternLayer::format(), c, o, l[k]) == put(o, piece(k)) by {
            lemma_layer_is_written(v.layers@[k], c, o);
        }
    }
    lemma_list_written(RawCount::rule(), RawCount::limit(), BannerPatternLayer::format(), c, out, l, piece);
}

/// A component that is sent as it is stored has the bytes of its tag.
pub proof fn lemma_stored_components_are_sent(k: DataComponent, c: Ctx, v: Val, t: Tag)
    requires
        k == DataComponent::MapDecorations || k == DataComponent::DebugStickState || k == DataComponent::Recipes || k == DataComponent::ContainerLoot || k
            == DataComponent::IntangibleProjectile,
        plain_to_tag(k, c.regs, v) == Some(t),
        writable(t),
    ensures
        component_format(k) == Format::Stored(k),
        written_as(component_format(k), c, v, tag_bytes(t)),
{
    assert(component_format(k) == Format::Stored(k)) by {
        reveal(component_format);
    }
    assert(written_as(Format::Stored(k), c, v, tag_bytes(t))) by {
        reveal(write_val);
    }
}

/// What blocks attacks is sent as no delay, the full cooldown, and nothing else.
pub proof fn lemma_blocking_is_sent(c: Ctx, v: BlocksAttacksImpl)
    ensures
        written_as(
            BlocksAttacksImpl::format(),
            c,
            BlocksAttacksImpl::val(v),
            be_bytes(0, 4) + (be_bytes(0x3f80_0000, 4) + (seq![0u8] + (seq![0u8] + (seq![0u8] + (seq![0u8] + seq![0u8]))))),
        ),
{
    let r = RawCount::rule();
    let l = RawCount::limit();
    let f4 = Format::Float(4);
    let set = opt(Format::SkippedSet);
    let number = opt(Format::VarInt);
    let item = both(f4, both(set, both(f4, f4)));
    lemma_small_parts(c, false, 0, Format::VarInt, r, l);
    lemma_small_parts(c, false, 0x3f80_0000, item, r, l);
    lemma_small_parts(c, false, 0, Format::SkippedSet, r, l);
    let z = seq![0u8];
    lemma_pair_written(number, number, c, Val::Absent, Val::Absent, z, z);
    let x1 = pair(Val::Absent, Val::Absent);
    lemma_pair_written(set, both(number, number), c, Val::Absent, x1, z, z + z);
    let x2 = pair(Val::Absent, x1);
    lemma_pair_written(Format::SkippedDamage, both(set, both(number, number)), c, Val::Unit, x2, z, z + (z + z));
    let x3 = pair(Val::Unit, x2);
    let g3 = both(Format::SkippedDamage, both(set, both(number, number)));
    lemma_pair_written(list(r, l, item), g3, c, Val::List(Seq::empty()), x3, z, z + (z + (z + z)));
    let x4 = pair(Val::List(Seq::empty()), x3);
    let g4 = both(list(r, l, item), g3);
    lemma_pair_written(f4, g4, c, Val::Float(4, 0x3f80_0000), x4, be_bytes(0x3f80_0000, 4), z + (z + (z + (z + z))));
    let x5 = pair(Val::Float(4, 0x3f80_0000), x4);
    let b5 = be_bytes(0x3f80_0000, 4) + (z + (z + (z + (z + z))));
    lemma_pair_written(f4, both(f4, g4), c, Val::Float(4, 0), x5, be_bytes(0, 4), b5);
    lemma_fixed_written(both(f4, both(f4, g4)), c, pair(Val::Float(4, 0), x5), Val::Unit, BlocksAttacksImpl::val(v), be_bytes(0, 4) + b5);
}

proof fn lemma_opt_text_written(c: Ctx, t: Option<String>)
    requires
        t matches Some(t) ==> text_fits(t@, MAX_TEXT_BYTES as nat),
    ensures
        written_as(opt(plain()), c, <Opt<AsText> as DataComponentCodec>::val(t), maybe(t is Some, text(t->0@))),
{
    reveal_with_fuel(write_val, 2);
    assert forall|out: Seq<u8>| #[trigger] write_val(opt(plain()), c, out, <Opt<AsText> as DataComponentCodec>::val(t)) == put(
        out,
        maybe(t is Some, text(t->0@)),
    ) by {
        match t {
            Some(x) => {
                assert(out + seq![1u8] + text(x@) =~= out + (seq![1u8] + text(x@)));
            },
            None => {},
        }
    }
}

proof fn lemma_model_written(c: Ctx, t: Option<String>)
    ensures
        written_as(
            <Opt<SkippedModel> as DataComponentCodec>::format(),
            c,
            <Opt<SkippedModel> as DataComponentCodec>::val(t),
            if t is Some {
                seq![1u8, 0u8]
            } else {
                seq![0u8]
            },
        ),
{
    reveal_with_fuel(write_val, 3);
    lemma_zero();
    assert forall|out: Seq<u8>| #[trigger] write_val(
        <Opt<SkippedModel> as DataComponentCodec>::format(),
        c,
        out,
        <Opt<SkippedModel> as DataComponentCodec>::val(t),
    ) == put(
        out,
        if t is Some {
            seq![1u8, 0u8]
        } else {
            seq![0u8]
        },
    ) by {
        assert(out + seq![1u8] + seq![0u8] =~= out + seq![1u8, 0u8]);
    }
}

/// Whether the texts of a profile are not too long.
pub open spec fn profile_fits(v: ProfileImpl) -> bool {
    &&& (v.name matches Some(t) ==> text_fits(t@, MAX_TEXT_BYTES as nat))
    &&& (v.texture matches Some(t) ==> text_fits(t@, MAX_TEXT_BYTES as nat))
    &&& (v.cape matches Some(t) ==> text_fits(t@, MAX_TEXT_BYTES as nat))
    &&& (v.elytra matches Some(t) ==> text_fits(t@, MAX_TEXT_BYTES as nat))
    &&& v.properties@.len() <= i32::MAX
    &&& forall|k: int|
        0 <= k < v.properties@.len() ==> text_fits((#[trigger] v.properties@[k]).name@, MAX_TEXT_BYTES as nat) && text_fits(
            v.properties@[k].value@,
            MAX_TEXT_BYTES as nat,
        ) && (v.properties@[k].signature matches Some(s) ==> text_fits(s@, MAX_TEXT_BYTES as nat))
}

/// The bytes of a property of a profile.
pub open spec fn property_bytes(p: ProfileProperty) -> Seq<u8> {
    text(p.name@) + (text(p.value@) + maybe(p.signature is Some, text(p.signature->0@)))
}

/// The bytes of the head of a profile: one, the name and the number, each behind a flag.
pub open spec fn head_of(v: ProfileImpl) -> Seq<u8> {
    seq![1u8] + (match v.name {
        Some(t) => seq![1u8] + text(t@),
        None => seq![0u8],
    }) + (match v.id {
        Some(b) => seq![1u8] + (be_signed(b@[0] as int, 4) + be_signed(b@[1] as int, 4) + be_signed(b@[2] as int, 4) + be_signed(b@[3] as int, 4)),
        None => seq![0u8],
    })
}

/// A profile is sent with its head, its properties and its looks, each of these behind a flag; of its model only
/// that there is one.
pub proof fn lemma_profile_is_sent(c: Ctx, v: ProfileImpl)
    requires
        profile_fits(v),
    ensures
        written_as(
            ProfileImpl::format(),
            c,
            ProfileImpl::val(v),
            head_of(v) + ((var_int(v.properties@.len() as int) + in_turn(v.properties@.len(), |k: int| property_bytes(v.properties@[k]), 0)) + (maybe(
                v.texture is Some,
                text(v.texture->0@),
            ) + (maybe(v.cape is Some, text(v.cape->0@)) + (maybe(v.elytra is Some, text(v.elytra->0@)) + (if v.model is Some {
                seq![1u8, 0u8]
            } else {
                seq![0u8]
            }))))),
        ),
{
    let l = vals::<ProfileProperty>(v.properties@);
    let piece = |k: int| property_bytes(v.properties@[k]);
    assert forall|k: int| 0 <= k < l.len() implies written_as(ProfileProperty::format(), c, #[trigger] l[k], piece(k)) by {
        assert(l[k] == ProfileProperty::val(v.properties@[k]));
        lemma_profile_property_is_sent(v.properties@[k], c);
    }
    let b = var_int(l.len() as int) + in_turn(l.len(), piece, 0);
    let props = list(RawCount::rule(), RawCount::limit(), ProfileProperty::format());
    assert forall|o: Seq<u8>| #[trigger] write_val(props, c, o, Val::List(l)) == put(o, b) by {
        lemma_list_written(RawCount::rule(), RawCount::limit(), ProfileProperty::format(), c, o, l, piece);
    }
    assert forall|o: Seq<u8>| #[trigger] write_val(AsProfileHead::format(), c, o, AsProfileHead::val((v.name, v.id))) == put(o, head_of(v)) by {
        lemma_profile_head_is_written(v.name, v.id, c, o);
    }
    lemma_opt_text_written(c, v.texture);
    lemma_opt_text_written(c, v.cape);
    lemma_opt_text_written(c, v.elytra);
    lemma_model_written(c, v.model);
    let t = opt(plain());
    let m = <Opt<SkippedModel> as DataComponentCodec>::format();
    let e1 = <Opt<AsText> as DataComponentCodec>::val(v.texture);
    let e2 = <Opt<AsText> as DataComponentCodec>::val(v.cape);
    let e3 = <Opt<AsText> as DataComponentCodec>::val(v.elytra);
    let e4 = <Opt<SkippedModel> as DataComponentCodec>::val(v.model);
    let b1 = maybe(v.texture is Some, text(v.texture->0@));
    let b2 = maybe(v.cape is Some, text(v.cape->0@));
    let b3 = maybe(v.elytra is Some, text(v.elytra->0@));
    let b4 = if v.model is Some {
        seq![1u8, 0u8]
    } else {
        seq![0u8]
    };
    lemma_pair_written(t, m, c, e3, e4, b3, b4);
    lemma_pair_written(t, both(t, m), c, e2, pair(e3, e4), b2, b3 + b4);
    lemma_pair_written(t, both(t, both(t, m)), c, e1, pair(e2, pair(e3, e4)), b1, b2 + (b3 + b4));
    lemma_pair_written(props, both(t, both(t, both(t, m))), c, Val::List(l), pair(e1, pair(e2, pair(e3, e4))), b, b1 + (b2 + (b3 + b4)));
    lemma_pair_written(
        AsProfileHead::format(),
        both(props, both(t, both(t, both(t, m)))),
        c,
        AsProfileHead::val((v.name, v.id)),
        pair(Val::List(l), pair(e1, pair(e2, pair(e3, e4)))),
        head_of(v),
        b + (b1 + (b2 + (b3 + b4))),
    );
}

/// What is not kept is read over: a trim comes out of quartz in the pattern of the coast, a model as wide, and
/// the pattern of a layer as empty, whatever their numbers are.
pub proof fn lemma_what_is_read_over(c: Ctx, a: int, b: int, r: Seq<u8>)
    requires
        i32::MIN <= a <= i32::MAX,
        i32::MIN <= b <= i32::MAX,
    ensures
        read_val(TrimImpl::format(), c, var_int(a) + (var_int(b) + r)) == done(
            pair(Val::Nbt(Tag::String("minecraft:quartz"@)), Val::Nbt(Tag::String("minecraft:coast"@))),
            r,
        ),
        read_val(SkippedModel::format(), c, var_int(a) + r) == done(Val::Text("wide"@), r),
        read_val(SkippedPattern::format(), c, var_int(a) + r) == done(Val::Text(Seq::empty()), r),
{
    reveal_with_fuel(read_val, 3);
    lemma_read_var_int(a, var_int(b) + r);
    lemma_read_var_int(b, r);
    lemma_read_var_int(a, r);
}

} // verus!
