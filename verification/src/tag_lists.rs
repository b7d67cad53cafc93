//! Lists of tags and lists of values.
use vstd::prelude::*;
use crate::codec::{vals, AsBool, AsF32, AsI32, AsText, DataComponentCodec};
use crate::elements::{AsLine, TextComponent};
use crate::format::{plain_text, Val};
use crate::nbt_tag::{bool_tag, lemma_tag_views, tag_view, tags_of, NbtCompound, NbtTag, Tag};
use crate::persist::{as_bits, as_bool, as_int, as_nbt, as_text, list_at, pick, picked, Pick};

verus! {

broadcast use lemma_tag_views;

/// Whether what was read from a tag is `o`.
pub open spec fn stores<T>(o: Option<Val>, r: Option<T>, val: spec_fn(T) -> Val) -> bool {
    match r {
        Some(x) => o == Some(val(x)),
        None => o is None,
    }
}

/// Taking a value out of a tag of the right type.
pub trait Picked {
    type Codec: DataComponentCodec;

    spec fn spec_pick() -> Pick;

    fn take(t: &NbtTag) -> (r: Option<<Self::Codec as DataComponentCodec>::Value>)
        ensures
            match r {
                Some(x) => pick(Self::spec_pick(), t@) == Some(<Self::Codec as DataComponentCodec>::val(x)),
                None => pick(Self::spec_pick(), t@) is None,
            },
    ;
}

/// The values in a list of tags; tags of another type are left out.
pub fn take_all<P: Picked>(l: &Vec<NbtTag>) -> (r: Vec<<P::Codec as DataComponentCodec>::Value>)
    ensures
        vals::<P::Codec>(r@) == picked(P::spec_pick(), tags_of(l@), l@.len()),
{
    let ghost tags = tags_of(l@);
    let mut out: Vec<<P::Codec as DataComponentCodec>::Value> = Vec::new();
    assert(vals::<P::Codec>(out@) =~= picked(P::spec_pick(), tags, 0));
    let mut i: usize = 0;
    while i < l.len()
        invariant
            i <= l.len(),
            tags == tags_of(l@),
            vals::<P::Codec>(out@) == picked(P::spec_pick(), tags, i as nat),
        decreases l.len() - i,
    {
        assert(tags[i as int] == l@[i as int]@);
        match P::take(&l[i]) {
            Some(x) => {
                let ghost head = vals::<P::Codec>(out@);
                let ghost v = <P::Codec as DataComponentCodec>::val(x);
                out.push(x);
                assert(vals::<P::Codec>(out@) =~= head.push(v));
            },
            None => {},
        }
        i += 1;
    }
    out
}

/// The values in the list under a key; none where there is no list.
pub fn take_under<P: Picked>(c: &NbtCompound, key: &str) -> (r: Vec<<P::Codec as DataComponentCodec>::Value>)
    ensures
        vals::<P::Codec>(r@) == picked(P::spec_pick(), list_at(c@, key@), list_at(c@, key@).len()),
{
    match c.get_list(key) {
        Some(l) => take_all::<P>(l),
        None => {
            let r: Vec<<P::Codec as DataComponentCodec>::Value> = Vec::new();
            assert(vals::<P::Codec>(r@) =~= Seq::<Val>::empty());
            r
        },
    }
}

/// Texts.
pub struct TakeText;

impl Picked for TakeText {
    type Codec = AsText;

    open spec fn spec_pick() -> Pick {
        Pick::Text
    }

    fn take(t: &NbtTag) -> (r: Option<String>) {
        match t {
            NbtTag::String(s) => Some(s.clone()),
            _ => None,
        }
    }
}

/// Literal text components.
pub struct TakeLine;

impl Picked for TakeLine {
    type Codec = AsLine;

    open spec fn spec_pick() -> Pick {
        Pick::Line
    }

    fn take(t: &NbtTag) -> (r: Option<TextComponent>) {
        match t {
            NbtTag::String(s) => Some(TextComponent::text(s.clone())),
            _ => None,
        }
    }
}

/// Flags.
pub struct TakeFlag;

impl Picked for TakeFlag {
    type Codec = AsBool;

    open spec fn spec_pick() -> Pick {
        Pick::Flag
    }

    fn take(t: &NbtTag) -> (r: Option<bool>) {
        match t {
            NbtTag::Byte(v) => Some(*v != 0),
            _ => None,
        }
    }
}

/// Numbers.
pub struct TakeInt;

impl Picked for TakeInt {
    type Codec = AsI32;

    open spec fn spec_pick() -> Pick {
        Pick::Int
    }

    fn take(t: &NbtTag) -> (r: Option<i32>) {
        match t {
            NbtTag::Int(v) => Some(*v),
            _ => None,
        }
    }
}

/// Floating-point numbers.
pub struct TakeFloat;

impl Picked for TakeFloat {
    type Codec = AsF32;

    open spec fn spec_pick() -> Pick {
        Pick::Float
    }

    fn take(t: &NbtTag) -> (r: Option<u32>) {
        match t {
            NbtTag::Float(v) => Some(*v),
            _ => None,
        }
    }
}

/// Making a tag of a value.
pub trait Tagged {
    type Codec: DataComponentCodec;

    spec fn tag(v: Val) -> Tag;

    fn make(v: &<Self::Codec as DataComponentCodec>::Value) -> (r: NbtTag)
        ensures
            r@ == Self::tag(<Self::Codec as DataComponentCodec>::val(*v)),
    ;
}

/// The tags of the values in a list.
pub open spec fn tags_for<T: Tagged>(l: Seq<Val>) -> Seq<Tag> {
    Seq::new(l.len(), |i: int| T::tag(l[i]))
}

/// The tags of the values in a list.
pub fn make_all<T: Tagged>(l: &Vec<<T::Codec as DataComponentCodec>::Value>) -> (r: Vec<NbtTag>)
    ensures
        tags_of(r@) == tags_for::<T>(vals::<T::Codec>(l@)),
{
    let mut out: Vec<NbtTag> = Vec::new();
    let mut i: usize = 0;
    while i < l.len()
        invariant
            i <= l.len(),
            out@.len() == i,
            forall|k: int|
                0 <= k < i ==> tag_view(#[trigger] out@[k]) == T::tag(<T::Codec as DataComponentCodec>::val(l@[k])),
        decreases l.len() - i,
    {
        out.push(T::make(&l[i]));
        i += 1;
    }
    assert(tags_of(out@) =~= tags_for::<T>(vals::<T::Codec>(l@)));
    out
}

/// Texts.
pub struct TextTag;

impl Tagged for TextTag {
    type Codec = AsText;

    open spec fn tag(v: Val) -> Tag {
        Tag::String(as_text(v))
    }

    fn make(v: &String) -> (r: NbtTag) {
        NbtTag::String(v.clone())
    }
}

/// Text components by their plain texts.
pub struct LineTag;

impl Tagged for LineTag {
    type Codec = AsLine;

    open spec fn tag(v: Val) -> Tag {
        Tag::String(plain_text(as_nbt(v)))
    }

    fn make(v: &TextComponent) -> (r: NbtTag) {
        NbtTag::String(v.get_text())
    }
}

/// Numbers.
pub struct IntTag;

impl Tagged for IntTag {
    type Codec = AsI32;

    open spec fn tag(v: Val) -> Tag {
        Tag::Int(as_int(v))
    }

    fn make(v: &i32) -> (r: NbtTag) {
        NbtTag::Int(*v)
    }
}

/// Floating-point numbers.
pub struct FloatTag;

impl Tagged for FloatTag {
    type Codec = AsF32;

    open spec fn tag(v: Val) -> Tag {
        Tag::Float(as_bits(v))
    }

    fn make(v: &u32) -> (r: NbtTag) {
        NbtTag::Float(*v)
    }
}

/// Flags.
pub struct FlagTag;

impl Tagged for FlagTag {
    type Codec = AsBool;

    open spec fn tag(v: Val) -> Tag {
        bool_tag(as_bool(v))
    }

    fn make(v: &bool) -> (r: NbtTag) {
        NbtTag::Byte(
            if *v {
                1
            } else {
                0
            },
        )
    }
}

} // verus!
