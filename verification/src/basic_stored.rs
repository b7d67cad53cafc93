//! How the components that most items can have are stored.
use vstd::prelude::*;
use crate::basic::{has_component, lemma_holds, rarity_name, BannerPatternLayer, BannerPatternsImpl, BaseColorImpl, BreakSoundImpl, CreativeSlotLockImpl, CustomDataImpl, CustomModelDataImpl, CustomNameImpl, DamageImpl, DyeColor, EnchantmentGlintOverrideImpl, HiddenComponent, InstrumentImpl, ItemModelImpl, ItemNameImpl, LockImpl, LoreImpl, MaxDamageImpl, MaxStackSizeImpl, NoteBlockSoundImpl, PotDecorationsImpl, ProvidesBannerPatternsImpl, ProvidesTrimMaterialImpl, Rarity, RarityImpl, TooltipDisplayImpl, TooltipStyleImpl, UnbreakableImpl};
use crate::codec::{vals, AsBool, AsF32, AsI32, AsText, Coded, DataComponentCodec};
use crate::data_component::{component_id, component_name, component_of_id, component_of_name, lemma_component_of_own_id, DataComponent};
use crate::elements::{low_byte, AsLine, ItemName, TextComponent};
use crate::format::{is_component, plain_text, Val};
use crate::nbt_tag::{compound_get, copy_i32s, lemma_tag_views, tags_of, NbtCompound, NbtTag, Tag};
use crate::persist::{as_int, component_tags, flag_tags, float_tags, hidden_from, int_from, int_tags, int_vals, layer_tag, layer_tags, layers_from, line_tags, model_data_from, model_data_tag, picked, rarity_from, text_at, text_from, text_tags, tooltip_display_tag, tooltip_from, Pick};
use crate::same::{match_compounds, tags_match};
use crate::tag_lists::{make_all, stores, take_all, take_under, FlagTag, FloatTag, IntTag, LineTag, Tagged, TakeFlag, TakeFloat, TakeInt, TakeLine, TakeText, TextTag};
use crate::text::same_text;

verus! {

broadcast use lemma_tag_views;

impl CustomDataImpl {
    /// The value that a tag describes.
    pub fn read_data(data: &NbtTag) -> (r: Option<Self>)
        ensures
            match r {
                Some(x) => data@ == Tag::Compound(x.data@),
                None => !(data@ is Compound),
            },
    {
        match data {
            NbtTag::Compound(c) => Some(CustomDataImpl { data: c.copy() }),
            _ => None,
        }
    }

    /// The tag that describes the value.
    pub fn write_data(&self) -> (r: NbtTag)
        ensures
            r@ == Tag::Compound(self.data@),
    {
        NbtTag::Compound(self.data.copy())
    }
}

impl CustomDataImpl {
    /// Data.
    pub fn new(data: NbtCompound) -> (r: Self)
        ensures
            r.data == data,
    {
        CustomDataImpl { data }
    }

    /// Whether two pieces of data match, whatever the order of their entries.
    pub fn equals(&self, other: &Self) -> (r: bool)
        ensures
            r == tags_match(Tag::Compound(self.data@), Tag::Compound(other.data@), true),
    {
        match_compounds(&self.data, &other.data, true)
    }
}

impl MaxStackSizeImpl {
    /// The value that a tag describes: the low byte of a number.
    pub fn read_data(data: &NbtTag) -> (r: Option<Self>)
        ensures
            match r {
                Some(x) => data@ is Int && x.size == data@->Int_0 % 256,
                None => !(data@ is Int),
            },
    {
        match data {
            NbtTag::Int(v) => Some(MaxStackSizeImpl { size: low_byte(*v) }),
            _ => None,
        }
    }

    /// The tag that describes the value.
    pub fn write_data(&self) -> (r: NbtTag)
        ensures
            r@ == Tag::Int(self.size as int),
    {
        NbtTag::Int(self.size as i32)
    }
}

impl MaxDamageImpl {
    /// The value that a tag describes.
    pub fn read_data(data: &NbtTag) -> (r: Option<Self>)
        ensures
            stores(int_from(data@), r, |x: MaxDamageImpl| MaxDamageImpl::val(x)),
    {
        match data {
            NbtTag::Int(v) => Some(MaxDamageImpl { max_damage: *v }),
            _ => None,
        }
    }

    /// The tag that describes the value.
    pub fn write_data(&self) -> (r: NbtTag)
        ensures
            r@ == Tag::Int(self.max_damage as int),
    {
        NbtTag::Int(self.max_damage)
    }
}

impl DamageImpl {
    /// The value that a tag describes.
    pub fn read_data(data: &NbtTag) -> (r: Option<Self>)
        ensures
            stores(int_from(data@), r, |x: DamageImpl| DamageImpl::val(x)),
    {
        match data {
            NbtTag::Int(v) => Some(DamageImpl { damage: *v }),
            _ => None,
        }
    }

    /// The tag that describes the value.
    pub fn write_data(&self) -> (r: NbtTag)
        ensures
            r@ == Tag::Int(self.damage as int),
    {
        NbtTag::Int(self.damage)
    }
}

impl UnbreakableImpl {
    /// The value that a tag describes: any tag will do.
    pub fn read_data(data: &NbtTag) -> (r: Option<Self>)
        ensures
            r is Some,
    {
        Some(UnbreakableImpl)
    }

    /// The tag that describes the value.
    pub fn write_data(&self) -> (r: NbtTag)
        ensures
            r@ == Tag::Compound(Seq::empty()),
    {
        NbtTag::Compound(NbtCompound::new())
    }
}

impl CustomNameImpl {
    /// The value that a tag describes: a text or a compound.
    pub fn read_data(data: &NbtTag) -> (r: Option<Self>)
        ensures
            match r {
                Some(x) => (data@ is String || data@ is Compound) && x.name@ == data@,
                None => !(data@ is String) && !(data@ is Compound),
            },
    {
        match data {
            NbtTag::String(s) => Some(CustomNameImpl { name: TextComponent::text(s.clone()) }),
            NbtTag::Compound(_) => Some(CustomNameImpl { name: TextComponent::from_nbt(data) }),
            _ => None,
        }
    }

    /// The tag that describes the value: the plain text.
    pub fn write_data(&self) -> (r: NbtTag)
        ensures
            r@ == Tag::String(plain_text(self.name@)),
    {
        NbtTag::String(self.name.get_text())
    }
}

impl ItemNameImpl {
    /// The value that a tag describes: a text, a compound or a list with something in it.
    pub fn read_data(data: &NbtTag) -> (r: Option<Self>)
        ensures
            match r {
                Some(x) => is_component(data@) && x.name is Component && x.name.shown() == data@,
                None => !is_component(data@),
            },
    {
        match TextComponent::try_from_nbt(data) {
            Some(c) => Some(ItemNameImpl { name: ItemName::Component(c) }),
            None => None,
        }
    }

    /// The tag that describes the value.
    pub fn write_data(&self) -> (r: NbtTag)
        ensures
            r@ == self.name.shown(),
    {
        self.name.as_component().to_nbt_tag()
    }
}

impl ItemModelImpl {
    /// The value that a tag describes.
    pub fn read_data(data: &NbtTag) -> (r: Option<Self>)
        ensures
            stores(text_from(data@), r, |x: ItemModelImpl| ItemModelImpl::val(x)),
    {
        match data {
            NbtTag::String(s) => Some(ItemModelImpl { id: s.clone() }),
            _ => None,
        }
    }

    /// The tag that describes the value.
    pub fn write_data(&self) -> (r: NbtTag)
        ensures
            r@ == Tag::String(self.id@),
    {
        NbtTag::String(self.id.clone())
    }
}

impl LoreImpl {
    /// The value that a tag describes: the texts of a list.
    pub fn read_data(data: &NbtTag) -> (r: Option<Self>)
        ensures
            match r {
                Some(x) => data@ is List && vals::<AsLine>(x.lines@) == picked(Pick::Line, data@->List_0, data@->List_0.len()),
                None => !(data@ is List),
            },
    {
        match data {
            NbtTag::List(l) => Some(LoreImpl { lines: take_all::<TakeLine>(l) }),
            _ => None,
        }
    }

    /// The tag that describes the value: the plain texts of the lines.
    pub fn write_data(&self) -> (r: NbtTag)
        ensures
            r@ == Tag::List(line_tags(vals::<AsLine>(self.lines@))),
    {
        let tags = make_all::<LineTag>(&self.lines);
        assert(tags_of(tags@) =~= line_tags(vals::<AsLine>(self.lines@)));
        NbtTag::List(tags)
    }
}

impl RarityImpl {
    /// The value that a tag describes: the name of a rarity.
    pub fn read_data(data: &NbtTag) -> (r: Option<Self>)
        ensures
            stores(rarity_from(data@), r, |x: RarityImpl| RarityImpl::val(x)),
    {
        match data {
            NbtTag::String(s) => {
                if same_text(s.as_str(), "common") {
                    return Some(RarityImpl { rarity: Rarity::Common });
                }
                if same_text(s.as_str(), "uncommon") {
                    return Some(RarityImpl { rarity: Rarity::Uncommon });
                }
                if same_text(s.as_str(), "rare") {
                    return Some(RarityImpl { rarity: Rarity::Rare });
                }
                if same_text(s.as_str(), "epic") {
                    return Some(RarityImpl { rarity: Rarity::Epic });
                }
                None
            },
            _ => None,
        }
    }

    /// The tag that describes the value.
    pub fn write_data(&self) -> (r: NbtTag)
        ensures
            r@ == Tag::String(rarity_name(self.rarity)),
    {
        NbtTag::String(self.rarity.to_name().to_owned())
    }
}

impl CustomModelDataImpl {
    /// The value that a tag describes.
    pub fn read_data(data: &NbtTag) -> (r: Option<Self>)
        ensures
            stores(model_data_from(data@), r, |x: CustomModelDataImpl| CustomModelDataImpl::val(x)),
    {
        match data {
            NbtTag::Compound(c) => {
                let floats = take_under::<TakeFloat>(c, "floats");
                let flags = take_under::<TakeFlag>(c, "flags");
                let strings = take_under::<TakeText>(c, "strings");
                let colors: Vec<i32> = match c.get("colors") {
                    Some(NbtTag::IntArray(v)) => copy_i32s(v),
                    Some(NbtTag::List(l)) => take_all::<TakeInt>(l),
                    _ => Vec::new(),
                };
                assert(match compound_get(c@, "colors"@) {
                    Some(Tag::IntArray(l)) => vals::<AsI32>(colors@) =~= int_vals(l),
                    Some(Tag::List(l)) => vals::<AsI32>(colors@) =~= picked(Pick::Int, l, l.len()),
                    _ => vals::<AsI32>(colors@) =~= Seq::<Val>::empty(),
                });
                Some(CustomModelDataImpl { floats, flags, strings, colors })
            },
            _ => None,
        }
    }

    /// The tag that describes the value.
    pub fn write_data(&self) -> (r: NbtTag)
        ensures
            r@ == model_data_tag(CustomModelDataImpl::val(*self)),
    {
        let floats = make_all::<FloatTag>(&self.floats);
        let flags = make_all::<FlagTag>(&self.flags);
        let strings = make_all::<TextTag>(&self.strings);
        let colors = make_all::<IntTag>(&self.colors);
        assert(tags_of(floats@) =~= float_tags(vals::<AsF32>(self.floats@)));
        assert(tags_of(flags@) =~= flag_tags(vals::<AsBool>(self.flags@)));
        assert(tags_of(strings@) =~= text_tags(vals::<AsText>(self.strings@)));
        assert(tags_of(colors@) =~= int_tags(vals::<AsI32>(self.colors@)));
        let mut c = NbtCompound::new();
        c.put_list("floats", floats);
        c.put_list("flags", flags);
        c.put_list("strings", strings);
        c.put_list("colors", colors);
        NbtTag::Compound(c)
    }
}

impl TooltipDisplayImpl {
    /// Nothing hidden.
    pub fn new() -> (r: Self)
        ensures
            !r.hide_tooltip,
            r.hidden_components@ == Seq::<DataComponent>::empty(),
    {
        TooltipDisplayImpl { hide_tooltip: false, hidden_components: Vec::new() }
    }

    /// The value that a tag describes.
    pub fn read_data(data: &NbtTag) -> (r: Option<Self>)
        ensures
            stores(tooltip_from(data@), r, |x: TooltipDisplayImpl| TooltipDisplayImpl::val(x)),
    {
        let c = match data {
            NbtTag::Compound(c) => c,
            _ => {
                return None;
            },
        };
        let hide_tooltip: bool = match c.get("hide_tooltip") {
            None => false,
            Some(t) => match t.extract_bool() {
                Some(b) => b,
                None => {
                    return None;
                },
            },
        };
        match c.get("hidden_components") {
            None => {
                let hidden_components: Vec<DataComponent> = Vec::new();
                assert(vals::<Coded<HiddenComponent>>(hidden_components@) =~= Seq::<Val>::empty());
                Some(TooltipDisplayImpl { hide_tooltip, hidden_components })
            },
            Some(NbtTag::List(l)) => match read_hidden(l) {
                Some(hidden_components) => Some(TooltipDisplayImpl { hide_tooltip, hidden_components }),
                None => None,
            },
            Some(_) => None,
        }
    }

    /// The tag that describes the value.
    pub fn write_data(&self) -> (r: NbtTag)
        ensures
            r@ == tooltip_display_tag(TooltipDisplayImpl::val(*self)),
    {
        let hidden = make_all::<ComponentTag>(&self.hidden_components);
        assert(tags_of(hidden@) =~= component_tags(vals::<Coded<HiddenComponent>>(self.hidden_components@)));
        let mut c = NbtCompound::new();
        c.put_bool("hide_tooltip", self.hide_tooltip);
        c.put_list("hidden_components", hidden);
        NbtTag::Compound(c)
    }
}

/// Component types by their names.
struct ComponentTag;

impl Tagged for ComponentTag {
    type Codec = Coded<HiddenComponent>;

    open spec fn tag(v: Val) -> Tag {
        Tag::String(component_name(component_of_id(as_int(v))->0))
    }

    fn make(v: &DataComponent) -> (r: NbtTag) {
        proof {
            lemma_component_of_own_id(*v);
        }
        NbtTag::String(v.to_name().to_owned())
    }
}

proof fn lemma_hidden_none(l: Seq<Tag>, i: nat, n: nat)
    requires
        i < n <= l.len(),
        match l[i as int] {
            Tag::String(s) => component_of_name(s) is None,
            _ => true,
        },
    ensures
        hidden_from(l, n) is None,
    decreases n,
{
    if i + 1 < n {
        lemma_hidden_none(l, i, (n - 1) as nat);
    }
}

/// The component types that a list of tags names, each once.
fn read_hidden(l: &Vec<NbtTag>) -> (r: Option<Vec<DataComponent>>)
    ensures
        match r {
            Some(v) => hidden_from(tags_of(l@), l@.len()) == Some(vals::<Coded<HiddenComponent>>(v@)),
            None => hidden_from(tags_of(l@), l@.len()) is None,
        },
{
    let ghost tags = tags_of(l@);
    let mut out: Vec<DataComponent> = Vec::new();
    assert(vals::<Coded<HiddenComponent>>(out@) =~= Seq::<Val>::empty());
    let mut i: usize = 0;
    while i < l.len()
        invariant
            i <= l.len(),
            tags == tags_of(l@),
            hidden_from(tags, i as nat) == Some(vals::<Coded<HiddenComponent>>(out@)),
        decreases l.len() - i,
    {
        assert(tags[i as int] == l@[i as int]@);
        let known: Option<DataComponent> = match &l[i] {
            NbtTag::String(s) => DataComponent::try_from_name(s.as_str()),
            _ => None,
        };
        match known {
            Some(k) => {
                let ghost before = vals::<Coded<HiddenComponent>>(out@);
                proof {
                    lemma_holds(out@, k);
                }
                if !has_component(&out, k) {
                    out.push(k);
                    assert(vals::<Coded<HiddenComponent>>(out@) =~= before.push(Val::Int(component_id(k) as int)));
                }
            },
            None => {
                proof {
                    lemma_hidden_none(tags, i as nat, tags.len());
                }
                return None;
            },
        }
        i += 1;
    }
    Some(out)
}

impl CreativeSlotLockImpl {
    /// The value that a tag describes: any tag will do.
    pub fn read_data(data: &NbtTag) -> (r: Option<Self>)
        ensures
            r is Some,
    {
        Some(CreativeSlotLockImpl)
    }

    /// The tag that describes the value.
    pub fn write_data(&self) -> (r: NbtTag)
        ensures
            r@ == Tag::Compound(Seq::empty()),
    {
        NbtTag::Compound(NbtCompound::new())
    }
}

impl EnchantmentGlintOverrideImpl {
    /// The value that a tag describes: any tag will do.
    pub fn read_data(data: &NbtTag) -> (r: Option<Self>)
        ensures
            r is Some,
    {
        Some(EnchantmentGlintOverrideImpl)
    }

    /// The tag that describes the value.
    pub fn write_data(&self) -> (r: NbtTag)
        ensures
            r@ == Tag::Compound(Seq::empty()),
    {
        NbtTag::Compound(NbtCompound::new())
    }
}

impl InstrumentImpl {
    /// The value that a tag describes: any tag will do.
    pub fn read_data(data: &NbtTag) -> (r: Option<Self>)
        ensures
            r is Some,
    {
        Some(InstrumentImpl)
    }

    /// The tag that describes the value.
    pub fn write_data(&self) -> (r: NbtTag)
        ensures
            r@ == Tag::Compound(Seq::empty()),
    {
        NbtTag::Compound(NbtCompound::new())
    }
}

impl ProvidesTrimMaterialImpl {
    /// The value that a tag describes: any tag will do.
    pub fn read_data(data: &NbtTag) -> (r: Option<Self>)
        ensures
            r is Some,
    {
        Some(ProvidesTrimMaterialImpl)
    }

    /// The tag that describes the value.
    pub fn write_data(&self) -> (r: NbtTag)
        ensures
            r@ == Tag::Compound(Seq::empty()),
    {
        NbtTag::Compound(NbtCompound::new())
    }
}

impl ProvidesBannerPatternsImpl {
    /// The value that a tag describes: any tag will do.
    pub fn read_data(data: &NbtTag) -> (r: Option<Self>)
        ensures
            r is Some,
    {
        Some(ProvidesBannerPatternsImpl)
    }

    /// The tag that describes the value.
    pub fn write_data(&self) -> (r: NbtTag)
        ensures
            r@ == Tag::Compound(Seq::empty()),
    {
        NbtTag::Compound(NbtCompound::new())
    }
}

impl PotDecorationsImpl {
    /// The value that a tag describes: any tag will do.
    pub fn read_data(data: &NbtTag) -> (r: Option<Self>)
        ensures
            r is Some,
    {
        Some(PotDecorationsImpl)
    }

    /// The tag that describes the value.
    pub fn write_data(&self) -> (r: NbtTag)
        ensures
            r@ == Tag::Compound(Seq::empty()),
    {
        NbtTag::Compound(NbtCompound::new())
    }
}

impl BreakSoundImpl {
    /// The value that a tag describes: any tag will do.
    pub fn read_data(data: &NbtTag) -> (r: Option<Self>)
        ensures
            r is Some,
    {
        Some(BreakSoundImpl)
    }

    /// The tag that describes the value.
    pub fn write_data(&self) -> (r: NbtTag)
        ensures
            r@ == Tag::Compound(Seq::empty()),
    {
        NbtTag::Compound(NbtCompound::new())
    }
}

impl TooltipStyleImpl {
    /// The value that a tag describes.
    pub fn read_data(data: &NbtTag) -> (r: Option<Self>)
        ensures
            stores(text_from(data@), r, |x: TooltipStyleImpl| TooltipStyleImpl::val(x)),
    {
        match data {
            NbtTag::String(s) => Some(TooltipStyleImpl { id: s.clone() }),
            _ => None,
        }
    }

    /// The tag that describes the value.
    pub fn write_data(&self) -> (r: NbtTag)
        ensures
            r@ == Tag::String(self.id@),
    {
        NbtTag::String(self.id.clone())
    }
}

impl NoteBlockSoundImpl {
    /// The value that a tag describes.
    pub fn read_data(data: &NbtTag) -> (r: Option<Self>)
        ensures
            stores(text_from(data@), r, |x: NoteBlockSoundImpl| NoteBlockSoundImpl::val(x)),
    {
        match data {
            NbtTag::String(s) => Some(NoteBlockSoundImpl { sound: s.clone() }),
            _ => None,
        }
    }

    /// The tag that describes the value.
    pub fn write_data(&self) -> (r: NbtTag)
        ensures
            r@ == Tag::String(self.sound@),
    {
        NbtTag::String(self.sound.clone())
    }
}

impl BaseColorImpl {
    /// The value that a tag describes.
    pub fn read_data(data: &NbtTag) -> (r: Option<Self>)
        ensures
            stores(text_from(data@), r, |x: BaseColorImpl| BaseColorImpl::val(x)),
    {
        match data {
            NbtTag::String(s) => Some(BaseColorImpl { color: s.clone() }),
            _ => None,
        }
    }

    /// The tag that describes the value.
    pub fn write_data(&self) -> (r: NbtTag)
        ensures
            r@ == Tag::String(self.color@),
    {
        NbtTag::String(self.color.clone())
    }
}

impl LockImpl {
    /// The value that a tag describes.
    pub fn read_data(data: &NbtTag) -> (r: Option<Self>)
        ensures
            match r {
                Some(x) => data@ == Tag::Compound(x.predicate@),
                None => !(data@ is Compound),
            },
    {
        match data {
            NbtTag::Compound(c) => Some(LockImpl { predicate: c.copy() }),
            _ => None,
        }
    }

    /// The tag that describes the value.
    pub fn write_data(&self) -> (r: NbtTag)
        ensures
            r@ == Tag::Compound(self.predicate@),
    {
        NbtTag::Compound(self.predicate.copy())
    }
}

impl BannerPatternsImpl {
    /// No layers.
    pub fn new() -> (r: Self)
        ensures
            r.layers@ == Seq::<BannerPatternLayer>::empty(),
    {
        BannerPatternsImpl { layers: Vec::new() }
    }

    /// The value that a tag describes; no layers where it is no list.
    pub fn read_data(data: &NbtTag) -> (r: Option<Self>)
        ensures
            match data@ {
                Tag::List(l) => match r {
                    Some(x) => layers_from(l, l.len()) == Some(vals::<BannerPatternLayer>(x.layers@)),
                    None => layers_from(l, l.len()) is None,
                },
                _ => r is Some && r->0.layers@ == Seq::<BannerPatternLayer>::empty(),
            },
    {
        match data {
            NbtTag::List(l) => match read_layers(l) {
                Some(layers) => Some(BannerPatternsImpl { layers }),
                None => None,
            },
            _ => Some(BannerPatternsImpl { layers: Vec::new() }),
        }
    }

    /// The tag that describes the value.
    pub fn write_data(&self) -> (r: NbtTag)
        ensures
            r@ == Tag::List(layer_tags(vals::<BannerPatternLayer>(self.layers@))),
    {
        let tags = make_all::<LayerTag>(&self.layers);
        assert(tags_of(tags@) =~= layer_tags(vals::<BannerPatternLayer>(self.layers@)));
        NbtTag::List(tags)
    }
}

/// Layers of a banner.
struct LayerTag;

impl Tagged for LayerTag {
    type Codec = BannerPatternLayer;

    open spec fn tag(v: Val) -> Tag {
        layer_tag(v)
    }

    fn make(v: &BannerPatternLayer) -> (r: NbtTag) {
        let mut c = NbtCompound::new();
        c.put_string("pattern", v.pattern.clone());
        c.put_string("color", v.color.name().to_owned());
        NbtTag::Compound(c)
    }
}

proof fn lemma_layers_none(l: Seq<Tag>, i: nat, n: nat)
    requires
        i < n <= l.len(),
        l[i as int] is Compound,
        text_at(l[i as int]->Compound_0, "pattern"@) is None || text_at(l[i as int]->Compound_0, "color"@) is None,
    ensures
        layers_from(l, n) is None,
    decreases n,
{
    if i + 1 < n {
        lemma_layers_none(l, i, (n - 1) as nat);
    }
}

/// The layers that a list of tags describes.
fn read_layers(l: &Vec<NbtTag>) -> (r: Option<Vec<BannerPatternLayer>>)
    ensures
        match r {
            Some(v) => layers_from(tags_of(l@), l@.len()) == Some(vals::<BannerPatternLayer>(v@)),
            None => layers_from(tags_of(l@), l@.len()) is None,
        },
{
    let ghost tags = tags_of(l@);
    let mut out: Vec<BannerPatternLayer> = Vec::new();
    assert(vals::<BannerPatternLayer>(out@) =~= Seq::<Val>::empty());
    let mut i: usize = 0;
    while i < l.len()
        invariant
            i <= l.len(),
            tags == tags_of(l@),
            layers_from(tags, i as nat) == Some(vals::<BannerPatternLayer>(out@)),
        decreases l.len() - i,
    {
        assert(tags[i as int] == l@[i as int]@);
        match &l[i] {
            NbtTag::Compound(c) => match (c.get_string("pattern"), c.get_string("color")) {
                (Some(pattern), Some(color)) => {
                    let color = match DyeColor::by_name(color.as_str()) {
                        Some(color) => color,
                        None => DyeColor { id: 0 },
                    };
                    let layer = BannerPatternLayer { pattern: pattern.clone(), color };
                    let ghost before = vals::<BannerPatternLayer>(out@);
                    let ghost x = BannerPatternLayer::val(layer);
                    out.push(layer);
                    assert(vals::<BannerPatternLayer>(out@) =~= before.push(x));
                },
                _ => {
                    proof {
                        lemma_layers_none(tags, i as nat, tags.len());
                    }
                    return None;
                },
            },
            _ => {},
        }
        i += 1;
    }
    Some(out)
}

} // verus!
