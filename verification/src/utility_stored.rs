//! How the components of tools, maps, fireworks and the like are stored.
use vstd::prelude::*;
use crate::codec::{vals, AsI32, DataComponentCodec, Opt};
use crate::elements::opt_text_val;
use crate::format::Val;
use crate::identifier::{bare_name, strip_namespace};
use crate::nbt_source::ints32;
use crate::nbt_tag::{copy_i32s, lemma_tag_views, tags_of, NbtCompound, NbtTag, Tag};
use crate::persist::{explosion_from, explosion_tag, explosion_tags, explosions_from, fireworks_from, fireworks_tag, int_from, int_vals, ints_at, ints_in, list_at, opt_text_at, processing_from, profile_from, profile_head, profile_tag, properties_from, property_tag, property_tags, shape_from, shape_of, song_from, target_from, tracker_from, tracker_tag, with_entry, with_text};
use crate::registry::{position_of, Registries};
use crate::tag_lists::{make_all, stores, Tagged};
use crate::text::{concat, same_text};
use crate::utility::{firework_explosion_shape_id, DyeImpl, DyedColorImpl, FireworkExplosionImpl, FireworkExplosionShape, FireworksImpl, JukeboxPlayableImpl, LodestoneTarget, LodestoneTrackerImpl, MapColorImpl, MapIdImpl, MapPostProcessing, MapPostProcessingImpl, ProfileImpl, ProfileProperty};

verus! {

broadcast use lemma_tag_views;

impl DyeImpl {
    /// The value that a tag describes: any tag will do.
    pub fn read_data(data: &NbtTag) -> (r: Option<Self>)
        ensures
            r is Some,
    {
        Some(DyeImpl)
    }

    /// The tag that describes the value.
    pub fn write_data(&self) -> (r: NbtTag)
        ensures
            r@ == Tag::Compound(Seq::empty()),
    {
        NbtTag::Compound(NbtCompound::new())
    }
}

impl MapColorImpl {
    /// The value that a tag describes: any tag will do.
    pub fn read_data(data: &NbtTag) -> (r: Option<Self>)
        ensures
            r is Some,
    {
        Some(MapColorImpl)
    }

    /// The tag that describes the value.
    pub fn write_data(&self) -> (r: NbtTag)
        ensures
            r@ == Tag::Compound(Seq::empty()),
    {
        NbtTag::Compound(NbtCompound::new())
    }
}

impl DyedColorImpl {
    /// The value that a tag describes.
    pub fn read_data(data: &NbtTag) -> (r: Option<Self>)
        ensures
            stores(int_from(data@), r, |x: DyedColorImpl| DyedColorImpl::val(x)),
    {
        match data {
            NbtTag::Int(v) => Some(DyedColorImpl { rgb: *v }),
            _ => None,
        }
    }

    /// The tag that describes the value.
    pub fn write_data(&self) -> (r: NbtTag)
        ensures
            r@ == Tag::Int(self.rgb as int),
    {
        NbtTag::Int(self.rgb)
    }
}

impl MapIdImpl {
    /// The value that a tag describes.
    pub fn read_data(data: &NbtTag) -> (r: Option<Self>)
        ensures
            stores(int_from(data@), r, |x: MapIdImpl| MapIdImpl::val(x)),
    {
        match data {
            NbtTag::Int(v) => Some(MapIdImpl { id: *v }),
            _ => None,
        }
    }

    /// The tag that describes the value.
    pub fn write_data(&self) -> (r: NbtTag)
        ensures
            r@ == Tag::Int(self.id as int),
    {
        NbtTag::Int(self.id)
    }
}

impl MapPostProcessingImpl {
    /// The value that a tag describes: a number or a name.
    pub fn read_data(data: &NbtTag) -> (r: Option<Self>)
        ensures
            stores(processing_from(data@), r, |x: MapPostProcessingImpl| MapPostProcessingImpl::val(x)),
    {
        match data {
            NbtTag::Int(v) => {
                if *v == 0 {
                    Some(MapPostProcessingImpl { processing: Some(MapPostProcessing::Lock) })
                } else if *v == 1 {
                    Some(MapPostProcessingImpl { processing: Some(MapPostProcessing::Scale) })
                } else {
                    Some(MapPostProcessingImpl { processing: None })
                }
            },
            NbtTag::String(s) => {
                if same_text(s.as_str(), "lock") {
                    Some(MapPostProcessingImpl { processing: Some(MapPostProcessing::Lock) })
                } else if same_text(s.as_str(), "scale") {
                    Some(MapPostProcessingImpl { processing: Some(MapPostProcessing::Scale) })
                } else {
                    Some(MapPostProcessingImpl { processing: None })
                }
            },
            _ => None,
        }
    }

    /// The tag that describes the value.
    pub fn write_data(&self) -> (r: NbtTag)
        ensures
            r@ == Tag::Int(if self.processing == Some(MapPostProcessing::Scale) { 1 } else { 0 }),
    {
        match self.processing {
            Some(MapPostProcessing::Scale) => NbtTag::Int(1),
            _ => NbtTag::Int(0),
        }
    }
}

impl LodestoneTrackerImpl {
    /// The value that a tag describes.
    pub fn read_data(data: &NbtTag) -> (r: Option<Self>)
        ensures
            stores(tracker_from(data@), r, |x: LodestoneTrackerImpl| LodestoneTrackerImpl::val(x)),
    {
        let c = match data {
            NbtTag::Compound(c) => c,
            _ => {
                return None;
            },
        };
        let is_tracked: bool = match c.get_bool("tracked") {
            Some(b) => b,
            None => true,
        };
        let target: Option<LodestoneTarget> = match c.get_compound("target") {
            Some(t) => read_target(t),
            None => None,
        };
        Some(LodestoneTrackerImpl { target, is_tracked })
    }

    /// The tag that describes the value.
    pub fn write_data(&self) -> (r: NbtTag)
        ensures
            r@ == tracker_tag(LodestoneTrackerImpl::val(*self)),
    {
        let mut c = NbtCompound::new();
        match &self.target {
            Some(target) => {
                let mut t = NbtCompound::new();
                t.put_string("dimension", target.dimension.clone());
                let pos: Vec<i32> = vec![target.x, target.y, target.z];
                assert(ints32(pos@) =~= seq![target.x as int, target.y as int, target.z as int]);
                t.put("pos", NbtTag::IntArray(pos));
                c.put_compound("target", t);
            },
            None => {},
        }
        c.put_bool("tracked", self.is_tracked);
        NbtTag::Compound(c)
    }
}

fn read_target(c: &NbtCompound) -> (r: Option<LodestoneTarget>)
    ensures
        target_from(Some(Tag::Compound(c@))) == <Opt<LodestoneTarget> as DataComponentCodec>::val(r),
{
    match (c.get_string("dimension"), c.get("pos")) {
        (Some(dimension), Some(NbtTag::IntArray(p))) => {
            if p.len() == 3 {
                Some(LodestoneTarget { dimension: dimension.clone(), x: p[0], y: p[1], z: p[2] })
            } else {
                None
            }
        },
        _ => None,
    }
}

/// The numbers of the array under a key; none where there is no array.
fn get_ints(c: &NbtCompound, key: &str) -> (r: Vec<i32>)
    ensures
        vals::<AsI32>(r@) == int_vals(ints_at(c@, key@)),
        ints32(r@) == ints_at(c@, key@),
{
    match c.get(key) {
        Some(NbtTag::IntArray(v)) => {
            let r = copy_i32s(v);
            assert(vals::<AsI32>(r@) =~= int_vals(ints_at(c@, key@)));
            r
        },
        _ => {
            let r: Vec<i32> = Vec::new();
            assert(vals::<AsI32>(r@) =~= int_vals(ints_at(c@, key@)));
            assert(ints32(r@) =~= ints_at(c@, key@));
            r
        },
    }
}

impl FireworkExplosionImpl {
    /// The value that a tag describes.
    pub fn read_data(tag: &NbtTag) -> (r: Option<Self>)
        ensures
            stores(explosion_from(tag@), r, |x: FireworkExplosionImpl| FireworkExplosionImpl::val(x)),
    {
        let c = match tag {
            NbtTag::Compound(c) => c,
            _ => {
                return None;
            },
        };
        let shape = match c.get_string("shape") {
            None => {
                return None;
            },
            Some(s) => match read_shape(s.as_str()) {
                None => {
                    return None;
                },
                Some(shape) => shape,
            },
        };
        let colors = get_ints(c, "colors");
        let fade_colors = get_ints(c, "fade_colors");
        let has_trail: bool = match c.get_bool("has_trail") {
            Some(b) => b,
            None => false,
        };
        let has_twinkle: bool = match c.get_bool("has_twinkle") {
            Some(b) => b,
            None => false,
        };
        Some(FireworkExplosionImpl { shape, colors, fade_colors, has_trail, has_twinkle })
    }

    /// The tag that describes the value.
    pub fn write_data(&self) -> (r: NbtTag)
        ensures
            r@ == explosion_tag(FireworkExplosionImpl::val(*self)),
    {
        let mut c = NbtCompound::new();
        assert(shape_of(firework_explosion_shape_id(self.shape)) == self.shape);
        c.put_string("shape", self.shape.to_name().to_owned());
        assert(ints32(self.colors@) =~= ints_in(vals::<AsI32>(self.colors@)));
        assert(ints32(self.fade_colors@) =~= ints_in(vals::<AsI32>(self.fade_colors@)));
        c.put("colors", NbtTag::IntArray(copy_i32s(&self.colors)));
        c.put("fade_colors", NbtTag::IntArray(copy_i32s(&self.fade_colors)));
        c.put_bool("has_trail", self.has_trail);
        c.put_bool("has_twinkle", self.has_twinkle);
        NbtTag::Compound(c)
    }
}

fn read_shape(s: &str) -> (r: Option<FireworkExplosionShape>)
    ensures
        match r {
            Some(x) => shape_from(s@) == Some(firework_explosion_shape_id(x)),
            None => shape_from(s@) is None,
        },
{
    if same_text(s, "small_ball") {
        Some(FireworkExplosionShape::SmallBall)
    } else if same_text(s, "large_ball") {
        Some(FireworkExplosionShape::LargeBall)
    } else if same_text(s, "star") {
        Some(FireworkExplosionShape::Star)
    } else if same_text(s, "creeper") {
        Some(FireworkExplosionShape::Creeper)
    } else if same_text(s, "burst") {
        Some(FireworkExplosionShape::Burst)
    } else {
        None
    }
}

/// Explosions of a firework.
struct ExplosionTag;

impl Tagged for ExplosionTag {
    type Codec = FireworkExplosionImpl;

    open spec fn tag(v: Val) -> Tag {
        explosion_tag(v)
    }

    fn make(v: &FireworkExplosionImpl) -> (r: NbtTag) {
        v.write_data()
    }
}

impl FireworksImpl {
    /// The value that a tag describes.
    pub fn read_data(tag: &NbtTag) -> (r: Option<Self>)
        ensures
            stores(fireworks_from(tag@), r, |x: FireworksImpl| FireworksImpl::val(x)),
    {
        let c = match tag {
            NbtTag::Compound(c) => c,
            _ => {
                return None;
            },
        };
        let flight_duration: i32 = match c.get("flight_duration") {
            Some(NbtTag::Byte(v)) => *v as i32,
            Some(NbtTag::Int(v)) => *v,
            _ => 1,
        };
        let mut explosions: Vec<FireworkExplosionImpl> = Vec::new();
        let ghost tags = list_at(c@, "explosions"@);
        assert(vals::<FireworkExplosionImpl>(explosions@) =~= explosions_from(tags, 0));
        match c.get_list("explosions") {
            Some(l) => {
                assert(tags == tags_of(l@));
                let mut i: usize = 0;
                while i < l.len()
                    invariant
                        i <= l.len(),
                        tags == tags_of(l@),
                        vals::<FireworkExplosionImpl>(explosions@) == explosions_from(tags, i as nat),
                    decreases l.len() - i,
                {
                    assert(tags[i as int] == l@[i as int]@);
                    match FireworkExplosionImpl::read_data(&l[i]) {
                        Some(x) => {
                            let ghost before = vals::<FireworkExplosionImpl>(explosions@);
                            let ghost v = FireworkExplosionImpl::val(x);
                            explosions.push(x);
                            assert(vals::<FireworkExplosionImpl>(explosions@) =~= before.push(v));
                        },
                        None => {},
                    }
                    i += 1;
                }
            },
            None => {},
        }
        Some(FireworksImpl { flight_duration, explosions })
    }

    /// The tag that describes the value.
    pub fn write_data(&self) -> (r: NbtTag)
        ensures
            r@ == fireworks_tag(FireworksImpl::val(*self)),
    {
        let explosions = make_all::<ExplosionTag>(&self.explosions);
        assert(tags_of(explosions@) =~= explosion_tags(vals::<FireworkExplosionImpl>(self.explosions@)));
        let mut c = NbtCompound::new();
        c.put_int("flight_duration", self.flight_duration);
        c.put_list("explosions", explosions);
        NbtTag::Compound(c)
    }
}

/// The text under a key.
fn get_text_at(c: &NbtCompound, key: &str) -> (r: Option<String>)
    ensures
        opt_text_val(r) == opt_text_at(c@, key@),
{
    match c.get_string(key) {
        Some(t) => Some(t.clone()),
        None => None,
    }
}

/// The properties of a profile that a list of tags describes.
fn read_properties(l: &Vec<NbtTag>) -> (r: Vec<ProfileProperty>)
    ensures
        vals::<ProfileProperty>(r@) == properties_from(tags_of(l@), l@.len()),
{
    let ghost tags = tags_of(l@);
    let mut out: Vec<ProfileProperty> = Vec::new();
    assert(vals::<ProfileProperty>(out@) =~= properties_from(tags, 0));
    let mut i: usize = 0;
    while i < l.len()
        invariant
            i <= l.len(),
            tags == tags_of(l@),
            vals::<ProfileProperty>(out@) == properties_from(tags, i as nat),
        decreases l.len() - i,
    {
        assert(tags[i as int] == l@[i as int]@);
        match &l[i] {
            NbtTag::Compound(c) => match (c.get_string("name"), c.get_string("value")) {
                (Some(name), Some(value)) => {
                    let property = ProfileProperty {
                        name: name.clone(),
                        value: value.clone(),
                        signature: get_text_at(c, "signature"),
                    };
                    let ghost before = vals::<ProfileProperty>(out@);
                    let ghost v = ProfileProperty::val(property);
                    out.push(property);
                    assert(vals::<ProfileProperty>(out@) =~= before.push(v));
                },
                _ => {},
            },
            _ => {},
        }
        i += 1;
    }
    out
}

/// Properties of a profile.
struct PropertyTag;

impl Tagged for PropertyTag {
    type Codec = ProfileProperty;

    open spec fn tag(v: Val) -> Tag {
        property_tag(v)
    }

    fn make(v: &ProfileProperty) -> (r: NbtTag) {
        let mut c = NbtCompound::new();
        c.put_string("name", v.name.clone());
        c.put_string("value", v.value.clone());
        put_text_if(&mut c, "signature", &v.signature);
        NbtTag::Compound(c)
    }
}

/// Sets a key to a text, where it is not absent.
fn put_text_if(c: &mut NbtCompound, key: &str, t: &Option<String>)
    ensures
        final(c)@ == with_text(old(c)@, key@, opt_text_val(*t)),
{
    match t {
        Some(t) => c.put_string(key, t.clone()),
        None => {},
    }
}

impl ProfileImpl {
    /// The value that a tag describes: a name, or everything that is known.
    pub fn read_data(data: &NbtTag) -> (r: Option<Self>)
        ensures
            stores(profile_from(data@), r, |x: ProfileImpl| ProfileImpl::val(x)),
    {
        match data {
            NbtTag::String(name) => {
                let properties: Vec<ProfileProperty> = Vec::new();
                assert(vals::<ProfileProperty>(properties@) =~= Seq::<Val>::empty());
                Some(
                    ProfileImpl {
                        name: Some(name.clone()),
                        id: None,
                        properties,
                        texture: None,
                        cape: None,
                        elytra: None,
                        model: None,
                    },
                )
            },
            NbtTag::Compound(c) => {
                let name = get_text_at(c, "name");
                let ids = get_ints(c, "id");
                let id: Option<[i32; 4]> = if ids.len() == 4 {
                    Some([ids[0], ids[1], ids[2], ids[3]])
                } else {
                    None
                };
                assert(ids@.len() == ints_at(c@, "id"@).len());
                assert(ids@.len() == 4 ==> ids@[0] == ints_at(c@, "id"@)[0] && ids@[1] == ints_at(c@, "id"@)[1] && ids@[2]
                    == ints_at(c@, "id"@)[2] && ids@[3] == ints_at(c@, "id"@)[3]);
                let properties: Vec<ProfileProperty> = match c.get_list("properties") {
                    Some(l) => read_properties(l),
                    None => Vec::new(),
                };
                assert(vals::<ProfileProperty>(properties@) =~= properties_from(
                    list_at(c@, "properties"@),
                    list_at(c@, "properties"@).len(),
                ));
                let texture = get_text_at(c, "texture");
                let cape = get_text_at(c, "cape");
                let elytra = get_text_at(c, "elytra");
                let model = get_text_at(c, "model");
                Some(ProfileImpl { name, id, properties, texture, cape, elytra, model })
            },
            _ => None,
        }
    }

    /// The tag that describes the value.
    pub fn write_data(&self) -> (r: NbtTag)
        ensures
            r@ == profile_tag(ProfileImpl::val(*self)),
    {
        let mut c = NbtCompound::new();
        put_text_if(&mut c, "name", &self.name);
        match &self.id {
            Some(id) => {
                let numbers: Vec<i32> = vec![id[0], id[1], id[2], id[3]];
                assert(ints32(numbers@) =~= seq![id@[0] as int, id@[1] as int, id@[2] as int, id@[3] as int]);
                c.put("id", NbtTag::IntArray(numbers));
            },
            None => {},
        }
        if self.properties.len() > 0 {
            let properties = make_all::<PropertyTag>(&self.properties);
            assert(tags_of(properties@) =~= property_tags(vals::<ProfileProperty>(self.properties@)));
            c.put_list("properties", properties);
        }
        assert(c@ == profile_head(ProfileImpl::val(*self)));
        put_text_if(&mut c, "texture", &self.texture);
        put_text_if(&mut c, "cape", &self.cape);
        put_text_if(&mut c, "elytra", &self.elytra);
        put_text_if(&mut c, "model", &self.model);
        NbtTag::Compound(c)
    }
}

impl JukeboxPlayableImpl {
    /// The value that a tag describes: a song that is known.
    pub fn read_data(data: &NbtTag, regs: &Registries) -> (r: Option<Self>)
        ensures
            stores(song_from(*regs, data@), r, |x: JukeboxPlayableImpl| JukeboxPlayableImpl::val(x)),
    {
        match data {
            NbtTag::Compound(c) => match c.get_string("song") {
                Some(s) => {
                    let name = strip_namespace(s.as_str());
                    match position_of(&regs.songs, name.as_str()) {
                        Some(_) => Some(JukeboxPlayableImpl { song: concat("minecraft:", name.as_str()) }),
                        None => None,
                    }
                },
                None => None,
            },
            _ => None,
        }
    }

    /// The tag that describes the value.
    pub fn write_data(&self) -> (r: NbtTag)
        ensures
            r@ == Tag::Compound(with_entry(Seq::empty(), "song"@, Tag::String("minecraft:"@ + bare_name(self.song@)))),
    {
        let mut c = NbtCompound::new();
        c.put_string("song", concat("minecraft:", strip_namespace(self.song.as_str()).as_str()));
        NbtTag::Compound(c)
    }
}

} // verus!
