//! Components that are sent in the form in which they are stored.
use vstd::prelude::*;
use crate::block_stored::put_pairs;
use crate::codec::{vals, AsText, Both, DataComponentCodec};
use crate::format::{pair, Val};
use crate::identifier::{identifier_of, parse_identifier, strip_prefix};
use crate::nbt_tag::{lemma_entry_views, lemma_tag_views, tags_of, NbtCompound, NbtTag, Tag};
use crate::persist::{canonical, decoration_entries, decoration_from, decorations_from, loot_from, loot_tag, pair_entries, recipes_from, sorted_put, stick_from, text_tags, Entries};
use crate::registry::{position_of, Registries};
use crate::sorted::{find_place, keys_are, placed, Place};
use crate::tag_lists::{make_all, stores, TextTag};
use crate::tag_numbers::{nbt_long, nbt_number_as_f32, nbt_number_as_f64};
use crate::text::concat;

verus! {

broadcast use {lemma_tag_views, lemma_entry_views};

/// Marks a projectile that cannot be picked up.
#[derive(Clone, Copy, Debug, PartialEq, Eq)]
pub struct IntangibleProjectileImpl;

pub open spec fn intangible_projectile_val(v: IntangibleProjectileImpl) -> Val {
    Val::Unit
}

/// A marker on a map.
#[derive(Debug, PartialEq)]
pub struct MapDecorationEntry {
    /// The type, as an identifier.
    pub decoration_type: String,
    /// The place, as the bit pattern of a 64-bit floating-point number.
    pub x: u64,
    /// The place, as the bit pattern of a 64-bit floating-point number.
    pub z: u64,
    /// The rotation, as the bit pattern of a 32-bit floating-point number.
    pub rotation: u32,
}

/// The markers on a map.
#[derive(Debug)]
pub struct MapDecorationsImpl {
    pub decorations: Vec<(String, MapDecorationEntry)>,
}

/// What a marker is to its format.
pub open spec fn decoration_val(key: Seq<char>, e: MapDecorationEntry) -> Val {
    pair(
        Val::Text(key),
        pair(
            Val::Text(e.decoration_type@),
            pair(Val::Float(8, e.x as nat), pair(Val::Float(8, e.z as nat), Val::Float(4, e.rotation as nat))),
        ),
    )
}

/// What the markers of a list are to their format.
pub open spec fn decoration_vals(v: Seq<(String, MapDecorationEntry)>) -> Seq<Val> {
    Seq::new(v.len(), |i: int| decoration_val(v[i].0@, v[i].1))
}

pub open spec fn map_decorations_val(v: MapDecorationsImpl) -> Val {
    Val::List(decoration_vals(v.decorations@))
}

/// The property that a debug stick changes of each block, in the order of the block names.
#[derive(Debug, PartialEq)]
pub struct DebugStickStateImpl {
    pub properties: Vec<(String, String)>,
}

/// What the pairs of a list are to their format.
pub open spec fn text_pairs(v: Seq<(String, String)>) -> Seq<Val> {
    Seq::new(v.len(), |i: int| pair(Val::Text(v[i].0@), Val::Text(v[i].1@)))
}

pub open spec fn debug_stick_state_val(v: DebugStickStateImpl) -> Val {
    Val::List(text_pairs(v.properties@))
}

/// The recipes that a knowledge book teaches.
#[derive(Debug, PartialEq)]
pub struct RecipesImpl {
    pub recipes: Vec<String>,
}

/// What the texts of a list are to their format.
pub open spec fn text_vals(v: Seq<String>) -> Seq<Val> {
    Seq::new(v.len(), |i: int| Val::Text(v[i]@))
}

pub open spec fn recipes_val(v: RecipesImpl) -> Val {
    Val::List(text_vals(v.recipes@))
}

/// The loot that a container is filled with when it is opened.
#[derive(Debug, PartialEq)]
pub struct ContainerLootImpl {
    pub loot_table: String,
    pub seed: i64,
}

pub open spec fn container_loot_val(v: ContainerLootImpl) -> Val {
    pair(Val::Text(v.loot_table@), Val::Int(v.seed as int))
}

impl IntangibleProjectileImpl {
    /// The value that a tag describes: any compound will do.
    pub fn read_data(data: &NbtTag) -> (r: Option<Self>)
        ensures
            r is Some == (data@ is Compound),
    {
        match data {
            NbtTag::Compound(_) => Some(IntangibleProjectileImpl),
            _ => None,
        }
    }

    /// The tag that describes the value.
    pub fn write_data(&self) -> (r: NbtTag)
        ensures
            r@ == Tag::Compound(Seq::empty()),
    {
        NbtTag::Compound(NbtCompound::new())
    }
}

impl ContainerLootImpl {
    /// The value that a tag describes.
    pub fn read_data(data: &NbtTag) -> (r: Option<Self>)
        ensures
            stores(loot_from(data@), r, |x: ContainerLootImpl| container_loot_val(x)),
    {
        let c = match data {
            NbtTag::Compound(c) => c,
            _ => {
                return None;
            },
        };
        let loot_table = match c.get_string("loot_table") {
            None => {
                return None;
            },
            Some(s) => match parse_identifier(s.as_str()) {
                None => {
                    return None;
                },
                Some(id) => id,
            },
        };
        let seed: i64 = match c.get("seed") {
            None => 0,
            Some(t) => match nbt_long(t) {
                None => {
                    return None;
                },
                Some(v) => v,
            },
        };
        Some(ContainerLootImpl { loot_table, seed })
    }

    /// The tag that describes the value.
    pub fn write_data(&self) -> (r: NbtTag)
        ensures
            r@ == loot_tag(container_loot_val(*self)),
    {
        let mut c = NbtCompound::new();
        c.put_string("loot_table", self.loot_table.clone());
        if self.seed != 0 {
            c.put_long("seed", self.seed);
        }
        NbtTag::Compound(c)
    }
}

proof fn lemma_recipes_none(l: Seq<Tag>, i: nat, n: nat)
    requires
        i < n <= l.len(),
        match l[i as int] {
            Tag::String(s) => identifier_of(s) is None,
            _ => true,
        },
    ensures
        recipes_from(l, n) is None,
    decreases n,
{
    if i + 1 < n {
        lemma_recipes_none(l, i, (n - 1) as nat);
    }
}

impl RecipesImpl {
    /// The value that a tag describes: a list of identifiers.
    pub fn read_data(data: &NbtTag) -> (r: Option<Self>)
        ensures
            match data@ {
                Tag::List(l) => match r {
                    Some(x) => recipes_from(l, l.len()) == Some(text_vals(x.recipes@)),
                    None => recipes_from(l, l.len()) is None,
                },
                _ => r is None,
            },
    {
        let l = match data {
            NbtTag::List(l) => l,
            _ => {
                return None;
            },
        };
        let ghost tags = tags_of(l@);
        let mut recipes: Vec<String> = Vec::new();
        assert(text_vals(recipes@) =~= Seq::<Val>::empty());
        let mut i: usize = 0;
        while i < l.len()
            invariant
                i <= l.len(),
                tags == tags_of(l@),
                data@ == Tag::List(tags),
                recipes_from(tags, i as nat) == Some(text_vals(recipes@)),
            decreases l.len() - i,
        {
            assert(tags[i as int] == l@[i as int]@);
            let id: Option<String> = match &l[i] {
                NbtTag::String(s) => parse_identifier(s.as_str()),
                _ => None,
            };
            match id {
                Some(id) => {
                    let ghost before = text_vals(recipes@);
                    let ghost v = Val::Text(id@);
                    recipes.push(id);
                    assert(text_vals(recipes@) =~= before.push(v));
                },
                None => {
                    proof {
                        lemma_recipes_none(tags, i as nat, tags.len());
                    }
                    return None;
                },
            }
            i += 1;
        }
        Some(RecipesImpl { recipes })
    }

    /// The tag that describes the value.
    pub fn write_data(&self) -> (r: NbtTag)
        ensures
            r@ == Tag::List(text_tags(text_vals(self.recipes@))),
    {
        let tags = make_all::<TextTag>(&self.recipes);
        assert(tags_of(tags@) =~= text_tags(text_vals(self.recipes@)));
        NbtTag::List(tags)
    }
}

/// The marker that a tag describes.
fn read_decoration(key: &str, t: &NbtTag) -> (r: Option<MapDecorationEntry>)
    ensures
        match r {
            Some(e) => decoration_from(key@, t@) == Some(decoration_val(key@, e)),
            None => decoration_from(key@, t@) is None,
        },
{
    let c = match t {
        NbtTag::Compound(c) => c,
        _ => {
            return None;
        },
    };
    match (c.get_string("type"), c.get("x"), c.get("z"), c.get("rotation")) {
        (Some(kind), Some(x), Some(z), Some(rotation)) => match (
            parse_identifier(kind.as_str()),
            nbt_number_as_f64(x),
            nbt_number_as_f64(z),
            nbt_number_as_f32(rotation),
        ) {
            (Some(decoration_type), Some(x), Some(z), Some(rotation)) => Some(
                MapDecorationEntry { decoration_type, x, z, rotation },
            ),
            _ => None,
        },
        _ => None,
    }
}

proof fn lemma_decorations_none(c: Entries, i: nat, n: nat)
    requires
        i < n <= c.len(),
        decoration_from(c[i as int].0, c[i as int].1) is None,
    ensures
        decorations_from(c, n) is None,
    decreases n,
{
    if i + 1 < n {
        lemma_decorations_none(c, i, (n - 1) as nat);
    }
}

/// The values of the markers of `v` at these places.
pub open spec fn decorations_at(v: Seq<(String, MapDecorationEntry)>, places: Seq<usize>) -> Seq<Val> {
    Seq::new(places.len(), |i: int| decoration_val(v[places[i] as int].0@, v[places[i] as int].1))
}

impl MapDecorationsImpl {
    /// No markers.
    pub fn new() -> (r: Self)
        ensures
            r.decorations@ == Seq::<(String, MapDecorationEntry)>::empty(),
    {
        MapDecorationsImpl { decorations: Vec::new() }
    }

    /// The places of the markers in the order of their names; the last one with a name counts.
    pub fn canonical_entries(&self) -> (r: Vec<usize>)
        ensures
            forall|i: int| 0 <= i < r@.len() ==> (#[trigger] r@[i]) < self.decorations@.len(),
            decorations_at(self.decorations@, r@) == canonical(
                decoration_vals(self.decorations@),
                self.decorations@.len(),
            ),
    {
        let ghost all = decoration_vals(self.decorations@);
        let mut places: Vec<usize> = Vec::new();
        let mut keys: Vec<String> = Vec::new();
        assert(decorations_at(self.decorations@, places@) =~= canonical(all, 0));
        let mut i: usize = 0;
        while i < self.decorations.len()
            invariant
                i <= self.decorations.len(),
                all == decoration_vals(self.decorations@),
                forall|j: int| 0 <= j < places@.len() ==> (#[trigger] places@[j]) < self.decorations@.len(),
                decorations_at(self.decorations@, places@) == canonical(all, i as nat),
                keys_are(keys@, decorations_at(self.decorations@, places@)),
            decreases self.decorations.len() - i,
        {
            let ghost l = decorations_at(self.decorations@, places@);
            let ghost v = all[i as int];
            assert(v == decoration_val(self.decorations@[i as int].0@, self.decorations@[i as int].1));
            let key = self.decorations[i].0.clone();
            let place = find_place(&keys, key.as_str(), Ghost(l), Ghost(v));
            match place {
                Place::Before(j) => {
                    places.insert(j, i);
                    keys.insert(j, key);
                },
                Place::Instead(j) => {
                    places.set(j, i);
                    keys.set(j, key);
                },
            }
            assert(decorations_at(self.decorations@, places@) =~= placed(l, v, place));
            i += 1;
        }
        places
    }

    /// The value that a tag describes.
    pub fn read_data(data: &NbtTag) -> (r: Option<Self>)
        ensures
            match data@ {
                Tag::Compound(c) => match r {
                    Some(x) => decorations_from(c, c.len()) == Some(decoration_vals(x.decorations@)),
                    None => decorations_from(c, c.len()) is None,
                },
                _ => r is None,
            },
    {
        let c = match data {
            NbtTag::Compound(c) => c,
            _ => {
                return None;
            },
        };
        let mut decorations: Vec<(String, MapDecorationEntry)> = Vec::new();
        assert(decoration_vals(decorations@) =~= Seq::<Val>::empty());
        let mut i: usize = 0;
        while i < c.child_tags.len()
            invariant
                i <= c.child_tags.len(),
                c@.len() == c.child_tags@.len(),
                data@ == Tag::Compound(c@),
                decorations_from(c@, i as nat) == Some(decoration_vals(decorations@)),
            decreases c.child_tags.len() - i,
        {
            assert(c@[i as int] == (c.child_tags@[i as int].0@, c.child_tags@[i as int].1@));
            let key = c.child_tags[i].0.clone();
            match read_decoration(key.as_str(), &c.child_tags[i].1) {
                Some(e) => {
                    let ghost before = decoration_vals(decorations@);
                    let ghost v = decoration_val(key@, e);
                    decorations.push((key, e));
                    assert(decoration_vals(decorations@) =~= before.push(v));
                },
                None => {
                    proof {
                        lemma_decorations_none(c@, i as nat, c@.len());
                    }
                    return None;
                },
            }
            i += 1;
        }
        Some(MapDecorationsImpl { decorations })
    }

    /// The tag that describes the value, with the markers in the order of their names.
    pub fn write_data(&self) -> (r: NbtTag)
        ensures
            r@ == Tag::Compound(
                decoration_entries(
                    canonical(decoration_vals(self.decorations@), self.decorations@.len()),
                    0,
                    Seq::empty(),
                ),
            ),
    {
        let places = self.canonical_entries();
        let ghost l = decorations_at(self.decorations@, places@);
        let ghost target = decoration_entries(l, 0, Seq::empty());
        let mut root = NbtCompound::new();
        let mut i: usize = 0;
        while i < places.len()
            invariant
                i <= places.len(),
                l == decorations_at(self.decorations@, places@),
                forall|j: int| 0 <= j < places@.len() ==> (#[trigger] places@[j]) < self.decorations@.len(),
                target == decoration_entries(l, i as int, root@),
            decreases places.len() - i,
        {
            let place: usize = places[i];
            let e: &MapDecorationEntry = &self.decorations[place].1;
            assert(l[i as int] == decoration_val(self.decorations@[place as int].0@, *e));
            let mut c = NbtCompound::new();
            c.put_string("type", e.decoration_type.clone());
            c.put_double("x", e.x);
            c.put_double("z", e.z);
            c.put_float("rotation", e.rotation);
            root.put_compound(self.decorations[place].0.as_str(), c);
            i += 1;
        }
        NbtTag::Compound(root)
    }
}

proof fn lemma_stick_none(regs: Registries, c: Entries, i: nat, n: nat)
    requires
        i < n <= c.len(),
        stick_from(regs, c, i + 1) is None,
    ensures
        stick_from(regs, c, n) is None,
    decreases n,
{
    if i + 1 < n {
        lemma_stick_none(regs, c, i, (n - 1) as nat);
    }
}

/// The keys of a list of pairs of texts.
fn keys_of(v: &Vec<(String, String)>) -> (r: Vec<String>)
    ensures
        keys_are(r@, text_pairs(v@)),
{
    let mut keys: Vec<String> = Vec::new();
    let mut i: usize = 0;
    while i < v.len()
        invariant
            i <= v.len(),
            keys@.len() == i,
            forall|j: int| 0 <= j < i ==> (#[trigger] keys@[j])@ == v@[j].0@,
        decreases v.len() - i,
    {
        keys.push(v[i].0.clone());
        i += 1;
    }
    keys
}

impl DebugStickStateImpl {
    /// Sets the property that is changed of a block; the blocks stay in the order of their names.
    pub fn set_property(&mut self, block: String, property: String)
        ensures
            text_pairs(final(self).properties@) == sorted_put(
                text_pairs(old(self).properties@),
                pair(Val::Text(block@), Val::Text(property@)),
            ),
    {
        let ghost l = text_pairs(self.properties@);
        let ghost v = pair(Val::Text(block@), Val::Text(property@));
        let keys = keys_of(&self.properties);
        let place = find_place(&keys, block.as_str(), Ghost(l), Ghost(v));
        match place {
            Place::Before(i) => {
                self.properties.insert(i, (block, property));
            },
            Place::Instead(i) => {
                self.properties.set(i, (block, property));
            },
        }
        assert(text_pairs(self.properties@) =~= placed(l, v, place));
    }

    /// The value that a tag describes: for known blocks, one of their properties.
    pub fn read_data(data: &NbtTag, regs: &Registries) -> (r: Option<Self>)
        ensures
            match data@ {
                Tag::Compound(c) => match r {
                    Some(x) => stick_from(*regs, c, c.len()) == Some(text_pairs(x.properties@)),
                    None => stick_from(*regs, c, c.len()) is None,
                },
                _ => r is None,
            },
    {
        let c = match data {
            NbtTag::Compound(c) => c,
            _ => {
                return None;
            },
        };
        let mut state = DebugStickStateImpl { properties: Vec::new() };
        assert(text_pairs(state.properties@) =~= Seq::<Val>::empty());
        let mut i: usize = 0;
        while i < c.child_tags.len()
            invariant
                i <= c.child_tags.len(),
                c@.len() == c.child_tags@.len(),
                data@ == Tag::Compound(c@),
                stick_from(*regs, c@, i as nat) == Some(text_pairs(state.properties@)),
            decreases c.child_tags.len() - i,
        {
            assert(c@[i as int] == (c.child_tags@[i as int].0@, c.child_tags@[i as int].1@));
            let mut known: bool = false;
            match &c.child_tags[i].1 {
                NbtTag::String(property) => match strip_prefix(c.child_tags[i].0.as_str(), "minecraft:") {
                    Some(path) => match regs.block_position(path.as_str()) {
                        Some(b) => {
                            if position_of(&regs.blocks[b].properties, property.as_str()).is_some() {
                                state.set_property(concat("minecraft:", regs.blocks[b].name.as_str()), property.clone());
                                known = true;
                            }
                        },
                        None => {},
                    },
                    None => {},
                },
                _ => {},
            }
            if !known {
                proof {
                    assert(stick_from(*regs, c@, (i + 1) as nat) is None);
                    lemma_stick_none(*regs, c@, i as nat, c@.len());
                }
                return None;
            }
            i += 1;
        }
        Some(state)
    }

    /// The tag that describes the value.
    pub fn write_data(&self) -> (r: NbtTag)
        ensures
            r@ == Tag::Compound(pair_entries(text_pairs(self.properties@), 0, Seq::empty())),
    {
        assert(text_pairs(self.properties@) =~= vals::<Both<AsText, AsText>>(self.properties@));
        NbtTag::Compound(put_pairs(&self.properties))
    }
}

} // verus!
