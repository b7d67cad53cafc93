//! Checksums of components and stacks.
use vstd::prelude::*;
use vstd::utf8::encode_utf8;
use crate::basic::{BaseColorImpl, CustomDataImpl, CustomNameImpl, DamageImpl, ItemModelImpl, ItemNameImpl, MaxStackSizeImpl, NoteBlockSoundImpl, RarityImpl, TooltipStyleImpl};
use crate::block_entity::BlockStateImpl;
use crate::bytes::{i32_of_u32, put_slice, to_signed, to_unsigned, u32_of_i32};
use crate::codec::{vals, AsI32, AsText, Both, DataComponentCodec};
use crate::coded::CodedComponent;
use crate::components::{value_kind, value_val, ComponentValue};
use crate::data_component::{component_id, DataComponent};
use crate::elements::opt_text_val;
use crate::format::{pair, plain_text, ComponentVal, PatchVal, StackVal, Val};
use crate::hash::{custom_data_hash_compound, digest, digest_of, get_i32_hash, get_str_hash, int_hash, le_bytes, lemma_placed_len, place_after, placed_after, put_le, tag_hash, text_hash};
use crate::item_stack::{component_val, entry_val, group_stack_vals, patch_val, slot_vals, stack_val, ContainerImpl, ItemStack, SulfurCubeContentImpl};
use crate::nested_stored::find_last;
use crate::persist::{as_bits, as_bool, as_int, as_list, as_nbt, as_text, canonical, first, second, text_less};
use crate::same::{double_bits, float_bits, float_pattern, float_zero, key_of, last_place, slot_of};
use crate::sorted::comes_before;
use crate::stored::{decoration_val, decoration_vals, decorations_at, text_pairs, DebugStickStateImpl, MapDecorationsImpl};
use crate::utility::{firework_explosion_shape_id, DyedColorImpl, FireworkExplosionImpl, FireworksImpl, MapIdImpl, ProfileImpl, ProfileProperty};

verus! {

broadcast use group_stack_vals;

/// A checksum as a signed number.
pub open spec fn signed(h: u32) -> int {
    to_signed(h as nat, 4)
}

/// The bit pattern of a floating-point number, with both zeros folded into one and every value that
/// is not a number into another.
pub open spec fn canonical_bits(n: nat, bits: int) -> int {
    if float_zero(n, bits) {
        0
    } else {
        float_pattern(n, bits)
    }
}

/// What the checksum of a marker is taken of.
pub open spec fn decoration_bytes(v: Val) -> Seq<u8> {
    let e = second(v);
    le_bytes(text_hash(key_of(v)) as nat, 4) + le_bytes(text_hash(as_text(first(e))) as nat, 4) + le_bytes(
        canonical_bits(8, as_bits(first(second(e)))) as nat,
        8,
    ) + le_bytes(canonical_bits(8, as_bits(first(second(second(e))))) as nat, 8) + le_bytes(
        canonical_bits(4, as_bits(second(second(second(e))))) as nat,
        4,
    )
}

/// What the checksum of the first `n` markers is taken of.
pub open spec fn decorations_bytes(l: Seq<Val>, n: nat) -> Seq<u8>
    decreases n,
{
    if n == 0 || n > l.len() {
        Seq::empty()
    } else {
        decorations_bytes(l, (n - 1) as nat) + decoration_bytes(l[n - 1])
    }
}

/// The checksums of the first `n` numbers, one behind the other.
pub open spec fn ints_bytes(l: Seq<Val>, n: nat) -> Seq<u8>
    decreases n,
{
    if n == 0 || n > l.len() {
        Seq::empty()
    } else {
        ints_bytes(l, (n - 1) as nat) + le_bytes(int_hash(as_int(l[n - 1])) as nat, 4)
    }
}

/// A flag as a byte.
pub open spec fn flag_byte(b: bool) -> u8 {
    if b {
        1
    } else {
        0
    }
}

/// The checksum of an explosion of a firework.
pub open spec fn explosion_hash(v: Val) -> int {
    let colors = as_list(first(second(v)));
    let fades = as_list(first(second(second(v))));
    let flags = second(second(second(v)));
    digest_of(
        seq![2u8, as_int(first(v)) as u8] + ints_bytes(colors, colors.len()) + seq![3u8] + ints_bytes(fades, fades.len()) + seq![
            4u8,
            flag_byte(as_bool(first(flags))),
            flag_byte(as_bool(second(flags))),
        ],
    )
}

/// The checksums of the first `n` explosions, one behind the other.
pub open spec fn explosions_bytes(l: Seq<Val>, n: nat) -> Seq<u8>
    decreases n,
{
    if n == 0 || n > l.len() {
        Seq::empty()
    } else {
        explosions_bytes(l, (n - 1) as nat) + le_bytes(int_hash(explosion_hash(l[n - 1])) as nat, 4)
    }
}

/// The checksum of a firework.
pub open spec fn fireworks_hash(v: Val) -> int {
    let l = as_list(second(v));
    digest_of(seq![2u8] + le_bytes(int_hash(as_int(first(v))) as nat, 4) + explosions_bytes(l, l.len()) + seq![3u8])
}

/// A mark and the checksum of a text, where there is one.
pub open spec fn marked_text(mark: u8, v: Val) -> Seq<u8> {
    match v {
        Val::Present(t) => seq![mark] + le_bytes(text_hash(as_text(*t)) as nat, 4),
        _ => Seq::empty(),
    }
}

/// A mark and the checksums of the four numbers of an identifier, where there is one.
pub open spec fn marked_id(v: Val) -> Seq<u8> {
    match v {
        Val::Present(id) => seq![2u8] + le_bytes(int_hash(as_int(first(*id))) as nat, 4) + le_bytes(
            int_hash(as_int(first(second(*id)))) as nat,
            4,
        ) + le_bytes(int_hash(as_int(first(second(second(*id))))) as nat, 4) + le_bytes(
            int_hash(as_int(second(second(second(*id))))) as nat,
            4,
        ),
        _ => Seq::empty(),
    }
}

/// What the checksum of a property of a profile is taken of.
pub open spec fn property_bytes(v: Val) -> Seq<u8> {
    le_bytes(text_hash(as_text(first(v))) as nat, 4) + le_bytes(text_hash(as_text(first(second(v)))) as nat, 4) + match second(
        second(v),
    ) {
        Val::Present(t) => seq![1u8] + le_bytes(text_hash(as_text(*t)) as nat, 4),
        _ => seq![0u8],
    }
}

/// What the checksum of the first `n` properties is taken of.
pub open spec fn properties_bytes(l: Seq<Val>, n: nat) -> Seq<u8>
    decreases n,
{
    if n == 0 || n > l.len() {
        Seq::empty()
    } else {
        properties_bytes(l, (n - 1) as nat) + property_bytes(l[n - 1])
    }
}

/// A mark and the properties of a profile, where there are any.
pub open spec fn marked_properties(l: Seq<Val>) -> Seq<u8> {
    if l.len() == 0 {
        Seq::empty()
    } else {
        seq![3u8] + properties_bytes(l, l.len())
    }
}

/// The checksum of a profile.
pub open spec fn profile_hash(v: Val) -> int {
    let looks = second(second(v));
    digest_of(
        marked_text(1, first(first(v))) + marked_id(second(first(v))) + marked_properties(as_list(first(second(v)))) + marked_text(
            4,
            first(looks),
        ) + marked_text(5, first(second(looks))) + marked_text(6, first(second(second(looks)))) + marked_text(
            7,
            second(second(second(looks))),
        ),
    )
}

/// The first `n` pairs of texts, each text with a zero behind it.
pub open spec fn ended_pairs(l: Seq<Val>, n: nat) -> Seq<u8>
    decreases n,
{
    if n == 0 || n > l.len() {
        Seq::empty()
    } else {
        ended_pairs(l, (n - 1) as nat) + encode_utf8(as_text(first(l[n - 1]))) + seq![0u8] + encode_utf8(
            as_text(second(l[n - 1])),
        ) + seq![0u8]
    }
}

/// The first `n` pairs of texts, one behind the other.
pub open spec fn joined_pairs(l: Seq<Val>, n: nat) -> Seq<u8>
    decreases n,
{
    if n == 0 || n > l.len() {
        Seq::empty()
    } else {
        joined_pairs(l, (n - 1) as nat) + encode_utf8(as_text(first(l[n - 1]))) + encode_utf8(as_text(second(l[n - 1])))
    }
}

/// A list in the order of its keys, with a value put behind all whose keys are not above its own.
pub open spec fn keyed_after(l: Seq<Val>, v: Val) -> Seq<Val>
    decreases l.len(),
{
    if l.len() == 0 {
        seq![v]
    } else if !text_less(key_of(v), key_of(l.last())) {
        l.push(v)
    } else {
        keyed_after(l.drop_last(), v).push(l.last())
    }
}

/// The first `n` values in the order of their keys; those with the same key stay in their order.
pub open spec fn in_key_order(l: Seq<Val>, n: nat) -> Seq<Val>
    decreases n,
{
    if n == 0 || n > l.len() {
        Seq::empty()
    } else {
        keyed_after(in_key_order(l, (n - 1) as nat), l[n - 1])
    }
}

/// The checksum of a value that holds no stack. The component types named here have a checksum of
/// their own; that of every other type is zero.
pub open spec fn flat_hash(k: DataComponent, v: Val) -> int {
    match k {
        DataComponent::CustomData => signed(tag_hash(as_nbt(v))),
        DataComponent::MaxStackSize | DataComponent::Damage | DataComponent::DyedColor | DataComponent::MapId | DataComponent::Rarity => signed(
            int_hash(as_int(v)),
        ),
        DataComponent::CustomName | DataComponent::ItemName => signed(text_hash(plain_text(as_nbt(v)))),
        DataComponent::ItemModel | DataComponent::TooltipStyle | DataComponent::NoteBlockSound | DataComponent::BaseColor => signed(
            text_hash(as_text(v)),
        ),
        DataComponent::MapDecorations => {
            let l = canonical(as_list(v), as_list(v).len());
            digest_of(seq![13u8] + decorations_bytes(l, l.len()))
        },
        DataComponent::FireworkExplosion => explosion_hash(v),
        DataComponent::Fireworks => fireworks_hash(v),
        DataComponent::Profile => profile_hash(v),
        DataComponent::DebugStickState => digest_of(ended_pairs(as_list(v), as_list(v).len())),
        DataComponent::BlockState => {
            let l = in_key_order(as_list(v), as_list(v).len());
            digest_of(joined_pairs(l, as_list(v).len()))
        },
        _ => 0,
    }
}

/// The checksum of a value.
pub open spec fn component_hash(c: ComponentVal) -> int
    decreases c, 2nat,
{
    match c.kind {
        DataComponent::Container => match c.val {
            Val::List(l) => digest_of(slot_bytes(slot_hashes(l, l.len()), l.len())),
            _ => 0,
        },
        DataComponent::SulfurCubeContent => match c.val {
            Val::Stack(s) => stack_hash(s),
            _ => 0,
        },
        _ => flat_hash(c.kind, c.val),
    }
}

/// The checksum of the stack in a slot.
pub open spec fn slot_hash(v: Val) -> int
    decreases v, 1nat,
{
    match v {
        Val::Pair(_, b) => match *b {
            Val::Stack(s) => stack_hash(s),
            _ => 0,
        },
        _ => 0,
    }
}

/// The checksums of the first `n` stacks in a container, in the order of their slots.
pub open spec fn slot_hashes(l: Seq<Val>, n: nat) -> Seq<(u64, i32)>
    decreases l, n,
{
    if n == 0 || n > l.len() {
        Seq::empty()
    } else {
        placed_after(slot_hashes(l, (n - 1) as nat), (slot_of(l[n - 1]) as u64, slot_hash(l[n - 1]) as i32))
    }
}

/// The first `n` slots and checksums, one behind the other.
pub open spec fn slot_bytes(l: Seq<(u64, i32)>, n: nat) -> Seq<u8>
    decreases n,
{
    if n == 0 || n > l.len() {
        Seq::empty()
    } else {
        slot_bytes(l, (n - 1) as nat) + seq![l[n - 1].0 as u8] + le_bytes(to_unsigned(l[n - 1].1 as int, 4), 4)
    }
}

/// The checksums of the components for which the first `n` entries of a patch have one, in the order
/// of their numbers; the last entry for a component counts.
pub open spec fn patch_hashes(p: PatchVal, n: nat) -> Seq<(u64, (bool, i32))>
    decreases p, n,
{
    if n == 0 || n > p.len() {
        Seq::empty()
    } else if last_place(p, p[n - 1].0, (n - 1) as nat) is Some {
        patch_hashes(p, (n - 1) as nat)
    } else {
        match last_place(p, p[n - 1].0, p.len()) {
            Some(j) => if 0 <= j < p.len() {
                placed_after(
                    patch_hashes(p, (n - 1) as nat),
                    (
                        component_id(p[n - 1].0) as u64,
                        match p[j].1 {
                            Some(c) => (true, component_hash(c) as i32),
                            None => (false, 0i32),
                        },
                    ),
                )
            } else {
                patch_hashes(p, (n - 1) as nat)
            },
            None => patch_hashes(p, (n - 1) as nat),
        }
    }
}

/// The first `n` components, flags and checksums, one behind the other.
pub open spec fn patch_bytes(l: Seq<(u64, (bool, i32))>, n: nat) -> Seq<u8>
    decreases n,
{
    if n == 0 || n > l.len() {
        Seq::empty()
    } else {
        patch_bytes(l, (n - 1) as nat) + seq![l[n - 1].0 as u8, flag_byte(l[n - 1].1.0)] + le_bytes(
            to_unsigned(l[n - 1].1.1 as int, 4),
            4,
        )
    }
}

/// The checksum of a stack.
pub open spec fn stack_hash(s: StackVal) -> int
    decreases s, 0nat,
{
    let l = patch_hashes(s.patch, s.patch.len());
    digest_of(le_bytes(s.item.id as nat, 2) + seq![s.count as u8] + patch_bytes(l, l.len()))
}

/// Appends the checksum of a text.
fn put_text_hash(out: &mut Vec<u8>, t: &str)
    ensures
        final(out)@ == old(out)@ + le_bytes(text_hash(t@) as nat, 4),
{
    put_le(out, get_str_hash(t) as u64, 4);
}

/// Appends the checksum of a number.
fn put_int_hash(out: &mut Vec<u8>, v: i32)
    ensures
        final(out)@ == old(out)@ + le_bytes(int_hash(v as int) as nat, 4),
{
    put_le(out, get_i32_hash(v) as u64, 4);
}

/// Appends the checksums of numbers.
fn put_int_hashes(out: &mut Vec<u8>, v: &Vec<i32>)
    ensures
        final(out)@ == old(out)@ + ints_bytes(vals::<AsI32>(v@), v@.len()),
{
    let ghost l = vals::<AsI32>(v@);
    assert(out@ =~= old(out)@ + ints_bytes(l, 0));
    let mut i: usize = 0;
    while i < v.len()
        invariant
            i <= v.len(),
            l == vals::<AsI32>(v@),
            out@ == old(out)@ + ints_bytes(l, i as nat),
        decreases v.len() - i,
    {
        put_int_hash(out, v[i]);
        assert(l[i as int] == Val::Int(v@[i as int] as int));
        assert(out@ =~= old(out)@ + ints_bytes(l, (i + 1) as nat));
        i += 1;
    }
}

/// Appends a mark and the checksum of a text, where there is one.
fn put_marked_text(out: &mut Vec<u8>, mark: u8, t: &Option<String>)
    ensures
        final(out)@ == old(out)@ + marked_text(mark, opt_text_val(*t)),
{
    match t {
        Some(t) => {
            out.push(mark);
            put_text_hash(out, t.as_str());
            assert(out@ =~= old(out)@ + (seq![mark] + le_bytes(text_hash(t@) as nat, 4)));
        },
        None => {
            assert(out@ =~= old(out)@ + Seq::<u8>::empty());
        },
    }
}

/// Appends what the checksum of a property of a profile is taken of.
fn put_property(out: &mut Vec<u8>, p: &ProfileProperty)
    ensures
        final(out)@ == old(out)@ + property_bytes(ProfileProperty::val(*p)),
{
    put_text_hash(out, p.name.as_str());
    put_text_hash(out, p.value.as_str());
    match &p.signature {
        Some(t) => {
            out.push(1);
            put_text_hash(out, t.as_str());
        },
        None => {
            out.push(0);
        },
    }
    assert(out@ =~= old(out)@ + property_bytes(ProfileProperty::val(*p)));
}

/// Appends a mark and the properties of a profile, where there are any.
fn put_properties(out: &mut Vec<u8>, v: &Vec<ProfileProperty>)
    ensures
        final(out)@ == old(out)@ + marked_properties(vals::<ProfileProperty>(v@)),
{
    let ghost l = vals::<ProfileProperty>(v@);
    if v.len() == 0 {
        assert(out@ =~= old(out)@ + marked_properties(l));
        return;
    }
    out.push(3);
    let mut i: usize = 0;
    assert(out@ =~= old(out)@ + (seq![3u8] + properties_bytes(l, 0)));
    while i < v.len()
        invariant
            i <= v.len(),
            l == vals::<ProfileProperty>(v@),
            out@ == old(out)@ + (seq![3u8] + properties_bytes(l, i as nat)),
        decreases v.len() - i,
    {
        put_property(out, &v[i]);
        assert(out@ =~= old(out)@ + (seq![3u8] + properties_bytes(l, (i + 1) as nat)));
        i += 1;
    }
}

impl CustomDataImpl {
    /// The checksum of the data, whatever the order of its entries.
    pub fn get_hash(&self) -> (r: i32)
        ensures
            r == flat_hash(DataComponent::CustomData, Self::val(*self)),
    {
        i32_of_u32(custom_data_hash_compound(&self.data))
    }
}

impl MaxStackSizeImpl {
    /// The checksum of the size.
    pub fn get_hash(&self) -> (r: i32)
        ensures
            r == flat_hash(DataComponent::MaxStackSize, Self::val(*self)),
    {
        i32_of_u32(get_i32_hash(self.size as i32))
    }
}

impl DamageImpl {
    /// The checksum of the damage.
    pub fn get_hash(&self) -> (r: i32)
        ensures
            r == flat_hash(DataComponent::Damage, Self::val(*self)),
    {
        i32_of_u32(get_i32_hash(self.damage))
    }
}

impl DyedColorImpl {
    /// The checksum of the colour.
    pub fn get_hash(&self) -> (r: i32)
        ensures
            r == flat_hash(DataComponent::DyedColor, Self::val(*self)),
    {
        i32_of_u32(get_i32_hash(self.rgb))
    }
}

impl MapIdImpl {
    /// The checksum of the number.
    pub fn get_hash(&self) -> (r: i32)
        ensures
            r == flat_hash(DataComponent::MapId, Self::val(*self)),
    {
        i32_of_u32(get_i32_hash(self.id))
    }
}

impl RarityImpl {
    /// The checksum of the number of the rarity.
    pub fn get_hash(&self) -> (r: i32)
        ensures
            r == flat_hash(DataComponent::Rarity, Self::val(*self)),
    {
        i32_of_u32(get_i32_hash(self.rarity.to_id()))
    }
}

impl CustomNameImpl {
    /// The checksum of the plain text.
    pub fn get_hash(&self) -> (r: i32)
        ensures
            r == flat_hash(DataComponent::CustomName, Self::val(*self)),
    {
        i32_of_u32(get_str_hash(self.name.get_text().as_str()))
    }
}

impl ItemNameImpl {
    /// The checksum of the translation key or the plain text.
    pub fn get_hash(&self) -> (r: i32)
        ensures
            r == flat_hash(DataComponent::ItemName, Self::val(*self)),
    {
        i32_of_u32(get_str_hash(self.name.as_component().get_text().as_str()))
    }
}

impl ItemModelImpl {
    /// The checksum of the name of the model.
    pub fn get_hash(&self) -> (r: i32)
        ensures
            r == flat_hash(DataComponent::ItemModel, Self::val(*self)),
    {
        i32_of_u32(get_str_hash(self.id.as_str()))
    }
}

impl TooltipStyleImpl {
    /// The checksum of the name of the style.
    pub fn get_hash(&self) -> (r: i32)
        ensures
            r == flat_hash(DataComponent::TooltipStyle, Self::val(*self)),
    {
        i32_of_u32(get_str_hash(self.id.as_str()))
    }
}

impl NoteBlockSoundImpl {
    /// The checksum of the name of the sound.
    pub fn get_hash(&self) -> (r: i32)
        ensures
            r == flat_hash(DataComponent::NoteBlockSound, Self::val(*self)),
    {
        i32_of_u32(get_str_hash(self.sound.as_str()))
    }
}

impl BaseColorImpl {
    /// The checksum of the name of the colour.
    pub fn get_hash(&self) -> (r: i32)
        ensures
            r == flat_hash(DataComponent::BaseColor, Self::val(*self)),
    {
        i32_of_u32(get_str_hash(self.color.as_str()))
    }
}

impl FireworkExplosionImpl {
    /// The checksum of the explosion.
    pub fn get_hash(&self) -> (r: i32)
        ensures
            r == flat_hash(DataComponent::FireworkExplosion, Self::val(*self)),
            r == explosion_hash(Self::val(*self)),
    {
        let mut all: Vec<u8> = Vec::new();
        all.push(2);
        all.push(self.shape.to_id() as u8);
        put_int_hashes(&mut all, &self.colors);
        all.push(3);
        put_int_hashes(&mut all, &self.fade_colors);
        all.push(4);
        all.push(if self.has_trail { 1 } else { 0 });
        all.push(if self.has_twinkle { 1 } else { 0 });
        proof {
            let colors = vals::<AsI32>(self.colors@);
            let fades = vals::<AsI32>(self.fade_colors@);
            assert(all@ =~= seq![2u8, firework_explosion_shape_id(self.shape) as u8] + ints_bytes(colors, colors.len()) + seq![3u8]
                + ints_bytes(fades, fades.len()) + seq![4u8, flag_byte(self.has_trail), flag_byte(self.has_twinkle)]);
        }
        digest(all.as_slice())
    }
}

impl FireworksImpl {
    /// The checksum of the flight duration and the explosions.
    pub fn get_hash(&self) -> (r: i32)
        ensures
            r == flat_hash(DataComponent::Fireworks, Self::val(*self)),
    {
        let ghost l = vals::<FireworkExplosionImpl>(self.explosions@);
        let mut all: Vec<u8> = Vec::new();
        all.push(2);
        put_int_hash(&mut all, self.flight_duration);
        let ghost head = all@;
        assert(all@ =~= head + explosions_bytes(l, 0));
        let mut i: usize = 0;
        while i < self.explosions.len()
            invariant
                i <= self.explosions.len(),
                l == vals::<FireworkExplosionImpl>(self.explosions@),
                all@ == head + explosions_bytes(l, i as nat),
            decreases self.explosions.len() - i,
        {
            put_int_hash(&mut all, self.explosions[i].get_hash());
            assert(l[i as int] == FireworkExplosionImpl::val(self.explosions@[i as int]));
            assert(all@ =~= head + explosions_bytes(l, (i + 1) as nat));
            i += 1;
        }
        all.push(3);
        assert(all@ =~= seq![2u8] + le_bytes(int_hash(self.flight_duration as int) as nat, 4) + explosions_bytes(l, l.len()) + seq![3u8]);
        digest(all.as_slice())
    }
}

impl ProfileImpl {
    /// The checksum of what the profile holds.
    pub fn get_hash(&self) -> (r: i32)
        ensures
            r == flat_hash(DataComponent::Profile, Self::val(*self)),
    {
        let ghost v = Self::val(*self);
        let mut all: Vec<u8> = Vec::new();
        put_marked_text(&mut all, 1, &self.name);
        let ghost a = all@;
        assert(a =~= marked_text(1, first(first(v))));
        match &self.id {
            Some(id) => {
                all.push(2);
                put_int_hash(&mut all, id[0]);
                put_int_hash(&mut all, id[1]);
                put_int_hash(&mut all, id[2]);
                put_int_hash(&mut all, id[3]);
            },
            None => {},
        }
        let ghost b = all@;
        assert(b =~= a + marked_id(second(first(v))));
        put_properties(&mut all, &self.properties);
        put_marked_text(&mut all, 4, &self.texture);
        put_marked_text(&mut all, 5, &self.cape);
        put_marked_text(&mut all, 6, &self.elytra);
        put_marked_text(&mut all, 7, &self.model);
        digest(all.as_slice())
    }
}

impl DebugStickStateImpl {
    /// The checksum of the properties.
    pub fn get_hash(&self) -> (r: i32)
        ensures
            r == flat_hash(DataComponent::DebugStickState, Val::List(text_pairs(self.properties@))),
    {
        let ghost l = text_pairs(self.properties@);
        let mut all: Vec<u8> = Vec::new();
        assert(all@ =~= ended_pairs(l, 0));
        let mut i: usize = 0;
        while i < self.properties.len()
            invariant
                i <= self.properties.len(),
                l == text_pairs(self.properties@),
                all@ == ended_pairs(l, i as nat),
            decreases self.properties.len() - i,
        {
            let ghost before = all@;
            put_slice(&mut all, self.properties[i].0.as_str().as_bytes());
            all.push(0);
            put_slice(&mut all, self.properties[i].1.as_str().as_bytes());
            all.push(0);
            assert(l[i as int] == pair(Val::Text(self.properties@[i as int].0@), Val::Text(self.properties@[i as int].1@)));
            assert(all@ =~= ended_pairs(l, (i + 1) as nat));
            i += 1;
        }
        digest(all.as_slice())
    }
}

/// The bit pattern of a 64-bit number, with both zeros folded into one.
fn canonical_f64_bits(bits: u64) -> (r: u64)
    ensures
        r == canonical_bits(8, bits as int),
{
    if bits % 0x8000_0000_0000_0000 == 0 {
        0
    } else {
        double_bits(bits)
    }
}

/// The bit pattern of a 32-bit number, with both zeros folded into one.
fn canonical_f32_bits(bits: u32) -> (r: u32)
    ensures
        r == canonical_bits(4, bits as int),
{
    if bits % 0x8000_0000 == 0 {
        0
    } else {
        float_bits(bits)
    }
}

impl MapDecorationsImpl {
    /// The checksum of the markers, whatever their order; the last one with a name counts.
    #[verifier::rlimit(60)]
    pub fn get_hash(&self) -> (r: i32)
        ensures
            r == flat_hash(DataComponent::MapDecorations, Val::List(decoration_vals(self.decorations@))),
    {
        let places = self.canonical_entries();
        let ghost l = decorations_at(self.decorations@, places@);
        let mut all: Vec<u8> = Vec::new();
        all.push(13);
        assert(all@ =~= seq![13u8] + decorations_bytes(l, 0));
        let mut i: usize = 0;
        while i < places.len()
            invariant
                i <= places.len(),
                l == decorations_at(self.decorations@, places@),
                forall|j: int| 0 <= j < places@.len() ==> (#[trigger] places@[j]) < self.decorations@.len(),
                all@ == seq![13u8] + decorations_bytes(l, i as nat),
            decreases places.len() - i,
        {
            let place: usize = places[i];
            let e = &self.decorations[place].1;
            assert(l[i as int] == decoration_val(self.decorations@[place as int].0@, *e));
            put_text_hash(&mut all, self.decorations[place].0.as_str());
            put_text_hash(&mut all, e.decoration_type.as_str());
            put_le(&mut all, canonical_f64_bits(e.x), 8);
            put_le(&mut all, canonical_f64_bits(e.z), 8);
            put_le(&mut all, canonical_f32_bits(e.rotation) as u64, 4);
            assert(all@ =~= seq![13u8] + decorations_bytes(l, (i + 1) as nat));
            i += 1;
        }
        digest(all.as_slice())
    }
}

/// The pairs at some places.
spec fn pairs_at(v: Seq<(String, String)>, places: Seq<usize>) -> Seq<Val> {
    Seq::new(places.len(), |i: int| text_pairs(v)[places[i] as int])
}

/// Puts the place of a pair into a list of places that is in the order of their keys.
fn place_pair(v: &Vec<(String, String)>, places: &mut Vec<usize>, i: usize)
    requires
        i < v@.len(),
        forall|j: int| 0 <= j < old(places)@.len() ==> (#[trigger] old(places)@[j]) < v@.len(),
    ensures
        pairs_at(v@, final(places)@) == keyed_after(pairs_at(v@, old(places)@), text_pairs(v@)[i as int]),
        forall|j: int| 0 <= j < final(places)@.len() ==> (#[trigger] final(places)@[j]) < v@.len(),
        final(places)@.len() == old(places)@.len() + 1,
{
    let ghost l = pairs_at(v@, places@);
    let ghost e = text_pairs(v@)[i as int];
    let mut j: usize = places.len();
    assert(l.take(l.len() as int) =~= l);
    assert(keyed_after(l, e) + l.skip(l.len() as int) =~= keyed_after(l, e));
    while j > 0 && comes_before(v[i].0.as_str(), v[places[j - 1]].0.as_str())
        invariant
            i < v@.len(),
            j <= places@.len(),
            places@ == old(places)@,
            l == pairs_at(v@, places@),
            e == text_pairs(v@)[i as int],
            forall|j: int| 0 <= j < places@.len() ==> (#[trigger] places@[j]) < v@.len(),
            keyed_after(l, e) == keyed_after(l.take(j as int), e) + l.skip(j as int),
        decreases j,
    {
        let ghost head = l.take(j as int);
        assert(head.last() == l[j - 1]);
        assert(key_of(l[j - 1]) == v@[places@[j - 1] as int].0@);
        assert(head.drop_last() =~= l.take(j - 1));
        assert(keyed_after(l.take(j - 1), e).push(l[j - 1]) + l.skip(j as int) =~= keyed_after(l.take(j - 1), e) + l.skip(j - 1));
        j -= 1;
    }
    proof {
        let head = l.take(j as int);
        if j > 0 {
            assert(head.last() == l[j - 1]);
            assert(key_of(l[j - 1]) == v@[places@[j - 1] as int].0@);
            assert(keyed_after(head, e) == head.push(e));
        } else {
            assert(keyed_after(head, e) == seq![e]);
        }
        assert(keyed_after(head, e) + l.skip(j as int) =~= l.insert(j as int, e));
    }
    places.insert(j, i);
    assert(pairs_at(v@, places@) =~= l.insert(j as int, e));
}

impl BlockStateImpl {
    /// The checksum of the properties in the order of their names.
    pub fn get_hash(&self) -> (r: i32)
        ensures
            r == flat_hash(DataComponent::BlockState, Self::val(*self)),
    {
        let ghost all_pairs = text_pairs(self.properties@);
        assert(vals::<Both<AsText, AsText>>(self.properties@) =~= all_pairs);
        let n: usize = self.properties.len();
        let mut places: Vec<usize> = Vec::new();
        assert(pairs_at(self.properties@, places@) =~= in_key_order(all_pairs, 0));
        let mut i: usize = 0;
        while i < n
            invariant
                i <= n,
                n == self.properties@.len(),
                places@.len() == i,
                all_pairs == text_pairs(self.properties@),
                forall|j: int| 0 <= j < places@.len() ==> (#[trigger] places@[j]) < self.properties@.len(),
                pairs_at(self.properties@, places@) == in_key_order(all_pairs, i as nat),
            decreases n - i,
        {
            place_pair(&self.properties, &mut places, i);
            i += 1;
        }
        let ghost l = pairs_at(self.properties@, places@);
        let mut all: Vec<u8> = Vec::new();
        assert(all@ =~= joined_pairs(l, 0));
        let mut k: usize = 0;
        while k < n
            invariant
                k <= n,
                n == places@.len(),
                l == pairs_at(self.properties@, places@),
                forall|j: int| 0 <= j < places@.len() ==> (#[trigger] places@[j]) < self.properties@.len(),
                all@ == joined_pairs(l, k as nat),
            decreases n - k,
        {
            let place: usize = places[k];
            assert(l[k as int] == pair(
                Val::Text(self.properties@[place as int].0@),
                Val::Text(self.properties@[place as int].1@),
            ));
            put_slice(&mut all, self.properties[place].0.as_str().as_bytes());
            put_slice(&mut all, self.properties[place].1.as_str().as_bytes());
            assert(all@ =~= joined_pairs(l, (k + 1) as nat));
            k += 1;
        }
        digest(all.as_slice())
    }
}

proof fn lemma_hashed_values(a: ComponentValue)
    ensures
        match a {
            ComponentValue::MapDecorations(x) => value_val(a) == Val::List(decoration_vals(x.decorations@)),
            ComponentValue::DebugStickState(x) => value_val(a) == Val::List(text_pairs(x.properties@)),
            ComponentValue::SulfurCubeContent(x) => value_val(a) == Val::Stack(stack_val(x.absorbed_block_item_stack)),
            ComponentValue::Container(x) => value_val(a) == Val::List(slot_vals(x.items@, x.items@.len())),
            _ => true,
        },
{
    reveal(value_val);
}

/// The checksum of a value that holds no stack.
#[verifier::rlimit(60)]
fn get_flat_hash(value: &ComponentValue) -> (r: i32)
    requires
        value_kind(*value) != DataComponent::Container && value_kind(*value) != DataComponent::SulfurCubeContent,
    ensures
        r == component_hash(component_val(*value)),
{
    proof {
        lemma_hashed_values(*value);
    }
    match value {
        ComponentValue::CustomData(v) => {
            proof {
                CustomDataImpl::lemma_value(*v);
            }
            v.get_hash()
        },
        ComponentValue::MaxStackSize(v) => {
            proof {
                MaxStackSizeImpl::lemma_value(*v);
            }
            v.get_hash()
        },
        ComponentValue::Damage(v) => {
            proof {
                DamageImpl::lemma_value(*v);
            }
            v.get_hash()
        },
        ComponentValue::DyedColor(v) => {
            proof {
                DyedColorImpl::lemma_value(*v);
            }
            v.get_hash()
        },
        ComponentValue::MapId(v) => {
            proof {
                MapIdImpl::lemma_value(*v);
            }
            v.get_hash()
        },
        ComponentValue::Rarity(v) => {
            proof {
                RarityImpl::lemma_value(*v);
            }
            v.get_hash()
        },
        ComponentValue::CustomName(v) => {
            proof {
                CustomNameImpl::lemma_value(*v);
            }
            v.get_hash()
        },
        ComponentValue::ItemName(v) => {
            proof {
                ItemNameImpl::lemma_value(*v);
            }
            v.get_hash()
        },
        ComponentValue::ItemModel(v) => {
            proof {
                ItemModelImpl::lemma_value(*v);
            }
            v.get_hash()
        },
        ComponentValue::TooltipStyle(v) => {
            proof {
                TooltipStyleImpl::lemma_value(*v);
            }
            v.get_hash()
        },
        ComponentValue::NoteBlockSound(v) => {
            proof {
                NoteBlockSoundImpl::lemma_value(*v);
            }
            v.get_hash()
        },
        ComponentValue::BaseColor(v) => {
            proof {
                BaseColorImpl::lemma_value(*v);
            }
            v.get_hash()
        },
        ComponentValue::FireworkExplosion(v) => {
            proof {
                FireworkExplosionImpl::lemma_value(*v);
            }
            v.get_hash()
        },
        ComponentValue::Fireworks(v) => {
            proof {
                FireworksImpl::lemma_value(*v);
            }
            v.get_hash()
        },
        ComponentValue::Profile(v) => {
            proof {
                ProfileImpl::lemma_value(*v);
            }
            v.get_hash()
        },
        ComponentValue::BlockState(v) => {
            proof {
                BlockStateImpl::lemma_value(*v);
            }
            v.get_hash()
        },
        ComponentValue::MapDecorations(v) => v.get_hash(),
        ComponentValue::DebugStickState(v) => v.get_hash(),
        _ => 0,
    }
}

/// The checksum of a value.
pub fn get_hash(value: &ComponentValue) -> (r: i32)
    ensures
        r == component_hash(component_val(*value)),
    decreases *value, 3nat,
{
    proof {
        lemma_hashed_values(*value);
    }
    match value {
        ComponentValue::Container(v) => v.get_hash(),
        ComponentValue::SulfurCubeContent(v) => v.get_hash(),
        _ => get_flat_hash(value),
    }
}

impl SulfurCubeContentImpl {
    /// The checksum of the stack.
    pub fn get_hash(&self) -> (r: i32)
        ensures
            r == stack_hash(stack_val(self.absorbed_block_item_stack)),
        decreases *self, 2nat,
    {
        self.absorbed_block_item_stack.get_hash()
    }
}

impl ContainerImpl {
    /// The checksum of the stacks in the order of their slots.
    pub fn get_hash(&self) -> (r: i32)
        ensures
            r == digest_of(
                slot_bytes(slot_hashes(slot_vals(self.items@, self.items@.len()), self.items@.len()), self.items@.len()),
            ),
        decreases *self, 2nat,
    {
        let ghost l = slot_vals(self.items@, self.items@.len());
        let mut slots: Vec<(u64, i32)> = Vec::new();
        assert(slots@ =~= slot_hashes(l, 0));
        let mut i: usize = 0;
        while i < self.items.len()
            invariant
                i <= self.items.len(),
                l == slot_vals(self.items@, self.items@.len()),
                slots@ == slot_hashes(l, i as nat),
                slots@.len() == i,
            decreases self.items.len() - i,
        {
            assert(l[i as int] == pair(Val::Int(self.items@[i as int].0 as int), Val::Stack(stack_val(self.items@[i as int].1))));
            assert(decreases_to!(*self => self.items@[i as int].1));
            let h: i32 = self.items[i].1.get_hash();
            assert(slot_hash(l[i as int]) == h);
            let e: (u64, i32) = (self.items[i].0 as u64, h);
            proof {
                lemma_placed_len(slots@, e);
            }
            place_after(&mut slots, e);
            i += 1;
        }
        let mut all: Vec<u8> = Vec::new();
        assert(all@ =~= slot_bytes(slots@, 0));
        let mut k: usize = 0;
        while k < slots.len()
            invariant
                k <= slots.len(),
                all@ == slot_bytes(slots@, k as nat),
            decreases slots.len() - k,
        {
            all.push((slots[k].0 % 256) as u8);
            put_le(&mut all, u32_of_i32(slots[k].1) as u64, 4);
            proof {
                let x: u64 = slots@[k as int].0;
                assert((x % 256) as u8 == x as u8) by (bit_vector);
            }
            assert(all@ =~= slot_bytes(slots@, (k + 1) as nat));
            k += 1;
        }
        digest(all.as_slice())
    }
}

impl ItemStack {
    /// The checksum of the stack.
    pub fn get_hash(&self) -> (r: i32)
        ensures
            r == stack_hash(self@),
        decreases *self, 1nat,
    {
        let ghost p = patch_val(self.patch@);
        let n: usize = self.patch.len();
        let mut values: Vec<(u64, (bool, i32))> = Vec::new();
        assert(values@ =~= patch_hashes(p, 0));
        let mut i: usize = 0;
        while i < n
            invariant
                i <= n,
                n == self.patch@.len(),
                p == patch_val(self.patch@),
                values@ == patch_hashes(p, i as nat),
            decreases n - i,
        {
            assert(p[i as int] == entry_val(self.patch@[i as int]));
            let id = self.patch[i].0;
            if find_last(&self.patch, id, i).is_none() {
                match find_last(&self.patch, id, n) {
                    Some(j) => {
                        assert(p[j as int] == entry_val(self.patch@[j as int]));
                        let value: (bool, i32) = match &self.patch[j].1 {
                            Some(v) => {
                                assert(decreases_to!(*self => self.patch@[j as int].1));
                                (true, get_hash(v))
                            },
                            None => (false, 0),
                        };
                        place_after(&mut values, (id.to_id() as u64, value));
                    },
                    None => {},
                }
            }
            i += 1;
        }
        let mut all: Vec<u8> = Vec::new();
        put_le(&mut all, self.item.id as u64, 2);
        all.push(self.item_count);
        let ghost head = all@;
        assert(head =~= le_bytes(self.item.id as nat, 2) + seq![self.item_count]);
        assert(all@ =~= head + patch_bytes(values@, 0));
        let mut k: usize = 0;
        while k < values.len()
            invariant
                k <= values.len(),
                all@ == head + patch_bytes(values@, k as nat),
            decreases values.len() - k,
        {
            all.push((values[k].0 % 256) as u8);
            all.push(if values[k].1.0 { 1 } else { 0 });
            put_le(&mut all, u32_of_i32(values[k].1.1) as u64, 4);
            proof {
                let x: u64 = values@[k as int].0;
                assert((x % 256) as u8 == x as u8) by (bit_vector);
            }
            assert(all@ =~= head + patch_bytes(values@, (k + 1) as nat));
            k += 1;
        }
        digest(all.as_slice())
    }
}

} // verus!
