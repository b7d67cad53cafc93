//! Components of tools, maps, fireworks and the like.
use vstd::prelude::*;
use crate::codec::{count_as_i32, AsBool, AsI32, AsText, AsVarInt, Coded, Context, DataComponentCodec, ListOf, ListRule, Numbered, Opt, RawCount};
use crate::elements::{block_pos_val, equal_opt_ids, equal_opt_texts, opt_id_val, opt_text_val, put_profile_head, AsBlockPos, AsProfileHead, BlockPos};
use crate::errors::{cannot_write_name, message, message_value, ReadingError, WritingError};
use crate::format::{optional, pair, read_val, write_val, Blame, Check, CountRule, Format, Limit, Val};
use crate::identifier::strip_namespace;
use crate::registry::position_of;
use crate::text::concat;
use crate::registry::Registries;
use crate::same::val_same;
use crate::text::same_text;
use crate::wire::{count_of, get_var_int};

verus! {

/// Marks an item that is a dye.
#[derive(Clone, Copy, Debug, PartialEq, Eq)]
pub struct DyeImpl;

impl DataComponentCodec for DyeImpl {
    type Value = DyeImpl;

    open spec fn format() -> Format {
        Format::Fixed(Box::new(<AsVarInt as DataComponentCodec>::format()), Box::new(Val::Int(0)), Box::new(Val::Unit))
    }

    open spec fn val(v: DyeImpl) -> Val {
        Val::Unit
    }

    fn deserialize(seq: &mut &[u8], ctx: &Context) -> (r: Result<DyeImpl, ReadingError>) {
        proof {
            reveal(read_val);
        }
        <AsVarInt as DataComponentCodec>::deserialize(seq, ctx)?;
        Ok(DyeImpl)
    }

    fn serialize(value: &DyeImpl, out: &mut Vec<u8>, ctx: &Context) -> (r: Result<(), WritingError>) {
        proof {
            reveal(write_val);
        }
        let written: i32 = 0;
        <AsVarInt as DataComponentCodec>::serialize(&written, out, ctx)
    }

    fn equal(a: &DyeImpl, b: &DyeImpl) -> (r: bool) {
        true
    }
}

/// The colour that an item was dyed in.
#[derive(Debug, PartialEq)]
pub struct DyedColorImpl {
    pub rgb: i32,
}

impl DataComponentCodec for DyedColorImpl {
    type Value = DyedColorImpl;

    open spec fn format() -> Format {
        AsI32::format()
    }

    open spec fn val(v: DyedColorImpl) -> Val {
        AsI32::val(v.rgb)
    }

    fn deserialize(seq: &mut &[u8], ctx: &Context) -> (r: Result<DyedColorImpl, ReadingError>) {
        let rgb = AsI32::deserialize(seq, ctx)?;
        Ok(DyedColorImpl { rgb })
    }

    fn serialize(value: &DyedColorImpl, out: &mut Vec<u8>, ctx: &Context) -> (r: Result<(), WritingError>) {
        AsI32::serialize(&value.rgb, out, ctx)
    }

    fn equal(a: &DyedColorImpl, b: &DyedColorImpl) -> (r: bool) {
        AsI32::equal(&a.rgb, &b.rgb)
    }
}

/// Marks a map with a colour of its own.
#[derive(Clone, Copy, Debug, PartialEq, Eq)]
pub struct MapColorImpl;

impl DataComponentCodec for MapColorImpl {
    type Value = MapColorImpl;

    open spec fn format() -> Format {
        Format::Fixed(Box::new(<AsI32 as DataComponentCodec>::format()), Box::new(Val::Int(0)), Box::new(Val::Unit))
    }

    open spec fn val(v: MapColorImpl) -> Val {
        Val::Unit
    }

    fn deserialize(seq: &mut &[u8], ctx: &Context) -> (r: Result<MapColorImpl, ReadingError>) {
        proof {
            reveal(read_val);
        }
        <AsI32 as DataComponentCodec>::deserialize(seq, ctx)?;
        Ok(MapColorImpl)
    }

    fn serialize(value: &MapColorImpl, out: &mut Vec<u8>, ctx: &Context) -> (r: Result<(), WritingError>) {
        proof {
            reveal(write_val);
        }
        let written: i32 = 0;
        <AsI32 as DataComponentCodec>::serialize(&written, out, ctx)
    }

    fn equal(a: &MapColorImpl, b: &MapColorImpl) -> (r: bool) {
        true
    }
}

/// The number of a map.
#[derive(Debug, PartialEq)]
pub struct MapIdImpl {
    pub id: i32,
}

impl DataComponentCodec for MapIdImpl {
    type Value = MapIdImpl;

    open spec fn format() -> Format {
        AsVarInt::format()
    }

    open spec fn val(v: MapIdImpl) -> Val {
        AsVarInt::val(v.id)
    }

    fn deserialize(seq: &mut &[u8], ctx: &Context) -> (r: Result<MapIdImpl, ReadingError>) {
        let id = AsVarInt::deserialize(seq, ctx)?;
        Ok(MapIdImpl { id })
    }

    fn serialize(value: &MapIdImpl, out: &mut Vec<u8>, ctx: &Context) -> (r: Result<(), WritingError>) {
        AsVarInt::serialize(&value.id, out, ctx)
    }

    fn equal(a: &MapIdImpl, b: &MapIdImpl) -> (r: bool) {
        AsVarInt::equal(&a.id, &b.id)
    }
}

/// How a map is processed.
#[derive(Clone, Copy, Debug, PartialEq, Eq, Structural)]
pub enum MapPostProcessing {
    Lock,
    Scale,
}

/// What the processing of a map is to its format.
pub open spec fn processing_val(v: Option<MapPostProcessing>) -> Val {
    match v {
        Some(MapPostProcessing::Lock) => optional(Some(Val::Int(0))),
        Some(MapPostProcessing::Scale) => optional(Some(Val::Int(1))),
        None => Val::Absent,
    }
}

/// How a map is processed, by its number.
pub struct AsProcessing;

impl Numbered for AsProcessing {
    type Value = Option<MapPostProcessing>;

    open spec fn check() -> Check {
        Check::MapProcessing
    }

    open spec fn val(v: Option<MapPostProcessing>) -> Val {
        processing_val(v)
    }

    fn decode(regs: &Registries, v: i32) -> (r: Result<Option<MapPostProcessing>, ReadingError>) {
        match v {
            0 => Ok(Some(MapPostProcessing::Lock)),
            1 => Ok(Some(MapPostProcessing::Scale)),
            _ => Ok(None),
        }
    }

    fn encode(regs: &Registries, value: &Option<MapPostProcessing>) -> (r: Result<i32, WritingError>) {
        match value {
            Some(MapPostProcessing::Scale) => Ok(1),
            _ => Ok(0),
        }
    }

    fn alike(a: &Option<MapPostProcessing>, b: &Option<MapPostProcessing>) -> (r: bool) {
        proof {
            reveal_with_fuel(val_same, 2);
        }
        match (a, b) {
            (Some(x), Some(y)) => *x == *y,
            (None, None) => true,
            _ => false,
        }
    }
}

/// How a map is processed when it is crafted.
#[derive(Debug, PartialEq)]
pub struct MapPostProcessingImpl {
    pub processing: Option<MapPostProcessing>,
}

impl DataComponentCodec for MapPostProcessingImpl {
    type Value = MapPostProcessingImpl;

    open spec fn format() -> Format {
        <Coded<AsProcessing> as DataComponentCodec>::format()
    }

    open spec fn val(v: MapPostProcessingImpl) -> Val {
        <Coded<AsProcessing> as DataComponentCodec>::val(v.processing)
    }

    fn deserialize(seq: &mut &[u8], ctx: &Context) -> (r: Result<MapPostProcessingImpl, ReadingError>) {
        let processing = <Coded<AsProcessing> as DataComponentCodec>::deserialize(seq, ctx)?;
        Ok(MapPostProcessingImpl { processing })
    }

    fn serialize(value: &MapPostProcessingImpl, out: &mut Vec<u8>, ctx: &Context) -> (r: Result<(), WritingError>) {
        <Coded<AsProcessing> as DataComponentCodec>::serialize(&value.processing, out, ctx)
    }

    fn equal(a: &MapPostProcessingImpl, b: &MapPostProcessingImpl) -> (r: bool) {
        <Coded<AsProcessing> as DataComponentCodec>::equal(&a.processing, &b.processing)
    }
}

/// The dimension and the position that a lodestone compass points to.
#[derive(Debug, PartialEq)]
pub struct LodestoneTarget {
    pub dimension: String,
    pub x: i32,
    pub y: i32,
    pub z: i32,
}

impl DataComponentCodec for LodestoneTarget {
    type Value = LodestoneTarget;

    open spec fn format() -> Format {
        Format::Pair(Box::new(AsText::format()), Box::new(AsBlockPos::format()))
    }

    open spec fn val(v: LodestoneTarget) -> Val {
        pair(Val::Text(v.dimension@), block_pos_val(BlockPos { x: v.x, y: v.y, z: v.z }))
    }

    fn deserialize(seq: &mut &[u8], ctx: &Context) -> (r: Result<LodestoneTarget, ReadingError>) {
        proof {
            reveal(read_val);
        }
        let dimension = AsText::deserialize(seq, ctx)?;
        let pos = AsBlockPos::deserialize(seq, ctx)?;
        Ok(LodestoneTarget { dimension, x: pos.x, y: pos.y, z: pos.z })
    }

    fn serialize(value: &LodestoneTarget, out: &mut Vec<u8>, ctx: &Context) -> (r: Result<(), WritingError>) {
        proof {
            reveal(write_val);
        }
        AsText::serialize(&value.dimension, out, ctx)?;
        AsBlockPos::serialize(&BlockPos { x: value.x, y: value.y, z: value.z }, out, ctx)
    }

    fn equal(a: &LodestoneTarget, b: &LodestoneTarget) -> (r: bool) {
        proof {
            reveal_with_fuel(val_same, 4);
        }
        same_text(a.dimension.as_str(), b.dimension.as_str()) && a.x == b.x && a.y == b.y && a.z == b.z
    }
}

/// What a lodestone compass points to, and whether it keeps track of it.
#[derive(Debug, PartialEq)]
pub struct LodestoneTrackerImpl {
    pub target: Option<LodestoneTarget>,
    pub is_tracked: bool,
}

impl DataComponentCodec for LodestoneTrackerImpl {
    type Value = LodestoneTrackerImpl;

    open spec fn format() -> Format {
        Format::Pair(Box::new(<Opt<LodestoneTarget> as DataComponentCodec>::format()), Box::new(AsBool::format()))
    }

    open spec fn val(v: LodestoneTrackerImpl) -> Val {
        pair(<Opt<LodestoneTarget> as DataComponentCodec>::val(v.target), AsBool::val(v.is_tracked))
    }

    fn deserialize(seq: &mut &[u8], ctx: &Context) -> (r: Result<LodestoneTrackerImpl, ReadingError>) {
        proof {
            reveal_with_fuel(read_val, 2);
        }
        let target = <Opt<LodestoneTarget> as DataComponentCodec>::deserialize(seq, ctx)?;
        let is_tracked = AsBool::deserialize(seq, ctx)?;
        Ok(LodestoneTrackerImpl { target, is_tracked })
    }

    fn serialize(value: &LodestoneTrackerImpl, out: &mut Vec<u8>, ctx: &Context) -> (r: Result<(), WritingError>) {
        proof {
            reveal_with_fuel(write_val, 2);
        }
        <Opt<LodestoneTarget> as DataComponentCodec>::serialize(&value.target, out, ctx)?;
        AsBool::serialize(&value.is_tracked, out, ctx)
    }

    fn equal(a: &LodestoneTrackerImpl, b: &LodestoneTrackerImpl) -> (r: bool) {
        proof {
            reveal_with_fuel(val_same, 2);
        }
        <Opt<LodestoneTarget> as DataComponentCodec>::equal(&a.target, &b.target) && AsBool::equal(&a.is_tracked, &b.is_tracked)
    }
}

/// The shape of an explosion.
#[derive(Clone, Copy, Debug, PartialEq, Eq, Structural)]
pub enum FireworkExplosionShape {
    SmallBall,
    LargeBall,
    Star,
    Creeper,
    Burst,
}

/// The number of a value.
pub open spec fn firework_explosion_shape_id(v: FireworkExplosionShape) -> int {
    match v {
        FireworkExplosionShape::SmallBall => 0,
        FireworkExplosionShape::LargeBall => 1,
        FireworkExplosionShape::Star => 2,
        FireworkExplosionShape::Creeper => 3,
        FireworkExplosionShape::Burst => 4,
    }
}

/// The name of a value.
pub open spec fn firework_explosion_shape_name(v: FireworkExplosionShape) -> Seq<char> {
    match v {
        FireworkExplosionShape::SmallBall => "small_ball"@,
        FireworkExplosionShape::LargeBall => "large_ball"@,
        FireworkExplosionShape::Star => "star"@,
        FireworkExplosionShape::Creeper => "creeper"@,
        FireworkExplosionShape::Burst => "burst"@,
    }
}

impl FireworkExplosionShape {
    /// The value with a number.
    pub fn from_id(id: i32) -> (r: Option<Self>)
        ensures
            match r {
                Some(v) => firework_explosion_shape_id(v) == id,
                None => !(0 <= id < 5),
            },
    {
        match id {
            0 => Some(FireworkExplosionShape::SmallBall),
            1 => Some(FireworkExplosionShape::LargeBall),
            2 => Some(FireworkExplosionShape::Star),
            3 => Some(FireworkExplosionShape::Creeper),
            4 => Some(FireworkExplosionShape::Burst),
            _ => None,
        }
    }

    /// The number of the value.
    pub fn to_id(&self) -> (r: i32)
        ensures
            r == firework_explosion_shape_id(*self),
    {
        match self {
            FireworkExplosionShape::SmallBall => 0,
            FireworkExplosionShape::LargeBall => 1,
            FireworkExplosionShape::Star => 2,
            FireworkExplosionShape::Creeper => 3,
            FireworkExplosionShape::Burst => 4,
        }
    }

    /// The value with a name.
    pub fn from_name(name: &str) -> (r: Option<Self>)
        ensures
            match r {
                Some(v) => firework_explosion_shape_name(v) == name@,
                None => forall|v: FireworkExplosionShape| #[trigger] firework_explosion_shape_name(v) != name@,
            },
    {
        if same_text(name, "small_ball") {
            return Some(FireworkExplosionShape::SmallBall);
        }
        if same_text(name, "large_ball") {
            return Some(FireworkExplosionShape::LargeBall);
        }
        if same_text(name, "star") {
            return Some(FireworkExplosionShape::Star);
        }
        if same_text(name, "creeper") {
            return Some(FireworkExplosionShape::Creeper);
        }
        if same_text(name, "burst") {
            return Some(FireworkExplosionShape::Burst);
        }
        None
    }

    /// The name of the value.
    pub fn to_name(&self) -> (r: &'static str)
        ensures
            r@ == firework_explosion_shape_name(*self),
    {
        match self {
            FireworkExplosionShape::SmallBall => "small_ball",
            FireworkExplosionShape::LargeBall => "large_ball",
            FireworkExplosionShape::Star => "star",
            FireworkExplosionShape::Creeper => "creeper",
            FireworkExplosionShape::Burst => "burst",
        }
    }
}

/// A value by its number.
pub struct AsShape;

impl Numbered for AsShape {
    type Value = FireworkExplosionShape;

    open spec fn check() -> Check {
        Check::UpTo { max: 4, out: Blame { text: "Invalid FireworkExplosionShape id!", number: false } }
    }

    open spec fn val(v: FireworkExplosionShape) -> Val {
        Val::Int(firework_explosion_shape_id(v))
    }

    fn decode(regs: &Registries, v: i32) -> (r: Result<FireworkExplosionShape, ReadingError>) {
        match FireworkExplosionShape::from_id(v) {
            Some(x) => Ok(x),
            None => Err(message("Invalid FireworkExplosionShape id!")),
        }
    }

    fn encode(regs: &Registries, value: &FireworkExplosionShape) -> (r: Result<i32, WritingError>) {
        Ok(value.to_id())
    }

    fn alike(a: &FireworkExplosionShape, b: &FireworkExplosionShape) -> (r: bool) {
        a.to_id() == b.to_id()
    }
}

/// How the colours of an explosion are counted.
pub struct ColorCount;

impl ListRule for ColorCount {
    open spec fn rule() -> CountRule {
        CountRule::Capped { max: 256, exceeds: Blame { text: "FireworkExplosionImpl colors_len {} exceeds maximum of 256", number: true } }
    }

    open spec fn limit() -> Limit {
        Limit::Unlimited
    }

    fn count(seq: &mut &[u8]) -> (r: Result<u64, ReadingError>) {
        let v: i32 = get_var_int(seq)?;
        let n: u64 = count_of(v);
        if n > 256 {
            return Err(message_value("FireworkExplosionImpl colors_len {} exceeds maximum of 256", n as i128));
        }
        Ok(n)
    }

    fn allowed(n: usize) -> (r: Result<(), WritingError>) {
        Ok(())
    }
}

/// How the colours that an explosion fades to are counted.
pub struct FadeColorCount;

impl ListRule for FadeColorCount {
    open spec fn rule() -> CountRule {
        CountRule::Capped { max: 256, exceeds: Blame { text: "FireworkExplosionImpl fade_colors_len {} exceeds maximum of 256", number: true } }
    }

    open spec fn limit() -> Limit {
        Limit::Unlimited
    }

    fn count(seq: &mut &[u8]) -> (r: Result<u64, ReadingError>) {
        let v: i32 = get_var_int(seq)?;
        let n: u64 = count_of(v);
        if n > 256 {
            return Err(message_value("FireworkExplosionImpl fade_colors_len {} exceeds maximum of 256", n as i128));
        }
        Ok(n)
    }

    fn allowed(n: usize) -> (r: Result<(), WritingError>) {
        Ok(())
    }
}

/// An explosion of a firework.
#[derive(Debug, PartialEq)]
pub struct FireworkExplosionImpl {
    pub shape: FireworkExplosionShape,
    pub colors: Vec<i32>,
    pub fade_colors: Vec<i32>,
    pub has_trail: bool,
    pub has_twinkle: bool,
}

impl DataComponentCodec for FireworkExplosionImpl {
    type Value = FireworkExplosionImpl;

    open spec fn format() -> Format {
        Format::Pair(Box::new(<Coded<AsShape> as DataComponentCodec>::format()), Box::new(Format::Pair(Box::new(<ListOf<ColorCount, AsI32> as DataComponentCodec>::format()), Box::new(Format::Pair(Box::new(<ListOf<FadeColorCount, AsI32> as DataComponentCodec>::format()), Box::new(Format::Pair(Box::new(AsBool::format()), Box::new(AsBool::format()))))))))
    }

    open spec fn val(v: FireworkExplosionImpl) -> Val {
        pair(<Coded<AsShape> as DataComponentCodec>::val(v.shape), pair(<ListOf<ColorCount, AsI32> as DataComponentCodec>::val(v.colors), pair(<ListOf<FadeColorCount, AsI32> as DataComponentCodec>::val(v.fade_colors), pair(AsBool::val(v.has_trail), AsBool::val(v.has_twinkle)))))
    }

    fn deserialize(seq: &mut &[u8], ctx: &Context) -> (r: Result<FireworkExplosionImpl, ReadingError>) {
        proof {
            reveal_with_fuel(read_val, 5);
        }
        let shape = <Coded<AsShape> as DataComponentCodec>::deserialize(seq, ctx)?;
        let colors = <ListOf<ColorCount, AsI32> as DataComponentCodec>::deserialize(seq, ctx)?;
        let fade_colors = <ListOf<FadeColorCount, AsI32> as DataComponentCodec>::deserialize(seq, ctx)?;
        let has_trail = AsBool::deserialize(seq, ctx)?;
        let has_twinkle = AsBool::deserialize(seq, ctx)?;
        Ok(FireworkExplosionImpl { shape, colors, fade_colors, has_trail, has_twinkle })
    }

    fn serialize(value: &FireworkExplosionImpl, out: &mut Vec<u8>, ctx: &Context) -> (r: Result<(), WritingError>) {
        proof {
            reveal_with_fuel(write_val, 5);
        }
        <Coded<AsShape> as DataComponentCodec>::serialize(&value.shape, out, ctx)?;
        <ListOf<ColorCount, AsI32> as DataComponentCodec>::serialize(&value.colors, out, ctx)?;
        <ListOf<FadeColorCount, AsI32> as DataComponentCodec>::serialize(&value.fade_colors, out, ctx)?;
        AsBool::serialize(&value.has_trail, out, ctx)?;
        AsBool::serialize(&value.has_twinkle, out, ctx)
    }

    fn equal(a: &FireworkExplosionImpl, b: &FireworkExplosionImpl) -> (r: bool) {
        proof {
            reveal_with_fuel(val_same, 5);
        }
        <Coded<AsShape> as DataComponentCodec>::equal(&a.shape, &b.shape) && <ListOf<ColorCount, AsI32> as DataComponentCodec>::equal(&a.colors, &b.colors) && <ListOf<FadeColorCount, AsI32> as DataComponentCodec>::equal(&a.fade_colors, &b.fade_colors) && AsBool::equal(&a.has_trail, &b.has_trail) && AsBool::equal(&a.has_twinkle, &b.has_twinkle)
    }
}

impl FireworkExplosionImpl {
    /// An explosion.
    pub fn new(
        shape: FireworkExplosionShape,
        colors: Vec<i32>,
        fade_colors: Vec<i32>,
        has_trail: bool,
        has_twinkle: bool,
    ) -> (r: Self)
        ensures
            r == (FireworkExplosionImpl { shape, colors, fade_colors, has_trail, has_twinkle }),
    {
        FireworkExplosionImpl { shape, colors, fade_colors, has_trail, has_twinkle }
    }
}

/// The flight duration of a firework, from zero to 255.
pub struct FlightDuration;

impl Numbered for FlightDuration {
    type Value = i32;

    open spec fn check() -> Check {
        Check::UpTo { max: 255, out: Blame { text: "FireworksImpl flight_duration {} is out of bounds (0-255)", number: true } }
    }

    open spec fn val(v: i32) -> Val {
        Val::Int(v as int)
    }

    fn decode(regs: &Registries, v: i32) -> (r: Result<i32, ReadingError>) {
        if v < 0 || v > 255 {
            Err(message_value("FireworksImpl flight_duration {} is out of bounds (0-255)", v as i128))
        } else {
            Ok(v)
        }
    }

    fn encode(regs: &Registries, value: &i32) -> (r: Result<i32, WritingError>) {
        Ok(*value)
    }

    fn alike(a: &i32, b: &i32) -> (r: bool) {
        *a == *b
    }
}

/// How the explosions of a firework are counted.
pub struct ExplosionCount;

impl ListRule for ExplosionCount {
    open spec fn rule() -> CountRule {
        CountRule::Capped { max: 256, exceeds: Blame { text: "FireworksImpl explosions_len {} exceeds maximum of 256", number: true } }
    }

    open spec fn limit() -> Limit {
        Limit::Unlimited
    }

    fn count(seq: &mut &[u8]) -> (r: Result<u64, ReadingError>) {
        let v: i32 = get_var_int(seq)?;
        let n: u64 = count_of(v);
        if n > 256 {
            return Err(message_value("FireworksImpl explosions_len {} exceeds maximum of 256", n as i128));
        }
        Ok(n)
    }

    fn allowed(n: usize) -> (r: Result<(), WritingError>) {
        Ok(())
    }
}

/// A firework.
#[derive(Debug, PartialEq)]
pub struct FireworksImpl {
    pub flight_duration: i32,
    pub explosions: Vec<FireworkExplosionImpl>,
}

impl DataComponentCodec for FireworksImpl {
    type Value = FireworksImpl;

    open spec fn format() -> Format {
        Format::Pair(Box::new(<Coded<FlightDuration> as DataComponentCodec>::format()), Box::new(<ListOf<ExplosionCount, FireworkExplosionImpl> as DataComponentCodec>::format()))
    }

    open spec fn val(v: FireworksImpl) -> Val {
        pair(<Coded<FlightDuration> as DataComponentCodec>::val(v.flight_duration), <ListOf<ExplosionCount, FireworkExplosionImpl> as DataComponentCodec>::val(v.explosions))
    }

    fn deserialize(seq: &mut &[u8], ctx: &Context) -> (r: Result<FireworksImpl, ReadingError>) {
        proof {
            reveal_with_fuel(read_val, 2);
        }
        let flight_duration = <Coded<FlightDuration> as DataComponentCodec>::deserialize(seq, ctx)?;
        let explosions = <ListOf<ExplosionCount, FireworkExplosionImpl> as DataComponentCodec>::deserialize(seq, ctx)?;
        Ok(FireworksImpl { flight_duration, explosions })
    }

    fn serialize(value: &FireworksImpl, out: &mut Vec<u8>, ctx: &Context) -> (r: Result<(), WritingError>) {
        proof {
            reveal_with_fuel(write_val, 2);
        }
        <Coded<FlightDuration> as DataComponentCodec>::serialize(&value.flight_duration, out, ctx)?;
        <ListOf<ExplosionCount, FireworkExplosionImpl> as DataComponentCodec>::serialize(&value.explosions, out, ctx)
    }

    fn equal(a: &FireworksImpl, b: &FireworksImpl) -> (r: bool) {
        proof {
            reveal_with_fuel(val_same, 2);
        }
        <Coded<FlightDuration> as DataComponentCodec>::equal(&a.flight_duration, &b.flight_duration) && <ListOf<ExplosionCount, FireworkExplosionImpl> as DataComponentCodec>::equal(&a.explosions, &b.explosions)
    }
}

impl FireworksImpl {
    /// A firework.
    pub fn new(flight_duration: i32, explosions: Vec<FireworkExplosionImpl>) -> (r: Self)
        ensures
            r == (FireworksImpl { flight_duration, explosions }),
    {
        FireworksImpl { flight_duration, explosions }
    }
}

/// A property of a profile.
#[derive(Debug, PartialEq)]
pub struct ProfileProperty {
    pub name: String,
    pub value: String,
    pub signature: Option<String>,
}

impl DataComponentCodec for ProfileProperty {
    type Value = ProfileProperty;

    open spec fn format() -> Format {
        Format::Pair(Box::new(AsText::format()), Box::new(Format::Pair(Box::new(AsText::format()), Box::new(<Opt<AsText> as DataComponentCodec>::format()))))
    }

    open spec fn val(v: ProfileProperty) -> Val {
        pair(AsText::val(v.name), pair(AsText::val(v.value), <Opt<AsText> as DataComponentCodec>::val(v.signature)))
    }

    fn deserialize(seq: &mut &[u8], ctx: &Context) -> (r: Result<ProfileProperty, ReadingError>) {
        proof {
            reveal_with_fuel(read_val, 3);
        }
        let name = AsText::deserialize(seq, ctx)?;
        let value = AsText::deserialize(seq, ctx)?;
        let signature = <Opt<AsText> as DataComponentCodec>::deserialize(seq, ctx)?;
        Ok(ProfileProperty { name, value, signature })
    }

    fn serialize(value: &ProfileProperty, out: &mut Vec<u8>, ctx: &Context) -> (r: Result<(), WritingError>) {
        proof {
            reveal_with_fuel(write_val, 3);
        }
        AsText::serialize(&value.name, out, ctx)?;
        AsText::serialize(&value.value, out, ctx)?;
        <Opt<AsText> as DataComponentCodec>::serialize(&value.signature, out, ctx)
    }

    fn equal(a: &ProfileProperty, b: &ProfileProperty) -> (r: bool) {
        proof {
            reveal_with_fuel(val_same, 3);
        }
        AsText::equal(&a.name, &b.name) && AsText::equal(&a.value, &b.value) && <Opt<AsText> as DataComponentCodec>::equal(&a.signature, &b.signature)
    }
}

/// The model of a profile: only whether there is one is sent.
pub struct SkippedModel;

impl DataComponentCodec for SkippedModel {
    type Value = String;

    open spec fn format() -> Format {
        Format::Fixed(Box::new(AsVarInt::format()), Box::new(Val::Int(0)), Box::new(Val::Text("wide"@)))
    }

    open spec fn val(v: String) -> Val {
        Val::Text(v@)
    }

    fn deserialize(seq: &mut &[u8], ctx: &Context) -> (r: Result<String, ReadingError>) {
        proof {
            reveal(read_val);
        }
        AsVarInt::deserialize(seq, ctx)?;
        Ok("wide".to_owned())
    }

    fn serialize(value: &String, out: &mut Vec<u8>, ctx: &Context) -> (r: Result<(), WritingError>) {
        proof {
            reveal(write_val);
        }
        AsVarInt::serialize(&0, out, ctx)
    }

    fn equal(a: &String, b: &String) -> (r: bool) {
        same_text(a.as_str(), b.as_str())
    }
}

/// The profile of a player.
#[derive(Debug, PartialEq)]
pub struct ProfileImpl {
    pub name: Option<String>,
    pub id: Option<[i32; 4]>,
    pub properties: Vec<ProfileProperty>,
    pub texture: Option<String>,
    pub cape: Option<String>,
    pub elytra: Option<String>,
    pub model: Option<String>,
}

impl Default for ProfileImpl {
    fn default() -> (r: Self)
        ensures
            r.name is None && r.id is None && r.properties@ == Seq::<ProfileProperty>::empty() && r.texture is None && r.cape is None
                && r.elytra is None && r.model is None,
    {
        ProfileImpl { name: None, id: None, properties: Vec::new(), texture: None, cape: None, elytra: None, model: None }
    }
}

impl DataComponentCodec for ProfileImpl {
    type Value = ProfileImpl;

    open spec fn format() -> Format {
        Format::Pair(Box::new(AsProfileHead::format()), Box::new(Format::Pair(Box::new(<ListOf<RawCount, ProfileProperty> as DataComponentCodec>::format()), Box::new(Format::Pair(Box::new(<Opt<AsText> as DataComponentCodec>::format()), Box::new(Format::Pair(Box::new(<Opt<AsText> as DataComponentCodec>::format()), Box::new(Format::Pair(Box::new(<Opt<AsText> as DataComponentCodec>::format()), Box::new(<Opt<SkippedModel> as DataComponentCodec>::format()))))))))))
    }

    open spec fn val(v: ProfileImpl) -> Val {
        pair(pair(opt_text_val(v.name), opt_id_val(v.id)), pair(<ListOf<RawCount, ProfileProperty> as DataComponentCodec>::val(v.properties), pair(<Opt<AsText> as DataComponentCodec>::val(v.texture), pair(<Opt<AsText> as DataComponentCodec>::val(v.cape), pair(<Opt<AsText> as DataComponentCodec>::val(v.elytra), <Opt<SkippedModel> as DataComponentCodec>::val(v.model))))))
    }

    fn deserialize(seq: &mut &[u8], ctx: &Context) -> (r: Result<ProfileImpl, ReadingError>) {
        proof {
            reveal_with_fuel(read_val, 6);
        }
        let (name, id) = AsProfileHead::deserialize(seq, ctx)?;
        let properties = <ListOf<RawCount, ProfileProperty> as DataComponentCodec>::deserialize(seq, ctx)?;
        let texture = <Opt<AsText> as DataComponentCodec>::deserialize(seq, ctx)?;
        let cape = <Opt<AsText> as DataComponentCodec>::deserialize(seq, ctx)?;
        let elytra = <Opt<AsText> as DataComponentCodec>::deserialize(seq, ctx)?;
        let model = <Opt<SkippedModel> as DataComponentCodec>::deserialize(seq, ctx)?;
        Ok(ProfileImpl { name, id, properties, texture, cape, elytra, model })
    }

    fn serialize(value: &ProfileImpl, out: &mut Vec<u8>, ctx: &Context) -> (r: Result<(), WritingError>) {
        proof {
            reveal_with_fuel(write_val, 6);
        }
        put_profile_head(&value.name, &value.id, out)?;
        <ListOf<RawCount, ProfileProperty> as DataComponentCodec>::serialize(&value.properties, out, ctx)?;
        <Opt<AsText> as DataComponentCodec>::serialize(&value.texture, out, ctx)?;
        <Opt<AsText> as DataComponentCodec>::serialize(&value.cape, out, ctx)?;
        <Opt<AsText> as DataComponentCodec>::serialize(&value.elytra, out, ctx)?;
        <Opt<SkippedModel> as DataComponentCodec>::serialize(&value.model, out, ctx)
    }

    fn equal(a: &ProfileImpl, b: &ProfileImpl) -> (r: bool) {
        proof {
            reveal_with_fuel(val_same, 7);
        }
        equal_opt_texts(&a.name, &b.name) && equal_opt_ids(&a.id, &b.id) && <ListOf<RawCount, ProfileProperty> as DataComponentCodec>::equal(&a.properties, &b.properties) && <Opt<AsText> as DataComponentCodec>::equal(&a.texture, &b.texture)
            && <Opt<AsText> as DataComponentCodec>::equal(&a.cape, &b.cape) && <Opt<AsText> as DataComponentCodec>::equal(&a.elytra, &b.elytra) && <Opt<SkippedModel> as DataComponentCodec>::equal(&a.model, &b.model)
    }
}

/// A jukebox song by its number plus one.
pub struct AsSong;

impl Numbered for AsSong {
    type Value = String;

    open spec fn check() -> Check {
        Check::Song
    }

    open spec fn val(v: String) -> Val {
        Val::Text(v@)
    }

    fn decode(regs: &Registries, v: i32) -> (r: Result<String, ReadingError>) {
        if v == 0 {
            return Err(message("Direct inline jukebox song holders are unsupported"));
        }
        if v < 0 {
            return Err(message("Negative jukebox song holder ID"));
        }
        let id: i32 = v - 1;
        if (id as usize) < regs.songs.len() {
            Ok(concat("minecraft:", regs.songs[id as usize].as_str()))
        } else {
            Err(message_value("Unknown jukebox song registry ID: {}", id as i128))
        }
    }

    fn encode(regs: &Registries, value: &String) -> (r: Result<i32, WritingError>) {
        match position_of(&regs.songs, strip_namespace(value.as_str()).as_str()) {
            Some(i) => {
                let n: usize = regs.songs.len();
                assert(i < n);
                Ok(count_as_i32(i + 1))
            },
            None => Err(cannot_write_name("Unknown jukebox song: {}", value.as_str())),
        }
    }

    fn alike(a: &String, b: &String) -> (r: bool) {
        same_text(a.as_str(), b.as_str())
    }
}

/// The song that a music disc plays, as an identifier.
#[derive(Debug, PartialEq)]
pub struct JukeboxPlayableImpl {
    pub song: String,
}

impl DataComponentCodec for JukeboxPlayableImpl {
    type Value = JukeboxPlayableImpl;

    open spec fn format() -> Format {
        <Coded<AsSong> as DataComponentCodec>::format()
    }

    open spec fn val(v: JukeboxPlayableImpl) -> Val {
        <Coded<AsSong> as DataComponentCodec>::val(v.song)
    }

    fn deserialize(seq: &mut &[u8], ctx: &Context) -> (r: Result<JukeboxPlayableImpl, ReadingError>) {
        let song = <Coded<AsSong> as DataComponentCodec>::deserialize(seq, ctx)?;
        Ok(JukeboxPlayableImpl { song })
    }

    fn serialize(value: &JukeboxPlayableImpl, out: &mut Vec<u8>, ctx: &Context) -> (r: Result<(), WritingError>) {
        <Coded<AsSong> as DataComponentCodec>::serialize(&value.song, out, ctx)
    }

    fn equal(a: &JukeboxPlayableImpl, b: &JukeboxPlayableImpl) -> (r: bool) {
        <Coded<AsSong> as DataComponentCodec>::equal(&a.song, &b.song)
    }
}

} // verus!
