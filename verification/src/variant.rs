//! Components that select the look and the sound of an entity.
use vstd::prelude::*;
use crate::codec::{AsText, Context, DataComponentCodec};
use crate::errors::{ReadingError, WritingError};
use crate::format::{Format, Val};

verus! {

/// The villager variant.
#[derive(Debug, PartialEq)]
pub struct VillagerVariantImpl {
    pub value: String,
}

impl DataComponentCodec for VillagerVariantImpl {
    type Value = VillagerVariantImpl;

    open spec fn format() -> Format {
        AsText::format()
    }

    open spec fn val(v: VillagerVariantImpl) -> Val {
        AsText::val(v.value)
    }

    fn deserialize(seq: &mut &[u8], ctx: &Context) -> (r: Result<VillagerVariantImpl, ReadingError>) {
        let value = AsText::deserialize(seq, ctx)?;
        Ok(VillagerVariantImpl { value })
    }

    fn serialize(value: &VillagerVariantImpl, out: &mut Vec<u8>, ctx: &Context) -> (r: Result<(), WritingError>) {
        AsText::serialize(&value.value, out, ctx)
    }

    fn equal(a: &VillagerVariantImpl, b: &VillagerVariantImpl) -> (r: bool) {
        AsText::equal(&a.value, &b.value)
    }
}

/// The wolf variant.
#[derive(Debug, PartialEq)]
pub struct WolfVariantImpl {
    pub value: String,
}

impl DataComponentCodec for WolfVariantImpl {
    type Value = WolfVariantImpl;

    open spec fn format() -> Format {
        AsText::format()
    }

    open spec fn val(v: WolfVariantImpl) -> Val {
        AsText::val(v.value)
    }

    fn deserialize(seq: &mut &[u8], ctx: &Context) -> (r: Result<WolfVariantImpl, ReadingError>) {
        let value = AsText::deserialize(seq, ctx)?;
        Ok(WolfVariantImpl { value })
    }

    fn serialize(value: &WolfVariantImpl, out: &mut Vec<u8>, ctx: &Context) -> (r: Result<(), WritingError>) {
        AsText::serialize(&value.value, out, ctx)
    }

    fn equal(a: &WolfVariantImpl, b: &WolfVariantImpl) -> (r: bool) {
        AsText::equal(&a.value, &b.value)
    }
}

/// The wolf sound variant.
#[derive(Debug, PartialEq)]
pub struct WolfSoundVariantImpl {
    pub value: String,
}

impl DataComponentCodec for WolfSoundVariantImpl {
    type Value = WolfSoundVariantImpl;

    open spec fn format() -> Format {
        AsText::format()
    }

    open spec fn val(v: WolfSoundVariantImpl) -> Val {
        AsText::val(v.value)
    }

    fn deserialize(seq: &mut &[u8], ctx: &Context) -> (r: Result<WolfSoundVariantImpl, ReadingError>) {
        let value = AsText::deserialize(seq, ctx)?;
        Ok(WolfSoundVariantImpl { value })
    }

    fn serialize(value: &WolfSoundVariantImpl, out: &mut Vec<u8>, ctx: &Context) -> (r: Result<(), WritingError>) {
        AsText::serialize(&value.value, out, ctx)
    }

    fn equal(a: &WolfSoundVariantImpl, b: &WolfSoundVariantImpl) -> (r: bool) {
        AsText::equal(&a.value, &b.value)
    }
}

/// The colour of a wolf's collar.
#[derive(Debug, PartialEq)]
pub struct WolfCollarImpl {
    pub value: String,
}

impl DataComponentCodec for WolfCollarImpl {
    type Value = WolfCollarImpl;

    open spec fn format() -> Format {
        AsText::format()
    }

    open spec fn val(v: WolfCollarImpl) -> Val {
        AsText::val(v.value)
    }

    fn deserialize(seq: &mut &[u8], ctx: &Context) -> (r: Result<WolfCollarImpl, ReadingError>) {
        let value = AsText::deserialize(seq, ctx)?;
        Ok(WolfCollarImpl { value })
    }

    fn serialize(value: &WolfCollarImpl, out: &mut Vec<u8>, ctx: &Context) -> (r: Result<(), WritingError>) {
        AsText::serialize(&value.value, out, ctx)
    }

    fn equal(a: &WolfCollarImpl, b: &WolfCollarImpl) -> (r: bool) {
        AsText::equal(&a.value, &b.value)
    }
}

/// The fox variant.
#[derive(Debug, PartialEq)]
pub struct FoxVariantImpl {
    pub value: String,
}

impl DataComponentCodec for FoxVariantImpl {
    type Value = FoxVariantImpl;

    open spec fn format() -> Format {
        AsText::format()
    }

    open spec fn val(v: FoxVariantImpl) -> Val {
        AsText::val(v.value)
    }

    fn deserialize(seq: &mut &[u8], ctx: &Context) -> (r: Result<FoxVariantImpl, ReadingError>) {
        let value = AsText::deserialize(seq, ctx)?;
        Ok(FoxVariantImpl { value })
    }

    fn serialize(value: &FoxVariantImpl, out: &mut Vec<u8>, ctx: &Context) -> (r: Result<(), WritingError>) {
        AsText::serialize(&value.value, out, ctx)
    }

    fn equal(a: &FoxVariantImpl, b: &FoxVariantImpl) -> (r: bool) {
        AsText::equal(&a.value, &b.value)
    }
}

/// The size of a salmon.
#[derive(Debug, PartialEq)]
pub struct SalmonSizeImpl {
    pub value: String,
}

impl DataComponentCodec for SalmonSizeImpl {
    type Value = SalmonSizeImpl;

    open spec fn format() -> Format {
        AsText::format()
    }

    open spec fn val(v: SalmonSizeImpl) -> Val {
        AsText::val(v.value)
    }

    fn deserialize(seq: &mut &[u8], ctx: &Context) -> (r: Result<SalmonSizeImpl, ReadingError>) {
        let value = AsText::deserialize(seq, ctx)?;
        Ok(SalmonSizeImpl { value })
    }

    fn serialize(value: &SalmonSizeImpl, out: &mut Vec<u8>, ctx: &Context) -> (r: Result<(), WritingError>) {
        AsText::serialize(&value.value, out, ctx)
    }

    fn equal(a: &SalmonSizeImpl, b: &SalmonSizeImpl) -> (r: bool) {
        AsText::equal(&a.value, &b.value)
    }
}

/// The parrot variant.
#[derive(Debug, PartialEq)]
pub struct ParrotVariantImpl {
    pub value: String,
}

impl DataComponentCodec for ParrotVariantImpl {
    type Value = ParrotVariantImpl;

    open spec fn format() -> Format {
        AsText::format()
    }

    open spec fn val(v: ParrotVariantImpl) -> Val {
        AsText::val(v.value)
    }

    fn deserialize(seq: &mut &[u8], ctx: &Context) -> (r: Result<ParrotVariantImpl, ReadingError>) {
        let value = AsText::deserialize(seq, ctx)?;
        Ok(ParrotVariantImpl { value })
    }

    fn serialize(value: &ParrotVariantImpl, out: &mut Vec<u8>, ctx: &Context) -> (r: Result<(), WritingError>) {
        AsText::serialize(&value.value, out, ctx)
    }

    fn equal(a: &ParrotVariantImpl, b: &ParrotVariantImpl) -> (r: bool) {
        AsText::equal(&a.value, &b.value)
    }
}

/// The tropical fish pattern.
#[derive(Debug, PartialEq)]
pub struct TropicalFishPatternImpl {
    pub value: String,
}

impl DataComponentCodec for TropicalFishPatternImpl {
    type Value = TropicalFishPatternImpl;

    open spec fn format() -> Format {
        AsText::format()
    }

    open spec fn val(v: TropicalFishPatternImpl) -> Val {
        AsText::val(v.value)
    }

    fn deserialize(seq: &mut &[u8], ctx: &Context) -> (r: Result<TropicalFishPatternImpl, ReadingError>) {
        let value = AsText::deserialize(seq, ctx)?;
        Ok(TropicalFishPatternImpl { value })
    }

    fn serialize(value: &TropicalFishPatternImpl, out: &mut Vec<u8>, ctx: &Context) -> (r: Result<(), WritingError>) {
        AsText::serialize(&value.value, out, ctx)
    }

    fn equal(a: &TropicalFishPatternImpl, b: &TropicalFishPatternImpl) -> (r: bool) {
        AsText::equal(&a.value, &b.value)
    }
}

/// The tropical fish base color.
#[derive(Debug, PartialEq)]
pub struct TropicalFishBaseColorImpl {
    pub value: String,
}

impl DataComponentCodec for TropicalFishBaseColorImpl {
    type Value = TropicalFishBaseColorImpl;

    open spec fn format() -> Format {
        AsText::format()
    }

    open spec fn val(v: TropicalFishBaseColorImpl) -> Val {
        AsText::val(v.value)
    }

    fn deserialize(seq: &mut &[u8], ctx: &Context) -> (r: Result<TropicalFishBaseColorImpl, ReadingError>) {
        let value = AsText::deserialize(seq, ctx)?;
        Ok(TropicalFishBaseColorImpl { value })
    }

    fn serialize(value: &TropicalFishBaseColorImpl, out: &mut Vec<u8>, ctx: &Context) -> (r: Result<(), WritingError>) {
        AsText::serialize(&value.value, out, ctx)
    }

    fn equal(a: &TropicalFishBaseColorImpl, b: &TropicalFishBaseColorImpl) -> (r: bool) {
        AsText::equal(&a.value, &b.value)
    }
}

/// The tropical fish pattern color.
#[derive(Debug, PartialEq)]
pub struct TropicalFishPatternColorImpl {
    pub value: String,
}

impl DataComponentCodec for TropicalFishPatternColorImpl {
    type Value = TropicalFishPatternColorImpl;

    open spec fn format() -> Format {
        AsText::format()
    }

    open spec fn val(v: TropicalFishPatternColorImpl) -> Val {
        AsText::val(v.value)
    }

    fn deserialize(seq: &mut &[u8], ctx: &Context) -> (r: Result<TropicalFishPatternColorImpl, ReadingError>) {
        let value = AsText::deserialize(seq, ctx)?;
        Ok(TropicalFishPatternColorImpl { value })
    }

    fn serialize(value: &TropicalFishPatternColorImpl, out: &mut Vec<u8>, ctx: &Context) -> (r: Result<(), WritingError>) {
        AsText::serialize(&value.value, out, ctx)
    }

    fn equal(a: &TropicalFishPatternColorImpl, b: &TropicalFishPatternColorImpl) -> (r: bool) {
        AsText::equal(&a.value, &b.value)
    }
}

/// The mooshroom variant.
#[derive(Debug, PartialEq)]
pub struct MooshroomVariantImpl {
    pub value: String,
}

impl DataComponentCodec for MooshroomVariantImpl {
    type Value = MooshroomVariantImpl;

    open spec fn format() -> Format {
        AsText::format()
    }

    open spec fn val(v: MooshroomVariantImpl) -> Val {
        AsText::val(v.value)
    }

    fn deserialize(seq: &mut &[u8], ctx: &Context) -> (r: Result<MooshroomVariantImpl, ReadingError>) {
        let value = AsText::deserialize(seq, ctx)?;
        Ok(MooshroomVariantImpl { value })
    }

    fn serialize(value: &MooshroomVariantImpl, out: &mut Vec<u8>, ctx: &Context) -> (r: Result<(), WritingError>) {
        AsText::serialize(&value.value, out, ctx)
    }

    fn equal(a: &MooshroomVariantImpl, b: &MooshroomVariantImpl) -> (r: bool) {
        AsText::equal(&a.value, &b.value)
    }
}

/// The rabbit variant.
#[derive(Debug, PartialEq)]
pub struct RabbitVariantImpl {
    pub value: String,
}

impl DataComponentCodec for RabbitVariantImpl {
    type Value = RabbitVariantImpl;

    open spec fn format() -> Format {
        AsText::format()
    }

    open spec fn val(v: RabbitVariantImpl) -> Val {
        AsText::val(v.value)
    }

    fn deserialize(seq: &mut &[u8], ctx: &Context) -> (r: Result<RabbitVariantImpl, ReadingError>) {
        let value = AsText::deserialize(seq, ctx)?;
        Ok(RabbitVariantImpl { value })
    }

    fn serialize(value: &RabbitVariantImpl, out: &mut Vec<u8>, ctx: &Context) -> (r: Result<(), WritingError>) {
        AsText::serialize(&value.value, out, ctx)
    }

    fn equal(a: &RabbitVariantImpl, b: &RabbitVariantImpl) -> (r: bool) {
        AsText::equal(&a.value, &b.value)
    }
}

/// The pig variant.
#[derive(Debug, PartialEq)]
pub struct PigVariantImpl {
    pub value: String,
}

impl DataComponentCodec for PigVariantImpl {
    type Value = PigVariantImpl;

    open spec fn format() -> Format {
        AsText::format()
    }

    open spec fn val(v: PigVariantImpl) -> Val {
        AsText::val(v.value)
    }

    fn deserialize(seq: &mut &[u8], ctx: &Context) -> (r: Result<PigVariantImpl, ReadingError>) {
        let value = AsText::deserialize(seq, ctx)?;
        Ok(PigVariantImpl { value })
    }

    fn serialize(value: &PigVariantImpl, out: &mut Vec<u8>, ctx: &Context) -> (r: Result<(), WritingError>) {
        AsText::serialize(&value.value, out, ctx)
    }

    fn equal(a: &PigVariantImpl, b: &PigVariantImpl) -> (r: bool) {
        AsText::equal(&a.value, &b.value)
    }
}

/// The pig sound variant.
#[derive(Debug, PartialEq)]
pub struct PigSoundVariantImpl {
    pub value: String,
}

impl DataComponentCodec for PigSoundVariantImpl {
    type Value = PigSoundVariantImpl;

    open spec fn format() -> Format {
        AsText::format()
    }

    open spec fn val(v: PigSoundVariantImpl) -> Val {
        AsText::val(v.value)
    }

    fn deserialize(seq: &mut &[u8], ctx: &Context) -> (r: Result<PigSoundVariantImpl, ReadingError>) {
        let value = AsText::deserialize(seq, ctx)?;
        Ok(PigSoundVariantImpl { value })
    }

    fn serialize(value: &PigSoundVariantImpl, out: &mut Vec<u8>, ctx: &Context) -> (r: Result<(), WritingError>) {
        AsText::serialize(&value.value, out, ctx)
    }

    fn equal(a: &PigSoundVariantImpl, b: &PigSoundVariantImpl) -> (r: bool) {
        AsText::equal(&a.value, &b.value)
    }
}

/// The cow variant.
#[derive(Debug, PartialEq)]
pub struct CowVariantImpl {
    pub value: String,
}

impl DataComponentCodec for CowVariantImpl {
    type Value = CowVariantImpl;

    open spec fn format() -> Format {
        AsText::format()
    }

    open spec fn val(v: CowVariantImpl) -> Val {
        AsText::val(v.value)
    }

    fn deserialize(seq: &mut &[u8], ctx: &Context) -> (r: Result<CowVariantImpl, ReadingError>) {
        let value = AsText::deserialize(seq, ctx)?;
        Ok(CowVariantImpl { value })
    }

    fn serialize(value: &CowVariantImpl, out: &mut Vec<u8>, ctx: &Context) -> (r: Result<(), WritingError>) {
        AsText::serialize(&value.value, out, ctx)
    }

    fn equal(a: &CowVariantImpl, b: &CowVariantImpl) -> (r: bool) {
        AsText::equal(&a.value, &b.value)
    }
}

/// The cow sound variant.
#[derive(Debug, PartialEq)]
pub struct CowSoundVariantImpl {
    pub value: String,
}

impl DataComponentCodec for CowSoundVariantImpl {
    type Value = CowSoundVariantImpl;

    open spec fn format() -> Format {
        AsText::format()
    }

    open spec fn val(v: CowSoundVariantImpl) -> Val {
        AsText::val(v.value)
    }

    fn deserialize(seq: &mut &[u8], ctx: &Context) -> (r: Result<CowSoundVariantImpl, ReadingError>) {
        let value = AsText::deserialize(seq, ctx)?;
        Ok(CowSoundVariantImpl { value })
    }

    fn serialize(value: &CowSoundVariantImpl, out: &mut Vec<u8>, ctx: &Context) -> (r: Result<(), WritingError>) {
        AsText::serialize(&value.value, out, ctx)
    }

    fn equal(a: &CowSoundVariantImpl, b: &CowSoundVariantImpl) -> (r: bool) {
        AsText::equal(&a.value, &b.value)
    }
}

/// The chicken variant.
#[derive(Debug, PartialEq)]
pub struct ChickenVariantImpl {
    pub value: String,
}

impl DataComponentCodec for ChickenVariantImpl {
    type Value = ChickenVariantImpl;

    open spec fn format() -> Format {
        AsText::format()
    }

    open spec fn val(v: ChickenVariantImpl) -> Val {
        AsText::val(v.value)
    }

    fn deserialize(seq: &mut &[u8], ctx: &Context) -> (r: Result<ChickenVariantImpl, ReadingError>) {
        let value = AsText::deserialize(seq, ctx)?;
        Ok(ChickenVariantImpl { value })
    }

    fn serialize(value: &ChickenVariantImpl, out: &mut Vec<u8>, ctx: &Context) -> (r: Result<(), WritingError>) {
        AsText::serialize(&value.value, out, ctx)
    }

    fn equal(a: &ChickenVariantImpl, b: &ChickenVariantImpl) -> (r: bool) {
        AsText::equal(&a.value, &b.value)
    }
}

/// The chicken sound variant.
#[derive(Debug, PartialEq)]
pub struct ChickenSoundVariantImpl {
    pub value: String,
}

impl DataComponentCodec for ChickenSoundVariantImpl {
    type Value = ChickenSoundVariantImpl;

    open spec fn format() -> Format {
        AsText::format()
    }

    open spec fn val(v: ChickenSoundVariantImpl) -> Val {
        AsText::val(v.value)
    }

    fn deserialize(seq: &mut &[u8], ctx: &Context) -> (r: Result<ChickenSoundVariantImpl, ReadingError>) {
        let value = AsText::deserialize(seq, ctx)?;
        Ok(ChickenSoundVariantImpl { value })
    }

    fn serialize(value: &ChickenSoundVariantImpl, out: &mut Vec<u8>, ctx: &Context) -> (r: Result<(), WritingError>) {
        AsText::serialize(&value.value, out, ctx)
    }

    fn equal(a: &ChickenSoundVariantImpl, b: &ChickenSoundVariantImpl) -> (r: bool) {
        AsText::equal(&a.value, &b.value)
    }
}

/// The zombie nautilus variant.
#[derive(Debug, PartialEq)]
pub struct ZombieNautilusVariantImpl {
    pub value: String,
}

impl DataComponentCodec for ZombieNautilusVariantImpl {
    type Value = ZombieNautilusVariantImpl;

    open spec fn format() -> Format {
        AsText::format()
    }

    open spec fn val(v: ZombieNautilusVariantImpl) -> Val {
        AsText::val(v.value)
    }

    fn deserialize(seq: &mut &[u8], ctx: &Context) -> (r: Result<ZombieNautilusVariantImpl, ReadingError>) {
        let value = AsText::deserialize(seq, ctx)?;
        Ok(ZombieNautilusVariantImpl { value })
    }

    fn serialize(value: &ZombieNautilusVariantImpl, out: &mut Vec<u8>, ctx: &Context) -> (r: Result<(), WritingError>) {
        AsText::serialize(&value.value, out, ctx)
    }

    fn equal(a: &ZombieNautilusVariantImpl, b: &ZombieNautilusVariantImpl) -> (r: bool) {
        AsText::equal(&a.value, &b.value)
    }
}

/// The frog variant.
#[derive(Debug, PartialEq)]
pub struct FrogVariantImpl {
    pub value: String,
}

impl DataComponentCodec for FrogVariantImpl {
    type Value = FrogVariantImpl;

    open spec fn format() -> Format {
        AsText::format()
    }

    open spec fn val(v: FrogVariantImpl) -> Val {
        AsText::val(v.value)
    }

    fn deserialize(seq: &mut &[u8], ctx: &Context) -> (r: Result<FrogVariantImpl, ReadingError>) {
        let value = AsText::deserialize(seq, ctx)?;
        Ok(FrogVariantImpl { value })
    }

    fn serialize(value: &FrogVariantImpl, out: &mut Vec<u8>, ctx: &Context) -> (r: Result<(), WritingError>) {
        AsText::serialize(&value.value, out, ctx)
    }

    fn equal(a: &FrogVariantImpl, b: &FrogVariantImpl) -> (r: bool) {
        AsText::equal(&a.value, &b.value)
    }
}

/// The horse variant.
#[derive(Debug, PartialEq)]
pub struct HorseVariantImpl {
    pub value: String,
}

impl DataComponentCodec for HorseVariantImpl {
    type Value = HorseVariantImpl;

    open spec fn format() -> Format {
        AsText::format()
    }

    open spec fn val(v: HorseVariantImpl) -> Val {
        AsText::val(v.value)
    }

    fn deserialize(seq: &mut &[u8], ctx: &Context) -> (r: Result<HorseVariantImpl, ReadingError>) {
        let value = AsText::deserialize(seq, ctx)?;
        Ok(HorseVariantImpl { value })
    }

    fn serialize(value: &HorseVariantImpl, out: &mut Vec<u8>, ctx: &Context) -> (r: Result<(), WritingError>) {
        AsText::serialize(&value.value, out, ctx)
    }

    fn equal(a: &HorseVariantImpl, b: &HorseVariantImpl) -> (r: bool) {
        AsText::equal(&a.value, &b.value)
    }
}

/// The painting variant.
#[derive(Debug, PartialEq)]
pub struct PaintingVariantImpl {
    pub value: String,
}

impl DataComponentCodec for PaintingVariantImpl {
    type Value = PaintingVariantImpl;

    open spec fn format() -> Format {
        AsText::format()
    }

    open spec fn val(v: PaintingVariantImpl) -> Val {
        AsText::val(v.value)
    }

    fn deserialize(seq: &mut &[u8], ctx: &Context) -> (r: Result<PaintingVariantImpl, ReadingError>) {
        let value = AsText::deserialize(seq, ctx)?;
        Ok(PaintingVariantImpl { value })
    }

    fn serialize(value: &PaintingVariantImpl, out: &mut Vec<u8>, ctx: &Context) -> (r: Result<(), WritingError>) {
        AsText::serialize(&value.value, out, ctx)
    }

    fn equal(a: &PaintingVariantImpl, b: &PaintingVariantImpl) -> (r: bool) {
        AsText::equal(&a.value, &b.value)
    }
}

/// The llama variant.
#[derive(Debug, PartialEq)]
pub struct LlamaVariantImpl {
    pub value: String,
}

impl DataComponentCodec for LlamaVariantImpl {
    type Value = LlamaVariantImpl;

    open spec fn format() -> Format {
        AsText::format()
    }

    open spec fn val(v: LlamaVariantImpl) -> Val {
        AsText::val(v.value)
    }

    fn deserialize(seq: &mut &[u8], ctx: &Context) -> (r: Result<LlamaVariantImpl, ReadingError>) {
        let value = AsText::deserialize(seq, ctx)?;
        Ok(LlamaVariantImpl { value })
    }

    fn serialize(value: &LlamaVariantImpl, out: &mut Vec<u8>, ctx: &Context) -> (r: Result<(), WritingError>) {
        AsText::serialize(&value.value, out, ctx)
    }

    fn equal(a: &LlamaVariantImpl, b: &LlamaVariantImpl) -> (r: bool) {
        AsText::equal(&a.value, &b.value)
    }
}

/// The axolotl variant.
#[derive(Debug, PartialEq)]
pub struct AxolotlVariantImpl {
    pub value: String,
}

impl DataComponentCodec for AxolotlVariantImpl {
    type Value = AxolotlVariantImpl;

    open spec fn format() -> Format {
        AsText::format()
    }

    open spec fn val(v: AxolotlVariantImpl) -> Val {
        AsText::val(v.value)
    }

    fn deserialize(seq: &mut &[u8], ctx: &Context) -> (r: Result<AxolotlVariantImpl, ReadingError>) {
        let value = AsText::deserialize(seq, ctx)?;
        Ok(AxolotlVariantImpl { value })
    }

    fn serialize(value: &AxolotlVariantImpl, out: &mut Vec<u8>, ctx: &Context) -> (r: Result<(), WritingError>) {
        AsText::serialize(&value.value, out, ctx)
    }

    fn equal(a: &AxolotlVariantImpl, b: &AxolotlVariantImpl) -> (r: bool) {
        AsText::equal(&a.value, &b.value)
    }
}

/// The cat variant.
#[derive(Debug, PartialEq)]
pub struct CatVariantImpl {
    pub value: String,
}

impl DataComponentCodec for CatVariantImpl {
    type Value = CatVariantImpl;

    open spec fn format() -> Format {
        AsText::format()
    }

    open spec fn val(v: CatVariantImpl) -> Val {
        AsText::val(v.value)
    }

    fn deserialize(seq: &mut &[u8], ctx: &Context) -> (r: Result<CatVariantImpl, ReadingError>) {
        let value = AsText::deserialize(seq, ctx)?;
        Ok(CatVariantImpl { value })
    }

    fn serialize(value: &CatVariantImpl, out: &mut Vec<u8>, ctx: &Context) -> (r: Result<(), WritingError>) {
        AsText::serialize(&value.value, out, ctx)
    }

    fn equal(a: &CatVariantImpl, b: &CatVariantImpl) -> (r: bool) {
        AsText::equal(&a.value, &b.value)
    }
}

/// The cat sound variant.
#[derive(Debug, PartialEq)]
pub struct CatSoundVariantImpl {
    pub value: String,
}

impl DataComponentCodec for CatSoundVariantImpl {
    type Value = CatSoundVariantImpl;

    open spec fn format() -> Format {
        AsText::format()
    }

    open spec fn val(v: CatSoundVariantImpl) -> Val {
        AsText::val(v.value)
    }

    fn deserialize(seq: &mut &[u8], ctx: &Context) -> (r: Result<CatSoundVariantImpl, ReadingError>) {
        let value = AsText::deserialize(seq, ctx)?;
        Ok(CatSoundVariantImpl { value })
    }

    fn serialize(value: &CatSoundVariantImpl, out: &mut Vec<u8>, ctx: &Context) -> (r: Result<(), WritingError>) {
        AsText::serialize(&value.value, out, ctx)
    }

    fn equal(a: &CatSoundVariantImpl, b: &CatSoundVariantImpl) -> (r: bool) {
        AsText::equal(&a.value, &b.value)
    }
}

/// The colour of a cat's collar.
#[derive(Debug, PartialEq)]
pub struct CatCollarImpl {
    pub value: String,
}

impl DataComponentCodec for CatCollarImpl {
    type Value = CatCollarImpl;

    open spec fn format() -> Format {
        AsText::format()
    }

    open spec fn val(v: CatCollarImpl) -> Val {
        AsText::val(v.value)
    }

    fn deserialize(seq: &mut &[u8], ctx: &Context) -> (r: Result<CatCollarImpl, ReadingError>) {
        let value = AsText::deserialize(seq, ctx)?;
        Ok(CatCollarImpl { value })
    }

    fn serialize(value: &CatCollarImpl, out: &mut Vec<u8>, ctx: &Context) -> (r: Result<(), WritingError>) {
        AsText::serialize(&value.value, out, ctx)
    }

    fn equal(a: &CatCollarImpl, b: &CatCollarImpl) -> (r: bool) {
        AsText::equal(&a.value, &b.value)
    }
}

/// The colour of a sheep.
#[derive(Debug, PartialEq)]
pub struct SheepColorImpl {
    pub value: String,
}

impl DataComponentCodec for SheepColorImpl {
    type Value = SheepColorImpl;

    open spec fn format() -> Format {
        AsText::format()
    }

    open spec fn val(v: SheepColorImpl) -> Val {
        AsText::val(v.value)
    }

    fn deserialize(seq: &mut &[u8], ctx: &Context) -> (r: Result<SheepColorImpl, ReadingError>) {
        let value = AsText::deserialize(seq, ctx)?;
        Ok(SheepColorImpl { value })
    }

    fn serialize(value: &SheepColorImpl, out: &mut Vec<u8>, ctx: &Context) -> (r: Result<(), WritingError>) {
        AsText::serialize(&value.value, out, ctx)
    }

    fn equal(a: &SheepColorImpl, b: &SheepColorImpl) -> (r: bool) {
        AsText::equal(&a.value, &b.value)
    }
}

/// The colour of a shulker.
#[derive(Debug, PartialEq)]
pub struct ShulkerColorImpl {
    pub value: String,
}

impl DataComponentCodec for ShulkerColorImpl {
    type Value = ShulkerColorImpl;

    open spec fn format() -> Format {
        AsText::format()
    }

    open spec fn val(v: ShulkerColorImpl) -> Val {
        AsText::val(v.value)
    }

    fn deserialize(seq: &mut &[u8], ctx: &Context) -> (r: Result<ShulkerColorImpl, ReadingError>) {
        let value = AsText::deserialize(seq, ctx)?;
        Ok(ShulkerColorImpl { value })
    }

    fn serialize(value: &ShulkerColorImpl, out: &mut Vec<u8>, ctx: &Context) -> (r: Result<(), WritingError>) {
        AsText::serialize(&value.value, out, ctx)
    }

    fn equal(a: &ShulkerColorImpl, b: &ShulkerColorImpl) -> (r: bool) {
        AsText::equal(&a.value, &b.value)
    }
}

} // verus!
