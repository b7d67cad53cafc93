//! Components of items that become blocks and entities.
use vstd::prelude::*;
use crate::codec::{vals, AsText, AsVarInt, Both, Context, DataComponentCodec, ListOf, RawCount};
use crate::elements::{AnyTag, LenientCompound};
use crate::errors::{ReadingError, WritingError};
use crate::format::{pair, read_val, write_val, Format, Val};
use crate::nbt_tag::{NbtCompound, NbtTag, Tag};
use crate::same::val_same;

verus! {

/// A type that is read over.
pub struct SkippedType;

impl DataComponentCodec for SkippedType {
    type Value = ();

    open spec fn format() -> Format {
        Format::Fixed(Box::new(AsVarInt::format()), Box::new(Val::Int(0)), Box::new(Val::Unit))
    }

    open spec fn val(v: ()) -> Val {
        Val::Unit
    }

    fn deserialize(seq: &mut &[u8], ctx: &Context) -> (r: Result<(), ReadingError>) {
        proof {
            reveal(read_val);
        }
        AsVarInt::deserialize(seq, ctx)?;
        Ok(())
    }

    fn serialize(value: &(), out: &mut Vec<u8>, ctx: &Context) -> (r: Result<(), WritingError>) {
        proof {
            reveal(write_val);
        }
        AsVarInt::serialize(&0, out, ctx)
    }

    fn equal(a: &(), b: &()) -> (r: bool) {
        true
    }
}

/// The data of a block entity.
#[derive(Debug, PartialEq)]
pub struct BlockEntityDataImpl {
    pub nbt: NbtCompound,
}

impl DataComponentCodec for BlockEntityDataImpl {
    type Value = BlockEntityDataImpl;

    open spec fn format() -> Format {
        Format::Pair(Box::new(SkippedType::format()), Box::new(LenientCompound::format()))
    }

    open spec fn val(v: BlockEntityDataImpl) -> Val {
        pair(Val::Unit, LenientCompound::val(v.nbt))
    }

    fn deserialize(seq: &mut &[u8], ctx: &Context) -> (r: Result<BlockEntityDataImpl, ReadingError>) {
        proof {
            reveal(read_val);
        }
        SkippedType::deserialize(seq, ctx)?;
        let nbt = LenientCompound::deserialize(seq, ctx)?;
        Ok(BlockEntityDataImpl { nbt })
    }

    fn serialize(value: &BlockEntityDataImpl, out: &mut Vec<u8>, ctx: &Context) -> (r: Result<(), WritingError>) {
        proof {
            reveal(write_val);
        }
        SkippedType::serialize(&(), out, ctx)?;
        LenientCompound::serialize(&value.nbt, out, ctx)
    }

    fn equal(a: &BlockEntityDataImpl, b: &BlockEntityDataImpl) -> (r: bool) {
        proof {
            reveal_with_fuel(val_same, 2);
        }
        LenientCompound::equal(&a.nbt, &b.nbt)
    }
}

/// Marks an item that spawns an entity with data.
#[derive(Clone, Copy, Debug, PartialEq, Eq)]
pub struct EntityDataImpl;

impl DataComponentCodec for EntityDataImpl {
    type Value = EntityDataImpl;

    open spec fn format() -> Format {
        Format::Fixed(Box::new(<Both<AsVarInt, AnyTag> as DataComponentCodec>::format()), Box::new(pair(Val::Int(0), Val::Nbt(Tag::Compound(Seq::empty())))), Box::new(Val::Unit))
    }

    open spec fn val(v: EntityDataImpl) -> Val {
        Val::Unit
    }

    fn deserialize(seq: &mut &[u8], ctx: &Context) -> (r: Result<EntityDataImpl, ReadingError>) {
        proof {
            reveal(read_val);
        }
        <Both<AsVarInt, AnyTag> as DataComponentCodec>::deserialize(seq, ctx)?;
        Ok(EntityDataImpl)
    }

    fn serialize(value: &EntityDataImpl, out: &mut Vec<u8>, ctx: &Context) -> (r: Result<(), WritingError>) {
        proof {
            reveal(write_val);
        }
        let written = (0i32, NbtTag::Compound(NbtCompound::new()));
        <Both<AsVarInt, AnyTag> as DataComponentCodec>::serialize(&written, out, ctx)
    }

    fn equal(a: &EntityDataImpl, b: &EntityDataImpl) -> (r: bool) {
        true
    }
}

/// Marks a bucket that holds an entity with data.
#[derive(Clone, Copy, Debug, PartialEq, Eq)]
pub struct BucketEntityDataImpl;

impl DataComponentCodec for BucketEntityDataImpl {
    type Value = BucketEntityDataImpl;

    open spec fn format() -> Format {
        Format::Fixed(Box::new(<AnyTag as DataComponentCodec>::format()), Box::new(Val::Nbt(Tag::Compound(Seq::empty()))), Box::new(Val::Unit))
    }

    open spec fn val(v: BucketEntityDataImpl) -> Val {
        Val::Unit
    }

    fn deserialize(seq: &mut &[u8], ctx: &Context) -> (r: Result<BucketEntityDataImpl, ReadingError>) {
        proof {
            reveal(read_val);
        }
        <AnyTag as DataComponentCodec>::deserialize(seq, ctx)?;
        Ok(BucketEntityDataImpl)
    }

    fn serialize(value: &BucketEntityDataImpl, out: &mut Vec<u8>, ctx: &Context) -> (r: Result<(), WritingError>) {
        proof {
            reveal(write_val);
        }
        let written = NbtTag::Compound(NbtCompound::new());
        <AnyTag as DataComponentCodec>::serialize(&written, out, ctx)
    }

    fn equal(a: &BucketEntityDataImpl, b: &BucketEntityDataImpl) -> (r: bool) {
        true
    }
}

/// The properties that a placed block gets.
#[derive(Debug, PartialEq)]
pub struct BlockStateImpl {
    pub properties: Vec<(String, String)>,
}

impl DataComponentCodec for BlockStateImpl {
    type Value = BlockStateImpl;

    open spec fn format() -> Format {
        <ListOf<RawCount, Both<AsText, AsText>> as DataComponentCodec>::format()
    }

    open spec fn val(v: BlockStateImpl) -> Val {
        <ListOf<RawCount, Both<AsText, AsText>> as DataComponentCodec>::val(v.properties)
    }

    fn deserialize(seq: &mut &[u8], ctx: &Context) -> (r: Result<BlockStateImpl, ReadingError>) {
        let properties = <ListOf<RawCount, Both<AsText, AsText>> as DataComponentCodec>::deserialize(seq, ctx)?;
        Ok(BlockStateImpl { properties })
    }

    fn serialize(value: &BlockStateImpl, out: &mut Vec<u8>, ctx: &Context) -> (r: Result<(), WritingError>) {
        <ListOf<RawCount, Both<AsText, AsText>> as DataComponentCodec>::serialize(&value.properties, out, ctx)
    }

    fn equal(a: &BlockStateImpl, b: &BlockStateImpl) -> (r: bool) {
        <ListOf<RawCount, Both<AsText, AsText>> as DataComponentCodec>::equal(&a.properties, &b.properties)
    }
}

/// Marks a hive with bees.
#[derive(Clone, Copy, Debug, PartialEq, Eq)]
pub struct BeesImpl;

impl DataComponentCodec for BeesImpl {
    type Value = BeesImpl;

    open spec fn format() -> Format {
        Format::Fixed(Box::new(<ListOf<RawCount, Both<AsVarInt, Both<AnyTag, Both<AsVarInt, AsVarInt>>>> as DataComponentCodec>::format()), Box::new(Val::List(Seq::empty())), Box::new(Val::Unit))
    }

    open spec fn val(v: BeesImpl) -> Val {
        Val::Unit
    }

    fn deserialize(seq: &mut &[u8], ctx: &Context) -> (r: Result<BeesImpl, ReadingError>) {
        proof {
            reveal(read_val);
        }
        <ListOf<RawCount, Both<AsVarInt, Both<AnyTag, Both<AsVarInt, AsVarInt>>>> as DataComponentCodec>::deserialize(seq, ctx)?;
        Ok(BeesImpl)
    }

    fn serialize(value: &BeesImpl, out: &mut Vec<u8>, ctx: &Context) -> (r: Result<(), WritingError>) {
        proof {
            reveal(write_val);
        }
        let written: Vec<(i32, (NbtTag, (i32, i32)))> = Vec::new();
        assert(vals::<Both<AsVarInt, Both<AnyTag, Both<AsVarInt, AsVarInt>>>>(written@) =~= Seq::<Val>::empty());
        <ListOf<RawCount, Both<AsVarInt, Both<AnyTag, Both<AsVarInt, AsVarInt>>>> as DataComponentCodec>::serialize(&written, out, ctx)
    }

    fn equal(a: &BeesImpl, b: &BeesImpl) -> (r: bool) {
        true
    }
}

} // verus!
