//! Components of books.
use vstd::prelude::*;
use crate::codec::{AsBool, AsText, Context, DataComponentCodec, ListOf, Opt, RawCount};
use crate::elements::{AnyTag, AsPage};
use crate::errors::{ReadingError, WritingError};
use crate::format::{pair, read_val, write_val, Format, Val};
use crate::block_entity::SkippedType;
use crate::same::val_same;
use crate::text::same_text;

verus! {

/// A text whose filtered form is read over.
pub struct RawText;

impl DataComponentCodec for RawText {
    type Value = String;

    open spec fn format() -> Format {
        Format::Pair(
            Box::new(AsText::format()),
            Box::new(Format::Fixed(Box::new(<Opt<AsText> as DataComponentCodec>::format()), Box::new(Val::Absent), Box::new(Val::Unit))),
        )
    }

    open spec fn val(v: String) -> Val {
        pair(Val::Text(v@), Val::Unit)
    }

    fn deserialize(seq: &mut &[u8], ctx: &Context) -> (r: Result<String, ReadingError>) {
        proof {
            reveal_with_fuel(read_val, 2);
        }
        let raw = AsText::deserialize(seq, ctx)?;
        <Opt<AsText> as DataComponentCodec>::deserialize(seq, ctx)?;
        Ok(raw)
    }

    fn serialize(value: &String, out: &mut Vec<u8>, ctx: &Context) -> (r: Result<(), WritingError>) {
        proof {
            reveal_with_fuel(write_val, 2);
        }
        AsText::serialize(value, out, ctx)?;
        <Opt<AsText> as DataComponentCodec>::serialize(&None, out, ctx)
    }

    fn equal(a: &String, b: &String) -> (r: bool) {
        proof {
            reveal_with_fuel(val_same, 2);
        }
        same_text(a.as_str(), b.as_str())
    }
}

/// A page whose filtered form is read over.
pub struct WrittenPage;

impl DataComponentCodec for WrittenPage {
    type Value = String;

    open spec fn format() -> Format {
        Format::Pair(
            Box::new(AsPage::format()),
            Box::new(Format::Fixed(Box::new(<Opt<AnyTag> as DataComponentCodec>::format()), Box::new(Val::Absent), Box::new(Val::Unit))),
        )
    }

    open spec fn val(v: String) -> Val {
        pair(Val::Text(v@), Val::Unit)
    }

    fn deserialize(seq: &mut &[u8], ctx: &Context) -> (r: Result<String, ReadingError>) {
        proof {
            reveal_with_fuel(read_val, 2);
        }
        let page = AsPage::deserialize(seq, ctx)?;
        <Opt<AnyTag> as DataComponentCodec>::deserialize(seq, ctx)?;
        Ok(page)
    }

    fn serialize(value: &String, out: &mut Vec<u8>, ctx: &Context) -> (r: Result<(), WritingError>) {
        proof {
            reveal_with_fuel(write_val, 2);
        }
        AsPage::serialize(value, out, ctx)?;
        <Opt<AnyTag> as DataComponentCodec>::serialize(&None, out, ctx)
    }

    fn equal(a: &String, b: &String) -> (r: bool) {
        proof {
            reveal_with_fuel(val_same, 2);
        }
        same_text(a.as_str(), b.as_str())
    }
}

/// The pages of a book that is being written.
#[derive(Debug, PartialEq)]
pub struct WritableBookContentImpl {
    pub pages: Vec<String>,
}

impl DataComponentCodec for WritableBookContentImpl {
    type Value = WritableBookContentImpl;

    open spec fn format() -> Format {
        <ListOf<RawCount, RawText> as DataComponentCodec>::format()
    }

    open spec fn val(v: WritableBookContentImpl) -> Val {
        <ListOf<RawCount, RawText> as DataComponentCodec>::val(v.pages)
    }

    fn deserialize(seq: &mut &[u8], ctx: &Context) -> (r: Result<WritableBookContentImpl, ReadingError>) {
        let pages = <ListOf<RawCount, RawText> as DataComponentCodec>::deserialize(seq, ctx)?;
        Ok(WritableBookContentImpl { pages })
    }

    fn serialize(value: &WritableBookContentImpl, out: &mut Vec<u8>, ctx: &Context) -> (r: Result<(), WritingError>) {
        <ListOf<RawCount, RawText> as DataComponentCodec>::serialize(&value.pages, out, ctx)
    }

    fn equal(a: &WritableBookContentImpl, b: &WritableBookContentImpl) -> (r: bool) {
        <ListOf<RawCount, RawText> as DataComponentCodec>::equal(&a.pages, &b.pages)
    }
}

/// A book that was signed.
#[derive(Debug, PartialEq)]
pub struct WrittenBookContentImpl {
    pub title: String,
    pub author: String,
    pub pages: Vec<String>,
}

/// A flag that is read over and written as set.
pub struct ResolvedFlag;

impl DataComponentCodec for ResolvedFlag {
    type Value = ();

    open spec fn format() -> Format {
        Format::Fixed(Box::new(AsBool::format()), Box::new(Val::Bool(true)), Box::new(Val::Unit))
    }

    open spec fn val(v: ()) -> Val {
        Val::Unit
    }

    fn deserialize(seq: &mut &[u8], ctx: &Context) -> (r: Result<(), ReadingError>) {
        proof {
            reveal(read_val);
        }
        AsBool::deserialize(seq, ctx)?;
        Ok(())
    }

    fn serialize(value: &(), out: &mut Vec<u8>, ctx: &Context) -> (r: Result<(), WritingError>) {
        proof {
            reveal(write_val);
        }
        AsBool::serialize(&true, out, ctx)
    }

    fn equal(a: &(), b: &()) -> (r: bool) {
        true
    }
}

impl DataComponentCodec for WrittenBookContentImpl {
    type Value = WrittenBookContentImpl;

    open spec fn format() -> Format {
        Format::Pair(
            Box::new(RawText::format()),
            Box::new(
                Format::Pair(
                    Box::new(AsText::format()),
                    Box::new(
                        Format::Pair(
                            Box::new(SkippedType::format()),
                            Box::new(
                                Format::Pair(
                                    Box::new(<ListOf<RawCount, WrittenPage> as DataComponentCodec>::format()),
                                    Box::new(ResolvedFlag::format()),
                                ),
                            ),
                        ),
                    ),
                ),
            ),
        )
    }

    open spec fn val(v: WrittenBookContentImpl) -> Val {
        pair(
            RawText::val(v.title),
            pair(
                Val::Text(v.author@),
                pair(Val::Unit, pair(<ListOf<RawCount, WrittenPage> as DataComponentCodec>::val(v.pages), Val::Unit)),
            ),
        )
    }

    fn deserialize(seq: &mut &[u8], ctx: &Context) -> (r: Result<WrittenBookContentImpl, ReadingError>) {
        proof {
            reveal_with_fuel(read_val, 5);
        }
        let title = RawText::deserialize(seq, ctx)?;
        let author = AsText::deserialize(seq, ctx)?;
        SkippedType::deserialize(seq, ctx)?;
        let pages = <ListOf<RawCount, WrittenPage> as DataComponentCodec>::deserialize(seq, ctx)?;
        ResolvedFlag::deserialize(seq, ctx)?;
        Ok(WrittenBookContentImpl { title, author, pages })
    }

    fn serialize(value: &WrittenBookContentImpl, out: &mut Vec<u8>, ctx: &Context) -> (r: Result<(), WritingError>) {
        proof {
            reveal_with_fuel(write_val, 5);
        }
        RawText::serialize(&value.title, out, ctx)?;
        AsText::serialize(&value.author, out, ctx)?;
        SkippedType::serialize(&(), out, ctx)?;
        <ListOf<RawCount, WrittenPage> as DataComponentCodec>::serialize(&value.pages, out, ctx)?;
        ResolvedFlag::serialize(&(), out, ctx)
    }

    fn equal(a: &WrittenBookContentImpl, b: &WrittenBookContentImpl) -> (r: bool) {
        proof {
            reveal_with_fuel(val_same, 5);
        }
        RawText::equal(&a.title, &b.title) && same_text(a.author.as_str(), b.author.as_str()) && <ListOf<
            RawCount,
            WrittenPage,
        > as DataComponentCodec>::equal(&a.pages, &b.pages)
    }
}

} // verus!
