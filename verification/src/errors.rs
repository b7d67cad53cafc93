//! The errors of the wire and tag codecs.
use vstd::prelude::*;

verus! {

/// What went wrong: a text and, where a number or a name is to blame, that number or name; with a
/// number may come the one that it was held against. They belong where the text has braces.
#[derive(Clone, Debug, PartialEq, Eq)]
pub struct Detail {
    pub text: &'static str,
    pub value: Option<i128>,
    pub bound: Option<i128>,
    pub name: Option<String>,
}

/// What a [`Detail`] says.
pub struct Told {
    pub text: &'static str,
    pub value: Option<i128>,
    pub bound: Option<i128>,
    pub name: Option<Seq<char>>,
}

impl View for Detail {
    type V = Told;

    open spec fn view(&self) -> Told {
        Told {
            text: self.text,
            value: self.value,
            bound: self.bound,
            name: match self.name {
                Some(name) => Some(name@),
                None => None,
            },
        }
    }
}

/// Why a value could not be read from its wire form.
#[derive(Clone, Debug, PartialEq, Eq)]
pub enum ReadingError {
    /// The input ended too early.
    Incomplete,
    /// The input holds something that the format does not allow.
    Message(Detail),
    /// The input announces more than a limit allows.
    TooLarge(Detail),
}

/// What a [`ReadingError`] says.
pub enum ReadFault {
    Incomplete,
    Message(Told),
    TooLarge(Told),
}

impl View for ReadingError {
    type V = ReadFault;

    open spec fn view(&self) -> ReadFault {
        match *self {
            ReadingError::Incomplete => ReadFault::Incomplete,
            ReadingError::Message(d) => ReadFault::Message(d@),
            ReadingError::TooLarge(d) => ReadFault::TooLarge(d@),
        }
    }
}

/// Why a value could not be written in its wire form.
#[derive(Clone, Debug, PartialEq, Eq)]
pub enum WritingError {
    /// The value has no wire form.
    Message(Detail),
}

/// What a [`WritingError`] says.
pub enum WriteFault {
    Message(Told),
}

impl View for WritingError {
    type V = WriteFault;

    open spec fn view(&self) -> WriteFault {
        match *self {
            WritingError::Message(d) => WriteFault::Message(d@),
        }
    }
}

/// Why a tag could not be read.
#[derive(Clone, Copy, Debug, PartialEq, Eq)]
pub enum NbtError {
    /// The input ended too early.
    Incomplete,
    /// A variable-length 32-bit number is longer than five bytes.
    VarIntTooLarge,
    /// A variable-length 64-bit number is longer than ten bytes.
    VarLongTooLarge,
    /// The estimated allocation is above the quota.
    NbtQuotaExceeded { quota: usize },
    /// An array's byte length does not fit the machine's word.
    LargeLength(usize),
    /// An array or list has a negative length.
    NegativeLength(i32),
    /// A string is no modified UTF-8.
    Cesu8DecodingError,
    /// A tag is nested too deeply.
    MaxDepthExceeded,
    /// No tag has this type number.
    UnknownTagId(u8),
    /// A position before the start of the input was asked for.
    InvalidSeek,
}

/// The result of a read with what its error says.
pub open spec fn told<T>(r: Result<T, ReadingError>) -> Result<T, ReadFault> {
    match r {
        Ok(v) => Ok(v),
        Err(e) => Err(e@),
    }
}

/// The result of a write with what its error says.
pub open spec fn written<T>(r: Result<T, WritingError>) -> Result<T, WriteFault> {
    match r {
        Ok(v) => Ok(v),
        Err(e) => Err(e@),
    }
}

/// A reading error with a fixed text.
pub open spec fn msg(text: &'static str) -> ReadFault {
    ReadFault::Message(Told { text, value: None, bound: None, name: None })
}

/// A reading error with a text and the number to blame.
pub open spec fn msg_value(text: &'static str, value: int) -> ReadFault {
    ReadFault::Message(Told { text, value: Some(value as i128), bound: None, name: None })
}

/// A reading error with a text and the name to blame.
pub open spec fn msg_name(text: &'static str, name: Seq<char>) -> ReadFault {
    ReadFault::Message(Told { text, value: None, bound: None, name: Some(name) })
}

/// A reading error for a limit that is exceeded.
pub open spec fn too_large(text: &'static str) -> ReadFault {
    ReadFault::TooLarge(Told { text, value: None, bound: None, name: None })
}

/// A reading error for a limit that is exceeded by a number.
pub open spec fn too_large_value(text: &'static str, value: int) -> ReadFault {
    ReadFault::TooLarge(Told { text, value: Some(value as i128), bound: None, name: None })
}

/// A reading error for a limit that is exceeded by a number, and what the number was held against.
pub open spec fn too_large_beside(text: &'static str, value: int, bound: int) -> ReadFault {
    ReadFault::TooLarge(Told { text, value: Some(value as i128), bound: Some(bound as i128), name: None })
}

/// A writing error with a fixed text.
pub open spec fn wmsg(text: &'static str) -> WriteFault {
    WriteFault::Message(Told { text, value: None, bound: None, name: None })
}

/// A writing error with a text and the number to blame.
pub open spec fn wmsg_value(text: &'static str, value: int) -> WriteFault {
    WriteFault::Message(Told { text, value: Some(value as i128), bound: None, name: None })
}

/// A writing error with a text, the number to blame, and what it was held against.
pub open spec fn wmsg_beside(text: &'static str, value: int, bound: int) -> WriteFault {
    WriteFault::Message(Told { text, value: Some(value as i128), bound: Some(bound as i128), name: None })
}

/// A writing error with a text and the name to blame.
pub open spec fn wmsg_name(text: &'static str, name: Seq<char>) -> WriteFault {
    WriteFault::Message(Told { text, value: None, bound: None, name: Some(name) })
}

/// Builds [`msg`].
pub fn message(text: &'static str) -> (r: ReadingError)
    ensures
        r@ == msg(text),
{
    ReadingError::Message(Detail { text, value: None, bound: None, name: None })
}

/// Builds [`msg_value`].
pub fn message_value(text: &'static str, value: i128) -> (r: ReadingError)
    ensures
        r@ == msg_value(text, value as int),
{
    ReadingError::Message(Detail { text, value: Some(value), bound: None, name: None })
}

/// Builds [`msg_name`].
pub fn message_name(text: &'static str, name: &str) -> (r: ReadingError)
    ensures
        r@ == msg_name(text, name@),
{
    ReadingError::Message(Detail { text, value: None, bound: None, name: Some(name.to_string()) })
}

/// Builds [`too_large`].
pub fn limit_exceeded(text: &'static str) -> (r: ReadingError)
    ensures
        r@ == too_large(text),
{
    ReadingError::TooLarge(Detail { text, value: None, bound: None, name: None })
}

/// Builds [`too_large_value`].
pub fn limit_exceeded_by(text: &'static str, value: i128) -> (r: ReadingError)
    ensures
        r@ == too_large_value(text, value as int),
{
    ReadingError::TooLarge(Detail { text, value: Some(value), bound: None, name: None })
}

/// Builds [`too_large_beside`].
pub fn limit_exceeded_beside(text: &'static str, value: i128, bound: i128) -> (r: ReadingError)
    ensures
        r@ == too_large_beside(text, value as int, bound as int),
{
    ReadingError::TooLarge(Detail { text, value: Some(value), bound: Some(bound), name: None })
}

/// Builds [`wmsg`].
pub fn cannot_write(text: &'static str) -> (r: WritingError)
    ensures
        r@ == wmsg(text),
{
    WritingError::Message(Detail { text, value: None, bound: None, name: None })
}

/// Builds [`wmsg_value`].
pub fn cannot_write_value(text: &'static str, value: i128) -> (r: WritingError)
    ensures
        r@ == wmsg_value(text, value as int),
{
    WritingError::Message(Detail { text, value: Some(value), bound: None, name: None })
}

/// Builds [`wmsg_beside`].
pub fn cannot_write_beside(text: &'static str, value: i128, bound: i128) -> (r: WritingError)
    ensures
        r@ == wmsg_beside(text, value as int, bound as int),
{
    WritingError::Message(Detail { text, value: Some(value), bound: Some(bound), name: None })
}

/// Builds [`wmsg_name`].
pub fn cannot_write_name(text: &'static str, name: &str) -> (r: WritingError)
    ensures
        r@ == wmsg_name(text, name@),
{
    WritingError::Message(Detail { text, value: None, bound: None, name: Some(name.to_string()) })
}

} // verus!
