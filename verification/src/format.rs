//! Wire formats as data: what the bytes of a value are and what reading bytes gives, for every
//! format that a component uses.
use vstd::prelude::*;
use crate::bytes::{be_bytes, be_signed, pow256, to_signed, to_unsigned};
use crate::components::component_format;
use crate::data_component::{component_id, component_of_id, DataComponent};
use crate::errors::{msg, msg_value, too_large, too_large_value, wmsg, wmsg_name, NbtError, ReadFault, WriteFault};
use crate::item_stack::Item;
use crate::nbt_codec::{read_tag, tag_bytes, writable, TagParse};
use crate::nbt_read::MAX_TAG_DEPTH;
use crate::nbt_tag::{compound_get, Tag};
use crate::persist::{plain_from_tag, plain_to_tag};
use crate::predicate::{read_predicates, write_predicates};
use crate::registry::{enchantment_known, find_item, find_name, kind_known, Registries, RegistryKind};
use crate::identifier::{bare_name, identifier_of};
use crate::wire::{done, fail, flag, read_bool, read_signed, read_text, read_unsigned, read_var_int, text, text_fits, var_int, wire_count, Outcome, MAX_TEXT_BYTES};

verus! {

/// A value as the formats see it.
pub enum Val {
    Unit,
    Bool(bool),
    Int(int),
    /// A floating-point number, by its bit pattern of 4 or 8 bytes.
    Float(nat, nat),
    Text(Seq<char>),
    Pair(Box<Val>, Box<Val>),
    List(Seq<Val>),
    Absent,
    Present(Box<Val>),
    Nbt(Tag),
    Stack(StackVal),
}

/// The value of a component.
pub struct ComponentVal {
    pub kind: DataComponent,
    pub val: Val,
}

/// The components that a stack adds and, where the value is absent, removes.
pub type PatchVal = Seq<(DataComponent, Option<ComponentVal>)>;

/// A stack of items: the item, how many, and what its components differ in.
pub struct StackVal {
    pub item: Item,
    pub count: int,
    pub patch: PatchVal,
}

/// Two values side by side.
pub open spec fn pair(a: Val, b: Val) -> Val {
    Val::Pair(Box::new(a), Box::new(b))
}

/// An optional value.
pub open spec fn optional(v: Option<Val>) -> Val {
    match v {
        Some(v) => Val::Present(Box::new(v)),
        None => Val::Absent,
    }
}

/// What reading and writing depend on: the registries, how deeply stacks may still be nested
/// inside each other, and how many more components may be nested inside each other.
pub struct Ctx {
    pub regs: Registries,
    pub depth: nat,
    pub budget: nat,
}

/// The text of an error, and whether the number to blame goes with it.
pub struct Blame {
    pub text: &'static str,
    pub number: bool,
}

/// The error for the number `v`.
pub open spec fn blame(b: Blame, v: int) -> ReadFault {
    if b.number {
        msg_value(b.text, v)
    } else {
        msg(b.text)
    }
}

/// The error for a limit that the number `v` exceeds.
pub open spec fn too_large_blame(b: Blame, v: int) -> ReadFault {
    if b.number {
        too_large_value(b.text, v)
    } else {
        too_large(b.text)
    }
}

/// How a count is checked.
pub enum CountRule {
    /// Not at all; a negative count wraps.
    Raw,
    /// At most `max`; a negative count wraps, and so exceeds it.
    Capped { max: nat, exceeds: Blame },
    /// Between zero and `max`.
    Range { max: nat, out: Blame },
    /// Not negative, and at most `max`, where exceeding it is a limit.
    Limited { negative: Blame, max: nat, over: Blame },
    /// Not negative, and at most `max`.
    Signed { negative: Blame, max: nat, over: &'static str },
    /// Not negative.
    NonNegative { negative: Blame },
}

/// The count that the number `v` stands for, or the error.
pub open spec fn check_count(rule: CountRule, v: int) -> Result<nat, ReadFault> {
    match rule {
        CountRule::Raw => Ok(wire_count(v)),
        CountRule::Capped { max, exceeds } => if wire_count(v) > max {
            Err(blame(exceeds, wire_count(v) as int))
        } else {
            Ok(wire_count(v))
        },
        CountRule::Range { max, out } => if v < 0 || v > max {
            Err(blame(out, v))
        } else {
            Ok(v as nat)
        },
        CountRule::Limited { negative, max, over } => if v < 0 {
            Err(blame(negative, v))
        } else if v > max {
            Err(too_large_blame(over, v))
        } else {
            Ok(v as nat)
        },
        CountRule::Signed { negative, max, over } => if v < 0 {
            Err(blame(negative, v))
        } else if v > max {
            Err(msg(over))
        } else {
            Ok(v as nat)
        },
        CountRule::NonNegative { negative } => if v < 0 {
            Err(blame(negative, v))
        } else {
            Ok(v as nat)
        },
    }
}

/// How many items may be written.
pub enum Limit {
    Unlimited,
    AtMost { max: nat, over: &'static str },
}

/// What a variable-length number may be and what it stands for.
pub enum Check {
    /// A number from zero up to `max`.
    UpTo { max: int, out: Blame },
    /// A registry number, taken modulo 256.
    DamageType { unknown: Blame },
    /// The number of a component type.
    Component { range: Blame, unknown: Blame },
    /// The number of an attribute.
    Attribute { negative: Blame, unknown: Blame },
    /// The number of a status effect; the value is its name.
    Effect { range: Blame, unknown: Blame, unwritable: &'static str },
    /// The number of a jukebox song plus one; the value is its identifier.
    Song,
    /// The number of a dye colour, modulo 256, white where there is none; the value is its name.
    DyeName,
    /// The number of a dye colour, modulo 256, white where there is none.
    Dye,
    /// How a map is processed: zero locks, one scales, anything else does nothing.
    MapProcessing,
}

/// The names of the dye colours, by their numbers.
pub open spec fn dye_name(id: int) -> Seq<char> {
    if id == 1 {
        "orange"@
    } else if id == 2 {
        "magenta"@
    } else if id == 3 {
        "light_blue"@
    } else if id == 4 {
        "yellow"@
    } else if id == 5 {
        "lime"@
    } else if id == 6 {
        "pink"@
    } else if id == 7 {
        "gray"@
    } else if id == 8 {
        "light_gray"@
    } else if id == 9 {
        "cyan"@
    } else if id == 10 {
        "purple"@
    } else if id == 11 {
        "blue"@
    } else if id == 12 {
        "brown"@
    } else if id == 13 {
        "green"@
    } else if id == 14 {
        "red"@
    } else if id == 15 {
        "black"@
    } else {
        "white"@
    }
}

/// The number of the first dye colour with this name.
pub open spec fn dye_id(name: Seq<char>, from: int) -> Option<int>
    decreases 16 - from,
{
    if from < 0 || from >= 16 {
        None
    } else if dye_name(from) == name {
        Some(from)
    } else {
        dye_id(name, from + 1)
    }
}

/// What the number `v` stands for, or the error.
pub open spec fn check_read(check: Check, regs: Registries, v: int) -> Result<Val, ReadFault> {
    match check {
        Check::UpTo { max, out } => if v < 0 || v > max {
            Err(blame(out, v))
        } else {
            Ok(Val::Int(v))
        },
        Check::DamageType { unknown } => if v % 256 < regs.damage_types@.len() {
            Ok(Val::Int(v % 256))
        } else {
            Err(blame(unknown, v % 256))
        },
        Check::Component { range, unknown } => if v < 0 || v > 255 {
            Err(blame(range, v))
        } else if component_of_id(v) is Some {
            Ok(Val::Int(v))
        } else {
            Err(blame(unknown, v))
        },
        Check::Attribute { negative, unknown } => if v < 0 {
            Err(blame(negative, v))
        } else if v < regs.attributes@.len() {
            Ok(Val::Int(v))
        } else {
            Err(blame(unknown, v))
        },
        Check::Effect { range, unknown, .. } => if v < 0 || v > 0xffff {
            Err(blame(range, v))
        } else if v < regs.effects@.len() {
            Ok(Val::Text(regs.effects@[v]@))
        } else {
            Err(blame(unknown, v))
        },
        Check::Song => if v == 0 {
            Err(msg("Direct inline jukebox song holders are unsupported"))
        } else if v < 0 {
            Err(msg("Negative jukebox song holder ID"))
        } else if v - 1 < regs.songs@.len() {
            Ok(Val::Text("minecraft:"@ + regs.songs@[v - 1]@))
        } else {
            Err(msg_value("Unknown jukebox song registry ID: {}", v - 1))
        },
        Check::DyeName => Ok(Val::Text(dye_name(v % 256))),
        Check::Dye => Ok(Val::Int(if v % 256 < 16 { v % 256 } else { 0 })),
        Check::MapProcessing => Ok(
            if v == 0 || v == 1 {
                optional(Some(Val::Int(v)))
            } else {
                Val::Absent
            },
        ),
    }
}

/// The number that a value is written as, or the error.
pub open spec fn check_write(check: Check, regs: Registries, v: Val) -> Result<int, WriteFault> {
    match (check, v) {
        (Check::Effect { unwritable, .. }, Val::Text(t)) => match find_name(regs.effects@, t) {
            Some(i) => Ok(written_count(i as nat)),
            None => Err(wmsg(unwritable)),
        },
        (Check::Song, Val::Text(t)) => match find_name(regs.songs@, bare_name(t)) {
            Some(i) => Ok(written_count((i + 1) as nat)),
            None => Err(wmsg_name("Unknown jukebox song: {}", t)),
        },
        (Check::DyeName, Val::Text(t)) => Ok(
            match dye_id(t, 0) {
                Some(i) => i,
                None => 0,
            },
        ),
        (Check::MapProcessing, Val::Present(p)) => match *p {
            Val::Int(i) => Ok(i),
            _ => Ok(0),
        },
        (Check::MapProcessing, _) => Ok(0),
        (_, Val::Int(i)) => Ok(i),
        _ => arbitrary(),
    }
}

/// A format.
pub enum Format {
    /// Nothing.
    Unit,
    /// A flag.
    Bool,
    /// A variable-length number.
    VarInt,
    /// A variable-length number taken as unsigned.
    VarU32,
    /// A signed number of this many bytes.
    Signed(nat),
    /// A floating-point number of this many bytes.
    Float(nat),
    /// A text of at most this many bytes.
    Text(nat),
    /// A text that is an identifier.
    Identifier,
    /// A variable-length number that stands for something.
    Checked(Check),
    /// One value behind the other.
    Pair(Box<Format>, Box<Format>),
    /// A flag, and a value where it is set.
    Opt(Box<Format>),
    /// A count, and that many values.
    List(CountRule, Limit, Box<Format>),
    /// As a list, where a value that came before is dropped.
    Distinct(CountRule, Limit, Box<Format>),
    /// A number that says which of the formats follows; any other number is an error.
    Choice(Seq<Format>, Blame),
    /// Always written as the first value; whatever is read, the second value comes out.
    Fixed(Box<Format>, Box<Val>, Box<Val>),
    /// A sound: zero and its name and range, or its registry number plus one.
    Sound(SoundRule),
    /// A set of registry entries: zero and a tag, or one more than their number and their numbers.
    IdSet(RegistryKind),
    /// A set of registry entries that is skipped.
    SkippedSet,
    /// A type, and two numbers of four bytes where the type is one; skipped.
    SkippedDamage,
    /// The number of an enchantment, taken modulo 256, and its level.
    Leveled(&'static str),
    /// A status effect with the effects hidden behind it.
    Effect,
    /// A tag in one of its roles.
    Nbt(NbtRole),
    /// A component in the form in which it is stored.
    Stored(DataComponent),
    /// The name and the number of a profile: both, or each where it is known.
    ProfileHead,
    /// A position packed in eight bytes.
    BlockPos,
    /// The stacks of a container, slot by slot.
    Slots,
    /// A stack of items that is not empty.
    Template,
    /// The block predicates of adventure mode.
    Predicates,
}

/// What a tag is read for.
pub enum NbtRole {
    /// Any tag but the end tag, which is refused with this text.
    Required(&'static str),
    /// Any tag.
    Any,
    /// A compound, or the empty one for the end tag.
    Compound,
    /// A compound, or the empty one for any other tag.
    LenientCompound,
    /// A text component, or the empty text for the end tag.
    Line,
    /// As a line, but only its plain text is written.
    Name,
    /// The plain text of a text component.
    Page,
    /// The name of an item.
    ItemName,
}

/// How a sound is read.
pub enum SoundRule {
    /// An unknown number is refused.
    Known(&'static str),
    /// An unknown number is refused after the flag that follows was read.
    KnownThenFlag(&'static str),
    /// An unknown number is refused with the second text, every other error becomes the first.
    Renamed(&'static str, &'static str),
    /// A flag, and a sound where it is set; an unknown number counts as no sound.
    Optional(&'static str),
}

/// One format behind the other.
pub open spec fn both(a: Format, b: Format) -> Format {
    Format::Pair(Box::new(a), Box::new(b))
}

/// A value that may be absent.
pub open spec fn opt(a: Format) -> Format {
    Format::Opt(Box::new(a))
}

/// A count, and that many values.
pub open spec fn list(rule: CountRule, limit: Limit, a: Format) -> Format {
    Format::List(rule, limit, Box::new(a))
}

/// A list whose count is not checked.
pub open spec fn raw_list(a: Format) -> Format {
    list(CountRule::Raw, Limit::Unlimited, a)
}

/// A value that is always written as `written`, and taken for `read` whatever is read.
pub open spec fn fixed(a: Format, written: Val, read: Val) -> Format {
    Format::Fixed(Box::new(a), Box::new(written), Box::new(read))
}

/// A text of the usual length.
pub open spec fn plain() -> Format {
    Format::Text(MAX_TEXT_BYTES as nat)
}

/// A count of items as it is written: the low 32 bits, as a signed number.
pub open spec fn written_count(n: nat) -> int {
    to_signed(n % pow256(4), 4)
}

/// Reading a tag; the end tag counts as none.
pub open spec fn read_nbt(s: Seq<u8>) -> Outcome<Option<Tag>> {
    match read_tag(MAX_TAG_DEPTH as nat, None, s, 0) {
        TagParse { value: Ok(Tag::End), rest, .. } => done(None, rest),
        TagParse { value: Ok(t), rest, .. } => done(Some(t), rest),
        TagParse { value: Err(NbtError::Incomplete), rest, .. } => fail(ReadFault::Incomplete, rest),
        TagParse { value: Err(_), rest, .. } => fail(msg("invalid tag"), rest),
    }
}

/// The plain text of a text component.
pub open spec fn plain_text(t: Tag) -> Seq<char> {
    match t {
        Tag::String(s) => s,
        Tag::Compound(c) => match compound_get(c, "text"@) {
            Some(Tag::String(s)) => s,
            _ => match compound_get(c, "translate"@) {
                Some(Tag::String(s)) => s,
                _ => Seq::empty(),
            },
        },
        _ => Seq::empty(),
    }
}

/// Whether a tag is a text component: a text, a compound, or a list with something in it.
pub open spec fn is_component(t: Tag) -> bool {
    match t {
        Tag::String(_) => true,
        Tag::Compound(_) => true,
        Tag::List(v) => v.len() > 0,
        _ => false,
    }
}

/// What a tag that was read stands for in its role, or the error.
pub open spec fn nbt_role(role: NbtRole, t: Option<Tag>) -> Result<Val, ReadFault> {
    match (role, t) {
        (NbtRole::Required(missing), None) => Err(msg(missing)),
        (NbtRole::Required(_), Some(t)) => Ok(Val::Nbt(t)),
        (NbtRole::Any, None) => Ok(Val::Nbt(Tag::End)),
        (NbtRole::Any, Some(t)) => Ok(Val::Nbt(t)),
        (NbtRole::Compound, None) => Ok(Val::Nbt(Tag::Compound(Seq::empty()))),
        (NbtRole::Compound, Some(Tag::Compound(c))) => Ok(Val::Nbt(Tag::Compound(c))),
        (NbtRole::Compound, Some(_)) => Err(msg("tag is not a compound")),
        (NbtRole::LenientCompound, Some(Tag::Compound(c))) => Ok(Val::Nbt(Tag::Compound(c))),
        (NbtRole::LenientCompound, _) => Ok(Val::Nbt(Tag::Compound(Seq::empty()))),
        (NbtRole::Line, None) => Ok(Val::Nbt(Tag::String(Seq::empty()))),
        (NbtRole::Line, Some(t)) => Ok(Val::Nbt(t)),
        (NbtRole::Name, None) => Ok(Val::Nbt(Tag::String(Seq::empty()))),
        (NbtRole::Name, Some(t)) => Ok(Val::Nbt(t)),
        (NbtRole::Page, None) => Ok(Val::Text(Seq::empty())),
        (NbtRole::Page, Some(t)) => Ok(Val::Text(plain_text(t))),
        (NbtRole::ItemName, None) => Err(msg("Missing ItemName NBT")),
        (NbtRole::ItemName, Some(t)) => if !(t is String || t is Compound || t is List) {
            Err(msg("Invalid ItemName NBT tag type"))
        } else if !is_component(t) {
            Err(msg("Invalid ItemName component"))
        } else {
            Ok(Val::Nbt(t))
        },
    }
}

/// The tag that a value is written as in its role.
pub open spec fn role_tag(role: NbtRole, v: Val) -> Tag {
    match (role, v) {
        (NbtRole::Name, Val::Nbt(t)) => Tag::String(plain_text(t)),
        (NbtRole::Page, Val::Text(t)) => Tag::String(t),
        (_, Val::Nbt(t)) => t,
        _ => arbitrary(),
    }
}

/// What writing gives: success or an error, and the output after it.
pub struct Sink {
    pub result: Result<(), WriteFault>,
    pub out: Seq<u8>,
}

/// A successful write.
pub open spec fn put(out: Seq<u8>, b: Seq<u8>) -> Sink {
    Sink { result: Ok(()), out: out + b }
}

/// A failed write.
pub open spec fn refuse(e: WriteFault, out: Seq<u8>) -> Sink {
    Sink { result: Err(e), out }
}

/// Appending a tag, where it has a binary form.
pub open spec fn put_nbt(out: Seq<u8>, t: Tag) -> Sink {
    if writable(t) {
        put(out, tag_bytes(t))
    } else {
        refuse(wmsg("tag cannot be written"), out)
    }
}

/// Appending a text, where it is not too long.
pub open spec fn put_text(out: Seq<u8>, t: Seq<char>, bound: nat) -> Sink {
    if text_fits(t, bound) {
        put(out, text(t))
    } else {
        refuse(wmsg("string is too long"), out)
    }
}

/// Reading a sound without asking whether its number is known.
pub open spec fn read_any_sound(s: Seq<u8>) -> Outcome<Val> {
    match read_var_int(s) {
        Outcome { value: Err(e), rest } => fail(e, rest),
        Outcome { value: Ok(v), rest } => if v != 0 {
            done(Val::Int((v - 1) % 0x1_0000), rest)
        } else {
            match read_text(rest, MAX_TEXT_BYTES as nat) {
                Outcome { value: Err(e), rest } => fail(e, rest),
                Outcome { value: Ok(name), rest } => match read_bool(rest) {
                    Outcome { value: Err(e), rest } => fail(e, rest),
                    Outcome { value: Ok(false), rest } => done(pair(Val::Text(name), Val::Absent), rest),
                    Outcome { value: Ok(true), rest } => match read_unsigned(rest, 4) {
                        Outcome { value: Err(e), rest } => fail(e, rest),
                        Outcome { value: Ok(range), rest } => done(
                            pair(Val::Text(name), optional(Some(Val::Float(4, range)))),
                            rest,
                        ),
                    },
                },
            }
        },
    }
}

/// Whether a sound is given by its name or by a known number.
pub open spec fn sound_known(regs: Registries, v: Val) -> bool {
    match v {
        Val::Int(i) => i < regs.sounds@.len(),
        _ => true,
    }
}

/// Reading a sound.
pub open spec fn read_sound(rule: SoundRule, regs: Registries, s: Seq<u8>) -> Outcome<Val> {
    match rule {
        SoundRule::Known(unknown) => match read_any_sound(s) {
            Outcome { value: Err(e), rest } => fail(e, rest),
            Outcome { value: Ok(v), rest } => if sound_known(regs, v) {
                done(v, rest)
            } else {
                fail(msg(unknown), rest)
            },
        },
        SoundRule::KnownThenFlag(unknown) => match read_any_sound(s) {
            Outcome { value: Err(e), rest } => fail(e, rest),
            Outcome { value: Ok(v), rest } => match read_bool(rest) {
                Outcome { value: Err(e), rest } => fail(e, rest),
                Outcome { value: Ok(b), rest } => if sound_known(regs, v) {
                    done(pair(v, Val::Bool(b)), rest)
                } else {
                    fail(msg(unknown), rest)
                },
            },
        },
        SoundRule::Renamed(unreadable, unknown) => match read_any_sound(s) {
            Outcome { value: Err(e), rest } => fail(msg(unreadable), rest),
            Outcome { value: Ok(v), rest } => if sound_known(regs, v) {
                done(v, rest)
            } else {
                fail(msg(unknown), rest)
            },
        },
        SoundRule::Optional(unreadable) => match read_bool(s) {
            Outcome { value: Err(e), rest } => fail(e, rest),
            Outcome { value: Ok(false), rest } => done(Val::Absent, rest),
            Outcome { value: Ok(true), rest } => match read_any_sound(rest) {
                Outcome { value: Err(e), rest } => fail(msg(unreadable), rest),
                Outcome { value: Ok(v), rest } => if sound_known(regs, v) {
                    done(optional(Some(v)), rest)
                } else {
                    done(Val::Absent, rest)
                },
            },
        },
    }
}

/// Appending a sound.
pub open spec fn write_any_sound(out: Seq<u8>, v: Val) -> Sink {
    match v {
        Val::Int(i) => put(out, var_int(i + 1)),
        Val::Pair(name, range) => match (*name, *range) {
            (Val::Text(t), range) => match put_text(out + var_int(0), t, MAX_TEXT_BYTES as nat) {
                Sink { result: Err(e), out } => refuse(e, out),
                Sink { result: Ok(_), out } => match range {
                    Val::Present(r) => match *r {
                        Val::Float(_, bits) => put(out + flag(true), be_bytes(bits, 4)),
                        _ => arbitrary(),
                    },
                    _ => put(out, flag(false)),
                },
            },
            _ => arbitrary(),
        },
        _ => arbitrary(),
    }
}

/// Appending a sound under a rule.
pub open spec fn write_sound(rule: SoundRule, out: Seq<u8>, v: Val) -> Sink {
    match (rule, v) {
        (SoundRule::KnownThenFlag(_), Val::Pair(a, b)) => match *b {
            Val::Bool(f) => match write_any_sound(out, *a) {
                Sink { result: Err(e), out } => refuse(e, out),
                Sink { result: Ok(_), out } => put(out, flag(f)),
            },
            _ => arbitrary(),
        },
        (SoundRule::Optional(_), Val::Present(a)) => write_any_sound(out + flag(true), *a),
        (SoundRule::Optional(_), _) => put(out, flag(false)),
        _ => write_any_sound(out, v),
    }
}

/// Reading `n` more registry numbers behind those in `head`.
pub open spec fn read_ids(kind: RegistryKind, regs: Registries, n: nat, s: Seq<u8>, head: Seq<Val>) -> Outcome<Val>
    decreases n,
{
    if n == 0 {
        done(Val::List(head), s)
    } else {
        match read_var_int(s) {
            Outcome { value: Err(e), rest } => fail(e, rest),
            Outcome { value: Ok(v), rest } => if kind_known(regs, kind, v % 0x1_0000) {
                read_ids(kind, regs, (n - 1) as nat, rest, head.push(Val::Int(v % 0x1_0000)))
            } else {
                fail(msg("Invalid registry id VarInt in IDSet"), rest)
            },
        }
    }
}

/// How many entries a set may have.
pub const MAX_IDSET_ELEMENTS: usize = 256;

/// Reading a set of registry entries.
pub open spec fn read_id_set(kind: RegistryKind, regs: Registries, s: Seq<u8>) -> Outcome<Val> {
    match read_var_int(s) {
        Outcome { value: Err(e), rest } => fail(e, rest),
        Outcome { value: Ok(v), rest } => if v == 0 {
            match read_text(rest, MAX_TEXT_BYTES as nat) {
                Outcome { value: Err(e), rest } => fail(e, rest),
                Outcome { value: Ok(t), rest } => done(pair(Val::Int(0), Val::Text(t)), rest),
            }
        } else if v < 0 {
            fail(msg("Negative type/len VarInt in IDSet"), rest)
        } else if v - 1 > MAX_IDSET_ELEMENTS {
            fail(msg("Too many IDSet elements"), rest)
        } else {
            match read_ids(kind, regs, (v - 1) as nat, rest, Seq::empty()) {
                Outcome { value: Err(e), rest } => fail(e, rest),
                Outcome { value: Ok(l), rest } => done(pair(Val::Int(1), l), rest),
            }
        },
    }
}

/// The registry numbers of `l` from the `i`th on.
pub open spec fn ids_bytes(l: Seq<Val>, i: int) -> Seq<u8>
    decreases l.len() - i,
{
    if i < 0 || i >= l.len() {
        Seq::empty()
    } else {
        match l[i] {
            Val::Int(id) => var_int(id) + ids_bytes(l, i + 1),
            _ => arbitrary(),
        }
    }
}

/// Appending a set of registry entries.
pub open spec fn write_id_set(out: Seq<u8>, v: Val) -> Sink {
    match v {
        Val::Pair(_, b) => match *b {
            Val::Text(t) => put_text(out + var_int(0), t, MAX_TEXT_BYTES as nat),
            Val::List(l) => if l.len() > MAX_IDSET_ELEMENTS {
                refuse(wmsg("Too many IDSet elements"), out)
            } else {
                put(out + var_int(l.len() as int + 1), ids_bytes(l, 0))
            },
            _ => arbitrary(),
        },
        _ => arbitrary(),
    }
}

/// Skipping `n` variable-length numbers.
pub open spec fn skip_var_ints(n: nat, s: Seq<u8>) -> Outcome<Val>
    decreases n,
{
    if n == 0 {
        done(Val::Unit, s)
    } else {
        match read_var_int(s) {
            Outcome { value: Err(e), rest } => fail(e, rest),
            Outcome { value: Ok(_), rest } => skip_var_ints((n - 1) as nat, rest),
        }
    }
}

/// Skipping a set of registry entries.
pub open spec fn skip_id_set(s: Seq<u8>) -> Outcome<Val> {
    match read_var_int(s) {
        Outcome { value: Err(e), rest } => fail(e, rest),
        Outcome { value: Ok(v), rest } => if v == 0 {
            match read_text(rest, MAX_TEXT_BYTES as nat) {
                Outcome { value: Err(e), rest } => fail(e, rest),
                Outcome { value: Ok(_), rest } => done(Val::Unit, rest),
            }
        } else if v > 0 {
            skip_var_ints((v - 1) as nat, rest)
        } else {
            done(Val::Unit, rest)
        },
    }
}

/// Skipping a type, and two numbers of four bytes where it is one.
pub open spec fn skip_damage(s: Seq<u8>) -> Outcome<Val> {
    match read_var_int(s) {
        Outcome { value: Err(e), rest } => fail(e, rest),
        Outcome { value: Ok(v), rest } => if v == 1 {
            match read_unsigned(rest, 4) {
                Outcome { value: Err(e), rest } => fail(e, rest),
                Outcome { value: Ok(_), rest } => match read_unsigned(rest, 4) {
                    Outcome { value: Err(e), rest } => fail(e, rest),
                    Outcome { value: Ok(_), rest } => done(Val::Unit, rest),
                },
            }
        } else {
            done(Val::Unit, rest)
        },
    }
}

/// Reading an enchantment and its level.
pub open spec fn read_leveled(unknown: &'static str, regs: Registries, s: Seq<u8>) -> Outcome<Val> {
    match read_var_int(s) {
        Outcome { value: Err(e), rest } => fail(e, rest),
        Outcome { value: Ok(v), rest } => match read_var_int(rest) {
            Outcome { value: Err(e), rest } => fail(e, rest),
            Outcome { value: Ok(level), rest } => if enchantment_known(regs, v % 256) {
                done(pair(Val::Int(v % 256), Val::Int(level)), rest)
            } else {
                fail(msg(unknown), rest)
            },
        },
    }
}

/// Appending an enchantment and its level.
pub open spec fn write_leveled(out: Seq<u8>, v: Val) -> Sink {
    match v {
        Val::Pair(a, b) => match (*a, *b) {
            (Val::Int(id), Val::Int(level)) => put(out + var_int(id), var_int(level)),
            _ => arbitrary(),
        },
        _ => arbitrary(),
    }
}

/// How many effects may be hidden behind an effect.
pub const MAX_EFFECT_DEPTH: usize = 32;

/// A status effect: its name, amplifier, duration and flags, and the effect hidden behind it.
pub open spec fn effect_val(name: Seq<char>, amplifier: int, duration: int, ambient: bool, particles: bool, icon: bool, hidden: Val) -> Val {
    pair(
        Val::Text(name),
        pair(
            Val::Int(amplifier),
            pair(Val::Int(duration), pair(Val::Bool(ambient), pair(Val::Bool(particles), pair(Val::Bool(icon), hidden)))),
        ),
    )
}

/// Reading the details of a status effect, behind which `left` more may be hidden.
pub open spec fn read_effect_details(name: Seq<char>, left: nat, s: Seq<u8>) -> Outcome<Val>
    decreases left,
{
    match read_var_int(s) {
        Outcome { value: Err(e), rest } => fail(e, rest),
        Outcome { value: Ok(amplifier), rest } => match read_var_int(rest) {
            Outcome { value: Err(e), rest } => fail(e, rest),
            Outcome { value: Ok(duration), rest } => match read_bool(rest) {
                Outcome { value: Err(e), rest } => fail(e, rest),
                Outcome { value: Ok(ambient), rest } => match read_bool(rest) {
                    Outcome { value: Err(e), rest } => fail(e, rest),
                    Outcome { value: Ok(particles), rest } => match read_bool(rest) {
                        Outcome { value: Err(e), rest } => fail(e, rest),
                        Outcome { value: Ok(icon), rest } => match read_bool(rest) {
                            Outcome { value: Err(e), rest } => fail(e, rest),
                            Outcome { value: Ok(false), rest } => done(
                                effect_val(name, amplifier, duration, ambient, particles, icon, Val::Absent),
                                rest,
                            ),
                            Outcome { value: Ok(true), rest } => if left == 0 {
                                fail(too_large("Potion effect hidden depth exceeded"), rest)
                            } else {
                                match read_effect_details(name, (left - 1) as nat, rest) {
                                    Outcome { value: Err(e), rest } => fail(e, rest),
                                    Outcome { value: Ok(h), rest } => done(
                                        effect_val(name, amplifier, duration, ambient, particles, icon, optional(Some(h))),
                                        rest,
                                    ),
                                }
                            },
                        },
                    },
                },
            },
        },
    }
}

/// Reading a status effect.
pub open spec fn read_effect(regs: Registries, s: Seq<u8>) -> Outcome<Val> {
    match read_var_int(s) {
        Outcome { value: Err(e), rest } => fail(e, rest),
        Outcome { value: Ok(v), rest } => if 0 <= v <= 0xffff && v < regs.effects@.len() {
            read_effect_details(regs.effects@[v]@, MAX_EFFECT_DEPTH as nat, rest)
        } else {
            fail(msg("Invalid effect_id!"), rest)
        },
    }
}

/// Appending the details of a status effect named `name`.
pub open spec fn write_effect_details(name: Seq<char>, out: Seq<u8>, v: Val) -> Sink
    decreases v,
{
    match v {
        Val::Pair(a, b) => match (*a, *b) {
            (Val::Text(own), Val::Pair(b, c)) => match (*b, *c) {
                (Val::Int(amplifier), Val::Pair(c, d)) => match (*c, *d) {
                    (Val::Int(duration), Val::Pair(d, e)) => match (*d, *e) {
                        (Val::Bool(ambient), Val::Pair(e, f)) => match (*e, *f) {
                            (Val::Bool(particles), Val::Pair(f, g)) => match (*f, *g) {
                                (Val::Bool(icon), hidden) => if own != name {
                                    refuse(wmsg("Hidden status effect has a different effect id"), out)
                                } else {
                                    let head = out + var_int(amplifier) + var_int(duration) + flag(ambient) + flag(particles)
                                        + flag(icon);
                                    match hidden {
                                        Val::Present(h) => write_effect_details(name, head + flag(true), *h),
                                        _ => put(head, flag(false)),
                                    }
                                },
                                _ => arbitrary(),
                            },
                            _ => arbitrary(),
                        },
                        _ => arbitrary(),
                    },
                    _ => arbitrary(),
                },
                _ => arbitrary(),
            },
            _ => arbitrary(),
        },
        _ => arbitrary(),
    }
}

/// Appending a status effect.
pub open spec fn write_effect(regs: Registries, out: Seq<u8>, v: Val) -> Sink {
    match v {
        Val::Pair(a, _) => match *a {
            Val::Text(name) => match find_name(regs.effects@, name) {
                Some(i) => write_effect_details(name, out + var_int(written_count(i as nat)), v),
                None => refuse(wmsg_name("Invalid status effect: {}", name), out),
            },
            _ => arbitrary(),
        },
        _ => arbitrary(),
    }
}

/// Four numbers of four bytes each: a unique identifier.
pub open spec fn uuid_val(a: int, b: int, c: int, d: int) -> Val {
    pair(Val::Int(a), pair(Val::Int(b), pair(Val::Int(c), Val::Int(d))))
}

/// Reading a unique identifier.
pub open spec fn read_uuid(s: Seq<u8>) -> Outcome<Val> {
    match read_signed(s, 4) {
        Outcome { value: Err(e), rest } => fail(e, rest),
        Outcome { value: Ok(a), rest } => match read_signed(rest, 4) {
            Outcome { value: Err(e), rest } => fail(e, rest),
            Outcome { value: Ok(b), rest } => match read_signed(rest, 4) {
                Outcome { value: Err(e), rest } => fail(e, rest),
                Outcome { value: Ok(c), rest } => match read_signed(rest, 4) {
                    Outcome { value: Err(e), rest } => fail(e, rest),
                    Outcome { value: Ok(d), rest } => done(uuid_val(a, b, c, d), rest),
                },
            },
        },
    }
}

/// Appending a unique identifier.
pub open spec fn write_uuid(out: Seq<u8>, v: Val) -> Sink {
    match v {
        Val::Pair(a, b) => match (*a, *b) {
            (Val::Int(a), Val::Pair(b, c)) => match (*b, *c) {
                (Val::Int(b), Val::Pair(c, d)) => match (*c, *d) {
                    (Val::Int(c), Val::Int(d)) => put(out + be_signed(a, 4) + be_signed(b, 4) + be_signed(c, 4), be_signed(d, 4)),
                    _ => arbitrary(),
                },
                _ => arbitrary(),
            },
            _ => arbitrary(),
        },
        _ => arbitrary(),
    }
}

/// Reading the head of a profile.
pub open spec fn read_profile_head(s: Seq<u8>) -> Outcome<Val> {
    match read_var_int(s) {
        Outcome { value: Err(e), rest } => fail(e, rest),
        Outcome { value: Ok(v), rest } => if v == 0 {
            match read_uuid(rest) {
                Outcome { value: Err(e), rest } => fail(e, rest),
                Outcome { value: Ok(id), rest } => match read_text(rest, MAX_TEXT_BYTES as nat) {
                    Outcome { value: Err(e), rest } => fail(e, rest),
                    Outcome { value: Ok(name), rest } => done(pair(optional(Some(Val::Text(name))), optional(Some(id))), rest),
                },
            }
        } else {
            match read_opt_text(rest) {
                Outcome { value: Err(e), rest } => fail(e, rest),
                Outcome { value: Ok(name), rest } => match read_bool(rest) {
                    Outcome { value: Err(e), rest } => fail(e, rest),
                    Outcome { value: Ok(false), rest } => done(pair(name, Val::Absent), rest),
                    Outcome { value: Ok(true), rest } => match read_uuid(rest) {
                        Outcome { value: Err(e), rest } => fail(e, rest),
                        Outcome { value: Ok(id), rest } => done(pair(name, optional(Some(id))), rest),
                    },
                },
            }
        },
    }
}

/// Reading a text that may be absent.
pub open spec fn read_opt_text(s: Seq<u8>) -> Outcome<Val> {
    match read_bool(s) {
        Outcome { value: Err(e), rest } => fail(e, rest),
        Outcome { value: Ok(false), rest } => done(Val::Absent, rest),
        Outcome { value: Ok(true), rest } => match read_text(rest, MAX_TEXT_BYTES as nat) {
            Outcome { value: Err(e), rest } => fail(e, rest),
            Outcome { value: Ok(t), rest } => done(optional(Some(Val::Text(t))), rest),
        },
    }
}

/// Appending a text that may be absent.
pub open spec fn write_opt_text(out: Seq<u8>, v: Val) -> Sink {
    match v {
        Val::Present(p) => match *p {
            Val::Text(t) => put_text(out + flag(true), t, MAX_TEXT_BYTES as nat),
            _ => arbitrary(),
        },
        _ => put(out, flag(false)),
    }
}

/// Appending the head of a profile.
pub open spec fn write_profile_head(out: Seq<u8>, v: Val) -> Sink {
    match v {
        Val::Pair(name, id) => match write_opt_text(out + var_int(1), *name) {
            Sink { result: Err(e), out } => refuse(e, out),
            Sink { result: Ok(_), out } => match *id {
                Val::Present(id) => write_uuid(out + flag(true), *id),
                _ => put(out, flag(false)),
            },
        },
        _ => arbitrary(),
    }
}

/// The signed number whose low `bits` bits, of which there are `size` values, are `v`.
pub open spec fn low_signed(v: int, size: int) -> int {
    if 2 * (v % size) < size {
        v % size
    } else {
        v % size - size
    }
}

/// Reading a position: 26 bits each for `x` and `z`, 12 bits for `y`.
pub open spec fn read_block_pos(s: Seq<u8>) -> Outcome<Val> {
    match read_unsigned(s, 8) {
        Outcome { value: Err(e), rest } => fail(e, rest),
        Outcome { value: Ok(v), rest } => done(
            pair(
                Val::Int(low_signed(v as int / 0x40_0000_0000, 0x400_0000)),
                pair(Val::Int(low_signed(v as int, 0x1000)), Val::Int(low_signed(v as int / 0x1000, 0x400_0000))),
            ),
            rest,
        ),
    }
}

/// The bytes of a position.
pub open spec fn block_pos_bytes(v: Val) -> Seq<u8> {
    match v {
        Val::Pair(x, b) => match (*x, *b) {
            (Val::Int(x), Val::Pair(y, z)) => match (*y, *z) {
                (Val::Int(y), Val::Int(z)) => be_bytes(
                    ((x % 0x400_0000) * 0x40_0000_0000 + (z % 0x400_0000) * 0x1000 + y % 0x1000) as nat,
                    8,
                ),
                _ => arbitrary(),
            },
            _ => arbitrary(),
        },
        _ => arbitrary(),
    }
}

/// What is said where there is no tag for a component that is sent as it is stored.
pub open spec fn missing_nbt(component: DataComponent) -> &'static str {
    match component {
        DataComponent::IntangibleProjectile => "Missing intangible_projectile component NBT",
        DataComponent::MapDecorations => "Missing map_decorations component NBT",
        DataComponent::DebugStickState => "Missing debug_stick_state component NBT",
        DataComponent::Recipes => "Missing recipes component NBT",
        DataComponent::ContainerLoot => "Missing container_loot component NBT",
        _ => "Missing component NBT",
    }
}

/// What is said where the tag for a component that is sent as it is stored is not one of its own.
pub open spec fn invalid_nbt(component: DataComponent) -> &'static str {
    match component {
        DataComponent::IntangibleProjectile => "Invalid intangible_projectile component NBT",
        DataComponent::MapDecorations => "Invalid map_decorations component NBT",
        DataComponent::DebugStickState => "Invalid debug_stick_state component NBT",
        DataComponent::Recipes => "Invalid recipes component NBT",
        DataComponent::ContainerLoot => "Invalid container_loot component NBT",
        _ => "Invalid component NBT",
    }
}

/// Reading a value of a format that holds no other.
pub open spec fn read_leaf(f: Format, regs: Registries, s: Seq<u8>) -> Outcome<Val> {
    match f {
        Format::Bool => match read_bool(s) {
            Outcome { value: Err(e), rest } => fail(e, rest),
            Outcome { value: Ok(v), rest } => done(Val::Bool(v), rest),
        },
        Format::VarInt => match read_var_int(s) {
            Outcome { value: Err(e), rest } => fail(e, rest),
            Outcome { value: Ok(v), rest } => done(Val::Int(v), rest),
        },
        Format::VarU32 => match read_var_int(s) {
            Outcome { value: Err(e), rest } => fail(e, rest),
            Outcome { value: Ok(v), rest } => done(Val::Int(to_unsigned(v, 4) as int), rest),
        },
        Format::Signed(n) => match read_signed(s, n) {
            Outcome { value: Err(e), rest } => fail(e, rest),
            Outcome { value: Ok(v), rest } => done(Val::Int(v), rest),
        },
        Format::Float(n) => match read_unsigned(s, n) {
            Outcome { value: Err(e), rest } => fail(e, rest),
            Outcome { value: Ok(v), rest } => done(Val::Float(n, v), rest),
        },
        Format::Text(bound) => match read_text(s, bound) {
            Outcome { value: Err(e), rest } => fail(e, rest),
            Outcome { value: Ok(t), rest } => done(Val::Text(t), rest),
        },
        Format::Identifier => match read_text(s, MAX_TEXT_BYTES as nat) {
            Outcome { value: Err(e), rest } => fail(e, rest),
            Outcome { value: Ok(t), rest } => if identifier_of(t) is Some {
                done(Val::Text(t), rest)
            } else {
                fail(msg("Invalid attribute modifier resource id"), rest)
            },
        },
        Format::Checked(check) => match read_var_int(s) {
            Outcome { value: Err(e), rest } => fail(e, rest),
            Outcome { value: Ok(v), rest } => Outcome { value: check_read(check, regs, v), rest },
        },
        Format::Sound(rule) => read_sound(rule, regs, s),
        Format::IdSet(kind) => read_id_set(kind, regs, s),
        Format::SkippedSet => skip_id_set(s),
        Format::SkippedDamage => skip_damage(s),
        Format::Leveled(unknown) => read_leveled(unknown, regs, s),
        Format::Effect => read_effect(regs, s),
        Format::Nbt(role) => match read_nbt(s) {
            Outcome { value: Err(e), rest } => fail(e, rest),
            Outcome { value: Ok(t), rest } => Outcome { value: nbt_role(role, t), rest },
        },
        Format::Stored(component) => match read_nbt(s) {
            Outcome { value: Err(e), rest } => fail(e, rest),
            Outcome { value: Ok(None), rest } => fail(msg(missing_nbt(component)), rest),
            Outcome { value: Ok(Some(t)), rest } => match plain_from_tag(component, regs, t) {
                Some(v) => done(v, rest),
                None => fail(msg(invalid_nbt(component)), rest),
            },
        },
        Format::ProfileHead => read_profile_head(s),
        Format::BlockPos => read_block_pos(s),
        _ => done(Val::Unit, s),
    }
}

/// Appending a value of a format that holds no other.
pub open spec fn write_leaf(f: Format, regs: Registries, out: Seq<u8>, v: Val) -> Sink {
    match (f, v) {
        (Format::Bool, Val::Bool(b)) => put(out, flag(b)),
        (Format::VarInt, Val::Int(i)) => put(out, var_int(i)),
        (Format::VarU32, Val::Int(i)) => put(out, var_int(to_signed(i as nat, 4))),
        (Format::Signed(n), Val::Int(i)) => put(out, be_signed(i, n)),
        (Format::Float(n), Val::Float(_, bits)) => put(out, be_bytes(bits, n)),
        (Format::Text(bound), Val::Text(t)) => put_text(out, t, bound),
        (Format::Identifier, Val::Text(t)) => if identifier_of(t) is None {
            refuse(wmsg("Invalid attribute modifier resource id"), out)
        } else {
            put_text(out, t, MAX_TEXT_BYTES as nat)
        },
        (Format::Checked(check), _) => match check_write(check, regs, v) {
            Ok(i) => put(out, var_int(i)),
            Err(e) => refuse(e, out),
        },
        (Format::Sound(rule), _) => write_sound(rule, out, v),
        (Format::IdSet(_), _) => write_id_set(out, v),
        (Format::SkippedSet, _) => put(out, var_int(0)),
        (Format::SkippedDamage, _) => put(out, var_int(0)),
        (Format::Leveled(_), _) => write_leveled(out, v),
        (Format::Effect, _) => write_effect(regs, out, v),
        (Format::Nbt(NbtRole::Required(_)), Val::Nbt(Tag::End)) => refuse(wmsg("tag is missing"), out),
        (Format::Nbt(role), _) => put_nbt(out, role_tag(role, v)),
        (Format::Stored(component), _) => match plain_to_tag(component, regs, v) {
            Some(t) => put_nbt(out, t),
            None => refuse(wmsg("component has no stored form"), out),
        },
        (Format::ProfileHead, _) => write_profile_head(out, v),
        (Format::BlockPos, _) => put(out, block_pos_bytes(v)),
        _ => Sink { result: Ok(()), out },
    }
}

/// The values of `l`, each only where it first comes.
pub open spec fn distinct(l: Seq<Val>) -> Seq<Val>
    decreases l.len(),
{
    if l.len() == 0 {
        Seq::empty()
    } else {
        let head = distinct(l.drop_last());
        if head.contains(l.last()) {
            head
        } else {
            head.push(l.last())
        }
    }
}

/// A list that was read, with each value only where it first came.
pub open spec fn keep_distinct(o: Outcome<Val>) -> Outcome<Val> {
    match o {
        Outcome { value: Ok(Val::List(l)), rest } => done(Val::List(distinct(l)), rest),
        o => o,
    }
}

/// One level deeper among nested components.
pub open spec fn deeper(c: Ctx) -> Ctx {
    Ctx { regs: c.regs, depth: c.depth, budget: (c.budget - 1) as nat }
}

/// Inside a stack.
pub open spec fn inside(c: Ctx) -> Ctx {
    Ctx { regs: c.regs, depth: (c.depth - 1) as nat, budget: (c.budget - 1) as nat }
}

/// Reading a value.
#[verifier::opaque]
pub open spec fn read_val(f: Format, c: Ctx, s: Seq<u8>) -> Outcome<Val>
    decreases c.budget, 0int, f, 0int,
{
    match f {
        Format::Pair(a, b) => match read_val(*a, c, s) {
            Outcome { value: Err(e), rest } => fail(e, rest),
            Outcome { value: Ok(x), rest } => match read_val(*b, c, rest) {
                Outcome { value: Err(e), rest } => fail(e, rest),
                Outcome { value: Ok(y), rest } => done(pair(x, y), rest),
            },
        },
        Format::Opt(a) => match read_bool(s) {
            Outcome { value: Err(e), rest } => fail(e, rest),
            Outcome { value: Ok(false), rest } => done(Val::Absent, rest),
            Outcome { value: Ok(true), rest } => match read_val(*a, c, rest) {
                Outcome { value: Err(e), rest } => fail(e, rest),
                Outcome { value: Ok(x), rest } => done(optional(Some(x)), rest),
            },
        },
        Format::List(rule, _, a) => match read_count(rule, s) {
            Outcome { value: Err(e), rest } => fail(e, rest),
            Outcome { value: Ok(n), rest } => read_items(*a, n, c, rest, Seq::empty()),
        },
        Format::Distinct(rule, _, a) => match read_count(rule, s) {
            Outcome { value: Err(e), rest } => fail(e, rest),
            Outcome { value: Ok(n), rest } => keep_distinct(read_items(*a, n, c, rest, Seq::empty())),
        },
        Format::Choice(alts, other) => match read_var_int(s) {
            Outcome { value: Err(e), rest } => fail(e, rest),
            Outcome { value: Ok(v), rest } => if 0 <= v < alts.len() {
                match read_val(alts[v], c, rest) {
                    Outcome { value: Err(e), rest } => fail(e, rest),
                    Outcome { value: Ok(x), rest } => done(pair(Val::Int(v), x), rest),
                }
            } else {
                fail(blame(other, v), rest)
            },
        },
        Format::Fixed(a, _, v) => match read_val(*a, c, s) {
            Outcome { value: Err(e), rest } => fail(e, rest),
            Outcome { value: Ok(_), rest } => done(*v, rest),
        },
        Format::Slots => match read_count(slot_rule(), s) {
            Outcome { value: Err(e), rest } => fail(e, rest),
            Outcome { value: Ok(n), rest } => if c.budget == 0 {
                fail(too_large("components are nested too deeply"), rest)
            } else {
                read_slots(0, n as int, deeper(c), rest, Seq::empty())
            },
        },
        Format::Template => if c.budget == 0 {
            fail(too_large("components are nested too deeply"), s)
        } else {
            read_template(deeper(c), s)
        },
        Format::Predicates => if c.budget == 0 {
            fail(too_large("components are nested too deeply"), s)
        } else {
            read_predicates(deeper(c), s)
        },
        _ => read_leaf(f, c.regs, s),
    }
}

/// Reading a count.
pub open spec fn read_count(rule: CountRule, s: Seq<u8>) -> Outcome<nat> {
    match read_var_int(s) {
        Outcome { value: Err(e), rest } => fail(e, rest),
        Outcome { value: Ok(v), rest } => Outcome { value: check_count(rule, v), rest },
    }
}

/// Reading `n` more values behind those in `head`.
pub open spec fn read_items(f: Format, n: nat, c: Ctx, s: Seq<u8>, head: Seq<Val>) -> Outcome<Val>
    decreases c.budget, 0int, f, n + 1,
{
    if n == 0 {
        done(Val::List(head), s)
    } else {
        match read_val(f, c, s) {
            Outcome { value: Err(e), rest } => fail(e, rest),
            Outcome { value: Ok(x), rest } => read_items(f, (n - 1) as nat, c, rest, head.push(x)),
        }
    }
}

/// How the slots of a container are counted.
pub open spec fn slot_rule() -> CountRule {
    CountRule::Limited {
        negative: Blame { text: "Negative Container count", number: false },
        max: 256,
        over: Blame { text: "Too many Container slots for official limit", number: false },
    }
}

/// Reading the slots from `i` up to `n` behind the stacks in `head`.
pub open spec fn read_slots(i: int, n: int, c: Ctx, s: Seq<u8>, head: Seq<Val>) -> Outcome<Val>
    decreases c.budget, 3int, Format::Unit, n - i,
{
    if i >= n {
        done(Val::List(head), s)
    } else {
        match read_bool(s) {
            Outcome { value: Err(e), rest } => fail(e, rest),
            Outcome { value: Ok(false), rest } => read_slots(i + 1, n, c, rest, head),
            Outcome { value: Ok(true), rest } => match read_template(c, rest) {
                Outcome { value: Err(e), rest } => fail(e, rest),
                Outcome { value: Ok(x), rest } => read_slots(i + 1, n, c, rest, head.push(pair(Val::Int(i), x))),
            },
        }
    }
}

/// The entries of a patch with one set: an entry for the component keeps its place.
pub open spec fn set_entry(p: PatchVal, k: DataComponent, v: Option<ComponentVal>) -> PatchVal {
    match first_entry(p, k, 0) {
        Some(i) => p.update(i, (k, v)),
        None => p.push((k, v)),
    }
}

/// The first entry for a component, from the `i`th on.
pub open spec fn first_entry(p: PatchVal, k: DataComponent, i: int) -> Option<int>
    decreases p.len() - i,
{
    if i < 0 || i >= p.len() {
        None
    } else if p[i].0 == k {
        Some(i)
    } else {
        first_entry(p, k, i + 1)
    }
}

/// How many components a patch may add and remove.
pub const MAX_COMPONENTS: i32 = 256;

/// Whether a patch may add and remove this many components.
pub open spec fn check_patch_counts(add: int, remove: int, over: &'static str) -> Result<(), ReadFault> {
    if add < 0 || remove < 0 {
        Err(msg("Negative component count"))
    } else if add + remove > i32::MAX {
        Err(msg("Component count overflow"))
    } else if add + remove > MAX_COMPONENTS {
        Err(msg(over))
    } else {
        Ok(())
    }
}

/// Reading a stack that is not empty.
pub open spec fn read_template(c: Ctx, s: Seq<u8>) -> Outcome<Val>
    decreases c.budget, 2int, Format::Unit, 0int,
{
    if c.depth == 0 {
        fail(too_large("ItemStackTemplate nesting exceeded"), s)
    } else if c.budget == 0 {
        fail(too_large("components are nested too deeply"), s)
    } else {
        match read_var_int(s) {
            Outcome { value: Err(e), rest } => fail(e, rest),
            Outcome { value: Ok(id), rest } => if id < 0 || id > 0xffff {
                fail(msg("Invalid item ID in ItemStackTemplate"), rest)
            } else if id == 0 || find_item(c.regs, id) is None {
                fail(msg("Unknown or empty item ID in ItemStackTemplate"), rest)
            } else {
                match read_var_int(rest) {
                    Outcome { value: Err(e), rest } => fail(e, rest),
                    Outcome { value: Ok(count), rest } => if count <= 0 || count > 255 {
                        fail(msg("Invalid ItemStackTemplate count"), rest)
                    } else {
                        match read_var_int(rest) {
                            Outcome { value: Err(e), rest } => fail(e, rest),
                            Outcome { value: Ok(add), rest } => match read_var_int(rest) {
                                Outcome { value: Err(e), rest } => fail(e, rest),
                                Outcome { value: Ok(remove), rest } => match check_patch_counts(
                                    add,
                                    remove,
                                    "Too many components in ItemStackTemplate patch",
                                ) {
                                    Err(e) => fail(e, rest),
                                    Ok(_) => match read_added(inside(c), add as nat, rest, Seq::empty()) {
                                        Outcome { value: Err(e), rest } => fail(e, rest),
                                        Outcome { value: Ok(p), rest } => match read_removed(remove as nat, rest, p) {
                                            Outcome { value: Err(e), rest } => fail(e, rest),
                                            Outcome { value: Ok(patch), rest } => done(
                                                Val::Stack(StackVal { item: find_item(c.regs, id)->0, count, patch }),
                                                rest,
                                            ),
                                        },
                                    },
                                },
                            },
                        }
                    },
                }
            },
        }
    }
}

/// Reading `n` components into the patch `p`.
pub open spec fn read_added(c: Ctx, n: nat, s: Seq<u8>, p: PatchVal) -> Outcome<PatchVal>
    decreases c.budget + 1, 1int, Format::Unit, n,
{
    if n == 0 {
        done(p, s)
    } else {
        match read_var_int(s) {
            Outcome { value: Err(e), rest } => fail(e, rest),
            Outcome { value: Ok(id), rest } => match component_of_id(id) {
                None => fail(msg_value("Unknown component ID: {}", id), rest),
                Some(k) => match read_val(component_format(k), c, rest) {
                    Outcome { value: Err(e), rest } => fail(e, rest),
                    Outcome { value: Ok(x), rest } => read_added(c, (n - 1) as nat, rest, set_entry(p, k, Some(ComponentVal { kind: k, val: x }))),
                },
            },
        }
    }
}

/// Reading `n` removed components into the patch `p`.
pub open spec fn read_removed(n: nat, s: Seq<u8>, p: PatchVal) -> Outcome<PatchVal>
    decreases n,
{
    if n == 0 {
        done(p, s)
    } else {
        match read_var_int(s) {
            Outcome { value: Err(e), rest } => fail(e, rest),
            Outcome { value: Ok(id), rest } => match component_of_id(id) {
                None => fail(msg("Unknown component ID"), rest),
                Some(k) => read_removed((n - 1) as nat, rest, set_entry(p, k, None)),
            },
        }
    }
}

/// Whether the `i`th entry of a patch is the last one for its component.
pub open spec fn is_last(p: PatchVal, i: int) -> bool {
    forall|j: int| i < j < p.len() ==> (#[trigger] p[j]).0 != p[i].0
}

/// The entries of `p` from the `i`th on that no later entry overrides.
pub open spec fn last_entries(p: PatchVal, i: int) -> PatchVal
    decreases p.len() - i,
{
    if i < 0 || i >= p.len() {
        Seq::empty()
    } else if is_last(p, i) {
        seq![p[i]] + last_entries(p, i + 1)
    } else {
        last_entries(p, i + 1)
    }
}

/// How many of the entries of `p` from the `i`th on add a component.
pub open spec fn count_added(p: PatchVal, i: int) -> nat
    decreases p.len() - i,
{
    if i < 0 || i >= p.len() {
        0
    } else {
        count_added(p, i + 1) + if p[i].1 is Some {
            1nat
        } else {
            0nat
        }
    }
}

/// Appending a value.
#[verifier::opaque]
pub open spec fn write_val(f: Format, c: Ctx, out: Seq<u8>, v: Val) -> Sink
    decreases c.budget, 0int, f, 0int,
{
    match f {
        Format::Pair(a, b) => match v {
            Val::Pair(x, y) => match write_val(*a, c, out, *x) {
                Sink { result: Err(e), out } => refuse(e, out),
                Sink { result: Ok(_), out } => write_val(*b, c, out, *y),
            },
            _ => arbitrary(),
        },
        Format::Opt(a) => match v {
            Val::Present(x) => write_val(*a, c, out + flag(true), *x),
            _ => put(out, flag(false)),
        },
        Format::List(_, limit, a) => match v {
            Val::List(l) => match check_limit(limit, l.len()) {
                Err(e) => refuse(e, out),
                Ok(_) => write_items(*a, c, out + var_int(written_count(l.len())), l, 0),
            },
            _ => arbitrary(),
        },
        Format::Distinct(_, limit, a) => match v {
            Val::List(l) => match check_limit(limit, l.len()) {
                Err(e) => refuse(e, out),
                Ok(_) => write_items(*a, c, out + var_int(written_count(l.len())), l, 0),
            },
            _ => arbitrary(),
        },
        Format::Choice(alts, _) => match v {
            Val::Pair(i, x) => match *i {
                Val::Int(i) => if 0 <= i < alts.len() {
                    write_val(alts[i], c, out + var_int(i), *x)
                } else {
                    arbitrary()
                },
                _ => arbitrary(),
            },
            _ => arbitrary(),
        },
        Format::Fixed(a, w, _) => write_val(*a, c, out, *w),
        Format::Slots => if c.budget == 0 {
            refuse(wmsg("components are nested too deeply"), out)
        } else {
            match v {
                Val::List(l) => write_slots(l, 0, slot_count(l, l.len()), deeper(c), out + var_int(slot_count(l, l.len()))),
                _ => arbitrary(),
            }
        },
        Format::Template => if c.budget == 0 {
            refuse(wmsg("components are nested too deeply"), out)
        } else {
            match v {
                Val::Stack(st) => write_template(deeper(c), out, st),
                _ => arbitrary(),
            }
        },
        Format::Predicates => if c.budget == 0 {
            refuse(wmsg("components are nested too deeply"), out)
        } else {
            match v {
                Val::Nbt(t) => write_predicates(deeper(c), out, t),
                _ => arbitrary(),
            }
        },
        _ => write_leaf(f, c.regs, out, v),
    }
}

/// Whether this many items may be written.
pub open spec fn check_limit(limit: Limit, n: nat) -> Result<(), WriteFault> {
    match limit {
        Limit::Unlimited => Ok(()),
        Limit::AtMost { max, over } => if n > max {
            Err(wmsg(over))
        } else {
            Ok(())
        },
    }
}

/// Appending the values of `l` from the `i`th on.
pub open spec fn write_items(f: Format, c: Ctx, out: Seq<u8>, l: Seq<Val>, i: int) -> Sink
    decreases c.budget, 0int, f, l.len() - i + 1,
{
    if i < 0 || i >= l.len() {
        Sink { result: Ok(()), out }
    } else {
        match write_val(f, c, out, l[i]) {
            Sink { result: Err(e), out } => refuse(e, out),
            Sink { result: Ok(_), out } => write_items(f, c, out, l, i + 1),
        }
    }
}

/// One more than the highest slot among the first `n` stacks of a container.
pub open spec fn slot_count(l: Seq<Val>, n: nat) -> int
    decreases n,
{
    if n == 0 || n > l.len() {
        0
    } else {
        match l[n - 1] {
            Val::Pair(slot, _) => match *slot {
                Val::Int(slot) => if slot + 1 > slot_count(l, (n - 1) as nat) {
                    slot + 1
                } else {
                    slot_count(l, (n - 1) as nat)
                },
                _ => arbitrary(),
            },
            _ => arbitrary(),
        }
    }
}

/// The last stack for a slot among the first `n`.
pub open spec fn slot_stack(l: Seq<Val>, n: nat, slot: int) -> Option<StackVal>
    decreases n,
{
    if n == 0 || n > l.len() {
        None
    } else {
        match l[n - 1] {
            Val::Pair(at, st) => match (*at, *st) {
                (Val::Int(at), Val::Stack(st)) => if at == slot {
                    Some(st)
                } else {
                    slot_stack(l, (n - 1) as nat, slot)
                },
                _ => arbitrary(),
            },
            _ => arbitrary(),
        }
    }
}

/// Appending the slots from `i` up to `n`.
pub open spec fn write_slots(l: Seq<Val>, i: int, n: int, c: Ctx, out: Seq<u8>) -> Sink
    decreases c.budget, 3int, Format::Unit, n - i,
{
    if i >= n {
        Sink { result: Ok(()), out }
    } else {
        match slot_stack(l, l.len(), i) {
            None => write_slots(l, i + 1, n, c, out + flag(false)),
            Some(st) => match write_template(c, out + flag(true), st) {
                Sink { result: Err(e), out } => refuse(e, out),
                Sink { result: Ok(_), out } => write_slots(l, i + 1, n, c, out),
            },
        }
    }
}

/// Appending a stack that is not empty.
pub open spec fn write_template(c: Ctx, out: Seq<u8>, st: StackVal) -> Sink
    decreases c.budget, 2int, Format::Unit, 0int,
{
    if c.depth == 0 {
        refuse(wmsg("ItemStackTemplate nesting exceeded"), out)
    } else if c.budget == 0 {
        refuse(wmsg("components are nested too deeply"), out)
    } else if st.item.id == 0 || st.count == 0 {
        refuse(wmsg("Invalid ItemStackTemplate item/count"), out)
    } else {
        let p = last_entries(st.patch, 0);
        let head = out + var_int(st.item.id as int) + var_int(st.count);
        if p.len() > MAX_COMPONENTS {
            refuse(wmsg("Too many ItemStackTemplate components"), head)
        } else {
            let add = count_added(p, 0);
            match write_added(inside(c), head + var_int(add as int) + var_int(p.len() - add), p, 0) {
                Sink { result: Err(e), out } => refuse(e, out),
                Sink { result: Ok(_), out } => put(out, removed_bytes(p, 0)),
            }
        }
    }
}

/// Appending the components that the entries of `p` from the `i`th on add.
pub open spec fn write_added(c: Ctx, out: Seq<u8>, p: PatchVal, i: int) -> Sink
    decreases c.budget + 1, 1int, Format::Unit, p.len() - i,
{
    if i < 0 || i >= p.len() {
        Sink { result: Ok(()), out }
    } else {
        match p[i].1 {
            None => write_added(c, out, p, i + 1),
            Some(v) => if v.kind != p[i].0 {
                refuse(wmsg("component value has another type"), out + var_int(component_id(p[i].0) as int))
            } else {
                match write_val(component_format(v.kind), c, out + var_int(component_id(p[i].0) as int), v.val) {
                    Sink { result: Err(e), out } => refuse(e, out),
                    Sink { result: Ok(_), out } => write_added(c, out, p, i + 1),
                }
            },
        }
    }
}

/// The numbers of the components that the entries of `p` from the `i`th on remove.
pub open spec fn removed_bytes(p: PatchVal, i: int) -> Seq<u8>
    decreases p.len() - i,
{
    if i < 0 || i >= p.len() {
        Seq::empty()
    } else if p[i].1 is None {
        var_int(component_id(p[i].0) as int) + removed_bytes(p, i + 1)
    } else {
        removed_bytes(p, i + 1)
    }
}

} // verus!
