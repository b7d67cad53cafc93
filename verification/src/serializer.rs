//! Reading the wire forms of stacks in every version.
use std::sync::Arc;
use vstd::prelude::*;
use crate::basic::{CustomDataImpl, CustomNameImpl, ItemNameImpl};
use crate::bytes::{to_unsigned, u8_of_i8};
use crate::codec::{decodes, Context, DataComponentCodec};
use crate::coded::CodedComponent;
use crate::components::{component_format, value_kind, value_val, ComponentValue, DataComponentImpl};
use crate::data_component::{component_of_id, DataComponent};
use crate::elements::{ItemName, TextComponent};
use crate::errors::{limit_exceeded, message, message_value, msg, msg_value, told, too_large, ReadFault, ReadingError};
use crate::format::{check_patch_counts, read_val, set_entry, ComponentVal, Ctx, PatchVal, StackVal, Val};
use crate::item_stack::{advanced, drawn_last, group_advanced, group_stack_vals, patch_val, Item, ItemStack, ItemStackIdGenerator};
use crate::nbt_codec::{read_tag, TagParse};
use crate::nbt_read::{NbtReadHelperJava, MAX_TAG_DEPTH};
use crate::nbt_source::NbtStreamReader;
use crate::nbt_tag::{compound_get, NbtCompound, NbtTag, Tag};
use crate::nested::{component_with_id, deserialize, set_patch_entry};
use crate::registry::{component_id_in, find_item, item_id_in, Registries};
use crate::stack::{is_air, is_nothing};
use crate::version::{version_rank, JavaMinecraftVersion};
use crate::wire::{done, fail, get_bool, get_bytes, get_i16_be, get_i8, get_u8, get_var_int, read_bool, read_bytes, read_signed, read_unsigned, read_var_int, Outcome};

verus! {

broadcast use {group_advanced, group_stack_vals};

/// How many bytes the data of a packet may have.
pub const MAX_PACKET_DATA_SIZE: usize = 8388608;

/// A stack that is read and written.
#[derive(Debug)]
pub struct ItemStackSerializer(pub ItemStack);

/// A stack that was read; the item is missing where none has its number.
pub struct ReadStack {
    pub item: Option<Item>,
    pub count: int,
    pub patch: PatchVal,
}

/// The stack that stands for nothing.
pub open spec fn nothing() -> ReadStack {
    ReadStack { item: None, count: 0, patch: Seq::empty() }
}

/// Whether a stack is the one that was read; where the item is missing, it is the one that stands
/// for nothing.
pub open spec fn is_stack(v: ReadStack, s: StackVal) -> bool {
    s.count == v.count && s.patch == v.patch && match v.item {
        Some(item) => s.item == item,
        None => is_air(s.item),
    }
}

/// Whether the stack and the rest of a read are those of `o`; a stack that is not empty has the last
/// number that the generator handed out on the way from `before` to `after`.
pub open spec fn reads_stack(
    o: Outcome<ReadStack>,
    r: Result<ItemStackSerializer, ReadingError>,
    rest: Seq<u8>,
    before: u32,
    after: u32,
) -> bool {
    o.rest == rest && match r {
        Ok(s) => o.value is Ok && is_stack(o.value->Ok_0, s.0@) && (drawn_last(before, after, s.0.uid as int) || (is_nothing(s.0@)
            && s.0.uid == i32::MIN)),
        Err(e) => o.value == Err::<ReadStack, ReadFault>(e@),
    }
}

/// How the numbers of component types are read.
#[derive(Clone, Copy, Debug, PartialEq, Eq)]
pub enum IdRule {
    /// As those of the current version.
    Current,
    /// As those of a version, or of the current one.
    Remapped(Option<JavaMinecraftVersion>),
    /// As those of a version, in a stack that is not empty.
    Template(JavaMinecraftVersion),
}

/// The number in the current version of a component type.
pub open spec fn current_id(rule: IdRule, regs: Registries, v: int) -> int {
    match rule {
        IdRule::Current | IdRule::Remapped(None) => v,
        IdRule::Remapped(Some(version)) | IdRule::Template(version) => component_id_in(regs, v, version),
    }
}

/// The component type with a number.
pub open spec fn component_for(rule: IdRule, adding: bool, regs: Registries, v: int) -> Result<DataComponent, ReadFault> {
    if rule != IdRule::Current && v < 0 {
        Err(msg_value("Invalid component ID: {}", v))
    } else if rule != IdRule::Current && v != 0 && current_id(rule, regs, v) == 0 {
        Err(msg_value("Unsupported component ID for version: {}", v))
    } else {
        match component_of_id(current_id(rule, regs, v)) {
            Some(k) => Ok(k),
            None => if adding || rule is Remapped {
                Err(msg_value("Unknown component ID: {}", v))
            } else {
                Err(msg("Unknown component ID"))
            },
        }
    }
}

/// Reading the number of a component type.
pub open spec fn read_component_id(rule: IdRule, adding: bool, regs: Registries, s: Seq<u8>) -> Outcome<DataComponent> {
    match read_var_int(s) {
        Outcome { value: Err(e), rest } => fail(e, rest),
        Outcome { value: Ok(v), rest } => Outcome { value: component_for(rule, adding, regs, v), rest },
    }
}

/// The tag that some bytes begin with.
pub open spec fn tag_in(data: Seq<u8>) -> Option<Tag> {
    match read_tag(MAX_TAG_DEPTH as nat, None, data, 0) {
        TagParse { value: Ok(t), .. } => Some(t),
        _ => None,
    }
}

/// The name of an item that a tag gives: a translation key, or a text.
pub open spec fn item_name_tag(t: Tag) -> Tag {
    match t {
        Tag::String(name) => Tag::String(name),
        Tag::Compound(c) => match compound_get(c, "translate"@) {
            Some(Tag::String(key)) => Tag::Compound(seq![("translate"@, Tag::String(key))]),
            _ => match compound_get(c, "text"@) {
                Some(Tag::String(name)) => Tag::String(name),
                _ => Tag::String(Seq::empty()),
            },
        },
        _ => Tag::String(Seq::empty()),
    }
}

/// The value that the bytes of a component give.
pub open spec fn decoded(k: DataComponent, c: Ctx, data: Seq<u8>) -> Result<Val, ReadFault> {
    match k {
        DataComponent::CustomName => match tag_in(data) {
            Some(t) => Ok(Val::Nbt(t)),
            None => Err(msg("Failed to decode CustomName NBT")),
        },
        DataComponent::ItemName => match tag_in(data) {
            Some(t) => Ok(Val::Nbt(item_name_tag(t))),
            None => Err(msg("Failed to decode ItemName NBT")),
        },
        DataComponent::CustomData => match tag_in(data) {
            Some(Tag::Compound(m)) => Ok(Val::Nbt(Tag::Compound(m))),
            Some(_) => Ok(Val::Nbt(Tag::Compound(Seq::empty()))),
            None => Err(msg("Failed to decode CustomData NBT")),
        },
        _ => read_val(component_format(k), c, data).value,
    }
}

/// Reading a component whose bytes are counted.
pub open spec fn read_counted(k: DataComponent, c: Ctx, s: Seq<u8>) -> Outcome<Val> {
    match read_var_int(s) {
        Outcome { value: Err(e), rest } => fail(e, rest),
        Outcome { value: Ok(n), rest } => if n < 0 {
            fail(msg("Negative component data length"), rest)
        } else if n > MAX_PACKET_DATA_SIZE {
            fail(too_large("Component data too large"), rest)
        } else {
            match read_bytes(rest, n as nat) {
                Outcome { value: Err(e), rest } => fail(e, rest),
                Outcome { value: Ok(data), rest } => Outcome { value: decoded(k, c, data), rest },
            }
        },
    }
}

/// Reading a component.
pub open spec fn read_component(counted: bool, k: DataComponent, c: Ctx, s: Seq<u8>) -> Outcome<Val> {
    if counted {
        read_counted(k, c, s)
    } else {
        read_val(component_format(k), c, s)
    }
}

/// Reading `n` components into the patch `p`.
pub open spec fn read_adds(rule: IdRule, counted: bool, c: Ctx, n: nat, s: Seq<u8>, p: PatchVal) -> Outcome<PatchVal>
    decreases n,
{
    if n == 0 {
        done(p, s)
    } else {
        match read_component_id(rule, true, c.regs, s) {
            Outcome { value: Err(e), rest } => fail(e, rest),
            Outcome { value: Ok(k), rest } => match read_component(counted, k, c, rest) {
                Outcome { value: Err(e), rest } => fail(e, rest),
                Outcome { value: Ok(x), rest } => read_adds(
                    rule,
                    counted,
                    c,
                    (n - 1) as nat,
                    rest,
                    set_entry(p, k, Some(ComponentVal { kind: k, val: x })),
                ),
            },
        }
    }
}

/// Reading `n` removed components into the patch `p`.
pub open spec fn read_removes(rule: IdRule, regs: Registries, n: nat, s: Seq<u8>, p: PatchVal) -> Outcome<PatchVal>
    decreases n,
{
    if n == 0 {
        done(p, s)
    } else {
        match read_component_id(rule, false, regs, s) {
            Outcome { value: Err(e), rest } => fail(e, rest),
            Outcome { value: Ok(k), rest } => read_removes(rule, regs, (n - 1) as nat, rest, set_entry(p, k, None)),
        }
    }
}

/// Reading a patch.
pub open spec fn read_patch(rule: IdRule, counted: bool, c: Ctx, s: Seq<u8>) -> Outcome<PatchVal> {
    match read_var_int(s) {
        Outcome { value: Err(e), rest } => fail(e, rest),
        Outcome { value: Ok(add), rest } => match read_var_int(rest) {
            Outcome { value: Err(e), rest } => fail(e, rest),
            Outcome { value: Ok(remove), rest } => match check_patch_counts(
                add,
                remove,
                "Too many components in ItemStack patch",
            ) {
                Err(e) => fail(e, rest),
                Ok(_) => match read_adds(rule, counted, c, add as nat, rest, Seq::empty()) {
                    Outcome { value: Err(e), rest } => fail(e, rest),
                    Outcome { value: Ok(p), rest } => read_removes(rule, c.regs, remove as nat, rest, p),
                },
            },
        },
    }
}

/// The item with a number, which is one of another version where there is one.
pub open spec fn item_for(regs: Registries, id: int, version: Option<JavaMinecraftVersion>) -> Option<Item> {
    match version {
        Some(v) => find_item(regs, item_id_in(regs, id, v)),
        None => find_item(regs, id),
    }
}

/// Reading a stack: its count, its item and its patch. The number of the item is checked before
/// the patch is read or behind it.
pub open spec fn read_counted_stack(
    rule: IdRule,
    counted: bool,
    early: bool,
    version: Option<JavaMinecraftVersion>,
    c: Ctx,
    s: Seq<u8>,
) -> Outcome<ReadStack> {
    match read_var_int(s) {
        Outcome { value: Err(e), rest } => fail(e, rest),
        Outcome { value: Ok(count), rest } => if count == 0 {
            done(nothing(), rest)
        } else if count < 0 || count > 255 {
            fail(msg("Invalid item count!"), rest)
        } else {
            match read_var_int(rest) {
                Outcome { value: Err(e), rest } => fail(e, rest),
                Outcome { value: Ok(id), rest } => if early && (id < 0 || id > 0xffff) {
                    fail(msg("Invalid item id!"), rest)
                } else {
                    match read_patch(rule, counted, c, rest) {
                        Outcome { value: Err(e), rest } => fail(e, rest),
                        Outcome { value: Ok(patch), rest } => if id < 0 || id > 0xffff {
                            fail(msg("Invalid item id!"), rest)
                        } else {
                            done(ReadStack { item: item_for(c.regs, id, version), count, patch }, rest)
                        },
                    }
                },
            }
        },
    }
}

/// Reading a stack of the current version.
pub open spec fn read_current(c: Ctx, s: Seq<u8>) -> Outcome<ReadStack> {
    read_counted_stack(IdRule::Current, false, false, None, c, s)
}

/// The version whose items are meant.
pub open spec fn or_current(version: Option<JavaMinecraftVersion>) -> JavaMinecraftVersion {
    match version {
        Some(v) => v,
        None => JavaMinecraftVersion::V_26_2,
    }
}

/// Reading a stack of a version with components.
pub open spec fn read_modern(version: JavaMinecraftVersion, c: Ctx, s: Seq<u8>) -> Outcome<ReadStack> {
    read_counted_stack(IdRule::Remapped(Some(version)), false, true, Some(version), c, s)
}

/// Reading a stack whose components are counted.
pub open spec fn read_counted_components(version: Option<JavaMinecraftVersion>, c: Ctx, s: Seq<u8>) -> Outcome<ReadStack> {
    read_counted_stack(IdRule::Remapped(version), true, false, Some(or_current(version)), c, s)
}

/// A stack without a patch.
pub open spec fn plain_stack(regs: Registries, id: int, count: int, version: JavaMinecraftVersion) -> ReadStack {
    ReadStack { item: item_for(regs, id, Some(version)), count, patch: Seq::empty() }
}

/// Reading the count behind the number of an item, the damage where there is one, and the end tag.
pub open spec fn read_tail(regs: Registries, id: int, damage: bool, version: JavaMinecraftVersion, s: Seq<u8>) -> Outcome<ReadStack> {
    match read_signed(s, 1) {
        Outcome { value: Err(e), rest } => fail(e, rest),
        Outcome { value: Ok(count), rest } => {
            let o: Outcome<int> = if damage {
                read_signed(rest, 2)
            } else {
                done(0int, rest)
            };
            match o {
                Outcome { value: Err(e), rest } => fail(e, rest),
                Outcome { value: Ok(_), rest } => match read_unsigned(rest, 1) {
                    Outcome { value: Err(e), rest } => fail(e, rest),
                    Outcome { value: Ok(_), rest } => done(
                        plain_stack(regs, id, to_unsigned(count, 1) as int, version),
                        rest,
                    ),
                },
            }
        },
    }
}

/// Whether a version has components.
pub open spec fn has_components(version: JavaMinecraftVersion) -> bool {
    version_rank(version) >= version_rank(JavaMinecraftVersion::V_1_20_5)
}

/// Whether a version marks stacks that are not empty.
pub open spec fn has_marks(version: JavaMinecraftVersion) -> bool {
    version_rank(version) >= version_rank(JavaMinecraftVersion::V_1_13_2)
}

/// Whether a version has done away with damage values.
pub open spec fn is_flat(version: JavaMinecraftVersion) -> bool {
    version_rank(version) >= version_rank(JavaMinecraftVersion::V_1_13)
}

/// Whether a version counts the bytes of components that clients send.
pub open spec fn counts_components(version: JavaMinecraftVersion) -> bool {
    version_rank(version) >= version_rank(JavaMinecraftVersion::V_1_21_5)
}

/// Whether a version has stacks that cannot be empty.
pub open spec fn has_templates(version: JavaMinecraftVersion) -> bool {
    version_rank(version) >= version_rank(JavaMinecraftVersion::V_26_1)
}

/// Reading a stack of any version.
pub open spec fn read_versioned(version: JavaMinecraftVersion, c: Ctx, s: Seq<u8>) -> Outcome<ReadStack> {
    if has_components(version) {
        read_modern(version, c, s)
    } else if has_marks(version) {
        match read_bool(s) {
            Outcome { value: Err(e), rest } => fail(e, rest),
            Outcome { value: Ok(false), rest } => done(nothing(), rest),
            Outcome { value: Ok(true), rest } => match read_var_int(rest) {
                Outcome { value: Err(e), rest } => fail(e, rest),
                Outcome { value: Ok(id), rest } => read_tail(c.regs, id % 0x1_0000, false, version, rest),
            },
        }
    } else {
        match read_signed(s, 2) {
            Outcome { value: Err(e), rest } => fail(e, rest),
            Outcome { value: Ok(id), rest } => if id < 0 {
                done(nothing(), rest)
            } else {
                read_tail(c.regs, id, !is_flat(version), version, rest)
            },
        }
    }
}

/// Reading a stack that cannot be empty.
pub open spec fn read_filled(version: JavaMinecraftVersion, c: Ctx, s: Seq<u8>) -> Outcome<ReadStack> {
    match read_var_int(s) {
        Outcome { value: Err(e), rest } => fail(e, rest),
        Outcome { value: Ok(id), rest } => match read_var_int(rest) {
            Outcome { value: Err(e), rest } => fail(e, rest),
            Outcome { value: Ok(count), rest } => if id < 0 || id > 0xffff {
                fail(msg("Invalid item id!"), rest)
            } else {
                match read_patch(IdRule::Template(version), false, c, rest) {
                    Outcome { value: Err(e), rest } => fail(e, rest),
                    Outcome { value: Ok(patch), rest } => if count < 0 || count > 255 {
                        fail(msg("Invalid item count!"), rest)
                    } else {
                        let v = ReadStack { item: item_for(c.regs, id, Some(version)), count, patch };
                        if count == 0 || is_missing(v.item) {
                            fail(msg("Can't read empty item stack template"), rest)
                        } else {
                            done(v, rest)
                        }
                    },
                }
            },
        },
    }
}

/// Whether an item is missing or stands for nothing.
pub open spec fn is_missing(item: Option<Item>) -> bool {
    match item {
        Some(item) => item.id == 0,
        None => true,
    }
}

/// Reads the number of a component type.
fn get_component_id(rule: IdRule, adding: bool, seq: &mut &[u8], regs: &Registries) -> (r: Result<DataComponent, ReadingError>)
    ensures
        (Outcome { value: told(r), rest: final(seq)@ }) == read_component_id(rule, adding, *regs, old(seq)@),
{
    let v: i32 = get_var_int(seq)?;
    let number: i32 = match rule {
        IdRule::Current => v,
        IdRule::Remapped(version) => {
            if v < 0 {
                return Err(message_value("Invalid component ID: {}", v as i128));
            }
            match version {
                None => v,
                Some(version) => {
                    let w: u32 = regs.remap_data_component_type_id_from_version(v as u32, version);
                    if v != 0 && w == 0 {
                        return Err(message_value("Unsupported component ID for version: {}", v as i128));
                    }
                    low_number(w)
                },
            }
        },
        IdRule::Template(version) => {
            if v < 0 {
                return Err(message_value("Invalid component ID: {}", v as i128));
            }
            let w: u32 = regs.remap_data_component_type_id_from_version(v as u32, version);
            if v != 0 && w == 0 {
                return Err(message_value("Unsupported component ID for version: {}", v as i128));
            }
            low_number(w)
        },
    };
    match component_with_id(number) {
        Some(id) => Ok(id),
        None => {
            let with_number: bool = adding || matches!(rule, IdRule::Remapped(_));
            if with_number {
                Err(message_value("Unknown component ID: {}", v as i128))
            } else {
                Err(message("Unknown component ID"))
            }
        },
    }
}

/// A number that no component type has where `w` is too large for one.
fn low_number(w: u32) -> (r: i32)
    ensures
        component_of_id(r as int) == component_of_id(w as int),
        w <= 255 ==> r == w,
{
    if w <= 255 {
        w as i32
    } else {
        256
    }
}

/// The tag that some bytes begin with.
fn get_tag(data: &[u8]) -> (r: Option<NbtTag>)
    ensures
        match r {
            Some(t) => tag_in(data@) == Some(t@),
            None => tag_in(data@) is None,
        },
{
    let mut reader = NbtReadHelperJava::new(NbtStreamReader { rest: data });
    match NbtTag::deserialize(&mut reader) {
        Ok(t) => Some(t),
        Err(_) => None,
    }
}

/// Whether a value is what the bytes of a component give.
spec fn gives(o: Result<Val, ReadFault>, k: DataComponent, r: Result<ComponentValue, ReadingError>) -> bool {
    match r {
        Ok(v) => o == Ok::<Val, ReadFault>(value_val(v)) && value_kind(v) == k,
        Err(e) => o == Err::<Val, ReadFault>(e@),
    }
}

fn decode_custom_name(component_data: &[u8]) -> (r: Result<ComponentValue, ReadingError>)
    ensures
        forall|c: Ctx| gives(#[trigger] decoded(DataComponent::CustomName, c, component_data@), DataComponent::CustomName, r),
{
    match get_tag(component_data) {
        Some(tag) => {
            let v = CustomNameImpl { name: TextComponent { tag } };
            proof {
                CustomNameImpl::lemma_value(v);
            }
            Ok(v.to_dyn())
        },
        None => Err(message("Failed to decode CustomName NBT")),
    }
}

fn decode_item_name(component_data: &[u8]) -> (r: Result<ComponentValue, ReadingError>)
    ensures
        forall|c: Ctx| gives(#[trigger] decoded(DataComponent::ItemName, c, component_data@), DataComponent::ItemName, r),
{
    let tag = match get_tag(component_data) {
        Some(tag) => tag,
        None => {
            return Err(message("Failed to decode ItemName NBT"));
        },
    };
    let name: ItemName = match &tag {
        NbtTag::String(name) => ItemName::Component(TextComponent::text(name.clone())),
        NbtTag::Compound(c) => match c.get_string("translate") {
            Some(key) => ItemName::Translation(key.clone()),
            None => match c.get_string("text") {
                Some(name) => ItemName::Component(TextComponent::text(name.clone())),
                None => ItemName::Component(TextComponent::empty()),
            },
        },
        _ => ItemName::Component(TextComponent::empty()),
    };
    assert(name.shown() == item_name_tag(tag@));
    let v = ItemNameImpl { name };
    proof {
        ItemNameImpl::lemma_value(v);
    }
    Ok(v.to_dyn())
}

fn decode_custom_data(component_data: &[u8]) -> (r: Result<ComponentValue, ReadingError>)
    ensures
        forall|c: Ctx| gives(#[trigger] decoded(DataComponent::CustomData, c, component_data@), DataComponent::CustomData, r),
{
    let data: NbtCompound = match get_tag(component_data) {
        Some(NbtTag::Compound(c)) => c,
        Some(_) => NbtCompound::new(),
        None => {
            return Err(message("Failed to decode CustomData NBT"));
        },
    };
    let v = CustomDataImpl { data };
    proof {
        CustomDataImpl::lemma_value(v);
    }
    Ok(v.to_dyn())
}

/// The value that the bytes of a component give.
pub fn decode_component(id: DataComponent, component_data: &[u8], ctx: &Context, ids: &mut ItemStackIdGenerator) -> (r: Result<
    ComponentValue,
    ReadingError,
>)
    ensures
        advanced(old(ids).counter, final(ids).counter),
        match r {
            Ok(v) => decoded(id, ctx@, component_data@) == Ok::<Val, ReadFault>(value_val(v)) && value_kind(v) == id,
            Err(e) => decoded(id, ctx@, component_data@) == Err::<Val, ReadFault>(e@),
        },
{
    match id {
        DataComponent::CustomName => {
            let r = decode_custom_name(component_data);
            assert(gives(decoded(DataComponent::CustomName, ctx@, component_data@), id, r));
            r
        },
        DataComponent::ItemName => {
            let r = decode_item_name(component_data);
            assert(gives(decoded(DataComponent::ItemName, ctx@, component_data@), id, r));
            r
        },
        DataComponent::CustomData => {
            let r = decode_custom_data(component_data);
            assert(gives(decoded(DataComponent::CustomData, ctx@, component_data@), id, r));
            r
        },
        _ => {
            let mut rest: &[u8] = component_data;
            deserialize(id, &mut rest, ctx, ids)
        },
    }
}

/// Reads a component.
fn get_component(counted: bool, id: DataComponent, seq: &mut &[u8], ctx: &Context, ids: &mut ItemStackIdGenerator) -> (r: Result<
    ComponentValue,
    ReadingError,
>)
    ensures
        advanced(old(ids).counter, final(ids).counter),
        decodes(read_component(counted, id, ctx@, old(seq)@), r, final(seq)@, |v: ComponentValue| value_val(v)),
        r matches Ok(v) ==> value_kind(v) == id,
{
    if !counted {
        return deserialize(id, seq, ctx, ids);
    }
    let n: i32 = get_var_int(seq)?;
    if n < 0 {
        return Err(message("Negative component data length"));
    }
    if n as usize > MAX_PACKET_DATA_SIZE {
        return Err(limit_exceeded("Component data too large"));
    }
    let data = get_bytes(seq, n as usize)?;
    decode_component(id, data, ctx, ids)
}

/// Reads the components that a patch adds.
fn get_adds(rule: IdRule, counted: bool, seq: &mut &[u8], n: i32, ctx: &Context, ids: &mut ItemStackIdGenerator) -> (r: Result<
    Vec<(DataComponent, Option<Arc<ComponentValue>>)>,
    ReadingError,
>)
    requires
        n >= 0,
    ensures
        advanced(old(ids).counter, final(ids).counter),
        match r {
            Ok(p) => read_adds(rule, counted, ctx@, n as nat, old(seq)@, Seq::empty()) == done(patch_val(p@), final(seq)@),
            Err(e) => read_adds(rule, counted, ctx@, n as nat, old(seq)@, Seq::empty()) == fail::<PatchVal>(e@, final(seq)@),
        },
{
    let ghost o = read_adds(rule, counted, ctx@, n as nat, seq@, Seq::empty());
    let mut patch: Vec<(DataComponent, Option<Arc<ComponentValue>>)> = Vec::new();
    assert(patch_val(patch@) =~= Seq::empty());
    let mut i: i32 = 0;
    while i < n
        invariant
            advanced(old(ids).counter, ids.counter),
            0 <= i <= n,
            o == read_adds(rule, counted, ctx@, n as nat, old(seq)@, Seq::empty()),
            o == read_adds(rule, counted, ctx@, (n - i) as nat, seq@, patch_val(patch@)),
        decreases n - i,
    {
        let id = get_component_id(rule, true, seq, ctx.regs)?;
        let value = get_component(counted, id, seq, ctx, ids)?;
        set_patch_entry(&mut patch, id, Some(Arc::new(value)));
        i += 1;
    }
    Ok(patch)
}

/// Reads the components that a patch removes.
fn get_removes(rule: IdRule, patch: &mut Vec<(DataComponent, Option<Arc<ComponentValue>>)>, seq: &mut &[u8], n: i32, regs: &Registries) -> (r: Result<
    (),
    ReadingError,
>)
    requires
        n >= 0,
    ensures
        match r {
            Ok(_) => read_removes(rule, *regs, n as nat, old(seq)@, patch_val(old(patch)@)) == done(
                patch_val(final(patch)@),
                final(seq)@,
            ),
            Err(e) => read_removes(rule, *regs, n as nat, old(seq)@, patch_val(old(patch)@)) == fail::<PatchVal>(e@, final(seq)@),
        },
{
    let ghost o = read_removes(rule, *regs, n as nat, seq@, patch_val(patch@));
    let mut i: i32 = 0;
    while i < n
        invariant
            0 <= i <= n,
            o == read_removes(rule, *regs, n as nat, old(seq)@, patch_val(old(patch)@)),
            o == read_removes(rule, *regs, (n - i) as nat, seq@, patch_val(patch@)),
        decreases n - i,
    {
        let id = get_component_id(rule, false, seq, regs)?;
        set_patch_entry(patch, id, None);
        i += 1;
    }
    Ok(())
}

/// Reads a patch.
fn get_patch(rule: IdRule, counted: bool, seq: &mut &[u8], ctx: &Context, ids: &mut ItemStackIdGenerator) -> (r: Result<
    Vec<(DataComponent, Option<Arc<ComponentValue>>)>,
    ReadingError,
>)
    ensures
        advanced(old(ids).counter, final(ids).counter),
        match r {
            Ok(p) => read_patch(rule, counted, ctx@, old(seq)@) == done(patch_val(p@), final(seq)@),
            Err(e) => read_patch(rule, counted, ctx@, old(seq)@) == fail::<PatchVal>(e@, final(seq)@),
        },
{
    let add: i32 = get_var_int(seq)?;
    let remove: i32 = get_var_int(seq)?;
    if add < 0 || remove < 0 {
        return Err(message("Negative component count"));
    }
    let total: i64 = add as i64 + remove as i64;
    if total > 0x7fff_ffff {
        return Err(message("Component count overflow"));
    }
    if total > 256 {
        return Err(message("Too many components in ItemStack patch"));
    }
    let mut patch = get_adds(rule, counted, seq, add, ctx, ids)?;
    get_removes(rule, &mut patch, seq, remove, ctx.regs)?;
    Ok(patch)
}

/// The item with a number, or the one that stands for nothing.
fn get_item(regs: &Registries, id: u16, version: Option<JavaMinecraftVersion>) -> (r: Arc<Item>)
    ensures
        match item_for(*regs, id as int, version) {
            Some(item) => *r == item,
            None => is_air(*r),
        },
{
    let id: u16 = match version {
        Some(v) => regs.remap_item_id_from_version(id, v),
        None => id,
    };
    match regs.item_by_id(id) {
        Some(item) => item,
        None => Arc::new(Item::air()),
    }
}

/// Reads a stack: its count, its item and its patch.
fn get_counted_stack(
    rule: IdRule,
    counted: bool,
    early: bool,
    version: Option<JavaMinecraftVersion>,
    seq: &mut &[u8],
    ctx: &Context,
    ids: &mut ItemStackIdGenerator,
) -> (r: Result<ItemStackSerializer, ReadingError>)
    ensures
        advanced(old(ids).counter, final(ids).counter),
        reads_stack(read_counted_stack(rule, counted, early, version, ctx@, old(seq)@), r, final(seq)@, old(ids).counter, final(ids).counter),
{
    let count: i32 = get_var_int(seq)?;
    if count == 0 {
        return Ok(ItemStackSerializer(ItemStack::empty()));
    }
    if count < 0 || count > 255 {
        return Err(message("Invalid item count!"));
    }
    let id: i32 = get_var_int(seq)?;
    if early && (id < 0 || id > 0xffff) {
        return Err(message("Invalid item id!"));
    }
    let patch = get_patch(rule, counted, seq, ctx, ids)?;
    if id < 0 || id > 0xffff {
        return Err(message("Invalid item id!"));
    }
    let item = get_item(ctx.regs, id as u16, version);
    Ok(ItemStackSerializer(ItemStack::new_with_component(count as u8, item, patch, ids)))
}

/// Reads the count behind the number of an item, the damage where there is one, and the end tag.
fn get_tail(
    id: u16,
    damage: bool,
    version: JavaMinecraftVersion,
    seq: &mut &[u8],
    regs: &Registries,
    ids: &mut ItemStackIdGenerator,
) -> (r: Result<ItemStackSerializer, ReadingError>)
    ensures
        advanced(old(ids).counter, final(ids).counter),
        reads_stack(read_tail(*regs, id as int, damage, version, old(seq)@), r, final(seq)@, old(ids).counter, final(ids).counter),
{
    let count: u8 = u8_of_i8(get_i8(seq)?);
    if damage {
        let _damage: i16 = get_i16_be(seq)?;
    }
    let _end: u8 = get_u8(seq)?;
    let item = get_item(regs, id, Some(version));
    assert(advanced(old(ids).counter, ids.counter));
    Ok(ItemStackSerializer(ItemStack::new(count, item, ids)))
}

/// The low 16 bits of a number.
fn low_word(v: i32) -> (r: u16)
    ensures
        r == v as int % 0x1_0000,
{
    let w: i64 = if v < 0 {
        v as i64 + 0x1_0000_0000
    } else {
        v as i64
    };
    (w % 0x1_0000) as u16
}

impl ItemStackSerializer {
    /// Reads a stack of the current version.
    pub fn read(seq: &mut &[u8], ctx: &Context, ids: &mut ItemStackIdGenerator) -> (r: Result<Self, ReadingError>)
        ensures
            advanced(old(ids).counter, final(ids).counter),
            reads_stack(read_current(ctx@, old(seq)@), r, final(seq)@, old(ids).counter, final(ids).counter),
    {
        get_counted_stack(IdRule::Current, false, false, None, seq, ctx, ids)
    }

    /// Reads a stack of any version.
    pub fn read_with_version(
        seq: &mut &[u8],
        version: &JavaMinecraftVersion,
        ctx: &Context,
        ids: &mut ItemStackIdGenerator,
    ) -> (r: Result<Self, ReadingError>)
        ensures
            advanced(old(ids).counter, final(ids).counter),
            reads_stack(read_versioned(*version, ctx@, old(seq)@), r, final(seq)@, old(ids).counter, final(ids).counter),
    {
        if version.at_least(JavaMinecraftVersion::V_1_20_5) {
            get_counted_stack(IdRule::Remapped(Some(*version)), false, true, Some(*version), seq, ctx, ids)
        } else if version.at_least(JavaMinecraftVersion::V_1_13_2) {
            if !get_bool(seq)? {
                return Ok(ItemStackSerializer(ItemStack::empty()));
            }
            let id: u16 = low_word(get_var_int(seq)?);
            get_tail(id, false, *version, seq, ctx.regs, ids)
        } else {
            let id: i16 = get_i16_be(seq)?;
            if id < 0 {
                return Ok(ItemStackSerializer(ItemStack::empty()));
            }
            get_tail(id as u16, !version.at_least(JavaMinecraftVersion::V_1_13), *version, seq, ctx.regs, ids)
        }
    }

    /// Reads a stack that a client sent.
    pub fn read_untrusted_with_version(
        seq: &mut &[u8],
        version: &JavaMinecraftVersion,
        ctx: &Context,
        ids: &mut ItemStackIdGenerator,
    ) -> (r: Result<Self, ReadingError>)
        ensures
            advanced(old(ids).counter, final(ids).counter),
            reads_stack(
                if counts_components(*version) {
                    read_counted_components(Some(*version), ctx@, old(seq)@)
                } else {
                    read_versioned(*version, ctx@, old(seq)@)
                },
                r,
                final(seq)@,
                old(ids).counter,
                final(ids).counter,
            ),
    {
        if version.at_least(JavaMinecraftVersion::V_1_21_5) {
            get_counted_stack(IdRule::Remapped(Some(*version)), true, false, Some(*version), seq, ctx, ids)
        } else {
            Self::read_with_version(seq, version, ctx, ids)
        }
    }

    /// Reads a stack that cannot be empty, in versions that have such stacks.
    pub fn read_template_with_version(
        seq: &mut &[u8],
        version: &JavaMinecraftVersion,
        ctx: &Context,
        ids: &mut ItemStackIdGenerator,
    ) -> (r: Result<Self, ReadingError>)
        ensures
            advanced(old(ids).counter, final(ids).counter),
            reads_stack(
                if has_templates(*version) {
                    read_filled(*version, ctx@, old(seq)@)
                } else {
                    read_versioned(*version, ctx@, old(seq)@)
                },
                r,
                final(seq)@,
                old(ids).counter,
                final(ids).counter,
            ),
    {
        if !version.at_least(JavaMinecraftVersion::V_26_1) {
            Self::read_with_version(seq, version, ctx, ids)
        } else {
            Self::read_template0(seq, version, ctx, ids)
        }
    }

    /// Reads a stack that may be absent, in versions that have such stacks.
    pub fn read_optional_template_with_version(
        seq: &mut &[u8],
        version: &JavaMinecraftVersion,
        ctx: &Context,
        ids: &mut ItemStackIdGenerator,
    ) -> (r: Result<Self, ReadingError>)
        ensures
            advanced(old(ids).counter, final(ids).counter),
            reads_stack(
                if has_templates(*version) {
                    match read_bool(old(seq)@) {
                        Outcome { value: Err(e), rest } => fail(e, rest),
                        Outcome { value: Ok(false), rest } => done(nothing(), rest),
                        Outcome { value: Ok(true), rest } => read_filled(*version, ctx@, rest),
                    }
                } else {
                    read_versioned(*version, ctx@, old(seq)@)
                },
                r,
                final(seq)@,
                old(ids).counter,
                final(ids).counter,
            ),
    {
        if !version.at_least(JavaMinecraftVersion::V_26_1) {
            return Self::read_with_version(seq, version, ctx, ids);
        }
        if get_bool(seq)? {
            Self::read_template0(seq, version, ctx, ids)
        } else {
            Ok(ItemStackSerializer(ItemStack::empty()))
        }
    }

    /// Reads a stack that cannot be empty.
    pub fn read_template0(
        seq: &mut &[u8],
        version: &JavaMinecraftVersion,
        ctx: &Context,
        ids: &mut ItemStackIdGenerator,
    ) -> (r: Result<Self, ReadingError>)
        ensures
            advanced(old(ids).counter, final(ids).counter),
            reads_stack(read_filled(*version, ctx@, old(seq)@), r, final(seq)@, old(ids).counter, final(ids).counter),
    {
        let id: i32 = get_var_int(seq)?;
        let count: i32 = get_var_int(seq)?;
        if id < 0 || id > 0xffff {
            return Err(message("Invalid item id!"));
        }
        let item = get_item(ctx.regs, id as u16, Some(*version));
        let patch = get_patch(IdRule::Template(*version), false, seq, ctx, ids)?;
        if count < 0 || count > 255 {
            return Err(message("Invalid item count!"));
        }
        let stack = ItemStack::new_with_component(count as u8, item, patch, ids);
        if stack.is_empty() {
            return Err(message("Can't read empty item stack template"));
        }
        Ok(ItemStackSerializer(stack))
    }

    /// Reads a stack of the current version whose components are counted.
    pub fn read_length_prefixed_optional(seq: &mut &[u8], ctx: &Context, ids: &mut ItemStackIdGenerator) -> (r: Result<
        Self,
        ReadingError,
    >)
        ensures
            advanced(old(ids).counter, final(ids).counter),
            reads_stack(read_counted_components(None, ctx@, old(seq)@), r, final(seq)@, old(ids).counter, final(ids).counter),
    {
        get_counted_stack(IdRule::Remapped(None), true, false, Some(JavaMinecraftVersion::V_26_2), seq, ctx, ids)
    }

    /// The stack.
    pub fn to_stack(self) -> (r: ItemStack)
        ensures
            r == self.0,
    {
        self.0
    }
}

} // verus!
