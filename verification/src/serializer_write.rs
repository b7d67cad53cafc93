//! Writing the wire forms of stacks in every version.
use std::sync::Arc;
use vstd::prelude::*;
use crate::bytes::{be_bytes, be_signed, i16_of_u16, i32_of_u32, i8_of_u8, put_slice, to_signed};
use crate::codec::{count_as_i32, encodes, Context};
use crate::components::{component_format, value_kind, ComponentValue};
use crate::data_component::{component_id, component_of_id, DataComponent};
use crate::errors::{cannot_write, wmsg, WritingError};
use crate::format::{put, refuse, set_entry, write_val, written_count, ComponentVal, Ctx, PatchVal, Sink, StackVal};
use crate::item_stack::{component_val, entry_val, group_stack_vals, patch_val, Item, ItemStack};
use crate::nested::{component_with_id, serialize, set_patch_entry};
use crate::registry::{component_id_in, component_id_out, item_id_out, share, Registries};
use crate::serializer::{counts_components, has_components, has_marks, has_templates, is_flat, item_for, ItemStackSerializer};
use crate::stack::{effective, holds_nothing, is_air};
use crate::version::JavaMinecraftVersion;
use crate::wire::{flag, var_int, write_bool, write_i16_be, write_i8, write_u8, write_var_int};

verus! {

broadcast use group_stack_vals;

/// An entry of a patch with the number of its component in another version.
pub struct WireEntry {
    pub wire_id: int,
    pub kind: DataComponent,
    pub value: Option<ComponentVal>,
}

/// The place of the first entry with a number, from the `i`th on.
pub open spec fn find_wire(l: Seq<WireEntry>, wire_id: int, i: int) -> Option<int>
    decreases l.len() - i,
{
    if i < 0 || i >= l.len() {
        None
    } else if l[i].wire_id == wire_id {
        Some(i)
    } else {
        find_wire(l, wire_id, i + 1)
    }
}

/// Entries with another one, which takes the place of one with the same number.
pub open spec fn with_wire(l: Seq<WireEntry>, e: WireEntry) -> Seq<WireEntry> {
    match find_wire(l, e.wire_id, 0) {
        Some(i) => l.update(i, e),
        None => l.push(e),
    }
}

/// The first `n` entries of a patch with the numbers that a version has for them; those that it
/// does not know are left out.
pub open spec fn remapped(regs: Registries, version: JavaMinecraftVersion, p: PatchVal, n: nat) -> Seq<WireEntry>
    decreases n,
{
    if n == 0 || n > p.len() {
        Seq::empty()
    } else {
        let head = remapped(regs, version, p, (n - 1) as nat);
        let wire_id = component_id_out(regs, component_id(p[n - 1].0) as int, version);
        if wire_id == 0 && p[n - 1].0 != DataComponent::CustomData {
            head
        } else {
            with_wire(head, WireEntry { wire_id, kind: p[n - 1].0, value: p[n - 1].1 })
        }
    }
}

/// The entries of a stack with the numbers that a version has for them.
pub open spec fn wire_entries(regs: Registries, version: JavaMinecraftVersion, s: StackVal) -> Seq<WireEntry> {
    let p = effective(s.patch, s.patch.len());
    remapped(regs, version, p, p.len())
}

/// How many of the entries from the `i`th on add a component.
pub open spec fn added_from(l: Seq<WireEntry>, i: int) -> nat
    decreases l.len() - i,
{
    if i < 0 || i >= l.len() {
        0
    } else if l[i].value is Some {
        added_from(l, i + 1) + 1
    } else {
        added_from(l, i + 1)
    }
}

/// The bytes of the number of a component.
pub open spec fn wire_bytes(wire_id: int) -> Seq<u8> {
    var_int(to_signed(wire_id as nat, 4))
}

/// Appending a component, whose bytes are counted or not.
pub open spec fn write_component(c: Ctx, counted: bool, out: Seq<u8>, v: ComponentVal) -> Sink {
    if counted {
        match write_val(component_format(v.kind), c, Seq::empty(), v.val) {
            Sink { result: Err(e), .. } => refuse(e, out),
            Sink { result: Ok(_), out: data } => put(out + var_int(written_count(data.len())), data),
        }
    } else {
        write_val(component_format(v.kind), c, out, v.val)
    }
}

/// Appending the components that the entries from the `i`th on add.
pub open spec fn write_adds(c: Ctx, counted: bool, out: Seq<u8>, l: Seq<WireEntry>, i: int) -> Sink
    decreases l.len() - i,
{
    if i < 0 || i >= l.len() {
        Sink { result: Ok(()), out }
    } else {
        match l[i].value {
            None => write_adds(c, counted, out, l, i + 1),
            Some(v) => if v.kind != l[i].kind {
                refuse(wmsg("component value has another type"), out + wire_bytes(l[i].wire_id))
            } else {
                match write_component(c, counted, out + wire_bytes(l[i].wire_id), v) {
                    Sink { result: Err(e), out } => refuse(e, out),
                    Sink { result: Ok(_), out } => write_adds(c, counted, out, l, i + 1),
                }
            },
        }
    }
}

/// The numbers of the components that the entries from the `i`th on remove.
pub open spec fn removes_bytes(l: Seq<WireEntry>, i: int) -> Seq<u8>
    decreases l.len() - i,
{
    if i < 0 || i >= l.len() {
        Seq::empty()
    } else if l[i].value is None {
        wire_bytes(l[i].wire_id) + removes_bytes(l, i + 1)
    } else {
        removes_bytes(l, i + 1)
    }
}

/// Appending the counts and the components of a patch.
pub open spec fn write_entries(c: Ctx, counted: bool, out: Seq<u8>, l: Seq<WireEntry>) -> Sink {
    match write_adds(
        c,
        counted,
        out + var_int(written_count(added_from(l, 0))) + var_int(written_count((l.len() - added_from(l, 0)) as nat)),
        l,
        0,
    ) {
        Sink { result: Err(e), out } => refuse(e, out),
        Sink { result: Ok(_), out } => put(out, removes_bytes(l, 0)),
    }
}

/// Appending a stack.
pub open spec fn write_stack(c: Ctx, counted: bool, version: JavaMinecraftVersion, out: Seq<u8>, s: StackVal) -> Sink {
    let id = item_id_out(c.regs, s.item.id as int, version);
    if has_components(version) {
        if holds_nothing(s) {
            put(out, var_int(0))
        } else {
            write_entries(c, counted, out + var_int(s.count) + var_int(id), wire_entries(c.regs, version, s))
        }
    } else if has_marks(version) {
        if holds_nothing(s) {
            put(out, flag(false))
        } else {
            put(out, flag(true) + var_int(id) + be_signed(to_signed(s.count as nat, 1), 1) + be_bytes(0, 1))
        }
    } else if holds_nothing(s) {
        put(out, be_signed(-1, 2))
    } else {
        put(
            out,
            be_signed(to_signed(id as nat, 2), 2) + be_signed(to_signed(s.count as nat, 1), 1) + (if is_flat(version) {
                Seq::<u8>::empty()
            } else {
                be_signed(0, 2)
            }) + be_bytes(0, 1),
        )
    }
}

/// Appending a stack that cannot be empty.
pub open spec fn write_filled(c: Ctx, version: JavaMinecraftVersion, out: Seq<u8>, s: StackVal) -> Sink {
    if holds_nothing(s) {
        refuse(wmsg("Can't write empty item stack template"), out)
    } else {
        write_entries(
            c,
            false,
            out + var_int(item_id_out(c.regs, s.item.id as int, version)) + var_int(s.count),
            wire_entries(c.regs, version, s),
        )
    }
}

/// Appending what a trade costs.
pub open spec fn write_cost(c: Ctx, version: JavaMinecraftVersion, out: Seq<u8>, s: StackVal) -> Sink {
    let l = wire_entries(c.regs, version, s);
    if added_from(l, 0) > i32::MAX {
        refuse(wmsg("Too many item cost components"), out)
    } else {
        write_adds(
            c,
            false,
            out + var_int(item_id_out(c.regs, s.item.id as int, version)) + var_int(s.count) + var_int(added_from(l, 0) as int),
            l,
            0,
        )
    }
}

/// Appending a stack that cannot be empty, in versions that have such stacks.
pub open spec fn write_template(c: Ctx, version: JavaMinecraftVersion, out: Seq<u8>, s: StackVal) -> Sink {
    if has_templates(version) {
        write_filled(c, version, out, s)
    } else {
        write_stack(c, false, version, out, s)
    }
}

/// Appending a stack that may be absent, in versions that have such stacks.
pub open spec fn write_optional_template(c: Ctx, version: JavaMinecraftVersion, out: Seq<u8>, s: StackVal) -> Sink {
    if !has_templates(version) {
        write_stack(c, false, version, out, s)
    } else if holds_nothing(s) {
        put(out, flag(false))
    } else {
        write_filled(c, version, out + flag(true), s)
    }
}

/// An entry with the number of its component in another version.
struct WireComponent {
    wire_id: u32,
    entry: (DataComponent, Option<Arc<ComponentValue>>),
}

/// What the entries are.
spec fn wire_vals(v: Seq<WireComponent>) -> Seq<WireEntry> {
    Seq::new(
        v.len(),
        |i: int|
            WireEntry { wire_id: v[i].wire_id as int, kind: v[i].entry.0, value: entry_val(v[i].entry).1 },
    )
}

/// The entries of a stack with the numbers that a version has for them.
fn remapped_patch(stack: &ItemStack, version: JavaMinecraftVersion, regs: &Registries) -> (r: Vec<WireComponent>)
    ensures
        wire_vals(r@) == wire_entries(*regs, version, stack@),
{
    let mut patch = stack.effective_patch();
    let ghost p = patch_val(patch@);
    let mut out: Vec<WireComponent> = Vec::new();
    assert(wire_vals(out@) =~= remapped(*regs, version, p, 0));
    let mut i: usize = 0;
    while i < patch.len()
        invariant
            i <= patch@.len(),
            p == patch_val(patch@),
            wire_vals(out@) == remapped(*regs, version, p, i as nat),
        decreases patch.len() - i,
    {
        assert(p[i as int] == entry_val(patch@[i as int]));
        let id = patch[i].0;
        let wire_id: u32 = regs.remap_data_component_type_id_for_version(id.to_id() as u32, version);
        if wire_id != 0 || id == DataComponent::CustomData {
            let value: Option<Arc<ComponentValue>> = match &patch[i].1 {
                Some(v) => Some(share(v)),
                None => None,
            };
            put_wire(&mut out, WireComponent { wire_id, entry: (id, value) });
        }
        i += 1;
    }
    out
}

/// Puts an entry into a list; it takes the place of one with the same number.
fn put_wire(v: &mut Vec<WireComponent>, e: WireComponent)
    ensures
        wire_vals(final(v)@) == with_wire(
            wire_vals(old(v)@),
            WireEntry { wire_id: e.wire_id as int, kind: e.entry.0, value: entry_val(e.entry).1 },
        ),
{
    let ghost l = wire_vals(v@);
    let ghost x = WireEntry { wire_id: e.wire_id as int, kind: e.entry.0, value: entry_val(e.entry).1 };
    let mut i: usize = 0;
    while i < v.len() && v[i].wire_id != e.wire_id
        invariant
            i <= v.len(),
            v@ == old(v)@,
            l == wire_vals(v@),
            find_wire(l, e.wire_id as int, 0) == find_wire(l, e.wire_id as int, i as int),
        decreases v.len() - i,
    {
        i += 1;
    }
    if i < v.len() {
        v.set(i, e);
        assert(wire_vals(v@) =~= l.update(i as int, x));
    } else {
        v.push(e);
        assert(wire_vals(v@) =~= l.push(x));
    }
}

/// How many entries add a component.
fn count_adds(v: &Vec<WireComponent>) -> (r: usize)
    ensures
        r == added_from(wire_vals(v@), 0),
        r <= v@.len(),
{
    let ghost l = wire_vals(v@);
    let mut i: usize = v.len();
    let mut n: usize = 0;
    while i > 0
        invariant
            i <= v.len(),
            l == wire_vals(v@),
            n == added_from(l, i as int),
            n + i <= v@.len(),
        decreases i,
    {
        i -= 1;
        if v[i].entry.1.is_some() {
            n += 1;
        }
    }
    n
}

/// Appends a component, whose bytes are counted or not.
fn put_component(id: DataComponent, v: &ComponentValue, counted: bool, out: &mut Vec<u8>, ctx: &Context) -> (r: Result<
    (),
    WritingError,
>)
    requires
        value_kind(*v) == id,
    ensures
        encodes(write_component(ctx@, counted, old(out)@, component_val(*v)), r, final(out)@),
{
    if !counted {
        return serialize(id, v, out, ctx);
    }
    let mut data: Vec<u8> = Vec::new();
    assert(data@ =~= Seq::<u8>::empty());
    serialize(id, v, &mut data, ctx)?;
    write_var_int(out, count_as_i32(data.len()));
    put_slice(out, data.as_slice());
    Ok(())
}

/// Appends the components that entries add.
fn put_adds(v: &Vec<WireComponent>, counted: bool, out: &mut Vec<u8>, ctx: &Context) -> (r: Result<(), WritingError>)
    ensures
        encodes(write_adds(ctx@, counted, old(out)@, wire_vals(v@), 0), r, final(out)@),
{
    let ghost l = wire_vals(v@);
    let ghost w = write_adds(ctx@, counted, out@, l, 0);
    let mut i: usize = 0;
    while i < v.len()
        invariant
            i <= v.len(),
            l == wire_vals(v@),
            w == write_adds(ctx@, counted, old(out)@, l, 0),
            w == write_adds(ctx@, counted, out@, l, i as int),
        decreases v.len() - i,
    {
        match &v[i].entry.1 {
            Some(x) => {
                let id = v[i].entry.0;
                write_var_int(out, i32_of_u32(v[i].wire_id));
                if x.get_self_enum() != id {
                    return Err(cannot_write("component value has another type"));
                }
                put_component(id, x, counted, out, ctx)?;
            },
            None => {},
        }
        i += 1;
    }
    Ok(())
}

/// Appends the numbers of the components that entries remove.
fn put_removes(v: &Vec<WireComponent>, out: &mut Vec<u8>)
    ensures
        final(out)@ == old(out)@ + removes_bytes(wire_vals(v@), 0),
{
    let ghost l = wire_vals(v@);
    let ghost all = out@ + removes_bytes(l, 0);
    let mut i: usize = 0;
    while i < v.len()
        invariant
            i <= v.len(),
            l == wire_vals(v@),
            all == out@ + removes_bytes(l, i as int),
        decreases v.len() - i,
    {
        let ghost before = out@;
        if v[i].entry.1.is_none() {
            write_var_int(out, i32_of_u32(v[i].wire_id));
            assert(before + removes_bytes(l, i as int) =~= out@ + removes_bytes(l, i + 1));
        }
        i += 1;
    }
    assert(all =~= out@);
}

/// Appends the counts and the components of a patch.
fn put_entries(v: &Vec<WireComponent>, counted: bool, out: &mut Vec<u8>, ctx: &Context) -> (r: Result<(), WritingError>)
    ensures
        encodes(write_entries(ctx@, counted, old(out)@, wire_vals(v@)), r, final(out)@),
{
    let add: usize = count_adds(v);
    write_var_int(out, count_as_i32(add));
    write_var_int(out, count_as_i32(v.len() - add));
    put_adds(v, counted, out, ctx)?;
    put_removes(v, out);
    Ok(())
}

/// Appends a stack whose item has a number in a version.
fn serialize_item_stack_with_id(
    stack: &ItemStack,
    item_id: u16,
    counted: bool,
    version: JavaMinecraftVersion,
    out: &mut Vec<u8>,
    ctx: &Context,
) -> (r: Result<(), WritingError>)
    requires
        item_id == item_id_out(*ctx.regs, stack.item.id as int, version),
    ensures
        encodes(write_stack(ctx@, counted, version, old(out)@, stack@), r, final(out)@),
{
    let ghost before = out@;
    if version.at_least(JavaMinecraftVersion::V_1_20_5) {
        if stack.is_empty() {
            write_var_int(out, 0);
            return Ok(());
        }
        let entries = remapped_patch(stack, version, ctx.regs);
        write_var_int(out, stack.item_count as i32);
        write_var_int(out, item_id as i32);
        put_entries(&entries, counted, out, ctx)
    } else if version.at_least(JavaMinecraftVersion::V_1_13_2) {
        if stack.is_empty() {
            write_bool(out, false);
            return Ok(());
        }
        write_bool(out, true);
        write_var_int(out, item_id as i32);
        write_i8(out, i8_of_u8(stack.item_count));
        write_u8(out, 0);
        assert(out@ =~= before + (flag(true) + var_int(item_id as int) + be_signed(to_signed(stack.item_count as nat, 1), 1)
            + be_bytes(0, 1)));
        Ok(())
    } else {
        if stack.is_empty() {
            write_i16_be(out, -1);
            return Ok(());
        }
        write_i16_be(out, i16_of_u16(item_id));
        write_i8(out, i8_of_u8(stack.item_count));
        if !version.at_least(JavaMinecraftVersion::V_1_13) {
            write_i16_be(out, 0);
        }
        write_u8(out, 0);
        assert(out@ =~= before + (be_signed(to_signed(item_id as nat, 2), 2) + be_signed(to_signed(stack.item_count as nat, 1), 1)
            + (if is_flat(version) {
            Seq::<u8>::empty()
        } else {
            be_signed(0, 2)
        }) + be_bytes(0, 1)));
        Ok(())
    }
}

impl ItemStackSerializer {
    /// Appends the stack as the current version has it.
    pub fn write(&self, out: &mut Vec<u8>, ctx: &Context) -> (r: Result<(), WritingError>)
        ensures
            encodes(write_stack(ctx@, false, JavaMinecraftVersion::V_26_2, old(out)@, self.0@), r, final(out)@),
    {
        self.write_with_version(out, &JavaMinecraftVersion::V_26_2, ctx)
    }

    /// Appends the stack as a version has it.
    pub fn write_with_version(&self, out: &mut Vec<u8>, version: &JavaMinecraftVersion, ctx: &Context) -> (r: Result<
        (),
        WritingError,
    >)
        ensures
            encodes(write_stack(ctx@, false, *version, old(out)@, self.0@), r, final(out)@),
    {
        let item_id: u16 = ctx.regs.remap_item_id_for_version(self.0.item.id, *version);
        serialize_item_stack_with_id(&self.0, item_id, false, *version, out, ctx)
    }

    /// Appends the stack, with the bytes of its components counted.
    pub fn write_length_prefixed_with_version(&self, out: &mut Vec<u8>, version: &JavaMinecraftVersion, ctx: &Context) -> (r: Result<
        (),
        WritingError,
    >)
        ensures
            encodes(write_stack(ctx@, true, *version, old(out)@, self.0@), r, final(out)@),
    {
        let item_id: u16 = ctx.regs.remap_item_id_for_version(self.0.item.id, *version);
        serialize_item_stack_with_id(&self.0, item_id, true, *version, out, ctx)
    }

    /// Appends the stack as what a trade costs.
    pub fn write_item_cost_with_version(&self, out: &mut Vec<u8>, version: &JavaMinecraftVersion, ctx: &Context) -> (r: Result<
        (),
        WritingError,
    >)
        ensures
            encodes(write_cost(ctx@, *version, old(out)@, self.0@), r, final(out)@),
    {
        let entries = remapped_patch(&self.0, *version, ctx.regs);
        let n: usize = count_adds(&entries);
        if n > 0x7fff_ffff {
            return Err(cannot_write("Too many item cost components"));
        }
        write_var_int(out, ctx.regs.remap_item_id_for_version(self.0.item.id, *version) as i32);
        write_var_int(out, self.0.item_count as i32);
        write_var_int(out, n as i32);
        put_adds(&entries, false, out, ctx)
    }

    /// Appends the stack as a client sends it.
    pub fn write_untrusted_with_version(&self, out: &mut Vec<u8>, version: &JavaMinecraftVersion, ctx: &Context) -> (r: Result<
        (),
        WritingError,
    >)
        ensures
            encodes(write_stack(ctx@, counts_components(*version), *version, old(out)@, self.0@), r, final(out)@),
    {
        if version.at_least(JavaMinecraftVersion::V_1_21_5) {
            self.write_length_prefixed_with_version(out, version, ctx)
        } else {
            self.write_with_version(out, version, ctx)
        }
    }

    /// Appends the stack as one that cannot be empty, in versions that have such stacks.
    pub fn write_template_with_version(&self, out: &mut Vec<u8>, version: &JavaMinecraftVersion, ctx: &Context) -> (r: Result<
        (),
        WritingError,
    >)
        ensures
            encodes(write_template(ctx@, *version, old(out)@, self.0@), r, final(out)@),
    {
        if !version.at_least(JavaMinecraftVersion::V_26_1) {
            self.write_with_version(out, version, ctx)
        } else {
            self.write_template0(out, version, ctx)
        }
    }

    /// Appends the stack as one that may be absent, in versions that have such stacks.
    pub fn write_optional_template_with_version(&self, out: &mut Vec<u8>, version: &JavaMinecraftVersion, ctx: &Context) -> (r: Result<
        (),
        WritingError,
    >)
        ensures
            encodes(write_optional_template(ctx@, *version, old(out)@, self.0@), r, final(out)@),
    {
        if !version.at_least(JavaMinecraftVersion::V_26_1) {
            self.write_with_version(out, version, ctx)
        } else if !self.0.is_empty() {
            write_bool(out, true);
            self.write_template0(out, version, ctx)
        } else {
            write_bool(out, false);
            Ok(())
        }
    }

    /// Appends the stack as one that cannot be empty.
    pub fn write_template0(&self, out: &mut Vec<u8>, version: &JavaMinecraftVersion, ctx: &Context) -> (r: Result<(), WritingError>)
        ensures
            encodes(write_filled(ctx@, *version, old(out)@, self.0@), r, final(out)@),
    {
        if self.0.is_empty() {
            return Err(cannot_write("Can't write empty item stack template"));
        }
        let entries = remapped_patch(&self.0, *version, ctx.regs);
        write_var_int(out, ctx.regs.remap_item_id_for_version(self.0.item.id, *version) as i32);
        write_var_int(out, self.0.item_count as i32);
        put_entries(&entries, false, out, ctx)
    }

    /// The stack, which is one of another version, in the current version.
    pub fn to_stack_for_version(self, version: &JavaMinecraftVersion, regs: &Registries) -> (r: ItemStack)
        ensures
            if holds_nothing(self.0@) {
                r == self.0
            } else {
                r@.count == self.0@.count && r@.patch == patch_in(*regs, *version, self.0@.patch, self.0@.patch.len()) && match item_for(
                    *regs,
                    self.0@.item.id as int,
                    Some(*version),
                ) {
                    Some(item) => r@.item == item,
                    None => is_air(r@.item),
                } && r.uid == self.0.uid
            },
    {
        let stack = self.0;
        if stack.is_empty() {
            return stack;
        }
        let id: u16 = regs.remap_item_id_from_version(stack.item.id, *version);
        let item: Arc<Item> = match regs.item_by_id(id) {
            Some(item) => item,
            None => Arc::new(Item::air()),
        };
        let ghost p = patch_val(stack.patch@);
        let mut patch: Vec<(DataComponent, Option<Arc<ComponentValue>>)> = Vec::new();
        assert(patch_val(patch@) =~= patch_in(*regs, *version, p, 0));
        let mut i: usize = 0;
        while i < stack.patch.len()
            invariant
                i <= stack.patch.len(),
                p == patch_val(stack.patch@),
                patch_val(patch@) == patch_in(*regs, *version, p, i as nat),
            decreases stack.patch.len() - i,
        {
            assert(p[i as int] == entry_val(stack.patch@[i as int]));
            let id = stack.patch[i].0;
            let target: u32 = regs.remap_data_component_type_id_from_version(id.to_id() as u32, *version);
            if target != 0 || id == DataComponent::CustomData {
                let number: i32 = if target <= 255 {
                    target as i32
                } else {
                    256
                };
                match component_with_id(number) {
                    Some(k) => {
                        let value: Option<Arc<ComponentValue>> = match &stack.patch[i].1 {
                            Some(v) => Some(share(v)),
                            None => None,
                        };
                        set_patch_entry(&mut patch, k, value);
                    },
                    None => {},
                }
            }
            i += 1;
        }
        ItemStack { item_count: stack.item_count, item, patch, uid: stack.uid }
    }

    /// The serializer of a stack, or of the one that stands for nothing.
    pub fn from_option(item: Option<ItemStack>) -> (r: Self)
        ensures
            match item {
                Some(s) => r.0 == s,
                None => crate::stack::is_nothing(r.0@),
            },
    {
        match item {
            Some(s) => ItemStackSerializer(s),
            None => ItemStackSerializer(ItemStack::empty()),
        }
    }
}

/// The first `n` entries of a patch of another version in the current one; those that it does not
/// know are left out.
pub open spec fn patch_in(regs: Registries, version: JavaMinecraftVersion, p: PatchVal, n: nat) -> PatchVal
    decreases n,
{
    if n == 0 || n > p.len() {
        Seq::empty()
    } else {
        let head = patch_in(regs, version, p, (n - 1) as nat);
        let target = component_id_in(regs, component_id(p[n - 1].0) as int, version);
        if target == 0 && p[n - 1].0 != DataComponent::CustomData {
            head
        } else {
            match component_of_id(target) {
                Some(k) => set_entry(head, k, p[n - 1].1),
                None => head,
            }
        }
    }
}

impl From<ItemStack> for ItemStackSerializer {
    fn from(item: ItemStack) -> (r: Self) {
        ItemStackSerializer(item)
    }
}

impl vstd::std_specs::convert::FromSpecImpl<ItemStack> for ItemStackSerializer {
    open spec fn obeys_from_spec() -> bool {
        true
    }

    open spec fn from_spec(item: ItemStack) -> ItemStackSerializer {
        ItemStackSerializer(item)
    }
}

/// A stack that is written as one that cannot be empty.
#[derive(Debug)]
pub struct ItemStackTemplateSerializer(pub ItemStack);

impl ItemStackTemplateSerializer {
    /// Appends the stack as a version has it.
    pub fn write_with_version(&self, out: &mut Vec<u8>, version: &JavaMinecraftVersion, ctx: &Context) -> (r: Result<
        (),
        WritingError,
    >)
        ensures
            encodes(write_template(ctx@, *version, old(out)@, self.0@), r, final(out)@),
    {
        ItemStackSerializer(self.0.copy()).write_template_with_version(out, version, ctx)
    }

    /// Appends the stack as the current version has it.
    pub fn write(&self, out: &mut Vec<u8>, ctx: &Context) -> (r: Result<(), WritingError>)
        ensures
            encodes(write_template(ctx@, JavaMinecraftVersion::V_26_2, old(out)@, self.0@), r, final(out)@),
    {
        self.write_with_version(out, &JavaMinecraftVersion::V_26_2, ctx)
    }
}

impl From<ItemStack> for ItemStackTemplateSerializer {
    fn from(item: ItemStack) -> (r: Self) {
        ItemStackTemplateSerializer(item)
    }
}

impl vstd::std_specs::convert::FromSpecImpl<ItemStack> for ItemStackTemplateSerializer {
    open spec fn obeys_from_spec() -> bool {
        true
    }

    open spec fn from_spec(item: ItemStack) -> ItemStackTemplateSerializer {
        ItemStackTemplateSerializer(item)
    }
}

/// A stack that is written as one that may be absent.
#[derive(Debug)]
pub struct ItemStackOptionalTemplateSerializer(pub ItemStack);

impl ItemStackOptionalTemplateSerializer {
    /// Appends the stack as a version has it.
    pub fn write_with_version(&self, out: &mut Vec<u8>, version: &JavaMinecraftVersion, ctx: &Context) -> (r: Result<
        (),
        WritingError,
    >)
        ensures
            encodes(write_optional_template(ctx@, *version, old(out)@, self.0@), r, final(out)@),
    {
        ItemStackSerializer(self.0.copy()).write_optional_template_with_version(out, version, ctx)
    }

    /// Appends the stack as the current version has it.
    pub fn write(&self, out: &mut Vec<u8>, ctx: &Context) -> (r: Result<(), WritingError>)
        ensures
            encodes(write_optional_template(ctx@, JavaMinecraftVersion::V_26_2, old(out)@, self.0@), r, final(out)@),
    {
        self.write_with_version(out, &JavaMinecraftVersion::V_26_2, ctx)
    }

    /// The serializer of a stack, or of the one that stands for nothing.
    pub fn from_option(item: Option<ItemStack>) -> (r: Self)
        ensures
            match item {
                Some(s) => r.0 == s,
                None => crate::stack::is_nothing(r.0@),
            },
    {
        match item {
            Some(s) => ItemStackOptionalTemplateSerializer(s),
            None => ItemStackOptionalTemplateSerializer(ItemStack::empty()),
        }
    }
}

impl From<ItemStack> for ItemStackOptionalTemplateSerializer {
    fn from(item: ItemStack) -> (r: Self) {
        ItemStackOptionalTemplateSerializer(item)
    }
}

impl vstd::std_specs::convert::FromSpecImpl<ItemStack> for ItemStackOptionalTemplateSerializer {
    open spec fn obeys_from_spec() -> bool {
        true
    }

    open spec fn from_spec(item: ItemStack) -> ItemStackOptionalTemplateSerializer {
        ItemStackOptionalTemplateSerializer(item)
    }
}

} // verus!
