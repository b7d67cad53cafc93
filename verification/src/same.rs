//! When two values count as the same.
use vstd::prelude::*;
use crate::data_component::DataComponent;
use crate::format::{ComponentVal, PatchVal, StackVal, Val};
use crate::nbt_source::{ints32, ints64};
use crate::nbt_tag::{compound_get, lemma_entry_views, lemma_tag_views, tag_view, tag_views, NbtCompound, NbtTag, Tag};
use crate::text::same_text;

verus! {

broadcast use {lemma_tag_views, lemma_entry_views};

/// Whether the bit pattern of a floating-point number of `n` bytes is not a number.
pub open spec fn float_nan(n: nat, bits: int) -> bool {
    if n == 4 {
        bits % 0x8000_0000 > 0x7f80_0000
    } else {
        bits % 0x8000_0000_0000_0000 > 0x7ff0_0000_0000_0000
    }
}

/// Whether the bit pattern is that of a zero, of either sign.
pub open spec fn float_zero(n: nat, bits: int) -> bool {
    if n == 4 {
        bits % 0x8000_0000 == 0
    } else {
        bits % 0x8000_0000_0000_0000 == 0
    }
}

/// The bit pattern with every value that is not a number folded into one.
pub open spec fn float_pattern(n: nat, bits: int) -> int {
    if !float_nan(n, bits) {
        bits
    } else if n == 4 {
        0x7fc0_0000
    } else {
        0x7ff8_0000_0000_0000
    }
}

/// Whether two floating-point numbers are equal as numbers.
pub open spec fn float_same(n: nat, a: int, b: int) -> bool {
    !float_nan(n, a) && !float_nan(n, b) && (a == b || (float_zero(n, a) && float_zero(n, b)))
}

/// The bit pattern of a 32-bit number with every value that is not a number folded into one.
pub fn float_bits(bits: u32) -> (r: u32)
    ensures
        r == float_pattern(4, bits as int),
{
    if bits % 0x8000_0000 > 0x7f80_0000 {
        0x7fc0_0000
    } else {
        bits
    }
}

/// The bit pattern of a 64-bit number with every value that is not a number folded into one.
pub fn double_bits(bits: u64) -> (r: u64)
    ensures
        r == float_pattern(8, bits as int),
{
    if bits % 0x8000_0000_0000_0000 > 0x7ff0_0000_0000_0000 {
        0x7ff8_0000_0000_0000
    } else {
        bits
    }
}

/// Whether two 32-bit numbers are equal as numbers.
pub fn same_f32(a: u32, b: u32) -> (r: bool)
    ensures
        r == float_same(4, a as int, b as int),
{
    a % 0x8000_0000 <= 0x7f80_0000 && b % 0x8000_0000 <= 0x7f80_0000 && (a == b || (a % 0x8000_0000 == 0 && b % 0x8000_0000
        == 0))
}

/// Whether two 64-bit numbers are equal as numbers.
pub fn same_f64(a: u64, b: u64) -> (r: bool)
    ensures
        r == float_same(8, a as int, b as int),
{
    a % 0x8000_0000_0000_0000 <= 0x7ff0_0000_0000_0000 && b % 0x8000_0000_0000_0000 <= 0x7ff0_0000_0000_0000 && (a == b
        || (a % 0x8000_0000_0000_0000 == 0 && b % 0x8000_0000_0000_0000 == 0))
}

/// Whether two tags match, whatever the order of the entries in a compound. Floating-point numbers
/// match by their folded bit patterns where `by_pattern` is set, and as numbers otherwise.
pub open spec fn tags_match(a: Tag, b: Tag, by_pattern: bool) -> bool
    decreases a, 0nat,
{
    match (a, b) {
        (Tag::End, Tag::End) => true,
        (Tag::Byte(x), Tag::Byte(y)) => x == y,
        (Tag::Short(x), Tag::Short(y)) => x == y,
        (Tag::Int(x), Tag::Int(y)) => x == y,
        (Tag::Long(x), Tag::Long(y)) => x == y,
        (Tag::Float(x), Tag::Float(y)) => if by_pattern {
            float_pattern(4, x) == float_pattern(4, y)
        } else {
            float_same(4, x, y)
        },
        (Tag::Double(x), Tag::Double(y)) => if by_pattern {
            float_pattern(8, x) == float_pattern(8, y)
        } else {
            float_same(8, x, y)
        },
        (Tag::ByteArray(x), Tag::ByteArray(y)) => x == y,
        (Tag::String(x), Tag::String(y)) => x == y,
        (Tag::List(x), Tag::List(y)) => x.len() == y.len() && lists_match(x, y, x.len(), by_pattern),
        (Tag::Compound(x), Tag::Compound(y)) => x.len() == y.len() && entries_match(x, y, x.len(), by_pattern),
        (Tag::IntArray(x), Tag::IntArray(y)) => x == y,
        (Tag::LongArray(x), Tag::LongArray(y)) => x == y,
        _ => false,
    }
}

/// Whether the first `n` tags of two lists match.
pub open spec fn lists_match(x: Seq<Tag>, y: Seq<Tag>, n: nat, by_pattern: bool) -> bool
    decreases x, n,
{
    if n == 0 || n > x.len() {
        true
    } else {
        lists_match(x, y, (n - 1) as nat, by_pattern) && tags_match(x[n - 1], y[n - 1], by_pattern)
    }
}

/// Whether the first `n` entries of `x` have their matches in `y`.
pub open spec fn entries_match(x: Seq<(Seq<char>, Tag)>, y: Seq<(Seq<char>, Tag)>, n: nat, by_pattern: bool) -> bool
    decreases x, n,
{
    if n == 0 || n > x.len() {
        true
    } else {
        entries_match(x, y, (n - 1) as nat, by_pattern) && match compound_get(y, x[n - 1].0) {
            Some(t) => tags_match(x[n - 1].1, t, by_pattern),
            None => false,
        }
    }
}

proof fn lemma_lists_differ(x: Seq<Tag>, y: Seq<Tag>, i: nat, n: nat, by_pattern: bool)
    requires
        i < n <= x.len(),
        !tags_match(x[i as int], y[i as int], by_pattern),
    ensures
        !lists_match(x, y, n, by_pattern),
    decreases n,
{
    if i + 1 < n {
        lemma_lists_differ(x, y, i, (n - 1) as nat, by_pattern);
    }
}

proof fn lemma_entries_differ(x: Seq<(Seq<char>, Tag)>, y: Seq<(Seq<char>, Tag)>, i: nat, n: nat, by_pattern: bool)
    requires
        i < n <= x.len(),
        match compound_get(y, x[i as int].0) {
            Some(t) => !tags_match(x[i as int].1, t, by_pattern),
            None => true,
        },
    ensures
        !entries_match(x, y, n, by_pattern),
    decreases n,
{
    if i + 1 < n {
        lemma_entries_differ(x, y, i, (n - 1) as nat, by_pattern);
    }
}

fn same_i8s(a: &Vec<i8>, b: &Vec<i8>) -> (r: bool)
    ensures
        r == (a@ == b@),
{
    if a.len() != b.len() {
        return false;
    }
    let mut i: usize = 0;
    while i < a.len()
        invariant
            i <= a.len(),
            a.len() == b.len(),
            a@.take(i as int) =~= b@.take(i as int),
        decreases a.len() - i,
    {
        if a[i] != b[i] {
            return false;
        }
        i += 1;
    }
    assert(a@.take(i as int) =~= a@ && b@.take(i as int) =~= b@);
    true
}

/// Whether two lists of numbers are the same.
pub fn same_i32s(a: &Vec<i32>, b: &Vec<i32>) -> (r: bool)
    ensures
        r == (a@ == b@),
        r == (ints32(a@) == ints32(b@)),
{
    if a.len() != b.len() {
        assert(ints32(a@).len() != ints32(b@).len());
        return false;
    }
    let mut i: usize = 0;
    while i < a.len()
        invariant
            i <= a.len(),
            a.len() == b.len(),
            a@.take(i as int) =~= b@.take(i as int),
        decreases a.len() - i,
    {
        if a[i] != b[i] {
            assert(ints32(a@)[i as int] != ints32(b@)[i as int]);
            return false;
        }
        i += 1;
    }
    assert(a@.take(i as int) =~= a@ && b@.take(i as int) =~= b@);
    true
}

fn same_i64s(a: &Vec<i64>, b: &Vec<i64>) -> (r: bool)
    ensures
        r == (ints64(a@) == ints64(b@)),
{
    if a.len() != b.len() {
        assert(ints64(a@).len() != ints64(b@).len());
        return false;
    }
    let mut i: usize = 0;
    while i < a.len()
        invariant
            i <= a.len(),
            a.len() == b.len(),
            a@.take(i as int) =~= b@.take(i as int),
        decreases a.len() - i,
    {
        if a[i] != b[i] {
            assert(ints64(a@)[i as int] != ints64(b@)[i as int]);
            return false;
        }
        i += 1;
    }
    assert(a@.take(i as int) =~= a@ && b@.take(i as int) =~= b@);
    true
}

/// Whether two tags match.
pub fn match_tags(a: &NbtTag, b: &NbtTag, by_pattern: bool) -> (r: bool)
    ensures
        r == tags_match(a@, b@, by_pattern),
    decreases *a, 0nat,
{
    match (a, b) {
        (NbtTag::End, NbtTag::End) => true,
        (NbtTag::Byte(x), NbtTag::Byte(y)) => *x == *y,
        (NbtTag::Short(x), NbtTag::Short(y)) => *x == *y,
        (NbtTag::Int(x), NbtTag::Int(y)) => *x == *y,
        (NbtTag::Long(x), NbtTag::Long(y)) => *x == *y,
        (NbtTag::Float(x), NbtTag::Float(y)) => if by_pattern {
            float_bits(*x) == float_bits(*y)
        } else {
            same_f32(*x, *y)
        },
        (NbtTag::Double(x), NbtTag::Double(y)) => if by_pattern {
            double_bits(*x) == double_bits(*y)
        } else {
            same_f64(*x, *y)
        },
        (NbtTag::ByteArray(x), NbtTag::ByteArray(y)) => same_i8s(x, y),
        (NbtTag::String(x), NbtTag::String(y)) => same_text(x.as_str(), y.as_str()),
        (NbtTag::List(x), NbtTag::List(y)) => {
            assert(a@ == Tag::List(tag_views(x@, x@.len())));
            assert(b@ == Tag::List(tag_views(y@, y@.len())));
            match_lists(x, y, by_pattern)
        },
        (NbtTag::Compound(x), NbtTag::Compound(y)) => match_compounds(x, y, by_pattern),
        (NbtTag::IntArray(x), NbtTag::IntArray(y)) => same_i32s(x, y),
        (NbtTag::LongArray(x), NbtTag::LongArray(y)) => same_i64s(x, y),
        _ => false,
    }
}

fn match_lists(x: &Vec<NbtTag>, y: &Vec<NbtTag>, by_pattern: bool) -> (r: bool)
    ensures
        r == (x@.len() == y@.len() && lists_match(
            tag_views(x@, x@.len()),
            tag_views(y@, y@.len()),
            x@.len(),
            by_pattern,
        )),
    decreases *x, 1nat,
{
    if x.len() != y.len() {
        return false;
    }
    let ghost a = tag_views(x@, x@.len());
    let ghost b = tag_views(y@, y@.len());
    let mut i: usize = 0;
    while i < x.len()
        invariant
            i <= x.len(),
            x.len() == y.len(),
            a == tag_views(x@, x@.len()),
            b == tag_views(y@, y@.len()),
            lists_match(a, b, i as nat, by_pattern),
        decreases x.len() - i,
    {
        assert(decreases_to!(*x => x@[i as int]));
        assert(a[i as int] == tag_view(x@[i as int]) && b[i as int] == tag_view(y@[i as int]));
        if !match_tags(&x[i], &y[i], by_pattern) {
            proof {
                lemma_lists_differ(a, b, i as nat, a.len(), by_pattern);
            }
            return false;
        }
        i += 1;
    }
    true
}

/// Whether two compounds match, whatever the order of their entries.
pub fn match_compounds(x: &NbtCompound, y: &NbtCompound, by_pattern: bool) -> (r: bool)
    ensures
        r == tags_match(Tag::Compound(x@), Tag::Compound(y@), by_pattern),
    decreases *x, 1nat,
{
    if x.child_tags.len() != y.child_tags.len() {
        return false;
    }
    let ghost a = x@;
    let ghost b = y@;
    let mut i: usize = 0;
    while i < x.child_tags.len()
        invariant
            i <= x.child_tags.len(),
            x@.len() == x.child_tags@.len(),
            a == x@,
            b == y@,
            entries_match(a, b, i as nat, by_pattern),
        decreases x.child_tags.len() - i,
    {
        assert(decreases_to!(*x => x.child_tags@[i as int].1));
        assert(a[i as int] == (x.child_tags@[i as int].0@, tag_view(x.child_tags@[i as int].1)));
        let same: bool = match y.get(x.child_tags[i].0.as_str()) {
            Some(t) => match_tags(&x.child_tags[i].1, t, by_pattern),
            None => false,
        };
        if !same {
            proof {
                lemma_entries_differ(a, b, i as nat, a.len(), by_pattern);
            }
            return false;
        }
        i += 1;
    }
    true
}

/// The place of the last entry for a component among the first `n`.
pub open spec fn last_place(p: PatchVal, k: DataComponent, n: nat) -> Option<int>
    decreases n,
{
    if n == 0 || n > p.len() {
        None
    } else if p[n - 1].0 == k {
        Some(n - 1)
    } else {
        last_place(p, k, (n - 1) as nat)
    }
}

/// Whether two values are the same: floating-point numbers and tags as numbers, stacks by their
/// items, counts and effective patches.
pub open spec fn val_same(a: Val, b: Val) -> bool
    decreases a, 0nat,
{
    match (a, b) {
        (Val::Unit, Val::Unit) => true,
        (Val::Bool(x), Val::Bool(y)) => x == y,
        (Val::Int(x), Val::Int(y)) => x == y,
        (Val::Float(n, x), Val::Float(m, y)) => n == m && float_same(n, x as int, y as int),
        (Val::Text(x), Val::Text(y)) => x == y,
        (Val::Pair(x, z), Val::Pair(y, w)) => val_same(*x, *y) && val_same(*z, *w),
        (Val::List(x), Val::List(y)) => x.len() == y.len() && vals_same(x, y, x.len()),
        (Val::Absent, Val::Absent) => true,
        (Val::Present(x), Val::Present(y)) => val_same(*x, *y),
        (Val::Nbt(x), Val::Nbt(y)) => tags_match(x, y, false),
        (Val::Stack(x), Val::Stack(y)) => stack_same(x, y),
        _ => false,
    }
}

/// Whether the first `n` values of two lists are the same.
pub open spec fn vals_same(x: Seq<Val>, y: Seq<Val>, n: nat) -> bool
    decreases x, n,
{
    if n == 0 || n > x.len() {
        true
    } else {
        vals_same(x, y, (n - 1) as nat) && val_same(x[n - 1], y[n - 1])
    }
}

/// Whether two stacks have the same item, the same count and the same effective patch.
pub open spec fn stack_same(x: StackVal, y: StackVal) -> bool
    decreases x, 2nat,
{
    x.count == y.count && items_same(x, y)
}

/// Whether two stacks have the same item and the same effective patch.
pub open spec fn items_same(x: StackVal, y: StackVal) -> bool
    decreases x, 1nat,
{
    x.item.id == y.item.id && patch_same(x.patch, y.patch, x.patch.len()) && covered(y.patch, x.patch)
}

/// Whether `q` has an entry for every component for which `p` has one.
pub open spec fn covered(p: PatchVal, q: PatchVal) -> bool {
    forall|i: int| 0 <= i < p.len() ==> last_place(q, (#[trigger] p[i]).0, q.len()) is Some
}

/// Whether the first `n` entries of `p` that are effective are so in `q`.
pub open spec fn patch_same(p: PatchVal, q: PatchVal, n: nat) -> bool
    decreases p, n,
{
    if n == 0 || n > p.len() {
        true
    } else {
        patch_same(p, q, (n - 1) as nat) && (last_place(p, p[n - 1].0, p.len()) == Some(n - 1) ==> match last_place(
            q,
            p[n - 1].0,
            q.len(),
        ) {
            None => false,
            Some(j) => match (p[n - 1].1, q[j].1) {
                (None, None) => true,
                (Some(a), Some(b)) => component_same(a, b),
                _ => false,
            },
        })
    }
}

/// The key of a keyed value.
pub open spec fn key_of(v: Val) -> Seq<char> {
    match v {
        Val::Pair(k, _) => match *k {
            Val::Text(t) => t,
            _ => arbitrary(),
        },
        _ => arbitrary(),
    }
}

/// The place of the last value with this key among the first `n`.
pub open spec fn last_key(l: Seq<Val>, k: Seq<char>, n: nat) -> Option<int>
    decreases n,
{
    if n == 0 || n > l.len() {
        None
    } else if key_of(l[n - 1]) == k {
        Some(n - 1)
    } else {
        last_key(l, k, (n - 1) as nat)
    }
}

/// Whether every key of `x` is one of `y`.
pub open spec fn keys_covered(x: Seq<Val>, y: Seq<Val>) -> bool {
    forall|i: int| 0 <= i < x.len() ==> last_key(y, key_of(#[trigger] x[i]), y.len()) is Some
}

/// Whether the first `n` values of `x`, as far as each is the last for its key, are so in `y`.
pub open spec fn keyed_same(x: Seq<Val>, y: Seq<Val>, n: nat) -> bool
    decreases x, n,
{
    if n == 0 || n > x.len() {
        true
    } else {
        keyed_same(x, y, (n - 1) as nat) && (last_key(x, key_of(x[n - 1]), x.len()) == Some(n - 1) ==> match last_key(
            y,
            key_of(x[n - 1]),
            y.len(),
        ) {
            None => false,
            Some(j) => val_same(x[n - 1], y[j]),
        })
    }
}

/// The slot of the stack in a container.
pub open spec fn slot_of(v: Val) -> int {
    match v {
        Val::Pair(k, _) => match *k {
            Val::Int(i) => i,
            _ => arbitrary(),
        },
        _ => arbitrary(),
    }
}

/// The place of the first stack for this slot, from the `i`th on.
pub open spec fn first_slot(l: Seq<Val>, slot: int, i: int) -> Option<int>
    decreases l.len() - i,
{
    if i < 0 || i >= l.len() {
        None
    } else if slot_of(l[i]) == slot {
        Some(i)
    } else {
        first_slot(l, slot, i + 1)
    }
}

/// Whether the first `n` stacks of the container `x` are those of `y` in the same slots.
pub open spec fn slots_same(x: Seq<Val>, y: Seq<Val>, n: nat) -> bool
    decreases x, n,
{
    if n == 0 || n > x.len() {
        true
    } else {
        slots_same(x, y, (n - 1) as nat) && match first_slot(y, slot_of(x[n - 1]), 0) {
            None => false,
            Some(j) => val_same(x[n - 1], y[j]),
        }
    }
}

/// The values for this key, in their order.
pub open spec fn values_of(l: Seq<Val>, k: Seq<char>) -> Seq<Val> {
    l.filter(|v: Val| key_of(v) == k)
}

/// Whether two lists have the same values for every key, in the same order.
pub open spec fn same_groups(x: Seq<Val>, y: Seq<Val>) -> bool {
    forall|k: Seq<char>| #[trigger] values_of(x, k) == values_of(y, k)
}

/// Whether two values of components are the same.
pub open spec fn component_same(a: ComponentVal, b: ComponentVal) -> bool
    decreases a, 1nat,
{
    a.kind == b.kind && if a.kind == DataComponent::CustomData {
        match (a.val, b.val) {
            (Val::Nbt(x), Val::Nbt(y)) => tags_match(x, y, true),
            _ => false,
        }
    } else if a.kind == DataComponent::BlockState {
        match (a.val, b.val) {
            (Val::List(x), Val::List(y)) => same_groups(x, y),
            _ => false,
        }
    } else if a.kind == DataComponent::MapDecorations {
        match (a.val, b.val) {
            (Val::List(x), Val::List(y)) => keyed_same(x, y, x.len()) && keys_covered(y, x),
            _ => false,
        }
    } else if a.kind == DataComponent::Container {
        match (a.val, b.val) {
            (Val::List(x), Val::List(y)) => x.len() == y.len() && slots_same(x, y, x.len()),
            _ => false,
        }
    } else {
        val_same(a.val, b.val)
    }
}

} // verus!
