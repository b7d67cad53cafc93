//! The checksums by which a client describes a stack.
use vstd::prelude::*;
use crate::bytes::be_signed;
use crate::codec::count_as_i32;
use crate::component_hash::{component_hash, get_hash};
use crate::data_component::component_id;
use crate::errors::{message, msg, ReadingError};
use crate::format::{count_added, written_count, PatchVal, StackVal};
use crate::item_stack::{entry_val, group_stack_vals, patch_val, ItemStack};
use crate::stack::{effective, holds_nothing};
use crate::wire::{done, fail, flag, get_bool, get_i32, get_var_int, read_bool, read_signed, read_var_int, var_int, write_bool, write_i32, write_var_int, Outcome};

verus! {

broadcast use group_stack_vals;

/// The checksums of the components that a patch adds, by the numbers of their types, and the
/// numbers of those that it removes.
#[derive(Debug)]
pub struct ItemComponentHash {
    pub added: Vec<(i32, i32)>,
    pub removed: Vec<i32>,
}

/// The item, the count and the checksums of a stack.
#[derive(Debug)]
pub struct ItemStackHash {
    pub item_id: i32,
    pub count: i32,
    pub components: ItemComponentHash,
}

/// The description of a stack, or of an empty one.
#[derive(Debug)]
pub struct OptionalItemStackHash(pub Option<ItemStackHash>);

/// What a description of components is.
pub struct ComponentsView {
    pub added: Seq<(int, int)>,
    pub removed: Seq<int>,
}

impl ItemComponentHash {
    pub open spec fn view(&self) -> ComponentsView {
        ComponentsView {
            added: Seq::new(self.added@.len(), |i: int| (self.added@[i].0 as int, self.added@[i].1 as int)),
            removed: Seq::new(self.removed@.len(), |i: int| self.removed@[i] as int),
        }
    }
}

/// Reading `n` more pairs behind those in `head`.
pub open spec fn read_pairs(n: nat, s: Seq<u8>, head: Seq<(int, int)>) -> Outcome<Seq<(int, int)>>
    decreases n,
{
    if n == 0 {
        done(head, s)
    } else {
        match read_var_int(s) {
            Outcome { value: Err(e), rest } => fail(e, rest),
            Outcome { value: Ok(id), rest } => match read_signed(rest, 4) {
                Outcome { value: Err(e), rest } => fail(e, rest),
                Outcome { value: Ok(v), rest } => read_pairs((n - 1) as nat, rest, head.push((id, v))),
            },
        }
    }
}

/// Reading `n` more numbers behind those in `head`.
pub open spec fn read_numbers(n: nat, s: Seq<u8>, head: Seq<int>) -> Outcome<Seq<int>>
    decreases n,
{
    if n == 0 {
        done(head, s)
    } else {
        match read_var_int(s) {
            Outcome { value: Err(e), rest } => fail(e, rest),
            Outcome { value: Ok(v), rest } => read_numbers((n - 1) as nat, rest, head.push(v)),
        }
    }
}

/// Reading a count of at most 256.
pub open spec fn read_bounded(s: Seq<u8>, out_of_bounds: &'static str) -> Outcome<nat> {
    match read_var_int(s) {
        Outcome { value: Err(e), rest } => fail(e, rest),
        Outcome { value: Ok(n), rest } => if n < 0 || n > 256 {
            fail(msg(out_of_bounds), rest)
        } else {
            done(n as nat, rest)
        },
    }
}

/// Reading a description of components.
pub open spec fn read_hashes(s: Seq<u8>) -> Outcome<ComponentsView> {
    match read_bounded(s, "added_length out of bounds") {
        Outcome { value: Err(e), rest } => fail(e, rest),
        Outcome { value: Ok(n), rest } => match read_pairs(n, rest, Seq::empty()) {
            Outcome { value: Err(e), rest } => fail(e, rest),
            Outcome { value: Ok(added), rest } => match read_bounded(rest, "removed_length out of bounds") {
                Outcome { value: Err(e), rest } => fail(e, rest),
                Outcome { value: Ok(m), rest } => match read_numbers(m, rest, Seq::empty()) {
                    Outcome { value: Err(e), rest } => fail(e, rest),
                    Outcome { value: Ok(removed), rest } => done(ComponentsView { added, removed }, rest),
                },
            },
        },
    }
}

/// The bytes of the first `n` pairs.
pub open spec fn pairs_bytes(l: Seq<(int, int)>, n: nat) -> Seq<u8>
    decreases n,
{
    if n == 0 || n > l.len() {
        Seq::empty()
    } else {
        pairs_bytes(l, (n - 1) as nat) + var_int(l[n - 1].0) + be_signed(l[n - 1].1, 4)
    }
}

/// The bytes of the first `n` numbers.
pub open spec fn numbers_bytes(l: Seq<int>, n: nat) -> Seq<u8>
    decreases n,
{
    if n == 0 || n > l.len() {
        Seq::empty()
    } else {
        numbers_bytes(l, (n - 1) as nat) + var_int(l[n - 1])
    }
}

/// The bytes of a description of components.
pub open spec fn hashes_bytes(v: ComponentsView) -> Seq<u8> {
    var_int(written_count(v.added.len())) + pairs_bytes(v.added, v.added.len()) + var_int(written_count(v.removed.len()))
        + numbers_bytes(v.removed, v.removed.len())
}

impl ItemComponentHash {
    /// Reads a description of components.
    pub fn read(seq: &mut &[u8]) -> (r: Result<Self, ReadingError>)
        ensures
            match r {
                Ok(h) => read_hashes(old(seq)@) == done(h@, final(seq)@),
                Err(e) => read_hashes(old(seq)@) == fail::<ComponentsView>(e@, final(seq)@),
            },
    {
        let n: i32 = get_var_int(seq)?;
        if n < 0 || n > 256 {
            return Err(message("added_length out of bounds"));
        }
        let added = read_added(seq, n)?;
        let ghost l = Seq::new(added@.len(), |i: int| (added@[i].0 as int, added@[i].1 as int));
        let m: i32 = get_var_int(seq)?;
        if m < 0 || m > 256 {
            return Err(message("removed_length out of bounds"));
        }
        let removed = read_removed(seq, m)?;
        let h = ItemComponentHash { added, removed };
        assert(h@.added =~= l);
        Ok(h)
    }

    /// Appends a description of components.
    pub fn write(&self, out: &mut Vec<u8>)
        ensures
            final(out)@ == old(out)@ + hashes_bytes(self@),
    {
        let ghost before = out@;
        let ghost v = self@;
        write_var_int(out, count_as_i32(self.added.len()));
        let ghost head = out@;
        assert(out@ =~= head + pairs_bytes(v.added, 0));
        let mut i: usize = 0;
        while i < self.added.len()
            invariant
                i <= self.added.len(),
                v == self@,
                out@ == head + pairs_bytes(v.added, i as nat),
            decreases self.added.len() - i,
        {
            write_var_int(out, self.added[i].0);
            write_i32(out, self.added[i].1);
            assert(out@ =~= head + pairs_bytes(v.added, (i + 1) as nat));
            i += 1;
        }
        write_var_int(out, count_as_i32(self.removed.len()));
        let ghost middle = out@;
        assert(out@ =~= middle + numbers_bytes(v.removed, 0));
        let mut j: usize = 0;
        while j < self.removed.len()
            invariant
                j <= self.removed.len(),
                v == self@,
                out@ == middle + numbers_bytes(v.removed, j as nat),
            decreases self.removed.len() - j,
        {
            write_var_int(out, self.removed[j]);
            assert(out@ =~= middle + numbers_bytes(v.removed, (j + 1) as nat));
            j += 1;
        }
        assert(out@ =~= before + hashes_bytes(v));
    }
}

/// Reads pairs of a number and a checksum.
fn read_added(seq: &mut &[u8], n: i32) -> (r: Result<Vec<(i32, i32)>, ReadingError>)
    requires
        n >= 0,
    ensures
        match r {
            Ok(v) => read_pairs(n as nat, old(seq)@, Seq::empty()) == done(
                Seq::new(v@.len(), |i: int| (v@[i].0 as int, v@[i].1 as int)),
                final(seq)@,
            ),
            Err(e) => read_pairs(n as nat, old(seq)@, Seq::empty()) == fail::<Seq<(int, int)>>(e@, final(seq)@),
        },
{
    let ghost o = read_pairs(n as nat, old(seq)@, Seq::empty());
    let mut out: Vec<(i32, i32)> = Vec::new();
    let ghost mut head: Seq<(int, int)> = Seq::empty();
    let mut i: i32 = 0;
    while i < n
        invariant
            0 <= i <= n,
            o == read_pairs(n as nat, old(seq)@, Seq::empty()),
            o == read_pairs((n - i) as nat, seq@, head),
            head.len() == out@.len(),
            forall|k: int| 0 <= k < head.len() ==> #[trigger] head[k] == (out@[k].0 as int, out@[k].1 as int),
        decreases n - i,
    {
        let id: i32 = get_var_int(seq)?;
        let v: i32 = get_i32(seq)?;
        out.push((id, v));
        proof {
            head = head.push((id as int, v as int));
        }
        i += 1;
    }
    assert(head =~= Seq::new(out@.len(), |i: int| (out@[i].0 as int, out@[i].1 as int)));
    Ok(out)
}

/// Reads numbers.
fn read_removed(seq: &mut &[u8], n: i32) -> (r: Result<Vec<i32>, ReadingError>)
    requires
        n >= 0,
    ensures
        match r {
            Ok(v) => read_numbers(n as nat, old(seq)@, Seq::empty()) == done(Seq::new(v@.len(), |i: int| v@[i] as int), final(seq)@),
            Err(e) => read_numbers(n as nat, old(seq)@, Seq::empty()) == fail::<Seq<int>>(e@, final(seq)@),
        },
{
    let ghost o = read_numbers(n as nat, old(seq)@, Seq::empty());
    let mut out: Vec<i32> = Vec::new();
    let ghost mut head: Seq<int> = Seq::empty();
    let mut i: i32 = 0;
    while i < n
        invariant
            0 <= i <= n,
            o == read_numbers(n as nat, old(seq)@, Seq::empty()),
            o == read_numbers((n - i) as nat, seq@, head),
            head.len() == out@.len(),
            forall|k: int| 0 <= k < head.len() ==> #[trigger] head[k] == out@[k] as int,
        decreases n - i,
    {
        let v: i32 = get_var_int(seq)?;
        out.push(v);
        proof {
            head = head.push(v as int);
        }
        i += 1;
    }
    assert(head =~= Seq::new(out@.len(), |i: int| out@[i] as int));
    Ok(out)
}

/// What a description of a stack is.
pub struct HashView {
    pub item_id: int,
    pub count: int,
    pub components: ComponentsView,
}

impl OptionalItemStackHash {
    pub open spec fn view(&self) -> Option<HashView> {
        match self.0 {
            Some(h) => Some(HashView { item_id: h.item_id as int, count: h.count as int, components: h.components@ }),
            None => None,
        }
    }
}

/// Reading a description of a stack.
pub open spec fn read_stack_hash(s: Seq<u8>) -> Outcome<Option<HashView>> {
    match read_bool(s) {
        Outcome { value: Err(e), rest } => fail(e, rest),
        Outcome { value: Ok(false), rest } => done(None, rest),
        Outcome { value: Ok(true), rest } => match read_var_int(rest) {
            Outcome { value: Err(e), rest } => fail(e, rest),
            Outcome { value: Ok(item_id), rest } => match read_var_int(rest) {
                Outcome { value: Err(e), rest } => fail(e, rest),
                Outcome { value: Ok(count), rest } => match read_hashes(rest) {
                    Outcome { value: Err(e), rest } => fail(e, rest),
                    Outcome { value: Ok(components), rest } => done(Some(HashView { item_id, count, components }), rest),
                },
            },
        },
    }
}

/// The bytes of a description of a stack.
pub open spec fn stack_hash_bytes(v: Option<HashView>) -> Seq<u8> {
    match v {
        Some(h) => flag(true) + var_int(h.item_id) + var_int(h.count) + hashes_bytes(h.components),
        None => flag(false),
    }
}

/// Whether an entry of a patch is described.
pub open spec fn entry_described(v: ComponentsView, p: PatchVal, i: int) -> bool {
    match p[i].1 {
        Some(c) => v.added.contains((component_id(p[i].0) as int, component_hash(c))),
        None => v.removed.contains(component_id(p[i].0) as int),
    }
}

/// Whether a description is that of a patch without repeated entries.
pub open spec fn patch_described(v: ComponentsView, p: PatchVal) -> bool {
    v.added.len() == count_added(p, 0) && v.removed.len() == p.len() - count_added(p, 0) && forall|i: int|
        0 <= i < p.len() ==> #[trigger] entry_described(v, p, i)
}

/// Whether a description is that of a stack.
pub open spec fn describes(v: Option<HashView>, s: StackVal) -> bool {
    match v {
        Some(h) => h.item_id == s.item.id && h.count == s.count && patch_described(
            h.components,
            effective(s.patch, s.patch.len()),
        ),
        None => holds_nothing(s),
    }
}

impl OptionalItemStackHash {
    /// Reads a description of a stack.
    pub fn read(seq: &mut &[u8]) -> (r: Result<Self, ReadingError>)
        ensures
            match r {
                Ok(h) => read_stack_hash(old(seq)@) == done(h@, final(seq)@),
                Err(e) => read_stack_hash(old(seq)@) == fail::<Option<HashView>>(e@, final(seq)@),
            },
    {
        if !get_bool(seq)? {
            return Ok(OptionalItemStackHash(None));
        }
        let item_id: i32 = get_var_int(seq)?;
        let count: i32 = get_var_int(seq)?;
        let components = ItemComponentHash::read(seq)?;
        Ok(OptionalItemStackHash(Some(ItemStackHash { item_id, count, components })))
    }

    /// Appends a description of a stack.
    pub fn write(&self, out: &mut Vec<u8>)
        ensures
            final(out)@ == old(out)@ + stack_hash_bytes(self@),
    {
        let ghost before = out@;
        match &self.0 {
            Some(h) => {
                write_bool(out, true);
                write_var_int(out, h.item_id);
                write_var_int(out, h.count);
                h.components.write(out);
                assert(out@ =~= before + stack_hash_bytes(self@));
            },
            None => {
                write_bool(out, false);
            },
        }
    }

    /// Whether the description is that of a stack.
    pub fn hash_equals(&self, other: &ItemStack) -> (r: bool)
        ensures
            r == describes(self@, other@),
    {
        let hash = match &self.0 {
            Some(hash) => hash,
            None => {
                return other.is_empty();
            },
        };
        if hash.item_id != other.item.id as i32 || hash.count != other.item_count as i32 {
            return false;
        }
        let patch = other.effective_patch();
        let ghost p = patch_val(patch@);
        let ghost v = hash.components@;
        let mut add: usize = 0;
        let mut i: usize = patch.len();
        while i > 0
            invariant
                i <= patch.len(),
                p == patch_val(patch@),
                add == count_added(p, i as int),
                add + i <= patch@.len(),
            decreases i,
        {
            i -= 1;
            assert(p[i as int] == entry_val(patch@[i as int]));
            if patch[i].1.is_some() {
                add += 1;
            }
        }
        if add != hash.components.added.len() || patch.len() - add != hash.components.removed.len() {
            return false;
        }
        let mut k: usize = 0;
        while k < patch.len()
            invariant
                k <= patch.len(),
                p == patch_val(patch@),
                p == effective(other@.patch, other@.patch.len()),
                v == hash.components@,
                self.0 == Some(*hash),
                forall|j: int| 0 <= j < k ==> #[trigger] entry_described(v, p, j),
            decreases patch.len() - k,
        {
            assert(p[k as int] == entry_val(patch@[k as int]));
            let id: i32 = patch[k].0.to_id() as i32;
            let described: bool = match &patch[k].1 {
                Some(value) => has_pair(&hash.components, id, get_hash(value)),
                None => has_number(&hash.components, id),
            };
            assert(described == entry_described(v, p, k as int));
            if !described {
                return false;
            }
            k += 1;
        }
        true
    }
}

/// Whether a component is described with a checksum.
fn has_pair(h: &ItemComponentHash, id: i32, value: i32) -> (r: bool)
    ensures
        r == h@.added.contains((id as int, value as int)),
{
    let ghost l = h@.added;
    let mut i: usize = 0;
    while i < h.added.len()
        invariant
            i <= h.added.len(),
            l == h@.added,
            forall|k: int| 0 <= k < i ==> #[trigger] l[k] != (id as int, value as int),
        decreases h.added.len() - i,
    {
        assert(l[i as int] == (h.added@[i as int].0 as int, h.added@[i as int].1 as int));
        if h.added[i].0 == id && h.added[i].1 == value {
            return true;
        }
        i += 1;
    }
    false
}

/// Whether a component is described as removed.
fn has_number(h: &ItemComponentHash, id: i32) -> (r: bool)
    ensures
        r == h@.removed.contains(id as int),
{
    let ghost l = h@.removed;
    let mut i: usize = 0;
    while i < h.removed.len()
        invariant
            i <= h.removed.len(),
            l == h@.removed,
            forall|k: int| 0 <= k < i ==> #[trigger] l[k] != id as int,
        decreases h.removed.len() - i,
    {
        assert(l[i as int] == h.removed@[i as int] as int);
        if h.removed[i] == id {
            return true;
        }
        i += 1;
    }
    false
}

} // verus!
