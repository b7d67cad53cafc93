//! The components of a stack.
use std::sync::Arc;
use vstd::prelude::*;
use crate::components::{value_val, ComponentValue, DataComponentImpl};
use crate::data_component::DataComponent;
use crate::format::{first_entry, ComponentVal, PatchVal, StackVal, Val};
use crate::item_stack::{component_val, entry_val, group_stack_vals, patch_val, Item, ItemStack, AIR_ID};
use crate::nested::find_entry;
use crate::nested_stored::find_last;
use crate::registry::share;
use crate::same::last_place;

verus! {

broadcast use group_stack_vals;

/// The first default for a component, from the `i`th on.
pub open spec fn first_default(c: Seq<(DataComponent, Arc<ComponentValue>)>, k: DataComponent, i: int) -> Option<ComponentVal>
    decreases c.len() - i,
{
    if i < 0 || i >= c.len() {
        None
    } else if c[i].0 == k {
        Some(component_val(*c[i].1))
    } else {
        first_default(c, k, i + 1)
    }
}

/// What a stack has for a component: the last entry of its patch, or the default of its item.
pub open spec fn component_in(s: StackVal, k: DataComponent) -> Option<ComponentVal> {
    match last_place(s.patch, k, s.patch.len()) {
        Some(i) => s.patch[i].1,
        None => first_default(s.item.components@, k, 0),
    }
}

/// The value that a stack has for a component; one of another component counts as none.
pub open spec fn value_in(s: StackVal, k: DataComponent) -> Option<Val> {
    match component_in(s, k) {
        Some(c) => if c.kind == k {
            Some(c.val)
        } else {
            None
        },
        None => None,
    }
}

/// The entries of a patch from the `i`th on that are not for a component.
pub open spec fn drop_entries(p: PatchVal, k: DataComponent, i: int) -> PatchVal
    decreases p.len() - i,
{
    if i < 0 || i >= p.len() {
        Seq::empty()
    } else if p[i].0 == k {
        drop_entries(p, k, i + 1)
    } else {
        seq![p[i]] + drop_entries(p, k, i + 1)
    }
}

/// A patch with one entry for a component, in the place of the first that there was.
pub open spec fn replaced(p: PatchVal, k: DataComponent, v: Option<ComponentVal>) -> PatchVal {
    match first_entry(p, k, 0) {
        Some(i) => p.take(i).push((k, v)) + drop_entries(p, k, i + 1),
        None => p.push((k, v)),
    }
}

/// A patch in which the last entry for a component has taken the place of the first.
pub open spec fn normalized(p: PatchVal, k: DataComponent) -> PatchVal {
    match last_place(p, k, p.len()) {
        Some(i) => replaced(p, k, p[i].1),
        None => p,
    }
}

/// A stack with another patch.
pub open spec fn with_patch(s: StackVal, patch: PatchVal) -> StackVal {
    StackVal { patch, ..s }
}

/// The components for which the first `n` entries of a patch have one, each with its last entry.
pub open spec fn effective(p: PatchVal, n: nat) -> PatchVal
    decreases n,
{
    if n == 0 || n > p.len() {
        Seq::empty()
    } else if last_place(p, p[n - 1].0, (n - 1) as nat) is Some {
        effective(p, (n - 1) as nat)
    } else {
        match last_place(p, p[n - 1].0, p.len()) {
            Some(j) => effective(p, (n - 1) as nat).push((p[n - 1].0, p[j].1)),
            None => effective(p, (n - 1) as nat),
        }
    }
}

/// Whether an item is the one that stands for nothing.
pub open spec fn is_air(item: Item) -> bool {
    item.id == AIR_ID && item.registry_key@ == "air"@ && item.tags@.len() == 0 && item.components@.len() == 0
}

/// Whether a stack is the one that stands for nothing.
pub open spec fn is_nothing(s: StackVal) -> bool {
    s.count == 0 && s.patch == PatchVal::empty() && is_air(s.item)
}

/// Whether a stack holds nothing.
pub open spec fn holds_nothing(s: StackVal) -> bool {
    s.count == 0 || s.item.id == AIR_ID
}

/// What the last place of a component in a patch is.
pub proof fn lemma_last_place(p: PatchVal, k: DataComponent, n: nat)
    requires
        n <= p.len(),
    ensures
        match last_place(p, k, n) {
            Some(i) => 0 <= i < n && p[i].0 == k && (forall|j: int| i < j < n ==> (#[trigger] p[j]).0 != k),
            None => forall|j: int| 0 <= j < n ==> (#[trigger] p[j]).0 != k,
        },
    decreases n,
{
    if n > 0 {
        lemma_last_place(p, k, (n - 1) as nat);
    }
}

/// What the first place of a component in a patch is.
pub proof fn lemma_first_entry(p: PatchVal, k: DataComponent, i: int)
    requires
        0 <= i <= p.len(),
    ensures
        match first_entry(p, k, i) {
            Some(j) => i <= j < p.len() && p[j].0 == k && (forall|m: int| i <= m < j ==> (#[trigger] p[m]).0 != k),
            None => forall|m: int| i <= m < p.len() ==> (#[trigger] p[m]).0 != k,
        },
    decreases p.len() - i,
{
    if i < p.len() {
        lemma_first_entry(p, k, i + 1);
    }
}

/// Drops the entries of a patch for a component, from the `from`th on.
fn drop_from(patch: &mut Vec<(DataComponent, Option<Arc<ComponentValue>>)>, id: DataComponent, from: usize)
    requires
        from <= old(patch)@.len(),
    ensures
        patch_val(final(patch)@) == patch_val(old(patch)@).take(from as int) + drop_entries(patch_val(old(patch)@), id, from as int),
{
    let ghost p = patch_val(patch@);
    let mut j: usize = patch.len();
    assert(patch_val(patch@) =~= p.take(j as int) + drop_entries(p, id, j as int));
    while j > from
        invariant
            from <= j <= p.len(),
            p == patch_val(old(patch)@),
            patch_val(patch@) == p.take(j as int) + drop_entries(p, id, j as int),
        decreases j,
    {
        j -= 1;
        let ghost q = patch_val(patch@);
        assert(patch@.len() == q.len());
        assert(q[j as int] == p[j as int]);
        assert(entry_val(patch@[j as int]) == q[j as int]);
        if patch[j].0 == id {
            let _ = patch.remove(j);
            assert(patch_val(patch@) =~= q.remove(j as int));
            assert(q.remove(j as int) =~= p.take(j as int) + drop_entries(p, id, j as int));
        } else {
            assert(q =~= p.take(j as int) + drop_entries(p, id, j as int));
        }
    }
}

/// The value of an entry of a patch, to be changed.
fn entry_mut(patch: &mut Vec<(DataComponent, Option<Arc<ComponentValue>>)>, i: usize) -> (r: Option<&mut Arc<ComponentValue>>)
    requires
        i < old(patch)@.len(),
    ensures
        match r {
            Some(v) => old(patch)@[i as int].1 == Some(*v) && final(patch)@ == old(patch)@.update(
                i as int,
                (old(patch)@[i as int].0, Some(*final(v))),
            ),
            None => old(patch)@[i as int].1 is None && final(patch)@ == old(patch)@,
        },
{
    let e = &mut patch[i];
    match &mut e.1 {
        Some(v) => Some(v),
        None => None,
    }
}

impl Item {
    /// The item that stands for nothing.
    pub fn air() -> (r: Item)
        ensures
            is_air(r),
    {
        Item { id: AIR_ID, registry_key: "air".to_owned(), tags: Vec::new(), components: Vec::new() }
    }

    /// The features that have to be enabled for the item.
    pub fn required_features(&self) -> (r: [&'static str; 1])
        ensures
            r@ == seq!["minecraft:vanilla"],
    {
        let r: [&'static str; 1] = ["minecraft:vanilla"];
        assert(r@ =~= seq!["minecraft:vanilla"]);
        r
    }

    /// The default for a component.
    pub fn get_default(&self, id: DataComponent) -> (r: Option<&Arc<ComponentValue>>)
        ensures
            match r {
                Some(v) => first_default(self.components@, id, 0) == Some(component_val(**v)),
                None => first_default(self.components@, id, 0) is None,
            },
    {
        let mut i: usize = 0;
        while i < self.components.len()
            invariant
                i <= self.components.len(),
                first_default(self.components@, id, 0) == first_default(self.components@, id, i as int),
            decreases self.components.len() - i,
        {
            if self.components[i].0 == id {
                return Some(&self.components[i].1);
            }
            i += 1;
        }
        None
    }
}

/// A copy of an entry of a patch.
fn copy_entry(e: &(DataComponent, Option<Arc<ComponentValue>>)) -> (r: (DataComponent, Option<Arc<ComponentValue>>))
    ensures
        entry_val(r) == entry_val(*e),
{
    match &e.1 {
        Some(v) => (e.0, Some(share(v))),
        None => (e.0, None),
    }
}

/// A copy of a patch.
pub fn copy_patch(p: &Vec<(DataComponent, Option<Arc<ComponentValue>>)>) -> (r: Vec<(DataComponent, Option<Arc<ComponentValue>>)>)
    ensures
        patch_val(r@) == patch_val(p@),
{
    let mut out: Vec<(DataComponent, Option<Arc<ComponentValue>>)> = Vec::new();
    let mut i: usize = 0;
    while i < p.len()
        invariant
            i <= p.len(),
            out@.len() == i,
            forall|k: int| 0 <= k < i ==> entry_val(#[trigger] out@[k]) == entry_val(p@[k]),
        decreases p.len() - i,
    {
        out.push(copy_entry(&p[i]));
        i += 1;
    }
    assert(patch_val(out@) =~= patch_val(p@));
    out
}

impl ItemStack {
    /// The stack that stands for nothing.
    pub fn empty() -> (r: Self)
        ensures
            is_nothing(r@),
            r.uid == i32::MIN,
    {
        let r = ItemStack { item_count: 0, item: Arc::new(Item::air()), patch: Vec::new(), uid: i32::MIN };
        assert(r@.patch =~= PatchVal::empty());
        r
    }

    /// A copy with the same number.
    pub fn copy(&self) -> (r: Self)
        ensures
            r@ == self@,
            r.uid == self.uid,
    {
        ItemStack { item_count: self.item_count, item: share(&self.item), patch: copy_patch(&self.patch), uid: self.uid }
    }

    /// Whether the stack holds nothing.
    pub fn is_empty(&self) -> (r: bool)
        ensures
            r == holds_nothing(self@),
    {
        self.item_count == 0 || self.item.id == AIR_ID
    }

    /// Whether every feature that the item requires is enabled; an empty stack always is.
    pub fn is_item_enabled(&self, enabled_features: &[&str]) -> (r: bool)
        ensures
            r == (holds_nothing(self@) || exists|i: int|
                0 <= i < enabled_features@.len() && (#[trigger] enabled_features@[i])@ == "minecraft:vanilla"@),
    {
        if self.is_empty() {
            return true;
        }
        let required = self.item.required_features();
        let mut i: usize = 0;
        while i < enabled_features.len()
            invariant
                i <= enabled_features@.len(),
                required@ == seq!["minecraft:vanilla"],
                forall|k: int| 0 <= k < i ==> (#[trigger] enabled_features@[k])@ != "minecraft:vanilla"@,
            decreases enabled_features.len() - i,
        {
            if crate::text::same_text(enabled_features[i], required[0]) {
                return true;
            }
            i += 1;
        }
        false
    }

    /// The value that the stack has for a component.
    pub fn get_data_component<T: DataComponentImpl>(&self) -> (r: Option<&T>)
        ensures
            match r {
                Some(x) => value_in(self@, T::component()) == Some(value_val((*x).wrap())),
                None => value_in(self@, T::component()) is None,
            },
    {
        let id = T::get_enum();
        match find_last(&self.patch, id, self.patch.len()) {
            Some(i) => {
                assert(self@.patch[i as int] == entry_val(self.patch@[i as int]));
                match &self.patch[i].1 {
                    Some(v) => T::of(v),
                    None => None,
                }
            },
            None => match self.item.get_default(id) {
                Some(v) => T::of(v),
                None => None,
            },
        }
    }

    /// Whether the stack has a component.
    pub fn has_data_component(&self, to_get_id: DataComponent) -> (r: bool)
        ensures
            r == (component_in(self@, to_get_id) is Some),
    {
        match find_last(&self.patch, to_get_id, self.patch.len()) {
            Some(i) => {
                assert(self@.patch[i as int] == entry_val(self.patch@[i as int]));
                self.patch[i].1.is_some()
            },
            None => self.item.get_default(to_get_id).is_some(),
        }
    }

    /// Lets the last entry for a component take the place of the first.
    fn normalize_patch_entry(&mut self, id: DataComponent) -> (r: Option<usize>)
        ensures
            final(self)@ == with_patch(old(self)@, normalized(old(self)@.patch, id)),
            final(self).uid == old(self).uid,
            match r {
                Some(i) => first_entry(old(self)@.patch, id, 0) == Some(i as int) && i < final(self).patch@.len()
                    && final(self)@.patch[i as int].0 == id && final(self)@.patch[i as int].1 == old(self)@.patch[last_place(
                    old(self)@.patch,
                    id,
                    old(self)@.patch.len(),
                )->0].1 && last_place(old(self)@.patch, id, old(self)@.patch.len()) is Some,
                None => first_entry(old(self)@.patch, id, 0) is None && last_place(old(self)@.patch, id, old(self)@.patch.len()) is None,
            },
    {
        let ghost p = patch_val(self.patch@);
        proof {
            lemma_first_entry(p, id, 0);
            lemma_last_place(p, id, p.len());
        }
        let n: usize = self.patch.len();
        match find_entry(&self.patch, id) {
            Some(first) => {
                match find_last(&self.patch, id, n) {
                    Some(last) => {
                        let e = copy_entry(&self.patch[last]);
                        assert(entry_val(e) == p[last as int]);
                        self.patch.set(first, e);
                        let ghost q = patch_val(self.patch@);
                        assert(q =~= p.update(first as int, p[last as int]));
                        drop_from(&mut self.patch, id, first + 1);
                        proof {
                            lemma_drop_same(p, q, id, first + 1);
                            assert(q.take(first + 1) =~= p.take(first as int).push(p[last as int]));
                        }
                    },
                    None => {},
                }
                Some(first)
            },
            None => None,
        }
    }

    /// Sets the entry for a component; of several the first keeps its place.
    pub(crate) fn replace_patch_entry(&mut self, id: DataComponent, value: Option<Arc<ComponentValue>>)
        ensures
            final(self)@ == with_patch(old(self)@, replaced(old(self)@.patch, id, entry_val((id, value)).1)),
            final(self).uid == old(self).uid,
            final(self).item == old(self).item,
            final(self).item_count == old(self).item_count,
    {
        let ghost p = patch_val(self.patch@);
        let ghost e = entry_val((id, value));
        proof {
            lemma_first_entry(p, id, 0);
        }
        let n: usize = self.patch.len();
        match find_entry(&self.patch, id) {
            Some(first) => {
                assert(first < n);
                self.patch.set(first, (id, value));
                let ghost q = patch_val(self.patch@);
                assert(q =~= p.update(first as int, e));
                drop_from(&mut self.patch, id, first + 1);
                proof {
                    lemma_drop_same(p, q, id, first + 1);
                    assert(q.take(first + 1) =~= p.take(first as int).push(e));
                }
            },
            None => {
                self.patch.push((id, value));
                assert(patch_val(self.patch@) =~= p.push(e));
            },
        }
    }

    /// Drops every entry for a component.
    pub(crate) fn drop_patch_entries(&mut self, id: DataComponent)
        ensures
            final(self)@ == with_patch(old(self)@, drop_entries(old(self)@.patch, id, 0)),
            final(self).uid == old(self).uid,
    {
        let ghost p = patch_val(self.patch@);
        drop_from(&mut self.patch, id, 0);
        assert(patch_val(self.patch@) =~= drop_entries(p, id, 0));
    }

    /// The place of the value that the stack has for a component, in its patch; a default is put
    /// there first. Values are shared between stacks, so it is the place that is handed out and not
    /// the inside of the value: what is put there is what the stack then has.
    pub fn get_data_component_mut<T: DataComponentImpl>(&mut self) -> (r: Option<&mut Arc<ComponentValue>>)
        ensures
            final(self).uid == old(self).uid,
            match r {
                Some(v) => component_in(old(self)@, T::component()) == Some(component_val(**v)) && final(self)@ == with_patch(
                    old(self)@,
                    replaced(old(self)@.patch, T::component(), Some(component_val(**final(v)))),
                ),
                None => component_in(old(self)@, T::component()) is None && final(self)@ == with_patch(
                    old(self)@,
                    normalized(old(self)@.patch, T::component()),
                ),
            },
    {
        let id = T::get_enum();
        let ghost p = patch_val(self.patch@);
        proof {
            lemma_first_entry(p, id, 0);
            lemma_last_place(p, id, p.len());
        }
        match self.normalize_patch_entry(id) {
            Some(i) => {
                let ghost q = self.patch@;
                assert(patch_val(q) == normalized(p, id));
                assert(patch_val(q)[i as int] == entry_val(q[i as int]));
                assert forall|w: Arc<ComponentValue>|
                    patch_val(q.update(i as int, (id, Some(w)))) == replaced(p, id, Some(#[trigger] component_val(*w))) by {
                    lemma_update_entry(q, i as int, (id, Some(w)));
                    lemma_replaced_at(p, id, i as int, p[last_place(p, id, p.len())->0].1, Some(component_val(*w)));
                }
                entry_mut(&mut self.patch, i)
            },
            None => {
                match self.item.get_default(id) {
                    Some(v) => {
                        let value = share(v);
                        let n: usize = self.patch.len();
                        let ghost before = self.patch@;
                        assert(patch_val(before) == p);
                        self.patch.push((id, Some(value)));
                        assert(patch_val(self.patch@) =~= p.push(entry_val((id, Some(value)))));
                        let ghost q = self.patch@;
                        assert forall|w: Arc<ComponentValue>|
                            patch_val(q.update(n as int, (id, Some(w)))) == replaced(p, id, Some(#[trigger] component_val(*w))) by {
                            lemma_update_entry(q, n as int, (id, Some(w)));
                            assert(p.push(entry_val(q[n as int])).update(n as int, (id, Some(component_val(*w)))) =~= p.push(
                                (id, Some(component_val(*w))),
                            ));
                        }
                        entry_mut(&mut self.patch, n)
                    },
                    None => None,
                }
            },
        }
    }

    /// Sets the value of a component.
    pub fn set_data_component<T: DataComponentImpl>(&mut self, component: T)
        ensures
            final(self)@ == with_patch(
                old(self)@,
                replaced(old(self)@.patch, T::component(), Some(component_val(component.wrap()))),
            ),
            final(self).uid == old(self).uid,
    {
        let id = T::get_enum();
        let value: Option<Arc<ComponentValue>> = Some(Arc::new(component.to_dyn()));
        self.replace_patch_entry(id, value);
    }

    /// Takes a component away, also where the item has it.
    pub fn remove_data_component(&mut self, to_remove_id: DataComponent)
        ensures
            final(self)@ == with_patch(old(self)@, replaced(old(self)@.patch, to_remove_id, None)),
            final(self).uid == old(self).uid,
    {
        self.replace_patch_entry(to_remove_id, None);
    }

    /// The components that the patch sets or takes away, each once.
    pub fn effective_patch(&self) -> (r: Vec<(DataComponent, Option<Arc<ComponentValue>>)>)
        ensures
            patch_val(r@) == effective(self@.patch, self@.patch.len()),
    {
        let ghost p = patch_val(self.patch@);
        let n: usize = self.patch.len();
        let mut out: Vec<(DataComponent, Option<Arc<ComponentValue>>)> = Vec::new();
        assert(patch_val(out@) =~= effective(p, 0));
        let mut i: usize = 0;
        while i < n
            invariant
                i <= n,
                n == self.patch@.len(),
                p == patch_val(self.patch@),
                patch_val(out@) == effective(p, i as nat),
            decreases n - i,
        {
            assert(p[i as int] == entry_val(self.patch@[i as int]));
            let id = self.patch[i].0;
            if find_last(&self.patch, id, i).is_none() {
                match find_last(&self.patch, id, n) {
                    Some(j) => {
                        proof {
                            lemma_last_place(p, id, p.len());
                        }
                        assert(p[j as int] == entry_val(self.patch@[j as int]));
                        let e = copy_entry(&self.patch[j]);
                        let ghost before = patch_val(out@);
                        out.push(e);
                        assert(patch_val(out@) =~= before.push(p[j as int]));
                    },
                    None => {},
                }
            }
            i += 1;
        }
        out
    }
}

proof fn lemma_update_entry(
    q: Seq<(DataComponent, Option<Arc<ComponentValue>>)>,
    i: int,
    e: (DataComponent, Option<Arc<ComponentValue>>),
)
    requires
        0 <= i < q.len(),
    ensures
        patch_val(q.update(i, e)) == patch_val(q).update(i, entry_val(e)),
{
    assert(patch_val(q.update(i, e)) =~= patch_val(q).update(i, entry_val(e)));
}

proof fn lemma_replaced_at(p: PatchVal, k: DataComponent, i: int, v: Option<ComponentVal>, w: Option<ComponentVal>)
    requires
        first_entry(p, k, 0) == Some(i),
    ensures
        replaced(p, k, v).update(i, (k, w)) == replaced(p, k, w),
{
    lemma_first_entry(p, k, 0);
    assert(replaced(p, k, v).update(i, (k, w)) =~= replaced(p, k, w));
}

/// Entries are dropped alike where the patches agree.
proof fn lemma_drop_same(p: PatchVal, q: PatchVal, k: DataComponent, i: int)
    requires
        0 <= i,
        p.len() == q.len(),
        forall|j: int| i <= j < p.len() ==> #[trigger] p[j] == q[j],
    ensures
        drop_entries(p, k, i) == drop_entries(q, k, i),
    decreases p.len() - i,
{
    if i < p.len() {
        assert(p[i] == q[i]);
        lemma_drop_same(p, q, k, i + 1);
    }
}

} // verus!
