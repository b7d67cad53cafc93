//! Tags: the tree of named values in which items are stored.
use vstd::prelude::*;
use crate::nbt_source::{ints32, ints64};
use crate::text::same_text;

verus! {

/// What a tag is, as a mathematical value.
pub enum Tag {
    End,
    Byte(int),
    Short(int),
    Int(int),
    Long(int),
    /// The bit pattern of a 32-bit floating-point number.
    Float(int),
    /// The bit pattern of a 64-bit floating-point number.
    Double(int),
    ByteArray(Seq<i8>),
    String(Seq<char>),
    List(Seq<Tag>),
    /// The entries in the order in which their keys first came.
    Compound(Seq<(Seq<char>, Tag)>),
    IntArray(Seq<int>),
    LongArray(Seq<int>),
}

/// A tag.
#[derive(Debug, PartialEq)]
pub enum NbtTag {
    End,
    Byte(i8),
    Short(i16),
    Int(i32),
    Long(i64),
    /// A 32-bit floating-point number, as its bit pattern.
    Float(u32),
    /// A 64-bit floating-point number, as its bit pattern.
    Double(u64),
    ByteArray(Vec<i8>),
    String(String),
    List(Vec<NbtTag>),
    Compound(NbtCompound),
    IntArray(Vec<i32>),
    LongArray(Vec<i64>),
}

/// A map from names to tags, in the order in which the names first came.
#[derive(Debug, PartialEq)]
pub struct NbtCompound {
    pub child_tags: Vec<(String, NbtTag)>,
}

/// The first `n` tags of `s`, each by its view.
pub open spec fn tag_views(s: Seq<NbtTag>, n: nat) -> Seq<Tag>
    decreases s, n,
{
    if n == 0 || n > s.len() {
        Seq::empty()
    } else {
        tag_views(s, (n - 1) as nat).push(tag_view(s[n - 1]))
    }
}

/// The first `n` entries of `s`, each by its view.
pub open spec fn entry_views(s: Seq<(String, NbtTag)>, n: nat) -> Seq<(Seq<char>, Tag)>
    decreases s, n,
{
    if n == 0 || n > s.len() {
        Seq::empty()
    } else {
        entry_views(s, (n - 1) as nat).push((s[n - 1].0@, tag_view(s[n - 1].1)))
    }
}

/// What the tag `t` is.
pub open spec fn tag_view(t: NbtTag) -> Tag
    decreases t, 0nat,
{
    match t {
        NbtTag::End => Tag::End,
        NbtTag::Byte(v) => Tag::Byte(v as int),
        NbtTag::Short(v) => Tag::Short(v as int),
        NbtTag::Int(v) => Tag::Int(v as int),
        NbtTag::Long(v) => Tag::Long(v as int),
        NbtTag::Float(v) => Tag::Float(v as int),
        NbtTag::Double(v) => Tag::Double(v as int),
        NbtTag::ByteArray(v) => Tag::ByteArray(v@),
        NbtTag::String(v) => Tag::String(v@),
        NbtTag::List(v) => Tag::List(tag_views(v@, v@.len())),
        NbtTag::Compound(c) => Tag::Compound(entry_views(c.child_tags@, c.child_tags@.len())),
        NbtTag::IntArray(v) => Tag::IntArray(ints32(v@)),
        NbtTag::LongArray(v) => Tag::LongArray(ints64(v@)),
    }
}

/// The position of the entry with this key.
pub open spec fn key_index(c: Seq<(Seq<char>, Tag)>, key: Seq<char>) -> Option<int>
    decreases c.len(),
{
    if c.len() == 0 {
        None
    } else if c.last().0 == key {
        Some(c.len() - 1)
    } else {
        key_index(c.drop_last(), key)
    }
}

/// The entries of `c` with `key` set to `t`: a known key keeps its place, a new one comes last.
pub open spec fn compound_put(c: Seq<(Seq<char>, Tag)>, key: Seq<char>, t: Tag) -> Seq<(Seq<char>, Tag)> {
    match key_index(c, key) {
        Some(i) => c.update(i, (key, t)),
        None => c.push((key, t)),
    }
}

/// What the place of a key is.
pub proof fn lemma_key_index(c: Seq<(Seq<char>, Tag)>, key: Seq<char>)
    ensures
        match key_index(c, key) {
            Some(i) => 0 <= i < c.len() && c[i].0 == key && forall|j: int| i < j < c.len() ==> (#[trigger] c[j]).0 != key,
            None => forall|j: int| 0 <= j < c.len() ==> (#[trigger] c[j]).0 != key,
        },
    decreases c.len(),
{
    if c.len() > 0 && c.last().0 != key {
        lemma_key_index(c.drop_last(), key);
        assert forall|j: int| 0 <= j < c.len() - 1 implies c[j] == c.drop_last()[j] by {}
    }
}

/// The index found is the last one with the key.
pub proof fn lemma_key_index_is(c: Seq<(Seq<char>, Tag)>, key: Seq<char>, i: int)
    requires
        0 <= i < c.len(),
        c[i].0 == key,
        forall|j: int| i < j < c.len() ==> (#[trigger] c[j]).0 != key,
    ensures
        key_index(c, key) == Some(i),
{
    lemma_key_index(c, key);
}

/// A key that no entry has is not found.
pub proof fn lemma_key_index_none(c: Seq<(Seq<char>, Tag)>, key: Seq<char>)
    requires
        forall|j: int| 0 <= j < c.len() ==> (#[trigger] c[j]).0 != key,
    ensures
        key_index(c, key) is None,
{
    lemma_key_index(c, key);
}

/// Whether no key comes twice.
pub open spec fn keys_distinct(c: Seq<(Seq<char>, Tag)>) -> bool {
    forall|i: int, j: int| 0 <= i < j < c.len() ==> (#[trigger] c[i]).0 != (#[trigger] c[j]).0
}

/// Setting a key keeps keys distinct.
pub proof fn lemma_put_keeps_keys_distinct(c: Seq<(Seq<char>, Tag)>, key: Seq<char>, t: Tag)
    requires
        keys_distinct(c),
    ensures
        keys_distinct(compound_put(c, key, t)),
{
    lemma_key_index(c, key);
}

/// The tag that `c` holds under `key`.
pub open spec fn compound_get(c: Seq<(Seq<char>, Tag)>, key: Seq<char>) -> Option<Tag> {
    match key_index(c, key) {
        Some(i) => Some(c[i].1),
        None => None,
    }
}

/// What was put is what is got, and no other key changes.
pub proof fn lemma_get_of_put(c: Seq<(Seq<char>, Tag)>, key: Seq<char>, t: Tag, other: Seq<char>)
    ensures
        compound_get(compound_put(c, key, t), key) == Some(t),
        other != key ==> compound_get(compound_put(c, key, t), other) == compound_get(c, other),
{
    let d = compound_put(c, key, t);
    lemma_key_index(c, key);
    match key_index(c, key) {
        Some(i) => lemma_key_index_is(d, key, i),
        None => lemma_key_index_is(d, key, c.len() as int),
    }
    if other != key {
        lemma_key_index(c, other);
        match key_index(c, other) {
            Some(j) => lemma_key_index_is(d, other, j),
            None => lemma_key_index_none(d, other),
        }
    }
}

/// What tags are, one by one.
pub broadcast proof fn lemma_tag_views(s: Seq<NbtTag>, n: nat)
    requires
        n <= s.len(),
    ensures
        (#[trigger] tag_views(s, n)).len() == n,
        forall|i: int| 0 <= i < n ==> #[trigger] tag_views(s, n)[i] == tag_view(s[i]),
    decreases n,
{
    if n > 0 {
        lemma_tag_views(s, (n - 1) as nat);
    }
}

/// What the entries of a compound are, one by one.
pub broadcast proof fn lemma_entry_views(s: Seq<(String, NbtTag)>, n: nat)
    requires
        n <= s.len(),
    ensures
        (#[trigger] entry_views(s, n)).len() == n,
        forall|i: int| 0 <= i < n ==> (#[trigger] entry_views(s, n)[i]) == (s[i].0@, tag_view(s[i].1)),
    decreases n,
{
    if n > 0 {
        lemma_entry_views(s, (n - 1) as nat);
    }
}

impl NbtTag {
    pub open spec fn view(&self) -> Tag {
        tag_view(*self)
    }
}

/// The views of a list of tags.
pub open spec fn tags_of(s: Seq<NbtTag>) -> Seq<Tag> {
    tag_views(s, s.len())
}

impl NbtCompound {
    pub open spec fn view(&self) -> Seq<(Seq<char>, Tag)> {
        entry_views(self.child_tags@, self.child_tags@.len())
    }

    /// A compound without entries.
    pub fn new() -> (r: Self)
        ensures
            r@ == Seq::<(Seq<char>, Tag)>::empty(),
    {
        let r = NbtCompound { child_tags: Vec::new() };
        assert(r@ =~= Seq::empty());
        r
    }

    /// The number of entries.
    pub fn len(&self) -> (r: usize)
        ensures
            r == self@.len(),
    {
        proof {
            lemma_entry_views(self.child_tags@, self.child_tags@.len());
        }
        self.child_tags.len()
    }

    /// Whether there is no entry.
    pub fn is_empty(&self) -> (r: bool)
        ensures
            r == (self@.len() == 0),
    {
        self.len() == 0
    }

    /// The position of the entry with this key.
    pub fn find(&self, key: &str) -> (r: Option<usize>)
        ensures
            match r {
                Some(i) => key_index(self@, key@) == Some(i as int) && i < self.child_tags@.len(),
                None => key_index(self@, key@) is None,
            },
    {
        broadcast use lemma_entry_views;

        let mut i: usize = self.child_tags.len();
        while i > 0
            invariant
                i <= self.child_tags.len(),
                self@.len() == self.child_tags@.len(),
                forall|j: int| i <= j < self@.len() ==> (#[trigger] self@[j]).0 != key@,
            decreases i,
        {
            i -= 1;
            proof {
                lemma_entry_views(self.child_tags@, self.child_tags@.len());
            }
            if same_text(self.child_tags[i].0.as_str(), key) {
                proof {
                    lemma_key_index_is(self@, key@, i as int);
                }
                return Some(i);
            }
        }
        proof {
            lemma_key_index_none(self@, key@);
        }
        None
    }

    /// The tag under `key`.
    pub fn get(&self, key: &str) -> (r: Option<&NbtTag>)
        ensures
            match r {
                Some(t) => compound_get(self@, key@) == Some(t@),
                None => compound_get(self@, key@) is None,
            },
    {
        broadcast use lemma_entry_views;

        match self.find(key) {
            Some(i) => Some(&self.child_tags[i].1),
            None => None,
        }
    }

    /// Whether there is a tag under `key`.
    pub fn has(&self, key: &str) -> (r: bool)
        ensures
            r == (compound_get(self@, key@) is Some),
    {
        self.find(key).is_some()
    }

    /// Sets `key` to `tag`.
    pub fn put(&mut self, key: &str, tag: NbtTag)
        ensures
            final(self)@ == compound_put(old(self)@, key@, tag@),
    {
        broadcast use lemma_entry_views;

        let ghost before = self@;
        match self.find(key) {
            Some(i) => {
                self.child_tags.set(i, (key.to_owned(), tag));
            },
            None => {
                self.child_tags.push((key.to_owned(), tag));
            },
        }
        assert(self@ =~= compound_put(before, key@, tag@));
    }

    /// Removes the entry under `key`.
    pub fn remove(&mut self, key: &str) -> (r: Option<NbtTag>)
        ensures
            match key_index(old(self)@, key@) {
                Some(i) => final(self)@ == old(self)@.remove(i) && r is Some && r->0@ == old(self)@[i].1,
                None => final(self)@ == old(self)@ && r is None,
            },
    {
        broadcast use lemma_entry_views;

        let ghost before = self@;
        match self.find(key) {
            Some(i) => {
                proof {
                    lemma_key_index(before, key@);
                }
                let (_, tag) = self.child_tags.remove(i);
                assert(self@ =~= before.remove(i as int));
                Some(tag)
            },
            None => None,
        }
    }

    pub fn put_byte(&mut self, key: &str, value: i8)
        ensures
            final(self)@ == compound_put(old(self)@, key@, Tag::Byte(value as int)),
    {
        self.put(key, NbtTag::Byte(value))
    }

    pub fn put_bool(&mut self, key: &str, value: bool)
        ensures
            final(self)@ == compound_put(old(self)@, key@, bool_tag(value)),
    {
        self.put(key, NbtTag::Byte(if value { 1 } else { 0 }))
    }

    pub fn put_short(&mut self, key: &str, value: i16)
        ensures
            final(self)@ == compound_put(old(self)@, key@, Tag::Short(value as int)),
    {
        self.put(key, NbtTag::Short(value))
    }

    pub fn put_int(&mut self, key: &str, value: i32)
        ensures
            final(self)@ == compound_put(old(self)@, key@, Tag::Int(value as int)),
    {
        self.put(key, NbtTag::Int(value))
    }

    pub fn put_long(&mut self, key: &str, value: i64)
        ensures
            final(self)@ == compound_put(old(self)@, key@, Tag::Long(value as int)),
    {
        self.put(key, NbtTag::Long(value))
    }

    /// Sets `key` to a 32-bit floating-point number, given by its bit pattern.
    pub fn put_float(&mut self, key: &str, bits: u32)
        ensures
            final(self)@ == compound_put(old(self)@, key@, Tag::Float(bits as int)),
    {
        self.put(key, NbtTag::Float(bits))
    }

    /// Sets `key` to a 64-bit floating-point number, given by its bit pattern.
    pub fn put_double(&mut self, key: &str, bits: u64)
        ensures
            final(self)@ == compound_put(old(self)@, key@, Tag::Double(bits as int)),
    {
        self.put(key, NbtTag::Double(bits))
    }

    pub fn put_string(&mut self, key: &str, value: String)
        ensures
            final(self)@ == compound_put(old(self)@, key@, Tag::String(value@)),
    {
        self.put(key, NbtTag::String(value))
    }

    pub fn put_list(&mut self, key: &str, value: Vec<NbtTag>)
        ensures
            final(self)@ == compound_put(old(self)@, key@, Tag::List(tags_of(value@))),
    {
        self.put(key, NbtTag::List(value))
    }

    pub fn put_compound(&mut self, key: &str, value: NbtCompound)
        ensures
            final(self)@ == compound_put(old(self)@, key@, Tag::Compound(value@)),
    {
        self.put(key, NbtTag::Compound(value))
    }

    pub fn get_byte(&self, key: &str) -> (r: Option<i8>)
        ensures
            match compound_get(self@, key@) {
                Some(Tag::Byte(v)) => r is Some && r->0 == v,
                _ => r is None,
            },
    {
        match self.get(key) {
            Some(t) => t.extract_byte(),
            None => None,
        }
    }

    pub fn get_bool(&self, key: &str) -> (r: Option<bool>)
        ensures
            r == bool_of(compound_get(self@, key@)),
    {
        match self.get_byte(key) {
            Some(b) => Some(b != 0),
            None => None,
        }
    }

    pub fn get_int(&self, key: &str) -> (r: Option<i32>)
        ensures
            match compound_get(self@, key@) {
                Some(Tag::Int(v)) => r is Some && r->0 == v,
                _ => r is None,
            },
    {
        match self.get(key) {
            Some(t) => t.extract_int(),
            None => None,
        }
    }

    pub fn get_string(&self, key: &str) -> (r: Option<&String>)
        ensures
            match compound_get(self@, key@) {
                Some(Tag::String(v)) => r is Some && r->0@ == v,
                _ => r is None,
            },
    {
        match self.get(key) {
            Some(t) => t.extract_string(),
            None => None,
        }
    }

    pub fn get_list(&self, key: &str) -> (r: Option<&Vec<NbtTag>>)
        ensures
            match compound_get(self@, key@) {
                Some(Tag::List(v)) => r is Some && tags_of(r->0@) == v,
                _ => r is None,
            },
    {
        match self.get(key) {
            Some(t) => t.extract_list(),
            None => None,
        }
    }

    pub fn get_compound(&self, key: &str) -> (r: Option<&NbtCompound>)
        ensures
            match compound_get(self@, key@) {
                Some(Tag::Compound(v)) => r is Some && r->0@ == v,
                _ => r is None,
            },
    {
        match self.get(key) {
            Some(t) => t.extract_compound(),
            None => None,
        }
    }
}

/// How a flag is stored.
pub open spec fn bool_tag(b: bool) -> Tag {
    Tag::Byte(if b { 1 } else { 0 })
}

/// The flag that a tag stores.
pub open spec fn bool_of(t: Option<Tag>) -> Option<bool> {
    match t {
        Some(Tag::Byte(v)) => Some(v != 0),
        _ => None,
    }
}

impl NbtTag {
    pub fn extract_byte(&self) -> (r: Option<i8>)
        ensures
            match self@ {
                Tag::Byte(v) => r is Some && r->0 == v,
                _ => r is None,
            },
    {
        match self {
            NbtTag::Byte(v) => Some(*v),
            _ => None,
        }
    }

    pub fn extract_bool(&self) -> (r: Option<bool>)
        ensures
            r == bool_of(Some(self@)),
    {
        match self {
            NbtTag::Byte(v) => Some(*v != 0),
            _ => None,
        }
    }

    pub fn extract_int(&self) -> (r: Option<i32>)
        ensures
            match self@ {
                Tag::Int(v) => r is Some && r->0 == v,
                _ => r is None,
            },
    {
        match self {
            NbtTag::Int(v) => Some(*v),
            _ => None,
        }
    }

    pub fn extract_string(&self) -> (r: Option<&String>)
        ensures
            match self@ {
                Tag::String(v) => r is Some && r->0@ == v,
                _ => r is None,
            },
    {
        match self {
            NbtTag::String(v) => Some(v),
            _ => None,
        }
    }

    pub fn extract_list(&self) -> (r: Option<&Vec<NbtTag>>)
        ensures
            match self@ {
                Tag::List(v) => r is Some && tags_of(r->0@) == v,
                _ => r is None,
            },
    {
        match self {
            NbtTag::List(v) => Some(v),
            _ => None,
        }
    }

    pub fn extract_compound(&self) -> (r: Option<&NbtCompound>)
        ensures
            match self@ {
                Tag::Compound(v) => r is Some && r->0@ == v,
                _ => r is None,
            },
    {
        match self {
            NbtTag::Compound(v) => Some(v),
            _ => None,
        }
    }

    /// A deep copy.
    pub fn copy(&self) -> (r: NbtTag)
        ensures
            r@ == self@,
        decreases *self, 0nat,
    {
        match self {
            NbtTag::End => NbtTag::End,
            NbtTag::Byte(v) => NbtTag::Byte(*v),
            NbtTag::Short(v) => NbtTag::Short(*v),
            NbtTag::Int(v) => NbtTag::Int(*v),
            NbtTag::Long(v) => NbtTag::Long(*v),
            NbtTag::Float(v) => NbtTag::Float(*v),
            NbtTag::Double(v) => NbtTag::Double(*v),
            NbtTag::ByteArray(v) => NbtTag::ByteArray(copy_i8s(v)),
            NbtTag::String(v) => NbtTag::String(v.clone()),
            NbtTag::List(v) => NbtTag::List(copy_tags(v)),
            NbtTag::Compound(v) => NbtTag::Compound(v.copy()),
            NbtTag::IntArray(v) => NbtTag::IntArray(copy_i32s(v)),
            NbtTag::LongArray(v) => NbtTag::LongArray(copy_i64s(v)),
        }
    }
}

/// A deep copy of a list of tags.
pub fn copy_tags(v: &Vec<NbtTag>) -> (r: Vec<NbtTag>)
    ensures
        tags_of(r@) == tags_of(v@),
    decreases *v, 1nat,
{
    broadcast use lemma_tag_views;

    let mut out: Vec<NbtTag> = Vec::new();
    let mut i: usize = 0;
    while i < v.len()
        invariant
            i <= v.len(),
            out@.len() == i,
            forall|k: int| 0 <= k < i ==> tag_view(#[trigger] out@[k]) == tag_view(v@[k]),
        decreases v.len() - i,
    {
        assert(decreases_to!(*v => v@[i as int]));
        out.push(v[i].copy());
        i += 1;
    }
    assert(tags_of(out@) =~= tags_of(v@));
    out
}

impl NbtCompound {
    /// A deep copy.
    pub fn copy(&self) -> (r: NbtCompound)
        ensures
            r@ == self@,
        decreases *self, 1nat,
    {
        broadcast use lemma_entry_views;

        let mut out: Vec<(String, NbtTag)> = Vec::new();
        let mut i: usize = 0;
        while i < self.child_tags.len()
            invariant
                i <= self.child_tags.len(),
                out@.len() == i,
                forall|k: int|
                    0 <= k < i ==> (#[trigger] out@[k]).0@ == self.child_tags@[k].0@ && tag_view(out@[k].1) == tag_view(
                        self.child_tags@[k].1,
                    ),
            decreases self.child_tags.len() - i,
        {
            assert(decreases_to!(*self => self.child_tags@[i as int].1));
            out.push((self.child_tags[i].0.clone(), self.child_tags[i].1.copy()));
            i += 1;
        }
        let r = NbtCompound { child_tags: out };
        assert(r@ =~= self@);
        r
    }
}

pub fn copy_i8s(v: &Vec<i8>) -> (r: Vec<i8>)
    ensures
        r@ == v@,
{
    let mut out: Vec<i8> = Vec::new();
    let mut i: usize = 0;
    while i < v.len()
        invariant
            i <= v.len(),
            out@ =~= v@.take(i as int),
        decreases v.len() - i,
    {
        out.push(v[i]);
        i += 1;
    }
    out
}

pub fn copy_i32s(v: &Vec<i32>) -> (r: Vec<i32>)
    ensures
        r@ == v@,
{
    let mut out: Vec<i32> = Vec::new();
    let mut i: usize = 0;
    while i < v.len()
        invariant
            i <= v.len(),
            out@ =~= v@.take(i as int),
        decreases v.len() - i,
    {
        out.push(v[i]);
        i += 1;
    }
    out
}

pub fn copy_i64s(v: &Vec<i64>) -> (r: Vec<i64>)
    ensures
        r@ == v@,
{
    let mut out: Vec<i64> = Vec::new();
    let mut i: usize = 0;
    while i < v.len()
        invariant
            i <= v.len(),
            out@ =~= v@.take(i as int),
        decreases v.len() - i,
    {
        out.push(v[i]);
        i += 1;
    }
    out
}

impl Clone for NbtTag {
    fn clone(&self) -> (r: Self)
        ensures
            r@ == self@,
    {
        self.copy()
    }
}

impl Clone for NbtCompound {
    fn clone(&self) -> (r: Self)
        ensures
            r@ == self@,
    {
        self.copy()
    }
}

} // verus!
