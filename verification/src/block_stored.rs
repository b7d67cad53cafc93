//! How the components of blocks, entities and books are stored.
use vstd::prelude::*;
use crate::block_entity::{BeesImpl, BlockEntityDataImpl, BlockStateImpl, BucketEntityDataImpl, EntityDataImpl};
use crate::book::{RawText, WritableBookContentImpl, WrittenBookContentImpl, WrittenPage};
use crate::codec::{vals, AsText, Both, DataComponentCodec};
use crate::elements::empty_text;
use crate::format::{pair, Val};
use crate::nbt_tag::{lemma_entry_views, lemma_tag_views, tags_of, NbtCompound, NbtTag, Tag};
use crate::persist::{block_state_from, entries_of, list_at, page_tags, pages_from, pair_entries, raw_pages_from, text_or_empty, with_entry, written_book_from, written_book_tag};
use crate::tag_lists::{make_all, TextTag};

verus! {

broadcast use {lemma_tag_views, lemma_entry_views};

impl BlockEntityDataImpl {
    /// The value that a tag describes.
    pub fn read_data(tag: &NbtTag) -> (r: Option<Self>)
        ensures
            match r {
                Some(x) => tag@ == Tag::Compound(x.nbt@),
                None => !(tag@ is Compound),
            },
    {
        match tag {
            NbtTag::Compound(c) => Some(BlockEntityDataImpl { nbt: c.copy() }),
            _ => None,
        }
    }

    /// The tag that describes the value.
    pub fn write_data(&self) -> (r: NbtTag)
        ensures
            r@ == Tag::Compound(self.nbt@),
    {
        NbtTag::Compound(self.nbt.copy())
    }
}

impl EntityDataImpl {
    /// The value that a tag describes: any tag will do.
    pub fn read_data(data: &NbtTag) -> (r: Option<Self>)
        ensures
            r is Some,
    {
        Some(EntityDataImpl)
    }

    /// The tag that describes the value.
    pub fn write_data(&self) -> (r: NbtTag)
        ensures
            r@ == Tag::Compound(Seq::empty()),
    {
        NbtTag::Compound(NbtCompound::new())
    }
}

impl BucketEntityDataImpl {
    /// The value that a tag describes: any tag will do.
    pub fn read_data(data: &NbtTag) -> (r: Option<Self>)
        ensures
            r is Some,
    {
        Some(BucketEntityDataImpl)
    }

    /// The tag that describes the value.
    pub fn write_data(&self) -> (r: NbtTag)
        ensures
            r@ == Tag::Compound(Seq::empty()),
    {
        NbtTag::Compound(NbtCompound::new())
    }
}

impl BeesImpl {
    /// The value that a tag describes: any tag will do.
    pub fn read_data(data: &NbtTag) -> (r: Option<Self>)
        ensures
            r is Some,
    {
        Some(BeesImpl)
    }

    /// The tag that describes the value.
    pub fn write_data(&self) -> (r: NbtTag)
        ensures
            r@ == Tag::Compound(Seq::empty()),
    {
        NbtTag::Compound(NbtCompound::new())
    }
}

impl BlockStateImpl {
    /// The value that a tag describes: the texts of a compound.
    pub fn read_data(data: &NbtTag) -> (r: Option<Self>)
        ensures
            match r {
                Some(x) => data@ is Compound && vals::<Both<AsText, AsText>>(x.properties@) == block_state_from(
                    data@->Compound_0,
                    data@->Compound_0.len(),
                ),
                None => !(data@ is Compound),
            },
    {
        let c = match data {
            NbtTag::Compound(c) => c,
            _ => {
                return None;
            },
        };
        let mut properties: Vec<(String, String)> = Vec::new();
        assert(vals::<Both<AsText, AsText>>(properties@) =~= block_state_from(c@, 0));
        let mut i: usize = 0;
        while i < c.child_tags.len()
            invariant
                i <= c.child_tags.len(),
                c@.len() == c.child_tags@.len(),
                vals::<Both<AsText, AsText>>(properties@) == block_state_from(c@, i as nat),
            decreases c.child_tags.len() - i,
        {
            assert(c@[i as int] == (c.child_tags@[i as int].0@, c.child_tags@[i as int].1@));
            match &c.child_tags[i].1 {
                NbtTag::String(s) => {
                    let ghost before = vals::<Both<AsText, AsText>>(properties@);
                    properties.push((c.child_tags[i].0.clone(), s.clone()));
                    assert(vals::<Both<AsText, AsText>>(properties@) =~= before.push(
                        pair(Val::Text(c.child_tags@[i as int].0@), Val::Text(s@)),
                    ));
                },
                _ => {},
            }
            i += 1;
        }
        Some(BlockStateImpl { properties })
    }

    /// The tag that describes the value.
    pub fn write_data(&self) -> (r: NbtTag)
        ensures
            r@ == Tag::Compound(pair_entries(vals::<Both<AsText, AsText>>(self.properties@), 0, Seq::empty())),
    {
        NbtTag::Compound(put_pairs(&self.properties))
    }
}

/// A compound with an entry for each pair of texts.
pub fn put_pairs(v: &Vec<(String, String)>) -> (r: NbtCompound)
    ensures
        r@ == pair_entries(vals::<Both<AsText, AsText>>(v@), 0, Seq::empty()),
{
    let ghost l = vals::<Both<AsText, AsText>>(v@);
    let ghost target = pair_entries(l, 0, Seq::empty());
    let mut c = NbtCompound::new();
    let mut i: usize = 0;
    while i < v.len()
        invariant
            i <= v.len(),
            l == vals::<Both<AsText, AsText>>(v@),
            target == pair_entries(l, i as int, c@),
        decreases v.len() - i,
    {
        assert(l[i as int] == pair(Val::Text(v@[i as int].0@), Val::Text(v@[i as int].1@)));
        c.put_string(v[i].0.as_str(), v[i].1.clone());
        i += 1;
    }
    c
}

impl WritableBookContentImpl {
    /// The value that a tag describes: the pages of a compound.
    pub fn read_data(tag: &NbtTag) -> (r: Option<Self>)
        ensures
            r is Some,
            vals::<RawText>(r->0.pages@) == raw_pages_from(
                list_at(entries_of(tag@), "pages"@),
                list_at(entries_of(tag@), "pages"@).len(),
            ),
    {
        let mut pages: Vec<String> = Vec::new();
        let ghost tags = list_at(entries_of(tag@), "pages"@);
        assert(vals::<RawText>(pages@) =~= raw_pages_from(tags, 0));
        match tag {
            NbtTag::Compound(c) => match c.get_list("pages") {
                Some(l) => {
                    assert(tags == tags_of(l@));
                    let mut i: usize = 0;
                    while i < l.len()
                        invariant
                            i <= l.len(),
                            tags == tags_of(l@),
                            vals::<RawText>(pages@) == raw_pages_from(tags, i as nat),
                        decreases l.len() - i,
                    {
                        assert(tags[i as int] == l@[i as int]@);
                        let page: Option<&String> = match &l[i] {
                            NbtTag::String(s) => Some(s),
                            NbtTag::Compound(p) => p.get_string("raw"),
                            _ => None,
                        };
                        match page {
                            Some(s) => {
                                let ghost before = vals::<RawText>(pages@);
                                pages.push(s.clone());
                                assert(vals::<RawText>(pages@) =~= before.push(pair(Val::Text(s@), Val::Unit)));
                            },
                            None => {},
                        }
                        i += 1;
                    }
                },
                None => {},
            },
            _ => {},
        }
        Some(WritableBookContentImpl { pages })
    }

    /// The tag that describes the value.
    pub fn write_data(&self) -> (r: NbtTag)
        ensures
            r@ == Tag::Compound(with_entry(Seq::empty(), "pages"@, Tag::List(page_tags(vals::<RawText>(self.pages@))))),
    {
        let tags = make_all::<TextTag>(&self.pages);
        assert(tags_of(tags@) =~= page_tags(vals::<RawText>(self.pages@)));
        let mut c = NbtCompound::new();
        c.put("pages", NbtTag::List(tags));
        NbtTag::Compound(c)
    }
}

/// The text under a key; the empty text where there is none.
fn get_text_or_empty(c: &NbtCompound, key: &str) -> (r: String)
    ensures
        r@ == text_or_empty(c@, key@),
{
    match c.get_string(key) {
        Some(t) => t.clone(),
        None => empty_text(),
    }
}

/// The texts of a list of tags, as pages.
fn read_pages(l: &Vec<NbtTag>) -> (r: Vec<String>)
    ensures
        vals::<WrittenPage>(r@) == pages_from(tags_of(l@), l@.len()),
{
    let ghost tags = tags_of(l@);
    let mut pages: Vec<String> = Vec::new();
    assert(vals::<WrittenPage>(pages@) =~= pages_from(tags, 0));
    let mut i: usize = 0;
    while i < l.len()
        invariant
            i <= l.len(),
            tags == tags_of(l@),
            vals::<WrittenPage>(pages@) == pages_from(tags, i as nat),
        decreases l.len() - i,
    {
        assert(tags[i as int] == l@[i as int]@);
        match &l[i] {
            NbtTag::String(s) => {
                let ghost before = vals::<WrittenPage>(pages@);
                pages.push(s.clone());
                assert(vals::<WrittenPage>(pages@) =~= before.push(pair(Val::Text(s@), Val::Unit)));
            },
            _ => {},
        }
        i += 1;
    }
    pages
}

impl WrittenBookContentImpl {
    /// The value that a tag describes.
    pub fn read_data(tag: &NbtTag) -> (r: Option<Self>)
        ensures
            r is Some,
            WrittenBookContentImpl::val(r->0) == written_book_from(tag@),
    {
        let none: Vec<String> = Vec::new();
        assert(vals::<WrittenPage>(none@) =~= Seq::<Val>::empty());
        match tag {
            NbtTag::Compound(c) => {
                let title = get_text_or_empty(c, "title");
                let author = get_text_or_empty(c, "author");
                let pages: Vec<String> = match c.get_list("pages") {
                    Some(l) => read_pages(l),
                    None => none,
                };
                Some(WrittenBookContentImpl { title, author, pages })
            },
            _ => Some(WrittenBookContentImpl { title: empty_text(), author: empty_text(), pages: none }),
        }
    }

    /// The tag that describes the value.
    pub fn write_data(&self) -> (r: NbtTag)
        ensures
            r@ == written_book_tag(WrittenBookContentImpl::val(*self)),
    {
        let tags = make_all::<TextTag>(&self.pages);
        assert(tags_of(tags@) =~= page_tags(vals::<WrittenPage>(self.pages@)));
        let mut c = NbtCompound::new();
        c.put_string("title", self.title.clone());
        c.put_string("author", self.author.clone());
        c.put("pages", NbtTag::List(tags));
        NbtTag::Compound(c)
    }
}

} // verus!
