//! The packet that tells clients about recipes.
use std::sync::Arc;
use vstd::prelude::*;
use crate::bytes::{i32_of_u32, lemma_pow256, put_slice};
use crate::codec::{count_as_i32, encodes, Context};
use crate::errors::{cannot_write, cannot_write_name, wmsg, wmsg_name, ReadingError, WriteFault, WritingError};
use crate::format::{put, put_text, refuse, written_count, Ctx, Sink, StackVal};
use crate::identifier::{bare_name, strip_namespace, strip_prefix};
use crate::item_stack::{Item, ItemStack};
use crate::registry::{find_key, item_id_out, Registries};
use crate::serializer_write::{write_template, ItemStackTemplateSerializer};
use crate::stack_use::{bare_tag, has_tag, is_tagged_with};
use crate::text::{concat, has_colon};
use crate::version::JavaMinecraftVersion;
use crate::wire::{to_vec, var_int, write_string, write_var_int, MAX_TEXT_BYTES};

verus! {

/// What goes into a recipe.
#[derive(Debug)]
pub enum RecipeIngredientTypes {
    /// An item.
    Simple(String),
    /// One of some items.
    OneOf(Vec<String>),
    /// An item with a tag.
    Tagged(String),
}

/// How something is cooked.
#[derive(Clone, Copy, Debug, PartialEq, Eq, Structural)]
pub enum CookingKind {
    Blasting,
    Smelting,
    Smoking,
    CampfireCooking,
}

/// A recipe for cooking.
#[derive(Debug)]
pub struct CookingRecipe {
    pub kind: CookingKind,
    pub ingredient: RecipeIngredientTypes,
}

/// A recipe for the smithing table.
#[derive(Debug)]
pub struct SmithingRecipe {
    pub template: RecipeIngredientTypes,
    pub base: RecipeIngredientTypes,
    pub addition: RecipeIngredientTypes,
}

/// What a recipe makes.
#[derive(Debug)]
pub struct RecipeResultStruct {
    pub id: String,
    pub count: u8,
}

/// A recipe for the stonecutter.
#[derive(Debug)]
pub struct StonecuttingRecipe {
    pub ingredient: RecipeIngredientTypes,
    pub result: RecipeResultStruct,
}

/// All recipes.
#[derive(Debug)]
pub struct RecipeBook {
    pub cooking: Vec<CookingRecipe>,
    pub smithing_transform: Vec<SmithingRecipe>,
    pub smithing_trim: Vec<SmithingRecipe>,
    pub stonecutting: Vec<StonecuttingRecipe>,
}

/// Tells clients about recipes: bytes as they are, or those of all recipes.
#[derive(Debug)]
pub struct CUpdateRecipes {
    pub raw_data: Vec<u8>,
    pub generated: bool,
}

/// The number of the display of a stack.
pub const SLOT_DISPLAY_ITEM_STACK: i32 = 5;

/// Numbers in ascending order with another one; none occurs twice.
pub open spec fn id_put(l: Seq<u16>, id: u16) -> Seq<u16>
    decreases l.len(),
{
    if l.len() == 0 {
        seq![id]
    } else if l.last() < id {
        l.push(id)
    } else if l.last() == id {
        l
    } else {
        id_put(l.drop_last(), id).push(l.last())
    }
}

/// Numbers in ascending order with the first `n` of others.
pub open spec fn ids_put(l: Seq<u16>, more: Seq<u16>, n: nat) -> Seq<u16>
    decreases n,
{
    if n == 0 || n > more.len() {
        l
    } else {
        id_put(ids_put(l, more, (n - 1) as nat), more[n - 1])
    }
}

/// The path of a tag, without its mark and its namespace.
pub open spec fn tag_path(t: Seq<char>) -> Seq<char> {
    bare_name(bare_tag(t))
}

/// The numbers of the first `n` items that have a tag, in ascending order.
pub open spec fn tagged_ids(items: Seq<Arc<Item>>, tag: Seq<char>, n: nat) -> Seq<u16>
    decreases n,
{
    if n == 0 || n > items.len() {
        Seq::empty()
    } else if has_tag(items[n - 1].tags@, tag) {
        id_put(tagged_ids(items, tag, (n - 1) as nat), items[n - 1].id)
    } else {
        tagged_ids(items, tag, (n - 1) as nat)
    }
}

/// The numbers of the items with the first `n` names, in ascending order.
pub open spec fn named_ids(regs: Registries, names: Seq<String>, n: nat) -> Result<Seq<u16>, WriteFault>
    decreases n,
{
    if n == 0 || n > names.len() {
        Ok(Seq::empty())
    } else {
        match named_ids(regs, names, (n - 1) as nat) {
            Err(e) => Err(e),
            Ok(l) => match find_key(regs, bare_name(names[n - 1]@)) {
                Some(item) => Ok(id_put(l, item.id)),
                None => Err(wmsg_name("Unknown recipe item: {}", names[n - 1]@)),
            },
        }
    }
}

/// The full name of a tag with a path.
pub open spec fn full_tag(t: Seq<char>) -> Seq<char> {
    "minecraft:"@ + tag_path(t)
}

/// The numbers of the items that can be used as an ingredient, in ascending order.
pub open spec fn resolved(regs: Registries, i: RecipeIngredientTypes) -> Result<Seq<u16>, WriteFault> {
    match i {
        RecipeIngredientTypes::Simple(name) => match find_key(regs, bare_name(name@)) {
            Some(item) => Ok(seq![item.id]),
            None => Err(wmsg_name("Unknown recipe item: {}", name@)),
        },
        RecipeIngredientTypes::OneOf(names) => match named_ids(regs, names@, names@.len()) {
            Err(e) => Err(e),
            Ok(l) => if l.len() == 0 {
                Err(wmsg("Recipe ingredient resolved to no items"))
            } else {
                Ok(l)
            },
        },
        RecipeIngredientTypes::Tagged(tag) => {
            let l = tagged_ids(regs.items@, full_tag(tag@), regs.items@.len());
            if l.len() == 0 {
                Err(wmsg_name("Unknown recipe item tag: {}", tag_path(tag@)))
            } else {
                Ok(l)
            }
        },
    }
}

/// Whether two results with numbers are the same.
pub open spec fn gives_ids(o: Result<Seq<u16>, WriteFault>, r: Result<Vec<u16>, WritingError>) -> bool {
    match r {
        Ok(v) => o == Ok::<Seq<u16>, WriteFault>(v@),
        Err(e) => o == Err::<Seq<u16>, WriteFault>(e@),
    }
}

/// Puts a number into a list in ascending order.
fn put_id(v: &mut Vec<u16>, id: u16)
    ensures
        final(v)@ == id_put(old(v)@, id),
{
    let ghost l = v@;
    let mut j: usize = v.len();
    assert(l.take(l.len() as int) =~= l);
    assert(id_put(l, id) + l.skip(l.len() as int) =~= id_put(l, id));
    while j > 0 && v[j - 1] > id
        invariant
            j <= v@.len(),
            v@ == l,
            id_put(l, id) == id_put(l.take(j as int), id) + l.skip(j as int),
        decreases j,
    {
        let ghost head = l.take(j as int);
        assert(head.last() == l[j - 1]);
        assert(head.drop_last() =~= l.take(j - 1));
        assert(id_put(l.take(j - 1), id).push(l[j - 1]) + l.skip(j as int) =~= id_put(l.take(j - 1), id) + l.skip(j - 1));
        j -= 1;
    }
    if j > 0 && v[j - 1] == id {
        proof {
            let head = l.take(j as int);
            assert(head.last() == l[j - 1]);
            assert(head + l.skip(j as int) =~= l);
        }
        return;
    }
    proof {
        let head = l.take(j as int);
        if j > 0 {
            assert(head.last() == l[j - 1]);
            assert(id_put(head, id) == head.push(id));
        } else {
            assert(id_put(head, id) == seq![id]);
        }
        assert(id_put(head, id) + l.skip(j as int) =~= l.insert(j as int, id));
    }
    v.insert(j, id);
}

proof fn lemma_named_fails(regs: Registries, names: Seq<String>, i: nat, n: nat, e: WriteFault)
    requires
        i <= n <= names.len(),
        named_ids(regs, names, i) == Err::<Seq<u16>, WriteFault>(e),
    ensures
        named_ids(regs, names, n) == Err::<Seq<u16>, WriteFault>(e),
    decreases n,
{
    if i < n {
        lemma_named_fails(regs, names, i, (n - 1) as nat, e);
    }
}

/// The numbers of the items that can be used as an ingredient, in ascending order.
pub fn resolve_ingredient(ingredient: &RecipeIngredientTypes, regs: &Registries) -> (r: Result<Vec<u16>, WritingError>)
    ensures
        gives_ids(resolved(*regs, *ingredient), r),
{
    match ingredient {
        RecipeIngredientTypes::Simple(name) => match regs.item_by_key(strip_namespace(name.as_str()).as_str()) {
            Some(item) => {
                let v: Vec<u16> = vec![item.id];
                assert(v@ =~= seq![item.id]);
                Ok(v)
            },
            None => Err(cannot_write_name("Unknown recipe item: {}", name.as_str())),
        },
        RecipeIngredientTypes::OneOf(names) => {
            let mut v: Vec<u16> = Vec::new();
            assert(v@ =~= Seq::<u16>::empty());
            let mut i: usize = 0;
            while i < names.len()
                invariant
                    i <= names.len(),
                    *ingredient == RecipeIngredientTypes::OneOf(*names),
                    named_ids(*regs, names@, i as nat) == Ok::<Seq<u16>, WriteFault>(v@),
                decreases names.len() - i,
            {
                match regs.item_by_key(strip_namespace(names[i].as_str()).as_str()) {
                    Some(item) => {
                        put_id(&mut v, item.id);
                    },
                    None => {
                        proof {
                            let e = wmsg_name("Unknown recipe item: {}", names@[i as int]@);
                            lemma_named_fails(*regs, names@, (i + 1) as nat, names@.len(), e);
                        }
                        return Err(cannot_write_name("Unknown recipe item: {}", names[i].as_str()));
                    },
                }
                i += 1;
            }
            if v.len() == 0 {
                return Err(cannot_write("Recipe ingredient resolved to no items"));
            }
            Ok(v)
        },
        RecipeIngredientTypes::Tagged(tag) => {
            let v = list_tagged(tag.as_str(), regs);
            if v.len() == 0 {
                let path = strip_namespace(strip_mark(tag.as_str()).as_str());
                return Err(cannot_write_name("Unknown recipe item tag: {}", path.as_str()));
            }
            Ok(v)
        },
    }
}

/// The name of a tag without its mark.
fn strip_mark(tag: &str) -> (r: String)
    ensures
        r@ == bare_tag(tag@),
{
    match strip_prefix(tag, "#") {
        Some(rest) => rest,
        None => tag.to_owned(),
    }
}

/// The numbers of the items that have a tag, in ascending order.
fn list_tagged(tag: &str, regs: &Registries) -> (r: Vec<u16>)
    ensures
        r@ == tagged_ids(regs.items@, full_tag(tag@), regs.items@.len()),
{
    let full = concat("minecraft:", strip_namespace(strip_mark(tag).as_str()).as_str());
    let mut v: Vec<u16> = Vec::new();
    assert(v@ =~= Seq::<u16>::empty());
    let mut i: usize = 0;
    while i < regs.items.len()
        invariant
            i <= regs.items.len(),
            full@ == full_tag(tag@),
            v@ == tagged_ids(regs.items@, full_tag(tag@), i as nat),
        decreases regs.items.len() - i,
    {
        if is_tagged_with(&regs.items[i].tags, full.as_str()) {
            put_id(&mut v, regs.items[i].id);
        }
        i += 1;
    }
    v
}

/// The numbers that a version has for the first `n` items.
pub open spec fn id_bytes(regs: Registries, version: JavaMinecraftVersion, l: Seq<u16>, n: nat) -> Seq<u8>
    decreases n,
{
    if n == 0 || n > l.len() {
        Seq::empty()
    } else {
        id_bytes(regs, version, l, (n - 1) as nat) + var_int(item_id_out(regs, l[n - 1] as int, version))
    }
}

/// Appends the numbers that a version has for items.
fn put_ids(out: &mut Vec<u8>, l: &Vec<u16>, version: JavaMinecraftVersion, regs: &Registries)
    ensures
        final(out)@ == old(out)@ + id_bytes(*regs, version, l@, l@.len()),
{
    let ghost before = out@;
    assert(out@ =~= before + id_bytes(*regs, version, l@, 0));
    let mut i: usize = 0;
    while i < l.len()
        invariant
            i <= l.len(),
            before == old(out)@,
            out@ == before + id_bytes(*regs, version, l@, i as nat),
        decreases l.len() - i,
    {
        write_var_int(out, regs.remap_item_id_for_version(l[i], version) as i32);
        assert(out@ =~= before + id_bytes(*regs, version, l@, (i + 1) as nat));
        i += 1;
    }
}

/// The bytes of a set of items.
pub open spec fn item_set_bytes(regs: Registries, version: JavaMinecraftVersion, l: Seq<u16>) -> Seq<u8> {
    var_int(written_count(l.len())) + id_bytes(regs, version, l, l.len())
}

/// Appends a set of items.
fn write_item_set(out: &mut Vec<u8>, l: &Vec<u16>, version: JavaMinecraftVersion, regs: &Registries)
    ensures
        final(out)@ == old(out)@ + item_set_bytes(*regs, version, l@),
{
    let ghost before = out@;
    write_var_int(out, count_as_i32(l.len()));
    put_ids(out, l, version, regs);
    assert(out@ =~= before + item_set_bytes(*regs, version, l@));
}

/// The name of a tag as it is sent: with a namespace.
pub open spec fn sent_tag(t: Seq<char>) -> Seq<char> {
    if bare_tag(t).contains(':') {
        bare_tag(t)
    } else {
        "minecraft:"@ + bare_tag(t)
    }
}

/// Appending an ingredient: the name of a tag, or the numbers of items.
pub open spec fn put_ingredient(regs: Registries, version: JavaMinecraftVersion, out: Seq<u8>, i: RecipeIngredientTypes) -> Sink {
    match resolved(regs, i) {
        Err(e) => match i {
            RecipeIngredientTypes::Tagged(tag) => refuse(wmsg_name("Unknown recipe item tag: {}", bare_tag(tag@)), out),
            _ => refuse(e, out),
        },
        Ok(l) => match i {
            RecipeIngredientTypes::Tagged(tag) => put_text(out + var_int(0), sent_tag(tag@), MAX_TEXT_BYTES as nat),
            _ => put(out + var_int(written_count(l.len() + 1)), id_bytes(regs, version, l, l.len())),
        },
    }
}

/// One more than a count, as it is sent.
fn next_count(n: usize) -> (r: i32)
    ensures
        r == written_count((n + 1) as nat),
{
    proof {
        lemma_pow256();
    }
    i32_of_u32(((n as u128 + 1) % 0x1_0000_0000) as u32)
}

/// Appends an ingredient.
pub fn write_ingredient(out: &mut Vec<u8>, ingredient: &RecipeIngredientTypes, version: JavaMinecraftVersion, regs: &Registries) -> (r: Result<
    (),
    WritingError,
>)
    ensures
        encodes(put_ingredient(*regs, version, old(out)@, *ingredient), r, final(out)@),
{
    match ingredient {
        RecipeIngredientTypes::Tagged(tag) => {
            let bare = strip_mark(tag.as_str());
            if list_tagged(tag.as_str(), regs).len() == 0 {
                return Err(cannot_write_name("Unknown recipe item tag: {}", bare.as_str()));
            }
            let sent: String = if has_colon(bare.as_str()) {
                bare
            } else {
                concat("minecraft:", bare.as_str())
            };
            write_var_int(out, 0);
            write_string(out, sent.as_str())
        },
        _ => {
            let items = resolve_ingredient(ingredient, regs)?;
            write_var_int(out, next_count(items.len()));
            put_ids(out, &items, version, regs);
            Ok(())
        },
    }
}

/// The items that can be cooked in a way, by the first `n` recipes.
pub open spec fn cooking_ids(regs: Registries, l: Seq<CookingRecipe>, kind: CookingKind, n: nat) -> Result<Seq<u16>, WriteFault>
    decreases n,
{
    if n == 0 || n > l.len() {
        Ok(Seq::empty())
    } else {
        match cooking_ids(regs, l, kind, (n - 1) as nat) {
            Err(e) => Err(e),
            Ok(head) => if l[n - 1].kind != kind {
                Ok(head)
            } else {
                match resolved(regs, l[n - 1].ingredient) {
                    Err(e) => Err(e),
                    Ok(more) => Ok(ids_put(head, more, more.len())),
                }
            },
        }
    }
}

/// A place of the smithing table.
#[derive(Clone, Copy, Debug, PartialEq, Eq, Structural)]
pub enum SmithingSlot {
    Template,
    Base,
    Addition,
}

/// What a recipe takes in a place.
pub open spec fn slot_ingredient(r: SmithingRecipe, slot: SmithingSlot) -> RecipeIngredientTypes {
    match slot {
        SmithingSlot::Template => r.template,
        SmithingSlot::Base => r.base,
        SmithingSlot::Addition => r.addition,
    }
}

/// The items that go in a place, by the first `n` recipes, and those in `head`.
pub open spec fn smithing_ids(
    regs: Registries,
    l: Seq<SmithingRecipe>,
    slot: SmithingSlot,
    head: Seq<u16>,
    n: nat,
) -> Result<Seq<u16>, WriteFault>
    decreases n,
{
    if n == 0 || n > l.len() {
        Ok(head)
    } else {
        match smithing_ids(regs, l, slot, head, (n - 1) as nat) {
            Err(e) => Err(e),
            Ok(head) => match resolved(regs, slot_ingredient(l[n - 1], slot)) {
                Err(e) => Err(e),
                Ok(more) => Ok(ids_put(head, more, more.len())),
            },
        }
    }
}

/// The items that go in a place of the smithing table.
pub open spec fn slot_ids(regs: Registries, book: RecipeBook, slot: SmithingSlot) -> Result<Seq<u16>, WriteFault> {
    match smithing_ids(regs, book.smithing_transform@, slot, Seq::empty(), book.smithing_transform@.len()) {
        Err(e) => Err(e),
        Ok(head) => smithing_ids(regs, book.smithing_trim@, slot, head, book.smithing_trim@.len()),
    }
}

/// The items that can be cooked in a way.
pub open spec fn kind_ids(regs: Registries, book: RecipeBook, kind: CookingKind) -> Result<Seq<u16>, WriteFault> {
    cooking_ids(regs, book.cooking@, kind, book.cooking@.len())
}

/// Puts numbers into a list in ascending order.
fn put_all_ids(v: &mut Vec<u16>, more: &Vec<u16>)
    ensures
        final(v)@ == ids_put(old(v)@, more@, more@.len()),
{
    let ghost before = v@;
    let mut i: usize = 0;
    while i < more.len()
        invariant
            i <= more.len(),
            before == old(v)@,
            v@ == ids_put(before, more@, i as nat),
        decreases more.len() - i,
    {
        put_id(v, more[i]);
        i += 1;
    }
}

proof fn lemma_cooking_fails(regs: Registries, l: Seq<CookingRecipe>, kind: CookingKind, i: nat, n: nat, e: WriteFault)
    requires
        i <= n <= l.len(),
        cooking_ids(regs, l, kind, i) == Err::<Seq<u16>, WriteFault>(e),
    ensures
        cooking_ids(regs, l, kind, n) == Err::<Seq<u16>, WriteFault>(e),
    decreases n,
{
    if i < n {
        lemma_cooking_fails(regs, l, kind, i, (n - 1) as nat, e);
    }
}

proof fn lemma_smithing_fails(
    regs: Registries,
    l: Seq<SmithingRecipe>,
    slot: SmithingSlot,
    head: Seq<u16>,
    i: nat,
    n: nat,
    e: WriteFault,
)
    requires
        i <= n <= l.len(),
        smithing_ids(regs, l, slot, head, i) == Err::<Seq<u16>, WriteFault>(e),
    ensures
        smithing_ids(regs, l, slot, head, n) == Err::<Seq<u16>, WriteFault>(e),
    decreases n,
{
    if i < n {
        lemma_smithing_fails(regs, l, slot, head, i, (n - 1) as nat, e);
    }
}

/// The items that can be cooked in a way.
fn list_cooking(book: &RecipeBook, kind: CookingKind, regs: &Registries) -> (r: Result<Vec<u16>, WritingError>)
    ensures
        gives_ids(kind_ids(*regs, *book, kind), r),
{
    let mut v: Vec<u16> = Vec::new();
    assert(v@ =~= Seq::<u16>::empty());
    let mut i: usize = 0;
    while i < book.cooking.len()
        invariant
            i <= book.cooking.len(),
            cooking_ids(*regs, book.cooking@, kind, i as nat) == Ok::<Seq<u16>, WriteFault>(v@),
        decreases book.cooking.len() - i,
    {
        if book.cooking[i].kind == kind {
            match resolve_ingredient(&book.cooking[i].ingredient, regs) {
                Ok(more) => {
                    put_all_ids(&mut v, &more);
                },
                Err(e) => {
                    proof {
                        lemma_cooking_fails(*regs, book.cooking@, kind, (i + 1) as nat, book.cooking@.len(), e@);
                    }
                    return Err(e);
                },
            }
        }
        i += 1;
    }
    Ok(v)
}

/// The items that recipes take in a place, and those in `head`.
fn list_smithing(l: &Vec<SmithingRecipe>, slot: SmithingSlot, head: Vec<u16>, regs: &Registries) -> (r: Result<
    Vec<u16>,
    WritingError,
>)
    ensures
        gives_ids(smithing_ids(*regs, l@, slot, head@, l@.len()), r),
{
    let ghost start = head@;
    let mut v: Vec<u16> = head;
    let mut i: usize = 0;
    while i < l.len()
        invariant
            i <= l.len(),
            start == head@,
            smithing_ids(*regs, l@, slot, start, i as nat) == Ok::<Seq<u16>, WriteFault>(v@),
        decreases l.len() - i,
    {
        let ingredient = match slot {
            SmithingSlot::Template => &l[i].template,
            SmithingSlot::Base => &l[i].base,
            SmithingSlot::Addition => &l[i].addition,
        };
        match resolve_ingredient(ingredient, regs) {
            Ok(more) => {
                put_all_ids(&mut v, &more);
            },
            Err(e) => {
                proof {
                    lemma_smithing_fails(*regs, l@, slot, start, (i + 1) as nat, l@.len(), e@);
                }
                return Err(e);
            },
        }
        i += 1;
    }
    Ok(v)
}

/// The items that go in a place of the smithing table.
fn list_slot(book: &RecipeBook, slot: SmithingSlot, regs: &Registries) -> (r: Result<Vec<u16>, WritingError>)
    ensures
        gives_ids(slot_ids(*regs, *book, slot), r),
{
    let none: Vec<u16> = Vec::new();
    assert(none@ =~= Seq::<u16>::empty());
    let head = list_smithing(&book.smithing_transform, slot, none, regs)?;
    list_smithing(&book.smithing_trim, slot, head, regs)
}

/// Appending a named set of items.
pub open spec fn put_set(regs: Registries, out: Seq<u8>, key: &'static str, l: Seq<u16>) -> Sink {
    match put_text(out, key@, MAX_TEXT_BYTES as nat) {
        Sink { result: Err(e), out } => refuse(e, out),
        Sink { result: Ok(_), out } => put(out, item_set_bytes(regs, JavaMinecraftVersion::V_26_2, l)),
    }
}

/// Appends a named set of items.
fn write_set(out: &mut Vec<u8>, key: &'static str, l: &Vec<u16>, regs: &Registries) -> (r: Result<(), WritingError>)
    ensures
        encodes(put_set(*regs, old(out)@, key, l@), r, final(out)@),
{
    write_string(out, key)?;
    write_item_set(out, l, JavaMinecraftVersion::V_26_2, regs);
    Ok(())
}

/// Appending a recipe for the stonecutter.
pub open spec fn put_cutting(c: Ctx, out: Seq<u8>, r: StonecuttingRecipe) -> Sink {
    match put_ingredient(c.regs, JavaMinecraftVersion::V_26_2, out, r.ingredient) {
        Sink { result: Err(e), out } => refuse(e, out),
        Sink { result: Ok(_), out } => match find_key(c.regs, bare_name(r.result.id@)) {
            None => refuse(wmsg_name("Unknown stonecutter output item: {}", r.result.id@), out + var_int(SLOT_DISPLAY_ITEM_STACK as int)),
            Some(item) => write_template(
                c,
                JavaMinecraftVersion::V_26_2,
                out + var_int(SLOT_DISPLAY_ITEM_STACK as int),
                StackVal { item, count: r.result.count as int, patch: Seq::empty() },
            ),
        },
    }
}

/// Appending the recipes for the stonecutter from the `i`th on.
pub open spec fn put_cuttings(c: Ctx, out: Seq<u8>, l: Seq<StonecuttingRecipe>, i: int) -> Sink
    decreases l.len() - i,
{
    if i < 0 || i >= l.len() {
        Sink { result: Ok(()), out }
    } else {
        match put_cutting(c, out, l[i]) {
            Sink { result: Err(e), out } => refuse(e, out),
            Sink { result: Ok(_), out } => put_cuttings(c, out, l, i + 1),
        }
    }
}

/// The sets of items in the order in which they are sent.
pub struct Sets {
    pub blast: Seq<u16>,
    pub campfire: Seq<u16>,
    pub furnace: Seq<u16>,
    pub addition: Seq<u16>,
    pub base: Seq<u16>,
    pub template: Seq<u16>,
    pub smoker: Seq<u16>,
}

/// The sets of items of all recipes.
pub open spec fn all_sets(regs: Registries, book: RecipeBook) -> Result<Sets, WriteFault> {
    match kind_ids(regs, book, CookingKind::Smelting) {
        Err(e) => Err(e),
        Ok(furnace) => match kind_ids(regs, book, CookingKind::Blasting) {
            Err(e) => Err(e),
            Ok(blast) => match kind_ids(regs, book, CookingKind::Smoking) {
                Err(e) => Err(e),
                Ok(smoker) => match kind_ids(regs, book, CookingKind::CampfireCooking) {
                    Err(e) => Err(e),
                    Ok(campfire) => match slot_ids(regs, book, SmithingSlot::Template) {
                        Err(e) => Err(e),
                        Ok(template) => match slot_ids(regs, book, SmithingSlot::Base) {
                            Err(e) => Err(e),
                            Ok(base) => match slot_ids(regs, book, SmithingSlot::Addition) {
                                Err(e) => Err(e),
                                Ok(addition) => Ok(Sets { blast, campfire, furnace, addition, base, template, smoker }),
                            },
                        },
                    },
                },
            },
        },
    }
}

/// Appending the sets of items from the one with a number on.
pub open spec fn put_sets(regs: Registries, out: Seq<u8>, s: Sets, from: int) -> Sink
    decreases 7 - from,
{
    if from < 0 || from >= 7 {
        Sink { result: Ok(()), out }
    } else {
        let (key, l) = if from == 0 {
            ("minecraft:blast_furnace_input", s.blast)
        } else if from == 1 {
            ("minecraft:campfire_input", s.campfire)
        } else if from == 2 {
            ("minecraft:furnace_input", s.furnace)
        } else if from == 3 {
            ("minecraft:smithing_addition", s.addition)
        } else if from == 4 {
            ("minecraft:smithing_base", s.base)
        } else if from == 5 {
            ("minecraft:smithing_template", s.template)
        } else {
            ("minecraft:smoker_input", s.smoker)
        };
        match put_set(regs, out, key, l) {
            Sink { result: Err(e), out } => refuse(e, out),
            Sink { result: Ok(_), out } => put_sets(regs, out, s, from + 1),
        }
    }
}

/// Appending all recipes.
pub open spec fn put_recipes(c: Ctx, version: JavaMinecraftVersion, out: Seq<u8>, book: RecipeBook) -> Sink {
    if version != JavaMinecraftVersion::V_26_2 {
        refuse(wmsg("Generated recipe property sets are only valid for Minecraft 26.2"), out)
    } else {
        match all_sets(c.regs, book) {
            Err(e) => refuse(e, out),
            Ok(s) => match put_sets(c.regs, out + var_int(7), s, 0) {
                Sink { result: Err(e), out } => refuse(e, out),
                Sink { result: Ok(_), out } => put_cuttings(
                    c,
                    out + var_int(written_count(book.stonecutting@.len())),
                    book.stonecutting@,
                    0,
                ),
            },
        }
    }
}

/// Appends a recipe for the stonecutter.
fn write_cutting(out: &mut Vec<u8>, recipe: &StonecuttingRecipe, ctx: &Context) -> (r: Result<(), WritingError>)
    ensures
        encodes(put_cutting(ctx@, old(out)@, *recipe), r, final(out)@),
{
    write_ingredient(out, &recipe.ingredient, JavaMinecraftVersion::V_26_2, ctx.regs)?;
    write_var_int(out, SLOT_DISPLAY_ITEM_STACK);
    match ctx.regs.item_by_key(strip_namespace(recipe.result.id.as_str()).as_str()) {
        Some(item) => {
            let stack = ItemStack::static_new_java(recipe.result.count, item);
            ItemStackTemplateSerializer(stack).write_with_version(out, &JavaMinecraftVersion::V_26_2, ctx)
        },
        None => Err(cannot_write_name("Unknown stonecutter output item: {}", recipe.result.id.as_str())),
    }
}

/// Appends the recipes for the stonecutter.
fn write_cuttings(out: &mut Vec<u8>, l: &Vec<StonecuttingRecipe>, ctx: &Context) -> (r: Result<(), WritingError>)
    ensures
        encodes(put_cuttings(ctx@, old(out)@, l@, 0), r, final(out)@),
{
    let ghost w = put_cuttings(ctx@, out@, l@, 0);
    let mut i: usize = 0;
    while i < l.len()
        invariant
            i <= l.len(),
            w == put_cuttings(ctx@, old(out)@, l@, 0),
            w == put_cuttings(ctx@, out@, l@, i as int),
        decreases l.len() - i,
    {
        write_cutting(out, &l[i], ctx)?;
        i += 1;
    }
    Ok(())
}

/// Appends all recipes.
pub fn write_generated_vanilla(out: &mut Vec<u8>, version: JavaMinecraftVersion, book: &RecipeBook, ctx: &Context) -> (r: Result<
    (),
    WritingError,
>)
    ensures
        encodes(put_recipes(ctx@, version, old(out)@, *book), r, final(out)@),
{
    if version != JavaMinecraftVersion::V_26_2 {
        return Err(cannot_write("Generated recipe property sets are only valid for Minecraft 26.2"));
    }
    let furnace = list_cooking(book, CookingKind::Smelting, ctx.regs)?;
    let blast = list_cooking(book, CookingKind::Blasting, ctx.regs)?;
    let smoker = list_cooking(book, CookingKind::Smoking, ctx.regs)?;
    let campfire = list_cooking(book, CookingKind::CampfireCooking, ctx.regs)?;
    let template = list_slot(book, SmithingSlot::Template, ctx.regs)?;
    let base = list_slot(book, SmithingSlot::Base, ctx.regs)?;
    let addition = list_slot(book, SmithingSlot::Addition, ctx.regs)?;
    proof {
        reveal_with_fuel(put_sets, 8);
    }
    write_var_int(out, 7);
    write_set(out, "minecraft:blast_furnace_input", &blast, ctx.regs)?;
    write_set(out, "minecraft:campfire_input", &campfire, ctx.regs)?;
    write_set(out, "minecraft:furnace_input", &furnace, ctx.regs)?;
    write_set(out, "minecraft:smithing_addition", &addition, ctx.regs)?;
    write_set(out, "minecraft:smithing_base", &base, ctx.regs)?;
    write_set(out, "minecraft:smithing_template", &template, ctx.regs)?;
    write_set(out, "minecraft:smoker_input", &smoker, ctx.regs)?;
    write_var_int(out, count_as_i32(book.stonecutting.len()));
    write_cuttings(out, &book.stonecutting, ctx)
}

impl CUpdateRecipes {
    /// The packet with bytes as they are.
    pub fn new(raw_data: Vec<u8>) -> (r: Self)
        ensures
            r.raw_data == raw_data && !r.generated,
    {
        CUpdateRecipes { raw_data, generated: false }
    }

    /// The packet with all recipes.
    pub fn generated_vanilla() -> (r: Self)
        ensures
            r.raw_data@ == Seq::<u8>::empty() && r.generated,
    {
        let raw_data: Vec<u8> = Vec::new();
        assert(raw_data@ =~= Seq::<u8>::empty());
        CUpdateRecipes { raw_data, generated: true }
    }

    /// Appends the packet.
    pub fn write_packet_data(&self, out: &mut Vec<u8>, version: &JavaMinecraftVersion, book: &RecipeBook, ctx: &Context) -> (r: Result<
        (),
        WritingError,
    >)
        ensures
            encodes(
                if self.generated {
                    put_recipes(ctx@, *version, old(out)@, *book)
                } else {
                    put(old(out)@, self.raw_data@)
                },
                r,
                final(out)@,
            ),
    {
        if self.generated {
            write_generated_vanilla(out, *version, book, ctx)
        } else {
            put_slice(out, self.raw_data.as_slice());
            Ok(())
        }
    }

    /// Reads the packet: everything that is left.
    pub fn read(seq: &mut &[u8], version: &JavaMinecraftVersion) -> (r: Result<Self, ReadingError>)
        ensures
            r is Ok && r->Ok_0.raw_data@ == old(seq)@ && !r->Ok_0.generated && final(seq)@.len() == 0,
    {
        let raw_data = to_vec(*seq);
        let n: usize = seq.len();
        let _ = crate::bytes::take_slice(seq, n);
        Ok(CUpdateRecipes { raw_data, generated: false })
    }
}

/// The stack that a recipe makes; nothing where no item has its name.
pub fn stack_of_result(value: &RecipeResultStruct, regs: &Registries, ids: &mut crate::item_stack::ItemStackIdGenerator) -> (r: ItemStack)
    ensures
        match find_key(*regs, bare_name(value.id@)) {
            Some(item) => r@ == (StackVal { item, count: value.count as int, patch: Seq::empty() }),
            None => r@.count == value.count && r@.patch == crate::format::PatchVal::empty() && crate::stack::is_air(r@.item),
        },
        r.uid == crate::item_stack::next_uid(old(ids).counter),
        final(ids).counter == crate::item_stack::after_uid(old(ids).counter),
{
    let item: Arc<Item> = match regs.item_by_key(strip_namespace(value.id.as_str()).as_str()) {
        Some(item) => item,
        None => Arc::new(Item::air()),
    };
    ItemStack::new(value.count, item, ids)
}

} // verus!
