//! Which items recipes take, and how they are sent.
use vstd::prelude::*;
use vstd::utf8::is_ascii_chars_encode_utf8;
use crate::errors::WriteFault;
use crate::format::{put, Ctx, StackVal};
use crate::identifier::bare_name;
use crate::item_stack::Item;
use crate::leaf_return::lemma_small_count;
use crate::recipes::{
    all_sets, cooking_ids, full_tag, id_bytes, id_put, ids_put, item_set_bytes, kind_ids, named_ids, put_cutting, put_ingredient, put_recipes, put_set,
    put_sets, resolved, sent_tag, slot_ids, smithing_ids, tagged_ids, CookingKind, CookingRecipe, RecipeBook, RecipeIngredientTypes, Sets,
    SmithingRecipe, SmithingSlot, StonecuttingRecipe,
};
use crate::registry::{find_key, item_id_out, Registries};
use crate::sent::in_turn;
use crate::serializer_write::write_template;
use crate::stack_use::has_tag;
use crate::version::JavaMinecraftVersion;
use crate::wire::{text, text_fits, var_int, MAX_TEXT_BYTES};
use std::sync::Arc;

verus! {

/// Whether numbers are in ascending order, none of them twice.
pub open spec fn ascends(l: Seq<u16>) -> bool {
    forall|a: int, b: int| 0 <= a < b < l.len() ==> #[trigger] l[a] < #[trigger] l[b]
}

/// A number that is put into a list is in it, along with all that were; the list stays in order.
pub proof fn lemma_id_put(l: Seq<u16>, id: u16)
    requires
        ascends(l),
    ensures
        ascends(id_put(l, id)),
        forall|x: u16| #[trigger] id_put(l, id).contains(x) <==> x == id || l.contains(x),
    decreases l.len(),
{
    let m = id_put(l, id);
    if l.len() == 0 {
        assert(m[0] == id);
    } else {
        let h = l.drop_last();
        assert(l =~= h.push(l.last()));
        if l.last() < id {
            assert(m[l.len() as int] == id);
            assert forall|x: u16| #[trigger] m.contains(x) <==> x == id || l.contains(x) by {
                if l.contains(x) {
                    let k = choose|k: int| 0 <= k < l.len() && l[k] == x;
                    assert(m[k] == x);
                }
                if m.contains(x) && x != id {
                    let k = choose|k: int| 0 <= k < m.len() && m[k] == x;
                    assert(l[k] == x);
                }
            }
            assert forall|a: int, b: int| 0 <= a < b < m.len() implies #[trigger] m[a] < #[trigger] m[b] by {
                if b == l.len() {
                    assert(l[a] <= l[l.len() - 1]);
                }
            }
        } else if l.last() != id {
            assert forall|a: int, b: int| 0 <= a < b < h.len() implies #[trigger] h[a] < #[trigger] h[b] by {
                assert(l[a] < l[b]);
            }
            lemma_id_put(h, id);
            let g = id_put(h, id);
            assert forall|a: int, b: int| 0 <= a < b < m.len() implies #[trigger] m[a] < #[trigger] m[b] by {
                if b == g.len() {
                    assert(g.contains(g[a]));
                    if g[a] != id {
                        let k = choose|k: int| 0 <= k < h.len() && h[k] == g[a];
                        assert(l[k] < l[l.len() - 1]);
                    }
                } else {
                    assert(g[a] < g[b]);
                }
            }
            assert forall|x: u16| #[trigger] m.contains(x) <==> x == id || l.contains(x) by {
                if m.contains(x) {
                    let k = choose|k: int| 0 <= k < m.len() && m[k] == x;
                    if k < g.len() {
                        assert(g.contains(x));
                        if x != id {
                            let j = choose|j: int| 0 <= j < h.len() && h[j] == x;
                            assert(l[j] == x);
                        }
                    } else {
                        assert(l[l.len() - 1] == x);
                    }
                }
                if x == id || l.contains(x) {
                    if x == l.last() {
                        assert(m[g.len() as int] == x);
                    } else {
                        if x != id {
                            let k = choose|k: int| 0 <= k < l.len() && l[k] == x;
                            assert(h[k] == x);
                        }
                        assert(g.contains(x));
                        let k = choose|k: int| 0 <= k < g.len() && g[k] == x;
                        assert(m[k] == x);
                    }
                }
            }
        } else {
            assert(l[l.len() - 1] == id);
        }
    }
}

/// Numbers that are put into a list are in it, along with all that were; the list stays in order.
pub proof fn lemma_ids_put(l: Seq<u16>, more: Seq<u16>, n: nat)
    requires
        ascends(l),
        n <= more.len(),
    ensures
        ascends(ids_put(l, more, n)),
        forall|x: u16| #[trigger] ids_put(l, more, n).contains(x) <==> l.contains(x) || more.take(n as int).contains(x),
    decreases n,
{
    if n > 0 {
        lemma_ids_put(l, more, (n - 1) as nat);
        let h = ids_put(l, more, (n - 1) as nat);
        lemma_id_put(h, more[n - 1]);
        let t = more.take(n as int);
        let s = more.take(n - 1);
        assert(t =~= s.push(more[n - 1]));
        assert forall|x: u16| #[trigger] ids_put(l, more, n).contains(x) <==> l.contains(x) || t.contains(x) by {
            assert(id_put(h, more[n - 1]).contains(x) <==> x == more[n - 1] || h.contains(x));
            assert(h.contains(x) <==> l.contains(x) || s.contains(x));
            if s.contains(x) {
                let k = choose|k: int| 0 <= k < s.len() && s[k] == x;
                assert(t[k] == x);
            }
            if t.contains(x) && x != more[n - 1] {
                let k = choose|k: int| 0 <= k < t.len() && t[k] == x;
                assert(s[k] == x);
            }
            assert(t[n - 1] == more[n - 1]);
        }
    }
}

proof fn lemma_tagged(items: Seq<Arc<Item>>, tag: Seq<char>, n: nat)
    requires
        n <= items.len(),
    ensures
        ascends(tagged_ids(items, tag, n)),
        forall|x: u16|
            #[trigger] tagged_ids(items, tag, n).contains(x) <==> exists|k: int|
                0 <= k < n && (#[trigger] items[k]).id == x && has_tag(items[k].tags@, tag),
    decreases n,
{
    if n > 0 {
        lemma_tagged(items, tag, (n - 1) as nat);
        let h = tagged_ids(items, tag, (n - 1) as nat);
        if has_tag(items[n - 1].tags@, tag) {
            lemma_id_put(h, items[n - 1].id);
        }
        assert forall|x: u16|
            #[trigger] tagged_ids(items, tag, n).contains(x) <==> exists|k: int|
                0 <= k < n && (#[trigger] items[k]).id == x && has_tag(items[k].tags@, tag) by {
            if tagged_ids(items, tag, n).contains(x) {
                if h.contains(x) {
                    let k = choose|k: int| 0 <= k < n - 1 && (#[trigger] items[k]).id == x && has_tag(items[k].tags@, tag);
                    assert(items[k].id == x);
                } else {
                    assert(items[n - 1].id == x);
                }
            }
            if exists|k: int| 0 <= k < n && (#[trigger] items[k]).id == x && has_tag(items[k].tags@, tag) {
                let k = choose|k: int| 0 <= k < n && (#[trigger] items[k]).id == x && has_tag(items[k].tags@, tag);
                if k < n - 1 {
                    assert(h.contains(x));
                }
            }
        }
    }
}

proof fn lemma_named(regs: Registries, names: Seq<String>, n: nat)
    requires
        n <= names.len(),
    ensures
        named_ids(regs, names, n) is Ok <==> forall|k: int| 0 <= k < n ==> find_key(regs, bare_name((#[trigger] names[k])@)) is Some,
        named_ids(regs, names, n) matches Ok(l) ==> ascends(l) && forall|x: u16|
            #[trigger] l.contains(x) <==> exists|k: int| 0 <= k < n && find_key(regs, bare_name((#[trigger] names[k])@))->0.id == x,
    decreases n,
{
    if n > 0 {
        lemma_named(regs, names, (n - 1) as nat);
        assert(find_key(regs, bare_name(names[n - 1]@)) is Some || find_key(regs, bare_name(names[n - 1]@)) is None);
        match (named_ids(regs, names, (n - 1) as nat), named_ids(regs, names, n)) {
            (Ok(h), Ok(l)) => {
                let item = find_key(regs, bare_name(names[n - 1]@))->0;
                lemma_id_put(h, item.id);
                assert forall|x: u16|
                    #[trigger] l.contains(x) <==> exists|k: int| 0 <= k < n && find_key(regs, bare_name((#[trigger] names[k])@))->0.id == x by {
                    assert(id_put(h, item.id).contains(x) <==> x == item.id || h.contains(x));
                    if h.contains(x) {
                        let k = choose|k: int| 0 <= k < n - 1 && find_key(regs, bare_name((#[trigger] names[k])@))->0.id == x;
                        assert(find_key(regs, bare_name(names[k]@))->0.id == x);
                    }
                    if x == item.id {
                        assert(find_key(regs, bare_name(names[n - 1]@))->0.id == x);
                    }
                }
            },
            _ => {},
        }
    }
}

/// Whether an item can be used as an ingredient: it is the one named, one of those named, or one with the tag.
pub open spec fn can_be_used(regs: Registries, i: RecipeIngredientTypes, id: u16) -> bool {
    match i {
        RecipeIngredientTypes::Simple(name) => find_key(regs, bare_name(name@)) matches Some(item) && item.id == id,
        RecipeIngredientTypes::OneOf(names) => exists|k: int|
            0 <= k < names@.len() && find_key(regs, bare_name((#[trigger] names@[k])@))->0.id == id,
        RecipeIngredientTypes::Tagged(tag) => exists|k: int|
            0 <= k < regs.items@.len() && (#[trigger] regs.items@[k]).id == id && has_tag(regs.items@[k].tags@, full_tag(tag@)),
    }
}

/// An ingredient stands for exactly the items that can be used as it, in ascending order, and for at least
/// one.
pub proof fn lemma_ingredient(regs: Registries, i: RecipeIngredientTypes)
    ensures
        resolved(regs, i) matches Ok(l) ==> ascends(l) && l.len() > 0 && forall|x: u16| #[trigger] l.contains(x) <==> can_be_used(regs, i, x),
        i matches RecipeIngredientTypes::Simple(name) ==> (resolved(regs, i) is Ok <==> find_key(regs, bare_name(name@)) is Some),
        i matches RecipeIngredientTypes::OneOf(names) ==> (resolved(regs, i) is Ok <==> names@.len() > 0 && forall|k: int|
            0 <= k < names@.len() ==> find_key(regs, bare_name((#[trigger] names@[k])@)) is Some),
        i matches RecipeIngredientTypes::Tagged(_) ==> (resolved(regs, i) is Ok <==> exists|x: u16| can_be_used(regs, i, x)),
{
    match i {
        RecipeIngredientTypes::Simple(name) => {
            match find_key(regs, bare_name(name@)) {
                Some(item) => {
                    let l = seq![item.id];
                    assert forall|x: u16| #[trigger] l.contains(x) <==> can_be_used(regs, i, x) by {
                        assert(l[0] == item.id);
                    }
                },
                None => {},
            }
        },
        RecipeIngredientTypes::OneOf(names) => {
            lemma_named(regs, names@, names@.len());
            match named_ids(regs, names@, names@.len()) {
                Ok(l) => {
                    if names@.len() > 0 {
                        let x = find_key(regs, bare_name(names@[0]@))->0.id;
                        assert(l.contains(x));
                    } else {
                        assert(l.len() == 0);
                    }
                },
                Err(_) => {},
            }
        },
        RecipeIngredientTypes::Tagged(tag) => {
            lemma_tagged(regs.items@, full_tag(tag@), regs.items@.len());
            let l = tagged_ids(regs.items@, full_tag(tag@), regs.items@.len());
            if l.len() > 0 {
                assert(l.contains(l[0]));
                assert(can_be_used(regs, i, l[0]));
            }
            if exists|x: u16| can_be_used(regs, i, x) {
                let x = choose|x: u16| can_be_used(regs, i, x);
                assert(l.contains(x));
            }
        },
    }
}

proof fn lemma_cooking(regs: Registries, l: Seq<CookingRecipe>, kind: CookingKind, n: nat)
    requires
        n <= l.len(),
    ensures
        cooking_ids(regs, l, kind, n) is Ok <==> forall|k: int| 0 <= k < n && (#[trigger] l[k]).kind == kind ==> resolved(regs, l[k].ingredient) is Ok,
        cooking_ids(regs, l, kind, n) matches Ok(m) ==> ascends(m) && forall|x: u16|
            #[trigger] m.contains(x) <==> exists|k: int| 0 <= k < n && (#[trigger] l[k]).kind == kind && can_be_used(regs, l[k].ingredient, x),
    decreases n,
{
    if n > 0 {
        lemma_cooking(regs, l, kind, (n - 1) as nat);
        lemma_ingredient(regs, l[n - 1].ingredient);
        assert(l[n - 1].kind == kind || l[n - 1].kind != kind);
        match (cooking_ids(regs, l, kind, (n - 1) as nat), cooking_ids(regs, l, kind, n)) {
            (Ok(h), Ok(m)) => {
                if l[n - 1].kind == kind {
                    let more = resolved(regs, l[n - 1].ingredient)->Ok_0;
                    lemma_ids_put(h, more, more.len());
                    assert(more.take(more.len() as int) =~= more);
                }
                assert forall|x: u16|
                    #[trigger] m.contains(x) <==> exists|k: int|
                        0 <= k < n && (#[trigger] l[k]).kind == kind && can_be_used(regs, l[k].ingredient, x) by {
                    if h.contains(x) {
                        let k = choose|k: int| 0 <= k < n - 1 && (#[trigger] l[k]).kind == kind && can_be_used(regs, l[k].ingredient, x);
                        assert(l[k].kind == kind);
                    }
                    if l[n - 1].kind == kind && can_be_used(regs, l[n - 1].ingredient, x) {
                        assert(resolved(regs, l[n - 1].ingredient)->Ok_0.contains(x));
                    }
                    if m.contains(x) && !h.contains(x) {
                        assert(resolved(regs, l[n - 1].ingredient)->Ok_0.contains(x));
                        assert(l[n - 1].kind == kind);
                    }
                    if exists|k: int| 0 <= k < n && (#[trigger] l[k]).kind == kind && can_be_used(regs, l[k].ingredient, x) {
                        let k = choose|k: int| 0 <= k < n && (#[trigger] l[k]).kind == kind && can_be_used(regs, l[k].ingredient, x);
                        if k < n - 1 {
                            assert(h.contains(x));
                        }
                    }
                }
            },
            _ => {},
        }
    }
}

/// What can be cooked in a way are the ingredients of the recipes for that way.
pub proof fn lemma_cooked_in_a_way(regs: Registries, book: RecipeBook, kind: CookingKind)
    ensures
        kind_ids(regs, book, kind) is Ok <==> forall|k: int|
            0 <= k < book.cooking@.len() && (#[trigger] book.cooking@[k]).kind == kind ==> resolved(regs, book.cooking@[k].ingredient) is Ok,
        kind_ids(regs, book, kind) matches Ok(m) ==> ascends(m) && forall|x: u16|
            #[trigger] m.contains(x) <==> exists|k: int|
                0 <= k < book.cooking@.len() && (#[trigger] book.cooking@[k]).kind == kind && can_be_used(regs, book.cooking@[k].ingredient, x),
{
    lemma_cooking(regs, book.cooking@, kind, book.cooking@.len());
}

/// What goes in a place of the smithing table by a recipe.
pub open spec fn goes_in(r: SmithingRecipe, slot: SmithingSlot) -> RecipeIngredientTypes {
    match slot {
        SmithingSlot::Template => r.template,
        SmithingSlot::Base => r.base,
        SmithingSlot::Addition => r.addition,
    }
}

proof fn lemma_smithing(regs: Registries, l: Seq<SmithingRecipe>, slot: SmithingSlot, head: Seq<u16>, n: nat)
    requires
        n <= l.len(),
        ascends(head),
    ensures
        smithing_ids(regs, l, slot, head, n) is Ok <==> forall|k: int| 0 <= k < n ==> resolved(regs, goes_in(#[trigger] l[k], slot)) is Ok,
        smithing_ids(regs, l, slot, head, n) matches Ok(m) ==> ascends(m) && forall|x: u16|
            #[trigger] m.contains(x) <==> head.contains(x) || exists|k: int| 0 <= k < n && can_be_used(regs, goes_in(#[trigger] l[k], slot), x),
    decreases n,
{
    if n > 0 {
        lemma_smithing(regs, l, slot, head, (n - 1) as nat);
        let e = goes_in(l[n - 1], slot);
        lemma_ingredient(regs, e);
        assert(resolved(regs, e) is Ok || resolved(regs, e) is Err);
        match (smithing_ids(regs, l, slot, head, (n - 1) as nat), smithing_ids(regs, l, slot, head, n)) {
            (Ok(h), Ok(m)) => {
                let more = resolved(regs, e)->Ok_0;
                lemma_ids_put(h, more, more.len());
                assert(more.take(more.len() as int) =~= more);
                assert forall|x: u16|
                    #[trigger] m.contains(x) <==> head.contains(x) || exists|k: int|
                        0 <= k < n && can_be_used(regs, goes_in(#[trigger] l[k], slot), x) by {
                    assert(h.contains(x) <==> head.contains(x) || exists|k: int|
                        0 <= k < n - 1 && can_be_used(regs, goes_in(#[trigger] l[k], slot), x));
                    assert(more.contains(x) <==> can_be_used(regs, e, x));
                    if exists|k: int| 0 <= k < n && can_be_used(regs, goes_in(#[trigger] l[k], slot), x) {
                        let k = choose|k: int| 0 <= k < n && can_be_used(regs, goes_in(#[trigger] l[k], slot), x);
                        if k < n - 1 {
                            assert(can_be_used(regs, goes_in(l[k], slot), x));
                        }
                    }
                    if more.contains(x) {
                        assert(can_be_used(regs, goes_in(l[n - 1], slot), x));
                    }
                }
            },
            _ => {},
        }
    }
}

/// What goes in a place of the smithing table are the ingredients for that place of both kinds of recipes.
pub proof fn lemma_smithed_in_a_place(regs: Registries, book: RecipeBook, slot: SmithingSlot)
    ensures
        slot_ids(regs, book, slot) matches Ok(m) ==> ascends(m) && forall|x: u16|
            #[trigger] m.contains(x) <==> (exists|k: int|
                0 <= k < book.smithing_transform@.len() && can_be_used(regs, goes_in(#[trigger] book.smithing_transform@[k], slot), x)) || (exists|
                k: int,
            |
                0 <= k < book.smithing_trim@.len() && can_be_used(regs, goes_in(#[trigger] book.smithing_trim@[k], slot), x)),
{
    let none = Seq::<u16>::empty();
    lemma_smithing(regs, book.smithing_transform@, slot, none, book.smithing_transform@.len());
    match smithing_ids(regs, book.smithing_transform@, slot, none, book.smithing_transform@.len()) {
        Ok(head) => {
            lemma_smithing(regs, book.smithing_trim@, slot, head, book.smithing_trim@.len());
        },
        Err(_) => {},
    }
}

proof fn lemma_ids_in_turn(regs: Registries, version: JavaMinecraftVersion, l: Seq<u16>, n: nat)
    requires
        n <= l.len(),
    ensures
        id_bytes(regs, version, l, n) == in_turn(n, |k: int| var_int(item_id_out(regs, l[k] as int, version)), 0),
    decreases n,
{
    let f = |k: int| var_int(item_id_out(regs, l[k] as int, version));
    if n > 0 {
        lemma_ids_in_turn(regs, version, l, (n - 1) as nat);
        crate::packet_laws::lemma_one_more((n - 1) as nat, f, 0);
    }
}

/// An ingredient is sent as zero and the name of a tag, or as one more than how many items it stands for and
/// their numbers.
pub proof fn lemma_ingredient_layout(regs: Registries, version: JavaMinecraftVersion, out: Seq<u8>, i: RecipeIngredientTypes)
    ensures
        resolved(regs, i) is Err ==> put_ingredient(regs, version, out, i).result is Err,
        resolved(regs, i) matches Ok(l) ==> match i {
            RecipeIngredientTypes::Tagged(tag) => text_fits(sent_tag(tag@), MAX_TEXT_BYTES as nat) ==> put_ingredient(regs, version, out, i) == put(
                out,
                var_int(0) + text(sent_tag(tag@)),
            ),
            _ => l.len() < i32::MAX ==> put_ingredient(regs, version, out, i) == put(
                out,
                var_int(l.len() as int + 1) + in_turn(l.len(), |k: int| var_int(item_id_out(regs, l[k] as int, version)), 0),
            ),
        },
{
    match resolved(regs, i) {
        Ok(l) => {
            lemma_ids_in_turn(regs, version, l, l.len());
            if l.len() < i32::MAX {
                lemma_small_count(l.len() + 1);
            }
            let n = var_int(l.len() as int + 1);
            let b = in_turn(l.len(), |k: int| var_int(item_id_out(regs, l[k] as int, version)), 0);
            assert(out + n + b =~= out + (n + b));
            match i {
                RecipeIngredientTypes::Tagged(tag) => {
                    assert(out + var_int(0) + text(sent_tag(tag@)) =~= out + (var_int(0) + text(sent_tag(tag@))));
                },
                _ => {},
            }
        },
        Err(_) => {},
    }
}

/// The bytes of a set of items under a name.
pub open spec fn named_set(regs: Registries, key: Seq<char>, l: Seq<u16>) -> Seq<u8> {
    text(key) + (var_int(l.len() as int) + in_turn(l.len(), |k: int| var_int(item_id_out(regs, l[k] as int, JavaMinecraftVersion::V_26_2)), 0))
}

proof fn lemma_set_layout(regs: Registries, out: Seq<u8>, key: &'static str, l: Seq<u16>)
    requires
        text_fits(key@, MAX_TEXT_BYTES as nat),
        l.len() <= i32::MAX,
    ensures
        put_set(regs, out, key, l) == put(out, named_set(regs, key@, l)),
{
    lemma_ids_in_turn(regs, JavaMinecraftVersion::V_26_2, l, l.len());
    lemma_small_count(l.len());
    let b = item_set_bytes(regs, JavaMinecraftVersion::V_26_2, l);
    assert(out + text(key@) + b =~= out + (text(key@) + b));
}

proof fn lemma_keys_fit()
    ensures
        text_fits("minecraft:blast_furnace_input"@, MAX_TEXT_BYTES as nat),
        text_fits("minecraft:campfire_input"@, MAX_TEXT_BYTES as nat),
        text_fits("minecraft:furnace_input"@, MAX_TEXT_BYTES as nat),
        text_fits("minecraft:smithing_addition"@, MAX_TEXT_BYTES as nat),
        text_fits("minecraft:smithing_base"@, MAX_TEXT_BYTES as nat),
        text_fits("minecraft:smithing_template"@, MAX_TEXT_BYTES as nat),
        text_fits("minecraft:smoker_input"@, MAX_TEXT_BYTES as nat),
{
    reveal_strlit("minecraft:blast_furnace_input");
    is_ascii_chars_encode_utf8("minecraft:blast_furnace_input"@);
    reveal_strlit("minecraft:campfire_input");
    is_ascii_chars_encode_utf8("minecraft:campfire_input"@);
    reveal_strlit("minecraft:furnace_input");
    is_ascii_chars_encode_utf8("minecraft:furnace_input"@);
    reveal_strlit("minecraft:smithing_addition");
    is_ascii_chars_encode_utf8("minecraft:smithing_addition"@);
    reveal_strlit("minecraft:smithing_base");
    is_ascii_chars_encode_utf8("minecraft:smithing_base"@);
    reveal_strlit("minecraft:smithing_template");
    is_ascii_chars_encode_utf8("minecraft:smithing_template"@);
    reveal_strlit("minecraft:smoker_input");
    is_ascii_chars_encode_utf8("minecraft:smoker_input"@);
}

/// The sets of items are sent under their names, in the order of these: what can be blasted, cooked on a
/// campfire and smelted, what is added, worked on and used as a template in smithing, and what can be smoked.
pub proof fn lemma_sets_layout(regs: Registries, out: Seq<u8>, s: Sets)
    requires
        s.blast.len() <= i32::MAX && s.campfire.len() <= i32::MAX && s.furnace.len() <= i32::MAX && s.addition.len() <= i32::MAX && s.base.len()
            <= i32::MAX && s.template.len() <= i32::MAX && s.smoker.len() <= i32::MAX,
    ensures
        put_sets(regs, out, s, 0).result is Ok,
        put_sets(regs, out, s, 0).out == out + named_set(regs, "minecraft:blast_furnace_input"@, s.blast) + named_set(
            regs,
            "minecraft:campfire_input"@,
            s.campfire,
        ) + named_set(regs, "minecraft:furnace_input"@, s.furnace) + named_set(regs, "minecraft:smithing_addition"@, s.addition) + named_set(
            regs,
            "minecraft:smithing_base"@,
            s.base,
        ) + named_set(regs, "minecraft:smithing_template"@, s.template) + named_set(regs, "minecraft:smoker_input"@, s.smoker),
{
    reveal_with_fuel(put_sets, 8);
    lemma_keys_fit();
    let o1 = out + named_set(regs, "minecraft:blast_furnace_input"@, s.blast);
    let o2 = o1 + named_set(regs, "minecraft:campfire_input"@, s.campfire);
    let o3 = o2 + named_set(regs, "minecraft:furnace_input"@, s.furnace);
    let o4 = o3 + named_set(regs, "minecraft:smithing_addition"@, s.addition);
    let o5 = o4 + named_set(regs, "minecraft:smithing_base"@, s.base);
    let o6 = o5 + named_set(regs, "minecraft:smithing_template"@, s.template);
    lemma_set_layout(regs, out, "minecraft:blast_furnace_input", s.blast);
    lemma_set_layout(regs, o1, "minecraft:campfire_input", s.campfire);
    lemma_set_layout(regs, o2, "minecraft:furnace_input", s.furnace);
    lemma_set_layout(regs, o3, "minecraft:smithing_addition", s.addition);
    lemma_set_layout(regs, o4, "minecraft:smithing_base", s.base);
    lemma_set_layout(regs, o5, "minecraft:smithing_template", s.template);
    lemma_set_layout(regs, o6, "minecraft:smoker_input", s.smoker);
}

/// The sets of items that are sent are those of the recipes: each way of cooking and each place of the
/// smithing table has its own.
pub proof fn lemma_sets_of_the_book(regs: Registries, book: RecipeBook, s: Sets)
    requires
        all_sets(regs, book) == Ok::<Sets, WriteFault>(s),
    ensures
        kind_ids(regs, book, CookingKind::Blasting) == Ok::<Seq<u16>, WriteFault>(s.blast),
        kind_ids(regs, book, CookingKind::CampfireCooking) == Ok::<Seq<u16>, WriteFault>(s.campfire),
        kind_ids(regs, book, CookingKind::Smelting) == Ok::<Seq<u16>, WriteFault>(s.furnace),
        kind_ids(regs, book, CookingKind::Smoking) == Ok::<Seq<u16>, WriteFault>(s.smoker),
        slot_ids(regs, book, SmithingSlot::Addition) == Ok::<Seq<u16>, WriteFault>(s.addition),
        slot_ids(regs, book, SmithingSlot::Base) == Ok::<Seq<u16>, WriteFault>(s.base),
        slot_ids(regs, book, SmithingSlot::Template) == Ok::<Seq<u16>, WriteFault>(s.template),
{
}

/// Recipes are sent in 26.2 alone.
pub proof fn lemma_recipes_of_one_version(c: Ctx, version: JavaMinecraftVersion, out: Seq<u8>, book: RecipeBook)
    requires
        !(version is V_26_2),
    ensures
        put_recipes(c, version, out, book).result is Err,
{
}

/// A recipe for the stonecutter is sent as its ingredient, that a stack is shown, and the stack that it makes.
pub proof fn lemma_cutting_layout(c: Ctx, out: Seq<u8>, r: StonecuttingRecipe)
    ensures
        put_ingredient(c.regs, JavaMinecraftVersion::V_26_2, out, r.ingredient).result is Ok ==> (find_key(c.regs, bare_name(r.result.id@)) matches Some(
            item,
        ) ==> put_cutting(c, out, r) == write_template(
            c,
            JavaMinecraftVersion::V_26_2,
            put_ingredient(c.regs, JavaMinecraftVersion::V_26_2, out, r.ingredient).out + var_int(5),
            StackVal { item, count: r.result.count as int, patch: Seq::empty() },
        )),
        find_key(c.regs, bare_name(r.result.id@)) is None ==> put_cutting(c, out, r).result is Err,
{
}

} // verus!
