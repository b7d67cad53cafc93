//! Tags that match have the same checksum, whatever the order of their entries.
use vstd::prelude::*;
use crate::hash::{entry_hashes, entry_key, list_bytes, placed_after, tag_hash, text_hash};
use crate::nbt_tag::{compound_get, key_index, keys_distinct, lemma_key_index, lemma_key_index_is, Tag};
use crate::same::{entries_match, float_nan, lists_match, tags_match};

verus! {

/// Whether no compound in a tag has a key twice.
pub open spec fn tidy(t: Tag) -> bool
    decreases t, 0nat,
{
    match t {
        Tag::List(l) => tidy_items(l, l.len()),
        Tag::Compound(c) => keys_distinct(c) && tidy_entries(c, c.len()),
        _ => true,
    }
}

/// Whether the first `n` tags of a list are tidy.
pub open spec fn tidy_items(l: Seq<Tag>, n: nat) -> bool
    decreases l, n,
{
    if n == 0 || n > l.len() {
        true
    } else {
        tidy_items(l, (n - 1) as nat) && tidy(l[n - 1])
    }
}

/// Whether the tags of the first `n` entries of a compound are tidy.
pub open spec fn tidy_entries(c: Seq<(Seq<char>, Tag)>, n: nat) -> bool
    decreases c, n,
{
    if n == 0 || n > c.len() {
        true
    } else {
        tidy_entries(c, (n - 1) as nat) && tidy(c[n - 1].1)
    }
}

proof fn lemma_tidy_item(l: Seq<Tag>, n: nat, i: int)
    requires
        0 <= i < n <= l.len(),
        tidy_items(l, n),
    ensures
        tidy(l[i]),
    decreases n,
{
    if i < n - 1 {
        lemma_tidy_item(l, (n - 1) as nat, i);
    }
}

proof fn lemma_tidy_entry(c: Seq<(Seq<char>, Tag)>, n: nat, i: int)
    requires
        0 <= i < n <= c.len(),
        tidy_entries(c, n),
    ensures
        tidy(c[i].1),
    decreases n,
{
    if i < n - 1 {
        lemma_tidy_entry(c, (n - 1) as nat, i);
    }
}

proof fn lemma_list_match(x: Seq<Tag>, y: Seq<Tag>, n: nat, i: int, by_pattern: bool)
    requires
        0 <= i < n <= x.len(),
        lists_match(x, y, n, by_pattern),
    ensures
        tags_match(x[i], y[i], by_pattern),
    decreases n,
{
    if i < n - 1 {
        lemma_list_match(x, y, (n - 1) as nat, i, by_pattern);
    }
}

/// Where an entry of a compound is found in a compound that matches.
pub proof fn lemma_entry_match(x: Seq<(Seq<char>, Tag)>, y: Seq<(Seq<char>, Tag)>, n: nat, i: int, by_pattern: bool)
    requires
        0 <= i < n <= x.len(),
        entries_match(x, y, n, by_pattern),
    ensures
        compound_get(y, x[i].0) matches Some(t) && tags_match(x[i].1, t, by_pattern),
    decreases n,
{
    if i < n - 1 {
        lemma_entry_match(x, y, (n - 1) as nat, i, by_pattern);
    }
}

/// Whether the numbers of two entries tell them apart.
pub open spec fn told_apart<T>(e: (u64, T), f: (u64, T)) -> bool {
    e.0 == f.0 ==> e == f
}

/// The order in which two entries are placed does not matter.
proof fn lemma_placed_commutes<T>(l: Seq<(u64, T)>, e: (u64, T), f: (u64, T))
    requires
        told_apart(e, f),
    ensures
        placed_after(placed_after(l, e), f) == placed_after(placed_after(l, f), e),
    decreases l.len(),
{
    reveal_with_fuel(placed_after, 3);
    if l.len() == 0 {
        assert(seq![e].drop_last() =~= Seq::empty());
        assert(seq![f].drop_last() =~= Seq::empty());
        assert(seq![e].push(f) =~= seq![e, f]);
        assert(seq![f].push(e) =~= seq![f, e]);
    } else {
        let m = l.drop_last();
        let x = l.last();
        lemma_placed_commutes(m, e, f);
        assert(l.push(e).drop_last() =~= l);
        assert(l.push(f).drop_last() =~= l);
        let pe = placed_after(m, e);
        let pf = placed_after(m, f);
        assert(pe.push(x).drop_last() =~= pe);
        assert(pf.push(x).drop_last() =~= pf);
    }
}

/// Entries placed one after the other.
pub open spec fn placed_all<T>(s: Seq<(u64, T)>) -> Seq<(u64, T)>
    decreases s.len(),
{
    if s.len() == 0 {
        Seq::empty()
    } else {
        placed_after(placed_all(s.drop_last()), s.last())
    }
}

/// Whether the numbers of entries tell them apart.
pub open spec fn all_told_apart<T>(s: Seq<(u64, T)>) -> bool {
    forall|i: int, j: int| 0 <= i < s.len() && 0 <= j < s.len() ==> told_apart(#[trigger] s[i], #[trigger] s[j])
}

/// Any entry can be placed last.
pub proof fn lemma_placed_last<T>(s: Seq<(u64, T)>, i: int)
    requires
        0 <= i < s.len(),
        all_told_apart(s),
    ensures
        placed_all(s) == placed_after(placed_all(s.remove(i)), s[i]),
    decreases s.len(),
{
    if i == s.len() - 1 {
        assert(s.remove(i) =~= s.drop_last());
    } else {
        let m = s.drop_last();
        assert(m[i] == s[i]);
        assert forall|a: int, b: int| 0 <= a < m.len() && 0 <= b < m.len() implies told_apart(#[trigger] m[a], #[trigger] m[b]) by {
            assert(m[a] == s[a] && m[b] == s[b]);
            assert(told_apart(s[a], s[b]));
        }
        lemma_placed_last(m, i);
        let rest = s.remove(i);
        assert(rest.drop_last() =~= m.remove(i));
        assert(rest.last() == s.last());
        assert(told_apart(s[i], s[s.len() - 1]));
        lemma_placed_commutes(placed_all(m.remove(i)), s[i], s.last());
    }
}

/// The checksums of the entries of a compound, in the order of the entries.
pub open spec fn entry_keys(c: Seq<(Seq<char>, Tag)>) -> Seq<(u64, (u32, u32))> {
    Seq::new(c.len(), |i: int| entry_key(text_hash(c[i].0), tag_hash(c[i].1)))
}

proof fn lemma_keys_told_apart(c: Seq<(Seq<char>, Tag)>)
    ensures
        all_told_apart(entry_keys(c)),
{
    let s = entry_keys(c);
    assert forall|i: int, j: int| 0 <= i < s.len() && 0 <= j < s.len() implies told_apart(#[trigger] s[i], #[trigger] s[j]) by {
        let (a, b) = (text_hash(c[i].0), tag_hash(c[i].1));
        let (x, y) = (text_hash(c[j].0), tag_hash(c[j].1));
        assert(s[i].0 == a * 0x1_0000_0000 + b);
        assert(s[j].0 == x * 0x1_0000_0000 + y);
    }
}

proof fn lemma_hashes_placed(c: Seq<(Seq<char>, Tag)>, n: nat)
    requires
        n <= c.len(),
    ensures
        entry_hashes(c, n) == placed_all(entry_keys(c).take(n as int)),
    decreases n,
{
    if n > 0 {
        lemma_hashes_placed(c, (n - 1) as nat);
        let s = entry_keys(c).take(n as int);
        assert(s.drop_last() =~= entry_keys(c).take(n - 1));
    } else {
        assert(entry_keys(c).take(0) =~= Seq::empty());
    }
}

/// Whether every entry of `x` has one in `y` with the same key and a tag with the same checksum.
pub open spec fn hashes_covered(x: Seq<(Seq<char>, Tag)>, y: Seq<(Seq<char>, Tag)>) -> bool {
    forall|i: int|
        0 <= i < x.len() ==> exists|j: int|
            0 <= j < y.len() && (#[trigger] y[j]).0 == (#[trigger] x[i]).0 && tag_hash(y[j].1) == tag_hash(x[i].1)
}

proof fn lemma_same_entries(x: Seq<(Seq<char>, Tag)>, y: Seq<(Seq<char>, Tag)>)
    requires
        x.len() == y.len(),
        keys_distinct(x),
        keys_distinct(y),
        hashes_covered(x, y),
    ensures
        placed_all(entry_keys(x)) == placed_all(entry_keys(y)),
    decreases x.len(),
{
    if x.len() == 0 {
        assert(entry_keys(x) =~= entry_keys(y));
    } else {
        let n = x.len() - 1;
        let e = x[n];
        let j = choose|j: int| 0 <= j < y.len() && (#[trigger] y[j]).0 == e.0 && tag_hash(y[j].1) == tag_hash(e.1);
        let a = x.drop_last();
        let b = y.remove(j);
        assert(entry_keys(x).drop_last() =~= entry_keys(a));
        assert(entry_keys(y).remove(j) =~= entry_keys(b));
        lemma_keys_told_apart(y);
        lemma_placed_last(entry_keys(y), j);
        assert(entry_keys(y)[j] == entry_keys(x).last());
        assert forall|i: int| 0 <= i < a.len() implies exists|k: int|
            0 <= k < b.len() && (#[trigger] b[k]).0 == (#[trigger] a[i]).0 && tag_hash(b[k].1) == tag_hash(a[i].1) by {
            assert(a[i] == x[i]);
            let m = choose|m: int| 0 <= m < y.len() && (#[trigger] y[m]).0 == x[i].0 && tag_hash(y[m].1) == tag_hash(x[i].1);
            assert(x[i].0 != x[n].0);
            assert(m != j);
            let k = if m < j {
                m
            } else {
                m - 1
            };
            assert(b[k] == y[m]);
        }
        assert forall|i: int, k: int| 0 <= i < k < a.len() implies (#[trigger] a[i]).0 != (#[trigger] a[k]).0 by {
            assert(x[i].0 != x[k].0);
        }
        assert forall|i: int, k: int| 0 <= i < k < b.len() implies (#[trigger] b[i]).0 != (#[trigger] b[k]).0 by {
            let p = if i < j {
                i
            } else {
                i + 1
            };
            let q = if k < j {
                k
            } else {
                k + 1
            };
            assert(y[p].0 != y[q].0);
        }
        lemma_same_entries(a, b);
    }
}

proof fn lemma_list_hash(x: Seq<Tag>, y: Seq<Tag>, n: nat)
    requires
        n <= x.len(),
        x.len() == y.len(),
        forall|i: int| 0 <= i < x.len() ==> tag_hash(#[trigger] x[i]) == tag_hash(y[i]),
    ensures
        list_bytes(x, n) == list_bytes(y, n),
    decreases n,
{
    if n > 0 {
        lemma_list_hash(x, y, (n - 1) as nat);
        assert(tag_hash(x[n - 1]) == tag_hash(y[n - 1]));
    }
}

/// Tags that match have the same checksum; the order of the entries of a compound does not matter.
pub proof fn lemma_matching_tags_hash_alike(a: Tag, b: Tag)
    requires
        tidy(a),
        tidy(b),
        tags_match(a, b, true),
    ensures
        tag_hash(a) == tag_hash(b),
    decreases a,
{
    match (a, b) {
        (Tag::List(x), Tag::List(y)) => {
            assert forall|i: int| 0 <= i < x.len() implies tag_hash(#[trigger] x[i]) == tag_hash(y[i]) by {
                lemma_tidy_item(x, x.len(), i);
                lemma_tidy_item(y, y.len(), i);
                lemma_list_match(x, y, x.len(), i, true);
                lemma_matching_tags_hash_alike(x[i], y[i]);
            }
            lemma_list_hash(x, y, x.len());
        },
        (Tag::Compound(x), Tag::Compound(y)) => {
            assert forall|i: int| 0 <= i < x.len() implies exists|j: int|
                0 <= j < y.len() && (#[trigger] y[j]).0 == (#[trigger] x[i]).0 && tag_hash(y[j].1) == tag_hash(x[i].1) by {
                lemma_entry_match(x, y, x.len(), i, true);
                lemma_key_index(y, x[i].0);
                let j = key_index(y, x[i].0)->0;
                lemma_tidy_entry(x, x.len(), i);
                lemma_tidy_entry(y, y.len(), j);
                lemma_matching_tags_hash_alike(x[i].1, y[j].1);
                assert(y[j].0 == x[i].0);
            }
            lemma_same_entries(x, y);
            lemma_hashes_placed(x, x.len());
            lemma_hashes_placed(y, y.len());
            assert(entry_keys(x).take(x.len() as int) =~= entry_keys(x));
            assert(entry_keys(y).take(y.len() as int) =~= entry_keys(y));
        },
        _ => {},
    }
}

/// Whether no floating-point number in a tag is not a number.
pub open spec fn numeric(t: Tag) -> bool
    decreases t, 0nat,
{
    match t {
        Tag::Float(v) => !float_nan(4, v),
        Tag::Double(v) => !float_nan(8, v),
        Tag::List(l) => numeric_items(l, l.len()),
        Tag::Compound(c) => numeric_entries(c, c.len()),
        _ => true,
    }
}

/// Whether no floating-point number in the first `n` tags is not a number.
pub open spec fn numeric_items(l: Seq<Tag>, n: nat) -> bool
    decreases l, n,
{
    if n == 0 || n > l.len() {
        true
    } else {
        numeric_items(l, (n - 1) as nat) && numeric(l[n - 1])
    }
}

/// Whether no floating-point number in the first `n` entries is not a number.
pub open spec fn numeric_entries(c: Seq<(Seq<char>, Tag)>, n: nat) -> bool
    decreases c, n,
{
    if n == 0 || n > c.len() {
        true
    } else {
        numeric_entries(c, (n - 1) as nat) && numeric(c[n - 1].1)
    }
}

/// A tag matches itself; where numbers are compared as numbers, it must hold none that is not one.
pub proof fn lemma_tag_matches_itself(t: Tag, by_pattern: bool)
    requires
        tidy(t),
        by_pattern || numeric(t),
    ensures
        tags_match(t, t, by_pattern),
    decreases t, 0nat,
{
    match t {
        Tag::List(l) => {
            lemma_items_match(l, l.len(), by_pattern);
        },
        Tag::Compound(c) => {
            lemma_entries_match(c, c.len(), by_pattern);
        },
        _ => {},
    }
}

proof fn lemma_items_match(l: Seq<Tag>, n: nat, by_pattern: bool)
    requires
        n <= l.len(),
        tidy_items(l, n),
        by_pattern || numeric_items(l, n),
    ensures
        lists_match(l, l, n, by_pattern),
    decreases l, n,
{
    if n > 0 {
        lemma_items_match(l, (n - 1) as nat, by_pattern);
        lemma_tag_matches_itself(l[n - 1], by_pattern);
    }
}

proof fn lemma_entries_match(c: Seq<(Seq<char>, Tag)>, n: nat, by_pattern: bool)
    requires
        n <= c.len(),
        keys_distinct(c),
        tidy_entries(c, n),
        by_pattern || numeric_entries(c, n),
    ensures
        entries_match(c, c, n, by_pattern),
    decreases c, n,
{
    if n > 0 {
        lemma_entries_match(c, (n - 1) as nat, by_pattern);
        lemma_tag_matches_itself(c[n - 1].1, by_pattern);
        assert forall|j: int| n - 1 < j < c.len() implies (#[trigger] c[j]).0 != c[n - 1].0 by {
            assert(c[n - 1].0 != c[j].0);
        }
        lemma_key_index_is(c, c[n - 1].0, n - 1);
    }
}

} // verus!
