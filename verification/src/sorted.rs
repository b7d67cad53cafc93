//! Lists in the order of their keys.
use vstd::prelude::*;
use crate::format::Val;
use crate::persist::{canonical, sorted_put, text_less};
use crate::same::key_of;
use crate::text::chars_of;

verus! {

/// Whether one text comes before another.
pub fn comes_before(a: &str, b: &str) -> (r: bool)
    ensures
        r == text_less(a@, b@),
{
    let x = chars_of(a);
    let y = chars_of(b);
    let mut i: usize = 0;
    assert(a@.skip(0) =~= a@ && b@.skip(0) =~= b@);
    while i < x.len() && i < y.len()
        invariant
            i <= x.len(),
            i <= y.len(),
            x@ == a@,
            y@ == b@,
            text_less(a@, b@) == text_less(a@.skip(i as int), b@.skip(i as int)),
        decreases x.len() - i,
    {
        assert(a@.skip(i as int)[0] == x@[i as int] && b@.skip(i as int)[0] == y@[i as int]);
        if x[i] != y[i] {
            let p: char = x[i];
            let q: char = y[i];
            return p < q;
        }
        assert(a@.skip(i as int).skip(1) =~= a@.skip(i + 1));
        assert(b@.skip(i as int).skip(1) =~= b@.skip(i + 1));
        i += 1;
    }
    i < y.len()
}

/// Where a value goes in a list.
pub enum Place {
    /// Before the one that is at this place.
    Before(usize),
    /// In the stead of the one that is at this place.
    Instead(usize),
}

/// A list with a value put at a place.
pub open spec fn placed(l: Seq<Val>, v: Val, p: Place) -> Seq<Val> {
    match p {
        Place::Before(i) => l.insert(i as int, v),
        Place::Instead(i) => l.update(i as int, v),
    }
}

/// Whether these are the keys of a list.
pub open spec fn keys_are(keys: Seq<String>, l: Seq<Val>) -> bool {
    keys.len() == l.len() && forall|i: int| 0 <= i < l.len() ==> key_of(#[trigger] l[i]) == keys[i]@
}

/// Where a value with this key goes in a list with these keys.
pub fn find_place(keys: &Vec<String>, key: &str, Ghost(l): Ghost<Seq<Val>>, Ghost(v): Ghost<Val>) -> (r: Place)
    requires
        keys_are(keys@, l),
        key_of(v) == key@,
    ensures
        placed(l, v, r) == sorted_put(l, v),
        match r {
            Place::Before(i) => i <= keys@.len(),
            Place::Instead(i) => i < keys@.len(),
        },
{
    let mut j: usize = keys.len();
    assert(l.take(l.len() as int) =~= l);
    assert(sorted_put(l, v) + l.skip(l.len() as int) =~= sorted_put(l, v));
    while j > 0
        invariant
            j <= keys@.len(),
            keys_are(keys@, l),
            key_of(v) == key@,
            sorted_put(l, v) == sorted_put(l.take(j as int), v) + l.skip(j as int),
        decreases j,
    {
        let ghost head = l.take(j as int);
        assert(head.last() == l[j - 1]);
        assert(head.drop_last() =~= l.take(j - 1));
        if comes_before(keys[j - 1].as_str(), key) {
            assert(head.push(v) + l.skip(j as int) =~= l.insert(j as int, v));
            return Place::Before(j);
        }
        if crate::text::same_text(keys[j - 1].as_str(), key) {
            assert(head.drop_last().push(v) + l.skip(j as int) =~= l.update(j - 1, v));
            return Place::Instead(j - 1);
        }
        assert(sorted_put(l.take(j - 1), v).push(l[j - 1]) + l.skip(j as int) =~= sorted_put(l.take(j - 1), v) + l.skip(j - 1));
        j -= 1;
    }
    assert(l.take(0) =~= Seq::<Val>::empty());
    assert(seq![v] + l.skip(0) =~= l.insert(0, v));
    Place::Before(0)
}

/// Whether the keys of a list are strictly ascending.
pub open spec fn ascending(l: Seq<Val>) -> bool {
    forall|i: int, j: int| 0 <= i < j < l.len() ==> text_less(key_of(#[trigger] l[i]), key_of(#[trigger] l[j]))
}

/// Nothing comes before itself.
pub proof fn lemma_less_is_strict(a: Seq<char>)
    ensures
        !text_less(a, a),
    decreases a.len(),
{
    if a.len() > 0 {
        lemma_less_is_strict(a.skip(1));
    }
}

/// Of two different texts one comes before the other.
pub proof fn lemma_less_is_total(a: Seq<char>, b: Seq<char>)
    requires
        a != b,
    ensures
        text_less(a, b) || text_less(b, a),
    decreases a.len(),
{
    if a.len() == 0 {
        assert(b.len() > 0) by {
            if b.len() == 0 {
                assert(a =~= b);
            }
        }
    } else if b.len() > 0 && a[0] == b[0] {
        assert(a.skip(1) != b.skip(1)) by {
            if a.skip(1) == b.skip(1) {
                assert(a =~= seq![a[0]] + a.skip(1));
                assert(b =~= seq![b[0]] + b.skip(1));
            }
        }
        lemma_less_is_total(a.skip(1), b.skip(1));
    }
}

/// What comes before a text comes before all that the text comes before.
pub proof fn lemma_less_is_transitive(a: Seq<char>, b: Seq<char>, c: Seq<char>)
    requires
        text_less(a, b),
        text_less(b, c),
    ensures
        text_less(a, c),
    decreases a.len(),
{
    if a.len() > 0 && a[0] == b[0] && b[0] == c[0] {
        lemma_less_is_transitive(a.skip(1), b.skip(1), c.skip(1));
    }
}

/// Putting a value into an ascending list leaves it ascending, sets its key and no other.
pub proof fn lemma_sorted_put(l: Seq<Val>, v: Val)
    requires
        ascending(l),
    ensures
        ascending(sorted_put(l, v)),
        sorted_put(l, v).contains(v),
        forall|w: Val| #[trigger] sorted_put(l, v).contains(w) ==> w == v || (l.contains(w) && key_of(w) != key_of(v)),
        forall|w: Val| #[trigger] l.contains(w) && key_of(w) != key_of(v) ==> sorted_put(l, v).contains(w),
    decreases l.len(),
{
    let r = sorted_put(l, v);
    if l.len() == 0 {
        assert(r[0] == v);
    } else if text_less(key_of(l.last()), key_of(v)) {
        assert(r.last() == v);
        assert forall|i: int, j: int| 0 <= i < j < r.len() implies text_less(key_of(#[trigger] r[i]), key_of(#[trigger] r[j])) by {
            if j == l.len() && i < l.len() - 1 {
                lemma_less_is_transitive(key_of(l[i]), key_of(l.last()), key_of(v));
            }
        }
        assert forall|w: Val| #[trigger] r.contains(w) implies w == v || (l.contains(w) && key_of(w) != key_of(v)) by {
            let i = choose|i: int| 0 <= i < r.len() && r[i] == w;
            if i < l.len() {
                assert(l[i] == w);
                assert(text_less(key_of(r[i]), key_of(r[r.len() - 1])));
                lemma_less_is_strict(key_of(v));
            }
        }
        assert forall|w: Val| #[trigger] l.contains(w) && key_of(w) != key_of(v) implies r.contains(w) by {
            let i = choose|i: int| 0 <= i < l.len() && l[i] == w;
            assert(r[i] == w);
        }
    } else if key_of(l.last()) == key_of(v) {
        assert(r.last() == v);
        assert forall|i: int, j: int| 0 <= i < j < r.len() implies text_less(key_of(#[trigger] r[i]), key_of(#[trigger] r[j])) by {
            assert(r[i] == l[i]);
            if j == r.len() - 1 {
                assert(key_of(r[j]) == key_of(l[j]));
            } else {
                assert(r[j] == l[j]);
            }
        }
        assert forall|w: Val| #[trigger] r.contains(w) implies w == v || (l.contains(w) && key_of(w) != key_of(v)) by {
            let i = choose|i: int| 0 <= i < r.len() && r[i] == w;
            if i < r.len() - 1 {
                assert(l[i] == w);
                assert(text_less(key_of(l[i]), key_of(l[l.len() - 1])));
                lemma_less_is_strict(key_of(v));
            }
        }
        assert forall|w: Val| #[trigger] l.contains(w) && key_of(w) != key_of(v) implies r.contains(w) by {
            let i = choose|i: int| 0 <= i < l.len() && l[i] == w;
            assert(r[i] == w);
        }
    } else {
        let head = l.drop_last();
        let s = sorted_put(head, v);
        assert(ascending(head)) by {
            assert forall|i: int, j: int| 0 <= i < j < head.len() implies text_less(
                key_of(#[trigger] head[i]),
                key_of(#[trigger] head[j]),
            ) by {
                assert(head[i] == l[i] && head[j] == l[j]);
            }
        }
        lemma_sorted_put(head, v);
        lemma_less_is_total(key_of(l.last()), key_of(v));
        assert(r == s.push(l.last()));
        assert forall|i: int, j: int| 0 <= i < j < r.len() implies text_less(key_of(#[trigger] r[i]), key_of(#[trigger] r[j])) by {
            if j == s.len() {
                assert(s.contains(s[i]));
                if s[i] != v {
                    let k = choose|k: int| 0 <= k < head.len() && head[k] == s[i];
                    assert(l[k] == s[i]);
                    assert(text_less(key_of(l[k]), key_of(l[l.len() - 1])));
                }
            } else {
                assert(r[i] == s[i] && r[j] == s[j]);
            }
        }
        assert(r.contains(v)) by {
            let i = choose|i: int| 0 <= i < s.len() && s[i] == v;
            assert(r[i] == v);
        }
        assert forall|w: Val| #[trigger] r.contains(w) implies w == v || (l.contains(w) && key_of(w) != key_of(v)) by {
            let i = choose|i: int| 0 <= i < r.len() && r[i] == w;
            if i < s.len() {
                assert(s[i] == w);
                assert(s.contains(w));
                if w != v {
                    let k = choose|k: int| 0 <= k < head.len() && head[k] == w;
                    assert(l[k] == w);
                }
            } else {
                assert(l[l.len() - 1] == w);
            }
        }
        assert forall|w: Val| #[trigger] l.contains(w) && key_of(w) != key_of(v) implies r.contains(w) by {
            let i = choose|i: int| 0 <= i < l.len() && l[i] == w;
            if i < head.len() {
                assert(head[i] == w);
                assert(head.contains(w));
                assert(s.contains(w));
                let k = choose|k: int| 0 <= k < s.len() && s[k] == w;
                assert(r[k] == w);
            } else {
                assert(r[s.len() as int] == w);
            }
        }
    }
}

/// A list in its canonical order is ascending.
pub proof fn lemma_canonical_ascends(l: Seq<Val>, n: nat)
    ensures
        ascending(canonical(l, n)),
    decreases n,
{
    if n > 0 && n <= l.len() {
        lemma_canonical_ascends(l, (n - 1) as nat);
        lemma_sorted_put(canonical(l, (n - 1) as nat), l[n - 1]);
    }
}

} // verus!
