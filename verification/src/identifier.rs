//! Identifiers: a namespace and a path.
use vstd::prelude::*;
use crate::text::{chars_of, concat, text_of};

verus! {

/// Whether a character may stand in a namespace.
pub open spec fn namespace_char(c: char) -> bool {
    c == '_' || c == '-' || c == '.' || ('a' <= c && c <= 'z') || ('0' <= c && c <= '9')
}

/// Whether a character may stand in a path.
pub open spec fn path_char(c: char) -> bool {
    namespace_char(c) || c == '/'
}

/// The first colon of `t` from the `i`th character on.
pub open spec fn first_colon(t: Seq<char>, i: int) -> Option<int>
    decreases t.len() - i,
{
    if i < 0 || i >= t.len() {
        None
    } else if t[i] == ':' {
        Some(i)
    } else {
        first_colon(t, i + 1)
    }
}

/// Whether both parts of an identifier hold only the characters that they may.
pub open spec fn identifier_parts_valid(namespace: Seq<char>, path: Seq<char>) -> bool {
    (forall|i: int| 0 <= i < namespace.len() ==> namespace_char(#[trigger] namespace[i])) && (forall|i: int|
        0 <= i < path.len() ==> path_char(#[trigger] path[i]))
}

/// The namespace of `t`: what stands before its first colon, or the default one.
pub open spec fn namespace_of(t: Seq<char>) -> Seq<char> {
    match first_colon(t, 0) {
        Some(i) => if i == 0 {
            "minecraft"@
        } else {
            t.take(i)
        },
        None => "minecraft"@,
    }
}

/// The path of `t`: what stands behind its first colon.
pub open spec fn path_of(t: Seq<char>) -> Seq<char> {
    match first_colon(t, 0) {
        Some(i) => t.skip(i + 1),
        None => t,
    }
}

/// The identifier that `t` spells, written out, or nothing where it spells none.
pub open spec fn identifier_of(t: Seq<char>) -> Option<Seq<char>> {
    if identifier_parts_valid(namespace_of(t), path_of(t)) {
        Some(namespace_of(t) + ":"@ + path_of(t))
    } else {
        None
    }
}

fn is_namespace_char(c: char) -> (r: bool)
    ensures
        r == namespace_char(c),
{
    c == '_' || c == '-' || c == '.' || ('a' <= c && c <= 'z') || ('0' <= c && c <= '9')
}

/// Whether the characters from `from` up to `to` may stand in a namespace, or in a path.
fn all_valid(v: &Vec<char>, from: usize, to: usize, path: bool) -> (r: bool)
    requires
        from <= to <= v@.len(),
    ensures
        !path ==> r == (forall|i: int|
            0 <= i < v@.subrange(from as int, to as int).len() ==> namespace_char(#[trigger] v@.subrange(from as int, to as int)[i])),
        path ==> r == (forall|i: int|
            0 <= i < v@.subrange(from as int, to as int).len() ==> path_char(#[trigger] v@.subrange(from as int, to as int)[i])),
{
    let ghost part = v@.subrange(from as int, to as int);
    let mut i: usize = from;
    while i < to
        invariant
            from <= i <= to <= v@.len(),
            part == v@.subrange(from as int, to as int),
            forall|k: int| 0 <= k < i - from ==> if path {
                path_char(#[trigger] part[k])
            } else {
                namespace_char(part[k])
            },
        decreases to - i,
    {
        let c: char = v[i];
        assert(part[i - from] == c);
        if !is_namespace_char(c) && !(path && c == '/') {
            return false;
        }
        i += 1;
    }
    true
}

/// The identifier that a text spells, written out.
pub fn parse_identifier(t: &str) -> (r: Option<String>)
    ensures
        match r {
            Some(id) => identifier_of(t@) == Some(id@),
            None => identifier_of(t@) is None,
        },
{
    let v = chars_of(t);
    let n: usize = v.len();
    let mut colon: usize = 0;
    while colon < n && v[colon] != ':'
        invariant
            n == v@.len(),
            v@ == t@,
            colon <= n,
            first_colon(t@, 0) == first_colon(t@, colon as int),
        decreases n - colon,
    {
        colon += 1;
    }
    let (named, start): (bool, usize) = if colon < n {
        (colon > 0, colon + 1)
    } else {
        (false, 0)
    };
    if !all_valid(&v, start, n, true) {
        assert(v@.subrange(start as int, n as int) =~= path_of(t@));
        return None;
    }
    let path = text_of(&v, start, n);
    assert(path@ =~= path_of(t@));
    if named {
        assert(v@.subrange(0, colon as int) =~= namespace_of(t@));
        if !all_valid(&v, 0, colon, false) {
            return None;
        }
        let head = concat(text_of(&v, 0, colon).as_str(), ":");
        Some(concat(head.as_str(), path.as_str()))
    } else {
        proof {
            reveal_strlit("minecraft");
            reveal_strlit(":");
            reveal_strlit("minecraft:");
            assert("minecraft"@ + ":"@ =~= "minecraft:"@);
        }
        Some(concat("minecraft:", path.as_str()))
    }
}

/// A name without the namespace `minecraft`.
pub open spec fn bare_name(t: Seq<char>) -> Seq<char> {
    if "minecraft:"@.is_prefix_of(t) {
        t.skip("minecraft:"@.len() as int)
    } else {
        t
    }
}

/// A name without the namespace `minecraft`.
pub fn strip_namespace(t: &str) -> (r: String)
    ensures
        r@ == bare_name(t@),
{
    match strip_prefix(t, "minecraft:") {
        Some(rest) => rest,
        None => t.to_owned(),
    }
}

/// What follows a prefix.
pub fn strip_prefix(t: &str, prefix: &str) -> (r: Option<String>)
    ensures
        match r {
            Some(rest) => prefix@.is_prefix_of(t@) && rest@ == t@.skip(prefix@.len() as int),
            None => !prefix@.is_prefix_of(t@),
        },
{
    let v = chars_of(t);
    let p = chars_of(prefix);
    if v.len() < p.len() {
        return None;
    }
    let mut i: usize = 0;
    while i < p.len()
        invariant
            i <= p.len() <= v.len(),
            v@ == t@,
            p@ == prefix@,
            forall|j: int| 0 <= j < i ==> v@[j] == p@[j],
        decreases p.len() - i,
    {
        if v[i] != p[i] {
            assert(prefix@[i as int] != t@.take(prefix@.len() as int)[i as int]);
            return None;
        }
        i += 1;
    }
    assert(prefix@ =~= t@.take(p.len() as int));
    let r = text_of(&v, p.len(), v.len());
    assert(t@.subrange(p.len() as int, v.len() as int) =~= t@.skip(p.len() as int));
    Some(r)
}

pub(crate) proof fn lemma_first_colon(t: Seq<char>, i: int, n: int)
    requires
        0 <= i <= n < t.len(),
        t[n] == ':',
        forall|j: int| i <= j < n ==> #[trigger] t[j] != ':',
    ensures
        first_colon(t, i) == Some(n),
    decreases n - i,
{
    if i < n {
        assert(t[i] != ':');
        lemma_first_colon(t, i + 1, n);
    }
}

pub(crate) proof fn lemma_colon_place(t: Seq<char>, i: int)
    requires
        0 <= i,
    ensures
        first_colon(t, i) matches Some(n) ==> i <= n < t.len() && t[n] == ':',
    decreases t.len() - i,
{
    if i < t.len() && t[i] != ':' {
        lemma_colon_place(t, i + 1);
    }
}

/// An identifier that is written out spells itself.
pub proof fn lemma_identifier_spells_itself(t: Seq<char>)
    ensures
        identifier_of(t) matches Some(id) ==> identifier_of(id) == Some(id),
{
    if identifier_of(t) is Some {
        let n = namespace_of(t);
        let p = path_of(t);
        let id = n + ":"@ + p;
        reveal_strlit("minecraft");
        reveal_strlit(":");
        lemma_colon_place(t, 0);
        assert(n.len() > 0);
        assert(id[n.len() as int] == ':');
        assert forall|j: int| 0 <= j < n.len() implies #[trigger] id[j] != ':' by {
            assert(id[j] == n[j]);
            assert(namespace_char(n[j]));
        }
        lemma_first_colon(id, 0, n.len() as int);
        assert(id.take(n.len() as int) =~= n);
        assert(id.skip(n.len() as int + 1) =~= p);
    }
}

} // verus!
