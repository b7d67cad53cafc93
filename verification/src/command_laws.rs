//! What is read from an item argument stands in it.
use vstd::prelude::*;
use crate::command::{at, bytes_before, component_char, given, item_char, parse_components, parse_item, parse_next, parsed, run_end, skip_space, white_space, with_namespace, CommandErrorType, GivenValue, ItemOutcome, ItemParse};
use crate::data_component::{component_name, component_of_name, DataComponent};
use crate::format::{ComponentVal, PatchVal};
use crate::identifier::bare_name;
use crate::item_stack::Item;
use crate::persist::data_from_tag;
use crate::registry::{find_key, Registries};
use crate::same::last_place;
use crate::stack::lemma_last_place;

verus! {

/// Whether the white space from the `i`th character on ends before the `j`th.
pub open spec fn only_space(t: Seq<char>, i: int, j: int) -> bool {
    &&& 0 <= i <= j <= t.len()
    &&& forall|k: int| i <= k < j ==> white_space(#[trigger] t[k])
    &&& (j == t.len() || !white_space(t[j]))
}

/// Whether the name of a component stands from the `i`th up to the `j`th character.
pub open spec fn names(t: Seq<char>, i: int, j: int, k: DataComponent) -> bool {
    &&& 0 <= i <= j <= t.len()
    &&& forall|m: int| i <= m < j ==> component_char(#[trigger] t[m])
    &&& (j == t.len() || !component_char(t[j]))
    &&& component_of_name(t.subrange(i, j)) == Some(k)
}

/// Whether an entry stands from the `i`th up to the `j`th character: an exclamation mark and the name of
/// the component that is removed, or the name of a component, an equals sign and its value.
pub open spec fn entry_at(
    regs: Registries,
    t: Seq<char>,
    values: Seq<GivenValue>,
    i: int,
    j: int,
    e: (DataComponent, Option<ComponentVal>),
) -> bool {
    match e.1 {
        None => at(t, i, '!') && exists|b: int| #[trigger] names(t, i + 1, b, e.0) && only_space(t, b, j),
        Some(v) => !at(t, i, '!') && !at(t, i, ']') && exists|b: int, c: int, d: int|
            #![trigger names(t, i, b, e.0), only_space(t, b, c), only_space(t, c + 1, d)]
            {
                &&& names(t, i, b, e.0)
                &&& only_space(t, b, c)
                &&& at(t, c, '=')
                &&& only_space(t, c + 1, d)
                &&& given(values, d, 0) matches Some(g) && g.end == j && (g.tag matches Some(tag) && v.kind == e.0 && data_from_tag(
                    e.0,
                    regs,
                    tag@,
                ) == Some(v.val))
            },
    }
}

/// Whether the entries of `q` stand one behind the other from the `i`th character on, with commas
/// between them and a closing bracket behind them, before the `end`th.
pub open spec fn listed(regs: Registries, t: Seq<char>, values: Seq<GivenValue>, i: int, q: PatchVal, end: int) -> bool
    decreases q.len(), 0nat,
{
    if q.len() == 0 {
        exists|a: int| #[trigger] only_space(t, i, a) && at(t, a, ']') && end == a + 1
    } else {
        exists|a: int, b: int|
            #![trigger only_space(t, i, a), entry_at(regs, t, values, a, b, q[0])]
            only_space(t, i, a) && entry_at(regs, t, values, a, b, q[0]) && after_entry(regs, t, values, b, q.skip(1), end)
    }
}

/// Whether behind an entry comes a comma and the entries of `q`, or a closing bracket and none.
pub open spec fn after_entry(regs: Registries, t: Seq<char>, values: Seq<GivenValue>, i: int, q: PatchVal, end: int) -> bool
    decreases q.len(), 1nat,
{
    exists|d: int|
        #[trigger] only_space(t, i, d) && ((at(t, d, ',') && listed(regs, t, values, d + 1, q, end)) || (q.len() == 0 && at(t, d, ']') && end == d
            + 1))
}

proof fn lemma_run(t: Seq<char>, i: int, f: spec_fn(char) -> bool)
    requires
        0 <= i <= t.len(),
    ensures
        i <= run_end(t, i, f) <= t.len(),
        forall|k: int| i <= k < run_end(t, i, f) ==> f(#[trigger] t[k]),
        run_end(t, i, f) == t.len() || !f(t[run_end(t, i, f)]),
    decreases t.len() - i,
{
    if i < t.len() && f(t[i]) {
        lemma_run(t, i + 1, f);
    }
}

proof fn lemma_run_is(t: Seq<char>, i: int, j: int, f: spec_fn(char) -> bool)
    requires
        0 <= i <= j <= t.len(),
        forall|k: int| i <= k < j ==> f(#[trigger] t[k]),
        j == t.len() || !f(t[j]),
    ensures
        run_end(t, i, f) == j,
    decreases j - i,
{
    if i < j {
        lemma_run_is(t, i + 1, j, f);
    }
}

proof fn lemma_space(t: Seq<char>, i: int)
    requires
        0 <= i <= t.len(),
    ensures
        only_space(t, i, skip_space(t, i)),
        forall|j: int| #[trigger] only_space(t, i, j) ==> j == skip_space(t, i),
{
    lemma_run(t, i, |c: char| white_space(c));
    assert forall|j: int| #[trigger] only_space(t, i, j) implies j == skip_space(t, i) by {
        lemma_run_is(t, i, j, |c: char| white_space(c));
    }
}

proof fn lemma_name(t: Seq<char>, i: int, k: DataComponent)
    requires
        0 <= i <= t.len(),
    ensures
        component_of_name(t.subrange(i, run_end(t, i, |c: char| component_char(c)))) == Some(k) ==> names(
            t,
            i,
            run_end(t, i, |c: char| component_char(c)),
            k,
        ),
        forall|j: int| #[trigger] names(t, i, j, k) ==> j == run_end(t, i, |c: char| component_char(c)),
{
    lemma_run(t, i, |c: char| component_char(c));
    assert forall|j: int| #[trigger] names(t, i, j, k) implies j == run_end(t, i, |c: char| component_char(c)) by {
        lemma_run_is(t, i, j, |c: char| component_char(c));
    }
}

/// Whether no component of `q` is in `p` or comes twice.
pub open spec fn fresh(p: PatchVal, q: PatchVal) -> bool {
    &&& forall|i: int, j: int| 0 <= i < p.len() && 0 <= j < q.len() ==> (#[trigger] p[i]).0 != (#[trigger] q[j]).0
    &&& forall|i: int, j: int| 0 <= i < j < q.len() ==> (#[trigger] q[i]).0 != (#[trigger] q[j]).0
}

/// What was read behind `patch` when the patch `q` came out.
spec fn read_behind(regs: Registries, t: Seq<char>, values: Seq<GivenValue>, i: int, patch: PatchVal, q: PatchVal, end: int, first: bool) -> bool {
    &&& patch.len() <= q.len()
    &&& q.take(patch.len() as int) == patch
    &&& fresh(patch, q.skip(patch.len() as int))
    &&& if first {
        listed(regs, t, values, i, q.skip(patch.len() as int), end)
    } else {
        after_entry(regs, t, values, i, q.skip(patch.len() as int), end)
    }
}

proof fn lemma_one_more(regs: Registries, t: Seq<char>, values: Seq<GivenValue>, i: int, a: int, b: int, patch: PatchVal, e: (DataComponent, Option<ComponentVal>), q: PatchVal, end: int)
    requires
        only_space(t, i, a),
        entry_at(regs, t, values, a, b, e),
        last_place(patch, e.0, patch.len()) is None,
        read_behind(regs, t, values, b, patch.push(e), q, end, false),
    ensures
        read_behind(regs, t, values, i, patch, q, end, true),
{
    let n = patch.len() as int;
    let rest = q.skip(n);
    lemma_last_place(patch, e.0, patch.len());
    assert(q.take(n + 1) == patch.push(e));
    assert(q.take(n) =~= patch) by {
        assert forall|k: int| 0 <= k < n implies q[k] == patch[k] by {
            assert(q.take(n + 1)[k] == patch.push(e)[k]);
        }
    }
    assert(rest[0] == e) by {
        assert(q.take(n + 1)[n] == patch.push(e)[n]);
    }
    assert(rest.skip(1) =~= q.skip(n + 1));
    let tail = q.skip(n + 1);
    assert forall|x: int, y: int| 0 <= x < patch.len() && 0 <= y < rest.len() implies (#[trigger] patch[x]).0 != (#[trigger] rest[y]).0 by {
        if y > 0 {
            assert(rest[y] == tail[y - 1]);
            assert(patch.push(e)[x] == patch[x]);
        }
    }
    assert forall|x: int, y: int| 0 <= x < y < rest.len() implies (#[trigger] rest[x]).0 != (#[trigger] rest[y]).0 by {
        assert(rest[y] == tail[y - 1]);
        if x > 0 {
            assert(rest[x] == tail[x - 1]);
        } else {
            assert(patch.push(e)[n] == e);
        }
    }
}

proof fn lemma_read_next(regs: Registries, t: Seq<char>, values: Seq<GivenValue>, item: Item, i: int, patch: PatchVal)
    requires
        0 <= i <= t.len(),
    ensures
        ({
            let o = parse_next(regs, t, values, item, i, patch);
            o.result matches Ok(ItemOutcome::Stack { item: x, patch: q }) ==> x == item && read_behind(
                regs,
                t,
                values,
                i,
                patch,
                q,
                o.cursor,
                false,
            )
        }),
    decreases t.len() - i, 0nat,
{
    let d = skip_space(t, i);
    lemma_space(t, i);
    if at(t, d, ',') {
        lemma_read_components(regs, t, values, item, d + 1, patch);
        assert(only_space(t, i, d));
    } else if at(t, d, ']') {
        assert(patch.take(patch.len() as int) =~= patch);
        assert(patch.skip(patch.len() as int) =~= Seq::empty());
        assert(only_space(t, i, d));
    }
}

proof fn lemma_read_components(regs: Registries, t: Seq<char>, values: Seq<GivenValue>, item: Item, i: int, patch: PatchVal)
    requires
        0 <= i <= t.len(),
    ensures
        ({
            let o = parse_components(regs, t, values, item, i, patch);
            o.result matches Ok(ItemOutcome::Stack { item: x, patch: q }) ==> x == item && read_behind(
                regs,
                t,
                values,
                i,
                patch,
                q,
                o.cursor,
                true,
            )
        }),
    decreases t.len() - i, 1nat,
{
    let a = skip_space(t, i);
    lemma_space(t, i);
    let o = parse_components(regs, t, values, item, i, patch);
    if at(t, a, ']') {
        assert(patch.take(patch.len() as int) =~= patch);
        assert(patch.skip(patch.len() as int) =~= Seq::empty());
    } else if a < t.len() {
        let removed = at(t, a, '!');
        let start = if removed {
            a + 1
        } else {
            a
        };
        let end = run_end(t, start, |c: char| component_char(c));
        lemma_run(t, start, |c: char| component_char(c));
        match component_of_name(t.subrange(start, end)) {
            Some(k) => {
                lemma_name(t, start, k);
                lemma_space(t, end);
                let b = skip_space(t, end);
                if last_place(patch, k, patch.len()) is None {
                    if removed {
                        if !at(t, b, '=') {
                            lemma_read_next(regs, t, values, item, b, patch.push((k, None)));
                            match o.result {
                                Ok(ItemOutcome::Stack { item: _, patch: q }) => {
                                    assert(names(t, a + 1, end, k) && only_space(t, end, b));
                                    assert(entry_at(regs, t, values, a, b, (k, None)));
                                    lemma_one_more(regs, t, values, i, a, b, patch, (k, None), q, o.cursor);
                                },
                                _ => {},
                            }
                        }
                    } else if at(t, b, '=') {
                        lemma_space(t, b + 1);
                        let v = skip_space(t, b + 1);
                        match given(values, v, 0) {
                            Some(g) => match g.tag {
                                Some(tag) => match data_from_tag(k, regs, tag@) {
                                    Some(val) => {
                                        if i < g.end <= t.len() {
                                            let e = (k, Some(ComponentVal { kind: k, val }));
                                            lemma_read_next(regs, t, values, item, g.end as int, patch.push(e));
                                            match o.result {
                                                Ok(ItemOutcome::Stack { item: _, patch: q }) => {
                                                    assert(names(t, a, end, k) && only_space(t, end, b) && only_space(t, b + 1, v));
                                                    assert(entry_at(regs, t, values, a, g.end as int, e));
                                                    lemma_one_more(regs, t, values, i, a, g.end as int, patch, e, q, o.cursor);
                                                },
                                                _ => {},
                                            }
                                        }
                                    },
                                    None => {},
                                },
                                None => {},
                            },
                            None => {},
                        }
                    }
                }
            },
            None => {},
        }
    }
}

/// A stack that an item argument gives is of the item that it names, and its patch has one entry for
/// each component between the brackets, in their order, as it stands there; without brackets it has
/// none.
pub proof fn lemma_parsed_stack_stands_in_the_text(regs: Registries, t: Seq<char>, values: Seq<GivenValue>, i: int, n: int)
    requires
        0 <= i <= n <= t.len(),
        forall|k: int| i <= k < n ==> item_char(#[trigger] t[k]),
        n == t.len() || !item_char(t[n]),
    ensures
        ({
            let o = parse_item(regs, t, values, i);
            o.result matches Ok(ItemOutcome::Stack { item, patch }) ==> {
                &&& find_key(regs, bare_name(t.subrange(i, n))) == Some(item)
                &&& fresh(Seq::empty(), patch)
                &&& if at(t, n, '[') {
                    listed(regs, t, values, n + 1, patch, o.cursor)
                } else {
                    patch.len() == 0 && o.cursor == n
                }
            }
        }),
{
    lemma_run_is(t, i, n, |c: char| item_char(c));
    let o = parse_item(regs, t, values, i);
    match find_key(regs, bare_name(t.subrange(i, n))) {
        Some(item) => {
            if at(t, n, '[') {
                lemma_read_components(regs, t, values, item, n + 1, Seq::empty());
                match o.result {
                    Ok(ItemOutcome::Stack { item: _, patch }) => {
                        assert(patch.skip(0) =~= patch);
                    },
                    _ => {},
                }
            }
        },
        None => {},
    }
}

proof fn lemma_given(values: Seq<GivenValue>, v: int, k: int)
    ensures
        given(values, v, k) matches Some(g) ==> g.start == v && values.contains(g),
    decreases values.len() - k,
{
    if 0 <= k < values.len() && values[k].start != v {
        lemma_given(values, v, k + 1);
    }
}

proof fn lemma_accepts_next(regs: Registries, t: Seq<char>, values: Seq<GivenValue>, item: Item, i: int, patch: PatchVal, q: PatchVal, end: int)
    requires
        0 <= i <= t.len(),
        fresh(patch, q),
        forall|k: int| 0 <= k < values.len() ==> (#[trigger] values[k]).start < values[k].end,
        after_entry(regs, t, values, i, q, end),
    ensures
        parse_next(regs, t, values, item, i, patch) == parsed(item, patch + q, end),
    decreases q.len(), 1nat,
{
    let d = choose|d: int|
        #[trigger] only_space(t, i, d) && ((at(t, d, ',') && listed(regs, t, values, d + 1, q, end)) || (q.len() == 0 && at(t, d, ']') && end == d
            + 1));
    lemma_space(t, i);
    assert(d == skip_space(t, i));
    if at(t, d, ',') {
        lemma_accepts(regs, t, values, item, d + 1, patch, q, end);
    } else {
        assert(patch + q =~= patch);
    }
}

proof fn lemma_accepts(regs: Registries, t: Seq<char>, values: Seq<GivenValue>, item: Item, i: int, patch: PatchVal, q: PatchVal, end: int)
    requires
        0 <= i <= t.len(),
        fresh(patch, q),
        forall|k: int| 0 <= k < values.len() ==> (#[trigger] values[k]).start < values[k].end,
        listed(regs, t, values, i, q, end),
    ensures
        parse_components(regs, t, values, item, i, patch) == parsed(item, patch + q, end),
    decreases q.len(), 0nat,
{
    lemma_space(t, i);
    let a = skip_space(t, i);
    if q.len() == 0 {
        let x = choose|x: int| #[trigger] only_space(t, i, x) && at(t, x, ']') && end == x + 1;
        assert(x == a);
        assert(patch + q =~= patch);
    } else {
        let (x, b) = choose|x: int, b: int|
            #![trigger only_space(t, i, x), entry_at(regs, t, values, x, b, q[0])]
            only_space(t, i, x) && entry_at(regs, t, values, x, b, q[0]) && after_entry(regs, t, values, b, q.skip(1), end);
        assert(x == a);
        let k = q[0].0;
        lemma_last_place(patch, k, patch.len());
        let tail = q.skip(1);
        let p = patch.push(q[0]);
        assert(fresh(p, tail)) by {
            assert forall|m: int, n: int| 0 <= m < p.len() && 0 <= n < tail.len() implies (#[trigger] p[m]).0 != (#[trigger] tail[n]).0 by {
                assert(tail[n] == q[n + 1]);
                if m < patch.len() {
                    assert(p[m] == patch[m]);
                }
            }
            assert forall|m: int, n: int| 0 <= m < n < tail.len() implies (#[trigger] tail[m]).0 != (#[trigger] tail[n]).0 by {
                assert(tail[m] == q[m + 1] && tail[n] == q[n + 1]);
            }
        }
        assert(p + tail =~= patch + q);
        match q[0].1 {
            None => {
                let c = choose|c: int| #[trigger] names(t, a + 1, c, k) && only_space(t, c, b);
                lemma_name(t, a + 1, k);
                lemma_space(t, c);
                lemma_space(t, b);
                assert(only_space(t, b, b));
                lemma_accepts_next(regs, t, values, item, b, p, tail, end);
            },
            Some(v) => {
                let (n, c, d) = choose|n: int, c: int, d: int|
                    #![trigger names(t, a, n, k), only_space(t, n, c), only_space(t, c + 1, d)]
                    {
                        &&& names(t, a, n, k)
                        &&& only_space(t, n, c)
                        &&& at(t, c, '=')
                        &&& only_space(t, c + 1, d)
                        &&& given(values, d, 0) matches Some(g) && g.end == b && (g.tag matches Some(tag) && v.kind == k && data_from_tag(
                            k,
                            regs,
                            tag@,
                        ) == Some(v.val))
                    };
                lemma_name(t, a, k);
                lemma_space(t, n);
                lemma_space(t, c + 1);
                lemma_given(values, d, 0);
                lemma_accepts_next(regs, t, values, item, b, p, tail, end);
            },
        }
    }
}

/// A list of components in brackets, none of them twice, is read as it stands.
pub proof fn lemma_listed_components_are_read(regs: Registries, t: Seq<char>, values: Seq<GivenValue>, item: Item, i: int, q: PatchVal, end: int)
    requires
        0 <= i <= t.len(),
        fresh(Seq::empty(), q),
        forall|k: int| 0 <= k < values.len() ==> (#[trigger] values[k]).start < values[k].end,
        listed(regs, t, values, i, q, end),
    ensures
        parse_components(regs, t, values, item, i, Seq::empty()) == parsed(item, q, end),
{
    lemma_accepts(regs, t, values, item, i, Seq::empty(), q, end);
    assert(PatchVal::empty() + q =~= q);
}

/// Whether a parse failed with an error of a kind that names a text, told at a place.
pub open spec fn failed_at(o: ItemParse, t: Seq<char>, kind: CommandErrorType, place: int, argument: Seq<char>) -> bool {
    o.cursor == place && (o.result matches Err(e) && e.error_type == kind && e.cursor == Some(bytes_before(t, place)) && e.argument == argument)
}

/// A text without the name of an item is refused behind it, with that name.
pub proof fn lemma_unknown_item(regs: Registries, t: Seq<char>, values: Seq<GivenValue>, i: int, n: int)
    requires
        0 <= i <= n <= t.len(),
        forall|k: int| i <= k < n ==> item_char(#[trigger] t[k]),
        n == t.len() || !item_char(t[n]),
        find_key(regs, bare_name(t.subrange(i, n))) is None,
    ensures
        failed_at(parse_item(regs, t, values, i), t, CommandErrorType::UnknownItem, n, with_namespace(t.subrange(i, n))),
{
    lemma_run_is(t, i, n, |c: char| item_char(c));
}

/// A component is expected where the text ends.
pub proof fn lemma_component_expected(regs: Registries, t: Seq<char>, values: Seq<GivenValue>, item: Item, i: int, patch: PatchVal)
    requires
        only_space(t, i, t.len() as int),
    ensures
        failed_at(
            parse_components(regs, t, values, item, i, patch),
            t,
            CommandErrorType::ComponentExpected,
            t.len() as int,
            Seq::empty(),
        ),
{
    lemma_space(t, i);
}

/// Where the name of a component begins: behind an exclamation mark, where there is one.
pub open spec fn name_start(t: Seq<char>, a: int) -> int {
    if at(t, a, '!') {
        a + 1
    } else {
        a
    }
}

/// A name that is not that of a component is refused before it; one that came before, without a place.
pub proof fn lemma_wrong_component(
    regs: Registries,
    t: Seq<char>,
    values: Seq<GivenValue>,
    item: Item,
    i: int,
    a: int,
    n: int,
    patch: PatchVal,
    k: DataComponent,
    j: int,
)
    requires
        only_space(t, i, a),
        a < t.len(),
        t[a] != ']',
        name_start(t, a) <= n <= t.len(),
        forall|m: int| name_start(t, a) <= m < n ==> component_char(#[trigger] t[m]),
        n == t.len() || !component_char(t[n]),
    ensures
        component_of_name(t.subrange(name_start(t, a), n)) is None ==> failed_at(
            parse_components(regs, t, values, item, i, patch),
            t,
            CommandErrorType::ComponentUnknown,
            name_start(t, a),
            with_namespace(t.subrange(name_start(t, a), n)),
        ),
        component_of_name(t.subrange(name_start(t, a), n)) == Some(k) && 0 <= j < patch.len() && patch[j].0 == k ==> (parse_components(
            regs,
            t,
            values,
            item,
            i,
            patch,
        ).result matches Err(e) && e.error_type == CommandErrorType::ComponentRepeated && e.cursor is None && e.argument == component_name(k)),
{
    lemma_space(t, i);
    lemma_run_is(t, name_start(t, a), n, |c: char| component_char(c));
    lemma_last_place(patch, k, patch.len());
}

/// Behind a component that is removed no equals sign may stand; behind any other it has to.
pub proof fn lemma_equals_sign(
    regs: Registries,
    t: Seq<char>,
    values: Seq<GivenValue>,
    item: Item,
    i: int,
    a: int,
    n: int,
    b: int,
    patch: PatchVal,
    k: DataComponent,
)
    requires
        only_space(t, i, a),
        a < t.len(),
        t[a] != ']',
        names(t, name_start(t, a), n, k),
        only_space(t, n, b),
        forall|j: int| 0 <= j < patch.len() ==> (#[trigger] patch[j]).0 != k,
    ensures
        t[a] == '!' && at(t, b, '=') ==> failed_at(
            parse_components(regs, t, values, item, i, patch),
            t,
            CommandErrorType::ExpectedSymbol,
            b,
            "]"@,
        ),
        t[a] != '!' && !at(t, b, '=') ==> failed_at(
            parse_components(regs, t, values, item, i, patch),
            t,
            CommandErrorType::ExpectedSymbol,
            b,
            "="@,
        ),
{
    lemma_space(t, i);
    lemma_name(t, name_start(t, a), k);
    lemma_space(t, n);
    lemma_last_place(patch, k, patch.len());
}

/// The value of a component is asked for where it stands, and refused where it has none or one that its tag
/// does not describe.
pub proof fn lemma_values_of_components(
    regs: Registries,
    t: Seq<char>,
    values: Seq<GivenValue>,
    item: Item,
    i: int,
    a: int,
    n: int,
    b: int,
    d: int,
    patch: PatchVal,
    k: DataComponent,
)
    requires
        only_space(t, i, a),
        a < t.len(),
        t[a] != ']' && t[a] != '!',
        names(t, a, n, k),
        only_space(t, n, b),
        at(t, b, '='),
        only_space(t, b + 1, d),
        forall|j: int| 0 <= j < patch.len() ==> (#[trigger] patch[j]).0 != k,
    ensures
        ({
            let o = parse_components(regs, t, values, item, i, patch);
            match given(values, d, 0) {
                None => o.cursor == d && (o.result matches Ok(ItemOutcome::NeedsValue(place)) && place == d),
                Some(g) => match g.tag {
                    None => failed_at(o, t, CommandErrorType::InvalidValue, g.end as int, Seq::empty()),
                    Some(tag) => data_from_tag(k, regs, tag@) is None ==> failed_at(
                        o,
                        t,
                        CommandErrorType::ComponentMalformed,
                        d,
                        component_name(k),
                    ),
                },
            }
        }),
{
    lemma_space(t, i);
    lemma_name(t, a, k);
    lemma_space(t, n);
    lemma_space(t, b + 1);
    lemma_last_place(patch, k, patch.len());
}

/// Behind an entry a comma or a closing bracket has to stand.
pub proof fn lemma_behind_an_entry(regs: Registries, t: Seq<char>, values: Seq<GivenValue>, item: Item, i: int, d: int, patch: PatchVal)
    requires
        only_space(t, i, d),
        !at(t, d, ','),
        !at(t, d, ']'),
    ensures
        failed_at(parse_next(regs, t, values, item, i, patch), t, CommandErrorType::ExpectedSymbol, d, "]"@),
{
    lemma_space(t, i);
}

} // verus!
