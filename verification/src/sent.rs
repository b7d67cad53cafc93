//! What is on the wire: which bytes stand for which values.
use vstd::prelude::*;
use crate::bytes::{be_bytes, be_signed, lemma_pow256, lemma_regroup, pow256, to_signed, to_unsigned};
use crate::format::{both, fixed, list, opt, optional, pair, plain, put, read_items, read_val, write_items, write_val, Check, CountRule, Ctx, Format, Limit, Val};
use crate::leaf_return::{lemma_leaf_returns, lemma_small_count};
use crate::wire::{done, flag, groups, lemma_read_bool, lemma_read_var_int, text, text_fits, var_int, MAX_TEXT_BYTES};
use crate::wire_return::{count_keeps, lemma_count};

verus! {

/// Whether a value is sent as these bytes: writing it appends them, and reading them gives it back.
pub open spec fn sent(f: Format, c: Ctx, v: Val, b: Seq<u8>) -> bool {
    &&& forall|out: Seq<u8>| #[trigger] write_val(f, c, out, v) == put(out, b)
    &&& forall|r: Seq<u8>| #[trigger] read_val(f, c, b + r) == done(v, r)
}

/// Pieces from the `i`th on, one behind the other.
pub open spec fn in_turn(n: nat, piece: spec_fn(int) -> Seq<u8>, i: nat) -> Seq<u8>
    decreases n - i,
{
    if i >= n {
        Seq::empty()
    } else {
        piece(i as int) + in_turn(n, piece, i + 1)
    }
}

/// A count, and that many pieces.
pub open spec fn counted(n: nat, piece: spec_fn(int) -> Seq<u8>) -> Seq<u8> {
    var_int(n as int) + in_turn(n, piece, 0)
}

/// What may be absent: a flag, and the piece where it is set.
pub open spec fn maybe(there: bool, piece: Seq<u8>) -> Seq<u8> {
    if there {
        seq![1u8] + piece
    } else {
        seq![0u8]
    }
}

pub proof fn lemma_sent_pair(f: Format, g: Format, c: Ctx, x: Val, y: Val, a: Seq<u8>, b: Seq<u8>)
    requires
        sent(f, c, x, a),
        sent(g, c, y, b),
    ensures
        sent(both(f, g), c, pair(x, y), a + b),
{
    reveal(read_val);
    reveal(write_val);
    assert forall|out: Seq<u8>| #[trigger] write_val(both(f, g), c, out, pair(x, y)) == put(out, a + b) by {
        assert(write_val(f, c, out, x) == put(out, a));
        assert(write_val(g, c, out + a, y) == put(out + a, b));
        lemma_regroup(out, a, b);
    }
    assert forall|r: Seq<u8>| #[trigger] read_val(both(f, g), c, (a + b) + r) == done(pair(x, y), r) by {
        lemma_regroup(a, b, r);
        assert(read_val(f, c, a + (b + r)) == done(x, b + r));
        assert(read_val(g, c, b + r) == done(y, r));
    }
}

pub proof fn lemma_sent_absent(f: Format, c: Ctx)
    ensures
        sent(opt(f), c, Val::Absent, seq![0u8]),
{
    reveal(read_val);
    reveal(write_val);
    assert forall|r: Seq<u8>| #[trigger] read_val(opt(f), c, seq![0u8] + r) == done(Val::Absent, r) by {
        assert(flag(false) == seq![0u8]);
        lemma_read_bool(false, r);
    }
}

pub proof fn lemma_sent_present(f: Format, c: Ctx, v: Val, b: Seq<u8>)
    requires
        sent(f, c, v, b),
    ensures
        sent(opt(f), c, optional(Some(v)), seq![1u8] + b),
{
    reveal(read_val);
    reveal(write_val);
    let x = optional(Some(v));
    assert(flag(true) == seq![1u8]);
    assert forall|out: Seq<u8>| #[trigger] write_val(opt(f), c, out, x) == put(out, seq![1u8] + b) by {
        assert(write_val(f, c, out + flag(true), v) == put(out + flag(true), b));
        lemma_regroup(out, seq![1u8], b);
    }
    assert forall|r: Seq<u8>| #[trigger] read_val(opt(f), c, (seq![1u8] + b) + r) == done(x, r) by {
        lemma_regroup(seq![1u8], b, r);
        lemma_read_bool(true, b + r);
        assert(read_val(f, c, b + r) == done(v, r));
    }
}

pub proof fn lemma_sent_fixed(f: Format, c: Ctx, w: Val, v: Val, b: Seq<u8>)
    requires
        sent(f, c, w, b),
    ensures
        sent(fixed(f, w, v), c, v, b),
{
    reveal(read_val);
    reveal(write_val);
    assert forall|out: Seq<u8>| #[trigger] write_val(fixed(f, w, v), c, out, v) == put(out, b) by {
        assert(write_val(f, c, out, w) == put(out, b));
    }
    assert forall|r: Seq<u8>| #[trigger] read_val(fixed(f, w, v), c, b + r) == done(v, r) by {
        assert(read_val(f, c, b + r) == done(w, r));
    }
}

pub proof fn lemma_sent_unit(c: Ctx)
    ensures
        sent(Format::Unit, c, Val::Unit, Seq::empty()),
{
    reveal(read_val);
    reveal(write_val);
    assert forall|out: Seq<u8>| #[trigger] write_val(Format::Unit, c, out, Val::Unit) == put(out, Seq::empty()) by {
        assert(out + Seq::<u8>::empty() =~= out);
    }
    assert forall|r: Seq<u8>| #[trigger] read_val(Format::Unit, c, Seq::<u8>::empty() + r) == done(Val::Unit, r) by {
        assert(Seq::<u8>::empty() + r =~= r);
    }
}

/// A value of a format that holds no other is sent as what it is written as.
pub proof fn lemma_sent_leaf(f: Format, c: Ctx, v: Val, b: Seq<u8>)
    requires
        !(f is Pair || f is Opt || f is List || f is Distinct || f is Choice || f is Fixed || f is Slots || f is Template || f is Predicates),
        crate::leaf_return::leaf_keeps(f, c.regs, v),
        crate::format::write_leaf(f, c.regs, Seq::empty(), v).out == b,
    ensures
        sent(f, c, v, b),
{
    reveal(read_val);
    reveal(write_val);
    assert forall|out: Seq<u8>| #[trigger] write_val(f, c, out, v) == put(out, b) by {
        lemma_leaf_returns(f, c.regs, out, v, Seq::empty());
    }
    assert forall|r: Seq<u8>| #[trigger] read_val(f, c, b + r) == done(v, r) by {
        lemma_leaf_returns(f, c.regs, Seq::empty(), v, r);
    }
}

pub proof fn lemma_sent_bool(c: Ctx, v: bool)
    ensures
        sent(Format::Bool, c, Val::Bool(v), seq![if v { 1u8 } else { 0u8 }]),
{
    assert(Seq::<u8>::empty() + flag(v) =~= seq![if v { 1u8 } else { 0u8 }]);
    lemma_sent_leaf(Format::Bool, c, Val::Bool(v), seq![if v { 1u8 } else { 0u8 }]);
}

pub proof fn lemma_sent_var_int(c: Ctx, v: i32)
    ensures
        sent(Format::VarInt, c, Val::Int(v as int), var_int(v as int)),
{
    assert(Seq::<u8>::empty() + var_int(v as int) =~= var_int(v as int));
    lemma_sent_leaf(Format::VarInt, c, Val::Int(v as int), var_int(v as int));
}

pub proof fn lemma_sent_var_u32(c: Ctx, v: u32)
    ensures
        sent(Format::VarU32, c, Val::Int(v as int), groups(v as nat)),
{
    lemma_pow256();
    assert(to_unsigned(to_signed(v as nat, 4), 4) == v);
    assert(Seq::<u8>::empty() + groups(v as nat) =~= groups(v as nat));
    lemma_sent_leaf(Format::VarU32, c, Val::Int(v as int), groups(v as nat));
}

pub proof fn lemma_sent_i32(c: Ctx, v: i32)
    ensures
        sent(Format::Signed(4), c, Val::Int(v as int), be_signed(v as int, 4)),
{
    lemma_pow256();
    assert(Seq::<u8>::empty() + be_signed(v as int, 4) =~= be_signed(v as int, 4));
    lemma_sent_leaf(Format::Signed(4), c, Val::Int(v as int), be_signed(v as int, 4));
}

pub proof fn lemma_sent_float(c: Ctx, v: nat, n: nat)
    requires
        v < pow256(n),
    ensures
        sent(Format::Float(n), c, Val::Float(n, v), be_bytes(v, n)),
{
    assert(Seq::<u8>::empty() + be_bytes(v, n) =~= be_bytes(v, n));
    lemma_sent_leaf(Format::Float(n), c, Val::Float(n, v), be_bytes(v, n));
}

pub proof fn lemma_sent_f32(c: Ctx, v: u32)
    ensures
        sent(Format::Float(4), c, Val::Float(4, v as nat), be_bytes(v as nat, 4)),
{
    lemma_pow256();
    lemma_sent_float(c, v as nat, 4);
}

pub proof fn lemma_sent_f64(c: Ctx, v: u64)
    ensures
        sent(Format::Float(8), c, Val::Float(8, v as nat), be_bytes(v as nat, 8)),
{
    lemma_pow256();
    lemma_sent_float(c, v as nat, 8);
}

pub proof fn lemma_sent_text(c: Ctx, t: Seq<char>)
    requires
        text_fits(t, MAX_TEXT_BYTES as nat),
    ensures
        sent(plain(), c, Val::Text(t), text(t)),
{
    assert(Seq::<u8>::empty() + text(t) =~= text(t));
    lemma_sent_leaf(plain(), c, Val::Text(t), text(t));
}

pub proof fn lemma_sent_number(c: Ctx, check: Check, v: Val, i: int)
    requires
        crate::leaf_return::check_keeps(check, c.regs, v),
        crate::format::check_write(check, c.regs, v) == Ok::<int, crate::errors::WriteFault>(i),
    ensures
        sent(Format::Checked(check), c, v, var_int(i)),
{
    assert(Seq::<u8>::empty() + var_int(i) =~= var_int(i));
    lemma_sent_leaf(Format::Checked(check), c, v, var_int(i));
}

proof fn lemma_items_sent(f: Format, c: Ctx, l: Seq<Val>, piece: spec_fn(int) -> Seq<u8>, i: nat, out: Seq<u8>, r: Seq<u8>)
    requires
        i <= l.len(),
        forall|k: int| 0 <= k < l.len() ==> sent(f, c, #[trigger] l[k], piece(k)),
    ensures
        write_items(f, c, out, l, i as int) == put(out, in_turn(l.len(), piece, i)),
        read_items(f, (l.len() - i) as nat, c, in_turn(l.len(), piece, i) + r, l.take(i as int)) == done(Val::List(l), r),
    decreases l.len() - i,
{
    reveal(read_val);
    reveal(write_val);
    if i < l.len() {
        let b = piece(i as int);
        let tail = in_turn(l.len(), piece, i + 1);
        assert(sent(f, c, l[i as int], b));
        assert(write_val(f, c, out, l[i as int]) == put(out, b));
        assert(read_val(f, c, b + (tail + r)) == done(l[i as int], tail + r));
        lemma_items_sent(f, c, l, piece, i + 1, out + b, r);
        lemma_regroup(out, b, tail);
        lemma_regroup(b, tail, r);
        assert(l.take(i as int).push(l[i as int]) =~= l.take(i as int + 1));
    } else {
        assert(l.take(i as int) =~= l);
        assert(out + Seq::<u8>::empty() =~= out);
        assert(Seq::<u8>::empty() + r =~= r);
    }
}

pub proof fn lemma_sent_list(rule: CountRule, limit: Limit, f: Format, c: Ctx, l: Seq<Val>, piece: spec_fn(int) -> Seq<u8>)
    requires
        count_keeps(rule, limit, l.len()),
        forall|k: int| 0 <= k < l.len() ==> sent(f, c, #[trigger] l[k], piece(k)),
    ensures
        sent(list(rule, limit, f), c, Val::List(l), counted(l.len(), piece)),
{
    reveal(read_val);
    reveal(write_val);
    let b = counted(l.len(), piece);
    let n = var_int(l.len() as int);
    let items = in_turn(l.len(), piece, 0);
    lemma_small_count(l.len());
    assert(l.take(0) =~= Seq::<Val>::empty());
    assert forall|out: Seq<u8>| #[trigger] write_val(list(rule, limit, f), c, out, Val::List(l)) == put(out, b) by {
        lemma_items_sent(f, c, l, piece, 0, out + n, out);
        lemma_regroup(out, n, items);
    }
    assert forall|r: Seq<u8>| #[trigger] read_val(list(rule, limit, f), c, b + r) == done(Val::List(l), r) by {
        lemma_items_sent(f, c, l, piece, 0, r, r);
        lemma_regroup(n, items, r);
        lemma_count(rule, limit, l.len(), items + r);
    }
}

pub proof fn lemma_sent_choice(alts: Seq<Format>, other: crate::format::Blame, c: Ctx, i: int, v: Val, b: Seq<u8>)
    requires
        0 <= i < alts.len(),
        i <= i32::MAX,
        sent(alts[i], c, v, b),
    ensures
        sent(Format::Choice(alts, other), c, pair(Val::Int(i), v), var_int(i) + b),
{
    reveal(read_val);
    reveal(write_val);
    let f = Format::Choice(alts, other);
    let x = pair(Val::Int(i), v);
    let n = var_int(i);
    assert forall|out: Seq<u8>| #[trigger] write_val(f, c, out, x) == put(out, n + b) by {
        assert(write_val(alts[i], c, out + n, v) == put(out + n, b));
        lemma_regroup(out, n, b);
    }
    assert forall|r: Seq<u8>| #[trigger] read_val(f, c, (n + b) + r) == done(x, r) by {
        lemma_regroup(n, b, r);
        lemma_read_var_int(i, b + r);
        assert(read_val(alts[i], c, b + r) == done(v, r));
    }
}

} // verus!
