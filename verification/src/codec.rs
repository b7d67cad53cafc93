//! Codecs: reading and writing values in their wire formats.
use std::marker::PhantomData;
use vstd::prelude::*;
use crate::bytes::{lemma_pow256, i32_of_u32, u32_of_i32};
use crate::errors::{written, ReadFault, ReadingError, WriteFault, WritingError};
use crate::format::{check_read, check_write, check_limit, deeper, inside, optional, pair, read_count, read_items, read_val, write_items, write_val, written_count, Check, CountRule, Ctx, Format, Limit, Sink, Val};
use crate::registry::Registries;
use crate::same::{same_f32, same_f64, val_same, vals_same};
use crate::text::same_text;
use crate::wire::{count_of, done, fail, get_bool, get_i32, get_str, get_u32, get_u64, get_var_int, write_bool, write_i32, write_string, write_u32, write_u64, write_var_int, Outcome, MAX_TEXT_BYTES};

verus! {

/// How deeply stacks may be nested inside each other.
pub const MAX_ITEM_STACK_TEMPLATE_DEPTH: usize = 64;

/// How deeply components may be nested inside each other: more deeply than any input or value is, since
/// each level takes at least one byte of it.
pub const MAX_COMPONENT_NESTING: usize = usize::MAX;

/// What reading and writing depend on.
pub struct Context<'a> {
    pub regs: &'a Registries,
    pub depth: usize,
    pub budget: usize,
}

impl<'a> Context<'a> {
    pub open spec fn view(&self) -> Ctx {
        Ctx { regs: *self.regs, depth: self.depth as nat, budget: self.budget as nat }
    }

    /// The outermost level.
    pub fn new(regs: &'a Registries) -> (r: Self)
        ensures
            r@ == (Ctx {
                regs: *regs,
                depth: MAX_ITEM_STACK_TEMPLATE_DEPTH as nat,
                budget: MAX_COMPONENT_NESTING as nat,
            }),
    {
        Context { regs, depth: MAX_ITEM_STACK_TEMPLATE_DEPTH, budget: MAX_COMPONENT_NESTING }
    }

    /// One level deeper among nested components.
    pub fn deeper(&self) -> (r: Context<'a>)
        requires
            self.budget > 0,
        ensures
            r@ == deeper(self@),
            r.regs == self.regs,
            r.budget == self.budget - 1,
    {
        Context { regs: self.regs, depth: self.depth, budget: self.budget - 1 }
    }

    /// Inside a stack.
    pub fn inside(&self) -> (r: Context<'a>)
        requires
            self.budget > 0,
            self.depth > 0,
        ensures
            r@ == inside(self@),
            r.regs == self.regs,
            r.budget == self.budget - 1,
    {
        Context { regs: self.regs, depth: self.depth - 1, budget: self.budget - 1 }
    }
}

/// Whether the result and the rest of a read are those of `o`.
pub open spec fn decodes<T>(o: Outcome<Val>, r: Result<T, ReadingError>, rest: Seq<u8>, val: spec_fn(T) -> Val) -> bool {
    o.rest == rest && match r {
        Ok(v) => o.value == Ok::<Val, ReadFault>(val(v)),
        Err(e) => o.value == Err::<Val, ReadFault>(e@),
    }
}

/// Whether the result of a write and the output after it are those of `w`.
pub open spec fn encodes(w: Sink, r: Result<(), WritingError>, out: Seq<u8>) -> bool {
    w.result == written(r) && w.out == out
}

/// A way to read and write the values of a type.
pub trait DataComponentCodec {
    type Value;

    /// The format.
    spec fn format() -> Format;

    /// What a value is to the format.
    spec fn val(v: Self::Value) -> Val;

    /// Reads a value.
    fn deserialize(seq: &mut &[u8], ctx: &Context) -> (r: Result<Self::Value, ReadingError>)
        ensures
            decodes(read_val(Self::format(), ctx@, old(seq)@), r, final(seq)@, |v: Self::Value| Self::val(v)),
    ;

    /// Appends a value.
    fn serialize(value: &Self::Value, out: &mut Vec<u8>, ctx: &Context) -> (r: Result<(), WritingError>)
        ensures
            encodes(write_val(Self::format(), ctx@, old(out)@, Self::val(*value)), r, final(out)@),
    ;

    /// Whether two values are the same.
    fn equal(a: &Self::Value, b: &Self::Value) -> (r: bool)
        ensures
            r == val_same(Self::val(*a), Self::val(*b)),
    ;
}

/// A flag.
pub struct AsBool;

impl DataComponentCodec for AsBool {
    type Value = bool;

    open spec fn format() -> Format {
        Format::Bool
    }

    open spec fn val(v: bool) -> Val {
        Val::Bool(v)
    }

    fn deserialize(seq: &mut &[u8], ctx: &Context) -> (r: Result<bool, ReadingError>) {
        proof {
            reveal(read_val);
        }
        get_bool(seq)
    }

    fn serialize(value: &bool, out: &mut Vec<u8>, ctx: &Context) -> (r: Result<(), WritingError>) {
        proof {
            reveal(write_val);
        }
        write_bool(out, *value);
        Ok(())
    }

    fn equal(a: &bool, b: &bool) -> (r: bool) {
        *a == *b
    }
}

/// A variable-length number.
pub struct AsVarInt;

impl DataComponentCodec for AsVarInt {
    type Value = i32;

    open spec fn format() -> Format {
        Format::VarInt
    }

    open spec fn val(v: i32) -> Val {
        Val::Int(v as int)
    }

    fn deserialize(seq: &mut &[u8], ctx: &Context) -> (r: Result<i32, ReadingError>) {
        proof {
            reveal(read_val);
        }
        get_var_int(seq)
    }

    fn serialize(value: &i32, out: &mut Vec<u8>, ctx: &Context) -> (r: Result<(), WritingError>) {
        proof {
            reveal(write_val);
        }
        write_var_int(out, *value);
        Ok(())
    }

    fn equal(a: &i32, b: &i32) -> (r: bool) {
        *a == *b
    }
}

/// A variable-length number taken as unsigned.
pub struct AsVarU32;

impl DataComponentCodec for AsVarU32 {
    type Value = u32;

    open spec fn format() -> Format {
        Format::VarU32
    }

    open spec fn val(v: u32) -> Val {
        Val::Int(v as int)
    }

    fn deserialize(seq: &mut &[u8], ctx: &Context) -> (r: Result<u32, ReadingError>) {
        proof {
            reveal(read_val);
        }
        Ok(u32_of_i32(get_var_int(seq)?))
    }

    fn serialize(value: &u32, out: &mut Vec<u8>, ctx: &Context) -> (r: Result<(), WritingError>) {
        proof {
            reveal(write_val);
        }
        write_var_int(out, i32_of_u32(*value));
        Ok(())
    }

    fn equal(a: &u32, b: &u32) -> (r: bool) {
        *a == *b
    }
}

/// A signed number of four bytes.
pub struct AsI32;

impl DataComponentCodec for AsI32 {
    type Value = i32;

    open spec fn format() -> Format {
        Format::Signed(4)
    }

    open spec fn val(v: i32) -> Val {
        Val::Int(v as int)
    }

    fn deserialize(seq: &mut &[u8], ctx: &Context) -> (r: Result<i32, ReadingError>) {
        proof {
            reveal(read_val);
        }
        get_i32(seq)
    }

    fn serialize(value: &i32, out: &mut Vec<u8>, ctx: &Context) -> (r: Result<(), WritingError>) {
        proof {
            reveal(write_val);
        }
        write_i32(out, *value);
        Ok(())
    }

    fn equal(a: &i32, b: &i32) -> (r: bool) {
        *a == *b
    }
}

/// A 32-bit floating-point number, as its bit pattern.
pub struct AsF32;

impl DataComponentCodec for AsF32 {
    type Value = u32;

    open spec fn format() -> Format {
        Format::Float(4)
    }

    open spec fn val(v: u32) -> Val {
        Val::Float(4, v as nat)
    }

    fn deserialize(seq: &mut &[u8], ctx: &Context) -> (r: Result<u32, ReadingError>) {
        proof {
            reveal(read_val);
        }
        get_u32(seq)
    }

    fn serialize(value: &u32, out: &mut Vec<u8>, ctx: &Context) -> (r: Result<(), WritingError>) {
        proof {
            reveal(write_val);
        }
        write_u32(out, *value);
        Ok(())
    }

    fn equal(a: &u32, b: &u32) -> (r: bool) {
        same_f32(*a, *b)
    }
}

/// A 64-bit floating-point number, as its bit pattern.
pub struct AsF64;

impl DataComponentCodec for AsF64 {
    type Value = u64;

    open spec fn format() -> Format {
        Format::Float(8)
    }

    open spec fn val(v: u64) -> Val {
        Val::Float(8, v as nat)
    }

    fn deserialize(seq: &mut &[u8], ctx: &Context) -> (r: Result<u64, ReadingError>) {
        proof {
            reveal(read_val);
        }
        get_u64(seq)
    }

    fn serialize(value: &u64, out: &mut Vec<u8>, ctx: &Context) -> (r: Result<(), WritingError>) {
        proof {
            reveal(write_val);
        }
        write_u64(out, *value);
        Ok(())
    }

    fn equal(a: &u64, b: &u64) -> (r: bool) {
        same_f64(*a, *b)
    }
}

/// A text.
pub struct AsText;

impl DataComponentCodec for AsText {
    type Value = String;

    open spec fn format() -> Format {
        Format::Text(MAX_TEXT_BYTES as nat)
    }

    open spec fn val(v: String) -> Val {
        Val::Text(v@)
    }

    fn deserialize(seq: &mut &[u8], ctx: &Context) -> (r: Result<String, ReadingError>) {
        proof {
            reveal(read_val);
        }
        get_str(seq)
    }

    fn serialize(value: &String, out: &mut Vec<u8>, ctx: &Context) -> (r: Result<(), WritingError>) {
        proof {
            reveal(write_val);
        }
        write_string(out, value.as_str())
    }

    fn equal(a: &String, b: &String) -> (r: bool) {
        same_text(a.as_str(), b.as_str())
    }
}

/// A value that may be absent.
pub struct Opt<C> {
    marker: PhantomData<C>,
}

/// What an optional value is to its format.
pub open spec fn opt_val<C: DataComponentCodec>(v: Option<C::Value>) -> Val {
    match v {
        Some(v) => optional(Some(C::val(v))),
        None => Val::Absent,
    }
}

impl<C: DataComponentCodec> DataComponentCodec for Opt<C> {
    type Value = Option<C::Value>;

    open spec fn format() -> Format {
        Format::Opt(Box::new(C::format()))
    }

    open spec fn val(v: Option<C::Value>) -> Val {
        opt_val::<C>(v)
    }

    fn deserialize(seq: &mut &[u8], ctx: &Context) -> (r: Result<Option<C::Value>, ReadingError>) {
        proof {
            reveal(read_val);
        }
        if get_bool(seq)? {
            Ok(Some(C::deserialize(seq, ctx)?))
        } else {
            Ok(None)
        }
    }

    fn serialize(value: &Option<C::Value>, out: &mut Vec<u8>, ctx: &Context) -> (r: Result<(), WritingError>) {
        proof {
            reveal(write_val);
        }
        match value {
            Some(v) => {
                write_bool(out, true);
                C::serialize(v, out, ctx)
            },
            None => {
                write_bool(out, false);
                Ok(())
            },
        }
    }

    fn equal(a: &Option<C::Value>, b: &Option<C::Value>) -> (r: bool) {
        match (a, b) {
            (Some(x), Some(y)) => C::equal(x, y),
            (None, None) => true,
            _ => false,
        }
    }
}

/// How a count is checked when it is read and when it is written.
pub trait ListRule {
    spec fn rule() -> CountRule;

    spec fn limit() -> Limit;

    /// Reads a count.
    fn count(seq: &mut &[u8]) -> (r: Result<u64, ReadingError>)
        ensures
            match r {
                Ok(n) => read_count(Self::rule(), old(seq)@) == done(n as nat, final(seq)@),
                Err(e) => read_count(Self::rule(), old(seq)@) == fail::<nat>(e@, final(seq)@),
            },
    ;

    /// Whether this many values may be written.
    fn allowed(n: usize) -> (r: Result<(), WritingError>)
        ensures
            written(r) == check_limit(Self::limit(), n as nat),
    ;
}

/// The first `n` values of `v`, each as its format sees it.
pub open spec fn vals<C: DataComponentCodec>(v: Seq<C::Value>) -> Seq<Val> {
    Seq::new(v.len(), |i: int| C::val(v[i]))
}

/// The low 32 bits of a count, as a signed number.
pub fn count_as_i32(n: usize) -> (r: i32)
    ensures
        r == written_count(n as nat),
{
    proof {
        lemma_pow256();
    }
    i32_of_u32((n as u64 % 0x1_0000_0000) as u32)
}

/// Reads `n` values.
pub fn get_list<C: DataComponentCodec>(seq: &mut &[u8], n: u64, ctx: &Context) -> (r: Result<Vec<C::Value>, ReadingError>)
    ensures
        decodes(
            read_items(C::format(), n as nat, ctx@, old(seq)@, Seq::empty()),
            r,
            final(seq)@,
            |v: Vec<C::Value>| Val::List(vals::<C>(v@)),
        ),
{
    let ghost o = read_items(C::format(), n as nat, ctx@, seq@, Seq::empty());
    let mut out: Vec<C::Value> = Vec::new();
    assert(vals::<C>(out@) =~= Seq::<Val>::empty());
    let mut i: u64 = 0;
    while i < n
        invariant
            i <= n,
            o == read_items(C::format(), n as nat, ctx@, old(seq)@, Seq::empty()),
            o == read_items(C::format(), (n - i) as nat, ctx@, seq@, vals::<C>(out@)),
        decreases n - i,
    {
        proof {
            reveal(read_val);
        }
        let v = C::deserialize(seq, ctx)?;
        let ghost head = vals::<C>(out@);
        let ghost x = C::val(v);
        out.push(v);
        assert(vals::<C>(out@) =~= head.push(x));
        i += 1;
    }
    Ok(out)
}

/// Appends the values of a list.
pub fn put_list<C: DataComponentCodec>(values: &Vec<C::Value>, out: &mut Vec<u8>, ctx: &Context) -> (r: Result<(), WritingError>)
    ensures
        encodes(write_items(C::format(), ctx@, old(out)@, vals::<C>(values@), 0), r, final(out)@),
{
    let ghost all = vals::<C>(values@);
    let ghost w = write_items(C::format(), ctx@, out@, all, 0);
    let mut i: usize = 0;
    while i < values.len()
        invariant
            i <= values@.len(),
            all == vals::<C>(values@),
            w == write_items(C::format(), ctx@, old(out)@, all, 0),
            w == write_items(C::format(), ctx@, out@, all, i as int),
        decreases values.len() - i,
    {
        proof {
            reveal(write_val);
        }
        assert(all[i as int] == C::val(values@[i as int]));
        C::serialize(&values[i], out, ctx)?;
        i += 1;
    }
    Ok(())
}

/// Two lists that differ somewhere are not the same.
pub proof fn lemma_vals_differ(x: Seq<Val>, y: Seq<Val>, i: nat, n: nat)
    requires
        i < n <= x.len(),
        !val_same(x[i as int], y[i as int]),
    ensures
        !vals_same(x, y, n),
    decreases n,
{
    if i + 1 < n {
        lemma_vals_differ(x, y, i, (n - 1) as nat);
    }
}

/// Whether two lists hold the same values.
pub fn equal_lists<C: DataComponentCodec>(a: &Vec<C::Value>, b: &Vec<C::Value>) -> (r: bool)
    ensures
        r == val_same(Val::List(vals::<C>(a@)), Val::List(vals::<C>(b@))),
{
    if a.len() != b.len() {
        return false;
    }
    let ghost x = vals::<C>(a@);
    let ghost y = vals::<C>(b@);
    let mut i: usize = 0;
    while i < a.len()
        invariant
            i <= a.len(),
            a.len() == b.len(),
            x == vals::<C>(a@),
            y == vals::<C>(b@),
            vals_same(x, y, i as nat),
        decreases a.len() - i,
    {
        assert(x[i as int] == C::val(a@[i as int]) && y[i as int] == C::val(b@[i as int]));
        if !C::equal(&a[i], &b[i]) {
            proof {
                lemma_vals_differ(x, y, i as nat, x.len());
            }
            return false;
        }
        i += 1;
    }
    true
}

/// A count and that many values.
pub struct ListOf<R, C> {
    rule: PhantomData<R>,
    marker: PhantomData<C>,
}

impl<R: ListRule, C: DataComponentCodec> DataComponentCodec for ListOf<R, C> {
    type Value = Vec<C::Value>;

    open spec fn format() -> Format {
        Format::List(R::rule(), R::limit(), Box::new(C::format()))
    }

    open spec fn val(v: Vec<C::Value>) -> Val {
        Val::List(vals::<C>(v@))
    }

    fn deserialize(seq: &mut &[u8], ctx: &Context) -> (r: Result<Vec<C::Value>, ReadingError>) {
        proof {
            reveal(read_val);
        }
        let n: u64 = R::count(seq)?;
        get_list::<C>(seq, n, ctx)
    }

    fn serialize(value: &Vec<C::Value>, out: &mut Vec<u8>, ctx: &Context) -> (r: Result<(), WritingError>) {
        proof {
            reveal(write_val);
        }
        R::allowed(value.len())?;
        write_var_int(out, count_as_i32(value.len()));
        put_list::<C>(value, out, ctx)
    }

    fn equal(a: &Vec<C::Value>, b: &Vec<C::Value>) -> (r: bool) {
        equal_lists::<C>(a, b)
    }
}

/// A count that is not checked.
pub struct RawCount;

impl ListRule for RawCount {
    open spec fn rule() -> CountRule {
        CountRule::Raw
    }

    open spec fn limit() -> Limit {
        Limit::Unlimited
    }

    fn count(seq: &mut &[u8]) -> (r: Result<u64, ReadingError>) {
        Ok(count_of(get_var_int(seq)?))
    }

    fn allowed(n: usize) -> (r: Result<(), WritingError>) {
        Ok(())
    }
}

/// One value behind the other.
pub struct Both<A, B> {
    first: PhantomData<A>,
    second: PhantomData<B>,
}

impl<A: DataComponentCodec, B: DataComponentCodec> DataComponentCodec for Both<A, B> {
    type Value = (A::Value, B::Value);

    open spec fn format() -> Format {
        Format::Pair(Box::new(A::format()), Box::new(B::format()))
    }

    open spec fn val(v: (A::Value, B::Value)) -> Val {
        pair(A::val(v.0), B::val(v.1))
    }

    fn deserialize(seq: &mut &[u8], ctx: &Context) -> (r: Result<(A::Value, B::Value), ReadingError>) {
        proof {
            reveal(read_val);
        }
        let a = A::deserialize(seq, ctx)?;
        let b = B::deserialize(seq, ctx)?;
        Ok((a, b))
    }

    fn serialize(value: &(A::Value, B::Value), out: &mut Vec<u8>, ctx: &Context) -> (r: Result<(), WritingError>) {
        proof {
            reveal(write_val);
        }
        A::serialize(&value.0, out, ctx)?;
        B::serialize(&value.1, out, ctx)
    }

    fn equal(a: &(A::Value, B::Value), b: &(A::Value, B::Value)) -> (r: bool) {
        A::equal(&a.0, &b.0) && B::equal(&a.1, &b.1)
    }
}

/// Values that are given by a variable-length number.
pub trait Numbered {
    type Value;

    spec fn check() -> Check;

    spec fn val(v: Self::Value) -> Val;

    /// What a number stands for.
    fn decode(regs: &Registries, v: i32) -> (r: Result<Self::Value, ReadingError>)
        ensures
            match r {
                Ok(x) => check_read(Self::check(), *regs, v as int) == Ok::<Val, ReadFault>(Self::val(x)),
                Err(e) => check_read(Self::check(), *regs, v as int) == Err::<Val, ReadFault>(e@),
            },
    ;

    /// The number for a value.
    fn encode(regs: &Registries, value: &Self::Value) -> (r: Result<i32, WritingError>)
        ensures
            match r {
                Ok(i) => check_write(Self::check(), *regs, Self::val(*value)) == Ok::<int, WriteFault>(i as int),
                Err(e) => check_write(Self::check(), *regs, Self::val(*value)) == Err::<int, WriteFault>(e@),
            },
    ;

    /// Whether two values are the same.
    fn alike(a: &Self::Value, b: &Self::Value) -> (r: bool)
        ensures
            r == val_same(Self::val(*a), Self::val(*b)),
    ;
}

/// A variable-length number that stands for something.
pub struct Coded<N> {
    marker: PhantomData<N>,
}

impl<N: Numbered> DataComponentCodec for Coded<N> {
    type Value = N::Value;

    open spec fn format() -> Format {
        Format::Checked(N::check())
    }

    open spec fn val(v: N::Value) -> Val {
        N::val(v)
    }

    fn deserialize(seq: &mut &[u8], ctx: &Context) -> (r: Result<N::Value, ReadingError>) {
        proof {
            reveal(read_val);
        }
        let v: i32 = get_var_int(seq)?;
        N::decode(ctx.regs, v)
    }

    fn serialize(value: &N::Value, out: &mut Vec<u8>, ctx: &Context) -> (r: Result<(), WritingError>) {
        proof {
            reveal(write_val);
        }
        let v: i32 = N::encode(ctx.regs, value)?;
        write_var_int(out, v);
        Ok(())
    }

    fn equal(a: &N::Value, b: &N::Value) -> (r: bool) {
        N::alike(a, b)
    }
}

} // verus!
