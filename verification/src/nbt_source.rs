//! Byte sources for tag readers: fixed-width numbers of either byte order, variable-length
//! numbers, strings in modified UTF-8, and the estimate of what a tag allocates.
use vstd::prelude::*;
use vstd::utf8::{decode_utf8, valid_utf8};
use crate::bytes::{i8_of_u8, lemma_pow256, pow256, to_signed};
use crate::errors::NbtError;
use crate::wire::pow128;

verus! {

/// What reading from a source gives: a value or an error, and the bytes that are left.
pub struct TagRead<T> {
    pub value: Result<T, NbtError>,
    pub rest: Seq<u8>,
}

pub open spec fn tag_done<T>(value: T, rest: Seq<u8>) -> TagRead<T> {
    TagRead { value: Ok(value), rest }
}

pub open spec fn tag_fail<T>(error: NbtError, rest: Seq<u8>) -> TagRead<T> {
    TagRead { value: Err(error), rest }
}

/// What `cesu8::from_java_cesu8` makes of bytes: the text that they spell in Java's modified
/// UTF-8, or nothing.
pub uninterp spec fn java_text(bytes: Seq<u8>) -> Option<Seq<char>>;

/// Calls `cesu8::from_java_cesu8`. Its result is a function of the bytes alone; bytes that are
/// UTF-8 are taken as they are.
#[verifier::external_body]
fn from_java_cesu8(bytes: &[u8]) -> (r: Option<String>)
    ensures
        r is Some <==> java_text(bytes@) is Some,
        r is Some ==> r->0@ == java_text(bytes@)->0,
        valid_utf8(bytes@) ==> r is Some && r->0@ == decode_utf8(bytes@),
{
    cesu8::from_java_cesu8(bytes).ok().map(|t| t.into_owned())
}

/// Whether the text that some bytes spell is known where they are UTF-8.
pub open spec fn text_known(bytes: Seq<u8>) -> bool {
    valid_utf8(bytes) ==> java_text(bytes) == Some(decode_utf8(bytes))
}

/// Reading `n` bytes; a source that is too short is used up.
pub open spec fn source_bytes(s: Seq<u8>, n: nat) -> TagRead<Seq<u8>> {
    if s.len() < n {
        tag_fail(NbtError::Incomplete, Seq::empty())
    } else {
        tag_done(s.take(n as int), s.skip(n as int))
    }
}

/// Reading `n` bytes; a source that is too short is left as it is.
pub open spec fn source_block(s: Seq<u8>, n: nat) -> TagRead<Seq<u8>> {
    if s.len() < n {
        tag_fail(NbtError::Incomplete, s)
    } else {
        tag_done(s.take(n as int), s.skip(n as int))
    }
}

/// Reading a string of `n` bytes in modified UTF-8.
pub open spec fn source_string(s: Seq<u8>, n: nat) -> TagRead<Seq<char>> {
    match source_block(s, n) {
        TagRead { value: Ok(b), rest } => match java_text(b) {
            Some(t) => tag_done(t, rest),
            None => tag_fail(NbtError::Cesu8DecodingError, rest),
        },
        TagRead { value: Err(e), rest } => tag_fail(e, rest),
    }
}

/// The bytes of `s` as signed numbers.
pub open spec fn signed_bytes(s: Seq<u8>) -> Seq<i8> {
    Seq::new(s.len(), |i: int| to_signed(s[i] as nat, 1) as i8)
}

/// Reading an array of `n` signed bytes.
pub open spec fn source_byte_array(s: Seq<u8>, n: nat) -> TagRead<Seq<i8>> {
    match source_block(s, n) {
        TagRead { value: Ok(b), rest } => tag_done(signed_bytes(b), rest),
        TagRead { value: Err(e), rest } => tag_fail(e, rest),
    }
}

/// Reading up to `left` groups of seven bits, least significant first; `over` is the error when
/// the last group allowed says that another follows.
pub open spec fn source_groups(s: Seq<u8>, left: nat, over: NbtError) -> TagRead<nat>
    decreases left,
{
    if left == 0 {
        tag_fail(over, s)
    } else if s.len() == 0 {
        tag_fail(NbtError::Incomplete, Seq::empty())
    } else if s[0] < 128 {
        tag_done(s[0] as nat, s.skip(1))
    } else {
        match source_groups(s.skip(1), (left - 1) as nat, over) {
            TagRead { value: Ok(v), rest } => tag_done((s[0] - 128 + 128 * v) as nat, rest),
            TagRead { value: Err(e), rest } => tag_fail(e, rest),
        }
    }
}

/// The signed number that an unsigned one stands for in ZigZag order 0, -1, 1, -2, ...
pub open spec fn zigzag(v: nat) -> int {
    if v % 2 == 0 {
        v as int / 2
    } else {
        -(v as int / 2) - 1
    }
}

/// Reading a ZigZag number of at most 32 bits.
pub open spec fn source_var_i32(s: Seq<u8>) -> TagRead<int> {
    match source_groups(s, 5, NbtError::VarIntTooLarge) {
        TagRead { value: Ok(v), rest } => tag_done(zigzag(v % pow256(4)), rest),
        TagRead { value: Err(e), rest } => tag_fail(e, rest),
    }
}

/// Reading a ZigZag number of at most 64 bits.
pub open spec fn source_var_i64(s: Seq<u8>) -> TagRead<int> {
    match source_groups(s, 10, NbtError::VarLongTooLarge) {
        TagRead { value: Ok(v), rest } => tag_done(zigzag(v % pow256(8)), rest),
        TagRead { value: Err(e), rest } => tag_fail(e, rest),
    }
}

/// Reading `n` numbers, each as `one` reads it.
pub open spec fn source_array(s: Seq<u8>, n: nat, one: spec_fn(Seq<u8>) -> TagRead<int>) -> TagRead<Seq<int>>
    decreases n,
{
    if n == 0 {
        tag_done(Seq::empty(), s)
    } else {
        match source_array(s, (n - 1) as nat, one) {
            TagRead { value: Ok(head), rest } => match one(rest) {
                TagRead { value: Ok(v), rest } => tag_done(head.push(v), rest),
                TagRead { value: Err(e), rest } => tag_fail(e, rest),
            },
            TagRead { value: Err(e), rest } => tag_fail(e, rest),
        }
    }
}

/// The whole array fails with its first element that fails.
pub proof fn lemma_source_array_fails(s: Seq<u8>, i: nat, n: nat, one: spec_fn(Seq<u8>) -> TagRead<int>)
    requires
        i <= n,
        source_array(s, i, one).value is Err,
    ensures
        source_array(s, n, one) == source_array(s, i, one),
    decreases n,
{
    if i < n {
        lemma_source_array_fails(s, i, (n - 1) as nat, one);
    }
}

/// The numbers of a list, as integers.
pub open spec fn ints32(v: Seq<i32>) -> Seq<int> {
    Seq::new(v.len(), |i: int| v[i] as int)
}

/// The numbers of a list, as integers.
pub open spec fn ints64(v: Seq<i64>) -> Seq<int> {
    Seq::new(v.len(), |i: int| v[i] as int)
}

/// What is left of `data` behind `position`, which may lie behind its end.
pub open spec fn rest_of(data: Seq<u8>, position: int) -> Seq<u8> {
    if position <= data.len() {
        data.skip(position)
    } else {
        Seq::empty()
    }
}

/// Whether a result and a rest are those of `o`.
pub open spec fn gives<T, V>(r: Result<T, NbtError>, rest: Seq<u8>, o: TagRead<V>, view: spec_fn(T) -> V) -> bool {
    o.rest == rest && match r {
        Ok(v) => o.value == Ok::<V, NbtError>(view(v)),
        Err(e) => o.value == Err::<V, NbtError>(e),
    }
}

/// Whether a move leads to `target`, or nowhere where there is no such place.
pub open spec fn moves(r: Result<(), NbtError>, before: Seq<u8>, target: Option<Seq<u8>>, after: Seq<u8>) -> bool {
    match target {
        Some(s) => r is Ok && after == s,
        None => r == Err::<(), NbtError>(NbtError::InvalidSeek) && after == before,
    }
}

/// Decodes a ZigZag number of 32 bits.
pub fn decode_zigzag_i32(value: u32) -> (r: i32)
    ensures
        r == zigzag(value as nat),
{
    if value % 2 == 0 {
        (value / 2) as i32
    } else {
        -((value / 2) as i32) - 1
    }
}

/// Decodes a ZigZag number of 64 bits.
pub fn decode_zigzag_i64(value: u64) -> (r: i64)
    ensures
        r == zigzag(value as nat),
{
    if value % 2 == 0 {
        (value / 2) as i64
    } else {
        -((value / 2) as i64) - 1
    }
}

/// Where a tag reader gets its bytes from.
pub trait NbtDataSource {
    /// The bytes that are left.
    spec fn remaining(&self) -> Seq<u8>;

    /// Reads one byte.
    fn read_u8(&mut self) -> (r: Result<u8, NbtError>)
        ensures
            gives(r, final(self).remaining(), source_bytes(old(self).remaining(), 1), |v: u8| seq![v]),
    ;

    /// Reads `len` bytes.
    fn read_bytes(&mut self, len: usize) -> (r: Result<Vec<u8>, NbtError>)
        ensures
            gives(r, final(self).remaining(), source_bytes(old(self).remaining(), len as nat), |v: Vec<u8>| v@),
    ;

    /// What is left after a move by `offset` bytes; nothing where there is no such place.
    spec fn moved(&self, offset: int) -> Option<Seq<u8>>;

    /// Moves by `offset` bytes.
    fn seek_relative(&mut self, offset: i64) -> (r: Result<(), NbtError>)
        ensures
            moves(r, old(self).remaining(), old(self).moved(offset as int), final(self).remaining()),
    ;

    /// Moves forward by `count` bytes, past the end where there are fewer.
    fn skip_forward(&mut self, count: u64)
        ensures
            final(self).remaining() == rest_of(old(self).remaining(), count as int),
    ;

    /// Reads a string of `len` bytes.
    fn read_string(&mut self, len: usize) -> (r: Result<String, NbtError>)
        ensures
            gives(r, final(self).remaining(), source_string(old(self).remaining(), len as nat), |v: String| v@),
            old(self).remaining().len() >= len ==> text_known(old(self).remaining().take(len as int)),
    ;

    /// Reads `len` signed bytes.
    fn read_byte_array(&mut self, len: usize) -> (r: Result<Vec<i8>, NbtError>)
        ensures
            gives(r, final(self).remaining(), source_byte_array(old(self).remaining(), len as nat), |v: Vec<i8>| v@),
    ;
}

/// Reads up to `left` groups of seven bits.
fn read_groups_from<D: NbtDataSource>(source: &mut D, left: usize, over: NbtError) -> (r: Result<u128, NbtError>)
    requires
        left <= 10,
    ensures
        gives(r, final(source).remaining(), source_groups(old(source).remaining(), left as nat, over), |v: u128| v as nat),
        r matches Ok(v) ==> v < pow128(left as nat),
    decreases left,
{
    if left == 0 {
        return Err(over);
    }
    let ghost before = source.remaining();
    let first: u8 = source.read_u8()?;
    proof {
        assert(before.take(1)[0] == seq![first][0]);
        reveal_with_fuel(pow128, 11);
    }
    if first < 128 {
        Ok(first as u128)
    } else {
        let high: u128 = read_groups_from(source, left - 1, over)?;
        Ok(first as u128 - 128 + 128 * high)
    }
}

/// Reads an unsigned number of at most 32 bits in groups of seven.
pub fn read_var_u32<D: NbtDataSource>(source: &mut D) -> (r: Result<u32, NbtError>)
    ensures
        r matches Ok(v) ==> exists|w: nat|
            source_groups(old(source).remaining(), 5, NbtError::VarIntTooLarge) == #[trigger] tag_done(w, final(source).remaining())
                && v == w % pow256(4),
        r matches Err(e) ==> source_groups(old(source).remaining(), 5, NbtError::VarIntTooLarge) == tag_fail::<nat>(
            e,
            final(source).remaining(),
        ),
{
    proof {
        lemma_pow256();
    }
    let v: u128 = read_groups_from(source, 5, NbtError::VarIntTooLarge)?;
    assert(source_groups(old(source).remaining(), 5, NbtError::VarIntTooLarge) == tag_done(v as nat, source.remaining()));
    Ok((v % 0x1_0000_0000) as u32)
}

/// Reads an unsigned number of at most 64 bits in groups of seven.
pub fn read_var_u64<D: NbtDataSource>(source: &mut D) -> (r: Result<u64, NbtError>)
    ensures
        r matches Ok(v) ==> exists|w: nat|
            source_groups(old(source).remaining(), 10, NbtError::VarLongTooLarge) == #[trigger] tag_done(w, final(source).remaining())
                && v == w % pow256(8),
        r matches Err(e) ==> source_groups(old(source).remaining(), 10, NbtError::VarLongTooLarge) == tag_fail::<nat>(
            e,
            final(source).remaining(),
        ),
{
    proof {
        lemma_pow256();
    }
    let v: u128 = read_groups_from(source, 10, NbtError::VarLongTooLarge)?;
    assert(source_groups(old(source).remaining(), 10, NbtError::VarLongTooLarge) == tag_done(v as nat, source.remaining()));
    Ok((v % 0x1_0000_0000_0000_0000) as u64)
}

/// Reads `len` ZigZag numbers of 32 bits.
pub fn read_var_i32_array<D: NbtDataSource>(source: &mut D, len: usize) -> (r: Result<Vec<i32>, NbtError>)
    ensures
        gives(
            r,
            final(source).remaining(),
            source_array(old(source).remaining(), len as nat, |s: Seq<u8>| source_var_i32(s)),
            |v: Vec<i32>| ints32(v@),
        ),
{
    let ghost before = source.remaining();
    let ghost one = |s: Seq<u8>| source_var_i32(s);
    let mut values: Vec<i32> = Vec::new();
    let mut i: usize = 0;
    assert(ints32(values@) =~= Seq::<int>::empty());
    while i < len
        invariant
            i <= len,
            one == (|s: Seq<u8>| source_var_i32(s)),
            before == old(source).remaining(),
            source_array(before, i as nat, one) == tag_done(ints32(values@), source.remaining()),
        decreases len - i,
    {
        match read_var_u32(source) {
            Ok(value) => {
                let ghost head = ints32(values@);
                values.push(decode_zigzag_i32(value));
                assert(ints32(values@) =~= head.push(zigzag(value as nat)));
            },
            Err(e) => {
                proof {
                    lemma_source_array_fails(before, (i + 1) as nat, len as nat, one);
                }
                return Err(e);
            },
        }
        i += 1;
    }
    Ok(values)
}

/// Reads `len` ZigZag numbers of 64 bits.
pub fn read_var_i64_array<D: NbtDataSource>(source: &mut D, len: usize) -> (r: Result<Vec<i64>, NbtError>)
    ensures
        gives(
            r,
            final(source).remaining(),
            source_array(old(source).remaining(), len as nat, |s: Seq<u8>| source_var_i64(s)),
            |v: Vec<i64>| ints64(v@),
        ),
{
    let ghost before = source.remaining();
    let ghost one = |s: Seq<u8>| source_var_i64(s);
    let mut values: Vec<i64> = Vec::new();
    let mut i: usize = 0;
    assert(ints64(values@) =~= Seq::<int>::empty());
    while i < len
        invariant
            i <= len,
            one == (|s: Seq<u8>| source_var_i64(s)),
            before == old(source).remaining(),
            source_array(before, i as nat, one) == tag_done(ints64(values@), source.remaining()),
        decreases len - i,
    {
        match read_var_u64(source) {
            Ok(value) => {
                let ghost head = ints64(values@);
                values.push(decode_zigzag_i64(value));
                assert(ints64(values@) =~= head.push(zigzag(value as nat)));
            },
            Err(e) => {
                proof {
                    lemma_source_array_fails(before, (i + 1) as nat, len as nat, one);
                }
                return Err(e);
            },
        }
        i += 1;
    }
    Ok(values)
}

/// A position in a slice of bytes.
pub struct ByteCursor<'a> {
    pub data: &'a [u8],
    pub position: u64,
}

impl<'a> ByteCursor<'a> {
    /// A cursor at the start of `data`.
    pub fn new(data: &'a [u8]) -> (r: Self)
        ensures
            r.data@ == data@,
            r.position == 0,
            r.remaining() == data@,
    {
        assert(data@.skip(0) =~= data@);
        ByteCursor { data, position: 0 }
    }

    /// Takes `len` bytes, or nothing where there are fewer.
    fn take_block(&mut self, len: usize) -> (r: Option<&'a [u8]>)
        ensures
            final(self).data@ == old(self).data@,
            old(self).remaining().len() >= len ==> r is Some && r->0@ == old(self).remaining().take(len as int)
                && final(self).remaining() == old(self).remaining().skip(len as int),
            old(self).remaining().len() < len ==> r is None && *final(self) == *old(self),
    {
        let all: &'a [u8] = self.data;
        let total: u64 = all.len() as u64;
        if self.position > total {
            if len > 0 {
                return None;
            }
            let empty = vstd::slice::slice_subrange(all, 0, 0);
            assert(empty@ =~= self.remaining().take(0));
            assert(self.remaining().skip(0) =~= self.remaining());
            return Some(empty);
        }
        if (len as u64) > total - self.position {
            return None;
        }
        let from: usize = self.position as usize;
        let block = vstd::slice::slice_subrange(all, from, from + len);
        let ghost before = self.remaining();
        self.position = (from + len) as u64;
        assert(block@ =~= before.take(len as int));
        assert(self.remaining() =~= before.skip(len as int));
        Some(block)
    }

    /// Moves behind the end.
    fn use_up(&mut self)
        ensures
            final(self).data@ == old(self).data@,
            final(self).remaining() == Seq::<u8>::empty(),
    {
        self.position = self.data.len() as u64;
        assert(self.remaining() =~= Seq::<u8>::empty());
    }
}

impl<'a> NbtDataSource for ByteCursor<'a> {
    open spec fn remaining(&self) -> Seq<u8> {
        rest_of(self.data@, self.position as int)
    }

    /// A place before the start, or one that no position tells, is refused.
    open spec fn moved(&self, offset: int) -> Option<Seq<u8>> {
        if 0 <= self.position + offset <= u64::MAX {
            Some(rest_of(self.data@, self.position + offset))
        } else {
            None
        }
    }

    fn seek_relative(&mut self, offset: i64) -> (r: Result<(), NbtError>) {
        let target: i128 = self.position as i128 + offset as i128;
        if target < 0 || target > 0xffff_ffff_ffff_ffff {
            return Err(NbtError::InvalidSeek);
        }
        self.position = target as u64;
        Ok(())
    }

    fn read_u8(&mut self) -> (r: Result<u8, NbtError>) {
        let ghost before = self.remaining();
        match self.take_block(1) {
            Some(b) => {
                assert(seq![b@[0]] =~= before.take(1));
                Ok(b[0])
            },
            None => {
                self.use_up();
                Err(NbtError::Incomplete)
            },
        }
    }

    fn read_bytes(&mut self, len: usize) -> (r: Result<Vec<u8>, NbtError>) {
        match self.take_block(len) {
            Some(b) => Ok(crate::wire::to_vec(b)),
            None => {
                self.use_up();
                Err(NbtError::Incomplete)
            },
        }
    }

    fn skip_forward(&mut self, count: u64) {
        let ghost before = *self;
        if count <= 0xffff_ffff_ffff_ffff - self.position {
            self.position = self.position + count;
            assert(self.remaining() =~= rest_of(before.remaining(), count as int));
        } else {
            self.use_up();
            assert(rest_of(before.remaining(), count as int) =~= Seq::<u8>::empty());
        }
    }

    fn read_string(&mut self, len: usize) -> (r: Result<String, NbtError>) {
        match self.take_block(len) {
            Some(b) => match from_java_cesu8(b) {
                Some(t) => Ok(t),
                None => Err(NbtError::Cesu8DecodingError),
            },
            None => Err(NbtError::Incomplete),
        }
    }

    fn read_byte_array(&mut self, len: usize) -> (r: Result<Vec<i8>, NbtError>) {
        match self.take_block(len) {
            Some(b) => Ok(signed_block(b)),
            None => Err(NbtError::Incomplete),
        }
    }
}

/// The bytes of a block as signed numbers.
fn signed_block(b: &[u8]) -> (r: Vec<i8>)
    ensures
        r@ == signed_bytes(b@),
{
    let mut out: Vec<i8> = Vec::new();
    let mut i: usize = 0;
    while i < b.len()
        invariant
            i <= b.len(),
            out@ =~= signed_bytes(b@.take(i as int)),
        decreases b.len() - i,
    {
        out.push(i8_of_u8(b[i]));
        i += 1;
    }
    assert(b@.take(i as int) =~= b@);
    out
}

/// A stream of bytes: what is left of it.
pub struct NbtStreamReader<'a> {
    pub rest: &'a [u8],
}

impl<'a> NbtStreamReader<'a> {
    /// Takes `len` bytes, or nothing where there are fewer.
    fn take_block(&mut self, len: usize) -> (r: Option<&'a [u8]>)
        ensures
            old(self).rest@.len() >= len ==> r is Some && r->0@ == old(self).rest@.take(len as int) && final(self).rest@
                == old(self).rest@.skip(len as int),
            old(self).rest@.len() < len ==> r is None && *final(self) == *old(self),
    {
        let all: &'a [u8] = self.rest;
        if all.len() < len {
            return None;
        }
        self.rest = vstd::slice::slice_subrange(all, len, all.len());
        Some(vstd::slice::slice_subrange(all, 0, len))
    }

    /// Moves behind the end.
    fn use_up(&mut self)
        ensures
            final(self).rest@ == Seq::<u8>::empty(),
    {
        let all: &'a [u8] = self.rest;
        self.rest = vstd::slice::slice_subrange(all, all.len(), all.len());
        assert(self.rest@ =~= Seq::<u8>::empty());
    }
}

impl<'a> NbtDataSource for NbtStreamReader<'a> {
    open spec fn remaining(&self) -> Seq<u8> {
        self.rest@
    }

    /// What was read from a stream is gone.
    open spec fn moved(&self, offset: int) -> Option<Seq<u8>> {
        if offset >= 0 {
            Some(rest_of(self.rest@, offset))
        } else {
            None
        }
    }

    fn seek_relative(&mut self, offset: i64) -> (r: Result<(), NbtError>) {
        if offset < 0 {
            return Err(NbtError::InvalidSeek);
        }
        self.skip_forward(offset as u64);
        Ok(())
    }

    fn read_u8(&mut self) -> (r: Result<u8, NbtError>) {
        let ghost before = self.rest@;
        match self.take_block(1) {
            Some(b) => {
                assert(seq![b@[0]] =~= before.take(1));
                Ok(b[0])
            },
            None => {
                self.use_up();
                Err(NbtError::Incomplete)
            },
        }
    }

    fn read_bytes(&mut self, len: usize) -> (r: Result<Vec<u8>, NbtError>) {
        match self.take_block(len) {
            Some(b) => Ok(crate::wire::to_vec(b)),
            None => {
                self.use_up();
                Err(NbtError::Incomplete)
            },
        }
    }

    fn skip_forward(&mut self, count: u64) {
        if count <= self.rest.len() as u64 {
            let ghost before = self.rest@;
            self.take_block(count as usize);
            assert(self.rest@ =~= rest_of(before, count as int));
        } else {
            self.use_up();
        }
    }

    fn read_string(&mut self, len: usize) -> (r: Result<String, NbtError>) {
        match self.take_block(len) {
            Some(b) => match from_java_cesu8(b) {
                Some(t) => Ok(t),
                None => Err(NbtError::Cesu8DecodingError),
            },
            None => Err(NbtError::Incomplete),
        }
    }

    fn read_byte_array(&mut self, len: usize) -> (r: Result<Vec<i8>, NbtError>) {
        match self.take_block(len) {
            Some(b) => Ok(signed_block(b)),
            None => Err(NbtError::Incomplete),
        }
    }
}

/// Charges the estimated allocation of a tag against a quota.
#[derive(Clone, Copy, Debug)]
pub struct NbtAccounter {
    pub quota: usize,
    pub accounted: usize,
}

impl NbtAccounter {
    /// Nothing charged yet.
    pub fn new(quota: usize) -> (r: Self)
        ensures
            r.quota == quota,
            r.accounted == 0,
    {
        NbtAccounter { quota, accounted: 0 }
    }

    /// What has been charged so far.
    pub fn accounted(&self) -> (r: usize)
        ensures
            r == self.accounted,
    {
        self.accounted
    }

    /// Charges `amount`; where that would exceed the quota nothing is charged.
    pub fn charge(&mut self, amount: usize) -> (r: Result<(), NbtError>)
        ensures
            final(self).quota == old(self).quota,
            old(self).accounted + amount <= old(self).quota ==> r is Ok && final(self).accounted == old(self).accounted + amount,
            old(self).accounted + amount > old(self).quota ==> r == Err::<(), NbtError>(
                NbtError::NbtQuotaExceeded { quota: old(self).quota },
            ) && final(self).accounted == old(self).accounted,
    {
        match self.accounted.checked_add(amount) {
            None => Err(NbtError::NbtQuotaExceeded { quota: self.quota }),
            Some(total) => {
                if total > self.quota {
                    return Err(NbtError::NbtQuotaExceeded { quota: self.quota });
                }
                self.accounted = total;
                Ok(())
            },
        }
    }
}

} // verus!
