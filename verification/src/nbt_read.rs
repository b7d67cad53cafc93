//! Reading tags: the Java edition's big-endian form with an allocation estimate, and the
//! primitives of the Bedrock edition's network form.
use vstd::prelude::*;
use crate::bytes::{from_be, i16_of_u16, i32_of_u32, i64_of_u64, i8_of_u8, lemma_pow256, pow256, to_signed, value_be};
use crate::errors::NbtError;
use crate::nbt_source::{decode_zigzag_i32, decode_zigzag_i64, gives, ints32, ints64, moves, read_var_i32_array, read_var_i64_array, read_var_u32, read_var_u64, rest_of, source_array, source_byte_array, source_bytes, source_groups, source_string, source_var_i32, source_var_i64, tag_done, tag_fail, text_known, NbtAccounter, NbtDataSource, TagRead};

verus! {

/// How deeply lists and compounds may be nested.
pub const MAX_TAG_DEPTH: usize = 512;

/// Reading an unsigned number of `n` bytes, most significant first.
pub open spec fn java_unsigned(s: Seq<u8>, n: nat) -> TagRead<nat> {
    match source_bytes(s, n) {
        TagRead { value: Ok(b), rest } => tag_done(from_be(b), rest),
        TagRead { value: Err(e), rest } => tag_fail(e, rest),
    }
}

/// Reading a signed number of `n` bytes, most significant first.
pub open spec fn java_signed(s: Seq<u8>, n: nat) -> TagRead<int> {
    match java_unsigned(s, n) {
        TagRead { value: Ok(v), rest } => tag_done(to_signed(v, n), rest),
        TagRead { value: Err(e), rest } => tag_fail(e, rest),
    }
}

/// Reading a string: its length in two bytes, then its bytes in modified UTF-8.
pub open spec fn java_string(s: Seq<u8>) -> TagRead<Seq<char>> {
    match java_unsigned(s, 2) {
        TagRead { value: Ok(n), rest } => source_string(rest, n),
        TagRead { value: Err(e), rest } => tag_fail(e, rest),
    }
}

/// The numbers of four bytes each that `b` holds.
pub open spec fn words32(b: Seq<u8>) -> Seq<int> {
    Seq::new(b.len() / 4, |i: int| to_signed(from_be(b.subrange(4 * i, 4 * i + 4)), 4))
}

/// The numbers of eight bytes each that `b` holds.
pub open spec fn words64(b: Seq<u8>) -> Seq<int> {
    Seq::new(b.len() / 8, |i: int| to_signed(from_be(b.subrange(8 * i, 8 * i + 8)), 8))
}

/// Reading `n` numbers of four bytes each.
pub open spec fn java_i32_array(s: Seq<u8>, n: nat) -> TagRead<Seq<int>> {
    if 4 * n > usize::MAX {
        tag_fail(NbtError::LargeLength(n as usize), s)
    } else {
        match source_bytes(s, 4 * n) {
            TagRead { value: Ok(b), rest } => tag_done(words32(b), rest),
            TagRead { value: Err(e), rest } => tag_fail(e, rest),
        }
    }
}

/// Reading `n` numbers of eight bytes each.
pub open spec fn java_i64_array(s: Seq<u8>, n: nat) -> TagRead<Seq<int>> {
    if 8 * n > usize::MAX {
        tag_fail(NbtError::LargeLength(n as usize), s)
    } else {
        match source_bytes(s, 8 * n) {
            TagRead { value: Ok(b), rest } => tag_done(words64(b), rest),
            TagRead { value: Err(e), rest } => tag_fail(e, rest),
        }
    }
}

/// The bytes of `b`, last first.
pub open spec fn reversed(b: Seq<u8>) -> Seq<u8> {
    b.reverse()
}

/// Reading an unsigned number of `n` bytes, least significant first.
pub open spec fn little_unsigned(s: Seq<u8>, n: nat) -> TagRead<nat> {
    match source_bytes(s, n) {
        TagRead { value: Ok(b), rest } => tag_done(from_be(reversed(b)), rest),
        TagRead { value: Err(e), rest } => tag_fail(e, rest),
    }
}

/// Reading a signed number of `n` bytes, least significant first.
pub open spec fn little_signed(s: Seq<u8>, n: nat) -> TagRead<int> {
    match little_unsigned(s, n) {
        TagRead { value: Ok(v), rest } => tag_done(to_signed(v, n), rest),
        TagRead { value: Err(e), rest } => tag_fail(e, rest),
    }
}

/// A reader of the primitives of one edition's form of tags.
pub trait NbtReadHelper {
    /// Where the bytes come from.
    type Reader: NbtDataSource;

    /// The bytes that are left.
    spec fn left(&self) -> Seq<u8>;

    /// What is left after a move by `offset` bytes; nothing where there is no such place.
    spec fn moved(&self, offset: int) -> Option<Seq<u8>>;

    /// What may be charged, where there is a quota, and what has been charged.
    spec fn charges(&self) -> (Option<nat>, nat);

    /// Reading a signed number of 16 bits.
    spec fn i16_form(s: Seq<u8>) -> TagRead<int>;

    /// Reading a signed number of 32 bits.
    spec fn i32_form(s: Seq<u8>) -> TagRead<int>;

    /// Reading a signed number of 64 bits.
    spec fn i64_form(s: Seq<u8>) -> TagRead<int>;

    /// Reading the bit pattern of a floating-point number of `n` bytes.
    spec fn float_form(s: Seq<u8>, n: nat) -> TagRead<nat>;

    /// Reading the length of a string.
    spec fn length_form(s: Seq<u8>) -> TagRead<nat>;

    /// Reading `n` signed numbers of 32 bits.
    spec fn i32_array_form(s: Seq<u8>, n: nat) -> TagRead<Seq<int>>;

    /// Reading `n` signed numbers of 64 bits.
    spec fn i64_array_form(s: Seq<u8>, n: nat) -> TagRead<Seq<int>>;

    /// Charges `amount` where there is a quota.
    fn account(&mut self, amount: usize) -> (r: Result<(), NbtError>)
        ensures
            final(self).left() == old(self).left(),
            final(self).charges().0 == old(self).charges().0,
            match charged(old(self).charges().0, old(self).charges().1, amount as nat) {
                Ok(u) => r is Ok && final(self).charges().1 == u,
                Err(e) => r == Err::<(), NbtError>(e) && final(self).charges().1 == old(self).charges().1,
            },
    ;

    /// Where the bytes come from.
    fn reader(&mut self) -> (r: &mut Self::Reader)
        ensures
            r.remaining() == old(self).left(),
            final(self).left() == final(r).remaining(),
            final(self).charges() == old(self).charges(),
    ;

    /// Advances by `count` bytes.
    fn skip_bytes(&mut self, count: i64) -> (r: Result<(), NbtError>)
        ensures
            final(self).charges() == old(self).charges(),
            moves(r, old(self).left(), old(self).moved(count as int), final(self).left()),
    ;

    /// Skips an unsigned byte.
    fn skip_u8(&mut self) -> (r: Result<(), NbtError>)
        ensures
            final(self).charges() == old(self).charges(),
            moves(r, old(self).left(), old(self).moved(1), final(self).left()),
    {
        self.skip_bytes(1)
    }

    /// Skips a signed byte.
    fn skip_i8(&mut self) -> (r: Result<(), NbtError>)
        ensures
            final(self).charges() == old(self).charges(),
            moves(r, old(self).left(), old(self).moved(1), final(self).left()),
    {
        self.skip_bytes(1)
    }

    /// Skips a number of two bytes.
    fn skip_i16(&mut self) -> (r: Result<(), NbtError>)
        ensures
            final(self).charges() == old(self).charges(),
            moves(r, old(self).left(), old(self).moved(2), final(self).left()),
    {
        self.skip_bytes(2)
    }

    /// Skips a number of four bytes.
    fn skip_i32(&mut self) -> (r: Result<(), NbtError>)
        ensures
            final(self).charges() == old(self).charges(),
            moves(r, old(self).left(), old(self).moved(4), final(self).left()),
    {
        self.skip_bytes(4)
    }

    /// Skips a number of eight bytes.
    fn skip_i64(&mut self) -> (r: Result<(), NbtError>)
        ensures
            final(self).charges() == old(self).charges(),
            moves(r, old(self).left(), old(self).moved(8), final(self).left()),
    {
        self.skip_bytes(8)
    }

    /// Skips a floating-point number of four bytes.
    fn skip_f32(&mut self) -> (r: Result<(), NbtError>)
        ensures
            final(self).charges() == old(self).charges(),
            moves(r, old(self).left(), old(self).moved(4), final(self).left()),
    {
        self.skip_bytes(4)
    }

    /// Skips a floating-point number of eight bytes.
    fn skip_f64(&mut self) -> (r: Result<(), NbtError>)
        ensures
            final(self).charges() == old(self).charges(),
            moves(r, old(self).left(), old(self).moved(8), final(self).left()),
    {
        self.skip_bytes(8)
    }

    /// Skips a string.
    fn skip_string(&mut self) -> (r: Result<(), NbtError>)
        ensures
            final(self).charges() == old(self).charges(),
            match Self::length_form(old(self).left()) {
                TagRead { value: Ok(n), rest } => r is Ok && final(self).left() == rest_of(rest, n as int),
                TagRead { value: Err(e), rest } => r == Err::<(), NbtError>(e) && final(self).left() == rest,
            },
    ;

    /// Reads a byte.
    fn get_u8(&mut self) -> (r: Result<u8, NbtError>)
        ensures
            final(self).charges() == old(self).charges(),
            gives(r, final(self).left(), java_unsigned(old(self).left(), 1), |v: u8| v as nat),
    ;

    /// Reads a signed byte.
    fn get_i8(&mut self) -> (r: Result<i8, NbtError>)
        ensures
            final(self).charges() == old(self).charges(),
            gives(r, final(self).left(), java_signed(old(self).left(), 1), |v: i8| v as int),
    ;

    /// Reads a signed number of 16 bits.
    fn get_i16(&mut self) -> (r: Result<i16, NbtError>)
        ensures
            final(self).charges() == old(self).charges(),
            gives(r, final(self).left(), Self::i16_form(old(self).left()), |v: i16| v as int),
    ;

    /// Reads a signed number of 32 bits.
    fn get_i32(&mut self) -> (r: Result<i32, NbtError>)
        ensures
            final(self).charges() == old(self).charges(),
            gives(r, final(self).left(), Self::i32_form(old(self).left()), |v: i32| v as int),
    ;

    /// Reads a signed number of 64 bits.
    fn get_i64(&mut self) -> (r: Result<i64, NbtError>)
        ensures
            final(self).charges() == old(self).charges(),
            gives(r, final(self).left(), Self::i64_form(old(self).left()), |v: i64| v as int),
    ;

    /// Reads an array of `len` signed numbers of 32 bits.
    fn get_i32_array(&mut self, len: usize) -> (r: Result<Vec<i32>, NbtError>)
        ensures
            final(self).charges() == old(self).charges(),
            gives(r, final(self).left(), Self::i32_array_form(old(self).left(), len as nat), |v: Vec<i32>| ints32(v@)),
    ;

    /// Reads an array of `len` signed numbers of 64 bits.
    fn get_i64_array(&mut self, len: usize) -> (r: Result<Vec<i64>, NbtError>)
        ensures
            final(self).charges() == old(self).charges(),
            gives(r, final(self).left(), Self::i64_array_form(old(self).left(), len as nat), |v: Vec<i64>| ints64(v@)),
    ;

    /// Reads the bit pattern of a 32-bit floating-point number.
    fn get_f32(&mut self) -> (r: Result<u32, NbtError>)
        ensures
            final(self).charges() == old(self).charges(),
            gives(r, final(self).left(), Self::float_form(old(self).left(), 4), |v: u32| v as nat),
    ;

    /// Reads the bit pattern of a 64-bit floating-point number.
    fn get_f64(&mut self) -> (r: Result<u64, NbtError>)
        ensures
            final(self).charges() == old(self).charges(),
            gives(r, final(self).left(), Self::float_form(old(self).left(), 8), |v: u64| v as nat),
    ;

    /// Reads a string: its length, then its bytes in modified UTF-8.
    fn get_string(&mut self) -> (r: Result<String, NbtError>)
        ensures
            final(self).charges() == old(self).charges(),
            match Self::length_form(old(self).left()) {
                TagRead { value: Ok(n), rest } => gives(r, final(self).left(), source_string(rest, n), |v: String| v@) && (rest.len() >= n
                    ==> text_known(rest.take(n as int))),
                TagRead { value: Err(e), rest } => r == Err::<String, NbtError>(e) && final(self).left() == rest,
            },
    ;

    /// Reads an array of `len` signed bytes.
    fn get_byte_array(&mut self, len: usize) -> (r: Result<Vec<i8>, NbtError>)
        ensures
            final(self).charges() == old(self).charges(),
            gives(r, final(self).left(), source_byte_array(old(self).left(), len as nat), |v: Vec<i8>| v@),
    ;
}

/// Reads Java edition primitives, most significant byte first.
pub struct NbtReadHelperJava<D> {
    pub reader: D,
    pub accounter: Option<NbtAccounter>,
}

impl<D> NbtReadHelperJava<D> {
    /// A reader that charges nothing.
    pub fn new(r: D) -> (result: Self)
        ensures
            result.reader == r,
            result.accounter is None,
    {
        NbtReadHelperJava { reader: r, accounter: None }
    }

    /// A reader that charges its allocations against a quota.
    pub fn with_quota(r: D, quota: usize) -> (result: Self)
        ensures
            result.reader == r,
            result.accounter == Some(NbtAccounter { quota, accounted: 0 }),
    {
        NbtReadHelperJava { reader: r, accounter: Some(NbtAccounter::new(quota)) }
    }

    /// What has been charged so far.
    pub fn accounted(&self) -> (r: usize)
        ensures
            r == used_of(self.accounter),
    {
        match &self.accounter {
            Some(accounter) => accounter.accounted(),
            None => 0,
        }
    }

    /// Charges an amount that may be larger than a machine word where there is a quota.
    pub fn charge(&mut self, amount: u128) -> (r: Result<(), NbtError>)
        ensures
            final(self).reader == old(self).reader,
            quota_of(final(self).accounter) == quota_of(old(self).accounter),
            match charged(quota_of(old(self).accounter), used_of(old(self).accounter), amount as nat) {
                Ok(u) => r is Ok && used_of(final(self).accounter) == u,
                Err(e) => r == Err::<(), NbtError>(e) && used_of(final(self).accounter) == used_of(old(self).accounter),
            },
    {
        match &mut self.accounter {
            Some(accounter) => {
                if amount > usize::MAX as u128 {
                    return Err(NbtError::NbtQuotaExceeded { quota: accounter.quota });
                }
                accounter.charge(amount as usize)
            },
            None => Ok(()),
        }
    }
}

/// The quota, where there is one.
pub open spec fn quota_of(a: Option<NbtAccounter>) -> Option<nat> {
    match a {
        Some(a) => Some(a.quota as nat),
        None => None,
    }
}

/// What has been charged.
pub open spec fn used_of(a: Option<NbtAccounter>) -> nat {
    match a {
        Some(a) => a.accounted as nat,
        None => 0,
    }
}

/// What is charged after `amount` more, or the error where the quota does not allow it.
pub open spec fn charged(quota: Option<nat>, used: nat, amount: nat) -> Result<nat, NbtError> {
    match quota {
        None => Ok(used),
        Some(q) => if used + amount <= q {
            Ok(used + amount)
        } else {
            Err(NbtError::NbtQuotaExceeded { quota: q as usize })
        },
    }
}

impl<D: NbtDataSource> NbtReadHelperJava<D> {
    /// Reads `n` bytes.
    fn get_block(&mut self, n: usize) -> (r: Result<Vec<u8>, NbtError>)
        ensures
            final(self).charges() == old(self).charges(),
            gives(r, final(self).left(), source_bytes(old(self).left(), n as nat), |v: Vec<u8>| v@),
    {
        self.reader.read_bytes(n)
    }

    /// Reads an unsigned number of `n` bytes.
    fn get_unsigned(&mut self, n: usize) -> (r: Result<u128, NbtError>)
        requires
            n <= 16,
        ensures
            final(self).charges() == old(self).charges(),
            gives(r, final(self).left(), java_unsigned(old(self).left(), n as nat), |v: u128| v as nat),
            r matches Ok(v) ==> v < pow256(n as nat) && (n == 1 ==> v <= 0xff) && (n == 2 ==> v <= 0xffff) && (n == 4 ==> v <= 0xffff_ffff)
                && (n == 8 ==> v <= 0xffff_ffff_ffff_ffff),
    {
        proof {
            lemma_pow256();
        }
        let b = self.get_block(n)?;
        Ok(value_be(b.as_slice()))
    }

    /// Reads the length of a string.
    fn get_string_len(&mut self) -> (r: Result<u16, NbtError>)
        ensures
            final(self).charges() == old(self).charges(),
            gives(r, final(self).left(), java_unsigned(old(self).left(), 2), |v: u16| v as nat),
    {
        Ok(self.get_unsigned(2)? as u16)
    }
}

proof fn lemma_java_forms<D: NbtDataSource>(s: Seq<u8>, n: nat)
    ensures
        NbtReadHelperJava::<D>::i16_form(s) == java_signed(s, 2),
        NbtReadHelperJava::<D>::i32_form(s) == java_signed(s, 4),
        NbtReadHelperJava::<D>::i64_form(s) == java_signed(s, 8),
        NbtReadHelperJava::<D>::float_form(s, n) == java_unsigned(s, n),
        NbtReadHelperJava::<D>::length_form(s) == java_unsigned(s, 2),
        NbtReadHelperJava::<D>::i32_array_form(s, n) == java_i32_array(s, n),
        NbtReadHelperJava::<D>::i64_array_form(s, n) == java_i64_array(s, n),
{
}

impl<D: NbtDataSource> NbtReadHelper for NbtReadHelperJava<D> {
    type Reader = D;

    open spec fn left(&self) -> Seq<u8> {
        self.reader.remaining()
    }

    open spec fn moved(&self, offset: int) -> Option<Seq<u8>> {
        self.reader.moved(offset)
    }

    open spec fn charges(&self) -> (Option<nat>, nat) {
        (quota_of(self.accounter), used_of(self.accounter))
    }

    open spec fn i16_form(s: Seq<u8>) -> TagRead<int> {
        java_signed(s, 2)
    }

    open spec fn i32_form(s: Seq<u8>) -> TagRead<int> {
        java_signed(s, 4)
    }

    open spec fn i64_form(s: Seq<u8>) -> TagRead<int> {
        java_signed(s, 8)
    }

    open spec fn float_form(s: Seq<u8>, n: nat) -> TagRead<nat> {
        java_unsigned(s, n)
    }

    open spec fn length_form(s: Seq<u8>) -> TagRead<nat> {
        java_unsigned(s, 2)
    }

    open spec fn i32_array_form(s: Seq<u8>, n: nat) -> TagRead<Seq<int>> {
        java_i32_array(s, n)
    }

    open spec fn i64_array_form(s: Seq<u8>, n: nat) -> TagRead<Seq<int>> {
        java_i64_array(s, n)
    }

    fn account(&mut self, amount: usize) -> (r: Result<(), NbtError>) {
        self.charge(amount as u128)
    }

    fn reader(&mut self) -> (r: &mut D) {
        &mut self.reader
    }

    fn skip_bytes(&mut self, count: i64) -> (r: Result<(), NbtError>) {
        self.reader.seek_relative(count)
    }

    fn skip_string(&mut self) -> (r: Result<(), NbtError>) {
        proof {
            lemma_java_forms::<D>(self.left(), 0);
        }
        let len: u16 = self.get_string_len()?;
        self.reader.skip_forward(len as u64);
        Ok(())
    }

    fn get_u8(&mut self) -> (r: Result<u8, NbtError>) {
        Ok(self.get_unsigned(1)? as u8)
    }

    fn get_i8(&mut self) -> (r: Result<i8, NbtError>) {
        Ok(i8_of_u8(self.get_u8()?))
    }

    fn get_i16(&mut self) -> (r: Result<i16, NbtError>) {
        proof {
            lemma_java_forms::<D>(self.left(), 0);
        }
        Ok(i16_of_u16(self.get_unsigned(2)? as u16))
    }

    fn get_i32(&mut self) -> (r: Result<i32, NbtError>) {
        proof {
            lemma_java_forms::<D>(self.left(), 0);
        }
        Ok(i32_of_u32(self.get_unsigned(4)? as u32))
    }

    fn get_i64(&mut self) -> (r: Result<i64, NbtError>) {
        proof {
            lemma_java_forms::<D>(self.left(), 0);
        }
        Ok(i64_of_u64(self.get_unsigned(8)? as u64))
    }

    fn get_f32(&mut self) -> (r: Result<u32, NbtError>) {
        proof {
            lemma_java_forms::<D>(self.left(), 4);
        }
        Ok(self.get_unsigned(4)? as u32)
    }

    fn get_f64(&mut self) -> (r: Result<u64, NbtError>) {
        proof {
            lemma_java_forms::<D>(self.left(), 8);
        }
        Ok(self.get_unsigned(8)? as u64)
    }

    fn get_string(&mut self) -> (r: Result<String, NbtError>) {
        proof {
            lemma_java_forms::<D>(self.left(), 0);
        }
        let len: u16 = self.get_string_len()?;
        self.reader.read_string(len as usize)
    }

    fn get_byte_array(&mut self, len: usize) -> (r: Result<Vec<i8>, NbtError>) {
        self.reader.read_byte_array(len)
    }

    fn get_i32_array(&mut self, len: usize) -> (r: Result<Vec<i32>, NbtError>) {
        proof {
            lemma_java_forms::<D>(self.left(), len as nat);
        }
        let byte_len: usize = match len.checked_mul(4) {
            Some(n) => n,
            None => {
                return Err(NbtError::LargeLength(len));
            },
        };
        let b = self.get_block(byte_len)?;
        let mut values: Vec<i32> = Vec::new();
        let mut i: usize = 0;
        assert(b@.len() == 4 * len);
        while i < len
            invariant
                i <= len,
                b@.len() == 4 * len,
                4 * len <= usize::MAX,
                ints32(values@) =~= words32(b@).take(i as int),
            decreases len - i,
        {
            let word = vstd::slice::slice_subrange(b.as_slice(), 4 * i, 4 * i + 4);
            proof {
                lemma_pow256();
            }
            let ghost head = ints32(values@);
            values.push(i32_of_u32(value_be(word) as u32));
            assert(ints32(values@) =~= head.push(words32(b@)[i as int]));
            i += 1;
        }
        assert(words32(b@).take(len as int) =~= words32(b@));
        Ok(values)
    }

    fn get_i64_array(&mut self, len: usize) -> (r: Result<Vec<i64>, NbtError>) {
        proof {
            lemma_java_forms::<D>(self.left(), len as nat);
        }
        let byte_len: usize = match len.checked_mul(8) {
            Some(n) => n,
            None => {
                return Err(NbtError::LargeLength(len));
            },
        };
        let b = self.get_block(byte_len)?;
        let mut values: Vec<i64> = Vec::new();
        let mut i: usize = 0;
        assert(b@.len() == 8 * len);
        while i < len
            invariant
                i <= len,
                b@.len() == 8 * len,
                8 * len <= usize::MAX,
                ints64(values@) =~= words64(b@).take(i as int),
            decreases len - i,
        {
            let word = vstd::slice::slice_subrange(b.as_slice(), 8 * i, 8 * i + 8);
            proof {
                lemma_pow256();
            }
            let ghost head = ints64(values@);
            values.push(i64_of_u64(value_be(word) as u64));
            assert(ints64(values@) =~= head.push(words64(b@)[i as int]));
            i += 1;
        }
        assert(words64(b@).take(len as int) =~= words64(b@));
        Ok(values)
    }
}

/// Reads Bedrock network primitives: least significant byte first, and variable-length numbers.
pub struct NbtReadHelperBedrock<D> {
    pub reader: D,
}

impl<D> NbtReadHelperBedrock<D> {
    /// A reader over `r`.
    pub fn new(r: D) -> (result: Self)
        ensures
            result.reader == r,
    {
        NbtReadHelperBedrock { reader: r }
    }
}

proof fn lemma_single(v: u8)
    ensures
        from_be(seq![v]) == v,
{
    reveal_with_fuel(from_be, 2);
}

/// The bytes of `b`, last first.
fn reverse_bytes(b: &Vec<u8>) -> (r: Vec<u8>)
    ensures
        r@ == reversed(b@),
{
    let mut out: Vec<u8> = Vec::new();
    let mut i: usize = b.len();
    while i > 0
        invariant
            i <= b.len(),
            out@.len() == b.len() - i,
            forall|k: int| 0 <= k < out@.len() ==> out@[k] == b@[b.len() - 1 - k],
        decreases i,
    {
        i -= 1;
        out.push(b[i]);
    }
    assert(out@ =~= reversed(b@));
    out
}

impl<D: NbtDataSource> NbtReadHelperBedrock<D> {
    /// Reads an unsigned number of `n` bytes, least significant first.
    fn get_little(&mut self, n: usize) -> (r: Result<u128, NbtError>)
        requires
            n <= 16,
        ensures
            gives(r, final(self).left(), little_unsigned(old(self).left(), n as nat), |v: u128| v as nat),
            r matches Ok(v) ==> v < pow256(n as nat),
    {
        let b = self.reader.read_bytes(n)?;
        let back = reverse_bytes(&b);
        Ok(value_be(back.as_slice()))
    }

    /// Reads the length of a string.
    fn get_string_len(&mut self) -> (r: Result<u32, NbtError>)
        ensures
            gives(r, final(self).left(), Self::length_form(old(self).left()), |v: u32| v as nat),
    {
        read_var_u32(&mut self.reader)
    }
}

proof fn lemma_bedrock_forms<D: NbtDataSource>(s: Seq<u8>, n: nat)
    ensures
        NbtReadHelperBedrock::<D>::i16_form(s) == little_signed(s, 2),
        NbtReadHelperBedrock::<D>::i32_form(s) == source_var_i32(s),
        NbtReadHelperBedrock::<D>::i64_form(s) == source_var_i64(s),
        NbtReadHelperBedrock::<D>::float_form(s, n) == little_unsigned(s, n),
        NbtReadHelperBedrock::<D>::i32_array_form(s, n) == source_array(s, n, |s: Seq<u8>| source_var_i32(s)),
        NbtReadHelperBedrock::<D>::i64_array_form(s, n) == source_array(s, n, |s: Seq<u8>| source_var_i64(s)),
{
}

impl<D: NbtDataSource> NbtReadHelper for NbtReadHelperBedrock<D> {
    type Reader = D;

    open spec fn left(&self) -> Seq<u8> {
        self.reader.remaining()
    }

    open spec fn moved(&self, offset: int) -> Option<Seq<u8>> {
        self.reader.moved(offset)
    }

    open spec fn charges(&self) -> (Option<nat>, nat) {
        (None, 0)
    }

    open spec fn i16_form(s: Seq<u8>) -> TagRead<int> {
        little_signed(s, 2)
    }

    open spec fn i32_form(s: Seq<u8>) -> TagRead<int> {
        source_var_i32(s)
    }

    open spec fn i64_form(s: Seq<u8>) -> TagRead<int> {
        source_var_i64(s)
    }

    open spec fn float_form(s: Seq<u8>, n: nat) -> TagRead<nat> {
        little_unsigned(s, n)
    }

    open spec fn length_form(s: Seq<u8>) -> TagRead<nat> {
        match source_groups(s, 5, NbtError::VarIntTooLarge) {
            TagRead { value: Ok(n), rest } => tag_done(n % pow256(4), rest),
            TagRead { value: Err(e), rest } => tag_fail(e, rest),
        }
    }

    open spec fn i32_array_form(s: Seq<u8>, n: nat) -> TagRead<Seq<int>> {
        source_array(s, n, |s: Seq<u8>| source_var_i32(s))
    }

    open spec fn i64_array_form(s: Seq<u8>, n: nat) -> TagRead<Seq<int>> {
        source_array(s, n, |s: Seq<u8>| source_var_i64(s))
    }

    fn account(&mut self, amount: usize) -> (r: Result<(), NbtError>) {
        Ok(())
    }

    fn reader(&mut self) -> (r: &mut D) {
        &mut self.reader
    }

    fn skip_bytes(&mut self, count: i64) -> (r: Result<(), NbtError>) {
        self.reader.seek_relative(count)
    }

    fn skip_string(&mut self) -> (r: Result<(), NbtError>) {
        proof {
            lemma_bedrock_forms::<D>(self.left(), 0);
        }
        let len: u32 = self.get_string_len()?;
        self.reader.skip_forward(len as u64);
        Ok(())
    }

    fn get_u8(&mut self) -> (r: Result<u8, NbtError>) {
        let v: u8 = self.reader.read_u8()?;
        proof {
            lemma_single(v);
        }
        Ok(v)
    }

    fn get_i8(&mut self) -> (r: Result<i8, NbtError>) {
        Ok(i8_of_u8(self.get_u8()?))
    }

    fn get_i16(&mut self) -> (r: Result<i16, NbtError>) {
        proof {
            lemma_bedrock_forms::<D>(self.left(), 0);
            lemma_pow256();
        }
        Ok(i16_of_u16(self.get_little(2)? as u16))
    }

    fn get_i32(&mut self) -> (r: Result<i32, NbtError>) {
        proof {
            lemma_bedrock_forms::<D>(self.left(), 0);
        }
        Ok(decode_zigzag_i32(read_var_u32(&mut self.reader)?))
    }

    fn get_i64(&mut self) -> (r: Result<i64, NbtError>) {
        proof {
            lemma_bedrock_forms::<D>(self.left(), 0);
        }
        Ok(decode_zigzag_i64(read_var_u64(&mut self.reader)?))
    }

    fn get_f32(&mut self) -> (r: Result<u32, NbtError>) {
        proof {
            lemma_bedrock_forms::<D>(self.left(), 4);
            lemma_pow256();
        }
        Ok(self.get_little(4)? as u32)
    }

    fn get_f64(&mut self) -> (r: Result<u64, NbtError>) {
        proof {
            lemma_bedrock_forms::<D>(self.left(), 8);
            lemma_pow256();
        }
        Ok(self.get_little(8)? as u64)
    }

    fn get_i32_array(&mut self, len: usize) -> (r: Result<Vec<i32>, NbtError>) {
        proof {
            lemma_bedrock_forms::<D>(self.left(), len as nat);
        }
        read_var_i32_array(&mut self.reader, len)
    }

    fn get_i64_array(&mut self, len: usize) -> (r: Result<Vec<i64>, NbtError>) {
        proof {
            lemma_bedrock_forms::<D>(self.left(), len as nat);
        }
        read_var_i64_array(&mut self.reader, len)
    }

    fn get_byte_array(&mut self, len: usize) -> (r: Result<Vec<i8>, NbtError>) {
        self.reader.read_byte_array(len)
    }

    fn get_string(&mut self) -> (r: Result<String, NbtError>) {
        proof {
            lemma_bedrock_forms::<D>(self.left(), 0);
        }
        let len: u32 = self.get_string_len()?;
        self.reader.read_string(len as usize)
    }
}

} // verus!
