//! The binary encoding of the fixed-width scalars, and the trait that every
//! encodable type implements.

use vstd::prelude::*;
use vstd::slice::slice_subrange;
use crate::constants::MAX_ARRAY_LENGTH;
use crate::status_codes::{StatusCode, BAD_DECODING_ERROR, BAD_ENCODING_LIMITS_EXCEEDED};

verus! {

pub type EncodingResult<T> = Result<T, StatusCode>;

/// A type with a binary wire form.
///
/// `wire` is the byte sequence that stands for a value and `parse` reads a
/// value from the front of a byte sequence, telling how many bytes it took.
/// Both are stated over the view of the type.
pub trait BinaryEncoder: View + Sized {
    /// The bytes that stand for `v`.
    spec fn wire(v: Self::V) -> Seq<u8>;

    /// The value at the front of `s` and the number of bytes it takes, or
    /// the reason why there is none.
    spec fn parse(s: Seq<u8>) -> Result<(Self::V, int), StatusCode>;

    /// True when every length in `v` fits its length prefix.
    spec fn encodable(v: Self::V) -> bool;

    /// True when `v` is encodable, within the limits of the decoder, and in
    /// the form in which a decoder hands values out: the values that come
    /// back unchanged from their wire form.
    spec fn canonical(v: Self::V) -> bool;

    /// Parsing the wire form of a value gives the value back, whatever
    /// follows it.
    proof fn lemma_round_trip(v: Self::V, rest: Seq<u8>)
        requires
            Self::canonical(v),
        ensures
            Self::encodable(v),
            Self::parse(Self::wire(v) + rest) == Ok::<(Self::V, int), StatusCode>(
                (v, Self::wire(v).len() as int),
            ),
    ;

    /// A successful parse takes at least one and at most all of the bytes.
    proof fn lemma_parse_consumes(s: Seq<u8>)
        ensures
            Self::parse(s) matches Ok((v, n)) ==> 0 < n <= s.len(),
    ;

    /// Tells whether the value can be encoded.
    fn is_encodable(&self) -> (r: bool)
        ensures
            r == Self::encodable(self@),
    ;

    /// The length of the wire form.
    fn byte_len(&self) -> (n: usize)
        requires
            Self::wire(self@).len() <= usize::MAX,
        ensures
            n == Self::wire(self@).len(),
    ;

    /// Appends the wire form to `stream` and returns its length. A value
    /// that is not encodable leaves the stream as it was.
    fn encode(&self, stream: &mut Vec<u8>) -> (r: EncodingResult<usize>)
        ensures
            Self::encodable(self@) ==> r == Ok::<usize, StatusCode>(
                Self::wire(self@).len() as usize,
            ) && final(stream)@ == old(stream)@ + Self::wire(self@),
            !Self::encodable(self@) ==> r == Err::<usize, StatusCode>(
                BAD_ENCODING_LIMITS_EXCEEDED,
            ) && final(stream)@ == old(stream)@,
    ;

    /// Reads a value from the front of `stream` and returns it with the
    /// number of bytes read.
    fn decode(stream: &[u8]) -> (r: EncodingResult<(Self, usize)>)
        ensures
            match Self::parse(stream@) {
                Ok((v, n)) => r matches Ok((x, m)) && x@ == v && m == n && m <= stream@.len(),
                Err(e) => r matches Err(f) && f == e,
            },
    ;
}

/// The two's complement of `x` in a word of `modulus` values.
pub open spec fn to_unsigned(x: int, modulus: int) -> int {
    if x < 0 {
        x + modulus
    } else {
        x
    }
}

/// The signed reading of the word `x` of `modulus` values.
pub open spec fn to_signed(x: int, modulus: int) -> int {
    if 2 * x >= modulus {
        x - modulus
    } else {
        x
    }
}

/// The two bytes of `x`, least significant first.
pub open spec fn le_bytes_2(x: int) -> Seq<u8> {
    seq![(x % 256) as u8, ((x / 256) % 256) as u8]
}

/// The four bytes of `x`, least significant first.
pub open spec fn le_bytes_4(x: int) -> Seq<u8> {
    seq![
        (x % 256) as u8,
        ((x / 256) % 256) as u8,
        ((x / 65536) % 256) as u8,
        ((x / 16777216) % 256) as u8,
    ]
}

/// The eight bytes of `x`, least significant first.
pub open spec fn le_bytes_8(x: int) -> Seq<u8> {
    le_bytes_4(x % 4294967296) + le_bytes_4(x / 4294967296)
}

/// The number that the first two bytes of `s` spell, least significant first.
pub open spec fn le_value_2(s: Seq<u8>) -> int {
    s[0] + 256 * s[1]
}

/// The number that the first four bytes of `s` spell.
pub open spec fn le_value_4(s: Seq<u8>) -> int {
    s[0] + 256 * s[1] + 65536 * s[2] + 16777216 * s[3]
}

/// The number that the first eight bytes of `s` spell.
pub open spec fn le_value_8(s: Seq<u8>) -> int {
    le_value_4(s) + 4294967296 * le_value_4(s.skip(4))
}

pub proof fn lemma_le_2(x: int, rest: Seq<u8>)
    requires
        0 <= x < 65536,
    ensures
        le_bytes_2(x).len() == 2,
        le_value_2(le_bytes_2(x) + rest) == x,
        (le_bytes_2(x) + rest).skip(2) == rest,
{
    assert((le_bytes_2(x) + rest).skip(2) =~= rest);
}

pub proof fn lemma_le_4(x: int, rest: Seq<u8>)
    requires
        0 <= x < 4294967296,
    ensures
        le_bytes_4(x).len() == 4,
        le_value_4(le_bytes_4(x) + rest) == x,
        (le_bytes_4(x) + rest).skip(4) == rest,
{
    assert((le_bytes_4(x) + rest).skip(4) =~= rest);
}

pub proof fn lemma_le_8(x: int, rest: Seq<u8>)
    requires
        0 <= x < 18446744073709551616,
    ensures
        le_bytes_8(x).len() == 8,
        le_value_8(le_bytes_8(x) + rest) == x,
        (le_bytes_8(x) + rest).skip(8) == rest,
{
    let lo = x % 4294967296;
    let hi = x / 4294967296;
    let s = le_bytes_8(x) + rest;
    assert(s.skip(8) =~= rest);
    assert(s =~= le_bytes_4(lo) + (le_bytes_4(hi) + rest));
    lemma_le_4(lo, le_bytes_4(hi) + rest);
    lemma_le_4(hi, rest);
}


/// Appends one byte.
pub fn write_u8(stream: &mut Vec<u8>, value: u8) -> (r: EncodingResult<usize>)
    ensures
        r == Ok::<usize, StatusCode>(1usize),
        final(stream)@ == old(stream)@ + seq![value],
{
    stream.push(value);
    assert(stream@ =~= old(stream)@ + seq![value]);
    Ok(1)
}

/// Appends the two bytes of `value`, least significant first.
pub fn write_u16(stream: &mut Vec<u8>, value: u16) -> (r: EncodingResult<usize>)
    ensures
        r == Ok::<usize, StatusCode>(2usize),
        final(stream)@ == old(stream)@ + le_bytes_2(value as int),
{
    stream.push((value % 256) as u8);
    stream.push((value / 256) as u8);
    assert(stream@ =~= old(stream)@ + le_bytes_2(value as int));
    Ok(2)
}

/// Appends the four bytes of `value`, least significant first.
pub fn write_u32(stream: &mut Vec<u8>, value: u32) -> (r: EncodingResult<usize>)
    ensures
        r == Ok::<usize, StatusCode>(4usize),
        final(stream)@ == old(stream)@ + le_bytes_4(value as int),
{
    stream.push((value % 256) as u8);
    stream.push(((value / 256) % 256) as u8);
    stream.push(((value / 65536) % 256) as u8);
    stream.push((value / 16777216) as u8);
    assert(stream@ =~= old(stream)@ + le_bytes_4(value as int));
    Ok(4)
}

/// Appends the eight bytes of `value`, least significant first.
pub fn write_u64(stream: &mut Vec<u8>, value: u64) -> (r: EncodingResult<usize>)
    ensures
        r == Ok::<usize, StatusCode>(8usize),
        final(stream)@ == old(stream)@ + le_bytes_8(value as int),
{
    let lo: u32 = (value % 4294967296) as u32;
    let hi: u32 = (value / 4294967296) as u32;
    let _ = write_u32(stream, lo);
    let _ = write_u32(stream, hi);
    assert(stream@ =~= old(stream)@ + le_bytes_8(value as int));
    Ok(8)
}

/// Appends `value` as one byte in two's complement.
pub fn write_i8(stream: &mut Vec<u8>, value: i8) -> (r: EncodingResult<usize>)
    ensures
        r == Ok::<usize, StatusCode>(1usize),
        final(stream)@ == old(stream)@ + seq![to_unsigned(value as int, 256) as u8],
{
    let word: u8 = if value >= 0 {
        value as u8
    } else {
        (value + 127 + 1) as u8 + 128
    };
    write_u8(stream, word)
}

/// Appends `value` as two bytes in two's complement.
pub fn write_i16(stream: &mut Vec<u8>, value: i16) -> (r: EncodingResult<usize>)
    ensures
        r == Ok::<usize, StatusCode>(2usize),
        final(stream)@ == old(stream)@ + le_bytes_2(to_unsigned(value as int, 65536)),
{
    let word: u16 = if value >= 0 {
        value as u16
    } else {
        (value + 32767 + 1) as u16 + 32768
    };
    write_u16(stream, word)
}

/// Appends `value` as four bytes in two's complement.
pub fn write_i32(stream: &mut Vec<u8>, value: i32) -> (r: EncodingResult<usize>)
    ensures
        r == Ok::<usize, StatusCode>(4usize),
        final(stream)@ == old(stream)@ + le_bytes_4(to_unsigned(value as int, 4294967296)),
{
    let word: u32 = if value >= 0 {
        value as u32
    } else {
        (value + 2147483647 + 1) as u32 + 2147483648
    };
    write_u32(stream, word)
}

/// Appends `value` as eight bytes in two's complement.
pub fn write_i64(stream: &mut Vec<u8>, value: i64) -> (r: EncodingResult<usize>)
    ensures
        r == Ok::<usize, StatusCode>(8usize),
        final(stream)@ == old(stream)@ + le_bytes_8(
            to_unsigned(value as int, 18446744073709551616),
        ),
{
    let word: u64 = if value >= 0 {
        value as u64
    } else {
        (value + 9223372036854775807 + 1) as u64 + 9223372036854775808
    };
    write_u64(stream, word)
}

/// Reads one byte from the front of `stream`.
pub fn read_u8(stream: &[u8]) -> (r: EncodingResult<(u8, usize)>)
    ensures
        stream@.len() >= 1 ==> r == Ok::<(u8, usize), StatusCode>((stream@[0], 1usize)),
        stream@.len() < 1 ==> r == Err::<(u8, usize), StatusCode>(BAD_DECODING_ERROR),
{
    if stream.len() < 1 {
        Err(BAD_DECODING_ERROR)
    } else {
        Ok((stream[0], 1))
    }
}

/// Reads two bytes from the front of `stream`, least significant first.
pub fn read_u16(stream: &[u8]) -> (r: EncodingResult<(u16, usize)>)
    ensures
        stream@.len() >= 2 ==> r == Ok::<(u16, usize), StatusCode>(
            (le_value_2(stream@) as u16, 2usize),
        ),
        stream@.len() < 2 ==> r == Err::<(u16, usize), StatusCode>(BAD_DECODING_ERROR),
{
    if stream.len() < 2 {
        Err(BAD_DECODING_ERROR)
    } else {
        let b0: u16 = stream[0] as u16;
        let b1: u16 = stream[1] as u16;
        Ok((b0 + 256 * b1, 2))
    }
}

/// Reads four bytes from the front of `stream`, least significant first.
pub fn read_u32(stream: &[u8]) -> (r: EncodingResult<(u32, usize)>)
    ensures
        stream@.len() >= 4 ==> r == Ok::<(u32, usize), StatusCode>(
            (le_value_4(stream@) as u32, 4usize),
        ),
        stream@.len() < 4 ==> r == Err::<(u32, usize), StatusCode>(BAD_DECODING_ERROR),
{
    if stream.len() < 4 {
        Err(BAD_DECODING_ERROR)
    } else {
        let b0: u32 = stream[0] as u32;
        let b1: u32 = stream[1] as u32;
        let b2: u32 = stream[2] as u32;
        let b3: u32 = stream[3] as u32;
        Ok((b0 + 256 * b1 + 65536 * b2 + 16777216 * b3, 4))
    }
}

/// Reads eight bytes from the front of `stream`, least significant first.
pub fn read_u64(stream: &[u8]) -> (r: EncodingResult<(u64, usize)>)
    ensures
        stream@.len() >= 8 ==> r == Ok::<(u64, usize), StatusCode>(
            (le_value_8(stream@) as u64, 8usize),
        ),
        stream@.len() < 8 ==> r == Err::<(u64, usize), StatusCode>(BAD_DECODING_ERROR),
{
    if stream.len() < 8 {
        Err(BAD_DECODING_ERROR)
    } else {
        let b0: u64 = stream[0] as u64;
        let b1: u64 = stream[1] as u64;
        let b2: u64 = stream[2] as u64;
        let b3: u64 = stream[3] as u64;
        let b4: u64 = stream[4] as u64;
        let b5: u64 = stream[5] as u64;
        let b6: u64 = stream[6] as u64;
        let b7: u64 = stream[7] as u64;
        let lo: u64 = b0 + 256 * b1 + 65536 * b2 + 16777216 * b3;
        let hi: u64 = b4 + 256 * b5 + 65536 * b6 + 16777216 * b7;
        Ok((lo + 4294967296 * hi, 8))
    }
}

/// Reads one byte in two's complement.
pub fn read_i8(stream: &[u8]) -> (r: EncodingResult<(i8, usize)>)
    ensures
        stream@.len() >= 1 ==> r == Ok::<(i8, usize), StatusCode>(
            (to_signed(stream@[0] as int, 256) as i8, 1usize),
        ),
        stream@.len() < 1 ==> r == Err::<(i8, usize), StatusCode>(BAD_DECODING_ERROR),
{
    let (word, n) = read_u8(stream)?;
    let value: i8 = if word >= 128 {
        (word - 128) as i8 - 127 - 1
    } else {
        word as i8
    };
    Ok((value, n))
}

/// Reads two bytes in two's complement.
pub fn read_i16(stream: &[u8]) -> (r: EncodingResult<(i16, usize)>)
    ensures
        stream@.len() >= 2 ==> r == Ok::<(i16, usize), StatusCode>(
            (to_signed(le_value_2(stream@), 65536) as i16, 2usize),
        ),
        stream@.len() < 2 ==> r == Err::<(i16, usize), StatusCode>(BAD_DECODING_ERROR),
{
    let (word, n) = read_u16(stream)?;
    let value: i16 = if word >= 32768 {
        (word - 32768) as i16 - 32767 - 1
    } else {
        word as i16
    };
    Ok((value, n))
}

/// Reads four bytes in two's complement.
pub fn read_i32(stream: &[u8]) -> (r: EncodingResult<(i32, usize)>)
    ensures
        stream@.len() >= 4 ==> r == Ok::<(i32, usize), StatusCode>(
            (to_signed(le_value_4(stream@), 4294967296) as i32, 4usize),
        ),
        stream@.len() < 4 ==> r == Err::<(i32, usize), StatusCode>(BAD_DECODING_ERROR),
{
    let (word, n) = read_u32(stream)?;
    let value: i32 = if word >= 2147483648 {
        (word - 2147483648) as i32 - 2147483647 - 1
    } else {
        word as i32
    };
    Ok((value, n))
}

/// Reads eight bytes in two's complement.
pub fn read_i64(stream: &[u8]) -> (r: EncodingResult<(i64, usize)>)
    ensures
        stream@.len() >= 8 ==> r == Ok::<(i64, usize), StatusCode>(
            (to_signed(le_value_8(stream@), 18446744073709551616) as i64, 8usize),
        ),
        stream@.len() < 8 ==> r == Err::<(i64, usize), StatusCode>(BAD_DECODING_ERROR),
{
    let (word, n) = read_u64(stream)?;
    let value: i64 = if word >= 9223372036854775808 {
        (word - 9223372036854775808) as i64 - 9223372036854775807 - 1
    } else {
        word as i64
    };
    Ok((value, n))
}

/// The rest of `stream` after its first `n` bytes.
pub fn skip_bytes(stream: &[u8], n: usize) -> (rest: &[u8])
    requires
        n <= stream@.len(),
    ensures
        rest@ == stream@.skip(n as int),
        rest@.len() + n == stream@.len(),
        stream@.len() <= usize::MAX,
{
    slice_subrange(stream, n, stream.len())
}

/// The wire form of a length prefix: four bytes in two's complement.
pub open spec fn length_prefix(n: int) -> Seq<u8> {
    le_bytes_4(to_unsigned(n, 4294967296))
}

/// The length that the first four bytes of `s` announce.
pub open spec fn announced_length(s: Seq<u8>) -> int {
    to_signed(le_value_4(s), 4294967296)
}

pub proof fn lemma_length_prefix(n: int, rest: Seq<u8>)
    requires
        -2147483648 <= n < 2147483648,
    ensures
        length_prefix(n).len() == 4,
        announced_length(length_prefix(n) + rest) == n,
        (length_prefix(n) + rest).skip(4) == rest,
{
    lemma_le_4(to_unsigned(n, 4294967296), rest);
}

/// How a byte sequence made of two parts and a rest falls apart.
pub proof fn lemma_two_parts(a: Seq<u8>, b: Seq<u8>, rest: Seq<u8>)
    ensures
        a + b + rest == a + (b + rest),
        (a + b + rest).skip(a.len() as int) == b + rest,
        (a + b + rest).skip(a.len() as int + b.len() as int) == rest,
        (a + b + rest).len() == a.len() + b.len() + rest.len(),
{
    let s = a + b + rest;
    assert(s =~= a + (b + rest));
    assert(s.skip(a.len() as int) =~= b + rest);
    assert(s.skip(a.len() as int + b.len() as int) =~= rest);
}

/// How a byte sequence made of three parts and a rest falls apart.
pub proof fn lemma_three_parts(a: Seq<u8>, b: Seq<u8>, c: Seq<u8>, rest: Seq<u8>)
    ensures
        a + b + c + rest == a + (b + (c + rest)),
        (a + b + c + rest).skip(a.len() as int) == b + (c + rest),
        (a + b + c + rest).skip(a.len() as int + b.len() as int) == c + rest,
        (a + b + c + rest).len() == a.len() + b.len() + c.len() + rest.len(),
{
    let s = a + b + c + rest;
    assert(s =~= a + (b + (c + rest)));
    assert(s.skip(a.len() as int) =~= b + (c + rest));
    assert(s.skip(a.len() as int + b.len() as int) =~= c + rest);
}

/// How a byte sequence made of four parts and a rest falls apart.
pub proof fn lemma_four_parts(a: Seq<u8>, b: Seq<u8>, c: Seq<u8>, d: Seq<u8>, rest: Seq<u8>)
    ensures
        a + b + c + d + rest == a + (b + (c + (d + rest))),
        (a + b + c + d + rest).skip(a.len() as int) == b + (c + (d + rest)),
        (a + b + c + d + rest).skip(a.len() as int + b.len() as int) == c + (d + rest),
        (a + b + c + d + rest).skip(a.len() as int + b.len() as int + c.len() as int) == d + rest,
        (a + b + c + d + rest).len() == a.len() + b.len() + c.len() + d.len() + rest.len(),
{
    let s = a + b + c + d + rest;
    assert(s =~= a + (b + (c + (d + rest))));
    assert(s.skip(a.len() as int) =~= b + (c + (d + rest)));
    assert(s.skip(a.len() as int + b.len() as int) =~= c + (d + rest));
    assert(s.skip(a.len() as int + b.len() as int + c.len() as int) =~= d + rest);
}

/// Skipping twice is skipping once.
pub proof fn lemma_skip_skip(s: Seq<u8>, a: int, b: int)
    requires
        0 <= a,
        0 <= b,
        a + b <= s.len(),
    ensures
        s.skip(a).skip(b) == s.skip(a + b),
{
    assert(s.skip(a).skip(b) =~= s.skip(a + b));
}

/// True when the bit `flag`, a power of two, is set in `mask`.
pub open spec fn has_flag(mask: u8, flag: u8) -> bool {
    (mask as int / flag as int) % 2 == 1
}

/// Tells whether the bit `flag` is set in `mask`.
pub fn flag_is_set(mask: u8, flag: u8) -> (r: bool)
    requires
        flag > 0,
    ensures
        r == has_flag(mask, flag),
{
    (mask / flag) % 2 == 1
}

/// `flag` when `present`, else 0.
pub open spec fn flag_if(present: bool, flag: u8) -> int {
    if present {
        flag as int
    } else {
        0
    }
}

/// A value comes back from its wire form, and what follows the wire form
/// is what was put behind it.
pub proof fn lemma_field<T: BinaryEncoder>(v: T::V, rest: Seq<u8>)
    requires
        T::canonical(v),
    ensures
        T::encodable(v),
        T::parse(T::wire(v) + rest) == Ok::<(T::V, int), StatusCode>(
            (v, T::wire(v).len() as int),
        ),
        (T::wire(v) + rest).skip(T::wire(v).len() as int) == rest,
{
    T::lemma_round_trip(v, rest);
    assert((T::wire(v) + rest).skip(T::wire(v).len() as int) =~= rest);
}

/// The view of a field that may be absent.
pub open spec fn opt_view<T: View>(o: Option<T>) -> Option<T::V> {
    match o {
        Some(x) => Some(x@),
        None => None,
    }
}

/// The wire form of a field that may be absent: nothing when it is.
#[verifier::opaque]
pub open spec fn wire_opt<T: BinaryEncoder>(v: Option<T::V>) -> Seq<u8> {
    match v {
        Some(x) => T::wire(x),
        None => Seq::empty(),
    }
}

/// The field at the front of `s`, which is there when `present`.
#[verifier::opaque]
pub open spec fn parse_opt<T: BinaryEncoder>(present: bool, s: Seq<u8>) -> Result<
    (Option<T::V>, int),
    StatusCode,
> {
    if present {
        match T::parse(s) {
            Ok((v, n)) => Ok((Some(v), n)),
            Err(e) => Err(e),
        }
    } else {
        Ok((None, 0))
    }
}

pub open spec fn encodable_opt<T: BinaryEncoder>(v: Option<T::V>) -> bool {
    v matches Some(x) ==> T::encodable(x)
}

pub open spec fn canonical_opt<T: BinaryEncoder>(v: Option<T::V>) -> bool {
    v matches Some(x) ==> T::canonical(x)
}

/// A field that may be absent comes back from its wire form when the
/// reader is told whether it is there.
pub proof fn lemma_round_trip_opt<T: BinaryEncoder>(v: Option<T::V>, rest: Seq<u8>)
    requires
        canonical_opt::<T>(v),
    ensures
        encodable_opt::<T>(v),
        parse_opt::<T>(v is Some, wire_opt::<T>(v) + rest) == Ok::<(Option<T::V>, int), StatusCode>(
            (v, wire_opt::<T>(v).len() as int),
        ),
        (wire_opt::<T>(v) + rest).skip(wire_opt::<T>(v).len() as int) == rest,
{
    reveal(wire_opt);
    reveal(parse_opt);
    assert((wire_opt::<T>(v) + rest).skip(wire_opt::<T>(v).len() as int) =~= rest);
    match v {
        Some(x) => {
            T::lemma_round_trip(x, rest);
        },
        None => {},
    }
}

pub proof fn lemma_parse_opt_consumes<T: BinaryEncoder>(present: bool, s: Seq<u8>)
    ensures
        parse_opt::<T>(present, s) matches Ok((v, n)) ==> 0 <= n <= s.len() && (v is Some
            <==> present),
{
    reveal(parse_opt);
    if present {
        T::lemma_parse_consumes(s);
    }
}

/// Tells whether a field that may be absent can be encoded.
pub fn is_encodable_opt<T: BinaryEncoder>(o: &Option<T>) -> (r: bool)
    ensures
        r == encodable_opt::<T>(opt_view(*o)),
{
    match o {
        Some(x) => x.is_encodable(),
        None => true,
    }
}

/// The length of the wire form of a field that may be absent.
pub fn byte_len_opt<T: BinaryEncoder>(o: &Option<T>) -> (n: usize)
    requires
        wire_opt::<T>(opt_view(*o)).len() <= usize::MAX,
    ensures
        n == wire_opt::<T>(opt_view(*o)).len(),
{
    reveal(wire_opt);
    match o {
        Some(x) => x.byte_len(),
        None => 0,
    }
}

/// Appends the wire form of a field that may be absent.
pub fn encode_opt<T: BinaryEncoder>(o: &Option<T>, stream: &mut Vec<u8>)
    requires
        encodable_opt::<T>(opt_view(*o)),
    ensures
        final(stream)@ == old(stream)@ + wire_opt::<T>(opt_view(*o)),
{
    reveal(wire_opt);
    match o {
        Some(x) => {
            let _ = x.encode(stream);
        },
        None => {
            assert(stream@ =~= old(stream)@ + wire_opt::<T>(opt_view(*o)));
        },
    }
}

/// Reads a field that is there when `present`.
pub fn decode_opt<T: BinaryEncoder>(present: bool, stream: &[u8]) -> (r: EncodingResult<
    (Option<T>, usize),
>)
    ensures
        match parse_opt::<T>(present, stream@) {
            Ok((v, n)) => r matches Ok((x, m)) && opt_view(x) == v && m == n && m
                <= stream@.len(),
            Err(e) => r matches Err(f) && f == e,
        },
{
    reveal(parse_opt);
    if present {
        let (x, n) = T::decode(stream)?;
        Ok((Some(x), n))
    } else {
        Ok((None, 0))
    }
}

/// The views of the elements of `items`.
pub open spec fn seq_view<T: View>(items: Seq<T>) -> Seq<T::V> {
    Seq::new(items.len(), |i: int| items[i]@)
}

/// The view of an array that may be absent.
pub open spec fn array_view<T: View>(o: Option<Vec<T>>) -> Option<Seq<T::V>> {
    match o {
        Some(v) => Some(seq_view(v@)),
        None => None,
    }
}

/// The wire forms of `items` one after the other.
pub open spec fn wire_elements<T: BinaryEncoder>(items: Seq<T::V>) -> Seq<u8>
    decreases items.len(),
{
    if items.len() == 0 {
        Seq::empty()
    } else {
        T::wire(items[0]) + wire_elements::<T>(items.skip(1))
    }
}

/// The wire form of an array: a length prefix, then the elements. An
/// array that is absent is the prefix -1 alone.
pub open spec fn wire_array<T: BinaryEncoder>(v: Option<Seq<T::V>>) -> Seq<u8> {
    match v {
        Some(items) => length_prefix(items.len() as int) + wire_elements::<T>(items),
        None => length_prefix(-1),
    }
}

/// The `count` elements at the front of `s`.
pub open spec fn parse_elements<T: BinaryEncoder>(count: nat, s: Seq<u8>) -> Result<
    (Seq<T::V>, int),
    StatusCode,
>
    decreases count,
{
    if count == 0 {
        Ok((Seq::empty(), 0))
    } else {
        match T::parse(s) {
            Ok((v, n)) => match parse_elements::<T>((count - 1) as nat, s.skip(n)) {
                Ok((tail, m)) => Ok((seq![v] + tail, n + m)),
                Err(e) => Err(e),
            },
            Err(e) => Err(e),
        }
    }
}

/// The array at the front of `s`.
pub open spec fn parse_array<T: BinaryEncoder>(s: Seq<u8>) -> Result<
    (Option<Seq<T::V>>, int),
    StatusCode,
> {
    if s.len() < 4 {
        Err(BAD_DECODING_ERROR)
    } else {
        let n = announced_length(s);
        if n == -1 {
            Ok((None, 4))
        } else if n < -1 {
            Err(BAD_DECODING_ERROR)
        } else if n > MAX_ARRAY_LENGTH {
            Err(BAD_ENCODING_LIMITS_EXCEEDED)
        } else {
            match parse_elements::<T>(n as nat, s.skip(4)) {
                Ok((items, m)) => Ok((Some(items), 4 + m)),
                Err(e) => Err(e),
            }
        }
    }
}

pub open spec fn encodable_elements<T: BinaryEncoder>(items: Seq<T::V>) -> bool {
    forall|i: int| 0 <= i < items.len() ==> T::encodable(#[trigger] items[i])
}

pub open spec fn encodable_array<T: BinaryEncoder>(v: Option<Seq<T::V>>) -> bool {
    v matches Some(items) ==> items.len() <= i32::MAX && encodable_elements::<T>(items)
}

pub open spec fn canonical_array<T: BinaryEncoder>(v: Option<Seq<T::V>>) -> bool {
    v matches Some(items) ==> items.len() <= MAX_ARRAY_LENGTH && forall|i: int|
        0 <= i < items.len() ==> T::canonical(#[trigger] items[i])
}

pub proof fn lemma_wire_elements_push<T: BinaryEncoder>(items: Seq<T::V>, last: T::V)
    ensures
        wire_elements::<T>(items.push(last)) == wire_elements::<T>(items) + T::wire(last),
    decreases items.len(),
{
    let all = items.push(last);
    if items.len() == 0 {
        assert(all.skip(1) =~= Seq::<T::V>::empty());
        assert(wire_elements::<T>(all.skip(1)) =~= Seq::<u8>::empty());
        assert(wire_elements::<T>(all) =~= T::wire(last) + Seq::<u8>::empty());
        assert(wire_elements::<T>(items) + T::wire(last) =~= T::wire(last));
    } else {
        assert(all.skip(1) =~= items.skip(1).push(last));
        lemma_wire_elements_push::<T>(items.skip(1), last);
        assert(wire_elements::<T>(all) =~= wire_elements::<T>(items) + T::wire(last));
    }
}

/// Elements come back from their wire forms, whatever follows.
pub proof fn lemma_round_trip_elements<T: BinaryEncoder>(items: Seq<T::V>, rest: Seq<u8>)
    requires
        forall|i: int| 0 <= i < items.len() ==> T::canonical(#[trigger] items[i]),
    ensures
        encodable_elements::<T>(items),
        parse_elements::<T>(items.len(), wire_elements::<T>(items) + rest) == Ok::<
            (Seq<T::V>, int),
            StatusCode,
        >((items, wire_elements::<T>(items).len() as int)),
    decreases items.len(),
{
    if items.len() == 0 {
        assert(items =~= Seq::<T::V>::empty());
    } else {
        let head = T::wire(items[0]);
        let tail = wire_elements::<T>(items.skip(1));
        let s = wire_elements::<T>(items) + rest;
        assert(T::canonical(items[0]));
        assert(s =~= head + (tail + rest));
        T::lemma_round_trip(items[0], tail + rest);
        assert(s.skip(head.len() as int) =~= tail + rest);
        assert forall|i: int| 0 <= i < items.skip(1).len() implies T::canonical(
            #[trigger] items.skip(1)[i],
        ) by {
            assert(T::canonical(items[i + 1]));
        }
        lemma_round_trip_elements::<T>(items.skip(1), rest);
        assert(seq![items[0]] + items.skip(1) =~= items);
        assert(parse_elements::<T>((items.len() - 1) as nat, s.skip(head.len() as int)) == Ok::<
            (Seq<T::V>, int),
            StatusCode,
        >((items.skip(1), tail.len() as int)));
        assert forall|i: int| 0 <= i < items.len() implies T::encodable(#[trigger] items[i]) by {
            if i > 0 {
                assert(T::encodable(items.skip(1)[i - 1]));
            }
        }
    }
}

/// An array comes back from its wire form, whatever follows.
pub proof fn lemma_round_trip_array<T: BinaryEncoder>(v: Option<Seq<T::V>>, rest: Seq<u8>)
    requires
        canonical_array::<T>(v),
    ensures
        encodable_array::<T>(v),
        parse_array::<T>(wire_array::<T>(v) + rest) == Ok::<(Option<Seq<T::V>>, int), StatusCode>(
            (v, wire_array::<T>(v).len() as int),
        ),
        (wire_array::<T>(v) + rest).skip(wire_array::<T>(v).len() as int) == rest,
{
    assert((wire_array::<T>(v) + rest).skip(wire_array::<T>(v).len() as int) =~= rest);
    match v {
        Some(items) => {
            let body = wire_elements::<T>(items);
            let s = wire_array::<T>(v) + rest;
            assert(s =~= length_prefix(items.len() as int) + (body + rest));
            lemma_length_prefix(items.len() as int, body + rest);
            lemma_round_trip_elements::<T>(items, rest);
        },
        None => {
            lemma_length_prefix(-1, rest);
        },
    }
}

pub proof fn lemma_parse_elements_consumes<T: BinaryEncoder>(count: nat, s: Seq<u8>)
    ensures
        parse_elements::<T>(count, s) matches Ok((items, n)) ==> 0 <= n <= s.len() && items.len()
            == count,
    decreases count,
{
    if count > 0 {
        T::lemma_parse_consumes(s);
        if let Ok((v, n)) = T::parse(s) {
            lemma_parse_elements_consumes::<T>((count - 1) as nat, s.skip(n));
        }
    }
}

pub proof fn lemma_parse_array_consumes<T: BinaryEncoder>(s: Seq<u8>)
    ensures
        parse_array::<T>(s) matches Ok((v, n)) ==> 4 <= n <= s.len(),
{
    if s.len() >= 4 && announced_length(s) >= 0 {
        lemma_parse_elements_consumes::<T>(announced_length(s) as nat, s.skip(4));
    }
}

/// Splits the reading of `count` elements after the first `done` of them.
pub proof fn lemma_parse_elements_split<T: BinaryEncoder>(
    count: nat,
    s: Seq<u8>,
    done: nat,
    items: Seq<T::V>,
    pos: int,
)
    requires
        done <= count,
        parse_elements::<T>(done, s) == Ok::<(Seq<T::V>, int), StatusCode>((items, pos)),
    ensures
        0 <= pos <= s.len(),
        parse_elements::<T>(count, s) == match parse_elements::<T>(
            (count - done) as nat,
            s.skip(pos),
        ) {
            Ok((tail, m)) => Ok::<(Seq<T::V>, int), StatusCode>((items + tail, pos + m)),
            Err(e) => Err(e),
        },
    decreases done,
{
    lemma_parse_elements_consumes::<T>(done, s);
    if done == 0 {
        assert(s.skip(0) =~= s);
        match parse_elements::<T>(count, s) {
            Ok((tail, m)) => {
                assert(items + tail =~= tail);
            },
            Err(e) => {},
        }
    } else {
        T::lemma_parse_consumes(s);
        let (v, n) = T::parse(s)->Ok_0;
        let (tail0, m0) = parse_elements::<T>((done - 1) as nat, s.skip(n))->Ok_0;
        assert(items == seq![v] + tail0);
        lemma_parse_elements_split::<T>((count - 1) as nat, s.skip(n), (done - 1) as nat, tail0, m0);
        assert(s.skip(n).skip(m0) =~= s.skip(pos));
        match parse_elements::<T>((count - done) as nat, s.skip(pos)) {
            Ok((tail, m)) => {
                assert(seq![v] + (tail0 + tail) =~= items + tail);
            },
            Err(e) => {},
        }
    }
}

/// Reading one more element after `done` of them.
pub proof fn lemma_parse_elements_step<T: BinaryEncoder>(
    s: Seq<u8>,
    done: nat,
    items: Seq<T::V>,
    pos: int,
)
    requires
        parse_elements::<T>(done, s) == Ok::<(Seq<T::V>, int), StatusCode>((items, pos)),
    ensures
        parse_elements::<T>(done + 1, s) == match T::parse(s.skip(pos)) {
            Ok((v, n)) => Ok::<(Seq<T::V>, int), StatusCode>((items.push(v), pos + n)),
            Err(e) => Err(e),
        },
{
    lemma_parse_elements_split::<T>(done + 1, s, done, items, pos);
    match T::parse(s.skip(pos)) {
        Ok((v, n)) => {
            assert(parse_elements::<T>(0, s.skip(pos).skip(n)) == Ok::<(Seq<T::V>, int), StatusCode>(
                (Seq::empty(), 0),
            ));
            assert(items + (seq![v] + Seq::<T::V>::empty()) =~= items.push(v));
        },
        Err(e) => {},
    }
}

/// Tells whether an array can be encoded.
#[verifier::loop_isolation(false)]
pub fn is_encodable_array<T: BinaryEncoder>(values: &Option<Vec<T>>) -> (r: bool)
    ensures
        r == encodable_array::<T>(array_view(*values)),
{
    match values {
        Some(v) => {
            if v.len() > 2147483647 {
                return false;
            }
            let mut i: usize = 0;
            while i < v.len()
                invariant
                    0 <= i <= v.len(),
                    v.len() <= i32::MAX,
                    forall|j: int| 0 <= j < i ==> T::encodable(#[trigger] seq_view(v@)[j]),
                decreases v.len() - i,
            {
                assert(seq_view(v@)[i as int] == v@[i as int]@);
                if !v[i].is_encodable() {
                    return false;
                }
                i += 1;
            }
            true
        },
        None => true,
    }
}

/// The length of the wire form of an array.
#[verifier::loop_isolation(false)]
pub fn byte_len_array<T: BinaryEncoder>(values: &Option<Vec<T>>) -> (n: usize)
    requires
        wire_array::<T>(array_view(*values)).len() <= usize::MAX,
    ensures
        n == wire_array::<T>(array_view(*values)).len(),
{
    proof {
        lemma_length_prefix(0, Seq::empty());
    }
    match values {
        Some(v) => {
            let ghost items = seq_view(v@);
            let mut size: usize = 4;
            let mut i: usize = 0;
            proof {
                assert(items.take(0) =~= Seq::<T::V>::empty());
                lemma_wire_elements_monotone::<T>(items, 0);
            }
            while i < v.len()
                invariant
                    0 <= i <= v.len(),
                    items == seq_view(v@),
                    size == 4 + wire_elements::<T>(items.take(i as int)).len(),
                    4 + wire_elements::<T>(items).len() <= usize::MAX,
                decreases v.len() - i,
            {
                proof {
                    assert(items.take(i + 1) =~= items.take(i as int).push(items[i as int]));
                    lemma_wire_elements_push::<T>(items.take(i as int), items[i as int]);
                    lemma_wire_elements_monotone::<T>(items, i + 1);
                }
                size = size + v[i].byte_len();
                i += 1;
            }
            assert(items.take(v.len() as int) =~= items);
            size
        },
        None => 4,
    }
}

/// The wire form of the first elements is no longer than that of all.
pub proof fn lemma_wire_elements_monotone<T: BinaryEncoder>(items: Seq<T::V>, i: int)
    requires
        0 <= i <= items.len(),
    ensures
        wire_elements::<T>(items.take(i)).len() <= wire_elements::<T>(items).len(),
    decreases items.len() - i,
{
    if i < items.len() {
        assert(items.take(i + 1) =~= items.take(i).push(items[i]));
        lemma_wire_elements_push::<T>(items.take(i), items[i]);
        lemma_wire_elements_monotone::<T>(items, i + 1);
    } else {
        assert(items.take(i) =~= items);
    }
}

/// Appends the wire form of an array and returns its length. An array
/// that cannot be encoded leaves the stream as it was.
#[verifier::loop_isolation(false)]
pub fn write_array<T: BinaryEncoder>(stream: &mut Vec<u8>, values: &Option<Vec<T>>) -> (r:
    EncodingResult<usize>)
    ensures
        encodable_array::<T>(array_view(*values)) ==> r == Ok::<usize, StatusCode>(
            wire_array::<T>(array_view(*values)).len() as usize,
        ) && final(stream)@ == old(stream)@ + wire_array::<T>(array_view(*values)),
        !encodable_array::<T>(array_view(*values)) ==> r == Err::<usize, StatusCode>(
            BAD_ENCODING_LIMITS_EXCEEDED,
        ) && final(stream)@ == old(stream)@,
{
    if !is_encodable_array(values) {
        return Err(BAD_ENCODING_LIMITS_EXCEEDED);
    }
    let start = stream.len();
    match values {
        Some(v) => {
            let ghost items = seq_view(v@);
            let _ = write_i32(stream, v.len() as i32);
            let ghost front = stream@;
            let mut i: usize = 0;
            proof {
                assert(items.take(0) =~= Seq::<T::V>::empty());
                assert(stream@ =~= front + wire_elements::<T>(items.take(0)));
            }
            while i < v.len()
                invariant
                    0 <= i <= v.len(),
                    items == seq_view(v@),
                    encodable_elements::<T>(items),
                    stream@ == front + wire_elements::<T>(items.take(i as int)),
                decreases v.len() - i,
            {
                proof {
                    assert(items.take(i + 1) =~= items.take(i as int).push(items[i as int]));
                    lemma_wire_elements_push::<T>(items.take(i as int), items[i as int]);
                    assert(T::encodable(items[i as int]));
                }
                let _ = v[i].encode(stream);
                i += 1;
                assert(stream@ =~= front + wire_elements::<T>(items.take(i as int)));
            }
            assert(items.take(v.len() as int) =~= items);
            assert(stream@ =~= old(stream)@ + wire_array::<T>(array_view(*values)));
        },
        None => {
            let _ = write_i32(stream, -1);
        },
    }
    Ok(stream.len() - start)
}

/// Reads an array from the front of `stream` and returns it with the
/// number of bytes read.
#[verifier::loop_isolation(false)]
pub fn read_array<T: BinaryEncoder>(stream: &[u8]) -> (r: EncodingResult<(Option<Vec<T>>, usize)>)
    ensures
        match parse_array::<T>(stream@) {
            Ok((v, n)) => r matches Ok((x, m)) && array_view(x) == v && m == n && m
                <= stream@.len(),
            Err(e) => r matches Err(f) && f == e,
        },
{
    let (len, _) = read_i32(stream)?;
    if len == -1 {
        return Ok((None, 4));
    } else if len < -1 {
        return Err(BAD_DECODING_ERROR);
    } else if len as usize > MAX_ARRAY_LENGTH {
        return Err(BAD_ENCODING_LIMITS_EXCEEDED);
    }
    let count = len as usize;
    let total = stream.len();
    let body = skip_bytes(stream, 4);
    assert(body@.len() == total - 4);
    let mut values: Vec<T> = Vec::new();
    let mut pos: usize = 0;
    let mut i: usize = 0;
    assert(seq_view(values@) =~= Seq::<T::V>::empty());
    while i < count
        invariant
            0 <= i <= count,
            0 <= pos <= body@.len(),
            values@.len() == i,
            parse_elements::<T>(i as nat, body@) == Ok::<(Seq<T::V>, int), StatusCode>(
                (seq_view(values@), pos as int),
            ),
        decreases count - i,
    {
        proof {
            lemma_parse_elements_step::<T>(body@, i as nat, seq_view(values@), pos as int);
            lemma_parse_elements_split::<T>(
                count as nat,
                body@,
                i as nat,
                seq_view(values@),
                pos as int,
            );
            T::lemma_parse_consumes(body@.skip(pos as int));
        }
        let ghost before = seq_view(values@);
        match T::decode(skip_bytes(body, pos)) {
            Ok((x, n)) => {
                assert(n <= body@.skip(pos as int).len());
                values.push(x);
                pos = pos + n;
                i += 1;
                assert(seq_view(values@) =~= before.push(x@));
            },
            Err(e) => {
                return Err(e);
            },
        }
    }
    Ok((Some(values), 4 + pos))
}

} // verus!
