//! The built-in data types and their binary encoding.

use vstd::prelude::*;
use crate::encoding::{
    le_bytes_2, le_bytes_4, le_bytes_8, le_value_2, le_value_4, le_value_8, lemma_le_2, lemma_le_4,
    lemma_le_8, read_i16, read_i32, read_i64, read_i8, read_u16, read_u32, read_u64, read_u8,
    to_signed, to_unsigned, write_i16, write_i32, write_i64, write_i8, write_u16, write_u32,
    write_u64, write_u8, BinaryEncoder, EncodingResult,
};
use crate::status_codes::{StatusCode, BAD_DECODING_ERROR};

verus! {

/// A two-state logical value, in one byte: 1 for true, 0 for false. Any
/// byte other than 1 reads as false.
impl BinaryEncoder for bool {
    open spec fn wire(v: bool) -> Seq<u8> {
        seq![if v { 1u8 } else { 0u8 }]
    }

    open spec fn parse(s: Seq<u8>) -> Result<(bool, int), StatusCode> {
        if s.len() >= 1 {
            Ok((s[0] == 1, 1))
        } else {
            Err(BAD_DECODING_ERROR)
        }
    }

    open spec fn encodable(v: bool) -> bool {
        true
    }

    open spec fn canonical(v: bool) -> bool {
        true
    }

    proof fn lemma_round_trip(v: bool, rest: Seq<u8>) {
        assert((Self::wire(v) + rest)[0] == Self::wire(v)[0]);
    }

    proof fn lemma_parse_consumes(s: Seq<u8>) {
    }

    fn is_encodable(&self) -> (r: bool) {
        true
    }

    fn byte_len(&self) -> (n: usize) {
        1
    }

    fn encode(&self, stream: &mut Vec<u8>) -> (r: EncodingResult<usize>) {
        write_u8(stream, if *self { 1 } else { 0 })
    }

    fn decode(stream: &[u8]) -> (r: EncodingResult<(Self, usize)>) {
        let (byte, n) = read_u8(stream)?;
        Ok((byte == 1, n))
    }
}

/// An integer between 0 and 255, in one byte.
impl BinaryEncoder for u8 {
    open spec fn wire(v: u8) -> Seq<u8> {
        seq![v]
    }

    open spec fn parse(s: Seq<u8>) -> Result<(u8, int), StatusCode> {
        if s.len() >= 1 {
            Ok((s[0], 1))
        } else {
            Err(BAD_DECODING_ERROR)
        }
    }

    open spec fn encodable(v: u8) -> bool {
        true
    }

    open spec fn canonical(v: u8) -> bool {
        true
    }

    proof fn lemma_round_trip(v: u8, rest: Seq<u8>) {
        assert((Self::wire(v) + rest)[0] == Self::wire(v)[0]);
    }

    proof fn lemma_parse_consumes(s: Seq<u8>) {
    }

    fn is_encodable(&self) -> (r: bool) {
        true
    }

    fn byte_len(&self) -> (n: usize) {
        1
    }

    fn encode(&self, stream: &mut Vec<u8>) -> (r: EncodingResult<usize>) {
        write_u8(stream, *self)
    }

    fn decode(stream: &[u8]) -> (r: EncodingResult<(Self, usize)>) {
        read_u8(stream)
    }
}

/// An integer between -128 and 127, in one byte of two's complement.
impl BinaryEncoder for i8 {
    open spec fn wire(v: i8) -> Seq<u8> {
        seq![to_unsigned(v as int, 256) as u8]
    }

    open spec fn parse(s: Seq<u8>) -> Result<(i8, int), StatusCode> {
        if s.len() >= 1 {
            Ok((to_signed(s[0] as int, 256) as i8, 1))
        } else {
            Err(BAD_DECODING_ERROR)
        }
    }

    open spec fn encodable(v: i8) -> bool {
        true
    }

    open spec fn canonical(v: i8) -> bool {
        true
    }

    proof fn lemma_round_trip(v: i8, rest: Seq<u8>) {
        assert((Self::wire(v) + rest)[0] == Self::wire(v)[0]);
    }

    proof fn lemma_parse_consumes(s: Seq<u8>) {
    }

    fn is_encodable(&self) -> (r: bool) {
        true
    }

    fn byte_len(&self) -> (n: usize) {
        1
    }

    fn encode(&self, stream: &mut Vec<u8>) -> (r: EncodingResult<usize>) {
        write_i8(stream, *self)
    }

    fn decode(stream: &[u8]) -> (r: EncodingResult<(Self, usize)>) {
        read_i8(stream)
    }
}

/// An integer between 0 and 65 535, in two bytes.
impl BinaryEncoder for u16 {
    open spec fn wire(v: u16) -> Seq<u8> {
        le_bytes_2(v as int)
    }

    open spec fn parse(s: Seq<u8>) -> Result<(u16, int), StatusCode> {
        if s.len() >= 2 {
            Ok((le_value_2(s) as u16, 2))
        } else {
            Err(BAD_DECODING_ERROR)
        }
    }

    open spec fn encodable(v: u16) -> bool {
        true
    }

    open spec fn canonical(v: u16) -> bool {
        true
    }

    proof fn lemma_round_trip(v: u16, rest: Seq<u8>) {
        lemma_le_2(v as int, rest);
    }

    proof fn lemma_parse_consumes(s: Seq<u8>) {
    }

    fn is_encodable(&self) -> (r: bool) {
        true
    }

    fn byte_len(&self) -> (n: usize) {
        2
    }

    fn encode(&self, stream: &mut Vec<u8>) -> (r: EncodingResult<usize>) {
        write_u16(stream, *self)
    }

    fn decode(stream: &[u8]) -> (r: EncodingResult<(Self, usize)>) {
        read_u16(stream)
    }
}

/// An integer between -32 768 and 32 767, in two bytes of two's complement.
impl BinaryEncoder for i16 {
    open spec fn wire(v: i16) -> Seq<u8> {
        le_bytes_2(to_unsigned(v as int, 65536))
    }

    open spec fn parse(s: Seq<u8>) -> Result<(i16, int), StatusCode> {
        if s.len() >= 2 {
            Ok((to_signed(le_value_2(s), 65536) as i16, 2))
        } else {
            Err(BAD_DECODING_ERROR)
        }
    }

    open spec fn encodable(v: i16) -> bool {
        true
    }

    open spec fn canonical(v: i16) -> bool {
        true
    }

    proof fn lemma_round_trip(v: i16, rest: Seq<u8>) {
        lemma_le_2(to_unsigned(v as int, 65536), rest);
    }

    proof fn lemma_parse_consumes(s: Seq<u8>) {
    }

    fn is_encodable(&self) -> (r: bool) {
        true
    }

    fn byte_len(&self) -> (n: usize) {
        2
    }

    fn encode(&self, stream: &mut Vec<u8>) -> (r: EncodingResult<usize>) {
        write_i16(stream, *self)
    }

    fn decode(stream: &[u8]) -> (r: EncodingResult<(Self, usize)>) {
        read_i16(stream)
    }
}

/// An integer between 0 and 4 294 967 295, in four bytes.
impl BinaryEncoder for u32 {
    open spec fn wire(v: u32) -> Seq<u8> {
        le_bytes_4(v as int)
    }

    open spec fn parse(s: Seq<u8>) -> Result<(u32, int), StatusCode> {
        if s.len() >= 4 {
            Ok((le_value_4(s) as u32, 4))
        } else {
            Err(BAD_DECODING_ERROR)
        }
    }

    open spec fn encodable(v: u32) -> bool {
        true
    }

    open spec fn canonical(v: u32) -> bool {
        true
    }

    proof fn lemma_round_trip(v: u32, rest: Seq<u8>) {
        lemma_le_4(v as int, rest);
    }

    proof fn lemma_parse_consumes(s: Seq<u8>) {
    }

    fn is_encodable(&self) -> (r: bool) {
        true
    }

    fn byte_len(&self) -> (n: usize) {
        4
    }

    fn encode(&self, stream: &mut Vec<u8>) -> (r: EncodingResult<usize>) {
        write_u32(stream, *self)
    }

    fn decode(stream: &[u8]) -> (r: EncodingResult<(Self, usize)>) {
        read_u32(stream)
    }
}

/// An integer of 32 bits, in four bytes of two's complement.
impl BinaryEncoder for i32 {
    open spec fn wire(v: i32) -> Seq<u8> {
        le_bytes_4(to_unsigned(v as int, 4294967296))
    }

    open spec fn parse(s: Seq<u8>) -> Result<(i32, int), StatusCode> {
        if s.len() >= 4 {
            Ok((to_signed(le_value_4(s), 4294967296) as i32, 4))
        } else {
            Err(BAD_DECODING_ERROR)
        }
    }

    open spec fn encodable(v: i32) -> bool {
        true
    }

    open spec fn canonical(v: i32) -> bool {
        true
    }

    proof fn lemma_round_trip(v: i32, rest: Seq<u8>) {
        lemma_le_4(to_unsigned(v as int, 4294967296), rest);
    }

    proof fn lemma_parse_consumes(s: Seq<u8>) {
    }

    fn is_encodable(&self) -> (r: bool) {
        true
    }

    fn byte_len(&self) -> (n: usize) {
        4
    }

    fn encode(&self, stream: &mut Vec<u8>) -> (r: EncodingResult<usize>) {
        write_i32(stream, *self)
    }

    fn decode(stream: &[u8]) -> (r: EncodingResult<(Self, usize)>) {
        read_i32(stream)
    }
}

/// An integer of 64 unsigned bits, in eight bytes.
impl BinaryEncoder for u64 {
    open spec fn wire(v: u64) -> Seq<u8> {
        le_bytes_8(v as int)
    }

    open spec fn parse(s: Seq<u8>) -> Result<(u64, int), StatusCode> {
        if s.len() >= 8 {
            Ok((le_value_8(s) as u64, 8))
        } else {
            Err(BAD_DECODING_ERROR)
        }
    }

    open spec fn encodable(v: u64) -> bool {
        true
    }

    open spec fn canonical(v: u64) -> bool {
        true
    }

    proof fn lemma_round_trip(v: u64, rest: Seq<u8>) {
        lemma_le_8(v as int, rest);
    }

    proof fn lemma_parse_consumes(s: Seq<u8>) {
    }

    fn is_encodable(&self) -> (r: bool) {
        true
    }

    fn byte_len(&self) -> (n: usize) {
        8
    }

    fn encode(&self, stream: &mut Vec<u8>) -> (r: EncodingResult<usize>) {
        write_u64(stream, *self)
    }

    fn decode(stream: &[u8]) -> (r: EncodingResult<(Self, usize)>) {
        read_u64(stream)
    }
}

/// An integer of 64 bits, in eight bytes of two's complement.
impl BinaryEncoder for i64 {
    open spec fn wire(v: i64) -> Seq<u8> {
        le_bytes_8(to_unsigned(v as int, 18446744073709551616))
    }

    open spec fn parse(s: Seq<u8>) -> Result<(i64, int), StatusCode> {
        if s.len() >= 8 {
            Ok((to_signed(le_value_8(s), 18446744073709551616) as i64, 8))
        } else {
            Err(BAD_DECODING_ERROR)
        }
    }

    open spec fn encodable(v: i64) -> bool {
        true
    }

    open spec fn canonical(v: i64) -> bool {
        true
    }

    proof fn lemma_round_trip(v: i64, rest: Seq<u8>) {
        lemma_le_8(to_unsigned(v as int, 18446744073709551616), rest);
    }

    proof fn lemma_parse_consumes(s: Seq<u8>) {
    }

    fn is_encodable(&self) -> (r: bool) {
        true
    }

    fn byte_len(&self) -> (n: usize) {
        8
    }

    fn encode(&self, stream: &mut Vec<u8>) -> (r: EncodingResult<usize>) {
        write_i64(stream, *self)
    }

    fn decode(stream: &[u8]) -> (r: EncodingResult<(Self, usize)>) {
        read_i64(stream)
    }
}

} // verus!
