//! Globally unique identifiers of 16 bytes.

use vstd::prelude::*;
use vstd::string::StrSliceExecFns;
use vstd::std_specs::cmp::PartialEqSpecImpl;
use crate::encoding::{
    le_bytes_2, le_bytes_4, le_value_2, le_value_4, lemma_le_2, lemma_le_4, read_u16, read_u32,
    skip_bytes, write_u16, write_u32, BinaryEncoder, EncodingResult,
};
use crate::status_codes::{StatusCode, BAD_DECODING_ERROR};
use crate::string::{ascii_chars, string_from_ascii};

verus! {

/// A 16 byte value that can be used as a globally unique identifier.
#[derive(Debug, Eq, Clone, Copy, Hash)]
pub struct Guid {
    pub data1: u32,
    pub data2: u16,
    pub data3: u16,
    pub data4: [u8; 8],
}

/// What a `Guid` stands for: three numbers and eight bytes.
pub struct GuidView {
    pub data1: u32,
    pub data2: u16,
    pub data3: u16,
    pub data4: Seq<u8>,
}

impl View for Guid {
    type V = GuidView;

    open spec fn view(&self) -> GuidView {
        GuidView { data1: self.data1, data2: self.data2, data3: self.data3, data4: self.data4@ }
    }
}

impl PartialEq for Guid {
    fn eq(&self, other: &Self) -> (r: bool) {
        let same = self.data1 == other.data1 && self.data2 == other.data2 && self.data3
            == other.data3 && self.data4[0] == other.data4[0] && self.data4[1] == other.data4[1]
            && self.data4[2] == other.data4[2] && self.data4[3] == other.data4[3]
            && self.data4[4] == other.data4[4] && self.data4[5] == other.data4[5]
            && self.data4[6] == other.data4[6] && self.data4[7] == other.data4[7];
        proof {
            if same {
                assert(self.data4@ =~= other.data4@);
            }
        }
        same
    }
}

impl PartialEqSpecImpl for Guid {
    open spec fn obeys_eq_spec() -> bool {
        true
    }

    open spec fn eq_spec(&self, other: &Self) -> bool {
        self@ == other@
    }
}

/// The sixteen bytes of `v` in the order in which the text form shows them:
/// the three numbers most significant byte first, then the eight bytes.
pub open spec fn text_bytes(v: GuidView) -> Seq<u8> {
    seq![
        (v.data1 / 16777216) as u8,
        ((v.data1 / 65536) % 256) as u8,
        ((v.data1 / 256) % 256) as u8,
        (v.data1 % 256) as u8,
        (v.data2 / 256) as u8,
        (v.data2 % 256) as u8,
        (v.data3 / 256) as u8,
        (v.data3 % 256) as u8,
    ] + v.data4
}

/// The identifier that the text form shows as the sixteen bytes `b`.
pub open spec fn guid_of_text_bytes(b: Seq<u8>) -> GuidView {
    GuidView {
        data1: (16777216 * b[0] + 65536 * b[1] + 256 * b[2] + b[3]) as u32,
        data2: (256 * b[4] + b[5]) as u16,
        data3: (256 * b[6] + b[7]) as u16,
        data4: b.subrange(8, 16),
    }
}

/// The upper-case hexadecimal digit of `n`, which is below 16.
pub open spec fn hex_digit(n: int) -> u8 {
    if n < 10 {
        (48 + n) as u8
    } else {
        (55 + n) as u8
    }
}

/// The value of the hexadecimal digit `c`, of either case.
pub open spec fn hex_value(c: char) -> Option<int> {
    let code = c as int;
    if 48 <= code <= 57 {
        Some(code - 48)
    } else if 97 <= code <= 102 {
        Some(code - 87)
    } else if 65 <= code <= 70 {
        Some(code - 55)
    } else {
        None
    }
}

/// Where the `k`-th hexadecimal digit stands in the hyphenated form.
pub open spec fn hyphenated_position(k: int) -> int {
    if k < 8 {
        k
    } else if k < 12 {
        k + 1
    } else if k < 16 {
        k + 2
    } else if k < 20 {
        k + 3
    } else {
        k + 4
    }
}

/// Where the `k`-th hexadecimal digit stands in a text form of `len`
/// characters.
pub open spec fn digit_position(len: int, k: int) -> int {
    if len == 36 {
        hyphenated_position(k)
    } else {
        k
    }
}

/// The ASCII codes of the hyphenated form of sixteen bytes:
/// `XXXXXXXX-XXXX-XXXX-XXXX-XXXXXXXXXXXX`.
pub open spec fn hyphenated_codes(b: Seq<u8>) -> Seq<u8> {
    Seq::new(
        36,
        |p: int|
            if p == 8 || p == 13 || p == 18 || p == 23 {
                45u8
            } else {
                let k = if p < 8 {
                    p
                } else if p < 13 {
                    p - 1
                } else if p < 18 {
                    p - 2
                } else if p < 23 {
                    p - 3
                } else {
                    p - 4
                };
                if k % 2 == 0 {
                    hex_digit(b[k / 2] as int / 16)
                } else {
                    hex_digit(b[k / 2] as int % 16)
                }
            },
    )
}

/// The hyphenated text form of `v`.
pub open spec fn hyphenated(v: GuidView) -> Seq<char> {
    ascii_chars(hyphenated_codes(text_bytes(v)))
}

/// True when `chars` is 32 hexadecimal digits.
pub open spec fn is_simple_form(chars: Seq<char>) -> bool {
    &&& chars.len() == 32
    &&& forall|k: int| 0 <= k < 32 ==> hex_value(#[trigger] chars[k]) is Some
}

/// True when `chars` is 32 hexadecimal digits in groups of 8, 4, 4, 4 and
/// 12 with a hyphen between them.
pub open spec fn is_hyphenated_form(chars: Seq<char>) -> bool {
    &&& chars.len() == 36
    &&& chars[8] == '-'
    &&& chars[13] == '-'
    &&& chars[18] == '-'
    &&& chars[23] == '-'
    &&& forall|k: int| 0 <= k < 32 ==> hex_value(#[trigger] chars[hyphenated_position(k)]) is Some
}

/// The sixteen bytes that the digits of a text form spell.
pub open spec fn digits_of(chars: Seq<char>) -> Seq<u8> {
    Seq::new(
        16,
        |i: int|
            (16 * hex_value(chars[digit_position(chars.len() as int, 2 * i)]).unwrap() + hex_value(
                chars[digit_position(chars.len() as int, 2 * i + 1)],
            ).unwrap()) as u8,
    )
}

/// The identifier that `chars` spells, in the plain or the hyphenated form.
pub open spec fn parse_text(chars: Seq<char>) -> Option<GuidView> {
    if is_simple_form(chars) || is_hyphenated_form(chars) {
        Some(guid_of_text_bytes(digits_of(chars)))
    } else {
        None
    }
}

/// The value of a hexadecimal digit, if `c` is one.
fn hex_value_of(c: char) -> (r: Option<u8>)
    ensures
        r is Some <==> hex_value(c) is Some,
        r matches Some(v) ==> v == hex_value(c).unwrap() && v < 16,
{
    let code: u32 = c as u32;
    if 48 <= code && code <= 57 {
        Some((code - 48) as u8)
    } else if 97 <= code && code <= 102 {
        Some((code - 87) as u8)
    } else if 65 <= code && code <= 70 {
        Some((code - 55) as u8)
    } else {
        None
    }
}

/// The ASCII code of the upper-case hexadecimal digit of `n`.
fn hex_digit_of(n: u8) -> (r: u8)
    requires
        n < 16,
    ensures
        r == hex_digit(n as int),
        r < 128,
{
    if n < 10 {
        48 + n
    } else {
        55 + n
    }
}

impl BinaryEncoder for Guid {
    /// The three numbers least significant byte first, then the eight bytes.
    open spec fn wire(v: GuidView) -> Seq<u8> {
        le_bytes_4(v.data1 as int) + le_bytes_2(v.data2 as int) + le_bytes_2(v.data3 as int)
            + v.data4
    }

    open spec fn parse(s: Seq<u8>) -> Result<(GuidView, int), StatusCode> {
        if s.len() < 16 {
            Err(BAD_DECODING_ERROR)
        } else {
            Ok(
                (
                    GuidView {
                        data1: le_value_4(s) as u32,
                        data2: le_value_2(s.skip(4)) as u16,
                        data3: le_value_2(s.skip(6)) as u16,
                        data4: s.subrange(8, 16),
                    },
                    16,
                ),
            )
        }
    }

    open spec fn encodable(v: GuidView) -> bool {
        v.data4.len() == 8
    }

    open spec fn canonical(v: GuidView) -> bool {
        v.data4.len() == 8
    }

    proof fn lemma_round_trip(v: GuidView, rest: Seq<u8>) {
        let s = Self::wire(v) + rest;
        let r1 = le_bytes_2(v.data2 as int) + le_bytes_2(v.data3 as int) + v.data4 + rest;
        let r2 = le_bytes_2(v.data3 as int) + v.data4 + rest;
        assert(s =~= le_bytes_4(v.data1 as int) + r1);
        lemma_le_4(v.data1 as int, r1);
        assert(s.skip(4) =~= le_bytes_2(v.data2 as int) + r2);
        lemma_le_2(v.data2 as int, r2);
        assert(s.skip(6) =~= le_bytes_2(v.data3 as int) + (v.data4 + rest));
        lemma_le_2(v.data3 as int, v.data4 + rest);
        assert(s.subrange(8, 16) =~= v.data4);
    }

    proof fn lemma_parse_consumes(s: Seq<u8>) {
    }

    fn is_encodable(&self) -> (r: bool) {
        true
    }

    fn byte_len(&self) -> (n: usize) {
        16
    }

    fn encode(&self, stream: &mut Vec<u8>) -> (r: EncodingResult<usize>) {
        let _ = write_u32(stream, self.data1);
        let _ = write_u16(stream, self.data2);
        let _ = write_u16(stream, self.data3);
        let ghost before = stream@;
        let mut i: usize = 0;
        while i < 8
            invariant
                0 <= i <= 8,
                stream@ == before + self.data4@.subrange(0, i as int),
            decreases 8 - i,
        {
            stream.push(self.data4[i]);
            i += 1;
            assert(stream@ =~= before + self.data4@.subrange(0, i as int));
        }
        assert(stream@ =~= old(stream)@ + Self::wire(self@));
        Ok(16)
    }

    fn decode(stream: &[u8]) -> (r: EncodingResult<(Self, usize)>) {
        if stream.len() < 16 {
            return Err(BAD_DECODING_ERROR);
        }
        let (data1, _) = read_u32(stream)?;
        let (data2, _) = read_u16(skip_bytes(stream, 4))?;
        let (data3, _) = read_u16(skip_bytes(stream, 6))?;
        let data4: [u8; 8] = [
            stream[8],
            stream[9],
            stream[10],
            stream[11],
            stream[12],
            stream[13],
            stream[14],
            stream[15],
        ];
        assert(data4@ =~= stream@.subrange(8, 16));
        Ok((Guid { data1, data2, data3, data4 }, 16))
    }
}

impl Guid {
    /// Reads an identifier from its text form: 32 hexadecimal digits,
    /// plain or in hyphenated groups of 8, 4, 4, 4 and 12.
    pub fn parse_str(input: &str) -> (r: Result<Guid, ()>)
        ensures
            match parse_text(input@) {
                Some(v) => r matches Ok(g) && g@ == v,
                None => r is Err,
            },
    {
        let len = input.unicode_len();
        if len != 32 && len != 36 {
            return Err(());
        }
        let hyphens = len == 36;
        if hyphens {
            if input.get_char(8) != '-' || input.get_char(13) != '-' || input.get_char(18) != '-'
                || input.get_char(23) != '-' {
                return Err(());
            }
        }
        let mut buffer: [u8; 16] = [0u8; 16];
        let mut i: usize = 0;
        while i < 16
            invariant
                0 <= i <= 16,
                input@.len() == len,
                len == 32 || len == 36,
                hyphens == (len == 36),
                hyphens ==> input@[8] == '-' && input@[13] == '-' && input@[18] == '-'
                    && input@[23] == '-',
                forall|k: int|
                    0 <= k < 2 * i ==> hex_value(
                        input@[#[trigger] digit_position(len as int, k)],
                    ) is Some,
                forall|j: int| 0 <= j < i ==> buffer@[j] == #[trigger] digits_of(input@)[j],
            decreases 16 - i,
        {
            let k: usize = 2 * i;
            let p0: usize = if !hyphens || k < 8 {
                k
            } else if k < 12 {
                k + 1
            } else if k < 16 {
                k + 2
            } else if k < 20 {
                k + 3
            } else {
                k + 4
            };
            let p1: usize = p0 + 1;
            assert(p0 == digit_position(len as int, k as int));
            assert(p1 == digit_position(len as int, k + 1));
            let hi = hex_value_of(input.get_char(p0));
            let lo = hex_value_of(input.get_char(p1));
            match (hi, lo) {
                (Some(hi), Some(lo)) => {
                    buffer[i] = 16 * hi + lo;
                },
                _ => {
                    assert(!is_simple_form(input@)) by {
                        if !hyphens && is_simple_form(input@) {
                            assert(hex_value(input@[k as int]) is Some);
                            assert(hex_value(input@[k + 1]) is Some);
                        }
                    }
                    assert(!is_hyphenated_form(input@)) by {
                        if hyphens && is_hyphenated_form(input@) {
                            assert(hex_value(input@[hyphenated_position(k as int)]) is Some);
                            assert(hex_value(input@[hyphenated_position(k + 1)]) is Some);
                        }
                    }
                    return Err(());
                },
            }
            i += 1;
        }
        assert(buffer@ =~= digits_of(input@));
        assert(is_simple_form(input@) || is_hyphenated_form(input@)) by {
            assert forall|k: int| 0 <= k < 32 implies hex_value(
                input@[digit_position(len as int, k)],
            ) is Some by {}
            if hyphens {
                assert forall|k: int| 0 <= k < 32 implies hex_value(
                    #[trigger] input@[hyphenated_position(k)],
                ) is Some by {
                    assert(hyphenated_position(k) == digit_position(len as int, k));
                }
            } else {
                assert forall|k: int| 0 <= k < 32 implies hex_value(
                    #[trigger] input@[k],
                ) is Some by {
                    assert(k == digit_position(len as int, k));
                }
            }
        }
        let data1: u32 = 16777216 * (buffer[0] as u32) + 65536 * (buffer[1] as u32) + 256 * (
        buffer[2] as u32) + (buffer[3] as u32);
        let data2: u16 = 256 * (buffer[4] as u16) + (buffer[5] as u16);
        let data3: u16 = 256 * (buffer[6] as u16) + (buffer[7] as u16);
        let data4: [u8; 8] = [
            buffer[8],
            buffer[9],
            buffer[10],
            buffer[11],
            buffer[12],
            buffer[13],
            buffer[14],
            buffer[15],
        ];
        assert(data4@ =~= buffer@.subrange(8, 16));
        Ok(Guid { data1, data2, data3, data4 })
    }

    /// The text form in upper-case hexadecimal digits:
    /// `XXXXXXXX-XXXX-XXXX-XXXX-XXXXXXXXXXXX`.
    pub fn as_hyphenated_string(&self) -> (r: String)
        ensures
            r@ == hyphenated(self@),
    {
        let bytes: [u8; 16] = [
            (self.data1 / 16777216) as u8,
            ((self.data1 / 65536) % 256) as u8,
            ((self.data1 / 256) % 256) as u8,
            (self.data1 % 256) as u8,
            (self.data2 / 256) as u8,
            (self.data2 % 256) as u8,
            (self.data3 / 256) as u8,
            (self.data3 % 256) as u8,
            self.data4[0],
            self.data4[1],
            self.data4[2],
            self.data4[3],
            self.data4[4],
            self.data4[5],
            self.data4[6],
            self.data4[7],
        ];
        assert(bytes@ =~= text_bytes(self@));
        let mut codes: Vec<u8> = Vec::new();
        let mut i: usize = 0;
        while i < 16
            invariant
                0 <= i <= 16,
                bytes@ == text_bytes(self@),
                codes@.len() == if i == 0 {
                    0
                } else {
                    hyphenated_position(2 * i - 1) + 1
                },
                forall|p: int|
                    0 <= p < codes@.len() ==> codes@[p] == #[trigger] hyphenated_codes(bytes@)[p],
                forall|p: int| 0 <= p < codes@.len() ==> #[trigger] codes@[p] < 128,
            decreases 16 - i,
        {
            if i == 4 || i == 6 || i == 8 || i == 10 {
                codes.push(45);
            }
            codes.push(hex_digit_of(bytes[i] / 16));
            codes.push(hex_digit_of(bytes[i] % 16));
            i += 1;
        }
        assert(codes@ =~= hyphenated_codes(bytes@));
        string_from_ascii(codes)
    }
}

proof fn lemma_hex_digit_value(n: int)
    requires
        0 <= n < 16,
    ensures
        hex_value(hex_digit(n) as char) == Some(n),
{
}

proof fn lemma_hyphenated_digits(b: Seq<u8>, i: int)
    requires
        b.len() == 16,
        0 <= i < 16,
    ensures
        hex_value(ascii_chars(hyphenated_codes(b))[hyphenated_position(2 * i)]) == Some(
            b[i] as int / 16,
        ),
        hex_value(ascii_chars(hyphenated_codes(b))[hyphenated_position(2 * i + 1)]) == Some(
            b[i] as int % 16,
        ),
{
    let codes = hyphenated_codes(b);
    let p0 = hyphenated_position(2 * i);
    let p1 = hyphenated_position(2 * i + 1);
    assert(codes[p0] == hex_digit(b[i] as int / 16));
    assert(codes[p1] == hex_digit(b[i] as int % 16));
    lemma_hex_digit_value(b[i] as int / 16);
    lemma_hex_digit_value(b[i] as int % 16);
}

proof fn lemma_hyphenated_shape(b: Seq<u8>)
    requires
        b.len() == 16,
    ensures
        is_hyphenated_form(ascii_chars(hyphenated_codes(b))),
{
    let chars = ascii_chars(hyphenated_codes(b));
    assert forall|k: int| 0 <= k < 32 implies hex_value(
        #[trigger] chars[hyphenated_position(k)],
    ) is Some by {
        lemma_hyphenated_digits(b, k / 2);
    }
}

proof fn lemma_hyphenated_bytes(b: Seq<u8>)
    requires
        b.len() == 16,
    ensures
        digits_of(ascii_chars(hyphenated_codes(b))) == b,
{
    let chars = ascii_chars(hyphenated_codes(b));
    assert(chars.len() == 36);
    assert forall|i: int| 0 <= i < 16 implies #[trigger] digits_of(chars)[i] == b[i] by {
        lemma_hyphenated_digits(b, i);
        assert(digit_position(36, 2 * i) == hyphenated_position(2 * i));
        assert(digit_position(36, 2 * i + 1) == hyphenated_position(2 * i + 1));
    }
    assert(digits_of(chars) =~= b);
}

proof fn lemma_be_4(d: int)
    requires
        0 <= d < 4294967296,
    ensures
        0 <= d / 16777216 < 256,
        16777216 * (d / 16777216) + 65536 * ((d / 65536) % 256) + 256 * ((d / 256) % 256) + d % 256
            == d,
{
}

proof fn lemma_be_2(d: int)
    requires
        0 <= d < 65536,
    ensures
        0 <= d / 256 < 256,
        256 * (d / 256) + d % 256 == d,
{
}

proof fn lemma_text_bytes(v: GuidView)
    requires
        v.data4.len() == 8,
    ensures
        text_bytes(v).len() == 16,
        guid_of_text_bytes(text_bytes(v)) == v,
{
    let b = text_bytes(v);
    let g = guid_of_text_bytes(b);
    assert(b.subrange(8, 16) =~= v.data4);
    assert(g.data1 == v.data1) by {
        lemma_be_4(v.data1 as int);
        assert(b[0] == (v.data1 / 16777216) as u8);
        assert(b[1] == ((v.data1 / 65536) % 256) as u8);
        assert(b[2] == ((v.data1 / 256) % 256) as u8);
        assert(b[3] == (v.data1 % 256) as u8);
    }
    assert(g.data2 == v.data2) by {
        lemma_be_2(v.data2 as int);
        assert(b[4] == (v.data2 / 256) as u8);
        assert(b[5] == (v.data2 % 256) as u8);
    }
    assert(g.data3 == v.data3) by {
        lemma_be_2(v.data3 as int);
        assert(b[6] == (v.data3 / 256) as u8);
        assert(b[7] == (v.data3 % 256) as u8);
    }
}

/// Writing an identifier in the hyphenated form and reading the text back
/// gives the identifier.
pub proof fn lemma_parse_hyphenated(v: GuidView)
    requires
        v.data4.len() == 8,
    ensures
        parse_text(hyphenated(v)) == Some(v),
{
    lemma_text_bytes(v);
    lemma_hyphenated_shape(text_bytes(v));
    lemma_hyphenated_bytes(text_bytes(v));
}

} // verus!
