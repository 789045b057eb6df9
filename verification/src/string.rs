//! The string type of the protocol: UTF-8 text that can also be null.

use vstd::prelude::*;
use vstd::slice::{slice_subrange, slice_to_vec};
use vstd::string::StringSliceAdditionalSpecFns;
use vstd::utf8::{decode_utf8, encode_utf8, valid_utf8};
use vstd::std_specs::cmp::PartialEqSpecImpl;
use crate::constants::MAX_STRING_LENGTH;
use crate::encoding::{
    announced_length, lemma_length_prefix, length_prefix, read_i32, write_i32, BinaryEncoder,
    EncodingResult,
};
use crate::status_codes::{StatusCode, BAD_DECODING_ERROR, BAD_ENCODING_LIMITS_EXCEEDED};

verus! {

/// A sequence of Unicode characters, or null. Null is not the empty string.
#[derive(Debug, Eq, Hash)]
pub struct UAString {
    pub value: Option<String>,
}

/// An XML element, carried as a string.
pub type XmlElement = UAString;

impl View for UAString {
    type V = Option<Seq<char>>;

    open spec fn view(&self) -> Option<Seq<char>> {
        match self.value {
            Some(s) => Some(s@),
            None => None,
        }
    }
}

impl Clone for UAString {
    fn clone(&self) -> (r: Self)
        ensures
            r@ == self@,
    {
        match &self.value {
            Some(s) => UAString { value: Some(s.clone()) },
            None => UAString { value: None },
        }
    }
}

impl PartialEq for UAString {
    fn eq(&self, other: &Self) -> (r: bool) {
        match (&self.value, &other.value) {
            (Some(a), Some(b)) => *a == *b,
            (None, None) => true,
            _ => false,
        }
    }
}

impl PartialEqSpecImpl for UAString {
    open spec fn obeys_eq_spec() -> bool {
        true
    }

    open spec fn eq_spec(&self, other: &Self) -> bool {
        self@ == other@
    }
}

/// Turns bytes into a string where they are valid UTF-8.
///
/// Wraps `String::from_utf8`, which accepts exactly the valid UTF-8
/// sequences and keeps the bytes as the text of the string.
#[verifier::external_body]
pub(crate) fn string_from_utf8(bytes: Vec<u8>) -> (r: Option<String>)
    ensures
        r is Some <==> valid_utf8(bytes@),
        r matches Some(s) ==> s@ == decode_utf8(bytes@),
{
    match String::from_utf8(bytes) {
        Ok(s) => Some(s),
        Err(_) => None,
    }
}

/// The characters whose codes are the bytes of `bytes`.
pub open spec fn ascii_chars(bytes: Seq<u8>) -> Seq<char> {
    Seq::new(bytes.len(), |i: int| bytes[i] as char)
}

/// The string spelled by the ASCII codes in `bytes`.
pub(crate) fn string_from_ascii(bytes: Vec<u8>) -> (r: String)
    requires
        forall|i: int| 0 <= i < bytes@.len() ==> bytes@[i] < 128,
    ensures
        r@ == ascii_chars(bytes@),
{
    proof {
        let chars = ascii_chars(bytes@);
        assert(vstd::utf8::is_ascii_chars(chars));
        vstd::utf8::is_ascii_chars_encode_utf8(chars);
        assert(encode_utf8(chars) =~= bytes@);
        vstd::utf8::encode_utf8_valid_utf8(chars);
        vstd::utf8::encode_utf8_decode_utf8(chars);
    }
    match string_from_utf8(bytes) {
        Some(s) => s,
        None => String::new(),
    }
}

impl BinaryEncoder for UAString {
    /// A length prefix, then the UTF-8 bytes; null is the prefix -1 alone.
    open spec fn wire(v: Option<Seq<char>>) -> Seq<u8> {
        match v {
            Some(chars) => length_prefix(encode_utf8(chars).len() as int) + encode_utf8(chars),
            None => length_prefix(-1),
        }
    }

    open spec fn parse(s: Seq<u8>) -> Result<(Option<Seq<char>>, int), StatusCode> {
        if s.len() < 4 {
            Err(BAD_DECODING_ERROR)
        } else {
            let n = announced_length(s);
            if n == -1 {
                Ok((None, 4))
            } else if n < -1 {
                Err(BAD_DECODING_ERROR)
            } else if n > MAX_STRING_LENGTH {
                Err(BAD_ENCODING_LIMITS_EXCEEDED)
            } else if s.len() < 4 + n {
                Err(BAD_DECODING_ERROR)
            } else if !valid_utf8(s.subrange(4, 4 + n)) {
                Err(BAD_DECODING_ERROR)
            } else {
                Ok((Some(decode_utf8(s.subrange(4, 4 + n))), 4 + n))
            }
        }
    }

    open spec fn encodable(v: Option<Seq<char>>) -> bool {
        v matches Some(chars) ==> encode_utf8(chars).len() <= i32::MAX
    }

    open spec fn canonical(v: Option<Seq<char>>) -> bool {
        v matches Some(chars) ==> encode_utf8(chars).len() <= MAX_STRING_LENGTH
    }

    proof fn lemma_round_trip(v: Option<Seq<char>>, rest: Seq<u8>) {
        broadcast use vstd::utf8::encode_utf8_valid_utf8, vstd::utf8::encode_utf8_decode_utf8;

        match v {
            Some(chars) => {
                let body = encode_utf8(chars);
                let s = Self::wire(v) + rest;
                assert(s =~= length_prefix(body.len() as int) + (body + rest));
                lemma_length_prefix(body.len() as int, body + rest);
                assert(s.subrange(4, 4 + body.len() as int) =~= body);
            },
            None => {
                lemma_length_prefix(-1, rest);
            },
        }
    }

    proof fn lemma_parse_consumes(s: Seq<u8>) {
    }

    fn is_encodable(&self) -> (r: bool) {
        match &self.value {
            Some(s) => s.as_str().as_bytes().len() <= 2147483647,
            None => true,
        }
    }

    fn byte_len(&self) -> (n: usize) {
        match &self.value {
            Some(s) => {
                proof {
                    lemma_length_prefix(0, Seq::empty());
                }
                4 + s.as_str().as_bytes().len()
            },
            None => {
                proof {
                    lemma_length_prefix(-1, Seq::empty());
                }
                4
            },
        }
    }

    fn encode(&self, stream: &mut Vec<u8>) -> (r: EncodingResult<usize>) {
        match &self.value {
            Some(s) => {
                let bytes = s.as_str().as_bytes();
                let n = bytes.len();
                if n > 2147483647 {
                    return Err(BAD_ENCODING_LIMITS_EXCEEDED);
                }
                let _ = write_i32(stream, n as i32);
                stream.extend_from_slice(bytes);
                proof {
                    lemma_length_prefix(n as int, Seq::empty());
                    assert(stream@ =~= old(stream)@ + Self::wire(self@));
                }
                Ok(4 + n)
            },
            None => {
                proof {
                    lemma_length_prefix(-1, Seq::empty());
                }
                write_i32(stream, -1)
            },
        }
    }

    fn decode(stream: &[u8]) -> (r: EncodingResult<(Self, usize)>) {
        let (n, _) = read_i32(stream)?;
        if n == -1 {
            return Ok((UAString::null(), 4));
        } else if n < -1 {
            return Err(BAD_DECODING_ERROR);
        } else if n as usize > MAX_STRING_LENGTH {
            return Err(BAD_ENCODING_LIMITS_EXCEEDED);
        }
        let n = n as usize;
        if stream.len() - 4 < n {
            return Err(BAD_DECODING_ERROR);
        }
        let bytes = slice_to_vec(slice_subrange(stream, 4, 4 + n));
        match string_from_utf8(bytes) {
            Some(s) => Ok((UAString { value: Some(s) }, 4 + n)),
            None => Err(BAD_DECODING_ERROR),
        }
    }
}

impl UAString {
    /// The string that holds the text of `value`.
    pub fn from_str(value: &str) -> (r: UAString)
        ensures
            r@ == Some(value@),
    {
        UAString { value: Some(value.to_owned()) }
    }

    /// The length of the text in bytes, or -1 for null.
    pub fn len(&self) -> (r: isize)
        requires
            self@ matches Some(chars) ==> encode_utf8(chars).len() <= isize::MAX,
        ensures
            r == match self@ {
                Some(chars) => encode_utf8(chars).len() as int,
                None => -1,
            },
    {
        match &self.value {
            Some(s) => s.as_str().as_bytes().len() as isize,
            None => -1,
        }
    }

    /// The null string, which is not the empty string.
    pub fn null() -> (r: UAString)
        ensures
            r@ == None::<Seq<char>>,
    {
        UAString { value: None }
    }

    /// True for the null string.
    pub fn is_null(&self) -> (r: bool)
        ensures
            r == (self@ is None),
    {
        self.value.is_none()
    }

    /// The text, with nothing for null.
    pub fn as_ref(&self) -> (r: &str)
        ensures
            r@ == match self@ {
                Some(chars) => chars,
                None => Seq::<char>::empty(),
            },
    {
        match &self.value {
            Some(s) => s.as_str(),
            None => {
                proof {
                    reveal_strlit("");
                }
                assert(""@ =~= Seq::<char>::empty());
                ""
            },
        }
    }
}

/// A string whose text takes `n` bytes, with `n` within the limit of the
/// decoder, takes `4 + n` bytes on the wire, and reading those bytes gives
/// the string back.
pub proof fn lemma_string_wire(chars: Seq<char>, rest: Seq<u8>)
    requires
        encode_utf8(chars).len() <= MAX_STRING_LENGTH,
    ensures
        UAString::wire(Some(chars)).len() == 4 + encode_utf8(chars).len(),
        UAString::parse(UAString::wire(Some(chars)) + rest) == Ok::<
            (Option<Seq<char>>, int),
            StatusCode,
        >((Some(chars), 4 + encode_utf8(chars).len() as int)),
{
    UAString::lemma_round_trip(Some(chars), rest);
    lemma_length_prefix(encode_utf8(chars).len() as int, Seq::empty());
}

/// The null string is four bytes `FF`, the empty string is four bytes
/// `00`, and each reads back as what it was.
pub proof fn lemma_null_and_empty_strings()
    ensures
        UAString::wire(None) == seq![0xFFu8, 0xFFu8, 0xFFu8, 0xFFu8],
        UAString::wire(Some(Seq::<char>::empty())) == seq![0u8, 0u8, 0u8, 0u8],
        UAString::parse(seq![0xFFu8, 0xFFu8, 0xFFu8, 0xFFu8]) == Ok::<
            (Option<Seq<char>>, int),
            StatusCode,
        >((None, 4)),
        UAString::parse(seq![0u8, 0u8, 0u8, 0u8]) == Ok::<(Option<Seq<char>>, int), StatusCode>(
            (Some(Seq::<char>::empty()), 4),
        ),
{
    let empty = Seq::<char>::empty();
    assert(vstd::utf8::is_ascii_chars(empty));
    vstd::utf8::is_ascii_chars_encode_utf8(empty);
    assert(encode_utf8(empty) =~= Seq::<u8>::empty());
    assert(UAString::wire(None) =~= seq![0xFFu8, 0xFFu8, 0xFFu8, 0xFFu8]);
    assert(UAString::wire(Some(empty)) =~= seq![0u8, 0u8, 0u8, 0u8]);
    UAString::lemma_round_trip(None, Seq::empty());
    UAString::lemma_round_trip(Some(empty), Seq::empty());
    assert(UAString::wire(None) + Seq::<u8>::empty() =~= UAString::wire(None));
    assert(UAString::wire(Some(empty)) + Seq::<u8>::empty() =~= UAString::wire(Some(empty)));
}

} // verus!
