//! A sequence of octets that can also be null.

use vstd::prelude::*;
use vstd::slice::{slice_subrange, slice_to_vec};
use vstd::std_specs::cmp::PartialEqSpecImpl;
use rand::RngCore;
use crate::constants::MAX_BYTE_STRING_LENGTH;
use crate::encoding::{
    announced_length, lemma_length_prefix, length_prefix, read_i32, write_i32, BinaryEncoder,
    EncodingResult,
};
use crate::status_codes::{StatusCode, BAD_DECODING_ERROR, BAD_ENCODING_LIMITS_EXCEEDED};

verus! {

/// A sequence of octets, or null. Null is not the empty sequence.
#[derive(Debug, Eq, Hash)]
pub struct ByteString {
    pub value: Option<Vec<u8>>,
}

impl View for ByteString {
    type V = Option<Seq<u8>>;

    open spec fn view(&self) -> Option<Seq<u8>> {
        match self.value {
            Some(v) => Some(v@),
            None => None,
        }
    }
}

impl Clone for ByteString {
    fn clone(&self) -> (r: Self)
        ensures
            r@ == self@,
    {
        match &self.value {
            Some(v) => ByteString::from_bytes(v.as_slice()),
            None => ByteString { value: None },
        }
    }
}

impl PartialEq for ByteString {
    fn eq(&self, other: &Self) -> (r: bool) {
        match (&self.value, &other.value) {
            (Some(a), Some(b)) => {
                let r = *a == *b;
                assert(r == (a@ =~= b@));
                r
            },
            (None, None) => true,
            _ => false,
        }
    }
}

impl PartialEqSpecImpl for ByteString {
    open spec fn obeys_eq_spec() -> bool {
        true
    }

    open spec fn eq_spec(&self, other: &Self) -> bool {
        self@ == other@
    }
}

/// Fresh random bytes from the generator of the current thread.
///
/// Wraps `rand::thread_rng` and `RngCore::fill_bytes`, a cryptographically
/// strong generator seeded by the operating system, which overwrites every
/// byte of the buffer it is given. Nothing is known of the bytes but their
/// number.
#[verifier::external_body]
fn random_bytes(number_of_bytes: usize) -> (r: Vec<u8>)
    ensures
        r@.len() == number_of_bytes,
{
    let mut bytes = vec![0u8; number_of_bytes];
    rand::thread_rng().fill_bytes(&mut bytes);
    bytes
}

impl BinaryEncoder for ByteString {
    /// A length prefix, then the octets; null is the prefix -1 alone.
    open spec fn wire(v: Option<Seq<u8>>) -> Seq<u8> {
        match v {
            Some(bytes) => length_prefix(bytes.len() as int) + bytes,
            None => length_prefix(-1),
        }
    }

    open spec fn parse(s: Seq<u8>) -> Result<(Option<Seq<u8>>, int), StatusCode> {
        if s.len() < 4 {
            Err(BAD_DECODING_ERROR)
        } else {
            let n = announced_length(s);
            if n == -1 {
                Ok((None, 4))
            } else if n < -1 {
                Err(BAD_DECODING_ERROR)
            } else if n > MAX_BYTE_STRING_LENGTH {
                Err(BAD_ENCODING_LIMITS_EXCEEDED)
            } else if s.len() < 4 + n {
                Err(BAD_DECODING_ERROR)
            } else {
                Ok((Some(s.subrange(4, 4 + n)), 4 + n))
            }
        }
    }

    open spec fn encodable(v: Option<Seq<u8>>) -> bool {
        v matches Some(bytes) ==> bytes.len() <= i32::MAX
    }

    open spec fn canonical(v: Option<Seq<u8>>) -> bool {
        v matches Some(bytes) ==> bytes.len() <= MAX_BYTE_STRING_LENGTH
    }

    proof fn lemma_round_trip(v: Option<Seq<u8>>, rest: Seq<u8>) {
        match v {
            Some(body) => {
                let s = Self::wire(v) + rest;
                assert(s =~= length_prefix(body.len() as int) + (body + rest));
                lemma_length_prefix(body.len() as int, body + rest);
                assert(s.subrange(4, 4 + body.len() as int) =~= body);
            },
            None => {
                lemma_length_prefix(-1, rest);
            },
        }
    }

    proof fn lemma_parse_consumes(s: Seq<u8>) {
    }

    fn is_encodable(&self) -> (r: bool) {
        match &self.value {
            Some(v) => v.len() <= 2147483647,
            None => true,
        }
    }

    fn byte_len(&self) -> (n: usize) {
        match &self.value {
            Some(v) => {
                proof {
                    lemma_length_prefix(0, Seq::empty());
                }
                4 + v.len()
            },
            None => {
                proof {
                    lemma_length_prefix(-1, Seq::empty());
                }
                4
            },
        }
    }

    fn encode(&self, stream: &mut Vec<u8>) -> (r: EncodingResult<usize>) {
        match &self.value {
            Some(v) => {
                let n = v.len();
                if n > 2147483647 {
                    return Err(BAD_ENCODING_LIMITS_EXCEEDED);
                }
                let _ = write_i32(stream, n as i32);
                stream.extend_from_slice(v.as_slice());
                proof {
                    lemma_length_prefix(n as int, Seq::empty());
                    assert(stream@ =~= old(stream)@ + Self::wire(self@));
                }
                Ok(4 + n)
            },
            None => {
                proof {
                    lemma_length_prefix(-1, Seq::empty());
                }
                write_i32(stream, -1)
            },
        }
    }

    fn decode(stream: &[u8]) -> (r: EncodingResult<(Self, usize)>) {
        let (n, _) = read_i32(stream)?;
        if n == -1 {
            return Ok((ByteString::null(), 4));
        } else if n < -1 {
            return Err(BAD_DECODING_ERROR);
        } else if n as usize > MAX_BYTE_STRING_LENGTH {
            return Err(BAD_ENCODING_LIMITS_EXCEEDED);
        }
        let n = n as usize;
        if stream.len() - 4 < n {
            return Err(BAD_DECODING_ERROR);
        }
        let bytes = slice_to_vec(slice_subrange(stream, 4, 4 + n));
        Ok((ByteString { value: Some(bytes) }, 4 + n))
    }
}

impl ByteString {
    /// The null byte string, which is not the empty one.
    pub fn null() -> (r: ByteString)
        ensures
            r@ == None::<Seq<u8>>,
    {
        ByteString { value: None }
    }

    /// True for the null byte string.
    pub fn is_null(&self) -> (r: bool)
        ensures
            r == (self@ is None),
    {
        self.value.is_none()
    }

    /// A byte string of `number_of_bytes` random octets, for use as a nonce.
    pub fn random(number_of_bytes: usize) -> (r: ByteString)
        ensures
            r@ matches Some(bytes) && bytes.len() == number_of_bytes,
    {
        let bytes = random_bytes(number_of_bytes);
        ByteString::from_bytes(bytes.as_slice())
    }

    /// The byte string that holds a copy of `v`.
    pub fn from_bytes(v: &[u8]) -> (r: ByteString)
        ensures
            r@ == Some(v@),
    {
        ByteString { value: Some(slice_to_vec(v)) }
    }

    /// The octets, with nothing for null.
    pub fn as_ref(&self) -> (r: &[u8])
        ensures
            r@ == match self@ {
                Some(bytes) => bytes,
                None => Seq::<u8>::empty(),
            },
    {
        match &self.value {
            Some(v) => v.as_slice(),
            None => {
                let empty: &[u8] = &[];
                assert(empty@ =~= Seq::<u8>::empty());
                empty
            },
        }
    }
}

} // verus!
