//! Human readable text with an optional locale.

use vstd::prelude::*;
use vstd::std_specs::cmp::PartialEqSpecImpl;
use crate::encoding::{lemma_field, skip_bytes, write_u8, BinaryEncoder, EncodingResult};
use crate::status_codes::{StatusCode, BAD_DECODING_ERROR, BAD_ENCODING_LIMITS_EXCEEDED};
use crate::string::UAString;

verus! {

/// Human readable text with an optional locale identifier.
#[derive(Debug, Eq, Hash)]
pub struct LocalizedText {
    /// The locale. Left out of the wire form when null.
    pub locale: UAString,
    /// The text in that locale. Left out of the wire form when null.
    pub text: UAString,
}

/// What a `LocalizedText` stands for.
pub struct LocalizedTextView {
    pub locale: Option<Seq<char>>,
    pub text: Option<Seq<char>>,
}

impl View for LocalizedText {
    type V = LocalizedTextView;

    open spec fn view(&self) -> LocalizedTextView {
        LocalizedTextView { locale: self.locale@, text: self.text@ }
    }
}

impl Clone for LocalizedText {
    fn clone(&self) -> (r: Self)
        ensures
            r@ == self@,
    {
        LocalizedText { locale: self.locale.clone(), text: self.text.clone() }
    }
}

impl PartialEq for LocalizedText {
    fn eq(&self, other: &Self) -> (r: bool) {
        self.locale == other.locale && self.text == other.text
    }
}

impl PartialEqSpecImpl for LocalizedText {
    open spec fn obeys_eq_spec() -> bool {
        true
    }

    open spec fn eq_spec(&self, other: &Self) -> bool {
        self@ == other@
    }
}

/// True when `s` is not null. The empty string is not null.
pub open spec fn has_text(s: Option<Seq<char>>) -> bool {
    s is Some
}

/// The wire form of a string that is left out when it is null.
pub open spec fn wire_text(s: Option<Seq<char>>) -> Seq<u8> {
    if has_text(s) {
        UAString::wire(s)
    } else {
        Seq::empty()
    }
}

/// The string at the front of `s` when `present`, else null.
pub open spec fn parse_text_if(present: bool, s: Seq<u8>) -> Result<
    (Option<Seq<char>>, int),
    StatusCode,
> {
    if present {
        UAString::parse(s)
    } else {
        Ok((None, 0))
    }
}

/// The presence mask: 1 for the locale, 2 for the text.
pub open spec fn text_mask(v: LocalizedTextView) -> u8 {
    ((if has_text(v.locale) {
        1int
    } else {
        0int
    }) + (if has_text(v.text) {
        2int
    } else {
        0int
    })) as u8
}

/// The null text: no locale and no text.
pub open spec fn null_text() -> LocalizedTextView {
    LocalizedTextView { locale: None, text: None }
}

proof fn lemma_text_mask(v: LocalizedTextView)
    ensures
        text_mask(v) as int % 2 == 1 <==> has_text(v.locale),
        (text_mask(v) as int / 2) % 2 == 1 <==> has_text(v.text),
{
}

proof fn lemma_text_parts(mask: u8, a: Seq<u8>, b: Seq<u8>, rest: Seq<u8>)
    ensures
        ({
            let s = seq![mask] + a + b + rest;
            &&& s.len() == 1 + a.len() + b.len() + rest.len()
            &&& s[0] == mask
            &&& s.skip(1) == a + (b + rest)
            &&& s.skip(1 + a.len() as int) == b + rest
        }),
{
    let s = seq![mask] + a + b + rest;
    assert(s.skip(1) =~= a + (b + rest));
    assert(s.skip(1 + a.len() as int) =~= b + rest);
}

impl BinaryEncoder for LocalizedText {
    /// The presence mask, then the locale and the text where they are not
    /// null.
    open spec fn wire(v: LocalizedTextView) -> Seq<u8> {
        seq![text_mask(v)] + wire_text(v.locale) + wire_text(v.text)
    }

    open spec fn parse(s: Seq<u8>) -> Result<(LocalizedTextView, int), StatusCode> {
        if s.len() < 1 {
            Err(BAD_DECODING_ERROR)
        } else {
            match parse_text_if(s[0] as int % 2 == 1, s.skip(1)) {
                Ok((locale, n)) => match parse_text_if(
                    (s[0] as int / 2) % 2 == 1,
                    s.skip(1 + n),
                ) {
                    Ok((text, m)) => Ok((LocalizedTextView { locale, text }, 1 + n + m)),
                    Err(e) => Err(e),
                },
                Err(e) => Err(e),
            }
        }
    }

    open spec fn encodable(v: LocalizedTextView) -> bool {
        UAString::encodable(v.locale) && UAString::encodable(v.text)
    }

    open spec fn canonical(v: LocalizedTextView) -> bool {
        UAString::canonical(v.locale) && UAString::canonical(v.text)
    }

    proof fn lemma_round_trip(v: LocalizedTextView, rest: Seq<u8>) {
        let s = Self::wire(v) + rest;
        let locale = wire_text(v.locale);
        let text = wire_text(v.text);
        lemma_text_parts(text_mask(v), locale, text, rest);
        lemma_text_mask(v);
        assert(parse_text_if(has_text(v.locale), locale + (text + rest)) == Ok::<
            (Option<Seq<char>>, int),
            StatusCode,
        >((v.locale, locale.len() as int))) by {
            if has_text(v.locale) {
                lemma_field::<UAString>(v.locale, text + rest);
            }
        }
        assert(parse_text_if(has_text(v.text), text + rest) == Ok::<
            (Option<Seq<char>>, int),
            StatusCode,
        >((v.text, text.len() as int))) by {
            if has_text(v.text) {
                lemma_field::<UAString>(v.text, rest);
            }
        }
    }

    proof fn lemma_parse_consumes(s: Seq<u8>) {
        if s.len() >= 1 {
            UAString::lemma_parse_consumes(s.skip(1));
            if let Ok((locale, n)) = parse_text_if(s[0] as int % 2 == 1, s.skip(1)) {
                UAString::lemma_parse_consumes(s.skip(1 + n));
            }
        }
    }

    fn is_encodable(&self) -> (r: bool) {
        self.locale.is_encodable() && self.text.is_encodable()
    }

    fn byte_len(&self) -> (n: usize) {
        let mut size: usize = 1;
        if !self.locale.is_null() {
            size = size + self.locale.byte_len();
        }
        if !self.text.is_null() {
            size = size + self.text.byte_len();
        }
        size
    }

    fn encode(&self, stream: &mut Vec<u8>) -> (r: EncodingResult<usize>) {
        if !self.is_encodable() {
            return Err(BAD_ENCODING_LIMITS_EXCEEDED);
        }
        let start = stream.len();
        let mut encoding_mask: u8 = 0;
        if !self.locale.is_null() {
            encoding_mask = encoding_mask + 1;
        }
        if !self.text.is_null() {
            encoding_mask = encoding_mask + 2;
        }
        let _ = write_u8(stream, encoding_mask);
        if !self.locale.is_null() {
            let _ = self.locale.encode(stream);
        }
        if !self.text.is_null() {
            let _ = self.text.encode(stream);
        }
        assert(stream@ =~= old(stream)@ + Self::wire(self@));
        Ok(stream.len() - start)
    }

    fn decode(stream: &[u8]) -> (r: EncodingResult<(Self, usize)>) {
        if stream.len() < 1 {
            return Err(BAD_DECODING_ERROR);
        }
        let encoding_mask = stream[0];
        let (locale, n) = if encoding_mask % 2 == 1 {
            UAString::decode(skip_bytes(stream, 1))?
        } else {
            (UAString::null(), 0)
        };
        let (text, m) = if (encoding_mask / 2) % 2 == 1 {
            UAString::decode(skip_bytes(stream, 1 + n))?
        } else {
            (UAString::null(), 0)
        };
        Ok((LocalizedText { locale, text }, 1 + n + m))
    }
}

impl LocalizedText {
    /// The text `text` in the locale `locale`.
    pub fn new(locale: &str, text: &str) -> (r: LocalizedText)
        ensures
            r@ == (LocalizedTextView { locale: Some(locale@), text: Some(text@) }),
    {
        LocalizedText { locale: UAString::from_str(locale), text: UAString::from_str(text) }
    }

    /// The null text.
    pub fn null() -> (r: LocalizedText)
        ensures
            r@ == null_text(),
    {
        LocalizedText { locale: UAString::null(), text: UAString::null() }
    }
}

} // verus!
