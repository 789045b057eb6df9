//! Extension objects: a payload in an encoding that the receiver may not
//! know, tagged with the node id of its type.

use vstd::prelude::*;
use vstd::std_specs::cmp::PartialEqSpecImpl;
use crate::byte_string::ByteString;
use crate::encoding::{
    lemma_field, lemma_two_parts, skip_bytes, write_u8, BinaryEncoder, EncodingResult,
};
use crate::node_id::{null_id, NodeId, NodeIdView};
use crate::status_codes::{StatusCode, BAD_DECODING_ERROR, BAD_ENCODING_LIMITS_EXCEEDED};
use crate::string::{UAString, XmlElement};

verus! {

/// The kinds of payload that an extension object can carry.
#[derive(Debug, Eq, Hash)]
pub enum ExtensionObjectEncoding {
    /// No payload.
    NoBody,
    /// A payload in the binary encoding.
    ByteString(ByteString),
    /// A payload as an XML element.
    XmlElement(XmlElement),
}

/// What an `ExtensionObjectEncoding` stands for.
pub enum ExtensionObjectEncodingView {
    NoBody,
    ByteString(Option<Seq<u8>>),
    XmlElement(Option<Seq<char>>),
}

impl View for ExtensionObjectEncoding {
    type V = ExtensionObjectEncodingView;

    open spec fn view(&self) -> ExtensionObjectEncodingView {
        match self {
            ExtensionObjectEncoding::NoBody => ExtensionObjectEncodingView::NoBody,
            ExtensionObjectEncoding::ByteString(b) => ExtensionObjectEncodingView::ByteString(b@),
            ExtensionObjectEncoding::XmlElement(x) => ExtensionObjectEncodingView::XmlElement(x@),
        }
    }
}

impl Clone for ExtensionObjectEncoding {
    fn clone(&self) -> (r: Self)
        ensures
            r@ == self@,
    {
        match self {
            ExtensionObjectEncoding::NoBody => ExtensionObjectEncoding::NoBody,
            ExtensionObjectEncoding::ByteString(b) => ExtensionObjectEncoding::ByteString(
                b.clone(),
            ),
            ExtensionObjectEncoding::XmlElement(x) => ExtensionObjectEncoding::XmlElement(
                x.clone(),
            ),
        }
    }
}

impl PartialEq for ExtensionObjectEncoding {
    fn eq(&self, other: &Self) -> (r: bool) {
        match (self, other) {
            (ExtensionObjectEncoding::NoBody, ExtensionObjectEncoding::NoBody) => true,
            (ExtensionObjectEncoding::ByteString(a), ExtensionObjectEncoding::ByteString(b)) => *a
                == *b,
            (ExtensionObjectEncoding::XmlElement(a), ExtensionObjectEncoding::XmlElement(b)) => *a
                == *b,
            _ => false,
        }
    }
}

impl PartialEqSpecImpl for ExtensionObjectEncoding {
    open spec fn obeys_eq_spec() -> bool {
        true
    }

    open spec fn eq_spec(&self, other: &Self) -> bool {
        self@ == other@
    }
}

/// A structure that holds an application specific data type that the
/// receiver may not recognize.
#[derive(Debug, Eq, Hash)]
pub struct ExtensionObject {
    pub node_id: NodeId,
    pub body: ExtensionObjectEncoding,
}

/// What an `ExtensionObject` stands for.
pub struct ExtensionObjectView {
    pub node_id: NodeIdView,
    pub body: ExtensionObjectEncodingView,
}

impl View for ExtensionObject {
    type V = ExtensionObjectView;

    open spec fn view(&self) -> ExtensionObjectView {
        ExtensionObjectView { node_id: self.node_id@, body: self.body@ }
    }
}

impl Clone for ExtensionObject {
    fn clone(&self) -> (r: Self)
        ensures
            r@ == self@,
    {
        ExtensionObject { node_id: self.node_id.clone(), body: self.body.clone() }
    }
}

impl PartialEq for ExtensionObject {
    fn eq(&self, other: &Self) -> (r: bool) {
        self.node_id == other.node_id && self.body == other.body
    }
}

impl PartialEqSpecImpl for ExtensionObject {
    open spec fn obeys_eq_spec() -> bool {
        true
    }

    open spec fn eq_spec(&self, other: &Self) -> bool {
        self@ == other@
    }
}

/// The wire form of a payload: its kind in one byte, then the payload.
pub open spec fn wire_payload(v: ExtensionObjectEncodingView) -> Seq<u8> {
    match v {
        ExtensionObjectEncodingView::NoBody => seq![0u8],
        ExtensionObjectEncodingView::ByteString(b) => seq![1u8] + ByteString::wire(b),
        ExtensionObjectEncodingView::XmlElement(x) => seq![2u8] + UAString::wire(x),
    }
}

/// The payload at the front of `s`.
pub open spec fn parse_payload(s: Seq<u8>) -> Result<(ExtensionObjectEncodingView, int), StatusCode> {
    if s.len() < 1 {
        Err(BAD_DECODING_ERROR)
    } else if s[0] == 0 {
        Ok((ExtensionObjectEncodingView::NoBody, 1))
    } else if s[0] == 1 {
        match ByteString::parse(s.skip(1)) {
            Ok((b, n)) => Ok((ExtensionObjectEncodingView::ByteString(b), 1 + n)),
            Err(e) => Err(e),
        }
    } else if s[0] == 2 {
        match UAString::parse(s.skip(1)) {
            Ok((x, n)) => Ok((ExtensionObjectEncodingView::XmlElement(x), 1 + n)),
            Err(e) => Err(e),
        }
    } else {
        Err(BAD_DECODING_ERROR)
    }
}

pub open spec fn payload_encodable(v: ExtensionObjectEncodingView) -> bool {
    match v {
        ExtensionObjectEncodingView::NoBody => true,
        ExtensionObjectEncodingView::ByteString(b) => ByteString::encodable(b),
        ExtensionObjectEncodingView::XmlElement(x) => UAString::encodable(x),
    }
}

pub open spec fn payload_canonical(v: ExtensionObjectEncodingView) -> bool {
    match v {
        ExtensionObjectEncodingView::NoBody => true,
        ExtensionObjectEncodingView::ByteString(b) => ByteString::canonical(b),
        ExtensionObjectEncodingView::XmlElement(x) => UAString::canonical(x),
    }
}

proof fn lemma_payload(v: ExtensionObjectEncodingView, rest: Seq<u8>)
    requires
        payload_canonical(v),
    ensures
        payload_encodable(v),
        parse_payload(wire_payload(v) + rest) == Ok::<
            (ExtensionObjectEncodingView, int),
            StatusCode,
        >((v, wire_payload(v).len() as int)),
{
    let s = wire_payload(v) + rest;
    match v {
        ExtensionObjectEncodingView::NoBody => {},
        ExtensionObjectEncodingView::ByteString(b) => {
            assert(s.skip(1) =~= ByteString::wire(b) + rest);
            lemma_field::<ByteString>(b, rest);
        },
        ExtensionObjectEncodingView::XmlElement(x) => {
            assert(s.skip(1) =~= UAString::wire(x) + rest);
            lemma_field::<UAString>(x, rest);
        },
    }
}

/// The null extension object: the null node id and no payload.
pub open spec fn null_object() -> ExtensionObjectView {
    ExtensionObjectView { node_id: null_id(), body: ExtensionObjectEncodingView::NoBody }
}

impl BinaryEncoder for ExtensionObject {
    /// The node id of the type, then the payload.
    open spec fn wire(v: ExtensionObjectView) -> Seq<u8> {
        NodeId::wire(v.node_id) + wire_payload(v.body)
    }

    open spec fn parse(s: Seq<u8>) -> Result<(ExtensionObjectView, int), StatusCode> {
        match NodeId::parse(s) {
            Ok((node_id, n)) => match parse_payload(s.skip(n)) {
                Ok((body, m)) => Ok((ExtensionObjectView { node_id, body }, n + m)),
                Err(e) => Err(e),
            },
            Err(e) => Err(e),
        }
    }

    open spec fn encodable(v: ExtensionObjectView) -> bool {
        NodeId::encodable(v.node_id) && payload_encodable(v.body)
    }

    open spec fn canonical(v: ExtensionObjectView) -> bool {
        NodeId::canonical(v.node_id) && payload_canonical(v.body)
    }

    proof fn lemma_round_trip(v: ExtensionObjectView, rest: Seq<u8>) {
        lemma_two_parts(NodeId::wire(v.node_id), wire_payload(v.body), rest);
        lemma_field::<NodeId>(v.node_id, wire_payload(v.body) + rest);
        lemma_payload(v.body, rest);
    }

    proof fn lemma_parse_consumes(s: Seq<u8>) {
        NodeId::lemma_parse_consumes(s);
        if let Ok((node_id, n)) = NodeId::parse(s) {
            let t = s.skip(n);
            if t.len() >= 1 {
                ByteString::lemma_parse_consumes(t.skip(1));
                UAString::lemma_parse_consumes(t.skip(1));
            }
        }
    }

    fn is_encodable(&self) -> (r: bool) {
        self.node_id.is_encodable() && match &self.body {
            ExtensionObjectEncoding::NoBody => true,
            ExtensionObjectEncoding::ByteString(b) => b.is_encodable(),
            ExtensionObjectEncoding::XmlElement(x) => x.is_encodable(),
        }
    }

    fn byte_len(&self) -> (n: usize) {
        let mut size = self.node_id.byte_len();
        size = size + match &self.body {
            ExtensionObjectEncoding::NoBody => 1,
            ExtensionObjectEncoding::ByteString(value) => 1 + value.byte_len(),
            ExtensionObjectEncoding::XmlElement(value) => 1 + value.byte_len(),
        };
        size
    }

    fn encode(&self, stream: &mut Vec<u8>) -> (r: EncodingResult<usize>) {
        if !self.is_encodable() {
            return Err(BAD_ENCODING_LIMITS_EXCEEDED);
        }
        let start = stream.len();
        let _ = self.node_id.encode(stream);
        match &self.body {
            ExtensionObjectEncoding::NoBody => {
                let _ = write_u8(stream, 0);
            },
            ExtensionObjectEncoding::ByteString(value) => {
                let _ = write_u8(stream, 1);
                let _ = value.encode(stream);
            },
            ExtensionObjectEncoding::XmlElement(value) => {
                let _ = write_u8(stream, 2);
                let _ = value.encode(stream);
            },
        }
        assert(stream@ =~= old(stream)@ + Self::wire(self@));
        Ok(stream.len() - start)
    }

    fn decode(stream: &[u8]) -> (r: EncodingResult<(Self, usize)>) {
        let (node_id, n) = NodeId::decode(stream)?;
        let rest = skip_bytes(stream, n);
        if rest.len() < 1 {
            return Err(BAD_DECODING_ERROR);
        }
        let encoding_type = rest[0];
        let (body, m) = if encoding_type == 0 {
            (ExtensionObjectEncoding::NoBody, 0)
        } else if encoding_type == 1 {
            let (value, m) = ByteString::decode(skip_bytes(rest, 1))?;
            (ExtensionObjectEncoding::ByteString(value), m)
        } else if encoding_type == 2 {
            let (value, m) = XmlElement::decode(skip_bytes(rest, 1))?;
            (ExtensionObjectEncoding::XmlElement(value), m)
        } else {
            return Err(BAD_DECODING_ERROR);
        };
        Ok((ExtensionObject { node_id, body }, n + 1 + m))
    }
}

impl ExtensionObject {
    /// The null extension object, with no payload.
    pub fn null() -> (r: ExtensionObject)
        ensures
            r@ == null_object(),
    {
        ExtensionObject { node_id: NodeId::null(), body: ExtensionObjectEncoding::NoBody }
    }

    /// The extension object of type `node_id` whose payload is the wire
    /// form of `encodable`. A value that cannot be encoded gives an empty
    /// payload.
    pub fn from_encodable<T: BinaryEncoder>(node_id: NodeId, encodable: T) -> (r: ExtensionObject)
        ensures
            r@ == (ExtensionObjectView {
                node_id: node_id@,
                body: ExtensionObjectEncodingView::ByteString(
                    Some(
                        if T::encodable(encodable@) {
                            T::wire(encodable@)
                        } else {
                            Seq::empty()
                        },
                    ),
                ),
            }),
    {
        let mut stream: Vec<u8> = Vec::new();
        let _ = encodable.encode(&mut stream);
        assert(Seq::<u8>::empty() + T::wire(encodable@) =~= T::wire(encodable@));
        ExtensionObject {
            node_id,
            body: ExtensionObjectEncoding::ByteString(ByteString { value: Some(stream) }),
        }
    }

    /// Reads the payload as a value of type `T`. The node id plays no part.
    /// An object without a binary payload gives a decoding error.
    pub fn decode_inner<T: BinaryEncoder>(&self) -> (r: EncodingResult<T>)
        ensures
            match self@.body {
                ExtensionObjectEncodingView::ByteString(Some(bytes)) => match T::parse(bytes) {
                    Ok((v, n)) => r matches Ok(x) && x@ == v,
                    Err(e) => r matches Err(f) && f == e,
                },
                _ => r matches Err(f) && f == BAD_DECODING_ERROR,
            },
    {
        if let ExtensionObjectEncoding::ByteString(byte_string) = &self.body {
            if let Some(value) = &byte_string.value {
                let (x, _) = T::decode(value.as_slice())?;
                return Ok(x);
            }
        }
        Err(BAD_DECODING_ERROR)
    }
}

/// What `from_encodable` packs, `decode_inner` unpacks.
pub proof fn lemma_unpack_packed<T: BinaryEncoder>(v: T::V)
    requires
        T::canonical(v),
    ensures
        T::encodable(v),
        T::parse(T::wire(v)) == Ok::<(T::V, int), StatusCode>((v, T::wire(v).len() as int)),
{
    T::lemma_round_trip(v, Seq::empty());
    assert(T::wire(v) + Seq::<u8>::empty() =~= T::wire(v));
}

} // verus!
