//! Node identifiers: a namespace index and a numeric, string, GUID or opaque
//! identifier, with a compact wire form for small numeric identifiers.

use vstd::prelude::*;
use vstd::std_specs::cmp::PartialEqSpecImpl;
use crate::byte_string::ByteString;
use crate::encoding::{
    le_bytes_2, le_bytes_4, le_value_2, le_value_4, lemma_field, lemma_le_2, lemma_le_4, read_u16,
    read_u32, skip_bytes, write_u16, write_u32, write_u8, BinaryEncoder, EncodingResult,
};
use crate::guid::{Guid, GuidView};
use crate::status_codes::{StatusCode, BAD_DECODING_ERROR, BAD_ENCODING_LIMITS_EXCEEDED};
use crate::string::UAString;

verus! {

/// The identifier of a node within its namespace.
#[derive(Debug, Eq, Hash)]
pub enum Identifier {
    Numeric(u32),
    String(UAString),
    Guid(Guid),
    ByteString(ByteString),
}

/// What an `Identifier` stands for.
pub enum IdentifierView {
    Numeric(u32),
    String(Option<Seq<char>>),
    Guid(GuidView),
    ByteString(Option<Seq<u8>>),
}

impl View for Identifier {
    type V = IdentifierView;

    open spec fn view(&self) -> IdentifierView {
        match self {
            Identifier::Numeric(n) => IdentifierView::Numeric(*n),
            Identifier::String(s) => IdentifierView::String(s@),
            Identifier::Guid(g) => IdentifierView::Guid(g@),
            Identifier::ByteString(b) => IdentifierView::ByteString(b@),
        }
    }
}

impl Clone for Identifier {
    fn clone(&self) -> (r: Self)
        ensures
            r@ == self@,
    {
        match self {
            Identifier::Numeric(n) => Identifier::Numeric(*n),
            Identifier::String(s) => Identifier::String(s.clone()),
            Identifier::Guid(g) => Identifier::Guid(*g),
            Identifier::ByteString(b) => Identifier::ByteString(b.clone()),
        }
    }
}

impl PartialEq for Identifier {
    fn eq(&self, other: &Self) -> (r: bool) {
        match (self, other) {
            (Identifier::Numeric(a), Identifier::Numeric(b)) => *a == *b,
            (Identifier::String(a), Identifier::String(b)) => *a == *b,
            (Identifier::Guid(a), Identifier::Guid(b)) => *a == *b,
            (Identifier::ByteString(a), Identifier::ByteString(b)) => *a == *b,
            _ => false,
        }
    }
}

impl PartialEqSpecImpl for Identifier {
    open spec fn obeys_eq_spec() -> bool {
        true
    }

    open spec fn eq_spec(&self, other: &Self) -> bool {
        self@ == other@
    }
}

/// An identifier for a node in the address space of a server.
#[derive(Debug, Eq, Hash)]
pub struct NodeId {
    /// The index of the namespace.
    pub namespace: u16,
    /// The identifier within the namespace.
    pub identifier: Identifier,
}

/// What a `NodeId` stands for.
pub struct NodeIdView {
    pub namespace: u16,
    pub identifier: IdentifierView,
}

impl View for NodeId {
    type V = NodeIdView;

    open spec fn view(&self) -> NodeIdView {
        NodeIdView { namespace: self.namespace, identifier: self.identifier@ }
    }
}

impl Clone for NodeId {
    fn clone(&self) -> (r: Self)
        ensures
            r@ == self@,
    {
        NodeId { namespace: self.namespace, identifier: self.identifier.clone() }
    }
}

impl PartialEq for NodeId {
    fn eq(&self, other: &Self) -> (r: bool) {
        self.namespace == other.namespace && self.identifier == other.identifier
    }
}

impl PartialEqSpecImpl for NodeId {
    open spec fn obeys_eq_spec() -> bool {
        true
    }

    open spec fn eq_spec(&self, other: &Self) -> bool {
        self@ == other@
    }
}

/// The numeric identifier `value` in namespace `namespace`.
pub open spec fn numeric_id(namespace: u16, value: u32) -> NodeIdView {
    NodeIdView { namespace, identifier: IdentifierView::Numeric(value) }
}

/// The null node id: the numeric identifier 0 in namespace 0.
pub open spec fn null_id() -> NodeIdView {
    numeric_id(0, 0)
}

/// The kind of wire form that `v` takes: 0 and 1 are the compact numeric
/// forms, 2 the full numeric form, 3 string, 4 GUID, 5 opaque.
pub open spec fn wire_kind(v: NodeIdView) -> int {
    match v.identifier {
        IdentifierView::Numeric(n) => if v.namespace == 0 && n <= 255 {
            0
        } else if v.namespace <= 255 && n <= 65535 {
            1
        } else {
            2
        },
        IdentifierView::String(_) => 3,
        IdentifierView::Guid(_) => 4,
        IdentifierView::ByteString(_) => 5,
    }
}

/// What follows the first byte in the wire form of `v`.
pub open spec fn wire_body(v: NodeIdView) -> Seq<u8> {
    match v.identifier {
        IdentifierView::Numeric(n) => if wire_kind(v) == 0 {
            seq![n as u8]
        } else if wire_kind(v) == 1 {
            seq![v.namespace as u8] + le_bytes_2(n as int)
        } else {
            le_bytes_2(v.namespace as int) + le_bytes_4(n as int)
        },
        IdentifierView::String(s) => le_bytes_2(v.namespace as int) + UAString::wire(s),
        IdentifierView::Guid(g) => le_bytes_2(v.namespace as int) + Guid::wire(g),
        IdentifierView::ByteString(b) => le_bytes_2(v.namespace as int) + ByteString::wire(b),
    }
}

/// The node id of wire kind `kind` at the front of `s`, whose first byte
/// has been looked at already, and the number of bytes that it takes with
/// that first byte.
pub open spec fn parse_kind(kind: int, s: Seq<u8>) -> Result<(NodeIdView, int), StatusCode> {
    if kind == 0 {
        if s.len() >= 2 {
            Ok((numeric_id(0, s[1] as u32), 2))
        } else {
            Err(BAD_DECODING_ERROR)
        }
    } else if kind == 1 {
        if s.len() >= 4 {
            Ok((numeric_id(s[1] as u16, le_value_2(s.skip(2)) as u32), 4))
        } else {
            Err(BAD_DECODING_ERROR)
        }
    } else if kind == 2 {
        if s.len() >= 7 {
            Ok((numeric_id(le_value_2(s.skip(1)) as u16, le_value_4(s.skip(3)) as u32), 7))
        } else {
            Err(BAD_DECODING_ERROR)
        }
    } else if s.len() < 3 {
        Err(BAD_DECODING_ERROR)
    } else {
        let namespace = le_value_2(s.skip(1)) as u16;
        if kind == 3 {
            match UAString::parse(s.skip(3)) {
                Ok((v, n)) => Ok(
                    (NodeIdView { namespace, identifier: IdentifierView::String(v) }, 3 + n),
                ),
                Err(e) => Err(e),
            }
        } else if kind == 4 {
            match Guid::parse(s.skip(3)) {
                Ok((v, n)) => Ok(
                    (NodeIdView { namespace, identifier: IdentifierView::Guid(v) }, 3 + n),
                ),
                Err(e) => Err(e),
            }
        } else if kind == 5 {
            match ByteString::parse(s.skip(3)) {
                Ok((v, n)) => Ok(
                    (NodeIdView { namespace, identifier: IdentifierView::ByteString(v) }, 3 + n),
                ),
                Err(e) => Err(e),
            }
        } else {
            Err(BAD_DECODING_ERROR)
        }
    }
}

/// True when the identifier of `v` fits its wire form.
pub open spec fn id_encodable(v: NodeIdView) -> bool {
    match v.identifier {
        IdentifierView::Numeric(_) => true,
        IdentifierView::String(s) => UAString::encodable(s),
        IdentifierView::Guid(g) => Guid::encodable(g),
        IdentifierView::ByteString(b) => ByteString::encodable(b),
    }
}

/// True when the identifier of `v` is within the limits of the decoder.
pub open spec fn id_canonical(v: NodeIdView) -> bool {
    match v.identifier {
        IdentifierView::Numeric(_) => true,
        IdentifierView::String(s) => UAString::canonical(s),
        IdentifierView::Guid(g) => Guid::canonical(g),
        IdentifierView::ByteString(b) => ByteString::canonical(b),
    }
}

proof fn lemma_behind_namespace(first: u8, namespace: u16, body: Seq<u8>, rest: Seq<u8>)
    ensures
        ({
            let s = seq![first] + (le_bytes_2(namespace as int) + body) + rest;
            &&& s.len() >= 3
            &&& le_value_2(s.skip(1)) == namespace
            &&& s.skip(3) == body + rest
        }),
{
    let s = seq![first] + (le_bytes_2(namespace as int) + body) + rest;
    assert(s.skip(1) =~= le_bytes_2(namespace as int) + (body + rest));
    lemma_le_2(namespace as int, body + rest);
    assert(s.skip(3) =~= body + rest);
}

proof fn lemma_parse_numeric(v: NodeIdView, first: u8, rest: Seq<u8>)
    requires
        v.identifier is Numeric,
    ensures
        parse_kind(wire_kind(v), seq![first] + wire_body(v) + rest) == Ok::<
            (NodeIdView, int),
            StatusCode,
        >((v, 1 + wire_body(v).len() as int)),
{
    let s = seq![first] + wire_body(v) + rest;
    let n = v.identifier->Numeric_0;
    if wire_kind(v) == 0 {
        assert(s[1] == n as u8);
    } else if wire_kind(v) == 1 {
        assert(s[1] == v.namespace as u8);
        assert(s.skip(2) =~= le_bytes_2(n as int) + rest);
        lemma_le_2(n as int, rest);
    } else {
        lemma_behind_namespace(first, v.namespace, le_bytes_4(n as int), rest);
        lemma_le_4(n as int, rest);
    }
}

/// Reading the wire form of a node id, behind any first byte, gives the
/// node id back.
pub proof fn lemma_parse_kind(v: NodeIdView, first: u8, rest: Seq<u8>)
    requires
        id_canonical(v),
    ensures
        id_encodable(v),
        parse_kind(wire_kind(v), seq![first] + wire_body(v) + rest) == Ok::<
            (NodeIdView, int),
            StatusCode,
        >((v, 1 + wire_body(v).len() as int)),
{
    match v.identifier {
        IdentifierView::Numeric(n) => {
            lemma_parse_numeric(v, first, rest);
        },
        IdentifierView::String(x) => {
            lemma_behind_namespace(first, v.namespace, UAString::wire(x), rest);
            UAString::lemma_round_trip(x, rest);
        },
        IdentifierView::Guid(x) => {
            lemma_behind_namespace(first, v.namespace, Guid::wire(x), rest);
            Guid::lemma_round_trip(x, rest);
        },
        IdentifierView::ByteString(x) => {
            lemma_behind_namespace(first, v.namespace, ByteString::wire(x), rest);
            ByteString::lemma_round_trip(x, rest);
        },
    }
}

/// A node id read by `parse_kind` takes at least two and at most all bytes.
pub proof fn lemma_parse_kind_consumes(kind: int, s: Seq<u8>)
    ensures
        parse_kind(kind, s) matches Ok((v, n)) ==> 2 <= n <= s.len(),
{
    if s.len() >= 3 {
        UAString::lemma_parse_consumes(s.skip(3));
        Guid::lemma_parse_consumes(s.skip(3));
        ByteString::lemma_parse_consumes(s.skip(3));
    }
}

impl NodeId {
    /// The wire kind of this node id.
    pub(crate) fn kind(&self) -> (r: u8)
        ensures
            r == wire_kind(self@),
    {
        match &self.identifier {
            Identifier::Numeric(n) => if self.namespace == 0 && *n <= 255 {
                0
            } else if self.namespace <= 255 && *n <= 65535 {
                1
            } else {
                2
            },
            Identifier::String(_) => 3,
            Identifier::Guid(_) => 4,
            Identifier::ByteString(_) => 5,
        }
    }

    /// The length of what follows the first byte in the wire form.
    pub(crate) fn body_len(&self) -> (n: usize)
        requires
            wire_body(self@).len() <= usize::MAX,
        ensures
            n == wire_body(self@).len(),
    {
        match &self.identifier {
            Identifier::Numeric(n) => if self.namespace == 0 && *n <= 255 {
                1
            } else if self.namespace <= 255 && *n <= 65535 {
                3
            } else {
                6
            },
            Identifier::String(s) => 2 + s.byte_len(),
            Identifier::Guid(g) => 2 + g.byte_len(),
            Identifier::ByteString(b) => 2 + b.byte_len(),
        }
    }

    /// Appends the wire form with `first` as its first byte.
    pub(crate) fn encode_behind(&self, first: u8, stream: &mut Vec<u8>) -> (r: usize)
        requires
            id_encodable(self@),
        ensures
            r == 1 + wire_body(self@).len(),
            final(stream)@ == old(stream)@ + seq![first] + wire_body(self@),
    {
        let start = stream.len();
        let _ = write_u8(stream, first);
        match &self.identifier {
            Identifier::Numeric(n) => {
                if self.namespace == 0 && *n <= 255 {
                    let _ = write_u8(stream, *n as u8);
                } else if self.namespace <= 255 && *n <= 65535 {
                    let _ = write_u8(stream, self.namespace as u8);
                    let _ = write_u16(stream, *n as u16);
                } else {
                    let _ = write_u16(stream, self.namespace);
                    let _ = write_u32(stream, *n);
                }
            },
            Identifier::String(s) => {
                let _ = write_u16(stream, self.namespace);
                let _ = s.encode(stream);
            },
            Identifier::Guid(g) => {
                let _ = write_u16(stream, self.namespace);
                let _ = g.encode(stream);
            },
            Identifier::ByteString(b) => {
                let _ = write_u16(stream, self.namespace);
                let _ = b.encode(stream);
            },
        }
        assert(stream@ =~= old(stream)@ + seq![first] + wire_body(self@));
        stream.len() - start
    }

    /// Reads a node id of wire kind `kind` whose first byte is the first of `stream`.
    pub(crate) fn decode_kind(kind: u8, stream: &[u8]) -> (r: EncodingResult<(NodeId, usize)>)
        ensures
            match parse_kind(kind as int, stream@) {
                Ok((v, n)) => r matches Ok((x, m)) && x@ == v && m == n && m <= stream@.len(),
                Err(e) => r matches Err(f) && f == e,
            },
    {
        if kind == 0 {
            if stream.len() < 2 {
                return Err(BAD_DECODING_ERROR);
            }
            Ok((NodeId::new_numeric(0, stream[1] as u32), 2))
        } else if kind == 1 {
            if stream.len() < 4 {
                return Err(BAD_DECODING_ERROR);
            }
            let (value, _) = read_u16(skip_bytes(stream, 2))?;
            Ok((NodeId::new_numeric(stream[1] as u16, value as u32), 4))
        } else if kind == 2 {
            if stream.len() < 7 {
                return Err(BAD_DECODING_ERROR);
            }
            let (namespace, _) = read_u16(skip_bytes(stream, 1))?;
            let (value, _) = read_u32(skip_bytes(stream, 3))?;
            Ok((NodeId::new_numeric(namespace, value), 7))
        } else if stream.len() < 3 {
            Err(BAD_DECODING_ERROR)
        } else {
            let (namespace, _) = read_u16(skip_bytes(stream, 1))?;
            let rest = skip_bytes(stream, 3);
            if kind == 3 {
                let (value, n) = UAString::decode(rest)?;
                Ok((NodeId { namespace, identifier: Identifier::String(value) }, 3 + n))
            } else if kind == 4 {
                let (value, n) = Guid::decode(rest)?;
                Ok((NodeId { namespace, identifier: Identifier::Guid(value) }, 3 + n))
            } else if kind == 5 {
                let (value, n) = ByteString::decode(rest)?;
                Ok((NodeId { namespace, identifier: Identifier::ByteString(value) }, 3 + n))
            } else {
                Err(BAD_DECODING_ERROR)
            }
        }
    }

    /// The numeric node id `value` in namespace `namespace`.
    pub fn new_numeric(namespace: u16, value: u32) -> (r: NodeId)
        ensures
            r@ == numeric_id(namespace, value),
    {
        NodeId { namespace, identifier: Identifier::Numeric(value) }
    }

    /// The string node id `value` in namespace `namespace`.
    pub fn new_string(namespace: u16, value: &str) -> (r: NodeId)
        ensures
            r@ == (NodeIdView {
                namespace,
                identifier: IdentifierView::String(Some(value@)),
            }),
    {
        NodeId { namespace, identifier: Identifier::String(UAString::from_str(value)) }
    }

    /// The GUID node id `value` in namespace `namespace`.
    pub fn new_guid(namespace: u16, value: Guid) -> (r: NodeId)
        ensures
            r@ == (NodeIdView { namespace, identifier: IdentifierView::Guid(value@) }),
    {
        NodeId { namespace, identifier: Identifier::Guid(value) }
    }

    /// The opaque node id `value` in namespace `namespace`.
    pub fn new_byte_string(namespace: u16, value: ByteString) -> (r: NodeId)
        ensures
            r@ == (NodeIdView { namespace, identifier: IdentifierView::ByteString(value@) }),
    {
        NodeId { namespace, identifier: Identifier::ByteString(value) }
    }

    /// The null node id.
    pub fn null() -> (r: NodeId)
        ensures
            r@ == null_id(),
    {
        NodeId::new_numeric(0, 0)
    }

    /// True for the null node id.
    pub fn is_null(&self) -> (r: bool)
        ensures
            r == (self@ == null_id()),
    {
        match &self.identifier {
            Identifier::Numeric(n) => self.namespace == 0 && *n == 0,
            _ => false,
        }
    }
}

impl BinaryEncoder for NodeId {
    /// One byte for the wire kind, then the namespace and the identifier
    /// in the form of that kind.
    open spec fn wire(v: NodeIdView) -> Seq<u8> {
        seq![wire_kind(v) as u8] + wire_body(v)
    }

    open spec fn parse(s: Seq<u8>) -> Result<(NodeIdView, int), StatusCode> {
        if s.len() < 1 {
            Err(BAD_DECODING_ERROR)
        } else {
            parse_kind(s[0] as int, s)
        }
    }

    open spec fn encodable(v: NodeIdView) -> bool {
        id_encodable(v)
    }

    open spec fn canonical(v: NodeIdView) -> bool {
        id_canonical(v)
    }

    proof fn lemma_round_trip(v: NodeIdView, rest: Seq<u8>) {
        lemma_parse_kind(v, wire_kind(v) as u8, rest);
    }

    proof fn lemma_parse_consumes(s: Seq<u8>) {
        if s.len() >= 1 {
            lemma_parse_kind_consumes(s[0] as int, s);
        }
    }

    fn is_encodable(&self) -> (r: bool) {
        match &self.identifier {
            Identifier::Numeric(_) => true,
            Identifier::String(s) => s.is_encodable(),
            Identifier::Guid(g) => g.is_encodable(),
            Identifier::ByteString(b) => b.is_encodable(),
        }
    }

    fn byte_len(&self) -> (n: usize) {
        1 + self.body_len()
    }

    fn encode(&self, stream: &mut Vec<u8>) -> (r: EncodingResult<usize>) {
        if !self.is_encodable() {
            return Err(BAD_ENCODING_LIMITS_EXCEEDED);
        }
        let first = self.kind();
        let n = self.encode_behind(first, stream);
        assert(old(stream)@ + seq![first] + wire_body(self@) =~= old(stream)@ + Self::wire(
            self@,
        ));
        Ok(n)
    }

    fn decode(stream: &[u8]) -> (r: EncodingResult<(Self, usize)>) {
        if stream.len() < 1 {
            return Err(BAD_DECODING_ERROR);
        }
        NodeId::decode_kind(stream[0], stream)
    }
}

/// A node id that can name a node of another server or of a namespace
/// given by its URI.
#[derive(Debug, Eq, Hash)]
pub struct ExpandedNodeId {
    pub node_id: NodeId,
    pub namespace_uri: UAString,
    pub server_index: u32,
}

/// What an `ExpandedNodeId` stands for.
pub struct ExpandedNodeIdView {
    pub node_id: NodeIdView,
    pub namespace_uri: Option<Seq<char>>,
    pub server_index: u32,
}

impl View for ExpandedNodeId {
    type V = ExpandedNodeIdView;

    open spec fn view(&self) -> ExpandedNodeIdView {
        ExpandedNodeIdView {
            node_id: self.node_id@,
            namespace_uri: self.namespace_uri@,
            server_index: self.server_index,
        }
    }
}

impl Clone for ExpandedNodeId {
    fn clone(&self) -> (r: Self)
        ensures
            r@ == self@,
    {
        ExpandedNodeId {
            node_id: self.node_id.clone(),
            namespace_uri: self.namespace_uri.clone(),
            server_index: self.server_index,
        }
    }
}

impl PartialEq for ExpandedNodeId {
    fn eq(&self, other: &Self) -> (r: bool) {
        self.node_id == other.node_id && self.namespace_uri == other.namespace_uri
            && self.server_index == other.server_index
    }
}

impl PartialEqSpecImpl for ExpandedNodeId {
    open spec fn obeys_eq_spec() -> bool {
        true
    }

    open spec fn eq_spec(&self, other: &Self) -> bool {
        self@ == other@
    }
}

/// The expanded form of the local node id `id`.
pub open spec fn expanded(id: NodeIdView) -> ExpandedNodeIdView {
    ExpandedNodeIdView { node_id: id, namespace_uri: None, server_index: 0 }
}

/// The first byte of the wire form: the wire kind of the node id, 128 when
/// a namespace URI follows, 64 when a server index follows.
pub open spec fn expanded_first(v: ExpandedNodeIdView) -> int {
    wire_kind(v.node_id) + (if v.namespace_uri is Some {
        128int
    } else {
        0int
    }) + (if v.server_index != 0 {
        64int
    } else {
        0int
    })
}

/// The namespace URI in the wire form: there when it is not null.
pub open spec fn wire_uri(v: ExpandedNodeIdView) -> Seq<u8> {
    if v.namespace_uri is Some {
        UAString::wire(v.namespace_uri)
    } else {
        Seq::empty()
    }
}

/// The server index in the wire form: there when it is not 0.
pub open spec fn wire_server_index(v: ExpandedNodeIdView) -> Seq<u8> {
    if v.server_index != 0 {
        u32::wire(v.server_index)
    } else {
        Seq::empty()
    }
}

/// The namespace URI at the front of `s` when `present`, else null.
pub open spec fn parse_uri(present: bool, s: Seq<u8>) -> Result<(Option<Seq<char>>, int), StatusCode> {
    if present {
        UAString::parse(s)
    } else {
        Ok((None, 0))
    }
}

/// The server index at the front of `s` when `present`, else 0.
pub open spec fn parse_server_index(present: bool, s: Seq<u8>) -> Result<(u32, int), StatusCode> {
    if present {
        u32::parse(s)
    } else {
        Ok((0u32, 0))
    }
}

proof fn lemma_expanded_first(v: ExpandedNodeIdView)
    ensures
        ({
            let first = expanded_first(v) as u8;
            &&& first as int == expanded_first(v)
            &&& first as int % 64 == wire_kind(v.node_id)
            &&& first >= 128 <==> v.namespace_uri is Some
            &&& (first as int / 64) % 2 == 1 <==> v.server_index != 0
        }),
{
}

proof fn lemma_expanded_parts(first: u8, a: Seq<u8>, b: Seq<u8>, c: Seq<u8>, rest: Seq<u8>)
    ensures
        ({
            let s = seq![first] + a + b + c + rest;
            &&& s.len() >= 1
            &&& s[0] == first
            &&& s == seq![first] + a + (b + c + rest)
            &&& s.skip(1 + a.len() as int) == b + (c + rest)
            &&& s.skip(1 + a.len() as int + b.len() as int) == c + rest
            &&& s.len() == 1 + a.len() + b.len() + c.len() + rest.len()
        }),
{
    let s = seq![first] + a + b + c + rest;
    assert(s =~= seq![first] + a + (b + c + rest));
    assert(s.skip(1 + a.len() as int) =~= b + (c + rest));
    assert(s.skip(1 + a.len() as int + b.len() as int) =~= c + rest);
}

impl BinaryEncoder for ExpandedNodeId {
    open spec fn wire(v: ExpandedNodeIdView) -> Seq<u8> {
        seq![expanded_first(v) as u8] + wire_body(v.node_id) + wire_uri(v) + wire_server_index(v)
    }

    open spec fn parse(s: Seq<u8>) -> Result<(ExpandedNodeIdView, int), StatusCode> {
        if s.len() < 1 {
            Err(BAD_DECODING_ERROR)
        } else {
            match parse_kind(s[0] as int % 64, s) {
                Ok((node_id, n)) => match parse_uri(s[0] >= 128, s.skip(n)) {
                    Ok((namespace_uri, m)) => match parse_server_index(
                        (s[0] as int / 64) % 2 == 1,
                        s.skip(n + m),
                    ) {
                        Ok((server_index, k)) => Ok(
                            (ExpandedNodeIdView { node_id, namespace_uri, server_index }, n + m + k),
                        ),
                        Err(e) => Err(e),
                    },
                    Err(e) => Err(e),
                },
                Err(e) => Err(e),
            }
        }
    }

    open spec fn encodable(v: ExpandedNodeIdView) -> bool {
        id_encodable(v.node_id) && UAString::encodable(v.namespace_uri)
    }

    open spec fn canonical(v: ExpandedNodeIdView) -> bool {
        id_canonical(v.node_id) && UAString::canonical(v.namespace_uri)
    }

    proof fn lemma_round_trip(v: ExpandedNodeIdView, rest: Seq<u8>) {
        let first = expanded_first(v) as u8;
        let s = Self::wire(v) + rest;
        let n = 1 + wire_body(v.node_id).len() as int;
        let m = wire_uri(v).len() as int;
        lemma_expanded_first(v);
        lemma_expanded_parts(first, wire_body(v.node_id), wire_uri(v), wire_server_index(v), rest);
        lemma_parse_kind(v.node_id, first, wire_uri(v) + wire_server_index(v) + rest);
        assert(parse_uri(first >= 128, s.skip(n)) == Ok::<(Option<Seq<char>>, int), StatusCode>(
            (v.namespace_uri, m),
        )) by {
            if v.namespace_uri is Some {
                lemma_field::<UAString>(v.namespace_uri, wire_server_index(v) + rest);
            }
        }
        assert(parse_server_index((first as int / 64) % 2 == 1, s.skip(n + m)) == Ok::<
            (u32, int),
            StatusCode,
        >((v.server_index, wire_server_index(v).len() as int))) by {
            if v.server_index != 0 {
                lemma_field::<u32>(v.server_index, rest);
            }
        }
    }

    proof fn lemma_parse_consumes(s: Seq<u8>) {
        if s.len() >= 1 {
            lemma_parse_kind_consumes(s[0] as int % 64, s);
            if let Ok((node_id, n)) = parse_kind(s[0] as int % 64, s) {
                UAString::lemma_parse_consumes(s.skip(n));
            }
        }
    }

    fn is_encodable(&self) -> (r: bool) {
        self.node_id.is_encodable() && self.namespace_uri.is_encodable()
    }

    fn byte_len(&self) -> (n: usize) {
        let mut size = 1 + self.node_id.body_len();
        if !self.namespace_uri.is_null() {
            size = size + self.namespace_uri.byte_len();
        }
        if self.server_index != 0 {
            size = size + 4;
        }
        size
    }

    fn encode(&self, stream: &mut Vec<u8>) -> (r: EncodingResult<usize>) {
        if !self.is_encodable() {
            return Err(BAD_ENCODING_LIMITS_EXCEEDED);
        }
        let start = stream.len();
        let mut first = self.node_id.kind();
        if !self.namespace_uri.is_null() {
            first = first + 128;
        }
        if self.server_index != 0 {
            first = first + 64;
        }
        let _ = self.node_id.encode_behind(first, stream);
        if !self.namespace_uri.is_null() {
            let _ = self.namespace_uri.encode(stream);
        }
        if self.server_index != 0 {
            let _ = write_u32(stream, self.server_index);
        }
        assert(stream@ =~= old(stream)@ + Self::wire(self@));
        Ok(stream.len() - start)
    }

    fn decode(stream: &[u8]) -> (r: EncodingResult<(Self, usize)>) {
        if stream.len() < 1 {
            return Err(BAD_DECODING_ERROR);
        }
        let first = stream[0];
        let (node_id, n) = NodeId::decode_kind(first % 64, stream)?;
        let (namespace_uri, m) = if first >= 128 {
            UAString::decode(skip_bytes(stream, n))?
        } else {
            (UAString::null(), 0)
        };
        let (server_index, k) = if (first / 64) % 2 == 1 {
            read_u32(skip_bytes(stream, n + m))?
        } else {
            (0, 0)
        };
        Ok((ExpandedNodeId { node_id, namespace_uri, server_index }, n + m + k))
    }
}

impl ExpandedNodeId {
    /// The expanded form of a node id of this server.
    pub fn new(node_id: &NodeId) -> (r: ExpandedNodeId)
        ensures
            r@ == expanded(node_id@),
    {
        ExpandedNodeId {
            node_id: node_id.clone(),
            namespace_uri: UAString::null(),
            server_index: 0,
        }
    }

    /// The expanded form of the null node id.
    pub fn null() -> (r: ExpandedNodeId)
        ensures
            r@ == expanded(null_id()),
    {
        ExpandedNodeId { node_id: NodeId::null(), namespace_uri: UAString::null(), server_index: 0 }
    }

    /// True for the expanded form of the null node id.
    pub fn is_null(&self) -> (r: bool)
        ensures
            r == (self@.node_id == null_id()),
    {
        self.node_id.is_null()
    }
}

} // verus!
