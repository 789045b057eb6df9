//! Structures of the service layer that have a wire form of their own.

use vstd::prelude::*;
use vstd::std_specs::cmp::PartialEqSpecImpl;
use crate::byte_string::ByteString;
use crate::encoding::{
    array_view, byte_len_array, canonical_array, encodable_array, is_encodable_array, lemma_field,
    lemma_four_parts, lemma_parse_array_consumes, lemma_round_trip_array, lemma_three_parts,
    lemma_two_parts, parse_array, read_array, skip_bytes, wire_array, write_array, BinaryEncoder,
    EncodingResult,
};
use crate::node_id::{ExpandedNodeId, ExpandedNodeIdView, NodeId, NodeIdView};
use crate::node_ids::{MessageInfo, ObjectId};
use crate::qualified_name::{QualifiedName, QualifiedNameView};
use crate::status_codes::{StatusCode, BAD_ENCODING_LIMITS_EXCEEDED};
use crate::string::UAString;

verus! {

/// One step of a relative path: follow references of a type to the
/// targets with a given browse name.
#[derive(Debug, Eq)]
pub struct RelativePathElement {
    /// The type of reference to follow; null for any.
    pub reference_type_id: NodeId,
    /// True to follow the references against their direction.
    pub is_inverse: bool,
    /// True to follow the subtypes of the reference type too.
    pub include_subtypes: bool,
    /// The browse name that the target has.
    pub target_name: QualifiedName,
}

/// What a `RelativePathElement` stands for.
pub struct RelativePathElementView {
    pub reference_type_id: NodeIdView,
    pub is_inverse: bool,
    pub include_subtypes: bool,
    pub target_name: QualifiedNameView,
}

impl View for RelativePathElement {
    type V = RelativePathElementView;

    open spec fn view(&self) -> RelativePathElementView {
        RelativePathElementView {
            reference_type_id: self.reference_type_id@,
            is_inverse: self.is_inverse,
            include_subtypes: self.include_subtypes,
            target_name: self.target_name@,
        }
    }
}

impl Clone for RelativePathElement {
    fn clone(&self) -> (r: Self)
        ensures
            r@ == self@,
    {
        RelativePathElement {
            reference_type_id: self.reference_type_id.clone(),
            is_inverse: self.is_inverse,
            include_subtypes: self.include_subtypes,
            target_name: self.target_name.clone(),
        }
    }
}

impl PartialEq for RelativePathElement {
    fn eq(&self, other: &Self) -> (r: bool) {
        self.reference_type_id == other.reference_type_id && self.is_inverse == other.is_inverse
            && self.include_subtypes == other.include_subtypes && self.target_name
            == other.target_name
    }
}

impl PartialEqSpecImpl for RelativePathElement {
    open spec fn obeys_eq_spec() -> bool {
        true
    }

    open spec fn eq_spec(&self, other: &Self) -> bool {
        self@ == other@
    }
}

impl BinaryEncoder for RelativePathElement {
    open spec fn wire(v: RelativePathElementView) -> Seq<u8> {
        NodeId::wire(v.reference_type_id) + bool::wire(v.is_inverse) + bool::wire(
            v.include_subtypes,
        ) + QualifiedName::wire(v.target_name)
    }

    open spec fn parse(s: Seq<u8>) -> Result<(RelativePathElementView, int), StatusCode> {
        match NodeId::parse(s) {
            Ok((reference_type_id, n1)) => match bool::parse(s.skip(n1)) {
                Ok((is_inverse, n2)) => match bool::parse(s.skip(n1 + n2)) {
                    Ok((include_subtypes, n3)) => match QualifiedName::parse(
                        s.skip(n1 + n2 + n3),
                    ) {
                        Ok((target_name, n4)) => Ok(
                            (
                                RelativePathElementView {
                                    reference_type_id,
                                    is_inverse,
                                    include_subtypes,
                                    target_name,
                                },
                                n1 + n2 + n3 + n4,
                            ),
                        ),
                        Err(e) => Err(e),
                    },
                    Err(e) => Err(e),
                },
                Err(e) => Err(e),
            },
            Err(e) => Err(e),
        }
    }

    open spec fn encodable(v: RelativePathElementView) -> bool {
        NodeId::encodable(v.reference_type_id) && QualifiedName::encodable(v.target_name)
    }

    open spec fn canonical(v: RelativePathElementView) -> bool {
        NodeId::canonical(v.reference_type_id) && QualifiedName::canonical(v.target_name)
    }

    proof fn lemma_round_trip(v: RelativePathElementView, rest: Seq<u8>) {
        let a = NodeId::wire(v.reference_type_id);
        let b = bool::wire(v.is_inverse);
        let c = bool::wire(v.include_subtypes);
        let d = QualifiedName::wire(v.target_name);
        lemma_four_parts(a, b, c, d, rest);
        lemma_field::<NodeId>(v.reference_type_id, b + (c + (d + rest)));
        lemma_field::<bool>(v.is_inverse, c + (d + rest));
        lemma_field::<bool>(v.include_subtypes, d + rest);
        lemma_field::<QualifiedName>(v.target_name, rest);
    }

    proof fn lemma_parse_consumes(s: Seq<u8>) {
        NodeId::lemma_parse_consumes(s);
        if let Ok((_, n1)) = NodeId::parse(s) {
            if let Ok((_, n2)) = bool::parse(s.skip(n1)) {
                if let Ok((_, n3)) = bool::parse(s.skip(n1 + n2)) {
                    QualifiedName::lemma_parse_consumes(s.skip(n1 + n2 + n3));
                }
            }
        }
    }

    fn is_encodable(&self) -> (r: bool) {
        self.reference_type_id.is_encodable() && self.target_name.is_encodable()
    }

    fn byte_len(&self) -> (n: usize) {
        let mut size: usize = 0;
        size = size + self.reference_type_id.byte_len();
        size = size + self.is_inverse.byte_len();
        size = size + self.include_subtypes.byte_len();
        size = size + self.target_name.byte_len();
        size
    }

    fn encode(&self, stream: &mut Vec<u8>) -> (r: EncodingResult<usize>) {
        if !self.is_encodable() {
            return Err(BAD_ENCODING_LIMITS_EXCEEDED);
        }
        let start = stream.len();
        let _ = self.reference_type_id.encode(stream);
        let _ = self.is_inverse.encode(stream);
        let _ = self.include_subtypes.encode(stream);
        let _ = self.target_name.encode(stream);
        assert(stream@ =~= old(stream)@ + Self::wire(self@));
        Ok(stream.len() - start)
    }

    fn decode(stream: &[u8]) -> (r: EncodingResult<(Self, usize)>) {
        let (reference_type_id, n1) = NodeId::decode(stream)?;
        let (is_inverse, n2) = bool::decode(skip_bytes(stream, n1))?;
        let (include_subtypes, n3) = bool::decode(skip_bytes(stream, n1 + n2))?;
        let (target_name, n4) = QualifiedName::decode(skip_bytes(stream, n1 + n2 + n3))?;
        Ok(
            (
                RelativePathElement { reference_type_id, is_inverse, include_subtypes, target_name },
                n1 + n2 + n3 + n4,
            ),
        )
    }
}

/// A path through the address space, step by step.
#[derive(Debug, PartialEq, Eq, Clone)]
pub struct RelativePath {
    pub elements: Option<Vec<RelativePathElement>>,
}

/// What a `RelativePath` stands for.
pub struct RelativePathView {
    pub elements: Option<Seq<RelativePathElementView>>,
}

impl View for RelativePath {
    type V = RelativePathView;

    open spec fn view(&self) -> RelativePathView {
        RelativePathView { elements: array_view(self.elements) }
    }
}

impl BinaryEncoder for RelativePath {
    open spec fn wire(v: RelativePathView) -> Seq<u8> {
        wire_array::<RelativePathElement>(v.elements)
    }

    open spec fn parse(s: Seq<u8>) -> Result<(RelativePathView, int), StatusCode> {
        match parse_array::<RelativePathElement>(s) {
            Ok((elements, n)) => Ok((RelativePathView { elements }, n)),
            Err(e) => Err(e),
        }
    }

    open spec fn encodable(v: RelativePathView) -> bool {
        encodable_array::<RelativePathElement>(v.elements)
    }

    open spec fn canonical(v: RelativePathView) -> bool {
        canonical_array::<RelativePathElement>(v.elements)
    }

    proof fn lemma_round_trip(v: RelativePathView, rest: Seq<u8>) {
        lemma_round_trip_array::<RelativePathElement>(v.elements, rest);
    }

    proof fn lemma_parse_consumes(s: Seq<u8>) {
        lemma_parse_array_consumes::<RelativePathElement>(s);
    }

    fn is_encodable(&self) -> (r: bool) {
        is_encodable_array(&self.elements)
    }

    fn byte_len(&self) -> (n: usize) {
        byte_len_array(&self.elements)
    }

    fn encode(&self, stream: &mut Vec<u8>) -> (r: EncodingResult<usize>) {
        write_array(stream, &self.elements)
    }

    fn decode(stream: &[u8]) -> (r: EncodingResult<(Self, usize)>) {
        let (elements, n) = read_array::<RelativePathElement>(stream)?;
        Ok((RelativePath { elements }, n))
    }
}

/// A request to translate a path into a node id.
#[derive(Debug, PartialEq, Eq, Clone)]
pub struct BrowsePath {
    pub starting_node: NodeId,
    pub relative_path: RelativePath,
}

/// What a `BrowsePath` stands for.
pub struct BrowsePathView {
    pub starting_node: NodeIdView,
    pub relative_path: RelativePathView,
}

impl View for BrowsePath {
    type V = BrowsePathView;

    open spec fn view(&self) -> BrowsePathView {
        BrowsePathView { starting_node: self.starting_node@, relative_path: self.relative_path@ }
    }
}

impl MessageInfo for BrowsePath {
    open spec fn encoding_object() -> ObjectId {
        ObjectId::BrowsePath_Encoding_DefaultBinary
    }

    fn object_id(&self) -> (r: ObjectId) {
        ObjectId::BrowsePath_Encoding_DefaultBinary
    }
}

impl BinaryEncoder for BrowsePath {
    open spec fn wire(v: BrowsePathView) -> Seq<u8> {
        NodeId::wire(v.starting_node) + RelativePath::wire(v.relative_path)
    }

    open spec fn parse(s: Seq<u8>) -> Result<(BrowsePathView, int), StatusCode> {
        match NodeId::parse(s) {
            Ok((starting_node, n)) => match RelativePath::parse(s.skip(n)) {
                Ok((relative_path, m)) => Ok((BrowsePathView { starting_node, relative_path }, n + m)),
                Err(e) => Err(e),
            },
            Err(e) => Err(e),
        }
    }

    open spec fn encodable(v: BrowsePathView) -> bool {
        NodeId::encodable(v.starting_node) && RelativePath::encodable(v.relative_path)
    }

    open spec fn canonical(v: BrowsePathView) -> bool {
        NodeId::canonical(v.starting_node) && RelativePath::canonical(v.relative_path)
    }

    proof fn lemma_round_trip(v: BrowsePathView, rest: Seq<u8>) {
        let a = NodeId::wire(v.starting_node);
        let b = RelativePath::wire(v.relative_path);
        lemma_two_parts(a, b, rest);
        lemma_field::<NodeId>(v.starting_node, b + rest);
        lemma_field::<RelativePath>(v.relative_path, rest);
    }

    proof fn lemma_parse_consumes(s: Seq<u8>) {
        NodeId::lemma_parse_consumes(s);
        if let Ok((_, n)) = NodeId::parse(s) {
            RelativePath::lemma_parse_consumes(s.skip(n));
        }
    }

    fn is_encodable(&self) -> (r: bool) {
        self.starting_node.is_encodable() && self.relative_path.is_encodable()
    }

    fn byte_len(&self) -> (n: usize) {
        let mut size: usize = 0;
        size = size + self.starting_node.byte_len();
        size = size + self.relative_path.byte_len();
        size
    }

    fn encode(&self, stream: &mut Vec<u8>) -> (r: EncodingResult<usize>) {
        if !self.is_encodable() {
            return Err(BAD_ENCODING_LIMITS_EXCEEDED);
        }
        let start = stream.len();
        let _ = self.starting_node.encode(stream);
        let _ = self.relative_path.encode(stream);
        assert(stream@ =~= old(stream)@ + Self::wire(self@));
        Ok(stream.len() - start)
    }

    fn decode(stream: &[u8]) -> (r: EncodingResult<(Self, usize)>) {
        let (starting_node, n) = NodeId::decode(stream)?;
        let (relative_path, m) = RelativePath::decode(skip_bytes(stream, n))?;
        Ok((BrowsePath { starting_node, relative_path }, n + m))
    }
}

/// Names a node whose history is read, and where to go on reading.
#[derive(Debug, PartialEq, Eq, Clone)]
pub struct HistoryReadValueId {
    pub node_id: NodeId,
    pub index_range: UAString,
    pub data_encoding: QualifiedName,
    pub continuation_point: ByteString,
}

/// What a `HistoryReadValueId` stands for.
pub struct HistoryReadValueIdView {
    pub node_id: NodeIdView,
    pub index_range: Option<Seq<char>>,
    pub data_encoding: QualifiedNameView,
    pub continuation_point: Option<Seq<u8>>,
}

impl View for HistoryReadValueId {
    type V = HistoryReadValueIdView;

    open spec fn view(&self) -> HistoryReadValueIdView {
        HistoryReadValueIdView {
            node_id: self.node_id@,
            index_range: self.index_range@,
            data_encoding: self.data_encoding@,
            continuation_point: self.continuation_point@,
        }
    }
}

impl MessageInfo for HistoryReadValueId {
    open spec fn encoding_object() -> ObjectId {
        ObjectId::HistoryReadValueId_Encoding_DefaultBinary
    }

    fn object_id(&self) -> (r: ObjectId) {
        ObjectId::HistoryReadValueId_Encoding_DefaultBinary
    }
}

impl BinaryEncoder for HistoryReadValueId {
    open spec fn wire(v: HistoryReadValueIdView) -> Seq<u8> {
        NodeId::wire(v.node_id) + UAString::wire(v.index_range) + QualifiedName::wire(
            v.data_encoding,
        ) + ByteString::wire(v.continuation_point)
    }

    open spec fn parse(s: Seq<u8>) -> Result<(HistoryReadValueIdView, int), StatusCode> {
        match NodeId::parse(s) {
            Ok((node_id, n1)) => match UAString::parse(s.skip(n1)) {
                Ok((index_range, n2)) => match QualifiedName::parse(s.skip(n1 + n2)) {
                    Ok((data_encoding, n3)) => match ByteString::parse(s.skip(n1 + n2 + n3)) {
                        Ok((continuation_point, n4)) => Ok(
                            (
                                HistoryReadValueIdView {
                                    node_id,
                                    index_range,
                                    data_encoding,
                                    continuation_point,
                                },
                                n1 + n2 + n3 + n4,
                            ),
                        ),
                        Err(e) => Err(e),
                    },
                    Err(e) => Err(e),
                },
                Err(e) => Err(e),
            },
            Err(e) => Err(e),
        }
    }

    open spec fn encodable(v: HistoryReadValueIdView) -> bool {
        &&& NodeId::encodable(v.node_id)
        &&& UAString::encodable(v.index_range)
        &&& QualifiedName::encodable(v.data_encoding)
        &&& ByteString::encodable(v.continuation_point)
    }

    open spec fn canonical(v: HistoryReadValueIdView) -> bool {
        &&& NodeId::canonical(v.node_id)
        &&& UAString::canonical(v.index_range)
        &&& QualifiedName::canonical(v.data_encoding)
        &&& ByteString::canonical(v.continuation_point)
    }

    proof fn lemma_round_trip(v: HistoryReadValueIdView, rest: Seq<u8>) {
        let a = NodeId::wire(v.node_id);
        let b = UAString::wire(v.index_range);
        let c = QualifiedName::wire(v.data_encoding);
        let d = ByteString::wire(v.continuation_point);
        lemma_four_parts(a, b, c, d, rest);
        lemma_field::<NodeId>(v.node_id, b + (c + (d + rest)));
        lemma_field::<UAString>(v.index_range, c + (d + rest));
        lemma_field::<QualifiedName>(v.data_encoding, d + rest);
        lemma_field::<ByteString>(v.continuation_point, rest);
    }

    proof fn lemma_parse_consumes(s: Seq<u8>) {
        NodeId::lemma_parse_consumes(s);
        if let Ok((_, n1)) = NodeId::parse(s) {
            UAString::lemma_parse_consumes(s.skip(n1));
            if let Ok((_, n2)) = UAString::parse(s.skip(n1)) {
                QualifiedName::lemma_parse_consumes(s.skip(n1 + n2));
                if let Ok((_, n3)) = QualifiedName::parse(s.skip(n1 + n2)) {
                    ByteString::lemma_parse_consumes(s.skip(n1 + n2 + n3));
                }
            }
        }
    }

    fn is_encodable(&self) -> (r: bool) {
        self.node_id.is_encodable() && self.index_range.is_encodable()
            && self.data_encoding.is_encodable() && self.continuation_point.is_encodable()
    }

    fn byte_len(&self) -> (n: usize) {
        let mut size: usize = 0;
        size = size + self.node_id.byte_len();
        size = size + self.index_range.byte_len();
        size = size + self.data_encoding.byte_len();
        size = size + self.continuation_point.byte_len();
        size
    }

    fn encode(&self, stream: &mut Vec<u8>) -> (r: EncodingResult<usize>) {
        if !self.is_encodable() {
            return Err(BAD_ENCODING_LIMITS_EXCEEDED);
        }
        let start = stream.len();
        let _ = self.node_id.encode(stream);
        let _ = self.index_range.encode(stream);
        let _ = self.data_encoding.encode(stream);
        let _ = self.continuation_point.encode(stream);
        assert(stream@ =~= old(stream)@ + Self::wire(self@));
        Ok(stream.len() - start)
    }

    #[verifier::rlimit(50)]
    fn decode(stream: &[u8]) -> (r: EncodingResult<(Self, usize)>) {
        let (node_id, n1) = NodeId::decode(stream)?;
        let (index_range, n2) = UAString::decode(skip_bytes(stream, n1))?;
        let (data_encoding, n3) = QualifiedName::decode(skip_bytes(stream, n1 + n2))?;
        let (continuation_point, n4) = ByteString::decode(skip_bytes(stream, n1 + n2 + n3))?;
        Ok(
            (
                HistoryReadValueId { node_id, index_range, data_encoding, continuation_point },
                n1 + n2 + n3 + n4,
            ),
        )
    }
}

/// Specifies a reference which belongs to a node.
#[derive(Debug, PartialEq, Eq, Clone)]
pub struct ReferenceNode {
    pub reference_type_id: NodeId,
    pub is_inverse: bool,
    pub target_id: ExpandedNodeId,
}

/// What a `ReferenceNode` stands for.
pub struct ReferenceNodeView {
    pub reference_type_id: NodeIdView,
    pub is_inverse: bool,
    pub target_id: ExpandedNodeIdView,
}

impl View for ReferenceNode {
    type V = ReferenceNodeView;

    open spec fn view(&self) -> ReferenceNodeView {
        ReferenceNodeView {
            reference_type_id: self.reference_type_id@,
            is_inverse: self.is_inverse,
            target_id: self.target_id@,
        }
    }
}

impl MessageInfo for ReferenceNode {
    open spec fn encoding_object() -> ObjectId {
        ObjectId::ReferenceNode_Encoding_DefaultBinary
    }

    fn object_id(&self) -> (r: ObjectId) {
        ObjectId::ReferenceNode_Encoding_DefaultBinary
    }
}

impl BinaryEncoder for ReferenceNode {
    open spec fn wire(v: ReferenceNodeView) -> Seq<u8> {
        NodeId::wire(v.reference_type_id) + bool::wire(v.is_inverse) + ExpandedNodeId::wire(
            v.target_id,
        )
    }

    open spec fn parse(s: Seq<u8>) -> Result<(ReferenceNodeView, int), StatusCode> {
        match NodeId::parse(s) {
            Ok((reference_type_id, n1)) => match bool::parse(s.skip(n1)) {
                Ok((is_inverse, n2)) => match ExpandedNodeId::parse(s.skip(n1 + n2)) {
                    Ok((target_id, n3)) => Ok(
                        (
                            ReferenceNodeView { reference_type_id, is_inverse, target_id },
                            n1 + n2 + n3,
                        ),
                    ),
                    Err(e) => Err(e),
                },
                Err(e) => Err(e),
            },
            Err(e) => Err(e),
        }
    }

    open spec fn encodable(v: ReferenceNodeView) -> bool {
        NodeId::encodable(v.reference_type_id) && ExpandedNodeId::encodable(v.target_id)
    }

    open spec fn canonical(v: ReferenceNodeView) -> bool {
        NodeId::canonical(v.reference_type_id) && ExpandedNodeId::canonical(v.target_id)
    }

    proof fn lemma_round_trip(v: ReferenceNodeView, rest: Seq<u8>) {
        let a = NodeId::wire(v.reference_type_id);
        let b = bool::wire(v.is_inverse);
        let c = ExpandedNodeId::wire(v.target_id);
        lemma_three_parts(a, b, c, rest);
        lemma_field::<NodeId>(v.reference_type_id, b + (c + rest));
        lemma_field::<bool>(v.is_inverse, c + rest);
        lemma_field::<ExpandedNodeId>(v.target_id, rest);
    }

    proof fn lemma_parse_consumes(s: Seq<u8>) {
        NodeId::lemma_parse_consumes(s);
        if let Ok((_, n1)) = NodeId::parse(s) {
            if let Ok((_, n2)) = bool::parse(s.skip(n1)) {
                ExpandedNodeId::lemma_parse_consumes(s.skip(n1 + n2));
            }
        }
    }

    fn is_encodable(&self) -> (r: bool) {
        self.reference_type_id.is_encodable() && self.target_id.is_encodable()
    }

    fn byte_len(&self) -> (n: usize) {
        let mut size: usize = 0;
        size = size + self.reference_type_id.byte_len();
        size = size + self.is_inverse.byte_len();
        size = size + self.target_id.byte_len();
        size
    }

    fn encode(&self, stream: &mut Vec<u8>) -> (r: EncodingResult<usize>) {
        if !self.is_encodable() {
            return Err(BAD_ENCODING_LIMITS_EXCEEDED);
        }
        let start = stream.len();
        let _ = self.reference_type_id.encode(stream);
        let _ = self.is_inverse.encode(stream);
        let _ = self.target_id.encode(stream);
        assert(stream@ =~= old(stream)@ + Self::wire(self@));
        Ok(stream.len() - start)
    }

    fn decode(stream: &[u8]) -> (r: EncodingResult<(Self, usize)>) {
        let (reference_type_id, n1) = NodeId::decode(stream)?;
        let (is_inverse, n2) = bool::decode(skip_bytes(stream, n1))?;
        let (target_id, n3) = ExpandedNodeId::decode(skip_bytes(stream, n1 + n2))?;
        Ok((ReferenceNode { reference_type_id, is_inverse, target_id }, n1 + n2 + n3))
    }
}

} // verus!
