//! Variants: values that carry their own type.

use vstd::prelude::*;
use crate::byte_string::ByteString;
use crate::date_time::DateTime;
use crate::encoding::{
    array_view, byte_len_array, canonical_array, encodable_array, is_encodable_array, lemma_field,
    lemma_parse_array_consumes, lemma_round_trip_array, parse_array, read_array, skip_bytes,
    wire_array, write_array, write_u8, BinaryEncoder, EncodingResult,
};
use crate::extension_object::{ExtensionObject, ExtensionObjectView};
use crate::guid::{Guid, GuidView};
use crate::localized_text::{LocalizedText, LocalizedTextView};
use crate::node_id::{ExpandedNodeId, ExpandedNodeIdView, NodeId, NodeIdView};
use crate::qualified_name::{QualifiedName, QualifiedNameView};
use crate::status_codes::{StatusCode, BAD_DECODING_ERROR, BAD_ENCODING_LIMITS_EXCEEDED};
use crate::string::{UAString, XmlElement};

verus! {

/// Set in the byte that names the type when the value is an array.
pub const ARRAY_VALUES: u8 = 0x80;

/// Set in the byte that names the type when the dimensions of an array
/// follow its values.
pub const ARRAY_DIMENSIONS: u8 = 0x40;

/// The values of an array, all of one of the built-in types. An array
/// can be null.
#[derive(Debug, Clone, PartialEq)]
pub enum ArrayValues {
    Boolean(Option<Vec<bool>>),
    SByte(Option<Vec<i8>>),
    Byte(Option<Vec<u8>>),
    Int16(Option<Vec<i16>>),
    UInt16(Option<Vec<u16>>),
    Int32(Option<Vec<i32>>),
    UInt32(Option<Vec<u32>>),
    Int64(Option<Vec<i64>>),
    UInt64(Option<Vec<u64>>),
    Float(Option<Vec<u32>>),
    Double(Option<Vec<u64>>),
    String(Option<Vec<UAString>>),
    DateTime(Option<Vec<DateTime>>),
    Guid(Option<Vec<Guid>>),
    ByteString(Option<Vec<ByteString>>),
    XmlElement(Option<Vec<XmlElement>>),
    NodeId(Option<Vec<NodeId>>),
    ExpandedNodeId(Option<Vec<ExpandedNodeId>>),
    StatusCode(Option<Vec<StatusCode>>),
    QualifiedName(Option<Vec<QualifiedName>>),
    LocalizedText(Option<Vec<LocalizedText>>),
    ExtensionObject(Option<Vec<ExtensionObject>>),
}

/// What `ArrayValues` stand for.
pub enum ArrayValuesView {
    Boolean(Option<Seq<bool>>),
    SByte(Option<Seq<i8>>),
    Byte(Option<Seq<u8>>),
    Int16(Option<Seq<i16>>),
    UInt16(Option<Seq<u16>>),
    Int32(Option<Seq<i32>>),
    UInt32(Option<Seq<u32>>),
    Int64(Option<Seq<i64>>),
    UInt64(Option<Seq<u64>>),
    Float(Option<Seq<u32>>),
    Double(Option<Seq<u64>>),
    String(Option<Seq<Option<Seq<char>>>>),
    DateTime(Option<Seq<i64>>),
    Guid(Option<Seq<GuidView>>),
    ByteString(Option<Seq<Option<Seq<u8>>>>),
    XmlElement(Option<Seq<Option<Seq<char>>>>),
    NodeId(Option<Seq<NodeIdView>>),
    ExpandedNodeId(Option<Seq<ExpandedNodeIdView>>),
    StatusCode(Option<Seq<StatusCode>>),
    QualifiedName(Option<Seq<QualifiedNameView>>),
    LocalizedText(Option<Seq<LocalizedTextView>>),
    ExtensionObject(Option<Seq<ExtensionObjectView>>),
}

impl View for ArrayValues {
    type V = ArrayValuesView;

    open spec fn view(&self) -> ArrayValuesView {
        match self {
            ArrayValues::Boolean(x) => ArrayValuesView::Boolean(array_view(*x)),
            ArrayValues::SByte(x) => ArrayValuesView::SByte(array_view(*x)),
            ArrayValues::Byte(x) => ArrayValuesView::Byte(array_view(*x)),
            ArrayValues::Int16(x) => ArrayValuesView::Int16(array_view(*x)),
            ArrayValues::UInt16(x) => ArrayValuesView::UInt16(array_view(*x)),
            ArrayValues::Int32(x) => ArrayValuesView::Int32(array_view(*x)),
            ArrayValues::UInt32(x) => ArrayValuesView::UInt32(array_view(*x)),
            ArrayValues::Int64(x) => ArrayValuesView::Int64(array_view(*x)),
            ArrayValues::UInt64(x) => ArrayValuesView::UInt64(array_view(*x)),
            ArrayValues::Float(x) => ArrayValuesView::Float(array_view(*x)),
            ArrayValues::Double(x) => ArrayValuesView::Double(array_view(*x)),
            ArrayValues::String(x) => ArrayValuesView::String(array_view(*x)),
            ArrayValues::DateTime(x) => ArrayValuesView::DateTime(array_view(*x)),
            ArrayValues::Guid(x) => ArrayValuesView::Guid(array_view(*x)),
            ArrayValues::ByteString(x) => ArrayValuesView::ByteString(array_view(*x)),
            ArrayValues::XmlElement(x) => ArrayValuesView::XmlElement(array_view(*x)),
            ArrayValues::NodeId(x) => ArrayValuesView::NodeId(array_view(*x)),
            ArrayValues::ExpandedNodeId(x) => ArrayValuesView::ExpandedNodeId(array_view(*x)),
            ArrayValues::StatusCode(x) => ArrayValuesView::StatusCode(array_view(*x)),
            ArrayValues::QualifiedName(x) => ArrayValuesView::QualifiedName(array_view(*x)),
            ArrayValues::LocalizedText(x) => ArrayValuesView::LocalizedText(array_view(*x)),
            ArrayValues::ExtensionObject(x) => ArrayValuesView::ExtensionObject(array_view(*x)),
        }
    }
}

/// An array of values, with its dimensions where it has more than one.
#[derive(Debug, Clone, PartialEq)]
pub struct VariantArray {
    pub values: ArrayValues,
    /// The length of each dimension. The values stand in the order in
    /// which the last dimension changes first.
    pub dimensions: Option<Vec<i32>>,
}

/// What a `VariantArray` stands for.
pub struct VariantArrayView {
    pub values: ArrayValuesView,
    pub dimensions: Option<Seq<i32>>,
}

impl View for VariantArray {
    type V = VariantArrayView;

    open spec fn view(&self) -> VariantArrayView {
        VariantArrayView { values: self.values@, dimensions: array_view(self.dimensions) }
    }
}

/// A value of one of the built-in types, an array of such values, or
/// nothing. The wire form starts with one byte that names the type.
#[derive(Debug, Clone, PartialEq)]
pub enum Variant {
    /// No value.
    Empty,
    /// A two-state logical value.
    Boolean(bool),
    /// An integer of 8 bits.
    SByte(i8),
    /// An unsigned integer of 8 bits.
    Byte(u8),
    /// An integer of 16 bits.
    Int16(i16),
    /// An unsigned integer of 16 bits.
    UInt16(u16),
    /// An integer of 32 bits.
    Int32(i32),
    /// An unsigned integer of 32 bits.
    UInt32(u32),
    /// An integer of 64 bits.
    Int64(i64),
    /// An unsigned integer of 64 bits.
    UInt64(u64),
    /// A single precision number, as the 32 bits of its IEEE-754 form.
    Float(u32),
    /// A double precision number, as the 64 bits of its IEEE-754 form.
    Double(u64),
    /// A string.
    String(UAString),
    /// A point in time.
    DateTime(DateTime),
    /// A globally unique identifier.
    Guid(Guid),
    /// A sequence of octets.
    ByteString(ByteString),
    /// An XML element.
    XmlElement(XmlElement),
    /// A node id.
    NodeId(NodeId),
    /// An expanded node id.
    ExpandedNodeId(ExpandedNodeId),
    /// A status code.
    StatusCode(StatusCode),
    /// A qualified name.
    QualifiedName(QualifiedName),
    /// A localized text.
    LocalizedText(LocalizedText),
    /// An extension object.
    ExtensionObject(ExtensionObject),
    /// An array of values of one type.
    Array(VariantArray),
}

/// What a `Variant` stands for.
pub enum VariantView {
    Empty,
    Boolean(bool),
    SByte(i8),
    Byte(u8),
    Int16(i16),
    UInt16(u16),
    Int32(i32),
    UInt32(u32),
    Int64(i64),
    UInt64(u64),
    Float(u32),
    Double(u64),
    String(Option<Seq<char>>),
    DateTime(i64),
    Guid(GuidView),
    ByteString(Option<Seq<u8>>),
    XmlElement(Option<Seq<char>>),
    NodeId(NodeIdView),
    ExpandedNodeId(ExpandedNodeIdView),
    StatusCode(StatusCode),
    QualifiedName(QualifiedNameView),
    LocalizedText(LocalizedTextView),
    ExtensionObject(ExtensionObjectView),
    Array(VariantArrayView),
}

impl View for Variant {
    type V = VariantView;

    open spec fn view(&self) -> VariantView {
        match self {
            Variant::Empty => VariantView::Empty,
            Variant::Boolean(x) => VariantView::Boolean(x@),
            Variant::SByte(x) => VariantView::SByte(x@),
            Variant::Byte(x) => VariantView::Byte(x@),
            Variant::Int16(x) => VariantView::Int16(x@),
            Variant::UInt16(x) => VariantView::UInt16(x@),
            Variant::Int32(x) => VariantView::Int32(x@),
            Variant::UInt32(x) => VariantView::UInt32(x@),
            Variant::Int64(x) => VariantView::Int64(x@),
            Variant::UInt64(x) => VariantView::UInt64(x@),
            Variant::Float(x) => VariantView::Float(x@),
            Variant::Double(x) => VariantView::Double(x@),
            Variant::String(x) => VariantView::String(x@),
            Variant::DateTime(x) => VariantView::DateTime(x@),
            Variant::Guid(x) => VariantView::Guid(x@),
            Variant::ByteString(x) => VariantView::ByteString(x@),
            Variant::XmlElement(x) => VariantView::XmlElement(x@),
            Variant::NodeId(x) => VariantView::NodeId(x@),
            Variant::ExpandedNodeId(x) => VariantView::ExpandedNodeId(x@),
            Variant::StatusCode(x) => VariantView::StatusCode(x@),
            Variant::QualifiedName(x) => VariantView::QualifiedName(x@),
            Variant::LocalizedText(x) => VariantView::LocalizedText(x@),
            Variant::ExtensionObject(x) => VariantView::ExtensionObject(x@),
            Variant::Array(x) => VariantView::Array(x@),
        }
    }
}

/// The number that names the type of the elements of `v`.
pub open spec fn element_type_id(v: ArrayValuesView) -> u8 {
    match v {
        ArrayValuesView::Boolean(_) => 1,
        ArrayValuesView::SByte(_) => 2,
        ArrayValuesView::Byte(_) => 3,
        ArrayValuesView::Int16(_) => 4,
        ArrayValuesView::UInt16(_) => 5,
        ArrayValuesView::Int32(_) => 6,
        ArrayValuesView::UInt32(_) => 7,
        ArrayValuesView::Int64(_) => 8,
        ArrayValuesView::UInt64(_) => 9,
        ArrayValuesView::Float(_) => 10,
        ArrayValuesView::Double(_) => 11,
        ArrayValuesView::String(_) => 12,
        ArrayValuesView::DateTime(_) => 13,
        ArrayValuesView::Guid(_) => 14,
        ArrayValuesView::ByteString(_) => 15,
        ArrayValuesView::XmlElement(_) => 16,
        ArrayValuesView::NodeId(_) => 17,
        ArrayValuesView::ExpandedNodeId(_) => 18,
        ArrayValuesView::StatusCode(_) => 19,
        ArrayValuesView::QualifiedName(_) => 20,
        ArrayValuesView::LocalizedText(_) => 21,
        ArrayValuesView::ExtensionObject(_) => 22,
    }
}

/// The byte that names the type of `v` in the wire form: the number of
/// the type, and for an array the flags that say so and whether its
/// dimensions follow.
pub open spec fn type_id(v: VariantView) -> u8 {
    match v {
        VariantView::Empty => 0,
        VariantView::Boolean(_) => 1,
        VariantView::SByte(_) => 2,
        VariantView::Byte(_) => 3,
        VariantView::Int16(_) => 4,
        VariantView::UInt16(_) => 5,
        VariantView::Int32(_) => 6,
        VariantView::UInt32(_) => 7,
        VariantView::Int64(_) => 8,
        VariantView::UInt64(_) => 9,
        VariantView::Float(_) => 10,
        VariantView::Double(_) => 11,
        VariantView::String(_) => 12,
        VariantView::DateTime(_) => 13,
        VariantView::Guid(_) => 14,
        VariantView::ByteString(_) => 15,
        VariantView::XmlElement(_) => 16,
        VariantView::NodeId(_) => 17,
        VariantView::ExpandedNodeId(_) => 18,
        VariantView::StatusCode(_) => 19,
        VariantView::QualifiedName(_) => 20,
        VariantView::LocalizedText(_) => 21,
        VariantView::ExtensionObject(_) => 22,
        VariantView::Array(a) => (element_type_id(a.values) + ARRAY_VALUES + (if a.dimensions
            is Some {
            ARRAY_DIMENSIONS as int
        } else {
            0int
        })) as u8,
    }
}

/// The wire form of the values of an array: a length prefix, then the
/// values.
pub open spec fn wire_values(v: ArrayValuesView) -> Seq<u8> {
    match v {
        ArrayValuesView::Boolean(x) => wire_array::<bool>(x),
        ArrayValuesView::SByte(x) => wire_array::<i8>(x),
        ArrayValuesView::Byte(x) => wire_array::<u8>(x),
        ArrayValuesView::Int16(x) => wire_array::<i16>(x),
        ArrayValuesView::UInt16(x) => wire_array::<u16>(x),
        ArrayValuesView::Int32(x) => wire_array::<i32>(x),
        ArrayValuesView::UInt32(x) => wire_array::<u32>(x),
        ArrayValuesView::Int64(x) => wire_array::<i64>(x),
        ArrayValuesView::UInt64(x) => wire_array::<u64>(x),
        ArrayValuesView::Float(x) => wire_array::<u32>(x),
        ArrayValuesView::Double(x) => wire_array::<u64>(x),
        ArrayValuesView::String(x) => wire_array::<UAString>(x),
        ArrayValuesView::DateTime(x) => wire_array::<DateTime>(x),
        ArrayValuesView::Guid(x) => wire_array::<Guid>(x),
        ArrayValuesView::ByteString(x) => wire_array::<ByteString>(x),
        ArrayValuesView::XmlElement(x) => wire_array::<UAString>(x),
        ArrayValuesView::NodeId(x) => wire_array::<NodeId>(x),
        ArrayValuesView::ExpandedNodeId(x) => wire_array::<ExpandedNodeId>(x),
        ArrayValuesView::StatusCode(x) => wire_array::<StatusCode>(x),
        ArrayValuesView::QualifiedName(x) => wire_array::<QualifiedName>(x),
        ArrayValuesView::LocalizedText(x) => wire_array::<LocalizedText>(x),
        ArrayValuesView::ExtensionObject(x) => wire_array::<ExtensionObject>(x),
    }
}

/// The dimensions of an array in the wire form: an array of integers,
/// there when the array has dimensions.
pub open spec fn wire_dimensions(dimensions: Option<Seq<i32>>) -> Seq<u8> {
    if dimensions is Some {
        wire_array::<i32>(dimensions)
    } else {
        Seq::empty()
    }
}

/// The wire form of the value in `v`, without the byte that names its type.
pub open spec fn wire_value(v: VariantView) -> Seq<u8> {
    match v {
        VariantView::Empty => Seq::empty(),
        VariantView::Boolean(x) => bool::wire(x),
        VariantView::SByte(x) => i8::wire(x),
        VariantView::Byte(x) => u8::wire(x),
        VariantView::Int16(x) => i16::wire(x),
        VariantView::UInt16(x) => u16::wire(x),
        VariantView::Int32(x) => i32::wire(x),
        VariantView::UInt32(x) => u32::wire(x),
        VariantView::Int64(x) => i64::wire(x),
        VariantView::UInt64(x) => u64::wire(x),
        VariantView::Float(x) => u32::wire(x),
        VariantView::Double(x) => u64::wire(x),
        VariantView::String(x) => UAString::wire(x),
        VariantView::DateTime(x) => DateTime::wire(x),
        VariantView::Guid(x) => Guid::wire(x),
        VariantView::ByteString(x) => ByteString::wire(x),
        VariantView::XmlElement(x) => UAString::wire(x),
        VariantView::NodeId(x) => NodeId::wire(x),
        VariantView::ExpandedNodeId(x) => ExpandedNodeId::wire(x),
        VariantView::StatusCode(x) => StatusCode::wire(x),
        VariantView::QualifiedName(x) => QualifiedName::wire(x),
        VariantView::LocalizedText(x) => LocalizedText::wire(x),
        VariantView::ExtensionObject(x) => ExtensionObject::wire(x),
        VariantView::Array(a) => wire_values(a.values) + wire_dimensions(a.dimensions),
    }
}

/// The value of the type numbered `id` at the front of `s`. A number
/// above 22 names no type.
pub open spec fn parse_value(id: u8, s: Seq<u8>) -> Result<(VariantView, int), StatusCode> {
    if id == 0 {
        Ok((VariantView::Empty, 0))
    } else if id == 1 {
        match bool::parse(s) {
            Ok((x, n)) => Ok((VariantView::Boolean(x), n)),
            Err(e) => Err(e),
        }
    } else if id == 2 {
        match i8::parse(s) {
            Ok((x, n)) => Ok((VariantView::SByte(x), n)),
            Err(e) => Err(e),
        }
    } else if id == 3 {
        match u8::parse(s) {
            Ok((x, n)) => Ok((VariantView::Byte(x), n)),
            Err(e) => Err(e),
        }
    } else if id == 4 {
        match i16::parse(s) {
            Ok((x, n)) => Ok((VariantView::Int16(x), n)),
            Err(e) => Err(e),
        }
    } else if id == 5 {
        match u16::parse(s) {
            Ok((x, n)) => Ok((VariantView::UInt16(x), n)),
            Err(e) => Err(e),
        }
    } else if id == 6 {
        match i32::parse(s) {
            Ok((x, n)) => Ok((VariantView::Int32(x), n)),
            Err(e) => Err(e),
        }
    } else if id == 7 {
        match u32::parse(s) {
            Ok((x, n)) => Ok((VariantView::UInt32(x), n)),
            Err(e) => Err(e),
        }
    } else if id == 8 {
        match i64::parse(s) {
            Ok((x, n)) => Ok((VariantView::Int64(x), n)),
            Err(e) => Err(e),
        }
    } else if id == 9 {
        match u64::parse(s) {
            Ok((x, n)) => Ok((VariantView::UInt64(x), n)),
            Err(e) => Err(e),
        }
    } else if id == 10 {
        match u32::parse(s) {
            Ok((x, n)) => Ok((VariantView::Float(x), n)),
            Err(e) => Err(e),
        }
    } else if id == 11 {
        match u64::parse(s) {
            Ok((x, n)) => Ok((VariantView::Double(x), n)),
            Err(e) => Err(e),
        }
    } else if id == 12 {
        match UAString::parse(s) {
            Ok((x, n)) => Ok((VariantView::String(x), n)),
            Err(e) => Err(e),
        }
    } else if id == 13 {
        match DateTime::parse(s) {
            Ok((x, n)) => Ok((VariantView::DateTime(x), n)),
            Err(e) => Err(e),
        }
    } else if id == 14 {
        match Guid::parse(s) {
            Ok((x, n)) => Ok((VariantView::Guid(x), n)),
            Err(e) => Err(e),
        }
    } else if id == 15 {
        match ByteString::parse(s) {
            Ok((x, n)) => Ok((VariantView::ByteString(x), n)),
            Err(e) => Err(e),
        }
    } else if id == 16 {
        match UAString::parse(s) {
            Ok((x, n)) => Ok((VariantView::XmlElement(x), n)),
            Err(e) => Err(e),
        }
    } else if id == 17 {
        match NodeId::parse(s) {
            Ok((x, n)) => Ok((VariantView::NodeId(x), n)),
            Err(e) => Err(e),
        }
    } else if id == 18 {
        match ExpandedNodeId::parse(s) {
            Ok((x, n)) => Ok((VariantView::ExpandedNodeId(x), n)),
            Err(e) => Err(e),
        }
    } else if id == 19 {
        match StatusCode::parse(s) {
            Ok((x, n)) => Ok((VariantView::StatusCode(x), n)),
            Err(e) => Err(e),
        }
    } else if id == 20 {
        match QualifiedName::parse(s) {
            Ok((x, n)) => Ok((VariantView::QualifiedName(x), n)),
            Err(e) => Err(e),
        }
    } else if id == 21 {
        match LocalizedText::parse(s) {
            Ok((x, n)) => Ok((VariantView::LocalizedText(x), n)),
            Err(e) => Err(e),
        }
    } else if id == 22 {
        match ExtensionObject::parse(s) {
            Ok((x, n)) => Ok((VariantView::ExtensionObject(x), n)),
            Err(e) => Err(e),
        }
    } else {
        Err(BAD_DECODING_ERROR)
    }
}

/// The array of values of the type numbered `id` at the front of `s`.
pub open spec fn parse_values(id: u8, s: Seq<u8>) -> Result<(ArrayValuesView, int), StatusCode> {
    if id == 1 {
        match parse_array::<bool>(s) {
            Ok((x, n)) => Ok((ArrayValuesView::Boolean(x), n)),
            Err(e) => Err(e),
        }
    } else if id == 2 {
        match parse_array::<i8>(s) {
            Ok((x, n)) => Ok((ArrayValuesView::SByte(x), n)),
            Err(e) => Err(e),
        }
    } else if id == 3 {
        match parse_array::<u8>(s) {
            Ok((x, n)) => Ok((ArrayValuesView::Byte(x), n)),
            Err(e) => Err(e),
        }
    } else if id == 4 {
        match parse_array::<i16>(s) {
            Ok((x, n)) => Ok((ArrayValuesView::Int16(x), n)),
            Err(e) => Err(e),
        }
    } else if id == 5 {
        match parse_array::<u16>(s) {
            Ok((x, n)) => Ok((ArrayValuesView::UInt16(x), n)),
            Err(e) => Err(e),
        }
    } else if id == 6 {
        match parse_array::<i32>(s) {
            Ok((x, n)) => Ok((ArrayValuesView::Int32(x), n)),
            Err(e) => Err(e),
        }
    } else if id == 7 {
        match parse_array::<u32>(s) {
            Ok((x, n)) => Ok((ArrayValuesView::UInt32(x), n)),
            Err(e) => Err(e),
        }
    } else if id == 8 {
        match parse_array::<i64>(s) {
            Ok((x, n)) => Ok((ArrayValuesView::Int64(x), n)),
            Err(e) => Err(e),
        }
    } else if id == 9 {
        match parse_array::<u64>(s) {
            Ok((x, n)) => Ok((ArrayValuesView::UInt64(x), n)),
            Err(e) => Err(e),
        }
    } else if id == 10 {
        match parse_array::<u32>(s) {
            Ok((x, n)) => Ok((ArrayValuesView::Float(x), n)),
            Err(e) => Err(e),
        }
    } else if id == 11 {
        match parse_array::<u64>(s) {
            Ok((x, n)) => Ok((ArrayValuesView::Double(x), n)),
            Err(e) => Err(e),
        }
    } else if id == 12 {
        match parse_array::<UAString>(s) {
            Ok((x, n)) => Ok((ArrayValuesView::String(x), n)),
            Err(e) => Err(e),
        }
    } else if id == 13 {
        match parse_array::<DateTime>(s) {
            Ok((x, n)) => Ok((ArrayValuesView::DateTime(x), n)),
            Err(e) => Err(e),
        }
    } else if id == 14 {
        match parse_array::<Guid>(s) {
            Ok((x, n)) => Ok((ArrayValuesView::Guid(x), n)),
            Err(e) => Err(e),
        }
    } else if id == 15 {
        match parse_array::<ByteString>(s) {
            Ok((x, n)) => Ok((ArrayValuesView::ByteString(x), n)),
            Err(e) => Err(e),
        }
    } else if id == 16 {
        match parse_array::<UAString>(s) {
            Ok((x, n)) => Ok((ArrayValuesView::XmlElement(x), n)),
            Err(e) => Err(e),
        }
    } else if id == 17 {
        match parse_array::<NodeId>(s) {
            Ok((x, n)) => Ok((ArrayValuesView::NodeId(x), n)),
            Err(e) => Err(e),
        }
    } else if id == 18 {
        match parse_array::<ExpandedNodeId>(s) {
            Ok((x, n)) => Ok((ArrayValuesView::ExpandedNodeId(x), n)),
            Err(e) => Err(e),
        }
    } else if id == 19 {
        match parse_array::<StatusCode>(s) {
            Ok((x, n)) => Ok((ArrayValuesView::StatusCode(x), n)),
            Err(e) => Err(e),
        }
    } else if id == 20 {
        match parse_array::<QualifiedName>(s) {
            Ok((x, n)) => Ok((ArrayValuesView::QualifiedName(x), n)),
            Err(e) => Err(e),
        }
    } else if id == 21 {
        match parse_array::<LocalizedText>(s) {
            Ok((x, n)) => Ok((ArrayValuesView::LocalizedText(x), n)),
            Err(e) => Err(e),
        }
    } else if id == 22 {
        match parse_array::<ExtensionObject>(s) {
            Ok((x, n)) => Ok((ArrayValuesView::ExtensionObject(x), n)),
            Err(e) => Err(e),
        }
    } else {
        Err(BAD_DECODING_ERROR)
    }
}

/// The dimensions at the front of `s` when `present`, else none.
pub open spec fn parse_dimensions(present: bool, s: Seq<u8>) -> Result<(Option<Seq<i32>>, int), StatusCode> {
    if present {
        parse_array::<i32>(s)
    } else {
        Ok((None, 0))
    }
}

/// The array whose type byte is `tag` at the front of `s`.
pub open spec fn parse_array_value(tag: u8, s: Seq<u8>) -> Result<(VariantView, int), StatusCode> {
    match parse_values((tag as int % 64) as u8, s) {
        Ok((values, n)) => match parse_dimensions((tag as int / 64) % 2 == 1, s.skip(n)) {
            Ok((dimensions, m)) => Ok(
                (VariantView::Array(VariantArrayView { values, dimensions }), n + m),
            ),
            Err(e) => Err(e),
        },
        Err(e) => Err(e),
    }
}

pub open spec fn values_encodable(v: ArrayValuesView) -> bool {
    match v {
        ArrayValuesView::Boolean(x) => encodable_array::<bool>(x),
        ArrayValuesView::SByte(x) => encodable_array::<i8>(x),
        ArrayValuesView::Byte(x) => encodable_array::<u8>(x),
        ArrayValuesView::Int16(x) => encodable_array::<i16>(x),
        ArrayValuesView::UInt16(x) => encodable_array::<u16>(x),
        ArrayValuesView::Int32(x) => encodable_array::<i32>(x),
        ArrayValuesView::UInt32(x) => encodable_array::<u32>(x),
        ArrayValuesView::Int64(x) => encodable_array::<i64>(x),
        ArrayValuesView::UInt64(x) => encodable_array::<u64>(x),
        ArrayValuesView::Float(x) => encodable_array::<u32>(x),
        ArrayValuesView::Double(x) => encodable_array::<u64>(x),
        ArrayValuesView::String(x) => encodable_array::<UAString>(x),
        ArrayValuesView::DateTime(x) => encodable_array::<DateTime>(x),
        ArrayValuesView::Guid(x) => encodable_array::<Guid>(x),
        ArrayValuesView::ByteString(x) => encodable_array::<ByteString>(x),
        ArrayValuesView::XmlElement(x) => encodable_array::<UAString>(x),
        ArrayValuesView::NodeId(x) => encodable_array::<NodeId>(x),
        ArrayValuesView::ExpandedNodeId(x) => encodable_array::<ExpandedNodeId>(x),
        ArrayValuesView::StatusCode(x) => encodable_array::<StatusCode>(x),
        ArrayValuesView::QualifiedName(x) => encodable_array::<QualifiedName>(x),
        ArrayValuesView::LocalizedText(x) => encodable_array::<LocalizedText>(x),
        ArrayValuesView::ExtensionObject(x) => encodable_array::<ExtensionObject>(x),
    }
}

pub open spec fn values_canonical(v: ArrayValuesView) -> bool {
    match v {
        ArrayValuesView::Boolean(x) => canonical_array::<bool>(x),
        ArrayValuesView::SByte(x) => canonical_array::<i8>(x),
        ArrayValuesView::Byte(x) => canonical_array::<u8>(x),
        ArrayValuesView::Int16(x) => canonical_array::<i16>(x),
        ArrayValuesView::UInt16(x) => canonical_array::<u16>(x),
        ArrayValuesView::Int32(x) => canonical_array::<i32>(x),
        ArrayValuesView::UInt32(x) => canonical_array::<u32>(x),
        ArrayValuesView::Int64(x) => canonical_array::<i64>(x),
        ArrayValuesView::UInt64(x) => canonical_array::<u64>(x),
        ArrayValuesView::Float(x) => canonical_array::<u32>(x),
        ArrayValuesView::Double(x) => canonical_array::<u64>(x),
        ArrayValuesView::String(x) => canonical_array::<UAString>(x),
        ArrayValuesView::DateTime(x) => canonical_array::<DateTime>(x),
        ArrayValuesView::Guid(x) => canonical_array::<Guid>(x),
        ArrayValuesView::ByteString(x) => canonical_array::<ByteString>(x),
        ArrayValuesView::XmlElement(x) => canonical_array::<UAString>(x),
        ArrayValuesView::NodeId(x) => canonical_array::<NodeId>(x),
        ArrayValuesView::ExpandedNodeId(x) => canonical_array::<ExpandedNodeId>(x),
        ArrayValuesView::StatusCode(x) => canonical_array::<StatusCode>(x),
        ArrayValuesView::QualifiedName(x) => canonical_array::<QualifiedName>(x),
        ArrayValuesView::LocalizedText(x) => canonical_array::<LocalizedText>(x),
        ArrayValuesView::ExtensionObject(x) => canonical_array::<ExtensionObject>(x),
    }
}

pub open spec fn value_encodable(v: VariantView) -> bool {
    match v {
        VariantView::Empty => true,
        VariantView::Boolean(x) => bool::encodable(x),
        VariantView::SByte(x) => i8::encodable(x),
        VariantView::Byte(x) => u8::encodable(x),
        VariantView::Int16(x) => i16::encodable(x),
        VariantView::UInt16(x) => u16::encodable(x),
        VariantView::Int32(x) => i32::encodable(x),
        VariantView::UInt32(x) => u32::encodable(x),
        VariantView::Int64(x) => i64::encodable(x),
        VariantView::UInt64(x) => u64::encodable(x),
        VariantView::Float(x) => u32::encodable(x),
        VariantView::Double(x) => u64::encodable(x),
        VariantView::String(x) => UAString::encodable(x),
        VariantView::DateTime(x) => DateTime::encodable(x),
        VariantView::Guid(x) => Guid::encodable(x),
        VariantView::ByteString(x) => ByteString::encodable(x),
        VariantView::XmlElement(x) => UAString::encodable(x),
        VariantView::NodeId(x) => NodeId::encodable(x),
        VariantView::ExpandedNodeId(x) => ExpandedNodeId::encodable(x),
        VariantView::StatusCode(x) => StatusCode::encodable(x),
        VariantView::QualifiedName(x) => QualifiedName::encodable(x),
        VariantView::LocalizedText(x) => LocalizedText::encodable(x),
        VariantView::ExtensionObject(x) => ExtensionObject::encodable(x),
        VariantView::Array(a) => values_encodable(a.values) && encodable_array::<i32>(
            a.dimensions,
        ),
    }
}

pub open spec fn value_canonical(v: VariantView) -> bool {
    match v {
        VariantView::Empty => true,
        VariantView::Boolean(x) => bool::canonical(x),
        VariantView::SByte(x) => i8::canonical(x),
        VariantView::Byte(x) => u8::canonical(x),
        VariantView::Int16(x) => i16::canonical(x),
        VariantView::UInt16(x) => u16::canonical(x),
        VariantView::Int32(x) => i32::canonical(x),
        VariantView::UInt32(x) => u32::canonical(x),
        VariantView::Int64(x) => i64::canonical(x),
        VariantView::UInt64(x) => u64::canonical(x),
        VariantView::Float(x) => u32::canonical(x),
        VariantView::Double(x) => u64::canonical(x),
        VariantView::String(x) => UAString::canonical(x),
        VariantView::DateTime(x) => DateTime::canonical(x),
        VariantView::Guid(x) => Guid::canonical(x),
        VariantView::ByteString(x) => ByteString::canonical(x),
        VariantView::XmlElement(x) => UAString::canonical(x),
        VariantView::NodeId(x) => NodeId::canonical(x),
        VariantView::ExpandedNodeId(x) => ExpandedNodeId::canonical(x),
        VariantView::StatusCode(x) => StatusCode::canonical(x),
        VariantView::QualifiedName(x) => QualifiedName::canonical(x),
        VariantView::LocalizedText(x) => LocalizedText::canonical(x),
        VariantView::ExtensionObject(x) => ExtensionObject::canonical(x),
        VariantView::Array(a) => values_canonical(a.values) && canonical_array::<i32>(
            a.dimensions,
        ),
    }
}

/// The value of a variant that is no array comes back from its wire form
/// when the reader knows the type.
pub proof fn lemma_parse_value(v: VariantView, rest: Seq<u8>)
    requires
        value_canonical(v),
        !(v is Array),
    ensures
        value_encodable(v),
        parse_value(type_id(v), wire_value(v) + rest) == Ok::<(VariantView, int), StatusCode>(
            (v, wire_value(v).len() as int),
        ),
{
    match v {
        VariantView::Empty => {},
        VariantView::Boolean(x) => {
            lemma_field::<bool>(x, rest);
        },
        VariantView::SByte(x) => {
            lemma_field::<i8>(x, rest);
        },
        VariantView::Byte(x) => {
            lemma_field::<u8>(x, rest);
        },
        VariantView::Int16(x) => {
            lemma_field::<i16>(x, rest);
        },
        VariantView::UInt16(x) => {
            lemma_field::<u16>(x, rest);
        },
        VariantView::Int32(x) => {
            lemma_field::<i32>(x, rest);
        },
        VariantView::UInt32(x) => {
            lemma_field::<u32>(x, rest);
        },
        VariantView::Int64(x) => {
            lemma_field::<i64>(x, rest);
        },
        VariantView::UInt64(x) => {
            lemma_field::<u64>(x, rest);
        },
        VariantView::Float(x) => {
            lemma_field::<u32>(x, rest);
        },
        VariantView::Double(x) => {
            lemma_field::<u64>(x, rest);
        },
        VariantView::String(x) => {
            lemma_field::<UAString>(x, rest);
        },
        VariantView::DateTime(x) => {
            lemma_field::<DateTime>(x, rest);
        },
        VariantView::Guid(x) => {
            lemma_field::<Guid>(x, rest);
        },
        VariantView::ByteString(x) => {
            lemma_field::<ByteString>(x, rest);
        },
        VariantView::XmlElement(x) => {
            lemma_field::<UAString>(x, rest);
        },
        VariantView::NodeId(x) => {
            lemma_field::<NodeId>(x, rest);
        },
        VariantView::ExpandedNodeId(x) => {
            lemma_field::<ExpandedNodeId>(x, rest);
        },
        VariantView::StatusCode(x) => {
            lemma_field::<StatusCode>(x, rest);
        },
        VariantView::QualifiedName(x) => {
            lemma_field::<QualifiedName>(x, rest);
        },
        VariantView::LocalizedText(x) => {
            lemma_field::<LocalizedText>(x, rest);
        },
        VariantView::ExtensionObject(x) => {
            lemma_field::<ExtensionObject>(x, rest);
        },
        VariantView::Array(_) => {},
    }
}

/// The values of an array come back from their wire form when the reader
/// knows their type.
pub proof fn lemma_parse_values(v: ArrayValuesView, rest: Seq<u8>)
    requires
        values_canonical(v),
    ensures
        values_encodable(v),
        parse_values(element_type_id(v), wire_values(v) + rest) == Ok::<
            (ArrayValuesView, int),
            StatusCode,
        >((v, wire_values(v).len() as int)),
        (wire_values(v) + rest).skip(wire_values(v).len() as int) == rest,
{
    assert((wire_values(v) + rest).skip(wire_values(v).len() as int) =~= rest);
    match v {
        ArrayValuesView::Boolean(x) => {
            lemma_round_trip_array::<bool>(x, rest);
        },
        ArrayValuesView::SByte(x) => {
            lemma_round_trip_array::<i8>(x, rest);
        },
        ArrayValuesView::Byte(x) => {
            lemma_round_trip_array::<u8>(x, rest);
        },
        ArrayValuesView::Int16(x) => {
            lemma_round_trip_array::<i16>(x, rest);
        },
        ArrayValuesView::UInt16(x) => {
            lemma_round_trip_array::<u16>(x, rest);
        },
        ArrayValuesView::Int32(x) => {
            lemma_round_trip_array::<i32>(x, rest);
        },
        ArrayValuesView::UInt32(x) => {
            lemma_round_trip_array::<u32>(x, rest);
        },
        ArrayValuesView::Int64(x) => {
            lemma_round_trip_array::<i64>(x, rest);
        },
        ArrayValuesView::UInt64(x) => {
            lemma_round_trip_array::<u64>(x, rest);
        },
        ArrayValuesView::Float(x) => {
            lemma_round_trip_array::<u32>(x, rest);
        },
        ArrayValuesView::Double(x) => {
            lemma_round_trip_array::<u64>(x, rest);
        },
        ArrayValuesView::String(x) => {
            lemma_round_trip_array::<UAString>(x, rest);
        },
        ArrayValuesView::DateTime(x) => {
            lemma_round_trip_array::<DateTime>(x, rest);
        },
        ArrayValuesView::Guid(x) => {
            lemma_round_trip_array::<Guid>(x, rest);
        },
        ArrayValuesView::ByteString(x) => {
            lemma_round_trip_array::<ByteString>(x, rest);
        },
        ArrayValuesView::XmlElement(x) => {
            lemma_round_trip_array::<UAString>(x, rest);
        },
        ArrayValuesView::NodeId(x) => {
            lemma_round_trip_array::<NodeId>(x, rest);
        },
        ArrayValuesView::ExpandedNodeId(x) => {
            lemma_round_trip_array::<ExpandedNodeId>(x, rest);
        },
        ArrayValuesView::StatusCode(x) => {
            lemma_round_trip_array::<StatusCode>(x, rest);
        },
        ArrayValuesView::QualifiedName(x) => {
            lemma_round_trip_array::<QualifiedName>(x, rest);
        },
        ArrayValuesView::LocalizedText(x) => {
            lemma_round_trip_array::<LocalizedText>(x, rest);
        },
        ArrayValuesView::ExtensionObject(x) => {
            lemma_round_trip_array::<ExtensionObject>(x, rest);
        },
    }
}

proof fn lemma_array_tag(a: VariantArrayView)
    ensures
        ({
            let tag = type_id(VariantView::Array(a));
            &&& tag >= 128
            &&& (tag as int % 64) as u8 == element_type_id(a.values)
            &&& (tag as int / 64) % 2 == 1 <==> a.dimensions is Some
        }),
{
}

/// An array comes back from its wire form.
pub proof fn lemma_parse_array_value(a: VariantArrayView, rest: Seq<u8>)
    requires
        value_canonical(VariantView::Array(a)),
    ensures
        value_encodable(VariantView::Array(a)),
        parse_array_value(
            type_id(VariantView::Array(a)),
            wire_value(VariantView::Array(a)) + rest,
        ) == Ok::<(VariantView, int), StatusCode>(
            (VariantView::Array(a), wire_value(VariantView::Array(a)).len() as int),
        ),
{
    let values = wire_values(a.values);
    let dimensions = wire_dimensions(a.dimensions);
    let s = wire_value(VariantView::Array(a)) + rest;
    lemma_array_tag(a);
    assert(s =~= values + (dimensions + rest));
    lemma_parse_values(a.values, dimensions + rest);
    assert(parse_dimensions(a.dimensions is Some, dimensions + rest) == Ok::<
        (Option<Seq<i32>>, int),
        StatusCode,
    >((a.dimensions, dimensions.len() as int))) by {
        if a.dimensions is Some {
            lemma_round_trip_array::<i32>(a.dimensions, rest);
        }
    }
    assert(encodable_array::<i32>(a.dimensions)) by {
        lemma_round_trip_array::<i32>(a.dimensions, rest);
    }
}

pub proof fn lemma_parse_value_consumes(id: u8, s: Seq<u8>)
    ensures
        parse_value(id, s) matches Ok((v, n)) ==> 0 <= n <= s.len(),
{
    if id == 1 {
        bool::lemma_parse_consumes(s);
    } else if id == 2 {
        i8::lemma_parse_consumes(s);
    } else if id == 3 {
        u8::lemma_parse_consumes(s);
    } else if id == 4 {
        i16::lemma_parse_consumes(s);
    } else if id == 5 {
        u16::lemma_parse_consumes(s);
    } else if id == 6 {
        i32::lemma_parse_consumes(s);
    } else if id == 7 {
        u32::lemma_parse_consumes(s);
    } else if id == 8 {
        i64::lemma_parse_consumes(s);
    } else if id == 9 {
        u64::lemma_parse_consumes(s);
    } else if id == 10 {
        u32::lemma_parse_consumes(s);
    } else if id == 11 {
        u64::lemma_parse_consumes(s);
    } else if id == 12 {
        UAString::lemma_parse_consumes(s);
    } else if id == 13 {
        DateTime::lemma_parse_consumes(s);
    } else if id == 14 {
        Guid::lemma_parse_consumes(s);
    } else if id == 15 {
        ByteString::lemma_parse_consumes(s);
    } else if id == 16 {
        UAString::lemma_parse_consumes(s);
    } else if id == 17 {
        NodeId::lemma_parse_consumes(s);
    } else if id == 18 {
        ExpandedNodeId::lemma_parse_consumes(s);
    } else if id == 19 {
        StatusCode::lemma_parse_consumes(s);
    } else if id == 20 {
        QualifiedName::lemma_parse_consumes(s);
    } else if id == 21 {
        LocalizedText::lemma_parse_consumes(s);
    } else if id == 22 {
        ExtensionObject::lemma_parse_consumes(s);
    }
}

pub proof fn lemma_parse_values_consumes(id: u8, s: Seq<u8>)
    ensures
        parse_values(id, s) matches Ok((v, n)) ==> 0 <= n <= s.len(),
{
    if id == 1 {
        lemma_parse_array_consumes::<bool>(s);
    } else if id == 2 {
        lemma_parse_array_consumes::<i8>(s);
    } else if id == 3 {
        lemma_parse_array_consumes::<u8>(s);
    } else if id == 4 {
        lemma_parse_array_consumes::<i16>(s);
    } else if id == 5 {
        lemma_parse_array_consumes::<u16>(s);
    } else if id == 6 {
        lemma_parse_array_consumes::<i32>(s);
    } else if id == 7 {
        lemma_parse_array_consumes::<u32>(s);
    } else if id == 8 {
        lemma_parse_array_consumes::<i64>(s);
    } else if id == 9 {
        lemma_parse_array_consumes::<u64>(s);
    } else if id == 10 {
        lemma_parse_array_consumes::<u32>(s);
    } else if id == 11 {
        lemma_parse_array_consumes::<u64>(s);
    } else if id == 12 {
        lemma_parse_array_consumes::<UAString>(s);
    } else if id == 13 {
        lemma_parse_array_consumes::<DateTime>(s);
    } else if id == 14 {
        lemma_parse_array_consumes::<Guid>(s);
    } else if id == 15 {
        lemma_parse_array_consumes::<ByteString>(s);
    } else if id == 16 {
        lemma_parse_array_consumes::<UAString>(s);
    } else if id == 17 {
        lemma_parse_array_consumes::<NodeId>(s);
    } else if id == 18 {
        lemma_parse_array_consumes::<ExpandedNodeId>(s);
    } else if id == 19 {
        lemma_parse_array_consumes::<StatusCode>(s);
    } else if id == 20 {
        lemma_parse_array_consumes::<QualifiedName>(s);
    } else if id == 21 {
        lemma_parse_array_consumes::<LocalizedText>(s);
    } else if id == 22 {
        lemma_parse_array_consumes::<ExtensionObject>(s);
    }
}

pub proof fn lemma_parse_array_value_consumes(tag: u8, s: Seq<u8>)
    ensures
        parse_array_value(tag, s) matches Ok((v, n)) ==> 0 <= n <= s.len(),
{
    let id = (tag as int % 64) as u8;
    lemma_parse_values_consumes(id, s);
    if let Ok((values, n)) = parse_values(id, s) {
        lemma_parse_array_consumes::<i32>(s.skip(n));
    }
}

impl ArrayValues {
    /// The number that names the type of the elements.
    pub fn element_type_id(&self) -> (r: u8)
        ensures
            r == element_type_id(self@),
            1 <= r <= 22,
    {
        match self {
            ArrayValues::Boolean(_) => 1,
            ArrayValues::SByte(_) => 2,
            ArrayValues::Byte(_) => 3,
            ArrayValues::Int16(_) => 4,
            ArrayValues::UInt16(_) => 5,
            ArrayValues::Int32(_) => 6,
            ArrayValues::UInt32(_) => 7,
            ArrayValues::Int64(_) => 8,
            ArrayValues::UInt64(_) => 9,
            ArrayValues::Float(_) => 10,
            ArrayValues::Double(_) => 11,
            ArrayValues::String(_) => 12,
            ArrayValues::DateTime(_) => 13,
            ArrayValues::Guid(_) => 14,
            ArrayValues::ByteString(_) => 15,
            ArrayValues::XmlElement(_) => 16,
            ArrayValues::NodeId(_) => 17,
            ArrayValues::ExpandedNodeId(_) => 18,
            ArrayValues::StatusCode(_) => 19,
            ArrayValues::QualifiedName(_) => 20,
            ArrayValues::LocalizedText(_) => 21,
            ArrayValues::ExtensionObject(_) => 22,
        }
    }

    fn is_encodable(&self) -> (r: bool)
        ensures
            r == values_encodable(self@),
    {
        match self {
            ArrayValues::Boolean(x) => is_encodable_array(x),
            ArrayValues::SByte(x) => is_encodable_array(x),
            ArrayValues::Byte(x) => is_encodable_array(x),
            ArrayValues::Int16(x) => is_encodable_array(x),
            ArrayValues::UInt16(x) => is_encodable_array(x),
            ArrayValues::Int32(x) => is_encodable_array(x),
            ArrayValues::UInt32(x) => is_encodable_array(x),
            ArrayValues::Int64(x) => is_encodable_array(x),
            ArrayValues::UInt64(x) => is_encodable_array(x),
            ArrayValues::Float(x) => is_encodable_array(x),
            ArrayValues::Double(x) => is_encodable_array(x),
            ArrayValues::String(x) => is_encodable_array(x),
            ArrayValues::DateTime(x) => is_encodable_array(x),
            ArrayValues::Guid(x) => is_encodable_array(x),
            ArrayValues::ByteString(x) => is_encodable_array(x),
            ArrayValues::XmlElement(x) => is_encodable_array(x),
            ArrayValues::NodeId(x) => is_encodable_array(x),
            ArrayValues::ExpandedNodeId(x) => is_encodable_array(x),
            ArrayValues::StatusCode(x) => is_encodable_array(x),
            ArrayValues::QualifiedName(x) => is_encodable_array(x),
            ArrayValues::LocalizedText(x) => is_encodable_array(x),
            ArrayValues::ExtensionObject(x) => is_encodable_array(x),
        }
    }

    fn wire_len(&self) -> (n: usize)
        requires
            wire_values(self@).len() <= usize::MAX,
        ensures
            n == wire_values(self@).len(),
    {
        match self {
            ArrayValues::Boolean(x) => byte_len_array(x),
            ArrayValues::SByte(x) => byte_len_array(x),
            ArrayValues::Byte(x) => byte_len_array(x),
            ArrayValues::Int16(x) => byte_len_array(x),
            ArrayValues::UInt16(x) => byte_len_array(x),
            ArrayValues::Int32(x) => byte_len_array(x),
            ArrayValues::UInt32(x) => byte_len_array(x),
            ArrayValues::Int64(x) => byte_len_array(x),
            ArrayValues::UInt64(x) => byte_len_array(x),
            ArrayValues::Float(x) => byte_len_array(x),
            ArrayValues::Double(x) => byte_len_array(x),
            ArrayValues::String(x) => byte_len_array(x),
            ArrayValues::DateTime(x) => byte_len_array(x),
            ArrayValues::Guid(x) => byte_len_array(x),
            ArrayValues::ByteString(x) => byte_len_array(x),
            ArrayValues::XmlElement(x) => byte_len_array(x),
            ArrayValues::NodeId(x) => byte_len_array(x),
            ArrayValues::ExpandedNodeId(x) => byte_len_array(x),
            ArrayValues::StatusCode(x) => byte_len_array(x),
            ArrayValues::QualifiedName(x) => byte_len_array(x),
            ArrayValues::LocalizedText(x) => byte_len_array(x),
            ArrayValues::ExtensionObject(x) => byte_len_array(x),
        }
    }

    fn write(&self, stream: &mut Vec<u8>)
        requires
            values_encodable(self@),
        ensures
            final(stream)@ == old(stream)@ + wire_values(self@),
    {
        match self {
            ArrayValues::Boolean(x) => {
                let _ = write_array(stream, x);
            },
            ArrayValues::SByte(x) => {
                let _ = write_array(stream, x);
            },
            ArrayValues::Byte(x) => {
                let _ = write_array(stream, x);
            },
            ArrayValues::Int16(x) => {
                let _ = write_array(stream, x);
            },
            ArrayValues::UInt16(x) => {
                let _ = write_array(stream, x);
            },
            ArrayValues::Int32(x) => {
                let _ = write_array(stream, x);
            },
            ArrayValues::UInt32(x) => {
                let _ = write_array(stream, x);
            },
            ArrayValues::Int64(x) => {
                let _ = write_array(stream, x);
            },
            ArrayValues::UInt64(x) => {
                let _ = write_array(stream, x);
            },
            ArrayValues::Float(x) => {
                let _ = write_array(stream, x);
            },
            ArrayValues::Double(x) => {
                let _ = write_array(stream, x);
            },
            ArrayValues::String(x) => {
                let _ = write_array(stream, x);
            },
            ArrayValues::DateTime(x) => {
                let _ = write_array(stream, x);
            },
            ArrayValues::Guid(x) => {
                let _ = write_array(stream, x);
            },
            ArrayValues::ByteString(x) => {
                let _ = write_array(stream, x);
            },
            ArrayValues::XmlElement(x) => {
                let _ = write_array(stream, x);
            },
            ArrayValues::NodeId(x) => {
                let _ = write_array(stream, x);
            },
            ArrayValues::ExpandedNodeId(x) => {
                let _ = write_array(stream, x);
            },
            ArrayValues::StatusCode(x) => {
                let _ = write_array(stream, x);
            },
            ArrayValues::QualifiedName(x) => {
                let _ = write_array(stream, x);
            },
            ArrayValues::LocalizedText(x) => {
                let _ = write_array(stream, x);
            },
            ArrayValues::ExtensionObject(x) => {
                let _ = write_array(stream, x);
            },
        }
    }

    fn read(id: u8, stream: &[u8]) -> (r: EncodingResult<(ArrayValues, usize)>)
        ensures
            match parse_values(id, stream@) {
                Ok((v, n)) => r matches Ok((x, m)) && x@ == v && m == n && m <= stream@.len(),
                Err(e) => r matches Err(f) && f == e,
            },
    {
        if id == 1 {
            let (x, n) = read_array::<bool>(stream)?;
            Ok((ArrayValues::Boolean(x), n))
        } else if id == 2 {
            let (x, n) = read_array::<i8>(stream)?;
            Ok((ArrayValues::SByte(x), n))
        } else if id == 3 {
            let (x, n) = read_array::<u8>(stream)?;
            Ok((ArrayValues::Byte(x), n))
        } else if id == 4 {
            let (x, n) = read_array::<i16>(stream)?;
            Ok((ArrayValues::Int16(x), n))
        } else if id == 5 {
            let (x, n) = read_array::<u16>(stream)?;
            Ok((ArrayValues::UInt16(x), n))
        } else if id == 6 {
            let (x, n) = read_array::<i32>(stream)?;
            Ok((ArrayValues::Int32(x), n))
        } else if id == 7 {
            let (x, n) = read_array::<u32>(stream)?;
            Ok((ArrayValues::UInt32(x), n))
        } else if id == 8 {
            let (x, n) = read_array::<i64>(stream)?;
            Ok((ArrayValues::Int64(x), n))
        } else if id == 9 {
            let (x, n) = read_array::<u64>(stream)?;
            Ok((ArrayValues::UInt64(x), n))
        } else if id == 10 {
            let (x, n) = read_array::<u32>(stream)?;
            Ok((ArrayValues::Float(x), n))
        } else if id == 11 {
            let (x, n) = read_array::<u64>(stream)?;
            Ok((ArrayValues::Double(x), n))
        } else if id == 12 {
            let (x, n) = read_array::<UAString>(stream)?;
            Ok((ArrayValues::String(x), n))
        } else if id == 13 {
            let (x, n) = read_array::<DateTime>(stream)?;
            Ok((ArrayValues::DateTime(x), n))
        } else if id == 14 {
            let (x, n) = read_array::<Guid>(stream)?;
            Ok((ArrayValues::Guid(x), n))
        } else if id == 15 {
            let (x, n) = read_array::<ByteString>(stream)?;
            Ok((ArrayValues::ByteString(x), n))
        } else if id == 16 {
            let (x, n) = read_array::<UAString>(stream)?;
            Ok((ArrayValues::XmlElement(x), n))
        } else if id == 17 {
            let (x, n) = read_array::<NodeId>(stream)?;
            Ok((ArrayValues::NodeId(x), n))
        } else if id == 18 {
            let (x, n) = read_array::<ExpandedNodeId>(stream)?;
            Ok((ArrayValues::ExpandedNodeId(x), n))
        } else if id == 19 {
            let (x, n) = read_array::<StatusCode>(stream)?;
            Ok((ArrayValues::StatusCode(x), n))
        } else if id == 20 {
            let (x, n) = read_array::<QualifiedName>(stream)?;
            Ok((ArrayValues::QualifiedName(x), n))
        } else if id == 21 {
            let (x, n) = read_array::<LocalizedText>(stream)?;
            Ok((ArrayValues::LocalizedText(x), n))
        } else if id == 22 {
            let (x, n) = read_array::<ExtensionObject>(stream)?;
            Ok((ArrayValues::ExtensionObject(x), n))
        } else {
            Err(BAD_DECODING_ERROR)
        }
    }
}

impl Variant {
    /// The byte that names the type in the wire form.
    pub fn type_id(&self) -> (r: u8)
        ensures
            r == type_id(self@),
    {
        match self {
            Variant::Empty => 0,
            Variant::Boolean(_) => 1,
            Variant::SByte(_) => 2,
            Variant::Byte(_) => 3,
            Variant::Int16(_) => 4,
            Variant::UInt16(_) => 5,
            Variant::Int32(_) => 6,
            Variant::UInt32(_) => 7,
            Variant::Int64(_) => 8,
            Variant::UInt64(_) => 9,
            Variant::Float(_) => 10,
            Variant::Double(_) => 11,
            Variant::String(_) => 12,
            Variant::DateTime(_) => 13,
            Variant::Guid(_) => 14,
            Variant::ByteString(_) => 15,
            Variant::XmlElement(_) => 16,
            Variant::NodeId(_) => 17,
            Variant::ExpandedNodeId(_) => 18,
            Variant::StatusCode(_) => 19,
            Variant::QualifiedName(_) => 20,
            Variant::LocalizedText(_) => 21,
            Variant::ExtensionObject(_) => 22,
            Variant::Array(a) => {
                let id = a.values.element_type_id() + ARRAY_VALUES;
                if a.dimensions.is_some() {
                    id + ARRAY_DIMENSIONS
                } else {
                    id
                }
            },
        }
    }

    /// True for the variant without a value.
    pub fn is_empty(&self) -> (r: bool)
        ensures
            r == (self@ is Empty),
    {
        match self {
            Variant::Empty => true,
            _ => false,
        }
    }

    fn value_len(&self) -> (n: usize)
        requires
            wire_value(self@).len() <= usize::MAX,
        ensures
            n == wire_value(self@).len(),
    {
        match self {
            Variant::Empty => 0,
            Variant::Boolean(x) => x.byte_len(),
            Variant::SByte(x) => x.byte_len(),
            Variant::Byte(x) => x.byte_len(),
            Variant::Int16(x) => x.byte_len(),
            Variant::UInt16(x) => x.byte_len(),
            Variant::Int32(x) => x.byte_len(),
            Variant::UInt32(x) => x.byte_len(),
            Variant::Int64(x) => x.byte_len(),
            Variant::UInt64(x) => x.byte_len(),
            Variant::Float(x) => x.byte_len(),
            Variant::Double(x) => x.byte_len(),
            Variant::String(x) => x.byte_len(),
            Variant::DateTime(x) => x.byte_len(),
            Variant::Guid(x) => x.byte_len(),
            Variant::ByteString(x) => x.byte_len(),
            Variant::XmlElement(x) => x.byte_len(),
            Variant::NodeId(x) => x.byte_len(),
            Variant::ExpandedNodeId(x) => x.byte_len(),
            Variant::StatusCode(x) => x.byte_len(),
            Variant::QualifiedName(x) => x.byte_len(),
            Variant::LocalizedText(x) => x.byte_len(),
            Variant::ExtensionObject(x) => x.byte_len(),
            Variant::Array(a) => {
                let values = a.values.wire_len();
                if a.dimensions.is_some() {
                    values + byte_len_array(&a.dimensions)
                } else {
                    values
                }
            },
        }
    }

    fn write_value(&self, stream: &mut Vec<u8>)
        requires
            value_encodable(self@),
        ensures
            final(stream)@ == old(stream)@ + wire_value(self@),
    {
        match self {
            Variant::Empty => {
                assert(stream@ =~= old(stream)@ + wire_value(self@));
            },
            Variant::Boolean(x) => {
                let _ = x.encode(stream);
            },
            Variant::SByte(x) => {
                let _ = x.encode(stream);
            },
            Variant::Byte(x) => {
                let _ = x.encode(stream);
            },
            Variant::Int16(x) => {
                let _ = x.encode(stream);
            },
            Variant::UInt16(x) => {
                let _ = x.encode(stream);
            },
            Variant::Int32(x) => {
                let _ = x.encode(stream);
            },
            Variant::UInt32(x) => {
                let _ = x.encode(stream);
            },
            Variant::Int64(x) => {
                let _ = x.encode(stream);
            },
            Variant::UInt64(x) => {
                let _ = x.encode(stream);
            },
            Variant::Float(x) => {
                let _ = x.encode(stream);
            },
            Variant::Double(x) => {
                let _ = x.encode(stream);
            },
            Variant::String(x) => {
                let _ = x.encode(stream);
            },
            Variant::DateTime(x) => {
                let _ = x.encode(stream);
            },
            Variant::Guid(x) => {
                let _ = x.encode(stream);
            },
            Variant::ByteString(x) => {
                let _ = x.encode(stream);
            },
            Variant::XmlElement(x) => {
                let _ = x.encode(stream);
            },
            Variant::NodeId(x) => {
                let _ = x.encode(stream);
            },
            Variant::ExpandedNodeId(x) => {
                let _ = x.encode(stream);
            },
            Variant::StatusCode(x) => {
                let _ = x.encode(stream);
            },
            Variant::QualifiedName(x) => {
                let _ = x.encode(stream);
            },
            Variant::LocalizedText(x) => {
                let _ = x.encode(stream);
            },
            Variant::ExtensionObject(x) => {
                let _ = x.encode(stream);
            },
            Variant::Array(a) => {
                a.values.write(stream);
                if a.dimensions.is_some() {
                    let _ = write_array(stream, &a.dimensions);
                }
                assert(stream@ =~= old(stream)@ + wire_value(self@));
            },
        }
    }

    fn read_value(id: u8, stream: &[u8]) -> (r: EncodingResult<(Variant, usize)>)
        ensures
            match parse_value(id, stream@) {
                Ok((v, n)) => r matches Ok((x, m)) && x@ == v && m == n && m <= stream@.len(),
                Err(e) => r matches Err(f) && f == e,
            },
    {
        if id == 0 {
            Ok((Variant::Empty, 0))
        } else if id == 1 {
            let (x, n) = bool::decode(stream)?;
            Ok((Variant::Boolean(x), n))
        } else if id == 2 {
            let (x, n) = i8::decode(stream)?;
            Ok((Variant::SByte(x), n))
        } else if id == 3 {
            let (x, n) = u8::decode(stream)?;
            Ok((Variant::Byte(x), n))
        } else if id == 4 {
            let (x, n) = i16::decode(stream)?;
            Ok((Variant::Int16(x), n))
        } else if id == 5 {
            let (x, n) = u16::decode(stream)?;
            Ok((Variant::UInt16(x), n))
        } else if id == 6 {
            let (x, n) = i32::decode(stream)?;
            Ok((Variant::Int32(x), n))
        } else if id == 7 {
            let (x, n) = u32::decode(stream)?;
            Ok((Variant::UInt32(x), n))
        } else if id == 8 {
            let (x, n) = i64::decode(stream)?;
            Ok((Variant::Int64(x), n))
        } else if id == 9 {
            let (x, n) = u64::decode(stream)?;
            Ok((Variant::UInt64(x), n))
        } else if id == 10 {
            let (x, n) = u32::decode(stream)?;
            Ok((Variant::Float(x), n))
        } else if id == 11 {
            let (x, n) = u64::decode(stream)?;
            Ok((Variant::Double(x), n))
        } else if id == 12 {
            let (x, n) = UAString::decode(stream)?;
            Ok((Variant::String(x), n))
        } else if id == 13 {
            let (x, n) = DateTime::decode(stream)?;
            Ok((Variant::DateTime(x), n))
        } else if id == 14 {
            let (x, n) = Guid::decode(stream)?;
            Ok((Variant::Guid(x), n))
        } else if id == 15 {
            let (x, n) = ByteString::decode(stream)?;
            Ok((Variant::ByteString(x), n))
        } else if id == 16 {
            let (x, n) = UAString::decode(stream)?;
            Ok((Variant::XmlElement(x), n))
        } else if id == 17 {
            let (x, n) = NodeId::decode(stream)?;
            Ok((Variant::NodeId(x), n))
        } else if id == 18 {
            let (x, n) = ExpandedNodeId::decode(stream)?;
            Ok((Variant::ExpandedNodeId(x), n))
        } else if id == 19 {
            let (x, n) = StatusCode::decode(stream)?;
            Ok((Variant::StatusCode(x), n))
        } else if id == 20 {
            let (x, n) = QualifiedName::decode(stream)?;
            Ok((Variant::QualifiedName(x), n))
        } else if id == 21 {
            let (x, n) = LocalizedText::decode(stream)?;
            Ok((Variant::LocalizedText(x), n))
        } else if id == 22 {
            let (x, n) = ExtensionObject::decode(stream)?;
            Ok((Variant::ExtensionObject(x), n))
        } else {
            Err(BAD_DECODING_ERROR)
        }
    }

    fn read_array_value(tag: u8, stream: &[u8]) -> (r: EncodingResult<(Variant, usize)>)
        ensures
            match parse_array_value(tag, stream@) {
                Ok((v, n)) => r matches Ok((x, m)) && x@ == v && m == n && m <= stream@.len(),
                Err(e) => r matches Err(f) && f == e,
            },
    {
        let (values, n) = ArrayValues::read(tag % 64, stream)?;
        let (dimensions, m) = if (tag / 64) % 2 == 1 {
            read_array::<i32>(skip_bytes(stream, n))?
        } else {
            (None, 0)
        };
        Ok((Variant::Array(VariantArray { values, dimensions }), n + m))
    }
}

impl BinaryEncoder for Variant {
    /// The byte that names the type, then the value.
    open spec fn wire(v: VariantView) -> Seq<u8> {
        seq![type_id(v)] + wire_value(v)
    }

    /// A type byte below 128 names the type of a single value, one from
    /// 128 on the type of the elements of an array.
    open spec fn parse(s: Seq<u8>) -> Result<(VariantView, int), StatusCode> {
        if s.len() < 1 {
            Err(BAD_DECODING_ERROR)
        } else {
            match (if s[0] < 128 {
                parse_value(s[0], s.skip(1))
            } else {
                parse_array_value(s[0], s.skip(1))
            }) {
                Ok((v, n)) => Ok((v, 1 + n)),
                Err(e) => Err(e),
            }
        }
    }

    open spec fn encodable(v: VariantView) -> bool {
        value_encodable(v)
    }

    open spec fn canonical(v: VariantView) -> bool {
        value_canonical(v)
    }

    proof fn lemma_round_trip(v: VariantView, rest: Seq<u8>) {
        let s = Self::wire(v) + rest;
        assert(s.skip(1) =~= wire_value(v) + rest);
        match v {
            VariantView::Array(a) => {
                lemma_array_tag(a);
                lemma_parse_array_value(a, rest);
            },
            _ => {
                lemma_parse_value(v, rest);
            },
        }
    }

    proof fn lemma_parse_consumes(s: Seq<u8>) {
        if s.len() >= 1 {
            lemma_parse_value_consumes(s[0], s.skip(1));
            lemma_parse_array_value_consumes(s[0], s.skip(1));
        }
    }

    fn is_encodable(&self) -> (r: bool) {
        match self {
            Variant::Empty => true,
            Variant::Boolean(x) => x.is_encodable(),
            Variant::SByte(x) => x.is_encodable(),
            Variant::Byte(x) => x.is_encodable(),
            Variant::Int16(x) => x.is_encodable(),
            Variant::UInt16(x) => x.is_encodable(),
            Variant::Int32(x) => x.is_encodable(),
            Variant::UInt32(x) => x.is_encodable(),
            Variant::Int64(x) => x.is_encodable(),
            Variant::UInt64(x) => x.is_encodable(),
            Variant::Float(x) => x.is_encodable(),
            Variant::Double(x) => x.is_encodable(),
            Variant::String(x) => x.is_encodable(),
            Variant::DateTime(x) => x.is_encodable(),
            Variant::Guid(x) => x.is_encodable(),
            Variant::ByteString(x) => x.is_encodable(),
            Variant::XmlElement(x) => x.is_encodable(),
            Variant::NodeId(x) => x.is_encodable(),
            Variant::ExpandedNodeId(x) => x.is_encodable(),
            Variant::StatusCode(x) => x.is_encodable(),
            Variant::QualifiedName(x) => x.is_encodable(),
            Variant::LocalizedText(x) => x.is_encodable(),
            Variant::ExtensionObject(x) => x.is_encodable(),
            Variant::Array(a) => a.values.is_encodable() && is_encodable_array(&a.dimensions),
        }
    }

    fn byte_len(&self) -> (n: usize) {
        1 + self.value_len()
    }

    fn encode(&self, stream: &mut Vec<u8>) -> (r: EncodingResult<usize>) {
        if !self.is_encodable() {
            return Err(BAD_ENCODING_LIMITS_EXCEEDED);
        }
        let start = stream.len();
        let _ = write_u8(stream, self.type_id());
        self.write_value(stream);
        assert(stream@ =~= old(stream)@ + Self::wire(self@));
        Ok(stream.len() - start)
    }

    fn decode(stream: &[u8]) -> (r: EncodingResult<(Self, usize)>) {
        if stream.len() < 1 {
            return Err(BAD_DECODING_ERROR);
        }
        let tag = stream[0];
        let (value, n) = if tag < 128 {
            Variant::read_value(tag, skip_bytes(stream, 1))?
        } else {
            Variant::read_array_value(tag, skip_bytes(stream, 1))?
        };
        Ok((value, 1 + n))
    }
}

} // verus!
