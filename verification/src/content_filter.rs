//! Content filters and the results of checking them.

use vstd::prelude::*;
use crate::diagnostic_info::{DiagnosticInfo, DiagnosticInfoView};
use crate::encoding::{
    array_view, byte_len_array, canonical_array, encodable_array, is_encodable_array, lemma_field,
    lemma_parse_array_consumes, lemma_round_trip_array, lemma_three_parts, lemma_two_parts,
    parse_array, read_array, skip_bytes, wire_array, write_array, BinaryEncoder, EncodingResult,
};
use crate::extension_object::{ExtensionObject, ExtensionObjectView};
use crate::node_ids::{MessageInfo, ObjectId};
use crate::status_codes::{StatusCode, BAD_DECODING_ERROR, BAD_ENCODING_LIMITS_EXCEEDED};

verus! {

/// The operators of a content filter.
#[derive(Debug, Clone, Copy, PartialEq, Eq, Structural, Hash)]
pub enum FilterOperator {
    Equals,
    IsNull,
    GreaterThan,
    LessThan,
    GreaterThanOrEqual,
    LessThanOrEqual,
    Like,
    Not,
    Between,
    InList,
    And,
    Or,
    Cast,
    InView,
    OfType,
    RelatedTo,
    BitwiseAnd,
    BitwiseOr,
}

impl View for FilterOperator {
    type V = FilterOperator;

    open spec fn view(&self) -> FilterOperator {
        *self
    }
}

/// The number that stands for `op` in the wire form.
pub open spec fn operator_number(op: FilterOperator) -> i32 {
    match op {
        FilterOperator::Equals => 0,
        FilterOperator::IsNull => 1,
        FilterOperator::GreaterThan => 2,
        FilterOperator::LessThan => 3,
        FilterOperator::GreaterThanOrEqual => 4,
        FilterOperator::LessThanOrEqual => 5,
        FilterOperator::Like => 6,
        FilterOperator::Not => 7,
        FilterOperator::Between => 8,
        FilterOperator::InList => 9,
        FilterOperator::And => 10,
        FilterOperator::Or => 11,
        FilterOperator::Cast => 12,
        FilterOperator::InView => 13,
        FilterOperator::OfType => 14,
        FilterOperator::RelatedTo => 15,
        FilterOperator::BitwiseAnd => 16,
        FilterOperator::BitwiseOr => 17,
    }
}

/// The operator that the number `n` stands for.
pub open spec fn operator_of(n: i32) -> Option<FilterOperator> {
    if n == 0 {
        Some(FilterOperator::Equals)
    } else if n == 1 {
        Some(FilterOperator::IsNull)
    } else if n == 2 {
        Some(FilterOperator::GreaterThan)
    } else if n == 3 {
        Some(FilterOperator::LessThan)
    } else if n == 4 {
        Some(FilterOperator::GreaterThanOrEqual)
    } else if n == 5 {
        Some(FilterOperator::LessThanOrEqual)
    } else if n == 6 {
        Some(FilterOperator::Like)
    } else if n == 7 {
        Some(FilterOperator::Not)
    } else if n == 8 {
        Some(FilterOperator::Between)
    } else if n == 9 {
        Some(FilterOperator::InList)
    } else if n == 10 {
        Some(FilterOperator::And)
    } else if n == 11 {
        Some(FilterOperator::Or)
    } else if n == 12 {
        Some(FilterOperator::Cast)
    } else if n == 13 {
        Some(FilterOperator::InView)
    } else if n == 14 {
        Some(FilterOperator::OfType)
    } else if n == 15 {
        Some(FilterOperator::RelatedTo)
    } else if n == 16 {
        Some(FilterOperator::BitwiseAnd)
    } else if n == 17 {
        Some(FilterOperator::BitwiseOr)
    } else {
        None
    }
}

impl FilterOperator {
    /// The number that stands for the operator in the wire form.
    pub fn number(&self) -> (r: i32)
        ensures
            r == operator_number(*self),
            operator_of(r) == Some(*self),
    {
        match self {
            FilterOperator::Equals => 0,
            FilterOperator::IsNull => 1,
            FilterOperator::GreaterThan => 2,
            FilterOperator::LessThan => 3,
            FilterOperator::GreaterThanOrEqual => 4,
            FilterOperator::LessThanOrEqual => 5,
            FilterOperator::Like => 6,
            FilterOperator::Not => 7,
            FilterOperator::Between => 8,
            FilterOperator::InList => 9,
            FilterOperator::And => 10,
            FilterOperator::Or => 11,
            FilterOperator::Cast => 12,
            FilterOperator::InView => 13,
            FilterOperator::OfType => 14,
            FilterOperator::RelatedTo => 15,
            FilterOperator::BitwiseAnd => 16,
            FilterOperator::BitwiseOr => 17,
        }
    }

    /// The operator that `n` stands for, if there is one.
    pub fn from_number(n: i32) -> (r: Option<FilterOperator>)
        ensures
            r == operator_of(n),
    {
        if n == 0 {
            Some(FilterOperator::Equals)
        } else if n == 1 {
            Some(FilterOperator::IsNull)
        } else if n == 2 {
            Some(FilterOperator::GreaterThan)
        } else if n == 3 {
            Some(FilterOperator::LessThan)
        } else if n == 4 {
            Some(FilterOperator::GreaterThanOrEqual)
        } else if n == 5 {
            Some(FilterOperator::LessThanOrEqual)
        } else if n == 6 {
            Some(FilterOperator::Like)
        } else if n == 7 {
            Some(FilterOperator::Not)
        } else if n == 8 {
            Some(FilterOperator::Between)
        } else if n == 9 {
            Some(FilterOperator::InList)
        } else if n == 10 {
            Some(FilterOperator::And)
        } else if n == 11 {
            Some(FilterOperator::Or)
        } else if n == 12 {
            Some(FilterOperator::Cast)
        } else if n == 13 {
            Some(FilterOperator::InView)
        } else if n == 14 {
            Some(FilterOperator::OfType)
        } else if n == 15 {
            Some(FilterOperator::RelatedTo)
        } else if n == 16 {
            Some(FilterOperator::BitwiseAnd)
        } else if n == 17 {
            Some(FilterOperator::BitwiseOr)
        } else {
            None
        }
    }
}

impl BinaryEncoder for FilterOperator {
    /// The number of the operator as an integer of 32 bits.
    open spec fn wire(v: FilterOperator) -> Seq<u8> {
        i32::wire(operator_number(v))
    }

    open spec fn parse(s: Seq<u8>) -> Result<(FilterOperator, int), StatusCode> {
        match i32::parse(s) {
            Ok((n, k)) => match operator_of(n) {
                Some(op) => Ok((op, k)),
                None => Err(BAD_DECODING_ERROR),
            },
            Err(e) => Err(e),
        }
    }

    open spec fn encodable(v: FilterOperator) -> bool {
        true
    }

    open spec fn canonical(v: FilterOperator) -> bool {
        true
    }

    proof fn lemma_round_trip(v: FilterOperator, rest: Seq<u8>) {
        i32::lemma_round_trip(operator_number(v), rest);
    }

    proof fn lemma_parse_consumes(s: Seq<u8>) {
    }

    fn is_encodable(&self) -> (r: bool) {
        true
    }

    fn byte_len(&self) -> (n: usize) {
        4
    }

    fn encode(&self, stream: &mut Vec<u8>) -> (r: EncodingResult<usize>) {
        self.number().encode(stream)
    }

    fn decode(stream: &[u8]) -> (r: EncodingResult<(Self, usize)>) {
        let (n, k) = i32::decode(stream)?;
        match FilterOperator::from_number(n) {
            Some(op) => Ok((op, k)),
            None => Err(BAD_DECODING_ERROR),
        }
    }
}

/// One element of a content filter: an operator and its operands.
#[derive(Debug, PartialEq, Eq, Clone)]
pub struct ContentFilterElement {
    pub filter_operator: FilterOperator,
    pub filter_operands: Option<Vec<ExtensionObject>>,
}

/// What a `ContentFilterElement` stands for.
pub struct ContentFilterElementView {
    pub filter_operator: FilterOperator,
    pub filter_operands: Option<Seq<ExtensionObjectView>>,
}

impl View for ContentFilterElement {
    type V = ContentFilterElementView;

    open spec fn view(&self) -> ContentFilterElementView {
        ContentFilterElementView {
            filter_operator: self.filter_operator,
            filter_operands: array_view(self.filter_operands),
        }
    }
}

impl MessageInfo for ContentFilterElement {
    open spec fn encoding_object() -> ObjectId {
        ObjectId::ContentFilterElement_Encoding_DefaultBinary
    }

    fn object_id(&self) -> (r: ObjectId) {
        ObjectId::ContentFilterElement_Encoding_DefaultBinary
    }
}

impl BinaryEncoder for ContentFilterElement {
    open spec fn wire(v: ContentFilterElementView) -> Seq<u8> {
        FilterOperator::wire(v.filter_operator) + wire_array::<ExtensionObject>(v.filter_operands)
    }

    open spec fn parse(s: Seq<u8>) -> Result<(ContentFilterElementView, int), StatusCode> {
        match FilterOperator::parse(s) {
            Ok((filter_operator, n)) => match parse_array::<ExtensionObject>(s.skip(n)) {
                Ok((filter_operands, m)) => Ok(
                    (ContentFilterElementView { filter_operator, filter_operands }, n + m),
                ),
                Err(e) => Err(e),
            },
            Err(e) => Err(e),
        }
    }

    open spec fn encodable(v: ContentFilterElementView) -> bool {
        encodable_array::<ExtensionObject>(v.filter_operands)
    }

    open spec fn canonical(v: ContentFilterElementView) -> bool {
        canonical_array::<ExtensionObject>(v.filter_operands)
    }

    proof fn lemma_round_trip(v: ContentFilterElementView, rest: Seq<u8>) {
        let a = FilterOperator::wire(v.filter_operator);
        let b = wire_array::<ExtensionObject>(v.filter_operands);
        lemma_two_parts(a, b, rest);
        lemma_field::<FilterOperator>(v.filter_operator, b + rest);
        lemma_round_trip_array::<ExtensionObject>(v.filter_operands, rest);
    }

    proof fn lemma_parse_consumes(s: Seq<u8>) {
        if let Ok((_, n)) = FilterOperator::parse(s) {
            lemma_parse_array_consumes::<ExtensionObject>(s.skip(n));
        }
    }

    fn is_encodable(&self) -> (r: bool) {
        is_encodable_array(&self.filter_operands)
    }

    fn byte_len(&self) -> (n: usize) {
        let mut size: usize = 0;
        size = size + self.filter_operator.byte_len();
        size = size + byte_len_array(&self.filter_operands);
        size
    }

    fn encode(&self, stream: &mut Vec<u8>) -> (r: EncodingResult<usize>) {
        if !self.is_encodable() {
            return Err(BAD_ENCODING_LIMITS_EXCEEDED);
        }
        let start = stream.len();
        let _ = self.filter_operator.encode(stream);
        let _ = write_array(stream, &self.filter_operands);
        assert(stream@ =~= old(stream)@ + Self::wire(self@));
        Ok(stream.len() - start)
    }

    fn decode(stream: &[u8]) -> (r: EncodingResult<(Self, usize)>) {
        let (filter_operator, n) = FilterOperator::decode(stream)?;
        let (filter_operands, m) = read_array::<ExtensionObject>(skip_bytes(stream, n))?;
        Ok((ContentFilterElement { filter_operator, filter_operands }, n + m))
    }
}

/// The result of checking one element of a content filter.
#[derive(Debug, PartialEq, Eq, Clone)]
pub struct ContentFilterElementResult {
    pub status_code: StatusCode,
    pub operand_status_codes: Option<Vec<StatusCode>>,
    pub operand_diagnostic_infos: Option<Vec<DiagnosticInfo>>,
}

/// What a `ContentFilterElementResult` stands for.
pub struct ContentFilterElementResultView {
    pub status_code: StatusCode,
    pub operand_status_codes: Option<Seq<StatusCode>>,
    pub operand_diagnostic_infos: Option<Seq<DiagnosticInfoView>>,
}

impl View for ContentFilterElementResult {
    type V = ContentFilterElementResultView;

    open spec fn view(&self) -> ContentFilterElementResultView {
        ContentFilterElementResultView {
            status_code: self.status_code,
            operand_status_codes: array_view(self.operand_status_codes),
            operand_diagnostic_infos: array_view(self.operand_diagnostic_infos),
        }
    }
}

impl BinaryEncoder for ContentFilterElementResult {
    open spec fn wire(v: ContentFilterElementResultView) -> Seq<u8> {
        StatusCode::wire(v.status_code) + wire_array::<StatusCode>(v.operand_status_codes)
            + wire_array::<DiagnosticInfo>(v.operand_diagnostic_infos)
    }

    open spec fn parse(s: Seq<u8>) -> Result<(ContentFilterElementResultView, int), StatusCode> {
        match StatusCode::parse(s) {
            Ok((status_code, n1)) => match parse_array::<StatusCode>(s.skip(n1)) {
                Ok((operand_status_codes, n2)) => match parse_array::<DiagnosticInfo>(
                    s.skip(n1 + n2),
                ) {
                    Ok((operand_diagnostic_infos, n3)) => Ok(
                        (
                            ContentFilterElementResultView {
                                status_code,
                                operand_status_codes,
                                operand_diagnostic_infos,
                            },
                            n1 + n2 + n3,
                        ),
                    ),
                    Err(e) => Err(e),
                },
                Err(e) => Err(e),
            },
            Err(e) => Err(e),
        }
    }

    open spec fn encodable(v: ContentFilterElementResultView) -> bool {
        encodable_array::<StatusCode>(v.operand_status_codes) && encodable_array::<DiagnosticInfo>(
            v.operand_diagnostic_infos,
        )
    }

    open spec fn canonical(v: ContentFilterElementResultView) -> bool {
        canonical_array::<StatusCode>(v.operand_status_codes) && canonical_array::<DiagnosticInfo>(
            v.operand_diagnostic_infos,
        )
    }

    proof fn lemma_round_trip(v: ContentFilterElementResultView, rest: Seq<u8>) {
        let a = StatusCode::wire(v.status_code);
        let b = wire_array::<StatusCode>(v.operand_status_codes);
        let c = wire_array::<DiagnosticInfo>(v.operand_diagnostic_infos);
        lemma_three_parts(a, b, c, rest);
        lemma_field::<StatusCode>(v.status_code, b + (c + rest));
        lemma_round_trip_array::<StatusCode>(v.operand_status_codes, c + rest);
        lemma_round_trip_array::<DiagnosticInfo>(v.operand_diagnostic_infos, rest);
    }

    proof fn lemma_parse_consumes(s: Seq<u8>) {
        if let Ok((_, n1)) = StatusCode::parse(s) {
            lemma_parse_array_consumes::<StatusCode>(s.skip(n1));
            if let Ok((_, n2)) = parse_array::<StatusCode>(s.skip(n1)) {
                lemma_parse_array_consumes::<DiagnosticInfo>(s.skip(n1 + n2));
            }
        }
    }

    fn is_encodable(&self) -> (r: bool) {
        is_encodable_array(&self.operand_status_codes) && is_encodable_array(
            &self.operand_diagnostic_infos,
        )
    }

    fn byte_len(&self) -> (n: usize) {
        let mut size: usize = 0;
        size = size + self.status_code.byte_len();
        size = size + byte_len_array(&self.operand_status_codes);
        size = size + byte_len_array(&self.operand_diagnostic_infos);
        size
    }

    fn encode(&self, stream: &mut Vec<u8>) -> (r: EncodingResult<usize>) {
        if !self.is_encodable() {
            return Err(BAD_ENCODING_LIMITS_EXCEEDED);
        }
        let start = stream.len();
        let _ = self.status_code.encode(stream);
        let _ = write_array(stream, &self.operand_status_codes);
        let _ = write_array(stream, &self.operand_diagnostic_infos);
        assert(stream@ =~= old(stream)@ + Self::wire(self@));
        Ok(stream.len() - start)
    }

    fn decode(stream: &[u8]) -> (r: EncodingResult<(Self, usize)>) {
        let (status_code, n1) = StatusCode::decode(stream)?;
        let (operand_status_codes, n2) = read_array::<StatusCode>(skip_bytes(stream, n1))?;
        let (operand_diagnostic_infos, n3) = read_array::<DiagnosticInfo>(
            skip_bytes(stream, n1 + n2),
        )?;
        Ok(
            (
                ContentFilterElementResult {
                    status_code,
                    operand_status_codes,
                    operand_diagnostic_infos,
                },
                n1 + n2 + n3,
            ),
        )
    }
}

/// The result of checking a content filter, element by element.
#[derive(Debug, PartialEq, Eq, Clone)]
pub struct ContentFilterResult {
    pub element_results: Option<Vec<ContentFilterElementResult>>,
    pub element_diagnostic_infos: Option<Vec<DiagnosticInfo>>,
}

/// What a `ContentFilterResult` stands for.
pub struct ContentFilterResultView {
    pub element_results: Option<Seq<ContentFilterElementResultView>>,
    pub element_diagnostic_infos: Option<Seq<DiagnosticInfoView>>,
}

impl View for ContentFilterResult {
    type V = ContentFilterResultView;

    open spec fn view(&self) -> ContentFilterResultView {
        ContentFilterResultView {
            element_results: array_view(self.element_results),
            element_diagnostic_infos: array_view(self.element_diagnostic_infos),
        }
    }
}

impl MessageInfo for ContentFilterResult {
    open spec fn encoding_object() -> ObjectId {
        ObjectId::ContentFilterResult_Encoding_DefaultBinary
    }

    fn object_id(&self) -> (r: ObjectId) {
        ObjectId::ContentFilterResult_Encoding_DefaultBinary
    }
}

impl BinaryEncoder for ContentFilterResult {
    open spec fn wire(v: ContentFilterResultView) -> Seq<u8> {
        wire_array::<ContentFilterElementResult>(v.element_results) + wire_array::<DiagnosticInfo>(
            v.element_diagnostic_infos,
        )
    }

    open spec fn parse(s: Seq<u8>) -> Result<(ContentFilterResultView, int), StatusCode> {
        match parse_array::<ContentFilterElementResult>(s) {
            Ok((element_results, n)) => match parse_array::<DiagnosticInfo>(s.skip(n)) {
                Ok((element_diagnostic_infos, m)) => Ok(
                    (ContentFilterResultView { element_results, element_diagnostic_infos }, n + m),
                ),
                Err(e) => Err(e),
            },
            Err(e) => Err(e),
        }
    }

    open spec fn encodable(v: ContentFilterResultView) -> bool {
        encodable_array::<ContentFilterElementResult>(v.element_results) && encodable_array::<
            DiagnosticInfo,
        >(v.element_diagnostic_infos)
    }

    open spec fn canonical(v: ContentFilterResultView) -> bool {
        canonical_array::<ContentFilterElementResult>(v.element_results) && canonical_array::<
            DiagnosticInfo,
        >(v.element_diagnostic_infos)
    }

    proof fn lemma_round_trip(v: ContentFilterResultView, rest: Seq<u8>) {
        let a = wire_array::<ContentFilterElementResult>(v.element_results);
        let b = wire_array::<DiagnosticInfo>(v.element_diagnostic_infos);
        lemma_two_parts(a, b, rest);
        lemma_round_trip_array::<ContentFilterElementResult>(v.element_results, b + rest);
        lemma_round_trip_array::<DiagnosticInfo>(v.element_diagnostic_infos, rest);
    }

    proof fn lemma_parse_consumes(s: Seq<u8>) {
        lemma_parse_array_consumes::<ContentFilterElementResult>(s);
        if let Ok((_, n)) = parse_array::<ContentFilterElementResult>(s) {
            lemma_parse_array_consumes::<DiagnosticInfo>(s.skip(n));
        }
    }

    fn is_encodable(&self) -> (r: bool) {
        is_encodable_array(&self.element_results) && is_encodable_array(
            &self.element_diagnostic_infos,
        )
    }

    fn byte_len(&self) -> (n: usize) {
        let mut size: usize = 0;
        size = size + byte_len_array(&self.element_results);
        size = size + byte_len_array(&self.element_diagnostic_infos);
        size
    }

    fn encode(&self, stream: &mut Vec<u8>) -> (r: EncodingResult<usize>) {
        if !self.is_encodable() {
            return Err(BAD_ENCODING_LIMITS_EXCEEDED);
        }
        let start = stream.len();
        let _ = write_array(stream, &self.element_results);
        let _ = write_array(stream, &self.element_diagnostic_infos);
        assert(stream@ =~= old(stream)@ + Self::wire(self@));
        Ok(stream.len() - start)
    }

    fn decode(stream: &[u8]) -> (r: EncodingResult<(Self, usize)>) {
        let (element_results, n) = read_array::<ContentFilterElementResult>(stream)?;
        let (element_diagnostic_infos, m) = read_array::<DiagnosticInfo>(skip_bytes(stream, n))?;
        Ok((ContentFilterResult { element_results, element_diagnostic_infos }, n + m))
    }
}

} // verus!
