//! Names qualified by a namespace.

use vstd::prelude::*;
use vstd::std_specs::cmp::PartialEqSpecImpl;
use crate::encoding::{
    lemma_field, lemma_two_parts, skip_bytes, BinaryEncoder, EncodingResult,
};
use crate::status_codes::{StatusCode, BAD_ENCODING_LIMITS_EXCEEDED};
use crate::string::UAString;

verus! {

/// A name qualified by a namespace.
#[derive(Debug, Eq, Hash)]
pub struct QualifiedName {
    /// The namespace index.
    pub namespace_index: u16,
    /// The name.
    pub name: UAString,
}

/// What a `QualifiedName` stands for.
pub struct QualifiedNameView {
    pub namespace_index: u16,
    pub name: Option<Seq<char>>,
}

impl View for QualifiedName {
    type V = QualifiedNameView;

    open spec fn view(&self) -> QualifiedNameView {
        QualifiedNameView { namespace_index: self.namespace_index, name: self.name@ }
    }
}

impl Clone for QualifiedName {
    fn clone(&self) -> (r: Self)
        ensures
            r@ == self@,
    {
        QualifiedName { namespace_index: self.namespace_index, name: self.name.clone() }
    }
}

impl PartialEq for QualifiedName {
    fn eq(&self, other: &Self) -> (r: bool) {
        self.namespace_index == other.namespace_index && self.name == other.name
    }
}

impl PartialEqSpecImpl for QualifiedName {
    open spec fn obeys_eq_spec() -> bool {
        true
    }

    open spec fn eq_spec(&self, other: &Self) -> bool {
        self@ == other@
    }
}

/// The null name: namespace 0 and the null string.
pub open spec fn null_name() -> QualifiedNameView {
    QualifiedNameView { namespace_index: 0, name: None }
}

impl BinaryEncoder for QualifiedName {
    /// The namespace index, then the name.
    open spec fn wire(v: QualifiedNameView) -> Seq<u8> {
        u16::wire(v.namespace_index) + UAString::wire(v.name)
    }

    open spec fn parse(s: Seq<u8>) -> Result<(QualifiedNameView, int), StatusCode> {
        match u16::parse(s) {
            Ok((namespace_index, n)) => match UAString::parse(s.skip(n)) {
                Ok((name, m)) => Ok((QualifiedNameView { namespace_index, name }, n + m)),
                Err(e) => Err(e),
            },
            Err(e) => Err(e),
        }
    }

    open spec fn encodable(v: QualifiedNameView) -> bool {
        UAString::encodable(v.name)
    }

    open spec fn canonical(v: QualifiedNameView) -> bool {
        UAString::canonical(v.name)
    }

    proof fn lemma_round_trip(v: QualifiedNameView, rest: Seq<u8>) {
        lemma_two_parts(u16::wire(v.namespace_index), UAString::wire(v.name), rest);
        lemma_field::<u16>(v.namespace_index, UAString::wire(v.name) + rest);
        lemma_field::<UAString>(v.name, rest);
    }

    proof fn lemma_parse_consumes(s: Seq<u8>) {
        if s.len() >= 2 {
            UAString::lemma_parse_consumes(s.skip(2));
        }
    }

    fn is_encodable(&self) -> (r: bool) {
        self.name.is_encodable()
    }

    fn byte_len(&self) -> (n: usize) {
        2 + self.name.byte_len()
    }

    fn encode(&self, stream: &mut Vec<u8>) -> (r: EncodingResult<usize>) {
        if !self.is_encodable() {
            return Err(BAD_ENCODING_LIMITS_EXCEEDED);
        }
        let start = stream.len();
        let _ = self.namespace_index.encode(stream);
        let _ = self.name.encode(stream);
        assert(stream@ =~= old(stream)@ + Self::wire(self@));
        Ok(stream.len() - start)
    }

    fn decode(stream: &[u8]) -> (r: EncodingResult<(Self, usize)>) {
        let (namespace_index, n) = u16::decode(stream)?;
        let (name, m) = UAString::decode(skip_bytes(stream, n))?;
        Ok((QualifiedName { namespace_index, name }, n + m))
    }
}

impl QualifiedName {
    /// The name `name` in the namespace `namespace_index`.
    pub fn new(namespace_index: u16, name: &str) -> (r: QualifiedName)
        ensures
            r@ == (QualifiedNameView { namespace_index, name: Some(name@) }),
    {
        QualifiedName { namespace_index, name: UAString::from_str(name) }
    }

    /// The null name.
    pub fn null() -> (r: QualifiedName)
        ensures
            r@ == null_name(),
    {
        QualifiedName { namespace_index: 0, name: UAString::null() }
    }

    /// True for the null name.
    pub fn is_null(&self) -> (r: bool)
        ensures
            r == (self@ == null_name()),
    {
        self.namespace_index == 0 && self.name.is_null()
    }
}

} // verus!
