//! Diagnostic information: optional details of a status code, which can
//! nest.

use vstd::prelude::*;
use vstd::std_specs::cmp::PartialEqSpecImpl;
use crate::constants::MAX_DIAGNOSTIC_DEPTH;
use crate::encoding::{
    byte_len_opt, canonical_opt, decode_opt, encodable_opt, encode_opt, flag_if, flag_is_set,
    has_flag, is_encodable_opt, lemma_parse_opt_consumes, lemma_round_trip_opt, lemma_skip_skip,
    opt_view, parse_opt, skip_bytes, wire_opt, write_u8, BinaryEncoder, EncodingResult,
};
use crate::status_codes::{StatusCode, BAD_DECODING_ERROR, BAD_ENCODING_LIMITS_EXCEEDED};
use crate::string::UAString;

verus! {

pub const HAS_SYMBOLIC_ID: u8 = 0x01;

pub const HAS_NAMESPACE: u8 = 0x02;

pub const HAS_LOCALIZED_TEXT: u8 = 0x04;

pub const HAS_LOCALE: u8 = 0x08;

pub const HAS_ADDITIONAL_INFO: u8 = 0x10;

pub const HAS_INNER_STATUS_CODE: u8 = 0x20;

pub const HAS_INNER_DIAGNOSTIC_INFO: u8 = 0x40;

/// Details of a status code. Every field is optional; the indexes point
/// into a string table that travels with the response.
#[derive(Debug, Eq)]
pub struct DiagnosticInfo {
    /// A symbolic name for the status code.
    pub symbolic_id: Option<i32>,
    /// A namespace that qualifies the symbolic id.
    pub namespace_uri: Option<i32>,
    /// The locale used for the localized text.
    pub locale: Option<i32>,
    /// A human readable summary of the status code.
    pub localized_text: Option<i32>,
    /// Detailed application specific diagnostic information.
    pub additional_info: Option<UAString>,
    /// A status code provided by an underlying system.
    pub inner_status_code: Option<StatusCode>,
    /// Diagnostic info associated with the inner status code.
    pub inner_diagnostic_info: Option<Box<DiagnosticInfo>>,
}

/// What a `DiagnosticInfo` stands for.
pub struct DiagnosticInfoView {
    pub symbolic_id: Option<i32>,
    pub namespace_uri: Option<i32>,
    pub locale: Option<i32>,
    pub localized_text: Option<i32>,
    pub additional_info: Option<Option<Seq<char>>>,
    pub inner_status_code: Option<StatusCode>,
    pub inner_diagnostic_info: Option<Box<DiagnosticInfoView>>,
}

impl View for DiagnosticInfo {
    type V = DiagnosticInfoView;

    open spec fn view(&self) -> DiagnosticInfoView
        decreases self,
    {
        DiagnosticInfoView {
            symbolic_id: self.symbolic_id,
            namespace_uri: self.namespace_uri,
            locale: self.locale,
            localized_text: self.localized_text,
            additional_info: opt_view(self.additional_info),
            inner_status_code: self.inner_status_code,
            inner_diagnostic_info: match self.inner_diagnostic_info {
                Some(inner) => Some(Box::new((*inner).view())),
                None => None,
            },
        }
    }
}

impl Clone for DiagnosticInfo {
    fn clone(&self) -> (r: Self)
        ensures
            r@ == self@,
    {
        self.duplicate()
    }
}

impl PartialEq for DiagnosticInfo {
    fn eq(&self, other: &Self) -> (r: bool) {
        self.same_as(other)
    }
}

impl PartialEqSpecImpl for DiagnosticInfo {
    open spec fn obeys_eq_spec() -> bool {
        true
    }

    open spec fn eq_spec(&self, other: &Self) -> bool {
        self@ == other@
    }
}

/// The presence mask of `v`: one bit for each field that is there.
pub open spec fn diagnostic_mask(v: DiagnosticInfoView) -> u8 {
    (flag_if(v.symbolic_id is Some, HAS_SYMBOLIC_ID) + flag_if(
        v.namespace_uri is Some,
        HAS_NAMESPACE,
    ) + flag_if(v.localized_text is Some, HAS_LOCALIZED_TEXT) + flag_if(
        v.locale is Some,
        HAS_LOCALE,
    ) + flag_if(v.additional_info is Some, HAS_ADDITIONAL_INFO) + flag_if(
        v.inner_status_code is Some,
        HAS_INNER_STATUS_CODE,
    ) + flag_if(v.inner_diagnostic_info is Some, HAS_INNER_DIAGNOSTIC_INFO)) as u8
}

/// How many diagnostic infos are nested inside `v`.
pub open spec fn nesting(v: DiagnosticInfoView) -> nat
    decreases v,
{
    match v.inner_diagnostic_info {
        Some(inner) => 1 + nesting(*inner),
        None => 0,
    }
}

/// The fields of `v` that stand before the inner diagnostic info, in the
/// order of the wire form.
pub open spec fn wire_details(v: DiagnosticInfoView, rest: Seq<u8>) -> Seq<u8> {
    wire_opt::<i32>(v.symbolic_id) + (wire_opt::<i32>(v.namespace_uri) + (wire_opt::<i32>(
        v.locale,
    ) + (wire_opt::<i32>(v.localized_text) + (wire_opt::<UAString>(v.additional_info) + (
    wire_opt::<StatusCode>(v.inner_status_code) + rest)))))
}

/// The wire form: the presence mask, then the fields that are there.
pub open spec fn diagnostic_wire(v: DiagnosticInfoView) -> Seq<u8>
    decreases v,
{
    seq![diagnostic_mask(v)] + wire_details(
        v,
        match v.inner_diagnostic_info {
            Some(inner) => diagnostic_wire(*inner),
            None => Seq::empty(),
        },
    )
}

/// The fields before the inner diagnostic info, as the presence mask
/// `mask` announces them at the front of `s`. The result has no inner
/// diagnostic info.
pub open spec fn parse_details(mask: u8, s: Seq<u8>) -> Result<(DiagnosticInfoView, int), StatusCode> {
    match parse_opt::<i32>(has_flag(mask, HAS_SYMBOLIC_ID), s) {
        Ok((symbolic_id, n1)) => match parse_opt::<i32>(has_flag(mask, HAS_NAMESPACE), s.skip(n1)) {
            Ok((namespace_uri, n2)) => match parse_opt::<i32>(
                has_flag(mask, HAS_LOCALE),
                s.skip(n1 + n2),
            ) {
                Ok((locale, n3)) => match parse_opt::<i32>(
                    has_flag(mask, HAS_LOCALIZED_TEXT),
                    s.skip(n1 + n2 + n3),
                ) {
                    Ok((localized_text, n4)) => match parse_opt::<UAString>(
                        has_flag(mask, HAS_ADDITIONAL_INFO),
                        s.skip(n1 + n2 + n3 + n4),
                    ) {
                        Ok((additional_info, n5)) => match parse_opt::<StatusCode>(
                            has_flag(mask, HAS_INNER_STATUS_CODE),
                            s.skip(n1 + n2 + n3 + n4 + n5),
                        ) {
                            Ok((inner_status_code, n6)) => Ok(
                                (
                                    DiagnosticInfoView {
                                        symbolic_id,
                                        namespace_uri,
                                        locale,
                                        localized_text,
                                        additional_info,
                                        inner_status_code,
                                        inner_diagnostic_info: None,
                                    },
                                    n1 + n2 + n3 + n4 + n5 + n6,
                                ),
                            ),
                            Err(e) => Err(e),
                        },
                        Err(e) => Err(e),
                    },
                    Err(e) => Err(e),
                },
                Err(e) => Err(e),
            },
            Err(e) => Err(e),
        },
        Err(e) => Err(e),
    }
}

/// The diagnostic info at the front of `s`, with at most `depth` infos
/// nested inside it. Deeper nesting is a decoding error.
pub open spec fn diagnostic_parse(s: Seq<u8>, depth: nat) -> Result<(DiagnosticInfoView, int), StatusCode>
    decreases depth,
{
    if s.len() < 1 {
        Err(BAD_DECODING_ERROR)
    } else {
        match parse_details(s[0], s.skip(1)) {
            Ok((details, n)) => if has_flag(s[0], HAS_INNER_DIAGNOSTIC_INFO) {
                if depth == 0 {
                    Err(BAD_DECODING_ERROR)
                } else {
                    match diagnostic_parse(s.skip(1 + n), (depth - 1) as nat) {
                        Ok((inner, m)) => Ok(
                            (
                                DiagnosticInfoView {
                                    inner_diagnostic_info: Some(Box::new(inner)),
                                    ..details
                                },
                                1 + n + m,
                            ),
                        ),
                        Err(e) => Err(e),
                    }
                }
            } else {
                Ok((details, 1 + n))
            },
            Err(e) => Err(e),
        }
    }
}

/// True when the additional info of `v` and of every info nested in it
/// fits its length prefix.
pub open spec fn diagnostic_encodable(v: DiagnosticInfoView) -> bool
    decreases v,
{
    &&& encodable_opt::<UAString>(v.additional_info)
    &&& match v.inner_diagnostic_info {
        Some(inner) => diagnostic_encodable(*inner),
        None => true,
    }
}

/// True when the additional info of `v` and of every info nested in it is
/// within the limits of the decoder.
pub open spec fn details_canonical(v: DiagnosticInfoView) -> bool
    decreases v,
{
    &&& canonical_opt::<UAString>(v.additional_info)
    &&& match v.inner_diagnostic_info {
        Some(inner) => details_canonical(*inner),
        None => true,
    }
}

proof fn lemma_mask_flags(v: DiagnosticInfoView)
    ensures
        has_flag(diagnostic_mask(v), HAS_SYMBOLIC_ID) == (v.symbolic_id is Some),
        has_flag(diagnostic_mask(v), HAS_NAMESPACE) == (v.namespace_uri is Some),
        has_flag(diagnostic_mask(v), HAS_LOCALIZED_TEXT) == (v.localized_text is Some),
        has_flag(diagnostic_mask(v), HAS_LOCALE) == (v.locale is Some),
        has_flag(diagnostic_mask(v), HAS_ADDITIONAL_INFO) == (v.additional_info is Some),
        has_flag(diagnostic_mask(v), HAS_INNER_STATUS_CODE) == (v.inner_status_code is Some),
        has_flag(diagnostic_mask(v), HAS_INNER_DIAGNOSTIC_INFO) == (v.inner_diagnostic_info
            is Some),
{
}

/// The fields before the inner diagnostic info come back from their wire
/// form.
proof fn lemma_parse_details(v: DiagnosticInfoView, rest: Seq<u8>)
    requires
        canonical_opt::<UAString>(v.additional_info),
    ensures
        parse_details(diagnostic_mask(v), wire_details(v, rest)) == Ok::<
            (DiagnosticInfoView, int),
            StatusCode,
        >(
            (
                DiagnosticInfoView { inner_diagnostic_info: None, ..v },
                wire_details(v, rest).len() - rest.len(),
            ),
        ),
        wire_details(v, rest).skip(wire_details(v, rest).len() - rest.len()) == rest,
{
    lemma_mask_flags(v);
    let s = wire_details(v, rest);
    let f6 = wire_opt::<StatusCode>(v.inner_status_code);
    let f5 = wire_opt::<UAString>(v.additional_info);
    let f4 = wire_opt::<i32>(v.localized_text);
    let f3 = wire_opt::<i32>(v.locale);
    let f2 = wire_opt::<i32>(v.namespace_uri);
    let f1 = wire_opt::<i32>(v.symbolic_id);
    let a6 = rest;
    let a5 = f6 + a6;
    let a4 = f5 + a5;
    let a3 = f4 + a4;
    let a2 = f3 + a3;
    let a1 = f2 + a2;
    let n1 = f1.len() as int;
    let n2 = f2.len() as int;
    let n3 = f3.len() as int;
    let n4 = f4.len() as int;
    let n5 = f5.len() as int;
    let n6 = f6.len() as int;
    lemma_round_trip_opt::<i32>(v.symbolic_id, a1);
    lemma_round_trip_opt::<i32>(v.namespace_uri, a2);
    lemma_round_trip_opt::<i32>(v.locale, a3);
    lemma_round_trip_opt::<i32>(v.localized_text, a4);
    lemma_round_trip_opt::<UAString>(v.additional_info, a5);
    lemma_round_trip_opt::<StatusCode>(v.inner_status_code, a6);
    assert(s.skip(n1) == a1);
    assert(s.skip(n1 + n2) == a2) by {
        lemma_skip_skip(s, n1, n2);
    }
    assert(s.skip(n1 + n2 + n3) == a3) by {
        lemma_skip_skip(s, n1 + n2, n3);
    }
    assert(s.skip(n1 + n2 + n3 + n4) == a4) by {
        lemma_skip_skip(s, n1 + n2 + n3, n4);
    }
    assert(s.skip(n1 + n2 + n3 + n4 + n5) == a5) by {
        lemma_skip_skip(s, n1 + n2 + n3 + n4, n5);
    }
    assert(s.skip(n1 + n2 + n3 + n4 + n5 + n6) == a6) by {
        lemma_skip_skip(s, n1 + n2 + n3 + n4 + n5, n6);
    }
}

proof fn lemma_details_rest(v: DiagnosticInfoView, a: Seq<u8>, b: Seq<u8>)
    ensures
        wire_details(v, a) + b == wire_details(v, a + b),
        wire_details(v, a).len() >= a.len(),
{
    assert(wire_details(v, a) + b =~= wire_details(v, a + b));
}

proof fn lemma_behind_mask(mask: u8, details: Seq<u8>, n: int, after: Seq<u8>)
    requires
        0 <= n <= details.len(),
        details.skip(n) == after,
    ensures
        ({
            let s = seq![mask] + details;
            &&& s.len() >= 1
            &&& s[0] == mask
            &&& s.skip(1) == details
            &&& s.skip(1 + n) == after
        }),
{
    let s = seq![mask] + details;
    assert(s.skip(1) =~= details);
    assert(s.skip(1 + n) =~= details.skip(n));
}

/// A diagnostic info comes back from its wire form when it nests no
/// deeper than the reader follows.
pub proof fn lemma_diagnostic_round_trip(v: DiagnosticInfoView, depth: nat, rest: Seq<u8>)
    requires
        details_canonical(v),
        nesting(v) <= depth,
    ensures
        diagnostic_encodable(v),
        diagnostic_parse(diagnostic_wire(v) + rest, depth) == Ok::<
            (DiagnosticInfoView, int),
            StatusCode,
        >((v, diagnostic_wire(v).len() as int)),
    decreases v,
{
    let inner_wire = match v.inner_diagnostic_info {
        Some(inner) => diagnostic_wire(*inner),
        None => Seq::empty(),
    };
    let mask = diagnostic_mask(v);
    let s = diagnostic_wire(v) + rest;
    let details = wire_details(v, inner_wire + rest);
    let n = details.len() - (inner_wire + rest).len();
    let plain = DiagnosticInfoView { inner_diagnostic_info: None, ..v };
    assert(s == seq![mask] + details) by {
        lemma_details_rest(v, inner_wire, rest);
        assert(s =~= seq![mask] + (wire_details(v, inner_wire) + rest));
    }
    lemma_parse_details(v, inner_wire + rest);
    lemma_behind_mask(mask, details, n, inner_wire + rest);
    lemma_mask_flags(v);
    assert(parse_details(s[0], s.skip(1)) == Ok::<(DiagnosticInfoView, int), StatusCode>(
        (plain, n),
    ));
    assert(diagnostic_wire(v).len() == 1 + n + inner_wire.len());
    assert(encodable_opt::<UAString>(v.additional_info)) by {
        lemma_round_trip_opt::<UAString>(v.additional_info, Seq::empty());
    }
    match v.inner_diagnostic_info {
        Some(inner) => {
            lemma_diagnostic_round_trip(*inner, (depth - 1) as nat, rest);
            assert(diagnostic_parse(s.skip(1 + n), (depth - 1) as nat) == Ok::<
                (DiagnosticInfoView, int),
                StatusCode,
            >((*inner, inner_wire.len() as int)));
            assert(v == DiagnosticInfoView {
                inner_diagnostic_info: Some(Box::new(*inner)),
                ..plain
            });
        },
        None => {
            assert(v == plain);
        },
    }
}

pub proof fn lemma_parse_details_consumes(mask: u8, s: Seq<u8>)
    ensures
        parse_details(mask, s) matches Ok((v, n)) ==> 0 <= n <= s.len()
            && v.inner_diagnostic_info is None,
{
    lemma_parse_opt_consumes::<i32>(has_flag(mask, HAS_SYMBOLIC_ID), s);
    if let Ok((_, n1)) = parse_opt::<i32>(has_flag(mask, HAS_SYMBOLIC_ID), s) {
        lemma_parse_opt_consumes::<i32>(has_flag(mask, HAS_NAMESPACE), s.skip(n1));
        if let Ok((_, n2)) = parse_opt::<i32>(has_flag(mask, HAS_NAMESPACE), s.skip(n1)) {
            lemma_parse_opt_consumes::<i32>(has_flag(mask, HAS_LOCALE), s.skip(n1 + n2));
            if let Ok((_, n3)) = parse_opt::<i32>(has_flag(mask, HAS_LOCALE), s.skip(n1 + n2)) {
                lemma_parse_opt_consumes::<i32>(
                    has_flag(mask, HAS_LOCALIZED_TEXT),
                    s.skip(n1 + n2 + n3),
                );
                if let Ok((_, n4)) = parse_opt::<i32>(
                    has_flag(mask, HAS_LOCALIZED_TEXT),
                    s.skip(n1 + n2 + n3),
                ) {
                    lemma_parse_opt_consumes::<UAString>(
                        has_flag(mask, HAS_ADDITIONAL_INFO),
                        s.skip(n1 + n2 + n3 + n4),
                    );
                    if let Ok((_, n5)) = parse_opt::<UAString>(
                        has_flag(mask, HAS_ADDITIONAL_INFO),
                        s.skip(n1 + n2 + n3 + n4),
                    ) {
                        lemma_parse_opt_consumes::<StatusCode>(
                            has_flag(mask, HAS_INNER_STATUS_CODE),
                            s.skip(n1 + n2 + n3 + n4 + n5),
                        );
                    }
                }
            }
        }
    }
}

pub proof fn lemma_diagnostic_parse_consumes(s: Seq<u8>, depth: nat)
    ensures
        diagnostic_parse(s, depth) matches Ok((v, n)) ==> 0 < n <= s.len(),
    decreases depth,
{
    if s.len() >= 1 {
        lemma_parse_details_consumes(s[0], s.skip(1));
        if let Ok((details, n)) = parse_details(s[0], s.skip(1)) {
            if has_flag(s[0], HAS_INNER_DIAGNOSTIC_INFO) && depth > 0 {
                lemma_diagnostic_parse_consumes(s.skip(1 + n), (depth - 1) as nat);
            }
        }
    }
}

proof fn lemma_details_written(
    front: Seq<u8>,
    mask: u8,
    f1: Seq<u8>,
    f2: Seq<u8>,
    f3: Seq<u8>,
    f4: Seq<u8>,
    f5: Seq<u8>,
    f6: Seq<u8>,
)
    ensures
        front + seq![mask] + f1 + f2 + f3 + f4 + f5 + f6 == front + (seq![mask] + (f1 + (f2 + (f3
            + (f4 + (f5 + (f6 + Seq::<u8>::empty()))))))),
{
    assert(front + seq![mask] + f1 + f2 + f3 + f4 + f5 + f6 =~= front + (seq![mask] + (f1 + (f2
        + (f3 + (f4 + (f5 + (f6 + Seq::<u8>::empty()))))))));
}

impl DiagnosticInfo {
    /// What a diagnostic info without any detail stands for.
    pub open spec fn new_view() -> DiagnosticInfoView {
        DiagnosticInfoView {
            symbolic_id: None,
            namespace_uri: None,
            locale: None,
            localized_text: None,
            additional_info: None,
            inner_status_code: None,
            inner_diagnostic_info: None,
        }
    }

    /// A diagnostic info without any detail.
    pub fn new() -> (r: DiagnosticInfo)
        ensures
            r@ == Self::new_view(),
    {
        DiagnosticInfo {
            symbolic_id: None,
            namespace_uri: None,
            locale: None,
            localized_text: None,
            additional_info: None,
            inner_status_code: None,
            inner_diagnostic_info: None,
        }
    }

    /// The presence mask: one bit for each field that is there.
    pub fn encoding_mask(&self) -> (r: u8)
        ensures
            r == diagnostic_mask(self@),
    {
        let mut encoding_mask: u8 = 0;
        if self.symbolic_id.is_some() {
            encoding_mask = encoding_mask + HAS_SYMBOLIC_ID;
        }
        if self.namespace_uri.is_some() {
            encoding_mask = encoding_mask + HAS_NAMESPACE;
        }
        if self.locale.is_some() {
            encoding_mask = encoding_mask + HAS_LOCALE;
        }
        if self.localized_text.is_some() {
            encoding_mask = encoding_mask + HAS_LOCALIZED_TEXT;
        }
        if self.additional_info.is_some() {
            encoding_mask = encoding_mask + HAS_ADDITIONAL_INFO;
        }
        if self.inner_status_code.is_some() {
            encoding_mask = encoding_mask + HAS_INNER_STATUS_CODE;
        }
        if self.inner_diagnostic_info.is_some() {
            encoding_mask = encoding_mask + HAS_INNER_DIAGNOSTIC_INFO;
        }
        encoding_mask
    }

    fn duplicate(&self) -> (r: DiagnosticInfo)
        ensures
            r@ == self@,
        decreases self,
    {
        DiagnosticInfo {
            symbolic_id: self.symbolic_id,
            namespace_uri: self.namespace_uri,
            locale: self.locale,
            localized_text: self.localized_text,
            additional_info: match &self.additional_info {
                Some(s) => Some(s.clone()),
                None => None,
            },
            inner_status_code: self.inner_status_code,
            inner_diagnostic_info: match &self.inner_diagnostic_info {
                Some(inner) => Some(Box::new(inner.duplicate())),
                None => None,
            },
        }
    }

    fn same_as(&self, other: &DiagnosticInfo) -> (r: bool)
        ensures
            r == (self@ == other@),
        decreases self,
    {
        let details = self.symbolic_id == other.symbolic_id && self.namespace_uri
            == other.namespace_uri && self.locale == other.locale && self.localized_text
            == other.localized_text && self.inner_status_code == other.inner_status_code
            && match (&self.additional_info, &other.additional_info) {
            (Some(a), Some(b)) => *a == *b,
            (None, None) => true,
            _ => false,
        };
        details && match (&self.inner_diagnostic_info, &other.inner_diagnostic_info) {
            (Some(a), Some(b)) => a.same_as(b),
            (None, None) => true,
            _ => false,
        }
    }

    fn check_encodable(&self) -> (r: bool)
        ensures
            r == diagnostic_encodable(self@),
        decreases self,
    {
        if !is_encodable_opt(&self.additional_info) {
            return false;
        }
        match &self.inner_diagnostic_info {
            Some(inner) => inner.check_encodable(),
            None => true,
        }
    }

    fn wire_len(&self) -> (n: usize)
        requires
            diagnostic_wire(self@).len() <= usize::MAX,
        ensures
            n == diagnostic_wire(self@).len(),
        decreases self,
    {
        let mut size: usize = 1;
        size = size + byte_len_opt(&self.symbolic_id);
        size = size + byte_len_opt(&self.namespace_uri);
        size = size + byte_len_opt(&self.locale);
        size = size + byte_len_opt(&self.localized_text);
        size = size + byte_len_opt(&self.additional_info);
        size = size + byte_len_opt(&self.inner_status_code);
        if let Some(inner) = &self.inner_diagnostic_info {
            size = size + inner.wire_len();
        }
        size
    }

    fn write(&self, stream: &mut Vec<u8>)
        requires
            diagnostic_encodable(self@),
        ensures
            final(stream)@ == old(stream)@ + diagnostic_wire(self@),
        decreases self,
    {
        let ghost v = self@;
        let _ = write_u8(stream, self.encoding_mask());
        encode_opt(&self.symbolic_id, stream);
        encode_opt(&self.namespace_uri, stream);
        encode_opt(&self.locale, stream);
        encode_opt(&self.localized_text, stream);
        encode_opt(&self.additional_info, stream);
        encode_opt(&self.inner_status_code, stream);
        let ghost before_inner = stream@;
        proof {
            lemma_details_written(
                old(stream)@,
                diagnostic_mask(v),
                wire_opt::<i32>(v.symbolic_id),
                wire_opt::<i32>(v.namespace_uri),
                wire_opt::<i32>(v.locale),
                wire_opt::<i32>(v.localized_text),
                wire_opt::<UAString>(v.additional_info),
                wire_opt::<StatusCode>(v.inner_status_code),
            );
            assert(before_inner == old(stream)@ + (seq![diagnostic_mask(v)] + wire_details(
                v,
                Seq::empty(),
            )));
        }
        match &self.inner_diagnostic_info {
            Some(inner) => {
                inner.write(stream);
                proof {
                    lemma_details_rest(v, Seq::empty(), diagnostic_wire(inner@));
                    assert(Seq::<u8>::empty() + diagnostic_wire(inner@) =~= diagnostic_wire(
                        inner@,
                    ));
                    assert(stream@ =~= old(stream)@ + (seq![diagnostic_mask(v)] + (wire_details(
                        v,
                        Seq::empty(),
                    ) + diagnostic_wire(inner@))));
                }
            },
            None => {},
        }
    }

    fn read(stream: &[u8], depth: usize) -> (r: EncodingResult<(DiagnosticInfo, usize)>)
        ensures
            match diagnostic_parse(stream@, depth as nat) {
                Ok((v, n)) => r matches Ok((x, m)) && x@ == v && m == n && m <= stream@.len(),
                Err(e) => r matches Err(f) && f == e,
            },
        decreases depth,
    {
        if stream.len() < 1 {
            return Err(BAD_DECODING_ERROR);
        }
        let encoding_mask = stream[0];
        let body = skip_bytes(stream, 1);
        let (symbolic_id, n1) = decode_opt::<i32>(flag_is_set(encoding_mask, HAS_SYMBOLIC_ID), body)?;
        let (namespace_uri, n2) = decode_opt::<i32>(
            flag_is_set(encoding_mask, HAS_NAMESPACE),
            skip_bytes(body, n1),
        )?;
        let (locale, n3) = decode_opt::<i32>(
            flag_is_set(encoding_mask, HAS_LOCALE),
            skip_bytes(body, n1 + n2),
        )?;
        let (localized_text, n4) = decode_opt::<i32>(
            flag_is_set(encoding_mask, HAS_LOCALIZED_TEXT),
            skip_bytes(body, n1 + n2 + n3),
        )?;
        let (additional_info, n5) = decode_opt::<UAString>(
            flag_is_set(encoding_mask, HAS_ADDITIONAL_INFO),
            skip_bytes(body, n1 + n2 + n3 + n4),
        )?;
        let (inner_status_code, n6) = decode_opt::<StatusCode>(
            flag_is_set(encoding_mask, HAS_INNER_STATUS_CODE),
            skip_bytes(body, n1 + n2 + n3 + n4 + n5),
        )?;
        let n = n1 + n2 + n3 + n4 + n5 + n6;
        let (inner_diagnostic_info, m) = if flag_is_set(
            encoding_mask,
            HAS_INNER_DIAGNOSTIC_INFO,
        ) {
            if depth == 0 {
                return Err(BAD_DECODING_ERROR);
            }
            let (inner, m) = DiagnosticInfo::read(skip_bytes(stream, 1 + n), depth - 1)?;
            (Some(Box::new(inner)), m)
        } else {
            (None, 0)
        };
        Ok(
            (
                DiagnosticInfo {
                    symbolic_id,
                    namespace_uri,
                    locale,
                    localized_text,
                    additional_info,
                    inner_status_code,
                    inner_diagnostic_info,
                },
                1 + n + m,
            ),
        )
    }
}

impl BinaryEncoder for DiagnosticInfo {
    open spec fn wire(v: DiagnosticInfoView) -> Seq<u8> {
        diagnostic_wire(v)
    }

    open spec fn parse(s: Seq<u8>) -> Result<(DiagnosticInfoView, int), StatusCode> {
        diagnostic_parse(s, MAX_DIAGNOSTIC_DEPTH as nat)
    }

    open spec fn encodable(v: DiagnosticInfoView) -> bool {
        diagnostic_encodable(v)
    }

    open spec fn canonical(v: DiagnosticInfoView) -> bool {
        details_canonical(v) && nesting(v) <= MAX_DIAGNOSTIC_DEPTH
    }

    proof fn lemma_round_trip(v: DiagnosticInfoView, rest: Seq<u8>) {
        lemma_diagnostic_round_trip(v, MAX_DIAGNOSTIC_DEPTH as nat, rest);
    }

    proof fn lemma_parse_consumes(s: Seq<u8>) {
        lemma_diagnostic_parse_consumes(s, MAX_DIAGNOSTIC_DEPTH as nat);
    }

    fn is_encodable(&self) -> (r: bool) {
        self.check_encodable()
    }

    fn byte_len(&self) -> (n: usize) {
        self.wire_len()
    }

    fn encode(&self, stream: &mut Vec<u8>) -> (r: EncodingResult<usize>) {
        if !self.is_encodable() {
            return Err(BAD_ENCODING_LIMITS_EXCEEDED);
        }
        let start = stream.len();
        self.write(stream);
        Ok(stream.len() - start)
    }

    fn decode(stream: &[u8]) -> (r: EncodingResult<(Self, usize)>) {
        DiagnosticInfo::read(stream, MAX_DIAGNOSTIC_DEPTH)
    }
}

} // verus!
