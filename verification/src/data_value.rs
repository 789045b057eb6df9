//! Data values: a value with its quality and its timestamps.

use vstd::prelude::*;
use crate::date_time::DateTime;
use crate::encoding::{
    byte_len_opt, canonical_opt, decode_opt, encodable_opt, encode_opt, flag_if, flag_is_set,
    has_flag, is_encodable_opt, lemma_parse_opt_consumes, lemma_round_trip_opt, lemma_skip_skip,
    opt_view, parse_opt, skip_bytes, wire_opt, write_u8, BinaryEncoder, EncodingResult,
};
use crate::status_codes::{StatusCode, BAD_DECODING_ERROR, BAD_ENCODING_LIMITS_EXCEEDED, GOOD};
use crate::string::UAString;
use crate::variant::{Variant, VariantView};

verus! {

/// Set when the value is there.
pub const HAS_VALUE: u8 = 0x1;

/// Set when the status is there.
pub const HAS_STATUS: u8 = 0x2;

/// Set when the source timestamp is there.
pub const HAS_SOURCE_TIMESTAMP: u8 = 0x4;

/// Set when the server timestamp is there.
pub const HAS_SERVER_TIMESTAMP: u8 = 0x8;

/// Set when the picoseconds of the source timestamp are there.
pub const HAS_SOURCE_PICOSECONDS: u8 = 0x10;

/// Set when the picoseconds of the server timestamp are there.
pub const HAS_SERVER_PICOSECONDS: u8 = 0x20;

/// A value with the status and the timestamps that belong to it.
#[derive(Debug, Clone, PartialEq)]
pub struct DataValue {
    /// The value.
    pub value: Option<Variant>,
    /// The status associated with the value; good when it is absent.
    pub status: Option<StatusCode>,
    /// The time at which the source produced the value.
    pub source_timestamp: Option<DateTime>,
    /// Intervals of 10 picoseconds to add to the source timestamp. They
    /// count only where the source timestamp is there.
    pub source_picoseconds: Option<i16>,
    /// The time at which the server received the value.
    pub server_timestamp: Option<DateTime>,
    /// Intervals of 10 picoseconds to add to the server timestamp. They
    /// count only where the server timestamp is there.
    pub server_picoseconds: Option<i16>,
}

/// What a `DataValue` stands for.
pub struct DataValueView {
    pub value: Option<VariantView>,
    pub status: Option<StatusCode>,
    pub source_timestamp: Option<i64>,
    pub source_picoseconds: Option<i16>,
    pub server_timestamp: Option<i64>,
    pub server_picoseconds: Option<i16>,
}

impl View for DataValue {
    type V = DataValueView;

    open spec fn view(&self) -> DataValueView {
        DataValueView {
            value: opt_view(self.value),
            status: self.status,
            source_timestamp: opt_view(self.source_timestamp),
            source_picoseconds: self.source_picoseconds,
            server_timestamp: opt_view(self.server_timestamp),
            server_picoseconds: self.server_picoseconds,
        }
    }
}

/// The picoseconds that count: those of a timestamp that is there.
pub open spec fn picoseconds_of(timestamp: Option<i64>, picoseconds: Option<i16>) -> Option<i16> {
    if timestamp is Some {
        picoseconds
    } else {
        None
    }
}

/// The presence mask of `v`: one bit for each field that is written.
pub open spec fn value_mask(v: DataValueView) -> u8 {
    (flag_if(v.value is Some, HAS_VALUE) + flag_if(v.status is Some, HAS_STATUS) + flag_if(
        v.source_timestamp is Some,
        HAS_SOURCE_TIMESTAMP,
    ) + flag_if(v.server_timestamp is Some, HAS_SERVER_TIMESTAMP) + flag_if(
        picoseconds_of(v.source_timestamp, v.source_picoseconds) is Some,
        HAS_SOURCE_PICOSECONDS,
    ) + flag_if(
        picoseconds_of(v.server_timestamp, v.server_picoseconds) is Some,
        HAS_SERVER_PICOSECONDS,
    )) as u8
}

/// The fields of `v` that are written, in the order of the wire form.
pub open spec fn wire_fields(v: DataValueView, rest: Seq<u8>) -> Seq<u8> {
    wire_opt::<Variant>(v.value) + (wire_opt::<StatusCode>(v.status) + (wire_opt::<DateTime>(
        v.source_timestamp,
    ) + (wire_opt::<i16>(picoseconds_of(v.source_timestamp, v.source_picoseconds)) + (wire_opt::<
        DateTime,
    >(v.server_timestamp) + (wire_opt::<i16>(
        picoseconds_of(v.server_timestamp, v.server_picoseconds),
    ) + rest)))))
}

/// The fields that the presence mask `mask` announces at the front of
/// `s`. Picoseconds without their timestamp are read and dropped.
pub open spec fn parse_fields(mask: u8, s: Seq<u8>) -> Result<(DataValueView, int), StatusCode> {
    match parse_opt::<Variant>(has_flag(mask, HAS_VALUE), s) {
        Ok((value, n1)) => match parse_opt::<StatusCode>(has_flag(mask, HAS_STATUS), s.skip(n1)) {
            Ok((status, n2)) => match parse_opt::<DateTime>(
                has_flag(mask, HAS_SOURCE_TIMESTAMP),
                s.skip(n1 + n2),
            ) {
                Ok((source_timestamp, n3)) => match parse_opt::<i16>(
                    has_flag(mask, HAS_SOURCE_PICOSECONDS),
                    s.skip(n1 + n2 + n3),
                ) {
                    Ok((source_picoseconds, n4)) => match parse_opt::<DateTime>(
                        has_flag(mask, HAS_SERVER_TIMESTAMP),
                        s.skip(n1 + n2 + n3 + n4),
                    ) {
                        Ok((server_timestamp, n5)) => match parse_opt::<i16>(
                            has_flag(mask, HAS_SERVER_PICOSECONDS),
                            s.skip(n1 + n2 + n3 + n4 + n5),
                        ) {
                            Ok((server_picoseconds, n6)) => Ok(
                                (
                                    DataValueView {
                                        value,
                                        status,
                                        source_timestamp,
                                        source_picoseconds: picoseconds_of(
                                            source_timestamp,
                                            source_picoseconds,
                                        ),
                                        server_timestamp,
                                        server_picoseconds: picoseconds_of(
                                            server_timestamp,
                                            server_picoseconds,
                                        ),
                                    },
                                    n1 + n2 + n3 + n4 + n5 + n6,
                                ),
                            ),
                            Err(e) => Err(e),
                        },
                        Err(e) => Err(e),
                    },
                    Err(e) => Err(e),
                },
                Err(e) => Err(e),
            },
            Err(e) => Err(e),
        },
        Err(e) => Err(e),
    }
}

proof fn lemma_mask_flags(v: DataValueView)
    ensures
        has_flag(value_mask(v), HAS_VALUE) == (v.value is Some),
        has_flag(value_mask(v), HAS_STATUS) == (v.status is Some),
        has_flag(value_mask(v), HAS_SOURCE_TIMESTAMP) == (v.source_timestamp is Some),
        has_flag(value_mask(v), HAS_SERVER_TIMESTAMP) == (v.server_timestamp is Some),
        has_flag(value_mask(v), HAS_SOURCE_PICOSECONDS) == (picoseconds_of(
            v.source_timestamp,
            v.source_picoseconds,
        ) is Some),
        has_flag(value_mask(v), HAS_SERVER_PICOSECONDS) == (picoseconds_of(
            v.server_timestamp,
            v.server_picoseconds,
        ) is Some),
{
}

/// The fields come back from their wire form.
proof fn lemma_parse_fields(v: DataValueView, rest: Seq<u8>)
    requires
        canonical_opt::<Variant>(v.value),
        v.source_picoseconds is Some ==> v.source_timestamp is Some,
        v.server_picoseconds is Some ==> v.server_timestamp is Some,
    ensures
        encodable_opt::<Variant>(v.value),
        parse_fields(value_mask(v), wire_fields(v, rest)) == Ok::<(DataValueView, int), StatusCode>(
            (v, wire_fields(v, rest).len() - rest.len()),
        ),
{
    lemma_mask_flags(v);
    let s = wire_fields(v, rest);
    let source_picoseconds = picoseconds_of(v.source_timestamp, v.source_picoseconds);
    let server_picoseconds = picoseconds_of(v.server_timestamp, v.server_picoseconds);
    let f6 = wire_opt::<i16>(server_picoseconds);
    let f5 = wire_opt::<DateTime>(v.server_timestamp);
    let f4 = wire_opt::<i16>(source_picoseconds);
    let f3 = wire_opt::<DateTime>(v.source_timestamp);
    let f2 = wire_opt::<StatusCode>(v.status);
    let f1 = wire_opt::<Variant>(v.value);
    let a6 = rest;
    let a5 = f6 + a6;
    let a4 = f5 + a5;
    let a3 = f4 + a4;
    let a2 = f3 + a3;
    let a1 = f2 + a2;
    let n1 = f1.len() as int;
    let n2 = f2.len() as int;
    let n3 = f3.len() as int;
    let n4 = f4.len() as int;
    let n5 = f5.len() as int;
    let n6 = f6.len() as int;
    lemma_round_trip_opt::<Variant>(v.value, a1);
    lemma_round_trip_opt::<StatusCode>(v.status, a2);
    lemma_round_trip_opt::<DateTime>(v.source_timestamp, a3);
    lemma_round_trip_opt::<i16>(source_picoseconds, a4);
    lemma_round_trip_opt::<DateTime>(v.server_timestamp, a5);
    lemma_round_trip_opt::<i16>(server_picoseconds, a6);
    assert(s.skip(n1) == a1);
    assert(s.skip(n1 + n2) == a2) by {
        lemma_skip_skip(s, n1, n2);
    }
    assert(s.skip(n1 + n2 + n3) == a3) by {
        lemma_skip_skip(s, n1 + n2, n3);
    }
    assert(s.skip(n1 + n2 + n3 + n4) == a4) by {
        lemma_skip_skip(s, n1 + n2 + n3, n4);
    }
    assert(s.skip(n1 + n2 + n3 + n4 + n5) == a5) by {
        lemma_skip_skip(s, n1 + n2 + n3 + n4, n5);
    }
}

proof fn lemma_parse_fields_consumes(mask: u8, s: Seq<u8>)
    ensures
        parse_fields(mask, s) matches Ok((v, n)) ==> 0 <= n <= s.len(),
{
    lemma_parse_opt_consumes::<Variant>(has_flag(mask, HAS_VALUE), s);
    if let Ok((_, n1)) = parse_opt::<Variant>(has_flag(mask, HAS_VALUE), s) {
        lemma_parse_opt_consumes::<StatusCode>(has_flag(mask, HAS_STATUS), s.skip(n1));
        if let Ok((_, n2)) = parse_opt::<StatusCode>(has_flag(mask, HAS_STATUS), s.skip(n1)) {
            lemma_parse_opt_consumes::<DateTime>(
                has_flag(mask, HAS_SOURCE_TIMESTAMP),
                s.skip(n1 + n2),
            );
            if let Ok((_, n3)) = parse_opt::<DateTime>(
                has_flag(mask, HAS_SOURCE_TIMESTAMP),
                s.skip(n1 + n2),
            ) {
                lemma_parse_opt_consumes::<i16>(
                    has_flag(mask, HAS_SOURCE_PICOSECONDS),
                    s.skip(n1 + n2 + n3),
                );
                if let Ok((_, n4)) = parse_opt::<i16>(
                    has_flag(mask, HAS_SOURCE_PICOSECONDS),
                    s.skip(n1 + n2 + n3),
                ) {
                    lemma_parse_opt_consumes::<DateTime>(
                        has_flag(mask, HAS_SERVER_TIMESTAMP),
                        s.skip(n1 + n2 + n3 + n4),
                    );
                    if let Ok((_, n5)) = parse_opt::<DateTime>(
                        has_flag(mask, HAS_SERVER_TIMESTAMP),
                        s.skip(n1 + n2 + n3 + n4),
                    ) {
                        lemma_parse_opt_consumes::<i16>(
                            has_flag(mask, HAS_SERVER_PICOSECONDS),
                            s.skip(n1 + n2 + n3 + n4 + n5),
                        );
                    }
                }
            }
        }
    }
}

proof fn lemma_fields_written(
    front: Seq<u8>,
    mask: u8,
    f1: Seq<u8>,
    f2: Seq<u8>,
    f3: Seq<u8>,
    f4: Seq<u8>,
    f5: Seq<u8>,
    f6: Seq<u8>,
)
    ensures
        front + seq![mask] + f1 + f2 + f3 + f4 + f5 + f6 == front + (seq![mask] + (f1 + (f2 + (f3
            + (f4 + (f5 + (f6 + Seq::<u8>::empty()))))))),
        (seq![mask] + (f1 + (f2 + (f3 + (f4 + (f5 + (f6 + Seq::<u8>::empty()))))))).len() == 1
            + f1.len() + f2.len() + f3.len() + f4.len() + f5.len() + f6.len(),
{
    assert(front + seq![mask] + f1 + f2 + f3 + f4 + f5 + f6 =~= front + (seq![mask] + (f1 + (f2
        + (f3 + (f4 + (f5 + (f6 + Seq::<u8>::empty()))))))));
}

/// The picoseconds that are written: those of a timestamp that is there.
fn picoseconds_to_write(timestamp: &Option<DateTime>, picoseconds: &Option<i16>) -> (r: Option<i16>)
    ensures
        r == picoseconds_of(opt_view(*timestamp), *picoseconds),
{
    if timestamp.is_some() {
        *picoseconds
    } else {
        None
    }
}

impl BinaryEncoder for DataValue {
    /// The presence mask, then the fields that are there: value, status,
    /// source timestamp and its picoseconds, server timestamp and its
    /// picoseconds.
    open spec fn wire(v: DataValueView) -> Seq<u8> {
        seq![value_mask(v)] + wire_fields(v, Seq::empty())
    }

    open spec fn parse(s: Seq<u8>) -> Result<(DataValueView, int), StatusCode> {
        if s.len() < 1 {
            Err(BAD_DECODING_ERROR)
        } else {
            match parse_fields(s[0], s.skip(1)) {
                Ok((v, n)) => Ok((v, 1 + n)),
                Err(e) => Err(e),
            }
        }
    }

    open spec fn encodable(v: DataValueView) -> bool {
        encodable_opt::<Variant>(v.value)
    }

    /// Picoseconds without their timestamp do not come back: they are
    /// left out of the wire form.
    open spec fn canonical(v: DataValueView) -> bool {
        &&& canonical_opt::<Variant>(v.value)
        &&& v.source_picoseconds is Some ==> v.source_timestamp is Some
        &&& v.server_picoseconds is Some ==> v.server_timestamp is Some
    }

    proof fn lemma_round_trip(v: DataValueView, rest: Seq<u8>) {
        let s = Self::wire(v) + rest;
        assert(wire_fields(v, Seq::empty()) + rest =~= wire_fields(v, rest));
        assert(s.skip(1) =~= wire_fields(v, rest));
        lemma_parse_fields(v, rest);
    }

    proof fn lemma_parse_consumes(s: Seq<u8>) {
        if s.len() >= 1 {
            lemma_parse_fields_consumes(s[0], s.skip(1));
        }
    }

    fn is_encodable(&self) -> (r: bool) {
        is_encodable_opt(&self.value)
    }

    fn byte_len(&self) -> (n: usize) {
        let source_picoseconds = picoseconds_to_write(
            &self.source_timestamp,
            &self.source_picoseconds,
        );
        let server_picoseconds = picoseconds_to_write(
            &self.server_timestamp,
            &self.server_picoseconds,
        );
        proof {
            lemma_fields_written(
                Seq::empty(),
                value_mask(self@),
                wire_opt::<Variant>(self@.value),
                wire_opt::<StatusCode>(self@.status),
                wire_opt::<DateTime>(self@.source_timestamp),
                wire_opt::<i16>(source_picoseconds),
                wire_opt::<DateTime>(self@.server_timestamp),
                wire_opt::<i16>(server_picoseconds),
            );
        }
        let mut size: usize = 1;
        size = size + byte_len_opt(&self.value);
        size = size + byte_len_opt(&self.status);
        size = size + byte_len_opt(&self.source_timestamp);
        size = size + byte_len_opt(&source_picoseconds);
        size = size + byte_len_opt(&self.server_timestamp);
        size = size + byte_len_opt(&server_picoseconds);
        size
    }

    fn encode(&self, stream: &mut Vec<u8>) -> (r: EncodingResult<usize>) {
        if !self.is_encodable() {
            return Err(BAD_ENCODING_LIMITS_EXCEEDED);
        }
        let start = stream.len();
        let source_picoseconds = picoseconds_to_write(
            &self.source_timestamp,
            &self.source_picoseconds,
        );
        let server_picoseconds = picoseconds_to_write(
            &self.server_timestamp,
            &self.server_picoseconds,
        );
        let _ = write_u8(stream, self.encoding_mask());
        encode_opt(&self.value, stream);
        encode_opt(&self.status, stream);
        encode_opt(&self.source_timestamp, stream);
        encode_opt(&source_picoseconds, stream);
        encode_opt(&self.server_timestamp, stream);
        encode_opt(&server_picoseconds, stream);
        proof {
            lemma_fields_written(
                old(stream)@,
                value_mask(self@),
                wire_opt::<Variant>(self@.value),
                wire_opt::<StatusCode>(self@.status),
                wire_opt::<DateTime>(self@.source_timestamp),
                wire_opt::<i16>(source_picoseconds),
                wire_opt::<DateTime>(self@.server_timestamp),
                wire_opt::<i16>(server_picoseconds),
            );
        }
        Ok(stream.len() - start)
    }

    fn decode(stream: &[u8]) -> (r: EncodingResult<(Self, usize)>) {
        if stream.len() < 1 {
            return Err(BAD_DECODING_ERROR);
        }
        let encoding_mask = stream[0];
        let body = skip_bytes(stream, 1);
        let (value, n1) = decode_opt::<Variant>(flag_is_set(encoding_mask, HAS_VALUE), body)?;
        let (status, n2) = decode_opt::<StatusCode>(
            flag_is_set(encoding_mask, HAS_STATUS),
            skip_bytes(body, n1),
        )?;
        let (source_timestamp, n3) = decode_opt::<DateTime>(
            flag_is_set(encoding_mask, HAS_SOURCE_TIMESTAMP),
            skip_bytes(body, n1 + n2),
        )?;
        let (source_picoseconds, n4) = decode_opt::<i16>(
            flag_is_set(encoding_mask, HAS_SOURCE_PICOSECONDS),
            skip_bytes(body, n1 + n2 + n3),
        )?;
        let (server_timestamp, n5) = decode_opt::<DateTime>(
            flag_is_set(encoding_mask, HAS_SERVER_TIMESTAMP),
            skip_bytes(body, n1 + n2 + n3 + n4),
        )?;
        let (server_picoseconds, n6) = decode_opt::<i16>(
            flag_is_set(encoding_mask, HAS_SERVER_PICOSECONDS),
            skip_bytes(body, n1 + n2 + n3 + n4 + n5),
        )?;
        // Picoseconds are dropped where their timestamp is not there.
        let source_picoseconds = picoseconds_to_write(&source_timestamp, &source_picoseconds);
        let server_picoseconds = picoseconds_to_write(&server_timestamp, &server_picoseconds);
        Ok(
            (
                DataValue {
                    value,
                    status,
                    source_timestamp,
                    source_picoseconds,
                    server_timestamp,
                    server_picoseconds,
                },
                1 + n1 + n2 + n3 + n4 + n5 + n6,
            ),
        )
    }
}

/// The data value that `DataValue::new_at` makes of `value` at the time
/// `now`: a good status, both timestamps at `now`, no picoseconds to add.
pub open spec fn fresh_value(value: Option<VariantView>, now: i64) -> DataValueView {
    DataValueView {
        value,
        status: Some(GOOD),
        source_timestamp: Some(now),
        source_picoseconds: Some(0i16),
        server_timestamp: Some(now),
        server_picoseconds: Some(0i16),
    }
}

impl DataValue {
    /// The good data value that holds `value`, stamped with the time `now`.
    pub fn new_at(value: Variant, now: DateTime) -> (r: DataValue)
        ensures
            r@ == fresh_value(Some(value@), now@),
    {
        DataValue {
            value: Some(value),
            status: Some(GOOD),
            source_timestamp: Some(now),
            source_picoseconds: Some(0),
            server_timestamp: Some(now),
            server_picoseconds: Some(0),
        }
    }

    /// The good data value without a value, stamped with the time `now`.
    pub fn null_at(now: DateTime) -> (r: DataValue)
        ensures
            r@ == fresh_value(None, now@),
    {
        DataValue {
            value: None,
            status: Some(GOOD),
            source_timestamp: Some(now),
            source_picoseconds: Some(0),
            server_timestamp: Some(now),
            server_picoseconds: Some(0),
        }
    }

    /// The good data value that holds `value`, stamped with the time of
    /// the system clock.
    pub fn new(value: Variant) -> (r: DataValue)
        ensures
            exists|now: i64| r@ == fresh_value(Some(value@), now),
    {
        DataValue::new_at(value, DateTime::now())
    }

    pub fn new_bool(value: bool) -> (r: DataValue)
        ensures
            exists|now: i64| r@ == fresh_value(Some(VariantView::Boolean(value)), now),
    {
        Self::new(Variant::Boolean(value))
    }

    pub fn new_byte(value: u8) -> (r: DataValue)
        ensures
            exists|now: i64| r@ == fresh_value(Some(VariantView::Byte(value)), now),
    {
        Self::new(Variant::Byte(value))
    }

    pub fn new_i8(value: i8) -> (r: DataValue)
        ensures
            exists|now: i64| r@ == fresh_value(Some(VariantView::SByte(value)), now),
    {
        Self::new(Variant::SByte(value))
    }

    pub fn new_u16(value: u16) -> (r: DataValue)
        ensures
            exists|now: i64| r@ == fresh_value(Some(VariantView::UInt16(value)), now),
    {
        Self::new(Variant::UInt16(value))
    }

    pub fn new_i16(value: i16) -> (r: DataValue)
        ensures
            exists|now: i64| r@ == fresh_value(Some(VariantView::Int16(value)), now),
    {
        Self::new(Variant::Int16(value))
    }

    pub fn new_u32(value: u32) -> (r: DataValue)
        ensures
            exists|now: i64| r@ == fresh_value(Some(VariantView::UInt32(value)), now),
    {
        Self::new(Variant::UInt32(value))
    }

    pub fn new_i32(value: i32) -> (r: DataValue)
        ensures
            exists|now: i64| r@ == fresh_value(Some(VariantView::Int32(value)), now),
    {
        Self::new(Variant::Int32(value))
    }

    pub fn new_string(value: UAString) -> (r: DataValue)
        ensures
            exists|now: i64| r@ == fresh_value(Some(VariantView::String(value@)), now),
    {
        Self::new(Variant::String(value))
    }

    /// The good data value without a value, stamped with the time of the
    /// system clock.
    pub fn null() -> (r: DataValue)
        ensures
            exists|now: i64| r@ == fresh_value(None, now),
    {
        DataValue::null_at(DateTime::now())
    }

    /// The presence mask: one bit for each field that is written.
    pub fn encoding_mask(&self) -> (r: u8)
        ensures
            r == value_mask(self@),
    {
        let mut encoding_mask: u8 = 0;
        if self.value.is_some() {
            encoding_mask = encoding_mask + HAS_VALUE;
        }
        if self.status.is_some() {
            encoding_mask = encoding_mask + HAS_STATUS;
        }
        if self.source_timestamp.is_some() {
            encoding_mask = encoding_mask + HAS_SOURCE_TIMESTAMP;
            if self.source_picoseconds.is_some() {
                encoding_mask = encoding_mask + HAS_SOURCE_PICOSECONDS;
            }
        }
        if self.server_timestamp.is_some() {
            encoding_mask = encoding_mask + HAS_SERVER_TIMESTAMP;
            if self.server_picoseconds.is_some() {
                encoding_mask = encoding_mask + HAS_SERVER_PICOSECONDS;
            }
        }
        encoding_mask
    }
}

} // verus!
