use opcua::byte_string::ByteString;
use opcua::content_filter::{
    ContentFilterElement, ContentFilterElementResult, ContentFilterResult, FilterOperator,
};
use opcua::data_value::DataValue;
use opcua::date_time::DateTime;
use opcua::diagnostic_info::DiagnosticInfo;
use opcua::encoding::{read_array, write_array, BinaryEncoder};
use opcua::extension_object::{ExtensionObject, ExtensionObjectEncoding};
use opcua::guid::Guid;
use opcua::localized_text::LocalizedText;
use opcua::node_id::{ExpandedNodeId, NodeId};
use opcua::node_ids::{MessageInfo, ObjectId};
use opcua::qualified_name::QualifiedName;
use opcua::service_types::{
    BrowsePath, HistoryReadValueId, ReferenceNode, RelativePath, RelativePathElement,
};
use opcua::status_codes::{
    BAD_DECODING_ERROR, BAD_ENCODING_LIMITS_EXCEEDED, BAD_NODE_ID_UNKNOWN, GOOD,
};
use opcua::string::UAString;
use opcua::variant::{ArrayValues, Variant, VariantArray};

fn encoded<T: BinaryEncoder>(value: &T) -> Vec<u8> {
    let mut stream = Vec::new();
    let written = value.encode(&mut stream).unwrap();
    assert_eq!(written, stream.len());
    assert_eq!(value.byte_len(), stream.len());
    stream
}

fn round_trip<T: BinaryEncoder + PartialEq + std::fmt::Debug>(value: T) {
    let mut stream = encoded(&value);
    let length = stream.len();
    // Whatever follows the value is left alone.
    stream.extend_from_slice(&[0xAA, 0xBB]);
    let (decoded, read) = T::decode(&stream).unwrap();
    assert_eq!(read, length);
    assert_eq!(decoded, value);
}

#[test]
fn scalars_are_little_endian() {
    assert_eq!(encoded(&true), vec![1]);
    assert_eq!(encoded(&false), vec![0]);
    assert_eq!(encoded(&0x12u8), vec![0x12]);
    assert_eq!(encoded(&-1i8), vec![0xFF]);
    assert_eq!(encoded(&-128i8), vec![0x80]);
    assert_eq!(encoded(&0x1234u16), vec![0x34, 0x12]);
    assert_eq!(encoded(&-2i16), vec![0xFE, 0xFF]);
    assert_eq!(encoded(&0x12345678u32), vec![0x78, 0x56, 0x34, 0x12]);
    assert_eq!(encoded(&-1i32), vec![0xFF, 0xFF, 0xFF, 0xFF]);
    assert_eq!(encoded(&i32::MIN), vec![0x00, 0x00, 0x00, 0x80]);
    assert_eq!(
        encoded(&0x0102030405060708u64),
        vec![0x08, 0x07, 0x06, 0x05, 0x04, 0x03, 0x02, 0x01]
    );
    assert_eq!(encoded(&-2i64), vec![0xFE, 0xFF, 0xFF, 0xFF, 0xFF, 0xFF, 0xFF, 0xFF]);
}

#[test]
fn scalars_round_trip() {
    round_trip(true);
    round_trip(false);
    round_trip(0u8);
    round_trip(255u8);
    round_trip(i8::MIN);
    round_trip(i8::MAX);
    round_trip(u16::MAX);
    round_trip(i16::MIN);
    round_trip(i16::MAX);
    round_trip(u32::MAX);
    round_trip(i32::MIN);
    round_trip(i32::MAX);
    round_trip(u64::MAX);
    round_trip(i64::MIN);
    round_trip(i64::MAX);
    round_trip(-123456789012345i64);
}

#[test]
fn boolean_reads_any_byte_but_one_as_false() {
    assert_eq!(bool::decode(&[1]).unwrap(), (true, 1));
    assert_eq!(bool::decode(&[0]).unwrap(), (false, 1));
    assert_eq!(bool::decode(&[2]).unwrap(), (false, 1));
}

#[test]
fn truncated_scalars_are_decoding_errors() {
    assert_eq!(bool::decode(&[]), Err(BAD_DECODING_ERROR));
    assert_eq!(u16::decode(&[1]), Err(BAD_DECODING_ERROR));
    assert_eq!(i32::decode(&[1, 2, 3]), Err(BAD_DECODING_ERROR));
    assert_eq!(u64::decode(&[1, 2, 3, 4, 5, 6, 7]), Err(BAD_DECODING_ERROR));
}

#[test]
fn null_string_is_not_the_empty_string() {
    let null = UAString::null();
    let empty = UAString::from_str("");
    assert_eq!(encoded(&null), vec![0xFF, 0xFF, 0xFF, 0xFF]);
    assert_eq!(encoded(&empty), vec![0x00, 0x00, 0x00, 0x00]);
    let (decoded, read) = UAString::decode(&[0xFF, 0xFF, 0xFF, 0xFF]).unwrap();
    assert_eq!(read, 4);
    assert_eq!(decoded, null);
    assert!(decoded.is_null());
    let (decoded, read) = UAString::decode(&[0x00, 0x00, 0x00, 0x00]).unwrap();
    assert_eq!(read, 4);
    assert_eq!(decoded, empty);
    assert!(!decoded.is_null());
    assert!(null != empty);
}

#[test]
fn string_takes_four_bytes_and_its_text() {
    let s = UAString::from_str("Hello");
    assert_eq!(encoded(&s), vec![5, 0, 0, 0, b'H', b'e', b'l', b'l', b'o']);
    assert_eq!(s.len(), 5);
    assert_eq!(UAString::null().len(), -1);
    assert_eq!(s.as_ref(), "Hello");
    assert_eq!(UAString::null().as_ref(), "");
    round_trip(s);
    // Text outside ASCII counts by its UTF-8 bytes.
    let s = UAString::from_str("Grüße €");
    assert_eq!(s.len(), 11);
    assert_eq!(encoded(&s).len(), 15);
    round_trip(s);
    // The longest string that the decoder accepts.
    let long = "x".repeat(65535);
    let s = UAString::from_str(&long);
    assert_eq!(encoded(&s).len(), 4 + 65535);
    round_trip(s);
}

#[test]
fn string_decode_rejects_bad_lengths() {
    // A length below -1.
    assert_eq!(UAString::decode(&[0xFE, 0xFF, 0xFF, 0xFF]), Err(BAD_DECODING_ERROR));
    // A length above the limit.
    assert_eq!(
        UAString::decode(&[0x00, 0x00, 0x01, 0x00, 0x41]),
        Err(BAD_ENCODING_LIMITS_EXCEEDED)
    );
    // Fewer bytes than the length announces.
    assert_eq!(UAString::decode(&[3, 0, 0, 0, b'a', b'b']), Err(BAD_DECODING_ERROR));
    // Bytes that are not UTF-8.
    assert_eq!(UAString::decode(&[2, 0, 0, 0, 0xC3, 0x28]), Err(BAD_DECODING_ERROR));
    // No length at all.
    assert_eq!(UAString::decode(&[1, 0]), Err(BAD_DECODING_ERROR));
}

#[test]
fn string_above_the_decoder_limit_encodes_but_does_not_come_back() {
    let long = "x".repeat(65536);
    let s = UAString::from_str(&long);
    let stream = encoded(&s);
    assert_eq!(stream.len(), 4 + 65536);
    assert_eq!(UAString::decode(&stream), Err(BAD_ENCODING_LIMITS_EXCEEDED));
}

#[test]
fn byte_string_framing() {
    assert_eq!(encoded(&ByteString::null()), vec![0xFF, 0xFF, 0xFF, 0xFF]);
    assert_eq!(encoded(&ByteString::from_bytes(&[])), vec![0, 0, 0, 0]);
    assert_eq!(encoded(&ByteString::from_bytes(&[9, 8, 7])), vec![3, 0, 0, 0, 9, 8, 7]);
    round_trip(ByteString::null());
    round_trip(ByteString::from_bytes(&[]));
    round_trip(ByteString::from_bytes(&[0, 255, 1, 2]));
    assert!(ByteString::null().is_null());
    assert!(!ByteString::from_bytes(&[]).is_null());
    assert_eq!(ByteString::from_bytes(&[1, 2]).as_ref(), &[1u8, 2u8][..]);
    assert_eq!(ByteString::null().as_ref().len(), 0);
    assert_eq!(ByteString::decode(&[0xFD, 0xFF, 0xFF, 0xFF]), Err(BAD_DECODING_ERROR));
    assert_eq!(ByteString::decode(&[0x00, 0x00, 0x01, 0x00]), Err(BAD_ENCODING_LIMITS_EXCEEDED));
    assert_eq!(ByteString::decode(&[2, 0, 0, 0, 1]), Err(BAD_DECODING_ERROR));
}

#[test]
fn random_byte_string_has_the_length_asked_for() {
    let a = ByteString::random(32);
    let b = ByteString::random(32);
    assert_eq!(a.as_ref().len(), 32);
    assert_eq!(b.as_ref().len(), 32);
    assert!(a != b);
    assert_eq!(ByteString::random(0).as_ref().len(), 0);
}

#[test]
fn guid_parse_and_format() {
    let text = "72962B91-FA75-4AE6-8D28-B404DC7DAF63";
    let guid = Guid::parse_str(text).unwrap();
    assert_eq!(guid.data1, 0x72962B91);
    assert_eq!(guid.data2, 0xFA75);
    assert_eq!(guid.data3, 0x4AE6);
    assert_eq!(guid.data4, [0x8D, 0x28, 0xB4, 0x04, 0xDC, 0x7D, 0xAF, 0x63]);
    assert_eq!(guid.as_hyphenated_string(), text);
    assert_eq!(
        encoded(&guid),
        vec![
            0x91, 0x2B, 0x96, 0x72, 0x75, 0xFA, 0xE6, 0x4A, 0x8D, 0x28, 0xB4, 0x04, 0xDC, 0x7D,
            0xAF, 0x63
        ]
    );
    round_trip(guid);
    // The plain form and lower case read as the same identifier.
    assert_eq!(Guid::parse_str("72962b91fa754ae68d28b404dc7daf63").unwrap(), guid);
    assert_eq!(Guid::parse_str("72962b91-fa75-4ae6-8d28-b404dc7daf63").unwrap(), guid);
    let zero = Guid { data1: 0, data2: 0, data3: 0, data4: [0; 8] };
    assert_eq!(zero.as_hyphenated_string(), "00000000-0000-0000-0000-000000000000");
}

#[test]
fn guid_parse_rejects_other_text() {
    assert!(Guid::parse_str("").is_err());
    assert!(Guid::parse_str("72962B91").is_err());
    // A hyphen in the wrong place.
    assert!(Guid::parse_str("72962B9-1FA75-4AE6-8D28-B404DC7DAF63").is_err());
    // A character that is no digit.
    assert!(Guid::parse_str("72962B91-FA75-4AE6-8D28-B404DC7DAF6G").is_err());
    // 36 digits without hyphens.
    assert!(Guid::parse_str("72962B91FA754AE68D28B404DC7DAF630000").is_err());
    // One hyphen, then digits up to the length of the hyphenated form.
    assert!(Guid::parse_str("01234567-012345678901234567890123456").is_err());
    // 28 digits and four hyphens.
    assert!(Guid::parse_str("72962B91-FA75-4AE6-8D28-B404DC7D").is_err());
    // Characters outside ASCII.
    assert!(Guid::parse_str("72962B91-FA75-4AE6-8D28-B404DC7DAFé3").is_err());
    assert!(Guid::decode(&[0; 15]).is_err());
}

#[test]
fn node_id_takes_the_most_compact_form() {
    assert_eq!(encoded(&NodeId::new_numeric(0, 72)), vec![0x00, 0x48]);
    assert_eq!(encoded(&NodeId::new_numeric(0, 255)), vec![0x00, 0xFF]);
    assert_eq!(encoded(&NodeId::new_numeric(0, 256)), vec![0x01, 0x00, 0x00, 0x01]);
    assert_eq!(encoded(&NodeId::new_numeric(5, 1025)), vec![0x01, 0x05, 0x01, 0x04]);
    assert_eq!(
        encoded(&NodeId::new_numeric(256, 1)),
        vec![0x02, 0x00, 0x01, 0x01, 0x00, 0x00, 0x00]
    );
    assert_eq!(
        encoded(&NodeId::new_numeric(1, 65536)),
        vec![0x02, 0x01, 0x00, 0x00, 0x00, 0x01, 0x00]
    );
    assert_eq!(
        encoded(&NodeId::new_string(1, "Hot")),
        vec![0x03, 0x01, 0x00, 0x03, 0x00, 0x00, 0x00, b'H', b'o', b't']
    );
    assert_eq!(
        encoded(&NodeId::new_byte_string(2, ByteString::from_bytes(&[7]))),
        vec![0x05, 0x02, 0x00, 0x01, 0x00, 0x00, 0x00, 0x07]
    );
    let guid = Guid::parse_str("72962B91-FA75-4AE6-8D28-B404DC7DAF63").unwrap();
    let stream = encoded(&NodeId::new_guid(3, guid));
    assert_eq!(stream.len(), 19);
    assert_eq!(&stream[..3], &[0x04, 0x03, 0x00]);
    assert_eq!(encoded(&NodeId::null()), vec![0x00, 0x00]);
    assert!(NodeId::null().is_null());
    assert!(!NodeId::new_numeric(0, 1).is_null());
    assert!(!NodeId::new_numeric(1, 0).is_null());
}

#[test]
fn node_id_round_trips_and_reads_wide_forms() {
    round_trip(NodeId::null());
    round_trip(NodeId::new_numeric(0, 255));
    round_trip(NodeId::new_numeric(255, 65535));
    round_trip(NodeId::new_numeric(65535, u32::MAX));
    round_trip(NodeId::new_string(7, "a node"));
    round_trip(NodeId::new_byte_string(7, ByteString::null()));
    round_trip(NodeId::new_guid(1, Guid { data1: 1, data2: 2, data3: 3, data4: [4; 8] }));
    // A small identifier in a wide form reads as the same node id.
    let (decoded, read) = NodeId::decode(&[0x02, 0x00, 0x00, 0x48, 0x00, 0x00, 0x00]).unwrap();
    assert_eq!(read, 7);
    assert_eq!(decoded, NodeId::new_numeric(0, 72));
    assert_eq!(NodeId::decode(&[0x06, 0x00]), Err(BAD_DECODING_ERROR));
    assert_eq!(NodeId::decode(&[0x80, 0x00]), Err(BAD_DECODING_ERROR));
    assert_eq!(NodeId::decode(&[0x01, 0x00, 0x00]), Err(BAD_DECODING_ERROR));
    assert_eq!(NodeId::decode(&[]), Err(BAD_DECODING_ERROR));
}

#[test]
fn expanded_node_id_flags() {
    let local = ExpandedNodeId::new(&NodeId::new_numeric(0, 72));
    assert_eq!(encoded(&local), vec![0x00, 0x48]);
    round_trip(local);
    let with_server = ExpandedNodeId {
        node_id: NodeId::new_numeric(0, 72),
        namespace_uri: UAString::null(),
        server_index: 5,
    };
    assert_eq!(encoded(&with_server), vec![0x40, 0x48, 0x05, 0x00, 0x00, 0x00]);
    round_trip(with_server);
    let with_uri = ExpandedNodeId {
        node_id: NodeId::new_numeric(2, 300),
        namespace_uri: UAString::from_str("urn"),
        server_index: 9,
    };
    assert_eq!(
        encoded(&with_uri),
        vec![0xC1, 0x02, 0x2C, 0x01, 3, 0, 0, 0, b'u', b'r', b'n', 9, 0, 0, 0]
    );
    round_trip(with_uri);
    assert!(ExpandedNodeId::null().is_null());
    assert_eq!(ExpandedNodeId::decode(&[0x40, 0x48, 0x05]), Err(BAD_DECODING_ERROR));
}

#[test]
fn qualified_name_and_localized_text() {
    assert_eq!(
        encoded(&QualifiedName::new(2, "Ab")),
        vec![0x02, 0x00, 0x02, 0x00, 0x00, 0x00, b'A', b'b']
    );
    round_trip(QualifiedName::new(0, "Objects"));
    round_trip(QualifiedName::null());
    assert!(QualifiedName::null().is_null());
    assert!(!QualifiedName::new(0, "").is_null());

    assert_eq!(encoded(&LocalizedText::null()), vec![0x00]);
    assert_eq!(
        encoded(&LocalizedText::new("en", "Hi")),
        vec![0x03, 2, 0, 0, 0, b'e', b'n', 2, 0, 0, 0, b'H', b'i']
    );
    let only_text = LocalizedText { locale: UAString::null(), text: UAString::from_str("Hi") };
    assert_eq!(encoded(&only_text), vec![0x02, 2, 0, 0, 0, b'H', b'i']);
    let only_locale = LocalizedText { locale: UAString::from_str("en"), text: UAString::null() };
    assert_eq!(encoded(&only_locale), vec![0x01, 2, 0, 0, 0, b'e', b'n']);
    // An empty string is not null: it is written, and comes back empty.
    assert_eq!(
        encoded(&LocalizedText::new("", "Hi")),
        vec![0x03, 0, 0, 0, 0, 2, 0, 0, 0, b'H', b'i']
    );
    assert_eq!(encoded(&LocalizedText::new("", "")), vec![0x03, 0, 0, 0, 0, 0, 0, 0, 0]);
    round_trip(LocalizedText::null());
    round_trip(LocalizedText::new("en", "Hi"));
    round_trip(LocalizedText::new("", "Hi"));
    round_trip(LocalizedText::new("", ""));
    round_trip(only_text);
    round_trip(only_locale);
    round_trip(Variant::LocalizedText(LocalizedText::new("", "")));
    let holds_empty_text = DataValue {
        value: Some(Variant::LocalizedText(LocalizedText::new("", ""))),
        status: None,
        source_timestamp: None,
        source_picoseconds: None,
        server_timestamp: None,
        server_picoseconds: None,
    };
    assert_eq!(encoded(&holds_empty_text), vec![0x01, 0x15, 0x03, 0, 0, 0, 0, 0, 0, 0, 0]);
    round_trip(holds_empty_text);
    assert_eq!(LocalizedText::decode(&[0x01]), Err(BAD_DECODING_ERROR));
    assert_eq!(LocalizedText::decode(&[0x00]), Ok((LocalizedText::null(), 1)));
}

#[test]
fn extension_object_payloads() {
    assert_eq!(encoded(&ExtensionObject::null()), vec![0x00, 0x00, 0x00]);
    round_trip(ExtensionObject::null());
    let binary = ExtensionObject {
        node_id: NodeId::new_numeric(0, 300),
        body: ExtensionObjectEncoding::ByteString(ByteString::from_bytes(&[1, 2, 3])),
    };
    assert_eq!(encoded(&binary), vec![0x01, 0x00, 0x2C, 0x01, 0x01, 3, 0, 0, 0, 1, 2, 3]);
    round_trip(binary);
    let xml = ExtensionObject {
        node_id: NodeId::new_numeric(0, 1),
        body: ExtensionObjectEncoding::XmlElement(UAString::from_str("<a/>")),
    };
    assert_eq!(encoded(&xml), vec![0x00, 0x01, 0x02, 4, 0, 0, 0, b'<', b'a', b'/', b'>']);
    round_trip(xml);
    // A kind of payload that is not known.
    assert_eq!(ExtensionObject::decode(&[0x00, 0x00, 0x03]), Err(BAD_DECODING_ERROR));
    assert_eq!(ExtensionObject::decode(&[0x00, 0x00]), Err(BAD_DECODING_ERROR));
}

#[test]
fn extension_object_packs_and_unpacks() {
    let name = QualifiedName::new(3, "packed");
    let object = ExtensionObject::from_encodable(NodeId::new_numeric(0, 20), name.clone());
    assert_eq!(object.node_id, NodeId::new_numeric(0, 20));
    assert_eq!(
        object.body,
        ExtensionObjectEncoding::ByteString(ByteString::from_bytes(&encoded(&name)))
    );
    assert_eq!(object.decode_inner::<QualifiedName>(), Ok(name));
    assert_eq!(ExtensionObject::null().decode_inner::<QualifiedName>(), Err(BAD_DECODING_ERROR));
    let null_payload = ExtensionObject {
        node_id: NodeId::null(),
        body: ExtensionObjectEncoding::ByteString(ByteString::null()),
    };
    assert_eq!(null_payload.decode_inner::<u32>(), Err(BAD_DECODING_ERROR));
}

fn nested(depth: usize) -> DiagnosticInfo {
    let mut info = DiagnosticInfo::new();
    info.symbolic_id = Some(depth as i32);
    let mut i = 0;
    while i < depth {
        let mut outer = DiagnosticInfo::new();
        outer.inner_diagnostic_info = Some(Box::new(info));
        info = outer;
        i += 1;
    }
    info
}

#[test]
fn diagnostic_info_mask_and_fields() {
    assert_eq!(encoded(&DiagnosticInfo::new()), vec![0x00]);
    assert_eq!(DiagnosticInfo::new().encoding_mask(), 0);
    let mut info = DiagnosticInfo::new();
    info.symbolic_id = Some(1);
    info.namespace_uri = Some(2);
    info.locale = Some(3);
    info.localized_text = Some(4);
    info.additional_info = Some(UAString::from_str("x"));
    info.inner_status_code = Some(BAD_NODE_ID_UNKNOWN);
    let mut inner = DiagnosticInfo::new();
    inner.localized_text = Some(-1);
    info.inner_diagnostic_info = Some(Box::new(inner));
    assert_eq!(info.encoding_mask(), 0x7F);
    assert_eq!(
        encoded(&info),
        vec![
            0x7F, 1, 0, 0, 0, 2, 0, 0, 0, 3, 0, 0, 0, 4, 0, 0, 0, 1, 0, 0, 0, b'x', 0x00, 0x00,
            0x34, 0x80, 0x04, 0xFF, 0xFF, 0xFF, 0xFF
        ]
    );
    round_trip(info);
    round_trip(DiagnosticInfo::new());
    let mut only_locale = DiagnosticInfo::new();
    only_locale.locale = Some(7);
    assert_eq!(encoded(&only_locale), vec![0x08, 7, 0, 0, 0]);
    assert_eq!(DiagnosticInfo::decode(&[0x01, 0, 0]), Err(BAD_DECODING_ERROR));
}

#[test]
fn diagnostic_info_nesting_is_capped() {
    round_trip(nested(100));
    let too_deep = nested(101);
    let stream = encoded(&too_deep);
    assert_eq!(DiagnosticInfo::decode(&stream), Err(BAD_DECODING_ERROR));
}

#[test]
fn variant_carries_its_type() {
    assert_eq!(encoded(&Variant::Empty), vec![0x00]);
    assert_eq!(encoded(&Variant::Boolean(true)), vec![0x01, 0x01]);
    assert_eq!(encoded(&Variant::Int32(7)), vec![0x06, 7, 0, 0, 0]);
    assert_eq!(encoded(&Variant::Double(1.5f64.to_bits())), vec![11, 0, 0, 0, 0, 0, 0, 0xF8, 0x3F]);
    assert_eq!(encoded(&Variant::Float(1.0f32.to_bits())), vec![10, 0, 0, 0x80, 0x3F]);
    assert_eq!(
        encoded(&Variant::String(UAString::from_str("a"))),
        vec![12, 1, 0, 0, 0, b'a']
    );
    assert_eq!(encoded(&Variant::StatusCode(BAD_DECODING_ERROR)), vec![19, 0, 0, 0x07, 0x80]);
    assert_eq!(Variant::Int32(7).type_id(), 6);
    assert!(Variant::Empty.is_empty());
    round_trip(Variant::Empty);
    round_trip(Variant::Boolean(false));
    round_trip(Variant::SByte(-3));
    round_trip(Variant::Byte(3));
    round_trip(Variant::Int16(-300));
    round_trip(Variant::UInt16(300));
    round_trip(Variant::Int32(-70000));
    round_trip(Variant::UInt32(70000));
    round_trip(Variant::Int64(-5_000_000_000));
    round_trip(Variant::UInt64(5_000_000_000));
    round_trip(Variant::Float(2.5f32.to_bits()));
    round_trip(Variant::Double(2.5f64.to_bits()));
    round_trip(Variant::String(UAString::null()));
    round_trip(Variant::DateTime(DateTime::new(1234)));
    round_trip(Variant::Guid(Guid { data1: 9, data2: 8, data3: 7, data4: [6; 8] }));
    round_trip(Variant::ByteString(ByteString::from_bytes(&[1])));
    round_trip(Variant::XmlElement(UAString::from_str("<x/>")));
    round_trip(Variant::NodeId(NodeId::new_string(2, "n")));
    round_trip(Variant::ExpandedNodeId(ExpandedNodeId::null()));
    round_trip(Variant::StatusCode(GOOD));
    round_trip(Variant::QualifiedName(QualifiedName::new(1, "q")));
    round_trip(Variant::LocalizedText(LocalizedText::new("en", "t")));
    round_trip(Variant::ExtensionObject(ExtensionObject::null()));
    assert_eq!(Variant::decode(&[23]), Err(BAD_DECODING_ERROR));
    assert_eq!(Variant::decode(&[63]), Err(BAD_DECODING_ERROR));
    assert_eq!(Variant::decode(&[]), Err(BAD_DECODING_ERROR));
}

#[test]
fn variant_arrays() {
    let plain = Variant::Array(VariantArray {
        values: ArrayValues::Int32(Some(vec![1, 2])),
        dimensions: None,
    });
    assert_eq!(plain.type_id(), 0x86);
    assert_eq!(encoded(&plain), vec![0x86, 2, 0, 0, 0, 1, 0, 0, 0, 2, 0, 0, 0]);
    round_trip(plain);
    let matrix = Variant::Array(VariantArray {
        values: ArrayValues::Byte(Some(vec![1, 2, 3, 4, 5, 6])),
        dimensions: Some(vec![2, 3]),
    });
    assert_eq!(matrix.type_id(), 0xC3);
    assert_eq!(
        encoded(&matrix),
        vec![0xC3, 6, 0, 0, 0, 1, 2, 3, 4, 5, 6, 2, 0, 0, 0, 2, 0, 0, 0, 3, 0, 0, 0]
    );
    round_trip(matrix);
    let null = Variant::Array(VariantArray { values: ArrayValues::String(None), dimensions: None });
    assert_eq!(encoded(&null), vec![0x8C, 0xFF, 0xFF, 0xFF, 0xFF]);
    round_trip(null);
    round_trip(Variant::Array(VariantArray {
        values: ArrayValues::String(Some(vec![UAString::from_str("a"), UAString::null()])),
        dimensions: None,
    }));
    round_trip(Variant::Array(VariantArray {
        values: ArrayValues::ExtensionObject(Some(vec![ExtensionObject::null()])),
        dimensions: Some(vec![1]),
    }));
    round_trip(Variant::Array(VariantArray {
        values: ArrayValues::Double(Some(vec![0.5f64.to_bits(), (-2.0f64).to_bits()])),
        dimensions: None,
    }));
    round_trip(Variant::Array(VariantArray {
        values: ArrayValues::NodeId(Some(vec![])),
        dimensions: None,
    }));
    assert_eq!(ArrayValues::LocalizedText(None).element_type_id(), 21);
    // An empty array of integers.
    assert_eq!(
        Variant::decode(&[0x86, 0, 0, 0, 0]),
        Ok((
            Variant::Array(VariantArray {
                values: ArrayValues::Int32(Some(vec![])),
                dimensions: None
            }),
            5
        ))
    );
    // Dimensions that are null read as no dimensions.
    assert_eq!(
        Variant::decode(&[0xC1, 1, 0, 0, 0, 1, 0xFF, 0xFF, 0xFF, 0xFF]),
        Ok((
            Variant::Array(VariantArray {
                values: ArrayValues::Boolean(Some(vec![true])),
                dimensions: None
            }),
            10
        ))
    );
    // Dimensions without an array, and arrays of no type.
    assert_eq!(Variant::decode(&[0x46, 0, 0, 0, 0]), Err(BAD_DECODING_ERROR));
    assert_eq!(Variant::decode(&[0x80, 0, 0, 0, 0]), Err(BAD_DECODING_ERROR));
    assert_eq!(Variant::decode(&[0x97, 0, 0, 0, 0]), Err(BAD_DECODING_ERROR));
    // More elements than the decoder accepts.
    assert_eq!(Variant::decode(&[0x83, 0xE9, 0x03, 0, 0]), Err(BAD_ENCODING_LIMITS_EXCEEDED));
    // Dimensions that are missing.
    assert_eq!(Variant::decode(&[0xC3, 0, 0, 0, 0]), Err(BAD_DECODING_ERROR));
}

#[test]
fn data_value_mask() {
    let value = DataValue {
        value: Some(Variant::Int32(7)),
        status: None,
        source_timestamp: None,
        source_picoseconds: None,
        server_timestamp: None,
        server_picoseconds: None,
    };
    assert_eq!(value.encoding_mask(), 0x01);
    assert_eq!(encoded(&value), vec![0x01, 0x06, 0x07, 0x00, 0x00, 0x00]);
    round_trip(value);
    let full = DataValue::new_at(Variant::Boolean(true), DateTime::new(0x0102030405060708));
    assert_eq!(full.encoding_mask(), 0x3F);
    assert_eq!(
        encoded(&full),
        vec![
            0x3F, 0x01, 0x01, 0, 0, 0, 0, 8, 7, 6, 5, 4, 3, 2, 1, 0, 0, 8, 7, 6, 5, 4, 3, 2, 1,
            0, 0
        ]
    );
    round_trip(full);
    round_trip(DataValue::null_at(DateTime::new(5)));
}

#[test]
fn data_value_drops_picoseconds_without_timestamp() {
    let value = DataValue {
        value: None,
        status: Some(GOOD),
        source_timestamp: None,
        source_picoseconds: Some(5),
        server_timestamp: Some(DateTime::new(1)),
        server_picoseconds: Some(6),
    };
    assert_eq!(value.encoding_mask(), 0x2A);
    assert_eq!(encoded(&value), vec![0x2A, 0, 0, 0, 0, 1, 0, 0, 0, 0, 0, 0, 0, 6, 0]);
    // Picoseconds on the wire without their timestamp are read and dropped.
    let (decoded, read) = DataValue::decode(&[0x10, 5, 0]).unwrap();
    assert_eq!(read, 3);
    assert_eq!(decoded.source_picoseconds, None);
    assert_eq!(decoded.source_timestamp, None);
    assert_eq!(decoded.encoding_mask(), 0);
}

#[test]
fn data_value_constructors_stamp_the_time() {
    let value = DataValue::new_i32(7);
    assert_eq!(value.value, Some(Variant::Int32(7)));
    assert_eq!(value.status, Some(GOOD));
    assert!(value.source_timestamp.is_some());
    assert_eq!(value.source_timestamp, value.server_timestamp);
    assert_eq!(value.source_picoseconds, Some(0));
    assert_eq!(value.server_picoseconds, Some(0));
    // The clock stands after the year 2000.
    assert!(value.source_timestamp.unwrap().ticks > 125_911_584_000_000_000);
    assert_eq!(DataValue::new_bool(true).value, Some(Variant::Boolean(true)));
    assert_eq!(DataValue::new_byte(1).value, Some(Variant::Byte(1)));
    assert_eq!(DataValue::new_i8(-1).value, Some(Variant::SByte(-1)));
    assert_eq!(DataValue::new_u16(2).value, Some(Variant::UInt16(2)));
    assert_eq!(DataValue::new_i16(-2).value, Some(Variant::Int16(-2)));
    assert_eq!(DataValue::new_u32(3).value, Some(Variant::UInt32(3)));
    assert_eq!(
        DataValue::new_string(UAString::from_str("s")).value,
        Some(Variant::String(UAString::from_str("s")))
    );
    assert_eq!(DataValue::null().value, None);
    assert_eq!(DataValue::null().status, Some(GOOD));
}

#[test]
fn date_time_counts_from_1601() {
    assert_eq!(DateTime::from_unix(0, 0).ticks, 116_444_736_000_000_000);
    assert_eq!(DateTime::from_unix(1, 150).ticks, 116_444_736_010_000_001);
    assert_eq!(DateTime::from_unix(u64::MAX / 2, 0).ticks, i64::MAX);
    assert_eq!(DateTime::from_unix(910_692_730_085, 477_580_699).ticks, i64::MAX - 1);
    assert_eq!(DateTime::from_unix(910_692_730_085, 477_580_799).ticks, i64::MAX);
    assert_eq!(DateTime::from_unix(910_692_730_085, 999_999_999).ticks, i64::MAX);
    assert_eq!(encoded(&DateTime::new(1)), vec![1, 0, 0, 0, 0, 0, 0, 0]);
    round_trip(DateTime::new(-1));
}

#[test]
fn arrays_are_framed_like_strings() {
    let mut stream = Vec::new();
    let none: Option<Vec<u16>> = None;
    assert_eq!(write_array(&mut stream, &none), Ok(4));
    assert_eq!(stream, vec![0xFF, 0xFF, 0xFF, 0xFF]);
    let mut stream = Vec::new();
    assert_eq!(write_array(&mut stream, &Some(vec![1u16, 2u16])), Ok(8));
    assert_eq!(stream, vec![2, 0, 0, 0, 1, 0, 2, 0]);
    assert_eq!(read_array::<u16>(&stream), Ok((Some(vec![1u16, 2u16]), 8)));
    assert_eq!(read_array::<u16>(&[0xFF, 0xFF, 0xFF, 0xFF]), Ok((None, 4)));
    assert_eq!(read_array::<u16>(&[0, 0, 0, 0]), Ok((Some(vec![]), 4)));
    assert_eq!(read_array::<u16>(&[0xFE, 0xFF, 0xFF, 0xFF]), Err(BAD_DECODING_ERROR));
    // One element more than the limit.
    assert_eq!(read_array::<u8>(&[0xE9, 0x03, 0, 0]), Err(BAD_ENCODING_LIMITS_EXCEEDED));
    // As many elements as the limit.
    let mut big = vec![0xE8, 0x03, 0, 0];
    big.extend_from_slice(&[7u8; 1000]);
    assert_eq!(read_array::<u8>(&big), Ok((Some(vec![7u8; 1000]), 1004)));
    // Fewer elements than the length announces.
    assert_eq!(read_array::<u16>(&[2, 0, 0, 0, 1, 0]), Err(BAD_DECODING_ERROR));
    // An element that cannot be read gives its own error.
    assert_eq!(
        read_array::<UAString>(&[1, 0, 0, 0, 0x00, 0x00, 0x01, 0x00]),
        Err(BAD_ENCODING_LIMITS_EXCEEDED)
    );
}

fn sample_path() -> RelativePath {
    RelativePath {
        elements: Some(vec![
            RelativePathElement {
                reference_type_id: NodeId::new_numeric(0, 35),
                is_inverse: false,
                include_subtypes: true,
                target_name: QualifiedName::new(0, "Objects"),
            },
            RelativePathElement {
                reference_type_id: NodeId::null(),
                is_inverse: true,
                include_subtypes: false,
                target_name: QualifiedName::new(1, "x"),
            },
        ]),
    }
}

#[test]
fn structures_are_their_fields_in_order() {
    let reference = ReferenceNode {
        reference_type_id: NodeId::new_numeric(0, 35),
        is_inverse: true,
        target_id: ExpandedNodeId::new(&NodeId::new_numeric(0, 85)),
    };
    assert_eq!(encoded(&reference), vec![0x00, 35, 0x01, 0x00, 85]);
    round_trip(reference);

    let path = BrowsePath { starting_node: NodeId::new_numeric(0, 84), relative_path: sample_path() };
    let stream = encoded(&path);
    assert_eq!(&stream[..6], &[0x00, 84, 2, 0, 0, 0]);
    assert_eq!(&stream[6..10], &[0x00, 35, 0x00, 0x01]);
    round_trip(path);
    round_trip(BrowsePath {
        starting_node: NodeId::null(),
        relative_path: RelativePath { elements: None },
    });

    let history = HistoryReadValueId {
        node_id: NodeId::new_numeric(0, 1),
        index_range: UAString::from_str("1:2"),
        data_encoding: QualifiedName::null(),
        continuation_point: ByteString::from_bytes(&[5]),
    };
    assert_eq!(
        encoded(&history),
        vec![
            0x00, 1, 3, 0, 0, 0, b'1', b':', b'2', 0, 0, 0xFF, 0xFF, 0xFF, 0xFF, 1, 0, 0, 0, 5
        ]
    );
    round_trip(history);
}

#[test]
fn content_filter_structures() {
    assert_eq!(encoded(&FilterOperator::Equals), vec![0, 0, 0, 0]);
    assert_eq!(encoded(&FilterOperator::BitwiseOr), vec![17, 0, 0, 0]);
    assert_eq!(FilterOperator::InList.number(), 9);
    assert_eq!(FilterOperator::from_number(10), Some(FilterOperator::And));
    assert_eq!(FilterOperator::from_number(18), None);
    assert_eq!(FilterOperator::decode(&[18, 0, 0, 0]), Err(BAD_DECODING_ERROR));
    assert_eq!(FilterOperator::decode(&[0xFF, 0xFF, 0xFF, 0xFF]), Err(BAD_DECODING_ERROR));
    round_trip(FilterOperator::Like);

    let element = ContentFilterElement {
        filter_operator: FilterOperator::Between,
        filter_operands: Some(vec![ExtensionObject::null(), ExtensionObject::null()]),
    };
    assert_eq!(encoded(&element), vec![8, 0, 0, 0, 2, 0, 0, 0, 0, 0, 0, 0, 0, 0]);
    round_trip(element);

    let element_result = ContentFilterElementResult {
        status_code: BAD_NODE_ID_UNKNOWN,
        operand_status_codes: Some(vec![GOOD, BAD_DECODING_ERROR]),
        operand_diagnostic_infos: None,
    };
    assert_eq!(
        encoded(&element_result),
        vec![
            0, 0, 0x34, 0x80, 2, 0, 0, 0, 0, 0, 0, 0, 0, 0, 0x07, 0x80, 0xFF, 0xFF, 0xFF, 0xFF
        ]
    );
    round_trip(element_result.clone());

    let result = ContentFilterResult {
        element_results: Some(vec![element_result]),
        element_diagnostic_infos: Some(vec![DiagnosticInfo::new(), nested(2)]),
    };
    round_trip(result);
    round_trip(ContentFilterResult { element_results: None, element_diagnostic_infos: None });
}

#[test]
fn structures_name_the_object_of_their_encoding() {
    let reference = ReferenceNode {
        reference_type_id: NodeId::null(),
        is_inverse: false,
        target_id: ExpandedNodeId::null(),
    };
    assert_eq!(reference.object_id(), ObjectId::ReferenceNode_Encoding_DefaultBinary);
    assert_eq!(reference.object_id().as_node_id(), NodeId::new_numeric(0, 287));
    let path = BrowsePath { starting_node: NodeId::null(), relative_path: sample_path() };
    assert_eq!(path.object_id().as_node_id(), NodeId::new_numeric(0, 545));
    let history = HistoryReadValueId {
        node_id: NodeId::null(),
        index_range: UAString::null(),
        data_encoding: QualifiedName::null(),
        continuation_point: ByteString::null(),
    };
    assert_eq!(history.object_id().as_node_id(), NodeId::new_numeric(0, 637));
    let element =
        ContentFilterElement { filter_operator: FilterOperator::Equals, filter_operands: None };
    assert_eq!(element.object_id().as_node_id(), NodeId::new_numeric(0, 585));
    let result = ContentFilterResult { element_results: None, element_diagnostic_infos: None };
    assert_eq!(result.object_id().as_node_id(), NodeId::new_numeric(0, 609));
    assert_eq!(ObjectId::RootFolder.as_node_id(), NodeId::new_numeric(0, 84));
    assert_eq!(ObjectId::ObjectsFolder.as_node_id(), NodeId::new_numeric(0, 85));
    assert_eq!(ObjectId::TypesFolder.as_node_id(), NodeId::new_numeric(0, 86));
    assert_eq!(ObjectId::ViewsFolder.as_node_id(), NodeId::new_numeric(0, 87));
}
