use bytes::BytesMut;
use iec61850_mms::asn1::encode_length;
use iec61850_mms::mms::error::MmsError;
use iec61850_mms::mms::pdu::get_name_list::{
    decode_confirmed_get_name_list_request, decode_confirmed_get_name_list_response,
    encode_confirmed_get_name_list_request, encode_confirmed_get_name_list_response,
    GetNameListRequest, GetNameListResponse, ObjectClass, ObjectScope,
};

// ObjectClass conversion

#[test]
fn object_class_try_from_supported_values() {
    assert_eq!(
        ObjectClass::try_from(0u32).unwrap(),
        ObjectClass::NamedVariable
    );
    assert_eq!(
        ObjectClass::try_from(2u32).unwrap(),
        ObjectClass::NamedVariableList
    );
    assert_eq!(ObjectClass::try_from(8u32).unwrap(), ObjectClass::Journal);
    assert_eq!(ObjectClass::try_from(9u32).unwrap(), ObjectClass::Domain);
}

#[test]
fn object_class_try_from_unsupported_returns_err() {
    // values that are defined but not served here
    for v in [1u32, 3, 4, 5, 6, 7, 10] {
        assert!(
            matches!(
                ObjectClass::try_from(v),
                Err(MmsError::UnsupportedObjectClass(_))
            ),
            "objectclass {} must return an error",
            v
        );
    }
}

// GetNameListRequest encode and decode round trips

#[test]
fn request_vmd_named_variable_no_continue_after_roundtrip() {
    let req = GetNameListRequest {
        object_class: ObjectClass::NamedVariable,
        object_scope: ObjectScope::VmdSpecific,
        continue_after: None,
    };
    let mut buf = BytesMut::new();
    req.encode(&mut buf);
    let decoded = GetNameListRequest::decode(&buf).unwrap();
    assert_eq!(decoded, req);
}

#[test]
fn request_domain_named_variable_with_continue_after_roundtrip() {
    let req = GetNameListRequest {
        object_class: ObjectClass::NamedVariable,
        object_scope: ObjectScope::DomainSpecific("TESTLD".to_string()),
        continue_after: Some("GGIO1".to_string()),
    };
    let mut buf = BytesMut::new();
    req.encode(&mut buf);
    let decoded = GetNameListRequest::decode(&buf).unwrap();
    assert_eq!(decoded, req);
}

#[test]
fn request_aa_specific_nvl_no_continue_after_roundtrip() {
    let req = GetNameListRequest {
        object_class: ObjectClass::NamedVariableList,
        object_scope: ObjectScope::AaSpecific,
        continue_after: None,
    };
    let mut buf = BytesMut::new();
    req.encode(&mut buf);
    let decoded = GetNameListRequest::decode(&buf).unwrap();
    assert_eq!(decoded, req);
}

#[test]
fn request_vmd_domain_class_roundtrip() {
    let req = GetNameListRequest {
        object_class: ObjectClass::Domain,
        object_scope: ObjectScope::VmdSpecific,
        continue_after: None,
    };
    let mut buf = BytesMut::new();
    req.encode(&mut buf);
    let decoded = GetNameListRequest::decode(&buf).unwrap();
    assert_eq!(decoded, req);
}

#[test]
fn request_vmd_journal_with_continue_after_roundtrip() {
    let req = GetNameListRequest {
        object_class: ObjectClass::Journal,
        object_scope: ObjectScope::VmdSpecific,
        continue_after: Some("JournalA".to_string()),
    };
    let mut buf = BytesMut::new();
    req.encode(&mut buf);
    let decoded = GetNameListRequest::decode(&buf).unwrap();
    assert_eq!(decoded, req);
}

#[test]
fn request_domain_nvl_no_continue_after_roundtrip() {
    let req = GetNameListRequest {
        object_class: ObjectClass::NamedVariableList,
        object_scope: ObjectScope::DomainSpecific("LD1".to_string()),
        continue_after: None,
    };
    let mut buf = BytesMut::new();
    req.encode(&mut buf);
    let decoded = GetNameListRequest::decode(&buf).unwrap();
    assert_eq!(decoded, req);
}

// GetNameListResponse encode and decode round trips

#[test]
fn response_empty_identifiers_more_follows_true_roundtrip() {
    let resp = GetNameListResponse {
        identifiers: vec![],
        more_follows: true,
    };
    let mut buf = BytesMut::new();
    resp.encode(&mut buf);
    let decoded = GetNameListResponse::decode(&buf).unwrap();
    assert_eq!(decoded, resp);
}

#[test]
fn response_multiple_identifiers_more_follows_false_roundtrip() {
    let resp = GetNameListResponse {
        identifiers: vec![
            "GGIO1".to_string(),
            "GGIO2".to_string(),
            "GGIO3".to_string(),
        ],
        more_follows: false,
    };
    let mut buf = BytesMut::new();
    resp.encode(&mut buf);
    let decoded = GetNameListResponse::decode(&buf).unwrap();
    assert_eq!(decoded, resp);
}

#[test]
fn response_single_identifier_more_follows_true_roundtrip() {
    let resp = GetNameListResponse {
        identifiers: vec!["XCBR1".to_string()],
        more_follows: true,
    };
    let mut buf = BytesMut::new();
    resp.encode(&mut buf);
    let decoded = GetNameListResponse::decode(&buf).unwrap();
    assert_eq!(decoded, resp);
}

// moreFollows DEFAULT TRUE semantics

#[test]
fn response_more_follows_true_is_omitted_in_wire() {
    // a true moreFollows omits the field, since TRUE is the default
    let resp = GetNameListResponse {
        identifiers: vec!["A".to_string()],
        more_follows: true,
    };
    let mut buf = BytesMut::new();
    resp.encode(&mut buf);
    // no 0x81 tag must be present, as it is written only for false
    let has_more_follows_byte = buf.contains(&0x81);
    assert!(
        !has_more_follows_byte,
        "moreFollows true must not write the 0x81 tag"
    );
}

#[test]
fn response_more_follows_false_writes_0x81_0x01_0x00() {
    // a false moreFollows writes 0x81 0x01 0x00
    let resp = GetNameListResponse {
        identifiers: vec![],
        more_follows: false,
    };
    let mut buf = BytesMut::new();
    resp.encode(&mut buf);
    let bytes = &buf[..];
    let found = bytes.windows(3).any(|w| w == [0x81, 0x01, 0x00]);
    assert!(
        found,
        "moreFollows false must produce 0x81 0x01 0x00, got: {:02X?}",
        bytes
    );
}

#[test]
fn decode_response_missing_more_follows_defaults_to_true() {
    // a hand-built response with only listOfIdentifier and no moreFollows field
    // wire: 0xa1 <len> 0xa0 <id_list_len> [identifiers...]
    let id_bytes = b"A";
    // inner of 0xa0: 0x1a 0x01 b'A'
    let id_list_inner: &[u8] = &[0x1a, 0x01, b'A'];
    let mut buf = BytesMut::new();
    buf.extend_from_slice(&[0xa1]); // service tag
                                    // inner = 0xa0 <len> <id_list_inner>
    let inner_len = 1 + 1 + id_list_inner.len(); // 0xa0 len content
    encode_length(inner_len, &mut buf);
    buf.extend_from_slice(&[0xa0]);
    encode_length(id_list_inner.len(), &mut buf);
    buf.extend_from_slice(id_list_inner);

    let decoded = GetNameListResponse::decode(&buf).unwrap();
    assert_eq!(decoded.identifiers, vec!["A".to_string()]);
    assert!(
        decoded.more_follows,
        "an absent moreFollows must default to true"
    );
    let _ = id_bytes;
}

#[test]
fn decode_response_more_follows_nonzero_bytes_are_true() {
    // any non-zero moreFollows byte decodes as true
    for &byte_val in &[0x01u8, 0x0f, 0xffu8] {
        // a hand-built response carrying moreFollows = byte_val
        // wire: 0xa1 <len> 0xa0 0x00 0x81 0x01 <byte_val>
        let mut buf = BytesMut::new();
        buf.extend_from_slice(&[0xa1]);
        // content is 0xa0 0x00, an empty list, plus 0x81 0x01 <byte_val>
        let inner: &[u8] = &[0xa0, 0x00, 0x81, 0x01, byte_val];
        encode_length(inner.len(), &mut buf);
        buf.extend_from_slice(inner);
        let decoded = GetNameListResponse::decode(&buf).unwrap();
        assert!(
            decoded.more_follows,
            "moreFollows byte 0x{:02X} must decode as true",
            byte_val
        );
    }
}

#[test]
fn decode_response_more_follows_zero_is_false() {
    // a moreFollows byte of 0x00 decodes as false
    let mut buf = BytesMut::new();
    buf.extend_from_slice(&[0xa1]);
    let inner: &[u8] = &[0xa0, 0x00, 0x81, 0x01, 0x00];
    encode_length(inner.len(), &mut buf);
    buf.extend_from_slice(inner);
    let decoded = GetNameListResponse::decode(&buf).unwrap();
    assert!(
        !decoded.more_follows,
        "moreFollows byte 0x00 must decode as false"
    );
}

// objectClass inner tag validation

#[test]
fn decode_request_invalid_object_class_inner_tag_returns_err() {
    // an objectClass 0xa0 wrapper whose inner tag is 0x81 instead of 0x80
    // wire: 0xa1 <len>
    //   0xa0 0x03 0x81 0x01 0x09   inner tag 0x81, which is wrong
    //   0xa1 0x02 0x80 0x00        objectScope vmdSpecific
    let inner: &[u8] = &[
        0xa0, 0x03, 0x81, 0x01, 0x09, // objectClass with the wrong inner tag 0x81
        0xa1, 0x02, 0x80, 0x00, // objectScope vmdSpecific
    ];
    let mut buf = BytesMut::new();
    buf.extend_from_slice(&[0xa1]);
    encode_length(inner.len(), &mut buf);
    buf.extend_from_slice(inner);

    let result = GetNameListRequest::decode(&buf);
    assert!(
        matches!(result, Err(MmsError::InvalidPdu)),
        "an objectClass inner tag other than 0x80 must return Err(InvalidPdu), got: {:?}",
        result
    );
}

// boundary: continueAfter length of 130 or more

#[test]
fn decode_request_continue_after_130_bytes_returns_err() {
    // a continueAfter of 130 bytes
    let long_ca = "X".repeat(130);
    let req = GetNameListRequest {
        object_class: ObjectClass::NamedVariable,
        object_scope: ObjectScope::VmdSpecific,
        continue_after: Some(long_ca.clone()),
    };
    // encoding is allowed, since the encoder does not validate the length
    let mut buf = BytesMut::new();
    req.encode(&mut buf);
    // decoding must reject it
    let result = GetNameListRequest::decode(&buf);
    assert!(
        matches!(result, Err(MmsError::InvalidPdu)),
        "a 130-byte continueAfter must return Err(InvalidPdu), got: {:?}",
        result
    );
}

#[test]
fn decode_request_continue_after_129_bytes_ok() {
    // 129 bytes is the largest accepted length
    let ca = "X".repeat(129);
    let req = GetNameListRequest {
        object_class: ObjectClass::NamedVariable,
        object_scope: ObjectScope::VmdSpecific,
        continue_after: Some(ca),
    };
    let mut buf = BytesMut::new();
    req.encode(&mut buf);
    let result = GetNameListRequest::decode(&buf);
    assert!(
        result.is_ok(),
        "a 129-byte continueAfter must decode, got: {:?}",
        result
    );
}

// boundary: domainName longer than 64 bytes

#[test]
fn decode_request_domain_name_65_bytes_returns_err() {
    let long_domain = "D".repeat(65);
    let req = GetNameListRequest {
        object_class: ObjectClass::NamedVariable,
        object_scope: ObjectScope::DomainSpecific(long_domain),
        continue_after: None,
    };
    let mut buf = BytesMut::new();
    req.encode(&mut buf);
    let result = GetNameListRequest::decode(&buf);
    assert!(
        matches!(result, Err(MmsError::InvalidPdu)),
        "a 65-byte domainName must return Err(InvalidPdu), got: {:?}",
        result
    );
}

#[test]
fn decode_request_domain_name_64_bytes_ok() {
    // 64 bytes is the largest accepted length
    let domain = "D".repeat(64);
    let req = GetNameListRequest {
        object_class: ObjectClass::NamedVariable,
        object_scope: ObjectScope::DomainSpecific(domain),
        continue_after: None,
    };
    let mut buf = BytesMut::new();
    req.encode(&mut buf);
    let result = GetNameListRequest::decode(&buf);
    assert!(
        result.is_ok(),
        "a 64-byte domainName must decode, got: {:?}",
        result
    );
}

// byte-exact encoding

/// objectClass Domain(9), scope vmdSpecific, no continueAfter.
/// Expected wire bytes:
///
/// ```text
/// 0xa1 0x09                    -- service tag + len(9)
///   0xa0 0x03                  -- objectClass [0] EXPLICIT len=3
///     0x80 0x01 0x09           -- basicObjectClass INTEGER 9
///   0xa1 0x02                  -- objectScope [1] EXPLICIT len=2
///     0x80 0x00                -- vmdSpecific NULL
/// ```
/// The content is 5 + 4 = 9 bytes.
#[test]
fn request_byte_exact_domain_class_vmd_scope() {
    let req = GetNameListRequest {
        object_class: ObjectClass::Domain,
        object_scope: ObjectScope::VmdSpecific,
        continue_after: None,
    };
    let mut buf = BytesMut::new();
    req.encode(&mut buf);

    let expected: &[u8] = &[
        0xa1, 0x09, // service tag + len=9
        0xa0, 0x03, // objectClass [0] EXPLICIT
        0x80, 0x01, 0x09, // basicObjectClass INTEGER 9 (Domain)
        0xa1, 0x02, // objectScope [1] EXPLICIT
        0x80, 0x00, // vmdSpecific NULL
    ];
    assert_eq!(
        &buf[..],
        expected,
        "encoding is not byte exact: got={:02X?}, expected={:02X?}",
        &buf[..],
        expected
    );
}

/// A response with the identifiers "A" and "B" and moreFollows false.
/// ```text
/// 0xa1 0x0b                    -- service tag + len(11)
///   0xa0 0x06                  -- listOfIdentifier [0] len=6
///     0x1a 0x01 0x41           -- "A"
///     0x1a 0x01 0x42           -- "B"
///   0x81 0x01 0x00             -- moreFollows false
/// ```
/// The content is 8 bytes, 0xa0 0x06 plus 6, and 3 more for 0x81 0x01 0x00, so 11.
#[test]
fn response_byte_exact_two_ids_more_follows_false() {
    let resp = GetNameListResponse {
        identifiers: vec!["A".to_string(), "B".to_string()],
        more_follows: false,
    };
    let mut buf = BytesMut::new();
    resp.encode(&mut buf);

    let expected: &[u8] = &[
        0xa1, 0x0b, // service tag + len=11
        0xa0, 0x06, // listOfIdentifier [0] len=6
        0x1a, 0x01, 0x41, // "A"
        0x1a, 0x01, 0x42, // "B"
        0x81, 0x01, 0x00, // moreFollows false
    ];
    assert_eq!(
        &buf[..],
        expected,
        "encoding is not byte exact: got={:02X?}, expected={:02X?}",
        &buf[..],
        expected
    );
}

/// A response with the identifier "Hello" and moreFollows true, which omits the
/// moreFollows field.
/// ```text
/// 0xa1 0x09                    -- service tag + len(9)
///   0xa0 0x07                  -- listOfIdentifier [0] len=7
///     0x1a 0x05 <Hello>        -- "Hello"
/// ```
#[test]
fn response_byte_exact_one_id_more_follows_true_omitted() {
    let resp = GetNameListResponse {
        identifiers: vec!["Hello".to_string()],
        more_follows: true,
    };
    let mut buf = BytesMut::new();
    resp.encode(&mut buf);

    let expected: &[u8] = &[
        0xa1, 0x09, // service tag + len=9
        0xa0, 0x07, // listOfIdentifier [0] len=7
        0x1a, 0x05, b'H', b'e', b'l', b'l', b'o',
    ];
    assert_eq!(
        &buf[..],
        expected,
        "encoding is not byte exact: got={:02X?}, expected={:02X?}",
        &buf[..],
        expected
    );
}

// ConfirmedRequestPdu and ConfirmedResponsePdu wrappers

#[test]
fn confirmed_get_name_list_request_roundtrip() {
    let req = GetNameListRequest {
        object_class: ObjectClass::NamedVariable,
        object_scope: ObjectScope::DomainSpecific("TESTLD".to_string()),
        continue_after: None,
    };
    let mut buf = BytesMut::new();
    encode_confirmed_get_name_list_request(42, &req, &mut buf);
    assert_eq!(buf[0], 0xa0);
    let (invoke_id, decoded_req) = decode_confirmed_get_name_list_request(&buf).unwrap();
    assert_eq!(invoke_id, 42);
    assert_eq!(decoded_req, req);
}

#[test]
fn confirmed_get_name_list_response_roundtrip() {
    let resp = GetNameListResponse {
        identifiers: vec!["XCBR1".to_string(), "GGIO1".to_string()],
        more_follows: false,
    };
    let mut buf = BytesMut::new();
    encode_confirmed_get_name_list_response(99, &resp, &mut buf);
    assert_eq!(buf[0], 0xa1);
    let (invoke_id, decoded_resp) = decode_confirmed_get_name_list_response(&buf).unwrap();
    assert_eq!(invoke_id, 99);
    assert_eq!(decoded_resp, resp);
}

// Malformed input must be rejected

#[test]
fn decode_request_wrong_tag_err() {
    // 0xa4, the Read service tag, instead of 0xa1
    let data = [0xa4u8, 0x00];
    let result = GetNameListRequest::decode(&data);
    assert!(matches!(
        result,
        Err(MmsError::InvalidTag {
            expected: 0xa1,
            actual: 0xa4
        })
    ));
}

#[test]
fn decode_request_empty_returns_truncated() {
    let result = GetNameListRequest::decode(&[]);
    assert!(matches!(result, Err(MmsError::TruncatedPdu)));
}

#[test]
fn decode_response_wrong_tag_err() {
    let data = [0xa4u8, 0x00];
    let result = GetNameListResponse::decode(&data);
    assert!(matches!(
        result,
        Err(MmsError::InvalidTag {
            expected: 0xa1,
            actual: 0xa4
        })
    ));
}

#[test]
fn decode_response_missing_identifier_list_err() {
    // 0xa1 with a length but no 0xa0 listOfIdentifier
    let data = [0xa1u8, 0x00];
    let result = GetNameListResponse::decode(&data);
    assert!(
        result.is_err(),
        "a missing listOfIdentifier must return an error, got: {:?}",
        result
    );
}

#[test]
fn get_name_list_decode_request_truncated_returns_err() {
    let data = [0xa1u8]; // a tag with no length byte
    let result = GetNameListRequest::decode(&data);
    assert!(result.is_err());
}
