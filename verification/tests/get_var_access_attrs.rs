use bytes::BytesMut;
use iec61850_mms::asn1::effective_nesting_cap;
use iec61850_mms::mms::error::MmsError;
use iec61850_mms::mms::pdu::get_var_access_attrs::{
    decode_confirmed_get_var_access_attrs_request, decode_confirmed_get_var_access_attrs_response,
    decode_confirmed_get_var_access_attrs_response_with_negotiated_cap,
    encode_confirmed_get_var_access_attrs_request, encode_confirmed_get_var_access_attrs_response,
    GetVariableAccessAttributesRequest, GetVariableAccessAttributesResponse,
    SERVICE_TAG_GET_VAR_ACCESS_ATTRS,
};
use iec61850_mms::mms::pdu::object_name::ObjectName;
use iec61850_mms::mms::pdu::type_specification::{
    StructComponent, TypeSpecification, MAX_TYPE_SPEC_DEPTH,
};

// GetVariableAccessAttributesRequest round trips

#[test]
fn request_domain_specific_roundtrip() {
    let req = GetVariableAccessAttributesRequest {
        object_name: ObjectName::DomainSpecific {
            domain_id: "LDCB".to_owned(),
            item_id: "CSWI1$ST$Pos".to_owned(),
        },
    };
    let mut buf = BytesMut::new();
    req.encode(&mut buf);
    let decoded = GetVariableAccessAttributesRequest::decode(&buf).unwrap();
    assert_eq!(decoded, req);
}

#[test]
fn request_vmd_specific_roundtrip() {
    // VMD scope, so no domain is named
    let req = GetVariableAccessAttributesRequest {
        object_name: ObjectName::VmdSpecific("VAR".to_owned()),
    };
    let mut buf = BytesMut::new();
    req.encode(&mut buf);
    let decoded = GetVariableAccessAttributesRequest::decode(&buf).unwrap();
    assert_eq!(decoded, req);
}

// GetVariableAccessAttributesResponse round trips

#[test]
fn response_simple_boolean_type_roundtrip() {
    let resp = GetVariableAccessAttributesResponse {
        mms_deletable: false,
        type_specification: TypeSpecification::Boolean,
    };
    let mut buf = BytesMut::new();
    resp.encode(&mut buf).unwrap();
    let decoded = GetVariableAccessAttributesResponse::decode(&buf).unwrap();
    assert_eq!(decoded, resp);
}

#[test]
fn response_float32_type_roundtrip() {
    // float32: formatwidth 32, exponentwidth 8
    let resp = GetVariableAccessAttributesResponse {
        mms_deletable: false,
        type_specification: TypeSpecification::FloatingPoint {
            format_width: 32,
            exponent_width: 8,
        },
    };
    let mut buf = BytesMut::new();
    resp.encode(&mut buf).unwrap();
    let decoded = GetVariableAccessAttributesResponse::decode(&buf).unwrap();
    assert_eq!(decoded, resp);
}

#[test]
fn response_complex_structure_roundtrip() {
    // a typical IEC 61850 single point status: stVal, q and t
    let resp = GetVariableAccessAttributesResponse {
        mms_deletable: false,
        type_specification: TypeSpecification::Structure {
            components: vec![
                StructComponent {
                    name: "stVal".to_owned(),
                    type_spec: TypeSpecification::Boolean,
                },
                StructComponent {
                    name: "q".to_owned(),
                    type_spec: TypeSpecification::BitString { bits: 13 },
                },
                StructComponent {
                    name: "t".to_owned(),
                    type_spec: TypeSpecification::UtcTime,
                },
            ],
        },
    };
    let mut buf = BytesMut::new();
    resp.encode(&mut buf).unwrap();
    let decoded = GetVariableAccessAttributesResponse::decode(&buf).unwrap();
    assert_eq!(decoded, resp);
}

#[test]
fn response_mms_deletable_true_roundtrip() {
    // mmsDeletable true must survive decoding
    let resp = GetVariableAccessAttributesResponse {
        mms_deletable: true,
        type_specification: TypeSpecification::Integer { width_bits: 32 },
    };
    let mut buf = BytesMut::new();
    resp.encode(&mut buf).unwrap();
    let decoded = GetVariableAccessAttributesResponse::decode(&buf).unwrap();
    assert!(decoded.mms_deletable);
    assert_eq!(decoded.type_specification, resp.type_specification);
}

// ConfirmedRequestPdu and ConfirmedResponsePdu wrappers

#[test]
fn confirmed_request_domain_specific_roundtrip() {
    let req = GetVariableAccessAttributesRequest {
        object_name: ObjectName::DomainSpecific {
            domain_id: "TESTLD".to_owned(),
            item_id: "GGIO1$ST$Ind$stVal".to_owned(),
        },
    };
    let mut buf = BytesMut::new();
    encode_confirmed_get_var_access_attrs_request(7, &req, &mut buf);
    assert_eq!(
        buf[0], 0xa0,
        "the outer tag must be 0xa0, a ConfirmedRequestPdu"
    );
    let (invoke_id, decoded_req) = decode_confirmed_get_var_access_attrs_request(&buf).unwrap();
    assert_eq!(invoke_id, 7);
    assert_eq!(decoded_req, req);
}

#[test]
fn confirmed_response_complex_type_spec_roundtrip() {
    // a response carrying an array of structures
    let resp = GetVariableAccessAttributesResponse {
        mms_deletable: false,
        type_specification: TypeSpecification::Array {
            element_count: 3,
            element_type: Box::new(TypeSpecification::Structure {
                components: vec![
                    StructComponent {
                        name: "val".to_owned(),
                        type_spec: TypeSpecification::FloatingPoint {
                            format_width: 32,
                            exponent_width: 8,
                        },
                    },
                    StructComponent {
                        name: "t".to_owned(),
                        type_spec: TypeSpecification::UtcTime,
                    },
                ],
            }),
        },
    };
    let mut buf = BytesMut::new();
    encode_confirmed_get_var_access_attrs_response(42, &resp, &mut buf).unwrap();
    assert_eq!(
        buf[0], 0xa1,
        "the outer tag must be 0xa1, a ConfirmedResponsePdu"
    );
    let (invoke_id, decoded_resp) =
        decode_confirmed_get_var_access_attrs_response(&buf).unwrap();
    assert_eq!(invoke_id, 42);
    assert_eq!(decoded_resp, resp);
}

// byte-exact encoding

/// A response with mmsDeletable false and a Boolean typeSpecification.
///
/// ```text
/// 0xa6 0x07             -- [6] IMPLICIT SEQUENCE, len=7
///   0x80 0x01 0x00      -- mmsDeletable [0] IMPLICIT BOOLEAN false
///   0xa2 0x02           -- typeSpecification [2] EXPLICIT, len=2
///     0x83 0x00         -- TypeSpec::Boolean
/// ```
///
/// The content is 7 bytes: 3 for mmsDeletable plus 4 for typeSpecification.
#[test]
fn response_boolean_type_byte_exact() {
    let resp = GetVariableAccessAttributesResponse {
        mms_deletable: false,
        type_specification: TypeSpecification::Boolean,
    };
    let mut buf = BytesMut::new();
    resp.encode(&mut buf).unwrap();
    let expected: &[u8] = &[
        0xa6, 0x07, // [6] IMPLICIT SEQUENCE, len=7
        0x80, 0x01, 0x00, // mmsDeletable false
        0xa2, 0x02, // typeSpecification [2] EXPLICIT, len=2
        0x83, 0x00, // TypeSpec::Boolean
    ];
    assert_eq!(
        &buf[..],
        expected,
        "encoding is not byte exact: got {:02X?}, expected {:02X?}",
        &buf[..],
        expected
    );
}

// malformed input and error paths

#[test]
fn request_wrong_tag_err() {
    // 0xa5 instead of 0xa6
    let data = [0xa5u8, 0x00];
    let result = GetVariableAccessAttributesRequest::decode(&data);
    assert!(matches!(
        result,
        Err(MmsError::InvalidTag {
            expected: 0xa6,
            actual: 0xa5
        })
    ));
}

#[test]
fn request_address_variant_err() {
    // the address [1] alternative, tag 0xa1, is not supported
    // wire: 0xa6 <len> 0xa1 <len> <address bytes>
    let inner: &[u8] = &[0xa1, 0x00]; // an empty address [1]
    let mut buf = BytesMut::new();
    buf.extend_from_slice(&[0xa6]);
    buf.extend_from_slice(&[inner.len() as u8]);
    buf.extend_from_slice(inner);
    let result = GetVariableAccessAttributesRequest::decode(&buf);
    assert!(
        matches!(result, Err(MmsError::InvalidPdu)),
        "an address request must return Err(InvalidPdu), got: {:?}",
        result
    );
}

#[test]
fn response_missing_type_spec_err() {
    // mmsDeletable alone, with no typeSpecification
    // wire: 0xa6 0x03 0x80 0x01 0x00
    let data: &[u8] = &[0xa6, 0x03, 0x80, 0x01, 0x00];
    let result = GetVariableAccessAttributesResponse::decode(data);
    assert!(
        result.is_err(),
        "a missing typeSpecification must return an error, got: {:?}",
        result
    );
}

#[test]
fn request_empty_returns_truncated() {
    let result = GetVariableAccessAttributesRequest::decode(&[]);
    assert!(matches!(result, Err(MmsError::TruncatedPdu)));
}

#[test]
fn response_empty_returns_truncated() {
    let result = GetVariableAccessAttributesResponse::decode(&[]);
    assert!(matches!(result, Err(MmsError::TruncatedPdu)));
}

#[test]
fn request_truncated_pdu_err() {
    // 0xa6 0x10 declares 16 bytes with none present
    let data = [0xa6u8, 0x10];
    let result = GetVariableAccessAttributesRequest::decode(&data);
    assert!(matches!(result, Err(MmsError::TruncatedPdu)));
}

// decode_with_negotiated_cap

/// Builds a response whose typeSpecification nests `nest_depth` arrays.
fn build_response_with_nested_typespec(nest_depth: usize) -> BytesMut {
    fn push_len(out: &mut Vec<u8>, len: usize) {
        if len < 128 {
            out.push(len as u8);
        } else if len <= 0xff {
            out.push(0x81);
            out.push(len as u8);
        } else {
            out.push(0x82);
            out.push((len >> 8) as u8);
            out.push((len & 0xff) as u8);
        }
    }
    fn make_nested(depth: usize) -> Vec<u8> {
        if depth == 0 {
            return vec![0x83, 0x00]; // TypeSpec::Boolean
        }
        let inner = make_nested(depth - 1);
        // array elementType TLV
        let mut et_tlv = vec![0xa2u8];
        push_len(&mut et_tlv, inner.len());
        et_tlv.extend_from_slice(&inner);
        let count_part: &[u8] = &[0x81, 0x01, 0x01];
        let total_inner = count_part.len() + et_tlv.len();
        let mut result = vec![0xa1u8]; // array tag
        push_len(&mut result, total_inner);
        result.extend_from_slice(count_part);
        result.extend_from_slice(&et_tlv);
        result
    }
    let ts_bytes = make_nested(nest_depth);
    // Response body = 0x80 0x01 0x00 (mmsDeletable) + 0xa2 <len> <ts>
    let mut inner = Vec::new();
    inner.extend_from_slice(&[0x80, 0x01, 0x00]); // mmsDeletable=false
    inner.push(0xa2u8); // typeSpecification [2] EXPLICIT
    push_len(&mut inner, ts_bytes.len());
    inner.extend_from_slice(&ts_bytes);
    // 0xa6 <len> <inner>, using the length writer that handles long forms
    let mut buf = BytesMut::new();
    buf.extend_from_slice(&[SERVICE_TAG_GET_VAR_ACCESS_ATTRS]);
    let mut len_bytes = Vec::new();
    push_len(&mut len_bytes, inner.len());
    buf.extend_from_slice(&len_bytes);
    buf.extend_from_slice(&inner);
    buf
}

/// With a negotiated ceiling of 5, six nested levels must fail.
#[test]
fn response_negotiated_cap_lower_clamps_typespec_depth() {
    let buf = build_response_with_nested_typespec(6);
    let result = GetVariableAccessAttributesResponse::decode_with_negotiated_cap(&buf, Some(5));
    assert!(
        matches!(result, Err(MmsError::NestingLevelExceeded { .. })),
        "with a negotiated cap of 5, six levels must fail, got: {:?}",
        result
    );
}

/// A negotiated ceiling of 100 clamps to the local 32.
///
/// The clamp itself is checked through `effective_nesting_cap`, and the depth
/// guard through a six-level response, since a 33-level response exceeds the
/// short-form length this helper builds.
#[test]
fn response_negotiated_higher_than_local_still_clamps() {
    // the effective cap itself
    let effective = effective_nesting_cap(MAX_TYPE_SPEC_DEPTH, Some(100));
    assert_eq!(
        effective, 32,
        "a negotiated 100 above the local 32 must clamp to 32"
    );
    // six levels against a negotiated cap of 5 exercise the clamp to the smaller
    // value
    let buf = build_response_with_nested_typespec(6);
    // negotiated 5 gives an effective cap of 5, so six levels must fail
    let result = GetVariableAccessAttributesResponse::decode_with_negotiated_cap(&buf, Some(5));
    assert!(
        matches!(result, Err(MmsError::NestingLevelExceeded { .. })),
        "with a negotiated cap of 5 below the local 32, six levels must fail, got: {:?}",
        result
    );
    // the clamp to the local ceiling is checked once more through the helper;
    // the depth guard itself is covered by the type_specification tests
    assert_eq!(
        effective_nesting_cap(MAX_TYPE_SPEC_DEPTH, Some(255)),
        32,
        "a negotiated 255 must still clamp to the local 32"
    );
}

/// Without a negotiated value the local ceiling applies, so one level decodes.
#[test]
fn response_negotiated_none_ok_for_shallow() {
    let buf = build_response_with_nested_typespec(1);
    let result = GetVariableAccessAttributesResponse::decode_with_negotiated_cap(&buf, None);
    assert!(
        result.is_ok(),
        "without a negotiated value, one level must decode, got: {:?}",
        result
    );
}

/// The negotiated-cap entry point wires through to the response decoder.
#[test]
fn confirmed_response_with_negotiated_cap_roundtrip() {
    let resp = GetVariableAccessAttributesResponse {
        mms_deletable: false,
        type_specification: TypeSpecification::Boolean,
    };
    let mut buf = BytesMut::new();
    encode_confirmed_get_var_access_attrs_response(10, &resp, &mut buf).unwrap();
    let (invoke_id, decoded) =
        decode_confirmed_get_var_access_attrs_response_with_negotiated_cap(&buf, None).unwrap();
    assert_eq!(invoke_id, 10);
    assert_eq!(decoded, resp);
}
