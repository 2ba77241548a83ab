use bytes::BytesMut;
use iec61850_mms::asn1::{MAX_DATA_NESTING_DEPTH, effective_nesting_cap};
use iec61850_mms::mms::error::MmsError;
use iec61850_mms::mms::pdu::access::{AccessResult, DataAccessError, WriteOutcome};
use iec61850_mms::mms::pdu::alternate_access::AlternateAccess;
use iec61850_mms::mms::pdu::data::MmsData;
use iec61850_mms::mms::pdu::object_name::{MAX_IDENTIFIER_LEN, ObjectName};
use iec61850_mms::mms::pdu::variable_access::{ListOfVariableEntry, VariableAccessSpecification};

// ObjectName encode and decode round trips

#[test]
fn object_name_vmd_roundtrip() {
    let name = ObjectName::VmdSpecific("GGIO1".to_owned());
    let mut buf = BytesMut::new();
    name.encode(&mut buf);
    assert_eq!(buf[0], 0x80);
    let (decoded, consumed) = ObjectName::decode(&buf).unwrap();
    assert_eq!(decoded, name);
    assert_eq!(consumed, buf.len());
}

#[test]
fn object_name_domain_roundtrip() {
    let name = ObjectName::DomainSpecific {
        domain_id: "TESTLD".to_owned(),
        item_id: "GGIO1$ST$Ind$stVal".to_owned(),
    };
    let mut buf = BytesMut::new();
    name.encode(&mut buf);
    assert_eq!(buf[0], 0xa1);
    let (decoded, consumed) = ObjectName::decode(&buf).unwrap();
    assert_eq!(decoded, name);
    assert_eq!(consumed, buf.len());
}

#[test]
fn object_name_aa_roundtrip() {
    let name = ObjectName::AaSpecific("AA_VAR".to_owned());
    let mut buf = BytesMut::new();
    name.encode(&mut buf);
    assert_eq!(buf[0], 0x82);
    let (decoded, _) = ObjectName::decode(&buf).unwrap();
    assert_eq!(decoded, name);
}

#[test]
fn object_name_identifier_too_long_err() {
    // a 65-byte identifier exceeds MAX_IDENTIFIER_LEN of 64
    let long_name: String = "A".repeat(65);
    // built by hand as 0x80 <65> <65 bytes>
    let mut buf = vec![0x80u8, 65u8];
    buf.extend(long_name.as_bytes());
    let result = ObjectName::decode(&buf);
    assert!(matches!(result, Err(MmsError::IdentifierTooLong { .. })));
}

// VariableAccessSpecification round trips

#[test]
fn vas_list_of_variable_roundtrip() {
    let entries: Vec<ListOfVariableEntry> = vec![
        ObjectName::DomainSpecific {
            domain_id: "LD1".to_owned(),
            item_id: "LLN0$ST".to_owned(),
        }
        .into(),
        ObjectName::VmdSpecific("VMD_VAR".to_owned()).into(),
    ];
    let vas = VariableAccessSpecification::ListOfVariable(entries);
    let mut buf = BytesMut::new();
    vas.encode(&mut buf);
    assert_eq!(buf[0], 0xa0);
    let (decoded, consumed) = VariableAccessSpecification::decode(&buf).unwrap();
    assert_eq!(decoded, vas);
    assert_eq!(consumed, buf.len());
}

#[test]
fn vas_list_of_variable_with_alt_access_roundtrip() {
    let entries = vec![
        ListOfVariableEntry::with_alt_access(
            ObjectName::DomainSpecific {
                domain_id: "LD".to_owned(),
                item_id: "GGIO1$ST$Ind".to_owned(),
            },
            AlternateAccess::index(2),
        ),
        ListOfVariableEntry::with_alt_access(
            ObjectName::DomainSpecific {
                domain_id: "LD".to_owned(),
                item_id: "GGIO1$ST$Ind1".to_owned(),
            },
            AlternateAccess::index_component(0, "stVal").unwrap(),
        ),
    ];
    let vas = VariableAccessSpecification::ListOfVariable(entries);
    let mut buf = BytesMut::new();
    vas.encode(&mut buf);
    assert_eq!(buf.len(), vas.encoded_len());
    let (decoded, consumed) = VariableAccessSpecification::decode(&buf).unwrap();
    assert_eq!(decoded, vas);
    assert_eq!(consumed, buf.len());
}

#[test]
fn alt_access_decode_rejects_unsupported_selector() {
    // selectAccess.allElements [4] IMPLICIT NULL - out of scope
    let bytes = [0x30u8, 0x02, 0x84, 0x00];
    let err = AlternateAccess::decode(&bytes).unwrap_err();
    assert!(matches!(err, MmsError::AlternateAccessUnsupported(_)));
}

#[test]
fn alt_access_decode_rejects_multi_member() {
    // Two Index members back-to-back inside the SEQUENCE OF
    let bytes = [0x30u8, 0x06, 0x82, 0x01, 0x00, 0x82, 0x01, 0x01];
    let err = AlternateAccess::decode(&bytes).unwrap_err();
    assert!(matches!(err, MmsError::AlternateAccessUnsupported(_)));
}

#[test]
fn vas_variable_list_name_roundtrip() {
    let name = ObjectName::DomainSpecific {
        domain_id: "TESTLD".to_owned(),
        item_id: "DataSet1".to_owned(),
    };
    let vas = VariableAccessSpecification::VariableListName(name);
    let mut buf = BytesMut::new();
    vas.encode(&mut buf);
    assert_eq!(buf[0], 0xa1);
    let (decoded, consumed) = VariableAccessSpecification::decode(&buf).unwrap();
    assert_eq!(decoded, vas);
    assert_eq!(consumed, buf.len());
}

// AccessResult round trips

#[test]
fn access_result_success_boolean_roundtrip() {
    let ar = AccessResult::Success(MmsData::Boolean(true));
    let mut buf = BytesMut::new();
    ar.encode(&mut buf);
    let (decoded, _) = AccessResult::decode(&buf).unwrap();
    assert_eq!(decoded, ar);
}

#[test]
fn access_result_failure_roundtrip() {
    let ar = AccessResult::Failure(DataAccessError::ObjectNonExistent);
    let mut buf = BytesMut::new();
    ar.encode(&mut buf);
    assert_eq!(&buf[..], &[0x80, 0x01, 10]);
    let (decoded, _) = AccessResult::decode(&buf).unwrap();
    assert_eq!(decoded, ar);
}

// MmsData round trips for each primitive variant

#[test]
fn mmsdata_integer_roundtrip() {
    let data = MmsData::Integer(-12345);
    let mut buf = BytesMut::new();
    data.encode(&mut buf);
    let (decoded, consumed) = MmsData::decode(&buf).unwrap();
    assert_eq!(decoded, data);
    assert_eq!(consumed, buf.len());
}

#[test]
fn mmsdata_unsigned_roundtrip() {
    let data = MmsData::Unsigned(65000);
    let mut buf = BytesMut::new();
    data.encode(&mut buf);
    let (decoded, _) = MmsData::decode(&buf).unwrap();
    assert_eq!(decoded, data);
}

#[test]
#[allow(clippy::approx_constant)] // 3.14 is a test sentinel, not an approximation of pi
fn mmsdata_float32_roundtrip() {
    // Float32 encodes to 5 bytes, exponent width 8 plus a single, and decodes back
    let data = MmsData::Float32(3.14f32.to_bits());
    let mut buf = BytesMut::new();
    data.encode(&mut buf);
    // wire: 0x87 0x05 0x08 <4 bytes IEEE 754 single>
    assert_eq!(buf[0], 0x87);
    assert_eq!(buf[1], 0x05);
    assert_eq!(buf[2], 0x08);
    assert_eq!(buf.len(), 7);
    let (decoded, consumed) = MmsData::decode(&buf).unwrap();
    assert_eq!(consumed, 7);
    assert_eq!(decoded, data);
}

#[test]
#[allow(clippy::approx_constant)] // 3.141592... is a test sentinel, not an approximation of pi
fn mmsdata_float64_roundtrip() {
    // Float64 encodes to 9 bytes, exponent width 11 plus a double, and decodes back
    let data = MmsData::Float64(3.141592653589793f64.to_bits());
    let mut buf = BytesMut::new();
    data.encode(&mut buf);
    // wire: 0x87 0x09 0x0b <8 bytes IEEE 754 double>
    assert_eq!(buf[0], 0x87);
    assert_eq!(buf[1], 0x09);
    assert_eq!(buf[2], 0x0b);
    assert_eq!(buf.len(), 11);
    let (decoded, consumed) = MmsData::decode(&buf).unwrap();
    assert_eq!(consumed, 11);
    assert_eq!(decoded, data);
}

#[test]
fn mmsdata_float32_wire_regression() {
    // FLOAT32 bytes as they appear in a ReadResponse: 0x87 0x05 0x08 0x3f 0x5c 0xfb 0x49
    // decoding must yield Float32 and re-encoding must be byte exact
    let wire = [0x87u8, 0x05, 0x08, 0x3f, 0x5c, 0xfb, 0x49];
    let (data, consumed) = MmsData::decode(&wire).unwrap();
    assert_eq!(consumed, 7);
    match data {
        MmsData::Float32(v) => {
            // 0x3f5cfb49 about 0.8625...
            let v = f32::from_bits(v);
            assert!((v - f32::from_be_bytes([0x3f, 0x5c, 0xfb, 0x49])).abs() < f32::EPSILON);
        }
        other => panic!("expected Float32, got {:?}", other),
    }
    // re-encoding must be byte exact
    let mut out = BytesMut::new();
    MmsData::Float32(f32::from_be_bytes([0x3f, 0x5c, 0xfb, 0x49]).to_bits()).encode(&mut out);
    assert_eq!(out.as_ref(), &wire[..]);
}

#[test]
fn mmsdata_visible_string_roundtrip() {
    let data = MmsData::VisibleString("Hello".to_owned());
    let mut buf = BytesMut::new();
    data.encode(&mut buf);
    let (decoded, _) = MmsData::decode(&buf).unwrap();
    assert_eq!(decoded, data);
}

#[test]
fn mmsdata_utctime_roundtrip() {
    let data = MmsData::UtcTime([0x5e, 0x1a, 0x2b, 0x3c, 0x01, 0x02, 0x03, 0x04]);
    let mut buf = BytesMut::new();
    data.encode(&mut buf);
    let (decoded, _) = MmsData::decode(&buf).unwrap();
    assert_eq!(decoded, data);
}

#[test]
fn mmsdata_utctime_wrong_length_err() {
    // 0x91 0x07 <7 bytes>, where 8 are required
    let bytes = [0x91u8, 0x07, 1, 2, 3, 4, 5, 6, 7];
    let result = MmsData::decode(&bytes);
    assert!(matches!(
        result,
        Err(MmsError::InvalidUtcTimeLength { actual: 7 })
    ));
}

#[test]
fn mmsdata_float_wrong_size_err() {
    // 0x87 0x04 <4 bytes>, where 5 or 9 are required
    let bytes = [0x87u8, 0x04, 0x08, 0x40, 0x48, 0xf5];
    let result = MmsData::decode(&bytes);
    assert!(matches!(
        result,
        Err(MmsError::InvalidFloatSize { actual: 4 })
    ));
}

#[test]
fn mmsdata_octet_string_roundtrip() {
    let data = MmsData::OctetString(vec![0xde, 0xad, 0xbe, 0xef]);
    let mut buf = BytesMut::new();
    data.encode(&mut buf);
    let (decoded, _) = MmsData::decode(&buf).unwrap();
    assert_eq!(decoded, data);
}

#[test]
fn mmsdata_bit_string_roundtrip() {
    let data = MmsData::BitString {
        padding: 3,
        data: vec![0xf8],
    };
    let mut buf = BytesMut::new();
    data.encode(&mut buf);
    let (decoded, _) = MmsData::decode(&buf).unwrap();
    assert_eq!(decoded, data);
}

// Structure and Array round trips, including nesting

#[test]
fn mmsdata_structure_nested_roundtrip() {
    let data = MmsData::Structure(vec![
        MmsData::Boolean(true),
        MmsData::Integer(42),
        MmsData::Structure(vec![MmsData::Unsigned(100)]),
    ]);
    let mut buf = BytesMut::new();
    data.encode(&mut buf);
    let (decoded, _) = MmsData::decode(&buf).unwrap();
    assert_eq!(decoded, data);
}

#[test]
fn mmsdata_array_roundtrip() {
    let data = MmsData::Array(vec![
        MmsData::Integer(1),
        MmsData::Integer(2),
        MmsData::Integer(3),
    ]);
    let mut buf = BytesMut::new();
    data.encode(&mut buf);
    let (decoded, _) = MmsData::decode(&buf).unwrap();
    assert_eq!(decoded, data);
}

// A nesting depth bomb

#[test]
fn depth_bomb_err() {
    // build 33 nested structures, one past MAX_DATA_NESTING_DEPTH of 32
    // each level is 0xa2 0x03 with a 3-byte inner value
    // the innermost level is 0xa2 0x00, an empty structure
    fn make_nested(depth: usize) -> Vec<u8> {
        if depth == 0 {
            return vec![0xa2, 0x00]; // empty structure
        }
        let inner = make_nested(depth - 1);
        let mut result = vec![0xa2u8];
        // encode length
        if inner.len() < 128 {
            result.push(inner.len() as u8);
        } else {
            result.push(0x81);
            result.push(inner.len() as u8);
        }
        result.extend_from_slice(&inner);
        result
    }

    // 33 levels, past MAX_DATA_NESTING_DEPTH of 32
    let bomb = make_nested(33);
    let result = MmsData::decode(&bomb);
    assert!(
        matches!(result, Err(MmsError::NestingLevelExceeded { .. })),
        "a depth bomb must return NestingLevelExceeded, got {:?}",
        result
    );
}

#[test]
fn common_depth_at_limit_ok() {
    // 32 levels, exactly at the ceiling, must still succeed
    fn make_nested(depth: usize) -> Vec<u8> {
        if depth == 0 {
            return vec![0x83, 0x01, 0x01]; // boolean true
        }
        let inner = make_nested(depth - 1);
        let mut result = vec![0xa2u8, inner.len() as u8];
        result.extend_from_slice(&inner);
        result
    }
    // decode_with_depth(.., 0) reaches depth 32 at the deepest level, which equals
    // MAX_DATA_NESTING_DEPTH; the guard trips only past it, so this is accepted
    let data = make_nested(31); // 31 structures plus a boolean is 32 levels
    let result = MmsData::decode(&data);
    assert!(result.is_ok(), "32 levels must succeed, got {:?}", result);
}

// Oversized length fields

#[test]
fn oversized_length_returns_err() {
    // 0x85 0x82 0xff 0xff declares 65535 bytes with far fewer present
    let bytes = [0x85u8, 0x82, 0xff, 0xff, 0x00, 0x01];
    let result = MmsData::decode(&bytes);
    assert!(
        result.is_err(),
        "an oversized length must return an error, not panic"
    );
}

#[test]
fn truncated_length_returns_err() {
    // 0x85 0x81 promises another length byte that is missing
    let bytes = [0x85u8, 0x81];
    let result = MmsData::decode(&bytes);
    assert!(matches!(result, Err(MmsError::TruncatedPdu)));
}

// WriteOutcome round trips

#[test]
fn write_outcome_success_roundtrip() {
    let outcome = WriteOutcome::Success;
    let mut buf = BytesMut::new();
    outcome.encode(&mut buf);
    assert_eq!(&buf[..], &[0x81, 0x00]);
    let (decoded, consumed) = WriteOutcome::decode(&buf).unwrap();
    assert_eq!(decoded, WriteOutcome::Success);
    assert_eq!(consumed, 2);
}

#[test]
fn write_outcome_failure_roundtrip() {
    let outcome = WriteOutcome::Failure(DataAccessError::TypeInconsistent);
    let mut buf = BytesMut::new();
    outcome.encode(&mut buf);
    assert_eq!(&buf[..], &[0x80, 0x01, 7]);
    let (decoded, _) = WriteOutcome::decode(&buf).unwrap();
    assert_eq!(decoded, outcome);
}

// DataAccessError::from_code

#[test]
fn data_access_error_all_codes_valid() {
    for code in 0u8..=11u8 {
        DataAccessError::from_code(code).unwrap();
    }
}

#[test]
fn data_access_error_invalid_code_err() {
    let result = DataAccessError::from_code(12);
    assert!(matches!(result, Err(MmsError::UnknownDataAccessError(12))));
}

// effective_nesting_cap

#[test]
fn effective_nesting_cap_none_falls_back_to_local() {
    // no negotiated value falls back to the local ceiling
    assert_eq!(effective_nesting_cap(32, None), 32);
    assert_eq!(effective_nesting_cap(25, None), 25);
}

#[test]
fn effective_nesting_cap_negotiated_lower_clamps() {
    // a negotiated value below the local ceiling wins, being stricter
    assert_eq!(effective_nesting_cap(32, Some(5)), 5);
    assert_eq!(effective_nesting_cap(32, Some(0)), 0);
}

#[test]
fn effective_nesting_cap_negotiated_higher_clamps_to_local() {
    // a negotiated value above the local ceiling is clamped, so a peer cannot
    // raise the limit by proposing a large value
    assert_eq!(effective_nesting_cap(32, Some(100)), 32);
    assert_eq!(effective_nesting_cap(32, Some(255)), 32);
}

#[test]
fn effective_nesting_cap_negotiated_equal_to_local() {
    // a negotiated value equal to the local ceiling keeps that value
    assert_eq!(effective_nesting_cap(32, Some(32)), 32);
}

// decode_with_max honors the negotiated nesting level

/// With a negotiated ceiling below the local one, exceeding it returns an error.
#[test]
fn negotiated_lower_than_local_cap_clamps() {
    // local=32, negotiated=Some(5) -> effective=5
    // build 6 nested structures: the sixth is reached at depth 5, which equals
    // the effective cap of 5 and trips the guard
    fn make_nested(depth: usize) -> Vec<u8> {
        if depth == 0 {
            return vec![0xa2, 0x00]; // empty structure
        }
        let inner = make_nested(depth - 1);
        let mut result = vec![0xa2u8];
        if inner.len() < 128 {
            result.push(inner.len() as u8);
        } else {
            result.push(0x81);
            result.push(inner.len() as u8);
        }
        result.extend_from_slice(&inner);
        result
    }
    // 6 levels: the outer structure decodes at depth 0 and depth 5 trips the guard
    let data = make_nested(6);
    let result = MmsData::decode_with_max(&data, 5);
    assert!(
        matches!(result, Err(MmsError::NestingLevelExceeded { .. })),
        "with a negotiated cap of 5, six levels must fail, got {:?}",
        result
    );
}

/// With a negotiated ceiling above the local one, the local ceiling still applies.
#[test]
fn negotiated_higher_than_local_still_clamps_to_local() {
    // local=32, negotiated=Some(100) -> effective_nesting_cap -> 32
    // 33 levels must fail because the local cap of 32 applies
    fn make_nested(depth: usize) -> Vec<u8> {
        if depth == 0 {
            return vec![0xa2, 0x00];
        }
        let inner = make_nested(depth - 1);
        let mut result = vec![0xa2u8];
        if inner.len() < 128 {
            result.push(inner.len() as u8);
        } else {
            result.push(0x81);
            result.push(inner.len() as u8);
        }
        result.extend_from_slice(&inner);
        result
    }
    let effective = effective_nesting_cap(MAX_DATA_NESTING_DEPTH, Some(100));
    assert_eq!(
        effective, 32,
        "a negotiated 100 above the local 32 must clamp to 32"
    );
    let data = make_nested(33); // 33 levels, past 32
    let result = MmsData::decode_with_max(&data, effective);
    assert!(
        matches!(result, Err(MmsError::NestingLevelExceeded { .. })),
        "33 levels must fail because the local cap of 32 applies, got {:?}",
        result
    );
}

/// With no negotiated value the local ceiling applies: 33 levels fail, 32 succeed.
#[test]
fn negotiated_none_falls_back_to_local() {
    fn make_nested(depth: usize) -> Vec<u8> {
        if depth == 0 {
            return vec![0x83, 0x01, 0x01]; // boolean
        }
        let inner = make_nested(depth - 1);
        let mut result = vec![0xa2u8, inner.len() as u8];
        result.extend_from_slice(&inner);
        result
    }
    let effective = effective_nesting_cap(MAX_DATA_NESTING_DEPTH, None);
    assert_eq!(effective, 32);
    // 33 levels exceed the ceiling of 32
    let deep_data = make_nested(33);
    let result = MmsData::decode_with_max(&deep_data, effective);
    assert!(
        matches!(result, Err(MmsError::NestingLevelExceeded { .. })),
        "without a negotiated value, 33 levels must fail, got {:?}",
        result
    );
    // 32 levels or fewer stay inside the ceiling
    let ok_data = make_nested(31);
    let result = MmsData::decode_with_max(&ok_data, effective);
    assert!(
        result.is_ok(),
        "without a negotiated value, up to 32 levels must succeed, got {:?}",
        result
    );
}

// estimated_encoded_size must match the real encoded length

fn assert_size_matches_encode(d: &MmsData) {
    let mut buf = BytesMut::new();
    d.encode(&mut buf);
    assert_eq!(
        d.estimated_encoded_size(),
        buf.len(),
        "estimated_encoded_size must match the encoded length, data={:?}",
        d
    );
}

#[test]
fn estimated_size_matches_encode_scalars() {
    assert_size_matches_encode(&MmsData::Boolean(true));
    assert_size_matches_encode(&MmsData::Integer(0));
    assert_size_matches_encode(&MmsData::Integer(i64::MAX));
    assert_size_matches_encode(&MmsData::Integer(-1));
    assert_size_matches_encode(&MmsData::Unsigned(0));
    assert_size_matches_encode(&MmsData::Unsigned(u64::MAX));
    assert_size_matches_encode(&MmsData::Float32(1.5f32.to_bits()));
    assert_size_matches_encode(&MmsData::Float64(1.5f64.to_bits()));
    assert_size_matches_encode(&MmsData::OctetString(vec![1, 2, 3]));
    assert_size_matches_encode(&MmsData::VisibleString("hello".to_owned()));
    assert_size_matches_encode(&MmsData::MmsString("naïve-ünïcödé".to_owned()));
    assert_size_matches_encode(&MmsData::UtcTime([0u8; 8]));
    assert_size_matches_encode(&MmsData::BinaryTime(vec![0u8; 6]));
    assert_size_matches_encode(&MmsData::BitString {
        padding: 3,
        data: vec![0xff],
    });
}

#[test]
fn estimated_size_matches_encode_long_strings() {
    // lengths that straddle the short-form and long-form length boundary
    assert_size_matches_encode(&MmsData::OctetString(vec![0u8; 127]));
    assert_size_matches_encode(&MmsData::OctetString(vec![0u8; 128]));
    assert_size_matches_encode(&MmsData::OctetString(vec![0u8; 256]));
}

#[test]
fn estimated_size_matches_encode_nested() {
    let st = MmsData::Structure(vec![
        MmsData::Boolean(false),
        MmsData::Integer(42),
        MmsData::Structure(vec![
            MmsData::Float32(1.5f32.to_bits()),
            MmsData::VisibleString("nested".to_owned()),
        ]),
    ]);
    assert_size_matches_encode(&st);

    let arr = MmsData::Array(vec![MmsData::Integer(1), MmsData::Integer(2)]);
    assert_size_matches_encode(&arr);
}

#[test]
fn access_result_estimated_size_matches_encode() {
    let s = AccessResult::Success(MmsData::Float32(1.0f32.to_bits()));
    let mut buf = BytesMut::new();
    s.encode(&mut buf);
    assert_eq!(s.estimated_encoded_size(), buf.len());

    let f = AccessResult::Failure(DataAccessError::ObjectNonExistent);
    let mut buf = BytesMut::new();
    f.encode(&mut buf);
    assert_eq!(f.estimated_encoded_size(), buf.len());
}

// AlternateAccess encoding, byte exact

#[test]
fn alt_access_index_small_byte_exact() {
    // index=5 -> 0x30 0x03 0x82 0x01 0x05
    let aa = AlternateAccess::index(5);
    let mut buf = BytesMut::new();
    aa.encode(&mut buf);
    assert_eq!(&buf[..], &[0x30, 0x03, 0x82, 0x01, 0x05]);
    assert_eq!(aa.encoded_len(), buf.len());
}

#[test]
fn alt_access_index_zero_byte_exact() {
    // index 0 encodes as [0x00], giving 0x30 0x03 0x82 0x01 0x00
    let aa = AlternateAccess::index(0);
    let mut buf = BytesMut::new();
    aa.encode(&mut buf);
    assert_eq!(&buf[..], &[0x30, 0x03, 0x82, 0x01, 0x00]);
    assert_eq!(aa.encoded_len(), buf.len());
}

#[test]
fn alt_access_index_large_needs_two_bytes() {
    // index 300 is 0x012C, whose minimal unsigned BER form is [0x01, 0x2C]
    // -> 0x30 0x04 0x82 0x02 0x01 0x2C
    let aa = AlternateAccess::index(300);
    let mut buf = BytesMut::new();
    aa.encode(&mut buf);
    assert_eq!(&buf[..], &[0x30, 0x04, 0x82, 0x02, 0x01, 0x2C]);
    assert_eq!(aa.encoded_len(), buf.len());
}

#[test]
fn alt_access_index_with_sign_pad() {
    // index 0x80 is 128: the top bit is set, so BER prefixes 0x00, giving [0x00, 0x80]
    let aa = AlternateAccess::index(128);
    let mut buf = BytesMut::new();
    aa.encode(&mut buf);
    assert_eq!(&buf[..], &[0x30, 0x04, 0x82, 0x02, 0x00, 0x80]);
    assert_eq!(aa.encoded_len(), buf.len());
}

#[test]
fn alt_access_index_component_single_segment_byte_exact() {
    // index=2, component="stVal"
    // chain = selectAccess.component = 0x81 0x05 's' 't' 'V' 'a' 'l'  (7 bytes)
    // sel = 0x81 0x01 0x02   (accessSelection.index)
    //     + 0x30 0x07 <chain>
    // -> 0xa0 <len(sel)> <sel>
    // sel_len = 3 + 9 = 12
    // outer member = 0xa0 0x0c <12 bytes>  -> 14 bytes
    // SEQUENCE OF wrap = 0x30 0x0e <14 bytes>
    let aa = AlternateAccess::index_component(2, "stVal").unwrap();
    let mut buf = BytesMut::new();
    aa.encode(&mut buf);
    assert_eq!(
        &buf[..],
        &[
            0x30, 0x0e, // AlternateAccess SEQUENCE OF, len=14
            0xa0, 0x0c, // selectAlternateAccess, len=12
            0x81, 0x01, 0x02, // accessSelection.index = 2
            0x30, 0x07, // nested AlternateAccess, len=7
            0x81, 0x05, b's', b't', b'V', b'a', b'l', // selectAccess.component
        ]
    );
    assert_eq!(aa.encoded_len(), buf.len());
}

#[test]
fn alt_access_index_component_two_segments_byte_exact() {
    // index=0, component="inner$f"
    // the final link is selectAccess.component "f", 0x81 0x01 'f', 3 bytes
    // the preceding link is 0x80 0x05 'inner' plus 0x30 0x03 <final>, 12 bytes
    //         -> 0xa0 0x0c <12 bytes>  (14 bytes)
    // member = 14 bytes
    // outer sel(IndexComp) = 0x81 0x01 0x00 + 0x30 0x0e <14 bytes>
    //   = 3 + 16 = 19 bytes
    // -> 0xa0 0x13 <19 bytes>  (21 bytes)
    // SEQUENCE OF = 0x30 0x15 <21 bytes>
    let aa = AlternateAccess::index_component(0, "inner$f").unwrap();
    let mut buf = BytesMut::new();
    aa.encode(&mut buf);
    assert_eq!(
        &buf[..],
        &[
            0x30, 0x15, // AlternateAccess SEQUENCE OF, len=21
            0xa0, 0x13, // selectAlternateAccess(outer), len=19
            0x81, 0x01, 0x00, // accessSelection.index = 0
            0x30, 0x0e, // nested AlternateAccess, len=14
            0xa0, 0x0c, // selectAlternateAccess(inner), len=12
            0x80, 0x05, b'i', b'n', b'n', b'e', b'r', // accessSelection.component
            0x30, 0x03, // nested AlternateAccess, len=3
            0x81, 0x01, b'f', // selectAccess.component
        ]
    );
    assert_eq!(aa.encoded_len(), buf.len());
}

#[test]
fn alt_access_index_component_empty_rejected() {
    assert!(matches!(
        AlternateAccess::index_component(0, ""),
        Err(MmsError::AlternateAccessUnsupported(_))
    ));
}

#[test]
fn alt_access_index_component_double_dollar_rejected() {
    assert!(matches!(
        AlternateAccess::index_component(0, "a$$b"),
        Err(MmsError::AlternateAccessUnsupported(_))
    ));
}

#[test]
fn alt_access_index_component_segment_too_long_rejected() {
    let long = "x".repeat(MAX_IDENTIFIER_LEN + 1);
    assert!(matches!(
        AlternateAccess::index_component(0, &long),
        Err(MmsError::IdentifierTooLong { .. })
    ));
}
