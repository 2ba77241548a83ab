use bytes::BytesMut;
use iec61850_mms::asn1::effective_nesting_cap;
use iec61850_mms::mms::error::MmsError;
use iec61850_mms::mms::pdu::type_specification::{
    StructComponent, TypeSpecification, MAX_TYPE_SPEC_DEPTH,
};

const TAG_BCD: u8 = 0x8d;
const TAG_GENERALIZEDTIME: u8 = 0x8b;
const TAG_TYPE_NAME: u8 = 0xa0;

/// Encodes, decodes, and asserts the result equals the input.
fn roundtrip(ts: TypeSpecification) {
    let mut buf = BytesMut::new();
    ts.encode(&mut buf).expect("encode failed");
    let (decoded, consumed) = TypeSpecification::decode(&buf, 0).expect("decode failed");
    assert_eq!(
        consumed,
        buf.len(),
        "consumed bytes differ from the encoded length"
    );
    assert_eq!(decoded, ts, "the round trip changed the value");
}

// Boolean and UtcTime, the NULL variants

#[test]
fn boolean_roundtrip() {
    roundtrip(TypeSpecification::Boolean);
}

#[test]
fn utctime_roundtrip() {
    roundtrip(TypeSpecification::UtcTime);
}

#[test]
fn boolean_byte_exact() {
    let mut buf = BytesMut::new();
    TypeSpecification::Boolean.encode(&mut buf).unwrap();
    assert_eq!(&buf[..], &[0x83, 0x00], "unexpected boolean wire bytes");
}

#[test]
fn utctime_byte_exact() {
    let mut buf = BytesMut::new();
    TypeSpecification::UtcTime.encode(&mut buf).unwrap();
    assert_eq!(&buf[..], &[0x91, 0x00], "unexpected utctime wire bytes");
}

// Integer and Unsigned

#[test]
fn integer_width_8_roundtrip() {
    roundtrip(TypeSpecification::Integer { width_bits: 8 });
}

#[test]
fn integer_width_32_roundtrip() {
    roundtrip(TypeSpecification::Integer { width_bits: 32 });
}

#[test]
fn unsigned_width_8_roundtrip() {
    roundtrip(TypeSpecification::Unsigned { width_bits: 8 });
}

#[test]
fn unsigned_width_32_roundtrip() {
    roundtrip(TypeSpecification::Unsigned { width_bits: 32 });
}

// FloatingPoint

#[test]
fn float32_roundtrip() {
    // float32: formatwidth 32, exponentwidth 8
    roundtrip(TypeSpecification::FloatingPoint {
        format_width: 32,
        exponent_width: 8,
    });
}

#[test]
fn float64_roundtrip() {
    // float64: formatwidth 64, exponentwidth 11
    roundtrip(TypeSpecification::FloatingPoint {
        format_width: 64,
        exponent_width: 11,
    });
}

/// Checks the float32 wire bytes, with formatwidth before exponentwidth.
///
/// ```text
/// 0xa7 0x06           -- floatingpoint [7] IMPLICIT SEQUENCE, len=6
///   0x02 0x01 0x20    -- formatwidth INTEGER 32 (0x20)
///   0x02 0x01 0x08    -- exponentwidth INTEGER 8
/// ```
#[test]
fn float32_byte_exact() {
    let mut buf = BytesMut::new();
    TypeSpecification::FloatingPoint {
        format_width: 32,
        exponent_width: 8,
    }
    .encode(&mut buf)
    .unwrap();
    let expected: &[u8] = &[0xa7, 0x06, 0x02, 0x01, 0x20, 0x02, 0x01, 0x08];
    assert_eq!(
        &buf[..],
        expected,
        "unexpected float32 wire bytes: got {:02X?}, expected {:02X?}",
        &buf[..],
        expected
    );
}

// Negative bitString values

#[test]
fn bitstring_positive_roundtrip() {
    roundtrip(TypeSpecification::BitString { bits: 64 });
}

#[test]
fn bitstring_negative_variable_length_roundtrip() {
    // bits = -1 denotes a variable-length bit string
    roundtrip(TypeSpecification::BitString { bits: -1 });
}

#[test]
fn bitstring_negative_preserves_sign() {
    let ts = TypeSpecification::BitString { bits: -1 };
    let mut buf = BytesMut::new();
    ts.encode(&mut buf).unwrap();
    let (decoded, _) = TypeSpecification::decode(&buf, 0).unwrap();
    match decoded {
        TypeSpecification::BitString { bits } => {
            assert_eq!(bits, -1, "bitString -1 changed in the round trip");
        }
        other => panic!("expected BitString, got {:?}", other),
    }
}

// OctetString, VisibleString and MmsString

#[test]
fn octet_string_positive_roundtrip() {
    roundtrip(TypeSpecification::OctetString { max_octets: 128 });
}

#[test]
fn octet_string_negative_roundtrip() {
    // -1 denotes variable length
    roundtrip(TypeSpecification::OctetString { max_octets: -1 });
}

#[test]
fn visible_string_roundtrip() {
    roundtrip(TypeSpecification::VisibleString { max_chars: 255 });
}

#[test]
fn mms_string_roundtrip() {
    roundtrip(TypeSpecification::MmsString { max_chars: 255 });
}

// BinaryTime

#[test]
fn binary_time_short_roundtrip() {
    // false = 4-byte form
    roundtrip(TypeSpecification::BinaryTime {
        use_long_form: false,
    });
}

#[test]
fn binary_time_long_roundtrip() {
    // true = 6-byte form
    roundtrip(TypeSpecification::BinaryTime {
        use_long_form: true,
    });
}

// Array

#[test]
fn array_of_boolean_roundtrip() {
    roundtrip(TypeSpecification::Array {
        element_count: 10,
        element_type: Box::new(TypeSpecification::Boolean),
    });
}

#[test]
fn array_of_integer_roundtrip() {
    roundtrip(TypeSpecification::Array {
        element_count: 100,
        element_type: Box::new(TypeSpecification::Integer { width_bits: 32 }),
    });
}

// Structure

#[test]
fn structure_simple_roundtrip() {
    roundtrip(TypeSpecification::Structure {
        components: vec![
            StructComponent {
                name: "stVal".to_owned(),
                type_spec: TypeSpecification::Boolean,
            },
            StructComponent {
                name: "q".to_owned(),
                type_spec: TypeSpecification::BitString { bits: 13 },
            },
            StructComponent {
                name: "t".to_owned(),
                type_spec: TypeSpecification::UtcTime,
            },
        ],
    });
}

// Nested Array and Structure round trips

#[test]
fn array_of_structure_roundtrip() {
    roundtrip(TypeSpecification::Array {
        element_count: 5,
        element_type: Box::new(TypeSpecification::Structure {
            components: vec![
                StructComponent {
                    name: "val".to_owned(),
                    type_spec: TypeSpecification::FloatingPoint {
                        format_width: 32,
                        exponent_width: 8,
                    },
                },
                StructComponent {
                    name: "ts".to_owned(),
                    type_spec: TypeSpecification::UtcTime,
                },
            ],
        }),
    });
}

#[test]
fn structure_three_level_nested_roundtrip() {
    // three nested levels: structure inside structure inside structure
    let inner_inner = TypeSpecification::Structure {
        components: vec![StructComponent {
            name: "leaf".to_owned(),
            type_spec: TypeSpecification::Integer { width_bits: 32 },
        }],
    };
    let inner = TypeSpecification::Structure {
        components: vec![StructComponent {
            name: "mid".to_owned(),
            type_spec: inner_inner,
        }],
    };
    let outer = TypeSpecification::Structure {
        components: vec![StructComponent {
            name: "outer".to_owned(),
            type_spec: inner,
        }],
    };
    roundtrip(outer);
}

// Recursion depth guard

/// A nested array PDU deeper than 32 levels must decode to an error, not crash.
/// Robustness case: unbounded TypeSpecification recursion.
///
/// Guard semantics: `depth >= MAX_TYPE_SPEC_DEPTH` (32) returns an error.
/// The entry point starts at depth 0 for the outermost TypeSpecification and
/// adds one per level, so the 33rd level reaches 32 and trips the guard.
#[test]
fn depth_limit_exceeded_returns_err() {
    // BER definite length: short form below 128, otherwise 0x80 | n followed by
    // n big-endian bytes.
    fn push_ber_length(out: &mut Vec<u8>, len: usize) {
        if len < 128 {
            out.push(len as u8);
        } else if len <= 0xff {
            out.push(0x81);
            out.push(len as u8);
        } else if len <= 0xffff {
            out.push(0x82);
            out.push((len >> 8) as u8);
            out.push((len & 0xff) as u8);
        } else {
            unreachable!("test fixture length should fit in 2 bytes");
        }
    }

    // Build N nested array TypeSpecs; each level is
    // 0xa1 len [0x81 0x01 0x01 0xa2 innerlen inner], with a boolean innermost.
    fn make_nested_array_bytes(depth: usize) -> Vec<u8> {
        if depth == 0 {
            return vec![0x83, 0x00];
        }
        let inner = make_nested_array_bytes(depth - 1);
        // 0xa2 + innerlen + inner
        let mut element_type_tlv = vec![0xa2u8];
        push_ber_length(&mut element_type_tlv, inner.len());
        element_type_tlv.extend_from_slice(&inner);
        // count_part = 0x81 0x01 0x01
        let count_part: &[u8] = &[0x81, 0x01, 0x01];
        let total_inner = count_part.len() + element_type_tlv.len();
        let mut result = vec![0xa1u8];
        push_ber_length(&mut result, total_inner);
        result.extend_from_slice(count_part);
        result.extend_from_slice(&element_type_tlv);
        result
    }

    // 33 array levels plus the innermost boolean: the 33rd decodes at depth 32.
    let bomb = make_nested_array_bytes(33);
    let result = TypeSpecification::decode(&bomb, 0);
    assert!(
        matches!(result, Err(MmsError::NestingLevelExceeded { .. })),
        "nesting beyond 32 levels must return NestingLevelExceeded, got {:?}",
        result
    );
}

#[test]
fn type_specification_depth_at_limit_ok() {
    // depth 31 is the deepest the guard allows: it rejects at 32, leaving the
    // 32 slots 0..31. A primitive TypeSpec entered at depth 31 must decode.
    let ts = TypeSpecification::Boolean;
    let mut buf = BytesMut::new();
    ts.encode(&mut buf).unwrap();
    let result = TypeSpecification::decode(&buf, 31);
    assert!(
        result.is_ok(),
        "depth 31 is inside the guard and must succeed, got {:?}",
        result
    );
}

// Unknown and unsupported tags pass through as Ok(Unknown(...))

/// An unknown tag passes through as `Unknown(tag)` instead of failing.
#[test]
fn unknown_tag_decodes_as_unknown() {
    // tag 0x88 is not in the table
    let data = [0x88u8, 0x00];
    let result = TypeSpecification::decode(&data, 0);
    assert!(
        matches!(result, Ok((TypeSpecification::Unknown(0x88), 2))),
        "an unknown tag must pass through as Unknown(0x88), got {:?}",
        result
    );
}

/// generalizedtime passes through as `Unknown` instead of failing.
#[test]
fn generalizedtime_tag_decodes_as_unknown() {
    // tag 0x8b is generalizedtime, unsupported and passed through
    let data = [TAG_GENERALIZEDTIME, 0x00];
    let result = TypeSpecification::decode(&data, 0);
    assert!(
        matches!(result, Ok((TypeSpecification::Unknown(0x8b), 2))),
        "generalizedtime must pass through as Unknown(0x8b), got {:?}",
        result
    );
}

/// bcd passes through as `Unknown` instead of failing.
#[test]
fn bcd_tag_decodes_as_unknown() {
    let data = [TAG_BCD, 0x01, 0x04];
    let result = TypeSpecification::decode(&data, 0);
    assert!(
        matches!(result, Ok((TypeSpecification::Unknown(0x8d), 3))),
        "bcd must pass through as Unknown(0x8d), got {:?}",
        result
    );
}

/// typeName passes through as `Unknown` instead of failing.
#[test]
fn type_name_tag_decodes_as_unknown() {
    // tag 0xa0 is typeName [0] EXPLICIT, unsupported and passed through
    let data = [TAG_TYPE_NAME, 0x00];
    let result = TypeSpecification::decode(&data, 0);
    assert!(
        matches!(result, Ok((TypeSpecification::Unknown(0xa0), 2))),
        "typeName must pass through as Unknown(0xa0), got {:?}",
        result
    );
}

// Unknown variant coverage

#[test]
fn unknown_type_name_tag_decodes_as_unknown() {
    // typeName with empty content: 0xa0 0x00 decodes to Unknown(0xa0), consuming 2
    let data = [0xa0u8, 0x00];
    let (ts, consumed) = TypeSpecification::decode(&data, 0).expect("decode must succeed");
    assert_eq!(
        ts,
        TypeSpecification::Unknown(0xa0),
        "expected Unknown(0xa0)"
    );
    assert_eq!(consumed, 2, "expected 2 consumed bytes");
}

#[test]
fn unknown_generalizedtime_decodes_as_unknown() {
    // generalizedtime with empty content: 0x8b 0x00 decodes to Unknown(0x8b), consuming 2
    let data = [0x8bu8, 0x00];
    let (ts, consumed) = TypeSpecification::decode(&data, 0).expect("decode must succeed");
    assert_eq!(
        ts,
        TypeSpecification::Unknown(0x8b),
        "expected Unknown(0x8b)"
    );
    assert_eq!(consumed, 2, "expected 2 consumed bytes");
}

#[test]
fn unknown_bcd_decodes_as_unknown() {
    // bcd with one content byte: 0x8d 0x01 0x10 decodes to Unknown(0x8d), consuming 3
    let data = [0x8du8, 0x01, 0x10];
    let (ts, consumed) = TypeSpecification::decode(&data, 0).expect("decode must succeed");
    assert_eq!(
        ts,
        TypeSpecification::Unknown(0x8d),
        "expected Unknown(0x8d)"
    );
    assert_eq!(consumed, 3, "expected 3 consumed bytes");
}

#[test]
fn unknown_obj_id_decodes_as_unknown() {
    // objId with empty content: 0x8f 0x00 decodes to Unknown(0x8f), consuming 2
    let data = [0x8fu8, 0x00];
    let (ts, consumed) = TypeSpecification::decode(&data, 0).expect("decode must succeed");
    assert_eq!(
        ts,
        TypeSpecification::Unknown(0x8f),
        "expected Unknown(0x8f)"
    );
    assert_eq!(consumed, 2, "expected 2 consumed bytes");
}

#[test]
fn truly_unknown_tag_passes_through() {
    // undefined tag 0xb0 with 2 content bytes decodes to Unknown(0xb0), consuming 4
    let data = [0xb0u8, 0x02, 0x00, 0x00];
    let (ts, consumed) = TypeSpecification::decode(&data, 0).expect("decode must succeed");
    assert_eq!(
        ts,
        TypeSpecification::Unknown(0xb0),
        "expected Unknown(0xb0)"
    );
    assert_eq!(consumed, 4, "expected 4 consumed bytes");
}

#[test]
fn unknown_inside_array_propagates() {
    // an array whose elementType decodes to an Unknown variant
    // wire: 0xa1 <len> [0x81 0x01 0x01] [0xa2 <ts_len> [0xa0 0x00]]
    // count = 1, elementType = typeName, which decodes to Unknown(0xa0)
    let element_ts: &[u8] = &[0xa0, 0x00]; // Unknown(0xa0) TLV
    let mut inner = Vec::new();
    // [1] numberOfElements = 1
    inner.extend_from_slice(&[0x81, 0x01, 0x01]);
    // [2] EXPLICIT elementType
    inner.push(0xa2);
    inner.push(element_ts.len() as u8);
    inner.extend_from_slice(element_ts);

    let mut data = Vec::new();
    data.push(0xa1); // TAG_ARRAY
    data.push(inner.len() as u8);
    data.extend_from_slice(&inner);

    let (ts, consumed) = TypeSpecification::decode(&data, 0).expect("decode must succeed");
    assert_eq!(consumed, data.len(), "consumed must cover the whole TLV");
    match ts {
        TypeSpecification::Array {
            element_count,
            element_type,
        } => {
            assert_eq!(element_count, 1);
            assert_eq!(*element_type, TypeSpecification::Unknown(0xa0));
        }
        other => panic!("expected Array, got {:?}", other),
    }
}

#[test]
fn unknown_inside_structure_component_propagates() {
    // a structure whose single component has type Unknown(0x8b), generalizedtime
    // StructComponent = 0x30 <inner>
    //   0x80 0x03 b"val"    (componentName)
    //   0xa1 <ts_len> [0x8b 0x00]  ([1] EXPLICIT componentType)
    let comp_name = b"val";
    let ts_bytes: &[u8] = &[0x8b, 0x00]; // generalizedtime Unknown(0x8b)
    let mut comp_inner = Vec::new();
    comp_inner.push(0x80);
    comp_inner.push(comp_name.len() as u8);
    comp_inner.extend_from_slice(comp_name);
    comp_inner.push(0xa1);
    comp_inner.push(ts_bytes.len() as u8);
    comp_inner.extend_from_slice(ts_bytes);

    let mut comp_tlv = Vec::new();
    comp_tlv.push(0x30);
    comp_tlv.push(comp_inner.len() as u8);
    comp_tlv.extend_from_slice(&comp_inner);

    // [1] IMPLICIT SEQUENCE OF StructComponent
    let mut list_inner = Vec::new();
    list_inner.extend_from_slice(&comp_tlv);
    let mut struct_inner = Vec::new();
    struct_inner.push(0xa1);
    struct_inner.push(list_inner.len() as u8);
    struct_inner.extend_from_slice(&list_inner);

    let mut data = Vec::new();
    data.push(0xa2); // TAG_STRUCTURE
    data.push(struct_inner.len() as u8);
    data.extend_from_slice(&struct_inner);

    let (ts, consumed) = TypeSpecification::decode(&data, 0).expect("decode must succeed");
    assert_eq!(consumed, data.len(), "consumed must cover the whole TLV");
    match ts {
        TypeSpecification::Structure { components } => {
            assert_eq!(components.len(), 1);
            assert_eq!(components[0].name, "val");
            assert_eq!(components[0].type_spec, TypeSpecification::Unknown(0x8b));
        }
        other => panic!("expected Structure, got {:?}", other),
    }
}

#[test]
fn unknown_encode_returns_err() {
    let mut buf = BytesMut::new();
    let result = TypeSpecification::Unknown(0xa0).encode(&mut buf);
    assert!(
        matches!(result, Err(MmsError::UnknownTypeSpecTag(0xa0))),
        "encoding Unknown must return Err(UnknownTypeSpecTag(0xa0)), got {:?}",
        result
    );
    assert!(buf.is_empty(), "buf must stay empty when encoding fails");
}

// Malformed input must be rejected

#[test]
fn truncated_floatingpoint_returns_err() {
    // a floatingpoint whose inner content is truncated after formatwidth:
    // 0xa7 0x03 0x02 0x01 0x20, with exponentwidth missing
    let data = [0xa7u8, 0x03, 0x02, 0x01, 0x20];
    let result = TypeSpecification::decode(&data, 0);
    assert!(
        result.is_err(),
        "a truncated floatingpoint must return an error, got {:?}",
        result
    );
}

#[test]
fn type_specification_empty_input_returns_truncated() {
    let result = TypeSpecification::decode(&[], 0);
    assert!(matches!(result, Err(MmsError::TruncatedPdu)));
}

#[test]
fn truncated_pdu_returns_err() {
    // 0x85 0x02 0x20: length 2 with only one byte following
    let data = [0x85u8, 0x02, 0x20];
    let result = TypeSpecification::decode(&data, 0);
    assert!(
        result.is_err(),
        "a truncated pdu must return an error, got {:?}",
        result
    );
}

// Robustness case: unbounded structure recursion

#[test]
fn unbounded_structure_recursion_returns_err() {
    // 100 nested structure levels must return an error rather than crash
    // each level: 0xa2 <len> 0xa1 <comp_list_len> 0x30 <seq_len> 0x80 <name_len> "x" 0xa1 <ts_len> <inner>
    fn make_nested_structure_bytes(depth: usize) -> Vec<u8> {
        if depth == 0 {
            return vec![0x83, 0x00]; // boolean NULL
        }
        // structure [2] holding one StructComponent
        // StructComponent = 0x30 <inner_len>
        //   0x80 0x01 b'x'   (componentName "x")
        //   0xa1 <ts_len> <inner_ts>  ([1] EXPLICIT componentType)
        let inner_ts = make_nested_structure_bytes(depth - 1);
        // [1] EXPLICIT TypeSpecification wrapper
        let comp_type_part_len = 1 + 1 + inner_ts.len(); // 0xa1 len content
                                                         // componentName = 0x80 0x01 b'x' (3 bytes)
        let seq_inner_len = 3 + comp_type_part_len;
        // UNIVERSAL SEQUENCE 0x30
        let seq_total = 1 + 1 + seq_inner_len; // 0x30 len content
                                               // [1] IMPLICIT SEQUENCE OF wrapper: 0xa1 len seq_total
        let list_inner_len = seq_total;
        let list_total = 1 + 1 + list_inner_len;
        // structure outer: 0xa2 len list_total
        let outer_inner_len = list_total;

        let mut result = vec![0xa2u8]; // TAG_STRUCTURE
        if outer_inner_len < 128 {
            result.push(outer_inner_len as u8);
        } else {
            result.push(0x81);
            result.push(outer_inner_len as u8);
        }
        // [1] IMPLICIT SEQUENCE OF
        result.push(0xa1);
        if list_inner_len < 128 {
            result.push(list_inner_len as u8);
        } else {
            result.push(0x81);
            result.push(list_inner_len as u8);
        }
        // UNIVERSAL SEQUENCE 0x30
        result.push(0x30);
        if seq_inner_len < 128 {
            result.push(seq_inner_len as u8);
        } else {
            result.push(0x81);
            result.push(seq_inner_len as u8);
        }
        // componentName
        result.extend_from_slice(&[0x80, 0x01, b'x']);
        // componentType [1] EXPLICIT
        result.push(0xa1);
        if inner_ts.len() < 128 {
            result.push(inner_ts.len() as u8);
        } else {
            result.push(0x81);
            result.push(inner_ts.len() as u8);
        }
        result.extend_from_slice(&inner_ts);
        result
    }

    let bomb = make_nested_structure_bytes(100);
    let result = TypeSpecification::decode(&bomb, 0);
    assert!(
        result.is_err(),
        "100 nested structure levels must return an error, got {:?}",
        result
    );
}

// decode_with_max honors the negotiated nesting level

/// With a local cap of 32 and a negotiated 5 the effective cap is 5, so the
/// sixth level must fail.
#[test]
fn type_spec_negotiated_lower_than_local_cap_clamps() {
    // builds N nested array TypeSpec bytes
    fn push_len(out: &mut Vec<u8>, len: usize) {
        if len < 128 {
            out.push(len as u8);
        } else if len <= 0xff {
            out.push(0x81);
            out.push(len as u8);
        } else {
            out.push(0x82);
            out.push((len >> 8) as u8);
            out.push((len & 0xff) as u8);
        }
    }
    fn make_nested(depth: usize) -> Vec<u8> {
        if depth == 0 {
            return vec![0x83, 0x00]; // boolean
        }
        let inner = make_nested(depth - 1);
        let mut et_tlv = vec![0xa2u8];
        push_len(&mut et_tlv, inner.len());
        et_tlv.extend_from_slice(&inner);
        let count_part: &[u8] = &[0x81, 0x01, 0x01];
        let total_inner = count_part.len() + et_tlv.len();
        let mut result = vec![0xa1u8];
        push_len(&mut result, total_inner);
        result.extend_from_slice(count_part);
        result.extend_from_slice(&et_tlv);
        result
    }
    // the effective cap is min(32, 5) = 5, so 6 levels must fail
    let data = make_nested(6);
    let result = TypeSpecification::decode_with_max(&data, 5);
    assert!(
        matches!(result, Err(MmsError::NestingLevelExceeded { .. })),
        "with a negotiated cap of 5, six levels must fail, got {:?}",
        result
    );
}

/// With a local cap of 32 and a negotiated 100 the effective cap stays 32, so
/// the 33rd level still fails.
#[test]
fn type_spec_negotiated_higher_than_local_still_clamps_to_local() {
    let effective = effective_nesting_cap(MAX_TYPE_SPEC_DEPTH, Some(100));
    assert_eq!(effective, 32);
    // decode 33 levels with an effective cap of 32, which must fail
    fn push_len(out: &mut Vec<u8>, len: usize) {
        if len < 128 {
            out.push(len as u8);
        } else if len <= 0xff {
            out.push(0x81);
            out.push(len as u8);
        } else {
            out.push(0x82);
            out.push((len >> 8) as u8);
            out.push((len & 0xff) as u8);
        }
    }
    fn make_nested(depth: usize) -> Vec<u8> {
        if depth == 0 {
            return vec![0x83, 0x00];
        }
        let inner = make_nested(depth - 1);
        let mut et_tlv = vec![0xa2u8];
        push_len(&mut et_tlv, inner.len());
        et_tlv.extend_from_slice(&inner);
        let count_part: &[u8] = &[0x81, 0x01, 0x01];
        let total_inner = count_part.len() + et_tlv.len();
        let mut result = vec![0xa1u8];
        push_len(&mut result, total_inner);
        result.extend_from_slice(count_part);
        result.extend_from_slice(&et_tlv);
        result
    }
    let data = make_nested(33);
    let result = TypeSpecification::decode_with_max(&data, effective);
    assert!(
        matches!(result, Err(MmsError::NestingLevelExceeded { .. })),
        "a negotiated cap of 100 above the local 32 must still fail at 33 levels, got {:?}",
        result
    );
}
