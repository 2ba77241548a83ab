use bytes::BytesMut;
use iec61850_mms::mms::error::MmsError;
use iec61850_mms::mms::pdu::MmsPdu;
use iec61850_mms::mms::pdu::initiate::{
    encode_uint32_minimal, InitResponseDetail, InitiateErrorPdu, InitiateRequestPdu,
    InitiateResponsePdu, DEFAULT_PARAMETER_CBB_CLIENT, DEFAULT_SERVICES_SUPPORTED_CLIENT,
};
use iec61850_mms::mms::pdu::integer::decode_uint;

// InitiateRequestPdu

#[test]
fn initiate_request_encode_decode_roundtrip() {
    let req = InitiateRequestPdu::default();
    let mut buf = BytesMut::new();
    req.encode(&mut buf);

    // the outer tag
    assert_eq!(buf[0], 0xa8);

    let decoded = InitiateRequestPdu::decode(&buf).unwrap();
    assert_eq!(decoded, req);
}

#[test]
fn initiate_request_encode_has_version_one() {
    let req = InitiateRequestPdu::default();
    let mut buf = BytesMut::new();
    req.encode(&mut buf);
    let bytes = &buf[..];
    // locate proposedVersionNumber, 0x80 0x01 0x01
    let has_version = bytes.windows(3).any(|w| w == [0x80, 0x01, 0x01]);
    assert!(has_version, "proposedVersionNumber 1 must be present");
}

#[test]
fn initiate_request_services_supported_correct() {
    // ServicesSupported must survive an encode and decode unchanged
    let req = InitiateRequestPdu::default();
    let mut buf = BytesMut::new();
    req.encode(&mut buf);
    let decoded = InitiateRequestPdu::decode(&buf).unwrap();
    assert_eq!(
        decoded.init_request_detail.services_supported_calling,
        DEFAULT_SERVICES_SUPPORTED_CLIENT,
        "servicesSupported must not be shifted"
    );
}

#[test]
fn initiate_request_parameter_cbb_correct() {
    let req = InitiateRequestPdu::default();
    let mut buf = BytesMut::new();
    req.encode(&mut buf);
    let decoded = InitiateRequestPdu::decode(&buf).unwrap();
    assert_eq!(
        decoded.init_request_detail.proposed_parameter_cbb,
        DEFAULT_PARAMETER_CBB_CLIENT
    );
}

// InitiateResponsePdu

#[test]
fn initiate_response_encode_decode_roundtrip() {
    let resp = InitiateResponsePdu::default();
    let mut buf = BytesMut::new();
    resp.encode(&mut buf);
    assert_eq!(buf[0], 0xa9);
    let decoded = InitiateResponsePdu::decode(&buf).unwrap();
    assert_eq!(decoded, resp);
}

#[test]
fn initiate_response_custom_pdu_size() {
    let mut resp = InitiateResponsePdu::default();
    resp.local_detail_called = Some(4096);
    let mut buf = BytesMut::new();
    resp.encode(&mut buf);
    let decoded = InitiateResponsePdu::decode(&buf).unwrap();
    assert_eq!(decoded.local_detail_called, Some(4096));
}

// InitiateErrorPdu

#[test]
fn initiate_error_encode_exact() {
    // byte exact: 0xaa 0x05 0xa0 0x03 0x88 0x01 0x00
    let err_pdu = InitiateErrorPdu::new(0);
    let mut buf = BytesMut::new();
    err_pdu.encode(&mut buf);
    assert_eq!(
        &buf[..],
        &[0xaa, 0x05, 0xa0, 0x03, 0x88, 0x01, 0x00],
        "InitiateErrorPdu encoding is not byte exact"
    );
}

#[test]
fn initiate_error_decode_roundtrip() {
    let err_pdu = InitiateErrorPdu::new(2);
    let mut buf = BytesMut::new();
    err_pdu.encode(&mut buf);
    let decoded = InitiateErrorPdu::decode(&buf).unwrap();
    assert_eq!(decoded, err_pdu);
}

// Rejection of out-of-range fields

#[test]
fn parameter_cbb_wrong_length_returns_err() {
    // build a parameterCBB with the illegal length 2 by encoding a valid PDU and
    // patching the length byte of its parameterCBB TLV
    //       0x83 0x01 0x0a 0xa4 <len> 0x80 0x01 0x01 0x81 0x02 0x05 0xf1 0x82 ...
    let req = InitiateRequestPdu::default();
    let mut buf = BytesMut::new();
    req.encode(&mut buf);

    // find 0x81 0x03, the parameterCBB tag and length, and set the length to 2
    let bytes = buf.as_mut();
    let mut found = false;
    for i in 0..bytes.len().saturating_sub(1) {
        if bytes[i] == 0x81 && bytes[i + 1] == 0x03 {
            bytes[i + 1] = 0x02; // illegal length 2
            found = true;
            break;
        }
    }
    assert!(found, "the parameterCBB TLV to mutate was not found");

    let result = InitiateRequestPdu::decode(bytes);
    assert!(
        matches!(result, Err(MmsError::InvalidParameterCbbLength { .. })),
        "a parameterCBB length other than 3 must return InvalidParameterCbbLength"
    );
}

#[test]
fn nesting_level_exceeded_returns_err() {
    // build a nesting level of 255, above MAX_NESTING_LEVEL of 32
    let req = InitiateRequestPdu::default();
    let mut buf = BytesMut::new();
    req.encode(&mut buf);

    // find 0x83 0x01 <level> and set the level to 255
    let bytes = buf.as_mut();
    let mut found = false;
    for i in 0..bytes.len().saturating_sub(2) {
        if bytes[i] == 0x83 && bytes[i + 1] == 0x01 {
            bytes[i + 2] = 255;
            found = true;
            break;
        }
    }
    assert!(found, "the nesting level TLV was not found");

    let result = InitiateRequestPdu::decode(bytes);
    assert!(
        matches!(result, Err(MmsError::NestingLevelExceeded { .. })),
        "a nesting level of 255 must return NestingLevelExceeded"
    );
}

#[test]
fn bit_string_padding_skipped() {
    // BIT STRING decoding must skip the padding byte: build an InitResponseDetail
    // carrying servicesSupported and check the decoded service list
    let detail = InitResponseDetail {
        negotiated_version_number: 1,
        negotiated_parameter_cbb: DEFAULT_PARAMETER_CBB_CLIENT,
        services_supported_called: DEFAULT_SERVICES_SUPPORTED_CLIENT,
    };
    let mut buf = BytesMut::new();
    detail.encode_inner(&mut buf);

    let decoded = InitResponseDetail::decode_inner(&buf).unwrap();
    assert_eq!(
        decoded.services_supported_called, DEFAULT_SERVICES_SUPPORTED_CLIENT,
        "servicesSupported must not be shifted by the padding byte"
    );
    // the top bits of the first byte, service 0 status onwards, must be intact
    // DEFAULT_SERVICES_SUPPORTED_CLIENT[0] = 0xee = 0b11101110
    // 0xee is 0b11101110: bit 7 is status, bit 6 getNameList, and so on
    assert_eq!(decoded.services_supported_called[0], 0xee);
}

#[test]
fn bit_string_padding_boundary_large_length() {
    // an oversized length must not panic
    let malformed: &[u8] = &[
        0xa8, 0x82, 0xff,
        0xff, // outer tag plus a long-form length of 65535 with far less data present
    ];
    let result = InitiateRequestPdu::decode(malformed);
    assert!(
        result.is_err(),
        "an oversized length must return an error, not panic"
    );
}

// decode_uint accepts the five-byte signed form

#[test]
fn decode_uint_accepts_5_byte_with_leading_zero() {
    // 0xff_00_00_00 has its top bit set, so the positive BER form takes five bytes
    assert_eq!(
        decode_uint(&[0x00, 0xff, 0x00, 0x00, 0x00]).unwrap(),
        0xff00_0000
    );
    // u32::MAX also uses the five-byte form
    assert_eq!(
        decode_uint(&[0x00, 0xff, 0xff, 0xff, 0xff]).unwrap(),
        u32::MAX
    );
    // the four-byte form stays legal when the top bit is clear
    assert_eq!(decode_uint(&[0x7f, 0xff, 0xff, 0xff]).unwrap(), 0x7fff_ffff);
    // a four-byte value with the top bit set is still accepted and read as unsigned
    assert_eq!(decode_uint(&[0xec, 0x81, 0x02, 0x00]).unwrap(), 0xec81_0200);
}

#[test]
fn decode_uint_rejects_5_byte_without_leading_zero() {
    // five bytes whose first byte is not 0x00 are rejected: the value would not fit
    assert!(matches!(
        decode_uint(&[0x01, 0x00, 0x00, 0x00, 0x00]),
        Err(MmsError::InvalidLength)
    ));
    // six or more bytes are always rejected
    assert!(matches!(
        decode_uint(&[0x00, 0x00, 0xff, 0xff, 0xff, 0xff]),
        Err(MmsError::InvalidLength)
    ));
    assert!(matches!(decode_uint(&[]), Err(MmsError::InvalidLength)));
}

#[test]
fn decode_uint_roundtrip_with_high_bit_value() {
    // encode_uint32_minimal produces five bytes for a u32 with the top bit set,
    // and decode_uint must accept them
    for val in [0x8000_0000u32, 0xff00_0000, 0xec81_0200, u32::MAX] {
        let encoded = encode_uint32_minimal(val);
        assert_eq!(
            decode_uint(&encoded).unwrap(),
            val,
            "encode and decode are not idempotent for val=0x{:08x}",
            val
        );
    }
}

#[test]
fn initiate_response_roundtrip_with_high_bit_local_detail() {
    // minimized regression input: local_detail_called = 0xec81_0200, whose top bit
    // is set, with every other field at its smallest legal value
    let pdu = InitiateResponsePdu {
        local_detail_called: Some(0xec81_0200),
        negotiated_max_serv_outstanding_calling: 1,
        negotiated_max_serv_outstanding_called: 1,
        negotiated_data_structure_nesting_level: Some(0),
        init_response_detail: InitResponseDetail::default(),
    };
    let mut buf = BytesMut::new();
    pdu.encode(&mut buf);
    // encoding then decoding must reproduce the value
    let decoded = InitiateResponsePdu::decode(&buf).unwrap();
    assert_eq!(decoded, pdu);
}

#[test]
fn fuzz_artifact_initiate_response_roundtrip() {
    // A 57-byte input that once decoded but failed to round trip.
    // Decoding must succeed and encoding the result must decode back to it.
    let data: &[u8] = &[
        0xa9, 0x2d, 0x81, 0x02, 0x00, 0x06, 0x0d, 0x81, 0x02, 0xa4, 0x06, 0x82, 0x01, 0x05,
        0x00, 0x00, 0x32, 0x04, 0xa9, 0x00, 0x02, 0x1b, 0x83, 0x02, 0x00, 0x06, 0xa4, 0x06,
        0xc0, 0x01, 0x11, 0x89, 0x01, 0x29, 0x80, 0x04, 0xec, 0x81, 0x02, 0x00, 0x06, 0x01,
        0x00, 0x00, 0x00, 0x00, 0x00, 0x00, 0x00, 0xa4, 0x06, 0x80, 0x01, 0x11, 0x89, 0x01,
        0x11, 0x01,
    ];
    let pdu = MmsPdu::decode(data).expect("the artifact must decode");
    let mut buf = BytesMut::new();
    pdu.encode(&mut buf);
    let redecoded = MmsPdu::decode(&buf).expect("encode then decode must be idempotent");
    assert_eq!(pdu, redecoded);
}
