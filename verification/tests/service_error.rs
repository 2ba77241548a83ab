use bytes::BytesMut;
use iec61850_mms::mms::pdu::service_error::{ErrorClass, ServiceError};

#[test]
fn error_class_initiate_encode_explicit() {
    // an InitiateError encodes errorClass.initiate(0) as 0xa0 0x03 0x88 0x01 0x00
    let ec = ErrorClass::Initiate(0);
    let mut buf = BytesMut::new();
    ec.encode_explicit(&mut buf);
    assert_eq!(&buf[..], &[0xa0, 0x03, 0x88, 0x01, 0x00]);
}

#[test]
fn error_class_decode_roundtrip() {
    let ec = ErrorClass::Initiate(1);
    let mut buf = BytesMut::new();
    ec.encode_explicit(&mut buf);
    let (decoded, consumed) = ErrorClass::decode_explicit(&buf).unwrap();
    assert_eq!(decoded, ec);
    assert_eq!(consumed, buf.len());
}

#[test]
fn error_class_others() {
    let ec = ErrorClass::Others(3);
    let mut buf = BytesMut::new();
    ec.encode_explicit(&mut buf);
    // context_tag = 12 -> inner_tag = 0x80 | 12 = 0x8c
    assert_eq!(buf[2], 0x8c);
    assert_eq!(buf[4], 3);
}

#[test]
fn service_error_encode_decode_minimal() {
    let se = ServiceError::new(ErrorClass::Initiate(0));
    let mut buf = BytesMut::new();
    se.encode_inner(&mut buf);
    let decoded = ServiceError::decode_inner(&buf).unwrap();
    assert_eq!(decoded.error_class, se.error_class);
    assert_eq!(decoded.additional_code, None);
    assert_eq!(decoded.additional_description, None);
}

#[test]
fn service_error_with_optional_fields() {
    let se = ServiceError {
        error_class: ErrorClass::Access(2),
        additional_code: Some(42),
        additional_description: Some("test error".to_string()),
    };
    let mut buf = BytesMut::new();
    se.encode_inner(&mut buf);
    let decoded = ServiceError::decode_inner(&buf).unwrap();
    assert_eq!(decoded, se);
}

#[test]
fn decode_truncated_returns_err() {
    // fewer than 5 bytes
    let result = ErrorClass::decode_explicit(&[0xa0, 0x03, 0x88]);
    assert!(result.is_err());
}
