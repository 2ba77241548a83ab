use bytes::{Bytes, BytesMut};
use iec61850_mms::mms::error::MmsError;
use iec61850_mms::mms::pdu::MmsPdu;
use iec61850_mms::mms::pdu::initiate::{InitiateErrorPdu, InitiateRequestPdu, InitiateResponsePdu};
use iec61850_mms::mms::pdu::reject::{
    ConfirmedRequestRejectReason, PduErrorRejectReason, RejectPdu, RejectReason,
};

// one dispatch test per variant

#[test]
fn dispatch_confirmed_request() {
    // 0xa0 0x01 0x00 with one content byte
    let data = &[0xa0u8, 0x01, 0x42];
    let pdu = MmsPdu::decode(data).unwrap();
    assert!(matches!(pdu, MmsPdu::ConfirmedRequest(_)));
    assert_eq!(pdu.tag_byte(), 0xa0);
}

#[test]
fn dispatch_confirmed_response() {
    let data = &[0xa1u8, 0x01, 0x42];
    let pdu = MmsPdu::decode(data).unwrap();
    assert!(matches!(pdu, MmsPdu::ConfirmedResponse(_)));
    assert_eq!(pdu.tag_byte(), 0xa1);
}

#[test]
fn dispatch_confirmed_error() {
    let data = &[0xa2u8, 0x01, 0x42];
    let pdu = MmsPdu::decode(data).unwrap();
    assert!(matches!(pdu, MmsPdu::ConfirmedError(_)));
    assert_eq!(pdu.tag_byte(), 0xa2);
}

#[test]
fn dispatch_unconfirmed() {
    let data = &[0xa3u8, 0x01, 0x42];
    let pdu = MmsPdu::decode(data).unwrap();
    assert!(matches!(pdu, MmsPdu::Unconfirmed(_)));
    assert_eq!(pdu.tag_byte(), 0xa3);
}

#[test]
fn dispatch_reject() {
    // a valid reject: confirmedRequest with unrecognizedService and invokeId 1,
    // whose content is 80 01 01 81 01 01, six bytes, giving a4 06 ...
    let data = &[0xa4u8, 0x06, 0x80, 0x01, 0x01, 0x81, 0x01, 0x01];
    let pdu = MmsPdu::decode(data).unwrap();
    assert!(matches!(pdu, MmsPdu::Reject(_)));
    assert_eq!(pdu.tag_byte(), 0xa4);
    if let MmsPdu::Reject(r) = &pdu {
        assert_eq!(r.invoke_id, Some(1));
        assert_eq!(
            r.reason,
            RejectReason::ConfirmedRequest(ConfirmedRequestRejectReason::UnrecognizedService)
        );
    } else {
        panic!("expected the Reject variant");
    }
}

#[test]
fn reject_mmspdu_encode_decode_roundtrip() {
    // a full encode and decode round trip of a Reject at the MmsPdu layer
    let reject = RejectPdu {
        invoke_id: Some(5),
        reason: RejectReason::PduError(PduErrorRejectReason::InvalidPdu),
    };
    let pdu = MmsPdu::Reject(reject.clone());
    let mut buf = BytesMut::new();
    pdu.encode(&mut buf);
    let decoded = MmsPdu::decode(&buf).unwrap();
    assert_eq!(decoded, MmsPdu::Reject(reject));
}

#[test]
fn dispatch_initiate_request() {
    // encode a default request and check the decoded variant
    let req = InitiateRequestPdu::default();
    let mut buf = BytesMut::new();
    req.encode(&mut buf);
    let pdu = MmsPdu::decode(&buf).unwrap();
    assert!(matches!(pdu, MmsPdu::InitiateRequest(_)));
    assert_eq!(pdu.tag_byte(), 0xa8);
}

#[test]
fn dispatch_initiate_response() {
    let resp = InitiateResponsePdu::default();
    let mut buf = BytesMut::new();
    resp.encode(&mut buf);
    let pdu = MmsPdu::decode(&buf).unwrap();
    assert!(matches!(pdu, MmsPdu::InitiateResponse(_)));
    assert_eq!(pdu.tag_byte(), 0xa9);
}

#[test]
fn dispatch_initiate_error() {
    let err_pdu = InitiateErrorPdu::new(0);
    let mut buf = BytesMut::new();
    err_pdu.encode(&mut buf);
    let pdu = MmsPdu::decode(&buf).unwrap();
    assert!(matches!(pdu, MmsPdu::InitiateError(_)));
    assert_eq!(pdu.tag_byte(), 0xaa);
}

#[test]
fn dispatch_conclude_request() {
    let data = &[0x8bu8, 0x00];
    let pdu = MmsPdu::decode(data).unwrap();
    assert_eq!(pdu, MmsPdu::ConcludeRequest);
    assert_eq!(pdu.tag_byte(), 0x8b);
}

#[test]
fn dispatch_conclude_response() {
    let data = &[0x8cu8, 0x00];
    let pdu = MmsPdu::decode(data).unwrap();
    assert_eq!(pdu, MmsPdu::ConcludeResponse);
    assert_eq!(pdu.tag_byte(), 0x8c);
}

// unknown tags

#[test]
fn unknown_tag_returns_err() {
    // tag [5], 0xa5, is cancel-request and is not implemented
    let data = &[0xa5u8, 0x01, 0x00];
    let result = MmsPdu::decode(data);
    assert!(matches!(result, Err(MmsError::UnknownMmsPduTag(0xa5))));
}

#[test]
fn cancel_tags_56_7_all_unknown() {
    for tag in [0xa5u8, 0xa6, 0xa7] {
        let data = &[tag, 0x01, 0x00];
        let result = MmsPdu::decode(data);
        assert!(
            matches!(result, Err(MmsError::UnknownMmsPduTag(_))),
            "tag 0x{:02X} must return UnknownMmsPduTag",
            tag
        );
    }
}

// encode round trips for the raw-content variants

#[test]
fn confirmed_request_encode_roundtrip() {
    let inner = Bytes::from_static(&[0x01, 0x02, 0x03]);
    let pdu = MmsPdu::ConfirmedRequest(inner.clone());
    let mut buf = BytesMut::new();
    pdu.encode(&mut buf);
    assert_eq!(buf[0], 0xa0);
    let decoded = MmsPdu::decode(&buf).unwrap();
    if let MmsPdu::ConfirmedRequest(got) = decoded {
        assert_eq!(got, inner);
    } else {
        panic!("the decoded pdu is not a ConfirmedRequest");
    }
}

// byte-exact Conclude encoding

#[test]
fn conclude_request_encode_via_mmspdu() {
    let pdu = MmsPdu::ConcludeRequest;
    let mut buf = BytesMut::new();
    pdu.encode(&mut buf);
    assert_eq!(&buf[..], &[0x8b, 0x00]);
}

#[test]
fn conclude_response_encode_via_mmspdu() {
    let pdu = MmsPdu::ConcludeResponse;
    let mut buf = BytesMut::new();
    pdu.encode(&mut buf);
    assert_eq!(&buf[..], &[0x8c, 0x00]);
}

// boundary conditions

#[test]
fn mod_empty_input_returns_truncated() {
    let result = MmsPdu::decode(&[]);
    assert!(matches!(result, Err(MmsError::TruncatedPdu)));
}

#[test]
fn initiate_error_byte_exact_via_mmspdu() {
    let err_pdu = InitiateErrorPdu::new(0);
    let pdu = MmsPdu::InitiateError(err_pdu);
    let mut buf = BytesMut::new();
    pdu.encode(&mut buf);
    assert_eq!(&buf[..], &[0xaa, 0x05, 0xa0, 0x03, 0x88, 0x01, 0x00]);
}
