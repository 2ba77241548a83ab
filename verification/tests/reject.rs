use bytes::BytesMut;
use iec61850_mms::mms::error::MmsError;
use iec61850_mms::mms::pdu::reject::{
    ConcludeErrorRejectReason, ConcludeRequestRejectReason, ConcludeResponseRejectReason,
    ConfirmedErrorRejectReason, ConfirmedRequestRejectReason, ConfirmedResponseRejectReason,
    PduErrorRejectReason, RejectPdu, RejectReason, UnconfirmedPduRejectReason,
};

// helpers

fn encode_to_vec(pdu: &RejectPdu) -> Vec<u8> {
    let mut buf = BytesMut::new();
    pdu.encode(&mut buf);
    buf.to_vec()
}

fn roundtrip(pdu: &RejectPdu) -> RejectPdu {
    let bytes = encode_to_vec(pdu);
    RejectPdu::decode(&bytes).expect("round trip decode failed")
}

// round trips without an invokeId

#[test]
fn encode_confirmed_request_other_no_invoke_id() {
    // confirmedRequest/other, no invokeId -> rejectType=1, rejectReason=0
    let pdu = RejectPdu {
        invoke_id: None,
        reason: RejectReason::ConfirmedRequest(ConfirmedRequestRejectReason::Other),
    };
    let bytes = encode_to_vec(&pdu);
    // a4 03 81 01 00
    assert_eq!(bytes, &[0xa4, 0x03, 0x81, 0x01, 0x00]);
}

#[test]
fn encode_pdu_error_unknown_pdu_type_no_invoke_id() {
    // pduError/unknownPduType -> rejectType=5, rejectReason=0
    let pdu = RejectPdu {
        invoke_id: None,
        reason: RejectReason::PduError(PduErrorRejectReason::UnknownPduType),
    };
    let bytes = encode_to_vec(&pdu);
    // a4 03 85 01 00
    assert_eq!(bytes, &[0xa4, 0x03, 0x85, 0x01, 0x00]);
}

// round trips with an invokeId

#[test]
fn encode_unrecognized_service_with_invoke_id_1() {
    // invokeId=1, confirmedRequest/unrecognizedService
    // inner bytes: 80 01 01 81 01 01 = 6 bytes -> outer length = 6
    // a4 06 80 01 01 81 01 01
    // the content is 6 bytes, so the outer length is 6
    let pdu = RejectPdu {
        invoke_id: Some(1),
        reason: RejectReason::ConfirmedRequest(
            ConfirmedRequestRejectReason::UnrecognizedService,
        ),
    };
    let bytes = encode_to_vec(&pdu);
    assert_eq!(bytes, &[0xa4, 0x06, 0x80, 0x01, 0x01, 0x81, 0x01, 0x01]);
}

#[test]
fn encode_invalid_argument_with_invoke_id_42() {
    // confirmedRequest/invalidArgument, invokeId=42 -> rejectType=1, reason=4
    // inner bytes: 80 01 2a 81 01 04 = 6 bytes -> outer length = 6
    let pdu = RejectPdu {
        invoke_id: Some(42),
        reason: RejectReason::ConfirmedRequest(ConfirmedRequestRejectReason::InvalidArgument),
    };
    let bytes = encode_to_vec(&pdu);
    // a4 06 80 01 2a 81 01 04
    assert_eq!(bytes, &[0xa4, 0x06, 0x80, 0x01, 0x2a, 0x81, 0x01, 0x04]);
}

// one round trip per rejectType

#[test]
fn roundtrip_all_reject_types_no_invoke_id() {
    let cases: &[RejectReason] = &[
        RejectReason::ConfirmedRequest(ConfirmedRequestRejectReason::Other),
        RejectReason::ConfirmedResponse(ConfirmedResponseRejectReason::Other),
        RejectReason::ConfirmedError(ConfirmedErrorRejectReason::Other),
        RejectReason::UnconfirmedPdu(UnconfirmedPduRejectReason::Other),
        RejectReason::PduError(PduErrorRejectReason::UnknownPduType),
        RejectReason::CancelRequest,
        RejectReason::CancelResponse,
        RejectReason::CancelError,
        RejectReason::ConcludeRequest(ConcludeRequestRejectReason::Other),
        RejectReason::ConcludeResponse(ConcludeResponseRejectReason::Other),
        RejectReason::ConcludeError(ConcludeErrorRejectReason::Other),
    ];
    for reason in cases {
        let pdu = RejectPdu {
            invoke_id: None,
            reason: reason.clone(),
        };
        let got = roundtrip(&pdu);
        assert_eq!(got, pdu, "round trip failed for {:?}", reason);
    }
}

#[test]
fn roundtrip_all_reject_types_with_invoke_id() {
    let cases: &[RejectReason] = &[
        RejectReason::ConfirmedRequest(ConfirmedRequestRejectReason::UnrecognizedService),
        RejectReason::ConfirmedResponse(ConfirmedResponseRejectReason::InvalidResult),
        RejectReason::ConfirmedError(ConfirmedErrorRejectReason::ValueOutOfRange),
        RejectReason::UnconfirmedPdu(UnconfirmedPduRejectReason::MaxRecursionExceeded),
        RejectReason::PduError(PduErrorRejectReason::IllegalAcseMapping),
        RejectReason::CancelRequest,
        RejectReason::ConcludeRequest(ConcludeRequestRejectReason::InvalidArgument),
        RejectReason::ConcludeResponse(ConcludeResponseRejectReason::InvalidResult),
        RejectReason::ConcludeError(ConcludeErrorRejectReason::ValueOutOfRange),
    ];
    for reason in cases {
        let pdu = RejectPdu {
            invoke_id: Some(99),
            reason: reason.clone(),
        };
        let got = roundtrip(&pdu);
        assert_eq!(
            got, pdu,
            "round trip with invokeId 99 failed for {:?}",
            reason
        );
    }
}

// four byte-exact encodings

#[test]
fn c_produced_unrecognized_service_no_invoke() {
    // confirmedRequest/unrecognizedService, no invokeId
    let pdu = RejectPdu {
        invoke_id: None,
        reason: RejectReason::ConfirmedRequest(
            ConfirmedRequestRejectReason::UnrecognizedService,
        ),
    };
    assert_eq!(encode_to_vec(&pdu), &[0xa4, 0x03, 0x81, 0x01, 0x01]);
}

#[test]
fn c_produced_unknown_pdu_type_no_invoke() {
    // pduError/unknownPduType, no invokeId
    let pdu = RejectPdu {
        invoke_id: None,
        reason: RejectReason::PduError(PduErrorRejectReason::UnknownPduType),
    };
    assert_eq!(encode_to_vec(&pdu), &[0xa4, 0x03, 0x85, 0x01, 0x00]);
}

#[test]
fn c_produced_invalid_argument_with_invoke_1() {
    // confirmedRequest/invalidArgument, invokeId=1
    // the content is 3 + 2 + 1 bytes with a one-byte invokeId, so 6 in all:
    // a4 06 80 01 01 81 01 04
    let pdu = RejectPdu {
        invoke_id: Some(1),
        reason: RejectReason::ConfirmedRequest(ConfirmedRequestRejectReason::InvalidArgument),
    };
    assert_eq!(
        encode_to_vec(&pdu),
        &[0xa4, 0x06, 0x80, 0x01, 0x01, 0x81, 0x01, 0x04]
    );
}

#[test]
fn c_produced_invalid_pdu_no_invoke() {
    // pduError/invalidPdu, no invokeId
    let pdu = RejectPdu {
        invoke_id: None,
        reason: RejectReason::PduError(PduErrorRejectReason::InvalidPdu),
    };
    assert_eq!(encode_to_vec(&pdu), &[0xa4, 0x03, 0x85, 0x01, 0x01]);
}

// invoke_id absent versus present

#[test]
fn invoke_id_none_omits_field() {
    let pdu = RejectPdu {
        invoke_id: None,
        reason: RejectReason::ConfirmedRequest(ConfirmedRequestRejectReason::Other),
    };
    let bytes = encode_to_vec(&pdu);
    assert_eq!(bytes.len(), 5); // a4 03 81 01 00
    assert!(!bytes.contains(&0x80)); // the invokeId tag must be absent
}

#[test]
fn invoke_id_some_42_present() {
    let pdu = RejectPdu {
        invoke_id: Some(42),
        reason: RejectReason::ConfirmedRequest(ConfirmedRequestRejectReason::Other),
    };
    let bytes = encode_to_vec(&pdu);
    assert_eq!(bytes.len(), 8); // a4 06 80 01 2a 81 01 00
    let decoded = RejectPdu::decode(&bytes).unwrap();
    assert_eq!(decoded.invoke_id, Some(42));
}

// a multi-byte invoke_id

#[test]
fn multi_byte_invoke_id_roundtrip() {
    let pdu = RejectPdu {
        invoke_id: Some(0x1234_5678),
        reason: RejectReason::ConfirmedRequest(ConfirmedRequestRejectReason::Other),
    };
    let got = roundtrip(&pdu);
    assert_eq!(got.invoke_id, Some(0x1234_5678));
}

// the decoder tolerates a multi-byte reason

#[test]
fn decoder_multi_byte_reason_accepted() {
    // 0x81 0x02 0x00 0x05 is confirmedRequest reason 5, InvalidModifier,
    // written as a multi-byte BER INTEGER the decoder must accept
    // inner = [0x81, 0x02, 0x00, 0x05] = 4 bytes -> outer length = 4
    let data = &[0xa4u8, 0x04, 0x81, 0x02, 0x00, 0x05];
    let pdu = RejectPdu::decode(data).unwrap();
    assert_eq!(
        pdu.reason,
        RejectReason::ConfirmedRequest(ConfirmedRequestRejectReason::InvalidModifier)
    );
}

#[test]
fn decoder_single_byte_reason_5() {
    // confirmedRequest reason = 5 -> InvalidModifier
    let data = &[0xa4u8, 0x03, 0x81, 0x01, 0x05];
    let pdu = RejectPdu::decode(data).unwrap();
    assert_eq!(
        pdu.reason,
        RejectReason::ConfirmedRequest(ConfirmedRequestRejectReason::InvalidModifier)
    );
}

// an unknown reason value clamps to Other

#[test]
fn unknown_confirmed_request_reason_clamps_to_other() {
    // reason 99 lies outside the defined range and clamps to Other(0)
    let data = &[0xa4u8, 0x03, 0x81, 0x01, 0x63]; // 0x63 is 99
    let pdu = RejectPdu::decode(data).unwrap();
    assert_eq!(
        pdu.reason,
        RejectReason::ConfirmedRequest(ConfirmedRequestRejectReason::Other)
    );
}

// an unknown rejectType is skipped

#[test]
fn unknown_reject_type_0x8f_ignored_no_reason_returns_err() {
    // tag 0x8f is rejectType 15, above 0x8b, so it is skipped and no reason remains
    let data = &[0xa4u8, 0x03, 0x8f, 0x01, 0x00];
    let result = RejectPdu::decode(data);
    assert!(
        matches!(result, Err(MmsError::InvalidPdu)),
        "expected InvalidPdu, got {:?}",
        result
    );
}

#[test]
fn unknown_reject_type_12_with_valid_before_it() {
    // a valid reason followed by an unknown tag still decodes
    let data = &[0xa4u8, 0x06, 0x81, 0x01, 0x01, 0x8f, 0x01, 0x00];
    let pdu = RejectPdu::decode(data).unwrap();
    assert_eq!(
        pdu.reason,
        RejectReason::ConfirmedRequest(ConfirmedRequestRejectReason::UnrecognizedService)
    );
}

// a truncated PDU yields TruncatedPdu

#[test]
fn truncated_empty_returns_err() {
    assert!(matches!(
        RejectPdu::decode(&[]),
        Err(MmsError::TruncatedPdu)
    ));
}

#[test]
fn truncated_only_outer_tag() {
    assert!(matches!(
        RejectPdu::decode(&[0xa4]),
        Err(MmsError::TruncatedPdu)
    ));
}

#[test]
fn truncated_inner_content() {
    // the outer length claims 7 bytes with only 2 present
    let data = &[0xa4u8, 0x07, 0x81, 0x01];
    assert!(matches!(
        RejectPdu::decode(data),
        Err(MmsError::TruncatedPdu)
    ));
}

#[test]
fn truncated_no_length_byte() {
    // 0xa4 with no length byte
    let data = &[0xa4u8];
    assert!(matches!(
        RejectPdu::decode(data),
        Err(MmsError::TruncatedPdu)
    ));
}

// a PDU with only an invokeId and no reason is rejected

#[test]
fn pdu_with_only_invoke_id_no_reason_returns_err() {
    // a4 03 80 01 01 carries an invokeId and no rejectReason
    let data = &[0xa4u8, 0x03, 0x80, 0x01, 0x01];
    let result = RejectPdu::decode(data);
    assert!(
        matches!(result, Err(MmsError::InvalidPdu)),
        "expected InvalidPdu, got {:?}",
        result
    );
}

// a wrong outer tag yields InvalidTag

#[test]
fn wrong_outer_tag_returns_err() {
    let data = &[0xa8u8, 0x03, 0x81, 0x01, 0x01];
    let result = RejectPdu::decode(data);
    assert!(matches!(
        result,
        Err(MmsError::InvalidTag {
            expected: 0xa4,
            actual: 0xa8
        })
    ));
}

// the NULL-bodied rejectTypes

#[test]
fn cancel_request_encode_decode() {
    let pdu = RejectPdu {
        invoke_id: None,
        reason: RejectReason::CancelRequest,
    };
    let bytes = encode_to_vec(&pdu);
    // a4 02 86 00
    assert_eq!(bytes, &[0xa4, 0x02, 0x86, 0x00]);
    let got = RejectPdu::decode(&bytes).unwrap();
    assert_eq!(got.reason, RejectReason::CancelRequest);
}

#[test]
fn cancel_response_encode_decode() {
    let pdu = RejectPdu {
        invoke_id: None,
        reason: RejectReason::CancelResponse,
    };
    let bytes = encode_to_vec(&pdu);
    assert_eq!(bytes, &[0xa4, 0x02, 0x87, 0x00]);
    let got = RejectPdu::decode(&bytes).unwrap();
    assert_eq!(got.reason, RejectReason::CancelResponse);
}

#[test]
fn cancel_error_encode_decode() {
    let pdu = RejectPdu {
        invoke_id: None,
        reason: RejectReason::CancelError,
    };
    let bytes = encode_to_vec(&pdu);
    assert_eq!(bytes, &[0xa4, 0x02, 0x88, 0x00]);
    let got = RejectPdu::decode(&bytes).unwrap();
    assert_eq!(got.reason, RejectReason::CancelError);
}

// the four specific to_mms_error mappings

#[test]
fn to_mms_error_unrecognized_service() {
    let pdu = RejectPdu {
        invoke_id: None,
        reason: RejectReason::ConfirmedRequest(
            ConfirmedRequestRejectReason::UnrecognizedService,
        ),
    };
    assert_eq!(pdu.to_mms_error(), MmsError::RejectUnrecognizedService);
}

#[test]
fn to_mms_error_invalid_argument() {
    let pdu = RejectPdu {
        invoke_id: None,
        reason: RejectReason::ConfirmedRequest(ConfirmedRequestRejectReason::InvalidArgument),
    };
    assert_eq!(pdu.to_mms_error(), MmsError::RejectRequestInvalidArgument);
}

#[test]
fn to_mms_error_unknown_pdu_type() {
    let pdu = RejectPdu {
        invoke_id: None,
        reason: RejectReason::PduError(PduErrorRejectReason::UnknownPduType),
    };
    assert_eq!(pdu.to_mms_error(), MmsError::RejectUnknownPduType);
}

#[test]
fn to_mms_error_invalid_pdu() {
    let pdu = RejectPdu {
        invoke_id: None,
        reason: RejectReason::PduError(PduErrorRejectReason::InvalidPdu),
    };
    assert_eq!(pdu.to_mms_error(), MmsError::RejectInvalidPdu);
}

#[test]
fn to_mms_error_other_cases() {
    let pdu = RejectPdu {
        invoke_id: None,
        reason: RejectReason::ConfirmedError(ConfirmedErrorRejectReason::Other),
    };
    assert_eq!(pdu.to_mms_error(), MmsError::RejectOther);
}

// round trips over every sub-enum value

#[test]
fn confirmed_request_all_values_roundtrip() {
    for r in [
        ConfirmedRequestRejectReason::Other,
        ConfirmedRequestRejectReason::UnrecognizedService,
        ConfirmedRequestRejectReason::UnrecognizedModifier,
        ConfirmedRequestRejectReason::InvalidInvokeId,
        ConfirmedRequestRejectReason::InvalidArgument,
        ConfirmedRequestRejectReason::InvalidModifier,
        ConfirmedRequestRejectReason::MaxServOutstandingExceeded,
        ConfirmedRequestRejectReason::MaxRecursionExceeded,
        ConfirmedRequestRejectReason::ValueOutOfRange,
    ] {
        let pdu = RejectPdu {
            invoke_id: None,
            reason: RejectReason::ConfirmedRequest(r),
        };
        let got = roundtrip(&pdu);
        assert_eq!(got, pdu);
    }
}

#[test]
fn conclude_error_all_values_roundtrip() {
    for r in [ConcludeErrorRejectReason::Other, ConcludeErrorRejectReason::InvalidServiceError, ConcludeErrorRejectReason::ValueOutOfRange] {
        let pdu = RejectPdu {
            invoke_id: None,
            reason: RejectReason::ConcludeError(r),
        };
        let got = roundtrip(&pdu);
        assert_eq!(got, pdu);
    }
}
