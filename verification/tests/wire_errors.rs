use bytes::BytesMut;
use iec61850_mms::asn1::{decode_length, encode_length, Asn1Error};
use iec61850_mms::mms::error::MmsError;
use iec61850_mms::mms::pdu::access::{AccessResult, DataAccessError, WriteOutcome};
use iec61850_mms::mms::pdu::alternate_access::AlternateAccess;
use iec61850_mms::mms::pdu::data::MmsData;
use iec61850_mms::mms::pdu::define_named_variable_list::{
    DefineNamedVariableListRequest, DefineNamedVariableListResponse,
};
use iec61850_mms::mms::pdu::get_name_list::ObjectClass;
use iec61850_mms::mms::pdu::information_report::decode_information_report;
use iec61850_mms::mms::pdu::initiate::{InitiateRequestPdu, InitiateResponsePdu};
use iec61850_mms::mms::pdu::object_name::ObjectName;
use iec61850_mms::mms::pdu::reject::{
    ConfirmedRequestRejectReason, PduErrorRejectReason, RejectPdu, RejectReason,
};
use iec61850_mms::mms::pdu::type_specification::TypeSpecification;
use iec61850_mms::mms::pdu::variable_access::VariableAccessSpecification;
use iec61850_mms::mms::pdu::MmsPdu;

#[test]
fn length_forms_and_their_limits() {
    assert_eq!(decode_length(&[]), Err(Asn1Error::TruncatedInput));
    assert_eq!(decode_length(&[0x7f]), Ok((127, 1)));
    assert_eq!(decode_length(&[0x80]), Err(Asn1Error::LengthTooLong { octets: 0 }));
    assert_eq!(decode_length(&[0x81]), Err(Asn1Error::TruncatedInput));
    assert_eq!(decode_length(&[0x81, 0x05]), Ok((5, 2)));
    assert_eq!(decode_length(&[0x84, 0x00, 0x01, 0x00, 0x02]), Ok((65538, 5)));
    assert_eq!(
        decode_length(&[0x85, 0, 0, 0, 0, 1]),
        Err(Asn1Error::LengthTooLong { octets: 5 })
    );
}

#[test]
fn lengths_are_written_in_the_shortest_form() {
    let cases: [(usize, &[u8]); 6] = [
        (0, &[0x00]),
        (127, &[0x7f]),
        (128, &[0x81, 0x80]),
        (255, &[0x81, 0xff]),
        (256, &[0x82, 0x01, 0x00]),
        (65535, &[0x82, 0xff, 0xff]),
    ];
    for (len, octets) in cases {
        let mut buf = BytesMut::new();
        encode_length(len, &mut buf);
        assert_eq!(&buf[..], octets);
        assert_eq!(decode_length(&buf), Ok((len, octets.len())));
    }
}

#[test]
fn object_names_that_do_not_decode() {
    assert_eq!(ObjectName::decode(&[]), Err(MmsError::TruncatedPdu));
    assert_eq!(ObjectName::decode(&[0x80, 0x02, b'A']), Err(MmsError::TruncatedPdu));
    assert_eq!(ObjectName::decode(&[0x80, 0x80]), Err(MmsError::InvalidLength));
    assert_eq!(ObjectName::decode(&[0x80, 0x01, 0xff]), Err(MmsError::InvalidUtf8));
    assert_eq!(
        ObjectName::decode(&[0x83, 0x01, b'A']),
        Err(MmsError::UnknownObjectNameTag(0x83))
    );
    assert_eq!(
        ObjectName::decode(&[0xa1, 0x03, 0x1b, 0x01, b'D']),
        Err(MmsError::InvalidTag { expected: 0x1a, actual: 0x1b })
    );
    assert_eq!(
        ObjectName::decode(&[0xa1, 0x03, 0x1a, 0x01, b'D']),
        Err(MmsError::TruncatedPdu)
    );
}

#[test]
fn object_name_length_at_and_past_the_limit() {
    let mut at = vec![0x80, 64];
    at.extend_from_slice(&[b'N'; 64]);
    assert_eq!(
        ObjectName::decode(&at),
        Ok((ObjectName::VmdSpecific("N".repeat(64)), 66))
    );
    let mut past = vec![0x82, 65];
    past.extend_from_slice(&[b'N'; 65]);
    assert_eq!(
        ObjectName::decode(&past),
        Err(MmsError::IdentifierTooLong { actual: 65 })
    );
}

#[test]
fn access_specifications_that_do_not_decode() {
    assert_eq!(
        VariableAccessSpecification::decode(&[0xa2, 0x00]),
        Err(MmsError::UnknownVasTag(0xa2))
    );
    assert_eq!(
        VariableAccessSpecification::decode(&[0xa0, 0x02, 0x31, 0x00]),
        Err(MmsError::InvalidTag { expected: 0x30, actual: 0x31 })
    );
    // an alternate access must have the tag 0xa5
    assert_eq!(
        VariableAccessSpecification::decode(&[
            0xa0, 0x09, 0x30, 0x07, 0xa0, 0x03, 0x80, 0x01, b'V', 0x30, 0x00,
        ]),
        Err(MmsError::InvalidTag { expected: 0xa5, actual: 0x30 })
    );
    // nothing may follow the alternate access
    assert_eq!(
        VariableAccessSpecification::decode(&[
            0xa0, 0x0e, 0x30, 0x0c, 0xa0, 0x03, 0x80, 0x01, b'V', 0xa5, 0x03, 0x82, 0x01, 0x00,
            0x05, 0x00,
        ]),
        Err(MmsError::TruncatedPdu)
    );
}

#[test]
fn alternate_access_errors() {
    let unsupported = |data: &[u8]| match AlternateAccess::decode(data) {
        Err(MmsError::AlternateAccessUnsupported(text)) => text,
        other => panic!("expected an unsupported form, got {:?}", other),
    };
    assert_eq!(unsupported(&[0x30, 0x00]), "empty AlternateAccess sequence");
    assert_eq!(
        unsupported(&[0x30, 0x03, 0x81, 0x01, b'x']),
        "selectAccess.component (component-only) is not supported"
    );
    assert_eq!(
        unsupported(&[0x30, 0x02, 0xa3, 0x00]),
        "selectAccess.indexRange is not supported"
    );
    assert_eq!(
        unsupported(&[0x30, 0x02, 0xa5, 0x00]),
        "named AlternateAccess member is not supported"
    );
    assert_eq!(
        unsupported(&[0x30, 0x02, 0x99, 0x00]),
        "unknown AlternateAccess selector tag"
    );
    assert_eq!(
        unsupported(&[0x30, 0x05, 0xa0, 0x03, 0x80, 0x01, b'x']),
        "selectAlternateAccess: only accessSelection.index is supported"
    );
    assert_eq!(
        AlternateAccess::decode(&[0x31, 0x00]),
        Err(MmsError::InvalidTag { expected: 0x30, actual: 0x31 })
    );
    // an index has at most 32 bits
    assert_eq!(
        unsupported(&[0x30, 0x07, 0x82, 0x05, 0x01, 0x00, 0x00, 0x00, 0x02]),
        "index exceeds Unsigned32"
    );
    assert_eq!(
        AlternateAccess::decode(&[0x30, 0x07, 0x82, 0x05, 0x00, 0xff, 0xff, 0xff, 0xff]),
        Ok((AlternateAccess::index(u32::MAX), 9))
    );
}

#[test]
fn nested_alternate_access_has_one_member() {
    let several: [&[u8]; 4] = [
        // two components in the nested sequence
        &[
            0x30, 0x0d, 0xa0, 0x0b, 0x81, 0x01, 0x00, 0x30, 0x06, 0x81, 0x01, 0x61, 0x81, 0x01,
            0x62,
        ],
        // a component after the nested sequence
        &[
            0x30, 0x0d, 0xa0, 0x0b, 0x81, 0x01, 0x00, 0x30, 0x03, 0x81, 0x01, 0x61, 0x81, 0x01,
            0x62,
        ],
        // two components one level further in
        &[
            0x30, 0x14, 0xa0, 0x12, 0x81, 0x01, 0x00, 0x30, 0x0d, 0xa0, 0x0b, 0x80, 0x01, 0x61,
            0x30, 0x06, 0x81, 0x01, 0x62, 0x81, 0x01, 0x63,
        ],
        // a component after the innermost sequence
        &[
            0x30, 0x14, 0xa0, 0x12, 0x81, 0x01, 0x00, 0x30, 0x0d, 0xa0, 0x0b, 0x80, 0x01, 0x61,
            0x30, 0x03, 0x81, 0x01, 0x62, 0x81, 0x01, 0x63,
        ],
    ];
    for data in several {
        assert_eq!(
            AlternateAccess::decode(data),
            Err(MmsError::AlternateAccessUnsupported("multi-member AlternateAccess"))
        );
    }
    // a segment with a separator in it
    assert_eq!(
        AlternateAccess::decode(&[
            0x30, 0x0c, 0xa0, 0x0a, 0x81, 0x01, 0x00, 0x30, 0x05, 0x81, 0x03, b'a', b'$', b'b',
        ]),
        Err(MmsError::AlternateAccessUnsupported("component segment contains a separator"))
    );
}

#[test]
fn data_values_that_do_not_decode() {
    assert_eq!(MmsData::decode(&[]), Err(MmsError::TruncatedPdu));
    assert_eq!(MmsData::decode(&[0x83, 0x00]), Err(MmsError::InvalidLength));
    assert_eq!(MmsData::decode(&[0x84, 0x00]), Err(MmsError::InvalidLength));
    assert_eq!(MmsData::decode(&[0x8e, 0x00]), Err(MmsError::InvalidLength));
    assert_eq!(MmsData::decode(&[0x85, 0x00]), Err(MmsError::InvalidLength));
    assert_eq!(
        MmsData::decode(&[0x86, 0x09, 0, 0, 0, 0, 0, 0, 0, 0, 1]),
        Err(MmsError::InvalidLength)
    );
    assert_eq!(MmsData::decode(&[0x8c, 0x05, 0, 0, 0, 0, 0]), Err(MmsError::InvalidLength));
    assert_eq!(MmsData::decode(&[0x8a, 0x01, 0x80]), Err(MmsError::InvalidUtf8));
    assert_eq!(MmsData::decode(&[0x90, 0x02, 0xc3, 0x28]), Err(MmsError::InvalidUtf8));
    assert_eq!(MmsData::decode(&[0x88, 0x00]), Err(MmsError::UnknownDataTag(0x88)));
    assert_eq!(MmsData::decode(&[0x8f, 0x00]), Err(MmsError::UnknownDataTag(0x8f)));
    assert_eq!(
        MmsData::decode_with_depth(&[0x83, 0x01, 0x01], 33),
        Err(MmsError::NestingLevelExceeded { max: 32, got: 33 })
    );
}

#[test]
fn nesting_ceiling_of_zero_admits_scalars_only() {
    assert_eq!(
        MmsData::decode_with_max(&[0x83, 0x01, 0x01], 0),
        Ok((MmsData::Boolean(true), 3))
    );
    assert_eq!(
        MmsData::decode_with_max(&[0xa2, 0x00], 0),
        Ok((MmsData::Structure(vec![]), 2))
    );
    assert_eq!(
        MmsData::decode_with_max(&[0xa1, 0x03, 0x83, 0x01, 0x00], 0),
        Err(MmsError::NestingLevelExceeded { max: 0, got: 1 })
    );
}

#[test]
fn nesting_past_the_widest_ceiling_is_reported() {
    // 300 structures around a boolean, under the largest ceiling there is
    let mut value = vec![0x83u8, 0x01, 0xff];
    for _ in 0..300 {
        let mut buf = BytesMut::new();
        buf.extend_from_slice(&[0xa2]);
        encode_length(value.len(), &mut buf);
        buf.extend_from_slice(&value);
        value = buf.to_vec();
    }
    assert_eq!(
        MmsData::decode_with_max(&value, 255),
        Err(MmsError::NestingLevelExceeded { max: 255, got: 255 })
    );
}

#[test]
fn access_results_and_outcomes_that_do_not_decode() {
    assert_eq!(AccessResult::decode(&[0x80, 0x00]), Err(MmsError::InvalidLength));
    assert_eq!(
        AccessResult::decode(&[0x80, 0x01, 12]),
        Err(MmsError::UnknownDataAccessError(12))
    );
    assert_eq!(WriteOutcome::decode(&[]), Err(MmsError::TruncatedPdu));
    assert_eq!(
        WriteOutcome::decode(&[0x82, 0x00]),
        Err(MmsError::UnknownWriteOutcomeTag(0x82))
    );
    assert_eq!(
        WriteOutcome::decode(&[0x80, 0x05, 0, 0, 0, 0, 1]),
        Err(MmsError::InvalidLength)
    );
    assert_eq!(
        WriteOutcome::decode(&[0x80, 0x02, 3, 0]),
        Ok((WriteOutcome::Failure(DataAccessError::ObjectAccessDenied), 4))
    );
}

#[test]
fn every_data_access_error_keeps_its_code() {
    for code in 0u8..=11 {
        assert_eq!(DataAccessError::from_code(code).unwrap().code(), code);
    }
}

#[test]
fn initiate_bit_strings_have_fixed_lengths() {
    let mut buf = BytesMut::new();
    InitiateRequestPdu::default().encode(&mut buf);
    // shorten parameterCBB, 0x81 0x03, to two bytes
    let at = buf.windows(2).position(|w| w == [0x81, 0x03]).unwrap();
    let mut short = buf.to_vec();
    short.remove(at + 4);
    short[at + 1] = 2;
    short[1] -= 1;
    let detail = short.iter().position(|b| *b == 0xa4).unwrap();
    short[detail + 1] -= 1;
    assert_eq!(
        InitiateRequestPdu::decode(&short),
        Err(MmsError::InvalidParameterCbbLength { actual: 2 })
    );
    // shorten servicesSupported, 0x82 0x0c, to eleven bytes
    let at = buf.windows(2).position(|w| w == [0x82, 0x0c]).unwrap();
    let mut short = buf.to_vec();
    short.pop();
    short[at + 1] = 11;
    short[1] -= 1;
    let detail = short.iter().position(|b| *b == 0xa4).unwrap();
    short[detail + 1] -= 1;
    assert_eq!(
        InitiateRequestPdu::decode(&short),
        Err(MmsError::InvalidServicesSupportedLength { actual: 11 })
    );
}

#[test]
fn initiate_with_another_tag() {
    assert_eq!(
        InitiateRequestPdu::decode(&[0xa9, 0x00]),
        Err(MmsError::InvalidTag { expected: 0xa8, actual: 0xa9 })
    );
    assert_eq!(
        InitiateResponsePdu::decode(&[0xa8, 0x00]),
        Err(MmsError::InvalidTag { expected: 0xa9, actual: 0xa8 })
    );
}

#[test]
fn outermost_tags_that_are_not_served() {
    for tag in [0xa5u8, 0xa6, 0xa7, 0x00, 0xff] {
        assert_eq!(MmsPdu::decode(&[tag, 0x00]), Err(MmsError::UnknownMmsPduTag(tag)));
    }
    assert_eq!(MmsPdu::decode(&[0xa0]), Err(MmsError::TruncatedPdu));
    assert_eq!(MmsPdu::decode(&[0xa3, 0x02, 0x00]), Err(MmsError::TruncatedPdu));
    assert_eq!(MmsPdu::decode(&[0x8b, 0x01, 0x00]), Err(MmsError::InvalidPdu));
}

#[test]
fn object_classes_that_are_not_served() {
    assert_eq!(ObjectClass::try_from(1), Err(MmsError::UnsupportedObjectClass(1)));
    assert_eq!(ObjectClass::try_from(9), Ok(ObjectClass::Domain));
    assert_eq!(ObjectClass::Journal.wire_value(), 8);
}

#[test]
fn type_specification_that_cannot_be_written() {
    let mut buf = BytesMut::new();
    assert_eq!(
        TypeSpecification::Unknown(0x8d).encode(&mut buf),
        Err(MmsError::UnknownTypeSpecTag(0x8d))
    );
}

#[test]
fn definitions_without_their_fields() {
    assert_eq!(
        DefineNamedVariableListRequest::decode(&[0xab, 0x00]),
        Err(MmsError::DefineNamedVariableListMissingField("variableListName"))
    );
    assert_eq!(
        DefineNamedVariableListRequest::decode(&[0xac, 0x00]),
        Err(MmsError::InvalidTag { expected: 0xab, actual: 0xac })
    );
    assert!(DefineNamedVariableListResponse::decode(&[]).is_err());
}

#[test]
fn reports_name_the_layer_that_failed() {
    match decode_information_report(&[]) {
        Err(MmsError::InformationReportDecode(text)) => assert!(!text.is_empty()),
        other => panic!("expected a report error, got {:?}", other),
    }
}

#[test]
fn rejects_map_to_four_errors_and_other() {
    let error = |reason| RejectPdu { invoke_id: None, reason }.to_mms_error();
    assert_eq!(
        error(RejectReason::ConfirmedRequest(
            ConfirmedRequestRejectReason::UnrecognizedService
        )),
        MmsError::RejectUnrecognizedService
    );
    assert_eq!(
        error(RejectReason::ConfirmedRequest(
            ConfirmedRequestRejectReason::InvalidArgument
        )),
        MmsError::RejectRequestInvalidArgument
    );
    assert_eq!(
        error(RejectReason::PduError(PduErrorRejectReason::UnknownPduType)),
        MmsError::RejectUnknownPduType
    );
    assert_eq!(
        error(RejectReason::PduError(PduErrorRejectReason::InvalidPdu)),
        MmsError::RejectInvalidPdu
    );
    assert_eq!(error(RejectReason::CancelRequest), MmsError::RejectOther);
}
