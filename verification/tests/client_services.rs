use bytes::{Bytes, BytesMut};
use iec61850_mms::mms::client::error::ClientError;
use iec61850_mms::mms::client::invoke_id::InvokeIdAllocator;
use iec61850_mms::mms::client::services::{
    array_element, define_named_variable_list_request, delete_named_variable_list_request,
    dispatch_define_named_variable_list_response, dispatch_delete_named_variable_list_response,
    dispatch_get_name_list_response, dispatch_get_var_access_attrs_response,
    dispatch_read_journal_response, dispatch_read_list_response, dispatch_read_response,
    dispatch_write_list_response, dispatch_write_response, get_name_list_request,
    get_variable_access_attributes_request, handle_confirmed_error, read_journal_request,
    read_named_variable_list_values_request, read_single_array_element_request,
    read_variable_request, response_octets, rewrap_response, strip_confirmed_wrapper, Call,
};
use iec61850_mms::mms::error::MmsError;
use iec61850_mms::mms::pdu::access::{AccessResult, DataAccessError, WriteOutcome};
use iec61850_mms::mms::pdu::alternate_access::AlternateAccess;
use iec61850_mms::mms::pdu::data::MmsData;
use iec61850_mms::mms::pdu::define_named_variable_list::{
    decode_confirmed_define_named_variable_list_request,
    encode_confirmed_define_named_variable_list_response, DefineNamedVariableEntry,
    DefineNamedVariableListRequest, DefineNamedVariableListResponse,
};
use iec61850_mms::mms::pdu::delete_named_variable_list::{
    decode_confirmed_delete_named_variable_list_request,
    encode_confirmed_delete_named_variable_list_response, DeleteNamedVariableListRequest,
    DeleteNamedVariableListResponse,
};
use iec61850_mms::mms::pdu::get_name_list::{
    decode_confirmed_get_name_list_request, encode_confirmed_get_name_list_response,
    GetNameListResponse, ObjectClass, ObjectScope,
};
use iec61850_mms::mms::pdu::get_var_access_attrs::{
    decode_confirmed_get_var_access_attrs_request, encode_confirmed_get_var_access_attrs_response,
    GetVariableAccessAttributesResponse,
};
use iec61850_mms::mms::pdu::object_name::ObjectName;
use iec61850_mms::mms::pdu::read::{
    decode_confirmed_read_request, encode_confirmed_read_response, ReadRequest, ReadResponse,
};
use iec61850_mms::mms::pdu::read_journal::{
    decode_confirmed_read_journal_request, encode_confirmed_read_journal_response,
    ReadJournalRequest, ReadJournalResponse,
};
use iec61850_mms::mms::pdu::reject::{ConfirmedRequestRejectReason, RejectPdu, RejectReason};
use iec61850_mms::mms::pdu::service_error::{
    encode_confirmed_error_pdu, ErrorClass, ServiceError,
};
use iec61850_mms::mms::pdu::type_specification::TypeSpecification;
use iec61850_mms::mms::pdu::variable_access::{ListOfVariableEntry, VariableAccessSpecification};
use iec61850_mms::mms::pdu::MmsPdu;

/// What goes over the wire for a call.
fn sent(call: &Call) -> BytesMut {
    let mut buf = BytesMut::new();
    call.pdu.encode(&mut buf);
    buf
}

/// The PDU that arrives when these octets are received.
fn arrived(octets: &BytesMut) -> MmsPdu {
    MmsPdu::decode(octets).unwrap()
}

fn parse_text<T>(result: Result<T, ClientError>) -> String {
    match result {
        Err(ClientError::PduParse(text)) => text,
        Err(other) => panic!("unexpected {:?}", other),
        Ok(_) => panic!("expected a parse error"),
    }
}

#[test]
fn read_request_is_wrapped_once() {
    let mut alloc = InvokeIdAllocator::new(5);
    let call = read_variable_request(&mut alloc, "LD", "V").unwrap();
    assert_eq!(call.invoke_id, 1);
    assert!(alloc.is_pending(1));
    assert_eq!(
        &sent(&call)[..],
        &[
            0xa0, 0x16, 0x02, 0x01, 0x01, 0xa4, 0x11, 0xa1, 0x0f, 0xa0, 0x0d, 0x30, 0x0b, 0xa0,
            0x09, 0xa1, 0x07, 0x1a, 0x02, b'L', b'D', 0x1a, 0x01, b'V',
        ]
    );
    let (id, request) = decode_confirmed_read_request(&sent(&call)).unwrap();
    assert_eq!(id, 1);
    assert_eq!(request, ReadRequest::single_domain("LD", "V"));
}

#[test]
fn array_element_request_carries_the_selector() {
    let mut alloc = InvokeIdAllocator::new(5);
    let call =
        read_single_array_element_request(&mut alloc, "LD", "A", 3, Some("inner$f")).unwrap();
    let (_, request) = decode_confirmed_read_request(&sent(&call)).unwrap();
    let entry = ListOfVariableEntry::with_alt_access(
        ObjectName::DomainSpecific { domain_id: "LD".to_owned(), item_id: "A".to_owned() },
        AlternateAccess::index_component(3, "inner$f").unwrap(),
    );
    assert_eq!(
        request.variable_access_spec,
        VariableAccessSpecification::ListOfVariable(vec![entry])
    );
    let call = read_single_array_element_request(&mut alloc, "LD", "A", 7, None).unwrap();
    assert_eq!(call.invoke_id, 2);
    let (_, request) = decode_confirmed_read_request(&sent(&call)).unwrap();
    assert_eq!(request.variable_access_spec, array_element("LD", "A", 7, None).unwrap());
}

#[test]
fn component_that_cannot_be_selected_takes_no_id() {
    let mut alloc = InvokeIdAllocator::new(5);
    assert_eq!(
        parse_text(read_single_array_element_request(&mut alloc, "LD", "A", 0, Some("a$$b"))),
        "AlternateAccess: alternateaccess form is not supported: component path contains an empty segment"
    );
    assert_eq!(alloc.pending_count(), 0);
    assert_eq!(alloc.allocate().unwrap(), 1);
}

#[test]
fn list_and_name_requests_decode_to_what_was_asked() {
    let mut alloc = InvokeIdAllocator::new(9);
    let call = read_named_variable_list_values_request(&mut alloc, "LD", "DS").unwrap();
    let (_, request) = decode_confirmed_read_request(&sent(&call)).unwrap();
    let name = ObjectName::DomainSpecific { domain_id: "LD".to_owned(), item_id: "DS".to_owned() };
    assert_eq!(request, ReadRequest::named_list(name.clone(), false));

    let call =
        get_name_list_request(&mut alloc, ObjectClass::Journal, Some("LD"), Some("X")).unwrap();
    let (_, request) = decode_confirmed_get_name_list_request(&sent(&call)).unwrap();
    assert_eq!(request.object_class, ObjectClass::Journal);
    assert_eq!(request.object_scope, ObjectScope::DomainSpecific("LD".to_owned()));
    assert_eq!(request.continue_after, Some("X".to_owned()));
    let call = get_name_list_request(&mut alloc, ObjectClass::Domain, None, None).unwrap();
    let (_, request) = decode_confirmed_get_name_list_request(&sent(&call)).unwrap();
    assert_eq!(request.object_scope, ObjectScope::VmdSpecific);
    assert_eq!(request.continue_after, None);

    let call = get_variable_access_attributes_request(&mut alloc, "LD", "DS").unwrap();
    let (id, request) = decode_confirmed_get_var_access_attrs_request(&sent(&call)).unwrap();
    assert_eq!(id, 4);
    assert_eq!(request.object_name, name);

    let call = delete_named_variable_list_request(&mut alloc, "LD", "DS").unwrap();
    let (_, request) = decode_confirmed_delete_named_variable_list_request(&sent(&call)).unwrap();
    assert_eq!(request, DeleteNamedVariableListRequest::specific_domain("LD", "DS"));

    let journal = ReadJournalRequest::time_range("LD", "J", 441_763_200_000, 441_763_200_001);
    let call = read_journal_request(&mut alloc, &journal).unwrap();
    let (id, request) = decode_confirmed_read_journal_request(&sent(&call)).unwrap();
    assert_eq!(id, 6);
    assert_eq!(request, journal);
}

#[test]
fn definition_with_too_many_members_releases_its_id() {
    let entries = |n: usize| -> Vec<DefineNamedVariableEntry> {
        (0..n).map(|i| DefineNamedVariableEntry::domain("D", &format!("m{i}"))).collect()
    };
    let mut alloc = InvokeIdAllocator::new(5);
    assert_eq!(
        parse_text(define_named_variable_list_request(&mut alloc, "D", "ds", entries(101))),
        "definenamedvariablelist entry count 101 exceeds the limit of 100"
    );
    assert_eq!(alloc.pending_count(), 0);
    let call = define_named_variable_list_request(&mut alloc, "D", "ds", entries(100)).unwrap();
    assert_eq!(call.invoke_id, 2);
    let (_, request) = decode_confirmed_define_named_variable_list_request(&sent(&call)).unwrap();
    assert_eq!(request, DefineNamedVariableListRequest::domain("D", "ds", entries(100)));
}

#[test]
fn requests_stop_at_the_outstanding_limit() {
    let mut alloc = InvokeIdAllocator::new(1);
    read_variable_request(&mut alloc, "LD", "V").unwrap();
    assert!(matches!(
        read_variable_request(&mut alloc, "LD", "V"),
        Err(ClientError::OutstandingCallLimit)
    ));
}

#[test]
fn read_answers() {
    let resp = ReadResponse {
        variable_access_spec: None,
        list_of_access_result: vec![
            AccessResult::Success(MmsData::Integer(-7)),
            AccessResult::Failure(DataAccessError::ObjectUndefined),
        ],
    };
    let mut buf = BytesMut::new();
    encode_confirmed_read_response(9, &resp, &mut buf);
    assert_eq!(dispatch_read_response(arrived(&buf)).unwrap(), MmsData::Integer(-7));
    assert_eq!(
        dispatch_read_list_response(arrived(&buf)).unwrap(),
        resp.list_of_access_result
    );
}

#[test]
fn read_answers_without_a_value() {
    let failed = ReadResponse {
        variable_access_spec: None,
        list_of_access_result: vec![AccessResult::Failure(DataAccessError::HardwareFault)],
    };
    let mut buf = BytesMut::new();
    encode_confirmed_read_response(9, &failed, &mut buf);
    assert!(matches!(
        dispatch_read_response(arrived(&buf)),
        Err(ClientError::DataAccessError(DataAccessError::HardwareFault))
    ));
    let empty = ReadResponse { variable_access_spec: None, list_of_access_result: vec![] };
    let mut buf = BytesMut::new();
    encode_confirmed_read_response(9, &empty, &mut buf);
    assert_eq!(
        parse_text(dispatch_read_response(arrived(&buf))),
        "read response carries no access result"
    );
}

#[test]
fn answers_of_the_other_services() {
    let names = GetNameListResponse {
        identifiers: vec!["A".to_owned(), "B".to_owned()],
        more_follows: true,
    };
    let mut buf = BytesMut::new();
    encode_confirmed_get_name_list_response(1, &names, &mut buf);
    assert_eq!(
        dispatch_get_name_list_response(arrived(&buf)).unwrap(),
        (vec!["A".to_owned(), "B".to_owned()], true)
    );

    let attributes = GetVariableAccessAttributesResponse {
        mms_deletable: false,
        type_specification: TypeSpecification::Integer { width_bits: 32 },
    };
    let mut buf = BytesMut::new();
    encode_confirmed_get_var_access_attrs_response(1, &attributes, &mut buf).unwrap();
    assert_eq!(
        dispatch_get_var_access_attrs_response(arrived(&buf)).unwrap(),
        TypeSpecification::Integer { width_bits: 32 }
    );

    let mut buf = BytesMut::new();
    encode_confirmed_define_named_variable_list_response(
        1,
        &DefineNamedVariableListResponse,
        &mut buf,
    );
    assert!(dispatch_define_named_variable_list_response(arrived(&buf)).is_ok());

    let counts = DeleteNamedVariableListResponse { number_matched: 2, number_deleted: 1 };
    let mut buf = BytesMut::new();
    encode_confirmed_delete_named_variable_list_response(1, &counts, &mut buf);
    assert_eq!(dispatch_delete_named_variable_list_response(arrived(&buf)).unwrap(), (2, 1));

    let journal = ReadJournalResponse { entries: vec![], more_follows: Some(true) };
    let mut buf = BytesMut::new();
    encode_confirmed_read_journal_response(1, &journal, &mut buf);
    assert_eq!(dispatch_read_journal_response(arrived(&buf)).unwrap(), journal);
}

#[test]
fn write_outcomes() {
    assert!(dispatch_write_response(Ok(vec![WriteOutcome::Success])).is_ok());
    assert!(matches!(
        dispatch_write_response(Ok(vec![
            WriteOutcome::Failure(DataAccessError::TypeInconsistent),
            WriteOutcome::Success,
        ])),
        Err(ClientError::DataAccessError(DataAccessError::TypeInconsistent))
    ));
    assert_eq!(
        parse_text(dispatch_write_response(Ok(vec![]))),
        "write response carries no outcome"
    );
    assert_eq!(
        parse_text(dispatch_write_response(Err(MmsError::TruncatedPdu))),
        "mms pdu is truncated"
    );
    let outcomes =
        vec![WriteOutcome::Success, WriteOutcome::Failure(DataAccessError::ObjectNonExistent)];
    assert_eq!(dispatch_write_list_response(Ok(outcomes.clone())).unwrap(), outcomes);
    assert_eq!(
        parse_text(dispatch_write_list_response(Err(MmsError::InvalidLength))),
        "malformed ber length field"
    );
}

#[test]
fn refused_request_reports_the_error_class() {
    let error = ServiceError::new(ErrorClass::Access(2));
    let mut buf = BytesMut::new();
    encode_confirmed_error_pdu(1234, &error, &mut buf);
    assert!(matches!(
        dispatch_read_response(arrived(&buf)),
        Err(ClientError::ServiceError { error_class: ErrorClass::Access(2) })
    ));
    assert!(matches!(
        dispatch_define_named_variable_list_response(arrived(&buf)),
        Err(ClientError::ServiceError { error_class: ErrorClass::Access(2) })
    ));
}

#[test]
fn refused_request_with_a_long_description() {
    for len in [0, 120, 121, 255] {
        let error = ServiceError {
            error_class: ErrorClass::Access(2),
            additional_code: Some(-1),
            additional_description: Some("d".repeat(len)),
        };
        let mut buf = BytesMut::new();
        encode_confirmed_error_pdu(7, &error, &mut buf);
        assert!(matches!(
            dispatch_read_response(arrived(&buf)),
            Err(ClientError::ServiceError { error_class: ErrorClass::Access(2) })
        ));
    }
}

#[test]
fn confirmed_error_with_a_universal_invoke_id() {
    let content = [0x02, 0x01, 0x05, 0xa2, 0x05, 0xa0, 0x03, 0x87, 0x01, 0x04];
    assert!(matches!(
        handle_confirmed_error(&content),
        ClientError::ServiceError { error_class: ErrorClass::Access(4) }
    ));
    // without an invokeID
    assert!(matches!(
        handle_confirmed_error(&content[3..]),
        ClientError::ServiceError { error_class: ErrorClass::Access(4) }
    ));
    for broken in [&[][..], &content[..3], &content[..9], &[0x30, 0x00][..]] {
        assert_eq!(
            parse_text::<()>(Err(handle_confirmed_error(broken))),
            "ConfirmedError decode failed"
        );
    }
}

#[test]
fn rejected_request_reports_the_reason() {
    let reason = RejectReason::ConfirmedRequest(ConfirmedRequestRejectReason::InvalidArgument);
    let mut buf = BytesMut::new();
    RejectPdu { invoke_id: Some(7), reason: reason.clone() }.encode(&mut buf);
    match dispatch_get_name_list_response(arrived(&buf)) {
        Err(ClientError::RejectError { reason: got }) => assert_eq!(got, reason),
        other => panic!("unexpected {:?}", other),
    }
}

#[test]
fn other_pdus_are_unexpected() {
    assert_eq!(
        parse_text(dispatch_read_response(MmsPdu::ConcludeResponse)),
        "unexpected PDU tag=0x8C"
    );
    assert_eq!(
        parse_text(response_octets(MmsPdu::Unconfirmed(Bytes::new()))),
        "unexpected PDU tag=0xA3"
    );
}

#[test]
fn responses_are_wrapped_again() {
    assert_eq!(
        response_octets(MmsPdu::ConfirmedResponse(Bytes::from_static(&[1, 2]))).unwrap(),
        vec![0xa1, 0x02, 1, 2]
    );
    let long = Bytes::from(vec![0u8; 300]);
    let wrapped = rewrap_response(0xa1, &long);
    assert_eq!(&wrapped[..4], &[0xa1, 0x82, 0x01, 0x2c]);
    assert_eq!(wrapped.len(), 304);
    assert_eq!(&rewrap_response(0xa0, &Bytes::from(vec![0u8; 128]))[..3], &[0xa0, 0x81, 0x80]);
}

#[test]
fn request_wrapper_comes_off() {
    let strip = |octets: &[u8]| strip_confirmed_wrapper(BytesMut::from(octets));
    assert_eq!(strip(&[0xa0, 0x02, 5, 6]).unwrap(), &[5, 6][..]);
    assert_eq!(strip(&[0xa0, 0x81, 0x01, 9]).unwrap(), &[9][..]);
    assert_eq!(strip(&[0xa0, 0x82, 0x00, 0x01, 9]).unwrap(), &[9][..]);
    assert_eq!(strip(&[0xa0, 0x84, 0, 0, 0, 0]).unwrap(), &[][..]);
    assert_eq!(
        parse_text(strip(&[])),
        "strip_confirmed_wrapper: expected 0xa0 tag, got 0x00"
    );
    assert_eq!(
        parse_text(strip(&[0xAB, 0x00])),
        "strip_confirmed_wrapper: expected 0xa0 tag, got 0xab"
    );
    for malformed in [&[0xa0][..], &[0xa0, 0x80][..], &[0xa0, 0x85, 0][..]] {
        assert_eq!(
            parse_text(strip(malformed)),
            "strip_confirmed_wrapper: malformed outer ber length"
        );
    }
    assert_eq!(
        parse_text(strip(&[0xa0, 0x82, 0x00])),
        "strip_confirmed_wrapper: outer wrapper truncated"
    );
}
