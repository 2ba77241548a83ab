use bytes::BytesMut;
use iec61850_mms::mms::error::MmsError;
use iec61850_mms::mms::pdu::delete_named_variable_list::{
    decode_confirmed_delete_named_variable_list_request,
    decode_confirmed_delete_named_variable_list_response,
    encode_confirmed_delete_named_variable_list_request,
    encode_confirmed_delete_named_variable_list_response, DeleteNamedVariableListRequest,
    DeleteNamedVariableListResponse, ScopeOfDelete, SERVICE_TAG_DELETE_NAMED_VARIABLE_LIST,
};
use iec61850_mms::mms::pdu::object_name::ObjectName;

#[test]
fn request_specific_round_trip() {
    let req = DeleteNamedVariableListRequest::specific_domain("IED1LD0", "GGIO1$ds1");
    let mut buf = BytesMut::new();
    req.encode(&mut buf);
    assert_eq!(buf[0], SERVICE_TAG_DELETE_NAMED_VARIABLE_LIST);

    let decoded = DeleteNamedVariableListRequest::decode(&buf).unwrap();
    assert_eq!(decoded, req);
    assert_eq!(decoded.scope_of_delete, ScopeOfDelete::Specific);
    assert_eq!(decoded.list_of_variable_list_name.len(), 1);
}

#[test]
fn delete_named_variable_list_confirmed_request_round_trip_via_pdu_wrapper() {
    let req = DeleteNamedVariableListRequest::specific_domain("IED1LD0", "GGIO1$ds1");
    let mut buf = BytesMut::new();
    encode_confirmed_delete_named_variable_list_request(99, &req, &mut buf);
    assert_eq!(buf[0], 0xa0);

    let (invoke_id, decoded) =
        decode_confirmed_delete_named_variable_list_request(&buf).unwrap();
    assert_eq!(invoke_id, 99);
    assert_eq!(decoded, req);
}

#[test]
fn response_round_trip() {
    let resp = DeleteNamedVariableListResponse {
        number_matched: 3,
        number_deleted: 2,
    };
    let mut buf = BytesMut::new();
    encode_confirmed_delete_named_variable_list_response(7, &resp, &mut buf);
    assert_eq!(buf[0], 0xa1);
    let (invoke_id, decoded) =
        decode_confirmed_delete_named_variable_list_response(&buf).unwrap();
    assert_eq!(invoke_id, 7);
    assert_eq!(decoded, resp);
}

#[test]
fn empty_buffer_rejected() {
    assert!(matches!(
        DeleteNamedVariableListRequest::decode(&[]),
        Err(MmsError::TruncatedPdu)
    ));
}

#[test]
fn wrong_tag_rejected() {
    let bad = [0xab, 0x00];
    assert!(matches!(
        DeleteNamedVariableListRequest::decode(&bad),
        Err(MmsError::InvalidTag { .. })
    ));
}

#[test]
fn truncated_inner_rejected() {
    let bad = [SERVICE_TAG_DELETE_NAMED_VARIABLE_LIST, 0x10, 0x00];
    assert!(matches!(
        DeleteNamedVariableListRequest::decode(&bad),
        Err(MmsError::TruncatedPdu)
    ));
}

#[test]
fn batch_delete_two_names() {
    let req = DeleteNamedVariableListRequest {
        scope_of_delete: ScopeOfDelete::Specific,
        list_of_variable_list_name: vec![
            ObjectName::DomainSpecific {
                domain_id: "D1".into(),
                item_id: "ds1".into(),
            },
            ObjectName::DomainSpecific {
                domain_id: "D1".into(),
                item_id: "ds2".into(),
            },
        ],
        domain_name: None,
    };
    let mut buf = BytesMut::new();
    req.encode(&mut buf);
    let decoded = DeleteNamedVariableListRequest::decode(&buf).unwrap();
    assert_eq!(decoded, req);
}

#[test]
fn response_zero_numbers_round_trip() {
    let resp = DeleteNamedVariableListResponse {
        number_matched: 0,
        number_deleted: 0,
    };
    let mut buf = BytesMut::new();
    resp.encode(&mut buf);
    let decoded = DeleteNamedVariableListResponse::decode(&buf).unwrap();
    assert_eq!(decoded, resp);
}
