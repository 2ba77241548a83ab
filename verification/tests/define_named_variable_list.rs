use bytes::BytesMut;
use iec61850_mms::asn1::encode_length;
use iec61850_mms::mms::error::MmsError;
use iec61850_mms::mms::pdu::define_named_variable_list::{
    decode_confirmed_define_named_variable_list_request,
    decode_confirmed_define_named_variable_list_response,
    encode_confirmed_define_named_variable_list_request,
    encode_confirmed_define_named_variable_list_response, DefineNamedVariableEntry,
    DefineNamedVariableListRequest, DefineNamedVariableListResponse, MAX_DEFINE_ENTRIES,
    SERVICE_TAG_DEFINE_NAMED_VARIABLE_LIST,
};
use iec61850_mms::mms::pdu::object_name::ObjectName;

const TAG_LIST_OF_VARIABLE: u8 = 0xa0;
const TAG_SEQUENCE: u8 = 0x30;
const TAG_VAR_SPEC_NAME: u8 = 0xa0;

fn sample_entries() -> Vec<DefineNamedVariableEntry> {
    vec![
        DefineNamedVariableEntry::domain("IED1LD0", "GGIO1$ST$Ind1$stVal"),
        DefineNamedVariableEntry::domain("IED1LD0", "GGIO1$ST$Ind2$stVal"),
    ]
}

#[test]
fn request_encode_then_decode_is_identity() {
    let req = DefineNamedVariableListRequest::domain("IED1LD0", "GGIO1$ds1", sample_entries());
    let mut buf = BytesMut::new();
    req.encode(&mut buf).unwrap();
    // the first byte must be the service tag
    assert_eq!(buf[0], SERVICE_TAG_DEFINE_NAMED_VARIABLE_LIST);

    let decoded = DefineNamedVariableListRequest::decode(&buf).unwrap();
    assert_eq!(decoded, req);
}

#[test]
fn define_named_variable_list_confirmed_request_round_trip_via_pdu_wrapper() {
    let req = DefineNamedVariableListRequest::domain("IED1LD0", "GGIO1$ds1", sample_entries());
    let mut buf = BytesMut::new();
    encode_confirmed_define_named_variable_list_request(42, &req, &mut buf).unwrap();
    assert_eq!(buf[0], 0xa0);

    let (invoke_id, decoded) =
        decode_confirmed_define_named_variable_list_request(&buf).unwrap();
    assert_eq!(invoke_id, 42);
    assert_eq!(decoded, req);
}

#[test]
fn response_byte_exact_minimal() {
    let resp = DefineNamedVariableListResponse;
    let mut buf = BytesMut::new();
    encode_confirmed_define_named_variable_list_response(7, &resp, &mut buf);
    // 0xa1 0x05 0x02 0x01 0x07 0xab 0x00
    assert_eq!(&buf[..], &[0xa1, 0x05, 0x02, 0x01, 0x07, 0xab, 0x00]);

    let (invoke_id, _) = decode_confirmed_define_named_variable_list_response(&buf).unwrap();
    assert_eq!(invoke_id, 7);
}

#[test]
fn empty_buffer_returns_err() {
    assert!(matches!(
        DefineNamedVariableListRequest::decode(&[]),
        Err(MmsError::TruncatedPdu)
    ));
}

#[test]
fn wrong_outer_tag_rejected() {
    // 0xac is getNamedVariableListAttributes, a valid tag but a different service
    let bad = [0xac, 0x00];
    assert!(matches!(
        DefineNamedVariableListRequest::decode(&bad),
        Err(MmsError::InvalidTag { .. })
    ));
}

#[test]
fn truncated_inner_length_rejected() {
    // a declared length of 10 with only 2 bytes present
    let bad = [SERVICE_TAG_DEFINE_NAMED_VARIABLE_LIST, 0x0a, 0x00, 0x00];
    assert!(matches!(
        DefineNamedVariableListRequest::decode(&bad),
        Err(MmsError::TruncatedPdu)
    ));
}

#[test]
fn empty_entries_list_round_trips() {
    // a valid data set name with no entries, which is allowed
    let req = DefineNamedVariableListRequest::domain("D", "ds_empty", vec![]);
    let mut buf = BytesMut::new();
    req.encode(&mut buf).unwrap();
    let decoded = DefineNamedVariableListRequest::decode(&buf).unwrap();
    assert_eq!(decoded, req);
    assert!(decoded.list_of_variable.is_empty());
}

#[test]
fn too_many_entries_rejected_at_encode() {
    let entries: Vec<_> = (0..MAX_DEFINE_ENTRIES + 1)
        .map(|i| DefineNamedVariableEntry::domain("D", &format!("item{i}")))
        .collect();
    let req = DefineNamedVariableListRequest::domain("D", "ds_overflow", entries);
    let mut buf = BytesMut::new();
    let err = req.encode(&mut buf).unwrap_err();
    assert!(matches!(err, MmsError::TooManyDefineEntries { .. }));
}

#[test]
fn alternate_access_rejected_in_mvp() {
    // A hand-built Member carrying a 0xa5 alternateAccess must be rejected.
    // Member SEQUENCE: 0x30 <len>
    //   0xa0 <len> ObjectName
    //   0xa5 0x00       -- alternateAccess with an empty body
    let mut name_inner = BytesMut::new();
    ObjectName::DomainSpecific {
        domain_id: "IED1LD0".into(),
        item_id: "GGIO1$ST$Ind1".into(),
    }
    .encode(&mut name_inner);
    let mut member = BytesMut::new();
    member.extend_from_slice(&[TAG_VAR_SPEC_NAME]);
    encode_length(name_inner.len(), &mut member);
    member.extend_from_slice(&name_inner);
    member.extend_from_slice(&[0xa5, 0x00]);

    let mut list = BytesMut::new();
    list.extend_from_slice(&[TAG_SEQUENCE]);
    encode_length(member.len(), &mut list);
    list.extend_from_slice(&member);

    let mut inner = BytesMut::new();
    ObjectName::DomainSpecific {
        domain_id: "IED1LD0".into(),
        item_id: "ds_with_alt".into(),
    }
    .encode(&mut inner);
    inner.extend_from_slice(&[TAG_LIST_OF_VARIABLE]);
    encode_length(list.len(), &mut inner);
    inner.extend_from_slice(&list);

    let mut buf = BytesMut::new();
    buf.extend_from_slice(&[SERVICE_TAG_DEFINE_NAMED_VARIABLE_LIST]);
    encode_length(inner.len(), &mut buf);
    buf.extend_from_slice(&inner);

    let err = DefineNamedVariableListRequest::decode(&buf).unwrap_err();
    assert!(matches!(
        err,
        MmsError::DefineNamedVariableListMissingField("alternateAccess not supported in MVP")
    ));
}

#[test]
fn missing_list_of_variable_field_rejected() {
    // an ObjectName with no 0xa0 listOfVariable after it
    let mut bad = BytesMut::new();
    let mut inner = BytesMut::new();
    ObjectName::DomainSpecific {
        domain_id: "D".into(),
        item_id: "ds".into(),
    }
    .encode(&mut inner);
    bad.extend_from_slice(&[SERVICE_TAG_DEFINE_NAMED_VARIABLE_LIST]);
    encode_length(inner.len(), &mut bad);
    bad.extend_from_slice(&inner);

    let err = DefineNamedVariableListRequest::decode(&bad).unwrap_err();
    assert!(matches!(
        err,
        MmsError::DefineNamedVariableListMissingField("listOfVariable")
    ));
}
