use bytes::BytesMut;
use iec61850_mms::mms::error::MmsError;
use iec61850_mms::mms::pdu::access::{AccessResult, DataAccessError};
use iec61850_mms::mms::pdu::alternate_access::AlternateAccess;
use iec61850_mms::mms::pdu::data::MmsData;
use iec61850_mms::mms::pdu::object_name::ObjectName;
use iec61850_mms::mms::pdu::read::{
    decode_confirmed_read_request, decode_confirmed_read_response, encode_confirmed_read_request,
    encode_confirmed_read_response, ReadRequest, ReadResponse, SERVICE_TAG_READ,
};
use iec61850_mms::mms::pdu::variable_access::{ListOfVariableEntry, VariableAccessSpecification};

// ReadRequest round trips

#[test]
fn read_request_domain_specific_roundtrip() {
    let req = ReadRequest::single_domain("TESTLD", "GGIO1$ST$Ind$stVal");
    let mut buf = BytesMut::new();
    req.encode(&mut buf);
    assert_eq!(buf[0], SERVICE_TAG_READ);
    let decoded = ReadRequest::decode(&buf).unwrap();
    assert_eq!(decoded, req);
}

#[test]
fn read_request_named_list_roundtrip() {
    let name = ObjectName::DomainSpecific {
        domain_id: "LD1".to_owned(),
        item_id: "DataSet1".to_owned(),
    };
    let req = ReadRequest::named_list(name, false);
    let mut buf = BytesMut::new();
    req.encode(&mut buf);
    let decoded = ReadRequest::decode(&buf).unwrap();
    assert_eq!(decoded, req);
}

#[test]
fn read_request_spec_with_result_true_roundtrip() {
    let name = ObjectName::DomainSpecific {
        domain_id: "LD1".to_owned(),
        item_id: "DataSet1".to_owned(),
    };
    let req = ReadRequest::named_list(name, true);
    let mut buf = BytesMut::new();
    req.encode(&mut buf);

    // 0x80 0x01 0x01 marks specificationWithResult TRUE
    let bytes = &buf[..];
    let has_spec = bytes.windows(3).any(|w| w == [0x80, 0x01, 0x01]);
    assert!(
        has_spec,
        "specificationWithResult true must produce 0x80 0x01 0x01"
    );

    let decoded = ReadRequest::decode(&buf).unwrap();
    assert!(decoded.specification_with_result);
}

#[test]
fn read_request_spec_with_result_false_no_byte() {
    let req = ReadRequest::single_domain("LD", "VAR");
    let mut buf = BytesMut::new();
    req.encode(&mut buf);
    // FALSE is the default and is omitted, so 0x80 0x01 0x01 must be absent
    let bytes = &buf[..];
    let has_spec = bytes.windows(3).any(|w| w == [0x80, 0x01, 0x01]);
    assert!(
        !has_spec,
        "specificationWithResult false must not produce 0x80 0x01 0x01"
    );
}

#[test]
fn read_request_multiple_variables_roundtrip() {
    let vars: Vec<ListOfVariableEntry> = vec![
        ObjectName::DomainSpecific {
            domain_id: "LD1".to_owned(),
            item_id: "A".to_owned(),
        }
        .into(),
        ObjectName::DomainSpecific {
            domain_id: "LD1".to_owned(),
            item_id: "B".to_owned(),
        }
        .into(),
        ObjectName::VmdSpecific("VMD_C".to_owned()).into(),
    ];
    let req = ReadRequest {
        specification_with_result: false,
        variable_access_spec: VariableAccessSpecification::ListOfVariable(vars),
    };
    let mut buf = BytesMut::new();
    req.encode(&mut buf);
    let decoded = ReadRequest::decode(&buf).unwrap();
    assert_eq!(decoded, req);
}

#[test]
fn read_request_vmd_specific_roundtrip() {
    let req = ReadRequest {
        specification_with_result: false,
        variable_access_spec: VariableAccessSpecification::ListOfVariable(vec![
            ObjectName::VmdSpecific("VMD_VAR".to_owned()).into(),
        ]),
    };
    let mut buf = BytesMut::new();
    req.encode(&mut buf);
    let decoded = ReadRequest::decode(&buf).unwrap();
    assert_eq!(decoded, req);
}

// ReadResponse round trips

#[test]
fn read_response_basic_roundtrip() {
    let resp = ReadResponse {
        variable_access_spec: None,
        list_of_access_result: vec![
            AccessResult::Success(MmsData::Boolean(true)),
            AccessResult::Success(MmsData::Integer(42)),
        ],
    };
    let mut buf = BytesMut::new();
    resp.encode(&mut buf);
    let decoded = ReadResponse::decode(&buf).unwrap();
    assert_eq!(decoded, resp);
}

#[test]
fn read_response_with_vas_echo_roundtrip() {
    let vas = VariableAccessSpecification::VariableListName(ObjectName::DomainSpecific {
        domain_id: "LD".to_owned(),
        item_id: "DS".to_owned(),
    });
    let resp = ReadResponse {
        variable_access_spec: Some(vas),
        list_of_access_result: vec![AccessResult::Success(MmsData::Unsigned(100))],
    };
    let mut buf = BytesMut::new();
    resp.encode(&mut buf);
    let decoded = ReadResponse::decode(&buf).unwrap();
    assert_eq!(decoded, resp);
}

#[test]
fn read_response_mixed_success_failure_roundtrip() {
    let resp = ReadResponse {
        variable_access_spec: None,
        list_of_access_result: vec![
            AccessResult::Success(MmsData::Boolean(false)),
            AccessResult::Failure(DataAccessError::ObjectNonExistent),
            AccessResult::Success(MmsData::VisibleString("OK".to_owned())),
            AccessResult::Failure(DataAccessError::ObjectAccessDenied),
        ],
    };
    let mut buf = BytesMut::new();
    resp.encode(&mut buf);
    let decoded = ReadResponse::decode(&buf).unwrap();
    assert_eq!(decoded, resp);
}

#[test]
fn read_response_empty_list_ok() {
    // an empty listOfAccessResult is legal
    let resp = ReadResponse {
        variable_access_spec: None,
        list_of_access_result: vec![],
    };
    let mut buf = BytesMut::new();
    resp.encode(&mut buf);
    // the encoding must contain 0xa1 0x00
    let bytes = &buf[..];
    let has_empty = bytes.windows(2).any(|w| w == [0xa1, 0x00]);
    assert!(
        has_empty,
        "an empty listOfAccessResult must encode as 0xa1 0x00"
    );
    let decoded = ReadResponse::decode(&buf).unwrap();
    assert!(decoded.list_of_access_result.is_empty());
}

// ConfirmedRequestPdu and ConfirmedResponsePdu wrappers

#[test]
fn confirmed_read_request_roundtrip() {
    let req = ReadRequest::single_domain("LD1", "VAR1");
    let mut buf = BytesMut::new();
    encode_confirmed_read_request(42, &req, &mut buf);
    assert_eq!(buf[0], 0xa0);
    let (invoke_id, decoded_req) = decode_confirmed_read_request(&buf).unwrap();
    assert_eq!(invoke_id, 42);
    assert_eq!(decoded_req, req);
}

#[test]
fn confirmed_read_response_roundtrip() {
    let resp = ReadResponse {
        variable_access_spec: None,
        list_of_access_result: vec![AccessResult::Success(MmsData::Integer(777))],
    };
    let mut buf = BytesMut::new();
    encode_confirmed_read_response(99, &resp, &mut buf);
    assert_eq!(buf[0], 0xa1);
    let (invoke_id, decoded_resp) = decode_confirmed_read_response(&buf).unwrap();
    assert_eq!(invoke_id, 99);
    assert_eq!(decoded_resp, resp);
}

// every AccessResult value type

#[test]
fn access_result_all_primitive_types() {
    let cases: Vec<MmsData> = vec![
        MmsData::Boolean(true),
        MmsData::Boolean(false),
        MmsData::Integer(-1),
        MmsData::Integer(0),
        MmsData::Integer(255),
        MmsData::Unsigned(0),
        MmsData::Unsigned(65535),
        MmsData::Float64(1.0f64.to_bits()),
        MmsData::OctetString(vec![0xde, 0xad]),
        MmsData::VisibleString("TEST".to_owned()),
        MmsData::MmsString("UTF8".to_owned()),
        MmsData::UtcTime([0x5e, 0x1a, 0x2b, 0x3c, 0x00, 0x00, 0x00, 0x00]),
        MmsData::BitString {
            padding: 3,
            data: vec![0xf8],
        },
        MmsData::BooleanArray {
            padding: 0,
            data: vec![0xff],
        },
        MmsData::BinaryTime(vec![0x00, 0x00, 0x00, 0x00]),
    ];
    for data in cases {
        let ar = AccessResult::Success(data.clone());
        let mut buf = BytesMut::new();
        ar.encode(&mut buf);
        let (decoded, _) = AccessResult::decode(&buf).unwrap();
        assert_eq!(decoded, ar, "AccessResult for {:?} must round trip", data);
    }
}

// malformed input

#[test]
fn read_request_wrong_tag_err() {
    let data = [0xa5u8, 0x00]; // write tag
    let result = ReadRequest::decode(&data);
    assert!(matches!(
        result,
        Err(MmsError::InvalidTag {
            expected: 0xa4,
            actual: 0xa5
        })
    ));
}

#[test]
fn read_response_missing_list_err() {
    // 0xa4 with a length but no 0xa1 listOfAccessResult
    let data = [0xa4u8, 0x00]; // empty content
    let result = ReadResponse::decode(&data);
    assert!(
        result.is_err(),
        "a missing listOfAccessResult must return an error"
    );
}

#[test]
fn read_request_truncated_err() {
    // a tag with no length byte
    let data = [0xa4u8];
    let result = ReadRequest::decode(&data);
    assert!(result.is_err());
}

// ReadRequest with an AlternateAccess


fn build_alt_access_request(invoke_id: u32, item: &str, aa: AlternateAccess) -> BytesMut {
    let entry = ListOfVariableEntry::with_alt_access(
        ObjectName::DomainSpecific {
            domain_id: "TESTLD".to_owned(),
            item_id: item.to_owned(),
        },
        aa,
    );
    let req = ReadRequest {
        specification_with_result: false,
        variable_access_spec: VariableAccessSpecification::ListOfVariable(vec![entry]),
    };
    let mut buf = BytesMut::new();
    encode_confirmed_read_request(invoke_id, &req, &mut buf);
    buf
}

#[test]
fn read_request_alt_access_index_roundtrip() {
    let buf = build_alt_access_request(7, "GGIO1$ST$Ind", AlternateAccess::index(2));
    assert_eq!(buf[0], 0xa0);
    let (invoke_id, decoded) = decode_confirmed_read_request(&buf).unwrap();
    assert_eq!(invoke_id, 7);
    match decoded.variable_access_spec {
        VariableAccessSpecification::ListOfVariable(entries) => {
            assert_eq!(entries.len(), 1);
            assert_eq!(
                entries[0].name,
                ObjectName::DomainSpecific {
                    domain_id: "TESTLD".to_owned(),
                    item_id: "GGIO1$ST$Ind".to_owned(),
                }
            );
            assert_eq!(entries[0].alt_access, Some(AlternateAccess::index(2)));
        }
        _ => panic!("expected ListOfVariable"),
    }
}

#[test]
fn read_request_alt_access_index_component_wire_contains_alt_bytes() {
    let buf = build_alt_access_request(
        1,
        "GGIO1$ST$Ind1",
        AlternateAccess::index_component(0, "stVal").unwrap(),
    );
    let bytes = &buf[..];
    let has_alt = bytes.windows(4).any(|w| w == [0xa0, 0x0c, 0x81, 0x01]);
    assert!(
        has_alt,
        "wire bytes should contain the IndexComponent header"
    );
}
