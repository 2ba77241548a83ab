use bytes::{Bytes, BytesMut};
use iec61850_mms::asn1::effective_nesting_cap;
use iec61850_mms::mms::binary_time::{
    binary_time6_from_epoch_ms, epoch_ms_from_binary_time6, EPOCH_1984_MS, MAX_BINARY_TIME6_MS,
};
use iec61850_mms::mms::client::error::ClientError;
use iec61850_mms::mms::client::invoke_id::InvokeIdAllocator;
use iec61850_mms::mms::error::MmsError;
use iec61850_mms::mms::pdu::alternate_access::AlternateAccess;
use iec61850_mms::mms::pdu::data::MmsData;
use iec61850_mms::mms::pdu::delete_named_variable_list::ScopeOfDelete;
use iec61850_mms::mms::pdu::get_name_list::{GetNameListRequest, ObjectClass, ObjectScope};
use iec61850_mms::mms::pdu::get_var_access_attrs::GetVariableAccessAttributesResponse;
use iec61850_mms::mms::pdu::information_report::{
    decode_information_report, encode_information_report, VariableAccessSpec,
};
use iec61850_mms::mms::pdu::initiate::{InitiateRequestPdu, InitiateResponsePdu};
use iec61850_mms::mms::pdu::integer::{
    decode_signed_int, decode_uint, decode_unsigned_int, encode_signed_int_minimal,
    encode_unsigned_int_minimal,
};
use iec61850_mms::mms::pdu::object_name::ObjectName;
use iec61850_mms::mms::pdu::read_journal::{ReadJournalRequest, ENTRY_ID_SIZE};
use iec61850_mms::mms::pdu::reject::{
    ConfirmedRequestRejectReason, PduErrorRejectReason, RejectPdu, RejectReason,
};
use iec61850_mms::mms::pdu::service_error::{ErrorClass, ServiceError};
use iec61850_mms::mms::pdu::type_specification::{StructComponent, TypeSpecification};
use iec61850_mms::mms::pdu::variable_access::{
    decode_list_of_variable, ListOfVariableEntry, VariableAccessSpecification,
};
use iec61850_mms::mms::pdu::MmsPdu;

#[test]
fn integers_take_the_fewest_octets_that_keep_the_sign() {
    let cases: [(i64, &[u8]); 9] = [
        (0, &[0x00]),
        (127, &[0x7f]),
        (128, &[0x00, 0x80]),
        (-1, &[0xff]),
        (-128, &[0x80]),
        (-129, &[0xff, 0x7f]),
        (65000, &[0x00, 0xfd, 0xe8]),
        (i64::MAX, &[0x7f, 0xff, 0xff, 0xff, 0xff, 0xff, 0xff, 0xff]),
        (i64::MIN, &[0x80, 0, 0, 0, 0, 0, 0, 0]),
    ];
    for (v, octets) in cases {
        assert_eq!(encode_signed_int_minimal(v), octets);
        assert_eq!(decode_signed_int(octets), Ok(v));
    }
}

#[test]
fn unsigned_integers_come_back() {
    let cases: [(u64, &[u8]); 6] = [
        (0, &[0x00]),
        (0x7f, &[0x7f]),
        (0x80, &[0x00, 0x80]),
        (0xffff_ffff, &[0x00, 0xff, 0xff, 0xff, 0xff]),
        (1 << 63, &[0x80, 0, 0, 0, 0, 0, 0, 0]),
        (u64::MAX, &[0xff; 8]),
    ];
    for (v, octets) in cases {
        assert_eq!(encode_unsigned_int_minimal(v), octets);
        assert_eq!(decode_unsigned_int(octets), Ok(v));
    }
    assert_eq!(decode_uint(&[0x00, 0xff, 0xff, 0xff, 0xff]), Ok(u32::MAX));
}

#[test]
fn binary_time_is_milliseconds_of_the_day_then_days() {
    let ms = EPOCH_1984_MS + 2 * 86_400_000 + 0x01020304 % 86_400_000;
    let octets = binary_time6_from_epoch_ms(ms);
    assert_eq!(octets, [0x01, 0x02, 0x03, 0x04, 0x00, 0x02]);
    assert_eq!(epoch_ms_from_binary_time6(octets), ms);
}

#[test]
fn binary_time_saturates_at_both_ends() {
    assert_eq!(binary_time6_from_epoch_ms(0), [0; 6]);
    assert_eq!(
        binary_time6_from_epoch_ms(u64::MAX),
        binary_time6_from_epoch_ms(MAX_BINARY_TIME6_MS)
    );
}

#[test]
fn data_survives_a_second_round() {
    let value = MmsData::Array(vec![
        MmsData::Structure(vec![MmsData::Float64(0x400921fb54442d18), MmsData::Boolean(false)]),
        MmsData::GeneralizedTime("20240101".to_owned()),
        MmsData::BooleanArray { padding: 4, data: vec![0xf0] },
        MmsData::BinaryTime(vec![1, 2, 3, 4, 5, 6]),
    ]);
    let mut first = BytesMut::new();
    value.encode(&mut first);
    let (back, size) = MmsData::decode(&first).unwrap();
    assert_eq!(size, first.len());
    let mut second = BytesMut::new();
    back.encode(&mut second);
    assert_eq!(first, second);
    assert_eq!(back.clone(), value);
}

#[test]
fn floats_reencode_to_the_same_octets() {
    for wire in [
        &[0x87u8, 0x05, 0x08, 0x7f, 0xc0, 0x00, 0x01][..],
        &[0x87, 0x09, 0x0b, 0xff, 0xf0, 0, 0, 0, 0, 0, 0][..],
    ] {
        let (value, _) = MmsData::decode(wire).unwrap();
        let mut out = BytesMut::new();
        value.encode(&mut out);
        assert_eq!(&out[..], wire);
    }
}

#[test]
fn negotiated_level_never_raises_the_ceiling() {
    for negotiated in [None, Some(0), Some(31), Some(32), Some(200)] {
        let cap = effective_nesting_cap(32, negotiated);
        assert!(cap <= 32);
        assert!(negotiated.is_none() || cap <= negotiated.unwrap());
    }
}

#[test]
fn types_survive_a_second_round() {
    let ts = TypeSpecification::Array {
        element_count: 300,
        element_type: Box::new(TypeSpecification::Structure {
            components: vec![StructComponent {
                name: "mag".to_owned(),
                type_spec: TypeSpecification::FloatingPoint {
                    format_width: 32,
                    exponent_width: 8,
                },
            }],
        }),
    };
    let mut first = BytesMut::new();
    ts.encode(&mut first).unwrap();
    assert_eq!(first.len(), ts.encoded_len());
    let (back, size) = TypeSpecification::decode(&first, 0).unwrap();
    assert_eq!((&back, size), (&ts, first.len()));
    let mut second = BytesMut::new();
    back.encode(&mut second).unwrap();
    assert_eq!(first, second);
}

#[test]
fn reject_reason_outside_its_range_becomes_the_first() {
    let decode = |octets: &[u8]| RejectPdu::decode(octets).unwrap().reason;
    assert_eq!(
        decode(&[0xa4, 0x03, 0x81, 0x01, 0x07]),
        RejectReason::ConfirmedRequest(ConfirmedRequestRejectReason::Other)
    );
    assert_eq!(
        decode(&[0xa4, 0x03, 0x85, 0x01, 0xff]),
        RejectReason::PduError(PduErrorRejectReason::UnknownPduType)
    );
    // the value is an INTEGER of several octets
    assert_eq!(
        decode(&[0xa4, 0x04, 0x85, 0x02, 0x00, 0x01]),
        RejectReason::PduError(PduErrorRejectReason::InvalidPdu)
    );
}

#[test]
fn reject_with_the_largest_invoke_id() {
    let pdu = RejectPdu { invoke_id: Some(u32::MAX), reason: RejectReason::CancelError };
    let mut buf = BytesMut::new();
    pdu.encode(&mut buf);
    assert_eq!(&buf[..], &[0xa4, 0x09, 0x80, 0x05, 0x00, 0xff, 0xff, 0xff, 0xff, 0x88, 0x00]);
    assert_eq!(RejectPdu::decode(&buf), Ok(pdu));
}

#[test]
fn service_error_with_every_field() {
    let error = ServiceError {
        error_class: ErrorClass::File(9),
        additional_code: Some(-300),
        additional_description: Some("closed".to_owned()),
    };
    let mut buf = BytesMut::new();
    error.encode_inner(&mut buf);
    assert_eq!(
        &buf[..],
        &[
            0xa0, 0x03, 0x8b, 0x01, 0x09, 0x81, 0x02, 0xfe, 0xd4, 0x82, 0x06, b'c', b'l', b'o',
            b's', b'e', b'd',
        ]
    );
    assert_eq!(ServiceError::decode_inner(&buf), Ok(error));
}

#[test]
fn every_error_class_keeps_its_tag_and_code() {
    let classes = [
        ErrorClass::VmdState(1),
        ErrorClass::ApplicationReference(2),
        ErrorClass::Definition(3),
        ErrorClass::Resource(4),
        ErrorClass::Service(5),
        ErrorClass::ServicePreempt(6),
        ErrorClass::TimeResolution(7),
        ErrorClass::Access(8),
        ErrorClass::Initiate(9),
        ErrorClass::Conclude(10),
        ErrorClass::Cancel(11),
        ErrorClass::File(12),
        ErrorClass::Others(13),
    ];
    for (i, class) in classes.iter().enumerate() {
        assert_eq!(class.context_tag() as usize, i);
        assert_eq!(class.code() as usize, i + 1);
        let mut buf = BytesMut::new();
        class.encode_explicit(&mut buf);
        assert_eq!(ErrorClass::decode_explicit(&buf), Ok((*class, 5)));
    }
}

#[test]
fn enumerations_keep_their_wire_values() {
    for scope in [
        ScopeOfDelete::Specific,
        ScopeOfDelete::AaSpecific,
        ScopeOfDelete::Domain,
        ScopeOfDelete::Vmd,
    ] {
        assert_eq!(ScopeOfDelete::from_wire(scope.wire_value()), Ok(scope));
    }
    for class in [
        ObjectClass::NamedVariable,
        ObjectClass::NamedVariableList,
        ObjectClass::Journal,
        ObjectClass::Domain,
    ] {
        assert_eq!(ObjectClass::try_from(class.wire_value() as u32), Ok(class));
    }
}

#[test]
fn outer_pdus_come_back_with_what_follows_them_ignored() {
    let pdus = [
        MmsPdu::ConfirmedRequest(Bytes::from(vec![7u8; 200])),
        MmsPdu::ConfirmedError(Bytes::from_static(&[1])),
        MmsPdu::Unconfirmed(Bytes::new()),
        MmsPdu::Reject(RejectPdu { invoke_id: None, reason: RejectReason::CancelRequest }),
        MmsPdu::InitiateRequest(InitiateRequestPdu::default()),
        MmsPdu::InitiateResponse(InitiateResponsePdu::default()),
        MmsPdu::ConcludeRequest,
        MmsPdu::ConcludeResponse,
    ];
    for pdu in pdus {
        let mut buf = BytesMut::new();
        pdu.encode(&mut buf);
        assert_eq!(buf[0], pdu.tag_byte());
        assert_eq!(MmsPdu::decode(&buf), Ok(pdu.clone()));
        if !matches!(pdu, MmsPdu::ConcludeRequest | MmsPdu::ConcludeResponse) {
            buf.extend_from_slice(&[0xee]);
            assert_eq!(MmsPdu::decode(&buf), Ok(pdu));
        }
    }
}

#[test]
fn initiate_nesting_level_has_a_ceiling() {
    let request = InitiateRequestPdu {
        proposed_data_structure_nesting_level: Some(32),
        ..InitiateRequestPdu::default()
    };
    let mut buf = BytesMut::new();
    request.encode(&mut buf);
    assert_eq!(InitiateRequestPdu::decode(&buf), Ok(request));
    let request = InitiateRequestPdu {
        proposed_data_structure_nesting_level: Some(33),
        ..InitiateRequestPdu::default()
    };
    let mut buf = BytesMut::new();
    request.encode(&mut buf);
    assert!(InitiateRequestPdu::decode(&buf).is_err());
}

#[test]
fn initiate_counts_above_the_sign_bit_come_back() {
    let response = InitiateResponsePdu {
        negotiated_max_serv_outstanding_calling: 0x8000,
        negotiated_max_serv_outstanding_called: 0xffff,
        ..InitiateResponsePdu::default()
    };
    let mut buf = BytesMut::new();
    response.encode(&mut buf);
    assert!(buf.windows(5).any(|w| w == [0x81, 0x03, 0x00, 0x80, 0x00]));
    assert_eq!(InitiateResponsePdu::decode(&buf), Ok(response));
}

#[test]
fn report_of_names_and_values_comes_back() {
    let name = ObjectName::DomainSpecific { domain_id: "LD".to_owned(), item_id: "V".to_owned() };
    let mut value = BytesMut::new();
    MmsData::Unsigned(5).encode(&mut value);
    let pdu = encode_information_report(&[(name.clone(), value.freeze())]);
    let inner = match MmsPdu::decode(&pdu).unwrap() {
        MmsPdu::Unconfirmed(inner) => inner,
        other => panic!("unexpected {:?}", other),
    };
    let report = decode_information_report(&inner).unwrap();
    assert_eq!(report.variable_access_spec, VariableAccessSpec::ListOfVariable(vec![name]));
    assert_eq!(report.list_of_access_result, vec![MmsData::Unsigned(5)]);
}

#[test]
fn journal_request_after_an_entry_comes_back() {
    let request = ReadJournalRequest::start_after(
        "LD",
        "J",
        1_700_000_000_000,
        [9; ENTRY_ID_SIZE],
    );
    let mut buf = BytesMut::new();
    request.encode(&mut buf);
    assert_eq!(&buf[..2], &[0xbf, 0x41]);
    assert_eq!(ReadJournalRequest::decode(&buf), Ok(request));
}

#[test]
fn released_id_frees_its_slot_but_is_not_next() {
    let mut alloc = InvokeIdAllocator::new(2);
    assert_eq!(alloc.allocate().unwrap(), 1);
    assert_eq!(alloc.allocate().unwrap(), 2);
    alloc.release(1);
    assert!(!alloc.is_pending(1));
    assert_eq!(alloc.allocate().unwrap(), 3);
    // releasing what is not pending changes nothing
    alloc.release(1);
    assert_eq!(alloc.pending_count(), 2);
}

#[test]
fn id_that_is_still_in_flight_is_a_collision() {
    let mut alloc = InvokeIdAllocator::new(3);
    assert_eq!(alloc.allocate().unwrap(), 1);
    alloc.next = 0;
    assert!(matches!(alloc.allocate(), Err(ClientError::InvokeIdExhausted)));
    assert_eq!(alloc.pending_count(), 1);
    assert_eq!(alloc.allocate().unwrap(), 2);
}

#[test]
fn limit_of_zero_allows_no_request() {
    let mut alloc = InvokeIdAllocator::new(0);
    assert!(matches!(alloc.allocate(), Err(ClientError::OutstandingCallLimit)));
    alloc.clear();
    assert_eq!(alloc.pending_count(), 0);
}

#[test]
fn names_are_refused_rather_than_cut_short() {
    for (len, fits) in [(64, true), (65, false)] {
        let name = ObjectName::VmdSpecific("n".repeat(len));
        let mut buf = BytesMut::new();
        name.encode(&mut buf);
        match ObjectName::decode(&buf) {
            Ok((decoded, size)) => {
                assert!(fits);
                assert_eq!((decoded, size), (name, buf.len()));
            }
            Err(e) => {
                assert!(!fits);
                assert_eq!(e, MmsError::IdentifierTooLong { actual: 65 });
            }
        }
    }
}

#[test]
fn name_list_request_keeps_its_limits() {
    let cases = [(64, 129, true), (65, 129, false), (64, 130, false)];
    for (domain, cursor, fits) in cases {
        let request = GetNameListRequest {
            object_class: ObjectClass::NamedVariable,
            object_scope: ObjectScope::DomainSpecific("d".repeat(domain)),
            continue_after: Some("c".repeat(cursor)),
        };
        let mut buf = BytesMut::new();
        request.encode(&mut buf);
        let want = if fits { Ok(request) } else { Err(MmsError::InvalidPdu) };
        assert_eq!(GetNameListRequest::decode(&buf), want);
    }
}

#[test]
fn journal_names_keep_their_limit() {
    for (domain, item, want) in [(64, 64, None), (65, 1, Some(65)), (1, 200, Some(200))] {
        let request = ReadJournalRequest::time_range(
            &"d".repeat(domain),
            &"i".repeat(item),
            1_700_000_000_000,
            1_700_000_001_000,
        );
        let mut buf = BytesMut::new();
        request.encode(&mut buf);
        match want {
            None => assert_eq!(ReadJournalRequest::decode(&buf), Ok(request)),
            Some(actual) => assert_eq!(
                ReadJournalRequest::decode(&buf),
                Err(MmsError::IdentifierTooLong { actual })
            ),
        }
    }
}

#[test]
fn domain_name_with_long_identifiers_has_its_true_length() {
    let name = ObjectName::DomainSpecific { domain_id: "d".repeat(128), item_id: "i".repeat(300) };
    let mut buf = BytesMut::new();
    name.encode(&mut buf);
    assert_eq!(buf.len(), name.encoded_len());
    assert_eq!(&buf[..7], &[0xa1, 0x82, 0x01, 0xb3, 0x1a, 0x81, 0x80]);
    assert_eq!(buf.len(), 4 + 0x1b3);
}

#[test]
fn lists_of_variables_concatenate() {
    let entry = |item: &str| {
        ListOfVariableEntry::name(ObjectName::DomainSpecific {
            domain_id: "D".to_owned(),
            item_id: item.to_owned(),
        })
    };
    let selected = ListOfVariableEntry::with_alt_access(
        ObjectName::VmdSpecific("V".to_owned()),
        AlternateAccess::index_component(3, "a$b").unwrap(),
    );
    let content = |entries: &[ListOfVariableEntry]| {
        let mut buf = BytesMut::new();
        VariableAccessSpecification::ListOfVariable(entries.to_vec()).encode(&mut buf);
        buf[2..].to_vec()
    };
    let first = [entry("x"), selected];
    let second = [entry("y"), entry("x")];
    let mut joined = content(&first);
    joined.extend(content(&second));
    assert_eq!(
        decode_list_of_variable(&joined),
        Ok([first.to_vec(), second.to_vec()].concat())
    );
    assert_eq!(decode_list_of_variable(&[]), Ok(vec![]));
    let mut data = vec![0xa0, joined.len() as u8];
    data.extend(joined);
    let (decoded, size) = VariableAccessSpecification::decode(&data).unwrap();
    assert_eq!(size, data.len());
    assert_eq!(
        decoded,
        VariableAccessSpecification::ListOfVariable([first.to_vec(), second.to_vec()].concat())
    );
    assert_eq!(
        VariableAccessSpecification::decode(&[0xa0, 0x00]),
        Ok((VariableAccessSpecification::ListOfVariable(vec![]), 2))
    );
}

#[test]
fn data_nested_too_deep_names_the_level_beyond_the_ceiling() {
    let mut value = MmsData::Boolean(true);
    for level in 0..6u8 {
        let mut buf = BytesMut::new();
        value.encode(&mut buf);
        for max in 0..6u8 {
            let want = if level <= max {
                Ok((value.clone(), buf.len()))
            } else {
                Err(MmsError::NestingLevelExceeded { max, got: max + 1 })
            };
            assert_eq!(MmsData::decode_with_max(&buf, max), want);
            let deeper = match want {
                Ok(v) => Ok(v),
                Err(_) => Err(MmsError::NestingLevelExceeded { max: max + 7, got: max + 8 }),
            };
            assert_eq!(MmsData::decode_recursive(&buf, 7, max + 7), deeper);
        }
        value = if level % 2 == 0 {
            MmsData::Structure(vec![MmsData::Integer(1), value])
        } else {
            MmsData::Array(vec![value, MmsData::Array(vec![])])
        };
    }
}

#[test]
fn attributes_nested_past_the_negotiated_level_name_it() {
    let mut ts = TypeSpecification::Structure { components: vec![] };
    for level in 0..6u8 {
        let response = GetVariableAccessAttributesResponse {
            mms_deletable: true,
            type_specification: ts.clone(),
        };
        let mut buf = BytesMut::new();
        response.encode(&mut buf).unwrap();
        for n in 0..6u8 {
            let want = if level < n {
                Ok(response.clone())
            } else {
                Err(MmsError::NestingLevelExceeded { max: n, got: n })
            };
            assert_eq!(
                GetVariableAccessAttributesResponse::decode_with_negotiated_cap(&buf, Some(n)),
                want
            );
        }
        for negotiated in [None, Some(32), Some(200)] {
            assert_eq!(
                GetVariableAccessAttributesResponse::decode_with_negotiated_cap(&buf, negotiated),
                GetVariableAccessAttributesResponse::decode(&buf)
            );
        }
        ts = if level % 2 == 0 {
            TypeSpecification::Array { element_count: 2, element_type: Box::new(ts) }
        } else {
            TypeSpecification::Structure {
                components: vec![StructComponent { name: "c".to_owned(), type_spec: ts }],
            }
        };
    }
}

#[test]
fn floats_compare_as_numbers() {
    let single = |v: f32| MmsData::Float32(v.to_bits());
    let double = |v: f64| MmsData::Float64(v.to_bits());
    for a in [0.0f32, -0.0, 1.5, -1.5, f32::INFINITY, f32::NEG_INFINITY, f32::NAN, f32::MIN_POSITIVE] {
        for b in [0.0f32, -0.0, 1.5, -1.5, f32::INFINITY, f32::NEG_INFINITY, f32::NAN, f32::MAX] {
            assert_eq!(single(a) == single(b), a == b);
            let (c, d) = (f64::from(a), f64::from(b));
            assert_eq!(double(c) == double(d), c == d);
            assert_ne!(single(a), double(d));
            // in a container too
            let (x, y) = (vec![single(a), double(c)], vec![single(b), double(d)]);
            assert_eq!(MmsData::Array(x.clone()) == MmsData::Array(y.clone()), a == b);
            assert_eq!(MmsData::Structure(x.clone()) == MmsData::Structure(y), a == b);
            assert_ne!(MmsData::Structure(x.clone()), MmsData::Array(x));
        }
    }
    assert_ne!(MmsData::Float32(0xffff_ffff), MmsData::Float32(0xffff_ffff));
    assert_ne!(MmsData::Float64(u64::MAX), MmsData::Float64(u64::MAX));
}

#[test]
fn values_differ_by_kind_and_content() {
    let values = [
        MmsData::Boolean(true),
        MmsData::Boolean(false),
        MmsData::Integer(1),
        MmsData::Unsigned(1),
        MmsData::OctetString(vec![1, 2, 3, 4]),
        MmsData::OctetString(vec![1, 2, 3]),
        MmsData::BinaryTime(vec![1, 2, 3, 4]),
        MmsData::VisibleString("a".to_owned()),
        MmsData::MmsString("a".to_owned()),
        MmsData::GeneralizedTime("a".to_owned()),
        MmsData::BitString { padding: 1, data: vec![2] },
        MmsData::BitString { padding: 2, data: vec![2] },
        MmsData::BooleanArray { padding: 1, data: vec![2] },
        MmsData::UtcTime([0; 8]),
        MmsData::UtcTime([0, 0, 0, 0, 0, 0, 0, 1]),
        MmsData::Array(vec![]),
        MmsData::Structure(vec![]),
        MmsData::Array(vec![MmsData::Boolean(true)]),
        MmsData::Array(vec![MmsData::Boolean(false)]),
    ];
    for (i, a) in values.iter().enumerate() {
        for (j, b) in values.iter().enumerate() {
            assert_eq!(a == b, i == j);
        }
    }
}
