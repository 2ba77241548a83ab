use bytes::{Bytes, BytesMut};
use iec61850_mms::mms::error::MmsError;
use iec61850_mms::mms::pdu::data::MmsData;
use iec61850_mms::mms::pdu::information_report::{
    decode_information_report, encode_command_termination_negative,
    encode_command_termination_positive, encode_information_report, encode_last_appl_error_struct,
    LastApplErrorRef, OriginRef, VariableAccessSpec,
};
use iec61850_mms::mms::pdu::object_name::ObjectName;

/// A minimal positive command termination with one variable and a trivial Oper
/// structure, checking the outer tag nesting and the embedded names.
#[test]
fn ct_positive_minimal_layout() {
    // the Oper value is Structure(Boolean(true))
    let oper_bytes = {
        let mut b = BytesMut::new();
        MmsData::Structure(vec![MmsData::Boolean(true)]).encode(&mut b);
        b.freeze()
    };
    let pdu =
        encode_command_termination_positive("IED1LD0", "GGIO1$CO$SPCSO1$Oper", oper_bytes);

    // the outer tag
    assert_eq!(
        pdu[0], 0xa3,
        "the outer tag must be unconfirmedPDU [3] IMPLICIT"
    );

    // the second layer, the merged informationReport wrapper, must be 0xa0
    // skip outer header
    let outer_hdr = if pdu[1] < 0x80 {
        2
    } else if pdu[1] == 0x81 {
        3
    } else {
        4
    };
    let inner = &pdu[outer_hdr..];
    assert_eq!(
        inner[0], 0xa0,
        "the merged service and informationReport [0] IMPLICIT must be 0xa0"
    );

    // the domain and item identifiers must appear in the bytes
    let s = String::from_utf8_lossy(&pdu);
    assert!(s.contains("IED1LD0"), "the pdu must carry the domain id");
    assert!(
        s.contains("GGIO1$CO$SPCSO1$Oper"),
        "the pdu must carry the item id"
    );
}

/// A byte-exact minimal InformationReport with domain "D", item "A" and an
/// AccessResult of `0xa2 0x00`, an empty structure.
///
/// The expected bytes carry exactly three nested tags. An encoder that adds two
/// more `0xa0` wrappers produces a report peers cannot parse, so this test pins
/// the nesting down.
#[test]
fn ct_positive_minimal_byte_exact() {
    // an empty structure encodes as 0xa2 0x00
    let oper_bytes = Bytes::from_static(&[0xa2, 0x00]);
    let pdu = encode_command_termination_positive("D", "A", oper_bytes);

    let oracle: &[u8] = &[
        // 0xa3 <total=20> outer unconfirmedPDU
        0xa3, 0x14,
          // 0xa0 <body=18>, service merged with informationReport
          0xa0, 0x12,
            // 0xa0 <listOfVariable=12>
            0xa0, 0x0c,
              // SEQUENCE <10>
              0x30, 0x0a,
                // VariableSpec.name [0] IMPLICIT, len=8
                0xa0, 0x08,
                  // ObjectName.domain-specific
                  0xa1, 0x06,
                    0x1a, 0x01, b'D',
                    0x1a, 0x01, b'A',
            // 0xa0 <listOfAccessResult=2>
            0xa0, 0x02,
              // the AccessResult bytes the caller encoded, an empty structure
              0xa2, 0x00,
    ];

    assert_eq!(
        pdu.as_ref(),
        oracle,
        "the InformationReport must keep exactly three nested tags"
    );
}

#[test]
fn ct_negative_contains_last_appl_error_and_oper() {
    let last_err = LastApplErrorRef {
        ctl_obj: "IED1LD0/GGIO1$CO$SPCSO1$Oper".into(),
        error: 0,
        origin: OriginRef {
            or_cat: 3,
            or_ident: vec![0xAA],
        },
        ctl_num: 7,
        add_cause: 9, // BlockedByProcess
    };
    let oper_bytes = {
        let mut b = BytesMut::new();
        MmsData::Structure(vec![MmsData::Boolean(false)]).encode(&mut b);
        b.freeze()
    };
    let pdu = encode_command_termination_negative(
        &last_err,
        "IED1LD0",
        "GGIO1$CO$SPCSO1$Oper",
        oper_bytes,
    );

    assert_eq!(pdu[0], 0xa3);
    let s = String::from_utf8_lossy(&pdu);
    assert!(
        s.contains("LastApplError"),
        "the pdu must carry the LastApplError name"
    );
    assert!(
        s.contains("IED1LD0/GGIO1$CO$SPCSO1$Oper"),
        "the pdu must carry ctlObj"
    );
    assert!(
        s.contains("GGIO1$CO$SPCSO1$Oper"),
        "the pdu must carry the oper path"
    );
}

#[test]
fn last_appl_error_struct_5_elements() {
    let e = LastApplErrorRef {
        ctl_obj: "X/Y$CO$Z$Oper".into(),
        error: 1,
        origin: OriginRef {
            or_cat: 0,
            or_ident: vec![],
        },
        ctl_num: 0,
        add_cause: 0,
    };
    let bytes = encode_last_appl_error_struct(&e);
    // the first byte must be 0xa2, a structure, and the second a short-form length
    assert_eq!(bytes[0], 0xa2);
    // decoding must yield five elements
    let (data, _) = MmsData::decode(&bytes).expect("decode last appl error");
    if let MmsData::Structure(items) = data {
        assert_eq!(items.len(), 5, "LastApplError must have five elements");
        assert!(matches!(items[0], MmsData::VisibleString(_)));
        assert!(matches!(items[1], MmsData::Integer(_)));
        assert!(matches!(items[2], MmsData::Structure(_)));
        assert!(matches!(items[3], MmsData::Unsigned(_)));
        assert!(matches!(items[4], MmsData::Integer(_)));
    } else {
        panic!("LastApplError must be a Structure");
    }
}

// Decoder

/// The decoder must parse the byte-exact positive command termination above and
/// recover the domain-specific name plus a listOfAccessResult of one empty structure.
#[test]
fn decode_ct_positive_byte_exact_oracle() {
    let oper_bytes = Bytes::from_static(&[0xa2, 0x00]);
    let pdu = encode_command_termination_positive("D", "A", oper_bytes);

    // strip the outer 0xa3 and its short-form length
    let inner = &pdu[2..];
    let parsed = decode_information_report(inner).expect("decode CT+ oracle");
    match parsed.variable_access_spec {
        VariableAccessSpec::ListOfVariable(names) => {
            assert_eq!(names.len(), 1);
            match &names[0] {
                ObjectName::DomainSpecific { domain_id, item_id } => {
                    assert_eq!(domain_id, "D");
                    assert_eq!(item_id, "A");
                }
                other => panic!("expected DomainSpecific, got {other:?}"),
            }
        }
        other => panic!("expected ListOfVariable, got {other:?}"),
    }
    assert_eq!(parsed.list_of_access_result.len(), 1);
    assert!(matches!(
        &parsed.list_of_access_result[0],
        MmsData::Structure(items) if items.is_empty()
    ));
}

/// A report control block wire form, the VMD-specific name "RPT" followed by a
/// flat sequence of values, must decode.
#[test]
fn decode_urcb_report_vmd_spec_rpt() {
    // a hand-built minimal report:
    //   0xa3 0x18
    //     0xa0 0x16
    //       VAR_ACCESS_SPEC = 0xa1 0x05 0x80 0x03 'R' 'P' 'T'
    //       0xa0 0x0d
    //         RptID(VisibleString,0x8a) "RPT01"
    //         OptFlds(BitString,0x84) wire 3 bytes (padding=6, data=00 00)
    //         inclusion(BitString,0x84) wire 2 bytes (padding=7, data=00)
    let mut access = BytesMut::new();
    // RptID = "RPT01"
    access.extend_from_slice(&[0x8a, 0x05, b'R', b'P', b'T', b'0', b'1']);
    // OptFlds: tag 0x84, length 3, padding 6, two data bytes 0x00 0x00
    access.extend_from_slice(&[0x84, 0x03, 0x06, 0x00, 0x00]);
    // inclusion: tag 0x84, length 2, padding 7, one data byte 0x00 for a single
    // entry that is not included
    access.extend_from_slice(&[0x84, 0x02, 0x07, 0x00]);

    let var_spec: &[u8] = &[0xa1, 0x05, 0x80, 0x03, b'R', b'P', b'T'];
    let mut info_body = BytesMut::new();
    info_body.extend_from_slice(var_spec);
    info_body.extend_from_slice(&[0xa0, access.len() as u8]);
    info_body.extend_from_slice(&access);

    let mut combined = BytesMut::new();
    combined.extend_from_slice(&[0xa0, info_body.len() as u8]);
    combined.extend_from_slice(&info_body);

    // decode the merged content directly, starting at the 0xa0
    let parsed = decode_information_report(&combined).expect("decode URCB report");
    match parsed.variable_access_spec {
        VariableAccessSpec::VariableListName(ObjectName::VmdSpecific(name)) => {
            assert_eq!(name, "RPT");
        }
        other => panic!("expected VariableListName(VmdSpecific RPT), got {other:?}"),
    }
    assert_eq!(parsed.list_of_access_result.len(), 3);
    assert!(matches!(
        &parsed.list_of_access_result[0],
        MmsData::VisibleString(s) if s == "RPT01"
    ));
    assert!(matches!(
        &parsed.list_of_access_result[1],
        MmsData::BitString { padding: 6, data } if data.len() == 2
    ));
    assert!(matches!(
        &parsed.list_of_access_result[2],
        MmsData::BitString { padding: 7, data } if data.len() == 1
    ));
}

/// Short or malformed input must return an error rather than panic.
#[test]
fn decode_rejects_truncated_input() {
    // an outer 0xa0 whose body is incomplete
    let bad: &[u8] = &[0xa0, 0x10, 0xa1, 0x05]; // declares 16 bytes but supplies 4
    let r = decode_information_report(bad);
    assert!(matches!(r, Err(MmsError::InformationReportDecode(_))));
}

#[test]
fn information_report_two_variables_round_trip() {
    // two variables, checking the layout rather than decoding the whole PDU
    let mut a_bytes = BytesMut::new();
    MmsData::Boolean(true).encode(&mut a_bytes);
    let mut b_bytes = BytesMut::new();
    MmsData::Integer(42).encode(&mut b_bytes);

    let pdu = encode_information_report(&[
        (
            ObjectName::DomainSpecific {
                domain_id: "D1".into(),
                item_id: "X$ST$DO$DA1".into(),
            },
            a_bytes.freeze(),
        ),
        (ObjectName::VmdSpecific("Var2".into()), b_bytes.freeze()),
    ]);

    // the outer tag
    assert_eq!(pdu[0], 0xa3);
    let s = String::from_utf8_lossy(&pdu);
    assert!(s.contains("D1"));
    assert!(s.contains("X$ST$DO$DA1"));
    assert!(s.contains("Var2"));
}
