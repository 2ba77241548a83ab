use bytes::BytesMut;
use iec61850_mms::mms::error::MmsError;
use iec61850_mms::mms::pdu::data::MmsData;
use iec61850_mms::mms::pdu::read_journal::{
    decode_confirmed_read_journal_request, decode_confirmed_read_journal_response,
    encode_confirmed_read_journal_request, encode_confirmed_read_journal_response,
    ReadJournalRequest, ReadJournalResponse, WireJournalEntry, WireJournalVariable,
    ORIGINATING_APPLICATION_FIXED, SERVICE_TAG_READ_JOURNAL,
};

// the long-form service tag

#[test]
fn service_tag_constant_is_long_form_65() {
    assert_eq!(SERVICE_TAG_READ_JOURNAL, [0xbf, 0x41]);
}

// ReadJournalRequest time-range round trip

#[test]
fn request_time_range_round_trip() {
    // an epoch after 1984, as BinaryTime6 requires
    let req = ReadJournalRequest::time_range(
        "LD0",
        "LLN0$GLOG",
        1_700_000_000_000,
        1_700_000_001_000,
    );
    let mut buf = BytesMut::new();
    req.encode(&mut buf);
    assert_eq!(buf[0], 0xbf);
    assert_eq!(buf[1], 0x41);
    let back = ReadJournalRequest::decode(&buf).unwrap();
    assert_eq!(back, req);
}

// ReadJournalRequest start-after round trip

#[test]
fn request_start_after_round_trip() {
    let req = ReadJournalRequest::start_after(
        "LD0",
        "LLN0$GLOG",
        1_700_000_500_000,
        [0, 0, 0, 0, 0, 0, 0x12, 0x34],
    );
    let mut buf = BytesMut::new();
    req.encode(&mut buf);
    let back = ReadJournalRequest::decode(&buf).unwrap();
    assert_eq!(back, req);
}

// full ConfirmedRequest wrapper round trip

#[test]
fn confirmed_request_wrapper_round_trip() {
    let req = ReadJournalRequest::time_range(
        "LD0",
        "LLN0$GLOG",
        1_700_000_000_100,
        1_700_000_000_200,
    );
    let mut buf = BytesMut::new();
    encode_confirmed_read_journal_request(42, &req, &mut buf);
    assert_eq!(buf[0], 0xa0, "the ConfirmedRequest outer tag");
    let (invoke_id, back) = decode_confirmed_read_journal_request(&buf).unwrap();
    assert_eq!(invoke_id, 42);
    assert_eq!(back, req);
}

// ReadJournalResponse round trip

#[test]
fn response_empty_list_round_trip() {
    let resp = ReadJournalResponse {
        entries: vec![],
        more_follows: None,
    };
    let mut buf = BytesMut::new();
    resp.encode(&mut buf);
    let back = ReadJournalResponse::decode(&buf).unwrap();
    assert_eq!(back, resp);
}

#[test]
fn response_one_entry_round_trip() {
    let entry = WireJournalEntry {
        entry_id: [0, 0, 0, 0, 0, 0, 0, 7],
        occurence_time_ms: 1_700_000_500_000,
        variables: vec![WireJournalVariable {
            data_ref: "LD0/MMXU1$MX$A$mag$f".to_string(),
            value: MmsData::Boolean(true),
            reason_code: 0x02, // dchg
        }],
    };
    let resp = ReadJournalResponse {
        entries: vec![entry.clone()],
        more_follows: Some(false),
    };
    let mut buf = BytesMut::new();
    resp.encode(&mut buf);
    let back = ReadJournalResponse::decode(&buf).unwrap();
    assert_eq!(back, resp);
}

#[test]
fn response_two_entries_with_more_follows_round_trip() {
    let v1 = WireJournalVariable {
        data_ref: "LD0/A".into(),
        value: MmsData::Integer(42),
        reason_code: 0x10, // integrity
    };
    let v2 = WireJournalVariable {
        data_ref: "LD0/B".into(),
        value: MmsData::Float32(2.5f32.to_bits()),
        reason_code: 0x04, // qchg
    };
    let entry1 = WireJournalEntry {
        entry_id: [0, 0, 0, 0, 0, 0, 0, 1],
        occurence_time_ms: 1_700_000_001_000,
        variables: vec![v1.clone()],
    };
    let entry2 = WireJournalEntry {
        entry_id: [0, 0, 0, 0, 0, 0, 0, 2],
        occurence_time_ms: 1_700_000_002_000,
        variables: vec![v1, v2],
    };
    let resp = ReadJournalResponse {
        entries: vec![entry1, entry2],
        more_follows: Some(true),
    };
    let mut buf = BytesMut::new();
    resp.encode(&mut buf);
    let back = ReadJournalResponse::decode(&buf).unwrap();
    assert_eq!(back, resp);
}

// full ConfirmedResponse wrapper round trip

#[test]
fn confirmed_response_wrapper_round_trip() {
    let resp = ReadJournalResponse {
        entries: vec![WireJournalEntry {
            entry_id: [0, 0, 0, 0, 0, 0, 0, 99],
            occurence_time_ms: 1_700_009_999_999,
            variables: vec![WireJournalVariable {
                data_ref: "LD0/X".into(),
                value: MmsData::Boolean(false),
                reason_code: 0,
            }],
        }],
        more_follows: None,
    };
    let mut buf = BytesMut::new();
    encode_confirmed_read_journal_response(7, &resp, &mut buf);
    assert_eq!(buf[0], 0xa1);
    let (invoke_id, back) = decode_confirmed_read_journal_response(&buf).unwrap();
    assert_eq!(invoke_id, 7);
    assert_eq!(back, resp);
}

// boundaries and negative cases

#[test]
fn read_journal_decode_request_truncated_returns_err() {
    let r = ReadJournalRequest::decode(&[0xbf]);
    assert!(matches!(r, Err(MmsError::TruncatedPdu)));
}

#[test]
fn decode_request_wrong_first_tag_returns_invalid_tag() {
    let r = ReadJournalRequest::decode(&[0xa0, 0x00]);
    assert!(matches!(r, Err(MmsError::InvalidTag { .. })));
}

#[test]
fn decode_response_invalid_entry_id_size_returns_err() {
    // a malformed PDU whose entryID is shorter than 8 bytes
    let mut bad = BytesMut::new();
    bad.extend_from_slice(&SERVICE_TAG_READ_JOURNAL);
    // content: 0xa0 0x06 0x30 0x04 0x80 0x02 0xaa 0xbb, an entryID of only 2 bytes
    bad.extend_from_slice(&[0x08, 0xa0, 0x06, 0x30, 0x04, 0x80, 0x02, 0xaa, 0xbb]);
    let r = ReadJournalResponse::decode(&bad);
    assert!(matches!(r, Err(MmsError::InvalidLength)));
}

#[test]
fn originating_application_emitted_as_fixed_bytes() {
    let resp = ReadJournalResponse {
        entries: vec![WireJournalEntry {
            entry_id: [0, 0, 0, 0, 0, 0, 0, 1],
            occurence_time_ms: 1_700_000_000_000,
            variables: vec![],
        }],
        more_follows: None,
    };
    let mut buf = BytesMut::new();
    resp.encode(&mut buf);
    // locate the fixed originatingApplication sequence 0xa1 0x02 0x30 0x00
    let needle = ORIGINATING_APPLICATION_FIXED;
    assert!(
        buf.windows(needle.len()).any(|w| w == needle),
        "the wire bytes must contain the fixed originatingApplication"
    );
}
