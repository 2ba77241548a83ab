use bytes::{Bytes, BytesMut};
use iec61850_mms::mms::client::connection::{
    expect_unconfirmed, ConnectionState, Incoming, MmsConnection, DEFAULT_CONNECT_TIMEOUT_MS,
    DEFAULT_REQUEST_TIMEOUT_MS,
};
use iec61850_mms::mms::client::error::ClientError;
use iec61850_mms::mms::client::{MmsClient, MmsClientBuilder};
use iec61850_mms::mms::pdu::initiate::{
    InitiateErrorPdu, InitiateRequestPdu, InitiateResponsePdu,
};
use iec61850_mms::mms::pdu::MmsPdu;

fn encoded(pdu: &MmsPdu) -> BytesMut {
    let mut buf = BytesMut::new();
    pdu.encode(&mut buf);
    buf
}

fn response(size: Option<u32>) -> BytesMut {
    let resp = InitiateResponsePdu {
        local_detail_called: size,
        negotiated_max_serv_outstanding_calling: 3,
        negotiated_max_serv_outstanding_called: 4,
        negotiated_data_structure_nesting_level: None,
        init_response_detail: Default::default(),
    };
    encoded(&MmsPdu::InitiateResponse(resp))
}

#[test]
fn builder_without_settings_gives_the_defaults() {
    let client = MmsClientBuilder::new().build();
    assert_eq!(client.state(), ConnectionState::Closed);
    assert_eq!(client.negotiated_max_pdu_size(), 65000);
    assert_eq!(client.conn.negotiated_max_calling, 5);
    assert_eq!(client.conn.negotiated_max_called, 5);
    assert_eq!(client.conn.connect_timeout_ms, DEFAULT_CONNECT_TIMEOUT_MS);
    assert_eq!(client.conn.request_timeout_ms, DEFAULT_REQUEST_TIMEOUT_MS);
    assert_eq!(client.conn.local_max_pdu_size, None);
    let mut client = MmsClient::new();
    for _ in 0..5 {
        client.alloc.allocate().unwrap();
    }
    assert!(matches!(client.alloc.allocate(), Err(ClientError::OutstandingCallLimit)));
}

#[test]
fn builder_settings_reach_the_client() {
    let mut client = MmsClientBuilder::new()
        .connect_timeout_ms(1)
        .request_timeout_ms(2)
        .max_outstanding(1)
        .local_max_pdu_size(4096)
        .build();
    assert_eq!(client.conn.connect_timeout_ms, 1);
    assert_eq!(client.conn.request_timeout_ms, 2);
    assert_eq!(client.conn.local_max_pdu_size, Some(4096));
    client.alloc.allocate().unwrap();
    assert!(client.alloc.allocate().is_err());
}

#[test]
fn initiate_request_carries_the_proposed_size() {
    let mut conn = MmsConnection::new();
    let request = InitiateRequestPdu::decode(&conn.initiate_request()).unwrap();
    assert_eq!(request, InitiateRequestPdu::default());
    assert_eq!(request.local_detail_calling, Some(65000));
    conn.local_max_pdu_size = Some(1024);
    let request = InitiateRequestPdu::decode(&conn.initiate_request()).unwrap();
    assert_eq!(request.local_detail_calling, Some(1024));
}

#[test]
fn association_takes_the_smaller_size() {
    for (offer, size) in [(Some(1000), 1000), (Some(65000), 65000), (Some(100000), 65000), (None, 65000)] {
        let mut conn = MmsConnection::new();
        conn.begin_association();
        assert_eq!(conn.state, ConnectionState::Connecting);
        conn.complete_association(&response(offer), false).unwrap();
        assert_eq!(conn.state, ConnectionState::Connected);
        assert_eq!(conn.negotiated_max_pdu_size, size);
        assert_eq!(conn.negotiated_max_calling, 3);
        assert_eq!(conn.negotiated_max_called, 4);
    }
}

#[test]
fn small_proposal_negotiates_a_small_size() {
    let cases = [
        (1000, None, 1000),
        (1000, Some(65000), 1000),
        (1000, Some(500), 500),
        (100000, None, 65000),
        (100000, Some(80000), 65000),
        (100000, Some(100000), 65000),
        (100000, Some(2000), 2000),
    ];
    for (proposal, offer, size) in cases {
        let mut client = MmsClientBuilder::new().local_max_pdu_size(proposal).build();
        client.conn.complete_association(&response(offer), true).unwrap();
        assert_eq!(client.negotiated_max_pdu_size(), size);
    }
}

#[test]
fn association_that_fails_leaves_the_connection_as_it_was() {
    let mut conn = MmsConnection::new();
    conn.begin_association();
    let refusal = encoded(&MmsPdu::InitiateError(InitiateErrorPdu::new(3)));
    assert!(matches!(
        conn.complete_association(&refusal, false),
        Err(ClientError::InitiateFailed { error_code: 3 })
    ));
    match conn.complete_association(&[0x8b, 0x00], false) {
        Err(ClientError::PduParse(text)) => {
            assert_eq!(text, "expected InitiateResponse, got tag=0x8B")
        }
        other => panic!("unexpected {:?}", other),
    }
    match conn.complete_association(&[0xa3, 0x00], true) {
        Err(ClientError::PduParse(text)) => {
            assert_eq!(text, "expected InitiateResponse (tls), got tag=0xA3")
        }
        other => panic!("unexpected {:?}", other),
    }
    match conn.complete_association(&[], false) {
        Err(ClientError::PduParse(text)) => assert_eq!(text, "mms pdu is truncated"),
        other => panic!("unexpected {:?}", other),
    }
    assert_eq!(conn.state, ConnectionState::Connecting);
    assert_eq!(conn.negotiated_max_pdu_size, 65000);
}

#[test]
fn pdu_above_the_negotiated_size_is_refused() {
    let mut conn = MmsConnection::new();
    conn.complete_association(&response(Some(100)), false).unwrap();
    assert!(conn.check_outgoing_size(100).is_ok());
    assert!(matches!(
        conn.check_outgoing_size(101),
        Err(ClientError::PduTooLarge { pdu_size: 101, max_size: 100 })
    ));
}

#[test]
fn release_needs_an_association() {
    let mut conn = MmsConnection::new();
    match conn.begin_conclude() {
        Err(ClientError::NotConnected { state }) => assert_eq!(state, "Closed"),
        other => panic!("unexpected {:?}", other),
    }
    assert_eq!(conn.state, ConnectionState::Closed);
    conn.complete_association(&response(None), false).unwrap();
    assert_eq!(conn.begin_conclude().unwrap(), MmsPdu::ConcludeRequest);
    assert_eq!(conn.state, ConnectionState::Closing);
    match conn.not_connected() {
        ClientError::NotConnected { state } => assert_eq!(state, "Closing"),
        other => panic!("unexpected {:?}", other),
    }
    conn.close_raw();
    assert_eq!(conn.state, ConnectionState::Closed);
}

#[test]
fn conclude_request_from_the_server_is_answered_and_lost() {
    let mut conn = MmsConnection::new();
    conn.complete_association(&response(None), false).unwrap();
    match conn.receive(&[0x8b, 0x00]).unwrap() {
        Incoming::Concluded { reply, error } => {
            assert_eq!(reply, MmsPdu::ConcludeResponse);
            assert_eq!(&encoded(&reply)[..], &[0x8c, 0x00]);
            assert!(matches!(error, ClientError::ConnectionLost));
        }
        Incoming::Pdu(pdu) => panic!("unexpected {:?}", pdu),
    }
    assert_eq!(conn.state, ConnectionState::Closing);
}

#[test]
fn received_octets_become_a_pdu_or_a_parse_error() {
    let mut conn = MmsConnection::new();
    match conn.receive(&[0xa1, 0x02, 0x05, 0x06]).unwrap() {
        Incoming::Pdu(pdu) => {
            assert_eq!(pdu, MmsPdu::ConfirmedResponse(Bytes::from_static(&[5, 6])))
        }
        Incoming::Concluded { .. } => panic!("not a conclude request"),
    }
    match conn.receive(&[0xa5, 0x00]) {
        Err(ClientError::PduParse(text)) => assert_eq!(text, "unknown mms pdu tag 0xA5"),
        _ => panic!("expected a parse error"),
    }
    assert_eq!(conn.state, ConnectionState::Closed);
}

#[test]
fn unconfirmed_pdus_are_stashed_in_order() {
    let mut client = MmsClient::new();
    let first = MmsPdu::Unconfirmed(Bytes::from_static(b"first"));
    let answer = MmsPdu::ConfirmedResponse(Bytes::from_static(b"answer"));
    assert!(client.conn.accept_confirmed(first).is_none());
    assert_eq!(client.conn.accept_confirmed(answer.clone()), Some(answer));
    client.push_back_unconfirmed(Bytes::from_static(b"second"));
    client.close_raw();
    assert_eq!(client.conn.pop_pending_unconfirmed().unwrap(), &b"first"[..]);
    assert_eq!(client.conn.pop_pending_unconfirmed().unwrap(), &b"second"[..]);
    assert_eq!(client.conn.pop_pending_unconfirmed(), None);
}

#[test]
fn only_unconfirmed_pdus_are_reports() {
    let report = MmsPdu::Unconfirmed(Bytes::from_static(&[0xa0, 0x00]));
    assert_eq!(expect_unconfirmed(report).unwrap(), &[0xa0, 0x00][..]);
    match expect_unconfirmed(MmsPdu::ConfirmedResponse(Bytes::new())) {
        Err(ClientError::PduParse(text)) => {
            assert_eq!(text, "expected Unconfirmed (0xa3), got tag=0xa1")
        }
        other => panic!("unexpected {:?}", other),
    }
}
