//! Associations, rejections, service errors and the PDUs around them as octets.

use vstd::prelude::*;

use crate::asn1;
use crate::buffer;
use crate::mms::error::MmsError;
use crate::mms::pdu::ber;
use crate::mms::pdu::conclude;
use crate::mms::pdu::initiate;
use crate::mms::pdu::initiate::{
    DetailView,
    InitRequestDetail,
    InitResponseDetail,
    InitiateErrorPdu,
    InitiateFields,
    InitiateRequestPdu,
    InitiateResponsePdu,
    InitiateView,
};
use crate::mms::pdu::integer;
use crate::mms::pdu::reject;
use crate::mms::pdu::reject::{
    ConcludeErrorRejectReason,
    ConcludeRequestRejectReason,
    ConcludeResponseRejectReason,
    ConfirmedErrorRejectReason,
    ConfirmedRequestRejectReason,
    ConfirmedResponseRejectReason,
    PduErrorRejectReason,
    RejectFields,
    RejectPdu,
    RejectReason,
    UnconfirmedPduRejectReason,
};
use crate::mms::pdu::service_error;
use crate::mms::pdu::service_error::{
    ErrorClass,
    ServiceError,
    ServiceErrorFields,
    ServiceErrorView,
};
use crate::mms::pdu::{MmsPdu, MmsPduView};
use crate::mms::wire::basics;
use crate::text;

verus! {

broadcast use ber::group_element_sizes;

/// The class of an error is told by the tag around its code, from 0x80 to 0x8c.
pub proof fn law_error_class_octets(c: u8)
    ensures
        ErrorClass::VmdState(c).octets() == seq![0xa0u8, 0x03, 0x80, 0x01, c],
        ErrorClass::ApplicationReference(c).octets() == seq![0xa0u8, 0x03, 0x81, 0x01, c],
        ErrorClass::Definition(c).octets() == seq![0xa0u8, 0x03, 0x82, 0x01, c],
        ErrorClass::Resource(c).octets() == seq![0xa0u8, 0x03, 0x83, 0x01, c],
        ErrorClass::Service(c).octets() == seq![0xa0u8, 0x03, 0x84, 0x01, c],
        ErrorClass::ServicePreempt(c).octets() == seq![0xa0u8, 0x03, 0x85, 0x01, c],
        ErrorClass::TimeResolution(c).octets() == seq![0xa0u8, 0x03, 0x86, 0x01, c],
        ErrorClass::Access(c).octets() == seq![0xa0u8, 0x03, 0x87, 0x01, c],
        ErrorClass::Initiate(c).octets() == seq![0xa0u8, 0x03, 0x88, 0x01, c],
        ErrorClass::Conclude(c).octets() == seq![0xa0u8, 0x03, 0x89, 0x01, c],
        ErrorClass::Cancel(c).octets() == seq![0xa0u8, 0x03, 0x8a, 0x01, c],
        ErrorClass::File(c).octets() == seq![0xa0u8, 0x03, 0x8b, 0x01, c],
        ErrorClass::Others(c).octets() == seq![0xa0u8, 0x03, 0x8c, 0x01, c],
{
}

/// The number of every class of error, with the code it carries.
pub proof fn law_error_class_numbers(e: ErrorClass)
    ensures
        e.parts() == (match e {
            ErrorClass::VmdState(c) => (0u8, c),
            ErrorClass::ApplicationReference(c) => (1u8, c),
            ErrorClass::Definition(c) => (2u8, c),
            ErrorClass::Resource(c) => (3u8, c),
            ErrorClass::Service(c) => (4u8, c),
            ErrorClass::ServicePreempt(c) => (5u8, c),
            ErrorClass::TimeResolution(c) => (6u8, c),
            ErrorClass::Access(c) => (7u8, c),
            ErrorClass::Initiate(c) => (8u8, c),
            ErrorClass::Conclude(c) => (9u8, c),
            ErrorClass::Cancel(c) => (10u8, c),
            ErrorClass::File(c) => (11u8, c),
            ErrorClass::Others(c) => (12u8, c),
        }),
{
}

/// What the class of an error decodes to: the class of the tag, with its code. A tag above
/// 0x8c, and one that is none of a class, are refused.
pub proof fn law_error_class_decodes(tag: u8, c: u8, rest: Seq<u8>)
    ensures
        ErrorClass::parse(seq![0xa0u8, 0x03, tag, 0x01, c] + rest) == (match tag {
            0x80 => Ok::<(ErrorClass, nat), MmsError>((ErrorClass::VmdState(c), 5)),
            0x81 => Ok((ErrorClass::ApplicationReference(c), 5)),
            0x82 => Ok((ErrorClass::Definition(c), 5)),
            0x83 => Ok((ErrorClass::Resource(c), 5)),
            0x84 => Ok((ErrorClass::Service(c), 5)),
            0x85 => Ok((ErrorClass::ServicePreempt(c), 5)),
            0x86 => Ok((ErrorClass::TimeResolution(c), 5)),
            0x87 => Ok((ErrorClass::Access(c), 5)),
            0x88 => Ok((ErrorClass::Initiate(c), 5)),
            0x89 => Ok((ErrorClass::Conclude(c), 5)),
            0x8a => Ok((ErrorClass::Cancel(c), 5)),
            0x8b => Ok((ErrorClass::File(c), 5)),
            0x8c => Ok((ErrorClass::Others(c), 5)),
            _ => if 0x8d <= tag <= 0x9f {
                Err(MmsError::UnknownMmsPduTag(tag))
            } else {
                Err(MmsError::InvalidTag { expected: 0x80, actual: tag })
            },
        }),
{
}

/// What is refused as the class of an error: fewer than five octets, another tag than
/// 0xa0, a length below 3 or beyond the end, and a code that is not one octet.
pub proof fn law_error_class_faults(s: Seq<u8>)
    ensures
        s.len() < 5 ==> ErrorClass::parse(s) == Err::<(ErrorClass, nat), MmsError>(
            MmsError::TruncatedPdu,
        ),
        s.len() >= 5 && s[0] != 0xa0 ==> ErrorClass::parse(s) == Err::<(ErrorClass, nat), MmsError>(
            MmsError::InvalidTag { expected: 0xa0, actual: s[0] },
        ),
        s.len() >= 5 && s[0] == 0xa0 && (s[1] < 3 || s[1] > s.len() - 2) ==> ErrorClass::parse(s)
            == Err::<(ErrorClass, nat), MmsError>(MmsError::InvalidLength),
        s.len() >= 5 && s[0] == 0xa0 && 3 <= s[1] <= s.len() - 2 && 0x80 <= s[2] <= 0x9f && s[3]
            != 1 ==> ErrorClass::parse(s) == Err::<(ErrorClass, nat), MmsError>(
            MmsError::InvalidLength,
        ),
        ErrorClass::parse(s) matches Ok((c, n)) ==> n == 2 + s[1] && c.octets()[2] == s[2]
            && c.octets()[4] == s[4],
{
}

/// A service error is its class, then the additional code under 0x81 and the description
/// under 0x82, where they are there. It goes under 0xaa as the answer to a refused
/// association, and within 0xa2, after the invoke id under 0x80, as a confirmed error.
pub proof fn law_service_error_octets(e: ServiceError, i: InitiateErrorPdu, invoke_id: u32)
    ensures
        ({
            let code = match e.additional_code {
                Some(v) => ber::short_tlv(0x81, integer::sint_octets(v as int)),
                None => Seq::<u8>::empty(),
            };
            let description = match e.additional_description {
                Some(t) => ber::short_tlv(0x82, vstd::utf8::encode_utf8(t@)),
                None => Seq::<u8>::empty(),
            };
            e@.content() == e.error_class.octets() + code + description
        }),
        service_error::confirmed_error_content(invoke_id, e@) == ber::tlv(
            0x80,
            integer::unsigned_octets(invoke_id as u64),
        ) + ber::tlv(0xa2, e@.content()),
        e@.error_class == e.error_class,
        e@.additional_code == e.additional_code,
        match e.additional_description {
            Some(t) => e@.additional_description == Some(t@),
            None => e@.additional_description is None,
        },
        i@ == i.service_error@,
{
}

/// What a service error decodes to. One more field sets the additional code (0x81), of one
/// to four octets, or the description (0x82), and a field with another tag changes
/// nothing.
pub proof fn law_service_error_decodes(
    s: Seq<u8>,
    e: ServiceErrorView,
    class: ErrorClass,
    tag: u8,
    val: Seq<u8>,
)
    requires
        val.len() <= 0xff,
        ServiceErrorView::of_content(s) == Ok::<ServiceErrorView, MmsError>(e),
    ensures
        ServiceErrorView::of_content(class.octets()) == Ok::<ServiceErrorView, MmsError>(
            ServiceErrorView {
                error_class: class,
                additional_code: None,
                additional_description: None,
            },
        ),
        ServiceErrorView::of_content(s + (seq![0x81u8, val.len() as u8] + val)) == (
        if 1 <= val.len() <= 4 {
            Ok::<ServiceErrorView, MmsError>(
                ServiceErrorView { additional_code: Some(integer::sint(val) as i32), ..e },
            )
        } else {
            Err(MmsError::InvalidLength)
        }),
        ServiceErrorView::of_content(s + (seq![0x82u8, val.len() as u8] + val)) == (
        match text::text_at(val) {
            Some(t) => Ok::<ServiceErrorView, MmsError>(
                ServiceErrorView { additional_description: Some(t), ..e },
            ),
            None => Err(MmsError::InvalidUtf8),
        }),
        tag != 0x81 && tag != 0x82 ==> ServiceErrorView::of_content(
            s + (seq![tag, val.len() as u8] + val),
        ) == Ok::<ServiceErrorView, MmsError>(e),
{
    let none = Seq::<u8>::empty();
    service_error::law_error_class_round_trip(class, none);
    assert(class.octets() + none =~= class.octets());
    assert(class.octets().skip(5) =~= none);
    lemma_service_error_append(s, e, 0x81, val);
    lemma_service_error_append(s, e, 0x82, val);
    lemma_service_error_append(s, e, tag, val);
}

/// A service error that decodes, with one more field.
proof fn lemma_service_error_append(s: Seq<u8>, e: ServiceErrorView, tag: u8, val: Seq<u8>)
    requires
        val.len() <= 0xff,
        ServiceErrorView::of_content(s) == Ok::<ServiceErrorView, MmsError>(e),
    ensures
        ServiceErrorView::of_content(s + (seq![tag, val.len() as u8] + val)) == (
        match service_error::service_error_field(
            (e.additional_code, e.additional_description),
            tag,
            val,
        ) {
            Ok(f) => Ok::<ServiceErrorView, MmsError>(
                ServiceErrorView {
                    error_class: e.error_class,
                    additional_code: f.0,
                    additional_description: f.1,
                },
            ),
            Err(x) => Err(x),
        }),
{
    let steps = service_error::service_error_fields();
    let start: ServiceErrorFields = (None, None);
    let (class, n) = ErrorClass::parse(s)->Ok_0;
    let more = ber::short_tlv(tag, val);
    assert(more == seq![tag, val.len() as u8] + val);
    assert(ErrorClass::parse(s + more) == ErrorClass::parse(s));
    assert((s + more).skip(n as int) =~= s.skip(n as int) + more);
    ber::lemma_short_fold_append(s.skip(n as int), tag, val, start, steps);
}

/// What the refusal of an association decodes to: the service error within 0xaa.
pub proof fn law_initiate_error_decodes(c: Seq<u8>, rest: Seq<u8>)
    requires
        c.len() <= 0xffff,
    ensures
        initiate::initiate_error_at(ber::tlv(0xaa, c) + rest) == ServiceErrorView::of_content(c),
{
    ber::law_element_round_trip(0xaa, c, rest);
}

/// The tag of the kind of a rejection, and the number of its reason.
#[verifier::rlimit(40)]
pub proof fn law_reject_reason_octets(r: RejectReason)
    ensures
        0x80 + r.kind() == (match r {
            RejectReason::ConfirmedRequest(_) => 0x81int,
            RejectReason::ConfirmedResponse(_) => 0x82,
            RejectReason::ConfirmedError(_) => 0x83,
            RejectReason::UnconfirmedPdu(_) => 0x84,
            RejectReason::PduError(_) => 0x85,
            RejectReason::CancelRequest => 0x86,
            RejectReason::CancelResponse => 0x87,
            RejectReason::CancelError => 0x88,
            RejectReason::ConcludeRequest(_) => 0x89,
            RejectReason::ConcludeResponse(_) => 0x8a,
            RejectReason::ConcludeError(_) => 0x8b,
        }),
        r.body() == (match r {
            RejectReason::ConfirmedRequest(x) => seq![
                match x {
                    ConfirmedRequestRejectReason::Other => 0u8,
                    ConfirmedRequestRejectReason::UnrecognizedService => 1,
                    ConfirmedRequestRejectReason::UnrecognizedModifier => 2,
                    ConfirmedRequestRejectReason::InvalidInvokeId => 3,
                    ConfirmedRequestRejectReason::InvalidArgument => 4,
                    ConfirmedRequestRejectReason::InvalidModifier => 5,
                    ConfirmedRequestRejectReason::MaxServOutstandingExceeded => 6,
                    ConfirmedRequestRejectReason::MaxRecursionExceeded => 8,
                    ConfirmedRequestRejectReason::ValueOutOfRange => 9,
                },
            ],
            RejectReason::ConfirmedResponse(x) => seq![
                match x {
                    ConfirmedResponseRejectReason::Other => 0u8,
                    ConfirmedResponseRejectReason::UnrecognizedService => 1,
                    ConfirmedResponseRejectReason::InvalidInvokeId => 2,
                    ConfirmedResponseRejectReason::InvalidResult => 3,
                    ConfirmedResponseRejectReason::MaxRecursionExceeded => 5,
                    ConfirmedResponseRejectReason::ValueOutOfRange => 6,
                },
            ],
            RejectReason::ConfirmedError(x) => seq![
                match x {
                    ConfirmedErrorRejectReason::Other => 0u8,
                    ConfirmedErrorRejectReason::UnrecognizedService => 1,
                    ConfirmedErrorRejectReason::InvalidInvokeId => 2,
                    ConfirmedErrorRejectReason::InvalidServiceError => 3,
                    ConfirmedErrorRejectReason::ValueOutOfRange => 4,
                },
            ],
            RejectReason::UnconfirmedPdu(x) => seq![
                match x {
                    UnconfirmedPduRejectReason::Other => 0u8,
                    UnconfirmedPduRejectReason::UnrecognizedService => 1,
                    UnconfirmedPduRejectReason::InvalidArgument => 2,
                    UnconfirmedPduRejectReason::MaxRecursionExceeded => 3,
                    UnconfirmedPduRejectReason::ValueOutOfRange => 4,
                },
            ],
            RejectReason::PduError(x) => seq![
                match x {
                    PduErrorRejectReason::UnknownPduType => 0u8,
                    PduErrorRejectReason::InvalidPdu => 1,
                    PduErrorRejectReason::IllegalAcseMapping => 2,
                },
            ],
            RejectReason::ConcludeRequest(x) => seq![
                match x {
                    ConcludeRequestRejectReason::Other => 0u8,
                    ConcludeRequestRejectReason::InvalidArgument => 1,
                },
            ],
            RejectReason::ConcludeResponse(x) => seq![
                match x {
                    ConcludeResponseRejectReason::Other => 0u8,
                    ConcludeResponseRejectReason::InvalidResult => 1,
                },
            ],
            RejectReason::ConcludeError(x) => seq![
                match x {
                    ConcludeErrorRejectReason::Other => 0u8,
                    ConcludeErrorRejectReason::InvalidServiceError => 1,
                    ConcludeErrorRejectReason::ValueOutOfRange => 2,
                },
            ],
            _ => Seq::<u8>::empty(),
        }),
{
}

/// A rejection goes under 0xa4: the invoke id under 0x80, where there is one, and the
/// reason under the tag of its kind.
pub proof fn law_reject_octets(pdu: RejectPdu)
    ensures
        ({
            let id = match pdu.invoke_id {
                Some(v) => ber::tlv(0x80, integer::uint_octets(v as nat)),
                None => Seq::<u8>::empty(),
            };
            pdu.octets() == ber::tlv(
                0xa4,
                id + ber::tlv((0x80 + pdu.reason.kind()) as u8, pdu.reason.body()),
            )
        }),
{
    let reason = ber::tlv((0x80 + pdu.reason.kind()) as u8, pdu.reason.body());
    assert(Seq::<u8>::empty() + reason =~= reason);
}

/// What a reason without an invoke id decodes to: the kind is told by the tag and the
/// reason by the number, of which the last four octets count; no octets are zero. A number
/// that means nothing is the first reason of its kind, and a PDU without a reason is
/// refused.
#[verifier::rlimit(40)]
pub proof fn law_reject_reason_decodes(val: Seq<u8>, tag: u8, rest: Seq<u8>)
    requires
        val.len() <= 0x7000,
    ensures
        ({
            let n = if val.len() == 0 {
                0
            } else if val.len() > 4 {
                integer::sint(val.skip(val.len() - 4))
            } else {
                integer::sint(val)
            };
            let reason = match tag {
                0x81 => Some(
                    RejectReason::ConfirmedRequest(
                        if n == 1 {
                            ConfirmedRequestRejectReason::UnrecognizedService
                        } else if n == 2 {
                            ConfirmedRequestRejectReason::UnrecognizedModifier
                        } else if n == 3 {
                            ConfirmedRequestRejectReason::InvalidInvokeId
                        } else if n == 4 {
                            ConfirmedRequestRejectReason::InvalidArgument
                        } else if n == 5 {
                            ConfirmedRequestRejectReason::InvalidModifier
                        } else if n == 6 {
                            ConfirmedRequestRejectReason::MaxServOutstandingExceeded
                        } else if n == 8 {
                            ConfirmedRequestRejectReason::MaxRecursionExceeded
                        } else if n == 9 {
                            ConfirmedRequestRejectReason::ValueOutOfRange
                        } else {
                            ConfirmedRequestRejectReason::Other
                        },
                    ),
                ),
                0x82 => Some(
                    RejectReason::ConfirmedResponse(
                        if n == 1 {
                            ConfirmedResponseRejectReason::UnrecognizedService
                        } else if n == 2 {
                            ConfirmedResponseRejectReason::InvalidInvokeId
                        } else if n == 3 {
                            ConfirmedResponseRejectReason::InvalidResult
                        } else if n == 5 {
                            ConfirmedResponseRejectReason::MaxRecursionExceeded
                        } else if n == 6 {
                            ConfirmedResponseRejectReason::ValueOutOfRange
                        } else {
                            ConfirmedResponseRejectReason::Other
                        },
                    ),
                ),
                0x83 => Some(
                    RejectReason::ConfirmedError(
                        if n == 1 {
                            ConfirmedErrorRejectReason::UnrecognizedService
                        } else if n == 2 {
                            ConfirmedErrorRejectReason::InvalidInvokeId
                        } else if n == 3 {
                            ConfirmedErrorRejectReason::InvalidServiceError
                        } else if n == 4 {
                            ConfirmedErrorRejectReason::ValueOutOfRange
                        } else {
                            ConfirmedErrorRejectReason::Other
                        },
                    ),
                ),
                0x84 => Some(
                    RejectReason::UnconfirmedPdu(
                        if n == 1 {
                            UnconfirmedPduRejectReason::UnrecognizedService
                        } else if n == 2 {
                            UnconfirmedPduRejectReason::InvalidArgument
                        } else if n == 3 {
                            UnconfirmedPduRejectReason::MaxRecursionExceeded
                        } else if n == 4 {
                            UnconfirmedPduRejectReason::ValueOutOfRange
                        } else {
                            UnconfirmedPduRejectReason::Other
                        },
                    ),
                ),
                0x85 => Some(
                    RejectReason::PduError(
                        if n == 1 {
                            PduErrorRejectReason::InvalidPdu
                        } else if n == 2 {
                            PduErrorRejectReason::IllegalAcseMapping
                        } else {
                            PduErrorRejectReason::UnknownPduType
                        },
                    ),
                ),
                0x86 => Some(RejectReason::CancelRequest),
                0x87 => Some(RejectReason::CancelResponse),
                0x88 => Some(RejectReason::CancelError),
                0x89 => Some(
                    RejectReason::ConcludeRequest(
                        if n == 1 {
                            ConcludeRequestRejectReason::InvalidArgument
                        } else {
                            ConcludeRequestRejectReason::Other
                        },
                    ),
                ),
                0x8a => Some(
                    RejectReason::ConcludeResponse(
                        if n == 1 {
                            ConcludeResponseRejectReason::InvalidResult
                        } else {
                            ConcludeResponseRejectReason::Other
                        },
                    ),
                ),
                0x8b => Some(
                    RejectReason::ConcludeError(
                        if n == 1 {
                            ConcludeErrorRejectReason::InvalidServiceError
                        } else if n == 2 {
                            ConcludeErrorRejectReason::ValueOutOfRange
                        } else {
                            ConcludeErrorRejectReason::Other
                        },
                    ),
                ),
                _ => None,
            };
            RejectPdu::parse(ber::tlv(0xa4, ber::tlv(tag, val)) + rest) == (match reason {
                Some(reason) => Ok::<RejectPdu, MmsError>(RejectPdu { invoke_id: None, reason }),
                None => Err(MmsError::InvalidPdu),
            })
        }),
{
    let steps = reject::reject_fields();
    let start: RejectFields = (None, None);
    ber::law_element_round_trip(0xa4, ber::tlv(tag, val), rest);
    ber::lemma_fold_last(tag, val, start, steps);
}

/// One more field of a rejection that decodes sets the invoke id, from the last four
/// octets under 0x80, or another reason; any other field changes nothing.
pub proof fn law_reject_field(c: Seq<u8>, pdu: RejectPdu, tag: u8, val: Seq<u8>, rest: Seq<u8>)
    requires
        c.len() <= 0x7000,
        val.len() <= 0x7000,
        RejectPdu::parse(ber::tlv(0xa4, c)) == Ok::<RejectPdu, MmsError>(pdu),
    ensures
        RejectPdu::parse(ber::tlv(0xa4, c + ber::tlv(0x80, val)) + rest) == Ok::<
            RejectPdu,
            MmsError,
        >(
            RejectPdu {
                invoke_id: Some(
                    (if val.len() > 4 {
                        asn1::uint(val.skip(val.len() - 4))
                    } else {
                        asn1::uint(val)
                    }) as u32,
                ),
                ..pdu
            },
        ),
        0x81 <= tag <= 0x8b ==> (RejectPdu::parse(ber::tlv(0xa4, ber::tlv(tag, val))) matches Ok(
            single,
        ) && RejectPdu::parse(ber::tlv(0xa4, c + ber::tlv(tag, val)) + rest) == Ok::<
            RejectPdu,
            MmsError,
        >(RejectPdu { reason: single.reason, ..pdu })),
        !(0x80 <= tag <= 0x8b) ==> RejectPdu::parse(ber::tlv(0xa4, c + ber::tlv(tag, val)) + rest)
            == Ok::<RejectPdu, MmsError>(pdu),
        RejectPdu::parse(ber::tlv(0xa4, ber::tlv(0x80, val)) + rest) == Err::<RejectPdu, MmsError>(
            MmsError::InvalidPdu,
        ),
{
    let steps = reject::reject_fields();
    let start: RejectFields = (None, None);
    ber::lemma_element_alone(0xa4, c);
    ber::law_element_round_trip(0xa4, c + ber::tlv(0x80, val), rest);
    ber::lemma_fold_append(c, 0x80, val, start, steps);
    ber::law_element_round_trip(0xa4, c + ber::tlv(tag, val), rest);
    ber::lemma_fold_append(c, tag, val, start, steps);
    ber::law_element_round_trip(0xa4, ber::tlv(0x80, val), rest);
    ber::lemma_fold_last(0x80, val, start, steps);
    ber::lemma_element_alone(0xa4, ber::tlv(tag, val));
    ber::lemma_fold_last(tag, val, start, steps);
}

/// The error that a rejection is reported as.
pub proof fn law_reject_errors(pdu: RejectPdu)
    ensures
        pdu.mms_error() == (match pdu.reason {
            RejectReason::ConfirmedRequest(ConfirmedRequestRejectReason::UnrecognizedService) =>
                MmsError::RejectUnrecognizedService,
            RejectReason::ConfirmedRequest(ConfirmedRequestRejectReason::InvalidArgument) =>
                MmsError::RejectRequestInvalidArgument,
            RejectReason::PduError(PduErrorRejectReason::UnknownPduType) =>
                MmsError::RejectUnknownPduType,
            RejectReason::PduError(PduErrorRejectReason::InvalidPdu) => MmsError::RejectInvalidPdu,
            _ => MmsError::RejectOther,
        }),
{
}

/// The detail of an association is the version, in one octet under 0x80, the parameters
/// under 0x81, and the services under 0x82, after an octet that counts three unused bits.
/// A request goes under the names of what the caller proposes, an answer under those of
/// what was agreed.
pub proof fn law_detail_octets(q: InitRequestDetail, r: InitResponseDetail)
    ensures
        q@.content() == seq![0x80u8, 0x01, (q.proposed_version_number % 256) as u8] + (seq![
            0x81u8,
            0x03,
        ] + q.proposed_parameter_cbb@) + (seq![0x82u8, 0x0c, 0x03] + q.services_supported_calling@),
        r@.content() == seq![0x80u8, 0x01, (r.negotiated_version_number % 256) as u8] + (seq![
            0x81u8,
            0x03,
        ] + r.negotiated_parameter_cbb@) + (seq![0x82u8, 0x0c, 0x03]
            + r.services_supported_called@),
        q@ == (DetailView {
            version: q.proposed_version_number,
            parameter_cbb: q.proposed_parameter_cbb@,
            services: q.services_supported_calling@,
        }),
        r@ == (DetailView {
            version: r.negotiated_version_number,
            parameter_cbb: r.negotiated_parameter_cbb@,
            services: r.services_supported_called@,
        }),
{
    assert(q@.content() =~= seq![0x80u8, 0x01, (q.proposed_version_number % 256) as u8] + (seq![
        0x81u8,
        0x03,
    ] + q.proposed_parameter_cbb@) + (seq![0x82u8, 0x0c, 0x03] + q.services_supported_calling@));
    assert(r@.content() =~= seq![0x80u8, 0x01, (r.negotiated_version_number % 256) as u8] + (seq![
        0x81u8,
        0x03,
    ] + r.negotiated_parameter_cbb@) + (seq![0x82u8, 0x0c, 0x03] + r.services_supported_called@));
}

/// A detail without content is that of a client of version 1. One more field sets the
/// version (0x80), from its first octet, the three octets of the parameters (0x81), or the
/// services (0x82), twelve octets of which the first is dropped. A field with another tag
/// changes nothing.
#[verifier::rlimit(40)]
pub proof fn law_detail_decodes(s: Seq<u8>, d: DetailView, tag: u8, val: Seq<u8>)
    requires
        val.len() <= 0xff,
        DetailView::of_content(s) == Ok::<DetailView, MmsError>(d),
    ensures
        DetailView::of_content(Seq::<u8>::empty()) == Ok::<DetailView, MmsError>(
            DetailView {
                version: 1,
                parameter_cbb: seq![0x05, 0xf1, 0x00],
                services: seq![
                    0xee,
                    0x1c,
                    0x00,
                    0x00,
                    0x04,
                    0x08,
                    0x00,
                    0x00,
                    0x79,
                    0xef,
                    0x18,
                ],
            },
        ),
        DetailView::of_content(s + (seq![0x80u8, val.len() as u8] + val)) == (if val.len() == 0 {
            Err::<DetailView, MmsError>(MmsError::InvalidLength)
        } else {
            Ok(DetailView { version: val[0] as u16, ..d })
        }),
        DetailView::of_content(s + (seq![0x81u8, val.len() as u8] + val)) == (if val.len() == 3 {
            Ok::<DetailView, MmsError>(DetailView { parameter_cbb: val, ..d })
        } else {
            Err(MmsError::InvalidParameterCbbLength { actual: val.len() as usize })
        }),
        DetailView::of_content(s + (seq![0x82u8, val.len() as u8] + val)) == (if val.len() == 12 {
            Ok::<DetailView, MmsError>(DetailView { services: val.skip(1), ..d })
        } else {
            Err(MmsError::InvalidServicesSupportedLength { actual: val.len() as usize })
        }),
        !(0x80 <= tag <= 0x82) ==> DetailView::of_content(s + (seq![tag, val.len() as u8] + val))
            == Ok::<DetailView, MmsError>(d),
{
    let steps = initiate::detail_fields();
    let start = DetailView::default_view();
    ber::lemma_short_fold_append(s, 0x80, val, start, steps);
    ber::lemma_short_fold_append(s, 0x81, val, start, steps);
    ber::lemma_short_fold_append(s, 0x82, val, start, steps);
    ber::lemma_short_fold_append(s, tag, val, start, steps);
    assert(ber::short_tlv(0x80, val) == seq![0x80u8, val.len() as u8] + val);
    assert(ber::short_tlv(0x81, val) == seq![0x81u8, val.len() as u8] + val);
    assert(ber::short_tlv(0x82, val) == seq![0x82u8, val.len() as u8] + val);
    assert(ber::short_tlv(tag, val) == seq![tag, val.len() as u8] + val);
}

/// A request for an association: the largest PDU under 0x80, where it is said, the
/// outstanding requests of the caller under 0x81 and of the called party under 0x82, the
/// nesting level under 0x83, where it is said, and the detail within 0xa4.
pub proof fn law_initiate_request_octets(q: InitiateRequestPdu, tag: u8)
    ensures
        ({
            let size = match q.local_detail_calling {
                Some(v) => ber::tlv(0x80, integer::sint_octets(v as int)),
                None => Seq::<u8>::empty(),
            };
            let level = match q.proposed_data_structure_nesting_level {
                Some(v) => seq![0x83u8, 0x01, v],
                None => Seq::<u8>::empty(),
            };
            q@.octets(tag) == ber::tlv(
                tag,
                size + (ber::tlv(
                    0x81,
                    integer::sint_octets(q.proposed_max_serv_outstanding_calling as int),
                ) + (ber::tlv(
                    0x82,
                    integer::sint_octets(q.proposed_max_serv_outstanding_called as int),
                ) + (level + ber::tlv(0xa4, q.init_request_detail@.content())))),
            )
        }),
        q@ == (InitiateView {
            local_detail: q.local_detail_calling,
            calling: q.proposed_max_serv_outstanding_calling,
            called: q.proposed_max_serv_outstanding_called,
            nesting_level: q.proposed_data_structure_nesting_level,
            detail: q.init_request_detail@,
        }),
{
    lemma_initiate_octets(q@);
}

/// An answer to a request for an association, in the same form.
pub proof fn law_initiate_response_octets(r: InitiateResponsePdu, tag: u8)
    ensures
        ({
            let size = match r.local_detail_called {
                Some(v) => ber::tlv(0x80, integer::sint_octets(v as int)),
                None => Seq::<u8>::empty(),
            };
            let level = match r.negotiated_data_structure_nesting_level {
                Some(v) => seq![0x83u8, 0x01, v],
                None => Seq::<u8>::empty(),
            };
            r@.octets(tag) == ber::tlv(
                tag,
                size + (ber::tlv(
                    0x81,
                    integer::sint_octets(r.negotiated_max_serv_outstanding_calling as int),
                ) + (ber::tlv(
                    0x82,
                    integer::sint_octets(r.negotiated_max_serv_outstanding_called as int),
                ) + (level + ber::tlv(0xa4, r.init_response_detail@.content())))),
            )
        }),
        r@ == (InitiateView {
            local_detail: r.local_detail_called,
            calling: r.negotiated_max_serv_outstanding_calling,
            called: r.negotiated_max_serv_outstanding_called,
            nesting_level: r.negotiated_data_structure_nesting_level,
            detail: r.init_response_detail@,
        }),
{
    lemma_initiate_octets(r@);
}

/// The numbers of an Initiate PDU are written as numbers that are not negative.
proof fn lemma_initiate_octets(v: InitiateView)
    ensures
        v.local_detail matches Some(n) ==> integer::uint_octets(n as nat) == integer::sint_octets(
            n as int,
        ),
        v.nesting_level matches Some(n) ==> ber::tlv(0x83, seq![n]) == seq![0x83u8, 0x01, n],
        integer::uint_octets(v.calling as nat) == integer::sint_octets(v.calling as int),
        integer::uint_octets(v.called as nat) == integer::sint_octets(v.called as int),
{
    basics::law_shortest_octets(v.calling as int);
    basics::law_shortest_octets(v.called as int);
    if let Some(n) = v.local_detail {
        basics::law_shortest_octets(n as int);
    }
    if let Some(n) = v.nesting_level {
        assert(ber::tlv(0x83, seq![n]) =~= seq![0x83u8, 0x01, n]);
    }
}

/// What an Initiate PDU decodes to: the outstanding requests of the caller under 0x81 and
/// of the called party under 0x82, cut to sixteen bits, and the detail within 0xa4. Without
/// one of them it is truncated.
#[verifier::rlimit(40)]
pub proof fn law_initiate_decodes(
    tag: u8,
    calling: Seq<u8>,
    called: Seq<u8>,
    detail: Seq<u8>,
    d: DetailView,
    rest: Seq<u8>,
)
    requires
        1 <= calling.len() <= 4,
        1 <= called.len() <= 4,
        detail.len() <= 0x7000,
        DetailView::of_content(detail) == Ok::<DetailView, MmsError>(d),
    ensures
        ({
            let one = ber::tlv(0x81, calling);
            let two = ber::tlv(0x82, called);
            let four = ber::tlv(0xa4, detail);
            let truncated = Err::<InitiateView, MmsError>(MmsError::TruncatedPdu);
            &&& InitiateView::parse(ber::tlv(tag, one + (two + four)) + rest, tag) == Ok::<
                InitiateView,
                MmsError,
            >(
                InitiateView {
                    local_detail: None,
                    calling: (asn1::uint(calling) % 0x1_0000) as u16,
                    called: (asn1::uint(called) % 0x1_0000) as u16,
                    nesting_level: None,
                    detail: d,
                },
            )
            &&& InitiateView::parse(ber::tlv(tag, one + two) + rest, tag) == truncated
            &&& InitiateView::parse(ber::tlv(tag, one + four) + rest, tag) == truncated
            &&& InitiateView::parse(ber::tlv(tag, two + four) + rest, tag) == truncated
        }),
{
    let steps = initiate::initiate_fields();
    let f0 = InitiateView::no_fields();
    let c1 = (asn1::uint(calling) % 0x1_0000) as u16;
    let c2 = (asn1::uint(called) % 0x1_0000) as u16;
    let f1 = InitiateFields { calling: Some(c1), ..f0 };
    let f2 = InitiateFields { called: Some(c2), ..f1 };
    let g2 = InitiateFields { called: Some(c2), ..f0 };
    let one = ber::tlv(0x81, calling);
    let two = ber::tlv(0x82, called);
    let four = ber::tlv(0xa4, detail);
    integer::lemma_uint_bound(calling);
    integer::lemma_uint_bound(called);
    integer::lemma_pow256_values();
    integer::lemma_pow256_mono(calling.len(), 4);
    integer::lemma_pow256_mono(called.len(), 4);
    assert(steps(f0, 0x81, calling) == Ok::<InitiateFields, MmsError>(f1));
    assert(steps(f1, 0x82, called) == Ok::<InitiateFields, MmsError>(f2));
    assert(steps(f0, 0x82, called) == Ok::<InitiateFields, MmsError>(g2));
    ber::law_element_round_trip(tag, one + (two + four), rest);
    ber::lemma_fold_tlv(0x81, calling, two + four, f0, steps);
    ber::lemma_fold_tlv(0x82, called, four, f1, steps);
    ber::lemma_fold_last(0xa4, detail, f2, steps);
    ber::law_element_round_trip(tag, one + two, rest);
    ber::lemma_fold_tlv(0x81, calling, two, f0, steps);
    ber::lemma_fold_last(0x82, called, f1, steps);
    ber::law_element_round_trip(tag, one + four, rest);
    ber::lemma_fold_tlv(0x81, calling, four, f0, steps);
    ber::lemma_fold_last(0xa4, detail, f1, steps);
    ber::law_element_round_trip(tag, two + four, rest);
    ber::lemma_fold_tlv(0x82, called, four, f0, steps);
    ber::lemma_fold_last(0xa4, detail, g2, steps);
}

/// What one more field does to an Initiate PDU that decodes: it sets the largest PDU
/// (0x80), the outstanding requests (0x81 and 0x82) or the nesting level (0x83), at most
/// 32, or the detail (0xa4). A field with another tag changes nothing.
#[verifier::rlimit(40)]
pub proof fn law_initiate_field(
    pdu: u8,
    c: Seq<u8>,
    v: InitiateView,
    tag: u8,
    val: Seq<u8>,
    rest: Seq<u8>,
)
    requires
        c.len() <= 0x7000,
        val.len() <= 0x7000,
        InitiateView::parse(ber::tlv(pdu, c), pdu) == Ok::<InitiateView, MmsError>(v),
    ensures
        ({
            let got = InitiateView::parse(ber::tlv(pdu, c + ber::tlv(tag, val)) + rest, pdu);
            &&& 1 <= val.len() <= 4 && tag == 0x80 ==> got == Ok::<InitiateView, MmsError>(
                InitiateView { local_detail: Some(asn1::uint(val) as u32), ..v },
            )
            &&& val.len() == 5 && val[0] == 0 && tag == 0x80 ==> got == Ok::<
                InitiateView,
                MmsError,
            >(InitiateView { local_detail: Some(asn1::uint(val.skip(1)) as u32), ..v })
            &&& 1 <= val.len() <= 4 && tag == 0x81 ==> got == Ok::<InitiateView, MmsError>(
                InitiateView { calling: (asn1::uint(val) % 0x1_0000) as u16, ..v },
            )
            &&& 1 <= val.len() <= 4 && tag == 0x82 ==> got == Ok::<InitiateView, MmsError>(
                InitiateView { called: (asn1::uint(val) % 0x1_0000) as u16, ..v },
            )
            &&& (val.len() == 0 || val.len() > 5) && 0x80 <= tag <= 0x82 ==> got == Err::<
                InitiateView,
                MmsError,
            >(MmsError::InvalidLength)
            &&& tag == 0x83 ==> got == (if val.len() == 0 {
                Err::<InitiateView, MmsError>(MmsError::InvalidLength)
            } else if val[0] > 32 {
                Err(MmsError::NestingLevelExceeded { max: 32, got: val[0] })
            } else {
                Ok(InitiateView { nesting_level: Some(val[0]), ..v })
            })
            &&& tag == 0xa4 ==> got == (match DetailView::of_content(val) {
                Ok(detail) => Ok::<InitiateView, MmsError>(InitiateView { detail, ..v }),
                Err(e) => Err(e),
            })
            &&& !(0x80 <= tag <= 0x83) && tag != 0xa4 ==> got == Ok::<InitiateView, MmsError>(v)
        }),
{
    let steps = initiate::initiate_fields();
    let start = InitiateView::no_fields();
    ber::lemma_element_alone(pdu, c);
    ber::law_element_round_trip(pdu, c + ber::tlv(tag, val), rest);
    ber::lemma_fold_append(c, tag, val, start, steps);
    if 1 <= val.len() <= 4 {
        integer::lemma_uint_bound(val);
        integer::lemma_pow256_values();
        integer::lemma_pow256_mono(val.len(), 4);
    }
}

/// What a client proposes where nothing else is said: PDUs of 65000 bytes, five
/// outstanding requests on either side, ten levels of nesting, and the detail of a client.
pub proof fn law_initiate_defaults()
    ensures
        InitiateView::default_view().local_detail == Some(65000u32),
        InitiateView::default_view().calling == 5,
        InitiateView::default_view().called == 5,
        InitiateView::default_view().nesting_level == Some(10u8),
        DetailView::of_content(Seq::<u8>::empty()) == Ok::<DetailView, MmsError>(
            InitiateView::default_view().detail,
        ),
{
}

/// An empty PDU has its tag and a zero; another tag, another length, and a PDU of one
/// octet are refused.
pub proof fn law_conclude_octets(tag: u8, b: u8, other: u8, rest: Seq<u8>)
    ensures
        conclude::null_fault(seq![tag, b] + rest, other) == (if tag != other {
            Some(MmsError::InvalidTag { expected: other, actual: tag })
        } else if b != 0 {
            Some(MmsError::InvalidPdu)
        } else {
            None
        }),
        conclude::null_fault(seq![tag], other) == Some(MmsError::TruncatedPdu),
{
}

/// The tag of every PDU, and what goes under it.
pub proof fn law_pdu_octets(p: MmsPdu)
    ensures
        p@.octets() == (match p {
            MmsPdu::ConfirmedRequest(b) => ber::tlv(0xa0, buffer::frozen(b)),
            MmsPdu::ConfirmedResponse(b) => ber::tlv(0xa1, buffer::frozen(b)),
            MmsPdu::ConfirmedError(b) => ber::tlv(0xa2, buffer::frozen(b)),
            MmsPdu::Unconfirmed(b) => ber::tlv(0xa3, buffer::frozen(b)),
            MmsPdu::Reject(r) => r.octets(),
            MmsPdu::InitiateRequest(v) => v@.octets(0xa8),
            MmsPdu::InitiateResponse(v) => v@.octets(0xa9),
            MmsPdu::InitiateError(e) => ber::tlv(0xaa, e@.content()),
            MmsPdu::ConcludeRequest => seq![0x8bu8, 0x00],
            MmsPdu::ConcludeResponse => seq![0x8cu8, 0x00],
        }),
        p@.tag() == p@.octets()[0],
        match p {
            MmsPdu::ConfirmedRequest(b) => p@ == MmsPduView::ConfirmedRequest(buffer::frozen(b)),
            MmsPdu::ConfirmedResponse(b) => p@ == MmsPduView::ConfirmedResponse(buffer::frozen(b)),
            MmsPdu::ConfirmedError(b) => p@ == MmsPduView::ConfirmedError(buffer::frozen(b)),
            MmsPdu::Unconfirmed(b) => p@ == MmsPduView::Unconfirmed(buffer::frozen(b)),
            MmsPdu::Reject(r) => p@ == MmsPduView::Reject(r),
            MmsPdu::InitiateRequest(v) => p@ == MmsPduView::InitiateRequest(v@),
            MmsPdu::InitiateResponse(v) => p@ == MmsPduView::InitiateResponse(v@),
            MmsPdu::InitiateError(e) => p@ == MmsPduView::InitiateError(e@),
            MmsPdu::ConcludeRequest => p@ == MmsPduView::ConcludeRequest,
            MmsPdu::ConcludeResponse => p@ == MmsPduView::ConcludeResponse,
        },
{
    let none = Seq::<u8>::empty();
    assert(ber::tlv(0x8b, none) =~= seq![0x8bu8, 0x00]);
    assert(ber::tlv(0x8c, none) =~= seq![0x8cu8, 0x00]);
}

/// What a PDU decodes to, by its tag: the content as it is under 0xa0 to 0xa3, and what
/// the content is read as under the other tags. A tag that no PDU has is refused.
#[verifier::rlimit(40)]
pub proof fn law_pdu_decodes(tag: u8, val: Seq<u8>, rest: Seq<u8>)
    requires
        val.len() <= 0xffff,
    ensures
        ({
            let s = ber::tlv(tag, val) + rest;
            MmsPduView::parse(s) == (match tag {
                0xa0 => Ok::<MmsPduView, MmsError>(MmsPduView::ConfirmedRequest(val)),
                0xa1 => Ok(MmsPduView::ConfirmedResponse(val)),
                0xa2 => Ok(MmsPduView::ConfirmedError(val)),
                0xa3 => Ok(MmsPduView::Unconfirmed(val)),
                0xa4 => match RejectPdu::parse(s) {
                    Ok(r) => Ok(MmsPduView::Reject(r)),
                    Err(e) => Err(e),
                },
                0xa8 => match InitiateView::parse(s, 0xa8) {
                    Ok(v) => Ok(MmsPduView::InitiateRequest(v)),
                    Err(e) => Err(e),
                },
                0xa9 => match InitiateView::parse(s, 0xa9) {
                    Ok(v) => Ok(MmsPduView::InitiateResponse(v)),
                    Err(e) => Err(e),
                },
                0xaa => match ServiceErrorView::of_content(val) {
                    Ok(v) => Ok(MmsPduView::InitiateError(v)),
                    Err(e) => Err(e),
                },
                0x8b => if val.len() == 0 {
                    Ok(MmsPduView::ConcludeRequest)
                } else {
                    Err(MmsError::InvalidPdu)
                },
                0x8c => if val.len() == 0 {
                    Ok(MmsPduView::ConcludeResponse)
                } else {
                    Err(MmsError::InvalidPdu)
                },
                _ => Err(MmsError::UnknownMmsPduTag(tag)),
            })
        }),
        MmsPduView::parse(Seq::<u8>::empty()) == Err::<MmsPduView, MmsError>(
            MmsError::TruncatedPdu,
        ),
{
    ber::law_element_round_trip(tag, val, rest);
    let s = ber::tlv(tag, val) + rest;
    assert(s[0] == tag);
    assert(s[1] == asn1::length_octets(val.len())[0]);
}

} // verus!
