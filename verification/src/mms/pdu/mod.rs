//! The outermost MmsPdu CHOICE and its tag dispatch.
//!
//! ## Tag assignment
//!
//! | Variant                | BER tag  | Notes                       |
//! |------------------------|----------|-----------------------------|
//! | ConfirmedRequest       | `0xa0`   | `[0]` IMPLICIT SEQUENCE       |
//! | ConfirmedResponse      | `0xa1`   | `[1]` IMPLICIT SEQUENCE       |
//! | ConfirmedError         | `0xa2`   | `[2]` IMPLICIT SEQUENCE       |
//! | Unconfirmed            | `0xa3`   | `[3]` IMPLICIT SEQUENCE       |
//! | Reject                 | `0xa4`   | `[4]` IMPLICIT SEQUENCE       |
//! | InitiateRequest        | `0xa8`   | `[8]` IMPLICIT SEQUENCE       |
//! | InitiateResponse       | `0xa9`   | `[9]` IMPLICIT SEQUENCE       |
//! | InitiateError          | `0xaa`   | `[10]` IMPLICIT SEQUENCE      |
//! | ConcludeRequest        | `0x8b`   | `[11]` IMPLICIT primitive NULL |
//! | ConcludeResponse       | `0x8c`   | `[12]` IMPLICIT primitive NULL |
//!
//! Tags `[5]`, `[6]` and `[7]`, the cancel services, are not served: decoding one
//! returns `UnknownMmsPduTag`.
//!
//! `ConfirmedRequest`, `ConfirmedResponse`, `ConfirmedError` and `Unconfirmed` are
//! decoded only as far as their content bytes; the service layer parses those.
//! `Reject` is decoded in full into a `RejectPdu`.

use bytes::{Bytes, BytesMut};
use vstd::prelude::*;

pub mod access;
pub mod alternate_access;
pub mod ber;
pub mod common;
pub mod conclude;
pub mod confirmed;
pub mod data;
pub mod define_named_variable_list;
pub mod delete_named_variable_list;
pub mod get_name_list;
pub mod get_var_access_attrs;
pub mod information_report;
pub mod initiate;
pub mod integer;
pub mod object_name;
pub mod read;
pub mod read_journal;
pub mod reject;
pub mod service_error;
pub mod type_specification;
pub mod variable_access;

use crate::buffer;
use crate::mms::error::MmsError;
use crate::mms::pdu::ber::{put_tlv, take_element, Tlv};

pub use crate::mms::pdu::common::{
    AccessResult,
    AlternateAccess,
    AlternateAccessSelector,
    DataAccessError,
    ListOfVariableEntry,
    MmsData,
    ObjectName,
    VariableAccessSpecification,
    WriteOutcome,
    MAX_DATA_NESTING_DEPTH,
    MAX_IDENTIFIER_LEN,
};
pub use crate::mms::pdu::conclude::{ConcludeRequestPdu, ConcludeResponsePdu};
pub use crate::mms::pdu::define_named_variable_list::{
    decode_confirmed_define_named_variable_list_request,
    decode_confirmed_define_named_variable_list_response,
    encode_confirmed_define_named_variable_list_request,
    encode_confirmed_define_named_variable_list_response,
    DefineNamedVariableEntry,
    DefineNamedVariableListRequest,
    DefineNamedVariableListResponse,
    MAX_DEFINE_ENTRIES,
    SERVICE_TAG_DEFINE_NAMED_VARIABLE_LIST,
};
pub use crate::mms::pdu::delete_named_variable_list::{
    decode_confirmed_delete_named_variable_list_request,
    decode_confirmed_delete_named_variable_list_response,
    encode_confirmed_delete_named_variable_list_request,
    encode_confirmed_delete_named_variable_list_response,
    DeleteNamedVariableListRequest,
    DeleteNamedVariableListResponse,
    ScopeOfDelete,
    SERVICE_TAG_DELETE_NAMED_VARIABLE_LIST,
};
pub use crate::mms::pdu::get_name_list::{
    decode_confirmed_get_name_list_request,
    decode_confirmed_get_name_list_response,
    encode_confirmed_get_name_list_request,
    encode_confirmed_get_name_list_response,
    GetNameListRequest,
    GetNameListResponse,
    ObjectClass,
    ObjectScope,
    SERVICE_TAG_GET_NAME_LIST,
};
pub use crate::mms::pdu::get_var_access_attrs::{
    decode_confirmed_get_var_access_attrs_request,
    decode_confirmed_get_var_access_attrs_response,
    encode_confirmed_get_var_access_attrs_request,
    encode_confirmed_get_var_access_attrs_response,
    GetVariableAccessAttributesRequest,
    GetVariableAccessAttributesResponse,
    SERVICE_TAG_GET_VAR_ACCESS_ATTRS,
};
pub use crate::mms::pdu::information_report::{
    encode_command_termination_negative,
    encode_command_termination_positive,
    encode_information_report,
    encode_last_appl_error_struct,
    LastApplErrorRef,
    OriginRef,
};
pub use crate::mms::pdu::initiate::{
    InitRequestDetail,
    InitResponseDetail,
    InitiateErrorPdu,
    InitiateRequestPdu,
    InitiateResponsePdu,
    InitiateView,
    DEFAULT_MAX_PDU_SIZE,
    DEFAULT_MAX_SERV_OUTSTANDING_CALLED,
    DEFAULT_MAX_SERV_OUTSTANDING_CALLING,
    DEFAULT_PARAMETER_CBB_CLIENT,
    DEFAULT_SERVICES_SUPPORTED_CLIENT,
};
pub use crate::mms::pdu::read::{
    decode_confirmed_read_request,
    decode_confirmed_read_response,
    encode_confirmed_read_request,
    encode_confirmed_read_response,
    ReadRequest,
    ReadResponse,
    SERVICE_TAG_READ,
};
pub use crate::mms::pdu::read_journal::{
    decode_confirmed_read_journal_request,
    decode_confirmed_read_journal_response,
    encode_confirmed_read_journal_request,
    encode_confirmed_read_journal_response,
    JournalRange,
    ReadJournalRequest,
    ReadJournalResponse,
    WireJournalEntry,
    WireJournalVariable,
    ENTRY_ID_SIZE,
    SERVICE_TAG_READ_JOURNAL,
};
pub use crate::mms::pdu::reject::{
    ConcludeErrorRejectReason,
    ConcludeRequestRejectReason,
    ConcludeResponseRejectReason,
    ConfirmedErrorRejectReason,
    ConfirmedRequestRejectReason,
    ConfirmedResponseRejectReason,
    PduErrorRejectReason,
    RejectPdu,
    RejectReason,
    UnconfirmedPduRejectReason,
};
pub use crate::mms::pdu::service_error::{
    encode_confirmed_error_pdu,
    ErrorClass,
    ServiceError,
    ServiceErrorView,
};
pub use crate::mms::pdu::type_specification::{
    StructComponent,
    TypeSpecification,
    MAX_TYPE_SPEC_DEPTH,
};

verus! {

broadcast use ber::group_element_sizes;

/// Outermost tag of a ConfirmedRequestPdu, MmsPdu `[0]`.
pub const TAG_CONFIRMED_REQUEST: u8 = 0xa0;

/// Outermost tag of a ConfirmedResponsePdu, MmsPdu `[1]`.
pub const TAG_CONFIRMED_RESPONSE: u8 = 0xa1;

/// Outermost tag of a ConfirmedErrorPDU, MmsPdu `[2]`.
pub const TAG_CONFIRMED_ERROR: u8 = 0xa2;

/// Outermost tag of an UnconfirmedPDU, MmsPdu `[3]`.
pub const TAG_UNCONFIRMED: u8 = 0xa3;

/// Outermost tag of a RejectPDU, MmsPdu `[4]`.
pub const TAG_REJECT: u8 = 0xa4;

/// Outermost tag of an InitiateRequestPdu, MmsPdu `[8]`.
pub const TAG_INITIATE_REQUEST: u8 = 0xa8;

/// Outermost tag of an InitiateResponsePdu, MmsPdu `[9]`.
pub const TAG_INITIATE_RESPONSE: u8 = 0xa9;

/// Outermost tag of an InitiateErrorPdu, MmsPdu `[10]`.
pub const TAG_INITIATE_ERROR: u8 = 0xaa;

/// Outermost tag of a ConcludeRequestPDU, MmsPdu `[11]`.
pub const TAG_CONCLUDE_REQUEST: u8 = 0x8b;

/// Outermost tag of a ConcludeResponsePDU, MmsPdu `[12]`.
pub const TAG_CONCLUDE_RESPONSE: u8 = 0x8c;

/// The outermost MMS PDU CHOICE.
///
/// `ConfirmedRequest`, `ConfirmedResponse`, `ConfirmedError` and `Unconfirmed` carry
/// their content as raw bytes for the service layer to parse. `Reject` is decoded in
/// full into a `RejectPdu`.
#[derive(Debug, Clone, PartialEq, Eq)]
pub enum MmsPdu {
    /// `[0]` `0xa0`: ConfirmedRequestPdu, as raw content bytes.
    ConfirmedRequest(Bytes),
    /// `[1]` `0xa1`: ConfirmedResponsePdu, as raw content bytes.
    ConfirmedResponse(Bytes),
    /// `[2]` `0xa2`: ConfirmedErrorPDU, as raw content bytes.
    ConfirmedError(Bytes),
    /// `[3]` `0xa3`: UnconfirmedPDU, as raw content bytes.
    Unconfirmed(Bytes),
    /// `[4]` `0xa4`: RejectPDU, decoded in full.
    Reject(RejectPdu),
    /// `[8]` `0xa8`: InitiateRequestPdu, decoded in full.
    InitiateRequest(InitiateRequestPdu),
    /// `[9]` `0xa9`: InitiateResponsePdu, decoded in full.
    InitiateResponse(InitiateResponsePdu),
    /// `[10]` `0xaa`: InitiateErrorPdu, decoded in full.
    InitiateError(InitiateErrorPdu),
    /// `[11]` `0x8b`: ConcludeRequestPDU, with an empty body.
    ConcludeRequest,
    /// `[12]` `0x8c`: ConcludeResponsePDU, with an empty body.
    ConcludeResponse,
}

/// An MmsPdu with its bytes and texts in view.
#[verifier::ext_equal]
pub enum MmsPduView {
    /// ConfirmedRequestPdu.
    ConfirmedRequest(Seq<u8>),
    /// ConfirmedResponsePdu.
    ConfirmedResponse(Seq<u8>),
    /// ConfirmedErrorPDU.
    ConfirmedError(Seq<u8>),
    /// UnconfirmedPDU.
    Unconfirmed(Seq<u8>),
    /// RejectPDU.
    Reject(RejectPdu),
    /// InitiateRequestPdu.
    InitiateRequest(InitiateView),
    /// InitiateResponsePdu.
    InitiateResponse(InitiateView),
    /// InitiateErrorPdu.
    InitiateError(ServiceErrorView),
    /// ConcludeRequestPDU.
    ConcludeRequest,
    /// ConcludeResponsePDU.
    ConcludeResponse,
}

impl View for MmsPdu {
    type V = MmsPduView;

    open spec fn view(&self) -> MmsPduView {
        match *self {
            MmsPdu::ConfirmedRequest(b) => MmsPduView::ConfirmedRequest(buffer::frozen(b)),
            MmsPdu::ConfirmedResponse(b) => MmsPduView::ConfirmedResponse(buffer::frozen(b)),
            MmsPdu::ConfirmedError(b) => MmsPduView::ConfirmedError(buffer::frozen(b)),
            MmsPdu::Unconfirmed(b) => MmsPduView::Unconfirmed(buffer::frozen(b)),
            MmsPdu::Reject(p) => MmsPduView::Reject(p),
            MmsPdu::InitiateRequest(p) => MmsPduView::InitiateRequest(p@),
            MmsPdu::InitiateResponse(p) => MmsPduView::InitiateResponse(p@),
            MmsPdu::InitiateError(p) => MmsPduView::InitiateError(p@),
            MmsPdu::ConcludeRequest => MmsPduView::ConcludeRequest,
            MmsPdu::ConcludeResponse => MmsPduView::ConcludeResponse,
        }
    }
}

impl MmsPduView {
    /// The outermost tag.
    pub open spec fn tag(self) -> u8 {
        match self {
            MmsPduView::ConfirmedRequest(_) => 0xa0,
            MmsPduView::ConfirmedResponse(_) => 0xa1,
            MmsPduView::ConfirmedError(_) => 0xa2,
            MmsPduView::Unconfirmed(_) => 0xa3,
            MmsPduView::Reject(_) => 0xa4,
            MmsPduView::InitiateRequest(_) => 0xa8,
            MmsPduView::InitiateResponse(_) => 0xa9,
            MmsPduView::InitiateError(_) => 0xaa,
            MmsPduView::ConcludeRequest => 0x8b,
            MmsPduView::ConcludeResponse => 0x8c,
        }
    }

    /// The content under the outermost tag.
    pub open spec fn content(self) -> Seq<u8> {
        match self {
            MmsPduView::ConfirmedRequest(b) => b,
            MmsPduView::ConfirmedResponse(b) => b,
            MmsPduView::ConfirmedError(b) => b,
            MmsPduView::Unconfirmed(b) => b,
            MmsPduView::Reject(p) => p.content(),
            MmsPduView::InitiateRequest(p) => p.content(),
            MmsPduView::InitiateResponse(p) => p.content(),
            MmsPduView::InitiateError(p) => p.content(),
            MmsPduView::ConcludeRequest => Seq::empty(),
            MmsPduView::ConcludeResponse => Seq::empty(),
        }
    }

    /// The encoding of the PDU.
    pub open spec fn octets(self) -> Seq<u8> {
        ber::tlv(self.tag(), self.content())
    }

    /// The PDU at the start of `s`.
    pub open spec fn parse(s: Seq<u8>) -> Result<MmsPduView, MmsError> {
        if s.len() == 0 {
            Err(MmsError::TruncatedPdu)
        } else if 0xa0 <= s[0] <= 0xa3 {
            match ber::element_at(s) {
                Err(e) => Err(e),
                Ok(e) => Ok(
                    if s[0] == 0xa0 {
                        MmsPduView::ConfirmedRequest(e.val)
                    } else if s[0] == 0xa1 {
                        MmsPduView::ConfirmedResponse(e.val)
                    } else if s[0] == 0xa2 {
                        MmsPduView::ConfirmedError(e.val)
                    } else {
                        MmsPduView::Unconfirmed(e.val)
                    },
                ),
            }
        } else if s[0] == 0xa4 {
            match RejectPdu::parse(s) {
                Err(e) => Err(e),
                Ok(p) => Ok(MmsPduView::Reject(p)),
            }
        } else if s[0] == 0xa8 {
            match InitiateView::parse(s, 0xa8) {
                Err(e) => Err(e),
                Ok(p) => Ok(MmsPduView::InitiateRequest(p)),
            }
        } else if s[0] == 0xa9 {
            match InitiateView::parse(s, 0xa9) {
                Err(e) => Err(e),
                Ok(p) => Ok(MmsPduView::InitiateResponse(p)),
            }
        } else if s[0] == 0xaa {
            match initiate::initiate_error_at(s) {
                Err(e) => Err(e),
                Ok(p) => Ok(MmsPduView::InitiateError(p)),
            }
        } else if s[0] == 0x8b {
            match conclude::null_fault(s, 0x8b) {
                Some(e) => Err(e),
                None => Ok(MmsPduView::ConcludeRequest),
            }
        } else if s[0] == 0x8c {
            match conclude::null_fault(s, 0x8c) {
                Some(e) => Err(e),
                None => Ok(MmsPduView::ConcludeResponse),
            }
        } else {
            Err(MmsError::UnknownMmsPduTag(s[0]))
        }
    }

    /// The PDU can be written and read back: its content has at most 0xffff octets, and
    /// what is decoded in full is within its limits.
    pub open spec fn readable(self) -> bool {
        &&& self.content().len() <= 0xffff
        &&& match self {
            MmsPduView::InitiateRequest(p) => p.readable(),
            MmsPduView::InitiateResponse(p) => p.readable(),
            MmsPduView::InitiateError(p) => p.additional_description matches Some(t)
                ==> crate::text::utf8(t).len() <= 0xff,
            _ => true,
        }
    }
}

impl MmsPdu {
    /// Returns the outermost tag byte of this variant.
    pub fn tag_byte(&self) -> (tag: u8)
        ensures
            tag == self@.tag(),
    {
        match self {
            MmsPdu::ConfirmedRequest(_) => TAG_CONFIRMED_REQUEST,
            MmsPdu::ConfirmedResponse(_) => TAG_CONFIRMED_RESPONSE,
            MmsPdu::ConfirmedError(_) => TAG_CONFIRMED_ERROR,
            MmsPdu::Unconfirmed(_) => TAG_UNCONFIRMED,
            MmsPdu::Reject(_) => TAG_REJECT,
            MmsPdu::InitiateRequest(_) => TAG_INITIATE_REQUEST,
            MmsPdu::InitiateResponse(_) => TAG_INITIATE_RESPONSE,
            MmsPdu::InitiateError(_) => TAG_INITIATE_ERROR,
            MmsPdu::ConcludeRequest => TAG_CONCLUDE_REQUEST,
            MmsPdu::ConcludeResponse => TAG_CONCLUDE_RESPONSE,
        }
    }

    /// Encodes the PDU into `buf`.
    ///
    /// The Initiate variants delegate to their own encoders, the Conclude variants
    /// write their fixed two bytes, `Reject` delegates to `RejectPdu::encode`, which
    /// already writes the outer `0xa4`, and the raw-content variants are wrapped in
    /// their tag and length again.
    pub fn encode(&self, buf: &mut BytesMut)
        requires
            buffer::contents(*old(buf)).len() + self@.octets().len() <= isize::MAX,
        ensures
            buffer::contents(*final(buf)) == buffer::contents(*old(buf)) + self@.octets(),
    {
        match self {
            MmsPdu::ConfirmedRequest(inner) => put_tlv(TAG_CONFIRMED_REQUEST, inner, buf),
            MmsPdu::ConfirmedResponse(inner) => put_tlv(TAG_CONFIRMED_RESPONSE, inner, buf),
            MmsPdu::ConfirmedError(inner) => put_tlv(TAG_CONFIRMED_ERROR, inner, buf),
            MmsPdu::Unconfirmed(inner) => put_tlv(TAG_UNCONFIRMED, inner, buf),
            MmsPdu::Reject(pdu) => pdu.encode(buf),
            MmsPdu::InitiateRequest(pdu) => pdu.encode(buf),
            MmsPdu::InitiateResponse(pdu) => pdu.encode(buf),
            MmsPdu::InitiateError(pdu) => pdu.encode(buf),
            MmsPdu::ConcludeRequest => {
                ConcludeRequestPdu.encode(buf);
                proof {
                    lemma_null_octets(0x8b);
                }
            },
            MmsPdu::ConcludeResponse => {
                ConcludeResponsePdu.encode(buf);
                proof {
                    lemma_null_octets(0x8c);
                }
            },
        }
    }

    /// Decodes a PDU; `data` starts at the first tag byte.
    ///
    /// The Confirmed and Unconfirmed variants keep their content as raw bytes, `Reject`
    /// is decoded into a `RejectPdu`, and the Initiate and Conclude variants are
    /// decoded in full.
    ///
    /// An unrecognized tag returns `MmsError::UnknownMmsPduTag`.
    pub fn decode(data: &[u8]) -> (r: Result<Self, MmsError>)
        ensures
            ber::agrees(r, MmsPduView::parse(data@)),
    {
        if data.len() == 0 {
            return Err(MmsError::TruncatedPdu);
        }
        match data[0] {
            TAG_CONFIRMED_REQUEST => {
                let inner: Bytes = extract_inner_bytes(data)?;
                Ok(MmsPdu::ConfirmedRequest(inner))
            },
            TAG_CONFIRMED_RESPONSE => {
                let inner: Bytes = extract_inner_bytes(data)?;
                Ok(MmsPdu::ConfirmedResponse(inner))
            },
            TAG_CONFIRMED_ERROR => {
                let inner: Bytes = extract_inner_bytes(data)?;
                Ok(MmsPdu::ConfirmedError(inner))
            },
            TAG_UNCONFIRMED => {
                let inner: Bytes = extract_inner_bytes(data)?;
                Ok(MmsPdu::Unconfirmed(inner))
            },
            TAG_REJECT => {
                let pdu: RejectPdu = RejectPdu::decode(data)?;
                Ok(MmsPdu::Reject(pdu))
            },
            TAG_INITIATE_REQUEST => {
                let pdu: InitiateRequestPdu = InitiateRequestPdu::decode(data)?;
                Ok(MmsPdu::InitiateRequest(pdu))
            },
            TAG_INITIATE_RESPONSE => {
                let pdu: InitiateResponsePdu = InitiateResponsePdu::decode(data)?;
                Ok(MmsPdu::InitiateResponse(pdu))
            },
            TAG_INITIATE_ERROR => {
                let pdu: InitiateErrorPdu = InitiateErrorPdu::decode(data)?;
                Ok(MmsPdu::InitiateError(pdu))
            },
            TAG_CONCLUDE_REQUEST => {
                ConcludeRequestPdu::decode(data)?;
                Ok(MmsPdu::ConcludeRequest)
            },
            TAG_CONCLUDE_RESPONSE => {
                ConcludeResponsePdu::decode(data)?;
                Ok(MmsPdu::ConcludeResponse)
            },
            // the cancel services, tags [5], [6] and [7], are among these
            unknown => Err(MmsError::UnknownMmsPduTag(unknown)),
        }
    }
}

/// Returns the content of a TLV as `Bytes`; `data` starts at the tag byte.
fn extract_inner_bytes(data: &[u8]) -> (r: Result<Bytes, MmsError>)
    ensures
        match ber::element_at(data@) {
            Err(e) => r == Err::<Bytes, MmsError>(e),
            Ok(e) => r matches Ok(b) && buffer::frozen(b) == e.val,
        },
{
    assert(data@.skip(0) =~= data@);
    let t: Tlv = take_element(data, 0)?;
    Ok(Bytes::copy_from_slice(t.val))
}

/// An element with no content is its tag and a length of 0.
proof fn lemma_null_octets(tag: u8)
    ensures
        ber::tlv(tag, Seq::empty()) == seq![tag, 0x00u8],
{
    assert(ber::tlv(tag, Seq::empty()) =~= seq![tag, 0x00u8]);
}

/// A readable PDU decodes to itself, whatever follows it.
pub proof fn law_pdu_round_trip(p: MmsPduView, rest: Seq<u8>)
    requires
        p.readable(),
    ensures
        MmsPduView::parse(p.octets() + rest) == Ok::<MmsPduView, MmsError>(p),
{
    let s = p.octets() + rest;
    ber::law_element_round_trip(p.tag(), p.content(), rest);
    match p {
        MmsPduView::Reject(r) => reject::law_reject_round_trip(r, rest),
        MmsPduView::InitiateRequest(v) => initiate::law_initiate_round_trip(v, 0xa8, rest),
        MmsPduView::InitiateResponse(v) => initiate::law_initiate_round_trip(v, 0xa9, rest),
        MmsPduView::InitiateError(e) => initiate::law_initiate_error_round_trip(e, rest),
        MmsPduView::ConcludeRequest => {
            lemma_null_octets(0x8b);
            conclude::law_conclude_round_trip(0x8b, 0x8b, rest);
        },
        MmsPduView::ConcludeResponse => {
            lemma_null_octets(0x8c);
            conclude::law_conclude_round_trip(0x8c, 0x8c, rest);
        },
        _ => {},
    }
}

/// What decodes starts with the tag of its variant.
pub proof fn law_pdu_tag(s: Seq<u8>)
    ensures
        MmsPduView::parse(s) matches Ok(p) ==> s.len() > 0 && p.tag() == s[0],
{
}

} // verus!
