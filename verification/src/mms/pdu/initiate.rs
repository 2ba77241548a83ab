//! InitiateRequest, InitiateResponse and InitiateError PDUs.
//!
//! ## BIT STRING encoding
//!
//! The first content byte of a BIT STRING is the number of unused bits, and the
//! data follows it.
//! - `parameterCBB` is 11 bits with 5 unused, so the content is `0x05 0xf1 0x00`,
//!   three bytes including the padding byte.
//! - `servicesSupported` is 85 bits with 3 unused, so the content is `0x03`
//!   followed by 11 data bytes, twelve bytes in all.
//!
//! A decoder that forgets to skip the padding byte shifts
//! the services bitmap by one byte. This one reads the padding byte
//! first and only then the data.
//!
//! Deliberate behaviors:
//!
//! - A `parameterCBB` whose length is not 3 returns
//!   `MmsError::InvalidParameterCbbLength` rather than being ignored.
//! - A `dataStructureNestingLevel` above `MAX_NESTING_LEVEL` returns an error
//!   rather than being accepted as proposed.

use bytes::BytesMut;
use vstd::prelude::*;

use crate::buffer;
use crate::mms::error::MmsError;
use crate::mms::pdu::ber;
use crate::mms::pdu::ber::{put_tlv, take_content, take_element, take_short, Tlv};
use crate::mms::pdu::integer;
use crate::mms::pdu::integer::{decode_uint, uint_minimal};
use crate::mms::pdu::service_error;
use crate::mms::pdu::service_error::{ErrorClass, ServiceError, ServiceErrorView};
use crate::text;

verus! {

broadcast use ber::group_element_sizes;

/// Default maximum PDU size in bytes.
pub const DEFAULT_MAX_PDU_SIZE: u32 = 65000;

/// Default maximum number of outstanding requests the caller may issue.
pub const DEFAULT_MAX_SERV_OUTSTANDING_CALLING: u16 = 5;

/// Default maximum number of outstanding requests the called party may issue.
pub const DEFAULT_MAX_SERV_OUTSTANDING_CALLED: u16 = 5;

/// Default maximum data structure nesting level.
pub const DEFAULT_DATA_STRUCTURE_NESTING_LEVEL: u8 = 10;

/// Decode ceiling for dataStructureNestingLevel, which bounds nesting depth.
/// A proposed value above this is rejected rather than accepted.
pub const MAX_NESTING_LEVEL: u8 = 32;

/// MMS protocol version number, fixed at 1.
pub const MMS_VERSION_NUMBER: u8 = 1;

/// Default client parameterCBB, a BIT STRING including its padding byte.
/// Three bytes: padding 5 and data 0xf1 0x00, covering str1, str2, vnam, valt and vlis.
pub const DEFAULT_PARAMETER_CBB_CLIENT: [u8; 3] = [0x05, 0xf1, 0x00];

/// Default client servicesSupported: 85 bits carried in 11 data bytes.
pub const DEFAULT_SERVICES_SUPPORTED_CLIENT: [u8; 11] = [
    0xee,
    0x1c,
    0x00,
    0x00,
    0x04,
    0x08,
    0x00,
    0x00,
    0x79,
    0xef,
    0x18,
];

/// Padding for the servicesSupported BIT STRING: 8 * 11 - 85 = 3 unused bits.
const SERVICES_SUPPORTED_PADDING: u8 = 3;

/// MMS `InitRequestDetail`, field 5 of `InitiateRequestPdu`, tag `[4]` SEQUENCE.
///
/// Wire format of the content; the enclosing `0xa4` is written by
/// `InitiateRequestPdu::encode`:
/// ```text
/// 0x80 0x01 0x01              -- proposedVersionNumber [0], fixed at 1
/// 0x81 0x03 0x05 0xf1 0x00    -- proposedParameterCBB [1] BIT STRING, 11 bits
/// 0x82 0x0c 0x03 <11 bytes>   -- servicesSupportedCalling [2] BIT STRING, 85 bits
/// ```
#[derive(Debug, Clone, Copy, PartialEq, Eq)]
pub struct InitRequestDetail {
    /// MMS version number, fixed at 1.
    pub proposed_version_number: u16,
    /// parameterCBB BIT STRING: 11 bits in three bytes, padding byte included.
    pub proposed_parameter_cbb: [u8; 3],
    /// servicesSupportedCalling BIT STRING: 85 bits in 11 data bytes.
    pub services_supported_calling: [u8; 11],
}

/// MMS `InitResponseDetail`, field 5 of `InitiateResponsePdu`, tag `[4]` SEQUENCE.
///
/// Structurally identical to `InitRequestDetail`; the fields carry the values the
/// responder negotiated.
#[derive(Debug, Clone, Copy, PartialEq, Eq)]
pub struct InitResponseDetail {
    /// Negotiated version number: the proposed version, or the local minimum.
    pub negotiated_version_number: u16,
    /// negotiatedParameterCBB, the bitwise AND of both capability sets.
    pub negotiated_parameter_cbb: [u8; 3],
    /// servicesSupportedCalled, the services the responder announces.
    pub services_supported_called: [u8; 11],
}

/// What a request detail and a response detail both hold.
#[verifier::ext_equal]
pub struct DetailView {
    /// The version number.
    pub version: u16,
    /// The parameterCBB octets, padding octet included.
    pub parameter_cbb: Seq<u8>,
    /// The services octets, without the padding octet.
    pub services: Seq<u8>,
}

impl View for InitRequestDetail {
    type V = DetailView;

    open spec fn view(&self) -> DetailView {
        DetailView {
            version: self.proposed_version_number,
            parameter_cbb: self.proposed_parameter_cbb@,
            services: self.services_supported_calling@,
        }
    }
}

impl View for InitResponseDetail {
    type V = DetailView;

    open spec fn view(&self) -> DetailView {
        DetailView {
            version: self.negotiated_version_number,
            parameter_cbb: self.negotiated_parameter_cbb@,
            services: self.services_supported_called@,
        }
    }
}

/// One field of a detail; a later field replaces an earlier one, and others are skipped.
pub open spec fn detail_field(acc: DetailView, tag: u8, val: Seq<u8>) -> Result<
    DetailView,
    MmsError,
> {
    if tag == 0x80 {
        if val.len() == 0 {
            Err(MmsError::InvalidLength)
        } else {
            Ok(DetailView { version: val[0] as u16, ..acc })
        }
    } else if tag == 0x81 {
        if val.len() != 3 {
            Err(MmsError::InvalidParameterCbbLength { actual: val.len() as usize })
        } else {
            Ok(DetailView { parameter_cbb: val, ..acc })
        }
    } else if tag == 0x82 {
        if val.len() != 12 {
            Err(MmsError::InvalidServicesSupportedLength { actual: val.len() as usize })
        } else {
            Ok(DetailView { services: val.skip(1), ..acc })
        }
    } else {
        Ok(acc)
    }
}

/// `detail_field` as a step over the elements.
pub open spec fn detail_fields() -> spec_fn(DetailView, u8, Seq<u8>) -> Result<
    DetailView,
    MmsError,
> {
    |acc: DetailView, tag: u8, val: Seq<u8>| detail_field(acc, tag, val)
}

impl DetailView {
    /// What a detail holds where no field says otherwise.
    pub open spec fn default_view() -> DetailView {
        DetailView {
            version: 1,
            parameter_cbb: seq![0x05, 0xf1, 0x00],
            services: seq![
                0xee,
                0x1c,
                0x00,
                0x00,
                0x04,
                0x08,
                0x00,
                0x00,
                0x79,
                0xef,
                0x18,
            ],
        }
    }

    /// The encoding of the detail: the low 8 bits of the version, the parameterCBB, and
    /// the services behind their padding octet.
    pub open spec fn content(self) -> Seq<u8> {
        ber::short_tlv(0x80, seq![(self.version % 256) as u8]) + ber::short_tlv(
            0x81,
            self.parameter_cbb,
        ) + ber::short_tlv(0x82, seq![0x03u8] + self.services)
    }

    /// The detail that fills `s`.
    pub open spec fn of_content(s: Seq<u8>) -> Result<DetailView, MmsError> {
        ber::short_fold(s, DetailView::default_view(), detail_fields())
    }
}

/// Writes a detail.
fn put_detail(version: u16, cbb: &[u8; 3], services: &[u8; 11], buf: &mut BytesMut)
    requires
        buffer::contents(*old(buf)).len() + 22 <= isize::MAX,
    ensures
        buffer::contents(*final(buf)) == buffer::contents(*old(buf)) + (DetailView {
            version,
            parameter_cbb: cbb@,
            services: services@,
        }).content(),
{
    // [0] version number
    buf.extend_from_slice(&[0x80, 0x01, (version % 256) as u8]);
    // [1] parameterCBB, a BIT STRING of three bytes including padding
    buf.extend_from_slice(&[0x81, 0x03]);
    buf.extend_from_slice(cbb);
    // [2] services, a BIT STRING of 12 bytes: padding plus 11 data
    buf.extend_from_slice(&[0x82, 0x0c, SERVICES_SUPPORTED_PADDING]);
    buf.extend_from_slice(services);
    proof {
        let d = DetailView { version, parameter_cbb: cbb@, services: services@ };
        assert(buffer::contents(*buf) =~= buffer::contents(*old(buf)) + d.content());
    }
}

/// Reads a detail: the version, the parameterCBB and the services.
fn take_detail(data: &[u8]) -> (r: Result<(u16, [u8; 3], [u8; 11]), MmsError>)
    ensures
        match DetailView::of_content(data@) {
            Ok(d) => r matches Ok((v, c, s)) && d == (DetailView {
                version: v,
                parameter_cbb: c@,
                services: s@,
            }),
            Err(e) => r == Err::<(u16, [u8; 3], [u8; 11]), MmsError>(e),
        },
{
    let mut pos: usize = 0;
    let mut version: u16 = 1;
    let mut cbb: [u8; 3] = DEFAULT_PARAMETER_CBB_CLIENT;
    let mut services: [u8; 11] = DEFAULT_SERVICES_SUPPORTED_CLIENT;
    let ghost steps = detail_fields();
    proof {
        assert(data@.skip(0) =~= data@);
        assert(DetailView::default_view() =~= DetailView {
            version,
            parameter_cbb: cbb@,
            services: services@,
        });
    }
    while pos < data.len()
        invariant
            pos <= data.len(),
            steps == detail_fields(),
            DetailView::of_content(data@) == ber::short_fold(
                data@.skip(pos as int),
                DetailView { version, parameter_cbb: cbb@, services: services@ },
                steps,
            ),
        decreases data.len() - pos,
    {
        let t: Tlv = take_short(data, pos)?;
        let val: &[u8] = t.val;
        let ghost acc = DetailView { version, parameter_cbb: cbb@, services: services@ };
        assert(steps(acc, t.tag, val@) == detail_field(acc, t.tag, val@));
        match t.tag {
            0x80 => {
                if val.len() == 0 {
                    return Err(MmsError::InvalidLength);
                }
                version = val[0] as u16;
            },
            0x81 => {
                if val.len() != 3 {
                    return Err(MmsError::InvalidParameterCbbLength { actual: val.len() });
                }
                cbb = [val[0], val[1], val[2]];
                assert(cbb@ =~= val@);
            },
            0x82 => {
                if val.len() != 12 {
                    return Err(MmsError::InvalidServicesSupportedLength { actual: val.len() });
                }
                // val[0] is the padding count, expected 3, and the data follows it.
                services = [
                    val[1],
                    val[2],
                    val[3],
                    val[4],
                    val[5],
                    val[6],
                    val[7],
                    val[8],
                    val[9],
                    val[10],
                    val[11],
                ];
                assert(services@ =~= val@.skip(1));
            },
            _ => {},
        }
        pos = pos + t.size;
    }
    Ok((version, cbb, services))
}

impl Default for InitRequestDetail {
    fn default() -> (r: Self)
        ensures
            r@ == DetailView::default_view(),
    {
        let r = InitRequestDetail {
            proposed_version_number: 1,
            proposed_parameter_cbb: DEFAULT_PARAMETER_CBB_CLIENT,
            services_supported_calling: DEFAULT_SERVICES_SUPPORTED_CLIENT,
        };
        assert(r@ =~= DetailView::default_view());
        r
    }
}

impl InitRequestDetail {
    /// Encodes the content of an InitRequestDetail; the caller writes `0xa4 <len>`.
    pub fn encode_inner(&self, buf: &mut BytesMut)
        requires
            buffer::contents(*old(buf)).len() + self@.content().len() <= isize::MAX,
        ensures
            buffer::contents(*final(buf)) == buffer::contents(*old(buf)) + self@.content(),
    {
        put_detail(
            self.proposed_version_number,
            &self.proposed_parameter_cbb,
            &self.services_supported_calling,
            buf,
        );
    }

    /// Decodes InitRequestDetail content; `data` is the content of the `0xa4` field.
    ///
    /// A parameterCBB whose length is not 3 returns an error rather than being ignored.
    pub fn decode_inner(data: &[u8]) -> (r: Result<Self, MmsError>)
        ensures
            ber::agrees(r, DetailView::of_content(data@)),
    {
        let (version, cbb, services) = take_detail(data)?;
        Ok(
            InitRequestDetail {
                proposed_version_number: version,
                proposed_parameter_cbb: cbb,
                services_supported_calling: services,
            },
        )
    }
}

impl Default for InitResponseDetail {
    fn default() -> (r: Self)
        ensures
            r@ == DetailView::default_view(),
    {
        let r = InitResponseDetail {
            negotiated_version_number: 1,
            negotiated_parameter_cbb: DEFAULT_PARAMETER_CBB_CLIENT,
            services_supported_called: DEFAULT_SERVICES_SUPPORTED_CLIENT,
        };
        assert(r@ =~= DetailView::default_view());
        r
    }
}

impl InitResponseDetail {
    /// Encodes the content of an InitResponseDetail; the caller writes `0xa4 <len>`.
    pub fn encode_inner(&self, buf: &mut BytesMut)
        requires
            buffer::contents(*old(buf)).len() + self@.content().len() <= isize::MAX,
        ensures
            buffer::contents(*final(buf)) == buffer::contents(*old(buf)) + self@.content(),
    {
        put_detail(
            self.negotiated_version_number,
            &self.negotiated_parameter_cbb,
            &self.services_supported_called,
            buf,
        );
    }

    /// Decodes InitResponseDetail content.
    ///
    /// A parameterCBB whose length is not 3 returns an error rather than being ignored.
    pub fn decode_inner(data: &[u8]) -> (r: Result<Self, MmsError>)
        ensures
            ber::agrees(r, DetailView::of_content(data@)),
    {
        let (version, cbb, services) = take_detail(data)?;
        Ok(
            InitResponseDetail {
                negotiated_version_number: version,
                negotiated_parameter_cbb: cbb,
                services_supported_called: services,
            },
        )
    }
}

/// MMS `InitiateRequestPdu`, MmsPdu `[8]`, tag `0xa8`.
#[derive(Debug, Clone, Copy, PartialEq, Eq)]
pub struct InitiateRequestPdu {
    /// `[0]` localDetailCalling, OPTIONAL: the largest PDU the caller accepts, in bytes.
    pub local_detail_calling: Option<u32>,
    /// `[1]` proposedMaxServOutstandingCalling: outstanding requests the caller may issue.
    pub proposed_max_serv_outstanding_calling: u16,
    /// `[2]` proposedMaxServOutstandingCalled: outstanding requests the peer may issue.
    pub proposed_max_serv_outstanding_called: u16,
    /// `[3]` proposedDataStructureNestingLevel, OPTIONAL: the maximum nesting depth.
    pub proposed_data_structure_nesting_level: Option<u8>,
    /// `[4]` mmsInitRequestDetail: version number and announced capabilities.
    pub init_request_detail: InitRequestDetail,
}

/// MMS `InitiateResponsePdu`, MmsPdu `[9]`, tag `0xa9`.
///
/// Structurally identical to the request; the fields carry the negotiated values.
#[derive(Debug, Clone, Copy, PartialEq, Eq)]
pub struct InitiateResponsePdu {
    /// `[0]` localDetailCalled, OPTIONAL: the largest PDU the responder accepts.
    pub local_detail_called: Option<u32>,
    /// `[1]` negotiatedMaxServOutstandingCalling.
    pub negotiated_max_serv_outstanding_calling: u16,
    /// `[2]` negotiatedMaxServOutstandingCalled.
    pub negotiated_max_serv_outstanding_called: u16,
    /// `[3]` negotiatedDataStructureNestingLevel, OPTIONAL.
    pub negotiated_data_structure_nesting_level: Option<u8>,
    /// `[4]` mmsInitResponseDetail.
    pub init_response_detail: InitResponseDetail,
}

/// What an InitiateRequest and an InitiateResponse both hold.
#[verifier::ext_equal]
pub struct InitiateView {
    /// `[0]` the largest PDU the sender accepts.
    pub local_detail: Option<u32>,
    /// `[1]` outstanding requests of the caller.
    pub calling: u16,
    /// `[2]` outstanding requests of the called party.
    pub called: u16,
    /// `[3]` the maximum nesting depth.
    pub nesting_level: Option<u8>,
    /// `[4]` version number and capabilities.
    pub detail: DetailView,
}

/// What has been read of an Initiate PDU.
#[verifier::ext_equal]
pub struct InitiateFields {
    /// `[0]` the largest PDU the sender accepts.
    pub local_detail: Option<u32>,
    /// `[1]` outstanding requests of the caller.
    pub calling: Option<u16>,
    /// `[2]` outstanding requests of the called party.
    pub called: Option<u16>,
    /// `[3]` the maximum nesting depth.
    pub nesting_level: Option<u8>,
    /// `[4]` version number and capabilities.
    pub detail: Option<DetailView>,
}

impl View for InitiateRequestPdu {
    type V = InitiateView;

    open spec fn view(&self) -> InitiateView {
        InitiateView {
            local_detail: self.local_detail_calling,
            calling: self.proposed_max_serv_outstanding_calling,
            called: self.proposed_max_serv_outstanding_called,
            nesting_level: self.proposed_data_structure_nesting_level,
            detail: self.init_request_detail@,
        }
    }
}

impl View for InitiateResponsePdu {
    type V = InitiateView;

    open spec fn view(&self) -> InitiateView {
        InitiateView {
            local_detail: self.local_detail_called,
            calling: self.negotiated_max_serv_outstanding_calling,
            called: self.negotiated_max_serv_outstanding_called,
            nesting_level: self.negotiated_data_structure_nesting_level,
            detail: self.init_response_detail@,
        }
    }
}

/// The low 16 bits of an unsigned number of at most 32 bits.
pub open spec fn outstanding_at(val: Seq<u8>) -> Result<u16, MmsError> {
    match integer::uint32_at(val) {
        Err(e) => Err(e),
        Ok(v) => Ok((v % 0x1_0000) as u16),
    }
}

/// A nesting level of at most `MAX_NESTING_LEVEL`, in the first octet.
pub open spec fn nesting_level_at(val: Seq<u8>) -> Result<u8, MmsError> {
    if val.len() == 0 {
        Err(MmsError::InvalidLength)
    } else if val[0] > MAX_NESTING_LEVEL {
        Err(MmsError::NestingLevelExceeded { max: MAX_NESTING_LEVEL, got: val[0] })
    } else {
        Ok(val[0])
    }
}

/// One field of an Initiate PDU; a later field replaces an earlier one, and others are
/// skipped.
pub open spec fn initiate_field(acc: InitiateFields, tag: u8, val: Seq<u8>) -> Result<
    InitiateFields,
    MmsError,
> {
    if tag == 0x80 {
        match integer::uint32_at(val) {
            Err(e) => Err(e),
            Ok(v) => Ok(InitiateFields { local_detail: Some(v), ..acc }),
        }
    } else if tag == 0x81 {
        match outstanding_at(val) {
            Err(e) => Err(e),
            Ok(v) => Ok(InitiateFields { calling: Some(v), ..acc }),
        }
    } else if tag == 0x82 {
        match outstanding_at(val) {
            Err(e) => Err(e),
            Ok(v) => Ok(InitiateFields { called: Some(v), ..acc }),
        }
    } else if tag == 0x83 {
        match nesting_level_at(val) {
            Err(e) => Err(e),
            Ok(v) => Ok(InitiateFields { nesting_level: Some(v), ..acc }),
        }
    } else if tag == 0xa4 {
        match DetailView::of_content(val) {
            Err(e) => Err(e),
            Ok(d) => Ok(InitiateFields { detail: Some(d), ..acc }),
        }
    } else {
        Ok(acc)
    }
}

/// `initiate_field` as a step over the elements.
pub open spec fn initiate_fields() -> spec_fn(InitiateFields, u8, Seq<u8>) -> Result<
    InitiateFields,
    MmsError,
> {
    |acc: InitiateFields, tag: u8, val: Seq<u8>| initiate_field(acc, tag, val)
}

impl InitiateView {
    /// The values that an initiator proposes by default.
    pub open spec fn default_view() -> InitiateView {
        InitiateView {
            local_detail: Some(DEFAULT_MAX_PDU_SIZE),
            calling: DEFAULT_MAX_SERV_OUTSTANDING_CALLING,
            called: DEFAULT_MAX_SERV_OUTSTANDING_CALLED,
            nesting_level: Some(DEFAULT_DATA_STRUCTURE_NESTING_LEVEL),
            detail: DetailView::default_view(),
        }
    }

    /// The encoding of `[0]`, where it is present.
    pub open spec fn local_detail_octets(self) -> Seq<u8> {
        match self.local_detail {
            Some(v) => ber::tlv(0x80, integer::uint_octets(v as nat)),
            None => Seq::empty(),
        }
    }

    /// The encoding of `[3]`, where it is present.
    pub open spec fn nesting_level_octets(self) -> Seq<u8> {
        match self.nesting_level {
            Some(v) => ber::tlv(0x83, seq![v]),
            None => Seq::empty(),
        }
    }

    /// The content of the encoding, the fields in order.
    pub open spec fn content(self) -> Seq<u8> {
        self.local_detail_octets() + (ber::tlv(0x81, integer::uint_octets(self.calling as nat)) + (
        ber::tlv(0x82, integer::uint_octets(self.called as nat)) + (self.nesting_level_octets()
            + ber::tlv(0xa4, self.detail.content()))))
    }

    /// The encoding under the tag of the PDU.
    pub open spec fn octets(self, tag: u8) -> Seq<u8> {
        ber::tlv(tag, self.content())
    }

    /// Nothing has been read.
    pub open spec fn no_fields() -> InitiateFields {
        InitiateFields {
            local_detail: None,
            calling: None,
            called: None,
            nesting_level: None,
            detail: None,
        }
    }

    /// The PDU that fields make: those numbered 1, 2 and 4 must be there.
    pub open spec fn of_fields(f: InitiateFields) -> Result<InitiateView, MmsError> {
        match (f.calling, f.called, f.detail) {
            (Some(calling), Some(called), Some(detail)) => Ok(
                InitiateView {
                    local_detail: f.local_detail,
                    calling,
                    called,
                    nesting_level: f.nesting_level,
                    detail,
                },
            ),
            _ => Err(MmsError::TruncatedPdu),
        }
    }

    /// The PDU with this content.
    pub open spec fn of_content(s: Seq<u8>) -> Result<InitiateView, MmsError> {
        match ber::fold(s, InitiateView::no_fields(), initiate_fields()) {
            Err(e) => Err(e),
            Ok(f) => InitiateView::of_fields(f),
        }
    }

    /// The PDU at the start of `s`, which must have this tag.
    pub open spec fn parse(s: Seq<u8>, tag: u8) -> Result<InitiateView, MmsError> {
        match ber::tagged_at(s, tag) {
            Err(e) => Err(e),
            Ok(e) => InitiateView::of_content(e.val),
        }
    }

    /// The PDU can be written and read back: the version fits in an octet, the nesting
    /// level is within the ceiling, and the bit strings have their lengths.
    pub open spec fn readable(self) -> bool {
        &&& self.detail.version <= 0xff
        &&& self.detail.parameter_cbb.len() == 3
        &&& self.detail.services.len() == 11
        &&& self.nesting_level matches Some(v) ==> v <= MAX_NESTING_LEVEL
    }
}

/// The fields of an Initiate PDU as they are read.
struct Fields {
    local_detail: Option<u32>,
    calling: Option<u16>,
    called: Option<u16>,
    nesting_level: Option<u8>,
    detail: Option<(u16, [u8; 3], [u8; 11])>,
}

impl View for Fields {
    type V = InitiateFields;

    closed spec fn view(&self) -> InitiateFields {
        InitiateFields {
            local_detail: self.local_detail,
            calling: self.calling,
            called: self.called,
            nesting_level: self.nesting_level,
            detail: match self.detail {
                Some((version, cbb, services)) => Some(
                    DetailView { version, parameter_cbb: cbb@, services: services@ },
                ),
                None => None,
            },
        }
    }
}

/// Reads the fields of an Initiate PDU.
fn take_fields(data: &[u8]) -> (r: Result<Fields, MmsError>)
    ensures
        ber::agrees(r, ber::fold(data@, InitiateView::no_fields(), initiate_fields())),
{
    let mut f = Fields {
        local_detail: None,
        calling: None,
        called: None,
        nesting_level: None,
        detail: None,
    };
    let mut pos: usize = 0;
    let ghost steps = initiate_fields();
    assert(data@.skip(0) =~= data@);
    while pos < data.len()
        invariant
            pos <= data.len(),
            steps == initiate_fields(),
            ber::fold(data@, InitiateView::no_fields(), steps) == ber::fold(
                data@.skip(pos as int),
                f@,
                steps,
            ),
        decreases data.len() - pos,
    {
        let t: Tlv = take_element(data, pos)?;
        let val: &[u8] = t.val;
        assert(steps(f@, t.tag, val@) == initiate_field(f@, t.tag, val@));
        match t.tag {
            0x80 => {
                f.local_detail = Some(decode_uint(val)?);
            },
            0x81 => {
                let v: u32 = decode_uint(val)?;
                f.calling = Some((v % 0x1_0000) as u16);
            },
            0x82 => {
                let v: u32 = decode_uint(val)?;
                f.called = Some((v % 0x1_0000) as u16);
            },
            0x83 => {
                if val.len() == 0 {
                    return Err(MmsError::InvalidLength);
                }
                let level: u8 = val[0];
                // a level above MAX_NESTING_LEVEL is rejected
                if level > MAX_NESTING_LEVEL {
                    return Err(
                        MmsError::NestingLevelExceeded { max: MAX_NESTING_LEVEL, got: level },
                    );
                }
                f.nesting_level = Some(level);
            },
            0xa4 => {
                f.detail = Some(take_detail(val)?);
            },
            _ => {},
        }
        pos = pos + t.size;
    }
    Ok(f)
}

/// The encoding of the fields of an Initiate PDU, detail excepted.
spec fn head_octets(v: InitiateView) -> Seq<u8> {
    v.local_detail_octets() + ber::tlv(0x81, integer::uint_octets(v.calling as nat)) + ber::tlv(
        0x82,
        integer::uint_octets(v.called as nat),
    ) + v.nesting_level_octets()
}

/// The fields and the detail make up the content.
proof fn lemma_content_parts(v: InitiateView)
    ensures
        head_octets(v) + ber::tlv(0xa4, v.detail.content()) == v.content(),
        head_octets(v).len() <= 30,
{
    if let Some(n) = v.local_detail {
        integer::law_uint32_round_trip(n);
    }
    integer::law_uint32_round_trip(v.calling as u32);
    integer::law_uint32_round_trip(v.called as u32);
    assert(head_octets(v) + ber::tlv(0xa4, v.detail.content()) =~= v.content());
}

/// Writes the fields of an Initiate PDU, detail excepted. Only these fields of `v` count.
fn put_fields(
    local_detail: Option<u32>,
    calling: u16,
    called: u16,
    nesting_level: Option<u8>,
    Ghost(v): Ghost<InitiateView>,
    buf: &mut BytesMut,
)
    requires
        buffer::contents(*old(buf)).len() + 30 <= isize::MAX,
        v.local_detail == local_detail,
        v.calling == calling,
        v.called == called,
        v.nesting_level == nesting_level,
    ensures
        buffer::contents(*final(buf)) == buffer::contents(*old(buf)) + head_octets(v),
{
    let ghost start = buffer::contents(*old(buf));
    proof {
        lemma_content_parts(v);
    }
    if let Some(size) = local_detail {
        put_tlv(0x80, &encode_uint32_minimal(size), buf);
    }
    assert(buffer::contents(*buf) =~= start + v.local_detail_octets());
    put_tlv(0x81, &encode_uint16_minimal(calling), buf);
    put_tlv(0x82, &encode_uint16_minimal(called), buf);
    let ghost middle = buffer::contents(*buf);
    if let Some(level) = nesting_level {
        let body: [u8; 1] = [level];
        assert(body@ =~= seq![level]);
        put_tlv(0x83, &body, buf);
    }
    assert(buffer::contents(*buf) =~= middle + v.nesting_level_octets());
    assert(buffer::contents(*buf) =~= start + head_octets(v));
}

impl Default for InitiateRequestPdu {
    fn default() -> (r: Self)
        ensures
            r@ == InitiateView::default_view(),
    {
        InitiateRequestPdu {
            local_detail_calling: Some(DEFAULT_MAX_PDU_SIZE),
            proposed_max_serv_outstanding_calling: DEFAULT_MAX_SERV_OUTSTANDING_CALLING,
            proposed_max_serv_outstanding_called: DEFAULT_MAX_SERV_OUTSTANDING_CALLED,
            proposed_data_structure_nesting_level: Some(DEFAULT_DATA_STRUCTURE_NESTING_LEVEL),
            init_request_detail: InitRequestDetail::default(),
        }
    }
}

impl InitiateRequestPdu {
    /// Encodes the PDU as BER, including the outer `0xa8 <len>` tag.
    pub fn encode(&self, buf: &mut BytesMut)
        requires
            buffer::contents(*old(buf)).len() + self@.octets(0xa8).len() <= isize::MAX,
        ensures
            buffer::contents(*final(buf)) == buffer::contents(*old(buf)) + self@.octets(0xa8),
    {
        let mut inner: BytesMut = BytesMut::new();
        self.encode_inner(&mut inner);
        assert(buffer::contents(inner) =~= self@.content());
        put_tlv(0xa8, &inner, buf);
    }

    fn encode_inner(&self, buf: &mut BytesMut)
        requires
            buffer::contents(*old(buf)).len() + 60 <= isize::MAX,
        ensures
            buffer::contents(*final(buf)) == buffer::contents(*old(buf)) + self@.content(),
    {
        proof {
            lemma_content_parts(self@);
        }
        put_fields(
            self.local_detail_calling,
            self.proposed_max_serv_outstanding_calling,
            self.proposed_max_serv_outstanding_called,
            self.proposed_data_structure_nesting_level,
            Ghost(self@),
            buf,
        );
        let mut detail: BytesMut = BytesMut::new();
        self.init_request_detail.encode_inner(&mut detail);
        assert(buffer::contents(detail) =~= self@.detail.content());
        put_tlv(0xa4, &detail, buf);
        assert(buffer::contents(*buf) =~= buffer::contents(*old(buf)) + (head_octets(self@)
            + ber::tlv(0xa4, self@.detail.content())));
    }

    /// Decodes the PDU; `data` starts at the `0xa8` byte.
    pub fn decode(data: &[u8]) -> (r: Result<Self, MmsError>)
        ensures
            ber::agrees(r, InitiateView::parse(data@, 0xa8)),
    {
        let inner: &[u8] = take_content(data, 0xa8)?;
        decode_initiate_request_inner(inner)
    }
}

fn decode_initiate_request_inner(data: &[u8]) -> (r: Result<InitiateRequestPdu, MmsError>)
    ensures
        ber::agrees(r, InitiateView::of_content(data@)),
{
    let f: Fields = take_fields(data)?;
    match (f.calling, f.called, f.detail) {
        (Some(calling), Some(called), Some((version, cbb, services))) => Ok(
            InitiateRequestPdu {
                local_detail_calling: f.local_detail,
                proposed_max_serv_outstanding_calling: calling,
                proposed_max_serv_outstanding_called: called,
                proposed_data_structure_nesting_level: f.nesting_level,
                init_request_detail: InitRequestDetail {
                    proposed_version_number: version,
                    proposed_parameter_cbb: cbb,
                    services_supported_calling: services,
                },
            },
        ),
        _ => Err(MmsError::TruncatedPdu),
    }
}

impl Default for InitiateResponsePdu {
    fn default() -> (r: Self)
        ensures
            r@ == InitiateView::default_view(),
    {
        InitiateResponsePdu {
            local_detail_called: Some(DEFAULT_MAX_PDU_SIZE),
            negotiated_max_serv_outstanding_calling: DEFAULT_MAX_SERV_OUTSTANDING_CALLING,
            negotiated_max_serv_outstanding_called: DEFAULT_MAX_SERV_OUTSTANDING_CALLED,
            negotiated_data_structure_nesting_level: Some(DEFAULT_DATA_STRUCTURE_NESTING_LEVEL),
            init_response_detail: InitResponseDetail::default(),
        }
    }
}

impl InitiateResponsePdu {
    /// Encodes the PDU, including the outer `0xa9 <len>` tag.
    pub fn encode(&self, buf: &mut BytesMut)
        requires
            buffer::contents(*old(buf)).len() + self@.octets(0xa9).len() <= isize::MAX,
        ensures
            buffer::contents(*final(buf)) == buffer::contents(*old(buf)) + self@.octets(0xa9),
    {
        let mut inner: BytesMut = BytesMut::new();
        self.encode_inner(&mut inner);
        assert(buffer::contents(inner) =~= self@.content());
        put_tlv(0xa9, &inner, buf);
    }

    fn encode_inner(&self, buf: &mut BytesMut)
        requires
            buffer::contents(*old(buf)).len() + 60 <= isize::MAX,
        ensures
            buffer::contents(*final(buf)) == buffer::contents(*old(buf)) + self@.content(),
    {
        proof {
            lemma_content_parts(self@);
        }
        put_fields(
            self.local_detail_called,
            self.negotiated_max_serv_outstanding_calling,
            self.negotiated_max_serv_outstanding_called,
            self.negotiated_data_structure_nesting_level,
            Ghost(self@),
            buf,
        );
        let mut detail: BytesMut = BytesMut::new();
        self.init_response_detail.encode_inner(&mut detail);
        assert(buffer::contents(detail) =~= self@.detail.content());
        put_tlv(0xa4, &detail, buf);
        assert(buffer::contents(*buf) =~= buffer::contents(*old(buf)) + (head_octets(self@)
            + ber::tlv(0xa4, self@.detail.content())));
    }

    /// Decodes the PDU; `data` starts at the `0xa9` byte.
    pub fn decode(data: &[u8]) -> (r: Result<Self, MmsError>)
        ensures
            ber::agrees(r, InitiateView::parse(data@, 0xa9)),
    {
        let inner: &[u8] = take_content(data, 0xa9)?;
        decode_initiate_response_inner(inner)
    }
}

fn decode_initiate_response_inner(data: &[u8]) -> (r: Result<InitiateResponsePdu, MmsError>)
    ensures
        ber::agrees(r, InitiateView::of_content(data@)),
{
    let f: Fields = take_fields(data)?;
    match (f.calling, f.called, f.detail) {
        (Some(calling), Some(called), Some((version, cbb, services))) => Ok(
            InitiateResponsePdu {
                local_detail_called: f.local_detail,
                negotiated_max_serv_outstanding_calling: calling,
                negotiated_max_serv_outstanding_called: called,
                negotiated_data_structure_nesting_level: f.nesting_level,
                init_response_detail: InitResponseDetail {
                    negotiated_version_number: version,
                    negotiated_parameter_cbb: cbb,
                    services_supported_called: services,
                },
            },
        ),
        _ => Err(MmsError::TruncatedPdu),
    }
}

/// MMS `InitiateErrorPdu`, MmsPdu `[10]`, tag `0xaa`.
///
/// The body is a `ServiceError` whose errorClass is initiate; the subcode is
/// normally 0, meaning other.
///
/// Wire format, outer `0xaa` included:
/// ```text
/// 0xaa 0x05          -- MmsPdu [10]
///   0xa0 0x03        -- errorClass [0] EXPLICIT
///     0x88 0x01 0x00 -- initiate [8] = 0, other
/// ```
#[derive(Debug, Clone, PartialEq, Eq)]
pub struct InitiateErrorPdu {
    /// ServiceError carried as the body of the PDU.
    pub service_error: ServiceError,
}

impl View for InitiateErrorPdu {
    type V = ServiceErrorView;

    open spec fn view(&self) -> ServiceErrorView {
        self.service_error@
    }
}

/// The InitiateError at the start of `s`.
pub open spec fn initiate_error_at(s: Seq<u8>) -> Result<ServiceErrorView, MmsError> {
    match ber::tagged_at(s, 0xaa) {
        Err(e) => Err(e),
        Ok(e) => ServiceErrorView::of_content(e.val),
    }
}

impl InitiateErrorPdu {
    /// Builds an InitiateErrorPdu with errorClass initiate and subcode `code`.
    ///
    /// Callers currently pass 0, meaning other.
    pub fn new(code: u8) -> (r: Self)
        ensures
            r.service_error == (ServiceError {
                error_class: ErrorClass::Initiate(code),
                additional_code: None,
                additional_description: None,
            }),
    {
        InitiateErrorPdu { service_error: ServiceError::new(ErrorClass::Initiate(code)) }
    }

    /// Encodes the PDU, including the outer `0xaa <len>` tag.
    pub fn encode(&self, buf: &mut BytesMut)
        requires
            buffer::contents(*old(buf)).len() + ber::tlv(0xaa, self@.content()).len()
                <= isize::MAX,
        ensures
            buffer::contents(*final(buf)) == buffer::contents(*old(buf)) + ber::tlv(
                0xaa,
                self@.content(),
            ),
    {
        let mut inner: BytesMut = BytesMut::new();
        self.service_error.encode_inner(&mut inner);
        assert(buffer::contents(inner) =~= self@.content());
        put_tlv(0xaa, &inner, buf);
    }

    /// Decodes the PDU; `data` starts at the `0xaa` byte.
    pub fn decode(data: &[u8]) -> (r: Result<Self, MmsError>)
        ensures
            ber::agrees(r, initiate_error_at(data@)),
    {
        let inner: &[u8] = take_content(data, 0xaa)?;
        let service_error: ServiceError = ServiceError::decode_inner(inner)?;
        Ok(InitiateErrorPdu { service_error })
    }
}

/// An InitiateError whose description is at most 255 bytes long decodes to itself,
/// whatever follows it.
pub proof fn law_initiate_error_round_trip(e: ServiceErrorView, rest: Seq<u8>)
    requires
        e.additional_description matches Some(t) ==> text::utf8(t).len() <= 0xff,
    ensures
        initiate_error_at(ber::tlv(0xaa, e.content()) + rest) == Ok::<ServiceErrorView, MmsError>(
            e,
        ),
{
    service_error::law_service_error_round_trip(e);
    if let Some(v) = e.additional_code {
        integer::lemma_sint_octets_width(v as int);
    }
    ber::law_element_round_trip(0xaa, e.content(), rest);
}

/// A detail with its version in an octet and bit strings of their lengths decodes to
/// itself.
pub proof fn law_detail_round_trip(d: DetailView)
    requires
        d.version <= 0xff,
        d.parameter_cbb.len() == 3,
        d.services.len() == 11,
    ensures
        DetailView::of_content(d.content()) == Ok::<DetailView, MmsError>(d),
        d.content().len() == 22,
{
    let steps = detail_fields();
    let v = seq![(d.version % 256) as u8];
    let s = seq![0x03u8] + d.services;
    let start = DetailView::default_view();
    let one = DetailView { version: d.version, ..start };
    let two = DetailView { parameter_cbb: d.parameter_cbb, ..one };
    let tail = ber::short_tlv(0x82, s);
    let mid = ber::short_tlv(0x81, d.parameter_cbb) + tail;
    assert(s.skip(1) =~= d.services);
    assert(steps(start, 0x80, v) == Ok::<DetailView, MmsError>(one));
    assert(steps(one, 0x81, d.parameter_cbb) == Ok::<DetailView, MmsError>(two));
    assert(steps(two, 0x82, s) == Ok::<DetailView, MmsError>(d));
    assert(d.content() =~= ber::short_tlv(0x80, v) + mid);
    ber::lemma_short_fold_tlv(0x80, v, mid, start, steps);
    ber::lemma_short_fold_tlv(0x81, d.parameter_cbb, tail, one, steps);
    ber::lemma_short_fold_tlv(0x82, s, Seq::empty(), two, steps);
    assert(tail + Seq::<u8>::empty() =~= tail);
    assert(ber::short_fold(Seq::<u8>::empty(), d, steps) == Ok::<DetailView, MmsError>(d));
}

/// An InitiateRequest or InitiateResponse decodes to itself, whatever follows it, while
/// its version fits in an octet and its nesting level is within the ceiling. It takes at
/// most 64 octets.
pub proof fn law_initiate_round_trip(v: InitiateView, tag: u8, rest: Seq<u8>)
    requires
        v.readable(),
    ensures
        InitiateView::parse(v.octets(tag) + rest, tag) == Ok::<InitiateView, MmsError>(v),
        v.octets(tag).len() <= 64,
{
    let steps = initiate_fields();
    let calling = integer::uint_octets(v.calling as nat);
    let called = integer::uint_octets(v.called as nat);
    let detail = v.detail.content();
    integer::law_uint32_round_trip(v.calling as u32);
    integer::law_uint32_round_trip(v.called as u32);
    law_detail_round_trip(v.detail);
    let s5 = ber::tlv(0xa4, detail);
    let s4 = v.nesting_level_octets() + s5;
    let s3 = ber::tlv(0x82, called) + s4;
    let s2 = ber::tlv(0x81, calling) + s3;
    let f0 = InitiateView::no_fields();
    let f1 = InitiateFields { local_detail: v.local_detail, ..f0 };
    let f2 = InitiateFields { calling: Some(v.calling), ..f1 };
    let f3 = InitiateFields { called: Some(v.called), ..f2 };
    let f4 = InitiateFields { nesting_level: v.nesting_level, ..f3 };
    let f5 = InitiateFields { detail: Some(v.detail), ..f4 };
    if let Some(n) = v.local_detail {
        let octets = integer::uint_octets(n as nat);
        integer::law_uint32_round_trip(n);
        assert(steps(f0, 0x80, octets) == Ok::<InitiateFields, MmsError>(f1));
        ber::lemma_fold_tlv(0x80, octets, s2, f0, steps);
    } else {
        assert(v.content() =~= s2);
    }
    assert(ber::fold(v.content(), f0, steps) == ber::fold(s2, f1, steps));
    assert(steps(f1, 0x81, calling) == Ok::<InitiateFields, MmsError>(f2));
    ber::lemma_fold_tlv(0x81, calling, s3, f1, steps);
    assert(steps(f2, 0x82, called) == Ok::<InitiateFields, MmsError>(f3));
    ber::lemma_fold_tlv(0x82, called, s4, f2, steps);
    if let Some(n) = v.nesting_level {
        assert(steps(f3, 0x83, seq![n]) == Ok::<InitiateFields, MmsError>(f4));
        ber::lemma_fold_tlv(0x83, seq![n], s5, f3, steps);
    } else {
        assert(s4 =~= s5);
    }
    assert(steps(f4, 0xa4, detail) == Ok::<InitiateFields, MmsError>(f5));
    ber::lemma_fold_last(0xa4, detail, f4, steps);
    ber::law_element_round_trip(tag, v.content(), rest);
}

/// A nesting level that decodes is at most the ceiling, whatever was proposed.
pub proof fn law_nesting_level_bounded(s: Seq<u8>, tag: u8)
    ensures
        InitiateView::parse(s, tag) matches Ok(v) ==> v.nesting_level matches Some(n) ==> n
            <= MAX_NESTING_LEVEL,
{
    if let Ok(e) = ber::tagged_at(s, tag) {
        lemma_fields_bounded(e.val, InitiateView::no_fields());
    }
}

proof fn lemma_fields_bounded(s: Seq<u8>, acc: InitiateFields)
    requires
        acc.nesting_level matches Some(n) ==> n <= MAX_NESTING_LEVEL,
    ensures
        ber::fold(s, acc, initiate_fields()) matches Ok(f) ==> f.nesting_level matches Some(n)
            ==> n <= MAX_NESTING_LEVEL,
    decreases s.len(),
{
    if s.len() > 0 {
        if let Ok(e) = ber::element_at(s) {
            let steps = initiate_fields();
            assert(steps(acc, e.tag, e.val) == initiate_field(acc, e.tag, e.val));
            if let Ok(next) = initiate_field(acc, e.tag, e.val) {
                lemma_fields_bounded(s.skip(e.size as int), next);
            }
        }
    }
}

/// Encodes a `u32` as a minimal-length big-endian BER INTEGER.
///
/// BER INTEGER is signed, so a leading 0x00 is prepended when the most significant
/// byte has its top bit set, keeping the value positive. For example 65000 is
/// 0x0000FDE8 and encodes as the three bytes `0x00 0xFD 0xE8`.
pub fn encode_uint32_minimal(val: u32) -> (r: Vec<u8>)
    ensures
        r@ == integer::uint_octets(val as nat),
{
    uint_minimal(val as u64)
}

/// Encodes a u16 as a minimal BER INTEGER, with the same leading zero as
/// `encode_uint32_minimal`.
fn encode_uint16_minimal(val: u16) -> (r: Vec<u8>)
    ensures
        r@ == integer::uint_octets(val as nat),
{
    uint_minimal(val as u64)
}

} // verus!
