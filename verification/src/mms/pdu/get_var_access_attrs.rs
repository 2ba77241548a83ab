//! MMS GetVariableAccessAttributes request and response PDUs.
//!
//! ## Wire format
//!
//! Request, ConfirmedServiceRequest CHOICE `[6]` EXPLICIT:
//! ```text
//! 0xa0 <len>          -- confirmedRequestPdu [0] IMPLICIT SEQUENCE
//!   0x02 <len> <id>   -- invokeID INTEGER
//!   0xa6 <len>        -- getVariableAccessAttributes [6] EXPLICIT
//!     0xa0 <len>      -- name [0] EXPLICIT, the request CHOICE
//!       <ObjectName>  -- domain-specific, vmd-specific or aa-specific
//! ```
//!
//! Response, ConfirmedServiceResponse CHOICE `[6]` IMPLICIT:
//! ```text
//! 0xa1 <len>          -- confirmedResponsePdu [1] IMPLICIT SEQUENCE
//!   0x02 <len> <id>   -- invokeID INTEGER
//!   0xa6 <len>        -- getVariableAccessAttributes [6] IMPLICIT SEQUENCE
//!     0x80 <1> 0x00   -- mmsDeletable [0] IMPLICIT BOOLEAN
//!     (0xa1 ... )     -- address [1] OPTIONAL, unused and skipped when decoding
//!     0xa2 <len>      -- typeSpecification [2] EXPLICIT
//!       <TypeSpec>    -- TypeSpecification CHOICE
//! ```
//!
//! The `[6]` tag is EXPLICIT in the request and IMPLICIT in the response, so the two
//! wrappers are not symmetric.
//!
//! ## Supported alternatives
//!
//! - The request CHOICE has a name `[0]` and an address `[1]` alternative. Only name is
//!   supported; an address request returns an error.
//! - mmsDeletable is decoded from the wire and encoded from the field value.

use bytes::BytesMut;
use vstd::prelude::*;

use crate::asn1;
use crate::asn1::effective_nesting_cap;
use crate::buffer;
use crate::mms::error::MmsError;
use crate::mms::pdu::ber;
use crate::mms::pdu::ber::{put_tlv, take_content, take_element, Tlv};
use crate::mms::pdu::confirmed;
use crate::mms::pdu::confirmed::{decode_confirmed_pdu_inner, put_confirmed};
use crate::mms::pdu::integer;
use crate::mms::pdu::object_name;
use crate::mms::pdu::object_name::{ObjectName, ObjectNameView};
use crate::mms::pdu::type_specification;
use crate::mms::pdu::type_specification::{
    TypeSpecification,
    TypeSpecificationView,
    MAX_TYPE_SPEC_DEPTH,
};
use crate::mms::pdu::variable_access::encode_variable_specification_name;

verus! {

broadcast use ber::group_element_sizes;

/// Service tag of GetVariableAccessAttributes in the ConfirmedService CHOICE.
///
/// In a request `0xa6` is CONTEXT `[6]` EXPLICIT CONSTRUCTED; in a response it is
/// CONTEXT `[6]` IMPLICIT CONSTRUCTED SEQUENCE.
pub const SERVICE_TAG_GET_VAR_ACCESS_ATTRS: u8 = 0xa6;

/// An MMS GetVariableAccessAttributesRequest.
///
/// Only the name `[0]` alternative is supported, naming a domain-specific,
/// vmd-specific or aa-specific object; an address `[1]` request returns an error.
///
/// ## VMD scope
///
/// `ObjectName::VmdSpecific(item_id)` selects the VMD scope, with no domain.
#[derive(Debug, Clone, PartialEq, Eq)]
pub struct GetVariableAccessAttributesRequest {
    /// Name of the object to query.
    pub object_name: ObjectName,
}

impl View for GetVariableAccessAttributesRequest {
    type V = ObjectNameView;

    open spec fn view(&self) -> ObjectNameView {
        self.object_name@
    }
}

/// The encoding of a request for the object with this name.
pub open spec fn request_octets(name: ObjectNameView) -> Seq<u8> {
    ber::tlv(SERVICE_TAG_GET_VAR_ACCESS_ATTRS, ber::tlv(0xa0, name.octets()))
}

/// The name that the request at the start of `s` asks for.
pub open spec fn request_at(s: Seq<u8>) -> Result<ObjectNameView, MmsError> {
    match ber::tagged_at(s, SERVICE_TAG_GET_VAR_ACCESS_ATTRS) {
        Err(e) => Err(e),
        Ok(e) => match ber::element_at(e.val) {
            Err(x) => Err(x),
            Ok(choice) => if choice.tag == 0xa0 {
                match ObjectNameView::parse(choice.val) {
                    Err(x) => Err(x),
                    Ok((name, _)) => Ok(name),
                }
            } else {
                Err(MmsError::InvalidPdu)
            },
        },
    }
}

impl GetVariableAccessAttributesRequest {
    /// Encodes the request, including the `0xa6 <len>` service wrapper.
    ///
    /// Wire format, where `[6]` is EXPLICIT on the request side:
    /// ```text
    /// 0xa6 <len>    -- [6] EXPLICIT service wrapper
    ///   0xa0 <len>  -- name [0] EXPLICIT, the CHOICE name alternative
    ///     <ObjectName>
    /// ```
    pub fn encode(&self, buf: &mut BytesMut)
        requires
            buffer::contents(*old(buf)).len() + request_octets(self@).len() <= isize::MAX,
        ensures
            buffer::contents(*final(buf)) == buffer::contents(*old(buf)) + request_octets(self@),
    {
        let mut name: BytesMut = BytesMut::new();
        encode_variable_specification_name(&self.object_name, &mut name);
        assert(buffer::contents(name) =~= ber::tlv(0xa0, self@.octets()));
        put_tlv(SERVICE_TAG_GET_VAR_ACCESS_ATTRS, &name, buf);
    }

    /// Decodes a request; `data` starts at the `0xa6` byte.
    pub fn decode(data: &[u8]) -> (r: Result<Self, MmsError>)
        ensures
            ber::agrees(r, request_at(data@)),
    {
        let inner: &[u8] = take_content(data, SERVICE_TAG_GET_VAR_ACCESS_ATTRS)?;
        decode_request_inner(inner)
    }
}

/// Decodes the request content, the name `[0]` or address `[1]` CHOICE.
fn decode_request_inner(data: &[u8]) -> (r: Result<GetVariableAccessAttributesRequest, MmsError>)
    ensures
        match ber::element_at(data@) {
            Err(x) => r == Err::<GetVariableAccessAttributesRequest, MmsError>(x),
            Ok(choice) => if choice.tag == 0xa0 {
                match ObjectNameView::parse(choice.val) {
                    Err(x) => r == Err::<GetVariableAccessAttributesRequest, MmsError>(x),
                    Ok((name, _)) => r matches Ok(q) && q@ == name,
                }
            } else {
                r == Err::<GetVariableAccessAttributesRequest, MmsError>(MmsError::InvalidPdu)
            },
        },
{
    assert(data@.skip(0) =~= data@);
    let t: Tlv = take_element(data, 0)?;
    match t.tag {
        // name [0] EXPLICIT, whose content is an ObjectName
        0xa0 => {
            let (object_name, _) = ObjectName::decode(t.val)?;
            Ok(GetVariableAccessAttributesRequest { object_name })
        },
        // address [1] is not supported
        _ => Err(MmsError::InvalidPdu),
    }
}

/// An MMS GetVariableAccessAttributesResponse.
///
/// ## mmsDeletable
///
/// Decoded from the wire and encoded from the field value.
///
/// ## address
///
/// The `[1]` address field is skipped when decoding and not retained.
#[derive(Debug, Clone, PartialEq, Eq)]
pub struct GetVariableAccessAttributesResponse {
    /// mmsDeletable `[0]` IMPLICIT BOOLEAN.
    pub mms_deletable: bool,
    /// typeSpecification `[2]` EXPLICIT TypeSpecification.
    pub type_specification: TypeSpecification,
}

/// A response with its type in view.
#[verifier::ext_equal]
pub struct AttributesView {
    /// mmsDeletable.
    pub mms_deletable: bool,
    /// typeSpecification.
    pub type_specification: TypeSpecificationView,
}

impl View for GetVariableAccessAttributesResponse {
    type V = AttributesView;

    open spec fn view(&self) -> AttributesView {
        AttributesView {
            mms_deletable: self.mms_deletable,
            type_specification: self.type_specification@,
        }
    }
}

/// What has been read of a response: the flag and the type.
pub type AttributesFields = (Option<bool>, Option<TypeSpecificationView>);

/// One field of a response, its type read under this ceiling; a later field replaces an
/// earlier one, and others are skipped.
pub open spec fn attributes_field(acc: AttributesFields, tag: u8, val: Seq<u8>, max: u8) -> Result<
    AttributesFields,
    MmsError,
> {
    if tag == 0x80 {
        if val.len() == 0 {
            Err(MmsError::InvalidLength)
        } else {
            Ok((Some(val[0] != 0), acc.1))
        }
    } else if tag == 0xa2 {
        match TypeSpecificationView::parse(val, 0, max as int) {
            Err(e) => Err(e),
            Ok((t, _)) => Ok((acc.0, Some(t))),
        }
    } else {
        Ok(acc)
    }
}

/// `attributes_field` as a step over the elements.
pub open spec fn attributes_fields(max: u8) -> spec_fn(AttributesFields, u8, Seq<u8>) -> Result<
    AttributesFields,
    MmsError,
> {
    |acc: AttributesFields, tag: u8, val: Seq<u8>| attributes_field(acc, tag, val, max)
}

impl AttributesView {
    /// The content of the service: the flag, then the type.
    pub open spec fn content(self) -> Seq<u8> {
        ber::tlv(
            0x80,
            seq![
                if self.mms_deletable {
                    0xffu8
                } else {
                    0x00u8
                },
            ],
        ) + ber::tlv(0xa2, self.type_specification.octets())
    }

    /// The encoding of the service.
    pub open spec fn octets(self) -> Seq<u8> {
        ber::tlv(SERVICE_TAG_GET_VAR_ACCESS_ATTRS, self.content())
    }

    /// The response that fields make: both must be there.
    pub open spec fn of_fields(f: AttributesFields) -> Result<AttributesView, MmsError> {
        match f {
            (Some(mms_deletable), Some(type_specification)) => Ok(
                AttributesView { mms_deletable, type_specification },
            ),
            _ => Err(MmsError::TruncatedPdu),
        }
    }

    /// The response at the start of `s`, its type read under this ceiling.
    pub open spec fn parse(s: Seq<u8>, max: u8) -> Result<AttributesView, MmsError> {
        match ber::tagged_at(s, SERVICE_TAG_GET_VAR_ACCESS_ATTRS) {
            Err(e) => Err(e),
            Ok(e) => match ber::fold(e.val, (None, None), attributes_fields(max)) {
                Err(x) => Err(x),
                Ok(f) => AttributesView::of_fields(f),
            },
        }
    }
}

impl GetVariableAccessAttributesResponse {
    /// Encodes the response, including the `0xa6 <len>` service wrapper.
    ///
    /// Wire format, where `[6]` is an IMPLICIT SEQUENCE on the response side:
    /// ```text
    /// 0xa6 <len>          -- [6] IMPLICIT SEQUENCE
    ///   0x80 0x01 0x00    -- mmsDeletable [0] IMPLICIT BOOLEAN
    ///   0xa2 <len>        -- typeSpecification [2] EXPLICIT
    ///     <TypeSpec>
    /// ```
    ///
    /// A type with an unsupported tag returns `MmsError::UnknownTypeSpecTag`; `buf` then
    /// stays as it was.
    pub fn encode(&self, buf: &mut BytesMut) -> (r: Result<(), MmsError>)
        requires
            buffer::contents(*old(buf)).len() + self@.octets().len() <= isize::MAX,
        ensures
            match self@.type_specification.unknown() {
                Some(tag) => r == Err::<(), MmsError>(MmsError::UnknownTypeSpecTag(tag))
                    && buffer::contents(*final(buf)) == buffer::contents(*old(buf)),
                None => r is Ok && buffer::contents(*final(buf)) == buffer::contents(*old(buf))
                    + self@.octets(),
            },
    {
        let mut ts: BytesMut = BytesMut::new();
        self.type_specification.encode(&mut ts)?;
        assert(buffer::contents(ts) =~= self@.type_specification.octets());
        let mut inner: BytesMut = BytesMut::new();
        let flag: [u8; 1] = [
            if self.mms_deletable {
                0xff
            } else {
                0x00
            },
        ];
        put_tlv(0x80, &flag, &mut inner);
        put_tlv(0xa2, &ts, &mut inner);
        assert(flag@ =~= seq![
            if self.mms_deletable {
                0xffu8
            } else {
                0x00u8
            },
        ]);
        assert(buffer::contents(inner) =~= self@.content());
        put_tlv(SERVICE_TAG_GET_VAR_ACCESS_ATTRS, &inner, buf);
        Ok(())
    }

    /// Decodes a response; `data` starts at the `0xa6` byte.
    ///
    /// The local ceiling `MAX_TYPE_SPEC_DEPTH` bounds TypeSpecification recursion.
    /// Use `decode_with_negotiated_cap` to apply a negotiated nesting level as well.
    pub fn decode(data: &[u8]) -> (r: Result<Self, MmsError>)
        ensures
            ber::agrees(r, AttributesView::parse(data@, MAX_TYPE_SPEC_DEPTH)),
    {
        Self::decode_inner_from_service_tag(data, MAX_TYPE_SPEC_DEPTH)
    }

    /// Decodes a response under the negotiated `dataStructureNestingLevel`.
    ///
    /// The effective ceiling is the smaller of `MAX_TYPE_SPEC_DEPTH` and the
    /// negotiated value; `None` falls back to the local ceiling, which is the case
    /// before negotiation completes.
    pub fn decode_with_negotiated_cap(data: &[u8], negotiated: Option<u8>) -> (r: Result<
        Self,
        MmsError,
    >)
        ensures
            ber::agrees(
                r,
                AttributesView::parse(data@, asn1::nesting_cap(MAX_TYPE_SPEC_DEPTH, negotiated)),
            ),
    {
        let max_depth: u8 = effective_nesting_cap(MAX_TYPE_SPEC_DEPTH, negotiated);
        Self::decode_inner_from_service_tag(data, max_depth)
    }

    fn decode_inner_from_service_tag(data: &[u8], max_depth: u8) -> (r: Result<Self, MmsError>)
        ensures
            ber::agrees(r, AttributesView::parse(data@, max_depth)),
    {
        let inner: &[u8] = take_content(data, SERVICE_TAG_GET_VAR_ACCESS_ATTRS)?;
        decode_response_inner(inner, max_depth)
    }
}

spec fn opt_type(t: Option<TypeSpecification>) -> Option<TypeSpecificationView> {
    match t {
        Some(x) => Some(x@),
        None => None,
    }
}

/// Decodes the response content: mmsDeletable and typeSpecification.
///
/// `max_depth` is the effective ceiling for TypeSpecification recursion.
fn decode_response_inner(data: &[u8], max_depth: u8) -> (r: Result<
    GetVariableAccessAttributesResponse,
    MmsError,
>)
    ensures
        match ber::fold(data@, (None, None), attributes_fields(max_depth)) {
            Err(x) => r == Err::<GetVariableAccessAttributesResponse, MmsError>(x),
            Ok(f) => ber::agrees(r, AttributesView::of_fields(f)),
        },
{
    let mut pos: usize = 0;
    let mut mms_deletable: Option<bool> = None;
    let mut type_specification: Option<TypeSpecification> = None;
    let ghost steps = attributes_fields(max_depth);
    assert(data@.skip(0) =~= data@);
    while pos < data.len()
        invariant
            pos <= data.len(),
            steps == attributes_fields(max_depth),
            ber::fold(data@, (None, None), steps) == ber::fold(
                data@.skip(pos as int),
                (mms_deletable, opt_type(type_specification)),
                steps,
            ),
        decreases data.len() - pos,
    {
        let t: Tlv = take_element(data, pos)?;
        let ghost acc: AttributesFields = (mms_deletable, opt_type(type_specification));
        assert(steps(acc, t.tag, t.val@) == attributes_field(acc, t.tag, t.val@, max_depth));
        match t.tag {
            // mmsDeletable [0] IMPLICIT BOOLEAN
            0x80 => {
                if t.val.len() == 0 {
                    return Err(MmsError::InvalidLength);
                }
                mms_deletable = Some(t.val[0] != 0);
            },
            // typeSpecification [2] EXPLICIT, decoded under the effective ceiling
            0xa2 => {
                let (ts, _) = TypeSpecification::decode_with_max(t.val, max_depth)?;
                type_specification = Some(ts);
            },
            // address [1] OPTIONAL is unused and skipped, as is an unknown field
            _ => {},
        }
        pos = pos + t.size;
    }
    match (mms_deletable, type_specification) {
        (Some(mms_deletable), Some(type_specification)) => Ok(
            GetVariableAccessAttributesResponse { mms_deletable, type_specification },
        ),
        _ => Err(MmsError::TruncatedPdu),
    }
}

/// A request for a name with identifiers of at most 64 bytes decodes to itself, whatever
/// follows it.
pub proof fn law_attributes_request_round_trip(name: ObjectNameView, rest: Seq<u8>)
    requires
        name.within_limit(),
    ensures
        request_at(request_octets(name) + rest) == Ok::<ObjectNameView, MmsError>(name),
        request_octets(name).len() <= 150,
{
    object_name::law_object_name_round_trip(name, Seq::empty());
    assert(name.octets() + Seq::<u8>::empty() =~= name.octets());
    ber::lemma_element_alone(0xa0, name.octets());
    ber::law_element_round_trip(
        SERVICE_TAG_GET_VAR_ACCESS_ATTRS,
        ber::tlv(0xa0, name.octets()),
        rest,
    );
}

/// A response with a supported type that nests no deeper than the ceiling, and a
/// content of at most 0xffff octets, decodes to itself, whatever follows it.
pub proof fn law_attributes_response_round_trip(r: AttributesView, max: u8, rest: Seq<u8>)
    requires
        r.type_specification.fits(max as int),
        r.type_specification.unknown() is None,
        r.content().len() <= 0xffff,
    ensures
        AttributesView::parse(r.octets() + rest, max) == Ok::<AttributesView, MmsError>(r),
{
    let steps = attributes_fields(max);
    let flag = seq![
        if r.mms_deletable {
            0xffu8
        } else {
            0x00u8
        },
    ];
    let ts = r.type_specification.octets();
    let start: AttributesFields = (None, None);
    let flagged: AttributesFields = (Some(r.mms_deletable), None);
    ber::law_element_round_trip(SERVICE_TAG_GET_VAR_ACCESS_ATTRS, r.content(), rest);
    type_specification::law_type_round_trip(r.type_specification, Seq::empty(), 0, max as int);
    assert(ts + Seq::<u8>::empty() =~= ts);
    assert(steps(start, 0x80, flag) == Ok::<AttributesFields, MmsError>(flagged));
    assert(steps(flagged, 0xa2, ts) == Ok::<AttributesFields, MmsError>(
        (Some(r.mms_deletable), Some(r.type_specification)),
    ));
    ber::lemma_fold_tlv(0x80, flag, ber::tlv(0xa2, ts), start, steps);
    ber::lemma_fold_last(0xa2, ts, flagged, steps);
}

/// Under the negotiated nesting level the ceiling is the smaller of that level and the local
/// one. A response with a supported type, and a content of at most 0xffff octets, decodes to
/// itself exactly when its type nests fewer levels than the ceiling. Otherwise the error names
/// the ceiling both as the limit and as the level reached.
pub proof fn law_attributes_nesting(r: AttributesView, negotiated: Option<u8>, rest: Seq<u8>)
    requires
        r.type_specification.unknown() is None,
        r.content().len() <= 0xffff,
    ensures
        ({
            let max = asn1::nesting_cap(MAX_TYPE_SPEC_DEPTH, negotiated);
            &&& max == (match negotiated {
                Some(n) if n < 32 => n,
                _ => 32u8,
            })
            &&& AttributesView::parse(r.octets() + rest, max) == (
            if r.type_specification.nest() < max {
                Ok::<AttributesView, MmsError>(r)
            } else {
                Err(MmsError::NestingLevelExceeded { max, got: max })
            })
        }),
{
    let max = asn1::nesting_cap(MAX_TYPE_SPEC_DEPTH, negotiated);
    let ts = r.type_specification;
    if ts.nest() < max {
        type_specification::lemma_nest_fits(ts, max as int);
        law_attributes_response_round_trip(r, max, rest);
    } else {
        let steps = attributes_fields(max);
        let flag = seq![
            if r.mms_deletable {
                0xffu8
            } else {
                0x00u8
            },
        ];
        let start: AttributesFields = (None, None);
        let flagged: AttributesFields = (Some(r.mms_deletable), None);
        let error = MmsError::NestingLevelExceeded { max, got: max };
        ber::law_element_round_trip(SERVICE_TAG_GET_VAR_ACCESS_ATTRS, r.content(), rest);
        type_specification::law_type_nesting(ts, Seq::empty(), 0, max as int);
        assert(ts.octets() + Seq::<u8>::empty() =~= ts.octets());
        assert(steps(start, 0x80, flag) == Ok::<AttributesFields, MmsError>(flagged));
        assert(steps(flagged, 0xa2, ts.octets()) == Err::<AttributesFields, MmsError>(error));
        ber::lemma_fold_tlv(0x80, flag, ber::tlv(0xa2, ts.octets()), start, steps);
        ber::lemma_fold_last(0xa2, ts.octets(), flagged, steps);
    }
}

/// Without a negotiated nesting level, or with one of 32 and more, the local ceiling applies
/// alone: the response is what it is without negotiation.
pub proof fn law_attributes_local_ceiling(s: Seq<u8>, negotiated: Option<u8>)
    requires
        negotiated matches Some(n) ==> n >= 32,
    ensures
        AttributesView::parse(s, asn1::nesting_cap(MAX_TYPE_SPEC_DEPTH, negotiated))
            == AttributesView::parse(s, MAX_TYPE_SPEC_DEPTH),
{
}

/// Encodes the request as a complete ConfirmedRequestPdu, outer `0xa0` tag included.
///
/// Wire format:
/// ```text
/// 0xa0 <len>          -- confirmedRequestPdu [0]
///   0x02 <len> <id>   -- invokeID
///   0xa6 <len>        -- GetVariableAccessAttributesRequest, [6] EXPLICIT
/// ```
pub fn encode_confirmed_get_var_access_attrs_request(
    invoke_id: u32,
    req: &GetVariableAccessAttributesRequest,
    buf: &mut BytesMut,
)
    requires
        buffer::contents(*old(buf)).len() + confirmed::confirmed_octets(
            0xa0,
            invoke_id,
            request_octets(req@),
        ).len() <= isize::MAX,
    ensures
        buffer::contents(*final(buf)) == buffer::contents(*old(buf)) + confirmed::confirmed_octets(
            0xa0,
            invoke_id,
            request_octets(req@),
        ),
{
    let mut service: BytesMut = BytesMut::new();
    req.encode(&mut service);
    assert(buffer::contents(service) =~= request_octets(req@));
    put_confirmed(0xa0, invoke_id, &service, buf);
}

/// Encodes the response as a complete ConfirmedResponsePdu, outer `0xa1` tag included.
///
/// A type with an unsupported tag returns `MmsError::UnknownTypeSpecTag`; `buf` then stays
/// as it was.
pub fn encode_confirmed_get_var_access_attrs_response(
    invoke_id: u32,
    resp: &GetVariableAccessAttributesResponse,
    buf: &mut BytesMut,
) -> (r: Result<(), MmsError>)
    requires
        buffer::contents(*old(buf)).len() + confirmed::confirmed_octets(
            0xa1,
            invoke_id,
            resp@.octets(),
        ).len() <= isize::MAX,
    ensures
        match resp@.type_specification.unknown() {
            Some(tag) => r == Err::<(), MmsError>(MmsError::UnknownTypeSpecTag(tag))
                && buffer::contents(*final(buf)) == buffer::contents(*old(buf)),
            None => r is Ok && buffer::contents(*final(buf)) == buffer::contents(*old(buf))
                + confirmed::confirmed_octets(0xa1, invoke_id, resp@.octets()),
        },
{
    let mut service: BytesMut = BytesMut::new();
    resp.encode(&mut service)?;
    assert(buffer::contents(service) =~= resp@.octets());
    put_confirmed(0xa1, invoke_id, &service, buf);
    Ok(())
}

/// Decodes the request inside a ConfirmedRequestPdu; `data` starts at `0xa0`.
pub fn decode_confirmed_get_var_access_attrs_request(data: &[u8]) -> (r: Result<
    (u32, GetVariableAccessAttributesRequest),
    MmsError,
>)
    ensures
        confirmed::agrees_with_id(
            r,
            confirmed::service_at(data@, 0xa0, |s: Seq<u8>| request_at(s)),
        ),
{
    let (invoke_id, service) = decode_confirmed_pdu_inner(data, 0xa0)?;
    let req: GetVariableAccessAttributesRequest = GetVariableAccessAttributesRequest::decode(
        service,
    )?;
    Ok((invoke_id, req))
}

/// Decodes the response inside a ConfirmedResponsePdu; `data` starts at `0xa1`.
///
/// The local ceiling bounds TypeSpecification recursion.
pub fn decode_confirmed_get_var_access_attrs_response(data: &[u8]) -> (r: Result<
    (u32, GetVariableAccessAttributesResponse),
    MmsError,
>)
    ensures
        confirmed::agrees_with_id(
            r,
            confirmed::service_at(
                data@,
                0xa1,
                |s: Seq<u8>| AttributesView::parse(s, MAX_TYPE_SPEC_DEPTH),
            ),
        ),
{
    let (invoke_id, service) = decode_confirmed_pdu_inner(data, 0xa1)?;
    let resp: GetVariableAccessAttributesResponse = GetVariableAccessAttributesResponse::decode(
        service,
    )?;
    Ok((invoke_id, resp))
}

/// Decodes the response inside a ConfirmedResponsePdu under the negotiated ceiling.
///
/// The effective ceiling is the smaller of `MAX_TYPE_SPEC_DEPTH` and the negotiated
/// value.
pub fn decode_confirmed_get_var_access_attrs_response_with_negotiated_cap(
    data: &[u8],
    negotiated: Option<u8>,
) -> (r: Result<(u32, GetVariableAccessAttributesResponse), MmsError>)
    ensures
        confirmed::agrees_with_id(
            r,
            confirmed::service_at(
                data@,
                0xa1,
                |s: Seq<u8>|
                    AttributesView::parse(s, asn1::nesting_cap(MAX_TYPE_SPEC_DEPTH, negotiated)),
            ),
        ),
{
    let (invoke_id, service) = decode_confirmed_pdu_inner(data, 0xa1)?;
    let resp: GetVariableAccessAttributesResponse =
        GetVariableAccessAttributesResponse::decode_with_negotiated_cap(service, negotiated)?;
    Ok((invoke_id, resp))
}

/// A confirmed request gives back its invoke id and its name, whatever follows it.
pub proof fn law_confirmed_attributes_request(
    invoke_id: u32,
    name: ObjectNameView,
    rest: Seq<u8>,
)
    requires
        invoke_id < 0x8000_0000,
        name.within_limit(),
    ensures
        confirmed::service_at(
            confirmed::confirmed_octets(0xa0, invoke_id, request_octets(name)) + rest,
            0xa0,
            |s: Seq<u8>| request_at(s),
        ) == Ok::<(u32, ObjectNameView), MmsError>((invoke_id, name)),
{
    law_attributes_request_round_trip(name, Seq::empty());
    integer::law_unsigned_round_trip(invoke_id as u64);
    assert(request_octets(name) + Seq::<u8>::empty() =~= request_octets(name));
    confirmed::lemma_service_round_trip(
        0xa0,
        invoke_id,
        request_octets(name),
        rest,
        |s: Seq<u8>| request_at(s),
        name,
    );
}

/// A confirmed response gives back its invoke id and its attributes, whatever follows it.
pub proof fn law_confirmed_attributes_response(
    invoke_id: u32,
    r: AttributesView,
    max: u8,
    rest: Seq<u8>,
)
    requires
        invoke_id < 0x8000_0000,
        r.type_specification.fits(max as int),
        r.type_specification.unknown() is None,
        confirmed::confirmed_content(invoke_id, r.octets()).len() <= 0xffff,
    ensures
        confirmed::service_at(
            confirmed::confirmed_octets(0xa1, invoke_id, r.octets()) + rest,
            0xa1,
            |s: Seq<u8>| AttributesView::parse(s, max),
        ) == Ok::<(u32, AttributesView), MmsError>((invoke_id, r)),
{
    law_attributes_response_round_trip(r, max, Seq::empty());
    assert(r.octets() + Seq::<u8>::empty() =~= r.octets());
    confirmed::lemma_service_round_trip(
        0xa1,
        invoke_id,
        r.octets(),
        rest,
        |s: Seq<u8>| AttributesView::parse(s, max),
        r,
    );
}

} // verus!
