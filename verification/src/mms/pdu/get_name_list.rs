//! MMS GetNameList request and response PDUs.
//!
//! ## Wire format
//!
//! Inside the `ConfirmedServiceRequest` CHOICE:
//! - getNameList is CONTEXT `[1]` IMPLICIT CONSTRUCTED, tag `0xa1`
//!
//! A GetNameListRequest inside a ConfirmedRequestPdu:
//! ```text
//! 0xa0 <len>           -- MmsPdu [0] confirmedRequestPdu
//!   0x02 <len> <id>    -- invokeID INTEGER
//!   0xa1 <len>         -- getNameList [1] IMPLICIT, a GetNameListRequest SEQUENCE
//!     0xa0 <len>       -- objectClass [0] EXPLICIT
//!       0x80 0x01 <v>  -- basicObjectClass [0] IMPLICIT INTEGER
//!     0xa1 <len>       -- objectScope [1] EXPLICIT CHOICE
//!       0x80 0x00      -- vmdSpecific [0] IMPLICIT NULL
//!       OR 0x81 <len> <bytes>  -- domainSpecific [1] IMPLICIT VisibleString
//!       OR 0x82 0x00   -- aaSpecific [2] IMPLICIT NULL
//!     [0x82 <len> <s>] -- continueAfter [2] IMPLICIT VisibleString OPTIONAL
//! ```
//!
//! A GetNameListResponse inside a ConfirmedResponsePdu:
//! ```text
//! 0xa1 <len>           -- MmsPdu [1] confirmedResponsePdu
//!   0x02 <len> <id>    -- invokeID INTEGER
//!   0xa1 <len>         -- getNameList [1] IMPLICIT, a GetNameListResponse SEQUENCE
//!     0xa0 <len>       -- listOfIdentifier [0] IMPLICIT SEQUENCE OF
//!       [0x1a <l> <s>] -- Identifier (UNIVERSAL VisibleString) x N
//!     [0x81 0x01 0x00] -- moreFollows [1] IMPLICIT BOOLEAN OPTIONAL, written only when false
//! ```
//!
//! ## Validation
//!
//! Inside the objectClass `0xa0` wrapper the inner tag must be `0x80`,
//! basicObjectClass; any other tag returns `MmsError::InvalidPdu` rather than being
//! accepted.

use bytes::BytesMut;
use vstd::prelude::*;

use crate::asn1;
use crate::asn1::decode_length;
use crate::buffer;
use crate::mms::error;
use crate::mms::error::MmsError;
use crate::mms::pdu::ber;
use crate::mms::pdu::ber::{put_tlv, take_content, take_element, Tlv};
use crate::mms::pdu::confirmed;
use crate::mms::pdu::confirmed::{decode_confirmed_pdu_inner, put_confirmed};
use crate::mms::pdu::data;
use crate::mms::pdu::data::decode_text_field;
use crate::mms::pdu::integer;
use crate::mms::pdu::integer::decode_u32_from_bytes;
use crate::text;

verus! {

broadcast use ber::group_element_sizes;

/// Tag of GetNameList inside the ConfirmedService CHOICE.
pub const SERVICE_TAG_GET_NAME_LIST: u8 = 0xa1;

/// Largest accepted continueAfter length in bytes; 129 bytes are still valid and
/// anything longer is rejected as an invalid PDU.
pub const MAX_CONTINUE_AFTER_LEN: usize = 129;

/// Largest accepted domainName length in bytes.
pub const MAX_DOMAIN_NAME_LEN: usize = 64;

/// MMS ObjectClass.
///
/// Only the four classes this library serves are listed; any other value returns
/// `MmsError::UnsupportedObjectClass`.
#[derive(Debug, Clone, Copy, PartialEq, Eq)]
pub enum ObjectClass {
    /// 0 = namedVariable
    NamedVariable,
    /// 2 = namedVariableList
    NamedVariableList,
    /// 8 = journal
    Journal,
    /// 9 = domain
    Domain,
}

impl ObjectClass {
    /// The value of the class on the wire.
    pub open spec fn value(self) -> u8 {
        match self {
            ObjectClass::NamedVariable => 0,
            ObjectClass::NamedVariableList => 2,
            ObjectClass::Journal => 8,
            ObjectClass::Domain => 9,
        }
    }

    /// The class with this value, where it is served.
    pub open spec fn of_value(v: u32) -> Result<ObjectClass, MmsError> {
        if v == 0 {
            Ok(ObjectClass::NamedVariable)
        } else if v == 2 {
            Ok(ObjectClass::NamedVariableList)
        } else if v == 8 {
            Ok(ObjectClass::Journal)
        } else if v == 9 {
            Ok(ObjectClass::Domain)
        } else {
            Err(MmsError::UnsupportedObjectClass(v))
        }
    }

    /// Returns the INTEGER byte written on the wire.
    pub fn wire_value(self) -> (v: u8)
        ensures
            v == self.value(),
    {
        match self {
            ObjectClass::NamedVariable => 0,
            ObjectClass::NamedVariableList => 2,
            ObjectClass::Journal => 8,
            ObjectClass::Domain => 9,
        }
    }
}

impl TryFrom<u32> for ObjectClass {
    type Error = MmsError;

    /// Converts an INTEGER value from the wire; a class that is not served returns an
    /// error.
    fn try_from(v: u32) -> (r: Result<Self, MmsError>) {
        match v {
            0 => Ok(ObjectClass::NamedVariable),
            2 => Ok(ObjectClass::NamedVariableList),
            8 => Ok(ObjectClass::Journal),
            9 => Ok(ObjectClass::Domain),
            other => Err(MmsError::UnsupportedObjectClass(other)),
        }
    }
}

impl vstd::std_specs::convert::TryFromSpecImpl<u32> for ObjectClass {
    open spec fn obeys_try_from_spec() -> bool {
        true
    }

    open spec fn try_from_spec(v: u32) -> Result<Self, MmsError> {
        ObjectClass::of_value(v)
    }
}

/// Every class comes back from its value, and a value with a class comes back from it.
pub proof fn law_object_class_round_trip(c: ObjectClass, v: u32)
    ensures
        ObjectClass::of_value(c.value() as u32) == Ok::<ObjectClass, MmsError>(c),
        ObjectClass::of_value(v) matches Ok(x) ==> x.value() == v,
{
}

/// The GetNameList objectScope CHOICE.
///
/// Wire tags:
/// - `0x80`: vmdSpecific, CONTEXT `[0]` IMPLICIT NULL with length 0
/// - `0x81`: domainSpecific, CONTEXT `[1]` IMPLICIT VisibleString
/// - `0x82`: aaSpecific, CONTEXT `[2]` IMPLICIT NULL with length 0
#[derive(Debug, Clone, PartialEq, Eq)]
pub enum ObjectScope {
    /// vmd-specific: the whole VMD.
    VmdSpecific,
    /// domain-specific: one domain, named by a VisibleString.
    DomainSpecific(String),
    /// aa-specific: the scope of this association.
    AaSpecific,
}

/// An ObjectScope with its domain name as a text.
#[verifier::ext_equal]
pub enum ObjectScopeView {
    /// vmd-specific.
    VmdSpecific,
    /// domain-specific.
    DomainSpecific(Seq<char>),
    /// aa-specific.
    AaSpecific,
}

impl View for ObjectScope {
    type V = ObjectScopeView;

    open spec fn view(&self) -> ObjectScopeView {
        match *self {
            ObjectScope::VmdSpecific => ObjectScopeView::VmdSpecific,
            ObjectScope::DomainSpecific(d) => ObjectScopeView::DomainSpecific(d@),
            ObjectScope::AaSpecific => ObjectScopeView::AaSpecific,
        }
    }
}

impl ObjectScopeView {
    /// The encoding of the scope.
    pub open spec fn octets(self) -> Seq<u8> {
        match self {
            ObjectScopeView::VmdSpecific => ber::tlv(0x80, Seq::empty()),
            ObjectScopeView::DomainSpecific(d) => ber::tlv(0x81, text::utf8(d)),
            ObjectScopeView::AaSpecific => ber::tlv(0x82, Seq::empty()),
        }
    }

    /// The scope at the start of `s`. A domain name longer than 64 bytes is refused.
    pub open spec fn parse(s: Seq<u8>) -> Result<ObjectScopeView, MmsError> {
        match ber::element_at(s) {
            Err(e) => Err(e),
            Ok(e) => if e.tag == 0x80 {
                Ok(ObjectScopeView::VmdSpecific)
            } else if e.tag == 0x81 {
                if e.val.len() > MAX_DOMAIN_NAME_LEN {
                    Err(MmsError::InvalidPdu)
                } else {
                    match data::text_field_at(e.val) {
                        Err(x) => Err(x),
                        Ok(t) => Ok(ObjectScopeView::DomainSpecific(t)),
                    }
                }
            } else if e.tag == 0x82 {
                Ok(ObjectScopeView::AaSpecific)
            } else {
                Err(MmsError::InvalidPdu)
            },
        }
    }
}

/// An MMS GetNameListRequest.
///
/// - `objectClass`: `[0]` EXPLICIT wrapping basicObjectClass `[0]` IMPLICIT INTEGER
/// - `objectScope`: `[1]` EXPLICIT CHOICE of vmdSpecific, domainSpecific or aaSpecific
/// - `continueAfter`: `[2]` IMPLICIT VisibleString, OPTIONAL, the paging cursor
#[derive(Debug, Clone, PartialEq, Eq)]
pub struct GetNameListRequest {
    /// Class of object to enumerate.
    pub object_class: ObjectClass,
    /// Scope to enumerate: the VMD, one domain, or the association.
    pub object_scope: ObjectScope,
    /// Paging cursor: enumeration resumes after this name.
    pub continue_after: Option<String>,
}

/// A GetNameListRequest with its texts in view.
#[verifier::ext_equal]
pub struct GetNameListRequestView {
    /// Class of object to enumerate.
    pub object_class: ObjectClass,
    /// Scope to enumerate.
    pub object_scope: ObjectScopeView,
    /// Paging cursor.
    pub continue_after: Option<Seq<char>>,
}

impl View for GetNameListRequest {
    type V = GetNameListRequestView;

    open spec fn view(&self) -> GetNameListRequestView {
        GetNameListRequestView {
            object_class: self.object_class,
            object_scope: self.object_scope@,
            continue_after: text::opt_text(self.continue_after),
        }
    }
}

/// What an objectClass wrapper holds: an INTEGER of one to four octets under tag `0x80`.
pub open spec fn object_class_at(s: Seq<u8>) -> Result<ObjectClass, MmsError> {
    if s.len() < 2 {
        Err(MmsError::TruncatedPdu)
    } else if s[0] != 0x80 {
        Err(MmsError::InvalidPdu)
    } else {
        match ber::element_at(s) {
            Err(e) => Err(e),
            Ok(e) => match integer::unsigned_at(e.val, 4) {
                Err(x) => Err(x),
                Ok(v) => ObjectClass::of_value(v as u32),
            },
        }
    }
}

/// A paging cursor of at most 129 bytes.
pub open spec fn continue_after_at(s: Seq<u8>) -> Result<Seq<char>, MmsError> {
    if s.len() > MAX_CONTINUE_AFTER_LEN {
        Err(MmsError::InvalidPdu)
    } else {
        data::text_field_at(s)
    }
}

/// What has been read of a GetNameListRequest.
pub type GetNameListFields = (Option<ObjectClass>, Option<ObjectScopeView>, Option<Seq<char>>);

/// One field of a request; a later field replaces an earlier one, and others are skipped.
pub open spec fn request_field(acc: GetNameListFields, tag: u8, val: Seq<u8>) -> Result<
    GetNameListFields,
    MmsError,
> {
    if tag == 0xa0 {
        match object_class_at(val) {
            Err(e) => Err(e),
            Ok(c) => Ok((Some(c), acc.1, acc.2)),
        }
    } else if tag == 0xa1 {
        match ObjectScopeView::parse(val) {
            Err(e) => Err(e),
            Ok(s) => Ok((acc.0, Some(s), acc.2)),
        }
    } else if tag == 0x82 {
        match continue_after_at(val) {
            Err(e) => Err(e),
            Ok(t) => Ok((acc.0, acc.1, Some(t))),
        }
    } else {
        Ok(acc)
    }
}

/// `request_field` as a step over the elements.
pub open spec fn request_fields() -> spec_fn(GetNameListFields, u8, Seq<u8>) -> Result<
    GetNameListFields,
    MmsError,
> {
    |acc: GetNameListFields, tag: u8, val: Seq<u8>| request_field(acc, tag, val)
}

impl GetNameListRequestView {
    /// The encoding of the cursor, where there is one.
    pub open spec fn cursor_octets(self) -> Seq<u8> {
        match self.continue_after {
            Some(t) => ber::tlv(0x82, text::utf8(t)),
            None => Seq::empty(),
        }
    }

    /// The content of the service: the class, the scope, and the cursor.
    pub open spec fn content(self) -> Seq<u8> {
        ber::tlv(0xa0, ber::tlv(0x80, seq![self.object_class.value()])) + (ber::tlv(
            0xa1,
            self.object_scope.octets(),
        ) + self.cursor_octets())
    }

    /// The encoding of the service.
    pub open spec fn octets(self) -> Seq<u8> {
        ber::tlv(SERVICE_TAG_GET_NAME_LIST, self.content())
    }

    /// The request that fields make: the class and the scope must be there.
    pub open spec fn of_fields(f: GetNameListFields) -> Result<GetNameListRequestView, MmsError> {
        match f {
            (Some(object_class), Some(object_scope), continue_after) => Ok(
                GetNameListRequestView { object_class, object_scope, continue_after },
            ),
            _ => Err(MmsError::TruncatedPdu),
        }
    }

    /// The request at the start of `s`.
    pub open spec fn parse(s: Seq<u8>) -> Result<GetNameListRequestView, MmsError> {
        match ber::tagged_at(s, SERVICE_TAG_GET_NAME_LIST) {
            Err(e) => Err(e),
            Ok(e) => match ber::fold(e.val, (None, None, None), request_fields()) {
                Err(x) => Err(x),
                Ok(f) => GetNameListRequestView::of_fields(f),
            },
        }
    }

    /// The domain name and the cursor are within their limits.
    pub open spec fn within_limit(self) -> bool {
        &&& self.object_scope matches ObjectScopeView::DomainSpecific(d) ==> text::utf8(d).len()
            <= MAX_DOMAIN_NAME_LEN
        &&& self.continue_after matches Some(t) ==> text::utf8(t).len() <= MAX_CONTINUE_AFTER_LEN
    }
}

spec fn opt_scope(s: Option<ObjectScope>) -> Option<ObjectScopeView> {
    match s {
        Some(x) => Some(x@),
        None => None,
    }
}

impl GetNameListRequest {
    /// Encodes the request, including the `0xa1 <len>` service wrapper.
    ///
    /// The caller adds the ConfirmedRequestPdu invokeID and its outer `0xa0` wrapper.
    pub fn encode(&self, buf: &mut BytesMut)
        requires
            buffer::contents(*old(buf)).len() + self@.octets().len() <= isize::MAX,
        ensures
            buffer::contents(*final(buf)) == buffer::contents(*old(buf)) + self@.octets(),
    {
        let mut inner: BytesMut = BytesMut::new();
        // objectClass [0] EXPLICIT around basicObjectClass [0] IMPLICIT INTEGER
        let class: [u8; 1] = [self.object_class.wire_value()];
        let mut class_inner: BytesMut = BytesMut::new();
        assert(class@ =~= seq![self.object_class.value()]);
        put_tlv(0x80, &class, &mut class_inner);
        assert(buffer::contents(class_inner) =~= ber::tlv(0x80, seq![self.object_class.value()]));
        put_tlv(0xa0, &class_inner, &mut inner);
        // objectScope [1] EXPLICIT
        let mut scope_inner: BytesMut = BytesMut::new();
        encode_object_scope(&self.object_scope, &mut scope_inner);
        assert(buffer::contents(scope_inner) =~= self@.object_scope.octets());
        put_tlv(0xa1, &scope_inner, &mut inner);
        // continueAfter [2] IMPLICIT VisibleString, OPTIONAL
        if let Some(cursor) = &self.continue_after {
            put_tlv(0x82, cursor.as_str().as_bytes(), &mut inner);
        }
        assert(buffer::contents(inner) =~= self@.content());
        put_tlv(SERVICE_TAG_GET_NAME_LIST, &inner, buf);
    }

    /// Decodes a request; `data` starts at the `0xa1` service tag.
    ///
    /// The objectClass inner tag must be `0x80`; any other value returns
    /// `MmsError::InvalidPdu`.
    pub fn decode(data: &[u8]) -> (r: Result<Self, MmsError>)
        ensures
            ber::agrees(r, GetNameListRequestView::parse(data@)),
    {
        let inner: &[u8] = take_content(data, SERVICE_TAG_GET_NAME_LIST)?;
        decode_get_name_list_request_inner(inner)
    }
}

/// Encodes the objectScope CHOICE.
fn encode_object_scope(scope: &ObjectScope, buf: &mut BytesMut)
    requires
        buffer::contents(*old(buf)).len() + scope@.octets().len() <= isize::MAX,
    ensures
        buffer::contents(*final(buf)) == buffer::contents(*old(buf)) + scope@.octets(),
{
    let empty: [u8; 0] = [];
    assert(empty@ =~= Seq::empty());
    match scope {
        ObjectScope::VmdSpecific => put_tlv(0x80, &empty, buf),
        ObjectScope::DomainSpecific(domain) => put_tlv(0x81, domain.as_str().as_bytes(), buf),
        ObjectScope::AaSpecific => put_tlv(0x82, &empty, buf),
    }
}

/// Decodes what an objectClass wrapper holds.
fn decode_object_class(val: &[u8]) -> (r: Result<ObjectClass, MmsError>)
    ensures
        r == object_class_at(val@),
{
    // the inner value must be basicObjectClass [0] IMPLICIT INTEGER
    if val.len() < 2 {
        return Err(MmsError::TruncatedPdu);
    }
    if val[0] != 0x80 {
        return Err(MmsError::InvalidPdu);
    }
    assert(val@.skip(0) =~= val@);
    let t: Tlv = take_element(val, 0)?;
    let v: u32 = decode_u32_from_bytes(t.val)?;
    ObjectClass::try_from(v)
}

/// Decodes the request content: objectClass, objectScope and continueAfter.
fn decode_get_name_list_request_inner(data: &[u8]) -> (r: Result<GetNameListRequest, MmsError>)
    ensures
        match ber::fold(data@, (None, None, None), request_fields()) {
            Err(x) => r == Err::<GetNameListRequest, MmsError>(x),
            Ok(f) => ber::agrees(r, GetNameListRequestView::of_fields(f)),
        },
{
    let mut pos: usize = 0;
    let mut object_class: Option<ObjectClass> = None;
    let mut object_scope: Option<ObjectScope> = None;
    let mut continue_after: Option<String> = None;
    let ghost steps = request_fields();
    assert(data@.skip(0) =~= data@);
    while pos < data.len()
        invariant
            pos <= data.len(),
            steps == request_fields(),
            ber::fold(data@, (None, None, None), steps) == ber::fold(
                data@.skip(pos as int),
                (object_class, opt_scope(object_scope), text::opt_text(continue_after)),
                steps,
            ),
        decreases data.len() - pos,
    {
        let t: Tlv = take_element(data, pos)?;
        let ghost acc: GetNameListFields = (
            object_class,
            opt_scope(object_scope),
            text::opt_text(continue_after),
        );
        assert(steps(acc, t.tag, t.val@) == request_field(acc, t.tag, t.val@));
        match t.tag {
            0xa0 => {
                object_class = Some(decode_object_class(t.val)?);
            },
            0xa1 => {
                let scope: ObjectScope = decode_object_scope(t.val)?;
                object_scope = Some(scope);
            },
            0x82 => {
                if t.val.len() > MAX_CONTINUE_AFTER_LEN {
                    return Err(MmsError::InvalidPdu);
                }
                let s: String = decode_text_field(t.val)?;
                continue_after = Some(s);
            },
            _ => {},
        }
        pos = pos + t.size;
    }
    match (object_class, object_scope) {
        (Some(object_class), Some(object_scope)) => Ok(
            GetNameListRequest { object_class, object_scope, continue_after },
        ),
        _ => Err(MmsError::TruncatedPdu),
    }
}

/// Decodes the objectScope CHOICE; `val` is the content of the `0xa1` wrapper.
fn decode_object_scope(val: &[u8]) -> (r: Result<ObjectScope, MmsError>)
    ensures
        ber::agrees(r, ObjectScopeView::parse(val@)),
{
    assert(val@.skip(0) =~= val@);
    let t: Tlv = take_element(val, 0)?;
    match t.tag {
        0x80 => Ok(ObjectScope::VmdSpecific),
        0x81 => {
            // a domain name longer than 64 bytes is rejected as an invalid PDU
            if t.val.len() > MAX_DOMAIN_NAME_LEN {
                return Err(MmsError::InvalidPdu);
            }
            let domain: String = decode_text_field(t.val)?;
            Ok(ObjectScope::DomainSpecific(domain))
        },
        0x82 => Ok(ObjectScope::AaSpecific),
        _ => Err(MmsError::InvalidPdu),
    }
}

/// An MMS GetNameListResponse.
///
/// - `listOfIdentifier`: `[0]` IMPLICIT SEQUENCE OF VisibleString, tag `0xa0`
/// - `moreFollows`: `[1]` IMPLICIT BOOLEAN, OPTIONAL with DEFAULT TRUE
///
/// ## moreFollows
///
/// - `true` omits the field, since TRUE is the default
/// - `false` writes `0x81 0x01 0x00`
/// - an absent field decodes as `true`
/// - any non-zero byte decodes as `true`
#[derive(Debug, Clone, PartialEq, Eq)]
pub struct GetNameListResponse {
    /// The identifiers returned, possibly empty.
    pub identifiers: Vec<String>,
    /// Whether more names remain; DEFAULT TRUE, and false marks the last page.
    pub more_follows: bool,
}

/// A GetNameListResponse with its identifiers as texts.
#[verifier::ext_equal]
pub struct GetNameListResponseView {
    /// The identifiers returned.
    pub identifiers: Seq<Seq<char>>,
    /// Whether more names remain.
    pub more_follows: bool,
}

/// The texts of identifiers in a row.
pub open spec fn texts(ids: Seq<String>) -> Seq<Seq<char>> {
    ids.map_values(|s: String| s@)
}

impl View for GetNameListResponse {
    type V = GetNameListResponseView;

    open spec fn view(&self) -> GetNameListResponseView {
        GetNameListResponseView {
            identifiers: texts(self.identifiers@),
            more_follows: self.more_follows,
        }
    }
}

/// The encodings of identifiers in a row.
pub open spec fn identifier_octets(ids: Seq<Seq<char>>) -> Seq<u8>
    decreases ids.len(),
{
    if ids.len() == 0 {
        Seq::empty()
    } else {
        identifier_octets(ids.drop_last()) + ber::tlv(0x1a, text::utf8(ids.last()))
    }
}

/// The identifiers of the elements of `s` with tag `0x1a`, put after those of `acc`. An
/// element with another tag is skipped by the length it announces, which may pass the
/// end; a lone tag octet at the end is ignored.
pub open spec fn identifier_list_at(s: Seq<u8>, acc: Seq<Seq<char>>) -> Result<
    Seq<Seq<char>>,
    MmsError,
>
    decreases s.len(),
{
    if s.len() == 0 {
        Ok(acc)
    } else if s[0] != 0x1a {
        if s.len() == 1 {
            Ok(acc)
        } else {
            match asn1::length_at(s.skip(1)) {
                Err(e) => Err(error::length_error(e)),
                Ok((len, taken)) => if 1 + taken + len >= s.len() {
                    Ok(acc)
                } else {
                    identifier_list_at(s.skip((1 + taken + len) as int), acc)
                },
            }
        }
    } else {
        match ber::element_at(s) {
            Err(e) => Err(e),
            Ok(e) => match data::text_field_at(e.val) {
                Err(x) => Err(x),
                Ok(t) => {
                    proof {
                        ber::lemma_element_bounds(s);
                    }
                    identifier_list_at(s.skip(e.size as int), acc.push(t))
                },
            },
        }
    }
}

/// What has been read of a GetNameListResponse: the identifiers and the flag.
pub type ResponseFields = (Option<Seq<Seq<char>>>, bool);

/// One field of a response; a later field replaces an earlier one, and others are
/// skipped.
pub open spec fn response_field(acc: ResponseFields, tag: u8, val: Seq<u8>) -> Result<
    ResponseFields,
    MmsError,
> {
    if tag == 0xa0 {
        match identifier_list_at(val, Seq::empty()) {
            Err(e) => Err(e),
            Ok(ids) => Ok((Some(ids), acc.1)),
        }
    } else if tag == 0x81 {
        if val.len() == 0 {
            Err(MmsError::TruncatedPdu)
        } else {
            Ok((acc.0, val[0] != 0))
        }
    } else {
        Ok(acc)
    }
}

/// `response_field` as a step over the elements.
pub open spec fn response_fields() -> spec_fn(ResponseFields, u8, Seq<u8>) -> Result<
    ResponseFields,
    MmsError,
> {
    |acc: ResponseFields, tag: u8, val: Seq<u8>| response_field(acc, tag, val)
}

impl GetNameListResponseView {
    /// The content of the service: the identifiers, and the flag where it is false.
    pub open spec fn content(self) -> Seq<u8> {
        let ids = ber::tlv(0xa0, identifier_octets(self.identifiers));
        if self.more_follows {
            ids
        } else {
            ids + ber::tlv(0x81, seq![0x00u8])
        }
    }

    /// The encoding of the service.
    pub open spec fn octets(self) -> Seq<u8> {
        ber::tlv(SERVICE_TAG_GET_NAME_LIST, self.content())
    }

    /// The response at the start of `s`. The flag is true where it is absent.
    pub open spec fn parse(s: Seq<u8>) -> Result<GetNameListResponseView, MmsError> {
        match ber::tagged_at(s, SERVICE_TAG_GET_NAME_LIST) {
            Err(e) => Err(e),
            Ok(e) => match ber::fold(e.val, (None, true), response_fields()) {
                Err(x) => Err(x),
                Ok((Some(identifiers), more_follows)) => Ok(
                    GetNameListResponseView { identifiers, more_follows },
                ),
                Ok((None, _)) => Err(MmsError::TruncatedPdu),
            },
        }
    }
}

spec fn opt_texts(v: Option<Vec<String>>) -> Option<Seq<Seq<char>>> {
    match v {
        Some(x) => Some(texts(x@)),
        None => None,
    }
}

impl GetNameListResponse {
    /// Encodes the response, including the `0xa1 <len>` service wrapper.
    ///
    /// moreFollows is written only when false, since TRUE is the default.
    pub fn encode(&self, buf: &mut BytesMut)
        requires
            buffer::contents(*old(buf)).len() + self@.octets().len() <= isize::MAX,
        ensures
            buffer::contents(*final(buf)) == buffer::contents(*old(buf)) + self@.octets(),
    {
        let mut inner: BytesMut = BytesMut::new();
        let list: BytesMut = encode_identifiers(&self.identifiers);
        put_tlv(0xa0, &list, &mut inner);
        if !self.more_follows {
            let flag: [u8; 1] = [0x00];
            assert(flag@ =~= seq![0x00u8]);
            put_tlv(0x81, &flag, &mut inner);
        }
        assert(buffer::contents(inner) =~= self@.content());
        put_tlv(SERVICE_TAG_GET_NAME_LIST, &inner, buf);
    }

    /// Decodes a response; `data` starts at the `0xa1` service tag.
    pub fn decode(data: &[u8]) -> (r: Result<Self, MmsError>)
        ensures
            ber::agrees(r, GetNameListResponseView::parse(data@)),
    {
        let inner: &[u8] = take_content(data, SERVICE_TAG_GET_NAME_LIST)?;
        decode_get_name_list_response_inner(inner)
    }
}

/// Encodes identifiers in a row.
fn encode_identifiers(ids: &Vec<String>) -> (buf: BytesMut)
    requires
        identifier_octets(texts(ids@)).len() <= isize::MAX,
    ensures
        buffer::contents(buf) == identifier_octets(texts(ids@)),
{
    let mut buf: BytesMut = BytesMut::new();
    let mut i: usize = 0;
    let ghost views = texts(ids@);
    assert(views.take(0) =~= Seq::empty());
    while i < ids.len()
        invariant
            i <= ids.len(),
            views == texts(ids@),
            identifier_octets(views).len() <= isize::MAX,
            buffer::contents(buf) == identifier_octets(views.take(i as int)),
        decreases ids.len() - i,
    {
        proof {
            assert(views.take(i + 1).drop_last() =~= views.take(i as int));
            lemma_identifiers_prefix(views, i + 1);
        }
        // Identifier tag 0x1a, UNIVERSAL 26 VisibleString, primitive
        put_tlv(0x1a, ids[i].as_str().as_bytes(), &mut buf);
        i = i + 1;
    }
    assert(views.take(ids@.len() as int) =~= views);
    buf
}

/// Decodes the response content: listOfIdentifier and moreFollows.
fn decode_get_name_list_response_inner(data: &[u8]) -> (r: Result<GetNameListResponse, MmsError>)
    ensures
        match ber::fold(data@, (None, true), response_fields()) {
            Err(x) => r == Err::<GetNameListResponse, MmsError>(x),
            Ok((Some(ids), more)) => r matches Ok(x) && x@ == (GetNameListResponseView {
                identifiers: ids,
                more_follows: more,
            }),
            Ok((None, _)) => r == Err::<GetNameListResponse, MmsError>(MmsError::TruncatedPdu),
        },
{
    let mut pos: usize = 0;
    let mut identifiers: Option<Vec<String>> = None;
    // moreFollows defaults to true when the field is absent
    let mut more_follows: bool = true;
    let ghost steps = response_fields();
    assert(data@.skip(0) =~= data@);
    while pos < data.len()
        invariant
            pos <= data.len(),
            steps == response_fields(),
            ber::fold(data@, (None, true), steps) == ber::fold(
                data@.skip(pos as int),
                (opt_texts(identifiers), more_follows),
                steps,
            ),
        decreases data.len() - pos,
    {
        let t: Tlv = take_element(data, pos)?;
        let ghost acc: ResponseFields = (opt_texts(identifiers), more_follows);
        assert(steps(acc, t.tag, t.val@) == response_field(acc, t.tag, t.val@));
        match t.tag {
            0xa0 => {
                let ids: Vec<String> = decode_list_of_identifiers(t.val)?;
                identifiers = Some(ids);
            },
            0x81 => {
                if t.val.len() == 0 {
                    return Err(MmsError::TruncatedPdu);
                }
                // BER BOOLEAN: any non-zero byte is true
                more_follows = t.val[0] != 0;
            },
            _ => {},
        }
        pos = pos + t.size;
    }
    match identifiers {
        Some(identifiers) => Ok(GetNameListResponse { identifiers, more_follows }),
        None => Err(MmsError::TruncatedPdu),
    }
}

/// Decodes listOfIdentifier; `data` is the content of the `0xa0` field.
fn decode_list_of_identifiers(data: &[u8]) -> (r: Result<Vec<String>, MmsError>)
    ensures
        match identifier_list_at(data@, Seq::empty()) {
            Ok(v) => r matches Ok(x) && texts(x@) == v,
            Err(e) => r == Err::<Vec<String>, MmsError>(e),
        },
{
    let mut ids: Vec<String> = Vec::new();
    let mut pos: usize = 0;
    assert(data@.skip(0) =~= data@);
    assert(texts(ids@) =~= Seq::empty());
    while pos < data.len()
        invariant
            pos <= data.len(),
            identifier_list_at(data@, Seq::empty()) == identifier_list_at(
                data@.skip(pos as int),
                texts(ids@),
            ),
        decreases data.len() - pos,
    {
        if data[pos] != 0x1a {
            // skip the element and keep parsing the rest of the list
            if pos + 1 >= data.len() {
                return Ok(ids);
            }
            let tail: &[u8] = &data[pos + 1..data.len()];
            assert(tail@ =~= data@.skip(pos as int).skip(1));
            match decode_length(tail) {
                Err(e) => return Err(MmsError::from(e)),
                Ok((len, taken)) => {
                    let start: usize = pos + 1 + taken;
                    if len >= data.len() - start {
                        return Ok(ids);
                    }
                    assert(data@.skip(pos as int).skip(1 + taken + len) =~= data@.skip(
                        start + len,
                    ));
                    pos = start + len;
                },
            }
        } else {
            let t: Tlv = take_element(data, pos)?;
            let id: String = decode_text_field(t.val)?;
            let ghost before = ids@;
            ids.push(id);
            proof {
                assert(texts(ids@) =~= texts(before).push(id@));
            }
            pos = pos + t.size;
        }
    }
    Ok(ids)
}

/// The first identifiers take no more octets than all of them.
proof fn lemma_identifiers_prefix(ids: Seq<Seq<char>>, n: int)
    requires
        0 <= n <= ids.len(),
    ensures
        identifier_octets(ids.take(n)).len() <= identifier_octets(ids).len(),
    decreases ids.len(),
{
    if n < ids.len() {
        lemma_identifiers_prefix(ids.drop_last(), n);
        assert(ids.drop_last().take(n) =~= ids.take(n));
    } else {
        assert(ids.take(n) =~= ids);
    }
}

/// The encodings in a row, with the first identifier taken apart.
proof fn lemma_identifiers_first(ids: Seq<Seq<char>>)
    requires
        ids.len() > 0,
    ensures
        identifier_octets(ids) == ber::tlv(0x1a, text::utf8(ids[0])) + identifier_octets(
            ids.skip(1),
        ),
    decreases ids.len(),
{
    reveal_with_fuel(identifier_octets, 2);
    if ids.len() == 1 {
        assert(ids.drop_last() =~= Seq::empty());
        assert(ids.skip(1) =~= Seq::empty());
    } else {
        lemma_identifiers_first(ids.drop_last());
        assert(ids.drop_last().skip(1) =~= ids.skip(1).drop_last());
    }
    assert(identifier_octets(ids) =~= ber::tlv(0x1a, text::utf8(ids[0])) + identifier_octets(
        ids.skip(1),
    ));
}

/// Identifiers in a row are read back in a row.
proof fn lemma_identifier_list_round_trip(ids: Seq<Seq<char>>, acc: Seq<Seq<char>>)
    requires
        identifier_octets(ids).len() <= 0xffff,
    ensures
        identifier_list_at(identifier_octets(ids), acc) == Ok::<Seq<Seq<char>>, MmsError>(
            acc + ids,
        ),
    decreases ids.len(),
{
    if ids.len() == 0 {
        assert(acc + ids =~= acc);
    } else {
        let others = ids.skip(1);
        lemma_identifiers_first(ids);
        ber::law_element_round_trip(0x1a, text::utf8(ids[0]), identifier_octets(others));
        text::lemma_text_round_trip(ids[0]);
        lemma_identifier_list_round_trip(others, acc.push(ids[0]));
        assert(acc.push(ids[0]) + others =~= acc + ids);
    }
}

/// A request whose texts are within their limits decodes to itself, whatever follows it.
pub proof fn law_get_name_list_request_round_trip(r: GetNameListRequestView, rest: Seq<u8>)
    requires
        r.within_limit(),
    ensures
        GetNameListRequestView::parse(r.octets() + rest) == Ok::<GetNameListRequestView, MmsError>(
            r,
        ),
        r.octets().len() <= 230,
{
    let steps = request_fields();
    let class = seq![r.object_class.value()];
    let class_inner = ber::tlv(0x80, class);
    let scope_inner = r.object_scope.octets();
    let tail = r.cursor_octets();
    let mid = ber::tlv(0xa1, scope_inner) + tail;
    let start: GetNameListFields = (None, None, None);
    let one: GetNameListFields = (Some(r.object_class), None, None);
    let two: GetNameListFields = (Some(r.object_class), Some(r.object_scope), None);
    ber::law_element_round_trip(SERVICE_TAG_GET_NAME_LIST, r.content(), rest);
    ber::lemma_element_alone(0x80, class);
    assert(class_inner[0] == 0x80);
    assert(asn1::uint(class) == r.object_class.value()) by {
        reveal_with_fuel(asn1::uint, 2);
        assert(class.drop_last() =~= Seq::empty());
    }
    assert(steps(start, 0xa0, class_inner) == Ok::<GetNameListFields, MmsError>(one));
    ber::lemma_fold_tlv(0xa0, class_inner, mid, start, steps);
    match r.object_scope {
        ObjectScopeView::VmdSpecific => ber::lemma_element_alone(0x80, Seq::empty()),
        ObjectScopeView::DomainSpecific(d) => {
            ber::lemma_element_alone(0x81, text::utf8(d));
            text::lemma_text_round_trip(d);
        },
        ObjectScopeView::AaSpecific => ber::lemma_element_alone(0x82, Seq::empty()),
    }
    assert(steps(one, 0xa1, scope_inner) == Ok::<GetNameListFields, MmsError>(two));
    ber::lemma_fold_tlv(0xa1, scope_inner, tail, one, steps);
    if let Some(t) = r.continue_after {
        let three: GetNameListFields = (Some(r.object_class), Some(r.object_scope), Some(t));
        text::lemma_text_round_trip(t);
        assert(steps(two, 0x82, text::utf8(t)) == Ok::<GetNameListFields, MmsError>(three));
        ber::lemma_fold_last(0x82, text::utf8(t), two, steps);
    }
}

/// A response whose content has at most 0xffff octets decodes to itself, whatever
/// follows it.
pub proof fn law_get_name_list_response_round_trip(r: GetNameListResponseView, rest: Seq<u8>)
    requires
        r.content().len() <= 0xffff,
    ensures
        GetNameListResponseView::parse(r.octets() + rest) == Ok::<
            GetNameListResponseView,
            MmsError,
        >(r),
{
    let steps = response_fields();
    let ids = identifier_octets(r.identifiers);
    let start: ResponseFields = (None, true);
    let listed: ResponseFields = (Some(r.identifiers), true);
    ber::law_element_round_trip(SERVICE_TAG_GET_NAME_LIST, r.content(), rest);
    lemma_identifier_list_round_trip(r.identifiers, Seq::empty());
    assert(Seq::<Seq<char>>::empty() + r.identifiers =~= r.identifiers);
    assert(steps(start, 0xa0, ids) == Ok::<ResponseFields, MmsError>(listed));
    if r.more_follows {
        ber::lemma_fold_last(0xa0, ids, start, steps);
    } else {
        let flag = seq![0x00u8];
        assert(steps(listed, 0x81, flag) == Ok::<ResponseFields, MmsError>(
            (Some(r.identifiers), false),
        ));
        ber::lemma_fold_tlv(0xa0, ids, ber::tlv(0x81, flag), start, steps);
        ber::lemma_fold_last(0x81, flag, listed, steps);
    }
}

/// Encodes a GetNameListRequest as a complete ConfirmedRequestPdu, outer `0xa0`
/// tag included.
///
/// Wire format:
/// ```text
/// 0xa0 <len>           -- confirmedRequestPdu [0]
///   0x02 <len> <id>    -- invokeID
///   0xa1 <len>         -- GetNameListRequest
/// ```
pub fn encode_confirmed_get_name_list_request(
    invoke_id: u32,
    req: &GetNameListRequest,
    buf: &mut BytesMut,
)
    requires
        buffer::contents(*old(buf)).len() + confirmed::confirmed_octets(
            0xa0,
            invoke_id,
            req@.octets(),
        ).len() <= isize::MAX,
    ensures
        buffer::contents(*final(buf)) == buffer::contents(*old(buf)) + confirmed::confirmed_octets(
            0xa0,
            invoke_id,
            req@.octets(),
        ),
{
    let mut service: BytesMut = BytesMut::new();
    req.encode(&mut service);
    assert(buffer::contents(service) =~= req@.octets());
    put_confirmed(0xa0, invoke_id, &service, buf);
}

/// Encodes a GetNameListResponse as a complete ConfirmedResponsePdu, outer `0xa1`
/// tag included.
pub fn encode_confirmed_get_name_list_response(
    invoke_id: u32,
    resp: &GetNameListResponse,
    buf: &mut BytesMut,
)
    requires
        buffer::contents(*old(buf)).len() + confirmed::confirmed_octets(
            0xa1,
            invoke_id,
            resp@.octets(),
        ).len() <= isize::MAX,
    ensures
        buffer::contents(*final(buf)) == buffer::contents(*old(buf)) + confirmed::confirmed_octets(
            0xa1,
            invoke_id,
            resp@.octets(),
        ),
{
    let mut service: BytesMut = BytesMut::new();
    resp.encode(&mut service);
    assert(buffer::contents(service) =~= resp@.octets());
    put_confirmed(0xa1, invoke_id, &service, buf);
}

/// Decodes the GetNameListRequest inside a ConfirmedRequestPdu; `data` starts at
/// the `0xa0` byte.
pub fn decode_confirmed_get_name_list_request(data: &[u8]) -> (r: Result<
    (u32, GetNameListRequest),
    MmsError,
>)
    ensures
        confirmed::agrees_with_id(
            r,
            confirmed::service_at(data@, 0xa0, |s: Seq<u8>| GetNameListRequestView::parse(s)),
        ),
{
    let (invoke_id, service) = decode_confirmed_pdu_inner(data, 0xa0)?;
    let req: GetNameListRequest = GetNameListRequest::decode(service)?;
    Ok((invoke_id, req))
}

/// Decodes the GetNameListResponse inside a ConfirmedResponsePdu; `data` starts at
/// the `0xa1` byte.
pub fn decode_confirmed_get_name_list_response(data: &[u8]) -> (r: Result<
    (u32, GetNameListResponse),
    MmsError,
>)
    ensures
        confirmed::agrees_with_id(
            r,
            confirmed::service_at(data@, 0xa1, |s: Seq<u8>| GetNameListResponseView::parse(s)),
        ),
{
    let (invoke_id, service) = decode_confirmed_pdu_inner(data, 0xa1)?;
    let resp: GetNameListResponse = GetNameListResponse::decode(service)?;
    Ok((invoke_id, resp))
}

/// A confirmed GetNameListRequest gives back its invoke id and its request, whatever
/// follows it.
pub proof fn law_confirmed_get_name_list_request(
    invoke_id: u32,
    r: GetNameListRequestView,
    rest: Seq<u8>,
)
    requires
        invoke_id < 0x8000_0000,
        r.within_limit(),
    ensures
        confirmed::service_at(
            confirmed::confirmed_octets(0xa0, invoke_id, r.octets()) + rest,
            0xa0,
            |s: Seq<u8>| GetNameListRequestView::parse(s),
        ) == Ok::<(u32, GetNameListRequestView), MmsError>((invoke_id, r)),
{
    law_get_name_list_request_round_trip(r, Seq::empty());
    integer::law_unsigned_round_trip(invoke_id as u64);
    assert(r.octets() + Seq::<u8>::empty() =~= r.octets());
    confirmed::lemma_service_round_trip(
        0xa0,
        invoke_id,
        r.octets(),
        rest,
        |s: Seq<u8>| GetNameListRequestView::parse(s),
        r,
    );
}

/// A confirmed GetNameListResponse gives back its invoke id and its response, whatever
/// follows it.
pub proof fn law_confirmed_get_name_list_response(
    invoke_id: u32,
    r: GetNameListResponseView,
    rest: Seq<u8>,
)
    requires
        invoke_id < 0x8000_0000,
        confirmed::confirmed_content(invoke_id, r.octets()).len() <= 0xffff,
    ensures
        confirmed::service_at(
            confirmed::confirmed_octets(0xa1, invoke_id, r.octets()) + rest,
            0xa1,
            |s: Seq<u8>| GetNameListResponseView::parse(s),
        ) == Ok::<(u32, GetNameListResponseView), MmsError>((invoke_id, r)),
{
    law_get_name_list_response_round_trip(r, Seq::empty());
    assert(r.octets() + Seq::<u8>::empty() =~= r.octets());
    confirmed::lemma_service_round_trip(
        0xa1,
        invoke_id,
        r.octets(),
        rest,
        |s: Seq<u8>| GetNameListResponseView::parse(s),
        r,
    );
}

/// The domain name and the cursor read so far are within their limits.
spec fn fields_within_limit(f: GetNameListFields) -> bool {
    &&& f.1 matches Some(ObjectScopeView::DomainSpecific(d)) ==> text::utf8(d).len()
        <= MAX_DOMAIN_NAME_LEN
    &&& f.2 matches Some(t) ==> text::utf8(t).len() <= MAX_CONTINUE_AFTER_LEN
}

proof fn lemma_fields_stay_within_limit(s: Seq<u8>, f: GetNameListFields)
    requires
        fields_within_limit(f),
        ber::fold(s, f, request_fields()) is Ok,
    ensures
        fields_within_limit(ber::fold(s, f, request_fields())->Ok_0),
    decreases s.len(),
{
    if s.len() > 0 {
        let e = ber::element_at(s)->Ok_0;
        let next = request_field(f, e.tag, e.val)->Ok_0;
        ber::lemma_element_bounds(s);
        if e.tag == 0xa1 {
            let scope = ber::element_at(e.val)->Ok_0;
            if scope.tag == 0x81 {
                text::lemma_text_encodes_back(scope.val);
            }
        } else if e.tag == 0x82 {
            text::lemma_text_encodes_back(e.val);
        }
        lemma_fields_stay_within_limit(s.skip(e.size as int), next);
    }
}

/// A request that decodes names a domain of at most 64 bytes and continues after a name of at
/// most 129 bytes.
pub proof fn law_decoded_request_within_limit(s: Seq<u8>)
    ensures
        GetNameListRequestView::parse(s) matches Ok(r) ==> r.within_limit(),
{
    if GetNameListRequestView::parse(s) is Ok {
        let e = ber::tagged_at(s, SERVICE_TAG_GET_NAME_LIST)->Ok_0;
        lemma_fields_stay_within_limit(e.val, (None, None, None));
    }
}

} // verus!
