//! MMS DeleteNamedVariableList request and response PDUs.
//!
//! ## Wire format
//!
//! `ConfirmedServiceRequest.deleteNamedVariableList` is CONTEXT `[13]` IMPLICIT
//! SEQUENCE, so the outermost tag is `0x80 | 0x20 | 13`, that is `0xad`.
//!
//! ```text
//! 0xa0 <len>           -- MmsPdu [0] confirmedRequestPdu
//!   0x02 <len> <id>    -- invokeID
//!   0xad <len>         -- deleteNamedVariableList [13] IMPLICIT SEQUENCE
//!     [0x80 <int>]     -- scopeOfDelete [0] IMPLICIT INTEGER (DEFAULT 0=specific)
//!     [0xa1 <len>]     -- listOfVariableListName [1] IMPLICIT SEQUENCE OF ObjectName
//!     [0x82 <len> <s>] -- domainName [2] IMPLICIT VisibleString OPTIONAL
//! ```
//!
//! The response is CONTEXT `[13]` IMPLICIT SEQUENCE:
//!
//! ```text
//! 0xa1 <len>           -- MmsPdu [1] confirmedResponsePdu
//!   0x02 <len> <id>    -- invokeID
//!   0xad <len>         -- deleteNamedVariableList [13] IMPLICIT SEQUENCE
//!     0x80 <int>       -- numberMatched [0] IMPLICIT Unsigned32
//!     0x81 <int>       -- numberDeleted [1] IMPLICIT Unsigned32
//! ```

use bytes::BytesMut;
use vstd::prelude::*;

use crate::buffer;
use crate::mms::error::MmsError;
use crate::mms::pdu::ber;
use crate::mms::pdu::ber::{put_tlv, take_content, take_element, Tlv};
use crate::mms::pdu::confirmed;
use crate::mms::pdu::confirmed::{decode_confirmed_pdu_inner, put_confirmed};
use crate::mms::pdu::data;
use crate::mms::pdu::data::decode_text_field;
use crate::mms::pdu::integer;
use crate::mms::pdu::integer::{decode_u32_from_bytes, encode_unsigned_int_minimal};
use crate::mms::pdu::object_name;
use crate::mms::pdu::object_name::{ObjectName, ObjectNameView};
use crate::text;

verus! {

broadcast use ber::group_element_sizes;

/// Tag of DeleteNamedVariableList inside the ConfirmedService CHOICE.
pub const SERVICE_TAG_DELETE_NAMED_VARIABLE_LIST: u8 = 0xad;

/// Outer tag of listOfVariableListName `[1]` IMPLICIT.
const TAG_LIST_OF_NAMES: u8 = 0xa1;

/// Tag of scopeOfDelete `[0]` IMPLICIT INTEGER.
const TAG_SCOPE_OF_DELETE: u8 = 0x80;

/// Tag of domainName `[2]` IMPLICIT VisibleString.
const TAG_DOMAIN_NAME: u8 = 0x82;

/// The scopeOfDelete alternatives.
///
/// `Specific` is the common case and names the data sets to delete. The broader
/// scopes, `AaSpecific`, `Domain` and `Vmd`, are served on a best-effort basis: the
/// server enumerates every dynamic data set, and a request carrying no
/// listOfVariableListName is legal.
#[derive(Debug, Clone, Copy, PartialEq, Eq)]
pub enum ScopeOfDelete {
    /// 0, specific: the data sets to delete are listed in listOfVariableListName.
    Specific,
    /// 1 = aa-specific
    AaSpecific,
    /// 2 = domain
    Domain,
    /// 3 = vmd
    Vmd,
}

impl Default for ScopeOfDelete {
    fn default() -> (r: Self)
        ensures
            r == ScopeOfDelete::Specific,
    {
        ScopeOfDelete::Specific
    }
}

impl ScopeOfDelete {
    /// The value of the scope on the wire.
    pub open spec fn value(self) -> u8 {
        match self {
            ScopeOfDelete::Specific => 0,
            ScopeOfDelete::AaSpecific => 1,
            ScopeOfDelete::Domain => 2,
            ScopeOfDelete::Vmd => 3,
        }
    }

    /// The scope with this value.
    pub open spec fn of_value(v: u8) -> Result<ScopeOfDelete, MmsError> {
        if v == 0 {
            Ok(ScopeOfDelete::Specific)
        } else if v == 1 {
            Ok(ScopeOfDelete::AaSpecific)
        } else if v == 2 {
            Ok(ScopeOfDelete::Domain)
        } else if v == 3 {
            Ok(ScopeOfDelete::Vmd)
        } else {
            Err(MmsError::DefineNamedVariableListMissingField("scopeOfDelete out of range"))
        }
    }

    /// Returns the INTEGER value written on the wire.
    pub fn wire_value(self) -> (v: u8)
        ensures
            v == self.value(),
    {
        match self {
            ScopeOfDelete::Specific => 0,
            ScopeOfDelete::AaSpecific => 1,
            ScopeOfDelete::Domain => 2,
            ScopeOfDelete::Vmd => 3,
        }
    }

    /// Converts a scope value from the wire, rejecting an undefined one.
    pub fn from_wire(v: u8) -> (r: Result<Self, MmsError>)
        ensures
            r == ScopeOfDelete::of_value(v),
    {
        match v {
            0 => Ok(ScopeOfDelete::Specific),
            1 => Ok(ScopeOfDelete::AaSpecific),
            2 => Ok(ScopeOfDelete::Domain),
            3 => Ok(ScopeOfDelete::Vmd),
            _ => Err(MmsError::DefineNamedVariableListMissingField("scopeOfDelete out of range")),
        }
    }
}

/// Every scope comes back from its value, and a value with a scope comes back from it.
pub proof fn law_scope_round_trip(scope: ScopeOfDelete, v: u8)
    ensures
        ScopeOfDelete::of_value(scope.value()) == Ok::<ScopeOfDelete, MmsError>(scope),
        ScopeOfDelete::of_value(v) matches Ok(x) ==> x.value() == v,
{
}

/// An MMS DeleteNamedVariableListRequest.
#[derive(Debug, Clone, PartialEq, Eq)]
pub struct DeleteNamedVariableListRequest {
    /// scopeOfDelete, OPTIONAL with DEFAULT specific.
    pub scope_of_delete: ScopeOfDelete,
    /// Data sets to delete, OPTIONAL; an empty vector omits listOfVariableListName.
    pub list_of_variable_list_name: Vec<ObjectName>,
    /// Optional domain filter, used when the scope is Domain.
    pub domain_name: Option<String>,
}

/// A request with its names in view.
#[verifier::ext_equal]
pub struct DeleteRequestView {
    /// scopeOfDelete.
    pub scope_of_delete: ScopeOfDelete,
    /// Data sets to delete.
    pub names: Seq<ObjectNameView>,
    /// Domain filter.
    pub domain_name: Option<Seq<char>>,
}

/// The views of names in a row.
pub open spec fn name_views(names: Seq<ObjectName>) -> Seq<ObjectNameView> {
    names.map_values(|n: ObjectName| n@)
}

impl View for DeleteNamedVariableListRequest {
    type V = DeleteRequestView;

    open spec fn view(&self) -> DeleteRequestView {
        DeleteRequestView {
            scope_of_delete: self.scope_of_delete,
            names: name_views(self.list_of_variable_list_name@),
            domain_name: text::opt_text(self.domain_name),
        }
    }
}

/// The encodings of names in a row.
pub open spec fn names_octets(names: Seq<ObjectNameView>) -> Seq<u8>
    decreases names.len(),
{
    if names.len() == 0 {
        Seq::empty()
    } else {
        names_octets(names.drop_last()) + names.last().octets()
    }
}

/// The names that fill `s`, put after those of `acc`.
pub open spec fn name_list_at(s: Seq<u8>, acc: Seq<ObjectNameView>) -> Result<
    Seq<ObjectNameView>,
    MmsError,
>
    decreases s.len(),
{
    if s.len() == 0 {
        Ok(acc)
    } else {
        match ObjectNameView::parse(s) {
            Err(e) => Err(e),
            Ok((name, n)) => {
                proof {
                    ber::lemma_element_bounds(s);
                }
                name_list_at(s.skip(n as int), acc.push(name))
            },
        }
    }
}

/// One field of a request; a later field replaces an earlier one, and others are skipped.
pub open spec fn delete_field(acc: DeleteRequestView, tag: u8, val: Seq<u8>) -> Result<
    DeleteRequestView,
    MmsError,
> {
    if tag == 0x80 {
        if val.len() == 0 {
            Err(MmsError::InvalidLength)
        } else {
            match ScopeOfDelete::of_value(val[0]) {
                Err(e) => Err(e),
                Ok(scope) => Ok(DeleteRequestView { scope_of_delete: scope, ..acc }),
            }
        }
    } else if tag == 0xa1 {
        match name_list_at(val, Seq::empty()) {
            Err(e) => Err(e),
            Ok(names) => Ok(DeleteRequestView { names, ..acc }),
        }
    } else if tag == 0x82 {
        match data::text_field_at(val) {
            Err(e) => Err(e),
            Ok(t) => Ok(DeleteRequestView { domain_name: Some(t), ..acc }),
        }
    } else {
        Ok(acc)
    }
}

/// `delete_field` as a step over the elements.
pub open spec fn delete_fields() -> spec_fn(DeleteRequestView, u8, Seq<u8>) -> Result<
    DeleteRequestView,
    MmsError,
> {
    |acc: DeleteRequestView, tag: u8, val: Seq<u8>| delete_field(acc, tag, val)
}

impl DeleteRequestView {
    /// What a request says where no field says otherwise.
    pub open spec fn default_view() -> DeleteRequestView {
        DeleteRequestView {
            scope_of_delete: ScopeOfDelete::Specific,
            names: Seq::empty(),
            domain_name: None,
        }
    }

    /// The encoding of the names, where there are any.
    pub open spec fn list_octets(self) -> Seq<u8> {
        if self.names.len() == 0 {
            Seq::empty()
        } else {
            ber::tlv(0xa1, names_octets(self.names))
        }
    }

    /// The encoding of the domain filter, where there is one.
    pub open spec fn domain_octets(self) -> Seq<u8> {
        match self.domain_name {
            Some(t) => ber::tlv(0x82, text::utf8(t)),
            None => Seq::empty(),
        }
    }

    /// The content of the service: the scope, the names and the domain filter.
    pub open spec fn content(self) -> Seq<u8> {
        ber::tlv(0x80, seq![self.scope_of_delete.value()]) + (self.list_octets()
            + self.domain_octets())
    }

    /// The encoding of the service.
    pub open spec fn octets(self) -> Seq<u8> {
        ber::tlv(SERVICE_TAG_DELETE_NAMED_VARIABLE_LIST, self.content())
    }

    /// The request with this content.
    pub open spec fn of_content(s: Seq<u8>) -> Result<DeleteRequestView, MmsError> {
        ber::fold(s, DeleteRequestView::default_view(), delete_fields())
    }

    /// The request at the start of `s`.
    pub open spec fn parse(s: Seq<u8>) -> Result<DeleteRequestView, MmsError> {
        match ber::tagged_at(s, SERVICE_TAG_DELETE_NAMED_VARIABLE_LIST) {
            Err(e) => Err(e),
            Ok(e) => DeleteRequestView::of_content(e.val),
        }
    }

    /// Every identifier of the names is within its limit.
    pub open spec fn within_limit(self) -> bool {
        forall|i: int| 0 <= i < self.names.len() ==> (#[trigger] self.names[i]).within_limit()
    }
}

impl Default for DeleteNamedVariableListRequest {
    fn default() -> (r: Self)
        ensures
            r@ == DeleteRequestView::default_view(),
    {
        let r = DeleteNamedVariableListRequest {
            scope_of_delete: ScopeOfDelete::Specific,
            list_of_variable_list_name: Vec::new(),
            domain_name: None,
        };
        assert(r@.names =~= Seq::empty());
        r
    }
}

impl DeleteNamedVariableListRequest {
    /// Builds a specific-scope request deleting one domain-specific data set.
    pub fn specific_domain(domain_id: &str, list_name: &str) -> (r: Self)
        ensures
            r@ == (DeleteRequestView {
                scope_of_delete: ScopeOfDelete::Specific,
                names: seq![
                    ObjectNameView::DomainSpecific { domain_id: domain_id@, item_id: list_name@ },
                ],
                domain_name: None,
            }),
    {
        let mut names: Vec<ObjectName> = Vec::new();
        names.push(
            ObjectName::DomainSpecific {
                domain_id: domain_id.to_owned(),
                item_id: list_name.to_owned(),
            },
        );
        let r = DeleteNamedVariableListRequest {
            scope_of_delete: ScopeOfDelete::Specific,
            list_of_variable_list_name: names,
            domain_name: None,
        };
        assert(r@.names =~= seq![
            ObjectNameView::DomainSpecific { domain_id: domain_id@, item_id: list_name@ },
        ]);
        r
    }

    /// Encodes the request, including the `0xad <len>` service wrapper.
    pub fn encode(&self, buf: &mut BytesMut)
        requires
            buffer::contents(*old(buf)).len() + self@.octets().len() <= isize::MAX,
        ensures
            buffer::contents(*final(buf)) == buffer::contents(*old(buf)) + self@.octets(),
    {
        let mut inner: BytesMut = BytesMut::new();
        // The default scope 0 is still written, because peers expect the field.
        let scope: [u8; 1] = [self.scope_of_delete.wire_value()];
        assert(scope@ =~= seq![self.scope_of_delete.value()]);
        put_tlv(TAG_SCOPE_OF_DELETE, &scope, &mut inner);
        // listOfVariableListName [1] IMPLICIT SEQUENCE OF ObjectName, OPTIONAL
        if self.list_of_variable_list_name.len() > 0 {
            let names: BytesMut = encode_names(&self.list_of_variable_list_name);
            put_tlv(TAG_LIST_OF_NAMES, &names, &mut inner);
        }
        // domainName [2] IMPLICIT VisibleString OPTIONAL
        if let Some(d) = &self.domain_name {
            put_tlv(TAG_DOMAIN_NAME, d.as_str().as_bytes(), &mut inner);
        }
        assert(buffer::contents(inner) =~= self@.content());
        put_tlv(SERVICE_TAG_DELETE_NAMED_VARIABLE_LIST, &inner, buf);
    }

    /// Decodes a request; `data` starts at the `0xad` byte.
    pub fn decode(data: &[u8]) -> (r: Result<Self, MmsError>)
        ensures
            ber::agrees(r, DeleteRequestView::parse(data@)),
    {
        let inner: &[u8] = take_content(data, SERVICE_TAG_DELETE_NAMED_VARIABLE_LIST)?;
        decode_request_inner(inner)
    }
}

/// Encodes names in a row.
fn encode_names(names: &Vec<ObjectName>) -> (buf: BytesMut)
    requires
        names_octets(name_views(names@)).len() <= isize::MAX,
    ensures
        buffer::contents(buf) == names_octets(name_views(names@)),
{
    let mut buf: BytesMut = BytesMut::new();
    let mut i: usize = 0;
    let ghost views = name_views(names@);
    assert(views.take(0) =~= Seq::empty());
    while i < names.len()
        invariant
            i <= names.len(),
            views == name_views(names@),
            names_octets(views).len() <= isize::MAX,
            buffer::contents(buf) == names_octets(views.take(i as int)),
        decreases names.len() - i,
    {
        proof {
            assert(views.take(i + 1).drop_last() =~= views.take(i as int));
            lemma_names_prefix(views, i + 1);
        }
        names[i].encode(&mut buf);
        i = i + 1;
    }
    assert(views.take(names@.len() as int) =~= views);
    buf
}

/// Decodes names in a row.
fn decode_names(data: &[u8]) -> (r: Result<Vec<ObjectName>, MmsError>)
    ensures
        match name_list_at(data@, Seq::empty()) {
            Ok(v) => r matches Ok(x) && name_views(x@) == v,
            Err(e) => r == Err::<Vec<ObjectName>, MmsError>(e),
        },
{
    let mut names: Vec<ObjectName> = Vec::new();
    let mut pos: usize = 0;
    assert(data@.skip(0) =~= data@);
    assert(name_views(names@) =~= Seq::empty());
    while pos < data.len()
        invariant
            pos <= data.len(),
            name_list_at(data@, Seq::empty()) == name_list_at(
                data@.skip(pos as int),
                name_views(names@),
            ),
        decreases data.len() - pos,
    {
        let tail: &[u8] = &data[pos..data.len()];
        assert(tail@ =~= data@.skip(pos as int));
        let (name, used) = ObjectName::decode(tail)?;
        let ghost before = names@;
        names.push(name);
        proof {
            assert(name_views(names@) =~= name_views(before).push(name@));
            assert(data@.skip(pos as int).skip(used as int) =~= data@.skip(pos + used));
        }
        pos = pos + used;
    }
    Ok(names)
}

fn decode_request_inner(data: &[u8]) -> (r: Result<DeleteNamedVariableListRequest, MmsError>)
    ensures
        ber::agrees(r, DeleteRequestView::of_content(data@)),
{
    let mut req: DeleteNamedVariableListRequest = DeleteNamedVariableListRequest::default();
    let mut pos: usize = 0;
    let ghost steps = delete_fields();
    assert(data@.skip(0) =~= data@);
    while pos < data.len()
        invariant
            pos <= data.len(),
            steps == delete_fields(),
            DeleteRequestView::of_content(data@) == ber::fold(
                data@.skip(pos as int),
                req@,
                steps,
            ),
        decreases data.len() - pos,
    {
        let t: Tlv = take_element(data, pos)?;
        assert(steps(req@, t.tag, t.val@) == delete_field(req@, t.tag, t.val@));
        match t.tag {
            TAG_SCOPE_OF_DELETE => {
                if t.val.len() == 0 {
                    return Err(MmsError::InvalidLength);
                }
                req.scope_of_delete = ScopeOfDelete::from_wire(t.val[0])?;
            },
            TAG_LIST_OF_NAMES => {
                req.list_of_variable_list_name = decode_names(t.val)?;
            },
            TAG_DOMAIN_NAME => {
                let s: String = decode_text_field(t.val)?;
                req.domain_name = Some(s);
            },
            _ => {},
        }
        pos = pos + t.size;
    }
    Ok(req)
}

/// An MMS DeleteNamedVariableListResponse.
#[derive(Debug, Clone, Copy, Default, PartialEq, Eq)]
pub struct DeleteNamedVariableListResponse {
    /// Number of data sets that matched the request.
    pub number_matched: u32,
    /// Number of data sets actually deleted.
    pub number_deleted: u32,
}

impl View for DeleteNamedVariableListResponse {
    type V = DeleteNamedVariableListResponse;

    open spec fn view(&self) -> DeleteNamedVariableListResponse {
        *self
    }
}

/// A number of one to four octets.
pub open spec fn number_at(val: Seq<u8>) -> Result<u32, MmsError> {
    match integer::unsigned_at(val, 4) {
        Err(e) => Err(e),
        Ok(v) => Ok(v as u32),
    }
}

/// One field of a response; a later field replaces an earlier one, and others are
/// skipped.
pub open spec fn response_field(
    acc: DeleteNamedVariableListResponse,
    tag: u8,
    val: Seq<u8>,
) -> Result<DeleteNamedVariableListResponse, MmsError> {
    if tag == 0x80 {
        match number_at(val) {
            Err(e) => Err(e),
            Ok(v) => Ok(DeleteNamedVariableListResponse { number_matched: v, ..acc }),
        }
    } else if tag == 0x81 {
        match number_at(val) {
            Err(e) => Err(e),
            Ok(v) => Ok(DeleteNamedVariableListResponse { number_deleted: v, ..acc }),
        }
    } else {
        Ok(acc)
    }
}

/// `response_field` as a step over the elements.
pub open spec fn response_fields() -> spec_fn(
    DeleteNamedVariableListResponse,
    u8,
    Seq<u8>,
) -> Result<DeleteNamedVariableListResponse, MmsError> {
    |acc: DeleteNamedVariableListResponse, tag: u8, val: Seq<u8>| response_field(acc, tag, val)
}

impl DeleteNamedVariableListResponse {
    /// The content of the service: both numbers.
    pub open spec fn content(self) -> Seq<u8> {
        ber::tlv(0x80, integer::unsigned_octets(self.number_matched as u64)) + ber::tlv(
            0x81,
            integer::unsigned_octets(self.number_deleted as u64),
        )
    }

    /// The encoding of the service.
    pub open spec fn octets(self) -> Seq<u8> {
        ber::tlv(SERVICE_TAG_DELETE_NAMED_VARIABLE_LIST, self.content())
    }

    /// Nothing has been counted.
    pub open spec fn zero() -> DeleteNamedVariableListResponse {
        DeleteNamedVariableListResponse { number_matched: 0, number_deleted: 0 }
    }

    /// The response at the start of `s`; a number that is absent is 0.
    pub open spec fn parse(s: Seq<u8>) -> Result<DeleteNamedVariableListResponse, MmsError> {
        match ber::tagged_at(s, SERVICE_TAG_DELETE_NAMED_VARIABLE_LIST) {
            Err(e) => Err(e),
            Ok(e) => ber::fold(
                e.val,
                DeleteNamedVariableListResponse::zero(),
                response_fields(),
            ),
        }
    }

    /// Encodes the complete response, including `0xad <len>`.
    pub fn encode(&self, buf: &mut BytesMut)
        requires
            buffer::contents(*old(buf)).len() + self.octets().len() <= isize::MAX,
        ensures
            buffer::contents(*final(buf)) == buffer::contents(*old(buf)) + self.octets(),
    {
        let mut inner: BytesMut = BytesMut::new();
        put_tlv(0x80, &encode_unsigned_int_minimal(self.number_matched as u64), &mut inner);
        put_tlv(0x81, &encode_unsigned_int_minimal(self.number_deleted as u64), &mut inner);
        assert(buffer::contents(inner) =~= self.content());
        put_tlv(SERVICE_TAG_DELETE_NAMED_VARIABLE_LIST, &inner, buf);
    }

    /// Decodes a response; `data` starts at the `0xad` byte.
    pub fn decode(data: &[u8]) -> (r: Result<Self, MmsError>)
        ensures
            r == DeleteNamedVariableListResponse::parse(data@),
    {
        let inner: &[u8] = take_content(data, SERVICE_TAG_DELETE_NAMED_VARIABLE_LIST)?;
        let mut resp = DeleteNamedVariableListResponse { number_matched: 0, number_deleted: 0 };
        let mut pos: usize = 0;
        let ghost steps = response_fields();
        assert(inner@.skip(0) =~= inner@);
        while pos < inner.len()
            invariant
                pos <= inner.len(),
                ber::tagged_at(data@, SERVICE_TAG_DELETE_NAMED_VARIABLE_LIST) matches Ok(e)
                    && e.val == inner@,
                steps == response_fields(),
                ber::fold(inner@, DeleteNamedVariableListResponse::zero(), steps) == ber::fold(
                    inner@.skip(pos as int),
                    resp,
                    steps,
                ),
            decreases inner.len() - pos,
        {
            let t: Tlv = take_element(inner, pos)?;
            assert(steps(resp, t.tag, t.val@) == response_field(resp, t.tag, t.val@));
            match t.tag {
                0x80 => {
                    resp.number_matched = decode_u32_from_bytes(t.val)?;
                },
                0x81 => {
                    resp.number_deleted = decode_u32_from_bytes(t.val)?;
                },
                _ => {},
            }
            pos = pos + t.size;
        }
        Ok(resp)
    }
}

/// The first names take no more octets than all of them.
proof fn lemma_names_prefix(names: Seq<ObjectNameView>, n: int)
    requires
        0 <= n <= names.len(),
    ensures
        names_octets(names.take(n)).len() <= names_octets(names).len(),
    decreases names.len(),
{
    if n < names.len() {
        lemma_names_prefix(names.drop_last(), n);
        assert(names.drop_last().take(n) =~= names.take(n));
    } else {
        assert(names.take(n) =~= names);
    }
}

/// The encodings in a row, with the first name taken apart.
proof fn lemma_names_first(names: Seq<ObjectNameView>)
    requires
        names.len() > 0,
    ensures
        names_octets(names) == names[0].octets() + names_octets(names.skip(1)),
    decreases names.len(),
{
    reveal_with_fuel(names_octets, 2);
    if names.len() == 1 {
        assert(names.drop_last() =~= Seq::empty());
        assert(names.skip(1) =~= Seq::empty());
    } else {
        lemma_names_first(names.drop_last());
        assert(names.drop_last().skip(1) =~= names.skip(1).drop_last());
    }
    assert(names_octets(names) =~= names[0].octets() + names_octets(names.skip(1)));
}

/// Names in a row are read back in a row.
proof fn lemma_name_list_round_trip(names: Seq<ObjectNameView>, acc: Seq<ObjectNameView>)
    requires
        forall|i: int| 0 <= i < names.len() ==> (#[trigger] names[i]).within_limit(),
    ensures
        name_list_at(names_octets(names), acc) == Ok::<Seq<ObjectNameView>, MmsError>(acc + names),
    decreases names.len(),
{
    if names.len() == 0 {
        assert(acc + names =~= acc);
    } else {
        let first = names[0];
        let others = names.skip(1);
        lemma_names_first(names);
        assert(first.within_limit());
        object_name::law_object_name_round_trip(first, names_octets(others));
        assert((first.octets() + names_octets(others)).skip(first.octets().len() as int)
            =~= names_octets(others));
        assert forall|i: int| 0 <= i < others.len() implies (
        #[trigger] others[i]).within_limit() by {
            assert(others[i] == names[i + 1]);
        }
        lemma_name_list_round_trip(others, acc.push(first));
        assert(acc.push(first) + others =~= acc + names);
    }
}

/// A request with identifiers within their limits, and a content of at most 0xffff
/// octets, decodes to itself, whatever follows it.
pub proof fn law_delete_request_round_trip(r: DeleteRequestView, rest: Seq<u8>)
    requires
        r.within_limit(),
        r.content().len() <= 0xffff,
    ensures
        DeleteRequestView::parse(r.octets() + rest) == Ok::<DeleteRequestView, MmsError>(r),
{
    let steps = delete_fields();
    let scope = seq![r.scope_of_delete.value()];
    let tail = r.domain_octets();
    let f0 = DeleteRequestView::default_view();
    let f1 = DeleteRequestView { scope_of_delete: r.scope_of_delete, ..f0 };
    let f2 = DeleteRequestView { names: r.names, ..f1 };
    ber::law_element_round_trip(SERVICE_TAG_DELETE_NAMED_VARIABLE_LIST, r.content(), rest);
    assert(steps(f0, 0x80, scope) == Ok::<DeleteRequestView, MmsError>(f1));
    ber::lemma_fold_tlv(0x80, scope, r.list_octets() + tail, f0, steps);
    if r.names.len() == 0 {
        assert(r.list_octets() + tail =~= tail);
        assert(f1 =~= f2);
    } else {
        let names = names_octets(r.names);
        lemma_name_list_round_trip(r.names, Seq::empty());
        assert(Seq::<ObjectNameView>::empty() + r.names =~= r.names);
        assert(steps(f1, 0xa1, names) == Ok::<DeleteRequestView, MmsError>(f2));
        ber::lemma_fold_tlv(0xa1, names, tail, f1, steps);
    }
    if let Some(t) = r.domain_name {
        text::lemma_text_round_trip(t);
        assert(steps(f2, 0x82, text::utf8(t)) == Ok::<DeleteRequestView, MmsError>(r));
        ber::lemma_fold_last(0x82, text::utf8(t), f2, steps);
    }
}

/// A response with numbers below 0x8000_0000 decodes to itself, whatever follows it.
pub proof fn law_delete_response_round_trip(r: DeleteNamedVariableListResponse, rest: Seq<u8>)
    requires
        r.number_matched < 0x8000_0000,
        r.number_deleted < 0x8000_0000,
    ensures
        DeleteNamedVariableListResponse::parse(r.octets() + rest) == Ok::<
            DeleteNamedVariableListResponse,
            MmsError,
        >(r),
        r.octets().len() <= 14,
{
    let steps = response_fields();
    let matched = integer::unsigned_octets(r.number_matched as u64);
    let deleted = integer::unsigned_octets(r.number_deleted as u64);
    integer::law_uint_round_trip(r.number_matched as nat);
    integer::law_uint_round_trip(r.number_deleted as nat);
    integer::lemma_uint_octets_width(r.number_matched as nat);
    integer::lemma_uint_octets_width(r.number_deleted as nat);
    let f0 = DeleteNamedVariableListResponse::zero();
    let f1 = DeleteNamedVariableListResponse { number_matched: r.number_matched, ..f0 };
    ber::law_element_round_trip(SERVICE_TAG_DELETE_NAMED_VARIABLE_LIST, r.content(), rest);
    assert(steps(f0, 0x80, matched) == Ok::<DeleteNamedVariableListResponse, MmsError>(f1));
    assert(steps(f1, 0x81, deleted) == Ok::<DeleteNamedVariableListResponse, MmsError>(r));
    ber::lemma_fold_tlv(0x80, matched, ber::tlv(0x81, deleted), f0, steps);
    ber::lemma_fold_last(0x81, deleted, f1, steps);
}

/// Encodes the request as a complete ConfirmedRequestPdu, outer `0xa0` included.
pub fn encode_confirmed_delete_named_variable_list_request(
    invoke_id: u32,
    req: &DeleteNamedVariableListRequest,
    buf: &mut BytesMut,
)
    requires
        buffer::contents(*old(buf)).len() + confirmed::confirmed_octets(
            0xa0,
            invoke_id,
            req@.octets(),
        ).len() <= isize::MAX,
    ensures
        buffer::contents(*final(buf)) == buffer::contents(*old(buf)) + confirmed::confirmed_octets(
            0xa0,
            invoke_id,
            req@.octets(),
        ),
{
    let mut service: BytesMut = BytesMut::new();
    req.encode(&mut service);
    assert(buffer::contents(service) =~= req@.octets());
    put_confirmed(0xa0, invoke_id, &service, buf);
}

/// Encodes the response as a complete ConfirmedResponsePdu, outer `0xa1` included.
pub fn encode_confirmed_delete_named_variable_list_response(
    invoke_id: u32,
    resp: &DeleteNamedVariableListResponse,
    buf: &mut BytesMut,
)
    requires
        buffer::contents(*old(buf)).len() + confirmed::confirmed_octets(
            0xa1,
            invoke_id,
            resp.octets(),
        ).len() <= isize::MAX,
    ensures
        buffer::contents(*final(buf)) == buffer::contents(*old(buf)) + confirmed::confirmed_octets(
            0xa1,
            invoke_id,
            resp.octets(),
        ),
{
    let mut service: BytesMut = BytesMut::new();
    resp.encode(&mut service);
    assert(buffer::contents(service) =~= resp.octets());
    put_confirmed(0xa1, invoke_id, &service, buf);
}

/// Decodes the request inside a ConfirmedRequestPdu; `data` starts at `0xa0`.
pub fn decode_confirmed_delete_named_variable_list_request(data: &[u8]) -> (r: Result<
    (u32, DeleteNamedVariableListRequest),
    MmsError,
>)
    ensures
        confirmed::agrees_with_id(
            r,
            confirmed::service_at(data@, 0xa0, |s: Seq<u8>| DeleteRequestView::parse(s)),
        ),
{
    let (invoke_id, service) = decode_confirmed_pdu_inner(data, 0xa0)?;
    let req: DeleteNamedVariableListRequest = DeleteNamedVariableListRequest::decode(service)?;
    Ok((invoke_id, req))
}

/// Decodes the response inside a ConfirmedResponsePdu; `data` starts at `0xa1`.
pub fn decode_confirmed_delete_named_variable_list_response(data: &[u8]) -> (r: Result<
    (u32, DeleteNamedVariableListResponse),
    MmsError,
>)
    ensures
        confirmed::agrees_with_id(
            r,
            confirmed::service_at(
                data@,
                0xa1,
                |s: Seq<u8>| DeleteNamedVariableListResponse::parse(s),
            ),
        ),
{
    let (invoke_id, service) = decode_confirmed_pdu_inner(data, 0xa1)?;
    let resp: DeleteNamedVariableListResponse = DeleteNamedVariableListResponse::decode(service)?;
    Ok((invoke_id, resp))
}

/// A confirmed request gives back its invoke id and its request, whatever follows it.
pub proof fn law_confirmed_delete_request(invoke_id: u32, r: DeleteRequestView, rest: Seq<u8>)
    requires
        invoke_id < 0x8000_0000,
        r.within_limit(),
        confirmed::confirmed_content(invoke_id, r.octets()).len() <= 0xffff,
    ensures
        confirmed::service_at(
            confirmed::confirmed_octets(0xa0, invoke_id, r.octets()) + rest,
            0xa0,
            |s: Seq<u8>| DeleteRequestView::parse(s),
        ) == Ok::<(u32, DeleteRequestView), MmsError>((invoke_id, r)),
{
    law_delete_request_round_trip(r, Seq::empty());
    assert(r.octets() + Seq::<u8>::empty() =~= r.octets());
    confirmed::lemma_service_round_trip(
        0xa0,
        invoke_id,
        r.octets(),
        rest,
        |s: Seq<u8>| DeleteRequestView::parse(s),
        r,
    );
}

/// A confirmed response gives back its invoke id and its numbers, whatever follows it.
pub proof fn law_confirmed_delete_response(
    invoke_id: u32,
    r: DeleteNamedVariableListResponse,
    rest: Seq<u8>,
)
    requires
        invoke_id < 0x8000_0000,
        r.number_matched < 0x8000_0000,
        r.number_deleted < 0x8000_0000,
    ensures
        confirmed::service_at(
            confirmed::confirmed_octets(0xa1, invoke_id, r.octets()) + rest,
            0xa1,
            |s: Seq<u8>| DeleteNamedVariableListResponse::parse(s),
        ) == Ok::<(u32, DeleteNamedVariableListResponse), MmsError>((invoke_id, r)),
{
    law_delete_response_round_trip(r, Seq::empty());
    integer::law_unsigned_round_trip(invoke_id as u64);
    assert(r.octets() + Seq::<u8>::empty() =~= r.octets());
    confirmed::lemma_service_round_trip(
        0xa1,
        invoke_id,
        r.octets(),
        rest,
        |s: Seq<u8>| DeleteNamedVariableListResponse::parse(s),
        r,
    );
}

} // verus!
