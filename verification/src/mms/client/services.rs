//! MMS confirmed services: Read, Write, GetNameList, GetVariableAccessAttributes, and the
//! named variable list and journal services.
//!
//! Every service follows the same shape:
//! 1. Take a fresh invokeID from the allocator.
//! 2. Encode the confirmed request, invokeID and service body included. These two steps
//!    are the `*_request` functions, which return a `Call`.
//! 3. Send its PDU, and release the invokeID when that fails.
//! 4. Await the answer, release the invokeID, and dispatch on the type of the answer with
//!    the `dispatch_*` function of the service.
//! 5. A confirmed response succeeds, a confirmed error becomes a `ServiceError`,
//!    and a reject becomes a `RejectError`.
//!
//! ## Confirmed errors
//!
//! A ConfirmedError PDU, tag `0xa2`, is parsed by `handle_confirmed_error`, whose
//! `ErrorClass` is carried through in `ClientError::ServiceError`.
//!
//! ## Response framing
//!
//! `MmsPdu::ConfirmedResponse(inner)` holds the content of the `0xa1` TLV with its tag and
//! length already removed. The decoders, such as `decode_confirmed_read_response`, expect
//! to start at the `0xa1` tag, so `rewrap_response` puts the tag and length back first.

use bytes::{Bytes, BytesMut};
use vstd::prelude::*;

use crate::buffer;
use crate::mms::client::connection;
use crate::mms::client::error;
use crate::mms::client::error::{ClientError, ClientErrorView};
use crate::mms::client::invoke_id::{AllocatorView, InvokeIdAllocator};
use crate::mms::error::MmsError;
use crate::mms::pdu;
use crate::mms::pdu::access::{AccessResult, AccessResultView, WriteOutcome};
use crate::mms::pdu::alternate_access;
use crate::mms::pdu::alternate_access::{AlternateAccess, AlternateAccessView};
use crate::mms::pdu::ber;
use crate::mms::pdu::ber::{put_tlv, take_tagged};
use crate::mms::pdu::confirmed;
use crate::mms::pdu::data::{MmsData, MmsDataView};
use crate::mms::pdu::define_named_variable_list;
use crate::mms::pdu::define_named_variable_list::{
    decode_confirmed_define_named_variable_list_response,
    encode_confirmed_define_named_variable_list_request,
    DefineNamedVariableEntry,
    DefineNamedVariableListRequest,
    DefineRequestView,
    MAX_DEFINE_ENTRIES,
};
use crate::mms::pdu::delete_named_variable_list;
use crate::mms::pdu::delete_named_variable_list::{
    decode_confirmed_delete_named_variable_list_response,
    encode_confirmed_delete_named_variable_list_request,
    DeleteNamedVariableListRequest,
    DeleteNamedVariableListResponse,
    DeleteRequestView,
    ScopeOfDelete,
};
use crate::mms::pdu::get_name_list;
use crate::mms::pdu::get_name_list::{
    decode_confirmed_get_name_list_response,
    encode_confirmed_get_name_list_request,
    GetNameListRequest,
    GetNameListRequestView,
    GetNameListResponseView,
    ObjectClass,
    ObjectScope,
    ObjectScopeView,
};
use crate::mms::pdu::get_var_access_attrs;
use crate::mms::pdu::get_var_access_attrs::{
    decode_confirmed_get_var_access_attrs_response,
    encode_confirmed_get_var_access_attrs_request,
    AttributesView,
    GetVariableAccessAttributesRequest,
};
use crate::mms::pdu::integer;
use crate::mms::pdu::object_name::{ObjectName, ObjectNameView};
use crate::mms::pdu::read;
use crate::mms::pdu::read::{
    decode_confirmed_read_response,
    encode_confirmed_read_request,
    ReadRequest,
    ReadRequestView,
    ReadResponse,
    ReadResponseView,
};
use crate::mms::pdu::read_journal;
use crate::mms::pdu::read_journal::{
    decode_confirmed_read_journal_response,
    encode_confirmed_read_journal_request,
    JournalResponseView,
    ReadJournalRequest,
    ReadJournalResponse,
};
use crate::mms::pdu::reject;
use crate::mms::pdu::reject::RejectPdu;
use crate::mms::pdu::service_error;
use crate::mms::pdu::service_error::{ErrorClass, ServiceError, ServiceErrorView};
use crate::mms::pdu::type_specification::{TypeSpecification, MAX_TYPE_SPEC_DEPTH};
use crate::mms::pdu::variable_access;
use crate::mms::pdu::variable_access::{
    ListOfVariableEntry,
    ListOfVariableEntryView,
    VariableAccessSpecification,
    VariableAccessView,
};
use crate::mms::pdu::{MmsPdu, MmsPduView};
use crate::text;

verus! {

broadcast use ber::group_element_sizes;

/// A value as seen by the service layer.
///
/// The service layer passes `MmsData` through unchanged.
pub type MmsValue = MmsData;

// Re-adding and stripping the outer PDU wrapper

/// Puts the `0xa1 <len>` wrapper back around ConfirmedResponse content.
///
/// `MmsPdu::ConfirmedResponse(inner)` carries content whose outer `0xa1 <len>` has
/// already been removed, while the response decoders expect to start at that tag.
pub fn rewrap_response(tag: u8, inner: &Bytes) -> (r: Vec<u8>)
    requires
        ber::tlv(tag, buffer::frozen(*inner)).len() <= isize::MAX,
    ensures
        r@ == ber::tlv(tag, buffer::frozen(*inner)),
{
    let mut buf: BytesMut = BytesMut::new();
    put_tlv(tag, inner, &mut buf);
    assert(buffer::contents(buf) =~= ber::tlv(tag, buffer::frozen(*inner)));
    vstd::slice::slice_to_vec(&buf)
}

/// What is left of a confirmed request PDU without its outer tag and length.
pub open spec fn stripped(s: Seq<u8>) -> Result<Seq<u8>, ClientErrorView> {
    if s.len() == 0 {
        Err(connection::unexpected("strip_confirmed_wrapper: expected 0xa0 tag, got 0x"@, 0, false))
    } else if s[0] != 0xa0 {
        Err(
            connection::unexpected(
                "strip_confirmed_wrapper: expected 0xa0 tag, got 0x"@,
                s[0],
                false,
            ),
        )
    } else if s.len() == 1 || s[1] == 0x80 || s[1] > 0x84 {
        Err(
            ClientErrorView::PduParse("strip_confirmed_wrapper: malformed outer ber length"@),
        )
    } else {
        let start: int = if s[1] < 0x80 {
            2
        } else {
            s[1] - 0x80 + 2
        };
        if s.len() < start {
            Err(ClientErrorView::PduParse("strip_confirmed_wrapper: outer wrapper truncated"@))
        } else {
            Ok(s.skip(start))
        }
    }
}

/// Strips the outer `0xa0 <len>` from a complete confirmed request PDU.
///
/// The `inner` of `MmsPdu::ConfirmedRequest` is the content with that wrapper
/// removed, mirroring what `MmsPdu::decode` produces.
///
/// The `encode_confirmed_*_request` functions emit a complete PDU including the
/// wrapper, so one layer must come off before the bytes go into a `ConfirmedRequest`
/// variant. Otherwise `MmsPdu::encode` wraps them a second time, the peer sees an
/// inner tag of `0xa0`, and answers `RejectPDU { confirmedRequest, unrecognizedService }`.
pub fn strip_confirmed_wrapper(full: BytesMut) -> (r: Result<Bytes, ClientError>)
    ensures
        match stripped(buffer::contents(full)) {
            Ok(s) => r matches Ok(b) && buffer::frozen(b) == s,
            Err(e) => r matches Err(x) && x@ == e,
        },
{
    let data: Bytes = full.freeze();
    let octets: &[u8] = &data;
    let first: u8 = if octets.len() == 0 {
        0
    } else {
        octets[0]
    };
    if first != 0xa0 {
        let tag: String = text::hex(first, false);
        return Err(
            ClientError::PduParse(
                text::concat(
                    "strip_confirmed_wrapper: expected 0xa0 tag, got 0x",
                    tag.as_str(),
                ),
            ),
        );
    }
    // BER length: the short form, or a long form of up to four length bytes
    if octets.len() == 1 || octets[1] == 0x80 || octets[1] > 0x84 {
        return Err(
            ClientError::PduParse(
                "strip_confirmed_wrapper: malformed outer ber length".to_owned(),
            ),
        );
    }
    let content_start: usize = if octets[1] < 0x80 {
        2
    } else {
        (octets[1] - 0x80) as usize + 2
    };
    if octets.len() < content_start {
        return Err(
            ClientError::PduParse("strip_confirmed_wrapper: outer wrapper truncated".to_owned()),
        );
    }
    Ok(buffer::slice_from(&data, content_start))
}

/// Stripping an encoded confirmed request leaves its content.
pub proof fn law_strip_undoes_wrap(content: Seq<u8>)
    ensures
        stripped(ber::tlv(0xa0, content)) == Ok::<Seq<u8>, ClientErrorView>(content),
{
    let s = ber::tlv(0xa0, content);
    let start: int = s.len() - content.len();
    assert(s.skip(start) =~= content);
}

// Requests

/// A confirmed request ready to be sent, with the invokeID that it holds in flight.
pub struct Call {
    /// The invokeID, to be released once the call is over.
    pub invoke_id: u32,
    /// The request PDU.
    pub pdu: MmsPdu,
}

/// A service of this length fits in a buffer together with its wrapper.
pub open spec fn fits(service: Seq<u8>) -> bool {
    service.len() + 16 <= isize::MAX
}

/// An invokeID was asked for, and the result is the request that carries it and this
/// service, or the error of the allocation.
pub open spec fn issues(
    before: AllocatorView,
    after: AllocatorView,
    r: Result<Call, ClientError>,
    service: Seq<u8>,
) -> bool {
    &&& after == before.after_allocation()
    &&& match before.allocation() {
        Err(e) => r matches Err(x) && x@ == e,
        Ok(id) => r matches Ok(call) && call.invoke_id == id && call.pdu@
            == MmsPduView::ConfirmedRequest(confirmed::confirmed_content(id, service)),
    }
}

/// A confirmed PDU around a service that fits takes no more than a buffer can hold.
proof fn lemma_confirmed_fits(invoke_id: u32, service: Seq<u8>)
    requires
        fits(service),
    ensures
        confirmed::confirmed_octets(0xa0, invoke_id, service).len() <= isize::MAX,
{
    integer::law_unsigned_round_trip(invoke_id as u64);
    integer::lemma_uint_octets_width(invoke_id as nat);
}

/// Turns an encoded request into its PDU; where that fails, the invokeID is released.
pub fn confirmed_request(
    alloc: &mut InvokeIdAllocator,
    invoke_id: u32,
    full: BytesMut,
) -> (r: Result<Call, ClientError>)
    requires
        old(alloc)@.well_formed(),
    ensures
        final(alloc)@.well_formed(),
        match stripped(buffer::contents(full)) {
            Ok(s) => {
                &&& r matches Ok(call) && call.invoke_id == invoke_id && call.pdu@
                    == MmsPduView::ConfirmedRequest(s)
                &&& final(alloc)@ == old(alloc)@
            },
            Err(e) => {
                &&& r matches Err(x) && x@ == e
                &&& final(alloc)@ == old(alloc)@.released(invoke_id)
            },
        },
{
    match strip_confirmed_wrapper(full) {
        Ok(inner) => Ok(Call { invoke_id, pdu: MmsPdu::ConfirmedRequest(inner) }),
        Err(e) => {
            alloc.release(invoke_id);
            Err(e)
        },
    }
}

/// The access specification of one variable of a domain.
pub open spec fn variable_spec(
    domain: Seq<char>,
    item: Seq<char>,
    alt_access: Option<AlternateAccessView>,
) -> VariableAccessView {
    VariableAccessView::ListOfVariable(
        seq![
            ListOfVariableEntryView {
                name: ObjectNameView::DomainSpecific { domain_id: domain, item_id: item },
                alt_access,
            },
        ],
    )
}

/// A Read request for what `spec` names.
pub open spec fn read_of(spec: VariableAccessView) -> ReadRequestView {
    ReadRequestView { specification_with_result: false, variable_access_spec: spec }
}

/// Builds an access specification of one variable.
fn list_of_one(entry: ListOfVariableEntry) -> (r: VariableAccessSpecification)
    ensures
        r@ == VariableAccessView::ListOfVariable(seq![entry@]),
{
    let mut entries: Vec<ListOfVariableEntry> = Vec::new();
    entries.push(entry);
    assert(variable_access::entry_views(entries@) =~= seq![entry@]);
    VariableAccessSpecification::ListOfVariable(entries)
}

/// Builds the access specification that a read or write of one variable carries.
pub fn variable(domain: &str, item: &str) -> (r: VariableAccessSpecification)
    ensures
        r@ == variable_spec(domain@, item@, None),
{
    list_of_one(
        ListOfVariableEntry::name(
            ObjectName::DomainSpecific { domain_id: domain.to_owned(), item_id: item.to_owned() },
        ),
    )
}

/// The selector of an array element, and of a component in it where one is named.
pub open spec fn element_selector(index: u32, component: Option<Seq<char>>) -> Result<
    AlternateAccessView,
    MmsError,
> {
    match component {
        None => Ok(AlternateAccessView::Index(index)),
        Some(c) => if text::utf8(c).len() == 0 {
            Err(MmsError::AlternateAccessUnsupported("component is empty"))
        } else {
            match alternate_access::path_fault(text::utf8(c)) {
                Some(e) => Err(e),
                None => Ok(AlternateAccessView::IndexComponent { index, component: c }),
            }
        },
    }
}

/// A text that may be absent.
pub open spec fn opt_str(s: Option<&str>) -> Option<Seq<char>> {
    match s {
        Some(t) => Some(t@),
        None => None,
    }
}

/// Builds the access specification that a read or write of one array element carries.
///
/// - `component = None` -> `selectAccess.index` (element only).
/// - `component = Some("stVal")` -> `selectAlternateAccess { index, component }`
///   (sub-DA within the element; multiple levels separated by `$`).
pub fn array_element(domain: &str, item: &str, index: u32, component: Option<&str>) -> (r: Result<
    VariableAccessSpecification,
    ClientError,
>)
    ensures
        match element_selector(index, opt_str(component)) {
            Ok(a) => r matches Ok(v) && v@ == variable_spec(domain@, item@, Some(a)),
            Err(e) => r matches Err(x) && x@ == ClientErrorView::PduParse(
                "AlternateAccess: "@ + e@.text(),
            ),
        },
{
    let alt_access: AlternateAccess = match component {
        None => AlternateAccess::index(index),
        Some(c) => match AlternateAccess::index_component(index, c) {
            Ok(a) => a,
            Err(e) => {
                let message: String = e.message();
                return Err(
                    ClientError::PduParse(text::concat("AlternateAccess: ", message.as_str())),
                );
            },
        },
    };
    Ok(
        list_of_one(
            ListOfVariableEntry::with_alt_access(
                ObjectName::DomainSpecific {
                    domain_id: domain.to_owned(),
                    item_id: item.to_owned(),
                },
                alt_access,
            ),
        ),
    )
}

/// Takes an invokeID and encodes a Read request under it.
fn issue_read(alloc: &mut InvokeIdAllocator, req: &ReadRequest) -> (r: Result<Call, ClientError>)
    requires
        old(alloc)@.well_formed(),
        fits(req@.octets()),
    ensures
        final(alloc)@.well_formed(),
        issues(old(alloc)@, final(alloc)@, r, req@.octets()),
{
    let invoke_id: u32 = alloc.allocate()?;
    proof {
        lemma_confirmed_fits(invoke_id, req@.octets());
        law_strip_undoes_wrap(confirmed::confirmed_content(invoke_id, req@.octets()));
    }
    let mut full: BytesMut = BytesMut::new();
    encode_confirmed_read_request(invoke_id, req, &mut full);
    assert(buffer::contents(full) =~= confirmed::confirmed_octets(0xa0, invoke_id, req@.octets()));
    confirmed_request(alloc, invoke_id, full)
}

/// Begins the read of one MMS variable.
///
/// `domain` and `item` form a domain-specific ObjectName.
pub fn read_variable_request(alloc: &mut InvokeIdAllocator, domain: &str, item: &str) -> (r: Result<
    Call,
    ClientError,
>)
    requires
        old(alloc)@.well_formed(),
        fits(read_of(variable_spec(domain@, item@, None)).octets()),
    ensures
        final(alloc)@.well_formed(),
        issues(
            old(alloc)@,
            final(alloc)@,
            r,
            read_of(variable_spec(domain@, item@, None)).octets(),
        ),
{
    let req = ReadRequest {
        specification_with_result: false,
        variable_access_spec: variable(domain, item),
    };
    assert(req@ =~= read_of(variable_spec(domain@, item@, None)));
    issue_read(alloc, &req)
}

/// Begins the read of a single array element, optionally of a sub-component.
///
/// A component that cannot be selected is an error, before an invokeID is taken.
pub fn read_single_array_element_request(
    alloc: &mut InvokeIdAllocator,
    domain: &str,
    item: &str,
    index: u32,
    component: Option<&str>,
) -> (r: Result<Call, ClientError>)
    requires
        old(alloc)@.well_formed(),
        element_selector(index, opt_str(component)) matches Ok(a) ==> fits(
            read_of(variable_spec(domain@, item@, Some(a))).octets(),
        ),
    ensures
        final(alloc)@.well_formed(),
        match element_selector(index, opt_str(component)) {
            Ok(a) => issues(
                old(alloc)@,
                final(alloc)@,
                r,
                read_of(variable_spec(domain@, item@, Some(a))).octets(),
            ),
            Err(e) => {
                &&& r matches Err(x) && x@ == ClientErrorView::PduParse(
                    "AlternateAccess: "@ + e@.text(),
                )
                &&& final(alloc)@ == old(alloc)@
            },
        },
{
    let spec: VariableAccessSpecification = array_element(domain, item, index, component)?;
    let req = ReadRequest { specification_with_result: false, variable_access_spec: spec };
    assert(req@ =~= read_of(spec@));
    issue_read(alloc, &req)
}

/// Begins the read of every value of a named variable list.
///
/// `domain` and `list_name` name a NamedVariableList, that is a data set, on the server.
///
/// Unlike the read of a variable, the request carries
/// `VariableAccessSpecification::VariableListName`, a single object the server
/// expands into its member list, rather than `ListOfVariable`.
pub fn read_named_variable_list_values_request(
    alloc: &mut InvokeIdAllocator,
    domain: &str,
    list_name: &str,
) -> (r: Result<Call, ClientError>)
    requires
        old(alloc)@.well_formed(),
        fits(read_of(list_spec(domain@, list_name@)).octets()),
    ensures
        final(alloc)@.well_formed(),
        issues(
            old(alloc)@,
            final(alloc)@,
            r,
            read_of(list_spec(domain@, list_name@)).octets(),
        ),
{
    let name: ObjectName = ObjectName::DomainSpecific {
        domain_id: domain.to_owned(),
        item_id: list_name.to_owned(),
    };
    let req: ReadRequest = ReadRequest::named_list(name, false);
    assert(req@ =~= read_of(list_spec(domain@, list_name@)));
    issue_read(alloc, &req)
}

/// The access specification of a named variable list of a domain.
pub open spec fn list_spec(domain: Seq<char>, list_name: Seq<char>) -> VariableAccessView {
    VariableAccessView::VariableListName(
        ObjectNameView::DomainSpecific { domain_id: domain, item_id: list_name },
    )
}

/// The GetNameList request of these arguments: an absent domain selects the VMD.
pub open spec fn name_list_of(
    object_class: ObjectClass,
    domain: Option<Seq<char>>,
    continue_after: Option<Seq<char>>,
) -> GetNameListRequestView {
    GetNameListRequestView {
        object_class,
        object_scope: match domain {
            Some(d) => ObjectScopeView::DomainSpecific(d),
            None => ObjectScopeView::VmdSpecific,
        },
        continue_after,
    }
}

/// Begins the retrieval of a list of object names.
///
/// `object_class` selects the class to enumerate, such as `ObjectClass::NamedVariable`.
/// `domain` of `Some(name)` selects a domain-specific scope, and `None` the VMD.
/// `continue_after` is the paging cursor, and `None` starts from the beginning.
pub fn get_name_list_request(
    alloc: &mut InvokeIdAllocator,
    object_class: ObjectClass,
    domain: Option<&str>,
    continue_after: Option<&str>,
) -> (r: Result<Call, ClientError>)
    requires
        old(alloc)@.well_formed(),
        fits(name_list_of(object_class, opt_str(domain), opt_str(continue_after)).octets()),
    ensures
        final(alloc)@.well_formed(),
        issues(
            old(alloc)@,
            final(alloc)@,
            r,
            name_list_of(object_class, opt_str(domain), opt_str(continue_after)).octets(),
        ),
{
    let invoke_id: u32 = alloc.allocate()?;
    let object_scope: ObjectScope = match domain {
        Some(d) => ObjectScope::DomainSpecific(d.to_owned()),
        None => ObjectScope::VmdSpecific,
    };
    let cursor: Option<String> = match continue_after {
        Some(s) => Some(s.to_owned()),
        None => None,
    };
    let req = GetNameListRequest { object_class, object_scope, continue_after: cursor };
    assert(req@ =~= name_list_of(object_class, opt_str(domain), opt_str(continue_after)));
    proof {
        lemma_confirmed_fits(invoke_id, req@.octets());
        law_strip_undoes_wrap(confirmed::confirmed_content(invoke_id, req@.octets()));
    }
    let mut full: BytesMut = BytesMut::new();
    encode_confirmed_get_name_list_request(invoke_id, &req, &mut full);
    assert(buffer::contents(full) =~= confirmed::confirmed_octets(0xa0, invoke_id, req@.octets()));
    confirmed_request(alloc, invoke_id, full)
}

/// Begins the read of journal entries.
///
/// `req` carries either the time-range or the start-after form of the request.
pub fn read_journal_request(alloc: &mut InvokeIdAllocator, req: &ReadJournalRequest) -> (r: Result<
    Call,
    ClientError,
>)
    requires
        old(alloc)@.well_formed(),
        fits(req@.octets()),
    ensures
        final(alloc)@.well_formed(),
        issues(old(alloc)@, final(alloc)@, r, req@.octets()),
{
    let invoke_id: u32 = alloc.allocate()?;
    proof {
        lemma_confirmed_fits(invoke_id, req@.octets());
        law_strip_undoes_wrap(confirmed::confirmed_content(invoke_id, req@.octets()));
    }
    let mut full: BytesMut = BytesMut::new();
    encode_confirmed_read_journal_request(invoke_id, req, &mut full);
    assert(buffer::contents(full) =~= confirmed::confirmed_octets(0xa0, invoke_id, req@.octets()));
    confirmed_request(alloc, invoke_id, full)
}

/// Begins the retrieval of the access attributes of a variable.
pub fn get_variable_access_attributes_request(
    alloc: &mut InvokeIdAllocator,
    domain: &str,
    item: &str,
) -> (r: Result<Call, ClientError>)
    requires
        old(alloc)@.well_formed(),
        fits(
            get_var_access_attrs::request_octets(
                ObjectNameView::DomainSpecific { domain_id: domain@, item_id: item@ },
            ),
        ),
    ensures
        final(alloc)@.well_formed(),
        issues(
            old(alloc)@,
            final(alloc)@,
            r,
            get_var_access_attrs::request_octets(
                ObjectNameView::DomainSpecific { domain_id: domain@, item_id: item@ },
            ),
        ),
{
    let invoke_id: u32 = alloc.allocate()?;
    let req = GetVariableAccessAttributesRequest {
        object_name: ObjectName::DomainSpecific {
            domain_id: domain.to_owned(),
            item_id: item.to_owned(),
        },
    };
    let ghost service = get_var_access_attrs::request_octets(req@);
    proof {
        lemma_confirmed_fits(invoke_id, service);
        law_strip_undoes_wrap(confirmed::confirmed_content(invoke_id, service));
    }
    let mut full: BytesMut = BytesMut::new();
    encode_confirmed_get_var_access_attrs_request(invoke_id, &req, &mut full);
    assert(buffer::contents(full) =~= confirmed::confirmed_octets(0xa0, invoke_id, service));
    confirmed_request(alloc, invoke_id, full)
}

/// The DefineNamedVariableList request of these arguments.
pub open spec fn definition_of(
    domain: Seq<char>,
    list_name: Seq<char>,
    entries: Seq<DefineNamedVariableEntry>,
) -> DefineRequestView {
    DefineRequestView {
        list_name: ObjectNameView::DomainSpecific { domain_id: domain, item_id: list_name },
        members: define_named_variable_list::member_views(entries),
    }
}

/// Begins the creation of a dynamic data set, a NamedVariableList.
///
/// `domain` and `list_name` name the NamedVariableList to create, and `entries` are
/// its members, stored in the order given. With more than `MAX_DEFINE_ENTRIES` of them
/// the request is refused, and the invokeID taken for it is released again.
pub fn define_named_variable_list_request(
    alloc: &mut InvokeIdAllocator,
    domain: &str,
    list_name: &str,
    entries: Vec<DefineNamedVariableEntry>,
) -> (r: Result<Call, ClientError>)
    requires
        old(alloc)@.well_formed(),
        fits(definition_of(domain@, list_name@, entries@).octets()),
    ensures
        final(alloc)@.well_formed(),
        entries.len() <= MAX_DEFINE_ENTRIES ==> issues(
            old(alloc)@,
            final(alloc)@,
            r,
            definition_of(domain@, list_name@, entries@).octets(),
        ),
        entries.len() > MAX_DEFINE_ENTRIES ==> match old(alloc)@.allocation() {
            Ok(id) => {
                &&& r matches Err(x) && x@ == error::parse_error(
                    MmsError::TooManyDefineEntries { count: entries.len() },
                )
                &&& final(alloc)@ == old(alloc)@.after_allocation().released(id)
            },
            Err(e) => {
                &&& r matches Err(x) && x@ == e
                &&& final(alloc)@ == old(alloc)@.after_allocation()
            },
        },
{
    let ghost service = definition_of(domain@, list_name@, entries@).octets();
    let invoke_id: u32 = alloc.allocate()?;
    let req: DefineNamedVariableListRequest = DefineNamedVariableListRequest::domain(
        domain,
        list_name,
        entries,
    );
    assert(req@.octets() == service);
    proof {
        lemma_confirmed_fits(invoke_id, service);
        law_strip_undoes_wrap(confirmed::confirmed_content(invoke_id, service));
    }
    let mut full: BytesMut = BytesMut::new();
    if let Err(e) = encode_confirmed_define_named_variable_list_request(
        invoke_id,
        &req,
        &mut full,
    ) {
        alloc.release(invoke_id);
        return Err(ClientError::pdu_parse(&e));
    }
    assert(buffer::contents(full) =~= confirmed::confirmed_octets(0xa0, invoke_id, service));
    confirmed_request(alloc, invoke_id, full)
}

/// The DeleteNamedVariableList request of these arguments.
pub open spec fn deletion_of(domain: Seq<char>, list_name: Seq<char>) -> DeleteRequestView {
    DeleteRequestView {
        scope_of_delete: ScopeOfDelete::Specific,
        names: seq![ObjectNameView::DomainSpecific { domain_id: domain, item_id: list_name }],
        domain_name: None,
    }
}

/// Begins the deletion of a dynamic data set.
///
/// The request uses the specific scope, deleting one data set.
pub fn delete_named_variable_list_request(
    alloc: &mut InvokeIdAllocator,
    domain: &str,
    list_name: &str,
) -> (r: Result<Call, ClientError>)
    requires
        old(alloc)@.well_formed(),
        fits(deletion_of(domain@, list_name@).octets()),
    ensures
        final(alloc)@.well_formed(),
        issues(old(alloc)@, final(alloc)@, r, deletion_of(domain@, list_name@).octets()),
{
    let invoke_id: u32 = alloc.allocate()?;
    let req: DeleteNamedVariableListRequest = DeleteNamedVariableListRequest::specific_domain(
        domain,
        list_name,
    );
    proof {
        lemma_confirmed_fits(invoke_id, req@.octets());
        law_strip_undoes_wrap(confirmed::confirmed_content(invoke_id, req@.octets()));
    }
    let mut full: BytesMut = BytesMut::new();
    encode_confirmed_delete_named_variable_list_request(invoke_id, &req, &mut full);
    assert(buffer::contents(full) =~= confirmed::confirmed_octets(0xa0, invoke_id, req@.octets()));
    confirmed_request(alloc, invoke_id, full)
}

// Answers

/// The class of the ServiceError under the tag 0xa2 at `start`, where there is one.
pub open spec fn error_class_at(s: Seq<u8>, start: int) -> Option<ErrorClass> {
    if start <= s.len() {
        match ber::tagged_at(s.skip(start), 0xa2) {
            Ok(e) => match ServiceErrorView::of_content(e.val) {
                Ok(se) => Some(se.error_class),
                Err(_) => None,
            },
            Err(_) => None,
        }
    } else {
        None
    }
}

/// The error that the content of a ConfirmedError PDU stands for: the class of its
/// ServiceError, which an invokeID may precede.
pub open spec fn confirmed_error_of(s: Seq<u8>) -> ClientErrorView {
    let start: int = if s.len() >= 3 && (s[0] == 0x02 || s[0] == 0x80) {
        2 + s[1]
    } else {
        0
    };
    match error_class_at(s, start) {
        Some(error_class) => ClientErrorView::ServiceError { error_class },
        None => ClientErrorView::PduParse("ConfirmedError decode failed"@),
    }
}

/// Turns the content of a ConfirmedError PDU into a `ClientError::ServiceError`.
///
/// The content after tag `0xa2` is:
/// ```text
/// 0x02 <len> <invokeId>   -- invokeID, skipped; also under its context tag 0x80
/// 0xa2 <len> ...          -- serviceError
/// ```
pub fn handle_confirmed_error(inner: &[u8]) -> (e: ClientError)
    ensures
        e@ == confirmed_error_of(inner@),
{
    // skip the invokeID
    let mut pos: usize = 0;
    if inner.len() >= 3 && (inner[0] == 0x02 || inner[0] == 0x80) {
        pos = 2 + inner[1] as usize;
    }
    // serviceError, EXPLICIT [2] with tag 0xa2
    if pos <= inner.len() {
        if let Ok(t) = take_tagged(inner, pos, 0xa2) {
            if let Ok(se) = ServiceError::decode_inner(t.val) {
                return ClientError::ServiceError { error_class: se.error_class };
            }
        }
    }
    // nothing could be decoded, so report a generic parse failure
    ClientError::PduParse("ConfirmedError decode failed".to_owned())
}

/// The confirmed response PDU that an answer holds, or the error it stands for.
pub open spec fn response_of(p: MmsPduView) -> Result<Seq<u8>, ClientErrorView> {
    match p {
        MmsPduView::ConfirmedResponse(inner) => Ok(ber::tlv(0xa1, inner)),
        MmsPduView::ConfirmedError(inner) => Err(confirmed_error_of(inner)),
        MmsPduView::Reject(reject) => Err(ClientErrorView::RejectError { reason: reject.reason }),
        _ => Err(connection::unexpected("unexpected PDU tag=0x"@, p.tag(), true)),
    }
}

/// The response with its wrapper is no larger than a buffer can be.
pub open spec fn deliverable(p: MmsPduView) -> bool {
    p matches MmsPduView::ConfirmedResponse(inner) ==> inner.len() + 4 <= isize::MAX
}

/// Takes the confirmed response out of an answer, outer `0xa1` included.
///
/// A confirmed error becomes a `ServiceError`, a reject a `RejectError`, and any other PDU
/// is unexpected.
pub fn response_octets(pdu: MmsPdu) -> (r: Result<Vec<u8>, ClientError>)
    requires
        deliverable(pdu@),
    ensures
        error::agrees(r, response_of(pdu@)),
{
    match pdu {
        MmsPdu::ConfirmedResponse(inner) => Ok(rewrap_response(0xa1, &inner)),
        MmsPdu::ConfirmedError(inner) => Err(handle_confirmed_error(&inner)),
        MmsPdu::Reject(reject) => Err(ClientError::RejectError { reason: reject.reason }),
        other => {
            let tag: String = text::hex(other.tag_byte(), true);
            Err(ClientError::PduParse(text::concat("unexpected PDU tag=0x", tag.as_str())))
        },
    }
}

/// What a decoded response delivers: the service, or the error of the decoder.
pub open spec fn delivered<V>(r: Result<(u32, V), MmsError>) -> Result<V, ClientErrorView> {
    match r {
        Ok((_, v)) => Ok(v),
        Err(e) => Err(error::parse_error(e)),
    }
}

/// The ReadResponse that an answer delivers.
pub open spec fn read_response_of(p: MmsPduView) -> Result<ReadResponseView, ClientErrorView> {
    match response_of(p) {
        Err(e) => Err(e),
        Ok(s) => delivered(
            confirmed::service_at(s, 0xa1, |t: Seq<u8>| ReadResponseView::parse(t)),
        ),
    }
}

/// The first of the results: its value, or its error.
pub open spec fn first_result(results: Seq<AccessResultView>) -> Result<
    MmsDataView,
    ClientErrorView,
> {
    if results.len() == 0 {
        Err(ClientErrorView::PduParse("read response carries no access result"@))
    } else {
        match results[0] {
            AccessResultView::Success(v) => Ok(v),
            AccessResultView::Failure(e) => Err(ClientErrorView::DataAccessError(e)),
        }
    }
}

/// Decodes a ReadResponse out of an answer.
fn read_response(pdu: MmsPdu) -> (r: Result<ReadResponse, ClientError>)
    requires
        deliverable(pdu@),
    ensures
        error::agrees(r, read_response_of(pdu@)),
{
    let full: Vec<u8> = response_octets(pdu)?;
    match decode_confirmed_read_response(&full) {
        Ok((_, resp)) => Ok(resp),
        Err(e) => Err(ClientError::pdu_parse(&e)),
    }
}

/// Turns an `MmsPdu` into the result of a Read: the first AccessResult.
pub fn dispatch_read_response(pdu: MmsPdu) -> (r: Result<MmsValue, ClientError>)
    requires
        deliverable(pdu@),
    ensures
        error::agrees(
            r,
            match read_response_of(pdu@) {
                Err(e) => Err(e),
                Ok(resp) => first_result(resp.list_of_access_result),
            },
        ),
{
    let resp: ReadResponse = read_response(pdu)?;
    let mut results: Vec<AccessResult> = resp.list_of_access_result;
    if results.len() == 0 {
        return Err(ClientError::PduParse("read response carries no access result".to_owned()));
    }
    let ghost views = read::result_views(results@);
    let first: AccessResult = results.remove(0);
    assert(views[0] == first@);
    match first {
        AccessResult::Success(data) => Ok(data),
        AccessResult::Failure(err) => Err(ClientError::DataAccessError(err)),
    }
}

/// Turns an `MmsPdu` into the per-entry results of a named variable list read.
///
/// Unlike `dispatch_read_response` this keeps the whole list and does not turn a
/// `Failure` entry into an error, so the caller sees which entries succeeded.
pub fn dispatch_read_list_response(pdu: MmsPdu) -> (r: Result<Vec<AccessResult>, ClientError>)
    requires
        deliverable(pdu@),
    ensures
        match read_response_of(pdu@) {
            Ok(resp) => r matches Ok(list) && read::result_views(list@)
                == resp.list_of_access_result,
            Err(e) => r matches Err(x) && x@ == e,
        },
{
    let resp: ReadResponse = read_response(pdu)?;
    Ok(resp.list_of_access_result)
}

/// The journal response that an answer delivers.
pub open spec fn journal_response_of(p: MmsPduView) -> Result<
    JournalResponseView,
    ClientErrorView,
> {
    match response_of(p) {
        Err(e) => Err(e),
        Ok(s) => delivered(read_journal::confirmed_response_at(s)),
    }
}

/// Turns an `MmsPdu` into the result of a ReadJournal: the entries and whether more remain;
/// an absent moreFollows counts as false.
pub fn dispatch_read_journal_response(pdu: MmsPdu) -> (r: Result<ReadJournalResponse, ClientError>)
    requires
        deliverable(pdu@),
    ensures
        error::agrees(r, journal_response_of(pdu@)),
{
    let full: Vec<u8> = response_octets(pdu)?;
    match decode_confirmed_read_journal_response(&full) {
        Ok((_, resp)) => Ok(resp),
        Err(e) => Err(ClientError::pdu_parse(&e)),
    }
}

/// What the answer to a DefineNamedVariableList delivers.
pub open spec fn define_response_of(p: MmsPduView) -> Result<(), ClientErrorView> {
    match response_of(p) {
        Err(e) => Err(e),
        Ok(s) => delivered(
            confirmed::service_at(
                s,
                0xa1,
                |t: Seq<u8>| define_named_variable_list::response_at(t),
            ),
        ),
    }
}

/// Turns an `MmsPdu` into the result of a DefineNamedVariableList.
///
/// A confirmed error from the server, for instance because the data set already
/// exists or a member is unknown, becomes `ClientError::ServiceError`.
pub fn dispatch_define_named_variable_list_response(pdu: MmsPdu) -> (r: Result<(), ClientError>)
    requires
        deliverable(pdu@),
    ensures
        match define_response_of(pdu@) {
            Ok(_) => r is Ok,
            Err(e) => r matches Err(x) && x@ == e,
        },
{
    let full: Vec<u8> = response_octets(pdu)?;
    match decode_confirmed_define_named_variable_list_response(&full) {
        Ok(_) => Ok(()),
        Err(e) => Err(ClientError::pdu_parse(&e)),
    }
}

/// The counts that the answer to a DeleteNamedVariableList delivers.
pub open spec fn delete_response_of(p: MmsPduView) -> Result<
    DeleteNamedVariableListResponse,
    ClientErrorView,
> {
    match response_of(p) {
        Err(e) => Err(e),
        Ok(s) => delivered(
            confirmed::service_at(
                s,
                0xa1,
                |t: Seq<u8>| DeleteNamedVariableListResponse::parse(t),
            ),
        ),
    }
}

/// Turns an `MmsPdu` into the result of a DeleteNamedVariableList: the number of objects
/// matched and the number deleted.
pub fn dispatch_delete_named_variable_list_response(pdu: MmsPdu) -> (r: Result<
    (u32, u32),
    ClientError,
>)
    requires
        deliverable(pdu@),
    ensures
        match delete_response_of(pdu@) {
            Ok(resp) => r == Ok::<(u32, u32), ClientError>(
                (resp.number_matched, resp.number_deleted),
            ),
            Err(e) => r matches Err(x) && x@ == e,
        },
{
    let full: Vec<u8> = response_octets(pdu)?;
    match decode_confirmed_delete_named_variable_list_response(&full) {
        Ok((_, resp)) => Ok((resp.number_matched, resp.number_deleted)),
        Err(e) => Err(ClientError::pdu_parse(&e)),
    }
}

/// Turns the decoded outcomes of a Write of one variable into its result: the first
/// WriteOutcome.
pub fn dispatch_write_response(decoded: Result<Vec<WriteOutcome>, MmsError>) -> (r: Result<
    (),
    ClientError,
>)
    ensures
        match decoded {
            Err(e) => r matches Err(x) && x@ == error::parse_error(e),
            Ok(outcomes) => if outcomes.len() == 0 {
                r matches Err(x) && x@ == ClientErrorView::PduParse(
                    "write response carries no outcome"@,
                )
            } else {
                match outcomes[0] {
                    WriteOutcome::Success => r is Ok,
                    WriteOutcome::Failure(e) => r matches Err(x) && x@
                        == ClientErrorView::DataAccessError(e),
                }
            },
        },
{
    match decoded {
        Err(e) => Err(ClientError::pdu_parse(&e)),
        Ok(outcomes) => {
            if outcomes.len() == 0 {
                return Err(
                    ClientError::PduParse("write response carries no outcome".to_owned()),
                );
            }
            match outcomes[0] {
                WriteOutcome::Success => Ok(()),
                WriteOutcome::Failure(err) => Err(ClientError::DataAccessError(err)),
            }
        },
    }
}

/// Turns the decoded outcomes of a Write of a named variable list into its result: one
/// WriteOutcome per entry.
pub fn dispatch_write_list_response(decoded: Result<Vec<WriteOutcome>, MmsError>) -> (r: Result<
    Vec<WriteOutcome>,
    ClientError,
>)
    ensures
        match decoded {
            Err(e) => r matches Err(x) && x@ == error::parse_error(e),
            Ok(outcomes) => r == Ok::<Vec<WriteOutcome>, ClientError>(outcomes),
        },
{
    match decoded {
        Err(e) => Err(ClientError::pdu_parse(&e)),
        Ok(outcomes) => Ok(outcomes),
    }
}

/// The GetNameList response that an answer delivers.
pub open spec fn name_list_response_of(p: MmsPduView) -> Result<
    GetNameListResponseView,
    ClientErrorView,
> {
    match response_of(p) {
        Err(e) => Err(e),
        Ok(s) => delivered(
            confirmed::service_at(s, 0xa1, |t: Seq<u8>| GetNameListResponseView::parse(t)),
        ),
    }
}

/// Turns an `MmsPdu` into the result of a GetNameList: the names, and whether more of them
/// remain.
pub fn dispatch_get_name_list_response(pdu: MmsPdu) -> (r: Result<
    (Vec<String>, bool),
    ClientError,
>)
    requires
        deliverable(pdu@),
    ensures
        match name_list_response_of(pdu@) {
            Ok(resp) => r matches Ok((names, more)) && get_name_list::texts(names@)
                == resp.identifiers && more == resp.more_follows,
            Err(e) => r matches Err(x) && x@ == e,
        },
{
    let full: Vec<u8> = response_octets(pdu)?;
    match decode_confirmed_get_name_list_response(&full) {
        Ok((_, resp)) => Ok((resp.identifiers, resp.more_follows)),
        Err(e) => Err(ClientError::pdu_parse(&e)),
    }
}

/// The access attributes that an answer delivers.
pub open spec fn attributes_response_of(p: MmsPduView) -> Result<AttributesView, ClientErrorView> {
    match response_of(p) {
        Err(e) => Err(e),
        Ok(s) => delivered(
            confirmed::service_at(
                s,
                0xa1,
                |t: Seq<u8>| AttributesView::parse(t, MAX_TYPE_SPEC_DEPTH),
            ),
        ),
    }
}

/// Turns an `MmsPdu` into the result of a GetVariableAccessAttributes.
pub fn dispatch_get_var_access_attrs_response(pdu: MmsPdu) -> (r: Result<
    TypeSpecification,
    ClientError,
>)
    requires
        deliverable(pdu@),
    ensures
        match attributes_response_of(pdu@) {
            Ok(resp) => r matches Ok(t) && t@ == resp.type_specification,
            Err(e) => r matches Err(x) && x@ == e,
        },
{
    let full: Vec<u8> = response_octets(pdu)?;
    match decode_confirmed_get_var_access_attrs_response(&full) {
        Ok((_, resp)) => Ok(resp.type_specification),
        Err(e) => Err(ClientError::pdu_parse(&e)),
    }
}

// What a call comes to

/// The answer that carries this service under the invokeID.
pub open spec fn answer(invoke_id: u32, service: Seq<u8>) -> MmsPduView {
    MmsPduView::ConfirmedResponse(confirmed::confirmed_content(invoke_id, service))
}

/// An encoded confirmed response arrives as its answer, whatever follows it.
proof fn lemma_answer_arrives(invoke_id: u32, service: Seq<u8>, rest: Seq<u8>)
    requires
        confirmed::confirmed_content(invoke_id, service).len() <= 0xffff,
    ensures
        MmsPduView::parse(confirmed::confirmed_octets(0xa1, invoke_id, service) + rest) == Ok::<
            MmsPduView,
            MmsError,
        >(answer(invoke_id, service)),
        confirmed::confirmed_octets(0xa1, invoke_id, service) + Seq::<u8>::empty()
            == confirmed::confirmed_octets(0xa1, invoke_id, service),
{
    pdu::law_pdu_round_trip(answer(invoke_id, service), rest);
    assert(confirmed::confirmed_octets(0xa1, invoke_id, service) + Seq::<u8>::empty()
        =~= confirmed::confirmed_octets(0xa1, invoke_id, service));
}

/// A request is wrapped once: what is sent is the confirmed request of its invokeID and
/// service.
pub proof fn law_request_wrapped_once(invoke_id: u32, service: Seq<u8>)
    ensures
        MmsPduView::ConfirmedRequest(confirmed::confirmed_content(invoke_id, service)).octets()
            == confirmed::confirmed_octets(0xa0, invoke_id, service),
{
}

/// A Read response that the server encodes is delivered: the list as it is, and its first
/// result as the value or the error of a single read.
pub proof fn law_read_answered(invoke_id: u32, r: ReadResponseView, rest: Seq<u8>)
    requires
        invoke_id < 0x8000_0000,
        r.readable(),
        confirmed::confirmed_content(invoke_id, r.octets()).len() <= 0xffff,
    ensures
        MmsPduView::parse(confirmed::confirmed_octets(0xa1, invoke_id, r.octets()) + rest) == Ok::<
            MmsPduView,
            MmsError,
        >(answer(invoke_id, r.octets())),
        read_response_of(answer(invoke_id, r.octets())) == Ok::<
            ReadResponseView,
            ClientErrorView,
        >(r),
{
    lemma_answer_arrives(invoke_id, r.octets(), rest);
    read::law_confirmed_read_response(invoke_id, r, Seq::empty());
}

/// A GetNameList response that the server encodes is delivered.
pub proof fn law_name_list_answered(invoke_id: u32, r: GetNameListResponseView, rest: Seq<u8>)
    requires
        invoke_id < 0x8000_0000,
        confirmed::confirmed_content(invoke_id, r.octets()).len() <= 0xffff,
    ensures
        MmsPduView::parse(confirmed::confirmed_octets(0xa1, invoke_id, r.octets()) + rest) == Ok::<
            MmsPduView,
            MmsError,
        >(answer(invoke_id, r.octets())),
        name_list_response_of(answer(invoke_id, r.octets())) == Ok::<
            GetNameListResponseView,
            ClientErrorView,
        >(r),
{
    lemma_answer_arrives(invoke_id, r.octets(), rest);
    get_name_list::law_confirmed_get_name_list_response(invoke_id, r, Seq::empty());
}

/// The access attributes that the server encodes are delivered.
pub proof fn law_attributes_answered(invoke_id: u32, r: AttributesView, rest: Seq<u8>)
    requires
        invoke_id < 0x8000_0000,
        r.type_specification.fits(MAX_TYPE_SPEC_DEPTH as int),
        r.type_specification.unknown() is None,
        confirmed::confirmed_content(invoke_id, r.octets()).len() <= 0xffff,
    ensures
        MmsPduView::parse(confirmed::confirmed_octets(0xa1, invoke_id, r.octets()) + rest) == Ok::<
            MmsPduView,
            MmsError,
        >(answer(invoke_id, r.octets())),
        attributes_response_of(answer(invoke_id, r.octets())) == Ok::<
            AttributesView,
            ClientErrorView,
        >(r),
{
    lemma_answer_arrives(invoke_id, r.octets(), rest);
    get_var_access_attrs::law_confirmed_attributes_response(
        invoke_id,
        r,
        MAX_TYPE_SPEC_DEPTH,
        Seq::empty(),
    );
}

/// A journal response that the server encodes is delivered.
pub proof fn law_journal_answered(invoke_id: u32, r: JournalResponseView, rest: Seq<u8>)
    requires
        r.readable(),
        confirmed::confirmed_content(invoke_id, r.octets()).len() <= 0xffff,
    ensures
        MmsPduView::parse(confirmed::confirmed_octets(0xa1, invoke_id, r.octets()) + rest) == Ok::<
            MmsPduView,
            MmsError,
        >(answer(invoke_id, r.octets())),
        journal_response_of(answer(invoke_id, r.octets())) == Ok::<
            JournalResponseView,
            ClientErrorView,
        >(r),
{
    lemma_answer_arrives(invoke_id, r.octets(), rest);
    read_journal::law_confirmed_journal_response(invoke_id, r, Seq::empty());
}

/// The acknowledgement of a DefineNamedVariableList is delivered.
pub proof fn law_define_answered(invoke_id: u32, rest: Seq<u8>)
    requires
        invoke_id < 0x8000_0000,
    ensures
        MmsPduView::parse(
            confirmed::confirmed_octets(
                0xa1,
                invoke_id,
                define_named_variable_list::response_octets(),
            ) + rest,
        ) == Ok::<MmsPduView, MmsError>(
            answer(invoke_id, define_named_variable_list::response_octets()),
        ),
        define_response_of(answer(invoke_id, define_named_variable_list::response_octets()))
            == Ok::<(), ClientErrorView>(()),
{
    integer::law_unsigned_round_trip(invoke_id as u64);
    lemma_answer_arrives(invoke_id, define_named_variable_list::response_octets(), rest);
    define_named_variable_list::law_confirmed_define_response(invoke_id, Seq::empty());
}

/// The counts of a DeleteNamedVariableList are delivered.
pub proof fn law_delete_answered(
    invoke_id: u32,
    r: DeleteNamedVariableListResponse,
    rest: Seq<u8>,
)
    requires
        invoke_id < 0x8000_0000,
        r.number_matched < 0x8000_0000,
        r.number_deleted < 0x8000_0000,
    ensures
        MmsPduView::parse(confirmed::confirmed_octets(0xa1, invoke_id, r.octets()) + rest) == Ok::<
            MmsPduView,
            MmsError,
        >(answer(invoke_id, r.octets())),
        delete_response_of(answer(invoke_id, r.octets())) == Ok::<
            DeleteNamedVariableListResponse,
            ClientErrorView,
        >(r),
{
    integer::law_unsigned_round_trip(invoke_id as u64);
    integer::law_unsigned_round_trip(r.number_matched as u64);
    integer::law_unsigned_round_trip(r.number_deleted as u64);
    lemma_answer_arrives(invoke_id, r.octets(), rest);
    delete_named_variable_list::law_confirmed_delete_response(invoke_id, r, Seq::empty());
}

/// A refused request is answered with the class of the server's error, whichever service it
/// was for, while the description is at most 255 bytes long.
pub proof fn law_refusal_answered(invoke_id: u32, e: ServiceErrorView, rest: Seq<u8>)
    requires
        e.additional_description matches Some(t) ==> text::utf8(t).len() <= 0xff,
    ensures
        MmsPduView::parse(
            ber::tlv(0xa2, service_error::confirmed_error_content(invoke_id, e)) + rest,
        ) == Ok::<MmsPduView, MmsError>(
            MmsPduView::ConfirmedError(service_error::confirmed_error_content(invoke_id, e)),
        ),
        response_of(
            MmsPduView::ConfirmedError(service_error::confirmed_error_content(invoke_id, e)),
        ) == Err::<Seq<u8>, ClientErrorView>(
            ClientErrorView::ServiceError { error_class: e.error_class },
        ),
{
    let id = integer::unsigned_octets(invoke_id as u64);
    let body = e.content();
    let s = service_error::confirmed_error_content(invoke_id, e);
    integer::law_unsigned_round_trip(invoke_id as u64);
    integer::lemma_uint_octets_width(invoke_id as nat);
    if let Some(v) = e.additional_code {
        integer::lemma_sint_octets_width(v as int);
    }
    service_error::law_service_error_round_trip(e);
    pdu::law_pdu_round_trip(MmsPduView::ConfirmedError(s), rest);
    let start: int = 2 + id.len() as int;
    assert(s[0] == 0x80 && s[1] == id.len());
    assert(s.skip(start) =~= ber::tlv(0xa2, body));
    ber::lemma_element_alone(0xa2, body);
}

/// A rejected request is answered with the reason of the Reject PDU, whichever service it
/// was for.
pub proof fn law_reject_answered(p: RejectPdu, rest: Seq<u8>)
    ensures
        MmsPduView::parse(p.octets() + rest) == Ok::<MmsPduView, MmsError>(
            MmsPduView::Reject(p),
        ),
        response_of(MmsPduView::Reject(p)) == Err::<Seq<u8>, ClientErrorView>(
            ClientErrorView::RejectError { reason: p.reason },
        ),
{
    reject::law_reject_round_trip(p, rest);
    assert(p.octets()[0] == 0xa4);
}

} // verus!
