//! What the client sends for a request, and what it makes of an answer.

use vstd::prelude::*;

use crate::buffer;
use crate::mms::client::connection;
use crate::mms::client::connection::{
    ConnectionState,
    ConnectionView,
    Incoming,
    IncomingView,
    MmsConnection,
};
use crate::mms::client::error;
use crate::mms::client::error::{ClientError, ClientErrorView};
use crate::mms::client::invoke_id::AllocatorView;
use crate::mms::client::services;
use crate::mms::client::services::Call;
use crate::mms::client::MmsClientBuilder;
use crate::mms::error::MmsError;
use crate::mms::pdu::access::{AccessResultView, DataAccessError};
use crate::mms::pdu::alternate_access;
use crate::mms::pdu::alternate_access::AlternateAccessView;
use crate::mms::pdu::ber;
use crate::mms::pdu::data::MmsDataView;
use crate::mms::pdu::define_named_variable_list;
use crate::mms::pdu::define_named_variable_list::DefineNamedVariableEntry;
use crate::mms::pdu::delete_named_variable_list;
use crate::mms::pdu::delete_named_variable_list::DeleteNamedVariableListResponse;
use crate::mms::pdu::get_name_list::{GetNameListResponseView, ObjectClass};
use crate::mms::pdu::get_var_access_attrs;
use crate::mms::pdu::get_var_access_attrs::AttributesView;
use crate::mms::pdu::initiate::InitiateView;
use crate::mms::pdu::integer;
use crate::mms::pdu::object_name::ObjectNameView;
use crate::mms::pdu::read::ReadResponseView;
use crate::mms::pdu::read_journal::JournalResponseView;
use crate::mms::pdu::service_error::ServiceErrorView;
use crate::mms::pdu::variable_access;
use crate::mms::pdu::MmsPduView;
use crate::mms::wire::journals;
use crate::mms::wire::name_lists;
use crate::text;

verus! {

broadcast use ber::group_element_sizes;

/// What a request that was issued comes to: under the next identifier that is free, the
/// PDU 0xa0 of the identifier under 0x02 and the service. Where as many calls are
/// outstanding as are allowed, or the next identifier is in flight, nothing is issued.
pub proof fn law_call_octets(
    before: AllocatorView,
    after: AllocatorView,
    r: Result<Call, ClientError>,
    service: Seq<u8>,
)
    requires
        before.well_formed(),
        services::issues(before, after, r, service),
    ensures
        ({
            let id: u32 = if before.next == 0xffff_ffff {
                1
            } else {
                (before.next + 1) as u32
            };
            &&& after.next == id
            &&& before.pending.len() >= before.max_outstanding ==> {
                &&& r matches Err(e) && e == ClientError::OutstandingCallLimit
                &&& after.pending == before.pending
            }
            &&& before.pending.len() < before.max_outstanding && before.pending.contains(id) ==> {
                &&& r matches Err(e) && e == ClientError::InvokeIdExhausted
                &&& after.pending == before.pending
            }
            &&& before.pending.len() < before.max_outstanding && !before.pending.contains(id) ==> {
                &&& r matches Ok(call) && call.invoke_id == id && call.pdu@.octets() == ber::tlv(
                    0xa0,
                    ber::tlv(0x02, integer::unsigned_octets(id as u64)) + service,
                )
                &&& after.pending == before.pending.insert(id)
            }
        }),
{
}

/// The octets of a name in a domain, and of an entry for it.
proof fn lemma_domain_entry(d: Seq<char>, i: Seq<char>, alt: Option<AlternateAccessView>)
    ensures
        variable_access::entry_octets(
            seq![
                variable_access::ListOfVariableEntryView {
                    name: ObjectNameView::DomainSpecific { domain_id: d, item_id: i },
                    alt_access: alt,
                },
            ],
        ) == (variable_access::ListOfVariableEntryView {
            name: ObjectNameView::DomainSpecific { domain_id: d, item_id: i },
            alt_access: alt,
        }).octets(),
{
    let e = variable_access::ListOfVariableEntryView {
        name: ObjectNameView::DomainSpecific { domain_id: d, item_id: i },
        alt_access: alt,
    };
    reveal_with_fuel(variable_access::entry_octets, 2);
    assert(seq![e].drop_last() =~= Seq::empty());
    assert(Seq::<u8>::empty() + e.octets() =~= e.octets());
}

/// The service that reads one variable of a domain, or an element of it, or a component of
/// an element, or the values of a variable list.
#[verifier::rlimit(40)]
pub proof fn law_read_request(d: Seq<char>, i: Seq<char>, index: u32, c: Seq<char>)
    ensures
        ({
            let name = ber::tlv(
                0xa1,
                ber::tlv(0x1a, vstd::utf8::encode_utf8(d)) + ber::tlv(
                    0x1a,
                    vstd::utf8::encode_utf8(i),
                ),
            );
            let idx = integer::unsigned_octets(index as u64);
            let element = AlternateAccessView::Index(index);
            let part = AlternateAccessView::IndexComponent { index, component: c };
            &&& services::read_of(services::variable_spec(d, i, None)).octets() == ber::tlv(
                0xa4,
                ber::tlv(0xa1, ber::tlv(0xa0, ber::tlv(0x30, ber::tlv(0xa0, name)))),
            )
            &&& services::read_of(services::variable_spec(d, i, Some(element))).octets()
                == ber::tlv(
                0xa4,
                ber::tlv(
                    0xa1,
                    ber::tlv(
                        0xa0,
                        ber::tlv(
                            0x30,
                            ber::tlv(0xa0, name) + ber::tlv(0xa5, ber::tlv(0x82, idx)),
                        ),
                    ),
                ),
            )
            &&& services::read_of(services::variable_spec(d, i, Some(part))).octets() == ber::tlv(
                0xa4,
                ber::tlv(
                    0xa1,
                    ber::tlv(
                        0xa0,
                        ber::tlv(
                            0x30,
                            ber::tlv(0xa0, name) + ber::tlv(
                                0xa5,
                                ber::tlv(
                                    0xa0,
                                    ber::tlv(0x81, idx) + ber::tlv(
                                        0x30,
                                        alternate_access::chain_octets(
                                            vstd::utf8::encode_utf8(c),
                                        ),
                                    ),
                                ),
                            ),
                        ),
                    ),
                ),
            )
            &&& services::read_of(services::list_spec(d, i)).octets() == ber::tlv(
                0xa4,
                ber::tlv(0xa1, ber::tlv(0xa1, name)),
            )
        }),
{
    lemma_domain_entry(d, i, None);
    lemma_domain_entry(d, i, Some(AlternateAccessView::Index(index)));
    lemma_domain_entry(d, i, Some(AlternateAccessView::IndexComponent { index, component: c }));
}

/// What is selected of an array: the element alone where no component is named, and
/// otherwise the component, which must not be empty nor have a fault in its path.
pub proof fn law_element_selection(index: u32, c: Seq<char>)
    ensures
        services::element_selector(index, None) == Ok::<AlternateAccessView, MmsError>(
            AlternateAccessView::Index(index),
        ),
        vstd::utf8::encode_utf8(c).len() == 0 ==> services::element_selector(index, Some(c))
            == Err::<AlternateAccessView, MmsError>(
            MmsError::AlternateAccessUnsupported("component is empty"),
        ),
        vstd::utf8::encode_utf8(c).len() > 0 ==> services::element_selector(index, Some(c)) == (
        match alternate_access::path_fault(vstd::utf8::encode_utf8(c)) {
            Some(e) => Err::<AlternateAccessView, MmsError>(e),
            None => Ok(AlternateAccessView::IndexComponent { index, component: c }),
        }),
{
}

/// The service that lists names: those of the domain where one is named and otherwise
/// those of the VMD, after the cursor where there is one.
pub proof fn law_name_list_request(
    class: ObjectClass,
    domain: Option<Seq<char>>,
    cursor: Option<Seq<char>>,
)
    ensures
        ({
            let number = match class {
                ObjectClass::NamedVariable => 0x00u8,
                ObjectClass::NamedVariableList => 0x02,
                ObjectClass::Journal => 0x08,
                ObjectClass::Domain => 0x09,
            };
            let scope = match domain {
                Some(d) => ber::tlv(0x81, vstd::utf8::encode_utf8(d)),
                None => seq![0x80u8, 0x00],
            };
            let after = match cursor {
                Some(t) => ber::tlv(0x82, vstd::utf8::encode_utf8(t)),
                None => Seq::<u8>::empty(),
            };
            services::name_list_of(class, domain, cursor).octets() == ber::tlv(
                0xa1,
                seq![0xa0u8, 0x03, 0x80, 0x01, number] + (ber::tlv(0xa1, scope) + after),
            )
        }),
{
    let none = Seq::<u8>::empty();
    assert(ber::tlv(0x80, none) =~= seq![0x80u8, 0x00]);
    let v = class.value();
    assert(ber::tlv(0x80, seq![v]) =~= seq![0x80u8, 0x01, v]);
    assert(ber::tlv(0xa0, seq![0x80u8, 0x01, v]) =~= seq![0xa0u8, 0x03, 0x80, 0x01, v]);
}

/// The services that ask for the type of a variable of a domain, that define a data set
/// of a domain, and that delete one.
pub proof fn law_data_set_requests(
    d: Seq<char>,
    i: Seq<char>,
    entries: Seq<DefineNamedVariableEntry>,
)
    ensures
        ({
            let name = ber::tlv(
                0xa1,
                ber::tlv(0x1a, vstd::utf8::encode_utf8(d)) + ber::tlv(
                    0x1a,
                    vstd::utf8::encode_utf8(i),
                ),
            );
            &&& get_var_access_attrs::request_octets(
                ObjectNameView::DomainSpecific { domain_id: d, item_id: i },
            ) == ber::tlv(0xa6, ber::tlv(0xa0, name))
            &&& services::definition_of(d, i, entries).octets() == ber::tlv(
                0xab,
                name + ber::tlv(
                    0xa0,
                    define_named_variable_list::members_octets(
                        define_named_variable_list::member_views(entries),
                    ),
                ),
            )
            &&& services::deletion_of(d, i).octets() == ber::tlv(
                0xad,
                seq![0x80u8, 0x01, 0x00] + ber::tlv(0xa1, name),
            )
        }),
{
    let n = ObjectNameView::DomainSpecific { domain_id: d, item_id: i };
    reveal_with_fuel(delete_named_variable_list::names_octets, 2);
    assert(seq![n].drop_last() =~= Seq::empty());
    assert(Seq::<u8>::empty() + n.octets() =~= n.octets());
    assert(ber::tlv(0x80, seq![0x00u8]) =~= seq![0x80u8, 0x01, 0x00]);
    let del = services::deletion_of(d, i);
    assert(del.content() =~= seq![0x80u8, 0x01, 0x00] + ber::tlv(0xa1, n.octets()));
}

/// A data set is defined with at most 100 members, and an identifier is at most 64 bytes
/// long.
pub proof fn law_request_limits(n: usize)
    ensures
        n > define_named_variable_list::MAX_DEFINE_ENTRIES <==> n > 100,
        n > crate::mms::pdu::object_name::MAX_IDENTIFIER_LEN <==> n > 64,
{
}

/// A service is sent, and an answer is read, as long as it fits in a buffer with its
/// wrapper.
pub proof fn law_buffer_limits(service: Seq<u8>, p: MmsPduView)
    ensures
        services::fits(service) <==> service.len() + 16 <= isize::MAX,
        services::deliverable(p) <==> match p {
            MmsPduView::ConfirmedResponse(inner) => inner.len() + 4 <= isize::MAX,
            _ => true,
        },
{
}

/// What is left of an encoded request without its wrapper 0xa0: the octets after its
/// length, in whichever form the length is written. Another tag, and a field that is no
/// length, are refused.
pub proof fn law_wrapper_stripped(tag: u8, first: u8, field: Seq<u8>, content: Seq<u8>)
    ensures
        first < 0x80 ==> services::stripped(seq![0xa0u8, first] + content) == Ok::<
            Seq<u8>,
            ClientErrorView,
        >(content),
        0x81 <= first <= 0x84 && field.len() == first - 0x80 ==> services::stripped(
            seq![0xa0u8, first] + field + content,
        ) == Ok::<Seq<u8>, ClientErrorView>(content),
        0x81 <= first <= 0x84 && field.len() < first - 0x80 ==> services::stripped(
            seq![0xa0u8, first] + field,
        ) == Err::<Seq<u8>, ClientErrorView>(
            ClientErrorView::PduParse("strip_confirmed_wrapper: outer wrapper truncated"@),
        ),
        first == 0x80 || first > 0x84 ==> services::stripped(seq![0xa0u8, first] + content)
            == Err::<Seq<u8>, ClientErrorView>(
            ClientErrorView::PduParse("strip_confirmed_wrapper: malformed outer ber length"@),
        ),
        tag != 0xa0 ==> services::stripped(seq![tag] + content) == Err::<
            Seq<u8>,
            ClientErrorView,
        >(
            ClientErrorView::PduParse(
                "strip_confirmed_wrapper: expected 0xa0 tag, got 0x"@ + text::hex_text(tag, false),
            ),
        ),
{
    if first < 0x80 {
        assert((seq![0xa0u8, first] + content).skip(2) =~= content);
    }
    if 0x81 <= first <= 0x84 && field.len() == first - 0x80 {
        let s = seq![0xa0u8, first] + field + content;
        assert(s.skip(first - 0x80 + 2) =~= content);
    }
}

/// What the client makes of a confirmed response: the service after the invoke id, as each
/// service reads it, or the message of what is wrong with it.
#[verifier::spinoff_prover]
#[verifier::rlimit(40)]
pub proof fn law_responses_read(id: Seq<u8>, service: Seq<u8>)
    requires
        1 <= id.len() <= 4,
        service.len() <= 0x7000,
    ensures
        ({
            let p = MmsPduView::ConfirmedResponse(ber::tlv(0x02, id) + service);
            &&& services::read_response_of(p) == (match ReadResponseView::parse(service) {
                Ok(v) => Ok::<ReadResponseView, ClientErrorView>(v),
                Err(e) => Err(ClientErrorView::PduParse(e@.text())),
            })
            &&& services::name_list_response_of(p) == (match GetNameListResponseView::parse(
                service,
            ) {
                Ok(v) => Ok::<GetNameListResponseView, ClientErrorView>(v),
                Err(e) => Err(ClientErrorView::PduParse(e@.text())),
            })
            &&& services::attributes_response_of(p) == (match AttributesView::parse(service, 32) {
                Ok(v) => Ok::<AttributesView, ClientErrorView>(v),
                Err(e) => Err(ClientErrorView::PduParse(e@.text())),
            })
            &&& services::define_response_of(p) == (match define_named_variable_list::response_at(
                service,
            ) {
                Ok(v) => Ok::<(), ClientErrorView>(v),
                Err(e) => Err(ClientErrorView::PduParse(e@.text())),
            })
            &&& services::delete_response_of(p) == (match DeleteNamedVariableListResponse::parse(
                service,
            ) {
                Ok(v) => Ok::<DeleteNamedVariableListResponse, ClientErrorView>(v),
                Err(e) => Err(ClientErrorView::PduParse(e@.text())),
            })
            &&& services::journal_response_of(p) == (match JournalResponseView::parse(service) {
                Ok(v) => Ok::<JournalResponseView, ClientErrorView>(v),
                Err(e) => Err(ClientErrorView::PduParse(e@.text())),
            })
        }),
{
    let none = Seq::<u8>::empty();
    let s = ber::tlv(0xa1, ber::tlv(0x02, id) + service);
    assert(s + none =~= s);
    name_lists::law_confirmed_decodes(0xa1, id, 0x00, service, none);
    journals::law_journal_confirmed_decodes(0xa1, id, 0x00, service, none);
}

/// What the client makes of an answer that is not a confirmed response, whatever the
/// service: the reason of a rejection, the class of an error, and otherwise that the PDU
/// is unexpected, with its tag.
pub proof fn law_refusals_read(p: MmsPduView)
    ensures
        services::response_of(p) == (match p {
            MmsPduView::ConfirmedResponse(inner) => Ok::<Seq<u8>, ClientErrorView>(
                ber::tlv(0xa1, inner),
            ),
            MmsPduView::ConfirmedError(inner) => Err(services::confirmed_error_of(inner)),
            MmsPduView::Reject(r) => Err(ClientErrorView::RejectError { reason: r.reason }),
            _ => Err(
                ClientErrorView::PduParse(
                    "unexpected PDU tag=0x"@ + text::hex_text(p.octets()[0], true),
                ),
            ),
        }),
        !(p is ConfirmedResponse) ==> {
            let e = services::response_of(p)->Err_0;
            &&& services::read_response_of(p) == Err::<ReadResponseView, ClientErrorView>(e)
            &&& services::name_list_response_of(p) == Err::<
                GetNameListResponseView,
                ClientErrorView,
            >(e)
            &&& services::attributes_response_of(p) == Err::<AttributesView, ClientErrorView>(e)
            &&& services::define_response_of(p) == Err::<(), ClientErrorView>(e)
            &&& services::delete_response_of(p) == Err::<
                DeleteNamedVariableListResponse,
                ClientErrorView,
            >(e)
            &&& services::journal_response_of(p) == Err::<JournalResponseView, ClientErrorView>(e)
        },
{
}

/// What the client makes of a confirmed error: the class of the service error within 0xa2,
/// which the invoke id under 0x02 or 0x80 may precede.
pub proof fn law_confirmed_error_read(tag: u8, id: Seq<u8>, c: Seq<u8>, rest: Seq<u8>)
    requires
        1 <= id.len() < 0x80,
        tag == 0x02 || tag == 0x80,
        c.len() <= 0xffff,
    ensures
        ({
            let want = match ServiceErrorView::of_content(c) {
                Ok(e) => ClientErrorView::ServiceError { error_class: e.error_class },
                Err(_) => ClientErrorView::PduParse("ConfirmedError decode failed"@),
            };
            &&& services::confirmed_error_of(
                ber::tlv(tag, id) + (ber::tlv(0xa2, c) + rest),
            ) == want
            &&& services::confirmed_error_of(ber::tlv(0xa2, c) + rest) == want
        }),
        services::confirmed_error_of(Seq::<u8>::empty()) == ClientErrorView::PduParse(
            "ConfirmedError decode failed"@,
        ),
{
    let tail = ber::tlv(0xa2, c) + rest;
    let s = ber::tlv(tag, id) + tail;
    ber::law_element_round_trip(0xa2, c, rest);
    assert(s[0] == tag && s[1] == id.len());
    assert(s.skip(2 + id.len() as int) =~= tail);
    assert(tail.skip(0) =~= tail);
    assert(tail[0] == 0xa2);
}

/// The result of a single read is the first of the results, and only that.
pub proof fn law_first_result(v: MmsDataView, e: DataAccessError, more: Seq<AccessResultView>)
    ensures
        services::first_result(seq![AccessResultView::Success(v)] + more) == Ok::<
            MmsDataView,
            ClientErrorView,
        >(v),
        services::first_result(seq![AccessResultView::Failure(e)] + more) == Err::<
            MmsDataView,
            ClientErrorView,
        >(ClientErrorView::DataAccessError(e)),
        services::first_result(Seq::<AccessResultView>::empty()) == Err::<
            MmsDataView,
            ClientErrorView,
        >(ClientErrorView::PduParse("read response carries no access result"@)),
{
}

/// What a connection holds is what its view holds; the stash keeps its order.
pub proof fn law_connection_view(c: MmsConnection)
    ensures
        c@.state == c.state,
        c@.max_pdu_size == c.negotiated_max_pdu_size,
        c@.max_calling == c.negotiated_max_calling,
        c@.max_called == c.negotiated_max_called,
        c@.connect_timeout_ms == c.connect_timeout_ms,
        c@.request_timeout_ms == c.request_timeout_ms,
        c@.local_max_pdu_size == c.local_max_pdu_size,
        c@.stash.len() == c.pending_unconfirmed@.len(),
        forall|i: int|
            0 <= i < c@.stash.len() ==> #[trigger] c@.stash[i] == buffer::frozen(
                c.pending_unconfirmed@[i],
            ),
{
}

/// A connection starts closed, with PDUs of 65000 bytes, five outstanding requests on
/// either side, ten seconds to connect and five to answer.
pub proof fn law_connection_defaults()
    ensures
        ({
            let c = ConnectionView::disconnected();
            &&& c.state == ConnectionState::Closed
            &&& c.max_pdu_size == 65000
            &&& c.max_calling == 5
            &&& c.max_called == 5
            &&& c.connect_timeout_ms == 10_000
            &&& c.request_timeout_ms == 5_000
            &&& c.local_max_pdu_size is None
            &&& c.stash.len() == 0
        }),
{
}

/// What the client proposes: the size that was set, or 65000, and otherwise what it
/// proposes by default.
pub proof fn law_proposal(c: ConnectionView)
    ensures
        c.proposal().local_detail == (match c.local_max_pdu_size {
            Some(n) => Some(n),
            None => Some(65000u32),
        }),
        c.proposal().calling == 5,
        c.proposal().called == 5,
        c.proposal().nesting_level == Some(10u8),
        c.proposal().detail == InitiateView::default_view().detail,
{
}

/// What an answer to the proposal comes to. An Initiate response connects: the size of a
/// PDU is the smallest of 65000, the size that was set and the size in the answer, and the
/// outstanding requests are those of the answer. An Initiate error is reported by its
/// code, and any other PDU by its tag.
#[verifier::rlimit(40)]
pub proof fn law_association(c: ConnectionView, s: Seq<u8>, over_tls: bool)
    ensures
        c.association(s, over_tls) == (match MmsPduView::parse(s) {
            Err(e) => Err::<ConnectionView, ClientErrorView>(ClientErrorView::PduParse(e@.text())),
            Ok(MmsPduView::InitiateResponse(a)) => {
                let set: int = match c.local_max_pdu_size {
                    Some(n) => n as int,
                    None => 65000,
                };
                let got: int = match a.local_detail {
                    Some(n) => n as int,
                    None => 65000,
                };
                let least: int = if set < got {
                    set
                } else {
                    got
                };
                Ok(
                    ConnectionView {
                        state: ConnectionState::Connected,
                        max_pdu_size: (if least < 65000 {
                            least
                        } else {
                            65000
                        }) as usize,
                        max_calling: a.calling,
                        max_called: a.called,
                        connect_timeout_ms: c.connect_timeout_ms,
                        request_timeout_ms: c.request_timeout_ms,
                        local_max_pdu_size: c.local_max_pdu_size,
                        stash: c.stash,
                    },
                )
            },
            Ok(MmsPduView::InitiateError(e)) => Err(
                ClientErrorView::InitiateFailed { error_code: e.error_class.octets()[4] },
            ),
            Ok(p) => Err(
                ClientErrorView::PduParse(
                    (if over_tls {
                        "expected InitiateResponse (tls), got tag=0x"@
                    } else {
                        "expected InitiateResponse, got tag=0x"@
                    }) + text::hex_text(p.octets()[0], true),
                ),
            ),
        }),
{
}

/// What a received PDU comes to: a Conclude request is answered with a Conclude response
/// and reported as a lost connection, and any other PDU is for the caller.
pub proof fn law_incoming(s: Seq<u8>, i: Incoming)
    ensures
        ConnectionView::incoming(s) == (match MmsPduView::parse(s) {
            Err(e) => Err::<IncomingView, ClientErrorView>(ClientErrorView::PduParse(e@.text())),
            Ok(MmsPduView::ConcludeRequest) => Ok(
                IncomingView::Concluded {
                    reply: MmsPduView::ConcludeResponse,
                    error: ClientErrorView::ConnectionLost,
                },
            ),
            Ok(p) => Ok(IncomingView::Pdu(p)),
        }),
        match i {
            Incoming::Pdu(p) => i@ == IncomingView::Pdu(p@),
            Incoming::Concluded { reply, error } => i@ == (IncomingView::Concluded {
                reply: reply@,
                error: error@,
            }),
        },
{
}

/// The names of the states, and what is said of a PDU that was not expected.
pub proof fn law_connection_texts(head: Seq<char>, tag: u8, upper: bool)
    ensures
        ConnectionState::Closed.label() == "Closed"@,
        ConnectionState::Connecting.label() == "Connecting"@,
        ConnectionState::Connected.label() == "Connected"@,
        ConnectionState::Closing.label() == "Closing"@,
        connection::unexpected(head, tag, upper) == ClientErrorView::PduParse(
            head + text::hex_text(tag, upper),
        ),
{
}

/// What a builder makes: every setting that was given is in force, and every other one has
/// its default.
pub proof fn law_builder_settings(b: MmsClientBuilder)
    ensures
        b.connection() == (ConnectionView {
            connect_timeout_ms: match b.connect_timeout_ms {
                Some(t) => t,
                None => 10_000,
            },
            request_timeout_ms: match b.request_timeout_ms {
                Some(t) => t,
                None => 5_000,
            },
            local_max_pdu_size: b.local_max_pdu_size,
            ..ConnectionView::disconnected()
        }),
        b.allocator() == AllocatorView::fresh(
            match b.max_outstanding {
                Some(n) => n,
                None => 5,
            },
        ),
        MmsClientBuilder::no_settings() == (MmsClientBuilder {
            connect_timeout_ms: None,
            request_timeout_ms: None,
            max_outstanding: None,
            local_max_pdu_size: None,
        }),
{
}

/// The kind of a client error, and what it carries, are what its view holds.
pub proof fn law_client_error_view(e: ClientError)
    ensures
        match e {
            ClientError::PduTooLarge { pdu_size, max_size } => e@ == (
            ClientErrorView::PduTooLarge { pdu_size, max_size }),
            ClientError::InvokeIdExhausted => e@ == ClientErrorView::InvokeIdExhausted,
            ClientError::OutstandingCallLimit => e@ == ClientErrorView::OutstandingCallLimit,
            ClientError::NotConnected { state } => e@ == (ClientErrorView::NotConnected {
                state: state@,
            }),
            ClientError::ConcludeRejected => e@ == ClientErrorView::ConcludeRejected,
            ClientError::ServiceTimeout { timeout_ms } => e@ == (ClientErrorView::ServiceTimeout {
                timeout_ms,
            }),
            ClientError::ConnectionLost => e@ == ClientErrorView::ConnectionLost,
            ClientError::IsoError(t) => e@ == ClientErrorView::IsoError(t@),
            ClientError::ServiceError { error_class } => e@ == (ClientErrorView::ServiceError {
                error_class,
            }),
            ClientError::RejectError { reason } => e@ == (ClientErrorView::RejectError { reason }),
            ClientError::DataAccessError(c) => e@ == ClientErrorView::DataAccessError(c),
            ClientError::AssociateFailed => e@ == ClientErrorView::AssociateFailed,
            ClientError::InitiateFailed { error_code } => e@ == (ClientErrorView::InitiateFailed {
                error_code,
            }),
            ClientError::PduParse(t) => e@ == ClientErrorView::PduParse(t@),
            ClientError::ConnectTimeout { timeout_ms } => e@ == (ClientErrorView::ConnectTimeout {
                timeout_ms,
            }),
        },
{
}

/// A result of the client agrees with what was to be returned exactly where both are a
/// value and the value has this view, or both are an error and the error has this view.
pub proof fn law_client_results_agree<T: View>(
    r: Result<T, ClientError>,
    want: Result<T::V, ClientErrorView>,
)
    ensures
        error::agrees(r, want) <==> match (r, want) {
            (Ok(x), Ok(v)) => x@ == v,
            (Err(x), Err(e)) => x@ == e,
            _ => false,
        },
{
}

} // verus!
