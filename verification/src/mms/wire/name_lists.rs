//! The confirmed wrapper, and the services on names and named variable lists, as octets.

use vstd::prelude::*;

use crate::asn1;
use crate::mms::error::MmsError;
use crate::mms::pdu::ber;
use crate::mms::pdu::confirmed;
use crate::mms::pdu::define_named_variable_list;
use crate::mms::pdu::define_named_variable_list::{
    DefineNamedVariableEntry,
    DefineNamedVariableListRequest,
    DefineRequestView,
};
use crate::mms::pdu::delete_named_variable_list;
use crate::mms::pdu::delete_named_variable_list::{
    DeleteNamedVariableListRequest,
    DeleteNamedVariableListResponse,
    DeleteRequestView,
    ScopeOfDelete,
};
use crate::mms::pdu::get_name_list;
use crate::mms::pdu::get_name_list::{
    GetNameListFields,
    GetNameListRequest,
    GetNameListRequestView,
    GetNameListResponse,
    GetNameListResponseView,
    ObjectClass,
    ObjectScope,
    ObjectScopeView,
};
use crate::mms::pdu::integer;
use crate::mms::pdu::object_name::{ObjectName, ObjectNameView};
use crate::text;

verus! {

broadcast use ber::group_element_sizes;

/// A confirmed PDU holds the invoke id, an integer under 0x02, and then the service.
pub proof fn law_confirmed_octets(tag: u8, invoke_id: u32, service: Seq<u8>)
    ensures
        confirmed::confirmed_octets(tag, invoke_id, service) == ber::tlv(
            tag,
            ber::tlv(0x02, integer::unsigned_octets(invoke_id as u64)) + service,
        ),
{
}

/// What a confirmed PDU decodes to: the invoke id of one to four octets, and the service
/// after it. A PDU that does not open with an integer is refused.
pub proof fn law_confirmed_decodes(
    tag: u8,
    id: Seq<u8>,
    other: u8,
    service: Seq<u8>,
    rest: Seq<u8>,
)
    requires
        id.len() <= 0x7000,
        service.len() <= 0x7000,
        other != 0x02,
    ensures
        1 <= id.len() <= 4 ==> asn1::uint(id) <= u32::MAX && confirmed::confirmed_at(
            ber::tlv(tag, ber::tlv(0x02, id) + service) + rest,
            tag,
        ) == Ok::<(u32, Seq<u8>), MmsError>((asn1::uint(id) as u32, service)),
        id.len() == 0 || id.len() > 4 ==> confirmed::confirmed_at(
            ber::tlv(tag, ber::tlv(0x02, id) + service) + rest,
            tag,
        ) == Err::<(u32, Seq<u8>), MmsError>(MmsError::InvalidLength),
        confirmed::confirmed_at(ber::tlv(tag, ber::tlv(other, id) + service) + rest, tag) == Err::<
            (u32, Seq<u8>),
            MmsError,
        >(MmsError::TruncatedPdu),
{
    ber::law_element_round_trip(tag, ber::tlv(0x02, id) + service, rest);
    ber::law_element_round_trip(tag, ber::tlv(other, id) + service, rest);
    ber::law_element_round_trip(0x02, id, service);
    integer::lemma_uint_bound(id);
    integer::lemma_pow256_values();
}

/// What the service reader of a confirmed PDU returns: the invoke id, with what the
/// service is read as.
pub proof fn law_service_reads<V>(
    tag: u8,
    id: Seq<u8>,
    service: Seq<u8>,
    rest: Seq<u8>,
    read: spec_fn(Seq<u8>) -> Result<V, MmsError>,
)
    requires
        1 <= id.len() <= 4,
        service.len() <= 0x7000,
    ensures
        confirmed::service_at(ber::tlv(tag, ber::tlv(0x02, id) + service) + rest, tag, read)
            == (match read(
            service,
        ) {
            Ok(v) => Ok::<(u32, V), MmsError>((asn1::uint(id) as u32, v)),
            Err(e) => Err(e),
        }),
{
    law_confirmed_decodes(tag, id, 0x00, service, rest);
}

/// The numbers of the object classes that are served; no other number is one.
pub proof fn law_object_classes(v: u32)
    ensures
        ObjectClass::of_value(0) == Ok::<ObjectClass, MmsError>(ObjectClass::NamedVariable),
        ObjectClass::of_value(2) == Ok::<ObjectClass, MmsError>(ObjectClass::NamedVariableList),
        ObjectClass::of_value(8) == Ok::<ObjectClass, MmsError>(ObjectClass::Journal),
        ObjectClass::of_value(9) == Ok::<ObjectClass, MmsError>(ObjectClass::Domain),
        v != 0 && v != 2 && v != 8 && v != 9 ==> ObjectClass::of_value(v) == Err::<
            ObjectClass,
            MmsError,
        >(MmsError::UnsupportedObjectClass(v)),
        ObjectClass::of_value(v) matches Ok(c) ==> c.value() == v,
{
}

/// A request for names holds the class under 0x80 within 0xa0, the scope within 0xa1, and
/// the cursor under 0x82 where there is one. The scope is an empty 0x80 for the VMD, the
/// name of the domain under 0x81, or an empty 0x82 for the association.
pub proof fn law_name_list_request_octets(r: GetNameListRequest)
    ensures
        ({
            let class = match r.object_class {
                ObjectClass::NamedVariable => seq![0xa0u8, 0x03, 0x80, 0x01, 0x00],
                ObjectClass::NamedVariableList => seq![0xa0u8, 0x03, 0x80, 0x01, 0x02],
                ObjectClass::Journal => seq![0xa0u8, 0x03, 0x80, 0x01, 0x08],
                ObjectClass::Domain => seq![0xa0u8, 0x03, 0x80, 0x01, 0x09],
            };
            let scope = match r.object_scope {
                ObjectScope::VmdSpecific => seq![0x80u8, 0x00],
                ObjectScope::DomainSpecific(d) => ber::tlv(0x81, vstd::utf8::encode_utf8(d@)),
                ObjectScope::AaSpecific => seq![0x82u8, 0x00],
            };
            let cursor = match r.continue_after {
                Some(t) => ber::tlv(0x82, vstd::utf8::encode_utf8(t@)),
                None => Seq::<u8>::empty(),
            };
            r@.octets() == ber::tlv(0xa1, class + ber::tlv(0xa1, scope) + cursor)
        }),
        r@.object_class == r.object_class,
        match r.object_scope {
            ObjectScope::VmdSpecific => r@.object_scope == ObjectScopeView::VmdSpecific,
            ObjectScope::DomainSpecific(d) => r@.object_scope
                == ObjectScopeView::DomainSpecific(d@),
            ObjectScope::AaSpecific => r@.object_scope == ObjectScopeView::AaSpecific,
        },
        match r.continue_after {
            Some(t) => r@.continue_after == Some(t@),
            None => r@.continue_after is None,
        },
{
    let none = Seq::<u8>::empty();
    assert(ber::tlv(0x80, none) =~= seq![0x80u8, 0x00]);
    assert(ber::tlv(0x82, none) =~= seq![0x82u8, 0x00]);
    let v = r.object_class.value();
    assert(ber::tlv(0x80, seq![v]) =~= seq![0x80u8, 0x01, v]);
    assert(ber::tlv(0xa0, seq![0x80u8, 0x01, v]) =~= seq![0xa0u8, 0x03, 0x80, 0x01, v]);
    let scope = r@.object_scope.octets();
    assert(r@.content() =~= seq![0xa0u8, 0x03, 0x80, 0x01, v] + ber::tlv(0xa1, scope)
        + r@.cursor_octets());
}

/// What a request with a class and a scope decodes to. The scope under 0x81 is a domain
/// of at most 64 bytes; the scopes under 0x80 and 0x82 are told by their tag.
#[verifier::rlimit(40)]
pub proof fn law_name_list_request_decodes(
    class: ObjectClass,
    number: Seq<u8>,
    d: Seq<u8>,
    rest: Seq<u8>,
)
    requires
        1 <= number.len() <= 4,
        asn1::uint(number) == (match class {
            ObjectClass::NamedVariable => 0nat,
            ObjectClass::NamedVariableList => 2,
            ObjectClass::Journal => 8,
            ObjectClass::Domain => 9,
        }),
        d.len() <= 0x7000,
    ensures
        ({
            let head = ber::tlv(0xa0, ber::tlv(0x80, number));
            &&& GetNameListRequestView::parse(
                ber::tlv(0xa1, head + ber::tlv(0xa1, ber::tlv(0x80, d))) + rest,
            ) == Ok::<GetNameListRequestView, MmsError>(
                GetNameListRequestView {
                    object_class: class,
                    object_scope: ObjectScopeView::VmdSpecific,
                    continue_after: None,
                },
            )
            &&& GetNameListRequestView::parse(
                ber::tlv(0xa1, head + ber::tlv(0xa1, ber::tlv(0x82, d))) + rest,
            ) == Ok::<GetNameListRequestView, MmsError>(
                GetNameListRequestView {
                    object_class: class,
                    object_scope: ObjectScopeView::AaSpecific,
                    continue_after: None,
                },
            )
            &&& GetNameListRequestView::parse(
                ber::tlv(0xa1, head + ber::tlv(0xa1, ber::tlv(0x81, d))) + rest)
                == (if d.len() > 64 {
                Err::<GetNameListRequestView, MmsError>(MmsError::InvalidPdu)
            } else {
                match text::text_at(d) {
                    Some(t) => Ok(
                        GetNameListRequestView {
                            object_class: class,
                            object_scope: ObjectScopeView::DomainSpecific(t),
                            continue_after: None,
                        },
                    ),
                    None => Err(MmsError::InvalidUtf8),
                }
            })
        }),
{
    let start: GetNameListFields = (None, None, None);
    let classed: GetNameListFields = (Some(class), None, None);
    let steps = get_name_list::request_fields();
    ber::lemma_element_alone(0x80, number);
    assert(steps(start, 0xa0, ber::tlv(0x80, number))
        == Ok::<GetNameListFields, MmsError>(classed));
    lemma_scope_field(classed, number, 0x80, d, rest);
    lemma_scope_field(classed, number, 0x81, d, rest);
    lemma_scope_field(classed, number, 0x82, d, rest);
}

/// The fields of a request made of a class and a scope, and nothing else.
proof fn lemma_scope_field(
    classed: GetNameListFields,
    number: Seq<u8>,
    tag: u8,
    d: Seq<u8>,
    rest: Seq<u8>,
)
    requires
        number.len() <= 4,
        d.len() <= 0x7000,
        get_name_list::request_field((None, None, None), 0xa0, ber::tlv(0x80, number)) == Ok::<
            GetNameListFields,
            MmsError,
        >(classed),
    ensures
        ({
            let content = ber::tlv(0xa0, ber::tlv(0x80, number)) + ber::tlv(0xa1, ber::tlv(tag, d));
            GetNameListRequestView::parse(ber::tlv(0xa1, content) + rest)
                == (match get_name_list::request_field(classed, 0xa1, ber::tlv(tag, d)) {
                Ok(f) => GetNameListRequestView::of_fields(f),
                Err(e) => Err(e),
            })
        }),
        ber::element_at(ber::tlv(tag, d)) matches Ok(e) && e.tag == tag && e.val == d,
{
    let steps = get_name_list::request_fields();
    let start: GetNameListFields = (None, None, None);
    let scope = ber::tlv(tag, d);
    let content = ber::tlv(0xa0, ber::tlv(0x80, number)) + ber::tlv(0xa1, scope);
    ber::lemma_element_alone(tag, d);
    ber::law_element_round_trip(0xa1, content, rest);
    ber::lemma_fold_tlv(0xa0, ber::tlv(0x80, number), ber::tlv(0xa1, scope), start, steps);
    ber::lemma_fold_last(0xa1, scope, classed, steps);
    assert(steps(start, 0xa0, ber::tlv(0x80, number)) == get_name_list::request_field(
        start,
        0xa0,
        ber::tlv(0x80, number),
    ));
    assert(steps(classed, 0xa1, scope) == get_name_list::request_field(classed, 0xa1, scope));
}

/// What one more field does to a request that decodes: a cursor of at most 129 bytes
/// under 0x82 is taken, a class or scope replaces the one before, and a field with
/// another tag changes nothing.
pub proof fn law_name_list_request_field(
    c: Seq<u8>,
    r: GetNameListRequestView,
    tag: u8,
    val: Seq<u8>,
    rest: Seq<u8>,
)
    requires
        val.len() <= 0x7000,
        c.len() <= 0x7000,
        GetNameListRequestView::parse(ber::tlv(0xa1, c))
            == Ok::<GetNameListRequestView, MmsError>(r),
    ensures
        GetNameListRequestView::parse(ber::tlv(0xa1, c + ber::tlv(0x82, val)) + rest)
            == (if val.len() > 129 {
            Err::<GetNameListRequestView, MmsError>(MmsError::InvalidPdu)
        } else {
            match text::text_at(val) {
                Some(t) => Ok(GetNameListRequestView { continue_after: Some(t), ..r }),
                None => Err(MmsError::InvalidUtf8),
            }
        }),
        tag != 0xa0 && tag != 0xa1 && tag != 0x82 ==> GetNameListRequestView::parse(
            ber::tlv(0xa1, c + ber::tlv(tag, val)) + rest,
        ) == Ok::<GetNameListRequestView, MmsError>(r),
        1 <= val.len() <= 4 ==> GetNameListRequestView::parse(
            ber::tlv(0xa1, c + ber::tlv(0xa0, ber::tlv(0x80, val))) + rest,
        ) == (match ObjectClass::of_value(asn1::uint(val) as u32) {
            Ok(class) => Ok::<GetNameListRequestView, MmsError>(
                GetNameListRequestView { object_class: class, ..r },
            ),
            Err(e) => Err(e),
        }),
        val.len() <= 64 && text::text_at(val) is Some ==> GetNameListRequestView::parse(
            ber::tlv(0xa1, c + ber::tlv(0xa1, ber::tlv(0x81, val))) + rest,
        ) == Ok::<GetNameListRequestView, MmsError>(
            GetNameListRequestView {
                object_scope: ObjectScopeView::DomainSpecific(text::text_at(val)->0),
                ..r
            },
        ),
{
    lemma_request_append(c, r, 0x82, val, rest);
    lemma_request_append(c, r, tag, val, rest);
    lemma_request_append(c, r, 0xa0, ber::tlv(0x80, val), rest);
    lemma_request_append(c, r, 0xa1, ber::tlv(0x81, val), rest);
    ber::lemma_element_alone(0x80, val);
    ber::lemma_element_alone(0x81, val);
}

/// A request that decodes, with one more field.
proof fn lemma_request_append(
    c: Seq<u8>,
    r: GetNameListRequestView,
    tag: u8,
    val: Seq<u8>,
    rest: Seq<u8>,
)
    requires
        val.len() <= 0x7100,
        c.len() <= 0x7000,
        GetNameListRequestView::parse(ber::tlv(0xa1, c))
            == Ok::<GetNameListRequestView, MmsError>(r),
    ensures
        GetNameListRequestView::parse(ber::tlv(0xa1, c + ber::tlv(tag, val)) + rest)
            == (match get_name_list::request_field(
            (Some(r.object_class), Some(r.object_scope), r.continue_after),
            tag,
            val,
        ) {
            Ok(f) => GetNameListRequestView::of_fields(f),
            Err(e) => Err(e),
        }),
{
    let steps = get_name_list::request_fields();
    let start: GetNameListFields = (None, None, None);
    ber::lemma_element_alone(0xa1, c);
    ber::law_element_round_trip(0xa1, c + ber::tlv(tag, val), rest);
    ber::lemma_fold_append(c, tag, val, start, steps);
    let f = ber::fold(c, start, steps)->Ok_0;
    assert(f == (Some(r.object_class), Some(r.object_scope), r.continue_after));
    assert(steps(f, tag, val) == get_name_list::request_field(f, tag, val));
}

/// What is refused in a request for names: a class that is not a number of one to four
/// octets under 0x80, or not a class that is served, and a scope under a tag of its own.
#[verifier::rlimit(40)]
pub proof fn law_name_list_request_faults(tag: u8, val: Seq<u8>, tail: Seq<u8>, rest: Seq<u8>)
    requires
        val.len() <= 0x6000,
        tail.len() <= 0x6000,
    ensures
        tag != 0x80 ==> GetNameListRequestView::parse(
            ber::tlv(0xa1, ber::tlv(0xa0, ber::tlv(tag, val)) + tail) + rest,
        ) == Err::<GetNameListRequestView, MmsError>(MmsError::InvalidPdu),
        val.len() == 0 || val.len() > 4 ==> GetNameListRequestView::parse(
            ber::tlv(0xa1, ber::tlv(0xa0, ber::tlv(0x80, val)) + tail) + rest,
        ) == Err::<GetNameListRequestView, MmsError>(MmsError::InvalidLength),
        1 <= val.len() <= 4 && asn1::uint(val) != 0 && asn1::uint(val) != 2 && asn1::uint(val) != 8
            && asn1::uint(val) != 9 ==> GetNameListRequestView::parse(
            ber::tlv(0xa1, ber::tlv(0xa0, ber::tlv(0x80, val)) + tail) + rest,
        ) == Err::<GetNameListRequestView, MmsError>(
            MmsError::UnsupportedObjectClass(asn1::uint(val) as u32),
        ),
        !(0x80 <= tag <= 0x82) ==> GetNameListRequestView::parse(
            ber::tlv(0xa1, ber::tlv(0xa1, ber::tlv(tag, val)) + tail) + rest,
        ) == Err::<GetNameListRequestView, MmsError>(MmsError::InvalidPdu),
{
    let steps = get_name_list::request_fields();
    let start: GetNameListFields = (None, None, None);
    let other = ber::tlv(tag, val);
    let class = ber::tlv(0x80, val);
    ber::lemma_element_alone(tag, val);
    ber::lemma_element_alone(0x80, val);
    assert(other[0] == tag);
    assert(class[0] == 0x80);
    ber::law_element_round_trip(0xa1, ber::tlv(0xa0, other) + tail, rest);
    ber::lemma_fold_tlv(0xa0, other, tail, start, steps);
    ber::law_element_round_trip(0xa1, ber::tlv(0xa0, class) + tail, rest);
    ber::lemma_fold_tlv(0xa0, class, tail, start, steps);
    ber::law_element_round_trip(0xa1, ber::tlv(0xa1, other) + tail, rest);
    ber::lemma_fold_tlv(0xa1, other, tail, start, steps);
    if 1 <= val.len() <= 4 {
        integer::lemma_uint_bound(val);
        integer::lemma_pow256_values();
        integer::lemma_pow256_mono(val.len(), 4);
    }
}

/// A request without a class or a scope is truncated.
pub proof fn law_name_list_request_incomplete(val: Seq<u8>, rest: Seq<u8>)
    requires
        val.len() <= 129,
        text::text_at(val) is Some,
    ensures
        GetNameListRequestView::parse(ber::tlv(0xa1, ber::tlv(0x82, val)) + rest) == Err::<
            GetNameListRequestView,
            MmsError,
        >(MmsError::TruncatedPdu),
        GetNameListRequestView::parse(ber::tlv(0xa1, ber::tlv(0xa1, ber::tlv(0x80, val))) + rest)
            == Err::<
            GetNameListRequestView,
            MmsError,
        >(MmsError::TruncatedPdu),
        1 <= val.len() <= 4 && asn1::uint(val) == 9 ==> GetNameListRequestView::parse(
            ber::tlv(0xa1, ber::tlv(0xa0, ber::tlv(0x80, val))) + rest,
        ) == Err::<GetNameListRequestView, MmsError>(MmsError::TruncatedPdu),
{
    let steps = get_name_list::request_fields();
    let start: GetNameListFields = (None, None, None);
    ber::lemma_element_alone(0x80, val);
    ber::law_element_round_trip(0xa1, ber::tlv(0x82, val), rest);
    ber::lemma_fold_last(0x82, val, start, steps);
    ber::law_element_round_trip(0xa1, ber::tlv(0xa1, ber::tlv(0x80, val)), rest);
    ber::lemma_fold_last(0xa1, ber::tlv(0x80, val), start, steps);
    ber::law_element_round_trip(0xa1, ber::tlv(0xa0, ber::tlv(0x80, val)), rest);
    ber::lemma_fold_last(0xa0, ber::tlv(0x80, val), start, steps);
}

/// Identifiers are written one after the other, in order, each under 0x1a.
pub proof fn law_identifiers_in_order(a: Seq<String>, x: String, b: Seq<String>)
    ensures
        get_name_list::identifier_octets(get_name_list::texts(Seq::<String>::empty()))
            == Seq::<u8>::empty(),
        get_name_list::identifier_octets(get_name_list::texts(a.push(x) + b))
            == get_name_list::identifier_octets(get_name_list::texts(a)) + ber::tlv(
            0x1a,
            vstd::utf8::encode_utf8(x@),
        ) + get_name_list::identifier_octets(get_name_list::texts(b)),
    decreases b.len(),
{
    if b.len() == 0 {
        assert(a.push(x) + b =~= a.push(x));
        assert(get_name_list::texts(a.push(x)).drop_last() =~= get_name_list::texts(a));
    } else {
        let rest = b.drop_last();
        law_identifiers_in_order(a, x, rest);
        assert(get_name_list::texts(a.push(x) + b).drop_last()
            =~= get_name_list::texts(a.push(x) + rest));
        assert(get_name_list::texts(b).drop_last() =~= get_name_list::texts(rest));
        assert(get_name_list::identifier_octets(get_name_list::texts(a.push(x) + b))
            =~= get_name_list::identifier_octets(get_name_list::texts(a)) + ber::tlv(
            0x1a,
            vstd::utf8::encode_utf8(x@),
        ) + get_name_list::identifier_octets(get_name_list::texts(b)));
    }
}

/// Identifiers are read in order: each element under 0x1a is the next one, and an element
/// under another tag is passed over.
pub proof fn law_identifiers_decode(tag: u8, val: Seq<u8>, c: Seq<u8>, acc: Seq<Seq<char>>)
    requires
        val.len() <= 0xffff,
        tag != 0x1a,
    ensures
        get_name_list::identifier_list_at(Seq::<u8>::empty(), acc)
            == Ok::<Seq<Seq<char>>, MmsError>(acc),
        get_name_list::identifier_list_at(ber::tlv(0x1a, val) + c, acc)
            == (match text::text_at(val) {
            Some(t) => get_name_list::identifier_list_at(c, acc.push(t)),
            None => Err::<Seq<Seq<char>>, MmsError>(MmsError::InvalidUtf8),
        }),
        get_name_list::identifier_list_at(ber::tlv(tag, val) + c, acc)
            == get_name_list::identifier_list_at(c, acc),
{
    ber::law_element_round_trip(0x1a, val, c);
    let s = ber::tlv(tag, val) + c;
    asn1::law_length_round_trip(val.len(), val + c);
    assert(s.skip(1) =~= asn1::length_octets(val.len()) + (val + c));
    assert(s.skip(ber::tlv(tag, val).len() as int) =~= c);
}

/// The names go within 0xa0, and the flag is written, as an octet 0x00 under 0x81, only
/// where no more names follow.
pub proof fn law_name_list_response_octets(r: GetNameListResponse)
    ensures
        r.more_follows ==> r@.octets() == ber::tlv(
            0xa1,
            ber::tlv(0xa0, get_name_list::identifier_octets(get_name_list::texts(r.identifiers@))),
        ),
        !r.more_follows ==> r@.octets() == ber::tlv(
            0xa1,
            ber::tlv(0xa0, get_name_list::identifier_octets(get_name_list::texts(r.identifiers@)))
                + seq![0x81u8, 0x01, 0x00],
        ),
        r@.more_follows == r.more_follows,
        r@.identifiers.len() == r.identifiers.len(),
        forall|i: int|
            0 <= i < r.identifiers.len() ==> #[trigger] r@.identifiers[i] == r.identifiers[i]@,
{
    assert(ber::tlv(0x81, seq![0x00u8]) =~= seq![0x81u8, 0x01, 0x00]);
}

/// What a response decodes to: the identifiers within 0xa0. More names follow unless the
/// first octet under 0x81 is zero.
pub proof fn law_name_list_response_decodes(c: Seq<u8>, flag: Seq<u8>, rest: Seq<u8>)
    requires
        c.len() <= 0x7000,
        flag.len() <= 0x7000,
    ensures
        GetNameListResponseView::parse(ber::tlv(0xa1, ber::tlv(0xa0, c)) + rest) == (
        match get_name_list::identifier_list_at(c, Seq::empty()) {
            Ok(ids) => Ok::<GetNameListResponseView, MmsError>(
                GetNameListResponseView { identifiers: ids, more_follows: true },
            ),
            Err(e) => Err(e),
        }),
        GetNameListResponseView::parse(ber::tlv(0xa1, ber::tlv(0x81, flag)) + rest) is Err,
        get_name_list::identifier_list_at(c, Seq::empty()) matches Ok(ids)
            ==> GetNameListResponseView::parse(
            ber::tlv(0xa1, ber::tlv(0xa0, c) + ber::tlv(0x81, flag)) + rest,
        ) == (if flag.len() == 0 {
            Err::<GetNameListResponseView, MmsError>(MmsError::TruncatedPdu)
        } else {
            Ok(GetNameListResponseView { identifiers: ids, more_follows: flag[0] != 0 })
        }),
{
    let steps = get_name_list::response_fields();
    let start: get_name_list::ResponseFields = (None, true);
    ber::law_element_round_trip(0xa1, ber::tlv(0xa0, c), rest);
    ber::lemma_fold_last(0xa0, c, start, steps);
    ber::law_element_round_trip(0xa1, ber::tlv(0x81, flag), rest);
    ber::lemma_fold_last(0x81, flag, start, steps);
    ber::law_element_round_trip(0xa1, ber::tlv(0xa0, c) + ber::tlv(0x81, flag), rest);
    ber::lemma_fold_tlv(0xa0, c, ber::tlv(0x81, flag), start, steps);
    if let Ok(ids) = get_name_list::identifier_list_at(c, Seq::empty()) {
        let listed: get_name_list::ResponseFields = (Some(ids), true);
        ber::lemma_fold_last(0x81, flag, listed, steps);
    }
}

/// One more field of a response that decodes sets the names (0xa0) or the flag (0x81), and
/// a field with another tag changes nothing.
pub proof fn law_name_list_response_field(
    c: Seq<u8>,
    r: GetNameListResponseView,
    tag: u8,
    val: Seq<u8>,
    rest: Seq<u8>,
)
    requires
        c.len() <= 0x7000,
        val.len() <= 0x7000,
        GetNameListResponseView::parse(ber::tlv(0xa1, c)) == Ok::<
            GetNameListResponseView,
            MmsError,
        >(r),
    ensures
        ({
            let got = GetNameListResponseView::parse(
                ber::tlv(0xa1, c + ber::tlv(tag, val)) + rest,
            );
            &&& tag == 0xa0 ==> got == (match get_name_list::identifier_list_at(
                val,
                Seq::empty(),
            ) {
                Ok(ids) => Ok::<GetNameListResponseView, MmsError>(
                    GetNameListResponseView { identifiers: ids, ..r },
                ),
                Err(e) => Err(e),
            })
            &&& tag == 0x81 ==> got == (if val.len() == 0 {
                Err::<GetNameListResponseView, MmsError>(MmsError::TruncatedPdu)
            } else {
                Ok(GetNameListResponseView { more_follows: val[0] != 0, ..r })
            })
            &&& tag != 0xa0 && tag != 0x81 ==> got == Ok::<GetNameListResponseView, MmsError>(r)
        }),
{
    let steps = get_name_list::response_fields();
    let start: get_name_list::ResponseFields = (None, true);
    ber::lemma_element_alone(0xa1, c);
    ber::law_element_round_trip(0xa1, c + ber::tlv(tag, val), rest);
    ber::lemma_fold_append(c, tag, val, start, steps);
}

/// The numbers of the scopes of a deletion; no other number is one.
pub proof fn law_delete_scopes(v: u8)
    ensures
        ScopeOfDelete::of_value(0) == Ok::<ScopeOfDelete, MmsError>(ScopeOfDelete::Specific),
        ScopeOfDelete::of_value(1) == Ok::<ScopeOfDelete, MmsError>(ScopeOfDelete::AaSpecific),
        ScopeOfDelete::of_value(2) == Ok::<ScopeOfDelete, MmsError>(ScopeOfDelete::Domain),
        ScopeOfDelete::of_value(3) == Ok::<ScopeOfDelete, MmsError>(ScopeOfDelete::Vmd),
        v > 3 ==> ScopeOfDelete::of_value(v) == Err::<ScopeOfDelete, MmsError>(
            MmsError::DefineNamedVariableListMissingField("scopeOfDelete out of range"),
        ),
        ScopeOfDelete::Specific.value() == 0,
        ScopeOfDelete::AaSpecific.value() == 1,
        ScopeOfDelete::Domain.value() == 2,
        ScopeOfDelete::Vmd.value() == 3,
{
}

/// Names are written one after the other, in order.
pub proof fn law_names_in_order(a: Seq<ObjectName>, x: ObjectName, b: Seq<ObjectName>)
    ensures
        delete_named_variable_list::names_octets(
            delete_named_variable_list::name_views(Seq::<ObjectName>::empty()))
            == Seq::<u8>::empty(),
        delete_named_variable_list::names_octets(
            delete_named_variable_list::name_views(a.push(x) + b))
            == delete_named_variable_list::names_octets(delete_named_variable_list::name_views(a))
            + x@.octets()
            + delete_named_variable_list::names_octets(delete_named_variable_list::name_views(b)),
    decreases b.len(),
{
    if b.len() == 0 {
        assert(a.push(x) + b =~= a.push(x));
        assert(delete_named_variable_list::name_views(a.push(x)).drop_last()
            =~= delete_named_variable_list::name_views(a));
    } else {
        let rest = b.drop_last();
        law_names_in_order(a, x, rest);
        assert(delete_named_variable_list::name_views(a.push(x) + b).drop_last()
            =~= delete_named_variable_list::name_views(a.push(x) + rest));
        assert(delete_named_variable_list::name_views(b).drop_last()
            =~= delete_named_variable_list::name_views(rest));
        assert(delete_named_variable_list::names_octets(
            delete_named_variable_list::name_views(a.push(x) + b))
            =~= delete_named_variable_list::names_octets(delete_named_variable_list::name_views(a))
            + x@.octets()
                + delete_named_variable_list::names_octets(
                delete_named_variable_list::name_views(b)));
    }
}

/// Names are read in order, each from where the one before it ended.
pub proof fn law_names_decode(name: ObjectNameView, e: Seq<u8>, c: Seq<u8>,
    acc: Seq<ObjectNameView>)
    requires
        ObjectNameView::parse(e + c) == Ok::<(ObjectNameView, nat), MmsError>((name, e.len())),
    ensures
        delete_named_variable_list::name_list_at(Seq::<u8>::empty(), acc)
            == Ok::<Seq<ObjectNameView>, MmsError>(acc),
        delete_named_variable_list::name_list_at(e + c, acc)
            == delete_named_variable_list::name_list_at(c, acc.push(name)),
{
    assert((e + c).skip(e.len() as int) =~= c);
}

/// A deletion opens with the scope under 0x80. The names go within 0xa1, where there are
/// any, and the domain under 0x82, where there is one.
pub proof fn law_delete_request_octets(r: DeleteNamedVariableListRequest)
    ensures
        ({
            let scope = match r.scope_of_delete {
                ScopeOfDelete::Specific => seq![0x80u8, 0x01, 0x00],
                ScopeOfDelete::AaSpecific => seq![0x80u8, 0x01, 0x01],
                ScopeOfDelete::Domain => seq![0x80u8, 0x01, 0x02],
                ScopeOfDelete::Vmd => seq![0x80u8, 0x01, 0x03],
            };
            let names = if r.list_of_variable_list_name.len() == 0 {
                Seq::<u8>::empty()
            } else {
                ber::tlv(0xa1,
                    delete_named_variable_list::names_octets(
                    delete_named_variable_list::name_views(r.list_of_variable_list_name@)))
            };
            let domain = match r.domain_name {
                Some(d) => ber::tlv(0x82, vstd::utf8::encode_utf8(d@)),
                None => Seq::<u8>::empty(),
            };
            r@.octets() == ber::tlv(0xad, scope + names + domain)
        }),
        r@.scope_of_delete == r.scope_of_delete,
        r@.names.len() == r.list_of_variable_list_name.len(),
        forall|i: int|
            0 <= i < r@.names.len() ==> #[trigger] r@.names[i] == r.list_of_variable_list_name[i]@,
        match r.domain_name {
            Some(d) => r@.domain_name == Some(d@),
            None => r@.domain_name is None,
        },
{
    let v = r.scope_of_delete.value();
    assert(ber::tlv(0x80, seq![v]) =~= seq![0x80u8, 0x01, v]);
    assert(r@.content() =~= seq![0x80u8, 0x01, v] + r@.list_octets() + r@.domain_octets());
}

/// A deletion without content is one of specific data sets and names none. One more field
/// sets the scope (0x80), the names (0xa1) or the domain (0x82), and a field with another
/// tag changes nothing.
#[verifier::rlimit(40)]
pub proof fn law_delete_request_decodes(
    c: Seq<u8>,
    r: DeleteRequestView,
    tag: u8,
    val: Seq<u8>,
    rest: Seq<u8>,
)
    requires
        val.len() <= 0x7000,
        c.len() <= 0x7000,
        DeleteRequestView::parse(ber::tlv(0xad, c)) == Ok::<DeleteRequestView, MmsError>(r),
    ensures
        DeleteRequestView::parse(seq![0xadu8, 0x00] + rest) == Ok::<DeleteRequestView, MmsError>(
            DeleteRequestView {
                scope_of_delete: ScopeOfDelete::Specific,
                names: Seq::empty(),
                domain_name: None,
            },
        ),
        DeleteRequestView::parse(ber::tlv(0xad, c + ber::tlv(0x80, val)) + rest)
            == (if val.len() == 0 {
            Err::<DeleteRequestView, MmsError>(MmsError::InvalidLength)
        } else if val[0] == 0 {
            Ok(DeleteRequestView { scope_of_delete: ScopeOfDelete::Specific, ..r })
        } else if val[0] == 1 {
            Ok(DeleteRequestView { scope_of_delete: ScopeOfDelete::AaSpecific, ..r })
        } else if val[0] == 2 {
            Ok(DeleteRequestView { scope_of_delete: ScopeOfDelete::Domain, ..r })
        } else if val[0] == 3 {
            Ok(DeleteRequestView { scope_of_delete: ScopeOfDelete::Vmd, ..r })
        } else {
            Err(MmsError::DefineNamedVariableListMissingField("scopeOfDelete out of range"))
        }),
        DeleteRequestView::parse(ber::tlv(0xad, c + ber::tlv(0xa1, val)) + rest)
            == (match delete_named_variable_list::name_list_at(
            val,
            Seq::empty(),
        ) {
            Ok(names) => Ok::<DeleteRequestView, MmsError>(DeleteRequestView { names, ..r }),
            Err(e) => Err(e),
        }),
        DeleteRequestView::parse(ber::tlv(0xad, c + ber::tlv(0x82, val)) + rest)
            == (match text::text_at(
            val,
        ) {
            Some(t) => Ok::<DeleteRequestView, MmsError>(
                DeleteRequestView { domain_name: Some(t), ..r },
            ),
            None => Err(MmsError::InvalidUtf8),
        }),
        tag != 0x80 && tag != 0xa1 && tag != 0x82 ==> DeleteRequestView::parse(
            ber::tlv(0xad, c + ber::tlv(tag, val)) + rest,
        ) == Ok::<DeleteRequestView, MmsError>(r),
{
    let none = Seq::<u8>::empty();
    ber::law_element_round_trip(0xad, none, rest);
    assert(ber::tlv(0xad, none) =~= seq![0xadu8, 0x00]);
    lemma_delete_append(c, r, 0x80, val, rest);
    lemma_delete_append(c, r, 0xa1, val, rest);
    lemma_delete_append(c, r, 0x82, val, rest);
    lemma_delete_append(c, r, tag, val, rest);
}

/// A deletion that decodes, with one more field.
proof fn lemma_delete_append(
    c: Seq<u8>,
    r: DeleteRequestView,
    tag: u8,
    val: Seq<u8>,
    rest: Seq<u8>,
)
    requires
        val.len() <= 0x7000,
        c.len() <= 0x7000,
        DeleteRequestView::parse(ber::tlv(0xad, c)) == Ok::<DeleteRequestView, MmsError>(r),
    ensures
        DeleteRequestView::parse(ber::tlv(0xad, c + ber::tlv(tag, val)) + rest)
            == delete_named_variable_list::delete_field(r, tag, val),
{
    let steps = delete_named_variable_list::delete_fields();
    ber::lemma_element_alone(0xad, c);
    ber::law_element_round_trip(0xad, c + ber::tlv(tag, val), rest);
    ber::lemma_fold_append(c, tag, val, DeleteRequestView::default_view(), steps);
}

/// The answer to a deletion counts the data sets that matched under 0x80, and those that
/// were deleted under 0x81.
pub proof fn law_delete_response_octets(r: DeleteNamedVariableListResponse)
    ensures
        r.octets() == ber::tlv(
            0xad,
            ber::tlv(0x80, integer::unsigned_octets(r.number_matched as u64)) + ber::tlv(
                0x81,
                integer::unsigned_octets(r.number_deleted as u64),
            ),
        ),
{
}

/// An answer without content counts nothing. One more field sets the count of those that
/// matched (0x80) or of those that were deleted (0x81), from one to four octets, and a
/// field with another tag changes nothing.
#[verifier::rlimit(40)]
pub proof fn law_delete_response_decodes(
    c: Seq<u8>,
    r: DeleteNamedVariableListResponse,
    tag: u8,
    val: Seq<u8>,
    rest: Seq<u8>,
)
    requires
        val.len() <= 0x7000,
        c.len() <= 0x7000,
        DeleteNamedVariableListResponse::parse(ber::tlv(0xad, c)) == Ok::<
            DeleteNamedVariableListResponse,
            MmsError,
        >(r),
    ensures
        DeleteNamedVariableListResponse::parse(seq![0xadu8, 0x00] + rest) == Ok::<
            DeleteNamedVariableListResponse,
            MmsError,
        >(DeleteNamedVariableListResponse { number_matched: 0, number_deleted: 0 }),
        1 <= val.len() <= 4 ==> {
            &&& asn1::uint(val) <= u32::MAX
            &&& DeleteNamedVariableListResponse::parse(ber::tlv(0xad, c + ber::tlv(0x80, val))
                + rest)
                == Ok::<DeleteNamedVariableListResponse, MmsError>(
                DeleteNamedVariableListResponse { number_matched: asn1::uint(val) as u32, ..r },
            )
            &&& DeleteNamedVariableListResponse::parse(ber::tlv(0xad, c + ber::tlv(0x81, val))
                + rest)
                == Ok::<DeleteNamedVariableListResponse, MmsError>(
                DeleteNamedVariableListResponse { number_deleted: asn1::uint(val) as u32, ..r },
            )
        },
        (val.len() == 0 || val.len() > 4) && (tag == 0x80 || tag == 0x81)
            ==> DeleteNamedVariableListResponse::parse(ber::tlv(0xad, c + ber::tlv(tag, val))
                + rest)
            == Err::<DeleteNamedVariableListResponse, MmsError>(MmsError::InvalidLength),
        tag != 0x80 && tag != 0x81 ==> DeleteNamedVariableListResponse::parse(
            ber::tlv(0xad, c + ber::tlv(tag, val)) + rest,
        ) == Ok::<DeleteNamedVariableListResponse, MmsError>(r),
{
    let none = Seq::<u8>::empty();
    ber::law_element_round_trip(0xad, none, rest);
    assert(ber::tlv(0xad, none) =~= seq![0xadu8, 0x00]);
    let steps = delete_named_variable_list::response_fields();
    let zero = DeleteNamedVariableListResponse::zero();
    ber::lemma_element_alone(0xad, c);
    ber::law_element_round_trip(0xad, c + ber::tlv(0x80, val), rest);
    ber::lemma_fold_append(c, 0x80, val, zero, steps);
    ber::law_element_round_trip(0xad, c + ber::tlv(0x81, val), rest);
    ber::lemma_fold_append(c, 0x81, val, zero, steps);
    ber::law_element_round_trip(0xad, c + ber::tlv(tag, val), rest);
    ber::lemma_fold_append(c, tag, val, zero, steps);
    integer::lemma_uint_bound(val);
    integer::lemma_pow256_values();
}

/// The members of a data set are written one after the other, in order: each a sequence
/// 0x30 around its name within 0xa0, the domain before the item.
pub proof fn law_members_in_order(
    a: Seq<DefineNamedVariableEntry>,
    x: DefineNamedVariableEntry,
    b: Seq<DefineNamedVariableEntry>,
)
    ensures
        define_named_variable_list::members_octets(
            define_named_variable_list::member_views(Seq::<DefineNamedVariableEntry>::empty()))
            == Seq::<
            u8,
        >::empty(),
        define_named_variable_list::members_octets(
            define_named_variable_list::member_views(a.push(x) + b))
            == define_named_variable_list::members_octets(
            define_named_variable_list::member_views(a)) + ber::tlv(
            0x30,
            ber::tlv(
                0xa0,
                ber::tlv(
                    0xa1,
                    ber::tlv(0x1a, vstd::utf8::encode_utf8(x.domain_id@)) + ber::tlv(
                        0x1a,
                        vstd::utf8::encode_utf8(x.item_id@),
                    ),
                ),
            ),
        ) + define_named_variable_list::members_octets(define_named_variable_list::member_views(b)),
    decreases b.len(),
{
    if b.len() == 0 {
        assert(a.push(x) + b =~= a.push(x));
        assert(define_named_variable_list::member_views(a.push(x)).drop_last()
            =~= define_named_variable_list::member_views(a));
    } else {
        let rest = b.drop_last();
        law_members_in_order(a, x, rest);
        assert(define_named_variable_list::member_views(a.push(x) + b).drop_last()
            =~= define_named_variable_list::member_views(a.push(x) + rest));
        assert(define_named_variable_list::member_views(b).drop_last()
            =~= define_named_variable_list::member_views(rest));
        assert(define_named_variable_list::members_octets(
            define_named_variable_list::member_views(a.push(x) + b))
            =~= define_named_variable_list::members_octets(
            define_named_variable_list::member_views(a.push(x) + rest),
        ) + define_named_variable_list::member_octets(b.last()@));
        assert(define_named_variable_list::members_octets(
            define_named_variable_list::member_views(b))
            =~= define_named_variable_list::members_octets(
            define_named_variable_list::member_views(rest))
            + define_named_variable_list::member_octets(b.last()@));
    }
}

/// Members are read in order, each a domain-specific name. A name of another scope and a
/// selection 0xa5 after the name are refused.
pub proof fn law_members_decode(
    name: Seq<u8>,
    alt: Seq<u8>,
    c: Seq<u8>,
    acc: Seq<ObjectNameView>,
)
    requires
        name.len() <= 0x7000,
        alt.len() <= 0x7000,
        ObjectNameView::parse(name) is Ok,
    ensures
        define_named_variable_list::member_list_at(Seq::<u8>::empty(), acc)
            == Ok::<Seq<ObjectNameView>, MmsError>(acc),
        define_named_variable_list::member_list_at(ber::tlv(0x30, ber::tlv(0xa0, name)) + c, acc)
            == (match ObjectNameView::parse(
            name,
        )->Ok_0.0 {
            ObjectNameView::DomainSpecific { domain_id,
                item_id } => define_named_variable_list::member_list_at(
                c,
                acc.push(ObjectNameView::DomainSpecific { domain_id, item_id }),
            ),
            _ => Err::<Seq<ObjectNameView>, MmsError>(
                MmsError::DefineNamedVariableListMissingField("domain-specific entry"),
            ),
        }),
        ObjectNameView::parse(name)->Ok_0.0 is DomainSpecific
            ==> define_named_variable_list::member_list_at(
            ber::tlv(0x30, ber::tlv(0xa0, name) + ber::tlv(0xa5, alt)) + c,
            acc,
        ) == Err::<Seq<ObjectNameView>, MmsError>(
            MmsError::DefineNamedVariableListMissingField("alternateAccess not supported in MVP"),
        ),
{
    ber::lemma_element_alone(0xa0, name);
    ber::law_element_round_trip(0xa0, name, ber::tlv(0xa5, alt));
    ber::law_element_round_trip(0x30, ber::tlv(0xa0, name), c);
    ber::law_element_round_trip(0x30, ber::tlv(0xa0, name) + ber::tlv(0xa5, alt), c);
}

/// The definition of a data set holds its name and then the members within 0xa0.
pub proof fn law_define_request_octets(r: DefineNamedVariableListRequest)
    ensures
        r@.octets() == ber::tlv(
            0xab,
            r.list_name@.octets()
                + ber::tlv(0xa0,
                define_named_variable_list::members_octets(
                define_named_variable_list::member_views(r.list_of_variable@))),
        ),
        r@.list_name == r.list_name@,
        r@.members.len() == r.list_of_variable.len(),
        forall|i: int|
            0 <= i < r@.members.len() ==> #[trigger] r@.members[i]
                == (ObjectNameView::DomainSpecific {
                domain_id: r.list_of_variable[i].domain_id@,
                item_id: r.list_of_variable[i].item_id@,
            }),
{
}

/// What a definition decodes to: the name, and the members within 0xa0, at most 100.
pub proof fn law_define_request_decodes(
    name: ObjectNameView,
    e: Seq<u8>,
    c: Seq<u8>,
    rest: Seq<u8>,
)
    requires
        0 < e.len() <= 0x7000,
        c.len() <= 0x7000,
        ObjectNameView::parse(e + ber::tlv(0xa0, c)) == Ok::<(ObjectNameView, nat), MmsError>(
            (name, e.len()),
        ),
    ensures
        DefineRequestView::parse(ber::tlv(0xab, e + ber::tlv(0xa0, c)) + rest)
            == (match define_named_variable_list::member_list_at(
            c,
            Seq::empty(),
        ) {
            Ok(members) => if members.len() > 100 {
                Err::<DefineRequestView, MmsError>(
                    MmsError::TooManyDefineEntries { count: members.len() as usize },
                )
            } else {
                Ok(DefineRequestView { list_name: name, members })
            },
            Err(x) => Err(x),
        }),
        ObjectNameView::parse(e) == Ok::<(ObjectNameView, nat), MmsError>((name, e.len()))
            ==> DefineRequestView::parse(ber::tlv(0xab, e) + rest) == Err::<
            DefineRequestView,
            MmsError,
        >(MmsError::DefineNamedVariableListMissingField("listOfVariable")),
        DefineRequestView::parse(seq![0xabu8, 0x00] + rest) == Err::<DefineRequestView, MmsError>(
            MmsError::DefineNamedVariableListMissingField("variableListName"),
        ),
{
    let content = e + ber::tlv(0xa0, c);
    ber::law_element_round_trip(0xab, content, rest);
    ber::law_element_round_trip(0xab, e, rest);
    ber::lemma_element_alone(0xa0, c);
    assert(content.skip(e.len() as int) =~= ber::tlv(0xa0, c));
    let none = Seq::<u8>::empty();
    ber::law_element_round_trip(0xab, none, rest);
    assert(ber::tlv(0xab, none) =~= seq![0xabu8, 0x00]);
}

/// The answer to a definition is the empty element 0xab. Any octet after the tag will do;
/// another tag is refused.
pub proof fn law_define_response(tag: u8, b: u8, rest: Seq<u8>)
    ensures
        define_named_variable_list::response_octets() == seq![0xabu8, 0x00],
        define_named_variable_list::response_at(seq![0xabu8, b] + rest) is Ok,
        define_named_variable_list::response_at(seq![0xabu8]) == Err::<(), MmsError>(
            MmsError::TruncatedPdu,
        ),
        tag != 0xab ==> define_named_variable_list::response_at(seq![tag, b] + rest) == Err::<
            (),
            MmsError,
        >(MmsError::InvalidTag { expected: 0xab, actual: tag }),
{
}

} // verus!
