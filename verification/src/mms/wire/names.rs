//! Names of variables, and the selection of variables and their parts, as octets.

use vstd::prelude::*;

use crate::asn1;
use crate::mms::error::MmsError;
use crate::mms::pdu::alternate_access;
use crate::mms::pdu::alternate_access::{
    AlternateAccess,
    AlternateAccessSelector,
    AlternateAccessView,
};
use crate::mms::pdu::ber;
use crate::mms::pdu::integer;
use crate::mms::pdu::object_name::{ObjectName, ObjectNameView};
use crate::mms::pdu::variable_access;
use crate::mms::pdu::variable_access::{
    ListOfVariableEntry,
    ListOfVariableEntryView,
    VariableAccessSpecification,
    VariableAccessView,
};
use crate::text;

verus! {

/// A name in the VMD goes under 0x80 and one in the association under 0x82. A name in a
/// domain goes under 0xa1: first the domain, then the item, each under 0x1a.
pub proof fn law_name_octets(name: ObjectName)
    ensures
        name@.octets() == (match name {
            ObjectName::VmdSpecific(t) => ber::tlv(0x80, vstd::utf8::encode_utf8(t@)),
            ObjectName::DomainSpecific { domain_id, item_id } => ber::tlv(
                0xa1,
                ber::tlv(0x1a, vstd::utf8::encode_utf8(domain_id@)) + ber::tlv(
                    0x1a,
                    vstd::utf8::encode_utf8(item_id@),
                ),
            ),
            ObjectName::AaSpecific(t) => ber::tlv(0x82, vstd::utf8::encode_utf8(t@)),
        }),
        match name {
            ObjectName::VmdSpecific(t) => name@ == ObjectNameView::VmdSpecific(t@),
            ObjectName::DomainSpecific { domain_id, item_id } => name@
                == (ObjectNameView::DomainSpecific { domain_id: domain_id@, item_id: item_id@ }),
            ObjectName::AaSpecific(t) => name@ == ObjectNameView::AaSpecific(t@),
        },
{
}

/// What a name within a scope decodes to: under 0x80 a name in the VMD and under 0x82 one
/// in the association, of at most 64 bytes.
pub proof fn law_single_name_decodes(val: Seq<u8>, rest: Seq<u8>, tag: u8)
    requires
        val.len() <= 0xffff,
    ensures
        val.len() <= 64
            ==> ObjectNameView::parse(ber::tlv(0x80, val) + rest) == (match text::text_at(
            val,
        ) {
            Some(t) => Ok::<(ObjectNameView, nat), MmsError>(
                (ObjectNameView::VmdSpecific(t), 2 + val.len()),
            ),
            None => Err(MmsError::InvalidUtf8),
        }),
        val.len() <= 64
            ==> ObjectNameView::parse(ber::tlv(0x82, val) + rest) == (match text::text_at(
            val,
        ) {
            Some(t) => Ok::<(ObjectNameView, nat), MmsError>(
                (ObjectNameView::AaSpecific(t), 2 + val.len()),
            ),
            None => Err(MmsError::InvalidUtf8),
        }),
        val.len() > 64 && (tag == 0x80 || tag == 0x82) ==> ObjectNameView::parse(
            ber::tlv(tag, val) + rest,
        ) == Err::<(ObjectNameView, nat), MmsError>(
            MmsError::IdentifierTooLong { actual: val.len() as usize },
        ),
        tag != 0x80 && tag != 0x82 && tag != 0xa1
            ==> ObjectNameView::parse(ber::tlv(tag, val) + rest)
            == Err::<(ObjectNameView, nat), MmsError>(MmsError::UnknownObjectNameTag(tag)),
{
    ber::law_element_round_trip(0x80, val, rest);
    ber::law_element_round_trip(0x82, val, rest);
    ber::law_element_round_trip(tag, val, rest);
}

/// What a name in a domain decodes to: the first identifier is the domain and the second
/// the item, and what follows them is passed over. An identifier of more than 64 bytes is
/// refused, the domain first.
pub proof fn law_domain_name_decodes(d: Seq<u8>, i: Seq<u8>, more: Seq<u8>, rest: Seq<u8>)
    requires
        d.len() <= 0x5000,
        i.len() <= 0x5000,
        more.len() <= 0x5000,
    ensures
        ObjectNameView::parse(ber::tlv(0xa1, ber::tlv(0x1a, d) + (ber::tlv(0x1a, i) + more)) + rest)
            == (if d.len() > 64 {
            Err::<(ObjectNameView, nat), MmsError>(
                MmsError::IdentifierTooLong { actual: d.len() as usize },
            )
        } else if text::text_at(d) is None {
            Err(MmsError::InvalidUtf8)
        } else if i.len() > 64 {
            Err(MmsError::IdentifierTooLong { actual: i.len() as usize })
        } else if text::text_at(i) is None {
            Err(MmsError::InvalidUtf8)
        } else {
            Ok(
                (
                    ObjectNameView::DomainSpecific {
                        domain_id: text::text_at(d)->0,
                        item_id: text::text_at(i)->0,
                    },
                    ber::tlv(0xa1, ber::tlv(0x1a, d) + (ber::tlv(0x1a, i) + more)).len(),
                ),
            )
        }),
{
    let content = ber::tlv(0x1a, d) + (ber::tlv(0x1a, i) + more);
    ber::law_element_round_trip(0xa1, content, rest);
    ber::law_element_round_trip(0x1a, d, ber::tlv(0x1a, i) + more);
    ber::law_element_round_trip(0x1a, i, more);
}

/// An identifier of a name in a domain that is not under 0x1a is refused, and so is a name
/// that ends after the domain.
pub proof fn law_domain_name_faults(d: Seq<u8>, i: Seq<u8>, tag: u8, rest: Seq<u8>)
    requires
        d.len() <= 64,
        i.len() <= 64,
        text::text_at(d) is Some,
        tag != 0x1a,
    ensures
        ObjectNameView::parse(
            ber::tlv(0xa1, ber::tlv(tag, d) + ber::tlv(0x1a, i)) + rest,
        ) == Err::<(ObjectNameView, nat), MmsError>(
            MmsError::InvalidTag { expected: 0x1a, actual: tag },
        ),
        ObjectNameView::parse(
            ber::tlv(0xa1, ber::tlv(0x1a, d) + ber::tlv(tag, i)) + rest,
        ) == Err::<(ObjectNameView, nat), MmsError>(
            MmsError::InvalidTag { expected: 0x1a, actual: tag },
        ),
        ObjectNameView::parse(ber::tlv(0xa1, ber::tlv(0x1a, d)) + rest) == Err::<
            (ObjectNameView, nat),
            MmsError,
        >(MmsError::TruncatedPdu),
{
    let one = ber::tlv(tag, d) + ber::tlv(0x1a, i);
    let two = ber::tlv(0x1a, d) + ber::tlv(tag, i);
    let three = ber::tlv(0x1a, d);
    ber::law_element_round_trip(0xa1, one, rest);
    ber::law_element_round_trip(0xa1, two, rest);
    ber::law_element_round_trip(0xa1, three, rest);
    ber::law_element_round_trip(0x1a, d, ber::tlv(tag, i));
    ber::lemma_element_alone(0x1a, d);
    assert(one[0] == tag);
    assert(ber::tlv(tag, i)[0] == tag);
    assert(three.skip(three.len() as int) =~= Seq::<u8>::empty());
}

/// A path without the separator is one segment.
proof fn lemma_one_segment(segment: Seq<u8>)
    requires
        forall|i: int| 0 <= i < segment.len() ==> segment[i] != 0x24,
    ensures
        alternate_access::segment_end(segment) == segment.len(),
    decreases segment.len(),
{
    if segment.len() > 0 {
        assert(segment[0] != 0x24);
        lemma_one_segment(segment.skip(1));
    }
}

/// A component path is written segment by segment, split at `$`: the last one under 0x81,
/// and each one before it under 0x80, followed by the rest of the path in a sequence 0x30,
/// both within 0xa0. Each segment is of 1 to 64 bytes.
pub proof fn law_path_octets(segment: Seq<u8>, path: Seq<u8>)
    requires
        forall|i: int| 0 <= i < segment.len() ==> segment[i] != 0x24,
    ensures
        alternate_access::chain_octets(segment) == ber::tlv(0x81, segment),
        alternate_access::chain_octets(segment + seq![0x24u8] + path) == ber::tlv(
            0xa0,
            ber::tlv(0x80, segment) + ber::tlv(0x30, alternate_access::chain_octets(path)),
        ),
        segment.len() == 0
            ==> alternate_access::path_fault(segment) is Some && alternate_access::path_fault(
            segment + seq![0x24u8] + path,
        ) is Some,
        segment.len() > 64 ==> {
            &&& alternate_access::path_fault(segment) == Some(
                MmsError::IdentifierTooLong { actual: segment.len() as usize },
            )
            &&& alternate_access::path_fault(segment + seq![0x24u8] + path) == Some(
                MmsError::IdentifierTooLong { actual: segment.len() as usize },
            )
        },
        1 <= segment.len() <= 64
            ==> alternate_access::path_fault(segment) is None && alternate_access::path_fault(
            segment + seq![0x24u8] + path,
        ) == alternate_access::path_fault(path),
{
    lemma_one_segment(segment);
    alternate_access::lemma_segment_end_joined(segment, path);
    let whole = segment + seq![0x24u8] + path;
    assert(whole.take(segment.len() as int) =~= segment);
    assert(whole.skip(segment.len() as int + 1) =~= path);
}

/// What the members of a component path decode to: under 0x81 the last segment, and under
/// 0xa0 a segment, `$`, and the path in the sequence after it.
pub proof fn law_path_decodes(segment: Seq<u8>, c: Seq<u8>)
    requires
        1 <= segment.len() <= 64,
        forall|i: int| 0 <= i < segment.len() ==> segment[i] != 0x24,
        text::text_at(segment) is Some,
        c.len() <= 0x7000,
        alternate_access::chain_sequence_at(ber::tlv(0x30, c)) is Ok,
    ensures
        alternate_access::chain_sequence_at(ber::tlv(0x30, ber::tlv(0x81, segment)))
            == Ok::<Seq<char>, MmsError>(
            text::text_at(segment)->0,
        ),
        alternate_access::chain_sequence_at(
            ber::tlv(0x30, ber::tlv(0xa0, ber::tlv(0x80, segment) + ber::tlv(0x30, c)))) == Ok::<
            Seq<char>,
            MmsError,
        >(text::text_at(segment)->0 + "$"@
            + alternate_access::chain_sequence_at(ber::tlv(0x30, c))->Ok_0),
{
    lemma_one_segment(segment);
    let last = ber::tlv(0x81, segment);
    ber::lemma_element_alone(0x30, last);
    ber::lemma_element_alone(0x81, segment);
    let inner = ber::tlv(0x80, segment) + ber::tlv(0x30, c);
    let member = ber::tlv(0xa0, inner);
    ber::law_element_round_trip(0x80, segment, ber::tlv(0x30, c));
    ber::lemma_element_alone(0xa0, inner);
    ber::lemma_element_alone(0x30, member);
    assert(inner[0] == 0x80);
    reveal_with_fuel(alternate_access::chain_sequence_at, 2);
    reveal_with_fuel(alternate_access::chain_member_at, 2);
}

/// What is refused in a component path: a segment that is empty, too long, not UTF-8, or
/// holds the separator.
pub proof fn law_segment_faults(segment: Seq<u8>, i: int)
    requires
        segment.len() <= 0xffff,
    ensures
        ({
            let got = alternate_access::chain_sequence_at(
                ber::tlv(0x30, ber::tlv(0x81, segment)),
            );
            &&& segment.len() <= 0x7000 && text::text_at(segment) is None ==> got == Err::<
                Seq<char>,
                MmsError,
            >(MmsError::InvalidUtf8)
            &&& segment.len() == 0 && text::text_at(segment) is Some ==> got == Err::<
                Seq<char>,
                MmsError,
            >(MmsError::AlternateAccessUnsupported("component segment is empty"))
            &&& 64 < segment.len() <= 0x7000 && text::text_at(segment) is Some ==> got == Err::<
                Seq<char>,
                MmsError,
            >(MmsError::IdentifierTooLong { actual: segment.len() as usize })
            &&& segment.len() <= 64 && text::text_at(segment) is Some && 0 <= i < segment.len()
                && segment[i] == 0x24 ==> got == Err::<Seq<char>, MmsError>(
                MmsError::AlternateAccessUnsupported("component segment contains a separator"),
            )
        }),
{
    if segment.len() <= 0x7000 {
        ber::lemma_element_alone(0x30, ber::tlv(0x81, segment));
        ber::lemma_element_alone(0x81, segment);
    }
    reveal_with_fuel(alternate_access::chain_sequence_at, 2);
    reveal_with_fuel(alternate_access::chain_member_at, 2);
    if 0 <= i < segment.len() && segment[i] == 0x24 {
        lemma_separated(segment, i);
    }
}

/// A path with the separator has a first segment that ends before it ends.
proof fn lemma_separated(path: Seq<u8>, i: int)
    requires
        0 <= i < path.len(),
        path[i] == 0x24,
    ensures
        alternate_access::segment_end(path) <= i,
    decreases i,
{
    if i > 0 && path[0] != 0x24 {
        lemma_separated(path.skip(1), i - 1);
    }
}

/// The selection of an element of an array is its index under 0x82. That of a component
/// of an element is, within 0xa0, the index under 0x81 and the component path in a
/// sequence 0x30.
pub proof fn law_selection_octets(a: AlternateAccess, tag: u8)
    ensures
        a@.octets(tag) == (match a.selector {
            AlternateAccessSelector::Index(index) => ber::tlv(
                tag,
                ber::tlv(0x82, integer::unsigned_octets(index as u64)),
            ),
            AlternateAccessSelector::IndexComponent { index, component } => ber::tlv(
                tag,
                ber::tlv(
                    0xa0,
                    ber::tlv(0x81, integer::unsigned_octets(index as u64)) + ber::tlv(
                        0x30,
                        alternate_access::chain_octets(vstd::utf8::encode_utf8(component@)),
                    ),
                ),
            ),
        }),
        match a.selector {
            AlternateAccessSelector::Index(index) => a@ == AlternateAccessView::Index(index),
            AlternateAccessSelector::IndexComponent { index, component } => a@
                == (AlternateAccessView::IndexComponent { index, component: component@ }),
        },
{
}

/// What a selection decodes to: an index under 0x82, or within 0xa0 an index under 0x81
/// and a component path.
pub proof fn law_selection_decodes(idx: Seq<u8>, c: Seq<u8>, tag: u8, rest: Seq<u8>)
    requires
        1 <= idx.len() <= 8,
        c.len() <= 0x7000,
    ensures
        AlternateAccessView::parse(ber::tlv(tag, ber::tlv(0x82, idx)) + rest, tag)
            == (if asn1::uint(idx)
            <= u32::MAX {
            Ok::<(AlternateAccessView, nat), MmsError>(
                (AlternateAccessView::Index(asn1::uint(idx) as u32), 4 + idx.len()),
            )
        } else {
            Err(MmsError::AlternateAccessUnsupported("index exceeds Unsigned32"))
        }),
        asn1::uint(idx) <= u32::MAX && alternate_access::chain_sequence_at(ber::tlv(0x30, c)) is Ok
            ==> AlternateAccessView::parse(
            ber::tlv(tag, ber::tlv(0xa0, ber::tlv(0x81, idx) + ber::tlv(0x30, c))) + rest,
            tag,
        ) == Ok::<(AlternateAccessView, nat), MmsError>(
            (
                AlternateAccessView::IndexComponent {
                    index: asn1::uint(idx) as u32,
                    component: alternate_access::chain_sequence_at(ber::tlv(0x30, c))->Ok_0,
                },
                ber::tlv(tag, ber::tlv(0xa0, ber::tlv(0x81, idx) + ber::tlv(0x30, c))).len(),
            ),
        ),
{
    let plain = ber::tlv(0x82, idx);
    ber::law_element_round_trip(tag, plain, rest);
    ber::lemma_element_alone(0x82, idx);
    let inner = ber::tlv(0x81, idx) + ber::tlv(0x30, c);
    let member = ber::tlv(0xa0, inner);
    ber::law_element_round_trip(tag, member, rest);
    ber::lemma_element_alone(0xa0, inner);
    ber::law_element_round_trip(0x81, idx, ber::tlv(0x30, c));
    assert(inner[0] == 0x81);
}

/// The selections that are not supported, each by its tag, and a selection of nothing or
/// of more than one part, are refused.
#[verifier::rlimit(40)]
pub proof fn law_selections_refused(val: Seq<u8>, more: Seq<u8>, tag: u8, rest: Seq<u8>)
    requires
        val.len() <= 0x7000,
        0 < more.len() <= 0x7000,
    ensures
        AlternateAccessView::parse(ber::tlv(tag, ber::tlv(0x81, val)) + rest, tag) == Err::<
            (AlternateAccessView, nat),
            MmsError,
        >(
            MmsError::AlternateAccessUnsupported(
                "selectAccess.component (component-only) is not supported",
            ),
        ),
        AlternateAccessView::parse(ber::tlv(tag, ber::tlv(0xa3, val)) + rest, tag) == Err::<
            (AlternateAccessView, nat),
            MmsError,
        >(MmsError::AlternateAccessUnsupported("selectAccess.indexRange is not supported")),
        AlternateAccessView::parse(ber::tlv(tag, ber::tlv(0x84, val)) + rest, tag) == Err::<
            (AlternateAccessView, nat),
            MmsError,
        >(MmsError::AlternateAccessUnsupported("selectAccess.allElements is not supported")),
        AlternateAccessView::parse(ber::tlv(tag, ber::tlv(0xa5, val)) + rest, tag) == Err::<
            (AlternateAccessView, nat),
            MmsError,
        >(MmsError::AlternateAccessUnsupported("named AlternateAccess member is not supported")),
        AlternateAccessView::parse(ber::tlv(tag, Seq::empty()) + rest, tag) == Err::<
            (AlternateAccessView, nat),
            MmsError,
        >(MmsError::AlternateAccessUnsupported("empty AlternateAccess sequence")),
        1 <= val.len() <= 8 && asn1::uint(val) <= u32::MAX ==> AlternateAccessView::parse(
            ber::tlv(tag, ber::tlv(0x82, val) + more) + rest,
            tag,
        ) == Err::<(AlternateAccessView, nat), MmsError>(
            MmsError::AlternateAccessUnsupported("multi-member AlternateAccess"),
        ),
{
    ber::law_element_round_trip(tag, ber::tlv(0x81, val), rest);
    ber::lemma_element_alone(0x81, val);
    ber::law_element_round_trip(tag, ber::tlv(0xa3, val), rest);
    ber::lemma_element_alone(0xa3, val);
    ber::law_element_round_trip(tag, ber::tlv(0x84, val), rest);
    ber::lemma_element_alone(0x84, val);
    ber::law_element_round_trip(tag, ber::tlv(0xa5, val), rest);
    ber::lemma_element_alone(0xa5, val);
    ber::law_element_round_trip(tag, Seq::empty(), rest);
    ber::law_element_round_trip(tag, ber::tlv(0x82, val) + more, rest);
    ber::law_element_round_trip(0x82, val, more);
}

/// An entry is a sequence 0x30 of the name under 0xa0 and, where a part is selected, the
/// selection under 0xa5.
pub proof fn law_entry_octets(entry: ListOfVariableEntry)
    ensures
        entry@.octets() == (match entry.alt_access {
            Some(a) => ber::tlv(0x30, ber::tlv(0xa0, entry.name@.octets()) + a@.octets(0xa5)),
            None => ber::tlv(0x30, ber::tlv(0xa0, entry.name@.octets())),
        }),
        entry@.name == entry.name@,
        match entry.alt_access {
            Some(a) => entry@.alt_access == Some(a@),
            None => entry@.alt_access is None,
        },
{
}

/// Entries are written one after the other, in order.
pub proof fn law_entries_in_order(
    a: Seq<ListOfVariableEntry>,
    x: ListOfVariableEntry,
    b: Seq<ListOfVariableEntry>,
)
    ensures
        variable_access::entry_octets(
            variable_access::entry_views(Seq::<ListOfVariableEntry>::empty()))
            == Seq::<u8>::empty(),
        variable_access::entry_octets(variable_access::entry_views(a.push(x) + b))
            == variable_access::entry_octets(variable_access::entry_views(a)) + x@.octets()
            + variable_access::entry_octets(variable_access::entry_views(b)),
    decreases b.len(),
{
    if b.len() == 0 {
        assert(a.push(x) + b =~= a.push(x));
        assert(variable_access::entry_views(a.push(x)).drop_last()
            =~= variable_access::entry_views(a));
    } else {
        let rest = b.drop_last();
        law_entries_in_order(a, x, rest);
        assert(variable_access::entry_views(a.push(x) + b).drop_last()
            =~= variable_access::entry_views(a.push(x) + rest));
        assert(variable_access::entry_views(b).drop_last() =~= variable_access::entry_views(rest));
        assert(variable_access::entry_octets(variable_access::entry_views(a.push(x) + b))
            =~= variable_access::entry_octets(variable_access::entry_views(a))
            + x@.octets() + variable_access::entry_octets(variable_access::entry_views(b)));
    }
}

/// What an entry decodes to: the name under 0xa0, and the selection under 0xa5 where one
/// follows.
pub proof fn law_entry_decodes(name: Seq<u8>, alt: Seq<u8>)
    requires
        name.len() <= 0x7000,
        alt.len() <= 0x7000,
        ObjectNameView::parse(name) is Ok,
    ensures
        variable_access::entry_list_at(ber::tlv(0x30, ber::tlv(0xa0, name)), Seq::empty()) == Ok::<
            Seq<ListOfVariableEntryView>,
            MmsError,
        >(
            seq![
                ListOfVariableEntryView {
                    name: ObjectNameView::parse(name)->Ok_0.0,
                    alt_access: None,
                },
            ],
        ),
        AlternateAccessView::parse(ber::tlv(0xa5, alt), 0xa5) matches Ok((a, _))
            ==> variable_access::entry_list_at(
            ber::tlv(0x30, ber::tlv(0xa0, name) + ber::tlv(0xa5, alt)),
            Seq::empty(),
        ) == Ok::<Seq<ListOfVariableEntryView>, MmsError>(
            seq![
                ListOfVariableEntryView {
                    name: ObjectNameView::parse(name)->Ok_0.0,
                    alt_access: Some(a),
                },
            ],
        ),
{
    let none = Seq::<ListOfVariableEntryView>::empty();
    let plain = ber::tlv(0xa0, name);
    let c = plain + ber::tlv(0xa5, alt);
    ber::lemma_element_alone(0xa0, name);
    ber::lemma_element_alone(0x30, plain);
    ber::lemma_element_alone(0xa5, alt);
    ber::law_element_round_trip(0xa0, name, ber::tlv(0xa5, alt));
    ber::lemma_element_alone(0x30, c);
    assert(plain.skip(plain.len() as int) =~= Seq::<u8>::empty());
    assert(ber::tlv(0x30, plain).skip(ber::tlv(0x30, plain).len() as int) =~= Seq::<u8>::empty());
    assert(ber::tlv(0x30, c).skip(ber::tlv(0x30, c).len() as int) =~= Seq::<u8>::empty());
    reveal_with_fuel(variable_access::entry_list_at, 2);
    assert(none.push(ListOfVariableEntryView::of_content(plain)->Ok_0) =~= seq![
        ListOfVariableEntryView::of_content(plain)->Ok_0,
    ]);
}

/// A list of variables goes under 0xa0, the name of a variable list under 0xa1.
pub proof fn law_variables_octets(v: VariableAccessSpecification)
    ensures
        v@.octets() == (match v {
            VariableAccessSpecification::ListOfVariable(entries) => ber::tlv(
                0xa0,
                variable_access::entry_octets(variable_access::entry_views(entries@)),
            ),
            VariableAccessSpecification::VariableListName(name) => ber::tlv(0xa1, name@.octets()),
        }),
        match v {
            VariableAccessSpecification::ListOfVariable(entries) => v@ is ListOfVariable
                && v@->ListOfVariable_0.len() == entries.len() && (forall|i: int|
                0 <= i < entries.len() ==> #[trigger] v@->ListOfVariable_0[i] == entries[i]@),
            VariableAccessSpecification::VariableListName(name) => v@
                == VariableAccessView::VariableListName(name@),
        },
{
}

/// What a specification of variables decodes to: under 0xa0 the entries that fill it,
/// under 0xa1 the name of a variable list; any other tag is refused.
pub proof fn law_variables_decode(c: Seq<u8>, tag: u8, rest: Seq<u8>)
    requires
        c.len() <= 0xffff,
    ensures
        VariableAccessView::parse(ber::tlv(0xa0, c) + rest)
            == (match variable_access::entry_list_at(c, Seq::empty()) {
            Ok(entries) => Ok::<(VariableAccessView, nat), MmsError>(
                (VariableAccessView::ListOfVariable(entries), ber::tlv(0xa0, c).len()),
            ),
            Err(e) => Err(e),
        }),
        VariableAccessView::parse(ber::tlv(0xa1, c) + rest) == (match ObjectNameView::parse(c) {
            Ok((name, _)) => Ok::<(VariableAccessView, nat), MmsError>(
                (VariableAccessView::VariableListName(name), ber::tlv(0xa1, c).len()),
            ),
            Err(e) => Err(e),
        }),
        tag != 0xa0 && tag != 0xa1 ==> VariableAccessView::parse(ber::tlv(tag, c) + rest) == Err::<
            (VariableAccessView, nat),
            MmsError,
        >(MmsError::UnknownVasTag(tag)),
{
    ber::law_element_round_trip(0xa0, c, rest);
    ber::law_element_round_trip(0xa1, c, rest);
    ber::law_element_round_trip(tag, c, rest);
}

} // verus!
