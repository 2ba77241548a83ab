//! Information reports and the terminations of commands as octets.

use bytes::Bytes;
use vstd::prelude::*;

use crate::asn1;
use crate::buffer;
use crate::mms::error::{MmsError, MmsErrorView};
use crate::mms::pdu::ber;
use crate::mms::pdu::data;
use crate::mms::pdu::data::MmsDataView;
use crate::mms::pdu::information_report;
use crate::mms::pdu::information_report::{
    InformationReportInner,
    LastApplErrorRef,
    ReportVariablesView,
    ReportView,
    VariableAccessSpec,
};
use crate::mms::pdu::integer;
use crate::mms::pdu::object_name::{ObjectName, ObjectNameView};
use crate::text;

verus! {

broadcast use ber::group_element_sizes;

/// The encodings of two values in a row.
proof fn lemma_two(a: MmsDataView, b: MmsDataView)
    ensures
        data::all_octets(seq![a, b]) == a.octets() + b.octets(),
{
    reveal_with_fuel(data::all_octets, 3);
    assert(seq![a, b].drop_last() =~= seq![a]);
    assert(seq![a].drop_last() =~= Seq::empty());
    assert(Seq::<u8>::empty() + a.octets() =~= a.octets());
}

/// The encodings of five values in a row.
proof fn lemma_five(a: MmsDataView, b: MmsDataView, c: MmsDataView, d: MmsDataView, e: MmsDataView)
    ensures
        data::all_octets(seq![a, b, c, d, e]) == a.octets() + b.octets() + c.octets() + d.octets()
            + e.octets(),
{
    lemma_two(a, b);
    assert(seq![a, b, c].drop_last() =~= seq![a, b]);
    assert(seq![a, b, c, d].drop_last() =~= seq![a, b, c]);
    assert(seq![a, b, c, d, e].drop_last() =~= seq![a, b, c, d]);
    assert(data::all_octets(seq![a, b, c]) == a.octets() + b.octets() + c.octets());
    assert(data::all_octets(seq![a, b, c, d]) == a.octets() + b.octets() + c.octets()
        + d.octets());
}

/// The reason of a failed command is a structure of five: the control object, the error,
/// the origin with its category and identity, the control number, and the additional
/// cause.
pub proof fn law_last_appl_error_octets(e: LastApplErrorRef)
    ensures
        e@.octets() == ber::tlv(
            0xa2,
            ber::tlv(0x8a, vstd::utf8::encode_utf8(e.ctl_obj@)) + ber::tlv(
                0x85,
                integer::sint_octets(e.error as int),
            ) + ber::tlv(
                0xa2,
                ber::tlv(0x85, integer::sint_octets(e.origin.or_cat as int)) + ber::tlv(
                    0x89,
                    e.origin.or_ident@,
                ),
            ) + ber::tlv(0x86, integer::unsigned_octets(e.ctl_num as u64)) + ber::tlv(
                0x85,
                integer::sint_octets(e.add_cause as int),
            ),
        ),
{
    let cat = MmsDataView::Integer(e.origin.or_cat as i64);
    let ident = MmsDataView::OctetString(e.origin.or_ident@);
    lemma_two(cat, ident);
    lemma_five(
        MmsDataView::VisibleString(e.ctl_obj@),
        MmsDataView::Integer(e.error as i64),
        MmsDataView::Structure(seq![cat, ident]),
        MmsDataView::Unsigned(e.ctl_num as u64),
        MmsDataView::Integer(e.add_cause as i64),
    );
}

/// The reason of a failed command decodes as a value to the structure of its five parts,
/// in their order, while it has at most 0xffff octets of content.
pub proof fn law_last_appl_error_decodes(e: LastApplErrorRef, rest: Seq<u8>)
    requires
        e@.octets().len() <= 0xffff,
    ensures
        MmsDataView::parse(e@.octets() + rest, 0, 32) == Ok::<(MmsDataView, nat), MmsError>(
            (
                MmsDataView::Structure(
                    seq![
                        MmsDataView::VisibleString(e.ctl_obj@),
                        MmsDataView::Integer(e.error as i64),
                        MmsDataView::Structure(
                            seq![
                                MmsDataView::Integer(e.origin.or_cat as i64),
                                MmsDataView::OctetString(e.origin.or_ident@),
                            ],
                        ),
                        MmsDataView::Unsigned(e.ctl_num as u64),
                        MmsDataView::Integer(e.add_cause as i64),
                    ],
                ),
                e@.octets().len(),
            ),
        ),
{
    let items = e@->Structure_0;
    let inner = items[2];
    let parts = inner->Structure_0;
    assert forall|i: int| 0 <= i < parts.len() implies (#[trigger] parts[i]).readable(30) by {
    }
    assert(inner.readable(31));
    assert forall|i: int| 0 <= i < items.len() implies (#[trigger] items[i]).readable(31) by {
    }
    assert(e@.readable(32));
    data::law_data_round_trip(e@, rest, 0, 32);
}

/// The names of a report are written one after the other, in order, each within 0xa0
/// within a sequence 0x30, and the values one after the other, in the same order.
pub proof fn law_report_variables_in_order(
    a: Seq<(ObjectName, Bytes)>,
    x: (ObjectName, Bytes),
    b: Seq<(ObjectName, Bytes)>,
)
    ensures
        ({
            let before = information_report::variable_views(a);
            let after = information_report::variable_views(b);
            let all = information_report::variable_views(a.push(x) + b);
            &&& information_report::names_octets(all) == information_report::names_octets(before)
                + ber::tlv(0x30, ber::tlv(0xa0, x.0@.octets()))
                + information_report::names_octets(after)
            &&& information_report::values_octets(all) == information_report::values_octets(before)
                + buffer::frozen(x.1) + information_report::values_octets(after)
        }),
        information_report::names_octets(Seq::<(ObjectNameView, Seq<u8>)>::empty()) == Seq::<
            u8,
        >::empty(),
        information_report::values_octets(Seq::<(ObjectNameView, Seq<u8>)>::empty()) == Seq::<
            u8,
        >::empty(),
    decreases b.len(),
{
    let before = information_report::variable_views(a);
    let after = information_report::variable_views(b);
    let all = information_report::variable_views(a.push(x) + b);
    let name = ber::tlv(0x30, ber::tlv(0xa0, x.0@.octets()));
    let value = buffer::frozen(x.1);
    if b.len() == 0 {
        assert(all.drop_last() =~= before);
        assert(after =~= Seq::empty());
        assert(information_report::names_octets(all) =~= information_report::names_octets(before)
            + name + information_report::names_octets(after));
        assert(information_report::values_octets(all) =~= information_report::values_octets(before)
            + value + information_report::values_octets(after));
    } else {
        let rest = b.drop_last();
        law_report_variables_in_order(a, x, rest);
        assert(all.drop_last() =~= information_report::variable_views(a.push(x) + rest));
        assert(after.drop_last() =~= information_report::variable_views(rest));
        assert(information_report::names_octets(all) =~= information_report::names_octets(before)
            + name + information_report::names_octets(after));
        assert(information_report::values_octets(all) =~= information_report::values_octets(before)
            + value + information_report::values_octets(after));
    }
}

/// A report holds, within 0xa3 and then 0xa0, the names within 0xa0 and the values within
/// another 0xa0.
pub proof fn law_report_octets(vars: Seq<(ObjectName, Bytes)>)
    ensures
        information_report::report_octets(information_report::variable_views(vars)) == ber::tlv(
            0xa3,
            ber::tlv(
                0xa0,
                ber::tlv(
                    0xa0,
                    information_report::names_octets(information_report::variable_views(vars)),
                ) + ber::tlv(
                    0xa0,
                    information_report::values_octets(information_report::variable_views(vars)),
                ),
            ),
        ),
{
}

/// The termination of a command that succeeded reports the operated variable; that of one
/// that failed reports first the reason, under the name "LastApplError" of the VMD, and
/// then the operated variable.
#[verifier::rlimit(40)]
pub proof fn law_command_termination_octets(
    e: LastApplErrorRef,
    d: Seq<char>,
    i: Seq<char>,
    value: Seq<u8>,
)
    ensures
        ({
            let oper = ber::tlv(
                0x30,
                ber::tlv(
                    0xa0,
                    ber::tlv(
                        0xa1,
                        ber::tlv(0x1a, vstd::utf8::encode_utf8(d)) + ber::tlv(
                            0x1a,
                            vstd::utf8::encode_utf8(i),
                        ),
                    ),
                ),
            );
            let reason = ber::tlv(
                0x30,
                ber::tlv(0xa0, ber::tlv(0x80, vstd::utf8::encode_utf8("LastApplError"@))),
            );
            &&& information_report::report_octets(
                seq![information_report::oper_variable(d, i, value)],
            ) == ber::tlv(0xa3, ber::tlv(0xa0, ber::tlv(0xa0, oper) + ber::tlv(0xa0, value)))
            &&& information_report::report_octets(
                seq![
                    information_report::last_appl_error_variable(e@),
                    information_report::oper_variable(d, i, value),
                ],
            ) == ber::tlv(
                0xa3,
                ber::tlv(
                    0xa0,
                    ber::tlv(0xa0, reason + oper) + ber::tlv(0xa0, e@.octets() + value),
                ),
            )
        }),
{
    let none = Seq::<u8>::empty();
    let x = information_report::oper_variable(d, i, value);
    let y = information_report::last_appl_error_variable(e@);
    reveal_with_fuel(information_report::names_octets, 3);
    reveal_with_fuel(information_report::values_octets, 3);
    assert(seq![x].drop_last() =~= Seq::empty());
    assert(seq![y].drop_last() =~= Seq::empty());
    assert(seq![y, x].drop_last() =~= seq![y]);
    let oper = information_report::variable_octets(x.0);
    let reason = information_report::variable_octets(y.0);
    assert(none + oper =~= oper);
    assert(none + reason =~= reason);
    assert(none + value =~= value);
    assert(none + e@.octets() =~= e@.octets());
}

/// What the names of a report decode to: each the name within 0xa0 within a sequence 0x30,
/// in order.
pub proof fn law_report_names_decode(
    name: Seq<u8>,
    c: Seq<u8>,
    acc: Seq<ObjectNameView>,
)
    requires
        name.len() <= 0x7000,
    ensures
        information_report::variable_list_at(Seq::<u8>::empty(), acc) == Ok::<
            Seq<ObjectNameView>,
            MmsErrorView,
        >(acc),
        information_report::variable_list_at(ber::tlv(0x30, ber::tlv(0xa0, name)) + c, acc) == (
        match ObjectNameView::parse(name) {
            Ok((v, _)) => information_report::variable_list_at(c, acc.push(v)),
            Err(e) => Err::<Seq<ObjectNameView>, MmsErrorView>(e@),
        }),
{
    let elem = ber::tlv(0xa0, name);
    information_report::lemma_field_alone(0xa0, name, "VariableSpec.name"@);
    information_report::lemma_field(0x30, elem, c, "VariableSpec"@);
    let s = ber::tlv(0x30, elem) + c;
    assert(s[0] == 0x30);
    assert(s.skip(ber::tlv(0x30, elem).len() as int) =~= c);
}

/// What a report decodes to: the names within 0xa0, or the name of a variable list within
/// 0xa1, and then the values within 0xa0, at most 32 levels deep.
#[verifier::rlimit(40)]
pub proof fn law_report_decodes(names: Seq<u8>, values: Seq<u8>, rest: Seq<u8>)
    requires
        names.len() <= 0x7000,
        values.len() <= 0x7000,
    ensures
        ({
            let list = ber::tlv(0xa0, ber::tlv(0xa0, names) + ber::tlv(0xa0, values));
            let named = ber::tlv(0xa0, ber::tlv(0xa1, names) + ber::tlv(0xa0, values));
            let read = data::data_list_at(values, 0, 32, Seq::empty());
            &&& information_report::report_at(list + rest) == (
            match information_report::variable_list_at(names, Seq::empty()) {
                Ok(n) => match read {
                    Ok(v) => Ok::<ReportView, MmsErrorView>(
                        ReportView { variables: ReportVariablesView::ListOfVariable(n), values: v },
                    ),
                    Err(e) => Err(e@),
                },
                Err(e) => Err(e),
            })
            &&& information_report::report_at(named + rest) == (match ObjectNameView::parse(
                names,
            ) {
                Ok((n, _)) => match read {
                    Ok(v) => Ok::<ReportView, MmsErrorView>(
                        ReportView {
                            variables: ReportVariablesView::VariableListName(n),
                            values: v,
                        },
                    ),
                    Err(e) => Err(e@),
                },
                Err(e) => Err(e@),
            })
        }),
{
    let tail = ber::tlv(0xa0, values);
    let list = ber::tlv(0xa0, names) + tail;
    let named = ber::tlv(0xa1, names) + tail;
    information_report::lemma_field(0xa0, list, rest, "combined service+informationReport"@);
    information_report::lemma_field(0xa0, named, rest, "combined service+informationReport"@);
    information_report::lemma_field(0xa0, names, tail, "listOfVariable"@);
    information_report::lemma_field(0xa1, names, tail, "variableListName"@);
    information_report::lemma_field_alone(0xa0, values, "listOfAccessResult"@);
    assert(list.skip(ber::tlv(0xa0, names).len() as int) =~= tail);
    assert(named.skip(ber::tlv(0xa1, names).len() as int) =~= tail);
    assert(list[0] == 0xa0);
    assert(named[0] == 0xa1);
}

/// What a report that was read says: which variables, by the name of their list or one by
/// one, and their values in order.
pub proof fn law_report_view(r: InformationReportInner)
    ensures
        match r.variable_access_spec {
            VariableAccessSpec::VariableListName(name) => r@.variables
                == ReportVariablesView::VariableListName(name@),
            VariableAccessSpec::ListOfVariable(names) => r@.variables is ListOfVariable
                && r@.variables->ListOfVariable_0.len() == names.len() && (forall|i: int|
                0 <= i < names.len() ==> #[trigger] r@.variables->ListOfVariable_0[i]
                    == names[i]@),
        },
        r@.values.len() == r.list_of_access_result.len(),
        forall|i: int|
            0 <= i < r.list_of_access_result.len() ==> #[trigger] r@.values[i]
                == r.list_of_access_result[i]@,
{
}

/// How the length of a field of a report is read: one octet below 0x80, or after 0x81,
/// 0x82 or 0x83 one, two or three octets, most significant first.
pub proof fn law_report_fields(
    tag: u8,
    len: Seq<u8>,
    val: Seq<u8>,
    rest: Seq<u8>,
    field: Seq<char>,
)
    ensures
        val.len() < 0x80 ==> information_report::field_at(
            seq![tag, val.len() as u8] + val + rest,
            tag,
            field,
        ) == Ok::<(Seq<u8>, nat), MmsErrorView>((val, 2)),
        1 <= len.len() <= 3 && asn1::uint(len) == val.len() ==> information_report::field_at(
            seq![tag, (0x80 + len.len()) as u8] + len + val + rest,
            tag,
            field,
        ) == Ok::<(Seq<u8>, nat), MmsErrorView>((val, 2 + len.len())),
{
    if val.len() < 0x80 {
        let s = seq![tag, val.len() as u8] + val + rest;
        assert(s.subrange(2, (2 + val.len()) as int) =~= val);
    }
    if 1 <= len.len() <= 3 && asn1::uint(len) == val.len() {
        let s = seq![tag, (0x80 + len.len()) as u8] + len + val + rest;
        let header = (2 + len.len()) as int;
        assert(s.subrange(2, header) =~= len);
        assert(s.subrange(header, header + val.len()) =~= val);
    }
}

/// What is said of a field of a report that is not there, or that has another tag than the
/// one that was to be there.
pub proof fn law_report_field_faults(tag: u8, other: u8, rest: Seq<u8>, field: Seq<char>)
    ensures
        information_report::field_at(Seq::<u8>::empty(), tag, field) == Err::<
            (Seq<u8>, nat),
            MmsErrorView,
        >(
            MmsErrorView::Report(
                field + ": empty input, expected tag 0x"@ + text::hex_text(tag, false),
            ),
        ),
        other != tag ==> information_report::field_at(seq![other] + rest, tag, field) == Err::<
            (Seq<u8>, nat),
            MmsErrorView,
        >(
            MmsErrorView::Report(
                field + ": expected tag 0x"@ + text::hex_text(tag, false) + ", got 0x"@
                    + text::hex_text(other, false),
            ),
        ),
{
}


/// What is said of the variables of a report that are not there or have a tag of their
/// own, and of a name in a list that is not a sequence.
pub proof fn law_report_variable_faults(tag: u8, rest: Seq<u8>, acc: Seq<ObjectNameView>)
    ensures
        information_report::variables_at(Seq::<u8>::empty()) == Err::<
            (ReportVariablesView, nat),
            MmsErrorView,
        >(MmsErrorView::Report("variableAccessSpec: empty input"@)),
        tag != 0xa0 && tag != 0xa1 ==> information_report::variables_at(seq![tag] + rest) == Err::<
            (ReportVariablesView, nat),
            MmsErrorView,
        >(
            MmsErrorView::Report(
                "variableAccessSpec: unexpected tag 0x"@ + text::hex_text(tag, false)
                    + ", expected 0xa0 or 0xa1"@,
            ),
        ),
        tag != 0x30 ==> information_report::variable_list_at(seq![tag] + rest, acc) == Err::<
            Seq<ObjectNameView>,
            MmsErrorView,
        >(
            MmsErrorView::Report(
                "listOfVariable element: expected 0x30 SEQUENCE, got 0x"@ + text::hex_text(
                    tag,
                    false,
                ),
            ),
        ),
{
}

/// What is said of a field of a report whose length is not there, is in no supported form,
/// ends early, or counts more octets than there are.
pub proof fn law_report_length_faults(
    tag: u8,
    first: u8,
    len: Seq<u8>,
    val: Seq<u8>,
    field: Seq<char>,
)
    ensures
        information_report::field_at(seq![tag], tag, field) == Err::<(Seq<u8>, nat), MmsErrorView>(
            MmsErrorView::Report(field + ": truncated length byte"@),
        ),
        first == 0x80 || first > 0x83 ==> information_report::field_at(
            seq![tag, first] + val,
            tag,
            field,
        ) == Err::<(Seq<u8>, nat), MmsErrorView>(
            MmsErrorView::Report(
                field + ": unsupported BER length form 0x"@ + text::hex_text(first, false),
            ),
        ),
        0x81 <= first <= 0x83 && len.len() < first - 0x80 ==> information_report::field_at(
            seq![tag, first] + len,
            tag,
            field,
        ) == Err::<(Seq<u8>, nat), MmsErrorView>(
            MmsErrorView::Report(
                field + ": truncated long-form length (0x"@ + text::hex_text(first, false) + ")"@,
            ),
        ),
        first < 0x80 && val.len() < first ==> information_report::field_at(
            seq![tag, first] + val,
            tag,
            field,
        ) == Err::<(Seq<u8>, nat), MmsErrorView>(
            MmsErrorView::Report(
                field + ": declared length "@ + text::decimal_text(first as nat)
                    + " exceeds buffer (have "@ + text::decimal_text(val.len())
                    + " after header)"@,
            ),
        ),
{
}

} // verus!
