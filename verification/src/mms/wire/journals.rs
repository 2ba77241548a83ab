//! The journal service as octets.

use vstd::prelude::*;

use crate::asn1;
use crate::mms::binary_time;
use crate::mms::error::MmsError;
use crate::mms::pdu::ber;
use crate::mms::pdu::data::MmsDataView;
use crate::mms::pdu::read_journal;
use crate::mms::pdu::read_journal::{
    AfterFields,
    ContentFields,
    EntryFields,
    JournalEntryView,
    JournalFields,
    JournalRange,
    JournalRangeView,
    JournalRequestView,
    JournalResponseView,
    JournalVariableView,
    RawFields,
    RawVariableView,
    ReadJournalRequest,
    ReadJournalResponse,
    WireJournalEntry,
    WireJournalVariable,
};
use crate::mms::wire::basics;
use crate::text;

verus! {

broadcast use ber::group_element_sizes;

/// The service element has the two-octet tag 0xbf 0x41, and is read by its length.
pub proof fn law_journal_element(val: Seq<u8>, a: u8, b: u8, rest: Seq<u8>)
    requires
        val.len() <= 0xffff,
    ensures
        read_journal::journal_tlv(val) == seq![0xbfu8, 0x41] + asn1::length_octets(val.len()) + val,
        read_journal::journal_content_at(
            seq![0xbfu8, 0x41] + asn1::length_octets(val.len()) + val + rest,
        ) == Ok::<Seq<u8>, MmsError>(val),
        a != 0xbf || b != 0x41 ==> read_journal::journal_content_at(seq![a, b] + rest) == Err::<
            Seq<u8>,
            MmsError,
        >(MmsError::InvalidTag { expected: 0xbf, actual: a }),
{
    read_journal::lemma_journal_content(val, rest);
}

/// A request holds, within 0xa0, the name of the journal, and then the range. A range of
/// time is its start, under 0x80 within 0xa1, and its end, under 0x80 within 0xa2. A range
/// after an entry is, within 0xa5, the instant under 0x80 and the entry id under 0x81.
pub proof fn law_journal_request_octets(r: ReadJournalRequest)
    ensures
        ({
            let name = ber::tlv(
                0xa1,
                ber::tlv(0x1a, vstd::utf8::encode_utf8(r.domain_id@)) + ber::tlv(
                    0x1a,
                    vstd::utf8::encode_utf8(r.item_id@),
                ),
            );
            let range = match r.range {
                JournalRange::TimeRange { start_ms, end_ms } => ber::tlv(
                    0xa1,
                    ber::tlv(0x80, binary_time::time6_octets(start_ms)),
                ) + ber::tlv(0xa2, ber::tlv(0x80, binary_time::time6_octets(end_ms))),
                JournalRange::StartAfter { starting_time_ms, entry_id } => ber::tlv(
                    0xa5,
                    ber::tlv(0x80, binary_time::time6_octets(starting_time_ms))
                        + ber::tlv(0x81, entry_id@),
                ),
            };
            r@.octets()
                == seq![0xbfu8, 0x41] + asn1::length_octets((ber::tlv(0xa0, name) + range).len())
                + (ber::tlv(0xa0, name) + range)
        }),
        r@.domain_id == r.domain_id@,
        r@.item_id == r.item_id@,
        match r.range {
            JournalRange::TimeRange { start_ms, end_ms } => r@.range
                == (JournalRangeView::TimeRange { start_ms, end_ms }),
            JournalRange::StartAfter { starting_time_ms, entry_id } => r@.range
                == (JournalRangeView::StartAfter { starting_time_ms, entry_id: entry_id@ }),
        },
{
}

/// An instant is six octets, counted from 1984-01-01, or four octets of milliseconds
/// since the midnight of 1970-01-01; no other count is one.
pub proof fn law_journal_instants(s: Seq<u8>)
    ensures
        s.len() == 6 ==> read_journal::instant_at(s) == Ok::<u64, MmsError>(
            (441_763_200_000 + (s[4] * 256 + s[5]) * 86_400_000 + (((s[0] * 256 + s[1]) * 256
                + s[2]) * 256 + s[3])) as u64,
        ),
        s.len() == 4 ==> read_journal::instant_at(s) == Ok::<u64, MmsError>(
            (((s[0] * 256 + s[1]) * 256 + s[2]) * 256 + s[3]) as u64,
        ),
        s.len() != 4 && s.len() != 6 ==> read_journal::instant_at(s) == Err::<u64, MmsError>(
            MmsError::InvalidLength,
        ),
{
    if s.len() == 6 {
        basics::law_instant_read(s);
    }
    if s.len() == 4 {
        reveal_with_fuel(asn1::uint, 5);
        assert(s.drop_last() =~= s.take(3));
        assert(s.take(3).drop_last() =~= s.take(2));
        assert(s.take(2).drop_last() =~= s.take(1));
        assert(s.take(1).drop_last() =~= Seq::empty());
    }
}

/// The fields of a request that opens with the name of a journal.
proof fn lemma_named(d: Seq<char>, i: Seq<char>, tail: Seq<u8>, rest: Seq<u8>)
    requires
        vstd::utf8::encode_utf8(d).len() <= 64,
        vstd::utf8::encode_utf8(i).len() <= 64,
        tail.len() <= 0x7000,
    ensures
        ({
            let name = ber::tlv(
                0xa1,
                ber::tlv(0x1a, vstd::utf8::encode_utf8(d))
                    + ber::tlv(0x1a, vstd::utf8::encode_utf8(i)),
            );
            let named = JournalFields { name: Some((d, i)), start: None, stop: None, after: None };
            &&& name.len() <= 140
            &&& JournalRequestView::parse(read_journal::journal_tlv(ber::tlv(0xa0, name) + tail)
                + rest) == (
            match ber::fold(tail, named, read_journal::journal_fields()) {
                Ok(f) => JournalRequestView::of_fields(f),
                Err(e) => Err(e),
            })
        }),
{
    let steps = read_journal::journal_fields();
    let f0 = JournalRequestView::no_fields();
    let name = ber::tlv(
        0xa1,
        ber::tlv(0x1a, vstd::utf8::encode_utf8(d)) + ber::tlv(0x1a, vstd::utf8::encode_utf8(i)),
    );
    let named = JournalFields { name: Some((d, i)), start: None, stop: None, after: None };
    read_journal::lemma_journal_name(d, i);
    read_journal::lemma_journal_content(ber::tlv(0xa0, name) + tail, rest);
    ber::lemma_fold_tlv(0xa0, name, tail, f0, steps);
    assert(steps(f0, 0xa0, name) == Ok::<JournalFields, MmsError>(named));
}

/// What a bound of a range is read as.
proof fn lemma_bound(b: Seq<u8>)
    requires
        b.len() <= 0x7000,
    ensures
        read_journal::bound_at(ber::tlv(0x80, b)) == read_journal::instant_at(b),
{
    ber::lemma_element_alone(0x80, b);
    assert(ber::tlv(0x80, b)[0] == 0x80);
}

/// What a request for a range of time decodes to: the bound within 0xa1 is its start and
/// the bound within 0xa2 its end, in either order. A request with one bound alone is
/// truncated.
#[verifier::spinoff_prover]
#[verifier::rlimit(40)]
pub proof fn law_journal_range_decodes(
    d: Seq<char>,
    i: Seq<char>,
    b1: Seq<u8>,
    t1: u64,
    b2: Seq<u8>,
    t2: u64,
    rest: Seq<u8>,
)
    requires
        vstd::utf8::encode_utf8(d).len() <= 64,
        vstd::utf8::encode_utf8(i).len() <= 64,
        read_journal::instant_at(b1) == Ok::<u64, MmsError>(t1),
        read_journal::instant_at(b2) == Ok::<u64, MmsError>(t2),
    ensures
        ({
            let name = ber::tlv(
                0xa0,
                ber::tlv(
                    0xa1,
                    ber::tlv(0x1a, vstd::utf8::encode_utf8(d))
                        + ber::tlv(0x1a, vstd::utf8::encode_utf8(i)),
                ),
            );
            let start = ber::tlv(0xa1, ber::tlv(0x80, b1));
            let stop = ber::tlv(0xa2, ber::tlv(0x80, b2));
            let want = JournalRequestView {
                domain_id: d,
                item_id: i,
                range: JournalRangeView::TimeRange { start_ms: t1, end_ms: t2 },
            };
            let truncated = Err::<JournalRequestView, MmsError>(MmsError::TruncatedPdu);
            &&& JournalRequestView::parse(read_journal::journal_tlv(name + (start + stop)) + rest)
                == Ok::<
                JournalRequestView,
                MmsError,
            >(want)
            &&& JournalRequestView::parse(read_journal::journal_tlv(name + (stop + start)) + rest)
                == Ok::<
                JournalRequestView,
                MmsError,
            >(want)
            &&& JournalRequestView::parse(read_journal::journal_tlv(name + start) + rest)
                == truncated
            &&& JournalRequestView::parse(read_journal::journal_tlv(name + stop) + rest)
                == truncated
            &&& JournalRequestView::parse(read_journal::journal_tlv(name + Seq::empty()) + rest)
                == truncated
        }),
{
    let steps = read_journal::journal_fields();
    let f0 = JournalFields { name: Some((d, i)), start: None, stop: None, after: None };
    let f1 = JournalFields { name: Some((d, i)), start: Some(t1), stop: None, after: None };
    let f2 = JournalFields { name: Some((d, i)), start: None, stop: Some(t2), after: None };
    let f3 = JournalFields { name: Some((d, i)), start: Some(t1), stop: Some(t2), after: None };
    let v1 = ber::tlv(0x80, b1);
    let v2 = ber::tlv(0x80, b2);
    lemma_bound(b1);
    lemma_bound(b2);
    lemma_named(d, i, ber::tlv(0xa1, v1) + ber::tlv(0xa2, v2), rest);
    lemma_named(d, i, ber::tlv(0xa2, v2) + ber::tlv(0xa1, v1), rest);
    lemma_named(d, i, ber::tlv(0xa1, v1), rest);
    lemma_named(d, i, ber::tlv(0xa2, v2), rest);
    lemma_named(d, i, Seq::empty(), rest);
    ber::lemma_fold_tlv(0xa1, v1, ber::tlv(0xa2, v2), f0, steps);
    ber::lemma_fold_last(0xa2, v2, f1, steps);
    ber::lemma_fold_tlv(0xa2, v2, ber::tlv(0xa1, v1), f0, steps);
    ber::lemma_fold_last(0xa1, v1, f2, steps);
    ber::lemma_fold_last(0xa1, v1, f0, steps);
    ber::lemma_fold_last(0xa2, v2, f0, steps);
    assert(steps(f0, 0xa1, v1) == Ok::<JournalFields, MmsError>(f1));
    assert(steps(f1, 0xa2, v2) == Ok::<JournalFields, MmsError>(f3));
    assert(steps(f0, 0xa2, v2) == Ok::<JournalFields, MmsError>(f2));
    assert(steps(f2, 0xa1, v1) == Ok::<JournalFields, MmsError>(f3));
}

/// What a request for what follows an entry decodes to: within 0xa5, the instant under
/// 0x80 and the entry id of eight octets under 0x81. Together with a bound of a range of
/// time it is refused.
#[verifier::spinoff_prover]
#[verifier::rlimit(40)]
pub proof fn law_journal_after_decodes(
    d: Seq<char>,
    i: Seq<char>,
    b: Seq<u8>,
    t: u64,
    id: Seq<u8>,
    rest: Seq<u8>,
)
    requires
        vstd::utf8::encode_utf8(d).len() <= 64,
        vstd::utf8::encode_utf8(i).len() <= 64,
        read_journal::instant_at(b) == Ok::<u64, MmsError>(t),
        id.len() <= 0x6000,
    ensures
        ({
            let name = ber::tlv(
                0xa0,
                ber::tlv(
                    0xa1,
                    ber::tlv(0x1a, vstd::utf8::encode_utf8(d))
                        + ber::tlv(0x1a, vstd::utf8::encode_utf8(i)),
                ),
            );
            let after = ber::tlv(0xa5, ber::tlv(0x80, b) + ber::tlv(0x81, id));
            &&& JournalRequestView::parse(read_journal::journal_tlv(name + after) + rest)
                == (if id.len() == 8 {
                Ok::<JournalRequestView, MmsError>(
                    JournalRequestView {
                        domain_id: d,
                        item_id: i,
                        range: JournalRangeView::StartAfter { starting_time_ms: t, entry_id: id },
                    },
                )
            } else {
                Err(MmsError::InvalidLength)
            })
            &&& id.len() == 8 ==> JournalRequestView::parse(
                read_journal::journal_tlv(name + (after + ber::tlv(0xa1, ber::tlv(0x80, b))))
                    + rest,
            ) == Err::<JournalRequestView, MmsError>(MmsError::TruncatedPdu)
        }),
{
    let steps = read_journal::journal_fields();
    let f0 = JournalFields { name: Some((d, i)), start: None, stop: None, after: None };
    let inner = ber::tlv(0x80, b) + ber::tlv(0x81, id);
    let bound = ber::tlv(0x80, b);
    lemma_bound(b);
    lemma_named(d, i, ber::tlv(0xa5, inner), rest);
    lemma_named(d, i, ber::tlv(0xa5, inner) + ber::tlv(0xa1, bound), rest);
    ber::lemma_fold_last(0xa5, inner, f0, steps);
    ber::lemma_fold_tlv(0xa5, inner, ber::tlv(0xa1, bound), f0, steps);
    let a_steps = read_journal::after_fields();
    let a0: AfterFields = (None, None);
    let a1: AfterFields = (Some(t), None);
    ber::lemma_fold_tlv(0x80, b, ber::tlv(0x81, id), a0, a_steps);
    ber::lemma_fold_last(0x81, id, a1, a_steps);
    assert(a_steps(a0, 0x80, b) == Ok::<AfterFields, MmsError>(a1));
    assert(steps(f0, 0xa5, inner) == read_journal::journal_field(f0, 0xa5, inner));
    if id.len() == 8 {
        let range = JournalRangeView::StartAfter { starting_time_ms: t, entry_id: id };
        let f1 = JournalFields {
            name: Some((d, i)),
            start: None,
            stop: None,
            after: Some(range),
        };
        assert(a_steps(a1, 0x81, id) == Ok::<AfterFields, MmsError>((Some(t), Some(id))));
        assert(read_journal::after_at(inner) == Ok::<JournalRangeView, MmsError>(range));
        assert(steps(f0, 0xa5, inner) == Ok::<JournalFields, MmsError>(f1));
        ber::lemma_fold_last(0xa1, bound, f1, steps);
    } else {
        assert(a_steps(a1, 0x81, id) == Err::<AfterFields, MmsError>(MmsError::InvalidLength));
        assert(read_journal::after_at(inner) == Err::<JournalRangeView, MmsError>(
            MmsError::InvalidLength,
        ));
    }
}

/// A field of a request with a tag that means nothing changes nothing.
pub proof fn law_journal_field_skipped(
    c: Seq<u8>,
    r: JournalRequestView,
    tag: u8,
    val: Seq<u8>,
    rest: Seq<u8>,
)
    requires
        c.len() <= 0x7000,
        val.len() <= 0x7000,
        tag != 0xa0 && tag != 0xa1 && tag != 0xa2 && tag != 0xa5,
        JournalRequestView::parse(read_journal::journal_tlv(c))
            == Ok::<JournalRequestView, MmsError>(r),
    ensures
        JournalRequestView::parse(read_journal::journal_tlv(c + ber::tlv(tag, val)) + rest) == Ok::<
            JournalRequestView,
            MmsError,
        >(r),
{
    read_journal::lemma_journal_content(c, Seq::empty());
    assert(read_journal::journal_tlv(c) + Seq::<u8>::empty() =~= read_journal::journal_tlv(c));
    read_journal::lemma_journal_content(c + ber::tlv(tag, val), rest);
    ber::lemma_fold_append(
        c,
        tag,
        val,
        JournalRequestView::no_fields(),
        read_journal::journal_fields(),
    );
}

/// What is refused in the name of a journal: a part of more than 64 bytes, the domain
/// first, and a part that is not UTF-8.
#[verifier::rlimit(40)]
pub proof fn law_journal_name_faults(d: Seq<u8>, i: Seq<u8>, tail: Seq<u8>, rest: Seq<u8>)
    requires
        d.len() <= 0x3000,
        i.len() <= 0x3000,
        tail.len() <= 0x3000,
    ensures
        ({
            let name = ber::tlv(0xa1, ber::tlv(0x1a, d) + ber::tlv(0x1a, i));
            let got = JournalRequestView::parse(
                read_journal::journal_tlv(ber::tlv(0xa0, name) + tail) + rest,
            );
            &&& d.len() > 64 ==> got == Err::<JournalRequestView, MmsError>(
                MmsError::IdentifierTooLong { actual: d.len() as usize },
            )
            &&& d.len() <= 64 && text::text_at(d) is None ==> got == Err::<
                JournalRequestView,
                MmsError,
            >(MmsError::InvalidPdu)
            &&& d.len() <= 64 && text::text_at(d) is Some && i.len() > 64 ==> got == Err::<
                JournalRequestView,
                MmsError,
            >(MmsError::IdentifierTooLong { actual: i.len() as usize })
            &&& d.len() <= 64 && text::text_at(d) is Some && i.len() <= 64 && text::text_at(i)
                is None ==> got == Err::<JournalRequestView, MmsError>(MmsError::InvalidPdu)
        }),
{
    let steps = read_journal::journal_fields();
    let f0 = JournalRequestView::no_fields();
    let first = ber::tlv(0x1a, d);
    let second = ber::tlv(0x1a, i);
    let name = ber::tlv(0xa1, first + second);
    read_journal::lemma_journal_content(ber::tlv(0xa0, name) + tail, rest);
    ber::lemma_fold_tlv(0xa0, name, tail, f0, steps);
    ber::lemma_element_alone(0xa1, first + second);
    let start: int = name.len() - (first + second).len();
    assert(name[0] == 0xa1);
    assert(name.skip(start) =~= first + second);
    assert(name.skip(start + first.len()) =~= second + Seq::<u8>::empty());
    lemma_name_part(d, second, (first + second).len() as int);
    lemma_name_part(i, Seq::empty(), second.len() as int);
    assert(steps(f0, 0xa0, name) == read_journal::journal_field(f0, 0xa0, name));
}

/// What a part of the name of a journal is read as.
proof fn lemma_name_part(val: Seq<u8>, rest: Seq<u8>, end: int)
    requires
        val.len() <= 0xffff,
        ber::tlv(0x1a, val).len() <= end,
    ensures
        read_journal::visible_string_at(ber::tlv(0x1a, val) + rest, end) == (if val.len() > 64 {
            Err::<(Seq<char>, nat), MmsError>(
                MmsError::IdentifierTooLong { actual: val.len() as usize },
            )
        } else {
            match text::text_at(val) {
                None => Err(MmsError::InvalidPdu),
                Some(t) => Ok((t, ber::tlv(0x1a, val).len())),
            }
        }),
{
    let s = ber::tlv(0x1a, val) + rest;
    let n = val.len();
    asn1::law_length_round_trip(n, val + rest);
    assert(s.skip(1) =~= asn1::length_octets(n) + (val + rest));
    let start = 1 + asn1::length_width(n);
    assert(s.subrange(start as int, (start + n) as int) =~= val);
}

/// The data points of an entry are written one after the other, in order. Each is two
/// sequences 0x30 of a name under 0x80 and a value within 0xa1: the value under its
/// reference, and the reason code, a bit string with one unused bit, under "ReasonCode".
pub proof fn law_data_points_in_order(
    a: Seq<WireJournalVariable>,
    x: WireJournalVariable,
    b: Seq<WireJournalVariable>,
)
    ensures
        read_journal::variables_octets(
            read_journal::variable_views(Seq::<WireJournalVariable>::empty()))
            == Seq::<u8>::empty(),
        read_journal::variables_octets(read_journal::variable_views(a.push(x) + b))
            == read_journal::variables_octets(read_journal::variable_views(a))
            + (ber::tlv(
            0x30,
            ber::tlv(0x80, vstd::utf8::encode_utf8(x.data_ref@))
                + ber::tlv(0xa1, x.value@.octets()),
        ) + ber::tlv(
            0x30,
            ber::tlv(0x80, vstd::utf8::encode_utf8("ReasonCode"@)) + ber::tlv(
                0xa1,
                seq![0x84u8, 0x02, 0x01, x.reason_code],
            ),
        )) + read_journal::variables_octets(read_journal::variable_views(b)),
    decreases b.len(),
{
    let reason = seq![1u8] + seq![x.reason_code];
    assert(ber::tlv(0x84, reason) =~= seq![0x84u8, 0x02, 0x01, x.reason_code]);
    let one = x@.octets();
    if b.len() == 0 {
        assert(a.push(x) + b =~= a.push(x));
        assert(read_journal::variable_views(a.push(x)).drop_last()
            =~= read_journal::variable_views(a));
        assert(read_journal::variables_octets(read_journal::variable_views(a.push(x) + b))
            =~= read_journal::variables_octets(
            read_journal::variable_views(a),
        ) + one + read_journal::variables_octets(read_journal::variable_views(b)));
    } else {
        let rest = b.drop_last();
        law_data_points_in_order(a, x, rest);
        assert(read_journal::variable_views(a.push(x) + b).drop_last()
            =~= read_journal::variable_views(a.push(x) + rest));
        assert(read_journal::variable_views(b).drop_last() =~= read_journal::variable_views(rest));
        assert(read_journal::variables_octets(read_journal::variable_views(a.push(x) + b))
            =~= read_journal::variables_octets(
            read_journal::variable_views(a),
        ) + one + read_journal::variables_octets(read_journal::variable_views(b)));
    }
}

/// An entry is a sequence 0x30 of its id under 0x80, the octets a1 02 30 00, and within
/// 0xa2 the instant under 0x80 and the data points, within 0xa1 within 0xa2.
pub proof fn law_journal_entry_octets(e: WireJournalEntry)
    ensures
        e@.octets() == ber::tlv(
            0x30,
            ber::tlv(0x80, e.entry_id@) + (seq![0xa1u8, 0x02, 0x30, 0x00] + ber::tlv(
                0xa2,
                ber::tlv(0x80, binary_time::time6_octets(e.occurence_time_ms)) + ber::tlv(
                    0xa2,
                    ber::tlv(0xa1,
                        read_journal::variables_octets(read_journal::variable_views(e.variables@))),
                ),
            )),
        ),
        e@.entry_id == e.entry_id@,
        e@.occurence_time_ms == e.occurence_time_ms,
        e@.variables.len() == e.variables.len(),
        forall|i: int|
            0 <= i < e.variables.len() ==> #[trigger] e@.variables[i] == (JournalVariableView {
                data_ref: e.variables[i].data_ref@,
                value: e.variables[i].value@,
                reason_code: e.variables[i].reason_code,
            }),
{
}

/// Entries are written one after the other, in order.
pub proof fn law_journal_entries_in_order(
    a: Seq<WireJournalEntry>,
    x: WireJournalEntry,
    b: Seq<WireJournalEntry>,
)
    ensures
        read_journal::entries_octets(read_journal::entry_views(Seq::<WireJournalEntry>::empty()))
            == Seq::<u8>::empty(),
        read_journal::entries_octets(read_journal::entry_views(a.push(x) + b))
            == read_journal::entries_octets(read_journal::entry_views(a)) + x@.octets()
            + read_journal::entries_octets(read_journal::entry_views(b)),
{
    assert(read_journal::entry_views(a.push(x) + b)
        =~= read_journal::entry_views(a) + (seq![x@] + read_journal::entry_views(b)));
    lemma_entries_concat(read_journal::entry_views(a), seq![x@] + read_journal::entry_views(b));
    lemma_entries_concat(seq![x@], read_journal::entry_views(b));
    assert(read_journal::entries_octets(seq![x@]) =~= x@.octets()) by {
        reveal_with_fuel(read_journal::entries_octets, 2);
        assert(seq![x@].drop_last() =~= Seq::empty());
    }
    lemma_joined(read_journal::entries_octets(read_journal::entry_views(a)), x@.octets(),
        read_journal::entries_octets(read_journal::entry_views(b)));
}

/// Sequences are joined in either grouping.
proof fn lemma_joined(p: Seq<u8>, q: Seq<u8>, r: Seq<u8>)
    ensures
        p + (q + r) == p + q + r,
{
    assert(p + (q + r) =~= p + q + r);
}

/// The encodings of two rows of entries follow each other.
proof fn lemma_entries_concat(a: Seq<JournalEntryView>, b: Seq<JournalEntryView>)
    ensures
        read_journal::entries_octets(a + b)
            == read_journal::entries_octets(a) + read_journal::entries_octets(b),
    decreases b.len(),
{
    if b.len() == 0 {
        assert(a + b =~= a);
        assert(read_journal::entries_octets(b) =~= Seq::empty());
        assert(read_journal::entries_octets(a) + Seq::<u8>::empty()
            =~= read_journal::entries_octets(a));
    } else {
        lemma_entries_concat(a, b.drop_last());
        assert((a + b).drop_last() =~= a + b.drop_last());
        lemma_joined(read_journal::entries_octets(a), read_journal::entries_octets(b.drop_last()),
            b.last().octets());
    }
}

/// The answer holds the entries within 0xa0 and, where the flag is there, an octet 0xff or
/// 0x00 under 0x81.
pub proof fn law_journal_response_octets(r: ReadJournalResponse)
    ensures
        ({
            let flag = match r.more_follows {
                Some(true) => seq![0x81u8, 0x01, 0xff],
                Some(false) => seq![0x81u8, 0x01, 0x00],
                None => Seq::<u8>::empty(),
            };
            r@.octets() == read_journal::journal_tlv(
                ber::tlv(0xa0, read_journal::entries_octets(read_journal::entry_views(r.entries@)))
                    + flag,
            )
        }),
        r@.more_follows == r.more_follows,
        r@.entries.len() == r.entries.len(),
        forall|i: int| 0 <= i < r.entries.len() ==> #[trigger] r@.entries[i] == r.entries[i]@,
{
    assert(ber::tlv(0x81, seq![0xffu8]) =~= seq![0x81u8, 0x01, 0xff]);
    assert(ber::tlv(0x81, seq![0x00u8]) =~= seq![0x81u8, 0x01, 0x00]);
}

/// A variable of an entry is a sequence 0x30 of a name under 0x80 and a value within 0xa1.
/// Under the name "ReasonCode" the first octet of its bit string is the reason code, zero
/// where there is none; under another name it is a value.
#[verifier::spinoff_prover]
#[verifier::rlimit(40)]
pub proof fn law_journal_variables_decode(
    name: Seq<u8>,
    v: Seq<u8>,
    d: MmsDataView,
    n: nat,
    c: Seq<u8>,
    acc: Seq<RawVariableView>,
)
    requires
        name.len() <= 0x7000,
        v.len() <= 0x7000,
        text::text_at(name) is Some,
        MmsDataView::parse(v, 0, 32) == Ok::<(MmsDataView, nat), MmsError>((d, n)),
    ensures
        ({
            let t = text::text_at(name)->0;
            let got = read_journal::raw_list_at(
                ber::tlv(0x30, ber::tlv(0x80, name) + ber::tlv(0xa1, v)) + c, acc);
            &&& t != "ReasonCode"@ ==> got == read_journal::raw_list_at(
                c,
                acc.push(RawVariableView::Data { tag: t, value: d }),
            )
            &&& t == "ReasonCode"@ ==> match d {
                MmsDataView::BitString { padding, data } => got == read_journal::raw_list_at(
                    c,
                    acc.push(
                        RawVariableView::ReasonCode(
                            if data.len() > 0 {
                                data[0]
                            } else {
                                0
                            },
                        ),
                    ),
                ),
                _ => got == Err::<Seq<RawVariableView>, MmsError>(MmsError::InvalidPdu),
            }
        }),
        read_journal::raw_list_at(Seq::<u8>::empty(), acc)
            == Ok::<Seq<RawVariableView>, MmsError>(acc),
{
    let steps = read_journal::raw_fields();
    let f0: RawFields = (None, None);
    let f1: RawFields = (text::text_at(name), None);
    let f2: RawFields = (text::text_at(name), Some(d));
    let content = ber::tlv(0x80, name) + ber::tlv(0xa1, v);
    ber::law_element_round_trip(0x30, content, c);
    ber::lemma_fold_tlv(0x80, name, ber::tlv(0xa1, v), f0, steps);
    ber::lemma_fold_last(0xa1, v, f1, steps);
    assert(steps(f0, 0x80, name) == Ok::<RawFields, MmsError>(f1));
    assert(steps(f1, 0xa1, v) == Ok::<RawFields, MmsError>(f2));
    assert(read_journal::raw_at(content) == read_journal::raw_of_fields(f2));
    assert((ber::tlv(0x30, content) + c)[0] == 0x30);
}

/// A reason code belongs to the value just before it; a value without one has the code 0,
/// and a code without a value is refused.
pub proof fn law_reason_codes_paired(
    tag: Seq<char>,
    value: MmsDataView,
    code: u8,
    raw: Seq<RawVariableView>,
    acc: Seq<JournalVariableView>,
)
    ensures
        read_journal::paired(Seq::<RawVariableView>::empty(), acc)
            == Ok::<Seq<JournalVariableView>, MmsError>(
            acc,
        ),
        read_journal::paired(
            seq![RawVariableView::Data { tag, value }, RawVariableView::ReasonCode(code)] + raw,
            acc,
        ) == read_journal::paired(raw,
            acc.push(JournalVariableView { data_ref: tag, value, reason_code: code })),
        raw.len() == 0 || raw[0] is Data ==> read_journal::paired(
            seq![RawVariableView::Data { tag, value }] + raw,
            acc,
        ) == read_journal::paired(raw,
            acc.push(JournalVariableView { data_ref: tag, value, reason_code: 0 })),
        read_journal::paired(seq![RawVariableView::ReasonCode(code)] + raw, acc) == Err::<
            Seq<JournalVariableView>,
            MmsError,
        >(MmsError::InvalidPdu),
{
    let two = seq![RawVariableView::Data { tag, value }, RawVariableView::ReasonCode(code)] + raw;
    let one = seq![RawVariableView::Data { tag, value }] + raw;
    assert(two.skip(2) =~= raw);
    assert(one.skip(1) =~= raw);
}

/// What an entry decodes to: the id of eight octets under 0x80, whatever stands under
/// 0xa1, and within 0xa2 the instant under 0x80 and the data points, within 0xa1 within
/// 0xa2. Entries are read in order.
#[verifier::spinoff_prover]
#[verifier::rlimit(60)]
pub proof fn law_journal_entries_decode(
    id: Seq<u8>,
    origin: Seq<u8>,
    b: Seq<u8>,
    t: u64,
    c: Seq<u8>,
    raw: Seq<RawVariableView>,
    vars: Seq<JournalVariableView>,
    more: Seq<u8>,
    acc: Seq<JournalEntryView>,
)
    requires
        id.len() == 8,
        origin.len() <= 0x1000,
        c.len() <= 0x7000,
        read_journal::instant_at(b) == Ok::<u64, MmsError>(t),
        read_journal::raw_list_at(c, Seq::empty()) == Ok::<Seq<RawVariableView>, MmsError>(raw),
        read_journal::paired(raw, Seq::empty()) == Ok::<Seq<JournalVariableView>, MmsError>(vars),
    ensures
        ({
            let points = ber::tlv(0xa2, ber::tlv(0xa1, c));
            let entry = ber::tlv(
                0x30,
                ber::tlv(0x80, id)
                    + (ber::tlv(0xa1, origin) + ber::tlv(0xa2, ber::tlv(0x80, b) + points)),
            );
            read_journal::entry_list_at(entry + more, acc) == read_journal::entry_list_at(
                more,
                acc.push(
                    JournalEntryView { entry_id: id, occurence_time_ms: t, variables: vars },
                ),
            )
        }),
        read_journal::entry_list_at(Seq::<u8>::empty(), acc)
            == Ok::<Seq<JournalEntryView>, MmsError>(acc),
{
    let list = ber::tlv(0xa1, c);
    let inner = ber::tlv(0x80, b) + ber::tlv(0xa2, list);
    lemma_entry_content(b, t, c, raw, vars);
    let steps = read_journal::entry_fields();
    let none = Seq::<JournalVariableView>::empty();
    let e0: EntryFields = (None, None, none);
    let e1: EntryFields = (Some(id), None, none);
    let e2: EntryFields = (Some(id), Some(t), vars);
    let content = ber::tlv(0x80, id) + (ber::tlv(0xa1, origin) + ber::tlv(0xa2, inner));
    ber::lemma_fold_tlv(0x80, id, ber::tlv(0xa1, origin) + ber::tlv(0xa2, inner), e0, steps);
    ber::lemma_fold_tlv(0xa1, origin, ber::tlv(0xa2, inner), e1, steps);
    ber::lemma_fold_last(0xa2, inner, e1, steps);
    assert(steps(e0, 0x80, id) == Ok::<EntryFields, MmsError>(e1));
    assert(steps(e1, 0xa1, origin) == Ok::<EntryFields, MmsError>(e1));
    assert(steps(e1, 0xa2, inner) == Ok::<EntryFields, MmsError>(e2));
    let want = JournalEntryView { entry_id: id, occurence_time_ms: t, variables: vars };
    assert(read_journal::entry_at(content) == Ok::<JournalEntryView, MmsError>(want));
    ber::law_element_round_trip(0x30, content, more);
    assert((ber::tlv(0x30, content) + more)[0] == 0x30);
}

/// What is refused in an entry: an id that is not eight octets, and an entry without an id
/// or without an instant.
#[verifier::rlimit(40)]
pub proof fn law_journal_entry_faults(id: Seq<u8>, b: Seq<u8>, t: u64, more: Seq<u8>)
    requires
        id.len() <= 0x7000,
        read_journal::instant_at(b) == Ok::<u64, MmsError>(t),
    ensures
        ({
            let none = Seq::<JournalEntryView>::empty();
            let when = ber::tlv(0xa2, ber::tlv(0x80, b));
            let truncated = Err::<Seq<JournalEntryView>, MmsError>(MmsError::TruncatedPdu);
            &&& id.len() != 8 ==> read_journal::entry_list_at(
                ber::tlv(0x30, ber::tlv(0x80, id)) + more,
                none,
            ) == Err::<Seq<JournalEntryView>, MmsError>(MmsError::InvalidLength)
            &&& id.len() == 8 ==> read_journal::entry_list_at(
                ber::tlv(0x30, ber::tlv(0x80, id)) + more,
                none,
            ) == truncated
            &&& read_journal::entry_list_at(ber::tlv(0x30, when) + more, none) == truncated
            &&& read_journal::entry_list_at(
                ber::tlv(0x30, ber::tlv(0xa2, Seq::empty())) + more,
                none,
            ) == truncated
            &&& id.len() == 8 ==> read_journal::entry_list_at(
                ber::tlv(0x30, ber::tlv(0x80, id) + when) + more,
                none,
            ) == read_journal::entry_list_at(
                more,
                none.push(
                    JournalEntryView {
                        entry_id: id,
                        occurence_time_ms: t,
                        variables: Seq::empty(),
                    },
                ),
            )
        }),
{
    let steps = read_journal::entry_fields();
    let vars = Seq::<JournalVariableView>::empty();
    let e0: EntryFields = (None, None, vars);
    let e1: EntryFields = (Some(id), None, vars);
    let when = ber::tlv(0x80, b);
    let empty = Seq::<u8>::empty();
    let c_steps = read_journal::content_fields();
    let c0: ContentFields = (None, vars);
    let c1: ContentFields = (Some(t), vars);
    ber::lemma_fold_last(0x80, b, c0, c_steps);
    assert(c_steps(c0, 0x80, b) == Ok::<ContentFields, MmsError>(c1));
    ber::lemma_fold_last(0x80, id, e0, steps);
    ber::lemma_fold_last(0xa2, when, e0, steps);
    ber::lemma_fold_last(0xa2, when, e1, steps);
    ber::lemma_fold_last(0xa2, empty, e0, steps);
    ber::lemma_fold_tlv(0x80, id, ber::tlv(0xa2, when), e0, steps);
    ber::law_element_round_trip(0x30, ber::tlv(0x80, id), more);
    ber::law_element_round_trip(0x30, ber::tlv(0xa2, when), more);
    ber::law_element_round_trip(0x30, ber::tlv(0xa2, empty), more);
    ber::law_element_round_trip(0x30, ber::tlv(0x80, id) + ber::tlv(0xa2, when), more);
    assert((ber::tlv(0x30, ber::tlv(0x80, id)) + more)[0] == 0x30);
    assert((ber::tlv(0x30, ber::tlv(0xa2, when)) + more)[0] == 0x30);
    assert((ber::tlv(0x30, ber::tlv(0xa2, empty)) + more)[0] == 0x30);
    assert((ber::tlv(0x30, ber::tlv(0x80, id) + ber::tlv(0xa2, when)) + more)[0] == 0x30);
}

/// The content of an entry: the instant and the data points.
proof fn lemma_entry_content(
    b: Seq<u8>,
    t: u64,
    c: Seq<u8>,
    raw: Seq<RawVariableView>,
    vars: Seq<JournalVariableView>,
)
    requires
        c.len() <= 0x7000,
        read_journal::instant_at(b) == Ok::<u64, MmsError>(t),
        read_journal::raw_list_at(c, Seq::empty()) == Ok::<Seq<RawVariableView>, MmsError>(raw),
        read_journal::paired(raw, Seq::empty()) == Ok::<Seq<JournalVariableView>, MmsError>(vars),
    ensures
        read_journal::entry_content_at(ber::tlv(0x80, b) + ber::tlv(0xa2, ber::tlv(0xa1, c)))
            == Ok::<
            (u64, Seq<JournalVariableView>),
            MmsError,
        >((t, vars)),
{
    let list = ber::tlv(0xa1, c);
    let steps = read_journal::content_fields();
    let c0: ContentFields = (None, Seq::empty());
    let c1: ContentFields = (Some(t), Seq::empty());
    ber::lemma_element_alone(0xa1, c);
    assert(list[0] == 0xa1);
    ber::lemma_fold_tlv(0x80, b, ber::tlv(0xa2, list), c0, steps);
    ber::lemma_fold_last(0xa2, list, c1, steps);
    assert(steps(c0, 0x80, b) == Ok::<ContentFields, MmsError>(c1));
    assert(steps(c1, 0xa2, list) == Ok::<ContentFields, MmsError>((Some(t), vars)));
}

/// An answer without content has no entries and no flag. One more field sets the entries
/// (0xa0) or the flag (0x81), which is set by any first octet but zero, and a field with
/// another tag changes nothing.
#[verifier::rlimit(40)]
pub proof fn law_journal_response_decodes(
    c: Seq<u8>,
    r: JournalResponseView,
    tag: u8,
    val: Seq<u8>,
    rest: Seq<u8>,
)
    requires
        c.len() <= 0x7000,
        val.len() <= 0x7000,
        JournalResponseView::parse(read_journal::journal_tlv(c))
            == Ok::<JournalResponseView, MmsError>(r),
    ensures
        JournalResponseView::parse(seq![0xbfu8, 0x41, 0x00] + rest) == Ok::<
            JournalResponseView,
            MmsError,
        >(JournalResponseView { entries: Seq::empty(), more_follows: None }),
        JournalResponseView::parse(read_journal::journal_tlv(c + ber::tlv(0xa0, val)) + rest)
            == (match read_journal::entry_list_at(
            val,
            Seq::empty(),
        ) {
            Ok(entries) => Ok::<JournalResponseView, MmsError>(
                JournalResponseView { entries, ..r },
            ),
            Err(e) => Err(e),
        }),
        JournalResponseView::parse(read_journal::journal_tlv(c + ber::tlv(0x81, val)) + rest)
            == (if val.len() == 0 {
            Err::<JournalResponseView, MmsError>(MmsError::InvalidLength)
        } else {
            Ok(JournalResponseView { more_follows: Some(val[0] != 0), ..r })
        }),
        tag != 0xa0 && tag != 0x81 ==> JournalResponseView::parse(
            read_journal::journal_tlv(c + ber::tlv(tag, val)) + rest,
        ) == Ok::<JournalResponseView, MmsError>(r),
{
    let none = Seq::<u8>::empty();
    let steps = read_journal::response_fields();
    let start = JournalResponseView::empty();
    read_journal::lemma_journal_content(none, rest);
    assert(read_journal::journal_tlv(none) =~= seq![0xbfu8, 0x41, 0x00]);
    read_journal::lemma_journal_content(c, none);
    assert(read_journal::journal_tlv(c) + none =~= read_journal::journal_tlv(c));
    read_journal::lemma_journal_content(c + ber::tlv(0xa0, val), rest);
    ber::lemma_fold_append(c, 0xa0, val, start, steps);
    read_journal::lemma_journal_content(c + ber::tlv(0x81, val), rest);
    ber::lemma_fold_append(c, 0x81, val, start, steps);
    read_journal::lemma_journal_content(c + ber::tlv(tag, val), rest);
    ber::lemma_fold_append(c, tag, val, start, steps);
}

/// What a confirmed PDU around the service decodes to: the invoke id under 0x02, cut to
/// its low 32 bits, and the service after it.
pub proof fn law_journal_confirmed_decodes(
    tag: u8,
    id: Seq<u8>,
    other: u8,
    service: Seq<u8>,
    rest: Seq<u8>,
)
    requires
        id.len() <= 0x7000,
        service.len() <= 0x7000,
        other != 0x02,
    ensures
        read_journal::journal_confirmed_at(ber::tlv(tag, ber::tlv(0x02, id) + service) + rest, tag)
            == Ok::<
            (u32, Seq<u8>),
            MmsError,
        >(((asn1::uint(id) % 0x1_0000_0000) as u32, service)),
        read_journal::journal_confirmed_at(ber::tlv(tag, ber::tlv(other, id) + service) + rest, tag)
            == Err::<
            (u32, Seq<u8>),
            MmsError,
        >(MmsError::TruncatedPdu),
        read_journal::confirmed_request_at(ber::tlv(0xa0, ber::tlv(0x02, id) + service) + rest) == (
        match JournalRequestView::parse(service) {
            Ok(r) => Ok::<(u32, JournalRequestView), MmsError>(
                ((asn1::uint(id) % 0x1_0000_0000) as u32, r),
            ),
            Err(e) => Err(e),
        }),
        read_journal::confirmed_response_at(ber::tlv(0xa1, ber::tlv(0x02, id) + service) + rest)
            == (
        match JournalResponseView::parse(service) {
            Ok(r) => Ok::<(u32, JournalResponseView), MmsError>(
                ((asn1::uint(id) % 0x1_0000_0000) as u32, r),
            ),
            Err(e) => Err(e),
        }),
{
    ber::law_element_round_trip(tag, ber::tlv(0x02, id) + service, rest);
    ber::law_element_round_trip(tag, ber::tlv(other, id) + service, rest);
    ber::law_element_round_trip(0xa0, ber::tlv(0x02, id) + service, rest);
    ber::law_element_round_trip(0xa1, ber::tlv(0x02, id) + service, rest);
    ber::law_element_round_trip(0x02, id, service);
}

} // verus!
