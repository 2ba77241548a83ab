//! The VariableAccessSpecification CHOICE.

use bytes::BytesMut;
use vstd::prelude::*;

use crate::buffer;
use crate::mms::error::MmsError;
use crate::mms::pdu::alternate_access;
use crate::mms::pdu::alternate_access::{AlternateAccess, AlternateAccessView};
use crate::mms::pdu::ber;
use crate::mms::pdu::ber::{put_tlv, take_element, take_tagged, Tlv};
use crate::mms::pdu::object_name;
use crate::mms::pdu::object_name::{ber_len_size, ObjectName, ObjectNameView};

verus! {

broadcast use ber::group_element_sizes;

/// The MMS VariableAccessSpecification CHOICE.
///
/// Wire tags:
/// - `listOfVariable`: `0xa0`, CONTEXT `[0]` IMPLICIT CONSTRUCTED
/// - `variableListName`: `0xa1`, CONTEXT `[1]` EXPLICIT CONSTRUCTED
#[derive(Debug, Clone, PartialEq, Eq)]
pub enum VariableAccessSpecification {
    /// `0xa0`: an explicit list of variables, a SEQUENCE OF ListOfVariableSeq.
    /// Each entry is an `ObjectName` with an optional `AlternateAccess`.
    ListOfVariable(Vec<ListOfVariableEntry>),
    /// `0xa1`: a reference to a named variable list.
    VariableListName(ObjectName),
}

/// One entry inside `listOfVariable`: an `ObjectName` plus an optional
/// `AlternateAccess` selector for array element / sub-component access.
///
/// Wire layout per entry:
/// ```text
/// 0x30 <len>            -- UNIVERSAL SEQUENCE
///   0xa0 <len>          -- variableSpecification.name [0] IMPLICIT
///     <ObjectName body>
///   [<AlternateAccess>] -- OPTIONAL: 0xa5 <len> ..., [5] IMPLICIT
/// ```
#[derive(Debug, Clone, PartialEq, Eq)]
pub struct ListOfVariableEntry {
    /// Name of the variable this entry refers to.
    pub name: ObjectName,
    /// Optional selector narrowing the access to part of that variable.
    pub alt_access: Option<AlternateAccess>,
}

/// A list entry with its name and selector in view.
#[verifier::ext_equal]
pub struct ListOfVariableEntryView {
    /// Name of the variable.
    pub name: ObjectNameView,
    /// Selector narrowing the access.
    pub alt_access: Option<AlternateAccessView>,
}

/// A VariableAccessSpecification with its names in view.
#[verifier::ext_equal]
pub enum VariableAccessView {
    /// An explicit list of variables.
    ListOfVariable(Seq<ListOfVariableEntryView>),
    /// A reference to a named variable list.
    VariableListName(ObjectNameView),
}

impl View for ListOfVariableEntry {
    type V = ListOfVariableEntryView;

    open spec fn view(&self) -> ListOfVariableEntryView {
        ListOfVariableEntryView {
            name: self.name@,
            alt_access: match self.alt_access {
                Some(a) => Some(a@),
                None => None,
            },
        }
    }
}

/// The views of entries in a row.
pub open spec fn entry_views(entries: Seq<ListOfVariableEntry>) -> Seq<ListOfVariableEntryView> {
    entries.map_values(|e: ListOfVariableEntry| e@)
}

impl View for VariableAccessSpecification {
    type V = VariableAccessView;

    open spec fn view(&self) -> VariableAccessView {
        match *self {
            VariableAccessSpecification::ListOfVariable(
                entries,
            ) => VariableAccessView::ListOfVariable(entry_views(entries@)),
            VariableAccessSpecification::VariableListName(
                name,
            ) => VariableAccessView::VariableListName(name@),
        }
    }
}

impl ListOfVariableEntryView {
    /// The content of the entry: the name, then the selector where there is one.
    pub open spec fn content(self) -> Seq<u8> {
        let name = ber::tlv(0xa0, self.name.octets());
        match self.alt_access {
            Some(a) => name + a.octets(0xa5),
            None => name,
        }
    }

    /// The encoding of the entry.
    pub open spec fn octets(self) -> Seq<u8> {
        ber::tlv(0x30, self.content())
    }

    /// The entry that a SEQUENCE with this content is.
    pub open spec fn of_content(s: Seq<u8>) -> Result<ListOfVariableEntryView, MmsError> {
        match ber::tagged_at(s, 0xa0) {
            Err(e) => Err(e),
            Ok(e) => match ObjectNameView::parse(e.val) {
                Err(x) => Err(x),
                Ok((name, _)) => {
                    let tail = s.skip(e.size as int);
                    if tail.len() == 0 {
                        Ok(ListOfVariableEntryView { name, alt_access: None })
                    } else {
                        match AlternateAccessView::parse(tail, 0xa5) {
                            Err(x) => Err(x),
                            Ok((a, n)) => if n != tail.len() {
                                Err(MmsError::TruncatedPdu)
                            } else {
                                Ok(ListOfVariableEntryView { name, alt_access: Some(a) })
                            },
                        }
                    }
                },
            },
        }
    }

    /// Every identifier is within its limit.
    pub open spec fn within_limit(self) -> bool {
        &&& self.name.within_limit()
        &&& self.alt_access matches Some(a) ==> a.within_limit()
    }
}

/// The encodings of entries in a row.
pub open spec fn entry_octets(entries: Seq<ListOfVariableEntryView>) -> Seq<u8>
    decreases entries.len(),
{
    if entries.len() == 0 {
        Seq::empty()
    } else {
        entry_octets(entries.drop_last()) + entries.last().octets()
    }
}

/// The entries that fill `s`, put after those of `acc`.
pub open spec fn entry_list_at(s: Seq<u8>, acc: Seq<ListOfVariableEntryView>) -> Result<
    Seq<ListOfVariableEntryView>,
    MmsError,
>
    decreases s.len(),
{
    if s.len() == 0 {
        Ok(acc)
    } else {
        match ber::tagged_at(s, 0x30) {
            Err(e) => Err(e),
            Ok(e) => match ListOfVariableEntryView::of_content(e.val) {
                Err(x) => Err(x),
                Ok(entry) => {
                    proof {
                        ber::lemma_element_bounds(s);
                    }
                    entry_list_at(s.skip(e.size as int), acc.push(entry))
                },
            },
        }
    }
}

impl VariableAccessView {
    /// The content of the specification: the entries, or the name.
    pub open spec fn content(self) -> Seq<u8> {
        match self {
            VariableAccessView::ListOfVariable(entries) => entry_octets(entries),
            VariableAccessView::VariableListName(name) => name.octets(),
        }
    }

    /// The encoding of the specification.
    pub open spec fn octets(self) -> Seq<u8> {
        match self {
            VariableAccessView::ListOfVariable(entries) => ber::tlv(0xa0, entry_octets(entries)),
            VariableAccessView::VariableListName(name) => ber::tlv(0xa1, name.octets()),
        }
    }

    /// The specification at the start of `s`, and how many octets it takes.
    pub open spec fn parse(s: Seq<u8>) -> Result<(VariableAccessView, nat), MmsError> {
        match ber::element_at(s) {
            Err(e) => Err(e),
            Ok(e) => if e.tag == 0xa0 {
                match entry_list_at(e.val, Seq::empty()) {
                    Err(x) => Err(x),
                    Ok(entries) => Ok((VariableAccessView::ListOfVariable(entries), e.size)),
                }
            } else if e.tag == 0xa1 {
                match ObjectNameView::parse(e.val) {
                    Err(x) => Err(x),
                    Ok((name, _)) => Ok((VariableAccessView::VariableListName(name), e.size)),
                }
            } else {
                Err(MmsError::UnknownVasTag(e.tag))
            },
        }
    }

    /// Every identifier is within its limit.
    pub open spec fn within_limit(self) -> bool {
        match self {
            VariableAccessView::ListOfVariable(entries) => forall|i: int|
                0 <= i < entries.len() ==> (#[trigger] entries[i]).within_limit(),
            VariableAccessView::VariableListName(name) => name.within_limit(),
        }
    }
}

impl ListOfVariableEntry {
    /// Build an entry with no `AlternateAccess`.
    pub fn name(name: ObjectName) -> (r: Self)
        ensures
            r == (ListOfVariableEntry { name, alt_access: None }),
    {
        ListOfVariableEntry { name, alt_access: None }
    }

    /// Build an entry with an `AlternateAccess` selector attached.
    pub fn with_alt_access(name: ObjectName, alt_access: AlternateAccess) -> (r: Self)
        ensures
            r == (ListOfVariableEntry { name, alt_access: Some(alt_access) }),
    {
        ListOfVariableEntry { name, alt_access: Some(alt_access) }
    }
}

impl From<ObjectName> for ListOfVariableEntry {
    fn from(name: ObjectName) -> (r: Self) {
        ListOfVariableEntry { name, alt_access: None }
    }
}

impl vstd::std_specs::convert::FromSpecImpl<ObjectName> for ListOfVariableEntry {
    open spec fn obeys_from_spec() -> bool {
        true
    }

    open spec fn from_spec(name: ObjectName) -> Self {
        ListOfVariableEntry { name, alt_access: None }
    }
}

impl VariableAccessSpecification {
    /// Encodes the VariableAccessSpecification into `buf`.
    pub fn encode(&self, buf: &mut BytesMut)
        requires
            buffer::contents(*old(buf)).len() + self@.octets().len() <= isize::MAX,
        ensures
            buffer::contents(*final(buf)) == buffer::contents(*old(buf)) + self@.octets(),
    {
        match self {
            VariableAccessSpecification::ListOfVariable(entries) => {
                let mut inner: BytesMut = BytesMut::new();
                let mut i: usize = 0;
                let ghost views = entry_views(entries@);
                assert(views.take(0) =~= Seq::empty());
                while i < entries.len()
                    invariant
                        i <= entries.len(),
                        views == entry_views(entries@),
                        entry_octets(views).len() <= isize::MAX,
                        buffer::contents(inner) == entry_octets(views.take(i as int)),
                    decreases entries.len() - i,
                {
                    proof {
                        assert(views.take(i + 1).drop_last() =~= views.take(i as int));
                        lemma_entries_prefix(views, i + 1);
                    }
                    encode_list_of_variable_seq(&entries[i], &mut inner);
                    i = i + 1;
                }
                assert(views.take(entries@.len() as int) =~= views);
                put_tlv(0xa0, &inner, buf);
            },
            VariableAccessSpecification::VariableListName(name) => {
                let mut inner: BytesMut = BytesMut::new();
                name.encode(&mut inner);
                assert(buffer::contents(inner) =~= name@.octets());
                put_tlv(0xa1, &inner, buf);
            },
        }
    }

    /// Decodes a VariableAccessSpecification; `data` starts at the tag byte. Returns the
    /// specification and the number of bytes it takes.
    pub fn decode(data: &[u8]) -> (r: Result<(Self, usize), MmsError>)
        ensures
            ber::agrees_at(r, VariableAccessView::parse(data@)),
            r matches Ok((_, n)) ==> 2 <= n <= data.len(),
    {
        assert(data@.skip(0) =~= data@);
        let t: Tlv = take_element(data, 0)?;
        match t.tag {
            0xa0 => {
                let entries: Vec<ListOfVariableEntry> = decode_list_of_variable(t.val)?;
                Ok((VariableAccessSpecification::ListOfVariable(entries), t.size))
            },
            0xa1 => {
                let (name, _) = ObjectName::decode(t.val)?;
                Ok((VariableAccessSpecification::VariableListName(name), t.size))
            },
            other => Err(MmsError::UnknownVasTag(other)),
        }
    }

    /// Returns the encoded length in bytes.
    pub fn encoded_len(&self) -> (n: usize)
        requires
            self@.octets().len() <= usize::MAX,
        ensures
            n == self@.octets().len(),
    {
        match self {
            VariableAccessSpecification::ListOfVariable(entries) => {
                let mut inner: usize = 0;
                let mut i: usize = 0;
                let ghost views = entry_views(entries@);
                assert(views.take(0) =~= Seq::empty());
                while i < entries.len()
                    invariant
                        i <= entries.len(),
                        views == entry_views(entries@),
                        entry_octets(views).len() <= usize::MAX,
                        inner == entry_octets(views.take(i as int)).len(),
                    decreases entries.len() - i,
                {
                    proof {
                        assert(views.take(i + 1).drop_last() =~= views.take(i as int));
                        lemma_entries_prefix(views, i + 1);
                    }
                    inner = inner + list_of_variable_seq_len(&entries[i]);
                    i = i + 1;
                }
                assert(views.take(entries@.len() as int) =~= views);
                1 + ber_len_size(inner) + inner
            },
            VariableAccessSpecification::VariableListName(name) => {
                let inner: usize = name.encoded_len();
                1 + ber_len_size(inner) + inner
            },
        }
    }
}

/// Encode one entry: its name and its optional `AlternateAccess`, whose wrapper has the
/// tag `0xa5` here.
fn encode_list_of_variable_seq(entry: &ListOfVariableEntry, buf: &mut BytesMut)
    requires
        buffer::contents(*old(buf)).len() + entry@.octets().len() <= isize::MAX,
    ensures
        buffer::contents(*final(buf)) == buffer::contents(*old(buf)) + entry@.octets(),
{
    let mut inner: BytesMut = BytesMut::new();
    encode_variable_specification_name(&entry.name, &mut inner);
    if let Some(a) = &entry.alt_access {
        a.encode_tagged(0xa5, &mut inner);
    }
    assert(buffer::contents(inner) =~= entry@.content());
    put_tlv(0x30, &inner, buf);
}

/// Encodes VariableSpecification.name, tag `0xa0` over an ObjectName.
pub(crate) fn encode_variable_specification_name(name: &ObjectName, buf: &mut BytesMut)
    requires
        buffer::contents(*old(buf)).len() + ber::tlv(0xa0, name@.octets()).len() <= isize::MAX,
    ensures
        buffer::contents(*final(buf)) == buffer::contents(*old(buf)) + ber::tlv(
            0xa0,
            name@.octets(),
        ),
{
    let mut inner: BytesMut = BytesMut::new();
    name.encode(&mut inner);
    assert(buffer::contents(inner) =~= name@.octets());
    put_tlv(0xa0, &inner, buf);
}

/// Decodes the content of one entry.
fn decode_list_of_variable_seq(data: &[u8]) -> (r: Result<ListOfVariableEntry, MmsError>)
    ensures
        ber::agrees(r, ListOfVariableEntryView::of_content(data@)),
{
    assert(data@.skip(0) =~= data@);
    let t: Tlv = take_tagged(data, 0, 0xa0)?;
    let (name, _) = ObjectName::decode(t.val)?;
    let tail: &[u8] = &data[t.size..data.len()];
    assert(tail@ =~= data@.skip(t.size as int));
    if tail.len() == 0 {
        return Ok(ListOfVariableEntry { name, alt_access: None });
    }
    let (a, consumed) = AlternateAccess::decode_tagged(tail, 0xa5)?;
    if consumed != tail.len() {
        return Err(MmsError::TruncatedPdu);
    }
    Ok(ListOfVariableEntry { name, alt_access: Some(a) })
}

/// Decodes the entries of a `listOfVariable`, what the outer `0xa0` holds.
pub fn decode_list_of_variable(data: &[u8]) -> (r: Result<Vec<ListOfVariableEntry>, MmsError>)
    ensures
        match entry_list_at(data@, Seq::empty()) {
            Ok(v) => r matches Ok(x) && entry_views(x@) == v,
            Err(e) => r == Err::<Vec<ListOfVariableEntry>, MmsError>(e),
        },
{
    let mut entries: Vec<ListOfVariableEntry> = Vec::new();
    let mut pos: usize = 0;
    assert(data@.skip(0) =~= data@);
    assert(entry_views(entries@) =~= Seq::empty());
    while pos < data.len()
        invariant
            pos <= data.len(),
            entry_list_at(data@, Seq::empty()) == entry_list_at(
                data@.skip(pos as int),
                entry_views(entries@),
            ),
        decreases data.len() - pos,
    {
        let t: Tlv = take_tagged(data, pos, 0x30)?;
        let entry: ListOfVariableEntry = decode_list_of_variable_seq(t.val)?;
        let ghost before = entries@;
        entries.push(entry);
        proof {
            assert(entry_views(entries@) =~= entry_views(before).push(entry@));
        }
        pos = pos + t.size;
    }
    Ok(entries)
}

/// Computes the encoded byte length of one entry.
fn list_of_variable_seq_len(entry: &ListOfVariableEntry) -> (n: usize)
    requires
        entry@.octets().len() <= usize::MAX,
    ensures
        n == entry@.octets().len(),
{
    let obj_len: usize = entry.name.encoded_len();
    let vs_len: usize = 1 + ber_len_size(obj_len) + obj_len;
    let aa_len: usize = match &entry.alt_access {
        Some(a) => a.encoded_len(),
        None => 0,
    };
    let inner: usize = vs_len + aa_len;
    1 + ber_len_size(inner) + inner
}

/// The first entries of a list take no more octets than all of them.
proof fn lemma_entries_prefix(entries: Seq<ListOfVariableEntryView>, n: int)
    requires
        0 <= n <= entries.len(),
    ensures
        entry_octets(entries.take(n)).len() <= entry_octets(entries).len(),
    decreases entries.len(),
{
    if n < entries.len() {
        lemma_entries_prefix(entries.drop_last(), n);
        assert(entries.drop_last().take(n) =~= entries.take(n));
    } else {
        assert(entries.take(n) =~= entries);
    }
}

/// The encodings in a row, with the first entry taken apart.
proof fn lemma_entries_first(entries: Seq<ListOfVariableEntryView>)
    requires
        entries.len() > 0,
    ensures
        entry_octets(entries) == entries[0].octets() + entry_octets(entries.skip(1)),
    decreases entries.len(),
{
    reveal_with_fuel(entry_octets, 2);
    if entries.len() == 1 {
        assert(entries.drop_last() =~= Seq::empty());
        assert(entries.skip(1) =~= Seq::empty());
    } else {
        lemma_entries_first(entries.drop_last());
        assert(entries.drop_last().skip(1) =~= entries.skip(1).drop_last());
    }
    assert(entry_octets(entries) =~= entries[0].octets() + entry_octets(entries.skip(1)));
}

/// The content of an entry is read back as it was written.
proof fn lemma_entry_round_trip(entry: ListOfVariableEntryView)
    requires
        entry.within_limit(),
        entry.content().len() <= 0xffff,
    ensures
        ListOfVariableEntryView::of_content(entry.content()) == Ok::<
            ListOfVariableEntryView,
            MmsError,
        >(entry),
{
    let name = entry.name.octets();
    object_name::law_object_name_round_trip(entry.name, Seq::empty());
    assert(name + Seq::<u8>::empty() =~= name);
    if let Some(a) = entry.alt_access {
        let tail = a.octets(0xa5);
        ber::law_element_round_trip(0xa0, name, tail);
        alternate_access::law_alternate_access_round_trip(a, 0xa5, Seq::empty());
        assert(tail + Seq::<u8>::empty() =~= tail);
    } else {
        ber::lemma_element_alone(0xa0, name);
    }
}

/// Entries in a row are read back in a row.
proof fn lemma_entry_list_round_trip(
    entries: Seq<ListOfVariableEntryView>,
    acc: Seq<ListOfVariableEntryView>,
)
    requires
        forall|i: int| 0 <= i < entries.len() ==> (#[trigger] entries[i]).within_limit(),
        entry_octets(entries).len() <= 0xffff,
    ensures
        entry_list_at(entry_octets(entries), acc) == Ok::<Seq<ListOfVariableEntryView>, MmsError>(
            acc + entries,
        ),
    decreases entries.len(),
{
    if entries.len() == 0 {
        assert(acc + entries =~= acc);
    } else {
        let first = entries[0];
        let others = entries.skip(1);
        lemma_entries_first(entries);
        assert(first.within_limit());
        ber::law_element_round_trip(0x30, first.content(), entry_octets(others));
        lemma_entry_round_trip(first);
        assert forall|i: int| 0 <= i < others.len() implies (
        #[trigger] others[i]).within_limit() by {
            assert(others[i] == entries[i + 1]);
        }
        lemma_entry_list_round_trip(others, acc.push(first));
        assert(acc.push(first) + others =~= acc + entries);
    }
}

/// A specification whose identifiers are within their limits, and whose content has at
/// most 0xffff octets, decodes to itself, whatever follows it.
pub proof fn law_variable_access_round_trip(v: VariableAccessView, rest: Seq<u8>)
    requires
        v.within_limit(),
        v.content().len() <= 0xffff,
    ensures
        VariableAccessView::parse(v.octets() + rest) == Ok::<(VariableAccessView, nat), MmsError>(
            (v, v.octets().len()),
        ),
{
    match v {
        VariableAccessView::ListOfVariable(entries) => {
            ber::law_element_round_trip(0xa0, entry_octets(entries), rest);
            lemma_entry_list_round_trip(entries, Seq::empty());
            assert(Seq::<ListOfVariableEntryView>::empty() + entries =~= entries);
        },
        VariableAccessView::VariableListName(name) => {
            ber::law_element_round_trip(0xa1, name.octets(), rest);
            object_name::law_object_name_round_trip(name, Seq::empty());
            assert(name.octets() + Seq::<u8>::empty() =~= name.octets());
        },
    }
}

/// What was read before the octets stays in front of what they hold.
proof fn lemma_entry_list_acc(s: Seq<u8>, acc: Seq<ListOfVariableEntryView>)
    ensures
        entry_list_at(s, acc) == (match entry_list_at(s, Seq::empty()) {
            Ok(entries) => Ok::<Seq<ListOfVariableEntryView>, MmsError>(acc + entries),
            Err(e) => Err(e),
        }),
    decreases s.len(),
{
    let none = Seq::<ListOfVariableEntryView>::empty();
    if s.len() == 0 {
        assert(acc + none =~= acc);
    } else if let Ok(e) = ber::tagged_at(s, 0x30) {
        if let Ok(entry) = ListOfVariableEntryView::of_content(e.val) {
            let tail = s.skip(e.size as int);
            lemma_entry_list_acc(tail, acc.push(entry));
            lemma_entry_list_acc(tail, none.push(entry));
            if let Ok(others) = entry_list_at(tail, none) {
                assert(acc.push(entry) + others =~= acc + (none.push(entry) + others));
            }
        }
    }
}

/// Lists are read one entry per SEQUENCE, in the order of the octets, none lost or added:
/// no octets hold no entry, and two lists one after the other hold the entries of the
/// first, then those of the second.
pub proof fn law_entry_lists_concatenate(a: Seq<u8>, b: Seq<u8>)
    requires
        entry_list_at(a, Seq::empty()) is Ok,
        entry_list_at(b, Seq::empty()) is Ok,
    ensures
        entry_list_at(a + b, Seq::empty()) == Ok::<Seq<ListOfVariableEntryView>, MmsError>(
            entry_list_at(a, Seq::empty())->Ok_0 + entry_list_at(b, Seq::empty())->Ok_0,
        ),
        entry_list_at(Seq::empty(), Seq::empty()) == Ok::<
            Seq<ListOfVariableEntryView>,
            MmsError,
        >(Seq::empty()),
    decreases a.len(),
{
    let none = Seq::<ListOfVariableEntryView>::empty();
    let ys = entry_list_at(b, none)->Ok_0;
    if a.len() == 0 {
        assert(a + b =~= b);
        assert(none + ys =~= ys);
    } else {
        let e = ber::tagged_at(a, 0x30)->Ok_0;
        let entry = ListOfVariableEntryView::of_content(e.val)->Ok_0;
        let tail = a.skip(e.size as int);
        ber::lemma_element_prefix(a, b);
        lemma_entry_list_acc(tail, none.push(entry));
        law_entry_lists_concatenate(tail, b);
        lemma_entry_list_acc(tail + b, none.push(entry));
        let others = entry_list_at(tail, none)->Ok_0;
        assert(none.push(entry) + (others + ys) =~= (none.push(entry) + others) + ys);
    }
}

} // verus!
