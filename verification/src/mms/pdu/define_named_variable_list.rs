//! MMS DefineNamedVariableList request and response PDUs.
//!
//! ## Wire format
//!
//! `ConfirmedServiceRequest.defineNamedVariableList` is CONTEXT `[11]` IMPLICIT
//! SEQUENCE, so the outermost tag is `0xab`, that is `0x80 | 0x20 | 11`.
//!
//! ```text
//! 0xa0 <len>           -- MmsPdu [0] confirmedRequestPdu
//!   0x02 <len> <id>    -- invokeID
//!   0xab <len>         -- defineNamedVariableList [11] IMPLICIT SEQUENCE
//!     <ObjectName>     -- variableListName CHOICE, which carries its own tag
//!     0xa0 <len>       -- listOfVariable [0] IMPLICIT SEQUENCE OF Member
//!       0x30 <len>     -- Member SEQUENCE
//!         0xa0 <len>   -- variableSpecification.name [0] IMPLICIT
//!           <ObjectName>
//!         [0xa5 <AlternateAccess>]  -- alternateAccess [5] IMPLICIT OPTIONAL
//!       ... repeated once per member
//! ```
//!
//! The response is CONTEXT `[11]` IMPLICIT with an empty body: tag `0xab`, length 0.
//!
//! ```text
//! 0xa1 <len>           -- MmsPdu [1] confirmedResponsePdu
//!   0x02 <len> <id>    -- invokeID
//!   0xab 0x00          -- defineNamedVariableList [11] IMPLICIT empty SEQUENCE
//! ```

use bytes::BytesMut;
use vstd::prelude::*;

use crate::buffer;
use crate::mms::error::MmsError;
use crate::mms::pdu::ber;
use crate::mms::pdu::ber::{put_tlv, take_content, take_tagged, Tlv};
use crate::mms::pdu::confirmed;
use crate::mms::pdu::confirmed::{decode_confirmed_pdu_inner, put_confirmed};
use crate::mms::pdu::integer;
use crate::mms::pdu::object_name;
use crate::mms::pdu::object_name::{ObjectName, ObjectNameView};
use crate::mms::pdu::variable_access::encode_variable_specification_name;

verus! {

broadcast use ber::group_element_sizes;

/// Tag of DefineNamedVariableList inside the ConfirmedService CHOICE.
pub const SERVICE_TAG_DEFINE_NAMED_VARIABLE_LIST: u8 = 0xab;

/// Outer tag of listOfVariable `[0]` IMPLICIT SEQUENCE OF Member.
const TAG_LIST_OF_VARIABLE: u8 = 0xa0;

/// Tag of variableSpecification.name `[0]` IMPLICIT inside a Member.
const TAG_VAR_SPEC_NAME: u8 = 0xa0;

/// The UNIVERSAL 16 CONSTRUCTED SEQUENCE tag.
const TAG_SEQUENCE: u8 = 0x30;

/// Largest number of entries accepted.
pub const MAX_DEFINE_ENTRIES: usize = 100;

/// One entry of a DefineNamedVariableList request.
///
/// Only a plain domain-specific named variable is supported; an AlternateAccess,
/// which would select an array element or a component path, is not.
#[derive(Debug, Clone, PartialEq, Eq)]
pub struct DefineNamedVariableEntry {
    /// Domain that holds the variable.
    pub domain_id: String,
    /// Name of the variable within the domain.
    pub item_id: String,
}

/// An entry is the domain-specific name it stands for.
impl View for DefineNamedVariableEntry {
    type V = ObjectNameView;

    open spec fn view(&self) -> ObjectNameView {
        ObjectNameView::DomainSpecific { domain_id: self.domain_id@, item_id: self.item_id@ }
    }
}

impl DefineNamedVariableEntry {
    /// Builds a plain domain-specific entry.
    pub fn domain(domain_id: &str, item_id: &str) -> (r: Self)
        ensures
            r.domain_id@ == domain_id@,
            r.item_id@ == item_id@,
    {
        DefineNamedVariableEntry { domain_id: domain_id.to_owned(), item_id: item_id.to_owned() }
    }

    /// Returns the entry as an `ObjectName`.
    fn object_name(&self) -> (r: ObjectName)
        ensures
            r@ == self@,
    {
        ObjectName::DomainSpecific {
            domain_id: self.domain_id.clone(),
            item_id: self.item_id.clone(),
        }
    }
}

/// An MMS DefineNamedVariableListRequest.
#[derive(Debug, Clone, PartialEq, Eq)]
pub struct DefineNamedVariableListRequest {
    /// Name of the data set itself. Domain-specific, vmd-specific and aa-specific
    /// names are all accepted, through the shared ObjectName encoding.
    pub list_name: ObjectName,
    /// Data set entries, stored in the order given.
    pub list_of_variable: Vec<DefineNamedVariableEntry>,
}

/// A request with its names in view.
#[verifier::ext_equal]
pub struct DefineRequestView {
    /// Name of the data set.
    pub list_name: ObjectNameView,
    /// Names of the entries, in order.
    pub members: Seq<ObjectNameView>,
}

/// The names of entries in a row.
pub open spec fn member_views(entries: Seq<DefineNamedVariableEntry>) -> Seq<ObjectNameView> {
    entries.map_values(|e: DefineNamedVariableEntry| e@)
}

impl View for DefineNamedVariableListRequest {
    type V = DefineRequestView;

    open spec fn view(&self) -> DefineRequestView {
        DefineRequestView {
            list_name: self.list_name@,
            members: member_views(self.list_of_variable@),
        }
    }
}

/// The encoding of an entry: a SEQUENCE around its name.
pub open spec fn member_octets(name: ObjectNameView) -> Seq<u8> {
    ber::tlv(0x30, ber::tlv(0xa0, name.octets()))
}

/// The encodings of entries in a row.
pub open spec fn members_octets(members: Seq<ObjectNameView>) -> Seq<u8>
    decreases members.len(),
{
    if members.len() == 0 {
        Seq::empty()
    } else {
        members_octets(members.drop_last()) + member_octets(members.last())
    }
}

/// The name of the entry with this content: a domain-specific one, with no alternate
/// access after it.
pub open spec fn member_at(s: Seq<u8>) -> Result<ObjectNameView, MmsError> {
    match ber::tagged_at(s, 0xa0) {
        Err(e) => Err(e),
        Ok(e) => match ObjectNameView::parse(e.val) {
            Err(x) => Err(x),
            Ok((name, _)) => if !(name is DomainSpecific) {
                Err(MmsError::DefineNamedVariableListMissingField("domain-specific entry"))
            } else if e.size < s.len() && s[e.size as int] == 0xa5 {
                Err(
                    MmsError::DefineNamedVariableListMissingField(
                        "alternateAccess not supported in MVP",
                    ),
                )
            } else {
                Ok(name)
            },
        },
    }
}

/// The entries that fill `s`, put after those of `acc`.
pub open spec fn member_list_at(s: Seq<u8>, acc: Seq<ObjectNameView>) -> Result<
    Seq<ObjectNameView>,
    MmsError,
>
    decreases s.len(),
{
    if s.len() == 0 {
        Ok(acc)
    } else {
        match ber::tagged_at(s, 0x30) {
            Err(e) => Err(e),
            Ok(e) => match member_at(e.val) {
                Err(x) => Err(x),
                Ok(name) => {
                    proof {
                        ber::lemma_element_bounds(s);
                    }
                    member_list_at(s.skip(e.size as int), acc.push(name))
                },
            },
        }
    }
}

impl DefineRequestView {
    /// The content of the service: the name, then the entries.
    pub open spec fn content(self) -> Seq<u8> {
        self.list_name.octets() + ber::tlv(0xa0, members_octets(self.members))
    }

    /// The encoding of the service.
    pub open spec fn octets(self) -> Seq<u8> {
        ber::tlv(SERVICE_TAG_DEFINE_NAMED_VARIABLE_LIST, self.content())
    }

    /// The request with this content.
    pub open spec fn of_content(s: Seq<u8>) -> Result<DefineRequestView, MmsError> {
        if s.len() == 0 {
            Err(MmsError::DefineNamedVariableListMissingField("variableListName"))
        } else {
            match ObjectNameView::parse(s) {
                Err(e) => Err(e),
                Ok((list_name, n)) => if n >= s.len() {
                    Err(MmsError::DefineNamedVariableListMissingField("listOfVariable"))
                } else {
                    match ber::tagged_at(s.skip(n as int), 0xa0) {
                        Err(e) => Err(e),
                        Ok(e) => match member_list_at(e.val, Seq::empty()) {
                            Err(x) => Err(x),
                            Ok(members) => if members.len() > MAX_DEFINE_ENTRIES {
                                Err(
                                    MmsError::TooManyDefineEntries {
                                        count: members.len() as usize,
                                    },
                                )
                            } else {
                                Ok(DefineRequestView { list_name, members })
                            },
                        },
                    }
                },
            }
        }
    }

    /// The request at the start of `s`.
    pub open spec fn parse(s: Seq<u8>) -> Result<DefineRequestView, MmsError> {
        match ber::tagged_at(s, SERVICE_TAG_DEFINE_NAMED_VARIABLE_LIST) {
            Err(e) => Err(e),
            Ok(e) => DefineRequestView::of_content(e.val),
        }
    }

    /// Every identifier is within its limit, the entries are domain-specific, and there
    /// are at most `MAX_DEFINE_ENTRIES` of them.
    pub open spec fn readable(self) -> bool {
        &&& self.list_name.within_limit()
        &&& self.members.len() <= MAX_DEFINE_ENTRIES
        &&& forall|i: int|
            0 <= i < self.members.len() ==> (#[trigger] self.members[i]).within_limit()
                && self.members[i] is DomainSpecific
    }
}

impl DefineNamedVariableListRequest {
    /// Builds a request naming a domain-specific data set.
    pub fn domain(
        domain_id: &str,
        list_name: &str,
        entries: Vec<DefineNamedVariableEntry>,
    ) -> (r: Self)
        ensures
            r.list_name@ == (ObjectNameView::DomainSpecific {
                domain_id: domain_id@,
                item_id: list_name@,
            }),
            r.list_of_variable == entries,
    {
        DefineNamedVariableListRequest {
            list_name: ObjectName::DomainSpecific {
                domain_id: domain_id.to_owned(),
                item_id: list_name.to_owned(),
            },
            list_of_variable: entries,
        }
    }

    /// Encodes the request, including the `0xab <len>` service wrapper.
    ///
    /// More than `MAX_DEFINE_ENTRIES` entries return `MmsError::TooManyDefineEntries`;
    /// `buf` then stays as it was.
    pub fn encode(&self, buf: &mut BytesMut) -> (r: Result<(), MmsError>)
        requires
            buffer::contents(*old(buf)).len() + self@.octets().len() <= isize::MAX,
        ensures
            if self.list_of_variable.len() > MAX_DEFINE_ENTRIES {
                &&& r == Err::<(), MmsError>(
                    MmsError::TooManyDefineEntries { count: self.list_of_variable.len() },
                )
                &&& buffer::contents(*final(buf)) == buffer::contents(*old(buf))
            } else {
                &&& r is Ok
                &&& buffer::contents(*final(buf)) == buffer::contents(*old(buf)) + self@.octets()
            },
    {
        if self.list_of_variable.len() > MAX_DEFINE_ENTRIES {
            return Err(MmsError::TooManyDefineEntries { count: self.list_of_variable.len() });
        }
        let mut inner: BytesMut = BytesMut::new();
        // variableListName CHOICE: ObjectName carries its own tag, so it needs no wrapper
        self.list_name.encode(&mut inner);
        let list: BytesMut = encode_members(&self.list_of_variable);
        put_tlv(TAG_LIST_OF_VARIABLE, &list, &mut inner);
        assert(buffer::contents(inner) =~= self@.content());
        put_tlv(SERVICE_TAG_DEFINE_NAMED_VARIABLE_LIST, &inner, buf);
        Ok(())
    }

    /// Decodes a request; `data` starts at the `0xab` byte.
    pub fn decode(data: &[u8]) -> (r: Result<Self, MmsError>)
        ensures
            ber::agrees(r, DefineRequestView::parse(data@)),
    {
        let inner: &[u8] = take_content(data, SERVICE_TAG_DEFINE_NAMED_VARIABLE_LIST)?;
        decode_request_inner(inner)
    }
}

/// Encodes one Member: a SEQUENCE holding variableSpecification.name. An alternateAccess
/// is never emitted.
fn encode_member(entry: &DefineNamedVariableEntry, buf: &mut BytesMut)
    requires
        buffer::contents(*old(buf)).len() + member_octets(entry@).len() <= isize::MAX,
    ensures
        buffer::contents(*final(buf)) == buffer::contents(*old(buf)) + member_octets(entry@),
{
    let mut member: BytesMut = BytesMut::new();
    encode_variable_specification_name(&entry.object_name(), &mut member);
    assert(buffer::contents(member) =~= ber::tlv(0xa0, entry@.octets()));
    put_tlv(TAG_SEQUENCE, &member, buf);
}

/// Encodes entries in a row.
fn encode_members(entries: &Vec<DefineNamedVariableEntry>) -> (buf: BytesMut)
    requires
        members_octets(member_views(entries@)).len() <= isize::MAX,
    ensures
        buffer::contents(buf) == members_octets(member_views(entries@)),
{
    let mut buf: BytesMut = BytesMut::new();
    let mut i: usize = 0;
    let ghost views = member_views(entries@);
    assert(views.take(0) =~= Seq::empty());
    while i < entries.len()
        invariant
            i <= entries.len(),
            views == member_views(entries@),
            members_octets(views).len() <= isize::MAX,
            buffer::contents(buf) == members_octets(views.take(i as int)),
        decreases entries.len() - i,
    {
        proof {
            assert(views.take(i + 1).drop_last() =~= views.take(i as int));
            lemma_members_prefix(views, i + 1);
        }
        encode_member(&entries[i], &mut buf);
        i = i + 1;
    }
    assert(views.take(entries@.len() as int) =~= views);
    buf
}

fn decode_request_inner(data: &[u8]) -> (r: Result<DefineNamedVariableListRequest, MmsError>)
    ensures
        ber::agrees(r, DefineRequestView::of_content(data@)),
{
    if data.len() == 0 {
        return Err(MmsError::DefineNamedVariableListMissingField("variableListName"));
    }
    // variableListName CHOICE: the ObjectName carries its own tag, 0x80, 0xa1 or 0x82
    let (list_name, consumed) = ObjectName::decode(data)?;
    if consumed >= data.len() {
        return Err(MmsError::DefineNamedVariableListMissingField("listOfVariable"));
    }
    // listOfVariable [0] IMPLICIT
    let t: Tlv = take_tagged(data, consumed, TAG_LIST_OF_VARIABLE)?;
    let entries: Vec<DefineNamedVariableEntry> = decode_member_list(t.val)?;
    if entries.len() > MAX_DEFINE_ENTRIES {
        return Err(MmsError::TooManyDefineEntries { count: entries.len() });
    }
    Ok(DefineNamedVariableListRequest { list_name, list_of_variable: entries })
}

fn decode_member_list(data: &[u8]) -> (r: Result<Vec<DefineNamedVariableEntry>, MmsError>)
    ensures
        match member_list_at(data@, Seq::empty()) {
            Ok(v) => r matches Ok(x) && member_views(x@) == v,
            Err(e) => r == Err::<Vec<DefineNamedVariableEntry>, MmsError>(e),
        },
{
    let mut entries: Vec<DefineNamedVariableEntry> = Vec::new();
    let mut pos: usize = 0;
    assert(data@.skip(0) =~= data@);
    assert(member_views(entries@) =~= Seq::empty());
    while pos < data.len()
        invariant
            pos <= data.len(),
            member_list_at(data@, Seq::empty()) == member_list_at(
                data@.skip(pos as int),
                member_views(entries@),
            ),
        decreases data.len() - pos,
    {
        let t: Tlv = take_tagged(data, pos, TAG_SEQUENCE)?;
        let entry: DefineNamedVariableEntry = decode_member(t.val)?;
        let ghost before = entries@;
        entries.push(entry);
        proof {
            assert(member_views(entries@) =~= member_views(before).push(entry@));
        }
        pos = pos + t.size;
    }
    Ok(entries)
}

fn decode_member(data: &[u8]) -> (r: Result<DefineNamedVariableEntry, MmsError>)
    ensures
        ber::agrees(r, member_at(data@)),
{
    // the first element is variableSpecification.name [0] IMPLICIT, a 0xa0 over ObjectName
    assert(data@.skip(0) =~= data@);
    let t: Tlv = take_tagged(data, 0, TAG_VAR_SPEC_NAME)?;
    let (object_name, _) = ObjectName::decode(t.val)?;
    match object_name {
        ObjectName::DomainSpecific { domain_id, item_id } => {
            // An alternateAccess [5], tag 0xa5, may follow. It is rejected rather than
            // ignored, because it means the caller needs an array or component path the
            // server would not preserve.
            if t.size < data.len() && data[t.size] == 0xa5 {
                return Err(
                    MmsError::DefineNamedVariableListMissingField(
                        "alternateAccess not supported in MVP",
                    ),
                );
            }
            Ok(DefineNamedVariableEntry { domain_id, item_id })
        },
        // vmd-specific and aa-specific entries are not supported and are rejected
        _ => Err(MmsError::DefineNamedVariableListMissingField("domain-specific entry")),
    }
}

/// An MMS DefineNamedVariableListResponse: an empty body encoded as `0xab 0x00`.
#[derive(Debug, Clone, Copy, Default, PartialEq, Eq)]
pub struct DefineNamedVariableListResponse;

/// A response carries nothing.
impl View for DefineNamedVariableListResponse {
    type V = ();

    open spec fn view(&self) -> () {
        ()
    }
}

/// The encoding of the response.
pub open spec fn response_octets() -> Seq<u8> {
    seq![0xab, 0x00]
}

/// Whether a response starts `s`: its tag and at least one more octet.
pub open spec fn response_at(s: Seq<u8>) -> Result<(), MmsError> {
    if s.len() < 2 {
        Err(MmsError::TruncatedPdu)
    } else if s[0] != SERVICE_TAG_DEFINE_NAMED_VARIABLE_LIST {
        Err(
            MmsError::InvalidTag {
                expected: SERVICE_TAG_DEFINE_NAMED_VARIABLE_LIST,
                actual: s[0],
            },
        )
    } else {
        Ok(())
    }
}

impl DefineNamedVariableListResponse {
    /// Encodes the complete response, `0xab 0x00`.
    pub fn encode(&self, buf: &mut BytesMut)
        requires
            buffer::contents(*old(buf)).len() + 2 <= isize::MAX,
        ensures
            buffer::contents(*final(buf)) == buffer::contents(*old(buf)) + response_octets(),
    {
        let body: [u8; 2] = [SERVICE_TAG_DEFINE_NAMED_VARIABLE_LIST, 0x00];
        assert(body@ =~= response_octets());
        buf.extend_from_slice(&body);
    }

    /// Decodes a response; `data` starts at the `0xab` byte.
    ///
    /// A non-empty body carries no meaning here: the tag alone signals success, and
    /// some servers append filler.
    pub fn decode(data: &[u8]) -> (r: Result<Self, MmsError>)
        ensures
            ber::agrees(r, response_at(data@)),
    {
        if data.len() < 2 {
            return Err(MmsError::TruncatedPdu);
        }
        if data[0] != SERVICE_TAG_DEFINE_NAMED_VARIABLE_LIST {
            return Err(
                MmsError::InvalidTag {
                    expected: SERVICE_TAG_DEFINE_NAMED_VARIABLE_LIST,
                    actual: data[0],
                },
            );
        }
        Ok(DefineNamedVariableListResponse)
    }
}

/// The first entries take no more octets than all of them.
proof fn lemma_members_prefix(members: Seq<ObjectNameView>, n: int)
    requires
        0 <= n <= members.len(),
    ensures
        members_octets(members.take(n)).len() <= members_octets(members).len(),
    decreases members.len(),
{
    if n < members.len() {
        lemma_members_prefix(members.drop_last(), n);
        assert(members.drop_last().take(n) =~= members.take(n));
    } else {
        assert(members.take(n) =~= members);
    }
}

/// The encodings in a row, with the first entry taken apart.
proof fn lemma_members_first(members: Seq<ObjectNameView>)
    requires
        members.len() > 0,
    ensures
        members_octets(members) == member_octets(members[0]) + members_octets(members.skip(1)),
    decreases members.len(),
{
    reveal_with_fuel(members_octets, 2);
    if members.len() == 1 {
        assert(members.drop_last() =~= Seq::empty());
        assert(members.skip(1) =~= Seq::empty());
    } else {
        lemma_members_first(members.drop_last());
        assert(members.drop_last().skip(1) =~= members.skip(1).drop_last());
    }
    assert(members_octets(members) =~= member_octets(members[0]) + members_octets(
        members.skip(1),
    ));
}

/// Entries in a row are read back in a row; each takes at most 150 octets.
proof fn lemma_member_list_round_trip(members: Seq<ObjectNameView>, acc: Seq<ObjectNameView>)
    requires
        forall|i: int|
            0 <= i < members.len() ==> (#[trigger] members[i]).within_limit()
                && members[i] is DomainSpecific,
    ensures
        member_list_at(members_octets(members), acc) == Ok::<Seq<ObjectNameView>, MmsError>(
            acc + members,
        ),
        members_octets(members).len() <= 150 * members.len(),
    decreases members.len(),
{
    if members.len() == 0 {
        assert(acc + members =~= acc);
    } else {
        let first = members[0];
        let others = members.skip(1);
        let name = first.octets();
        lemma_members_first(members);
        assert(first.within_limit() && first is DomainSpecific);
        object_name::law_object_name_round_trip(first, Seq::empty());
        assert(name + Seq::<u8>::empty() =~= name);
        ber::lemma_element_alone(0xa0, name);
        ber::law_element_round_trip(0x30, ber::tlv(0xa0, name), members_octets(others));
        assert forall|i: int| 0 <= i < others.len() implies (
        #[trigger] others[i]).within_limit() && others[i] is DomainSpecific by {
            assert(others[i] == members[i + 1]);
        }
        lemma_member_list_round_trip(others, acc.push(first));
        assert(acc.push(first) + others =~= acc + members);
    }
}

/// A readable request decodes to itself, whatever follows it.
pub proof fn law_define_request_round_trip(r: DefineRequestView, rest: Seq<u8>)
    requires
        r.readable(),
    ensures
        DefineRequestView::parse(r.octets() + rest) == Ok::<DefineRequestView, MmsError>(r),
        r.octets().len() <= 16000,
{
    let list = members_octets(r.members);
    let tail = ber::tlv(0xa0, list);
    lemma_member_list_round_trip(r.members, Seq::empty());
    assert(Seq::<ObjectNameView>::empty() + r.members =~= r.members);
    object_name::law_object_name_round_trip(r.list_name, tail);
    assert(r.content().skip(r.list_name.octets().len() as int) =~= tail);
    ber::lemma_element_alone(0xa0, list);
    ber::law_element_round_trip(SERVICE_TAG_DEFINE_NAMED_VARIABLE_LIST, r.content(), rest);
}

/// A request that decodes has at most `MAX_DEFINE_ENTRIES` entries.
pub proof fn law_define_entry_limit(s: Seq<u8>)
    ensures
        DefineRequestView::parse(s) matches Ok(r) ==> r.members.len() <= MAX_DEFINE_ENTRIES,
{
}

/// Encodes a complete ConfirmedRequestPdu, outer `0xa0` included.
///
/// More than `MAX_DEFINE_ENTRIES` entries return `MmsError::TooManyDefineEntries`; `buf`
/// then stays as it was.
pub fn encode_confirmed_define_named_variable_list_request(
    invoke_id: u32,
    req: &DefineNamedVariableListRequest,
    buf: &mut BytesMut,
) -> (r: Result<(), MmsError>)
    requires
        buffer::contents(*old(buf)).len() + confirmed::confirmed_octets(
            0xa0,
            invoke_id,
            req@.octets(),
        ).len() <= isize::MAX,
    ensures
        if req.list_of_variable.len() > MAX_DEFINE_ENTRIES {
            &&& r == Err::<(), MmsError>(
                MmsError::TooManyDefineEntries { count: req.list_of_variable.len() },
            )
            &&& buffer::contents(*final(buf)) == buffer::contents(*old(buf))
        } else {
            &&& r is Ok
            &&& buffer::contents(*final(buf)) == buffer::contents(*old(buf))
                + confirmed::confirmed_octets(0xa0, invoke_id, req@.octets())
        },
{
    let mut service: BytesMut = BytesMut::new();
    req.encode(&mut service)?;
    assert(buffer::contents(service) =~= req@.octets());
    put_confirmed(0xa0, invoke_id, &service, buf);
    Ok(())
}

/// Encodes a complete ConfirmedResponsePdu, outer `0xa1` included.
pub fn encode_confirmed_define_named_variable_list_response(
    invoke_id: u32,
    resp: &DefineNamedVariableListResponse,
    buf: &mut BytesMut,
)
    requires
        buffer::contents(*old(buf)).len() + confirmed::confirmed_octets(
            0xa1,
            invoke_id,
            response_octets(),
        ).len() <= isize::MAX,
    ensures
        buffer::contents(*final(buf)) == buffer::contents(*old(buf)) + confirmed::confirmed_octets(
            0xa1,
            invoke_id,
            response_octets(),
        ),
{
    let mut service: BytesMut = BytesMut::new();
    resp.encode(&mut service);
    assert(buffer::contents(service) =~= response_octets());
    put_confirmed(0xa1, invoke_id, &service, buf);
}

/// Decodes the request inside a ConfirmedRequestPdu; `data` starts at `0xa0`.
pub fn decode_confirmed_define_named_variable_list_request(data: &[u8]) -> (r: Result<
    (u32, DefineNamedVariableListRequest),
    MmsError,
>)
    ensures
        confirmed::agrees_with_id(
            r,
            confirmed::service_at(data@, 0xa0, |s: Seq<u8>| DefineRequestView::parse(s)),
        ),
{
    let (invoke_id, service) = decode_confirmed_pdu_inner(data, 0xa0)?;
    let req: DefineNamedVariableListRequest = DefineNamedVariableListRequest::decode(service)?;
    Ok((invoke_id, req))
}

/// Decodes the response inside a ConfirmedResponsePdu; `data` starts at `0xa1`.
pub fn decode_confirmed_define_named_variable_list_response(data: &[u8]) -> (r: Result<
    (u32, DefineNamedVariableListResponse),
    MmsError,
>)
    ensures
        confirmed::agrees_with_id(
            r,
            confirmed::service_at(data@, 0xa1, |s: Seq<u8>| response_at(s)),
        ),
{
    let (invoke_id, service) = decode_confirmed_pdu_inner(data, 0xa1)?;
    let resp: DefineNamedVariableListResponse = DefineNamedVariableListResponse::decode(service)?;
    Ok((invoke_id, resp))
}

/// A confirmed request gives back its invoke id and its request, whatever follows it.
pub proof fn law_confirmed_define_request(invoke_id: u32, r: DefineRequestView, rest: Seq<u8>)
    requires
        invoke_id < 0x8000_0000,
        r.readable(),
    ensures
        confirmed::service_at(
            confirmed::confirmed_octets(0xa0, invoke_id, r.octets()) + rest,
            0xa0,
            |s: Seq<u8>| DefineRequestView::parse(s),
        ) == Ok::<(u32, DefineRequestView), MmsError>((invoke_id, r)),
{
    law_define_request_round_trip(r, Seq::empty());
    integer::law_unsigned_round_trip(invoke_id as u64);
    assert(r.octets() + Seq::<u8>::empty() =~= r.octets());
    confirmed::lemma_service_round_trip(
        0xa0,
        invoke_id,
        r.octets(),
        rest,
        |s: Seq<u8>| DefineRequestView::parse(s),
        r,
    );
}

/// A confirmed response gives back its invoke id, whatever follows it.
pub proof fn law_confirmed_define_response(invoke_id: u32, rest: Seq<u8>)
    requires
        invoke_id < 0x8000_0000,
    ensures
        confirmed::service_at(
            confirmed::confirmed_octets(0xa1, invoke_id, response_octets()) + rest,
            0xa1,
            |s: Seq<u8>| response_at(s),
        ) == Ok::<(u32, ()), MmsError>((invoke_id, ())),
{
    integer::law_unsigned_round_trip(invoke_id as u64);
    confirmed::lemma_service_round_trip(
        0xa1,
        invoke_id,
        response_octets(),
        rest,
        |s: Seq<u8>| response_at(s),
        (),
    );
}

} // verus!
