//! MMS ReadJournal request and response PDUs.
//!
//! ## Wire format
//!
//! ### Request
//!
//! ```text
//! 0xa0 <len>                   -- ConfirmedRequestPdu [0]
//!   0x02 <len> <id>            -- invokeID INTEGER
//!   0xbf 0x41 <len>            -- readJournal [65] IMPLICIT SEQUENCE  (long-form context tag)
//!     0xa0 <len>               -- journalName [0] EXPLICIT
//!       0xa1 <len>             -- domain-specific [1] IMPLICIT
//!         0x1a <len> <bytes>   -- domainId VisibleString
//!         0x1a <len> <bytes>   -- itemId VisibleString
//!     -- form A, a time range:
//!     0xa1 <len>               -- rangeStartSpec [1] EXPLICIT
//!       0x80 <len> <BinaryTime> -- startingTime
//!     0xa2 <len>               -- rangeStopSpec  [2] EXPLICIT
//!       0x80 <len> <BinaryTime> -- endingTime
//!     -- or form B, starting after an entry:
//!     0xa5 <len>               -- entryToStartAfter [5] EXPLICIT
//!       0x80 <len> <BinaryTime> -- timeSpecification
//!       0x81 <len> <bytes>      -- entrySpecification OCTET STRING (8 bytes)
//! ```
//!
//! ### Response
//!
//! ```text
//! 0xa1 <len>                   -- ConfirmedResponsePdu [1]
//!   0x02 <len> <id>            -- invokeID
//!   0xbf 0x41 <len>            -- readJournalResponse [65] IMPLICIT SEQUENCE
//!     0xa0 <len>               -- listOfJournalEntry [0] IMPLICIT SEQUENCE OF
//!       0x30 <len>             -- JournalEntry SEQUENCE, repeated
//!         0x80 8 <8-byte ID>   -- entryID OCTET STRING(8)
//!         0xa1 0x02 0x30 0x00  -- originatingApplication, a fixed empty SEQUENCE
//!         0xa2 <len>           -- entryContent [2] EXPLICIT
//!           0x80 6 <BinaryTime6> -- occurenceTime
//!           0xa2 <len>             -- journalVariables [2] EXPLICIT
//!             0xa1 <len>           -- listOfVariables [1] EXPLICIT SEQUENCE OF
//!               0x30 <len>         -- variable SEQUENCE; each data point takes
//!                                     -- two, one for the value and one for its reason code
//!                 0x80 <len> <utf8> -- dataRef tag (OCTET STRING UTF-8)
//!                 0xa1 <len> <Data> -- valueSpec [1] EXPLICIT, inner = MmsData wire
//!     0x81 1 0x00|0xff         -- moreFollows BOOLEAN  (OPTIONAL)
//! ```
//!
//! ## Interoperability notes
//!
//! - `originatingApplication` is always the four bytes `[0xa1, 0x02, 0x30, 0x00]`,
//!   a `[1]` wrapper around an empty SEQUENCE, emitted as a fixed constant rather
//!   than derived from the association.
//! - The long-form tag `0xbf 0x41` is a context-class constructed identifier whose
//!   five tag-number bits are all ones, 11111, which is what selects the long form;
//!   the tag number continues in the next byte, 0x41, that is 65. One continuation
//!   byte suffices because 65 is below 128.

use bytes::BytesMut;
use vstd::prelude::*;

use crate::asn1;
use crate::asn1::{decode_length, encode_length, MAX_DATA_NESTING_DEPTH};
use crate::buffer;
use crate::mms::binary_time;
use crate::mms::binary_time::{
    binary_time6_from_epoch_ms,
    epoch_ms_from_binary_time6,
    EPOCH_1984_MS,
    MAX_BINARY_TIME6_MS,
};
use crate::mms::error;
use crate::mms::error::MmsError;
use crate::mms::pdu::ber;
use crate::mms::pdu::ber::{put_tlv, take_content, take_element, Tlv};
use crate::mms::pdu::confirmed;
use crate::mms::pdu::confirmed::put_confirmed;
use crate::mms::pdu::data;
use crate::mms::pdu::data::{MmsData, MmsDataView};
use crate::mms::pdu::integer;
use crate::mms::pdu::integer::decode_u32_from_bytes;
use crate::mms::pdu::object_name;
use crate::mms::pdu::object_name::put_domain_name;
use crate::text;

verus! {

broadcast use ber::group_element_sizes;

/// Long-form tag of ReadJournal inside the ConfirmedService CHOICE.
///
/// `0xbf 0x41` is `[65] IMPLICIT SEQUENCE`, context class and constructed.
pub const SERVICE_TAG_READ_JOURNAL: [u8; 2] = [0xbf, 0x41];

/// Upper bound on the length of each journalName part, in bytes.
pub const MAX_JOURNAL_ID_LEN: usize = 64;

/// Size of an EntryID on the wire: exactly 8 bytes.
pub const ENTRY_ID_SIZE: usize = 8;

/// The fixed wire bytes of `originatingApplication`.
pub const ORIGINATING_APPLICATION_FIXED: [u8; 4] = [0xa1, 0x02, 0x30, 0x00];

/// The query range CHOICE of a ReadJournal request.
#[derive(Debug, Clone, Copy, PartialEq, Eq)]
pub enum JournalRange {
    /// Form A: a time range, rangeStartSpec through rangeStopSpec.
    TimeRange {
        /// Start of the range, in epoch milliseconds.
        start_ms: u64,
        /// End of the range, in epoch milliseconds.
        end_ms: u64,
    },
    /// Form B: everything after a given entry, entryToStartAfter.
    StartAfter {
        /// Timestamp to resume from, in epoch milliseconds.
        starting_time_ms: u64,
        /// EntryID, 8 bytes big-endian.
        entry_id: [u8; 8],
    },
}

/// An MMS ReadJournalRequest.
#[derive(Debug, Clone, PartialEq, Eq)]
pub struct ReadJournalRequest {
    /// journalName.domain-specific.domainId, a VisibleString.
    pub domain_id: String,
    /// journalName.domain-specific.itemId, a VisibleString.
    pub item_id: String,
    /// The query range.
    pub range: JournalRange,
}

/// A query range with its entry id as octets.
#[verifier::ext_equal]
pub enum JournalRangeView {
    /// A time range.
    TimeRange {
        /// Start of the range.
        start_ms: u64,
        /// End of the range.
        end_ms: u64,
    },
    /// Everything after a given entry.
    StartAfter {
        /// Timestamp to resume from.
        starting_time_ms: u64,
        /// The entry id.
        entry_id: Seq<u8>,
    },
}

/// A request with its names as texts.
#[verifier::ext_equal]
pub struct JournalRequestView {
    /// Domain that holds the journal.
    pub domain_id: Seq<char>,
    /// Name of the journal.
    pub item_id: Seq<char>,
    /// The query range.
    pub range: JournalRangeView,
}

impl View for JournalRange {
    type V = JournalRangeView;

    open spec fn view(&self) -> JournalRangeView {
        match *self {
            JournalRange::TimeRange { start_ms, end_ms } => JournalRangeView::TimeRange {
                start_ms,
                end_ms,
            },
            JournalRange::StartAfter {
                starting_time_ms,
                entry_id,
            } => JournalRangeView::StartAfter { starting_time_ms, entry_id: entry_id@ },
        }
    }
}

impl View for ReadJournalRequest {
    type V = JournalRequestView;

    open spec fn view(&self) -> JournalRequestView {
        JournalRequestView {
            domain_id: self.domain_id@,
            item_id: self.item_id@,
            range: self.range@,
        }
    }
}

/// The encoding of a service element, under the two octets of its tag.
pub open spec fn journal_tlv(val: Seq<u8>) -> Seq<u8> {
    seq![0xbfu8, 0x41u8] + asn1::length_octets(val.len()) + val
}

/// The content of the service element at the start of `s`.
pub open spec fn journal_content_at(s: Seq<u8>) -> Result<Seq<u8>, MmsError> {
    if s.len() < 2 {
        Err(MmsError::TruncatedPdu)
    } else if s[0] != 0xbf || s[1] != 0x41 {
        Err(MmsError::InvalidTag { expected: 0xbf, actual: s[0] })
    } else {
        match asn1::length_at(s.skip(2)) {
            Err(e) => Err(error::length_error(e)),
            Ok((len, taken)) => if 2 + taken + len > s.len() {
                Err(MmsError::TruncatedPdu)
            } else {
                Ok(s.subrange((2 + taken) as int, (2 + taken + len) as int))
            },
        }
    }
}

/// A VisibleString of at most 64 bytes at the start of `s` that ends within `end` octets,
/// and how many octets it takes.
pub open spec fn visible_string_at(s: Seq<u8>, end: int) -> Result<(Seq<char>, nat), MmsError> {
    if end <= 0 || s[0] != 0x1a {
        Err(MmsError::TruncatedPdu)
    } else {
        match asn1::length_at(s.skip(1)) {
            Err(e) => Err(error::length_error(e)),
            Ok((len, taken)) => if 1 + taken + len > end {
                Err(MmsError::TruncatedPdu)
            } else if len > MAX_JOURNAL_ID_LEN {
                Err(MmsError::IdentifierTooLong { actual: len as usize })
            } else {
                match text::text_at(s.subrange((1 + taken) as int, (1 + taken + len) as int)) {
                    None => Err(MmsError::InvalidPdu),
                    Some(t) => Ok((t, 1 + taken + len)),
                }
            },
        }
    }
}

/// A domain-specific journal name: the domain, then the item, each of at most 64 bytes, both
/// within the wrapper that starts `s`.
pub open spec fn journal_name_at(s: Seq<u8>) -> Result<(Seq<char>, Seq<char>), MmsError> {
    if s.len() == 0 || s[0] != 0xa1 {
        Err(MmsError::TruncatedPdu)
    } else {
        match ber::element_at(s) {
            Err(e) => Err(e),
            Ok(e) => {
                let start = e.size - e.val.len();
                match visible_string_at(s.skip(start), e.val.len() as int) {
                    Err(x) => Err(x),
                    Ok((domain, n)) => match visible_string_at(
                        s.skip(start + n),
                        e.val.len() - n,
                    ) {
                        Err(x) => Err(x),
                        Ok((item, _)) => Ok((domain, item)),
                    },
                }
            },
        }
    }
}

/// An instant in its six-octet form, or in its four-octet form as an offset from the
/// midnight of 1970-01-01.
pub open spec fn instant_at(s: Seq<u8>) -> Result<u64, MmsError> {
    if s.len() == 6 {
        Ok(binary_time::time6_at(s) as u64)
    } else if s.len() == 4 {
        Ok(asn1::uint(s) as u64)
    } else {
        Err(MmsError::InvalidLength)
    }
}

/// The instant of a range bound, under tag `0x80`.
pub open spec fn bound_at(s: Seq<u8>) -> Result<u64, MmsError> {
    if s.len() == 0 || s[0] != 0x80 {
        Err(MmsError::TruncatedPdu)
    } else {
        match ber::element_at(s) {
            Err(e) => Err(e),
            Ok(e) => instant_at(e.val),
        }
    }
}

/// What has been read of an entryToStartAfter: the instant and the entry id.
pub type AfterFields = (Option<u64>, Option<Seq<u8>>);

/// One field of an entryToStartAfter; a later field replaces an earlier one, and others
/// are skipped.
pub open spec fn after_field(acc: AfterFields, tag: u8, val: Seq<u8>) -> Result<
    AfterFields,
    MmsError,
> {
    if tag == 0x80 {
        match instant_at(val) {
            Err(e) => Err(e),
            Ok(t) => Ok((Some(t), acc.1)),
        }
    } else if tag == 0x81 {
        if val.len() != ENTRY_ID_SIZE {
            Err(MmsError::InvalidLength)
        } else {
            Ok((acc.0, Some(val)))
        }
    } else {
        Ok(acc)
    }
}

/// `after_field` as a step over the elements.
pub open spec fn after_fields() -> spec_fn(AfterFields, u8, Seq<u8>) -> Result<
    AfterFields,
    MmsError,
> {
    |acc: AfterFields, tag: u8, val: Seq<u8>| after_field(acc, tag, val)
}

/// The content of an entryToStartAfter: both fields must be there.
pub open spec fn after_at(s: Seq<u8>) -> Result<JournalRangeView, MmsError> {
    match ber::fold(s, (None, None), after_fields()) {
        Err(e) => Err(e),
        Ok((Some(starting_time_ms), Some(entry_id))) => Ok(
            JournalRangeView::StartAfter { starting_time_ms, entry_id },
        ),
        Ok(_) => Err(MmsError::TruncatedPdu),
    }
}

/// What has been read of a request.
#[verifier::ext_equal]
pub struct JournalFields {
    /// The domain and the item.
    pub name: Option<(Seq<char>, Seq<char>)>,
    /// rangeStartSpec.
    pub start: Option<u64>,
    /// rangeStopSpec.
    pub stop: Option<u64>,
    /// entryToStartAfter.
    pub after: Option<JournalRangeView>,
}

/// One field of a request; a later field replaces an earlier one, and others are skipped.
pub open spec fn journal_field(acc: JournalFields, tag: u8, val: Seq<u8>) -> Result<
    JournalFields,
    MmsError,
> {
    if tag == 0xa0 {
        match journal_name_at(val) {
            Err(e) => Err(e),
            Ok(name) => Ok(JournalFields { name: Some(name), ..acc }),
        }
    } else if tag == 0xa1 {
        match bound_at(val) {
            Err(e) => Err(e),
            Ok(t) => Ok(JournalFields { start: Some(t), ..acc }),
        }
    } else if tag == 0xa2 {
        match bound_at(val) {
            Err(e) => Err(e),
            Ok(t) => Ok(JournalFields { stop: Some(t), ..acc }),
        }
    } else if tag == 0xa5 {
        match after_at(val) {
            Err(e) => Err(e),
            Ok(range) => Ok(JournalFields { after: Some(range), ..acc }),
        }
    } else {
        Ok(acc)
    }
}

/// `journal_field` as a step over the elements.
pub open spec fn journal_fields() -> spec_fn(JournalFields, u8, Seq<u8>) -> Result<
    JournalFields,
    MmsError,
> {
    |acc: JournalFields, tag: u8, val: Seq<u8>| journal_field(acc, tag, val)
}

impl JournalRangeView {
    /// The encoding of the range.
    pub open spec fn octets(self) -> Seq<u8> {
        match self {
            JournalRangeView::TimeRange { start_ms, end_ms } => ber::tlv(
                0xa1,
                ber::tlv(0x80, binary_time::time6_octets(start_ms)),
            ) + ber::tlv(0xa2, ber::tlv(0x80, binary_time::time6_octets(end_ms))),
            JournalRangeView::StartAfter { starting_time_ms, entry_id } => ber::tlv(
                0xa5,
                ber::tlv(0x80, binary_time::time6_octets(starting_time_ms)) + ber::tlv(
                    0x81,
                    entry_id,
                ),
            ),
        }
    }

    /// Every instant can be expressed on the wire, and the entry id has its length.
    pub open spec fn readable(self) -> bool {
        match self {
            JournalRangeView::TimeRange { start_ms, end_ms } => expressible(start_ms)
                && expressible(end_ms),
            JournalRangeView::StartAfter { starting_time_ms, entry_id } => expressible(
                starting_time_ms,
            ) && entry_id.len() == ENTRY_ID_SIZE,
        }
    }
}

/// The six-octet form can express the instant.
pub open spec fn expressible(epoch_ms: u64) -> bool {
    EPOCH_1984_MS <= epoch_ms <= MAX_BINARY_TIME6_MS
}

impl JournalRequestView {
    /// Nothing has been read.
    pub open spec fn no_fields() -> JournalFields {
        JournalFields { name: None, start: None, stop: None, after: None }
    }

    /// The request that fields make: the name, and one of the two forms of the range.
    pub open spec fn of_fields(f: JournalFields) -> Result<JournalRequestView, MmsError> {
        match f.name {
            None => Err(MmsError::TruncatedPdu),
            Some((domain_id, item_id)) => match (f.start, f.stop, f.after) {
                (Some(start_ms), Some(end_ms), None) => Ok(
                    JournalRequestView {
                        domain_id,
                        item_id,
                        range: JournalRangeView::TimeRange { start_ms, end_ms },
                    },
                ),
                (None, None, Some(range)) => Ok(JournalRequestView { domain_id, item_id, range }),
                _ => Err(MmsError::TruncatedPdu),
            },
        }
    }

    /// The content of the service: the name, then the range.
    pub open spec fn content(self) -> Seq<u8> {
        ber::tlv(
            0xa0,
            object_name::domain_name_octets(text::utf8(self.domain_id), text::utf8(self.item_id)),
        ) + self.range.octets()
    }

    /// The encoding of the service.
    pub open spec fn octets(self) -> Seq<u8> {
        journal_tlv(self.content())
    }

    /// The request with this content.
    pub open spec fn of_content(s: Seq<u8>) -> Result<JournalRequestView, MmsError> {
        match ber::fold(s, JournalRequestView::no_fields(), journal_fields()) {
            Err(e) => Err(e),
            Ok(f) => JournalRequestView::of_fields(f),
        }
    }

    /// The request at the start of `s`.
    pub open spec fn parse(s: Seq<u8>) -> Result<JournalRequestView, MmsError> {
        match journal_content_at(s) {
            Err(e) => Err(e),
            Ok(val) => JournalRequestView::of_content(val),
        }
    }

    /// The names are at most 64 bytes long, and the range can be read back.
    pub open spec fn readable(self) -> bool {
        &&& text::utf8(self.domain_id).len() <= MAX_JOURNAL_ID_LEN
        &&& text::utf8(self.item_id).len() <= MAX_JOURNAL_ID_LEN
        &&& self.range.readable()
    }
}

impl ReadJournalRequest {
    /// Builds a request covering a time range.
    pub fn time_range(domain_id: &str, item_id: &str, start_ms: u64, end_ms: u64) -> (r: Self)
        ensures
            r@ == (JournalRequestView {
                domain_id: domain_id@,
                item_id: item_id@,
                range: JournalRangeView::TimeRange { start_ms, end_ms },
            }),
    {
        ReadJournalRequest {
            domain_id: domain_id.to_owned(),
            item_id: item_id.to_owned(),
            range: JournalRange::TimeRange { start_ms, end_ms },
        }
    }

    /// Builds a request starting after a given entry.
    pub fn start_after(
        domain_id: &str,
        item_id: &str,
        starting_time_ms: u64,
        entry_id: [u8; 8],
    ) -> (r: Self)
        ensures
            r@ == (JournalRequestView {
                domain_id: domain_id@,
                item_id: item_id@,
                range: JournalRangeView::StartAfter { starting_time_ms, entry_id: entry_id@ },
            }),
    {
        ReadJournalRequest {
            domain_id: domain_id.to_owned(),
            item_id: item_id.to_owned(),
            range: JournalRange::StartAfter { starting_time_ms, entry_id },
        }
    }

    /// Encodes the request, including the `0xbf 0x41 <len>` service wrapper.
    ///
    /// The caller adds the ConfirmedRequestPdu invokeID and its outer `0xa0` wrapper.
    pub fn encode(&self, buf: &mut BytesMut)
        requires
            buffer::contents(*old(buf)).len() + self@.octets().len() <= isize::MAX,
        ensures
            buffer::contents(*final(buf)) == buffer::contents(*old(buf)) + self@.octets(),
    {
        let mut inner: BytesMut = BytesMut::new();
        encode_journal_name(&self.domain_id, &self.item_id, &mut inner);
        proof {
            lemma_time6_len();
        }
        match &self.range {
            JournalRange::TimeRange { start_ms, end_ms } => {
                encode_time_range_spec(0xa1, *start_ms, &mut inner);
                encode_time_range_spec(0xa2, *end_ms, &mut inner);
            },
            JournalRange::StartAfter { starting_time_ms, entry_id } => {
                encode_entry_to_start_after(*starting_time_ms, entry_id, &mut inner);
            },
        }
        assert(buffer::contents(inner) =~= self@.content());
        put_journal(&inner, buf);
    }

    /// Decodes a request; `data` starts at the `0xbf` byte.
    pub fn decode(data: &[u8]) -> (r: Result<Self, MmsError>)
        ensures
            ber::agrees(r, JournalRequestView::parse(data@)),
    {
        let inner: &[u8] = check_service_tag_and_take(data)?;
        decode_request_inner(inner)
    }
}

/// The six-octet form has six octets.
proof fn lemma_time6_len()
    ensures
        forall|ms: u64| (#[trigger] binary_time::time6_octets(ms)).len() == 6,
{
    assert forall|ms: u64| (#[trigger] binary_time::time6_octets(ms)).len() == 6 by {
        binary_time::law_binary_time_round_trip(ms);
    }
}

/// Writes a service element under the two octets of its tag.
fn put_journal(inner: &[u8], buf: &mut BytesMut)
    requires
        buffer::contents(*old(buf)).len() + journal_tlv(inner@).len() <= isize::MAX,
    ensures
        buffer::contents(*final(buf)) == buffer::contents(*old(buf)) + journal_tlv(inner@),
{
    buf.extend_from_slice(&SERVICE_TAG_READ_JOURNAL);
    encode_length(inner.len(), buf);
    buf.extend_from_slice(inner);
    assert(buffer::contents(*buf) =~= buffer::contents(*old(buf)) + journal_tlv(inner@));
}

fn encode_journal_name(domain_id: &str, item_id: &str, buf: &mut BytesMut)
    requires
        buffer::contents(*old(buf)).len() + ber::tlv(
            0xa0,
            object_name::domain_name_octets(text::utf8(domain_id@), text::utf8(item_id@)),
        ).len() <= isize::MAX,
    ensures
        buffer::contents(*final(buf)) == buffer::contents(*old(buf)) + ber::tlv(
            0xa0,
            object_name::domain_name_octets(text::utf8(domain_id@), text::utf8(item_id@)),
        ),
{
    let mut name: BytesMut = BytesMut::new();
    put_domain_name(domain_id.as_bytes(), item_id.as_bytes(), &mut name);
    assert(buffer::contents(name) =~= object_name::domain_name_octets(
        text::utf8(domain_id@),
        text::utf8(item_id@),
    ));
    put_tlv(0xa0, &name, buf);
}

/// Writes an instant in its six-octet form, under tag `0x80`.
fn put_instant(time_ms: u64, buf: &mut BytesMut)
    requires
        buffer::contents(*old(buf)).len() + 8 <= isize::MAX,
    ensures
        buffer::contents(*final(buf)) == buffer::contents(*old(buf)) + ber::tlv(
            0x80,
            binary_time::time6_octets(time_ms),
        ),
{
    let octets: [u8; 6] = binary_time6_from_epoch_ms(time_ms);
    put_tlv(0x80, &octets, buf);
}

fn encode_time_range_spec(outer_tag: u8, time_ms: u64, buf: &mut BytesMut)
    requires
        buffer::contents(*old(buf)).len() + 10 <= isize::MAX,
    ensures
        buffer::contents(*final(buf)) == buffer::contents(*old(buf)) + ber::tlv(
            outer_tag,
            ber::tlv(0x80, binary_time::time6_octets(time_ms)),
        ),
{
    proof {
        lemma_time6_len();
    }
    let mut inner: BytesMut = BytesMut::new();
    put_instant(time_ms, &mut inner);
    assert(buffer::contents(inner) =~= ber::tlv(0x80, binary_time::time6_octets(time_ms)));
    put_tlv(outer_tag, &inner, buf);
}

fn encode_entry_to_start_after(starting_time_ms: u64, entry_id: &[u8; 8], buf: &mut BytesMut)
    requires
        buffer::contents(*old(buf)).len() + 20 <= isize::MAX,
    ensures
        buffer::contents(*final(buf)) == buffer::contents(*old(buf)) + ber::tlv(
            0xa5,
            ber::tlv(0x80, binary_time::time6_octets(starting_time_ms)) + ber::tlv(
                0x81,
                entry_id@,
            ),
        ),
{
    proof {
        lemma_time6_len();
    }
    let mut inner: BytesMut = BytesMut::new();
    put_instant(starting_time_ms, &mut inner);
    put_tlv(0x81, entry_id, &mut inner);
    assert(buffer::contents(inner) =~= ber::tlv(
        0x80,
        binary_time::time6_octets(starting_time_ms),
    ) + ber::tlv(0x81, entry_id@));
    put_tlv(0xa5, &inner, buf);
}

fn check_service_tag_and_take<'a>(data: &'a [u8]) -> (r: Result<&'a [u8], MmsError>)
    ensures
        match journal_content_at(data@) {
            Ok(val) => r matches Ok(x) && x@ == val,
            Err(e) => r == Err::<&'a [u8], MmsError>(e),
        },
{
    if data.len() < 2 {
        return Err(MmsError::TruncatedPdu);
    }
    if data[0] != 0xbf || data[1] != 0x41 {
        return Err(MmsError::InvalidTag { expected: 0xbf, actual: data[0] });
    }
    let tail: &[u8] = &data[2..data.len()];
    assert(tail@ =~= data@.skip(2));
    match decode_length(tail) {
        Err(e) => Err(MmsError::from(e)),
        Ok((len, taken)) => {
            let start: usize = 2 + taken;
            if len > data.len() - start {
                return Err(MmsError::TruncatedPdu);
            }
            let inner: &'a [u8] = &data[start..start + len];
            assert(inner@ =~= data@.subrange(2 + taken, 2 + taken + len));
            Ok(inner)
        },
    }
}

/// The fields of a request as they are read.
struct RequestFields {
    name: Option<(String, String)>,
    start: Option<u64>,
    stop: Option<u64>,
    after: Option<JournalRange>,
}

impl View for RequestFields {
    type V = JournalFields;

    closed spec fn view(&self) -> JournalFields {
        JournalFields {
            name: match self.name {
                Some((d, i)) => Some((d@, i@)),
                None => None,
            },
            start: self.start,
            stop: self.stop,
            after: match self.after {
                Some(range) => Some(range@),
                None => None,
            },
        }
    }
}

fn decode_request_inner(data: &[u8]) -> (r: Result<ReadJournalRequest, MmsError>)
    ensures
        ber::agrees(r, JournalRequestView::of_content(data@)),
{
    let mut f = RequestFields { name: None, start: None, stop: None, after: None };
    let mut pos: usize = 0;
    let ghost steps = journal_fields();
    assert(data@.skip(0) =~= data@);
    while pos < data.len()
        invariant
            pos <= data.len(),
            steps == journal_fields(),
            ber::fold(data@, JournalRequestView::no_fields(), steps) == ber::fold(
                data@.skip(pos as int),
                f@,
                steps,
            ),
        decreases data.len() - pos,
    {
        let t: Tlv = take_element(data, pos)?;
        assert(steps(f@, t.tag, t.val@) == journal_field(f@, t.tag, t.val@));
        match t.tag {
            0xa0 => {
                let name: (String, String) = decode_journal_name(t.val)?;
                f.name = Some(name);
            },
            0xa1 => {
                f.start = Some(decode_time_range_spec(t.val)?);
            },
            0xa2 => {
                f.stop = Some(decode_time_range_spec(t.val)?);
            },
            0xa5 => {
                let range: JournalRange = decode_entry_to_start_after(t.val)?;
                f.after = Some(range);
            },
            _ => {},
        }
        pos = pos + t.size;
    }
    match f.name {
        None => Err(MmsError::TruncatedPdu),
        Some((domain_id, item_id)) => match (f.start, f.stop, f.after) {
            (Some(start_ms), Some(end_ms), None) => Ok(
                ReadJournalRequest {
                    domain_id,
                    item_id,
                    range: JournalRange::TimeRange { start_ms, end_ms },
                },
            ),
            (None, None, Some(range)) => Ok(ReadJournalRequest { domain_id, item_id, range }),
            _ => Err(MmsError::TruncatedPdu),
        },
    }
}

fn decode_journal_name(data: &[u8]) -> (r: Result<(String, String), MmsError>)
    ensures
        match journal_name_at(data@) {
            Ok((d, i)) => r matches Ok((x, y)) && x@ == d && y@ == i,
            Err(e) => r == Err::<(String, String), MmsError>(e),
        },
{
    // the content must start with 0xa1, the domain-specific alternative
    if data.len() == 0 || data[0] != 0xa1 {
        return Err(MmsError::TruncatedPdu);
    }
    assert(data@.skip(0) =~= data@);
    let t: Tlv = take_element(data, 0)?;
    let start: usize = t.size - t.val.len();
    let (domain_id, used) = decode_visible_string_field(data, start, t.size)?;
    let (item_id, _) = decode_visible_string_field(data, start + used, t.size)?;
    Ok((domain_id, item_id))
}

/// Decodes a VisibleString of at most 64 bytes at `pos` of `data` that must end by `end`.
/// Returns it with the number of bytes it takes.
fn decode_visible_string_field(data: &[u8], pos: usize, end: usize) -> (r: Result<
    (String, usize),
    MmsError,
>)
    requires
        pos <= end <= data.len(),
    ensures
        match visible_string_at(data@.skip(pos as int), end - pos) {
            Ok((t, n)) => r matches Ok((x, m)) && x@ == t && m == n && pos + m <= end,
            Err(e) => r == Err::<(String, usize), MmsError>(e),
        },
{
    let ghost s = data@.skip(pos as int);
    if pos >= end || data[pos] != 0x1a {
        return Err(MmsError::TruncatedPdu);
    }
    let tail: &[u8] = &data[pos + 1..data.len()];
    assert(tail@ =~= s.skip(1));
    match decode_length(tail) {
        Err(e) => Err(MmsError::from(e)),
        Ok((len, taken)) => {
            let start: usize = pos + 1 + taken;
            if start > end || len > end - start {
                return Err(MmsError::TruncatedPdu);
            }
            if len > MAX_JOURNAL_ID_LEN {
                return Err(MmsError::IdentifierTooLong { actual: len });
            }
            let val: &[u8] = &data[start..start + len];
            assert(val@ =~= s.subrange(1 + taken, 1 + taken + len));
            match text::decode_text(val) {
                None => Err(MmsError::InvalidPdu),
                Some(t) => Ok((t, 1 + taken + len)),
            }
        },
    }
}

fn decode_time_range_spec(val: &[u8]) -> (r: Result<u64, MmsError>)
    ensures
        r == bound_at(val@),
{
    // val = 0x80 <len> <BinaryTime>
    if val.len() == 0 || val[0] != 0x80 {
        return Err(MmsError::TruncatedPdu);
    }
    assert(val@.skip(0) =~= val@);
    let t: Tlv = take_element(val, 0)?;
    decode_binary_time_to_ms(t.val)
}

/// Copies eight octets.
fn octets8(v: &[u8]) -> (r: [u8; 8])
    requires
        v.len() == 8,
    ensures
        r@ == v@,
{
    let r: [u8; 8] = [v[0], v[1], v[2], v[3], v[4], v[5], v[6], v[7]];
    assert(r@ =~= v@);
    r
}

spec fn opt_octets(v: Option<[u8; 8]>) -> Option<Seq<u8>> {
    match v {
        Some(a) => Some(a@),
        None => None,
    }
}

fn decode_entry_to_start_after(val: &[u8]) -> (r: Result<JournalRange, MmsError>)
    ensures
        ber::agrees(r, after_at(val@)),
{
    let mut p: usize = 0;
    let mut starting_time_ms: Option<u64> = None;
    let mut entry_id: Option<[u8; 8]> = None;
    let ghost steps = after_fields();
    assert(val@.skip(0) =~= val@);
    while p < val.len()
        invariant
            p <= val.len(),
            steps == after_fields(),
            ber::fold(val@, (None, None), steps) == ber::fold(
                val@.skip(p as int),
                (starting_time_ms, opt_octets(entry_id)),
                steps,
            ),
        decreases val.len() - p,
    {
        let t: Tlv = take_element(val, p)?;
        let ghost acc: AfterFields = (starting_time_ms, opt_octets(entry_id));
        assert(steps(acc, t.tag, t.val@) == after_field(acc, t.tag, t.val@));
        match t.tag {
            0x80 => {
                starting_time_ms = Some(decode_binary_time_to_ms(t.val)?);
            },
            0x81 => {
                if t.val.len() != ENTRY_ID_SIZE {
                    return Err(MmsError::InvalidLength);
                }
                entry_id = Some(octets8(t.val));
            },
            _ => {},
        }
        p = p + t.size;
    }
    match (starting_time_ms, entry_id) {
        (Some(starting_time_ms), Some(entry_id)) => Ok(
            JournalRange::StartAfter { starting_time_ms, entry_id },
        ),
        _ => Err(MmsError::TruncatedPdu),
    }
}

fn decode_binary_time_to_ms(b: &[u8]) -> (r: Result<u64, MmsError>)
    ensures
        r == instant_at(b@),
{
    if b.len() == 6 {
        let a: [u8; 6] = [b[0], b[1], b[2], b[3], b[4], b[5]];
        assert(a@ =~= b@);
        Ok(epoch_ms_from_binary_time6(a))
    } else if b.len() == 4 {
        // BinaryTime4 carries only milliseconds within the day, with no date, so
        // the value is taken as an offset from midnight on 1970-01-01.
        let ms_of_day: u32 = decode_u32_from_bytes(b)?;
        Ok(ms_of_day as u64)
    } else {
        Err(MmsError::InvalidLength)
    }
}

/// One data point of a journal entry.
#[derive(Debug, Clone, PartialEq)]
pub struct WireJournalVariable {
    /// dataRef, a UTF-8 string.
    pub data_ref: String,
    /// The decoded value.
    pub value: MmsData,
    /// reasonCode, carried as a seven-bit BitString with one padding bit.
    pub reason_code: u8,
}

/// One journal entry as it appears on the wire.
#[derive(Debug, Clone, PartialEq)]
pub struct WireJournalEntry {
    /// EntryID, 8 bytes big-endian.
    pub entry_id: [u8; 8],
    /// occurenceTime as epoch milliseconds; encoded on the wire as BinaryTime6.
    pub occurence_time_ms: u64,
    /// The data points of this entry. Each one becomes two variable elements on the
    /// wire: the value itself and its reason code.
    pub variables: Vec<WireJournalVariable>,
}

/// An MMS ReadJournalResponse.
#[derive(Debug, Clone, PartialEq)]
pub struct ReadJournalResponse {
    /// listOfJournalEntry.
    pub entries: Vec<WireJournalEntry>,
    /// moreFollows, OPTIONAL and present only when further entries remain.
    pub more_follows: Option<bool>,
}

/// A data point with its reference and value in view.
#[verifier::ext_equal]
pub struct JournalVariableView {
    /// dataRef.
    pub data_ref: Seq<char>,
    /// The value.
    pub value: MmsDataView,
    /// reasonCode.
    pub reason_code: u8,
}

/// An entry with its data points in view.
#[verifier::ext_equal]
pub struct JournalEntryView {
    /// EntryID.
    pub entry_id: Seq<u8>,
    /// occurenceTime as epoch milliseconds.
    pub occurence_time_ms: u64,
    /// The data points.
    pub variables: Seq<JournalVariableView>,
}

/// A response with its entries in view.
#[verifier::ext_equal]
pub struct JournalResponseView {
    /// The entries.
    pub entries: Seq<JournalEntryView>,
    /// moreFollows.
    pub more_follows: Option<bool>,
}

impl View for WireJournalVariable {
    type V = JournalVariableView;

    open spec fn view(&self) -> JournalVariableView {
        JournalVariableView {
            data_ref: self.data_ref@,
            value: self.value@,
            reason_code: self.reason_code,
        }
    }
}

/// The views of data points in a row.
pub open spec fn variable_views(vars: Seq<WireJournalVariable>) -> Seq<JournalVariableView> {
    vars.map_values(|v: WireJournalVariable| v@)
}

impl View for WireJournalEntry {
    type V = JournalEntryView;

    open spec fn view(&self) -> JournalEntryView {
        JournalEntryView {
            entry_id: self.entry_id@,
            occurence_time_ms: self.occurence_time_ms,
            variables: variable_views(self.variables@),
        }
    }
}

/// The views of entries in a row.
pub open spec fn entry_views(entries: Seq<WireJournalEntry>) -> Seq<JournalEntryView> {
    entries.map_values(|e: WireJournalEntry| e@)
}

impl View for ReadJournalResponse {
    type V = JournalResponseView;

    open spec fn view(&self) -> JournalResponseView {
        JournalResponseView {
            entries: entry_views(self.entries@),
            more_follows: self.more_follows,
        }
    }
}

/// A variable on the wire: a name and a value.
pub open spec fn raw_octets(name: Seq<char>, value: MmsDataView) -> Seq<u8> {
    ber::tlv(0x30, ber::tlv(0x80, text::utf8(name)) + ber::tlv(0xa1, value.octets()))
}

/// The value that carries a reason code.
pub open spec fn reason_value(code: u8) -> MmsDataView {
    MmsDataView::BitString { padding: 1, data: seq![code] }
}

impl JournalVariableView {
    /// The two variables of a data point: its value, then its reason code.
    pub open spec fn octets(self) -> Seq<u8> {
        raw_octets(self.data_ref, self.value) + raw_octets(
            "ReasonCode"@,
            reason_value(self.reason_code),
        )
    }

    /// The data point can be written and read back: its reference is not the name of a
    /// reason code, and its value can be read back.
    pub open spec fn readable(self) -> bool {
        &&& self.data_ref != "ReasonCode"@
        &&& self.value.readable(MAX_DATA_NESTING_DEPTH as int)
    }
}

/// The encodings of data points in a row.
pub open spec fn variables_octets(vars: Seq<JournalVariableView>) -> Seq<u8>
    decreases vars.len(),
{
    if vars.len() == 0 {
        Seq::empty()
    } else {
        variables_octets(vars.drop_last()) + vars.last().octets()
    }
}

impl JournalEntryView {
    /// The content of entryContent: the instant, then the data points.
    pub open spec fn entry_content(self) -> Seq<u8> {
        ber::tlv(0x80, binary_time::time6_octets(self.occurence_time_ms)) + ber::tlv(
            0xa2,
            ber::tlv(0xa1, variables_octets(self.variables)),
        )
    }

    /// The content of the entry: its id, the fixed originatingApplication, and
    /// entryContent.
    pub open spec fn content(self) -> Seq<u8> {
        ber::tlv(0x80, self.entry_id) + (seq![0xa1u8, 0x02u8, 0x30u8, 0x00u8] + ber::tlv(
            0xa2,
            self.entry_content(),
        ))
    }

    /// The encoding of the entry.
    pub open spec fn octets(self) -> Seq<u8> {
        ber::tlv(0x30, self.content())
    }

    /// The entry can be written and read back.
    pub open spec fn readable(self) -> bool {
        &&& self.entry_id.len() == ENTRY_ID_SIZE
        &&& expressible(self.occurence_time_ms)
        &&& forall|i: int|
            0 <= i < self.variables.len() ==> (#[trigger] self.variables[i]).readable()
    }
}

/// The encodings of entries in a row.
pub open spec fn entries_octets(entries: Seq<JournalEntryView>) -> Seq<u8>
    decreases entries.len(),
{
    if entries.len() == 0 {
        Seq::empty()
    } else {
        entries_octets(entries.drop_last()) + entries.last().octets()
    }
}

/// A variable as it is read: a value under a name, or a reason code.
#[verifier::ext_equal]
pub enum RawVariableView {
    /// A value under a name.
    Data {
        /// The name.
        tag: Seq<char>,
        /// The value.
        value: MmsDataView,
    },
    /// A reason code.
    ReasonCode(u8),
}

/// What has been read of a variable: the name and the value.
pub type RawFields = (Option<Seq<char>>, Option<MmsDataView>);

/// One field of a variable; a later field replaces an earlier one, and others are
/// skipped.
pub open spec fn raw_field(acc: RawFields, tag: u8, val: Seq<u8>) -> Result<RawFields, MmsError> {
    if tag == 0x80 {
        match text::text_at(val) {
            None => Err(MmsError::InvalidPdu),
            Some(t) => Ok((Some(t), acc.1)),
        }
    } else if tag == 0xa1 {
        match MmsDataView::parse(val, 0, MAX_DATA_NESTING_DEPTH) {
            Err(e) => Err(e),
            Ok((d, _)) => Ok((acc.0, Some(d))),
        }
    } else {
        Ok(acc)
    }
}

/// `raw_field` as a step over the elements.
pub open spec fn raw_fields() -> spec_fn(RawFields, u8, Seq<u8>) -> Result<RawFields, MmsError> {
    |acc: RawFields, tag: u8, val: Seq<u8>| raw_field(acc, tag, val)
}

/// The variable that fields make. One named `ReasonCode` must hold a bit string, whose
/// first octet is the code.
pub open spec fn raw_of_fields(f: RawFields) -> Result<RawVariableView, MmsError> {
    match f {
        (Some(tag), Some(value)) => if tag == "ReasonCode"@ {
            match value {
                MmsDataView::BitString { data, .. } => Ok(
                    RawVariableView::ReasonCode(
                        if data.len() > 0 {
                            data[0]
                        } else {
                            0
                        },
                    ),
                ),
                _ => Err(MmsError::InvalidPdu),
            }
        } else {
            Ok(RawVariableView::Data { tag, value })
        },
        _ => Err(MmsError::TruncatedPdu),
    }
}

/// The variable with this content.
pub open spec fn raw_at(s: Seq<u8>) -> Result<RawVariableView, MmsError> {
    match ber::fold(s, (None, None), raw_fields()) {
        Err(e) => Err(e),
        Ok(f) => raw_of_fields(f),
    }
}

/// The variables that fill `s`, each a SEQUENCE, put after those of `acc`.
pub open spec fn raw_list_at(s: Seq<u8>, acc: Seq<RawVariableView>) -> Result<
    Seq<RawVariableView>,
    MmsError,
>
    decreases s.len(),
{
    if s.len() == 0 {
        Ok(acc)
    } else if s[0] != 0x30 {
        Err(MmsError::TruncatedPdu)
    } else {
        match ber::element_at(s) {
            Err(e) => Err(e),
            Ok(e) => match raw_at(e.val) {
                Err(x) => Err(x),
                Ok(v) => {
                    proof {
                        ber::lemma_element_bounds(s);
                    }
                    raw_list_at(s.skip(e.size as int), acc.push(v))
                },
            },
        }
    }
}

/// The data points that variables make, put after those of `acc`: each value takes the
/// reason code that follows it, or 0; a reason code with no value before it is refused.
pub open spec fn paired(raw: Seq<RawVariableView>, acc: Seq<JournalVariableView>) -> Result<
    Seq<JournalVariableView>,
    MmsError,
>
    decreases raw.len(),
{
    if raw.len() == 0 {
        Ok(acc)
    } else {
        match raw[0] {
            RawVariableView::ReasonCode(_) => Err(MmsError::InvalidPdu),
            RawVariableView::Data { tag, value } => if raw.len() > 1 && raw[1] is ReasonCode {
                paired(
                    raw.skip(2),
                    acc.push(
                        JournalVariableView {
                            data_ref: tag,
                            value,
                            reason_code: raw[1]->ReasonCode_0,
                        },
                    ),
                )
            } else {
                paired(
                    raw.skip(1),
                    acc.push(JournalVariableView { data_ref: tag, value, reason_code: 0 }),
                )
            },
        }
    }
}

/// The content of journalVariables: the data points under tag `0xa1`.
pub open spec fn journal_variables_at(s: Seq<u8>) -> Result<Seq<JournalVariableView>, MmsError> {
    if s.len() == 0 || s[0] != 0xa1 {
        Err(MmsError::TruncatedPdu)
    } else {
        match ber::element_at(s) {
            Err(e) => Err(e),
            Ok(e) => match raw_list_at(e.val, Seq::empty()) {
                Err(x) => Err(x),
                Ok(raw) => paired(raw, Seq::empty()),
            },
        }
    }
}

/// What has been read of an entryContent: the instant and the data points.
pub type ContentFields = (Option<u64>, Seq<JournalVariableView>);

/// One field of an entryContent; a later field replaces an earlier one, and others are
/// skipped.
pub open spec fn content_field(acc: ContentFields, tag: u8, val: Seq<u8>) -> Result<
    ContentFields,
    MmsError,
> {
    if tag == 0x80 {
        match instant_at(val) {
            Err(e) => Err(e),
            Ok(t) => Ok((Some(t), acc.1)),
        }
    } else if tag == 0xa2 {
        match journal_variables_at(val) {
            Err(e) => Err(e),
            Ok(vars) => Ok((acc.0, vars)),
        }
    } else {
        Ok(acc)
    }
}

/// `content_field` as a step over the elements.
pub open spec fn content_fields() -> spec_fn(ContentFields, u8, Seq<u8>) -> Result<
    ContentFields,
    MmsError,
> {
    |acc: ContentFields, tag: u8, val: Seq<u8>| content_field(acc, tag, val)
}

/// The instant and the data points of an entryContent; the instant must be there.
pub open spec fn entry_content_at(s: Seq<u8>) -> Result<(u64, Seq<JournalVariableView>), MmsError> {
    match ber::fold(s, (None, Seq::empty()), content_fields()) {
        Err(e) => Err(e),
        Ok((Some(t), vars)) => Ok((t, vars)),
        Ok((None, _)) => Err(MmsError::TruncatedPdu),
    }
}

/// What has been read of an entry: its id, its instant and its data points.
pub type EntryFields = (Option<Seq<u8>>, Option<u64>, Seq<JournalVariableView>);

/// One field of an entry; a later field replaces an earlier one, and others are skipped,
/// originatingApplication among them.
pub open spec fn entry_field(acc: EntryFields, tag: u8, val: Seq<u8>) -> Result<
    EntryFields,
    MmsError,
> {
    if tag == 0x80 {
        if val.len() != ENTRY_ID_SIZE {
            Err(MmsError::InvalidLength)
        } else {
            Ok((Some(val), acc.1, acc.2))
        }
    } else if tag == 0xa2 {
        match entry_content_at(val) {
            Err(e) => Err(e),
            Ok((t, vars)) => Ok((acc.0, Some(t), vars)),
        }
    } else {
        Ok(acc)
    }
}

/// `entry_field` as a step over the elements.
pub open spec fn entry_fields() -> spec_fn(EntryFields, u8, Seq<u8>) -> Result<
    EntryFields,
    MmsError,
> {
    |acc: EntryFields, tag: u8, val: Seq<u8>| entry_field(acc, tag, val)
}

/// The entry with this content; its id and its instant must be there.
pub open spec fn entry_at(s: Seq<u8>) -> Result<JournalEntryView, MmsError> {
    match ber::fold(s, (None, None, Seq::empty()), entry_fields()) {
        Err(e) => Err(e),
        Ok((Some(entry_id), Some(occurence_time_ms), variables)) => Ok(
            JournalEntryView { entry_id, occurence_time_ms, variables },
        ),
        Ok(_) => Err(MmsError::TruncatedPdu),
    }
}

/// The entries that fill `s`, each a SEQUENCE, put after those of `acc`.
pub open spec fn entry_list_at(s: Seq<u8>, acc: Seq<JournalEntryView>) -> Result<
    Seq<JournalEntryView>,
    MmsError,
>
    decreases s.len(),
{
    if s.len() == 0 {
        Ok(acc)
    } else if s[0] != 0x30 {
        Err(MmsError::TruncatedPdu)
    } else {
        match ber::element_at(s) {
            Err(e) => Err(e),
            Ok(e) => match entry_at(e.val) {
                Err(x) => Err(x),
                Ok(v) => {
                    proof {
                        ber::lemma_element_bounds(s);
                    }
                    entry_list_at(s.skip(e.size as int), acc.push(v))
                },
            },
        }
    }
}

/// One field of a response; a later field replaces an earlier one, and others are
/// skipped.
pub open spec fn response_field(acc: JournalResponseView, tag: u8, val: Seq<u8>) -> Result<
    JournalResponseView,
    MmsError,
> {
    if tag == 0xa0 {
        match entry_list_at(val, Seq::empty()) {
            Err(e) => Err(e),
            Ok(entries) => Ok(JournalResponseView { entries, ..acc }),
        }
    } else if tag == 0x81 {
        if val.len() == 0 {
            Err(MmsError::InvalidLength)
        } else {
            Ok(JournalResponseView { more_follows: Some(val[0] != 0), ..acc })
        }
    } else {
        Ok(acc)
    }
}

/// `response_field` as a step over the elements.
pub open spec fn response_fields() -> spec_fn(JournalResponseView, u8, Seq<u8>) -> Result<
    JournalResponseView,
    MmsError,
> {
    |acc: JournalResponseView, tag: u8, val: Seq<u8>| response_field(acc, tag, val)
}

impl JournalResponseView {
    /// Nothing has been read.
    pub open spec fn empty() -> JournalResponseView {
        JournalResponseView { entries: Seq::empty(), more_follows: None }
    }

    /// The encoding of the flag, where there is one.
    pub open spec fn flag_octets(self) -> Seq<u8> {
        match self.more_follows {
            Some(b) => ber::tlv(
                0x81,
                seq![
                    if b {
                        0xffu8
                    } else {
                        0x00u8
                    },
                ],
            ),
            None => Seq::empty(),
        }
    }

    /// The content of the service: the entries, then the flag.
    pub open spec fn content(self) -> Seq<u8> {
        ber::tlv(0xa0, entries_octets(self.entries)) + self.flag_octets()
    }

    /// The encoding of the service.
    pub open spec fn octets(self) -> Seq<u8> {
        journal_tlv(self.content())
    }

    /// The response with this content.
    pub open spec fn of_content(s: Seq<u8>) -> Result<JournalResponseView, MmsError> {
        ber::fold(s, JournalResponseView::empty(), response_fields())
    }

    /// The response at the start of `s`.
    pub open spec fn parse(s: Seq<u8>) -> Result<JournalResponseView, MmsError> {
        match journal_content_at(s) {
            Err(e) => Err(e),
            Ok(val) => JournalResponseView::of_content(val),
        }
    }

    /// Every entry can be written and read back.
    pub open spec fn readable(self) -> bool {
        forall|i: int| 0 <= i < self.entries.len() ==> (#[trigger] self.entries[i]).readable()
    }
}

impl ReadJournalResponse {
    /// Encodes the response, including the `0xbf 0x41 <len>` service wrapper.
    pub fn encode(&self, buf: &mut BytesMut)
        requires
            buffer::contents(*old(buf)).len() + self@.octets().len() <= isize::MAX,
        ensures
            buffer::contents(*final(buf)) == buffer::contents(*old(buf)) + self@.octets(),
    {
        let mut inner: BytesMut = BytesMut::new();
        let list: BytesMut = encode_entries(&self.entries);
        put_tlv(0xa0, &list, &mut inner);
        // moreFollows [1] IMPLICIT BOOLEAN  (OPTIONAL)
        if let Some(more) = self.more_follows {
            let flag: [u8; 1] = [
                if more {
                    0xff
                } else {
                    0x00
                },
            ];
            assert(flag@ =~= seq![
                if more {
                    0xffu8
                } else {
                    0x00u8
                },
            ]);
            put_tlv(0x81, &flag, &mut inner);
        }
        assert(buffer::contents(inner) =~= self@.content());
        put_journal(&inner, buf);
    }

    /// Decodes a response; `data` starts at the `0xbf` byte.
    pub fn decode(data: &[u8]) -> (r: Result<Self, MmsError>)
        ensures
            ber::agrees(r, JournalResponseView::parse(data@)),
    {
        let inner: &[u8] = check_service_tag_and_take(data)?;
        decode_response_inner(inner)
    }
}

/// Encodes entries in a row.
fn encode_entries(entries: &Vec<WireJournalEntry>) -> (buf: BytesMut)
    requires
        entries_octets(entry_views(entries@)).len() <= isize::MAX,
    ensures
        buffer::contents(buf) == entries_octets(entry_views(entries@)),
{
    let mut buf: BytesMut = BytesMut::new();
    let mut i: usize = 0;
    let ghost views = entry_views(entries@);
    assert(views.take(0) =~= Seq::empty());
    while i < entries.len()
        invariant
            i <= entries.len(),
            views == entry_views(entries@),
            entries_octets(views).len() <= isize::MAX,
            buffer::contents(buf) == entries_octets(views.take(i as int)),
        decreases entries.len() - i,
    {
        proof {
            assert(views.take(i + 1).drop_last() =~= views.take(i as int));
            lemma_entries_prefix(views, i + 1);
        }
        encode_wire_journal_entry(&entries[i], &mut buf);
        i = i + 1;
    }
    assert(views.take(entries@.len() as int) =~= views);
    buf
}

fn encode_wire_journal_entry(entry: &WireJournalEntry, buf: &mut BytesMut)
    requires
        buffer::contents(*old(buf)).len() + entry@.octets().len() <= isize::MAX,
    ensures
        buffer::contents(*final(buf)) == buffer::contents(*old(buf)) + entry@.octets(),
{
    proof {
        lemma_time6_len();
    }
    // entryContent [2] EXPLICIT: occurenceTime, then journalVariables [2] EXPLICIT
    let mut vars: BytesMut = BytesMut::new();
    encode_journal_variables(&entry.variables, &mut vars);
    assert(buffer::contents(vars) =~= ber::tlv(0xa1, variables_octets(entry@.variables)));
    let mut content: BytesMut = BytesMut::new();
    put_instant(entry.occurence_time_ms, &mut content);
    put_tlv(0xa2, &vars, &mut content);
    assert(buffer::contents(content) =~= entry@.entry_content());
    let mut inner: BytesMut = BytesMut::new();
    put_tlv(0x80, &entry.entry_id, &mut inner);
    // originatingApplication, always the same four bytes
    inner.extend_from_slice(&ORIGINATING_APPLICATION_FIXED);
    put_tlv(0xa2, &content, &mut inner);
    assert(buffer::contents(inner) =~= entry@.content());
    // wrap the whole entry in a 0x30 SEQUENCE
    put_tlv(0x30, &inner, buf);
}

fn encode_journal_variables(vars: &Vec<WireJournalVariable>, buf: &mut BytesMut)
    requires
        buffer::contents(*old(buf)).len() + ber::tlv(
            0xa1,
            variables_octets(variable_views(vars@)),
        ).len() <= isize::MAX,
    ensures
        buffer::contents(*final(buf)) == buffer::contents(*old(buf)) + ber::tlv(
            0xa1,
            variables_octets(variable_views(vars@)),
        ),
{
    let mut list: BytesMut = BytesMut::new();
    let mut i: usize = 0;
    let ghost views = variable_views(vars@);
    assert(views.take(0) =~= Seq::empty());
    while i < vars.len()
        invariant
            i <= vars.len(),
            views == variable_views(vars@),
            variables_octets(views).len() <= isize::MAX,
            buffer::contents(list) == variables_octets(views.take(i as int)),
        decreases vars.len() - i,
    {
        proof {
            assert(views.take(i + 1).drop_last() =~= views.take(i as int));
            lemma_variables_prefix(views, i + 1);
        }
        let ghost before = buffer::contents(list);
        // first variable: the value itself
        encode_data_variable(&vars[i].data_ref, &vars[i].value, &mut list);
        // second variable: the reason code
        encode_reason_code_variable(vars[i].reason_code, &mut list);
        proof {
            assert(buffer::contents(list) =~= before + views[i as int].octets());
        }
        i = i + 1;
    }
    assert(views.take(vars@.len() as int) =~= views);
    put_tlv(0xa1, &list, buf);
}

fn encode_data_variable(data_ref: &str, value: &MmsData, buf: &mut BytesMut)
    requires
        buffer::contents(*old(buf)).len() + raw_octets(data_ref@, value@).len() <= isize::MAX,
    ensures
        buffer::contents(*final(buf)) == buffer::contents(*old(buf)) + raw_octets(
            data_ref@,
            value@,
        ),
{
    let mut val: BytesMut = BytesMut::new();
    value.encode(&mut val);
    assert(buffer::contents(val) =~= value@.octets());
    let mut var: BytesMut = BytesMut::new();
    put_tlv(0x80, data_ref.as_bytes(), &mut var);
    put_tlv(0xa1, &val, &mut var);
    assert(buffer::contents(var) =~= ber::tlv(0x80, text::utf8(data_ref@)) + ber::tlv(
        0xa1,
        value@.octets(),
    ));
    put_tlv(0x30, &var, buf);
}

fn encode_reason_code_variable(reason_code: u8, buf: &mut BytesMut)
    requires
        buffer::contents(*old(buf)).len() + raw_octets(
            "ReasonCode"@,
            reason_value(reason_code),
        ).len() <= isize::MAX,
    ensures
        buffer::contents(*final(buf)) == buffer::contents(*old(buf)) + raw_octets(
            "ReasonCode"@,
            reason_value(reason_code),
        ),
{
    // the second variable is tagged "ReasonCode" and carries a BitString of seven bits
    let mut code: Vec<u8> = Vec::new();
    code.push(reason_code);
    let bits: MmsData = MmsData::BitString { padding: 1, data: code };
    assert(code@ =~= seq![reason_code]);
    encode_data_variable("ReasonCode", &bits, buf);
}

fn decode_response_inner(data: &[u8]) -> (r: Result<ReadJournalResponse, MmsError>)
    ensures
        ber::agrees(r, JournalResponseView::of_content(data@)),
{
    let mut resp = ReadJournalResponse { entries: Vec::new(), more_follows: None };
    let mut pos: usize = 0;
    let ghost steps = response_fields();
    assert(data@.skip(0) =~= data@);
    assert(resp@ =~= JournalResponseView::empty());
    while pos < data.len()
        invariant
            pos <= data.len(),
            steps == response_fields(),
            JournalResponseView::of_content(data@) == ber::fold(
                data@.skip(pos as int),
                resp@,
                steps,
            ),
        decreases data.len() - pos,
    {
        let t: Tlv = take_element(data, pos)?;
        assert(steps(resp@, t.tag, t.val@) == response_field(resp@, t.tag, t.val@));
        match t.tag {
            0xa0 => {
                // listOfJournalEntry, a run of 0x30 sequences
                resp.entries = decode_list_of_entries(t.val)?;
            },
            0x81 => {
                if t.val.len() == 0 {
                    return Err(MmsError::InvalidLength);
                }
                resp.more_follows = Some(t.val[0] != 0);
            },
            _ => {},
        }
        pos = pos + t.size;
    }
    Ok(resp)
}

fn decode_list_of_entries(data: &[u8]) -> (r: Result<Vec<WireJournalEntry>, MmsError>)
    ensures
        match entry_list_at(data@, Seq::empty()) {
            Ok(v) => r matches Ok(x) && entry_views(x@) == v,
            Err(e) => r == Err::<Vec<WireJournalEntry>, MmsError>(e),
        },
{
    let mut out: Vec<WireJournalEntry> = Vec::new();
    let mut p: usize = 0;
    assert(data@.skip(0) =~= data@);
    assert(entry_views(out@) =~= Seq::empty());
    while p < data.len()
        invariant
            p <= data.len(),
            entry_list_at(data@, Seq::empty()) == entry_list_at(
                data@.skip(p as int),
                entry_views(out@),
            ),
        decreases data.len() - p,
    {
        if data[p] != 0x30 {
            return Err(MmsError::TruncatedPdu);
        }
        let t: Tlv = take_element(data, p)?;
        let entry: WireJournalEntry = decode_wire_journal_entry(t.val)?;
        let ghost before = out@;
        out.push(entry);
        proof {
            assert(entry_views(out@) =~= entry_views(before).push(entry@));
        }
        p = p + t.size;
    }
    Ok(out)
}

fn decode_wire_journal_entry(data: &[u8]) -> (r: Result<WireJournalEntry, MmsError>)
    ensures
        ber::agrees(r, entry_at(data@)),
{
    let mut pos: usize = 0;
    let mut entry_id: Option<[u8; 8]> = None;
    let mut occurence_time_ms: Option<u64> = None;
    let mut variables: Vec<WireJournalVariable> = Vec::new();
    let ghost steps = entry_fields();
    assert(data@.skip(0) =~= data@);
    assert(variable_views(variables@) =~= Seq::empty());
    while pos < data.len()
        invariant
            pos <= data.len(),
            steps == entry_fields(),
            ber::fold(data@, (None, None, Seq::empty()), steps) == ber::fold(
                data@.skip(pos as int),
                (opt_octets(entry_id), occurence_time_ms, variable_views(variables@)),
                steps,
            ),
        decreases data.len() - pos,
    {
        let t: Tlv = take_element(data, pos)?;
        let ghost acc: EntryFields = (
            opt_octets(entry_id),
            occurence_time_ms,
            variable_views(variables@),
        );
        assert(steps(acc, t.tag, t.val@) == entry_field(acc, t.tag, t.val@));
        match t.tag {
            0x80 => {
                if t.val.len() != ENTRY_ID_SIZE {
                    return Err(MmsError::InvalidLength);
                }
                entry_id = Some(octets8(t.val));
            },
            0xa2 => {
                // entryContent
                let (time, vars) = decode_entry_content(t.val)?;
                occurence_time_ms = Some(time);
                variables = vars;
            },
            // originatingApplication is a fixed empty SEQUENCE and is not decoded
            _ => {},
        }
        pos = pos + t.size;
    }
    match (entry_id, occurence_time_ms) {
        (Some(entry_id), Some(occurence_time_ms)) => Ok(
            WireJournalEntry { entry_id, occurence_time_ms, variables },
        ),
        _ => Err(MmsError::TruncatedPdu),
    }
}

fn decode_entry_content(data: &[u8]) -> (r: Result<(u64, Vec<WireJournalVariable>), MmsError>)
    ensures
        match entry_content_at(data@) {
            Ok((t, vars)) => r matches Ok((x, y)) && x == t && variable_views(y@) == vars,
            Err(e) => r == Err::<(u64, Vec<WireJournalVariable>), MmsError>(e),
        },
{
    let mut pos: usize = 0;
    let mut occurence_time_ms: Option<u64> = None;
    let mut variables: Vec<WireJournalVariable> = Vec::new();
    let ghost steps = content_fields();
    assert(data@.skip(0) =~= data@);
    assert(variable_views(variables@) =~= Seq::empty());
    while pos < data.len()
        invariant
            pos <= data.len(),
            steps == content_fields(),
            ber::fold(data@, (None, Seq::empty()), steps) == ber::fold(
                data@.skip(pos as int),
                (occurence_time_ms, variable_views(variables@)),
                steps,
            ),
        decreases data.len() - pos,
    {
        let t: Tlv = take_element(data, pos)?;
        let ghost acc: ContentFields = (occurence_time_ms, variable_views(variables@));
        assert(steps(acc, t.tag, t.val@) == content_field(acc, t.tag, t.val@));
        match t.tag {
            0x80 => {
                occurence_time_ms = Some(decode_binary_time_to_ms(t.val)?);
            },
            0xa2 => {
                variables = decode_journal_variables(t.val)?;
            },
            _ => {},
        }
        pos = pos + t.size;
    }
    match occurence_time_ms {
        Some(time) => Ok((time, variables)),
        None => Err(MmsError::TruncatedPdu),
    }
}

/// A variable as it is read.
enum RawVariable {
    Data { tag: String, value: MmsData },
    ReasonCode(u8),
}

impl View for RawVariable {
    type V = RawVariableView;

    closed spec fn view(&self) -> RawVariableView {
        match *self {
            RawVariable::Data { tag, value } => RawVariableView::Data { tag: tag@, value: value@ },
            RawVariable::ReasonCode(code) => RawVariableView::ReasonCode(code),
        }
    }
}

spec fn raw_views(raw: Seq<RawVariable>) -> Seq<RawVariableView> {
    raw.map_values(|v: RawVariable| v@)
}

fn decode_journal_variables(data: &[u8]) -> (r: Result<Vec<WireJournalVariable>, MmsError>)
    ensures
        match journal_variables_at(data@) {
            Ok(v) => r matches Ok(x) && variable_views(x@) == v,
            Err(e) => r == Err::<Vec<WireJournalVariable>, MmsError>(e),
        },
{
    // the content must start with 0xa1 followed by a run of 0x30 sequences
    if data.len() == 0 || data[0] != 0xa1 {
        return Err(MmsError::TruncatedPdu);
    }
    assert(data@.skip(0) =~= data@);
    let t: Tlv = take_element(data, 0)?;
    let raw: Vec<RawVariable> = decode_raw_variables(t.val)?;
    pair_variables(&raw)
}

/// Joins each value with the reason code that follows it.
fn pair_variables(raw: &Vec<RawVariable>) -> (r: Result<Vec<WireJournalVariable>, MmsError>)
    ensures
        match paired(raw_views(raw@), Seq::empty()) {
            Ok(v) => r matches Ok(x) && variable_views(x@) == v,
            Err(e) => r == Err::<Vec<WireJournalVariable>, MmsError>(e),
        },
{
    let mut out: Vec<WireJournalVariable> = Vec::new();
    let mut i: usize = 0;
    let ghost views = raw_views(raw@);
    assert(views.skip(0) =~= views);
    assert(variable_views(out@) =~= Seq::empty());
    while i < raw.len()
        invariant
            i <= raw.len(),
            views == raw_views(raw@),
            paired(views, Seq::empty()) == paired(views.skip(i as int), variable_views(out@)),
        decreases raw.len() - i,
    {
        let ghost tail = views.skip(i as int);
        assert(tail[0] == raw@[i as int]@);
        match &raw[i] {
            RawVariable::ReasonCode(_) => {
                return Err(MmsError::InvalidPdu);
            },
            RawVariable::Data { tag, value } => {
                let follows: Option<u8> = if i + 1 < raw.len() {
                    assert(tail[1] == raw@[i + 1]@);
                    match &raw[i + 1] {
                        RawVariable::ReasonCode(code) => Some(*code),
                        _ => None,
                    }
                } else {
                    None
                };
                let (reason_code, step): (u8, usize) = match follows {
                    Some(code) => (code, 2),
                    None => (0, 1),
                };
                let var = WireJournalVariable {
                    data_ref: tag.clone(),
                    value: value.clone(),
                    reason_code,
                };
                let ghost before = out@;
                out.push(var);
                proof {
                    assert(variable_views(out@) =~= variable_views(before).push(var@));
                    assert(tail.skip(step as int) =~= views.skip(i + step));
                }
                i = i + step;
            },
        }
    }
    Ok(out)
}

fn decode_raw_variables(data: &[u8]) -> (r: Result<Vec<RawVariable>, MmsError>)
    ensures
        match raw_list_at(data@, Seq::empty()) {
            Ok(v) => r matches Ok(x) && raw_views(x@) == v,
            Err(e) => r == Err::<Vec<RawVariable>, MmsError>(e),
        },
{
    let mut out: Vec<RawVariable> = Vec::new();
    let mut p: usize = 0;
    assert(data@.skip(0) =~= data@);
    assert(raw_views(out@) =~= Seq::empty());
    while p < data.len()
        invariant
            p <= data.len(),
            raw_list_at(data@, Seq::empty()) == raw_list_at(
                data@.skip(p as int),
                raw_views(out@),
            ),
        decreases data.len() - p,
    {
        if data[p] != 0x30 {
            return Err(MmsError::TruncatedPdu);
        }
        let t: Tlv = take_element(data, p)?;
        let v: RawVariable = decode_raw_variable(t.val)?;
        let ghost before = out@;
        out.push(v);
        proof {
            assert(raw_views(out@) =~= raw_views(before).push(v@));
        }
        p = p + t.size;
    }
    Ok(out)
}

spec fn opt_data(v: Option<MmsData>) -> Option<MmsDataView> {
    match v {
        Some(d) => Some(d@),
        None => None,
    }
}

fn decode_raw_variable(data: &[u8]) -> (r: Result<RawVariable, MmsError>)
    ensures
        ber::agrees(r, raw_at(data@)),
{
    // expect 0x80 <len> <tag bytes>  0xa1 <len> <Data wire>
    let mut pos: usize = 0;
    let mut tag_str: Option<String> = None;
    let mut value: Option<MmsData> = None;
    let ghost steps = raw_fields();
    assert(data@.skip(0) =~= data@);
    while pos < data.len()
        invariant
            pos <= data.len(),
            steps == raw_fields(),
            ber::fold(data@, (None, None), steps) == ber::fold(
                data@.skip(pos as int),
                (text::opt_text(tag_str), opt_data(value)),
                steps,
            ),
        decreases data.len() - pos,
    {
        let t: Tlv = take_element(data, pos)?;
        let ghost acc: RawFields = (text::opt_text(tag_str), opt_data(value));
        assert(steps(acc, t.tag, t.val@) == raw_field(acc, t.tag, t.val@));
        match t.tag {
            0x80 => {
                match text::decode_text(t.val) {
                    None => return Err(MmsError::InvalidPdu),
                    Some(s) => {
                        tag_str = Some(s);
                    },
                }
            },
            0xa1 => {
                let (d, _) = MmsData::decode(t.val)?;
                value = Some(d);
            },
            _ => {},
        }
        pos = pos + t.size;
    }
    match (tag_str, value) {
        (Some(tag), Some(value)) => {
            if text::same(&tag, "ReasonCode") {
                match value {
                    MmsData::BitString { data: bits, .. } => {
                        let code: u8 = if bits.len() > 0 {
                            bits[0]
                        } else {
                            0
                        };
                        Ok(RawVariable::ReasonCode(code))
                    },
                    _ => Err(MmsError::InvalidPdu),
                }
            } else {
                Ok(RawVariable::Data { tag, value })
            }
        },
        _ => Err(MmsError::TruncatedPdu),
    }
}

/// The first entries take no more octets than all of them.
proof fn lemma_entries_prefix(entries: Seq<JournalEntryView>, n: int)
    requires
        0 <= n <= entries.len(),
    ensures
        entries_octets(entries.take(n)).len() <= entries_octets(entries).len(),
    decreases entries.len(),
{
    if n < entries.len() {
        lemma_entries_prefix(entries.drop_last(), n);
        assert(entries.drop_last().take(n) =~= entries.take(n));
    } else {
        assert(entries.take(n) =~= entries);
    }
}

/// The first data points take no more octets than all of them.
proof fn lemma_variables_prefix(vars: Seq<JournalVariableView>, n: int)
    requires
        0 <= n <= vars.len(),
    ensures
        variables_octets(vars.take(n)).len() <= variables_octets(vars).len(),
    decreases vars.len(),
{
    if n < vars.len() {
        lemma_variables_prefix(vars.drop_last(), n);
        assert(vars.drop_last().take(n) =~= vars.take(n));
    } else {
        assert(vars.take(n) =~= vars);
    }
}

/// The encodings in a row, with the first entry taken apart.
#[verifier::spinoff_prover]
#[verifier::rlimit(40)]
proof fn lemma_entries_first(entries: Seq<JournalEntryView>)
    requires
        entries.len() > 0,
    ensures
        entries_octets(entries) == entries[0].octets() + entries_octets(entries.skip(1)),
    decreases entries.len(),
{
    reveal_with_fuel(entries_octets, 2);
    if entries.len() == 1 {
        assert(entries.drop_last() =~= Seq::empty());
        assert(entries.skip(1) =~= Seq::empty());
    } else {
        lemma_entries_first(entries.drop_last());
        assert(entries.drop_last().skip(1) =~= entries.skip(1).drop_last());
    }
    assert(entries_octets(entries) =~= entries[0].octets() + entries_octets(entries.skip(1)));
}

/// The encodings in a row, with the first data point taken apart.
#[verifier::spinoff_prover]
#[verifier::rlimit(40)]
proof fn lemma_variables_first(vars: Seq<JournalVariableView>)
    requires
        vars.len() > 0,
    ensures
        variables_octets(vars) == vars[0].octets() + variables_octets(vars.skip(1)),
    decreases vars.len(),
{
    reveal_with_fuel(variables_octets, 2);
    if vars.len() == 1 {
        assert(vars.drop_last() =~= Seq::empty());
        assert(vars.skip(1) =~= Seq::empty());
    } else {
        lemma_variables_first(vars.drop_last());
        assert(vars.drop_last().skip(1) =~= vars.skip(1).drop_last());
    }
    assert(variables_octets(vars) =~= vars[0].octets() + variables_octets(vars.skip(1)));
}

/// A service element gives back its content, whatever follows it.
pub proof fn lemma_journal_content(val: Seq<u8>, rest: Seq<u8>)
    requires
        val.len() <= 0xffff,
    ensures
        journal_content_at(journal_tlv(val) + rest) == Ok::<Seq<u8>, MmsError>(val),
{
    let s = journal_tlv(val) + rest;
    let n = val.len();
    asn1::law_length_round_trip(n, val + rest);
    assert(s.skip(2) =~= asn1::length_octets(n) + (val + rest));
    let start = 2 + asn1::length_width(n);
    assert(s.subrange(start as int, (start + n) as int) =~= val);
}

/// A VisibleString of at most 64 bytes is read back, whatever follows it, within its wrapper.
proof fn lemma_visible_string(t: Seq<char>, rest: Seq<u8>, end: int)
    requires
        text::utf8(t).len() <= MAX_JOURNAL_ID_LEN,
        2 + text::utf8(t).len() <= end,
    ensures
        visible_string_at(ber::tlv(0x1a, text::utf8(t)) + rest, end) == Ok::<
            (Seq<char>, nat),
            MmsError,
        >((t, 2 + text::utf8(t).len())),
{
    let val = text::utf8(t);
    let s = ber::tlv(0x1a, val) + rest;
    text::lemma_text_round_trip(t);
    asn1::law_length_round_trip(val.len(), val + rest);
    assert(s.skip(1) =~= asn1::length_octets(val.len()) + (val + rest));
    assert(s.subrange(2, (2 + val.len()) as int) =~= val);
}

/// A journal name with parts of at most 64 bytes is read back.
pub proof fn lemma_journal_name(d: Seq<char>, i: Seq<char>)
    requires
        text::utf8(d).len() <= MAX_JOURNAL_ID_LEN,
        text::utf8(i).len() <= MAX_JOURNAL_ID_LEN,
    ensures
        journal_name_at(object_name::domain_name_octets(text::utf8(d), text::utf8(i))) == Ok::<
            (Seq<char>, Seq<char>),
            MmsError,
        >((d, i)),
        object_name::domain_name_octets(text::utf8(d), text::utf8(i)).len() <= 140,
{
    let domain = text::utf8(d);
    let item = text::utf8(i);
    let first = ber::tlv(0x1a, domain);
    let second = ber::tlv(0x1a, item);
    let inner = first + second;
    let s = object_name::domain_name_octets(domain, item);
    assert(s[0] == 0xa1);
    ber::lemma_element_alone(0xa1, inner);
    let start = s.len() - inner.len();
    assert(s.skip(start) =~= first + second);
    lemma_visible_string(d, second, inner.len() as int);
    assert(s.skip(start + first.len()) =~= second + Seq::<u8>::empty());
    lemma_visible_string(i, Seq::empty(), inner.len() - first.len());
}

/// An instant that the six-octet form can express is read back.
proof fn lemma_instant(ms: u64)
    requires
        expressible(ms),
    ensures
        instant_at(binary_time::time6_octets(ms)) == Ok::<u64, MmsError>(ms),
        bound_at(ber::tlv(0x80, binary_time::time6_octets(ms))) == Ok::<u64, MmsError>(ms),
        binary_time::time6_octets(ms).len() == 6,
{
    binary_time::law_binary_time_round_trip(ms);
    ber::lemma_element_alone(0x80, binary_time::time6_octets(ms));
    assert(ber::tlv(0x80, binary_time::time6_octets(ms))[0] == 0x80);
}

/// A request with names of at most 64 bytes and instants that the wire can express decodes to
/// itself, whatever follows it.
#[verifier::spinoff_prover]
#[verifier::rlimit(40)]
pub proof fn law_journal_request_round_trip(r: JournalRequestView, rest: Seq<u8>)
    requires
        r.readable(),
    ensures
        JournalRequestView::parse(r.octets() + rest) == Ok::<JournalRequestView, MmsError>(r),
        r.octets().len() <= 180,
{
    let steps = journal_fields();
    let name = object_name::domain_name_octets(text::utf8(r.domain_id), text::utf8(r.item_id));
    lemma_journal_name(r.domain_id, r.item_id);
    let f0 = JournalRequestView::no_fields();
    let f1 = JournalFields { name: Some((r.domain_id, r.item_id)), ..f0 };
    assert(steps(f0, 0xa0, name) == Ok::<JournalFields, MmsError>(f1));
    ber::lemma_fold_tlv(0xa0, name, r.range.octets(), f0, steps);
    match r.range {
        JournalRangeView::TimeRange { start_ms, end_ms } => {
            lemma_instant(start_ms);
            lemma_instant(end_ms);
            let start = ber::tlv(0x80, binary_time::time6_octets(start_ms));
            let stop = ber::tlv(0x80, binary_time::time6_octets(end_ms));
            let f2 = JournalFields { start: Some(start_ms), ..f1 };
            let f3 = JournalFields { stop: Some(end_ms), ..f2 };
            assert(steps(f1, 0xa1, start) == Ok::<JournalFields, MmsError>(f2));
            assert(steps(f2, 0xa2, stop) == Ok::<JournalFields, MmsError>(f3));
            ber::lemma_fold_tlv(0xa1, start, ber::tlv(0xa2, stop), f1, steps);
            ber::lemma_fold_last(0xa2, stop, f2, steps);
        },
        JournalRangeView::StartAfter { starting_time_ms, entry_id } => {
            lemma_instant(starting_time_ms);
            let time = binary_time::time6_octets(starting_time_ms);
            let inner = ber::tlv(0x80, time) + ber::tlv(0x81, entry_id);
            let after = after_fields();
            let a0: AfterFields = (None, None);
            let a1: AfterFields = (Some(starting_time_ms), None);
            let a2: AfterFields = (Some(starting_time_ms), Some(entry_id));
            assert(after(a0, 0x80, time) == Ok::<AfterFields, MmsError>(a1));
            assert(after(a1, 0x81, entry_id) == Ok::<AfterFields, MmsError>(a2));
            ber::lemma_fold_tlv(0x80, time, ber::tlv(0x81, entry_id), a0, after);
            ber::lemma_fold_last(0x81, entry_id, a1, after);
            let f2 = JournalFields { after: Some(r.range), ..f1 };
            assert(steps(f1, 0xa5, inner) == Ok::<JournalFields, MmsError>(f2));
            ber::lemma_fold_last(0xa5, inner, f1, steps);
        },
    }
    lemma_journal_content(r.content(), rest);
}

/// The parts of a name that has been read are at most 64 bytes long.
spec fn name_within_limit(f: JournalFields) -> bool {
    f.name matches Some((d, i)) ==> text::utf8(d).len() <= MAX_JOURNAL_ID_LEN && text::utf8(i).len()
        <= MAX_JOURNAL_ID_LEN
}

/// A VisibleString that is read is at most 64 bytes long.
proof fn lemma_visible_string_limit(s: Seq<u8>, end: int)
    requires
        end <= s.len(),
    ensures
        visible_string_at(s, end) matches Ok((t, _)) ==> text::utf8(t).len() <= MAX_JOURNAL_ID_LEN,
{
    if let Ok((t, n)) = visible_string_at(s, end) {
        let (len, taken) = asn1::length_at(s.skip(1))->Ok_0;
        text::lemma_text_encodes_back(s.subrange((1 + taken) as int, (1 + taken + len) as int));
    }
}

proof fn lemma_names_stay_within_limit(s: Seq<u8>, f: JournalFields)
    requires
        name_within_limit(f),
        ber::fold(s, f, journal_fields()) is Ok,
    ensures
        name_within_limit(ber::fold(s, f, journal_fields())->Ok_0),
    decreases s.len(),
{
    if s.len() > 0 {
        let e = ber::element_at(s)->Ok_0;
        let steps = journal_fields();
        let next = steps(f, e.tag, e.val)->Ok_0;
        ber::lemma_element_bounds(s);
        if e.tag == 0xa0 {
            let wrapper = ber::element_at(e.val)->Ok_0;
            ber::lemma_element_bounds(e.val);
            let start = wrapper.size - wrapper.val.len();
            let end = wrapper.val.len() as int;
            lemma_visible_string_limit(e.val.skip(start), end);
            let (_, n) = visible_string_at(e.val.skip(start), end)->Ok_0;
            lemma_visible_string_limit(e.val.skip(start + n), end - n);
        }
        lemma_names_stay_within_limit(s.skip(e.size as int), next);
    }
}

/// A request that decodes names its journal in two parts of at most 64 bytes.
pub proof fn law_decoded_journal_within_limit(s: Seq<u8>)
    ensures
        JournalRequestView::parse(s) matches Ok(r) ==> text::utf8(r.domain_id).len()
            <= MAX_JOURNAL_ID_LEN && text::utf8(r.item_id).len() <= MAX_JOURNAL_ID_LEN,
{
    if JournalRequestView::parse(s) is Ok {
        let content = journal_content_at(s)->Ok_0;
        lemma_names_stay_within_limit(content, JournalRequestView::no_fields());
    }
}

/// The variables that data points are written as.
spec fn flat(vars: Seq<JournalVariableView>) -> Seq<RawVariableView>
    decreases vars.len(),
{
    if vars.len() == 0 {
        Seq::empty()
    } else {
        seq![
            RawVariableView::Data { tag: vars[0].data_ref, value: vars[0].value },
            RawVariableView::ReasonCode(vars[0].reason_code),
        ] + flat(vars.skip(1))
    }
}

/// A variable is read back from its name and its value.
proof fn lemma_raw_round_trip(name: Seq<char>, value: MmsDataView)
    requires
        value.readable(MAX_DATA_NESTING_DEPTH as int),
        raw_octets(name, value).len() <= 0xffff,
    ensures
        raw_at(ber::tlv(0x80, text::utf8(name)) + ber::tlv(0xa1, value.octets()))
            == raw_of_fields((Some(name), Some(value))),
{
    let steps = raw_fields();
    let tag = text::utf8(name);
    let val = value.octets();
    let f0: RawFields = (None, None);
    let f1: RawFields = (Some(name), None);
    let f2: RawFields = (Some(name), Some(value));
    text::lemma_text_round_trip(name);
    data::law_data_round_trip(value, Seq::empty(), 0, MAX_DATA_NESTING_DEPTH);
    assert(val + Seq::<u8>::empty() =~= val);
    assert(steps(f0, 0x80, tag) == Ok::<RawFields, MmsError>(f1));
    assert(steps(f1, 0xa1, val) == Ok::<RawFields, MmsError>(f2));
    ber::lemma_fold_tlv(0x80, tag, ber::tlv(0xa1, val), f0, steps);
    ber::lemma_fold_last(0xa1, val, f1, steps);
}

/// A run over variables takes one step for a variable that was written.
proof fn lemma_raw_list_step(
    name: Seq<char>,
    value: MmsDataView,
    v: RawVariableView,
    rest: Seq<u8>,
    acc: Seq<RawVariableView>,
)
    requires
        value.readable(MAX_DATA_NESTING_DEPTH as int),
        raw_octets(name, value).len() <= 0xffff,
        raw_of_fields((Some(name), Some(value))) == Ok::<RawVariableView, MmsError>(v),
    ensures
        raw_list_at(raw_octets(name, value) + rest, acc) == raw_list_at(rest, acc.push(v)),
{
    let content = ber::tlv(0x80, text::utf8(name)) + ber::tlv(0xa1, value.octets());
    lemma_raw_round_trip(name, value);
    ber::law_element_round_trip(0x30, content, rest);
    assert((raw_octets(name, value) + rest)[0] == 0x30);
}

/// Data points in a row are read back as the variables they were written as.
proof fn lemma_raw_list_round_trip(vars: Seq<JournalVariableView>, acc: Seq<RawVariableView>)
    requires
        forall|i: int| 0 <= i < vars.len() ==> (#[trigger] vars[i]).readable(),
        variables_octets(vars).len() <= 0xffff,
    ensures
        raw_list_at(variables_octets(vars), acc) == Ok::<Seq<RawVariableView>, MmsError>(
            acc + flat(vars),
        ),
    decreases vars.len(),
{
    if vars.len() == 0 {
        assert(acc + flat(vars) =~= acc);
    } else {
        let first = vars[0];
        let others = vars.skip(1);
        let rest = variables_octets(others);
        let value = RawVariableView::Data { tag: first.data_ref, value: first.value };
        let code = RawVariableView::ReasonCode(first.reason_code);
        let coded = raw_octets("ReasonCode"@, reason_value(first.reason_code));
        lemma_variables_first(vars);
        assert(first.readable());
        assert(variables_octets(vars) =~= raw_octets(first.data_ref, first.value) + (coded
            + rest));
        lemma_raw_list_step(first.data_ref, first.value, value, coded + rest, acc);
        lemma_raw_list_step(
            "ReasonCode"@,
            reason_value(first.reason_code),
            code,
            rest,
            acc.push(value),
        );
        assert forall|i: int| 0 <= i < others.len() implies (#[trigger] others[i]).readable() by {
            assert(others[i] == vars[i + 1]);
        }
        lemma_raw_list_round_trip(others, acc.push(value).push(code));
        assert(acc.push(value).push(code) + flat(others) =~= acc + flat(vars));
    }
}

/// The variables of data points pair up again.
proof fn lemma_paired(vars: Seq<JournalVariableView>, acc: Seq<JournalVariableView>)
    ensures
        paired(flat(vars), acc) == Ok::<Seq<JournalVariableView>, MmsError>(acc + vars),
    decreases vars.len(),
{
    if vars.len() == 0 {
        assert(acc + vars =~= acc);
    } else {
        let others = vars.skip(1);
        assert(flat(vars).skip(2) =~= flat(others));
        lemma_paired(others, acc.push(vars[0]));
        assert(acc.push(vars[0]) + others =~= acc + vars);
    }
}

/// An entry is read back from its content.
proof fn lemma_entry_round_trip(e: JournalEntryView)
    requires
        e.readable(),
        e.content().len() <= 0xffff,
    ensures
        entry_at(e.content()) == Ok::<JournalEntryView, MmsError>(e),
{
    let vars = variables_octets(e.variables);
    let list = ber::tlv(0xa1, vars);
    let time = binary_time::time6_octets(e.occurence_time_ms);
    lemma_instant(e.occurence_time_ms);
    lemma_raw_list_round_trip(e.variables, Seq::empty());
    assert(Seq::<RawVariableView>::empty() + flat(e.variables) =~= flat(e.variables));
    lemma_paired(e.variables, Seq::empty());
    assert(Seq::<JournalVariableView>::empty() + e.variables =~= e.variables);
    ber::lemma_element_alone(0xa1, vars);
    assert(list[0] == 0xa1);
    let c = content_fields();
    let c0: ContentFields = (None, Seq::empty());
    let c1: ContentFields = (Some(e.occurence_time_ms), Seq::empty());
    let c2: ContentFields = (Some(e.occurence_time_ms), e.variables);
    assert(c(c0, 0x80, time) == Ok::<ContentFields, MmsError>(c1));
    assert(c(c1, 0xa2, list) == Ok::<ContentFields, MmsError>(c2));
    ber::lemma_fold_tlv(0x80, time, ber::tlv(0xa2, list), c0, c);
    ber::lemma_fold_last(0xa2, list, c1, c);
    let steps = entry_fields();
    let app = seq![0x30u8, 0x00u8];
    let content = e.entry_content();
    let tail = ber::tlv(0xa2, content);
    let f0: EntryFields = (None, None, Seq::empty());
    let f1: EntryFields = (Some(e.entry_id), None, Seq::empty());
    let f2: EntryFields = (Some(e.entry_id), Some(e.occurence_time_ms), e.variables);
    assert(ber::tlv(0xa1, app) =~= seq![0xa1u8, 0x02u8, 0x30u8, 0x00u8]);
    assert(steps(f0, 0x80, e.entry_id) == Ok::<EntryFields, MmsError>(f1));
    assert(steps(f1, 0xa1, app) == Ok::<EntryFields, MmsError>(f1));
    assert(steps(f1, 0xa2, content) == Ok::<EntryFields, MmsError>(f2));
    ber::lemma_fold_tlv(0x80, e.entry_id, ber::tlv(0xa1, app) + tail, f0, steps);
    ber::lemma_fold_tlv(0xa1, app, tail, f1, steps);
    ber::lemma_fold_last(0xa2, content, f1, steps);
}

/// Entries in a row are read back in a row.
proof fn lemma_entry_list_round_trip(
    entries: Seq<JournalEntryView>,
    acc: Seq<JournalEntryView>,
)
    requires
        forall|i: int| 0 <= i < entries.len() ==> (#[trigger] entries[i]).readable(),
        entries_octets(entries).len() <= 0xffff,
    ensures
        entry_list_at(entries_octets(entries), acc) == Ok::<Seq<JournalEntryView>, MmsError>(
            acc + entries,
        ),
    decreases entries.len(),
{
    if entries.len() == 0 {
        assert(acc + entries =~= acc);
    } else {
        let first = entries[0];
        let others = entries.skip(1);
        lemma_entries_first(entries);
        assert(first.readable());
        ber::law_element_round_trip(0x30, first.content(), entries_octets(others));
        assert((first.octets() + entries_octets(others))[0] == 0x30);
        lemma_entry_round_trip(first);
        assert forall|i: int| 0 <= i < others.len() implies (#[trigger] others[i]).readable() by {
            assert(others[i] == entries[i + 1]);
        }
        lemma_entry_list_round_trip(others, acc.push(first));
        assert(acc.push(first) + others =~= acc + entries);
    }
}

/// A readable response whose content has at most 0xffff octets decodes to itself,
/// whatever follows it.
pub proof fn law_journal_response_round_trip(r: JournalResponseView, rest: Seq<u8>)
    requires
        r.readable(),
        r.content().len() <= 0xffff,
    ensures
        JournalResponseView::parse(r.octets() + rest) == Ok::<JournalResponseView, MmsError>(r),
{
    let steps = response_fields();
    let list = entries_octets(r.entries);
    let f0 = JournalResponseView::empty();
    let f1 = JournalResponseView { entries: r.entries, more_follows: None };
    lemma_journal_content(r.content(), rest);
    lemma_entry_list_round_trip(r.entries, Seq::empty());
    assert(Seq::<JournalEntryView>::empty() + r.entries =~= r.entries);
    assert(steps(f0, 0xa0, list) == Ok::<JournalResponseView, MmsError>(f1));
    ber::lemma_fold_tlv(0xa0, list, r.flag_octets(), f0, steps);
    if let Some(b) = r.more_follows {
        let flag = seq![
            if b {
                0xffu8
            } else {
                0x00u8
            },
        ];
        assert(steps(f1, 0x81, flag) == Ok::<JournalResponseView, MmsError>(r));
        ber::lemma_fold_last(0x81, flag, f1, steps);
    }
}

/// The invoke id and the service of the confirmed PDU at the start of `s`. An invoke id
/// of any length is accepted, and its low 32 bits are kept.
pub open spec fn journal_confirmed_at(s: Seq<u8>, tag: u8) -> Result<(u32, Seq<u8>), MmsError> {
    match ber::tagged_at(s, tag) {
        Err(e) => Err(e),
        Ok(e) => if e.val.len() == 0 || e.val[0] != 0x02 {
            Err(MmsError::TruncatedPdu)
        } else {
            match ber::element_at(e.val) {
                Err(x) => Err(x),
                Ok(id) => Ok(
                    (
                        (asn1::uint(id.val) % 0x1_0000_0000) as u32,
                        e.val.skip(id.size as int),
                    ),
                ),
            }
        },
    }
}

/// The invoke id and the request of the confirmed PDU at the start of `s`.
pub open spec fn confirmed_request_at(s: Seq<u8>) -> Result<(u32, JournalRequestView), MmsError> {
    match journal_confirmed_at(s, 0xa0) {
        Err(e) => Err(e),
        Ok((id, service)) => match JournalRequestView::parse(service) {
            Err(e) => Err(e),
            Ok(r) => Ok((id, r)),
        },
    }
}

/// The invoke id and the response of the confirmed PDU at the start of `s`.
pub open spec fn confirmed_response_at(s: Seq<u8>) -> Result<
    (u32, JournalResponseView),
    MmsError,
> {
    match journal_confirmed_at(s, 0xa1) {
        Err(e) => Err(e),
        Ok((id, service)) => match JournalResponseView::parse(service) {
            Err(e) => Err(e),
            Ok(r) => Ok((id, r)),
        },
    }
}

/// Encodes a ReadJournalRequest as a complete ConfirmedRequestPdu, outer `0xa0`
/// tag included.
pub fn encode_confirmed_read_journal_request(
    invoke_id: u32,
    req: &ReadJournalRequest,
    buf: &mut BytesMut,
)
    requires
        buffer::contents(*old(buf)).len() + confirmed::confirmed_octets(
            0xa0,
            invoke_id,
            req@.octets(),
        ).len() <= isize::MAX,
    ensures
        buffer::contents(*final(buf)) == buffer::contents(*old(buf)) + confirmed::confirmed_octets(
            0xa0,
            invoke_id,
            req@.octets(),
        ),
{
    let mut service: BytesMut = BytesMut::new();
    req.encode(&mut service);
    assert(buffer::contents(service) =~= req@.octets());
    put_confirmed(0xa0, invoke_id, &service, buf);
}

/// Encodes a ReadJournalResponse as a complete ConfirmedResponsePdu, outer `0xa1`
/// tag included.
pub fn encode_confirmed_read_journal_response(
    invoke_id: u32,
    resp: &ReadJournalResponse,
    buf: &mut BytesMut,
)
    requires
        buffer::contents(*old(buf)).len() + confirmed::confirmed_octets(
            0xa1,
            invoke_id,
            resp@.octets(),
        ).len() <= isize::MAX,
    ensures
        buffer::contents(*final(buf)) == buffer::contents(*old(buf)) + confirmed::confirmed_octets(
            0xa1,
            invoke_id,
            resp@.octets(),
        ),
{
    let mut service: BytesMut = BytesMut::new();
    resp.encode(&mut service);
    assert(buffer::contents(service) =~= resp@.octets());
    put_confirmed(0xa1, invoke_id, &service, buf);
}

/// Decodes the request inside a ConfirmedRequestPdu; `data` starts at `0xa0`.
pub fn decode_confirmed_read_journal_request(data: &[u8]) -> (r: Result<
    (u32, ReadJournalRequest),
    MmsError,
>)
    ensures
        confirmed::agrees_with_id(r, confirmed_request_at(data@)),
{
    let (invoke_id, service) = decode_confirmed_pdu_inner(data, 0xa0)?;
    let req: ReadJournalRequest = ReadJournalRequest::decode(service)?;
    Ok((invoke_id, req))
}

/// Decodes the response inside a ConfirmedResponsePdu; `data` starts at `0xa1`.
pub fn decode_confirmed_read_journal_response(data: &[u8]) -> (r: Result<
    (u32, ReadJournalResponse),
    MmsError,
>)
    ensures
        confirmed::agrees_with_id(r, confirmed_response_at(data@)),
{
    let (invoke_id, service) = decode_confirmed_pdu_inner(data, 0xa1)?;
    let resp: ReadJournalResponse = ReadJournalResponse::decode(service)?;
    Ok((invoke_id, resp))
}

/// Extracts the invokeID and the service; an invokeID of any length is accepted.
fn decode_confirmed_pdu_inner<'a>(data: &'a [u8], outer_tag: u8) -> (r: Result<
    (u32, &'a [u8]),
    MmsError,
>)
    ensures
        match journal_confirmed_at(data@, outer_tag) {
            Ok((id, service)) => r matches Ok((i, x)) && i == id && x@ == service,
            Err(e) => r == Err::<(u32, &'a [u8]), MmsError>(e),
        },
{
    let inner: &'a [u8] = take_content(data, outer_tag)?;
    if inner.len() == 0 || inner[0] != 0x02 {
        return Err(MmsError::TruncatedPdu);
    }
    assert(inner@.skip(0) =~= inner@);
    let t: Tlv = take_element(inner, 0)?;
    let invoke_id: u32 = low_u32(t.val);
    let service: &'a [u8] = &inner[t.size..inner.len()];
    assert(service@ =~= inner@.skip(t.size as int));
    Ok((invoke_id, service))
}

/// The low 32 bits of a big-endian number of any length.
fn low_u32(data: &[u8]) -> (r: u32)
    ensures
        r == asn1::uint(data@) % 0x1_0000_0000,
{
    let mut id: u32 = 0;
    let mut i: usize = 0;
    assert(data@.take(0) =~= Seq::empty());
    while i < data.len()
        invariant
            i <= data.len(),
            id == asn1::uint(data@.take(i as int)) % 0x1_0000_0000,
        decreases data.len() - i,
    {
        proof {
            let next = data@.take(i + 1);
            assert(next.drop_last() =~= data@.take(i as int));
            assert(next.last() == data@[i as int]);
        }
        id = (id % 0x100_0000) * 256 + data[i] as u32;
        i = i + 1;
    }
    assert(data@.take(data@.len() as int) =~= data@);
    id
}

/// A confirmed PDU gives back its invoke id, whatever it is, and its service.
proof fn lemma_journal_confirmed(tag: u8, invoke_id: u32, service: Seq<u8>, rest: Seq<u8>)
    requires
        confirmed::confirmed_content(invoke_id, service).len() <= 0xffff,
    ensures
        journal_confirmed_at(
            confirmed::confirmed_octets(tag, invoke_id, service) + rest,
            tag,
        ) == Ok::<(u32, Seq<u8>), MmsError>((invoke_id, service)),
{
    let id = integer::unsigned_octets(invoke_id as u64);
    integer::law_unsigned_round_trip(invoke_id as u64);
    let content = confirmed::confirmed_content(invoke_id, service);
    ber::law_element_round_trip(tag, content, rest);
    ber::law_element_round_trip(0x02, id, service);
    assert(content[0] == 0x02);
}

/// A confirmed ReadJournalRequest gives back its invoke id, whatever it is, and its
/// request, whatever follows it.
pub proof fn law_confirmed_journal_request(invoke_id: u32, r: JournalRequestView, rest: Seq<u8>)
    requires
        r.readable(),
    ensures
        confirmed_request_at(confirmed::confirmed_octets(0xa0, invoke_id, r.octets()) + rest)
            == Ok::<(u32, JournalRequestView), MmsError>((invoke_id, r)),
{
    law_journal_request_round_trip(r, Seq::empty());
    integer::law_unsigned_round_trip(invoke_id as u64);
    assert(r.octets() + Seq::<u8>::empty() =~= r.octets());
    lemma_journal_confirmed(0xa0, invoke_id, r.octets(), rest);
}

/// A confirmed ReadJournalResponse gives back its invoke id, whatever it is, and its
/// response, whatever follows it.
pub proof fn law_confirmed_journal_response(
    invoke_id: u32,
    r: JournalResponseView,
    rest: Seq<u8>,
)
    requires
        r.readable(),
        confirmed::confirmed_content(invoke_id, r.octets()).len() <= 0xffff,
    ensures
        confirmed_response_at(confirmed::confirmed_octets(0xa1, invoke_id, r.octets()) + rest)
            == Ok::<(u32, JournalResponseView), MmsError>((invoke_id, r)),
{
    law_journal_response_round_trip(r, Seq::empty());
    assert(r.octets() + Seq::<u8>::empty() =~= r.octets());
    lemma_journal_confirmed(0xa1, invoke_id, r.octets(), rest);
}

} // verus!
