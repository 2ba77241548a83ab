//! The ObjectName CHOICE.

use bytes::BytesMut;
use vstd::prelude::*;

use crate::asn1;
use crate::asn1::encode_length;
use crate::buffer;
use crate::mms::error::MmsError;
use crate::mms::pdu::ber;
use crate::mms::pdu::ber::{put_tlv, take_element, take_tagged, Tlv};
use crate::text;

verus! {

broadcast use ber::group_element_sizes;

/// Maximum length in bytes of an ObjectName identifier.
///
/// An identifier longer than this is rejected rather than silently truncated.
pub const MAX_IDENTIFIER_LEN: usize = 64;

/// The MMS ObjectName CHOICE.
///
/// Wire tags:
/// - vmd-specific: `0x80`, CONTEXT `[0]` IMPLICIT primitive
/// - domain-specific: `0xa1`, CONTEXT `[1]` IMPLICIT SEQUENCE
/// - aa-specific: `0x82`, CONTEXT `[2]` IMPLICIT primitive
#[derive(Debug, Clone, PartialEq, Eq)]
pub enum ObjectName {
    /// `0x80`: vmd-specific, a name unique across the VMD.
    VmdSpecific(String),
    /// `0xa1`: domain-specific, a domain name and an item name.
    DomainSpecific {
        /// Domain that holds the object.
        domain_id: String,
        /// Name of the object within the domain.
        item_id: String,
    },
    /// `0x82`: aa-specific, scoped to the association.
    AaSpecific(String),
}

/// An ObjectName with its identifiers as texts.
#[verifier::ext_equal]
pub enum ObjectNameView {
    /// vmd-specific.
    VmdSpecific(Seq<char>),
    /// domain-specific.
    DomainSpecific {
        /// Domain that holds the object.
        domain_id: Seq<char>,
        /// Name of the object within the domain.
        item_id: Seq<char>,
    },
    /// aa-specific.
    AaSpecific(Seq<char>),
}

impl View for ObjectName {
    type V = ObjectNameView;

    open spec fn view(&self) -> ObjectNameView {
        match *self {
            ObjectName::VmdSpecific(name) => ObjectNameView::VmdSpecific(name@),
            ObjectName::DomainSpecific { domain_id, item_id } => ObjectNameView::DomainSpecific {
                domain_id: domain_id@,
                item_id: item_id@,
            },
            ObjectName::AaSpecific(name) => ObjectNameView::AaSpecific(name@),
        }
    }
}

/// The octets of a domain-specific name: both identifiers, under the tag `0xa1`.
pub open spec fn domain_name_octets(domain: Seq<u8>, item: Seq<u8>) -> Seq<u8> {
    ber::tlv(0xa1, ber::tlv(0x1a, domain) + ber::tlv(0x1a, item))
}

/// An identifier of at most 64 bytes.
pub open spec fn identifier_at(s: Seq<u8>) -> Result<Seq<char>, MmsError> {
    if s.len() > MAX_IDENTIFIER_LEN {
        Err(MmsError::IdentifierTooLong { actual: s.len() as usize })
    } else {
        match text::text_at(s) {
            Some(t) => Ok(t),
            None => Err(MmsError::InvalidUtf8),
        }
    }
}

/// The content of a domain-specific name: two identifiers, each tagged `0x1a`.
pub open spec fn domain_specific_at(s: Seq<u8>) -> Result<(Seq<char>, Seq<char>), MmsError> {
    if s.len() < 2 {
        Err(MmsError::TruncatedPdu)
    } else {
        match ber::tagged_at(s, 0x1a) {
            Err(e) => Err(e),
            Ok(domain) => match identifier_at(domain.val) {
                Err(e) => Err(e),
                Ok(domain_id) => match ber::tagged_at(s.skip(domain.size as int), 0x1a) {
                    Err(e) => Err(e),
                    Ok(item) => match identifier_at(item.val) {
                        Err(e) => Err(e),
                        Ok(item_id) => Ok((domain_id, item_id)),
                    },
                },
            },
        }
    }
}

impl ObjectNameView {
    /// The encoding of the name.
    pub open spec fn octets(self) -> Seq<u8> {
        match self {
            ObjectNameView::VmdSpecific(name) => ber::tlv(0x80, text::utf8(name)),
            ObjectNameView::DomainSpecific { domain_id, item_id } => domain_name_octets(
                text::utf8(domain_id),
                text::utf8(item_id),
            ),
            ObjectNameView::AaSpecific(name) => ber::tlv(0x82, text::utf8(name)),
        }
    }

    /// The name at the start of `s`, and how many octets it takes.
    pub open spec fn parse(s: Seq<u8>) -> Result<(ObjectNameView, nat), MmsError> {
        match ber::element_at(s) {
            Err(e) => Err(e),
            Ok(e) => if e.tag == 0x80 {
                match identifier_at(e.val) {
                    Err(x) => Err(x),
                    Ok(t) => Ok((ObjectNameView::VmdSpecific(t), e.size)),
                }
            } else if e.tag == 0xa1 {
                match domain_specific_at(e.val) {
                    Err(x) => Err(x),
                    Ok((domain_id, item_id)) => Ok(
                        (ObjectNameView::DomainSpecific { domain_id, item_id }, e.size),
                    ),
                }
            } else if e.tag == 0x82 {
                match identifier_at(e.val) {
                    Err(x) => Err(x),
                    Ok(t) => Ok((ObjectNameView::AaSpecific(t), e.size)),
                }
            } else {
                Err(MmsError::UnknownObjectNameTag(e.tag))
            },
        }
    }

    /// Every identifier is at most 64 bytes long.
    pub open spec fn within_limit(self) -> bool {
        match self {
            ObjectNameView::VmdSpecific(name) => text::utf8(name).len() <= MAX_IDENTIFIER_LEN,
            ObjectNameView::DomainSpecific { domain_id, item_id } => text::utf8(domain_id).len()
                <= MAX_IDENTIFIER_LEN && text::utf8(item_id).len() <= MAX_IDENTIFIER_LEN,
            ObjectNameView::AaSpecific(name) => text::utf8(name).len() <= MAX_IDENTIFIER_LEN,
        }
    }
}

/// Reads an identifier of at most 64 bytes.
fn decode_identifier(data: &[u8]) -> (r: Result<String, MmsError>)
    ensures
        ber::agrees(r, identifier_at(data@)),
{
    if data.len() > MAX_IDENTIFIER_LEN {
        return Err(MmsError::IdentifierTooLong { actual: data.len() });
    }
    match text::decode_text(data) {
        Some(s) => Ok(s),
        None => Err(MmsError::InvalidUtf8),
    }
}

/// Decodes the content of a domain-specific name, what the `0xa1` wrapper holds.
fn decode_domain_specific(val: &[u8]) -> (r: Result<(String, String), MmsError>)
    ensures
        match domain_specific_at(val@) {
            Ok((d, i)) => r matches Ok((x, y)) && x@ == d && y@ == i,
            Err(e) => r == Err::<(String, String), MmsError>(e),
        },
{
    if val.len() < 2 {
        return Err(MmsError::TruncatedPdu);
    }
    assert(val@.skip(0) =~= val@);
    let domain: Tlv = take_tagged(val, 0, 0x1a)?;
    let domain_id: String = decode_identifier(domain.val)?;
    let item: Tlv = take_tagged(val, domain.size, 0x1a)?;
    let item_id: String = decode_identifier(item.val)?;
    Ok((domain_id, item_id))
}

/// Writes a domain-specific name.
pub fn put_domain_name(domain: &[u8], item: &[u8], buf: &mut BytesMut)
    requires
        buffer::contents(*old(buf)).len() + domain_name_octets(domain@, item@).len() <= isize::MAX,
    ensures
        buffer::contents(*final(buf)) == buffer::contents(*old(buf)) + domain_name_octets(
            domain@,
            item@,
        ),
{
    let mut inner: BytesMut = BytesMut::new();
    put_tlv(0x1a, domain, &mut inner);
    put_tlv(0x1a, item, &mut inner);
    assert(buffer::contents(inner) =~= ber::tlv(0x1a, domain@) + ber::tlv(0x1a, item@));
    put_tlv(0xa1, &inner, buf);
}

impl ObjectName {
    /// Encodes the ObjectName into `buf`.
    pub fn encode(&self, buf: &mut BytesMut)
        requires
            buffer::contents(*old(buf)).len() + self@.octets().len() <= isize::MAX,
        ensures
            buffer::contents(*final(buf)) == buffer::contents(*old(buf)) + self@.octets(),
    {
        match self {
            ObjectName::VmdSpecific(name) => put_tlv(0x80, name.as_str().as_bytes(), buf),
            ObjectName::DomainSpecific { domain_id, item_id } => put_domain_name(
                domain_id.as_str().as_bytes(),
                item_id.as_str().as_bytes(),
                buf,
            ),
            ObjectName::AaSpecific(name) => put_tlv(0x82, name.as_str().as_bytes(), buf),
        }
    }

    /// Decodes an ObjectName; `data` starts at the tag byte. Returns the name and the
    /// number of bytes it takes.
    ///
    /// An identifier longer than 64 bytes returns `MmsError::IdentifierTooLong`
    /// rather than being silently truncated.
    pub fn decode(data: &[u8]) -> (r: Result<(Self, usize), MmsError>)
        ensures
            ber::agrees_at(r, ObjectNameView::parse(data@)),
            r matches Ok((_, n)) ==> 2 <= n <= data.len(),
    {
        assert(data@.skip(0) =~= data@);
        let t: Tlv = take_element(data, 0)?;
        match t.tag {
            0x80 => {
                let name: String = decode_identifier(t.val)?;
                Ok((ObjectName::VmdSpecific(name), t.size))
            },
            0xa1 => {
                let (domain_id, item_id) = decode_domain_specific(t.val)?;
                Ok((ObjectName::DomainSpecific { domain_id, item_id }, t.size))
            },
            0x82 => {
                let name: String = decode_identifier(t.val)?;
                Ok((ObjectName::AaSpecific(name), t.size))
            },
            other => Err(MmsError::UnknownObjectNameTag(other)),
        }
    }

    /// Returns the encoded length in bytes without writing anything.
    pub fn encoded_len(&self) -> (n: usize)
        requires
            self@.octets().len() <= usize::MAX,
        ensures
            n == self@.octets().len(),
    {
        match self {
            ObjectName::VmdSpecific(name) => {
                let len: usize = name.as_str().as_bytes().len();
                1 + ber_len_size(len) + len
            },
            ObjectName::DomainSpecific { domain_id, item_id } => {
                let dlen: usize = domain_id.as_str().as_bytes().len();
                let ilen: usize = item_id.as_str().as_bytes().len();
                let domain: usize = 1 + ber_len_size(dlen) + dlen;
                let item: usize = 1 + ber_len_size(ilen) + ilen;
                1 + ber_len_size(domain + item) + domain + item
            },
            ObjectName::AaSpecific(name) => {
                let len: usize = name.as_str().as_bytes().len();
                1 + ber_len_size(len) + len
            },
        }
    }
}

/// Returns the number of bytes a BER length field needs.
pub fn ber_len_size(len: usize) -> (n: usize)
    ensures
        n == asn1::length_width(len as nat),
{
    if len < 128 {
        1
    } else if len <= 0xff {
        2
    } else {
        3
    }
}

/// A name whose identifiers are at most 64 bytes decodes to itself, whatever follows it.
pub proof fn law_object_name_round_trip(name: ObjectNameView, rest: Seq<u8>)
    requires
        name.within_limit(),
    ensures
        ObjectNameView::parse(name.octets() + rest) == Ok::<(ObjectNameView, nat), MmsError>(
            (name, name.octets().len()),
        ),
        name.octets().len() <= 140,
{
    match name {
        ObjectNameView::VmdSpecific(t) => {
            ber::law_element_round_trip(0x80, text::utf8(t), rest);
            text::lemma_text_round_trip(t);
        },
        ObjectNameView::AaSpecific(t) => {
            ber::law_element_round_trip(0x82, text::utf8(t), rest);
            text::lemma_text_round_trip(t);
        },
        ObjectNameView::DomainSpecific { domain_id, item_id } => {
            let d = text::utf8(domain_id);
            let i = text::utf8(item_id);
            let inner = ber::tlv(0x1a, d) + ber::tlv(0x1a, i);
            ber::law_element_round_trip(0xa1, inner, rest);
            ber::law_element_round_trip(0x1a, d, ber::tlv(0x1a, i));
            ber::lemma_element_alone(0x1a, i);
            text::lemma_text_round_trip(domain_id);
            text::lemma_text_round_trip(item_id);
        },
    }
}

/// Identifiers are never cut short: a name that decodes has none of more than 64 bytes, and
/// so encodes to octets that decode to it again.
pub proof fn law_decoded_name_within_limit(s: Seq<u8>, rest: Seq<u8>)
    requires
        ObjectNameView::parse(s) is Ok,
    ensures
        ({
            let name = ObjectNameView::parse(s)->Ok_0.0;
            &&& name.within_limit()
            &&& ObjectNameView::parse(name.octets() + rest) == Ok::<
                (ObjectNameView, nat),
                MmsError,
            >((name, name.octets().len()))
        }),
{
    let name = ObjectNameView::parse(s)->Ok_0.0;
    let e = ber::element_at(s)->Ok_0;
    if e.tag == 0xa1 {
        let domain = ber::tagged_at(e.val, 0x1a)->Ok_0;
        let item = ber::tagged_at(e.val.skip(domain.size as int), 0x1a)->Ok_0;
        text::lemma_text_encodes_back(domain.val);
        text::lemma_text_encodes_back(item.val);
    } else {
        text::lemma_text_encodes_back(e.val);
    }
    law_object_name_round_trip(name, rest);
}

} // verus!
