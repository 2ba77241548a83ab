//! The ConfirmedRequest and ConfirmedResponse wrappers that every service shares.
//!
//! ```text
//! 0xa0 / 0xa1 <len>    -- confirmedRequestPdu [0] / confirmedResponsePdu [1]
//!   0x02 <len> <id>    -- invokeID INTEGER
//!   <service>          -- the service element, which carries its own tag
//! ```

use bytes::BytesMut;
use vstd::prelude::*;

use crate::buffer;
use crate::mms::error::MmsError;
use crate::mms::pdu::ber;
use crate::mms::pdu::ber::{put_tlv, take_content, take_element, Tlv};
use crate::mms::pdu::integer;
use crate::mms::pdu::integer::{decode_u32_from_bytes, encode_unsigned_int_minimal};

verus! {

broadcast use ber::group_element_sizes;

/// The content of a confirmed PDU: the invoke id, then the service.
pub open spec fn confirmed_content(invoke_id: u32, service: Seq<u8>) -> Seq<u8> {
    ber::tlv(0x02, integer::unsigned_octets(invoke_id as u64)) + service
}

/// A confirmed PDU under its tag.
pub open spec fn confirmed_octets(tag: u8, invoke_id: u32, service: Seq<u8>) -> Seq<u8> {
    ber::tlv(tag, confirmed_content(invoke_id, service))
}

/// The invoke id at the start of `s`, an INTEGER of one to four octets, and what follows
/// it.
pub open spec fn invoke_id_at(s: Seq<u8>) -> Result<(u32, Seq<u8>), MmsError> {
    if s.len() == 0 || s[0] != 0x02 {
        Err(MmsError::TruncatedPdu)
    } else {
        match ber::element_at(s) {
            Err(e) => Err(e),
            Ok(e) => match integer::unsigned_at(e.val, 4) {
                Err(x) => Err(x),
                Ok(id) => Ok((id as u32, s.skip(e.size as int))),
            },
        }
    }
}

/// The invoke id and the service of the confirmed PDU at the start of `s`, which must
/// have this tag.
pub open spec fn confirmed_at(s: Seq<u8>, tag: u8) -> Result<(u32, Seq<u8>), MmsError> {
    match ber::tagged_at(s, tag) {
        Err(e) => Err(e),
        Ok(e) => invoke_id_at(e.val),
    }
}

/// What a service reader makes of a confirmed PDU: the invoke id, and the service that
/// `read` finds in the rest.
pub open spec fn service_at<V>(
    s: Seq<u8>,
    tag: u8,
    read: spec_fn(Seq<u8>) -> Result<V, MmsError>,
) -> Result<(u32, V), MmsError> {
    match confirmed_at(s, tag) {
        Err(e) => Err(e),
        Ok((id, service)) => match read(service) {
            Err(e) => Err(e),
            Ok(v) => Ok((id, v)),
        },
    }
}

/// The result agrees with what was to be read: the same error, or the same invoke id with
/// a service of this view.
pub open spec fn agrees_with_id<T: View>(
    r: Result<(u32, T), MmsError>,
    want: Result<(u32, T::V), MmsError>,
) -> bool {
    match want {
        Ok((id, v)) => r matches Ok((i, x)) && i == id && x@ == v,
        Err(e) => r == Err::<(u32, T), MmsError>(e),
    }
}

/// Encodes a confirmed PDU around an encoded service.
pub(crate) fn put_confirmed(tag: u8, invoke_id: u32, service: &[u8], buf: &mut BytesMut)
    requires
        buffer::contents(*old(buf)).len() + confirmed_octets(tag, invoke_id, service@).len()
            <= isize::MAX,
    ensures
        buffer::contents(*final(buf)) == buffer::contents(*old(buf)) + confirmed_octets(
            tag,
            invoke_id,
            service@,
        ),
{
    let mut inner: BytesMut = BytesMut::new();
    encode_invoke_id(invoke_id, &mut inner);
    inner.extend_from_slice(service);
    assert(buffer::contents(inner) =~= confirmed_content(invoke_id, service@));
    put_tlv(tag, &inner, buf);
}

/// Encodes an invokeID as a UNIVERSAL INTEGER, tag `0x02`.
fn encode_invoke_id(invoke_id: u32, buf: &mut BytesMut)
    requires
        buffer::contents(*old(buf)).len() + ber::tlv(
            0x02,
            integer::unsigned_octets(invoke_id as u64),
        ).len() <= isize::MAX,
    ensures
        buffer::contents(*final(buf)) == buffer::contents(*old(buf)) + ber::tlv(
            0x02,
            integer::unsigned_octets(invoke_id as u64),
        ),
{
    put_tlv(0x02, &encode_unsigned_int_minimal(invoke_id as u64), buf);
}

/// Extracts the invokeID and the service of a ConfirmedRequest or ConfirmedResponse PDU;
/// `data` starts at the outer tag.
///
/// The returned slice starts at the service tag.
pub(crate) fn decode_confirmed_pdu_inner<'a>(data: &'a [u8], outer_tag: u8) -> (r: Result<
    (u32, &'a [u8]),
    MmsError,
>)
    ensures
        match confirmed_at(data@, outer_tag) {
            Ok((id, service)) => r matches Ok((i, x)) && i == id && x@ == service,
            Err(e) => r == Err::<(u32, &'a [u8]), MmsError>(e),
        },
{
    let inner: &'a [u8] = take_content(data, outer_tag)?;
    // the invokeID is the first element, a UNIVERSAL INTEGER with tag 0x02
    if inner.len() == 0 || inner[0] != 0x02 {
        return Err(MmsError::TruncatedPdu);
    }
    assert(inner@.skip(0) =~= inner@);
    let t: Tlv = take_element(inner, 0)?;
    let invoke_id: u32 = decode_u32_from_bytes(t.val)?;
    let service: &'a [u8] = &inner[t.size..inner.len()];
    assert(service@ =~= inner@.skip(t.size as int));
    Ok((invoke_id, service))
}

/// A confirmed PDU gives back its invoke id and its service, whatever follows it, while
/// the id is below 0x8000_0000 and the content has at most 0xffff octets.
pub proof fn law_confirmed_round_trip(tag: u8, invoke_id: u32, service: Seq<u8>, rest: Seq<u8>)
    requires
        invoke_id < 0x8000_0000,
        confirmed_content(invoke_id, service).len() <= 0xffff,
    ensures
        confirmed_at(confirmed_octets(tag, invoke_id, service) + rest, tag) == Ok::<
            (u32, Seq<u8>),
            MmsError,
        >((invoke_id, service)),
{
    let id = integer::unsigned_octets(invoke_id as u64);
    integer::law_uint_round_trip(invoke_id as nat);
    integer::lemma_uint_octets_width(invoke_id as nat);
    ber::law_element_round_trip(tag, confirmed_content(invoke_id, service), rest);
    ber::law_element_round_trip(0x02, id, service);
}

/// As `law_confirmed_round_trip`, with the service read back too.
pub proof fn lemma_service_round_trip<V>(
    tag: u8,
    invoke_id: u32,
    service: Seq<u8>,
    rest: Seq<u8>,
    read: spec_fn(Seq<u8>) -> Result<V, MmsError>,
    v: V,
)
    requires
        invoke_id < 0x8000_0000,
        confirmed_content(invoke_id, service).len() <= 0xffff,
        read(service) == Ok::<V, MmsError>(v),
    ensures
        service_at(confirmed_octets(tag, invoke_id, service) + rest, tag, read) == Ok::<
            (u32, V),
            MmsError,
        >((invoke_id, v)),
{
    law_confirmed_round_trip(tag, invoke_id, service, rest);
}

} // verus!
