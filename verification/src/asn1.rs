//! The BER core shared by every codec: definite lengths and the nesting ceiling.

use bytes::BytesMut;
use vstd::prelude::*;

use crate::buffer;

verus! {

/// Default local ceiling on the nesting of decoded Data values.
pub const MAX_DATA_NESTING_DEPTH: u8 = 32;

/// Errors of the BER length decoder.
#[derive(Debug, Clone, Copy, PartialEq, Eq)]
pub enum Asn1Error {
    /// The input ends inside the length field.
    TruncatedInput,
    /// The length field is not a definite form of one to four length octets.
    LengthTooLong {
        /// Number of length octets the field announces.
        octets: usize,
    },
}

/// The value of a big-endian octet string read as an unsigned number.
pub open spec fn uint(s: Seq<u8>) -> nat
    decreases s.len(),
{
    if s.len() == 0 {
        0
    } else {
        uint(s.drop_last()) * 256 + s.last() as nat
    }
}

/// The octets of a BER definite length: the short form below 128, otherwise a long form
/// of one or two length octets. A length above 0xffff keeps only its low 16 bits.
pub open spec fn length_octets(n: nat) -> Seq<u8> {
    if n < 128 {
        seq![n as u8]
    } else if n <= 0xff {
        seq![0x81, n as u8]
    } else {
        seq![0x82, (n / 256 % 256) as u8, (n % 256) as u8]
    }
}

/// How many octets `length_octets` has.
pub open spec fn length_width(n: nat) -> nat {
    if n < 128 {
        1
    } else if n <= 0xff {
        2
    } else {
        3
    }
}

/// What a BER length field at the start of `s` says: the length, and how many octets the
/// field takes.
pub open spec fn length_at(s: Seq<u8>) -> Result<(nat, nat), Asn1Error> {
    if s.len() == 0 {
        Err(Asn1Error::TruncatedInput)
    } else if s[0] < 0x80 {
        Ok((s[0] as nat, 1))
    } else {
        let octets = s[0] - 0x80;
        if octets == 0 || octets > 4 {
            Err(Asn1Error::LengthTooLong { octets: octets as usize })
        } else if s.len() < 1 + octets {
            Err(Asn1Error::TruncatedInput)
        } else {
            Ok((uint(s.subrange(1, 1 + octets)), (1 + octets) as nat))
        }
    }
}

/// Appends a BER definite length to `buf`.
pub fn encode_length(len: usize, buf: &mut BytesMut)
    requires
        buffer::contents(*old(buf)).len() + length_width(len as nat) <= isize::MAX,
    ensures
        buffer::contents(*final(buf)) == buffer::contents(*old(buf)) + length_octets(len as nat),
{
    if len < 128 {
        buf.extend_from_slice(&[len as u8]);
    } else if len <= 0xff {
        buf.extend_from_slice(&[0x81, len as u8]);
    } else {
        buf.extend_from_slice(&[0x82, (len / 256 % 256) as u8, (len % 256) as u8]);
    }
}

/// Reads the BER definite length at the start of `data`: the length, and how many octets
/// the field takes.
pub fn decode_length(data: &[u8]) -> (r: Result<(usize, usize), Asn1Error>)
    ensures
        match length_at(data@) {
            Ok((len, taken)) => r matches Ok((l, t)) && l == len && t == taken,
            Err(e) => r == Err::<(usize, usize), Asn1Error>(e),
        },
        r matches Ok((l, t)) ==> l <= 0xffff_ffff && 1 <= t <= 5 && t <= data.len(),
{
    if data.len() == 0 {
        return Err(Asn1Error::TruncatedInput);
    }
    let first: u8 = data[0];
    if first < 0x80 {
        return Ok((first as usize, 1));
    }
    let octets: usize = (first - 0x80) as usize;
    if octets == 0 || octets > 4 {
        return Err(Asn1Error::LengthTooLong { octets });
    }
    if data.len() < 1 + octets {
        return Err(Asn1Error::TruncatedInput);
    }
    let mut len: u32 = 0;
    let mut i: usize = 0;
    while i < octets
        invariant
            i <= octets <= 4,
            1 + octets <= data.len(),
            len == uint(data@.subrange(1, 1 + i)),
            i == 0 ==> len == 0,
            i == 1 ==> len < 0x100,
            i == 2 ==> len < 0x1_0000,
            i == 3 ==> len < 0x100_0000,
        decreases octets - i,
    {
        proof {
            let next = data@.subrange(1, 2 + i);
            assert(next.drop_last() =~= data@.subrange(1, 1 + i));
            assert(next.last() == data@[1 + i]);
        }
        len = len * 256 + data[1 + i] as u32;
        i = i + 1;
    }
    Ok((len as usize, 1 + octets))
}

/// The decode ceiling in force: the smaller of the local ceiling and the negotiated one.
///
/// Without a negotiated value the local ceiling applies alone.
pub fn effective_nesting_cap(local: u8, negotiated: Option<u8>) -> (cap: u8)
    ensures
        cap == nesting_cap(local, negotiated),
{
    match negotiated {
        Some(n) => if n < local {
            n
        } else {
            local
        },
        None => local,
    }
}

/// The smaller of the local ceiling and the negotiated one, if there is one.
pub open spec fn nesting_cap(local: u8, negotiated: Option<u8>) -> u8 {
    match negotiated {
        Some(n) if n < local => n,
        _ => local,
    }
}

/// A negotiated level never raises the ceiling above the local one, nor above itself.
pub proof fn law_nesting_cap_bounds(local: u8, negotiated: Option<u8>)
    ensures
        nesting_cap(local, negotiated) <= local,
        negotiated matches Some(n) ==> nesting_cap(local, negotiated) <= n,
        nesting_cap(local, negotiated) == local || negotiated == Some(
            nesting_cap(local, negotiated),
        ),
{
}

/// The length a decoder reads is the length that was written, whatever follows it, up to
/// 0xffff.
pub proof fn law_length_round_trip(n: nat, rest: Seq<u8>)
    requires
        n <= 0xffff,
    ensures
        length_at(length_octets(n) + rest) == Ok::<(nat, nat), Asn1Error>((n, length_width(n))),
        length_octets(n).len() == length_width(n),
{
    reveal_with_fuel(uint, 3);
    let s = length_octets(n) + rest;
    if n >= 128 {
        let octets = s[0] - 0x80;
        let field = s.subrange(1, 1 + octets);
        if n <= 0xff {
            assert(field =~= seq![n as u8]);
            assert(field.drop_last() =~= Seq::<u8>::empty());
        } else {
            assert(field =~= seq![(n / 256 % 256) as u8, (n % 256) as u8]);
            assert(field.drop_last() =~= seq![(n / 256 % 256) as u8]);
            assert(field.drop_last().drop_last() =~= Seq::<u8>::empty());
        }
    }
}

} // verus!
