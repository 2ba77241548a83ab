//! MMS BINARY-TIME conversion.
//!
//! BINARY-TIME is an OCTET STRING of either four or six octets. Both forms open
//! with four big-endian octets of milliseconds elapsed since midnight. The
//! six-octet form appends two big-endian octets counting whole days since
//! 1984-01-01, which is the epoch of the type; the four-octet form carries no
//! date at all.
//!
//! Every encoder and decoder routes through this module so that the wire epoch is
//! 1984-01-01 on both sides of a link.

use vstd::prelude::*;

use crate::asn1;
use crate::mms::pdu::integer;

verus! {

/// Number of octets of the long BINARY-TIME form: milliseconds of day plus day count.
pub const BINARY_TIME6_LEN: usize = 6;

/// Milliseconds in one day.
pub const MS_PER_DAY: u64 = 86_400_000;

/// The BINARY-TIME epoch 1984-01-01T00:00:00Z, in milliseconds since 1970-01-01.
///
/// 5113 days: fourteen years of 365 days plus the leap days of 1972, 1976 and 1980.
pub const EPOCH_1984_MS: u64 = 5113 * 86_400_000;

/// Largest instant the six-octet form can express: day count 0xFFFF, last millisecond.
pub const MAX_BINARY_TIME6_MS: u64 = 5113 * 86_400_000 + 0xffff * 86_400_000 + 86_399_999;

/// The nearest instant that the six-octet form can express.
pub open spec fn clamped(epoch_ms: u64) -> u64 {
    if epoch_ms < EPOCH_1984_MS {
        EPOCH_1984_MS
    } else if epoch_ms > MAX_BINARY_TIME6_MS {
        MAX_BINARY_TIME6_MS
    } else {
        epoch_ms
    }
}

/// The six octets of an instant: milliseconds since midnight, then days since the epoch.
pub open spec fn time6_octets(epoch_ms: u64) -> Seq<u8> {
    let since = (clamped(epoch_ms) - EPOCH_1984_MS) as nat;
    integer::fixed_octets(since % 86_400_000, 4) + integer::fixed_octets(since / 86_400_000, 2)
}

/// The instant that six octets name. Milliseconds beyond the end of a day are added as
/// given.
pub open spec fn time6_at(s: Seq<u8>) -> nat {
    EPOCH_1984_MS as nat + asn1::uint(s.skip(4)) * 86_400_000 + asn1::uint(s.take(4))
}

/// Converts milliseconds since 1970-01-01 into the six-octet BINARY-TIME form.
///
/// The result is four big-endian octets of milliseconds since midnight followed
/// by two big-endian octets of days since 1984-01-01.
///
/// The type cannot express an instant outside its epoch range, so the value saturates:
/// an instant before 1984-01-01 encodes as the epoch itself (all six octets zero) and an
/// instant beyond day count 0xFFFF encodes as the last millisecond of that day.
/// Saturation is silent: a caller that must distinguish an out-of-range instant checks
/// the range itself before encoding.
pub fn binary_time6_from_epoch_ms(epoch_ms: u64) -> (r: [u8; 6])
    ensures
        r@ == time6_octets(epoch_ms),
{
    let instant: u64 = if epoch_ms < EPOCH_1984_MS {
        EPOCH_1984_MS
    } else if epoch_ms > MAX_BINARY_TIME6_MS {
        MAX_BINARY_TIME6_MS
    } else {
        epoch_ms
    };
    let since: u64 = instant - EPOCH_1984_MS;
    let ms: Vec<u8> = integer::be_octets(since % MS_PER_DAY, 4);
    let days: Vec<u8> = integer::be_octets(since / MS_PER_DAY, 2);
    let r: [u8; 6] = [ms[0], ms[1], ms[2], ms[3], days[0], days[1]];
    assert(r@ =~= ms@ + days@);
    r
}

/// Converts the six-octet BINARY-TIME form into milliseconds since 1970-01-01.
///
/// Inverse of `binary_time6_from_epoch_ms` for every instant the type can
/// express. A milliseconds-of-day field above 86 399 999 is out of range for the type;
/// the field is added as given rather than rejected.
pub fn epoch_ms_from_binary_time6(b: [u8; 6]) -> (r: u64)
    ensures
        r == time6_at(b@),
{
    proof {
        reveal_with_fuel(asn1::uint, 5);
        let ms = b@.take(4);
        let days = b@.skip(4);
        assert(ms.drop_last() =~= b@.take(3));
        assert(b@.take(3).drop_last() =~= b@.take(2));
        assert(b@.take(2).drop_last() =~= b@.take(1));
        assert(b@.take(1).drop_last() =~= Seq::empty());
        assert(days.drop_last() =~= seq![b@[4]]);
        assert(seq![b@[4]].drop_last() =~= Seq::empty());
    }
    let ms_of_day: u64 = ((b[0] as u64 * 256 + b[1] as u64) * 256 + b[2] as u64) * 256
        + b[3] as u64;
    let days: u64 = b[4] as u64 * 256 + b[5] as u64;
    EPOCH_1984_MS + days * MS_PER_DAY + ms_of_day
}

/// Reading back what was written gives the nearest instant that the type can express;
/// every instant in range comes back as it was.
pub proof fn law_binary_time_round_trip(epoch_ms: u64)
    ensures
        time6_octets(epoch_ms).len() == 6,
        time6_at(time6_octets(epoch_ms)) == clamped(epoch_ms),
        EPOCH_1984_MS <= epoch_ms <= MAX_BINARY_TIME6_MS ==> time6_at(time6_octets(epoch_ms))
            == epoch_ms,
{
    let since = (clamped(epoch_ms) - EPOCH_1984_MS) as nat;
    integer::lemma_pow256_values();
    integer::law_fixed_round_trip(since % 86_400_000, 4);
    integer::law_fixed_round_trip(since / 86_400_000, 2);
    let s = time6_octets(epoch_ms);
    assert(s.take(4) =~= integer::fixed_octets(since % 86_400_000, 4));
    assert(s.skip(4) =~= integer::fixed_octets(since / 86_400_000, 2));
}

/// Octets whose milliseconds lie within a day come back as they were.
pub proof fn law_binary_time_reencodes(s: Seq<u8>)
    requires
        s.len() == 6,
        asn1::uint(s.take(4)) < MS_PER_DAY,
    ensures
        EPOCH_1984_MS <= time6_at(s) <= MAX_BINARY_TIME6_MS,
        time6_octets(time6_at(s) as u64) == s,
{
    let ms = asn1::uint(s.take(4));
    let days = asn1::uint(s.skip(4));
    integer::lemma_pow256_values();
    integer::lemma_uint_bound(s.skip(4));
    integer::law_fixed_of_uint(s.take(4));
    integer::law_fixed_of_uint(s.skip(4));
    assert((days * 86_400_000 + ms) % 86_400_000 == ms);
    assert((days * 86_400_000 + ms) / 86_400_000 == days);
    assert(time6_octets(time6_at(s) as u64) =~= s);
}

/// An instant before 1984-01-01 encodes as the epoch, and one past the range as the last
/// millisecond of the last day.
pub proof fn law_binary_time_saturates(epoch_ms: u64)
    ensures
        epoch_ms <= EPOCH_1984_MS ==> time6_octets(epoch_ms) == seq![0u8, 0, 0, 0, 0, 0],
        epoch_ms >= MAX_BINARY_TIME6_MS ==> time6_octets(epoch_ms) == time6_octets(
            MAX_BINARY_TIME6_MS,
        ),
{
    if epoch_ms <= EPOCH_1984_MS {
        reveal_with_fuel(integer::fixed_octets, 5);
        assert(time6_octets(epoch_ms) =~= seq![0u8, 0, 0, 0, 0, 0]);
    }
}

} // verus!
