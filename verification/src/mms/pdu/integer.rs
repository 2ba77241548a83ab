//! BER INTEGER contents: the shortest octets of a number, and the number that octets
//! hold.

use vstd::prelude::*;

use crate::asn1;
use crate::mms::error::MmsError;

verus! {

/// 256 to the power `n`.
pub open spec fn pow256(n: nat) -> nat
    decreases n,
{
    if n == 0 {
        1
    } else {
        256 * pow256((n - 1) as nat)
    }
}

/// The value of a big-endian octet string read as a two's complement number.
pub open spec fn sint(s: Seq<u8>) -> int {
    if s.len() > 0 && s[0] >= 0x80 {
        asn1::uint(s) - pow256(s.len())
    } else {
        asn1::uint(s) as int
    }
}

/// The shortest two's complement octets of a number that is not negative: the leading
/// octet stays below 0x80.
pub open spec fn uint_octets(v: nat) -> Seq<u8>
    decreases v,
{
    if v < 128 {
        seq![v as u8]
    } else {
        uint_octets(v / 256).push((v % 256) as u8)
    }
}

/// The shortest two's complement octets of a number.
pub open spec fn sint_octets(v: int) -> Seq<u8>
    decreases (if v < 0 { -v } else { v }),
{
    if -128 <= v < 128 {
        seq![(v % 256) as u8]
    } else {
        sint_octets(v / 256).push((v % 256) as u8)
    }
}

/// The octets of an unsigned 64-bit number: the shortest ones, of which a number with its
/// top bit set keeps eight.
pub open spec fn unsigned_octets(v: u64) -> Seq<u8> {
    if v < 0x8000_0000_0000_0000 {
        uint_octets(v as nat)
    } else {
        uint_octets(v as nat).skip(1)
    }
}

/// The number that one to `max` octets hold, read as unsigned.
pub open spec fn unsigned_at(s: Seq<u8>, max: nat) -> Result<nat, MmsError> {
    if s.len() == 0 || s.len() > max {
        Err(MmsError::InvalidLength)
    } else {
        Ok(asn1::uint(s))
    }
}

/// The number that one to `max` octets hold, read as two's complement.
pub open spec fn signed_at(s: Seq<u8>, max: nat) -> Result<int, MmsError> {
    if s.len() == 0 || s.len() > max {
        Err(MmsError::InvalidLength)
    } else {
        Ok(sint(s))
    }
}

/// The `n` big-endian octets of a number, cut to its low octets where it needs more.
pub open spec fn fixed_octets(v: nat, n: nat) -> Seq<u8>
    decreases n,
{
    if n == 0 {
        Seq::empty()
    } else {
        fixed_octets(v / 256, (n - 1) as nat).push((v % 256) as u8)
    }
}

/// The powers of 256 that fit the machine integers.
pub proof fn lemma_pow256_values()
    ensures
        pow256(0) == 1,
        pow256(1) == 0x100,
        pow256(2) == 0x1_0000,
        pow256(3) == 0x100_0000,
        pow256(4) == 0x1_0000_0000,
        pow256(5) == 0x100_0000_0000,
        pow256(6) == 0x1_0000_0000_0000,
        pow256(7) == 0x100_0000_0000_0000,
        pow256(8) == 0x1_0000_0000_0000_0000,
{
    reveal_with_fuel(pow256, 9);
}

/// A larger exponent gives a power at least as large.
pub proof fn lemma_pow256_mono(a: nat, b: nat)
    requires
        a <= b,
    ensures
        pow256(a) <= pow256(b),
    decreases b,
{
    if a < b {
        lemma_pow256_mono(a, (b - 1) as nat);
    }
}

/// Octets hold a number below the power of 256 of their count.
pub proof fn lemma_uint_bound(s: Seq<u8>)
    ensures
        asn1::uint(s) < pow256(s.len()),
    decreases s.len(),
{
    if s.len() > 0 {
        lemma_uint_bound(s.drop_last());
    }
}

/// Octets whose first is at least 0x80 hold at least half of what they could, and others
/// less.
pub proof fn lemma_uint_top(s: Seq<u8>)
    requires
        s.len() > 0,
    ensures
        s[0] >= 0x80 ==> 2 * asn1::uint(s) >= pow256(s.len()),
        s[0] < 0x80 ==> 2 * asn1::uint(s) < pow256(s.len()),
    decreases s.len(),
{
    reveal_with_fuel(pow256, 2);
    if s.len() == 1 {
        assert(s.drop_last() =~= Seq::<u8>::empty());
        reveal_with_fuel(asn1::uint, 2);
    } else {
        lemma_uint_top(s.drop_last());
        assert(s.drop_last()[0] == s[0]);
        lemma_pow256_even((s.len() - 1) as nat);
    }
}

proof fn lemma_pow256_even(n: nat)
    requires
        n > 0,
    ensures
        pow256(n) % 2 == 0,
{
}

/// Reading the shortest octets of a number gives the number back.
pub proof fn law_uint_round_trip(v: nat)
    ensures
        asn1::uint(uint_octets(v)) == v,
        uint_octets(v).len() >= 1,
        uint_octets(v)[0] < 0x80,
    decreases v,
{
    reveal_with_fuel(asn1::uint, 2);
    if v < 128 {
        assert(seq![v as u8].drop_last() =~= Seq::<u8>::empty());
    } else {
        law_uint_round_trip(v / 256);
        let head = uint_octets(v / 256);
        assert(head.push((v % 256) as u8).drop_last() =~= head);
    }
}

/// The shortest octets of a number below 128 times a power of 256 are at most one more
/// than the exponent.
pub proof fn lemma_uint_octets_len(v: nat, n: nat)
    requires
        v < 128 * pow256(n),
    ensures
        uint_octets(v).len() <= n + 1,
    decreases n,
{
    if v >= 128 {
        if n == 0 {
            assert(pow256(0) == 1);
        } else {
            assert(v / 256 < 128 * pow256((n - 1) as nat)) by (nonlinear_arith)
                requires
                    v < 128 * (256 * pow256((n - 1) as nat)),
            ;
            lemma_uint_octets_len(v / 256, (n - 1) as nat);
        }
    }
}

/// How long the shortest octets of machine numbers are.
pub proof fn lemma_uint_octets_width(v: nat)
    ensures
        v < 0x80 ==> uint_octets(v).len() == 1,
        v < 0x8000 ==> uint_octets(v).len() <= 2,
        v < 0x80_0000 ==> uint_octets(v).len() <= 3,
        v < 0x8000_0000 ==> uint_octets(v).len() <= 4,
        v <= 0xffff_ffff ==> uint_octets(v).len() <= 5,
        v < 0x8000_0000_0000_0000 ==> uint_octets(v).len() <= 8,
        v <= 0xffff_ffff_ffff_ffff ==> uint_octets(v).len() <= 9,
{
    lemma_pow256_values();
    if v < 0x8000 {
        lemma_uint_octets_len(v, 1);
    }
    if v < 0x80_0000 {
        lemma_uint_octets_len(v, 2);
    }
    if v < 0x8000_0000 {
        lemma_uint_octets_len(v, 3);
    }
    if v <= 0xffff_ffff {
        lemma_uint_octets_len(v, 4);
    }
    if v < 0x8000_0000_0000_0000 {
        lemma_uint_octets_len(v, 7);
    }
    if v <= 0xffff_ffff_ffff_ffff {
        lemma_uint_octets_len(v, 8);
    }
}

/// The shortest octets of a number are never shorter than the number needs.
pub proof fn lemma_uint_octets_min(v: nat, n: nat)
    requires
        v >= 128 * pow256(n),
    ensures
        uint_octets(v).len() >= n + 2,
    decreases n,
{
    if n == 0 {
        assert(pow256(0) == 1);
        law_uint_round_trip(v / 256);
    } else {
        assert(v / 256 >= 128 * pow256((n - 1) as nat)) by (nonlinear_arith)
            requires
                v >= 128 * (256 * pow256((n - 1) as nat)),
        ;
        assert(pow256(n) >= 1) by {
            lemma_pow256_mono(0, n);
        }
        lemma_uint_octets_min(v / 256, (n - 1) as nat);
    }
}

/// Reading the octets of an unsigned 64-bit number gives the number back, and they are
/// one to eight.
pub proof fn law_unsigned_round_trip(v: u64)
    ensures
        unsigned_at(unsigned_octets(v), 8) == Ok::<nat, MmsError>(v as nat),
        1 <= unsigned_octets(v).len() <= 8,
{
    law_uint_round_trip(v as nat);
    lemma_uint_octets_width(v as nat);
    if v >= 0x8000_0000_0000_0000 {
        lemma_pow256_values();
        lemma_uint_octets_min(v as nat, 7);
        let s = uint_octets(v as nat);
        lemma_uint_split_first(s);
        lemma_uint_bound(s);
        assert(s[0] == 0) by {
            if s[0] > 0 {
                assert(s[0] * pow256(8) >= pow256(8)) by (nonlinear_arith)
                    requires
                        s[0] >= 1,
                        pow256(8) == 0x1_0000_0000_0000_0000,
                ;
            }
        }
    }
}

/// The value of octets, with the first octet taken apart.
pub proof fn lemma_uint_split_first(s: Seq<u8>)
    requires
        s.len() > 0,
    ensures
        asn1::uint(s) == s[0] * pow256((s.len() - 1) as nat) + asn1::uint(s.skip(1)),
    decreases s.len(),
{
    reveal_with_fuel(asn1::uint, 2);
    let first = s[0] as int;
    let whole = pow256((s.len() - 1) as nat) as int;
    if s.len() == 1 {
        assert(s.drop_last() =~= Seq::<u8>::empty());
        assert(s.skip(1) =~= Seq::<u8>::empty());
        assert(first * whole == first) by (nonlinear_arith)
            requires
                whole == 1,
        ;
    } else {
        lemma_uint_split_first(s.drop_last());
        assert(s.drop_last().skip(1) =~= s.skip(1).drop_last());
        assert(s.skip(1).last() == s.last());
        let part = pow256((s.len() - 2) as nat) as int;
        let low = asn1::uint(s.skip(1).drop_last()) as int;
        assert((first * part + low) * 256 == first * whole + low * 256) by (nonlinear_arith)
            requires
                whole == 256 * part,
        ;
    }
}

/// Reading the shortest two's complement octets of a number gives the number back.
pub proof fn law_sint_round_trip(v: int)
    ensures
        sint(sint_octets(v)) == v,
        sint_octets(v).len() >= 1,
        sint_octets(v)[0] >= 0x80 <==> v < 0,
    decreases (if v < 0 { -v } else { v }),
{
    reveal_with_fuel(asn1::uint, 2);
    reveal_with_fuel(pow256, 2);
    if -128 <= v < 128 {
        assert(seq![(v % 256) as u8].drop_last() =~= Seq::<u8>::empty());
    } else {
        law_sint_round_trip(v / 256);
        let head = sint_octets(v / 256);
        let all = head.push((v % 256) as u8);
        assert(all.drop_last() =~= head);
        assert(all[0] == head[0]);
    }
}

/// The shortest octets of a number within 128 times a power of 256 are at most one more
/// than the exponent.
pub proof fn lemma_sint_octets_len(v: int, n: nat)
    requires
        -128 * pow256(n) <= v < 128 * pow256(n),
    ensures
        sint_octets(v).len() <= n + 1,
    decreases n,
{
    if !(-128 <= v < 128) {
        if n == 0 {
            assert(pow256(0) == 1);
        } else {
            let p = pow256((n - 1) as nat) as int;
            assert(-128 * p <= v / 256 < 128 * p) by (nonlinear_arith)
                requires
                    -128 * (256 * p) <= v < 128 * (256 * p),
            ;
            lemma_sint_octets_len(v / 256, (n - 1) as nat);
        }
    }
}

/// How long the shortest octets of signed machine numbers are.
pub proof fn lemma_sint_octets_width(v: int)
    ensures
        i32::MIN <= v <= i32::MAX ==> sint_octets(v).len() <= 4,
        i64::MIN <= v <= i64::MAX ==> sint_octets(v).len() <= 8,
{
    lemma_pow256_values();
    if i32::MIN <= v <= i32::MAX {
        lemma_sint_octets_len(v, 3);
    }
    if i64::MIN <= v <= i64::MAX {
        lemma_sint_octets_len(v, 7);
    }
}

/// A number that fits `n` octets is read back from them.
pub proof fn law_fixed_round_trip(v: nat, n: nat)
    requires
        v < pow256(n),
    ensures
        asn1::uint(fixed_octets(v, n)) == v,
        fixed_octets(v, n).len() == n,
    decreases n,
{
    if n > 0 {
        assert(v / 256 < pow256((n - 1) as nat)) by (nonlinear_arith)
            requires
                v < 256 * pow256((n - 1) as nat),
        ;
        law_fixed_round_trip(v / 256, (n - 1) as nat);
        let head = fixed_octets(v / 256, (n - 1) as nat);
        assert(head.push((v % 256) as u8).drop_last() =~= head);
    }
}

/// There are as many octets as asked for.
pub proof fn lemma_fixed_octets_len(v: nat, n: nat)
    ensures
        fixed_octets(v, n).len() == n,
    decreases n,
{
    if n > 0 {
        lemma_fixed_octets_len(v / 256, (n - 1) as nat);
    }
}

/// Octets are the octets of the number they hold.
pub proof fn law_fixed_of_uint(s: Seq<u8>)
    ensures
        fixed_octets(asn1::uint(s), s.len()) == s,
    decreases s.len(),
{
    if s.len() > 0 {
        law_fixed_of_uint(s.drop_last());
        let head = asn1::uint(s.drop_last());
        assert((head * 256 + s.last() as nat) / 256 == head);
        assert(s.drop_last().push(s.last()) =~= s);
    } else {
        assert(s =~= Seq::<u8>::empty());
    }
}

/// The `n` big-endian octets of a number.
pub fn be_octets(val: u64, n: usize) -> (r: Vec<u8>)
    ensures
        r@ == fixed_octets(val as nat, n as nat),
        r.len() == n,
    decreases n,
{
    if n == 0 {
        Vec::new()
    } else {
        let mut head: Vec<u8> = be_octets(val / 256, n - 1);
        head.push((val % 256) as u8);
        head
    }
}

/// The shortest two's complement octets of a number that is not negative.
pub fn uint_minimal(val: u64) -> (r: Vec<u8>)
    ensures
        r@ == uint_octets(val as nat),
        1 <= r.len() <= 9,
        val <= 0xffff_ffff ==> r.len() <= 5,
    decreases val,
{
    proof {
        law_uint_round_trip(val as nat);
        lemma_uint_octets_width(val as nat);
    }
    if val < 128 {
        vec![val as u8]
    } else {
        let mut head: Vec<u8> = uint_minimal(val / 256);
        head.push((val % 256) as u8);
        head
    }
}

/// The shortest two's complement octets of a number.
pub fn sint_minimal(val: i64) -> (r: Vec<u8>)
    ensures
        r@ == sint_octets(val as int),
        1 <= r.len() <= 8,
        i32::MIN <= val <= i32::MAX ==> r.len() <= 4,
    decreases (if val < 0 { -val } else { val as int }),
{
    proof {
        law_sint_round_trip(val as int);
        lemma_sint_octets_width(val as int);
    }
    if -128 <= val && val < 0 {
        vec![(val + 256) as u8]
    } else if 0 <= val && val < 128 {
        vec![val as u8]
    } else {
        let high: i64 = if val >= 0 {
            (val as u64 / 256) as i64
        } else {
            -1 - ((-1 - val) as u64 / 256) as i64
        };
        let mut head: Vec<u8> = sint_minimal(high);
        head.push((val - high * 256) as u8);
        head
    }
}

/// Encodes an unsigned integer as the shortest BER INTEGER; a value with its top bit set
/// takes eight octets.
pub fn encode_unsigned_int_minimal(val: u64) -> (r: Vec<u8>)
    ensures
        r@ == unsigned_octets(val),
        1 <= r.len() <= 8,
        val <= 0xffff_ffff ==> r.len() <= 5,
{
    proof {
        law_unsigned_round_trip(val);
    }
    let octets: Vec<u8> = uint_minimal(val);
    if val < 0x8000_0000_0000_0000 {
        octets
    } else {
        vstd::slice::slice_to_vec(&octets[1..octets.len()])
    }
}

/// Encodes a signed integer as the shortest BER INTEGER.
pub fn encode_signed_int_minimal(val: i64) -> (r: Vec<u8>)
    ensures
        r@ == sint_octets(val as int),
        1 <= r.len() <= 8,
{
    sint_minimal(val)
}

/// Decodes an unsigned big-endian integer of 1 to 8 octets.
pub fn decode_unsigned_int(data: &[u8]) -> (r: Result<u64, MmsError>)
    ensures
        match unsigned_at(data@, 8) {
            Ok(v) => r matches Ok(x) && x == v,
            Err(e) => r == Err::<u64, MmsError>(e),
        },
{
    if data.len() == 0 || data.len() > 8 {
        return Err(MmsError::InvalidLength);
    }
    let mut val: u64 = 0;
    let mut i: usize = 0;
    while i < data.len()
        invariant
            i <= data.len() <= 8,
            val == asn1::uint(data@.take(i as int)),
        decreases data.len() - i,
    {
        proof {
            let next = data@.take(i + 1);
            assert(next.drop_last() =~= data@.take(i as int));
            lemma_uint_bound(next);
            lemma_pow256_mono((i + 1) as nat, 8);
            lemma_pow256_values();
        }
        val = val * 256 + data[i] as u64;
        i = i + 1;
    }
    assert(data@.take(data@.len() as int) =~= data@);
    Ok(val)
}

/// Decodes an unsigned big-endian integer of 1 to 4 octets.
pub fn decode_u32_from_bytes(data: &[u8]) -> (r: Result<u32, MmsError>)
    ensures
        match unsigned_at(data@, 4) {
            Ok(v) => r matches Ok(x) && x == v,
            Err(e) => r == Err::<u32, MmsError>(e),
        },
{
    if data.len() == 0 || data.len() > 4 {
        return Err(MmsError::InvalidLength);
    }
    let v: u64 = decode_unsigned_int(data)?;
    proof {
        lemma_uint_bound(data@);
        lemma_pow256_mono(data@.len(), 4);
        lemma_pow256_values();
    }
    Ok(v as u32)
}

/// Decodes a signed big-endian integer of 1 to 8 octets.
pub fn decode_signed_int(data: &[u8]) -> (r: Result<i64, MmsError>)
    ensures
        match signed_at(data@, 8) {
            Ok(v) => r matches Ok(x) && x == v,
            Err(e) => r == Err::<i64, MmsError>(e),
        },
{
    let v: u64 = decode_unsigned_int(data)?;
    proof {
        lemma_uint_top(data@);
        lemma_uint_bound(data@);
        lemma_pow256_mono(data@.len(), 8);
        lemma_pow256_values();
    }
    if data[0] < 0x80 {
        return Ok(v as i64);
    }
    let mut power: i128 = 1;
    let mut i: usize = 0;
    while i < data.len()
        invariant
            i <= data.len() <= 8,
            power == pow256(i as nat),
            power <= pow256(8),
            pow256(8) == 0x1_0000_0000_0000_0000,
        decreases data.len() - i,
    {
        proof {
            lemma_pow256_mono((i + 1) as nat, 8);
        }
        power = power * 256;
        i = i + 1;
    }
    Ok((v as i128 - power) as i64)
}

/// Decodes a signed big-endian integer of 1 to 4 octets.
pub fn decode_signed_i32(data: &[u8]) -> (r: Result<i32, MmsError>)
    ensures
        match signed_at(data@, 4) {
            Ok(v) => r matches Ok(x) && x == v,
            Err(e) => r == Err::<i32, MmsError>(e),
        },
{
    if data.len() == 0 || data.len() > 4 {
        return Err(MmsError::InvalidLength);
    }
    let v: i64 = decode_signed_int(data)?;
    proof {
        lemma_uint_top(data@);
        lemma_uint_bound(data@);
        lemma_pow256_mono(data@.len(), 4);
        lemma_pow256_values();
    }
    Ok(v as i32)
}

/// An unsigned number of at most 32 bits: one to four octets, or five with a leading zero.
pub open spec fn uint32_at(s: Seq<u8>) -> Result<u32, MmsError> {
    if 1 <= s.len() <= 4 {
        Ok(asn1::uint(s) as u32)
    } else if s.len() == 5 && s[0] == 0 {
        Ok(asn1::uint(s.skip(1)) as u32)
    } else {
        Err(MmsError::InvalidLength)
    }
}

/// Decodes a big-endian BER INTEGER into a `u32`.
///
/// BER INTEGER is signed, so a positive value whose leading byte has the top bit
/// set carries a `0x00` prefix. A legal `u32` encoding therefore reaches five bytes
/// for the range `0x80000000..=0xFFFFFFFF`.
///
/// Lengths 1 to 4 are accepted, as is 5 when the first byte is `0x00`; any other
/// length returns `InvalidLength`.
pub fn decode_uint(data: &[u8]) -> (r: Result<u32, MmsError>)
    ensures
        r == uint32_at(data@),
{
    proof {
        lemma_pow256_values();
    }
    if data.len() == 5 && data[0] == 0 {
        let body: &[u8] = &data[1..data.len()];
        assert(body@ =~= data@.skip(1));
        decode_u32_from_bytes(body)
    } else {
        decode_u32_from_bytes(data)
    }
}

/// Every `u32` is read back from its minimal encoding.
pub proof fn law_uint32_round_trip(v: u32)
    ensures
        uint32_at(uint_octets(v as nat)) == Ok::<u32, MmsError>(v),
        1 <= uint_octets(v as nat).len() <= 5,
{
    let s = uint_octets(v as nat);
    law_uint_round_trip(v as nat);
    lemma_uint_octets_width(v as nat);
    lemma_pow256_values();
    lemma_uint_split_first(s);
    if s.len() == 5 {
        assert(s[0] == 0) by (nonlinear_arith)
            requires
                s[0] * 0x1_0000_0000 <= 0xffff_ffff,
        ;
    }
}

} // verus!
