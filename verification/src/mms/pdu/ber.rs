//! BER elements and integers: what every PDU codec is made of.

use bytes::BytesMut;
use vstd::prelude::*;

use crate::asn1;
use crate::asn1::{decode_length, encode_length};
use crate::buffer;
use crate::mms::error;
use crate::mms::error::MmsError;

verus! {

/// One BER element at the start of a byte sequence.
#[verifier::ext_equal]
pub struct Element {
    /// The tag octet.
    pub tag: u8,
    /// The content octets.
    pub val: Seq<u8>,
    /// How many octets the element takes, tag and length included.
    pub size: nat,
}

/// The encoding of an element: tag, length, content.
pub open spec fn tlv(tag: u8, val: Seq<u8>) -> Seq<u8> {
    seq![tag] + asn1::length_octets(val.len()) + val
}

/// How many octets an element with this much content takes.
pub open spec fn tlv_len(n: nat) -> nat {
    1 + asn1::length_width(n) + n
}

/// The element at the start of `s`.
#[verifier::opaque]
pub open spec fn element_at(s: Seq<u8>) -> Result<Element, MmsError> {
    if s.len() == 0 {
        Err(MmsError::TruncatedPdu)
    } else {
        match asn1::length_at(s.skip(1)) {
            Err(e) => Err(error::length_error(e)),
            Ok((len, taken)) => if 1 + taken + len > s.len() {
                Err(MmsError::TruncatedPdu)
            } else {
                Ok(
                    Element {
                        tag: s[0],
                        val: s.subrange((1 + taken) as int, (1 + taken + len) as int),
                        size: 1 + taken + len,
                    },
                )
            },
        }
    }
}

/// The element at the start of `s`, which must have this tag.
pub open spec fn tagged_at(s: Seq<u8>, tag: u8) -> Result<Element, MmsError> {
    if s.len() == 0 {
        Err(MmsError::TruncatedPdu)
    } else if s[0] != tag {
        Err(MmsError::InvalidTag { expected: tag, actual: s[0] })
    } else {
        element_at(s)
    }
}

/// Runs `step` over the elements of `s` from left to right, starting from `acc`. The
/// first element that cannot be read, or that `step` refuses, ends the run.
pub open spec fn fold<A>(
    s: Seq<u8>,
    acc: A,
    step: spec_fn(A, u8, Seq<u8>) -> Result<A, MmsError>,
) -> Result<A, MmsError>
    decreases s.len(),
{
    if s.len() == 0 {
        Ok(acc)
    } else {
        match element_at(s) {
            Err(e) => Err(e),
            Ok(e) => match step(acc, e.tag, e.val) {
                Err(x) => Err(x),
                Ok(next) => {
                    proof {
                        lemma_element_bounds(s);
                    }
                    fold(s.skip(e.size as int), next, step)
                },
            },
        }
    }
}

/// An element read from a slice.
pub struct Tlv<'a> {
    /// The tag octet.
    pub tag: u8,
    /// The content octets.
    pub val: &'a [u8],
    /// How many octets the element takes, tag and length included.
    pub size: usize,
}

impl<'a> View for Tlv<'a> {
    type V = Element;

    open spec fn view(&self) -> Element {
        Element { tag: self.tag, val: self.val@, size: self.size as nat }
    }
}

/// The result agrees with what was to be read: the same error, or a value with this view.
pub open spec fn agrees<T: View>(r: Result<T, MmsError>, want: Result<T::V, MmsError>) -> bool {
    match want {
        Ok(v) => r matches Ok(x) && x@ == v,
        Err(e) => r == Err::<T, MmsError>(e),
    }
}

/// As `agrees`, for a value read together with the number of bytes it took.
pub open spec fn agrees_at<T: View>(
    r: Result<(T, usize), MmsError>,
    want: Result<(T::V, nat), MmsError>,
) -> bool {
    match want {
        Ok((v, n)) => r matches Ok((x, m)) && x@ == v && m == n,
        Err(e) => r == Err::<(T, usize), MmsError>(e),
    }
}

/// Reads the element at `pos` of `data`.
pub fn take_element<'a>(data: &'a [u8], pos: usize) -> (r: Result<Tlv<'a>, MmsError>)
    requires
        pos <= data.len(),
    ensures
        agrees(r, element_at(data@.skip(pos as int))),
        r matches Ok(t) ==> 2 <= t.size && pos + t.size <= data.len() && t.val.len() + 2 <= t.size
            && data@.skip(pos as int).skip(t.size as int) == data@.skip(pos + t.size),
{
    let ghost s = data@.skip(pos as int);
    reveal(element_at);
    if pos == data.len() {
        return Err(MmsError::TruncatedPdu);
    }
    let tag: u8 = data[pos];
    let tail: &[u8] = &data[pos + 1..data.len()];
    assert(tail@ =~= s.skip(1));
    match decode_length(tail) {
        Err(e) => Err(MmsError::from(e)),
        Ok((len, taken)) => {
            let start: usize = pos + 1 + taken;
            if len > data.len() - start {
                return Err(MmsError::TruncatedPdu);
            }
            let val: &[u8] = &data[start..start + len];
            proof {
                assert(val@ =~= s.subrange(1 + taken, 1 + taken + len));
                assert(s.skip(1 + taken + len) =~= data@.skip(pos + 1 + taken + len));
            }
            Ok(Tlv { tag, val, size: 1 + taken + len })
        },
    }
}

/// Reads the element at `pos` of `data`, which must have this tag.
pub fn take_tagged<'a>(data: &'a [u8], pos: usize, tag: u8) -> (r: Result<Tlv<'a>, MmsError>)
    requires
        pos <= data.len(),
    ensures
        agrees(r, tagged_at(data@.skip(pos as int), tag)),
        r matches Ok(t) ==> 2 <= t.size && pos + t.size <= data.len() && t.val.len() + 2 <= t.size
            && data@.skip(pos as int).skip(t.size as int) == data@.skip(pos + t.size),
{
    if pos == data.len() {
        return Err(MmsError::TruncatedPdu);
    }
    if data[pos] != tag {
        return Err(MmsError::InvalidTag { expected: tag, actual: data[pos] });
    }
    take_element(data, pos)
}

/// Reads the content of the element that starts `data`, which must have this tag.
pub fn take_content<'a>(data: &'a [u8], tag: u8) -> (r: Result<&'a [u8], MmsError>)
    ensures
        match tagged_at(data@, tag) {
            Ok(e) => r matches Ok(v) && v@ == e.val,
            Err(e) => r == Err::<&'a [u8], MmsError>(e),
        },
        r matches Ok(v) ==> v.len() + 2 <= data.len(),
{
    assert(data@.skip(0) =~= data@);
    let t: Tlv<'a> = take_tagged(data, 0, tag)?;
    Ok(t.val)
}

/// Appends an element to `buf`.
pub fn put_tlv(tag: u8, val: &[u8], buf: &mut BytesMut)
    requires
        buffer::contents(*old(buf)).len() + tlv_len(val@.len()) <= isize::MAX,
    ensures
        buffer::contents(*final(buf)) == buffer::contents(*old(buf)) + tlv(tag, val@),
{
    buf.extend_from_slice(&[tag]);
    encode_length(val.len(), buf);
    buf.extend_from_slice(val);
}

/// An element has one octet of tag, the octets of its length, and its content.
pub broadcast proof fn lemma_tlv_len(tag: u8, val: Seq<u8>)
    ensures
        (#[trigger] tlv(tag, val)).len() == tlv_len(val.len()),
{
}

/// An element lies within the sequence it starts, and takes at least a tag and a length.
pub broadcast proof fn lemma_element_bounds(s: Seq<u8>)
    ensures
        (#[trigger] element_at(s)) matches Ok(e) ==> 2 <= e.size <= s.len() && e.val.len() + 2
            <= e.size && e.tag == s[0],
{
    reveal(element_at);
}

/// What every codec knows of the lengths of elements.
pub broadcast group group_element_sizes {
    lemma_tlv_len,
    lemma_element_bounds,
}

/// An element is read back as it was written, whatever follows it, while its content is
/// at most 0xffff octets.
pub proof fn law_element_round_trip(tag: u8, val: Seq<u8>, rest: Seq<u8>)
    requires
        val.len() <= 0xffff,
    ensures
        element_at(tlv(tag, val) + rest) == Ok::<Element, MmsError>(
            Element { tag, val, size: tlv_len(val.len()) },
        ),
        tagged_at(tlv(tag, val) + rest, tag) == element_at(tlv(tag, val) + rest),
        (tlv(tag, val) + rest).skip(tlv_len(val.len()) as int) == rest,
{
    reveal(element_at);
    let s = tlv(tag, val) + rest;
    let n = val.len();
    asn1::law_length_round_trip(n, val + rest);
    assert(s.skip(1) =~= asn1::length_octets(n) + (val + rest));
    let start = 1 + asn1::length_width(n);
    assert(s.subrange(start as int, (start + n) as int) =~= val);
    assert(s.skip(tlv_len(n) as int) =~= rest);
}

/// An element that is there is the same whatever follows it.
pub proof fn lemma_element_prefix(s: Seq<u8>, rest: Seq<u8>)
    requires
        element_at(s) is Ok,
    ensures
        element_at(s + rest) == element_at(s),
        (s + rest).skip(element_at(s)->Ok_0.size as int) == s.skip(
            element_at(s)->Ok_0.size as int,
        ) + rest,
{
    reveal(element_at);
    let field = s.skip(1);
    let (len, taken) = asn1::length_at(field)->Ok_0;
    assert((s + rest).skip(1) =~= field + rest);
    if field[0] >= 0x80 {
        let octets = field[0] - 0x80;
        assert((field + rest).subrange(1, 1 + octets) =~= field.subrange(1, 1 + octets));
    }
    let start = (1 + taken) as int;
    let end = (1 + taken + len) as int;
    assert((s + rest).subrange(start, end) =~= s.subrange(start, end));
    assert((s + rest).skip(end) =~= s.skip(end) + rest);
}

/// `law_element_round_trip` for an element with nothing after it.
pub proof fn lemma_element_alone(tag: u8, val: Seq<u8>)
    requires
        val.len() <= 0xffff,
    ensures
        element_at(tlv(tag, val)) == Ok::<Element, MmsError>(
            Element { tag, val, size: tlv_len(val.len()) },
        ),
        tagged_at(tlv(tag, val), tag) == element_at(tlv(tag, val)),
{
    law_element_round_trip(tag, val, Seq::empty());
    assert(tlv(tag, val) + Seq::<u8>::empty() =~= tlv(tag, val));
}

/// A run over elements takes one step for an element that was written.
pub proof fn lemma_fold_tlv<A>(
    tag: u8,
    val: Seq<u8>,
    rest: Seq<u8>,
    acc: A,
    step: spec_fn(A, u8, Seq<u8>) -> Result<A, MmsError>,
)
    requires
        val.len() <= 0xffff,
    ensures
        fold(tlv(tag, val) + rest, acc, step) == (match step(acc, tag, val) {
            Err(e) => Err(e),
            Ok(next) => fold(rest, next, step),
        }),
{
    law_element_round_trip(tag, val, rest);
}

/// As `lemma_fold_tlv`, for the last element.
pub proof fn lemma_fold_last<A>(
    tag: u8,
    val: Seq<u8>,
    acc: A,
    step: spec_fn(A, u8, Seq<u8>) -> Result<A, MmsError>,
)
    requires
        val.len() <= 0xffff,
    ensures
        fold(tlv(tag, val), acc, step) == step(acc, tag, val),
{
    lemma_fold_tlv(tag, val, Seq::empty(), acc, step);
    assert(tlv(tag, val) + Seq::<u8>::empty() =~= tlv(tag, val));
    assert(fold(Seq::<u8>::empty(), acc, step) == Ok::<A, MmsError>(acc));
}

/// A run that took every element takes one more step for an element that is appended.
pub proof fn lemma_fold_append<A>(
    s: Seq<u8>,
    tag: u8,
    val: Seq<u8>,
    acc: A,
    step: spec_fn(A, u8, Seq<u8>) -> Result<A, MmsError>,
)
    requires
        fold(s, acc, step) is Ok,
        val.len() <= 0xffff,
    ensures
        fold(s + tlv(tag, val), acc, step) == step(fold(s, acc, step)->Ok_0, tag, val),
    decreases s.len(),
{
    if s.len() == 0 {
        assert(s + tlv(tag, val) =~= tlv(tag, val));
        lemma_fold_last(tag, val, acc, step);
    } else {
        let e = element_at(s)->Ok_0;
        lemma_element_bounds(s);
        lemma_element_prefix(s, tlv(tag, val));
        let next = step(acc, e.tag, e.val)->Ok_0;
        lemma_fold_append(s.skip(e.size as int), tag, val, next, step);
    }
}

/// The encoding of an element whose length is one octet, the low 8 bits of the length.
pub open spec fn short_tlv(tag: u8, val: Seq<u8>) -> Seq<u8> {
    seq![tag, (val.len() % 256) as u8] + val
}

/// The element at the start of `s`, whose length is the one octet after the tag.
pub open spec fn short_element_at(s: Seq<u8>) -> Result<Element, MmsError> {
    if s.len() < 2 || 2 + s[1] > s.len() {
        Err(MmsError::TruncatedPdu)
    } else {
        Ok(Element { tag: s[0], val: s.subrange(2, 2 + s[1]), size: (2 + s[1]) as nat })
    }
}

/// As `fold`, over elements with a length of one octet.
pub open spec fn short_fold<A>(
    s: Seq<u8>,
    acc: A,
    step: spec_fn(A, u8, Seq<u8>) -> Result<A, MmsError>,
) -> Result<A, MmsError>
    decreases s.len(),
{
    if s.len() == 0 {
        Ok(acc)
    } else {
        match short_element_at(s) {
            Err(e) => Err(e),
            Ok(e) => match step(acc, e.tag, e.val) {
                Err(x) => Err(x),
                Ok(next) => short_fold(s.skip(e.size as int), next, step),
            },
        }
    }
}

/// Reads the element at `pos` of `data`, whose length is one octet.
pub fn take_short<'a>(data: &'a [u8], pos: usize) -> (r: Result<Tlv<'a>, MmsError>)
    requires
        pos <= data.len(),
    ensures
        agrees(r, short_element_at(data@.skip(pos as int))),
        r matches Ok(t) ==> 2 <= t.size && pos + t.size <= data.len() && data@.skip(
            pos as int,
        ).skip(t.size as int) == data@.skip(pos + t.size),
{
    let ghost s = data@.skip(pos as int);
    if data.len() - pos < 2 {
        return Err(MmsError::TruncatedPdu);
    }
    let len: usize = data[pos + 1] as usize;
    if len > data.len() - pos - 2 {
        return Err(MmsError::TruncatedPdu);
    }
    let val: &[u8] = &data[pos + 2..pos + 2 + len];
    proof {
        assert(val@ =~= s.subrange(2, 2 + len));
        assert(s.skip(2 + len) =~= data@.skip(pos + 2 + len));
    }
    Ok(Tlv { tag: data[pos], val, size: 2 + len })
}

/// A run over elements with a length of one octet takes one step for an element that was
/// written.
pub proof fn lemma_short_fold_tlv<A>(
    tag: u8,
    val: Seq<u8>,
    rest: Seq<u8>,
    acc: A,
    step: spec_fn(A, u8, Seq<u8>) -> Result<A, MmsError>,
)
    requires
        val.len() <= 0xff,
    ensures
        short_fold(short_tlv(tag, val) + rest, acc, step) == (match step(acc, tag, val) {
            Err(e) => Err(e),
            Ok(next) => short_fold(rest, next, step),
        }),
{
    let s = short_tlv(tag, val) + rest;
    assert(s.subrange(2, 2 + s[1]) =~= val);
    assert(s.skip(2 + s[1]) =~= rest);
}


/// As `lemma_fold_append`, for elements with a length of one octet.
pub proof fn lemma_short_fold_append<A>(
    s: Seq<u8>,
    tag: u8,
    val: Seq<u8>,
    acc: A,
    step: spec_fn(A, u8, Seq<u8>) -> Result<A, MmsError>,
)
    requires
        short_fold(s, acc, step) is Ok,
        val.len() <= 0xff,
    ensures
        short_fold(s + short_tlv(tag, val), acc, step) == step(
            short_fold(s, acc, step)->Ok_0,
            tag,
            val,
        ),
    decreases s.len(),
{
    let more = short_tlv(tag, val);
    if s.len() == 0 {
        assert(s + more =~= more);
        lemma_short_fold_tlv(tag, val, Seq::empty(), acc, step);
        assert(more + Seq::<u8>::empty() =~= more);
        if let Ok(next) = step(acc, tag, val) {
            assert(short_fold(Seq::<u8>::empty(), next, step) == Ok::<A, MmsError>(next));
        }
    } else {
        let e = short_element_at(s)->Ok_0;
        let next = step(acc, e.tag, e.val)->Ok_0;
        assert((s + more).subrange(2, 2 + s[1]) =~= s.subrange(2, 2 + s[1]));
        assert((s + more).skip(e.size as int) =~= s.skip(e.size as int) + more);
        lemma_short_fold_append(s.skip(e.size as int), tag, val, next, step);
    }
}

} // verus!
