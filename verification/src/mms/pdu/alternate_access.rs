//! AlternateAccess: the selection of an array element and of a component inside it.

use bytes::BytesMut;
use vstd::prelude::*;

use crate::buffer;
use crate::mms::error::MmsError;
use crate::mms::pdu::ber;
use crate::mms::pdu::ber::{put_tlv, take_element, take_tagged, Tlv};
use crate::mms::pdu::integer;
use crate::mms::pdu::integer::{decode_unsigned_int, encode_unsigned_int_minimal};
use crate::mms::pdu::object_name::{ber_len_size, MAX_IDENTIFIER_LEN};
use crate::text;

verus! {

broadcast use ber::group_element_sizes;

/// Selector inside an `AlternateAccess` sequence.
///
/// Two access patterns are supported. `indexRange`, `allElements`, component-only,
/// named, and multi-member selections are not.
#[derive(Debug, Clone, PartialEq, Eq)]
pub enum AlternateAccessSelector {
    /// Single array element, no sub-component.
    /// Wire: `0x82 <ulen> <index>`, `selectAccess.index`.
    Index(u32),
    /// Array element followed by a sub-component path, `$`-separated.
    /// Wire: `0xa0 <len> { 0x81 <ulen> <index>, 0x30 <len> <component-chain> }`,
    /// i.e. `selectAlternateAccess` with `accessSelection.index` and a nested
    /// `AlternateAccess` carrying the component chain.
    IndexComponent {
        /// Zero-based index of the array element.
        index: u32,
        /// Name of the component selected inside that element.
        component: String,
    },
}

/// MMS `AlternateAccess`, a `SEQUENCE OF` carrying a single member.
///
/// ```text
/// AlternateAccess ::= SEQUENCE OF CHOICE {
///   unnamed AlternateAccessSelection,
///   named [5] IMPLICIT SEQUENCE { componentName Identifier, access AlternateAccessSelection }
/// }
///
/// AlternateAccessSelection ::= CHOICE {
///   selectAlternateAccess [0] IMPLICIT SEQUENCE {
///       accessSelection CHOICE {
///           component   [0] IMPLICIT Identifier,
///           index       [1] IMPLICIT Unsigned32,
///           indexRange  [2] IMPLICIT SEQUENCE { ... },
///           allElements [3] IMPLICIT NULL
///       },
///       alternateAccess AlternateAccess
///   },
///   selectAccess CHOICE {
///       component   [1] IMPLICIT Identifier,
///       index       [2] IMPLICIT Unsigned32,
///       indexRange  [3] IMPLICIT SEQUENCE { ... },
///       allElements [4] IMPLICIT NULL
///   }
/// }
/// ```
///
/// `accessSelection`, inside `selectAlternateAccess`, uses the tags 0 to 3 while
/// `selectAccess` uses 1 to 4.
#[derive(Debug, Clone, PartialEq, Eq)]
pub struct AlternateAccess {
    /// Selector applied at this level of the access path.
    pub selector: AlternateAccessSelector,
}

/// An AlternateAccess with its component path as a text.
#[verifier::ext_equal]
pub enum AlternateAccessView {
    /// Single array element.
    Index(u32),
    /// Array element followed by a component path.
    IndexComponent {
        /// Index of the array element.
        index: u32,
        /// The `$`-separated path.
        component: Seq<char>,
    },
}

impl View for AlternateAccess {
    type V = AlternateAccessView;

    open spec fn view(&self) -> AlternateAccessView {
        match self.selector {
            AlternateAccessSelector::Index(index) => AlternateAccessView::Index(index),
            AlternateAccessSelector::IndexComponent {
                index,
                component,
            } => AlternateAccessView::IndexComponent { index, component: component@ },
        }
    }
}

/// Where the first segment of a path ends: at the first `$`, or at the end.
pub open spec fn segment_end(path: Seq<u8>) -> int
    decreases path.len(),
{
    if path.len() == 0 || path[0] == 0x24 {
        0
    } else {
        1 + segment_end(path.skip(1))
    }
}

/// What is wrong with a component path: the first segment that is empty or too long.
pub open spec fn path_fault(path: Seq<u8>) -> Option<MmsError>
    decreases path.len(),
{
    let n = segment_end(path);
    if n == 0 {
        Some(MmsError::AlternateAccessUnsupported("component path contains an empty segment"))
    } else if n > MAX_IDENTIFIER_LEN {
        Some(MmsError::IdentifierTooLong { actual: n as usize })
    } else if n < path.len() {
        proof {
            lemma_segment_end(path);
        }
        path_fault(path.skip(n + 1))
    } else {
        None
    }
}

/// The encoding of a component path: the last segment is selected by tag `0x81`, and each
/// one before it is wrapped, with tag `0x80`, around the encoding of those after it.
pub open spec fn chain_octets(path: Seq<u8>) -> Seq<u8>
    decreases path.len(),
{
    let n = segment_end(path);
    if n < path.len() {
        proof {
            lemma_segment_end(path);
        }
        ber::tlv(
            0xa0,
            ber::tlv(0x80, path.take(n)) + ber::tlv(0x30, chain_octets(path.skip(n + 1))),
        )
    } else {
        ber::tlv(0x81, path)
    }
}

/// A segment of a component path: UTF-8, not empty, at most 64 bytes, with no `$` in it.
pub open spec fn segment_at(s: Seq<u8>) -> Result<Seq<char>, MmsError> {
    match text::text_at(s) {
        None => Err(MmsError::InvalidUtf8),
        Some(t) => if s.len() == 0 {
            Err(MmsError::AlternateAccessUnsupported("component segment is empty"))
        } else if s.len() > MAX_IDENTIFIER_LEN {
            Err(MmsError::IdentifierTooLong { actual: s.len() as usize })
        } else if segment_end(s) != s.len() {
            Err(MmsError::AlternateAccessUnsupported("component segment contains a separator"))
        } else {
            Ok(t)
        },
    }
}

/// The component path that the octets hold, if they are one SEQUENCE OF and it has one
/// member.
pub open spec fn chain_sequence_at(s: Seq<u8>) -> Result<Seq<char>, MmsError>
    decreases s.len(),
{
    match ber::tagged_at(s, 0x30) {
        Err(e) => Err(e),
        Ok(e) => {
            proof {
                ber::lemma_element_bounds(s);
            }
            match chain_member_at(e.val) {
                Err(x) => Err(x),
                Ok(path) => if ber::element_at(e.val)->Ok_0.size != e.val.len() || e.size
                    != s.len() {
                    Err(MmsError::AlternateAccessUnsupported("multi-member AlternateAccess"))
                } else {
                    Ok(path)
                },
            }
        },
    }
}

/// The component path that the member at the start of `s` spells.
pub open spec fn chain_member_at(s: Seq<u8>) -> Result<Seq<char>, MmsError>
    decreases s.len(),
{
    match ber::element_at(s) {
        Err(e) => Err(e),
        Ok(e) => if e.tag == 0x81 {
            segment_at(e.val)
        } else if e.tag != 0xa0 {
            Err(MmsError::AlternateAccessUnsupported("unknown component chain selector tag"))
        } else if e.val.len() == 0 {
            Err(MmsError::TruncatedPdu)
        } else if e.val[0] != 0x80 {
            Err(
                MmsError::AlternateAccessUnsupported(
                    "nested selectAlternateAccess: only accessSelection.component is supported",
                ),
            )
        } else {
            match ber::element_at(e.val) {
                Err(x) => Err(x),
                Ok(head) => match segment_at(head.val) {
                    Err(x) => Err(x),
                    Ok(t) => {
                        proof {
                            ber::lemma_element_bounds(s);
                            ber::lemma_element_bounds(e.val);
                        }
                        match chain_sequence_at(e.val.skip(head.size as int)) {
                            Err(x) => Err(x),
                            Ok(rest) => Ok(t + "$"@ + rest),
                        }
                    },
                },
            }
        },
    }
}

/// An array index: an unsigned INTEGER of one to eight octets whose value fits in 32 bits.
pub open spec fn index_at(s: Seq<u8>) -> Result<u32, MmsError> {
    match integer::unsigned_at(s, 8) {
        Err(e) => Err(e),
        Ok(v) => if v > u32::MAX {
            Err(MmsError::AlternateAccessUnsupported("index exceeds Unsigned32"))
        } else {
            Ok(v as u32)
        },
    }
}

/// The content of `selectAlternateAccess`: the index, then the component path.
pub open spec fn select_alternate_at(s: Seq<u8>) -> Result<AlternateAccessView, MmsError> {
    if s.len() == 0 {
        Err(MmsError::TruncatedPdu)
    } else if s[0] != 0x81 {
        Err(
            MmsError::AlternateAccessUnsupported(
                "selectAlternateAccess: only accessSelection.index is supported",
            ),
        )
    } else {
        match ber::element_at(s) {
            Err(e) => Err(e),
            Ok(e) => match index_at(e.val) {
                Err(x) => Err(x),
                Ok(index) => match chain_sequence_at(s.skip(e.size as int)) {
                    Err(x) => Err(x),
                    Ok(component) => Ok(AlternateAccessView::IndexComponent { index, component }),
                },
            },
        }
    }
}

/// The selector that an element with this tag and content is.
pub open spec fn selector_of(tag: u8, val: Seq<u8>) -> Result<AlternateAccessView, MmsError> {
    if tag == 0x82 {
        match index_at(val) {
            Err(e) => Err(e),
            Ok(index) => Ok(AlternateAccessView::Index(index)),
        }
    } else if tag == 0xa0 {
        select_alternate_at(val)
    } else if tag == 0x81 {
        Err(
            MmsError::AlternateAccessUnsupported(
                "selectAccess.component (component-only) is not supported",
            ),
        )
    } else if tag == 0xa3 {
        Err(MmsError::AlternateAccessUnsupported("selectAccess.indexRange is not supported"))
    } else if tag == 0x84 {
        Err(MmsError::AlternateAccessUnsupported("selectAccess.allElements is not supported"))
    } else if tag == 0xa5 {
        Err(MmsError::AlternateAccessUnsupported("named AlternateAccess member is not supported"))
    } else {
        Err(MmsError::AlternateAccessUnsupported("unknown AlternateAccess selector tag"))
    }
}

impl AlternateAccessView {
    /// The encoding of the one member.
    pub open spec fn member_octets(self) -> Seq<u8> {
        match self {
            AlternateAccessView::Index(index) => ber::tlv(
                0x82,
                integer::unsigned_octets(index as u64),
            ),
            AlternateAccessView::IndexComponent { index, component } => ber::tlv(
                0xa0,
                ber::tlv(0x81, integer::unsigned_octets(index as u64)) + ber::tlv(
                    0x30,
                    chain_octets(text::utf8(component)),
                ),
            ),
        }
    }

    /// The encoding, under the tag of the sequence.
    pub open spec fn octets(self, tag: u8) -> Seq<u8> {
        ber::tlv(tag, self.member_octets())
    }

    /// The AlternateAccess at the start of `s`, which must have this tag, and how many
    /// octets it takes.
    pub open spec fn parse(s: Seq<u8>, tag: u8) -> Result<(AlternateAccessView, nat), MmsError> {
        match ber::tagged_at(s, tag) {
            Err(e) => Err(e),
            Ok(e) => if e.val.len() == 0 {
                Err(MmsError::AlternateAccessUnsupported("empty AlternateAccess sequence"))
            } else {
                match ber::element_at(e.val) {
                    Err(x) => Err(x),
                    Ok(member) => match selector_of(member.tag, member.val) {
                        Err(x) => Err(x),
                        Ok(a) => if member.size != e.val.len() {
                            Err(
                                MmsError::AlternateAccessUnsupported(
                                    "multi-member AlternateAccess",
                                ),
                            )
                        } else {
                            Ok((a, e.size))
                        },
                    },
                }
            },
        }
    }

    /// Every segment of the component path is between 1 and 64 bytes long.
    pub open spec fn within_limit(self) -> bool {
        match self {
            AlternateAccessView::Index(_) => true,
            AlternateAccessView::IndexComponent { component, .. } => path_fault(
                text::utf8(component),
            ) is None,
        }
    }
}

/// The first segment ends within the path, at a `$` or at the end.
pub proof fn lemma_segment_end(path: Seq<u8>)
    ensures
        0 <= segment_end(path) <= path.len(),
        segment_end(path) < path.len() ==> path[segment_end(path)] == 0x24,
    decreases path.len(),
{
    if path.len() > 0 && path[0] != 0x24 {
        lemma_segment_end(path.skip(1));
    }
}

/// Finds where the first segment of a path ends.
fn find_segment_end(path: &[u8]) -> (n: usize)
    ensures
        n == segment_end(path@),
        n <= path.len(),
{
    let mut n: usize = 0;
    assert(path@.skip(0) =~= path@);
    while n < path.len() && path[n] != 0x24
        invariant
            n <= path.len(),
            segment_end(path@) == n + segment_end(path@.skip(n as int)),
        decreases path.len() - n,
    {
        assert(path@.skip(n as int).skip(1) =~= path@.skip(n + 1));
        n = n + 1;
    }
    n
}

/// Finds the first segment of a component path that is empty or too long.
fn check_path(path: &[u8]) -> (r: Result<(), MmsError>)
    ensures
        match path_fault(path@) {
            Some(e) => r == Err::<(), MmsError>(e),
            None => r is Ok,
        },
    decreases path.len(),
{
    let n: usize = find_segment_end(path);
    if n == 0 {
        return Err(
            MmsError::AlternateAccessUnsupported("component path contains an empty segment"),
        );
    }
    if n > MAX_IDENTIFIER_LEN {
        return Err(MmsError::IdentifierTooLong { actual: n });
    }
    if n < path.len() {
        let rest: &[u8] = &path[n + 1..path.len()];
        assert(rest@ =~= path@.skip(n + 1));
        check_path(rest)
    } else {
        Ok(())
    }
}

impl AlternateAccess {
    /// Build a selector for a single array element with no sub-component.
    pub fn index(index: u32) -> (r: Self)
        ensures
            r@ == AlternateAccessView::Index(index),
    {
        AlternateAccess { selector: AlternateAccessSelector::Index(index) }
    }

    /// Build a selector for an array element with a sub-component path.
    ///
    /// `component` is `$`-separated. Each segment is bounded by
    /// `MAX_IDENTIFIER_LEN`. Empty input and empty segments are rejected.
    pub fn index_component(index: u32, component: &str) -> (r: Result<Self, MmsError>)
        ensures
            text::utf8(component@).len() == 0 ==> r == Err::<AlternateAccess, MmsError>(
                MmsError::AlternateAccessUnsupported("component is empty"),
            ),
            text::utf8(component@).len() > 0 ==> match path_fault(text::utf8(component@)) {
                Some(e) => r == Err::<AlternateAccess, MmsError>(e),
                None => r matches Ok(a) && a@ == (AlternateAccessView::IndexComponent {
                    index,
                    component: component@,
                }),
            },
            r matches Ok(a) ==> a@.within_limit(),
    {
        let bytes: &[u8] = component.as_bytes();
        if bytes.len() == 0 {
            return Err(MmsError::AlternateAccessUnsupported("component is empty"));
        }
        check_path(bytes)?;
        Ok(
            AlternateAccess {
                selector: AlternateAccessSelector::IndexComponent {
                    index,
                    component: component.to_owned(),
                },
            },
        )
    }

    /// Encode the value into `buf`, including the outer `0x30 <len>` SEQUENCE OF wrapper.
    pub fn encode(&self, buf: &mut BytesMut)
        requires
            buffer::contents(*old(buf)).len() + self@.octets(0x30).len() <= isize::MAX,
        ensures
            buffer::contents(*final(buf)) == buffer::contents(*old(buf)) + self@.octets(0x30),
    {
        self.encode_tagged(0x30, buf);
    }

    /// Encode the value into `buf` with this tag on the wrapper.
    pub(crate) fn encode_tagged(&self, tag: u8, buf: &mut BytesMut)
        requires
            buffer::contents(*old(buf)).len() + self@.octets(tag).len() <= isize::MAX,
        ensures
            buffer::contents(*final(buf)) == buffer::contents(*old(buf)) + self@.octets(tag),
    {
        let mut member: BytesMut = BytesMut::new();
        encode_alt_access_member(self, &mut member);
        assert(buffer::contents(member) =~= self@.member_octets());
        put_tlv(tag, &member, buf);
    }

    /// Number of bytes the encoded form occupies, including the outer wrapper.
    pub fn encoded_len(&self) -> (n: usize)
        requires
            self@.octets(0x30).len() <= usize::MAX,
        ensures
            n == self@.octets(0x30).len(),
    {
        let inner: usize = alt_access_member_len(self);
        1 + ber_len_size(inner) + inner
    }

    /// Decode an `AlternateAccess` from `data`, starting at the outer
    /// `0x30 <len>` SEQUENCE OF wrapper. Returns the decoded value and the
    /// total number of bytes consumed, header and content.
    ///
    /// Only the two selector forms produced by `AlternateAccess::index` and
    /// `AlternateAccess::index_component` are accepted. Any other
    /// `accessSelection` branch (`indexRange`, `allElements`, `named`,
    /// component-only, multi-member) yields `MmsError::AlternateAccessUnsupported`.
    pub fn decode(data: &[u8]) -> (r: Result<(Self, usize), MmsError>)
        ensures
            ber::agrees_at(r, AlternateAccessView::parse(data@, 0x30)),
            r matches Ok((_, n)) ==> 2 <= n <= data.len(),
    {
        Self::decode_tagged(data, 0x30)
    }

    /// Decode an `AlternateAccess` whose wrapper has this tag.
    pub(crate) fn decode_tagged(data: &[u8], tag: u8) -> (r: Result<(Self, usize), MmsError>)
        ensures
            ber::agrees_at(r, AlternateAccessView::parse(data@, tag)),
            r matches Ok((_, n)) ==> 2 <= n <= data.len(),
    {
        assert(data@.skip(0) =~= data@);
        let t: Tlv = take_tagged(data, 0, tag)?;
        let inner: &[u8] = t.val;
        if inner.len() == 0 {
            return Err(MmsError::AlternateAccessUnsupported("empty AlternateAccess sequence"));
        }
        assert(inner@.skip(0) =~= inner@);
        let member: Tlv = take_element(inner, 0)?;
        let selector: AlternateAccessSelector = match decode_alt_access_member(
            member.tag,
            member.val,
        ) {
            Ok(a) => a.selector,
            Err(e) => return Err(e),
        };
        if member.size != inner.len() {
            return Err(MmsError::AlternateAccessUnsupported("multi-member AlternateAccess"));
        }
        Ok((AlternateAccess { selector }, t.size))
    }
}

/// Decode an array index.
fn decode_index(val: &[u8]) -> (r: Result<u32, MmsError>)
    ensures
        r == index_at(val@),
{
    let v: u64 = decode_unsigned_int(val)?;
    if v > 0xffff_ffff {
        return Err(MmsError::AlternateAccessUnsupported("index exceeds Unsigned32"));
    }
    Ok(v as u32)
}

/// Decode the member with this tag and content.
fn decode_alt_access_member(tag: u8, val: &[u8]) -> (r: Result<AlternateAccess, MmsError>)
    ensures
        ber::agrees(r, selector_of(tag, val@)),
{
    match tag {
        // selectAccess.index - CONTEXT [2] IMPLICIT Unsigned32
        0x82 => {
            let index: u32 = decode_index(val)?;
            Ok(AlternateAccess::index(index))
        },
        // selectAlternateAccess - CONTEXT [0] IMPLICIT SEQUENCE
        0xa0 => decode_select_alternate_access(val),
        0x81 => Err(
            MmsError::AlternateAccessUnsupported(
                "selectAccess.component (component-only) is not supported",
            ),
        ),
        0xa3 => Err(
            MmsError::AlternateAccessUnsupported("selectAccess.indexRange is not supported"),
        ),
        0x84 => Err(
            MmsError::AlternateAccessUnsupported("selectAccess.allElements is not supported"),
        ),
        0xa5 => Err(
            MmsError::AlternateAccessUnsupported("named AlternateAccess member is not supported"),
        ),
        _ => Err(MmsError::AlternateAccessUnsupported("unknown AlternateAccess selector tag")),
    }
}

/// Decode the body of `selectAlternateAccess`, `[0]` IMPLICIT SEQUENCE: the index, then
/// a nested `AlternateAccess` carrying the component chain.
fn decode_select_alternate_access(data: &[u8]) -> (r: Result<AlternateAccess, MmsError>)
    ensures
        ber::agrees(r, select_alternate_at(data@)),
{
    if data.len() == 0 {
        return Err(MmsError::TruncatedPdu);
    }
    if data[0] != 0x81 {
        return Err(
            MmsError::AlternateAccessUnsupported(
                "selectAlternateAccess: only accessSelection.index is supported",
            ),
        );
    }
    assert(data@.skip(0) =~= data@);
    let t: Tlv = take_element(data, 0)?;
    let index: u32 = decode_index(t.val)?;
    let tail: &[u8] = &data[t.size..data.len()];
    assert(tail@ =~= data@.skip(t.size as int));
    let component: String = decode_component_chain_sequence(tail)?;
    Ok(
        AlternateAccess {
            selector: AlternateAccessSelector::IndexComponent { index, component },
        },
    )
}

/// Decode a component chain wrapped in `0x30 <len>` SEQUENCE OF.
fn decode_component_chain_sequence(data: &[u8]) -> (r: Result<String, MmsError>)
    ensures
        ber::agrees(r, chain_sequence_at(data@)),
    decreases data.len(),
{
    assert(data@.skip(0) =~= data@);
    let t: Tlv = take_tagged(data, 0, 0x30)?;
    let (path, size): (String, usize) = decode_component_chain_member(t.val)?;
    if size != t.val.len() || t.size != data.len() {
        return Err(MmsError::AlternateAccessUnsupported("multi-member AlternateAccess"));
    }
    Ok(path)
}

/// Decode one segment of a component path.
fn decode_segment(val: &[u8]) -> (r: Result<String, MmsError>)
    ensures
        ber::agrees(r, segment_at(val@)),
{
    match text::decode_text(val) {
        None => Err(MmsError::InvalidUtf8),
        Some(s) => if val.len() == 0 {
            Err(MmsError::AlternateAccessUnsupported("component segment is empty"))
        } else if val.len() > MAX_IDENTIFIER_LEN {
            Err(MmsError::IdentifierTooLong { actual: val.len() })
        } else if find_segment_end(val) != val.len() {
            Err(MmsError::AlternateAccessUnsupported("component segment contains a separator"))
        } else {
            Ok(s)
        },
    }
}

/// Decode one member of a component chain: either `selectAccess.component` (`0x81`, the
/// last segment) or `selectAlternateAccess` (`0xa0`) recursing through the chain. Returns
/// the path and the number of bytes that the member takes.
fn decode_component_chain_member(data: &[u8]) -> (r: Result<(String, usize), MmsError>)
    ensures
        match chain_member_at(data@) {
            Ok(path) => r matches Ok((p, n)) && p@ == path && n == ber::element_at(
                data@,
            )->Ok_0.size,
            Err(e) => r == Err::<(String, usize), MmsError>(e),
        },
    decreases data.len(),
{
    assert(data@.skip(0) =~= data@);
    let t: Tlv = take_element(data, 0)?;
    let val: &[u8] = t.val;
    match t.tag {
        0x81 => Ok((decode_segment(val)?, t.size)),
        0xa0 => {
            if val.len() == 0 {
                return Err(MmsError::TruncatedPdu);
            }
            if val[0] != 0x80 {
                return Err(
                    MmsError::AlternateAccessUnsupported(
                        "nested selectAlternateAccess: only accessSelection.component is supported",
                    ),
                );
            }
            assert(val@.skip(0) =~= val@);
            let head: Tlv = take_element(val, 0)?;
            let first: String = decode_segment(head.val)?;
            let tail: &[u8] = &val[head.size..val.len()];
            assert(tail@ =~= val@.skip(head.size as int));
            let rest: String = decode_component_chain_sequence(tail)?;
            let joined: String = text::concat(&first, "$");
            Ok((text::concat(&joined, &rest), t.size))
        },
        _ => Err(MmsError::AlternateAccessUnsupported("unknown component chain selector tag")),
    }
}

/// Encode the one member, without the outer SEQUENCE OF wrapper.
fn encode_alt_access_member(access: &AlternateAccess, buf: &mut BytesMut)
    requires
        buffer::contents(*old(buf)).len() + access@.member_octets().len() <= isize::MAX,
    ensures
        buffer::contents(*final(buf)) == buffer::contents(*old(buf)) + access@.member_octets(),
{
    match &access.selector {
        AlternateAccessSelector::Index(index) => {
            put_tlv(0x82, &encode_unsigned_int_minimal(*index as u64), buf);
        },
        AlternateAccessSelector::IndexComponent { index, component } => {
            let mut chain: BytesMut = BytesMut::new();
            encode_component_chain(component.as_str().as_bytes(), &mut chain);
            let mut sel: BytesMut = BytesMut::new();
            put_tlv(0x81, &encode_unsigned_int_minimal(*index as u64), &mut sel);
            put_tlv(0x30, &chain, &mut sel);
            assert(buffer::contents(chain) =~= chain_octets(text::utf8(component@)));
            assert(buffer::contents(sel) =~= ber::tlv(
                0x81,
                integer::unsigned_octets(*index as u64),
            ) + ber::tlv(0x30, chain_octets(text::utf8(component@))));
            put_tlv(0xa0, &sel, buf);
        },
    }
}

/// Number of bytes the one member takes.
fn alt_access_member_len(access: &AlternateAccess) -> (n: usize)
    requires
        access@.member_octets().len() <= usize::MAX,
    ensures
        n == access@.member_octets().len(),
{
    match &access.selector {
        AlternateAccessSelector::Index(index) => {
            let n: usize = encode_unsigned_int_minimal(*index as u64).len();
            1 + ber_len_size(n) + n
        },
        AlternateAccessSelector::IndexComponent { index, component } => {
            let idx_n: usize = encode_unsigned_int_minimal(*index as u64).len();
            let chain_n: usize = component_chain_len(component.as_str().as_bytes());
            let inner: usize = (1 + ber_len_size(idx_n) + idx_n) + (1 + ber_len_size(chain_n)
                + chain_n);
            1 + ber_len_size(inner) + inner
        },
    }
}

/// Encode a `$`-separated sub-component path. The last segment is emitted as
/// `selectAccess.component`; preceding segments are wrapped as `selectAlternateAccess`
/// with `accessSelection.component` and a nested `AlternateAccess`.
fn encode_component_chain(path: &[u8], buf: &mut BytesMut)
    requires
        buffer::contents(*old(buf)).len() + chain_octets(path@).len() <= isize::MAX,
    ensures
        buffer::contents(*final(buf)) == buffer::contents(*old(buf)) + chain_octets(path@),
    decreases path.len(),
{
    let n: usize = find_segment_end(path);
    if n < path.len() {
        let head: &[u8] = &path[0..n];
        let rest: &[u8] = &path[n + 1..path.len()];
        assert(head@ =~= path@.take(n as int));
        assert(rest@ =~= path@.skip(n + 1));
        let mut nested: BytesMut = BytesMut::new();
        encode_component_chain(rest, &mut nested);
        let mut sel: BytesMut = BytesMut::new();
        put_tlv(0x80, head, &mut sel);
        put_tlv(0x30, &nested, &mut sel);
        assert(buffer::contents(nested) =~= chain_octets(rest@));
        assert(buffer::contents(sel) =~= ber::tlv(0x80, head@) + ber::tlv(
            0x30,
            chain_octets(rest@),
        ));
        put_tlv(0xa0, &sel, buf);
    } else {
        put_tlv(0x81, path, buf);
    }
}

/// Number of bytes a component path takes.
fn component_chain_len(path: &[u8]) -> (n: usize)
    requires
        chain_octets(path@).len() <= usize::MAX,
    ensures
        n == chain_octets(path@).len(),
    decreases path.len(),
{
    let n: usize = find_segment_end(path);
    if n < path.len() {
        let rest: &[u8] = &path[n + 1..path.len()];
        assert(rest@ =~= path@.skip(n + 1));
        let nested: usize = component_chain_len(rest);
        let inner: usize = (1 + ber_len_size(n) + n) + (1 + ber_len_size(nested) + nested);
        1 + ber_len_size(inner) + inner
    } else {
        1 + ber_len_size(n) + n
    }
}

/// The first segment, taken by itself, has no `$` in it.
proof fn lemma_first_segment(path: Seq<u8>)
    ensures
        segment_end(path.take(segment_end(path))) == segment_end(path),
    decreases path.len(),
{
    lemma_segment_end(path);
    if path.len() > 0 && path[0] != 0x24 {
        let n = segment_end(path);
        lemma_first_segment(path.skip(1));
        assert(path.take(n).skip(1) =~= path.skip(1).take(n - 1));
    }
}

/// Both sides of a `$` in UTF-8 are UTF-8.
proof fn lemma_utf8_around_dollar(path: Seq<u8>, i: int)
    requires
        vstd::utf8::valid_utf8(path),
        0 <= i < path.len(),
        path[i] == 0x24,
    ensures
        vstd::utf8::valid_utf8(path.take(i)),
        vstd::utf8::valid_utf8(path.skip(i + 1)),
    decreases path.len(),
{
    let n = vstd::utf8::length_of_first_scalar(path);
    let rest = vstd::utf8::pop_first_scalar(path);
    if i == 0 {
        assert(rest =~= path.skip(1));
        assert(path.take(0) =~= Seq::empty());
    } else {
        assert(n <= i);
        lemma_utf8_around_dollar(rest, i - n);
        assert(rest.skip(i - n + 1) =~= path.skip(i + 1));
        let head = path.take(i);
        assert(vstd::utf8::valid_first_scalar(head));
        assert(vstd::utf8::pop_first_scalar(head) =~= rest.take(i - n));
    }
}

/// The UTF-8 of two texts joined by a `$`.
proof fn lemma_utf8_joined(a: Seq<char>, b: Seq<char>)
    ensures
        text::utf8(a + "$"@ + b) == text::utf8(a) + seq![0x24u8] + text::utf8(b),
{
    reveal_strlit("$");
    assert("$"@ =~= seq!['$']);
    assert(text::utf8(seq!['$']) =~= seq![0x24u8]) by {
        reveal_with_fuel(vstd::utf8::encode_utf8, 2);
        assert(0x24u32 & 0x7f == 0x24) by (bit_vector);
        assert(seq!['$'].drop_first() =~= Seq::empty());
    }
    text::lemma_utf8_concat(a + "$"@, b);
    text::lemma_utf8_concat(a, "$"@);
}

/// A component path with no fault is read back as it was written.
proof fn lemma_chain_round_trip(component: Seq<char>)
    requires
        path_fault(text::utf8(component)) is None,
        chain_octets(text::utf8(component)).len() <= 0xffff,
    ensures
        chain_member_at(chain_octets(text::utf8(component))) == Ok::<Seq<char>, MmsError>(
            component,
        ),
        ber::element_at(chain_octets(text::utf8(component))) matches Ok(e) && e.size
            == chain_octets(text::utf8(component)).len(),
    decreases text::utf8(component).len(),
{
    let path = text::utf8(component);
    let n = segment_end(path);
    lemma_segment_end(path);
    text::lemma_text_round_trip(component);
    if n < path.len() {
        lemma_utf8_around_dollar(path, n);
        lemma_first_segment(path);
        let head = path.take(n);
        let rest = path.skip(n + 1);
        let a = vstd::utf8::decode_utf8(head);
        let b = vstd::utf8::decode_utf8(rest);
        vstd::utf8::decode_utf8_encode_utf8(head);
        vstd::utf8::decode_utf8_encode_utf8(rest);
        lemma_utf8_joined(a, b);
        assert(head + seq![0x24u8] + rest =~= path);
        text::lemma_text_round_trip(a + "$"@ + b);
        let nested = chain_octets(rest);
        let sel = ber::tlv(0x80, head) + ber::tlv(0x30, nested);
        lemma_chain_round_trip(b);
        ber::lemma_element_alone(0xa0, sel);
        ber::law_element_round_trip(0x80, head, ber::tlv(0x30, nested));
        ber::lemma_element_alone(0x30, nested);
        assert(sel[0] == 0x80);
        assert(chain_sequence_at(ber::tlv(0x30, nested)) == Ok::<Seq<char>, MmsError>(b));
    } else {
        ber::lemma_element_alone(0x81, path);
    }
}

/// An index is read back as it was written.
proof fn lemma_index_round_trip(index: u32)
    ensures
        index_at(integer::unsigned_octets(index as u64)) == Ok::<u32, MmsError>(index),
{
    integer::law_unsigned_round_trip(index as u64);
}

/// An AlternateAccess whose path segments are between 1 and 64 bytes long, and whose
/// member has at most 0xffff octets, decodes to itself, whatever follows it.
pub proof fn law_alternate_access_round_trip(a: AlternateAccessView, tag: u8, rest: Seq<u8>)
    requires
        a.within_limit(),
        a.member_octets().len() <= 0xffff,
    ensures
        AlternateAccessView::parse(a.octets(tag) + rest, tag) == Ok::<
            (AlternateAccessView, nat),
            MmsError,
        >((a, a.octets(tag).len())),
{
    ber::law_element_round_trip(tag, a.member_octets(), rest);
    match a {
        AlternateAccessView::Index(index) => {
            lemma_index_round_trip(index);
            integer::law_unsigned_round_trip(index as u64);
            let idx = integer::unsigned_octets(index as u64);
            ber::lemma_element_alone(0x82, idx);
            assert(selector_of(0x82, idx) == Ok::<AlternateAccessView, MmsError>(a));
            assert(ber::element_at(a.member_octets()).unwrap().size == a.member_octets().len());
            assert(ber::tagged_at(a.octets(tag) + rest, tag).unwrap().val == a.member_octets());
            assert(ber::tagged_at(a.octets(tag) + rest, tag).unwrap().size == a.octets(tag).len());
        },
        AlternateAccessView::IndexComponent { index, component } => {
            let idx = integer::unsigned_octets(index as u64);
            let chain = chain_octets(text::utf8(component));
            lemma_index_round_trip(index);
            integer::law_unsigned_round_trip(index as u64);
            lemma_chain_round_trip(component);
            let sel = ber::tlv(0x81, idx) + ber::tlv(0x30, chain);
            ber::lemma_element_alone(0xa0, sel);
            ber::law_element_round_trip(0x81, idx, ber::tlv(0x30, chain));
            ber::lemma_element_alone(0x30, chain);
            assert(sel[0] == 0x81);
            assert(chain_sequence_at(ber::tlv(0x30, chain)) == Ok::<Seq<char>, MmsError>(
                component,
            ));
            assert(selector_of(0xa0, sel) == Ok::<AlternateAccessView, MmsError>(a));
        },
    }
}

/// A segment without a `$` in front of a path ends where the `$` between them stands.
pub proof fn lemma_segment_end_joined(head: Seq<u8>, rest: Seq<u8>)
    requires
        segment_end(head) == head.len(),
    ensures
        segment_end(head + seq![0x24u8] + rest) == head.len(),
    decreases head.len(),
{
    let path = head + seq![0x24u8] + rest;
    if head.len() > 0 {
        lemma_segment_end(head.skip(1));
        lemma_segment_end_joined(head.skip(1), rest);
        assert(path.skip(1) =~= head.skip(1) + seq![0x24u8] + rest);
    }
}

/// A component path that decodes has no fault.
proof fn lemma_decoded_chain(s: Seq<u8>)
    requires
        chain_member_at(s) is Ok,
    ensures
        path_fault(text::utf8(chain_member_at(s)->Ok_0)) is None,
    decreases s.len(),
{
    let e = ber::element_at(s)->Ok_0;
    ber::lemma_element_bounds(s);
    if e.tag == 0x81 {
        text::lemma_text_encodes_back(e.val);
    } else {
        let head = ber::element_at(e.val)->Ok_0;
        ber::lemma_element_bounds(e.val);
        let tail = e.val.skip(head.size as int);
        let nested = ber::tagged_at(tail, 0x30)->Ok_0;
        ber::lemma_element_bounds(tail);
        let a = segment_at(head.val)->Ok_0;
        let b = chain_member_at(nested.val)->Ok_0;
        text::lemma_text_encodes_back(head.val);
        lemma_decoded_chain(nested.val);
        lemma_utf8_joined(a, b);
        let rest = text::utf8(b);
        let path = head.val + seq![0x24u8] + rest;
        lemma_segment_end_joined(head.val, rest);
        assert(path.skip(head.val.len() as int + 1) =~= rest);
    }
}

/// Only what `AlternateAccess::index` and `AlternateAccess::index_component` produce is
/// accepted: every segment of a path that decodes is between 1 and 64 bytes long.
pub proof fn law_decoded_access_within_limit(s: Seq<u8>, tag: u8)
    ensures
        AlternateAccessView::parse(s, tag) matches Ok((a, _)) ==> a.within_limit(),
{
    if AlternateAccessView::parse(s, tag) is Ok {
        let e = ber::tagged_at(s, tag)->Ok_0;
        let member = ber::element_at(e.val)->Ok_0;
        if member.tag == 0xa0 {
            let index = ber::element_at(member.val)->Ok_0;
            let nested = ber::tagged_at(member.val.skip(index.size as int), 0x30)->Ok_0;
            lemma_decoded_chain(nested.val);
        }
    }
}

} // verus!
