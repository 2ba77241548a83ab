//! MMS Read request and response PDUs.
//!
//! ## Wire format
//!
//! Inside the `ConfirmedServiceRequest` CHOICE:
//! - read is CONTEXT `[4]` IMPLICIT CONSTRUCTED, tag `0xa4`
//!
//! A ReadRequest inside a ConfirmedRequestPdu:
//! ```text
//! 0xa0 <len>           -- MmsPdu [0] confirmedRequestPdu
//!   0x02 <len> <id>    -- invokeID INTEGER
//!   0xa4 <len>         -- read [4] IMPLICIT, a ReadRequest SEQUENCE
//!     [0x80 0x01 0x01] -- specificationWithResult [0] = TRUE, OPTIONAL
//!     0xa1 <len>       -- variableAccessSpecification [1] EXPLICIT
//!       <VAS CHOICE>   -- 0xa0 listOfVariable or 0xa1 variableListName
//! ```
//!
//! A ReadResponse inside a ConfirmedResponsePdu:
//! ```text
//! 0xa1 <len>           -- MmsPdu [1] confirmedResponsePdu
//!   0x02 <len> <id>    -- invokeID INTEGER
//!   0xa4 <len>         -- read [4] IMPLICIT, a ReadResponse SEQUENCE
//!     [0xa0 <len> ...] -- variableAccessSpecification [0] EXPLICIT, OPTIONAL
//!     0xa1 <len>       -- listOfAccessResult [1] IMPLICIT SEQUENCE OF
//!       <AccessResult> -- repeated once per variable
//! ```
//!
//! ## Interoperability
//!
//! `specificationWithResult = true` is encoded faithfully on the listOfVariable path,
//! but a response that does not echo the access specification is still accepted:
//! `variableAccessSpecification` is OPTIONAL in the ReadResponse, unlike the
//! ReadRequest, where it is required.

use bytes::BytesMut;
use vstd::prelude::*;

use crate::buffer;
use crate::mms::error::MmsError;
use crate::mms::pdu::access;
use crate::mms::pdu::access::{AccessResult, AccessResultView};
use crate::mms::pdu::ber;
use crate::mms::pdu::ber::{put_tlv, take_content, take_element, Tlv};
use crate::mms::pdu::confirmed;
use crate::mms::pdu::confirmed::{decode_confirmed_pdu_inner, put_confirmed};
use crate::mms::pdu::object_name::{ObjectName, ObjectNameView};
use crate::mms::pdu::variable_access;
use crate::mms::pdu::variable_access::{
    ListOfVariableEntry,
    ListOfVariableEntryView,
    VariableAccessSpecification,
    VariableAccessView,
};

verus! {

broadcast use ber::group_element_sizes;

/// Tag of Read inside the ConfirmedService CHOICE.
pub const SERVICE_TAG_READ: u8 = 0xa4;

/// An MMS ReadRequest.
///
/// - `specificationWithResult`: `[0]` IMPLICIT BOOLEAN, OPTIONAL with DEFAULT FALSE
/// - `variableAccessSpecification`: `[1]` EXPLICIT CHOICE of listOfVariable or
///   variableListName
#[derive(Debug, Clone, PartialEq, Eq)]
pub struct ReadRequest {
    /// When true the server echoes the access specification in its response.
    /// OPTIONAL on the wire, with DEFAULT FALSE.
    pub specification_with_result: bool,
    /// Which variables to read.
    pub variable_access_spec: VariableAccessSpecification,
}

/// A ReadRequest with its access specification in view.
#[verifier::ext_equal]
pub struct ReadRequestView {
    /// Whether the server is to echo the access specification.
    pub specification_with_result: bool,
    /// Which variables to read.
    pub variable_access_spec: VariableAccessView,
}

impl View for ReadRequest {
    type V = ReadRequestView;

    open spec fn view(&self) -> ReadRequestView {
        ReadRequestView {
            specification_with_result: self.specification_with_result,
            variable_access_spec: self.variable_access_spec@,
        }
    }
}

/// What has been read of a ReadRequest: the flag and the access specification.
pub type ReadRequestFields = (bool, Option<VariableAccessView>);

/// One field of a ReadRequest; a later field replaces an earlier one, and others are
/// skipped.
pub open spec fn read_request_field(acc: ReadRequestFields, tag: u8, val: Seq<u8>) -> Result<
    ReadRequestFields,
    MmsError,
> {
    if tag == 0x80 {
        if val.len() == 0 {
            Err(MmsError::InvalidLength)
        } else {
            Ok((val[0] != 0, acc.1))
        }
    } else if tag == 0xa1 {
        match VariableAccessView::parse(val) {
            Err(e) => Err(e),
            Ok((v, _)) => Ok((acc.0, Some(v))),
        }
    } else {
        Ok(acc)
    }
}

/// `read_request_field` as a step over the elements.
pub open spec fn read_request_fields() -> spec_fn(ReadRequestFields, u8, Seq<u8>) -> Result<
    ReadRequestFields,
    MmsError,
> {
    |acc: ReadRequestFields, tag: u8, val: Seq<u8>| read_request_field(acc, tag, val)
}

impl ReadRequestView {
    /// The content of the service: the flag where it is set, then the specification.
    pub open spec fn content(self) -> Seq<u8> {
        let spec = ber::tlv(0xa1, self.variable_access_spec.octets());
        if self.specification_with_result {
            ber::tlv(0x80, seq![0x01u8]) + spec
        } else {
            spec
        }
    }

    /// The encoding of the service.
    pub open spec fn octets(self) -> Seq<u8> {
        ber::tlv(SERVICE_TAG_READ, self.content())
    }

    /// The request at the start of `s`.
    pub open spec fn parse(s: Seq<u8>) -> Result<ReadRequestView, MmsError> {
        match ber::tagged_at(s, SERVICE_TAG_READ) {
            Err(e) => Err(e),
            Ok(e) => match ber::fold(e.val, (false, None), read_request_fields()) {
                Err(x) => Err(x),
                Ok((specification_with_result, Some(variable_access_spec))) => Ok(
                    ReadRequestView { specification_with_result, variable_access_spec },
                ),
                Ok((_, None)) => Err(MmsError::TruncatedPdu),
            },
        }
    }
}

impl ReadRequest {
    /// Builds a request that reads one domain-specific variable.
    pub fn single_domain(domain_id: &str, item_id: &str) -> (r: Self)
        ensures
            r@ == (ReadRequestView {
                specification_with_result: false,
                variable_access_spec: VariableAccessView::ListOfVariable(
                    seq![
                        ListOfVariableEntryView {
                            name: ObjectNameView::DomainSpecific {
                                domain_id: domain_id@,
                                item_id: item_id@,
                            },
                            alt_access: None,
                        },
                    ],
                ),
            }),
    {
        let name: ObjectName = ObjectName::DomainSpecific {
            domain_id: domain_id.to_owned(),
            item_id: item_id.to_owned(),
        };
        let mut entries: Vec<ListOfVariableEntry> = Vec::new();
        entries.push(ListOfVariableEntry::name(name));
        let r = ReadRequest {
            specification_with_result: false,
            variable_access_spec: VariableAccessSpecification::ListOfVariable(entries),
        };
        proof {
            let list = seq![
                ListOfVariableEntryView {
                    name: ObjectNameView::DomainSpecific {
                        domain_id: domain_id@,
                        item_id: item_id@,
                    },
                    alt_access: None,
                },
            ];
            assert(variable_access::entry_views(entries@) =~= list);
        }
        r
    }

    /// Builds a request that reads a named variable list.
    pub fn named_list(name: ObjectName, specification_with_result: bool) -> (r: Self)
        ensures
            r == (ReadRequest {
                specification_with_result,
                variable_access_spec: VariableAccessSpecification::VariableListName(name),
            }),
    {
        ReadRequest {
            specification_with_result,
            variable_access_spec: VariableAccessSpecification::VariableListName(name),
        }
    }

    /// Encodes the request, including the `0xa4 <len>` service wrapper.
    ///
    /// The caller adds the ConfirmedRequestPdu invokeID and its outer `0xa0` wrapper.
    pub fn encode(&self, buf: &mut BytesMut)
        requires
            buffer::contents(*old(buf)).len() + self@.octets().len() <= isize::MAX,
        ensures
            buffer::contents(*final(buf)) == buffer::contents(*old(buf)) + self@.octets(),
    {
        let mut inner: BytesMut = BytesMut::new();
        // specificationWithResult [0], written only when true since FALSE is the default
        if self.specification_with_result {
            let flag: [u8; 1] = [0x01];
            assert(flag@ =~= seq![0x01u8]);
            put_tlv(0x80, &flag, &mut inner);
        }
        let mut vas: BytesMut = BytesMut::new();
        self.variable_access_spec.encode(&mut vas);
        assert(buffer::contents(vas) =~= self@.variable_access_spec.octets());
        put_tlv(0xa1, &vas, &mut inner);
        assert(buffer::contents(inner) =~= self@.content());
        put_tlv(SERVICE_TAG_READ, &inner, buf);
    }

    /// Decodes a request; `data` starts at the `0xa4` byte.
    pub fn decode(data: &[u8]) -> (r: Result<Self, MmsError>)
        ensures
            ber::agrees(r, ReadRequestView::parse(data@)),
    {
        let inner: &[u8] = take_content(data, SERVICE_TAG_READ)?;
        decode_read_request_inner(inner)
    }
}

/// Decodes the content of a request: the flag and the access specification.
fn decode_read_request_inner(data: &[u8]) -> (r: Result<ReadRequest, MmsError>)
    ensures
        match ber::fold(data@, (false, None), read_request_fields()) {
            Err(x) => r == Err::<ReadRequest, MmsError>(x),
            Ok((flag, Some(v))) => r matches Ok(x) && x@ == (ReadRequestView {
                specification_with_result: flag,
                variable_access_spec: v,
            }),
            Ok((_, None)) => r == Err::<ReadRequest, MmsError>(MmsError::TruncatedPdu),
        },
{
    let mut pos: usize = 0;
    let mut spec_with_result: bool = false;
    let mut vas: Option<VariableAccessSpecification> = None;
    let ghost steps = read_request_fields();
    assert(data@.skip(0) =~= data@);
    while pos < data.len()
        invariant
            pos <= data.len(),
            steps == read_request_fields(),
            ber::fold(data@, (false, None), steps) == ber::fold(
                data@.skip(pos as int),
                (spec_with_result, opt_spec(vas)),
                steps,
            ),
        decreases data.len() - pos,
    {
        let t: Tlv = take_element(data, pos)?;
        let ghost acc: ReadRequestFields = (spec_with_result, opt_spec(vas));
        assert(steps(acc, t.tag, t.val@) == read_request_field(acc, t.tag, t.val@));
        match t.tag {
            0x80 => {
                if t.val.len() == 0 {
                    return Err(MmsError::InvalidLength);
                }
                spec_with_result = t.val[0] != 0;
            },
            0xa1 => {
                let (v, _) = VariableAccessSpecification::decode(t.val)?;
                vas = Some(v);
            },
            _ => {},
        }
        pos = pos + t.size;
    }
    match vas {
        Some(variable_access_spec) => Ok(
            ReadRequest { specification_with_result: spec_with_result, variable_access_spec },
        ),
        None => Err(MmsError::TruncatedPdu),
    }
}

/// An MMS ReadResponse.
///
/// - `variableAccessSpecification`: `[0]` EXPLICIT and OPTIONAL, echoed only when the
///   request asked for it on the variableListName path
/// - `listOfAccessResult`: `[1]` IMPLICIT SEQUENCE OF AccessResult
#[derive(Debug, Clone, PartialEq)]
pub struct ReadResponse {
    /// The echoed access specification, when the server sent one.
    pub variable_access_spec: Option<VariableAccessSpecification>,
    /// One result per variable read.
    pub list_of_access_result: Vec<AccessResult>,
}

/// A ReadResponse with its specification and results in view.
#[verifier::ext_equal]
pub struct ReadResponseView {
    /// The echoed access specification.
    pub variable_access_spec: Option<VariableAccessView>,
    /// One result per variable read.
    pub list_of_access_result: Seq<AccessResultView>,
}

/// An access specification that may be absent.
pub open spec fn opt_spec(v: Option<VariableAccessSpecification>) -> Option<VariableAccessView> {
    match v {
        Some(x) => Some(x@),
        None => None,
    }
}

/// The views of results in a row.
pub open spec fn result_views(results: Seq<AccessResult>) -> Seq<AccessResultView> {
    results.map_values(|r: AccessResult| r@)
}

/// Results that may be absent.
pub open spec fn opt_results(v: Option<Vec<AccessResult>>) -> Option<Seq<AccessResultView>> {
    match v {
        Some(x) => Some(result_views(x@)),
        None => None,
    }
}

impl View for ReadResponse {
    type V = ReadResponseView;

    open spec fn view(&self) -> ReadResponseView {
        ReadResponseView {
            variable_access_spec: opt_spec(self.variable_access_spec),
            list_of_access_result: result_views(self.list_of_access_result@),
        }
    }
}

/// The encodings of results in a row.
pub open spec fn result_octets(results: Seq<AccessResultView>) -> Seq<u8>
    decreases results.len(),
{
    if results.len() == 0 {
        Seq::empty()
    } else {
        result_octets(results.drop_last()) + results.last().octets()
    }
}

/// The results that fill `s`, put after those of `acc`.
pub open spec fn result_list_at(s: Seq<u8>, acc: Seq<AccessResultView>) -> Result<
    Seq<AccessResultView>,
    MmsError,
>
    decreases s.len(),
{
    if s.len() == 0 {
        Ok(acc)
    } else {
        match AccessResultView::parse(s) {
            Err(e) => Err(e),
            Ok((a, n)) => {
                proof {
                    ber::lemma_element_bounds(s);
                }
                result_list_at(s.skip(n as int), acc.push(a))
            },
        }
    }
}

/// What has been read of a ReadResponse: the echoed specification and the results.
pub type ReadResponseFields = (Option<VariableAccessView>, Option<Seq<AccessResultView>>);

/// One field of a ReadResponse; a later field replaces an earlier one, and others are
/// skipped.
pub open spec fn read_response_field(acc: ReadResponseFields, tag: u8, val: Seq<u8>) -> Result<
    ReadResponseFields,
    MmsError,
> {
    if tag == 0xa0 {
        match VariableAccessView::parse(val) {
            Err(e) => Err(e),
            Ok((v, _)) => Ok((Some(v), acc.1)),
        }
    } else if tag == 0xa1 {
        match result_list_at(val, Seq::empty()) {
            Err(e) => Err(e),
            Ok(list) => Ok((acc.0, Some(list))),
        }
    } else {
        Ok(acc)
    }
}

/// `read_response_field` as a step over the elements.
pub open spec fn read_response_fields() -> spec_fn(ReadResponseFields, u8, Seq<u8>) -> Result<
    ReadResponseFields,
    MmsError,
> {
    |acc: ReadResponseFields, tag: u8, val: Seq<u8>| read_response_field(acc, tag, val)
}

impl ReadResponseView {
    /// The content of the service: the specification where there is one, then the
    /// results.
    pub open spec fn content(self) -> Seq<u8> {
        let results = ber::tlv(0xa1, result_octets(self.list_of_access_result));
        match self.variable_access_spec {
            Some(v) => ber::tlv(0xa0, v.octets()) + results,
            None => results,
        }
    }

    /// The encoding of the service.
    pub open spec fn octets(self) -> Seq<u8> {
        ber::tlv(SERVICE_TAG_READ, self.content())
    }

    /// The response at the start of `s`.
    pub open spec fn parse(s: Seq<u8>) -> Result<ReadResponseView, MmsError> {
        match ber::tagged_at(s, SERVICE_TAG_READ) {
            Err(e) => Err(e),
            Ok(e) => match ber::fold(e.val, (None, None), read_response_fields()) {
                Err(x) => Err(x),
                Ok((variable_access_spec, Some(list_of_access_result))) => Ok(
                    ReadResponseView { variable_access_spec, list_of_access_result },
                ),
                Ok((_, None)) => Err(MmsError::TruncatedPdu),
            },
        }
    }

    /// The response can be written and read back: its identifiers are within their
    /// limits and its values can be read back.
    pub open spec fn readable(self) -> bool {
        &&& self.variable_access_spec matches Some(v) ==> v.within_limit()
        &&& forall|i: int|
            0 <= i < self.list_of_access_result.len() ==> (
            #[trigger] self.list_of_access_result[i]).readable()
    }
}

impl ReadResponse {
    /// Encodes the response, including the `0xa4 <len>` service wrapper.
    pub fn encode(&self, buf: &mut BytesMut)
        requires
            buffer::contents(*old(buf)).len() + self@.octets().len() <= isize::MAX,
        ensures
            buffer::contents(*final(buf)) == buffer::contents(*old(buf)) + self@.octets(),
    {
        let mut inner: BytesMut = BytesMut::new();
        if let Some(v) = &self.variable_access_spec {
            let mut vas: BytesMut = BytesMut::new();
            v.encode(&mut vas);
            assert(buffer::contents(vas) =~= v@.octets());
            put_tlv(0xa0, &vas, &mut inner);
        }
        let results: BytesMut = encode_results(&self.list_of_access_result);
        put_tlv(0xa1, &results, &mut inner);
        assert(buffer::contents(inner) =~= self@.content());
        put_tlv(SERVICE_TAG_READ, &inner, buf);
    }

    /// Decodes a response; `data` starts at the `0xa4` byte.
    pub fn decode(data: &[u8]) -> (r: Result<Self, MmsError>)
        ensures
            ber::agrees(r, ReadResponseView::parse(data@)),
    {
        let inner: &[u8] = take_content(data, SERVICE_TAG_READ)?;
        decode_read_response_inner(inner)
    }
}

/// Encodes results in a row.
fn encode_results(results: &Vec<AccessResult>) -> (buf: BytesMut)
    requires
        result_octets(result_views(results@)).len() <= isize::MAX,
    ensures
        buffer::contents(buf) == result_octets(result_views(results@)),
{
    let mut buf: BytesMut = BytesMut::new();
    let mut i: usize = 0;
    let ghost views = result_views(results@);
    assert(views.take(0) =~= Seq::empty());
    while i < results.len()
        invariant
            i <= results.len(),
            views == result_views(results@),
            result_octets(views).len() <= isize::MAX,
            buffer::contents(buf) == result_octets(views.take(i as int)),
        decreases results.len() - i,
    {
        proof {
            assert(views.take(i + 1).drop_last() =~= views.take(i as int));
            lemma_results_prefix(views, i + 1);
        }
        results[i].encode(&mut buf);
        i = i + 1;
    }
    assert(views.take(results@.len() as int) =~= views);
    buf
}

/// Decodes the content of a response: the echoed specification and the results.
fn decode_read_response_inner(data: &[u8]) -> (r: Result<ReadResponse, MmsError>)
    ensures
        match ber::fold(data@, (None, None), read_response_fields()) {
            Err(x) => r == Err::<ReadResponse, MmsError>(x),
            Ok((v, Some(list))) => r matches Ok(x) && x@ == (ReadResponseView {
                variable_access_spec: v,
                list_of_access_result: list,
            }),
            Ok((_, None)) => r == Err::<ReadResponse, MmsError>(MmsError::TruncatedPdu),
        },
{
    let mut pos: usize = 0;
    let mut vas: Option<VariableAccessSpecification> = None;
    let mut results: Option<Vec<AccessResult>> = None;
    let ghost steps = read_response_fields();
    assert(data@.skip(0) =~= data@);
    while pos < data.len()
        invariant
            pos <= data.len(),
            steps == read_response_fields(),
            ber::fold(data@, (None, None), steps) == ber::fold(
                data@.skip(pos as int),
                (opt_spec(vas), opt_results(results)),
                steps,
            ),
        decreases data.len() - pos,
    {
        let t: Tlv = take_element(data, pos)?;
        let ghost acc: ReadResponseFields = (opt_spec(vas), opt_results(results));
        assert(steps(acc, t.tag, t.val@) == read_response_field(acc, t.tag, t.val@));
        match t.tag {
            0xa0 => {
                let (v, _) = VariableAccessSpecification::decode(t.val)?;
                vas = Some(v);
            },
            0xa1 => {
                let list: Vec<AccessResult> = decode_list_of_access_result(t.val)?;
                results = Some(list);
            },
            _ => {},
        }
        pos = pos + t.size;
    }
    match results {
        Some(list_of_access_result) => Ok(
            ReadResponse { variable_access_spec: vas, list_of_access_result },
        ),
        None => Err(MmsError::TruncatedPdu),
    }
}

/// Decodes listOfAccessResult; `data` is the content of the `0xa1` field.
pub(crate) fn decode_list_of_access_result(data: &[u8]) -> (r: Result<Vec<AccessResult>, MmsError>)
    ensures
        match result_list_at(data@, Seq::empty()) {
            Ok(v) => r matches Ok(x) && result_views(x@) == v,
            Err(e) => r == Err::<Vec<AccessResult>, MmsError>(e),
        },
{
    let mut results: Vec<AccessResult> = Vec::new();
    let mut pos: usize = 0;
    assert(data@.skip(0) =~= data@);
    assert(result_views(results@) =~= Seq::empty());
    while pos < data.len()
        invariant
            pos <= data.len(),
            result_list_at(data@, Seq::empty()) == result_list_at(
                data@.skip(pos as int),
                result_views(results@),
            ),
        decreases data.len() - pos,
    {
        let tail: &[u8] = &data[pos..data.len()];
        assert(tail@ =~= data@.skip(pos as int));
        let (a, consumed) = AccessResult::decode(tail)?;
        let ghost before = results@;
        results.push(a);
        proof {
            assert(result_views(results@) =~= result_views(before).push(a@));
            assert(data@.skip(pos as int).skip(consumed as int) =~= data@.skip(pos + consumed));
        }
        pos = pos + consumed;
    }
    Ok(results)
}

/// The first results take no more octets than all of them.
proof fn lemma_results_prefix(results: Seq<AccessResultView>, n: int)
    requires
        0 <= n <= results.len(),
    ensures
        result_octets(results.take(n)).len() <= result_octets(results).len(),
    decreases results.len(),
{
    if n < results.len() {
        lemma_results_prefix(results.drop_last(), n);
        assert(results.drop_last().take(n) =~= results.take(n));
    } else {
        assert(results.take(n) =~= results);
    }
}

/// The encodings in a row, with the first result taken apart.
proof fn lemma_results_first(results: Seq<AccessResultView>)
    requires
        results.len() > 0,
    ensures
        result_octets(results) == results[0].octets() + result_octets(results.skip(1)),
    decreases results.len(),
{
    reveal_with_fuel(result_octets, 2);
    if results.len() == 1 {
        assert(results.drop_last() =~= Seq::empty());
        assert(results.skip(1) =~= Seq::empty());
    } else {
        lemma_results_first(results.drop_last());
        assert(results.drop_last().skip(1) =~= results.skip(1).drop_last());
    }
    assert(result_octets(results) =~= results[0].octets() + result_octets(results.skip(1)));
}

/// Results in a row, each readable, are read back in a row.
pub proof fn lemma_result_list_round_trip(
    results: Seq<AccessResultView>,
    acc: Seq<AccessResultView>,
)
    requires
        forall|i: int| 0 <= i < results.len() ==> (#[trigger] results[i]).readable(),
        result_octets(results).len() <= 0xffff,
    ensures
        result_list_at(result_octets(results), acc) == Ok::<Seq<AccessResultView>, MmsError>(
            acc + results,
        ),
    decreases results.len(),
{
    if results.len() == 0 {
        assert(acc + results =~= acc);
    } else {
        let first = results[0];
        let others = results.skip(1);
        lemma_results_first(results);
        assert(first.readable());
        access::law_access_result_round_trip(first, result_octets(others));
        assert((first.octets() + result_octets(others)).skip(first.octets().len() as int)
            =~= result_octets(others));
        assert(first.octets().len() > 0);
        assert forall|i: int| 0 <= i < others.len() implies (#[trigger] others[i]).readable() by {
            assert(others[i] == results[i + 1]);
        }
        lemma_result_list_round_trip(others, acc.push(first));
        assert(acc.push(first) + others =~= acc + results);
    }
}

/// A request whose identifiers are within their limits, and whose content has at most
/// 0xffff octets, decodes to itself, whatever follows it.
pub proof fn law_read_request_round_trip(r: ReadRequestView, rest: Seq<u8>)
    requires
        r.variable_access_spec.within_limit(),
        r.content().len() <= 0xffff,
    ensures
        ReadRequestView::parse(r.octets() + rest) == Ok::<ReadRequestView, MmsError>(r),
{
    let steps = read_request_fields();
    let vas = r.variable_access_spec.octets();
    let start: ReadRequestFields = (false, None);
    let flagged: ReadRequestFields = (r.specification_with_result, None);
    ber::law_element_round_trip(SERVICE_TAG_READ, r.content(), rest);
    variable_access::law_variable_access_round_trip(r.variable_access_spec, Seq::empty());
    assert(vas + Seq::<u8>::empty() =~= vas);
    if r.specification_with_result {
        assert(steps(start, 0x80, seq![0x01u8]) == Ok::<ReadRequestFields, MmsError>(flagged));
        ber::lemma_fold_tlv(0x80, seq![0x01u8], ber::tlv(0xa1, vas), start, steps);
    }
    assert(steps(flagged, 0xa1, vas) == Ok::<ReadRequestFields, MmsError>(
        (r.specification_with_result, Some(r.variable_access_spec)),
    ));
    ber::lemma_fold_last(0xa1, vas, flagged, steps);
}

/// A readable response whose content has at most 0xffff octets decodes to itself,
/// whatever follows it.
pub proof fn law_read_response_round_trip(r: ReadResponseView, rest: Seq<u8>)
    requires
        r.readable(),
        r.content().len() <= 0xffff,
    ensures
        ReadResponseView::parse(r.octets() + rest) == Ok::<ReadResponseView, MmsError>(r),
{
    let steps = read_response_fields();
    let results = result_octets(r.list_of_access_result);
    let start: ReadResponseFields = (None, None);
    let echoed: ReadResponseFields = (r.variable_access_spec, None);
    ber::law_element_round_trip(SERVICE_TAG_READ, r.content(), rest);
    lemma_result_list_round_trip(r.list_of_access_result, Seq::empty());
    assert(Seq::<AccessResultView>::empty() + r.list_of_access_result
        =~= r.list_of_access_result);
    if let Some(v) = r.variable_access_spec {
        let vas = v.octets();
        variable_access::law_variable_access_round_trip(v, Seq::empty());
        assert(vas + Seq::<u8>::empty() =~= vas);
        assert(steps(start, 0xa0, vas) == Ok::<ReadResponseFields, MmsError>(echoed));
        ber::lemma_fold_tlv(0xa0, vas, ber::tlv(0xa1, results), start, steps);
    }
    assert(steps(echoed, 0xa1, results) == Ok::<ReadResponseFields, MmsError>(
        (r.variable_access_spec, Some(r.list_of_access_result)),
    ));
    ber::lemma_fold_last(0xa1, results, echoed, steps);
}

/// Encodes a ReadRequest as a complete ConfirmedRequestPdu, outer `0xa0` included.
///
/// Wire format:
/// ```text
/// 0xa0 <len>           -- confirmedRequestPdu [0]
///   0x02 <len> <id>    -- invokeID
///   0xa4 <len>         -- ReadRequest
/// ```
pub fn encode_confirmed_read_request(invoke_id: u32, req: &ReadRequest, buf: &mut BytesMut)
    requires
        buffer::contents(*old(buf)).len() + confirmed::confirmed_octets(
            0xa0,
            invoke_id,
            req@.octets(),
        ).len() <= isize::MAX,
    ensures
        buffer::contents(*final(buf)) == buffer::contents(*old(buf)) + confirmed::confirmed_octets(
            0xa0,
            invoke_id,
            req@.octets(),
        ),
{
    let mut service: BytesMut = BytesMut::new();
    req.encode(&mut service);
    assert(buffer::contents(service) =~= req@.octets());
    put_confirmed(0xa0, invoke_id, &service, buf);
}

/// Encodes a ReadResponse as a complete ConfirmedResponsePdu, outer `0xa1` included.
pub fn encode_confirmed_read_response(invoke_id: u32, resp: &ReadResponse, buf: &mut BytesMut)
    requires
        buffer::contents(*old(buf)).len() + confirmed::confirmed_octets(
            0xa1,
            invoke_id,
            resp@.octets(),
        ).len() <= isize::MAX,
    ensures
        buffer::contents(*final(buf)) == buffer::contents(*old(buf)) + confirmed::confirmed_octets(
            0xa1,
            invoke_id,
            resp@.octets(),
        ),
{
    let mut service: BytesMut = BytesMut::new();
    resp.encode(&mut service);
    assert(buffer::contents(service) =~= resp@.octets());
    put_confirmed(0xa1, invoke_id, &service, buf);
}

/// Decodes the ReadRequest inside a ConfirmedRequestPdu; `data` starts at `0xa0`.
pub fn decode_confirmed_read_request(data: &[u8]) -> (r: Result<(u32, ReadRequest), MmsError>)
    ensures
        confirmed::agrees_with_id(
            r,
            confirmed::service_at(data@, 0xa0, |s: Seq<u8>| ReadRequestView::parse(s)),
        ),
{
    let (invoke_id, service) = decode_confirmed_pdu_inner(data, 0xa0)?;
    let req: ReadRequest = ReadRequest::decode(service)?;
    Ok((invoke_id, req))
}

/// Decodes the ReadResponse inside a ConfirmedResponsePdu; `data` starts at `0xa1`.
pub fn decode_confirmed_read_response(data: &[u8]) -> (r: Result<(u32, ReadResponse), MmsError>)
    ensures
        confirmed::agrees_with_id(
            r,
            confirmed::service_at(data@, 0xa1, |s: Seq<u8>| ReadResponseView::parse(s)),
        ),
{
    let (invoke_id, service) = decode_confirmed_pdu_inner(data, 0xa1)?;
    let resp: ReadResponse = ReadResponse::decode(service)?;
    Ok((invoke_id, resp))
}

/// A confirmed ReadRequest gives back its invoke id and its request, whatever follows it.
pub proof fn law_confirmed_read_request(invoke_id: u32, r: ReadRequestView, rest: Seq<u8>)
    requires
        invoke_id < 0x8000_0000,
        r.variable_access_spec.within_limit(),
        confirmed::confirmed_content(invoke_id, r.octets()).len() <= 0xffff,
    ensures
        confirmed::service_at(
            confirmed::confirmed_octets(0xa0, invoke_id, r.octets()) + rest,
            0xa0,
            |s: Seq<u8>| ReadRequestView::parse(s),
        ) == Ok::<(u32, ReadRequestView), MmsError>((invoke_id, r)),
{
    law_read_request_round_trip(r, Seq::empty());
    assert(r.octets() + Seq::<u8>::empty() =~= r.octets());
    confirmed::lemma_service_round_trip(
        0xa0,
        invoke_id,
        r.octets(),
        rest,
        |s: Seq<u8>| ReadRequestView::parse(s),
        r,
    );
}

/// A confirmed ReadResponse gives back its invoke id and its response, whatever follows
/// it.
pub proof fn law_confirmed_read_response(invoke_id: u32, r: ReadResponseView, rest: Seq<u8>)
    requires
        invoke_id < 0x8000_0000,
        r.readable(),
        confirmed::confirmed_content(invoke_id, r.octets()).len() <= 0xffff,
    ensures
        confirmed::service_at(
            confirmed::confirmed_octets(0xa1, invoke_id, r.octets()) + rest,
            0xa1,
            |s: Seq<u8>| ReadResponseView::parse(s),
        ) == Ok::<(u32, ReadResponseView), MmsError>((invoke_id, r)),
{
    law_read_response_round_trip(r, Seq::empty());
    assert(r.octets() + Seq::<u8>::empty() =~= r.octets());
    confirmed::lemma_service_round_trip(
        0xa1,
        invoke_id,
        r.octets(),
        rest,
        |s: Seq<u8>| ReadResponseView::parse(s),
        r,
    );
}

} // verus!
