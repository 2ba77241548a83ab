//! MMS InformationReport, the unconfirmed PDU used for reporting and for command
//! termination.
//!
//! ## Wire format
//!
//! ```text
//! MMSpdu CHOICE { ..., unconfirmedPDU [3] IMPLICIT UnconfirmedPDU, ... }
//!   outer tag 0xa3
//!
//! UnconfirmedPDU ::= SEQUENCE {
//!   service [0] IMPLICIT UnconfirmedService
//! }
//!
//! UnconfirmedService ::= CHOICE {
//!   informationReport [0] IMPLICIT InformationReport
//! }
//!
//! InformationReport ::= SEQUENCE {
//!   variableAccessSpecification CHOICE {
//!     listOfVariable     [0] IMPLICIT SEQUENCE OF VariableAccessSpecification,
//!     variableListName   [1] IMPLICIT ObjectName,
//!   },
//!   listOfAccessResult [0] IMPLICIT SEQUENCE OF AccessResult,
//! }
//! ```
//!
//! ## Nesting on the wire
//!
//! The encoding carries three nested tags: the outer `0xa3`, one merged `0xa0`, and
//! two inner `0xa0` fields.
//!
//! ```text
//! 0xa3 <informationReportSize>          // unconfirmedPDU [3] IMPLICIT
//!   0xa0 <informationReportContentSize> // service [0] and informationReport [0] merged
//!     0xa0 <listOfVariableSize>         // listOfVariable [0] IMPLICIT
//!       <SEQUENCE element> ...
//!     0xa0 <accessResultSize>           // listOfAccessResult [0] IMPLICIT
//!       <AccessResult bytes> ...
//! ```
//!
//! The two `[0] IMPLICIT` layers merge because BER does not repeat the tag of an
//! implicitly tagged CHOICE inside an implicitly tagged field, so the encoding is
//! `0xa3 <total>` followed by `0xa0 <body>`. Adding a further `0xa0` wrapper makes
//! peers fail to parse the report, so the encoder must not add one.
//!
//! ## Positive command termination
//!
//! One variable: the domain-specific name `<LN>$CO$<DO>$Oper`, whose
//! AccessResult.Success is the whole Oper structure, encoded by the caller.
//!
//! ## Negative command termination
//!
//! Two variables, in this order:
//! 1. the VMD-specific `LastApplError`, whose AccessResult.Success is a five-element
//!    structure
//! 2. the domain-specific `<LN>$CO$<DO>$Oper`, whose AccessResult.Success is the
//!    whole Oper structure
//!
//! ## The LastApplError structure
//!
//! ```text
//! [0] ctlObj    VISIBLE_STRING  "<LD>/<LN>$CO$<DO>$Oper"
//! [1] error     INT32           ControlLastApplError
//! [2] origin    STRUCTURE       { orCat: INT, orIdent: OCTET_STRING }
//! [3] ctlNum    UNSIGNED(8)
//! [4] addCause  INT32           ControlAddCause
//! ```

use bytes::{Bytes, BytesMut};
use vstd::prelude::*;

use crate::asn1;
use crate::asn1::MAX_DATA_NESTING_DEPTH;
use crate::buffer;
use crate::mms::error::{MmsError, MmsErrorView};
use crate::mms::pdu::ber;
use crate::mms::pdu::ber::put_tlv;
use crate::mms::pdu::data;
use crate::mms::pdu::data::{decode_seq_of_mmsdata, MmsData, MmsDataView};
use crate::mms::pdu::object_name;
use crate::mms::pdu::object_name::{ObjectName, ObjectNameView};
use crate::mms::pdu::variable_access::encode_variable_specification_name;
use crate::text;

verus! {

broadcast use ber::group_element_sizes;

/// The fields of the LastApplError origin structure.
#[derive(Debug, Clone, PartialEq, Eq, Default)]
pub struct OriginRef {
    /// orCat, the category of the originator that issued the control.
    pub or_cat: i32,
    /// orIdent, the identity of that originator.
    pub or_ident: Vec<u8>,
}

/// The five elements of a LastApplError structure.
#[derive(Debug, Clone, PartialEq, Eq)]
pub struct LastApplErrorRef {
    /// `<LD>/<LN>$CO$<DO>$Oper`
    pub ctl_obj: String,
    /// `ControlLastApplError`, as its `i32` wire value.
    pub error: i32,
    /// origin, naming who issued the control.
    pub origin: OriginRef,
    /// ctlNum, the control sequence number.
    pub ctl_num: u8,
    /// `ControlAddCause`, as its `i32` wire value.
    pub add_cause: i32,
}

/// A LastApplError is the structure of its five elements.
impl View for LastApplErrorRef {
    type V = MmsDataView;

    open spec fn view(&self) -> MmsDataView {
        MmsDataView::Structure(
            seq![
                MmsDataView::VisibleString(self.ctl_obj@),
                MmsDataView::Integer(self.error as i64),
                MmsDataView::Structure(
                    seq![
                        MmsDataView::Integer(self.origin.or_cat as i64),
                        MmsDataView::OctetString(self.origin.or_ident@),
                    ],
                ),
                MmsDataView::Unsigned(self.ctl_num as u64),
                MmsDataView::Integer(self.add_cause as i64),
            ],
        )
    }
}

/// A decoded variableAccessSpecification CHOICE.
///
/// A report control block normally sends `VariableListName` with the VMD-specific
/// name `RPT`; command termination uses `ListOfVariable` with domain-specific names.
#[derive(Debug, Clone, PartialEq, Eq)]
pub enum VariableAccessSpec {
    /// `[1] variableListName`, tag `0xa1`, wrapping an ObjectName CHOICE.
    /// A report control block uses the VMD-specific name `RPT`.
    VariableListName(ObjectName),
    /// `[0] listOfVariable SEQUENCE OF`, tag `0xa0`.
    /// Command termination uses domain-specific names.
    ListOfVariable(Vec<ObjectName>),
}

/// An owned view of a decoded InformationReport.
///
/// listOfAccessResult is a flat sequence of context-tagged BER fields on the wire,
/// not a SEQUENCE OF AccessResult, so it decodes into a `Vec<MmsData>` in wire
/// order. The caller interprets that sequence, splitting out RptId, OptFlds, SqNum,
/// the inclusion bitmap and the values according to OptFlds.
#[derive(Debug, Clone, PartialEq)]
pub struct InformationReportInner {
    /// Which variables the report refers to; a report control block always uses the
    /// VMD-specific name `RPT`.
    pub variable_access_spec: VariableAccessSpec,
    /// The flat sequence inside listOfAccessResult. Each element is a context-tagged
    /// value, such as a VisibleString, BitString, Unsigned, Boolean or BinaryTime.
    pub list_of_access_result: Vec<MmsData>,
}

/// A variableAccessSpecification with its names in view.
#[verifier::ext_equal]
pub enum ReportVariablesView {
    /// A named variable list.
    VariableListName(ObjectNameView),
    /// An explicit list of variables.
    ListOfVariable(Seq<ObjectNameView>),
}

/// A report with its names and values in view.
#[verifier::ext_equal]
pub struct ReportView {
    /// Which variables the report refers to.
    pub variables: ReportVariablesView,
    /// The values.
    pub values: Seq<MmsDataView>,
}

/// The views of names in a row.
pub open spec fn name_views(names: Seq<ObjectName>) -> Seq<ObjectNameView> {
    names.map_values(|n: ObjectName| n@)
}

impl View for VariableAccessSpec {
    type V = ReportVariablesView;

    open spec fn view(&self) -> ReportVariablesView {
        match *self {
            VariableAccessSpec::VariableListName(name) => ReportVariablesView::VariableListName(
                name@,
            ),
            VariableAccessSpec::ListOfVariable(names) => ReportVariablesView::ListOfVariable(
                name_views(names@),
            ),
        }
    }
}

impl View for InformationReportInner {
    type V = ReportView;

    open spec fn view(&self) -> ReportView {
        ReportView {
            variables: self.variable_access_spec@,
            values: data::data_views(self.list_of_access_result@),
        }
    }
}

/// A report error with this text.
pub open spec fn report(msg: Seq<char>) -> MmsErrorView {
    MmsErrorView::Report(msg)
}

/// How many octets the length field that starts with `first` takes, where its form is
/// supported: the short form, or a long form of one to three octets.
pub open spec fn length_field_width(first: u8) -> Option<nat> {
    if first < 0x80 {
        Some(1)
    } else if first == 0x81 {
        Some(2)
    } else if first == 0x82 {
        Some(3)
    } else if first == 0x83 {
        Some(4)
    } else {
        None
    }
}

/// The content of the element at the start of `s`, which must have this tag, and how many
/// octets its header takes. The field is named in the error.
pub open spec fn field_at(s: Seq<u8>, tag: u8, field: Seq<char>) -> Result<
    (Seq<u8>, nat),
    MmsErrorView,
> {
    if s.len() == 0 {
        Err(report(field + ": empty input, expected tag 0x"@ + text::hex_text(tag, false)))
    } else if s[0] != tag {
        Err(
            report(
                field + ": expected tag 0x"@ + text::hex_text(tag, false) + ", got 0x"@
                    + text::hex_text(s[0], false),
            ),
        )
    } else if s.len() < 2 {
        Err(report(field + ": truncated length byte"@))
    } else {
        match length_field_width(s[1]) {
            None => Err(
                report(field + ": unsupported BER length form 0x"@ + text::hex_text(s[1], false)),
            ),
            Some(width) => if s.len() < 1 + width {
                Err(
                    report(
                        field + ": truncated long-form length (0x"@ + text::hex_text(s[1], false)
                            + ")"@,
                    ),
                )
            } else {
                let header = 1 + width;
                let len = if width == 1 {
                    s[1] as nat
                } else {
                    asn1::uint(s.subrange(2, header as int))
                };
                if s.len() < header + len {
                    Err(
                        report(
                            field + ": declared length "@ + text::decimal_text(len)
                                + " exceeds buffer (have "@ + text::decimal_text(
                                (s.len() - header) as nat,
                            ) + " after header)"@,
                        ),
                    )
                } else {
                    Ok((s.subrange(header as int, (header + len) as int), header))
                }
            },
        }
    }
}

/// The name of the variable with this content: an ObjectName under tag `0xa0`.
pub open spec fn variable_spec_at(s: Seq<u8>) -> Result<ObjectNameView, MmsErrorView> {
    match field_at(s, 0xa0, "VariableSpec.name"@) {
        Err(e) => Err(e),
        Ok((val, _)) => match ObjectNameView::parse(val) {
            Err(e) => Err(e@),
            Ok((name, _)) => Ok(name),
        },
    }
}

/// The names of the variables that fill `s`, each a SEQUENCE, put after those of `acc`.
pub open spec fn variable_list_at(s: Seq<u8>, acc: Seq<ObjectNameView>) -> Result<
    Seq<ObjectNameView>,
    MmsErrorView,
>
    decreases s.len(),
{
    if s.len() == 0 {
        Ok(acc)
    } else if s[0] != 0x30 {
        Err(
            report(
                "listOfVariable element: expected 0x30 SEQUENCE, got 0x"@ + text::hex_text(
                    s[0],
                    false,
                ),
            ),
        )
    } else {
        match field_at(s, 0x30, "VariableSpec"@) {
            Err(e) => Err(e),
            Ok((val, header)) => match variable_spec_at(val) {
                Err(e) => Err(e),
                Ok(name) => variable_list_at(s.skip((header + val.len()) as int), acc.push(name)),
            },
        }
    }
}

/// The variableAccessSpecification at the start of `s`, and how many octets it takes.
pub open spec fn variables_at(s: Seq<u8>) -> Result<(ReportVariablesView, nat), MmsErrorView> {
    if s.len() == 0 {
        Err(report("variableAccessSpec: empty input"@))
    } else if s[0] == 0xa1 {
        match field_at(s, 0xa1, "variableListName"@) {
            Err(e) => Err(e),
            Ok((val, header)) => match ObjectNameView::parse(val) {
                Err(e) => Err(e@),
                Ok((name, _)) => Ok(
                    (ReportVariablesView::VariableListName(name), header + val.len()),
                ),
            },
        }
    } else if s[0] == 0xa0 {
        match field_at(s, 0xa0, "listOfVariable"@) {
            Err(e) => Err(e),
            Ok((val, header)) => match variable_list_at(val, Seq::empty()) {
                Err(e) => Err(e),
                Ok(names) => Ok((ReportVariablesView::ListOfVariable(names), header + val.len())),
            },
        }
    } else {
        Err(
            report(
                "variableAccessSpec: unexpected tag 0x"@ + text::hex_text(s[0], false)
                    + ", expected 0xa0 or 0xa1"@,
            ),
        )
    }
}

/// The report that the content of an unconfirmed PDU carries.
pub open spec fn report_at(s: Seq<u8>) -> Result<ReportView, MmsErrorView> {
    match field_at(s, 0xa0, "combined service+informationReport"@) {
        Err(e) => Err(e),
        Ok((body, _)) => match variables_at(body) {
            Err(e) => Err(e),
            Ok((variables, n)) => match field_at(
                body.skip(n as int),
                0xa0,
                "listOfAccessResult"@,
            ) {
                Err(e) => Err(e),
                Ok((list, _)) => match data::data_list_at(
                    list,
                    0,
                    MAX_DATA_NESTING_DEPTH,
                    Seq::empty(),
                ) {
                    Err(e) => Err(e@),
                    Ok(values) => Ok(ReportView { variables, values }),
                },
            },
        },
    }
}

/// The result agrees with what was to be read: an error with this view, or a value with
/// this view.
pub open spec fn agrees_report<T: View>(
    r: Result<T, MmsError>,
    want: Result<T::V, MmsErrorView>,
) -> bool {
    match want {
        Ok(v) => r matches Ok(x) && x@ == v,
        Err(e) => r matches Err(x) && x@ == e,
    }
}

/// Decodes the content of an unconfirmed PDU, with the outer `0xa3 <len>` already
/// stripped, into an `InformationReportInner`.
///
/// The expected wire shape, following the nesting described above, is:
///
/// ```text
/// 0xa0 <combined_len>                service [0] merged with informationReport [0]
///   <variableAccessSpec>             0xa1 <len> ... or 0xa0 <listOfVariable>
///   0xa0 <listOfAccessResultLen>     listOfAccessResult inner
///     <flat MmsData seq>             RptId / OptFlds / ... values ...
/// ```
///
/// The OptFlds, inclusion bitmap and value layout are not interpreted here: the
/// caller receives the `Vec<MmsData>` and aligns it itself, with RptId at index 0,
/// OptFlds at index 1, and so on.
pub fn decode_information_report(unconfirmed_inner: &[u8]) -> (r: Result<
    InformationReportInner,
    MmsError,
>)
    ensures
        agrees_report(r, report_at(unconfirmed_inner@)),
{
    // strip the merged outer 0xa0
    let (body, _) = match take_tag_and_length(
        unconfirmed_inner,
        0xa0,
        "combined service+informationReport",
    ) {
        Ok(x) => x,
        Err(e) => return Err(e),
    };
    // variableAccessSpec: tag 0xa0 for listOfVariable, 0xa1 for variableListName
    let (variable_access_spec, consumed) = match decode_variable_access_spec(body) {
        Ok(x) => x,
        Err(e) => return Err(e),
    };
    // listOfAccessResult, tag 0xa0
    let tail: &[u8] = &body[consumed..body.len()];
    assert(tail@ =~= body@.skip(consumed as int));
    let (list, _) = match take_tag_and_length(tail, 0xa0, "listOfAccessResult") {
        Ok(x) => x,
        Err(e) => return Err(e),
    };
    // the flat sequence of values
    let list_of_access_result: Vec<MmsData> = match decode_seq_of_mmsdata(
        list,
        0,
        MAX_DATA_NESTING_DEPTH,
    ) {
        Ok(x) => x,
        Err(e) => return Err(e),
    };
    Ok(InformationReportInner { variable_access_spec, list_of_access_result })
}

/// Decodes a variableAccessSpecification CHOICE. Returns it with the number of bytes it
/// takes.
///
/// The alternatives are:
/// - `[0] listOfVariable SEQUENCE OF VariableSpec`, tag `0xa0`
/// - `[1] variableListName ObjectName`, tag `0xa1`
fn decode_variable_access_spec(data: &[u8]) -> (r: Result<(VariableAccessSpec, usize), MmsError>)
    ensures
        match variables_at(data@) {
            Ok((v, n)) => r matches Ok((x, m)) && x@ == v && m == n && m <= data.len(),
            Err(e) => r matches Err(x) && x@ == e,
        },
{
    if data.len() == 0 {
        return Err(MmsError::decode("variableAccessSpec: empty input"));
    }
    match data[0] {
        // [1] variableListName, whose content is an ObjectName CHOICE
        0xa1 => {
            let (inner, header) = match take_tag_and_length(data, 0xa1, "variableListName") {
                Ok(x) => x,
                Err(e) => return Err(e),
            };
            match ObjectName::decode(inner) {
                Err(e) => Err(e),
                Ok((name, _)) => Ok(
                    (VariableAccessSpec::VariableListName(name), header + inner.len()),
                ),
            }
        },
        0xa0 => {
            let (inner, header) = match take_tag_and_length(data, 0xa0, "listOfVariable") {
                Ok(x) => x,
                Err(e) => return Err(e),
            };
            match decode_variable_list(inner) {
                Err(e) => Err(e),
                Ok(names) => Ok(
                    (VariableAccessSpec::ListOfVariable(names), header + inner.len()),
                ),
            }
        },
        other => {
            let head: String = text::concat(
                "variableAccessSpec: unexpected tag 0x",
                &text::hex(other, false),
            );
            Err(MmsError::decode(&text::concat(&head, ", expected 0xa0 or 0xa1")))
        },
    }
}

/// Decodes the names of a listOfVariable, where each element is
/// SEQUENCE { name [0] IMPLICIT ObjectName }, encoded as
/// 0x30 <len> 0xa0 <name_len> <ObjectName body>.
fn decode_variable_list(inner: &[u8]) -> (r: Result<Vec<ObjectName>, MmsError>)
    ensures
        match variable_list_at(inner@, Seq::empty()) {
            Ok(v) => r matches Ok(x) && name_views(x@) == v,
            Err(e) => r matches Err(x) && x@ == e,
        },
{
    let mut names: Vec<ObjectName> = Vec::new();
    let mut pos: usize = 0;
    assert(inner@.skip(0) =~= inner@);
    assert(name_views(names@) =~= Seq::empty());
    while pos < inner.len()
        invariant
            pos <= inner.len(),
            variable_list_at(inner@, Seq::empty()) == variable_list_at(
                inner@.skip(pos as int),
                name_views(names@),
            ),
        decreases inner.len() - pos,
    {
        let tail: &[u8] = &inner[pos..inner.len()];
        assert(tail@ =~= inner@.skip(pos as int));
        if tail[0] != 0x30 {
            return Err(
                MmsError::decode(
                    &text::concat(
                        "listOfVariable element: expected 0x30 SEQUENCE, got 0x",
                        &text::hex(tail[0], false),
                    ),
                ),
            );
        }
        let (elem, header) = match take_tag_and_length(tail, 0x30, "VariableSpec") {
            Ok(x) => x,
            Err(e) => return Err(e),
        };
        let name: ObjectName = match decode_variable_spec(elem) {
            Ok(x) => x,
            Err(e) => return Err(e),
        };
        let ghost before = names@;
        names.push(name);
        proof {
            assert(name_views(names@) =~= name_views(before).push(name@));
            assert(tail@.skip(header + elem.len()) =~= inner@.skip(pos + header + elem.len()));
        }
        pos = pos + header + elem.len();
    }
    Ok(names)
}

/// Decodes the name of a VariableSpec, 0xa0 <name_len> <ObjectName body>.
fn decode_variable_spec(elem: &[u8]) -> (r: Result<ObjectName, MmsError>)
    ensures
        agrees_report(r, variable_spec_at(elem@)),
{
    let (inner, _) = match take_tag_and_length(elem, 0xa0, "VariableSpec.name") {
        Ok(x) => x,
        Err(e) => return Err(e),
    };
    match ObjectName::decode(inner) {
        Err(e) => Err(e),
        Ok((name, _)) => Ok(name),
    }
}

/// Strips one `tag` and BER length, returning the content and the header length.
///
/// The short form, used when the length is below 128, gives a 2-byte header; long
/// forms of one, two or three length bytes are also accepted.
fn take_tag_and_length<'a>(data: &'a [u8], expected_tag: u8, field: &str) -> (r: Result<
    (&'a [u8], usize),
    MmsError,
>)
    ensures
        match field_at(data@, expected_tag, field@) {
            Ok((v, n)) => r matches Ok((x, m)) && x@ == v && m == n && 2 <= m && m + x.len()
                <= data.len(),
            Err(e) => r matches Err(x) && x@ == e,
        },
{
    if data.len() == 0 {
        let head: String = text::concat(field, ": empty input, expected tag 0x");
        return Err(MmsError::decode(&text::concat(&head, &text::hex(expected_tag, false))));
    }
    if data[0] != expected_tag {
        let head: String = text::concat(field, ": expected tag 0x");
        let want: String = text::concat(&head, &text::hex(expected_tag, false));
        let got: String = text::concat(&want, ", got 0x");
        return Err(MmsError::decode(&text::concat(&got, &text::hex(data[0], false))));
    }
    if data.len() < 2 {
        return Err(MmsError::decode(&text::concat(field, ": truncated length byte")));
    }
    let first: u8 = data[1];
    let width: usize = match first {
        0x81 => 2,
        0x82 => 3,
        0x83 => 4,
        b => {
            if b >= 0x80 {
                let head: String = text::concat(field, ": unsupported BER length form 0x");
                return Err(MmsError::decode(&text::concat(&head, &text::hex(b, false))));
            }
            1
        },
    };
    if data.len() < 1 + width {
        let head: String = text::concat(field, ": truncated long-form length (0x");
        let form: String = text::concat(&head, &text::hex(first, false));
        return Err(MmsError::decode(&text::concat(&form, ")")));
    }
    let header: usize = 1 + width;
    let len: usize = long_length(data, first, width);
    if data.len() - header < len {
        let head: String = text::concat(field, ": declared length ");
        let declared: String = text::concat(&head, &text::decimal(len as u64));
        let mid: String = text::concat(&declared, " exceeds buffer (have ");
        let have: String = text::concat(&mid, &text::decimal((data.len() - header) as u64));
        return Err(MmsError::decode(&text::concat(&have, " after header)")));
    }
    let inner: &'a [u8] = &data[header..header + len];
    assert(inner@ =~= data@.subrange(header as int, header + len));
    Ok((inner, header))
}

/// Reads the length of a field whose length starts at the second byte.
fn long_length(data: &[u8], first: u8, width: usize) -> (len: usize)
    requires
        data.len() >= 2,
        data.len() >= 1 + width,
        first == data@[1],
        length_field_width(first) == Some(width as nat),
    ensures
        len == (if width == 1 {
            first as nat
        } else {
            asn1::uint(data@.subrange(2, 1 + width))
        }),
        len <= 0xff_ffff,
{
    let ghost s = data@.subrange(2, 1 + width);
    proof {
        reveal_with_fuel(asn1::uint, 4);
        if width > 1 {
            assert(s.drop_last() =~= data@.subrange(2, width as int));
        }
        if width == 2 {
            assert(s.drop_last() =~= Seq::empty());
        }
        if width == 3 {
            assert(s.drop_last().drop_last() =~= Seq::empty());
        }
        if width == 4 {
            assert(s.drop_last().drop_last() =~= data@.subrange(2, 3));
            assert(data@.subrange(2, 3).drop_last() =~= Seq::empty());
        }
    }
    match width {
        2 => data[2] as usize,
        3 => data[2] as usize * 256 + data[3] as usize,
        4 => (data[2] as usize * 256 + data[3] as usize) * 256 + data[4] as usize,
        _ => first as usize,
    }
}

/// The variables of a report: the name and the encoded value of each.
pub open spec fn variable_views(vars: Seq<(ObjectName, Bytes)>) -> Seq<(ObjectNameView, Seq<u8>)> {
    vars.map_values(|v: (ObjectName, Bytes)| (v.0@, buffer::frozen(v.1)))
}

/// The encoding of a variable in the list: its name in a SEQUENCE.
pub open spec fn variable_octets(name: ObjectNameView) -> Seq<u8> {
    ber::tlv(0x30, ber::tlv(0xa0, name.octets()))
}

/// The encodings of the variables in a row.
pub open spec fn names_octets(vars: Seq<(ObjectNameView, Seq<u8>)>) -> Seq<u8>
    decreases vars.len(),
{
    if vars.len() == 0 {
        Seq::empty()
    } else {
        names_octets(vars.drop_last()) + variable_octets(vars.last().0)
    }
}

/// The encoded values in a row.
pub open spec fn values_octets(vars: Seq<(ObjectNameView, Seq<u8>)>) -> Seq<u8>
    decreases vars.len(),
{
    if vars.len() == 0 {
        Seq::empty()
    } else {
        values_octets(vars.drop_last()) + vars.last().1
    }
}

/// The content of the unconfirmed PDU: one merged `0xa0` around the two lists.
pub open spec fn unconfirmed_content(vars: Seq<(ObjectNameView, Seq<u8>)>) -> Seq<u8> {
    ber::tlv(0xa0, ber::tlv(0xa0, names_octets(vars)) + ber::tlv(0xa0, values_octets(vars)))
}

/// The complete PDU that reports these variables.
pub open spec fn report_octets(vars: Seq<(ObjectNameView, Seq<u8>)>) -> Seq<u8> {
    ber::tlv(0xa3, unconfirmed_content(vars))
}

/// Encodes an InformationReport carrying the given variables.
///
/// Each entry of `variables` pairs an `ObjectName` with the wire bytes of its
/// AccessResult.Success value, which the caller has already encoded including tag
/// and length; the encoder places them into listOfAccessResult unchanged.
///
/// Returns the complete PDU, outer `0xa3` tag included.
pub fn encode_information_report(variables: &[(ObjectName, Bytes)]) -> (r: Bytes)
    requires
        report_octets(variable_views(variables@)).len() <= isize::MAX,
    ensures
        buffer::frozen(r) == report_octets(variable_views(variables@)),
{
    let ghost views = variable_views(variables@);
    let mut names: BytesMut = BytesMut::new();
    let mut values: BytesMut = BytesMut::new();
    let mut i: usize = 0;
    assert(views.take(0) =~= Seq::empty());
    while i < variables.len()
        invariant
            i <= variables.len(),
            views == variable_views(variables@),
            names_octets(views).len() <= isize::MAX,
            values_octets(views).len() <= isize::MAX,
            buffer::contents(names) == names_octets(views.take(i as int)),
            buffer::contents(values) == values_octets(views.take(i as int)),
        decreases variables.len() - i,
    {
        proof {
            assert(views.take(i + 1).drop_last() =~= views.take(i as int));
            lemma_variables_prefix(views, i + 1);
        }
        let mut elem: BytesMut = BytesMut::new();
        encode_variable_specification_name(&variables[i].0, &mut elem);
        assert(buffer::contents(elem) =~= ber::tlv(0xa0, variables@[i as int].0@.octets()));
        put_tlv(0x30, &elem, &mut names);
        values.extend_from_slice(&variables[i].1);
        i = i + 1;
    }
    assert(views.take(variables@.len() as int) =~= views);
    // the two 0xa0 fields sit side by side, with no further wrapper around them
    let mut body: BytesMut = BytesMut::new();
    put_tlv(0xa0, &names, &mut body);
    put_tlv(0xa0, &values, &mut body);
    assert(buffer::contents(body) =~= ber::tlv(0xa0, names_octets(views)) + ber::tlv(
        0xa0,
        values_octets(views),
    ));
    // service [0] and informationReport [0] merge into a single 0xa0
    let mut combined: BytesMut = BytesMut::new();
    put_tlv(0xa0, &body, &mut combined);
    assert(buffer::contents(combined) =~= unconfirmed_content(views));
    // the outer MmsPdu CHOICE: unconfirmedPDU [3] IMPLICIT, tag 0xa3
    let mut buf: BytesMut = BytesMut::new();
    put_tlv(0xa3, &combined, &mut buf);
    assert(buffer::contents(buf) =~= report_octets(views));
    buf.freeze()
}

/// The first variables take no more octets than all of them.
proof fn lemma_variables_prefix(vars: Seq<(ObjectNameView, Seq<u8>)>, n: int)
    requires
        0 <= n <= vars.len(),
    ensures
        names_octets(vars.take(n)).len() <= names_octets(vars).len(),
        values_octets(vars.take(n)).len() <= values_octets(vars).len(),
    decreases vars.len(),
{
    if n < vars.len() {
        lemma_variables_prefix(vars.drop_last(), n);
        assert(vars.drop_last().take(n) =~= vars.take(n));
    } else {
        assert(vars.take(n) =~= vars);
    }
}

/// Encodes a positive command termination: one variable, `<LN>$CO$<DO>$Oper` with
/// the Oper structure as its value.
///
/// `domain_id` and `item_id` form the domain-specific ObjectName; `item_id` is
/// normally `<LN>$CO$<DO>$Oper`. `oper_value_bytes` is the wire form of the Oper
/// structure, tag 0xa2 with its length and content included.
pub fn encode_command_termination_positive(
    domain_id: &str,
    item_id: &str,
    oper_value_bytes: Bytes,
) -> (r: Bytes)
    requires
        report_octets(
            seq![oper_variable(domain_id@, item_id@, buffer::frozen(oper_value_bytes))],
        ).len() <= isize::MAX,
    ensures
        buffer::frozen(r) == report_octets(
            seq![oper_variable(domain_id@, item_id@, buffer::frozen(oper_value_bytes))],
        ),
{
    let name: ObjectName = ObjectName::DomainSpecific {
        domain_id: domain_id.to_owned(),
        item_id: item_id.to_owned(),
    };
    let variables: [(ObjectName, Bytes); 1] = [(name, oper_value_bytes)];
    assert(variable_views(variables@) =~= seq![
        oper_variable(domain_id@, item_id@, buffer::frozen(oper_value_bytes)),
    ]);
    encode_information_report(&variables)
}

/// The Oper variable of a command termination.
pub open spec fn oper_variable(domain_id: Seq<char>, item_id: Seq<char>, value: Seq<u8>) -> (
    ObjectNameView,
    Seq<u8>,
) {
    (ObjectNameView::DomainSpecific { domain_id, item_id }, value)
}

/// The LastApplError variable of a command termination.
pub open spec fn last_appl_error_variable(e: MmsDataView) -> (ObjectNameView, Seq<u8>) {
    (ObjectNameView::VmdSpecific("LastApplError"@), e.octets())
}

/// Encodes a negative command termination: LastApplError followed by Oper.
pub fn encode_command_termination_negative(
    last_appl_error: &LastApplErrorRef,
    domain_id: &str,
    item_id: &str,
    oper_value_bytes: Bytes,
) -> (r: Bytes)
    requires
        report_octets(
            seq![
                last_appl_error_variable(last_appl_error@),
                oper_variable(domain_id@, item_id@, buffer::frozen(oper_value_bytes)),
            ],
        ).len() <= isize::MAX,
    ensures
        buffer::frozen(r) == report_octets(
            seq![
                last_appl_error_variable(last_appl_error@),
                oper_variable(domain_id@, item_id@, buffer::frozen(oper_value_bytes)),
            ],
        ),
{
    proof {
        let vars = seq![
            last_appl_error_variable(last_appl_error@),
            oper_variable(domain_id@, item_id@, buffer::frozen(oper_value_bytes)),
        ];
        assert(vars.take(1).last() == last_appl_error_variable(last_appl_error@));
        lemma_variables_prefix(vars, 1);
    }
    let error_bytes: Bytes = encode_last_appl_error_struct(last_appl_error);
    let error_name: ObjectName = ObjectName::VmdSpecific("LastApplError".to_owned());
    let oper_name: ObjectName = ObjectName::DomainSpecific {
        domain_id: domain_id.to_owned(),
        item_id: item_id.to_owned(),
    };
    let variables: [(ObjectName, Bytes); 2] = [
        (error_name, error_bytes),
        (oper_name, oper_value_bytes),
    ];
    assert(variable_views(variables@) =~= seq![
        last_appl_error_variable(last_appl_error@),
        oper_variable(domain_id@, item_id@, buffer::frozen(oper_value_bytes)),
    ]);
    encode_information_report(&variables)
}

/// Encodes a `LastApplErrorRef` as the wire bytes of a five-element structure.
///
/// The result is used directly as an AccessResult.Success value, wrapped in the
/// structure tag 0xa2.
pub fn encode_last_appl_error_struct(e: &LastApplErrorRef) -> (r: Bytes)
    requires
        e@.octets().len() <= isize::MAX,
    ensures
        buffer::frozen(r) == e@.octets(),
{
    let mut origin: Vec<MmsData> = Vec::new();
    origin.push(MmsData::Integer(e.origin.or_cat as i64));
    origin.push(MmsData::OctetString(vstd::slice::slice_to_vec(&e.origin.or_ident)));
    let ghost inner = seq![
        MmsDataView::Integer(e.origin.or_cat as i64),
        MmsDataView::OctetString(e.origin.or_ident@),
    ];
    assert(data::data_views(origin@) =~= inner);
    let mut elements: Vec<MmsData> = Vec::new();
    elements.push(MmsData::VisibleString(e.ctl_obj.clone()));
    elements.push(MmsData::Integer(e.error as i64));
    elements.push(MmsData::Structure(origin));
    elements.push(MmsData::Unsigned(e.ctl_num as u64));
    elements.push(MmsData::Integer(e.add_cause as i64));
    assert(data::data_views(elements@) =~= seq![
        MmsDataView::VisibleString(e.ctl_obj@),
        MmsDataView::Integer(e.error as i64),
        MmsDataView::Structure(inner),
        MmsDataView::Unsigned(e.ctl_num as u64),
        MmsDataView::Integer(e.add_cause as i64),
    ]);
    let whole: MmsData = MmsData::Structure(elements);
    assert(whole@ == e@);
    let mut buf: BytesMut = BytesMut::new();
    whole.encode(&mut buf);
    assert(buffer::contents(buf) =~= e@.octets());
    buf.freeze()
}

/// An element that was written is read back, whatever follows it.
pub proof fn lemma_field(tag: u8, val: Seq<u8>, rest: Seq<u8>, field: Seq<char>)
    requires
        val.len() <= 0xffff,
    ensures
        field_at(ber::tlv(tag, val) + rest, tag, field) == Ok::<(Seq<u8>, nat), MmsErrorView>(
            (val, 1 + asn1::length_width(val.len())),
        ),
{
    let n = val.len();
    let s = ber::tlv(tag, val) + rest;
    let header = 1 + asn1::length_width(n);
    asn1::law_length_round_trip(n, val + rest);
    assert(s.skip(1) =~= asn1::length_octets(n) + (val + rest));
    if n >= 128 {
        assert(s.subrange(2, header as int) =~= s.skip(1).subrange(1, header - 1));
    }
    assert(s.subrange(header as int, (header + n) as int) =~= val);
}

/// `lemma_field` for an element with nothing after it.
pub proof fn lemma_field_alone(tag: u8, val: Seq<u8>, field: Seq<char>)
    requires
        val.len() <= 0xffff,
    ensures
        field_at(ber::tlv(tag, val), tag, field) == Ok::<(Seq<u8>, nat), MmsErrorView>(
            (val, 1 + asn1::length_width(val.len())),
        ),
{
    lemma_field(tag, val, Seq::empty(), field);
    assert(ber::tlv(tag, val) + Seq::<u8>::empty() =~= ber::tlv(tag, val));
}

/// The variables of a report that carries these values under these names.
pub open spec fn report_variables(names: Seq<ObjectNameView>, values: Seq<MmsDataView>) -> Seq<
    (ObjectNameView, Seq<u8>),
> {
    Seq::new(names.len(), |i: int| (names[i], values[i].octets()))
}

/// The encoded values of a report are the encodings of its values in a row.
proof fn lemma_values_octets(names: Seq<ObjectNameView>, values: Seq<MmsDataView>)
    requires
        names.len() == values.len(),
    ensures
        values_octets(report_variables(names, values)) == data::all_octets(values),
    decreases values.len(),
{
    if values.len() > 0 {
        lemma_values_octets(names.drop_last(), values.drop_last());
        assert(report_variables(names, values).drop_last() =~= report_variables(
            names.drop_last(),
            values.drop_last(),
        ));
    }
}

/// The encodings of variables in a row, with the first taken apart.
proof fn lemma_names_first(vars: Seq<(ObjectNameView, Seq<u8>)>)
    requires
        vars.len() > 0,
    ensures
        names_octets(vars) == variable_octets(vars[0].0) + names_octets(vars.skip(1)),
    decreases vars.len(),
{
    reveal_with_fuel(names_octets, 2);
    if vars.len() == 1 {
        assert(vars.drop_last() =~= Seq::empty());
        assert(vars.skip(1) =~= Seq::empty());
    } else {
        lemma_names_first(vars.drop_last());
        assert(vars.drop_last().skip(1) =~= vars.skip(1).drop_last());
    }
    assert(names_octets(vars) =~= variable_octets(vars[0].0) + names_octets(vars.skip(1)));
}

/// Variables in a row are read back as their names in a row.
#[verifier::spinoff_prover]
#[verifier::rlimit(40)]
proof fn lemma_variable_list_round_trip(
    vars: Seq<(ObjectNameView, Seq<u8>)>,
    acc: Seq<ObjectNameView>,
)
    requires
        forall|i: int| 0 <= i < vars.len() ==> (#[trigger] vars[i]).0.within_limit(),
    ensures
        variable_list_at(names_octets(vars), acc) == Ok::<Seq<ObjectNameView>, MmsErrorView>(
            acc + vars.map_values(|v: (ObjectNameView, Seq<u8>)| v.0),
        ),
    decreases vars.len(),
{
    let only = |v: (ObjectNameView, Seq<u8>)| v.0;
    if vars.len() == 0 {
        assert(acc + vars.map_values(only) =~= acc);
    } else {
        let first = vars[0].0;
        let others = vars.skip(1);
        let name = first.octets();
        let elem = ber::tlv(0xa0, name);
        let rest = names_octets(others);
        lemma_names_first(vars);
        assert(vars[0].0.within_limit());
        object_name::law_object_name_round_trip(first, Seq::empty());
        assert(name + Seq::<u8>::empty() =~= name);
        lemma_field_alone(0xa0, name, "VariableSpec.name"@);
        lemma_field(0x30, elem, rest, "VariableSpec"@);
        ber::law_element_round_trip(0x30, elem, rest);
        assert forall|i: int| 0 <= i < others.len() implies (
        #[trigger] others[i]).0.within_limit() by {
            assert(others[i] == vars[i + 1]);
        }
        lemma_variable_list_round_trip(others, acc.push(first));
        assert(acc.push(first) + others.map_values(only) =~= acc + vars.map_values(only));
    }
}

/// A report of readable values under names within their limits, whose content has at most
/// 0xffff octets, decodes to those names and values.
pub proof fn law_report_round_trip(names: Seq<ObjectNameView>, values: Seq<MmsDataView>)
    requires
        names.len() == values.len(),
        forall|i: int| 0 <= i < names.len() ==> (#[trigger] names[i]).within_limit(),
        forall|i: int|
            0 <= i < values.len() ==> (#[trigger] values[i]).readable(
                MAX_DATA_NESTING_DEPTH as int,
            ),
        unconfirmed_content(report_variables(names, values)).len() <= 0xffff,
    ensures
        report_at(unconfirmed_content(report_variables(names, values))) == Ok::<
            ReportView,
            MmsErrorView,
        >(ReportView { variables: ReportVariablesView::ListOfVariable(names), values }),
{
    let vars = report_variables(names, values);
    let first = ber::tlv(0xa0, names_octets(vars));
    let second = ber::tlv(0xa0, values_octets(vars));
    let body = first + second;
    lemma_values_octets(names, values);
    data::lemma_list_round_trip(values, 0, MAX_DATA_NESTING_DEPTH, Seq::empty());
    assert(Seq::<MmsDataView>::empty() + values =~= values);
    assert forall|i: int| 0 <= i < vars.len() implies (#[trigger] vars[i]).0.within_limit() by {
        assert(names[i].within_limit());
    }
    lemma_variable_list_round_trip(vars, Seq::empty());
    assert(Seq::<ObjectNameView>::empty() + vars.map_values(
        |v: (ObjectNameView, Seq<u8>)| v.0,
    ) =~= names);
    lemma_field_alone(0xa0, body, "combined service+informationReport"@);
    lemma_field(0xa0, names_octets(vars), second, "listOfVariable"@);
    assert(body[0] == 0xa0);
    assert(body.skip(first.len() as int) =~= second);
    lemma_field_alone(0xa0, values_octets(vars), "listOfAccessResult"@);
}

} // verus!
