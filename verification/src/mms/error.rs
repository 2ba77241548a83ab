//! Errors of the MMS PDU layer.

use vstd::prelude::*;

use crate::asn1::Asn1Error;
use crate::text;

verus! {

/// Errors raised while encoding or decoding MMS PDUs.
#[allow(inconsistent_fields)]
#[derive(Debug, PartialEq, Eq)]
pub enum MmsError {
    /// A BER tag differs from the expected one.
    InvalidTag {
        /// Tag the decoder expected.
        expected: u8,
        /// Tag actually present.
        actual: u8,
    },
    /// A BER length field is malformed, or a value has a length its type does not allow.
    InvalidLength,
    /// The PDU ends before a field it declares.
    TruncatedPdu,
    /// The parameterCBB BIT STRING is not 3 bytes, padding byte included.
    InvalidParameterCbbLength {
        /// Length received; it must be 3.
        actual: usize,
    },
    /// A nesting level exceeds the ceiling in force.
    NestingLevelExceeded {
        /// Ceiling in force.
        max: u8,
        /// Depth or level that exceeded it.
        got: u8,
    },
    /// The outermost MmsPdu tag is not one of the defined alternatives.
    UnknownMmsPduTag(u8),
    /// A string field is not valid UTF-8.
    InvalidUtf8,
    /// The servicesSupported BIT STRING is not 12 bytes, 11 of data plus one of padding.
    InvalidServicesSupportedLength {
        /// Length received; it must be 12.
        actual: usize,
    },
    /// An ObjectName identifier exceeds the 64-byte maximum.
    IdentifierTooLong {
        /// Identifier length received.
        actual: usize,
    },
    /// The ObjectName tag is none of 0x80, 0xa1 or 0x82.
    UnknownObjectNameTag(u8),
    /// The VariableAccessSpecification tag is neither 0xa0 nor 0xa1.
    UnknownVasTag(u8),
    /// The Data CHOICE tag is not one of the defined alternatives.
    UnknownDataTag(u8),
    /// The DataAccessError code is above 11.
    UnknownDataAccessError(u8),
    /// A UtcTime value is not exactly 8 bytes.
    InvalidUtcTimeLength {
        /// Length received; it must be 8.
        actual: usize,
    },
    /// A FloatingPoint value is neither 5 bytes, float32, nor 9 bytes, float64.
    InvalidFloatSize {
        /// Length received; it must be 5 or 9.
        actual: usize,
    },
    /// The WriteOutcome tag is neither 0x80 nor 0x81.
    UnknownWriteOutcomeTag(u8),
    /// A WriteRequest names a different number of variables than it carries values.
    WriteCountMismatch {
        /// Number of variables named.
        expected: usize,
        /// Number of values supplied.
        actual: usize,
    },
    /// A WriteRequest carries more than the 100 items accepted.
    TooManyWriteItems {
        /// Number of items requested.
        count: usize,
    },
    /// The PDU is malformed and must be answered with an invalid-PDU reject.
    InvalidPdu,
    /// The GetNameList objectClass value is not one of 0, 2, 8 or 9.
    UnsupportedObjectClass(u32),
    /// The TypeSpecification CHOICE tag is unknown or unsupported.
    UnknownTypeSpecTag(u8),
    /// A reject of confirmedRequest with unrecognizedService, type 1 reason 1.
    RejectUnrecognizedService,
    /// A reject of confirmedRequest with invalidArgument, type 1 reason 4.
    RejectRequestInvalidArgument,
    /// A reject of pduError with unknownPduType, type 5 reason 0.
    RejectUnknownPduType,
    /// A reject of pduError with invalidPdu, type 5 reason 1.
    RejectInvalidPdu,
    /// Any reject whose type and reason are not one of the four above.
    RejectOther,
    /// An InformationReport or variableAccessSpecification failed to decode; the text
    /// says which layer.
    InformationReportDecode(String),
    /// A DefineNamedVariableList request is missing a required field.
    DefineNamedVariableListMissingField(&'static str),
    /// A DefineNamedVariableList request carries more than the 100 entries accepted.
    TooManyDefineEntries {
        /// Number of entries requested.
        count: usize,
    },
    /// The requested `AlternateAccess` form is not supported.
    AlternateAccessUnsupported(&'static str),
}

/// An error with its text in view: the InformationReport error by what it says, every
/// other one as it is.
pub enum MmsErrorView {
    /// An InformationReport error with this text.
    Report(Seq<char>),
    /// Any other error.
    Plain(MmsError),
}

impl View for MmsError {
    type V = MmsErrorView;

    open spec fn view(&self) -> MmsErrorView {
        match *self {
            MmsError::InformationReportDecode(s) => MmsErrorView::Report(s@),
            e => MmsErrorView::Plain(e),
        }
    }
}

/// The PDU error that a length error becomes.
pub open spec fn length_error(e: Asn1Error) -> MmsError {
    match e {
        Asn1Error::TruncatedInput => MmsError::TruncatedPdu,
        Asn1Error::LengthTooLong { .. } => MmsError::InvalidLength,
    }
}

impl vstd::std_specs::convert::FromSpecImpl<Asn1Error> for MmsError {
    open spec fn obeys_from_spec() -> bool {
        true
    }

    open spec fn from_spec(err: Asn1Error) -> Self {
        length_error(err)
    }
}

impl From<Asn1Error> for MmsError {
    fn from(err: Asn1Error) -> (r: Self) {
        match err {
            Asn1Error::TruncatedInput => MmsError::TruncatedPdu,
            Asn1Error::LengthTooLong { .. } => MmsError::InvalidLength,
        }
    }
}

/// What a byte error says: a fixed text around two hexadecimal digits.
pub open spec fn tag_text(head: Seq<char>, tag: u8) -> Seq<char> {
    head + text::hex_text(tag, true)
}

/// What a number error says: a number between two fixed texts.
pub open spec fn number_text(head: Seq<char>, n: nat, tail: Seq<char>) -> Seq<char> {
    head + text::decimal_text(n) + tail
}

impl MmsErrorView {
    /// The message of the error.
    pub open spec fn text(self) -> Seq<char> {
        match self {
            MmsErrorView::Report(t) => "informationreport decode failed: "@ + t,
            MmsErrorView::Plain(e) => match e {
                MmsError::InvalidTag { expected, actual } => tag_text(
                    tag_text("ber tag mismatch: expected=0x"@, expected) + ", actual=0x"@,
                    actual,
                ),
                MmsError::InvalidLength => "malformed ber length field"@,
                MmsError::TruncatedPdu => "mms pdu is truncated"@,
                MmsError::InvalidParameterCbbLength { actual } => number_text(
                    "invalid parametercbb bit string length (expected 3, got "@,
                    actual as nat,
                    ")"@,
                ),
                MmsError::NestingLevelExceeded { max, got } => number_text(
                    number_text("datastructurenestinglevel "@, got as nat, " exceeds the limit of "@),
                    max as nat,
                    ""@,
                ),
                MmsError::UnknownMmsPduTag(tag) => tag_text("unknown mms pdu tag 0x"@, tag),
                MmsError::InvalidUtf8 => "invalid utf-8 in a string field"@,
                MmsError::InvalidServicesSupportedLength { actual } => number_text(
                    "invalid servicessupportedcalling bit string length (expected 12, got "@,
                    actual as nat,
                    ")"@,
                ),
                MmsError::IdentifierTooLong { actual } => number_text(
                    "objectname identifier length "@,
                    actual as nat,
                    " exceeds the limit of 64 bytes"@,
                ),
                MmsError::UnknownObjectNameTag(tag) => tag_text("unknown objectname tag 0x"@, tag),
                MmsError::UnknownVasTag(tag) => tag_text(
                    "unknown variableaccessspecification tag 0x"@,
                    tag,
                ),
                MmsError::UnknownDataTag(tag) => tag_text("unknown mmsdata tag 0x"@, tag),
                MmsError::UnknownDataAccessError(code) => number_text(
                    "unknown dataaccesserror code "@,
                    code as nat,
                    ""@,
                ),
                MmsError::InvalidUtcTimeLength { actual } => number_text(
                    "invalid utctime length "@,
                    actual as nat,
                    ", expected 8"@,
                ),
                MmsError::InvalidFloatSize { actual } => number_text(
                    "invalid floatingpoint length "@,
                    actual as nat,
                    ", expected 5 or 9"@,
                ),
                MmsError::UnknownWriteOutcomeTag(tag) => tag_text(
                    "unknown writeoutcome tag 0x"@,
                    tag,
                ),
                MmsError::WriteCountMismatch { expected, actual } => number_text(
                    number_text(
                        "write item count mismatch: expected="@,
                        expected as nat,
                        ", actual="@,
                    ),
                    actual as nat,
                    ""@,
                ),
                MmsError::TooManyWriteItems { count } => number_text(
                    "write item count "@,
                    count as nat,
                    " exceeds the limit of 100"@,
                ),
                MmsError::InvalidPdu => "malformed mms pdu"@,
                MmsError::UnsupportedObjectClass(v) => number_text(
                    "unsupported objectclass value "@,
                    v as nat,
                    ""@,
                ),
                MmsError::UnknownTypeSpecTag(tag) => tag_text(
                    "unknown or unsupported typespecification tag 0x"@,
                    tag,
                ),
                MmsError::RejectUnrecognizedService => "mms reject: unrecognized service"@,
                MmsError::RejectRequestInvalidArgument => "mms reject: request invalid argument"@,
                MmsError::RejectUnknownPduType => "mms reject: unknown pdu type"@,
                MmsError::RejectInvalidPdu => "mms reject: invalid pdu"@,
                MmsError::RejectOther => "mms reject: other"@,
                MmsError::InformationReportDecode(s) => "informationreport decode failed: "@ + s@,
                MmsError::DefineNamedVariableListMissingField(s) =>
                "definenamedvariablelist is missing a field: "@ + s@,
                MmsError::TooManyDefineEntries { count } => number_text(
                    "definenamedvariablelist entry count "@,
                    count as nat,
                    " exceeds the limit of 100"@,
                ),
                MmsError::AlternateAccessUnsupported(s) =>
                "alternateaccess form is not supported: "@ + s@,
            },
        }
    }
}

fn tag_message(head: &str, tag: u8) -> (r: String)
    ensures
        r@ == tag_text(head@, tag),
{
    let digits: String = text::hex(tag, true);
    text::concat(head, &digits)
}

fn number_message(head: &str, n: u64, tail: &str) -> (r: String)
    ensures
        r@ == number_text(head@, n as nat, tail@),
{
    let digits: String = text::decimal(n);
    let start: String = text::concat(head, &digits);
    text::concat(&start, tail)
}

impl MmsError {
    /// Builds an [`MmsError::InformationReportDecode`] from a message.
    pub fn decode(msg: &str) -> (e: Self)
        ensures
            e@ == MmsErrorView::Report(msg@),
    {
        MmsError::InformationReportDecode(msg.to_owned())
    }

    /// Returns what the error says.
    pub fn message(&self) -> (r: String)
        ensures
            r@ == self@.text(),
    {
        match self {
            MmsError::InvalidTag { expected, actual } => {
                let start: String = tag_message("ber tag mismatch: expected=0x", *expected);
                let middle: String = text::concat(&start, ", actual=0x");
                tag_message(&middle, *actual)
            },
            MmsError::InvalidLength => "malformed ber length field".to_owned(),
            MmsError::TruncatedPdu => "mms pdu is truncated".to_owned(),
            MmsError::InvalidParameterCbbLength { actual } => number_message(
                "invalid parametercbb bit string length (expected 3, got ",
                *actual as u64,
                ")",
            ),
            MmsError::NestingLevelExceeded { max, got } => {
                let start: String = number_message(
                    "datastructurenestinglevel ",
                    *got as u64,
                    " exceeds the limit of ",
                );
                number_message(&start, *max as u64, "")
            },
            MmsError::UnknownMmsPduTag(tag) => tag_message("unknown mms pdu tag 0x", *tag),
            MmsError::InvalidUtf8 => "invalid utf-8 in a string field".to_owned(),
            MmsError::InvalidServicesSupportedLength { actual } => number_message(
                "invalid servicessupportedcalling bit string length (expected 12, got ",
                *actual as u64,
                ")",
            ),
            MmsError::IdentifierTooLong { actual } => number_message(
                "objectname identifier length ",
                *actual as u64,
                " exceeds the limit of 64 bytes",
            ),
            MmsError::UnknownObjectNameTag(tag) => tag_message("unknown objectname tag 0x", *tag),
            MmsError::UnknownVasTag(tag) => tag_message(
                "unknown variableaccessspecification tag 0x",
                *tag,
            ),
            MmsError::UnknownDataTag(tag) => tag_message("unknown mmsdata tag 0x", *tag),
            MmsError::UnknownDataAccessError(code) => number_message(
                "unknown dataaccesserror code ",
                *code as u64,
                "",
            ),
            MmsError::InvalidUtcTimeLength { actual } => number_message(
                "invalid utctime length ",
                *actual as u64,
                ", expected 8",
            ),
            MmsError::InvalidFloatSize { actual } => number_message(
                "invalid floatingpoint length ",
                *actual as u64,
                ", expected 5 or 9",
            ),
            MmsError::UnknownWriteOutcomeTag(tag) => tag_message(
                "unknown writeoutcome tag 0x",
                *tag,
            ),
            MmsError::WriteCountMismatch { expected, actual } => {
                let start: String = number_message(
                    "write item count mismatch: expected=",
                    *expected as u64,
                    ", actual=",
                );
                number_message(&start, *actual as u64, "")
            },
            MmsError::TooManyWriteItems { count } => number_message(
                "write item count ",
                *count as u64,
                " exceeds the limit of 100",
            ),
            MmsError::InvalidPdu => "malformed mms pdu".to_owned(),
            MmsError::UnsupportedObjectClass(v) => number_message(
                "unsupported objectclass value ",
                *v as u64,
                "",
            ),
            MmsError::UnknownTypeSpecTag(tag) => tag_message(
                "unknown or unsupported typespecification tag 0x",
                *tag,
            ),
            MmsError::RejectUnrecognizedService => "mms reject: unrecognized service".to_owned(),
            MmsError::RejectRequestInvalidArgument =>
            "mms reject: request invalid argument".to_owned(),
            MmsError::RejectUnknownPduType => "mms reject: unknown pdu type".to_owned(),
            MmsError::RejectInvalidPdu => "mms reject: invalid pdu".to_owned(),
            MmsError::RejectOther => "mms reject: other".to_owned(),
            MmsError::InformationReportDecode(s) => text::concat(
                "informationreport decode failed: ",
                s,
            ),
            MmsError::DefineNamedVariableListMissingField(s) => text::concat(
                "definenamedvariablelist is missing a field: ",
                s,
            ),
            MmsError::TooManyDefineEntries { count } => number_message(
                "definenamedvariablelist entry count ",
                *count as u64,
                " exceeds the limit of 100",
            ),
            MmsError::AlternateAccessUnsupported(s) => text::concat(
                "alternateaccess form is not supported: ",
                s,
            ),
        }
    }
}

} // verus!
