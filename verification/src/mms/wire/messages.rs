//! What errors say.

use vstd::prelude::*;

use crate::mms::error::{MmsError, MmsErrorView};
use crate::text;

verus! {

/// The digits of numbers: 0 to 9 and then letters, upper or lower. Two hexadecimal digits
/// spell an octet, the high one first, and decimal digits spell a number, the last digit
/// last.
pub proof fn law_digits(d: nat, upper: bool, b: u8, n: nat)
    ensures
        d < 10 ==> text::digit_char(d, upper) as int == 48 + d,
        10 <= d < 16 && upper ==> text::digit_char(d, upper) as int == 55 + d,
        10 <= d < 16 && !upper ==> text::digit_char(d, upper) as int == 87 + d,
        text::hex_text(b, upper) == seq![
            text::digit_char((b / 16) as nat, upper),
            text::digit_char((b % 16) as nat, upper),
        ],
        n < 10 ==> text::decimal_text(n) == seq![text::digit_char(n, false)],
        n >= 10 ==> text::decimal_text(n) == text::decimal_text(n / 10).push(
            text::digit_char(n % 10, false),
        ),
{
}

/// An error of a report is seen by what it says, and every other error as it is.
pub proof fn law_error_view(e: MmsError)
    ensures
        match e {
            MmsError::InformationReportDecode(t) => e@ == MmsErrorView::Report(t@),
            _ => e@ == MmsErrorView::Plain(e),
        },
{
}

/// What an error says that carries a tag: the tag as two upper-case hexadecimal digits.
pub proof fn law_tag_messages(expected: u8, tag: u8)
    ensures
        (MmsError::InvalidTag { expected, actual: tag })@.text()
            == "ber tag mismatch: expected=0x"@ + text::hex_text(expected, true) + ", actual=0x"@
            + text::hex_text(tag, true),
        MmsError::UnknownMmsPduTag(tag)@.text() == "unknown mms pdu tag 0x"@ + text::hex_text(
            tag,
            true,
        ),
        MmsError::UnknownObjectNameTag(tag)@.text() == "unknown objectname tag 0x"@
            + text::hex_text(tag, true),
        MmsError::UnknownVasTag(tag)@.text() == "unknown variableaccessspecification tag 0x"@
            + text::hex_text(tag, true),
        MmsError::UnknownDataTag(tag)@.text() == "unknown mmsdata tag 0x"@ + text::hex_text(
            tag,
            true,
        ),
        MmsError::UnknownWriteOutcomeTag(tag)@.text() == "unknown writeoutcome tag 0x"@
            + text::hex_text(tag, true),
        MmsError::UnknownTypeSpecTag(tag)@.text()
            == "unknown or unsupported typespecification tag 0x"@ + text::hex_text(tag, true),
{
}

/// What an error says that carries a length or a count: the number in decimal digits.
pub proof fn law_count_messages(n: usize, m: usize)
    ensures
        (MmsError::InvalidParameterCbbLength { actual: n })@.text()
            == "invalid parametercbb bit string length (expected 3, got "@ + text::decimal_text(
            n as nat,
        ) + ")"@,
        (MmsError::InvalidServicesSupportedLength { actual: n })@.text()
            == "invalid servicessupportedcalling bit string length (expected 12, got "@
            + text::decimal_text(n as nat) + ")"@,
        (MmsError::IdentifierTooLong { actual: n })@.text() == "objectname identifier length "@
            + text::decimal_text(n as nat) + " exceeds the limit of 64 bytes"@,
        (MmsError::InvalidUtcTimeLength { actual: n })@.text() == "invalid utctime length "@
            + text::decimal_text(n as nat) + ", expected 8"@,
        (MmsError::InvalidFloatSize { actual: n })@.text() == "invalid floatingpoint length "@
            + text::decimal_text(n as nat) + ", expected 5 or 9"@,
        (MmsError::WriteCountMismatch { expected: n, actual: m })@.text()
            == "write item count mismatch: expected="@ + text::decimal_text(n as nat)
            + ", actual="@ + text::decimal_text(m as nat),
        (MmsError::TooManyWriteItems { count: n })@.text() == "write item count "@
            + text::decimal_text(n as nat) + " exceeds the limit of 100"@,
        (MmsError::TooManyDefineEntries { count: n })@.text()
            == "definenamedvariablelist entry count "@ + text::decimal_text(n as nat)
            + " exceeds the limit of 100"@,
{
    reveal_strlit("");
    let s = "write item count mismatch: expected="@ + text::decimal_text(n as nat) + ", actual="@
        + text::decimal_text(m as nat);
    assert(s + ""@ =~= s);
}

/// What an error says that carries a level, a code or a class.
pub proof fn law_value_messages(max: u8, got: u8, code: u8, class: u32)
    ensures
        (MmsError::NestingLevelExceeded { max, got })@.text() == "datastructurenestinglevel "@
            + text::decimal_text(got as nat) + " exceeds the limit of "@ + text::decimal_text(
            max as nat,
        ),
        MmsError::UnknownDataAccessError(code)@.text() == "unknown dataaccesserror code "@
            + text::decimal_text(code as nat),
        MmsError::UnsupportedObjectClass(class)@.text() == "unsupported objectclass value "@
            + text::decimal_text(class as nat),
{
    reveal_strlit("");
    let a = "datastructurenestinglevel "@ + text::decimal_text(got as nat)
        + " exceeds the limit of "@ + text::decimal_text(max as nat);
    let b = "unknown dataaccesserror code "@ + text::decimal_text(code as nat);
    let c = "unsupported objectclass value "@ + text::decimal_text(class as nat);
    assert(a + ""@ =~= a);
    assert(b + ""@ =~= b);
    assert(c + ""@ =~= c);
}

/// What an error says that carries a text, or nothing.
pub proof fn law_text_messages(e: MmsError)
    ensures
        match e {
            MmsError::InvalidLength => e@.text() == "malformed ber length field"@,
            MmsError::TruncatedPdu => e@.text() == "mms pdu is truncated"@,
            MmsError::InvalidUtf8 => e@.text() == "invalid utf-8 in a string field"@,
            MmsError::InvalidPdu => e@.text() == "malformed mms pdu"@,
            MmsError::RejectUnrecognizedService => e@.text()
                == "mms reject: unrecognized service"@,
            MmsError::RejectRequestInvalidArgument => e@.text()
                == "mms reject: request invalid argument"@,
            MmsError::RejectUnknownPduType => e@.text() == "mms reject: unknown pdu type"@,
            MmsError::RejectInvalidPdu => e@.text() == "mms reject: invalid pdu"@,
            MmsError::RejectOther => e@.text() == "mms reject: other"@,
            MmsError::InformationReportDecode(t) => e@.text()
                == "informationreport decode failed: "@ + t@,
            MmsError::DefineNamedVariableListMissingField(t) => e@.text()
                == "definenamedvariablelist is missing a field: "@ + t@,
            MmsError::AlternateAccessUnsupported(t) => e@.text()
                == "alternateaccess form is not supported: "@ + t@,
            _ => true,
        },
{
}

} // verus!
