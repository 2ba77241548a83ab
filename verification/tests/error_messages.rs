use iec61850_mms::asn1::Asn1Error;
use iec61850_mms::mms::error::MmsError;

#[test]
fn messages_with_tags_are_upper_case_hexadecimal() {
    let cases = [
        (
            MmsError::InvalidTag { expected: 0xa8, actual: 0x0f },
            "ber tag mismatch: expected=0xA8, actual=0x0F",
        ),
        (MmsError::UnknownMmsPduTag(0xab), "unknown mms pdu tag 0xAB"),
        (MmsError::UnknownObjectNameTag(0x83), "unknown objectname tag 0x83"),
        (MmsError::UnknownVasTag(0xa2), "unknown variableaccessspecification tag 0xA2"),
        (MmsError::UnknownDataTag(0x8f), "unknown mmsdata tag 0x8F"),
        (MmsError::UnknownWriteOutcomeTag(0x82), "unknown writeoutcome tag 0x82"),
        (
            MmsError::UnknownTypeSpecTag(0x8d),
            "unknown or unsupported typespecification tag 0x8D",
        ),
    ];
    for (error, text) in cases {
        assert_eq!(error.message(), text);
    }
}

#[test]
fn messages_with_numbers_are_decimal() {
    let cases = [
        (
            MmsError::InvalidParameterCbbLength { actual: 4 },
            "invalid parametercbb bit string length (expected 3, got 4)",
        ),
        (
            MmsError::NestingLevelExceeded { max: 32, got: 33 },
            "datastructurenestinglevel 33 exceeds the limit of 32",
        ),
        (
            MmsError::InvalidServicesSupportedLength { actual: 11 },
            "invalid servicessupportedcalling bit string length (expected 12, got 11)",
        ),
        (
            MmsError::IdentifierTooLong { actual: 1065 },
            "objectname identifier length 1065 exceeds the limit of 64 bytes",
        ),
        (MmsError::UnknownDataAccessError(12), "unknown dataaccesserror code 12"),
        (MmsError::InvalidUtcTimeLength { actual: 7 }, "invalid utctime length 7, expected 8"),
        (
            MmsError::InvalidFloatSize { actual: 0 },
            "invalid floatingpoint length 0, expected 5 or 9",
        ),
        (
            MmsError::WriteCountMismatch { expected: 2, actual: 10 },
            "write item count mismatch: expected=2, actual=10",
        ),
        (
            MmsError::TooManyWriteItems { count: 101 },
            "write item count 101 exceeds the limit of 100",
        ),
        (
            MmsError::UnsupportedObjectClass(4294967295),
            "unsupported objectclass value 4294967295",
        ),
        (
            MmsError::TooManyDefineEntries { count: 200 },
            "definenamedvariablelist entry count 200 exceeds the limit of 100",
        ),
    ];
    for (error, text) in cases {
        assert_eq!(error.message(), text);
    }
}

#[test]
fn messages_with_fixed_text() {
    let cases = [
        (MmsError::InvalidLength, "malformed ber length field"),
        (MmsError::TruncatedPdu, "mms pdu is truncated"),
        (MmsError::InvalidUtf8, "invalid utf-8 in a string field"),
        (MmsError::InvalidPdu, "malformed mms pdu"),
        (MmsError::RejectUnrecognizedService, "mms reject: unrecognized service"),
        (MmsError::RejectRequestInvalidArgument, "mms reject: request invalid argument"),
        (MmsError::RejectUnknownPduType, "mms reject: unknown pdu type"),
        (MmsError::RejectInvalidPdu, "mms reject: invalid pdu"),
        (MmsError::RejectOther, "mms reject: other"),
        (MmsError::decode("no service"), "informationreport decode failed: no service"),
        (
            MmsError::DefineNamedVariableListMissingField("listOfVariable"),
            "definenamedvariablelist is missing a field: listOfVariable",
        ),
        (
            MmsError::AlternateAccessUnsupported("component is empty"),
            "alternateaccess form is not supported: component is empty",
        ),
    ];
    for (error, text) in cases {
        assert_eq!(error.message(), text);
    }
}

#[test]
fn length_errors_become_pdu_errors() {
    assert_eq!(MmsError::from(Asn1Error::TruncatedInput), MmsError::TruncatedPdu);
    assert_eq!(
        MmsError::from(Asn1Error::LengthTooLong { octets: 5 }),
        MmsError::InvalidLength
    );
}
