//! Types shared by the PDUs: names, values, access specifications and results.

pub use crate::asn1::{effective_nesting_cap, MAX_DATA_NESTING_DEPTH};
pub use crate::mms::pdu::access::{AccessResult, DataAccessError, WriteOutcome};
pub use crate::mms::pdu::alternate_access::{AlternateAccess, AlternateAccessSelector};
pub use crate::mms::pdu::data::MmsData;
pub use crate::mms::pdu::integer::{encode_signed_int_minimal, encode_unsigned_int_minimal};
pub use crate::mms::pdu::object_name::{ObjectName, MAX_IDENTIFIER_LEN};
pub use crate::mms::pdu::variable_access::{ListOfVariableEntry, VariableAccessSpecification};
