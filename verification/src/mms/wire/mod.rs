//! The wire format, octet by octet.
//!
//! The laws in these files spell out what goes over the wire: each takes values of the
//! library's types, or the octets of an element, and writes the tags, lengths and
//! numbers that belong to them as literals. Nothing here is executable.

pub mod associations;
pub mod basics;
pub mod exchanges;
pub mod journals;
pub mod messages;
pub mod name_lists;
pub mod names;
pub mod reports;
pub mod types;
pub mod values;
