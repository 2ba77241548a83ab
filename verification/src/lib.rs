//! The MMS layer of an IEC 61850 client: PDU codecs and the client logic on top of them.
//!
//! Every encoder and decoder states in its contract which octets it writes, or which value
//! or error it returns for which octets. The proof functions named `law_*` state what holds
//! between them, such as that what is written is read back.

pub mod asn1;
pub mod buffer;
pub mod mms;
pub mod text;
