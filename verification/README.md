# iec61850_mms

The MMS layer of an IEC 61850 client, written and verified in Verus.

## Layout

- `src/asn1.rs`: BER lengths and the nesting ceiling.
- `src/buffer.rs`: what is believed of the buffers of the `bytes` crate.
- `src/text.rs`: UTF-8 texts, decimal and hexadecimal spelling.
- `src/mms/error.rs`, `src/mms/binary_time.rs`: PDU errors and their messages; BinaryTime.
- `src/mms/pdu/`: the PDUs, one module per service. `ber.rs`, `integer.rs` and
  `confirmed.rs` are shared by all of them.
- `src/mms/client/`: the client without its transport: invokeIDs, the association, the
  requests of the services and what their answers come to.
- `tests/`: tests on concrete PDUs.
- `app/`: the async and blocking clients over TCP and TLS.

## How to read the contracts

A type with texts or lists in it has a view, named after it with `View`. On the view,
`octets()` is the encoding and `parse(..)` what octets decode to. An encoder ensures that it
appends `octets()`, and a decoder that its result agrees with `parse(..)`, error by error.
The proof functions `law_*` relate the two.

Lengths are written with at most two length octets, so the round trips are stated for
contents of up to 65535 octets under the outermost tag.
