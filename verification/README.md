# mqtt_proto

Encoding and decoding of MQTT v3.1.1 / v3.1 and v5.0 packets, verified with Verus.

- `src/` is the library. Every decoder is specified by a spec parser over the
  input bytes (`sp_*` functions) and every encoder by the byte sequence it
  produces (`spec_encode`). The laws that tie them together are proof
  functions:
  - decoding the encoding of a well-formed packet gives it back, whatever
    bytes follow it (`v3::lemma_packet_roundtrip`, `v5::lemma_packet_roundtrip`);
  - every proper prefix of that encoding decodes to "not enough bytes"
    (`v3::lemma_packet_prefix`, `v5::lemma_packet_prefix`);
  - reading the encoding from a stream byte by byte gives the packet back
    too (`lemma_packet_stream_roundtrip`,
    `poll::lemma_feed_header_matches_decode`);
  - each v5 property list decodes from its encoding;
  - packet identifiers add and subtract as a cycle that skips zero;
  - the total and remaining lengths of a packet determine each other.
- `src/poll.rs`, `src/v3/poll.rs` and `src/v5/poll.rs` hold the decisions of
  the stream reader as a state machine; `app/` drives it over asynchronous
  streams with `futures-lite`, and writes encoded packets.
- `tests/` runs the library on concrete packets.

UTF-8 validation is done by `simdutf8`, behind one trusted function
(`text::check_utf8`) whose contract states that it accepts exactly the valid
UTF-8 byte sequences.
