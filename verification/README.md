# onion_message_target

A fuzz target for the handling of onion messages, with its logic verified in Verus.

The target reads an onion message from the bytes that a fuzzer feeds. If there is
one, it is delivered to a node with a fixed secret key, and the node's messenger
reports what it makes of it to a logger.

`secp256k1` can be built in two configurations, and a fuzz target is usually built in
the `fuzzing` one, with a stub in place of the curve's points. There messages are read
whose points are not on the curve, which the ordinary configuration passes over. The
contracts hold in both: `stub_built` in `src/curve.rs` tells the two apart, and
`is_public_key` says for each which points are read.

- `src/bytes.rs`: byte strings as big-endian numbers.
- `src/curve.rs`: keys and scalars of the secp256k1 curve.
- `src/keys.rs`: the node's key provider.
- `src/message.rs`: onion messages on the wire.
- `src/target.rs`: what is delivered, and to whom.
- `src/writer.rs`: a writer that keeps what it is given.
- `app/`: the entry points, which run the messenger.
