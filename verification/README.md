# orchard_keys

The key structures of Orchard, with their derivation verified by Verus.

- `src/keys.rs` holds the keys: from a spending key come the keys that authorize and
  validate spends, the full, incoming and outgoing viewing keys, and with a diversifier the
  payment addresses.
- `src/model.rs` says what every key is, as a function of the spending key.
- `src/laws.rs` states and proves what holds of the keys as a whole.
- `src/protocol.rs` holds the functions that keys are derived with, `src/redpallas.rs` the
  signatures that authorize spends, `src/pallas.rs` the curve, `src/address.rs` payment
  addresses, and `src/bytes.rs` little-endian integers.
- `app/` serves callers that bring a random number generator of their own.

The hashes, the curve, the commitment, the signature scheme and the encryption are those of
other crates. Each call into one of them is a small private function whose doc comment names
the function that it calls and says what is taken of it without proof.
