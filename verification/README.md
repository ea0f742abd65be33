# ensip25

ENSIP-25 links an ENS name to an AI agent registered in an on-chain registry
(such as ERC-8004) through the text record

```text
agent-registration[<registry>][<agentId>]
```

where `<registry>` is the ERC-7930 interoperable address of the registry.

The library in `src/` is written in Verus and verified:

- `erc7930` — the interoperable address, its wire encoding and decoding, hex
  text, and the EVM helpers (minimal big-endian chain ids, 20-byte addresses);
  the round-trip laws between encoding and decoding are proof functions here.
- `hex` — hex text of byte strings, stated as sequences, and the two calls
  into `alloy_primitives::hex` it rests on.
- `record_key` — building record keys and validating agent ids; the key
  determines the registry and the agent id.
- `text` — decimal text of integers.
- `verify` — what an ENS text-record lookup means for verification.
- `error` — the error type and its display text.

`app/` holds what performs network I/O (the ENS lookup through alloy), the
serde form of the verification status, and the `std::error::Error` form of the
error.
