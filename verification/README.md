# vynkor-sdk

What a Vynkor plugin decides and computes on its connection to the kernel,
verified with Verus: the frames it sends and takes in, their tags, the
reassembly of fragments, registration, requests and their deadlines, the life
of a plugin, and confirmation gates for high-risk operations.

- `src/` is the library. It does no input or output and reads no clock.
  Functions state in `requires` and `ensures` what they do; the modules
  `client_laws`, `plugin_laws` and `confirmation_laws`, and the public proof
  functions of the others, state what holds beyond a single call.
- `app/` is the asynchronous side: sockets, clocks, environment, Protobuf and
  the `Plugin` trait.
- `tests/` run the library on concrete values.

## What is not proved

The library calls four things that Verus does not read, each behind a small
function whose doc comment says what it claims: the CRC-32 of `crc32fast`,
HMAC-SHA256 of `hmac` and `sha2`, HKDF-SHA256 of `hkdf`, and reading and
writing JSON objects with `serde_json`.
