# memcache

A memcached client library whose logic is verified with Verus, and the ordinary
Rust that runs it.

- `src/` is the library. Its functions state what they return or change in their
  contracts, and Verus proves it. It holds the two classic protocols (`protocol`),
  their values and errors (`value`, `error`), what URLs ask for (`connection`,
  `tls`), how keys are shared out (`client`), datagrams (`stream`), and under
  `exp` the meta protocol: commands and responses (`meta_command`, `meta_api`,
  `base64`), operations and results (`operation`, `semantics`, `result`), batches
  and the attribution of failures (`batch`), pools, framing and routing (`pool`,
  `connection`, `router`), typed values and lifetimes (`value`, `ttl`), and the
  scenario verbs (`verb`, `scenario`, `many`, `memcache`). Laws that relate
  several functions are public proof functions beside them, and in `roundtrip`
  and `guarantees`.
- `tests/` runs the library on concrete values.
- `app/` opens sockets, pools connections, spawns tasks and runs loaders. It hands
  plain values to the library and does what the library decides.

What the library takes from outside crates and from std without proof stands in
small functions marked `external_body`, each with what it claims, if anything:
`big_endian` (byteorder), `connection::parse_parts` (url),
`stream::udp_stream` (rand), the hashing of keys in `client` and `exp::router`,
text conversions in `text`, the clock in `time`, and callers' own errors in
`exp::error`.
