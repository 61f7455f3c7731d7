# login_server

The wire format and request handling of a Knight Online 1.298 login server,
verified with Verus.

- `src/protocol.rs`: packet framing (`0xAA 0x55 [length: u16 LE] [payload] 0x55 0xAA`),
  the protocol's string encoding, and the replies to the version, download-info,
  login, server-list and news opcodes, each specified over byte sequences,
  with the framing laws.
- `src/login.rs`: reading a login request and deciding it from the stored
  account record; the account lookup itself is the caller's.
- `src/standalone.rs`: the version-only handler of the minimal server.
- `src/config.rs`: configuration and server-state records.
- `app/`: the TCP server (tokio) and the deserializable copies of the
  configuration records (serde).
