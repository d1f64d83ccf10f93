# skype_rs

Self-hosted services of a hybrid peer-to-peer signaling network: a login
server, supernodes that keep a peer directory and route signals, and a UDP
relay for peers behind NAT.

- `src/` is the verified library (Verus): configuration defaults and service
  addresses, newline-delimited framing, password hashing and session checks,
  the plan that opens (and once recreates) the SQLite database, the login
  service's decisions, the supernode's directory and request handling, and the
  relay's routing table. Contracts are stated over views (`Seq`, `Map`, `Set`);
  the laws that span several calls are public proof functions next to the code
  they speak of.
- `app/` holds what cannot be verified: TOML and JSON (de)serialization, the
  SQLite queries, sockets, timers and the per-connection loops that run the
  library's decisions.
- `tests/` exercises the library on concrete values.
