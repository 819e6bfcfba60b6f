# aquatic

BitTorrent tracker logic as a verified library: the functions in `src/`
carry contracts that Verus proves, except the small wrappers around other
crates described below, whose contracts are trusted.

- `common`: access lists, socket addresses, command line options, times.
- `udp`: the UDP tracker: peer maps and torrents, connection ids, request
  handling, pending scrapes, send buffers, the decisions of the worker
  loops (periodic tasks, resending), peer client counts and statistics.
- `http`, `http_protocol`: the HTTP tracker's swarm, request routing,
  response framing and forwarded peer addresses.
- `peer_id`: the BitTorrent client that a peer id names.
- `bencher`, `load_tester`: CPU lists, benchmark sets, and what a run reads
  from the load tester's output.
- `decimal`, `text`, `collections`, `ordered`: shared specifications and
  helpers.

Calls into other crates (`indexmap`, `arrayvec`, `hashbrown`, `slab`,
`regex`, `hex`, `blake3`, `getrandom`, `hdrhistogram`, `rand`) go through
small wrappers whose contracts state what those crates document.

`app/` holds the program around the library: command line, configuration
file, logging and worker threads. `tests/` exercises the library.
