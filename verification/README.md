# pbh

A BitTorrent anti-leech helper: every few seconds it logs in to the
configured qBittorrent instances, reads their peers, judges each peer
against a set of rules (peer-id and client-name lists, progress cheating,
idle connections, IP lists and subscriptions, BTN cloud rules) and writes
the peers it convicts into the downloader's ban list.

The decision logic is written in Verus and proved against its contracts.

## Layout

- `src/` — the verified library: the domain model (peers, torrents, bans),
  the ban list and its expiry, the rule engine and its modules, the
  progress-cheat blocker, the ban wave's step function (what to do
  next, from the state and what the last piece of work reported), the BTN
  protocol framing, configuration defaults, the downloader state machine
  and the web API's helpers.
  Calls into outside crates (regex, IP parsing, the longest-prefix table,
  SHA-256, semver, randomness) sit behind small trusted wrappers whose
  contracts say what each call returns.
- `app/` — the program around the library: `main`, HTTP clients and the
  web server, the database, the timer that drives the wave loop (it
  performs each step the library asks for) and the other I/O.
  It hands the library plain values and acts on what comes back.
- `tests/` — scenario tests that run the compiled library.
