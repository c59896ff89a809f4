# ro-camel-iwf

A charging interworking core between CAMEL call control and a Diameter Ro
online charging system, written in Verus. Its logic is verified against
specifications stated over mathematical models; the program around it only
reads, writes and sends.

## Layout

- `src/` — the verified library.
  - `wire.rs` — big-endian fields.
  - `diameter/` — frame codec (`codec.rs`), AVP construction and lookup
    (`avps.rs`), the narrow credit-control profile (`profile.rs`) and its
    round-trip laws (`laws.rs`).
  - `charging.rs` — the CAMEL-side charging state machine and its laws.
  - `imscap.rs` — the Ro server state machine facing a TAS and its laws.
  - `store.rs` — deduplication, replay, capacity and outbox decisions of the
    durable store.
  - `tables.rs` — the store's three tables as maps: what an event and an
    acknowledgement do to them, with the replay and refusal laws.
  - `json.rs` — JSON string escaping of the deduplication key.
  - `runtime.rs` — runtime limits, admission, session routing and shard
    file layout.
  - `text.rs` — identifier rules, UTF-8 reading and decimal text.
- `tests/` — scenario tests of the library.
- `app/` — the program: redb-backed store, worker threads, JSON harness and
  benchmark (`lab`, `outbox`, `bench`, `imscap-sim`).
