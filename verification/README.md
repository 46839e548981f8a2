# ming_qiao

A message bus and knowledge pipeline for a fleet of agents, with its logic
verified by Verus.

- `src/events`: the event schema and the reader of the append-only event log.
- `src/db`: the indexer that folds events into threads, messages, decisions,
  artifacts and agent state, and the persisted snapshot of that state.
- `src/crypto`: signed envelopes (Ed25519), the keyring, and the nonce
  registry that rejects replays.
- `src/astrolabe`: the ingestion pipeline: processors for arXiv links and
  PDFs, web articles and X posts, the Atom feed reader, de-duplication and
  the envelopes that carry what was found.
- `src/fleet`: the decisions of the fleet's daemons and tools (observer,
  wake tracking, colloquium voice, CVE sweep, metrics, orchestrator,
  handover, oracle ingest, avatars, comms), each as functions from plain
  values to plain values.
- `src/text.rs`, `src/codec.rs`, `src/strmap.rs`: text helpers, hex and
  SHA-256 codecs, and a map keyed by text.
- `app/`: the programs around the library: argument handling, files,
  network, NATS and HTTP, and the loops that hand events to the library.

Every function in `src/` carries a contract that Verus proves; calls into
outside crates (quick-xml, chrono, ed25519-dalek, sha2, hex, base64, rand)
stand behind small trusted wrappers whose contracts say what those crates
document.
