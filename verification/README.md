# solana-validator-optimizer

Tooling for Solana validator operators, written in Verus: the library in
`src/` is verified, the command-line front end in `app/` performs the I/O.

Library modules:

- `config` – the settings and their clean-up after loading.
- `rpc_cache` – a bounded LRU cache of RPC responses (the `lru` crate) with
  per-entry expiry and request/hit/miss/upstream counters.
- `upstream` – which RPC call a cache key stands for, and the response text.
- `rpc_health` – the health report of an RPC endpoint from its probe results.
- `snapshot` – snapshot source planning, download status and SHA-256 checks.
- `priority_fee` – priority-fee estimates and their risk classification.
- `lite` – the single-binary optimizer's summary, simulated fetch and
  snapshot naming.
- `text` – whitespace trimming, prefixes, decimal and hex rendering.

The `app/` binary (`svo`) reads `Config.toml` and `OPTIMIZER_*` variables,
talks to the Solana node, downloads snapshots and serves Prometheus metrics.
Run with no subcommand, it starts every module at once (single-binary mode).
