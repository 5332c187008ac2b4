# archscan

A TCP/UDP port scanner. The library (`src/`) holds its logic, verified with
Verus: parsing of port specifications (`"0-1024"`, `"22,80,443"`, `"80"`),
classification of TCP and UDP probe outcomes, the UDP payloads, the
bookkeeping of scan results and what the interface shows of them. The
program (`app/`) holds the window (eframe/egui) and the network probes, run
concurrently on a tokio runtime.

- `src/text.rs`: whitespace trimming, `u16` parsing and decimal rendering.
- `src/scanner/ports.rs`: port specifications, with their laws.
- `src/scanner/tcp.rs`, `src/scanner/udp.rs`: probe payloads and outcomes.
- `src/scanner/mod.rs`: planning a scan run and its progress law.
- `src/models.rs`: configuration and results.
- `src/sorting.rs`: insertion sorts proved against `Seq::sort_by`.
- `src/overview.rs`: active ports and service names.
