# network_engine

Backend coordination for a Windows network engine, written in Verus: the
data structures, state machines and decision rules of its capture,
interception, filtering and telemetry backends carry contracts that Verus
proves.

- `src/` — the verified library, one module per backend (`npcap`,
  `windivert`, `wfp`, `etw`, `iphelper`), the backend manager (`manager`),
  backend descriptors (`contracts`), observation correlation
  (`correlation`), and shared pieces (`net`, `text`, `error`, `clock`,
  `namemap`).
- `tests/` — tests of the library.
- `app/` — what the library leaves to its host: floating-point ratios,
  `std::net` address conversions and, on Windows, the native calls whose
  outcomes the library's functions judge.
