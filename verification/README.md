# ai_agent_os

A system-monitoring agent for a Hyprland desktop: it collects metrics, reads
the systemd journal, listens to compositor events, raises alerts, decides on
and carries out remediations, and keeps a history for anomaly detection.

## Layout

- `src/` — the verified library (Verus). Every function carries a contract
  over `Seq`/`Map`-level models of its arguments:
  - `text` — decimal numbers, `FromStr` parsing, Unicode trimming, searching;
  - `log` — journal priorities, records turned into entries, filters (their
    journal matches, start position and the entries they select), formatting;
  - `hyprland` — the compositor's socket paths, IPC framing and event lines;
  - `agent` — the agent state and its bounded alert list;
  - `history` — bounded rolling windows;
  - `intelligence` — decisions, actions and their recorded outcomes, the state
    manager and its history;
  - `anomaly` — the detector's windows of readings and its baselines;
  - `decision`, `remediation` — the autonomy gate (manual mode proposes fixes
    instead of applying them), safe mode and remediation planning;
  - `phantom`, `nats`, `network`, `gui` — configuration rules and small records.
- `tests/` — tests of the library.
- `app/` — the program around it: sockets, the journal, sysinfo, SQLite,
  HTTP, the event bus, the async loops, and the computations on `f32`
  readings (thresholds, averages, z-scores), which the library does not hold.
