# agent_riff_v2

Competitive riffing between agents, with bootstrap generations that inherit
what earlier generations learned, and a balanced-ternary encoding packed two
bits per trit. The library in `src/` is verified with Verus.

- `src/trit.rs`: `Trit`, its `i8` and two-bit conversions, and `pack_16`,
  whose contract fixes every two-bit field of the packed word.
- `src/quality.rs`: `Quality`, `ResponseMode` and `SurpriseLevel`, the band a
  surprise score falls in among the thresholds the session rules use
  (0.2, 0.3, 0.7, 0.8); `ResponseMode::auto` chooses a mode from a band.
- `src/riff.rs`: `Riff` and `Round`; a round ranks its riffs (best agent is
  the last riff of greatest quality, gap is greatest minus least quality).
- `src/memory.rs`: `RiffMemory`, which counts learned rounds and recommends
  modes.
- `src/label.rs`: session labels `gen-<generation>` in decimal.
- `src/session.rs`: `FleetRiffSession` (rounds, riffs, evaluation, metrics,
  bootstrapping of the next generation) and its well-formedness invariant.

Surprise scores are real numbers. The library never holds them: it is told
the band of a round's running total when a riff is added. `app/` keeps the
scores, sums them in the order a session adds them, classifies the totals,
and computes the real-valued figures (productivity, average surprise).
