# enemy_ai_engine

A hierarchical, data-oriented decision engine for game agents (HDDE):
entities live in a struct-of-arrays registry, hold a fixed number of beliefs,
commit to the best-scored candidate action, report threats up the command
hierarchy and receive intents down it, with delivery latency.

## Layout

- `src/` — the library, verified with Verus.
  - `core_types/` — identifiers, ticks, actions, the seeded generator, and
    `Scalar`/`Vec3`: single-precision values held as their IEEE-754 bit
    patterns, compared exactly as `f32` compares them.
  - `belief/` — belief records and the fixed-size belief store
    (insert-or-update with eviction of the least confident belief, removal
    of stale beliefs).
  - `comm/` — messages and the channel that delivers them when due.
  - `registry/` — the entity registry (slot allocation on `fixedbitset`,
    parents and children), plus the `fixedbitset` calls and their contracts.
  - `stages/` — the pipeline stages that only compare or move data:
    ingestion, commit, propagation, and the filing of delivered messages.
  - `bridge/` — host-interface codes and the host traits.
- `app/` — the floating-point stages (decay, needs, candidate generation,
  utility scoring, confidence loss in transit), the engine loop, the C
  interface, and serialisable copies of the plain types.
- `tests/` — tests of the library.
