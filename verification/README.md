# simulated_anneal

A simulated annealing toolkit with a verified core.

- `src/` — the Verus-verified library:
  - `rng`: `SimpleRng`, a 64-bit linear congruential generator. Its contracts
    state the exact recurrence (`lcg_step`), the seed-zero remapping, the
    53-bit fraction draw, the boolean draw and that a clone is in the same
    state (so it draws the same stream); proof functions show that each
    step flips the low bit of the state (so the state never repeats
    immediately and boolean draws alternate) and that seed zero and seed one
    give the same stream.
  - `accept`: the `MetropolisAccept` criterion type.
  - `multistart`: `MultiStartAnnealer` and its constructor (at least one start).
- `app/` — the floating-point layer, in ordinary Rust: `f64` draws, temperature
  schedules, acceptance rules, state spaces, and the annealing, multi-start and
  reheating drivers.
- `tests/` — tests of the library.
