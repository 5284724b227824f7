# star

The reasoning core of Star, a local reasoning assistant, written in Verus:
the functions under `src/` carry contracts that Verus proves. The ones
that read the clock or draw a random number state only what holds of every
reading; the calls into `std`, `serde_json` and `rand` that they rest on are
trusted, each with a doc comment saying what is claimed of it.

## Layout

- `src/` — the verified library.
  - `math/` — propositional logic (parsing, evaluation, truth tables,
    equivalence), proof strategies, and the math engine's dispatch.
  - `metacog/` — surprise detection, the log of reasoning sessions and
    belief revisions, the internal critic, and structured
    curiosity/surprise/insight/revision intents.
  - `learning/` — hypothesis identifiers, candidate patterns from examples,
    word counts and the patterns a domain's examples share.
  - `multistep_abstraction_reuse.rs` — the certified abstraction registry and
    its bounded search for concrete chains and reusable abstractions.
  - `omega_*` — the shadow observers, bridges and plans that watch the
    runtime without influencing it: bounded, replayable, with closed
    authority boundaries.
  - `neural/network.rs` — the order a network runs its neurons in (Kahn's
    topological order).
  - `persistence/`, `multimodal/`, `llm/`, `neural/`, `pain/` — the records,
    enums and small rules of those subsystems, the working-memory buffer and
    the identity summary.
  - `text.rs`, `json.rs`, `digest.rs`, `atom.rs`, `combinatorics.rs` —
    shared text, JSON framing, FNV digests, atoms and counting.
- `tests/` — tests of the library, run against the real outside crates.
- `app/` — what stays outside the proofs: floating-point scores and
  embeddings, the numeric algebra solver, file and network I/O, the SQLite
  store, the process environment, and serde copies of the library's
  records.

Laws of the library are public proof functions named `law_*`.
