# Pulse Field Lab: candidate-family compression, verified

A synthetic fixture of 100 transformations times 100 quantities, decided three ways:

- the oracle and the eager engine evaluate every candidate state exactly;
- the resolving engine splits the candidate space at the novelty and
  sensitive region boundaries, rejects a family whose optimistic profit bound
  is not positive, and reuses or invalidates a cached Safe Ignorance
  certificate for the novelty region.

Layout:

- `src/model.rs`: constants, data types, the work tally.
- `src/economics.rs`: per-candidate economics and the family bound.
- `src/counting.rs`: counting and collecting the candidate states of a rectangle.
- `src/engines.rs`: oracle, eager engine, exact family resolution, stale suppression.
- `src/pulse.rs`: the resolving engine and its certificates.
- `src/laws.rs`: properties of the engines together (no false advances, agreement
  with the oracle under a sound certificate, each state decided once, fewer expansions).
- `app/main.rs`: runs both phases and prints the report and the correctness gate.
