# contract_audit

Static audit rules for NEAR and Solana smart contracts, with their behaviour stated
and proved in Verus.

- `src/syntax.rs`, `src/tokens.rs`: the syntax tree and the token streams that the
  rules read.
- `src/walk.rs`, `src/calls.rs`, `src/functions.rs`, `src/patterns.rs`,
  `src/attributes.rs`, `src/call_graph.rs`: visits of the tree and questions asked of
  it.
- `src/flow.rs`: whether control gets past a block.
- `src/text.rs`, `src/search.rs`, `src/bytes.rs`, `src/literals.rs`: text.
- `src/quotes.rs`: which part of a printed text is code, and which stands inside of
  literals.
- `src/cfg.rs`: which `cfg` attributes keep an item out of every build but the one
  for tests.
- `src/caller_identity.rs`: which locals hold the account that called.
- `src/detector.rs`, `src/finding.rs`, `src/context.rs`: what a rule is, and what it
  reports on a file.
- `src/detectors/`: the rules. Each states in `reports_on` exactly what it reports on
  a file; `detect` is proved to report that.
- `app/`: parses source text with syn and runs the rules on it.

Proof functions whose names begin with `law_` state what holds across functions: that
test code is not reported on, that every finding names its rule and its file, that the
two evaluations of a `cfg` predicate agree, and more.
