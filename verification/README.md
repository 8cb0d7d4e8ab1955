# linexus_orch

The planning core of the Linexus orchestrator, with its contracts proved.

- `src/plan.rs`, `src/plan/action.rs`: resolution of an intent into a
  `TransactionPlan`, the canonical step actions, and the laws that every plan obeys.
- `src/params.rs`: `Params`, the parameter map that requests and steps carry,
  kept in increasing order of its keys.
- `src/api.rs`: the bearer-token decision and the answer to a plan request.
- `src/text.rs`: character-level string operations (trim, prefixes, equality,
  constant-time comparison).
- `app/`: the HTTP service (axum), its JSON wire types, and the economy-line
  modules that depend on `linexus-core`.
