# ai_memory

The admission webhook chain of the memory wiki and the instruction-block
stripper of the uninstall command, verified with Verus.

- `src/admission.rs`: lifecycle operations, failure policies, webhook
  configs and the per-write context.
- `src/chain.rs`: the chain and every decision around its webhook calls,
  as step functions from what a call gave to the next action; a model of a
  whole run (`run_from`) with the laws it keeps.
- `src/instructions.rs`: removal of the instruction block, with its
  round-trip laws.
- `src/outside.rs`: the outside types and the client build.
- `app/lib.rs`: serde forms of the types and the async loops that make the
  HTTP calls the chain asks for.
