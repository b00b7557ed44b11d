# escrow

Milestone-based escrow between a client and a freelancer, with an optional
arbiter, protocol fees, disputes, finalization, client hand-over, reputation
and admin governance.

- `src/` is the verified library. `escrow::Escrow` holds the whole ledger as
  plain values; every entrypoint is a method with a contract that says exactly
  when it fails, with which error, and what it changes. `src/laws.rs` states
  the properties that span several calls (accounting conservation, frozen
  finalized contracts, one reputation per completed contract, the status
  index, pagination, timelocks, milestone deadlines).
- `app/` is the Soroban contract around it: it authenticates callers, maps
  addresses to the library's numeric account handles, moves tokens as the
  library's results say, publishes events and persists the ledger.
- `tests/` exercises the library on concrete scenarios.
