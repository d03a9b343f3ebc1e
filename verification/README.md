# oracle-marketplace

A Soroban marketplace for oracle providers, verified with Verus. Providers post
a bond and serve calls; callers escrow a bounty for each call. A provider that
answers accurately is paid out of the bounty, one that answers inaccurately has
part of its bond slashed.

- `src/` is the verified library. `marketplace` holds the contract's functions,
  `model` says what each of them does to the ledger, and `requests`, `validity`,
  `custody` and `laws` state what holds across requests: which states can be
  reached, that the contract holds the tokens it owes, and what is final.
- `app/` is the Soroban contract around it. It loads the stored entries that a
  request concerns, calls the library, and performs the host calls that the
  library asks for.
- `tests/` run the library against the SDK's test host.

The library keeps a log of the host calls that an invocation makes (authorization,
storage writes, token transfers, events). Contracts speak of this log, so they fix
not only what is stored but also what is asked of the host, and in which order.
