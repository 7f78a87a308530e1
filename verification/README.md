# invofi

The InvoFi invoice-financing protocol as a verified library: the invoice
registry and its verification oracle, financing offers and their
negotiation, the insurance pool and its tiered products, the event index,
the all-in-one invoice registry contract, and the shared lifecycle,
governance and versioning rules. Every decision is a method on a contract's
state type with a `requires`/`ensures` contract proved by Verus; the laws
the protocol keeps (frozen settled invoices, bounded negotiations, balanced
pools, strictly increasing versions, ...) are public proof functions.

Layout:

- `src/` — the verified library, one module per contract or shared concern.
- `tests/` — scenario tests run against the compiled library.
- `app/` — the Soroban contracts around the library: storage, caller
  authentication, cross-contract reads, token movements and events.
