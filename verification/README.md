# QuickLendX

A verified library for an invoice-financing protocol: businesses that have been vetted store
invoices, investors bid on them, an accepted bid funds its invoice and is held in escrow, and an
admin freezes, verifies, backs up and restores.

The ledger is a plain value, `env::Env`: everything that is stored, the time, who has signed the
call, and the trail of events. An entry point is a function of `contract::QuickLendXContract` on
that value. Its contract names a refusal (`..._refusal`, the first rule that turns the call down)
and an effect (the ledger after the call); a refused call leaves the ledger as it was.

## Layout

- `src/contract/` - the entry points: admin, backups, bids, escrow, invoices, vetting.
- `src/` - what they work on: `bid`, `invoice`, `storage`, `index`, `payments`, `verification`,
  `protocol_limits`, `idempotency`, `backup`, `invariants`, on top of `table`, `lists`, `bytes`.
- `src/laws/` - what holds of the protocol as a whole, as proof functions.
- `src/host.rs` - the two computations that are left to the ledger host (XDR and SHA-256), and
  what is believed of them.
- `app/` - the protocol as a contract on the ledger host: signatures, time, storage, events.
- `tests/` - the protocol at work on concrete values.

Signatures are preconditions: where the host would stop a call that was not signed, the entry
point requires that `Env` lists the signer.
