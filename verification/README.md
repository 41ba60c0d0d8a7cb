# serp_tokens

A ledger for many stable currencies whose supply is elastic: balances that can
be transferred, reserved, locked and slashed, and a supply that expands and
contracts so that the price of a currency returns to its base unit.

- `src/` is the library. Every operation takes a ledger (`Pallet`) to another,
  and its contract says which: `State` is the mathematical model of a ledger,
  and each operation has a function on `State` that says what it leaves behind
  and one that says when it may be called. `guards` tests the latter.
- `src/laws/` states and proves what holds of the ledger as a whole. Among it:
  an operation that settles the total issuance issues and takes back what it
  says, as long as a change of supply is not paid for with the currency itself;
  where everything issued is held by someone, such an operation does not
  overflow, given that a change of supply can be paid for; a balance stays
  frozen up to the largest of its locks; an imbalance that is settled makes up
  for what it was handed out for; and the system is told of every entry that
  comes or goes.
- `app/` is the ledger as a module of a runtime: storage, events, calls, and the
  traits under which other modules use it.
- `tests/` runs the library on concrete ledgers.

The one thing taken on trust is `account::module_of`, which asks
`sp_runtime::ModuleId` whether an account belongs to a module.

Two lines of `Cargo.toml` name crates that nothing here calls:
`substrate-bip39` and `syn` hold what `sp-runtime` and `frame-support` depend on
to versions with which they build.
