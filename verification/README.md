# block_validator

Validation of blocks of a blockchain: a block is put through a series of
validations (duplicates and dependencies, on-chain rules, permissions), then its
batches are executed and the resulting state is compared with the one that the
block claims. The latest results are remembered in a bounded store.

- `src/` is the library, verified with Verus.
  - `processor` runs validations on a block; `duplicates`, `rules`, `permission`
    and `batches` are the validations; `validator` puts them together and hands
    blocks out to threads; `worker` holds the decisions of such a thread.
  - `store` remembers results, `result` and `error` are what validation yields,
    `block` is what it is given, `service` is what it relies on.
  - `laws` and `store_laws` state what holds over several calls.
- `app/` holds the locks, the channels and the threads.
- `tests/` runs the library.

Nothing is assumed of a service: a contract names the call that is made to it,
and says what follows from whatever is answered. The trusted items are the cache
behind the store (`uluru`) and hexadecimal notation (`hex`).
