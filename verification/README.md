# github_actions_demo

A small item service, verified with Verus.

- `src/` is the verified library: the item model (`model`), item identifiers
  (`ids`), errors (`error`), the storage interface and its in-memory backend
  (`store`), the service layer (`handler`), pagination (`pagination`), named
  counters (`metrics`), configuration (`config`), email and UUID checks
  (`validation`), text helpers (`text`, `formatting`), a calculator
  (`calculator`), and proofs of how the operations relate (`laws`).
- `app/` is the program around it: the entry point, reading the configuration
  from the environment, and the JSON forms of the library's types.
- `tests/` runs the library on concrete values.
