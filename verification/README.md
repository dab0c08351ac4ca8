# stakenet_simulator

Tools around the Jito stakenet steward: a backtest command that replays
the steward's decisions over past epochs, and an epoch-rewards tracker
that records stake accounts, inflation rewards and validator histories in
Postgres.

- `src/` is the verified library (Verus): row shaping and batched insert
  statements for the database (`db`), the command shell's parsing and the
  backtest's parameter overrides and simulation plan (`cli`), the tracker's
  request planning, reward pairing, stake-account sampling and RPC filters
  (`tracker`), with account addresses (`pubkey`) and text helpers (`text`).
- `app/` is the program around it: command-line arguments, configuration
  from the environment, RPC and database I/O, and the async plumbing.
- `tests/` exercises the library on concrete values.
