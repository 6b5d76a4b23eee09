# crosshair

Decision core of a convergence executor for bullseye targets: given documents, stored state and
the time, it decides which strategies to run, what an attempt at one amounted to, what is to be
remembered of it, and until when a failing target rests. Each decision is a verified function
with an exact contract, and the properties that span several of them are public proof functions
whose names begin with `law_`.

- `src/schema.rs`, `src/loader.rs`: documents, and the targets in them that carry a strategy.
- `src/runner.rs`: when a strategy is due, and the outcome of an attempt.
- `src/store.rs`: the state of a target, its row in the database, and the states that stand in
  for rows that could not be written.
- `src/tick.rs`: what a tick does about a target, and the backoff ladder.
- `src/status.rs`: the status table.
- `src/cli.rs`: the command line.
- `src/instant.rs`, `src/text.rs`, `src/path.rs`: points in time, texts and paths.
- `src/duration.rs`: which texts can be parsed as a duration without overflow.
- `src/outside.rs`: calls into `chrono`, `croner`, `humantime` and the standard library, with
  the contracts that are taken on trust.
- `app/`: the program around the library, with its files, database, processes and clock.
