# spyglass

The crawl queue of a personal search engine, as a verified library: which URLs
may enter the queue, which task leaves it next, and what becomes of a task once
it has been crawled. Verus proves the contract of every function of `src/`, but for
the wrappers around outside crates named below.

## Layout

- `src/settings.rs`, `src/task.rs`, `src/time.rs`, `src/text.rs`: the data, and
  the mathematical views that contracts speak of.
- `src/rules.rs`, `src/address.rs`, `src/filter.rs`: the patterns of lenses and of
  the block list, and which URLs they let in.
- `src/enqueue.rs`, `src/batch.rs`, `src/adding.rs`: tasks for new URLs, in batches,
  and the steps of adding them.
- `src/query.rs`: which tasks a query means, and the statements that are written
  out as SQL.
- `src/dequeue.rs`, `src/lifecycle.rs`: taking, finishing, retrying and renaming
  tasks. Each of these functions, like `enqueue_step`, maps an event to the next
  action on the database; the caller performs the action and hands its outcome
  back.
- `src/backend.rs`: the order in which the parts of the backend start and stop.
- `src/table.rs`: the table of the queue as a mathematical object. The `law_`
  functions here and in the other modules state what holds of the queue when the
  database answers faithfully.
- `app/`: the server around the library, which talks to the database. It is built
  within its workspace, next to the crates `api`, `entities`, `libspyglass`,
  `migration` and `shared`.
- `tests/`: tests of the library, with a table in memory as the database.

## What is trusted

The library calls `regex` (`RegexSet::new`, `is_match`, `is_empty`), `url`
(`Url::parse` and the accessors of a parsed URL) and `chrono` (the difference of
two instants in days). What is believed of each call is stated at its wrapper, in
`src/rules.rs`, `src/address.rs` and `src/time.rs`.
