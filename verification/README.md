# snowflake

Discord- and Twitter-style snowflake identifiers, with the layouts, the
generator state machine and the text form verified by Verus.

* `src/layout.rs` – bit layouts (fast: 42-bit timestamp, 5-bit worker,
  5-bit generator, 12-bit increment; slow: 42-bit timestamp, 10-bit worker,
  12-bit increment), packing, decoding, and the laws relating them.
* `src/state.rs` – a generator's state and how a clock reading advances it;
  successive snowflakes of one generator are strictly increasing.
* `src/runs.rs` – laws over whole runs of clock readings: a generator's
  snowflakes strictly increase, generators with different ids never collide,
  and a new worker id keeps the slow generator's snowflakes distinct.
* `src/clock.rs` – the current time since the custom epoch
  2026-08-01T00:00:00Z (`1785542400000` ms since the Unix epoch).
* `src/generator.rs` – fast generators shared behind a lock, the per-thread
  slot of a fast generator, and the slot of the slow generator.
* `src/text.rs` – reading and writing a snowflake as decimal text.
* `app/` – the HTTP server, what the Postgres extension's functions do
  (without the pgrx declarations, as pgrx is not a dependency), and the process-wide and per-thread slots with
  the waits for the clock to move on.
