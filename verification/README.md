# thegent-cache

A multi-tier cache, verified with Verus: an L1 least-recently-used tier
(`lru`) for hot data in front of an L2 concurrent map (`dashmap`) for warm
data, with expiry, hit statistics and domain events, laid out as ports and
adapters.

- `src/domain`: keys, values, TTLs, timestamps, entries, events.
- `src/ports`: the interfaces to the stores, each operation's effect given
  by spec functions that an adapter defines.
- `src/adapters`: the two-tier cache (`inmemory`) over the two outside
  stores (`hot_tier`, `warm_tier`), its laws (`tiered_laws`), and the logic
  of the file-based cache (`persistent`).
- `src/application`: commands, queries, use cases, and what the CLI decides.
- `app/`: the command-line program and the file I/O of the persistent cache.

Time is read once per operation from the system clock as nanoseconds since
the Unix epoch; each operation that reads it has a twin taking the time as
an argument, verified for every value of it.
