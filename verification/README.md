# chronos

The core of a small time-series database, verified with Verus.

- `src/types`: readings and their 16-byte encoding, canonical tag sets (kept in
  key order, so equal tag sets are equal sequences), series, queries.
- `src/index`: the series index (one id per metric and tag set, ids from 1),
  the series metadata store, the inverted tag index and the cardinality
  tracker, each kept in a `dashmap::DashMap` reached through trusted wrappers.
- `src/memtable`: the in-memory table, frozen tables, and the manager that
  freezes the active table at a threshold.
- `src/wal`: the 24-byte log entry format and log replay.
- `src/chunk.rs`, `src/codec.rs`, `src/errors.rs`: chunk types, the JSON codec's
  identity, the table of codecs by name, and the error type.
- `app/`: file and async I/O (write-ahead log writer, filesystem chunk store),
  serde and thiserror copies of the library's types, the process-wide codec
  registry around the library's codec table, locked wrappers for sharing the
  indexes and the memtable manager between threads, and the chunk guard.

Values are 64-bit floats in the database; the library holds them by their bit
patterns (`f64::to_bits`), which `app/` converts.
