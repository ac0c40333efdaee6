# qcext-server

The server behind a comic database: which characters, locations and
storylines appear in which comic, with editing by token holders, a log of
every change and statistics for readers.

- `src/` is the library, verified with Verus: identifiers and item kinds,
  colors, navigation ordering, storyline segmentation, statistics shaping,
  request validation, access tokens, log paging and the plan behind every
  editing endpoint (what to write, what to log, what to answer, or why to
  refuse). Its laws (round trips, the order of identifiers, the coverage of
  storyline segments, the permutation made by last-appearance ordering, caps
  on statistics lists) are proof functions beside the code they speak of.
- `app/` is the HTTP server (actix-web over MySQL through sqlx): it reads
  requests, runs the queries, hands plain values to the library and sends its
  answers back. It serves the current API under `/v3`, the item routes of the
  previous one (among them the random comic of an item) under `/v2`, and the
  oldest comic and log routes at the root. Run with `DATABASE_URL` set; `qcext-server unescape <file>`
  rewrites a file of MySQL-escaped text in place.
- `tests/` exercises the library on concrete values.
