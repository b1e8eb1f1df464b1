# qqh

A small personal message log. Entries are numbered from zero and kept with the
time at which they were written in a [redb](https://docs.rs/redb) database. They
are listed page by page, the newest first, and one password guards every change.

- `src/` is the library, verified with Verus. `store`, `auth`, `clock` and `page`
  hold the few functions that call outside crates; their contracts are taken on
  trust and say so. `journal` is the log, `page` the home page, `service` the
  requests, `client` the command line's view of a running service, `error` the
  errors and their answers, and `laws` what holds over several operations.
  A function that changes the log borrows the database exclusively and says what
  the database holds afterwards; one that reads it answers from what was committed
  last.
- `tests/` runs the library with the real crates on databases in memory.
- `app/` is the program: the command line, the web server and the HTTP client.
