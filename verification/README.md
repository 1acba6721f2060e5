# rust-axum-server

A small HTTP service over a SQLite `user` table, with its logic verified by Verus.

- `src/` is the verified library:
  - `biz::decimal` reads decimal integer text as Rust's integer `FromStr` does, and writes it;
  - `biz::string_to_number` reads a numeric field from a JSON number or from text;
  - `biz` holds the request and row types, the pagination defaults and the name rule;
  - `api::dmail::user` builds the SQL of the listing and insert routes, with the proof
    that the positionally bound values match the statement's named parameters;
  - `svr::error` maps the service's errors to HTTP statuses and messages;
  - `server` holds the listening port and runtime thread count;
  - `api::test1`, `api::test2` hold fixed route answers.
- `app/` is the program: the axum router and handlers, the database and Redis
  connections, the ntex middlewares, the sockets and the runtimes.
- `tests/` runs the library on concrete values, comparing with `str::parse` and `serde_json`.
