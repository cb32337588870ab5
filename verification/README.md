# etl_destinations

What a replication pipeline needs to decide when it writes Postgres changes to BigQuery, ClickHouse,
Iceberg and Snowflake, as a library whose behaviour is stated in contracts and proved with Verus.

- `src/` is the library. It turns events into rows and passes, writes statements, plans schema
  changes, truncates and cleanups, retries what can be retried, and reads what the destinations
  answer. It does no input or output. Beside the destinations it holds the statements that manage
  publications, the layout of the API server and the reports of benchmarks.
- `tests/` runs the library on concrete values, with the crates that it calls.
- `app/` performs what the library asks for: requests to Postgres, BigQuery, ClickHouse and
  Snowflake, files, clocks and tasks.

Functions that are marked `external_body` call other crates; their contracts are believed, and their
comments say what is claimed of which function. Properties that span several functions are proof
functions whose names begin with `law_`.
