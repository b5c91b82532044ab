# elephantry_lints

The logic of a set of lints for code that uses the Elephantry PostgreSQL
client, verified with Verus:

- `src/lints/invalid_query.rs`: for a call of the client, the SQL text to
  validate and the statement (an anonymous block that returns before the
  SQL) that asks the server to parse it; `$*` placeholder numbering.
- `src/lints/param_arg_count.rs`: the number of positional parameters of a
  query against the number of arguments passed with it.
- `src/lints/mix_param_type.rs`: queries that mix `$*` and `$n`.
- `src/lints/pager_start_page.rs`: pagers asked for page 0.
- `src/result.rs`: a refused statement and its report, with a caret under the
  column that the server names.
- `src/patterns.rs`: the regular expressions run through the `regex` crate,
  with what their results are stated to be.
- `src/text.rs`: character-sequence helpers (comparison, decimal notation,
  reading numbers).

`app/` holds the compiler plugin itself: lint passes that turn the
compiler's expressions into the plain values of `src/lints/mod.rs`, run the
planned statements against a database and emit the diagnostics.
