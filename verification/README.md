# meridian_routes

The decisions behind the HTTP routes of Meridian, a catalog of Iceberg tables,
written in Rust and verified with Verus.

A route is a function from what is known to the next step: what to ask, what to
write, or how to answer. The functions in `src/` hold the rules; each one's
`ensures` says exactly which step it takes, and proof functions beside them
state what holds of a whole request (that a refused commit leaves no file
behind, that a table of another catalog is never written, that a page token
leads back to where the page ended).

- `src/` is the library. `text`, `textmap`, `textset`, `levels`, `limits` and
  `handles` hold what the routes share; `error` and `grants` hold the answers
  and the access checks; the other modules hold one group of routes each.
- `tests/` runs the library on concrete values.
- `app/` is the server side of it: axum handlers that read a request, perform
  the steps against a `Backend` and the database, and render the answer.

What the library believes of other crates stands in a few small items marked
`external_body` or `assume_specification`, each with a doc comment that says
what is believed: the
hexadecimal encoding of page tokens and paths, ULIDs and UUIDs, percent-encoding
of path segments, and RFC 3339 timestamps; and, of the standard library, what
`String::push` appends, which bytes `String::from_utf8` reads as a text, lower
case (`str::to_lowercase`), and how a text is quoted (its `Debug` form).
