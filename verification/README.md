# remote

The verified core of the remote project service.

- `src/git_host.rs`: which git host a remote or pull-request URL names, and
  the GitHub owner and repository a remote URL points at.
- `src/text.rs`: the character-sequence operations those rest on (search,
  split, suffix trimming), specified over `Seq<char>`.
- `src/db/`: the statement that sets the `electric_sync` role's password,
  what a new project's metadata column receives, the column enumerations,
  the repositories' namespaces and the rows the handlers reply with.
- `src/routes/`: the HTTP handlers' decisions, as state machines that take the
  answer to the last database or membership request and give the next request.

`app/` holds the service around it: the sqlx queries, the axum handlers that
drive the state machines, and the serde forms of the library's types.
