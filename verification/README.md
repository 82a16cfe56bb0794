# rs_threads_board

A discussion board: members sign up and in, open threads with tags, and
comment on them in a small markdown dialect.

- `src/` is the verified library: the markdown renderer (`markdown`, with
  its laws in `markdown_laws` and the proof that it keeps text UTF-8 in
  `markdown_utf8`), HTML escaping and the board's records
  (`model`, `user`, `raw_html`), tokens (`login`), text operations
  (`text`, `text_laws`), request routing and content negotiation (`routing`,
  `common`), the statements the store is queried with (`db_conn`), and one
  state machine per group of routes (`comments`, `threads`, `profile`,
  `tags`, `preview`, `users`, `assets`).
- `app/` is the server: it reads the settings, talks to MySQL, reads
  requests and writes responses, and runs the handlers' state machines.
- `tests/` runs the library on concrete values.
