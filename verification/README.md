# seagull

The request logic of the seagull web server, verified with Verus.

- `src/` — the library: HTTP heads as plain values (`http`), text helpers
  with exact specifications (`text`), content types (`files::content_type`,
  `content_type`), cache validators and entity tags (`files::etag`), the
  handlers' routing decisions (`handler`), the rendering byte stream
  (`renderer`) and the GraphQL root queries (`graphql`).
- `app/` — the server program around it: axum and hyper networking, files,
  the PostgreSQL pool and the juniper schema.
- `tests/` — tests of the library.

The rendering script's runtime (deno) is not included. The library holds
the byte stream that a script writes into and the lookup of that stream
among the runtime's resources; rendered pages come from a separate renderer
server.
