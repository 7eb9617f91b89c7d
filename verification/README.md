# amr_backend

The decision logic of an autonomous-mobile-robot platform (a backend API, an
asset manager and a map manager), written in Verus and proved against its
contracts.

- `src/` is the verified library: the mission lifecycle, the API's request
  decisions (login, bearer tokens, asset paths, partial updates, pagination,
  the WebSocket subscription session), configuration parsing, Argon2 password
  hashing and checking, asset listing statements, tile storage keys, the
  roadmap graph, and the reading of a route out of a search's predecessor
  links.
- `app/` is the server around it: HTTP routing, PostgreSQL and S3 access, the
  TCP link to the simulation engine, JSON Web Tokens, and the A* search over
  floating-point edge costs.
- `tests/` exercises the library on concrete inputs.
