# rustdirlister

A small web server that lists the contents of a directory, shows the
directory's `README.md`, searches entry names, and can require a login.

- `src/` is the library, verified with Verus: request paths and routing
  decisions, the README cache, the bounded name search, credentials and
  sessions, the cookie signing key, the rendering of modification times
  (proved to be the civil date and time of the file's timestamp shifted by
  a zone offset of less than a day; the offset itself comes from chrono), and, for the single-threaded file server, request parsing and the heads of
  its responses.
- `app/` is the program around it: the axum server (`main.rs`) and the
  single-threaded file server (`prototype.rs`, started with the argument
  `prototype`). It does the network and file I/O, renders templates from
  `templates/*.html` with tera, and serialises listings to JSON.
- `tests/` exercises the library on concrete values.

Configuration files read at start-up: `PATH` (the served directory), `HOST`
(address and port, `127.0.0.1:8000` by default) and `USER` (`login password`;
when present, browsing requires logging in).
