# jsserve

A web server whose pages are made by scripts. A script registers a handler for
each path, connects to a database, and may register a builder for a cached
document that the handlers read.

`src/` is a library verified with Verus. It decides everything that can be decided
without running a script or touching the network:

- `routes`: which handler a path has, and which paths are served;
- `request`: what the runner is asked, and what a client is answered when no reply
  comes back;
- `run`: one run of a handler, from the request to the reply;
- `dispatch`: the loop that runs each request and sends each reply to its own
  channel;
- `reply`: how the object that a handler gives becomes a reply;
- `cache`: the cached document and the parts of it that can be asked for;
- `ops`, `sql`: what scripts can do, and how the parameters of a statement are
  bound;
- `connect`: how a database is opened;
- `setup`, `auth`, `plain`: where the scripts are found, who is let in, and a
  server that shows texts only.

`json` describes the `serde_json` values that all of these work on.

`app/` is the program around the library: the script engine, the HTTP server and
the database connection.
