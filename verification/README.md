# AIO IDEA

The host of a plugin workspace: it publishes, installs, activates, serves and rolls out plugins
for the tenants that share it. A plugin is a set of page definitions, a WebAssembly component or a
process; a component of the second generation comes as one bundle with its front end.

- `src/` is the library, verified with Verus: what the host accepts and refuses, in which order it
  does things, what it undoes when a step fails, and what it answers.
  - `outside.rs` holds every function of another crate that the library calls, with what is taken
    for granted of it. Nothing else is taken on trust but `String::push`, in `text.rs`.
  - `html.rs` puts elements into the heads of HTML documents, step by step; `json.rs` says how texts
    are written as JSON.
  - `steps.rs` and the `..Progress` types describe work that the outside world performs: a progress
    says what was done so far, and its `next` says what is to be done now.
  - The `..Row` types hold what the rows of a table hold. What follows from several calls is stated
    over them, and the statements of `app/` must agree with them.
  - `runtime/server/` is the host itself, `runtime/server/components/` its components,
    `runtime/server/delivery/` the way from a repository to a published plugin.
  - `workspace.rs`, `pages/` and `runtime/client.rs` are what a client shows.
- `tests/` runs the library with the crates it calls.
- `app/` is the program around it: routes, tables, sockets, containers and widgets. What only the
  platform has (sessions, package formats, repositories, engines) comes in through the traits of
  `app/ports.rs`.
