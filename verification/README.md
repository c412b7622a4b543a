# Extraction MMO

The control logic of an extraction MMO as a library of functions over plain
values, verified with Verus, and the programs around it.

- `src/` is the library.
  - `gatekeeper` assigns joining players to servers, issues and confirms tokens,
    and keeps the gatekeeper's certificate.
  - `orchestrator` keeps one idle server, scales up on load, drains what is too
    much or does not answer, and spawns servers on Docker or Kubernetes.
  - `game::server` is one shard: registration, connections, and what players'
    commands lead to each tick. `game::client` is the client apart from its
    window.
  - `stress` is the load generator.
  - `command`, `fields`, `redis_keys`, `scripts` and `store` are the shared
    store: the commands to it, the replies, the scripts that it runs, and a model
    of it that the laws speak of.
  - `wire`, `certs` and `ident` are the doors to the codec, the certificates and
    the identifiers of other crates.
- `app/` is the programs: they perform what the library decides and hand back
  what came of it.
- `tests/` runs the library.

Each flow that waits for the outside (a join request, a spawn, a player's
connection, a bot) is a state machine: `step` takes what happened and gives the
next action. For the request, the spawns and the bot a law says that the outcome
of an action is always an event that the machine takes in; for the connection,
that whatever happens on it is cleaned up after.
