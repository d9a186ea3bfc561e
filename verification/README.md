# radio-backend

The backend of a shared LAN radio station ("world"): listeners request songs
into one playlist, an admin reorders, removes and skips, an audio executor
plays the playlist, and stations on one network find each other by UDP
beacons.

## Layout

- `src/` is the verified library (Verus). Its modules:
  - `queue/` holds the playlist as a table of rows (`table.rs`), the station
    rules on top of it (`rules.rs`: cooldown, rate limit, capacity, add, move,
    remove, skip, start, purge), the views handed to listeners (`views.rs`)
    and the laws that every rule keeps (`laws.rs`).
  - `auth.rs`: device tokens (cookie, `x-device-token`, bearer), display
    names, admin checks, whether a request really comes from the local
    host, and the device cookie plan.
  - `world.rs`: the world snapshot, world commands and their translation to
    executor commands.
  - `discovery.rs`: the registry of stations seen on the network, beacon
    handling and the sorted list of peers.
  - `clock.rs`, `text.rs`, `error.rs`, `models.rs`, `physical.rs`,
    `poller.rs`: time stamps, string helpers, errors, data types, the
    side that owns storage and audio, and the playback poller's decisions.
- `app/` is the program around it: HTTP routes, SQLite persistence, the UDP
  socket, the tokio tasks and the JSON forms of the library's types.
- `tests/` runs the library on concrete values.
