# redoxide

A proxy that stands in front of one Minecraft server. It answers the server list itself, starts the
server's container when a player logs in, keeps the player waiting until the server is up, passes
the connection on, and stops the container some time after the last player has left.

## Layout

- `src/` is the verified library: everything that decides or computes something.
  - `protocol/`: variable-length integers, packets, strings and the handshake.
  - `text`, `json`: small readers and writers of text, and JSON through `serde_json`.
  - `config`, `version_cache`: the settings, and the version that is kept between runs.
  - `status`, `probe`: the packets that the proxy writes itself, and asking the server its version.
  - `state`: what all connections share.
  - `proxy`: the life of one connection as a state machine.
  - `lifecycle`: what holds over the whole life of a connection, and of many side by side.
  - `docker`: stopping the container, and the RCON packets for it.
- `app/` is the program around it: sockets, timers, files, the Docker daemon and logging.
- `tests/` runs the library on concrete values.

The functions in the library state what they do in `requires` and `ensures`; the promises that
span several functions are the `law_` functions.

## What is taken on trust

The library calls `serde_json`, `String::from_utf8`, `String::from_utf8_lossy`,
`str::to_lowercase` and `String::push`. What is claimed of each stands above its declaration in
`src/json.rs` and `src/text.rs`.
