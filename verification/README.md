# acp-agent

`acp-agent` installs, runs and serves agents that speak the Agent Client Protocol. This crate
holds its rules as executable Rust with contracts that Verus proves, and a command line around
them in ordinary Rust.

## Layout

- `src/` is the library. It does no I/O: it decides, and says what is to be done.
  - `text`, `order`, `paths`, `failure`, `digest`: the ground that the rest stands on.
  - `registry`, `runner`, `yolo`: which distribution of an agent is used, and the command that
    starts it.
  - `installer`: package managers, local toolchains, and the cache of binary distributions. Its
    `binary` part plans downloads, admits archive entries, digests payloads, publishes entries
    and recovers what was left behind.
  - `serve`: one agent over HTTP and WebSocket: options, slots for processes, the health of
    launches, and the end of a server.
  - `server`: named servers: the control protocol, the supervisor with its instances and routes,
    and the client's side.
  - `commands`: what the command line prints.
- `app/` is the command line: arguments, files, processes, sockets and HTTP. The catalog of yolo
  modes is data: it is fetched, and a release ships a copy as `yolo-modes.json` beside the program
  for use without a network.
- `tests/` runs the library from outside.

## How to read the contracts

Each type has a view over sequences and mathematical numbers, and each operation says what it
returns, or how it changes its value, over those views. Errors are stated together with the
inputs on which they come. Work that alternates with the outside world is a state machine: the
library takes an event and gives the next action, and `app/` performs it.

Properties that span several operations are public proof functions whose names begin with `law_`.

Calls into other crates stand behind small functions with `external_body`. Their doc comments
name the outside function and what is taken of it. A result that takes too long to describe has a
name, a spec function without a body, and the code around it is proved for every value of it.
