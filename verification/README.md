# internal_api

The internal API of a remote desktop server: commands for the remote desktop ability over
zenoh, their acknowledgement, the account on the loopback address, and the options, the
identity and the daily password of the server.

- `src/` is the verified library.
  - `ability`, `subscription`: the commands that arrive and what they ask for.
  - `worker`, `worker_laws`: the worker that acknowledges commands, reports connections and
    stops an ability that nobody is connected to, and what holds over any course of events.
  - `account`, `ack`, `json`: what is reported and published, and the JSON values it is made
    of.
  - `session`, `service`: how the zenoh session is configured and in which order the service
    comes up.
  - `setup`: in which order the server is set up.
  - `options`, `identity`, `password`, `date`: what the server gives itself.
  - `text`: texts as sequences of characters.
- `app/` is the ordinary Rust around it: sockets, the zenoh session, clocks, locks, and the
  `Host` trait that the program around the internal API implements.
- `tests/` runs the library with the outside crates linked.

What is taken on trust are the contracts of the items marked `external_body` and
`assume_specification`: calls into `serde_json`, `zenoh`, `sha2`, `chrono` and the standard
library, each described where it stands.
