# oxllm

A gateway that routes requests to language model providers, with the commands to run it, to watch
it and to control it.

- `src/` is the library: the rules that the gateway and its commands follow, each stated in a
  contract and proved with Verus.
- `app/` is the program around it: the command line, files, processes, sockets and the HTTP server.
  It takes the parsing and validation of the configuration, the telemetry and the handlers of the
  API from the `oxllm_core` crate.
- `tests/` runs the library.

Where the library calls another crate (`axum`, `rand`, `reqwest`, `serde_json`), it does so in small
functions marked `#[verifier::external_body]`, in the modules `headers`, `request_id`, `state`,
`client` and `json`. Their contracts are believed, not proved.
