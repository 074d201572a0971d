# cockatiel_client

Client SDK for connecting a module to the Cockatiel engine, with its behaviour
stated in contracts and proved by Verus.

- `src/` is the verified library. It holds what the client decides and
  computes:
  - `env_file`: the `.env` file format, loading it and merging pairs into it;
  - `config`: the connection settings, from the config file, the environment
    and the command line, and back into the config file;
  - `handshake`: opening a session in two phases, and opening its socket anew;
  - `client`: the frames of a session and the engine's answer to a request;
  - `receiving`: receiving containers, with liveness probes answered on the
    way;
  - `transport` and `tls`: the rules for dialling and the pinned certificate;
  - `text`, `number`, `json`, `proto`: what these are made of.
- `env_laws`, `config_laws` and `session_laws` state what holds of these
  modules as a whole.
- `tests/` runs the library on concrete values.
- `app/` is the program around the library: sockets, files, the environment and
  the clock. It needs the `cockatiel_proto` crate, which defines the wire
  format.

The functions marked `external_body` call `serde`, `serde_json`, `rustls`,
`rustls-pemfile` and `uuid`. Their contracts are taken on trust; a comment above
each says what is claimed.
